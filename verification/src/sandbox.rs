//! The sandbox: which program is started, with which arguments and in which
//! environment, to apply substitution expressions to a text in isolation.

use vstd::prelude::*;

verus! {

/// Where the sandboxing tools are, and which host directories the sandboxed
/// interpreter may read.
#[derive(Debug, PartialEq, Eq)]
pub struct SandboxConfig {
    pub bwrap: String,
    pub perl: String,
    pub prlimit: String,
    pub timeout: String,
    pub allow_dirs: Vec<String>,
}

/// `SandboxConfig` with its texts as sequences of characters.
pub struct SandboxConfigView {
    pub bwrap: Seq<char>,
    pub perl: Seq<char>,
    pub prlimit: Seq<char>,
    pub timeout: Seq<char>,
    pub allow_dirs: Seq<Seq<char>>,
}

impl View for SandboxConfig {
    type V = SandboxConfigView;

    open spec fn view(&self) -> SandboxConfigView {
        SandboxConfigView {
            bwrap: self.bwrap@,
            perl: self.perl@,
            prlimit: self.prlimit@,
            timeout: self.timeout@,
            allow_dirs: self.allow_dirs.deep_view(),
        }
    }
}

/// A program to start: its path, its arguments, and the variables that make
/// up its whole environment. Its three standard streams are pipes.
#[derive(Debug, PartialEq, Eq)]
pub struct Invocation {
    pub program: String,
    pub args: Vec<String>,
    pub env: Vec<(String, String)>,
}

/// `Invocation` with its texts as sequences of characters.
pub struct InvocationView {
    pub program: Seq<char>,
    pub args: Seq<Seq<char>>,
    pub env: Seq<(Seq<char>, Seq<char>)>,
}

impl View for Invocation {
    type V = InvocationView;

    open spec fn view(&self) -> InvocationView {
        InvocationView {
            program: self.program@,
            args: self.args.deep_view(),
            env: Seq::new(self.env@.len(), |i: int| (self.env@[i].0@, self.env@[i].1@)),
        }
    }
}

/// Arguments of the outermost layer, the wall-clock limit: after half a
/// second the whole group gets the terminate signal, and one second later
/// the kill signal.
pub open spec fn timeout_args() -> Seq<Seq<char>> {
    seq!["--signal"@, "TERM"@, "--kill-after"@, "1s"@, "0.5s"@]
}

/// Arguments of the resource-limit layer: locked memory, resident set size
/// and processor time.
pub open spec fn limit_args() -> Seq<Seq<char>> {
    seq!["--memlock=65535"@, "--rss=4194304"@, "--cpu=2"@]
}

/// One read-only bind of a directory onto itself for each of `dirs`.
pub open spec fn bind_args(dirs: Seq<Seq<char>>) -> Seq<Seq<char>>
    decreases dirs.len(),
{
    if dirs.len() == 0 {
        Seq::empty()
    } else {
        bind_args(dirs.drop_last()) + seq!["--ro-bind"@, dirs.last(), dirs.last()]
    }
}

/// Arguments of the namespace layer: every namespace unshared, a private
/// `/proc` and `/dev`, and the allowed directories read-only.
pub open spec fn namespace_args(dirs: Seq<Seq<char>>) -> Seq<Seq<char>> {
    seq!["--unshare-all"@, "--proc"@, "/proc"@, "--dev"@, "/dev"@] + bind_args(dirs)
}

/// Arguments of the inner resource-limit layer: a single process.
pub open spec fn process_cap_args() -> Seq<Seq<char>> {
    seq!["--nproc=1"@]
}

/// The statement that makes the interpreter read and write UTF-8.
pub open spec fn encoding_prelude() -> Seq<char> {
    "BEGIN { binmode STDIN, ':encoding(UTF-8)'; binmode STDOUT, ':encoding(UTF-8)'; }"@
}

/// Arguments of the interpreter: UTF-8 source, line-by-line processing with
/// printing, and the encoding prelude as the first statement.
pub open spec fn interpreter_args() -> Seq<Seq<char>> {
    seq!["-Mutf8"@, "-lpe"@, encoding_prelude()]
}

/// Each expression as a statement of its own, in order.
pub open spec fn statement_args(expressions: Seq<Seq<char>>) -> Seq<Seq<char>>
    decreases expressions.len(),
{
    if expressions.len() == 0 {
        Seq::empty()
    } else {
        statement_args(expressions.drop_last()) + seq!["-E"@, expressions.last() + ";"@]
    }
}

/// The arguments of the sandboxed run, outermost layer first.
pub open spec fn command_args(
    config: SandboxConfigView,
    expressions: Seq<Seq<char>>,
) -> Seq<Seq<char>> {
    timeout_args() + seq![config.prlimit] + limit_args() + seq![config.bwrap] + namespace_args(
        config.allow_dirs,
    ) + seq![config.prlimit] + process_cap_args() + seq![config.perl] + interpreter_args()
        + statement_args(expressions)
}

/// The environment of the sandboxed run: the portable locale and nothing
/// else.
pub open spec fn command_env() -> Seq<(Seq<char>, Seq<char>)> {
    seq![("LANG"@, "C"@)]
}

/// The sandboxed run for `expressions` under `config`.
pub open spec fn sandboxed(
    config: SandboxConfigView,
    expressions: Seq<Seq<char>>,
) -> InvocationView {
    InvocationView {
        program: config.timeout,
        args: command_args(config, expressions),
        env: command_env(),
    }
}

/// Appends `text` to `args`.
fn push_text(args: &mut Vec<String>, text: &str)
    ensures
        final(args).deep_view() == old(args).deep_view().push(text@),
{
    args.push(String::from_str(text));
    assert(args.deep_view() =~= old(args).deep_view().push(text@));
}

/// Appends the read-only binds of `dirs` to `args`.
fn push_binds(args: &mut Vec<String>, dirs: &Vec<String>)
    ensures
        final(args).deep_view() == old(args).deep_view() + bind_args(dirs.deep_view()),
{
    let ghost before = args.deep_view();
    let mut i: usize = 0;
    assert(args.deep_view() =~= before + bind_args(dirs.deep_view().take(0)));
    while i < dirs.len()
        invariant
            i <= dirs.len(),
            args.deep_view() == before + bind_args(dirs.deep_view().take(i as int)),
        decreases dirs.len() - i,
    {
        let ghost so_far = args.deep_view();
        push_text(args, "--ro-bind");
        push_text(args, dirs[i].as_str());
        push_text(args, dirs[i].as_str());
        proof {
            let next = dirs.deep_view().take(i + 1);
            assert(next.drop_last() =~= dirs.deep_view().take(i as int));
            assert(next.last() == dirs[i as int]@);
            assert(args.deep_view() =~= so_far + seq!["--ro-bind"@, next.last(), next.last()]);
            assert(args.deep_view() =~= before + bind_args(next));
        }
        i = i + 1;
    }
    assert(dirs.deep_view().take(i as int) =~= dirs.deep_view());
}

/// Appends one statement for each of `expressions` to `args`.
fn push_statements(args: &mut Vec<String>, expressions: &Vec<String>)
    ensures
        final(args).deep_view() == old(args).deep_view() + statement_args(
            expressions.deep_view(),
        ),
{
    let ghost before = args.deep_view();
    let mut i: usize = 0;
    assert(args.deep_view() =~= before + statement_args(expressions.deep_view().take(0)));
    while i < expressions.len()
        invariant
            i <= expressions.len(),
            args.deep_view() == before + statement_args(expressions.deep_view().take(i as int)),
        decreases expressions.len() - i,
    {
        let ghost so_far = args.deep_view();
        let mut statement = expressions[i].clone();
        statement.append(";");
        push_text(args, "-E");
        push_text(args, statement.as_str());
        proof {
            let next = expressions.deep_view().take(i + 1);
            assert(next.drop_last() =~= expressions.deep_view().take(i as int));
            assert(next.last() == expressions[i as int]@);
            assert(args.deep_view() =~= so_far + seq!["-E"@, next.last() + ";"@]);
            assert(args.deep_view() =~= before + statement_args(next));
        }
        i = i + 1;
    }
    assert(expressions.deep_view().take(i as int) =~= expressions.deep_view());
}

/// The sandboxed run that applies `expressions`, in order, to each line of
/// its standard input: the time limit round the resource limits round the
/// namespace isolation round the process cap round the interpreter.
pub fn sandbox_command(expressions: &Vec<String>, config: &SandboxConfig) -> (invocation:
    Invocation)
    ensures
        invocation@ == sandboxed(config@, expressions.deep_view()),
{
    let mut args: Vec<String> = Vec::new();
    assert(args.deep_view() =~= Seq::<Seq<char>>::empty());
    push_text(&mut args, "--signal");
    push_text(&mut args, "TERM");
    push_text(&mut args, "--kill-after");
    push_text(&mut args, "1s");
    push_text(&mut args, "0.5s");
    assert(args.deep_view() =~= timeout_args());
    push_text(&mut args, config.prlimit.as_str());
    push_text(&mut args, "--memlock=65535");
    push_text(&mut args, "--rss=4194304");
    push_text(&mut args, "--cpu=2");
    assert(args.deep_view() =~= timeout_args() + seq![config@.prlimit] + limit_args());
    push_text(&mut args, config.bwrap.as_str());
    push_text(&mut args, "--unshare-all");
    push_text(&mut args, "--proc");
    push_text(&mut args, "/proc");
    push_text(&mut args, "--dev");
    push_text(&mut args, "/dev");
    push_binds(&mut args, &config.allow_dirs);
    assert(args.deep_view() =~= timeout_args() + seq![config@.prlimit] + limit_args() + seq![
        config@.bwrap,
    ] + namespace_args(config@.allow_dirs));
    push_text(&mut args, config.prlimit.as_str());
    push_text(&mut args, "--nproc=1");
    push_text(&mut args, config.perl.as_str());
    push_text(&mut args, "-Mutf8");
    push_text(&mut args, "-lpe");
    push_text(
        &mut args,
        "BEGIN { binmode STDIN, ':encoding(UTF-8)'; binmode STDOUT, ':encoding(UTF-8)'; }",
    );
    assert(args.deep_view() =~= timeout_args() + seq![config@.prlimit] + limit_args() + seq![
        config@.bwrap,
    ] + namespace_args(config@.allow_dirs) + seq![config@.prlimit] + process_cap_args() + seq![
        config@.perl,
    ] + interpreter_args());
    push_statements(&mut args, expressions);
    let mut env: Vec<(String, String)> = Vec::new();
    env.push((String::from_str("LANG"), String::from_str("C")));
    let invocation = Invocation { program: config.timeout.clone(), args, env };
    assert(invocation@.env =~= command_env());
    invocation
}

/// The binds are three arguments for each directory, in the order of the
/// directories: the bind option and the directory twice.
pub proof fn lemma_bind_args(dirs: Seq<Seq<char>>)
    ensures
        bind_args(dirs).len() == 3 * dirs.len(),
        forall|j: int|
            0 <= j < dirs.len() ==> {
                &&& #[trigger] bind_args(dirs)[3 * j] == "--ro-bind"@
                &&& bind_args(dirs)[3 * j + 1] == dirs[j]
                &&& bind_args(dirs)[3 * j + 2] == dirs[j]
            },
    decreases dirs.len(),
{
    if dirs.len() > 0 {
        lemma_bind_args(dirs.drop_last());
        assert forall|j: int| 0 <= j < dirs.len() implies {
            &&& #[trigger] bind_args(dirs)[3 * j] == "--ro-bind"@
            &&& bind_args(dirs)[3 * j + 1] == dirs[j]
            &&& bind_args(dirs)[3 * j + 2] == dirs[j]
        } by {
            if j < dirs.len() - 1 {
                assert(bind_args(dirs.drop_last())[3 * j] == "--ro-bind"@);
                assert(dirs.drop_last()[j] == dirs[j]);
            }
        }
    }
}

/// The statements are two arguments for each expression, in the order of
/// the expressions: the evaluate option and the expression closed by a
/// semicolon.
pub proof fn lemma_statement_args(expressions: Seq<Seq<char>>)
    ensures
        statement_args(expressions).len() == 2 * expressions.len(),
        forall|i: int|
            0 <= i < expressions.len() ==> {
                &&& #[trigger] statement_args(expressions)[2 * i] == "-E"@
                &&& statement_args(expressions)[2 * i + 1] == expressions[i] + ";"@
            },
    decreases expressions.len(),
{
    if expressions.len() > 0 {
        lemma_statement_args(expressions.drop_last());
        assert forall|i: int| 0 <= i < expressions.len() implies {
            &&& #[trigger] statement_args(expressions)[2 * i] == "-E"@
            &&& statement_args(expressions)[2 * i + 1] == expressions[i] + ";"@
        } by {
            if i < expressions.len() - 1 {
                assert(statement_args(expressions.drop_last())[2 * i] == "-E"@);
                assert(expressions.drop_last()[i] == expressions[i]);
            }
        }
    }
}

/// Where each layer stands in the command: the time limit is the program
/// itself, and its arguments hold, in this order, the resource limits, the
/// namespace isolation with the binds of exactly the allowed directories,
/// the process cap, and the interpreter with one statement for each
/// expression.
pub proof fn lemma_command_layout(config: SandboxConfigView, expressions: Seq<Seq<char>>)
    ensures
        ({
            let args = command_args(config, expressions);
            let binds = 3 * (config.allow_dirs.len() as int);
            &&& sandboxed(config, expressions).program == config.timeout
            &&& args.len() == 21 + binds + 2 * expressions.len()
            &&& args.subrange(0, 5) == timeout_args()
            &&& args[5] == config.prlimit
            &&& args.subrange(6, 9) == limit_args()
            &&& args[9] == config.bwrap
            &&& args.subrange(10, 15 + binds) == namespace_args(config.allow_dirs)
            &&& args[15 + binds] == config.prlimit
            &&& args.subrange(16 + binds, 17 + binds) == process_cap_args()
            &&& args[17 + binds] == config.perl
            &&& args.subrange(18 + binds, 21 + binds) == interpreter_args()
            &&& args.subrange(21 + binds, args.len() as int) == statement_args(expressions)
        }),
{
    lemma_bind_args(config.allow_dirs);
    lemma_statement_args(expressions);
    let args = command_args(config, expressions);
    let binds = 3 * (config.allow_dirs.len() as int);
    assert(args.subrange(0, 5) =~= timeout_args());
    assert(args.subrange(6, 9) =~= limit_args());
    assert(args.subrange(10, 15 + binds) =~= namespace_args(config.allow_dirs));
    assert(args.subrange(16 + binds, 17 + binds) =~= process_cap_args());
    assert(args.subrange(18 + binds, 21 + binds) =~= interpreter_args());
    assert(args.subrange(21 + binds, args.len() as int) =~= statement_args(expressions));
}

} // verus!
