use perlsub::default_max_parallel;
use perlsub::sandbox::{sandbox_command, Invocation, SandboxConfig};

const PRELUDE: &str =
    "BEGIN { binmode STDIN, ':encoding(UTF-8)'; binmode STDOUT, ':encoding(UTF-8)'; }";

fn config(allow_dirs: &[&str]) -> SandboxConfig {
    SandboxConfig {
        bwrap: "/bin/bwrap".to_string(),
        perl: "/bin/perl".to_string(),
        prlimit: "/bin/prlimit".to_string(),
        timeout: "/bin/timeout".to_string(),
        allow_dirs: allow_dirs.iter().map(|dir| dir.to_string()).collect(),
    }
}

fn strings(items: &[&str]) -> Vec<String> {
    items.iter().map(|item| item.to_string()).collect()
}

#[test]
fn default_capacity_is_sixteen() {
    assert_eq!(default_max_parallel(), 16);
}

#[test]
fn command_for_one_expression_and_one_directory() {
    let invocation = sandbox_command(&strings(&["s/a/b/"]), &config(&["/nix/store"]));
    assert_eq!(
        invocation,
        Invocation {
            program: "/bin/timeout".to_string(),
            args: strings(&[
                "--signal",
                "TERM",
                "--kill-after",
                "1s",
                "0.5s",
                "/bin/prlimit",
                "--memlock=65535",
                "--rss=4194304",
                "--cpu=2",
                "/bin/bwrap",
                "--unshare-all",
                "--proc",
                "/proc",
                "--dev",
                "/dev",
                "--ro-bind",
                "/nix/store",
                "/nix/store",
                "/bin/prlimit",
                "--nproc=1",
                "/bin/perl",
                "-Mutf8",
                "-lpe",
                PRELUDE,
                "-E",
                "s/a/b/;",
            ]),
            env: vec![("LANG".to_string(), "C".to_string())],
        }
    );
}

#[test]
fn command_without_directories_and_expressions() {
    let invocation = sandbox_command(&Vec::new(), &config(&[]));
    assert_eq!(
        invocation.args,
        strings(&[
            "--signal",
            "TERM",
            "--kill-after",
            "1s",
            "0.5s",
            "/bin/prlimit",
            "--memlock=65535",
            "--rss=4194304",
            "--cpu=2",
            "/bin/bwrap",
            "--unshare-all",
            "--proc",
            "/proc",
            "--dev",
            "/dev",
            "/bin/prlimit",
            "--nproc=1",
            "/bin/perl",
            "-Mutf8",
            "-lpe",
            PRELUDE,
        ])
    );
}

#[test]
fn command_binds_each_directory_in_order() {
    let invocation = sandbox_command(&strings(&["s/a/b/"]), &config(&["/a", "/b c", "/d"]));
    assert_eq!(
        &invocation.args[15..24],
        &strings(&["--ro-bind", "/a", "/a", "--ro-bind", "/b c", "/b c", "--ro-bind", "/d", "/d"])[..]
    );
    assert_eq!(invocation.args[24], "/bin/prlimit");
    assert_eq!(invocation.args.len(), 21 + 3 * 3 + 2);
}

#[test]
fn command_appends_each_expression_as_a_statement_in_order() {
    let expressions = strings(&["s/a/b/", "s{c}{d}g", "s<é><ü>"]);
    let invocation = sandbox_command(&expressions, &config(&[]));
    assert_eq!(
        &invocation.args[21..],
        &strings(&["-E", "s/a/b/;", "-E", "s{c}{d}g;", "-E", "s<é><ü>;"])[..]
    );
}

#[test]
fn command_layers_stand_in_order() {
    let invocation = sandbox_command(&strings(&["s/a/b/"]), &config(&["/lib"]));
    let position = |needle: &str| {
        invocation.args.iter().position(|arg| arg == needle).unwrap()
    };
    assert_eq!(invocation.program, "/bin/timeout");
    assert!(position("--kill-after") < position("--memlock=65535"));
    assert!(position("--cpu=2") < position("/bin/bwrap"));
    assert!(position("/bin/bwrap") < position("--unshare-all"));
    assert!(position("--ro-bind") < position("--nproc=1"));
    assert!(position("--nproc=1") < position("/bin/perl"));
    assert!(position("/bin/perl") < position("-Mutf8"));
    assert!(position(PRELUDE) < position("-E"));
    assert_eq!(invocation.args.iter().filter(|arg| *arg == "/bin/prlimit").count(), 2);
}

#[test]
fn command_environment_is_the_portable_locale_alone() {
    let invocation = sandbox_command(&strings(&["s/a/b/"]), &config(&["/lib"]));
    assert_eq!(invocation.env, vec![("LANG".to_string(), "C".to_string())]);
}

#[test]
fn command_takes_the_tools_from_the_configuration() {
    let tools = SandboxConfig {
        bwrap: "B".to_string(),
        perl: "P".to_string(),
        prlimit: "L".to_string(),
        timeout: "T".to_string(),
        allow_dirs: Vec::new(),
    };
    let invocation = sandbox_command(&strings(&["s/a/b/"]), &tools);
    assert_eq!(invocation.program, "T");
    assert_eq!(invocation.args[5], "L");
    assert_eq!(invocation.args[9], "B");
    assert_eq!(invocation.args[15], "L");
    assert_eq!(invocation.args[17], "P");
}
