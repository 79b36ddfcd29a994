//! The expression filter: splits free-form text into lines and keeps the
//! lines that are substitution expressions.

use vstd::prelude::*;
use vstd::std_specs::iter::IteratorSpec;

verus! {

/// The characters that may open the pattern of a substitution: the slash and
/// the four opening brackets.
pub open spec fn is_delimiter(c: char) -> bool {
    c == '/' || c == '(' || c == '[' || c == '<' || c == '{'
}

/// A line is a substitution expression when it starts with `s` followed by a
/// delimiter.
pub open spec fn is_expression_line(line: Seq<char>) -> bool {
    line.len() >= 2 && line[0] == 's' && is_delimiter(line[1])
}

/// The line that asks for the message carrying it to be deleted.
pub open spec fn delete_directive() -> Seq<char> {
    seq![';', 'd', 'e', 'l']
}

/// Position of the first line feed at or after `from`, or the length of the
/// text when there is none.
pub open spec fn next_break(text: Seq<char>, from: int) -> int
    decreases text.len() - from,
{
    if from < 0 || from >= text.len() || text[from] == '\n' {
        from
    } else {
        next_break(text, from + 1)
    }
}

/// A line without the carriage return that stood before its line feed.
pub open spec fn without_cr(line: Seq<char>) -> Seq<char> {
    if line.len() > 0 && line.last() == '\r' {
        line.drop_last()
    } else {
        line
    }
}

/// The lines of `text` that begin at or after position `from`.
///
/// A line ends at a line feed, or at a carriage return directly followed by a
/// line feed; neither belongs to the line. The last line needs no line feed,
/// and a carriage return that ends it then stays.
pub open spec fn lines_from(text: Seq<char>, from: int) -> Seq<Seq<char>>
    decreases text.len() - from,
{
    if from < 0 || from >= text.len() {
        Seq::empty()
    } else {
        let end = next_break(text, from);
        if from <= end < text.len() {
            seq![without_cr(text.subrange(from, end))] + lines_from(text, end + 1)
        } else {
            seq![text.subrange(from, text.len() as int)]
        }
    }
}

/// The lines of `text`, in order.
pub open spec fn lines_of(text: Seq<char>) -> Seq<Seq<char>> {
    lines_from(text, 0)
}

/// `is_expression_line` as a value, for filtering sequences of lines.
pub open spec fn expression_test() -> spec_fn(Seq<char>) -> bool {
    |line: Seq<char>| is_expression_line(line)
}

/// The substitution expressions among the lines of `text`, in order.
pub open spec fn expressions_of(text: Seq<char>) -> Seq<Seq<char>> {
    lines_of(text).filter(expression_test())
}

/// Whether some line of `text` is the delete directive.
pub open spec fn has_delete_directive(text: Seq<char>) -> bool {
    lines_of(text).contains(delete_directive())
}

/// The positions, in `lines`, of the lines that the filter keeps.
pub open spec fn filter_positions(lines: Seq<Seq<char>>) -> Seq<int>
    decreases lines.len(),
{
    if lines.len() == 0 {
        Seq::empty()
    } else if is_expression_line(lines.last()) {
        filter_positions(lines.drop_last()).push(lines.len() - 1)
    } else {
        filter_positions(lines.drop_last())
    }
}

/// `String::push` of the standard library: the character is appended to the
/// end of the string and nothing else changes.
pub assume_specification[ String::push ](s: &mut String, ch: char)
    ensures
        final(s)@ == old(s)@.push(ch),
;

/// The characters of `text`, in order.
fn characters(text: &str) -> (chars: Vec<char>)
    ensures
        chars@ == text@,
{
    let mut chars: Vec<char> = Vec::new();
    for c in it: text.chars()
        invariant
            chars@ == it.seq().take(it.index() as int),
            it.seq() == text@,
    {
        chars.push(c);
    }
    chars
}

/// Position of the first line feed of `chars` at or after `from`.
fn find_break(chars: &Vec<char>, from: usize) -> (end: usize)
    requires
        from <= chars.len(),
    ensures
        end == next_break(chars@, from as int),
        from <= end <= chars.len(),
{
    let mut end: usize = from;
    while end < chars.len() && chars[end] != '\n'
        invariant
            from <= end <= chars.len(),
            next_break(chars@, from as int) == next_break(chars@, end as int),
        decreases chars.len() - end,
    {
        end = end + 1;
    }
    end
}

/// Where the line that begins at `from` stops, and where the next one begins.
fn line_bounds(chars: &Vec<char>, from: usize) -> (bounds: (usize, usize))
    requires
        from < chars.len(),
    ensures
        from <= bounds.0 <= chars.len(),
        from < bounds.1 <= chars.len(),
        lines_from(chars@, from as int) == seq![chars@.subrange(from as int, bounds.0 as int)]
            + lines_from(chars@, bounds.1 as int),
{
    let end = find_break(chars, from);
    if end < chars.len() {
        let stop = if end > from && chars[end - 1] == '\r' {
            end - 1
        } else {
            end
        };
        proof {
            let line = chars@.subrange(from as int, end as int);
            assert(without_cr(line) =~= chars@.subrange(from as int, stop as int));
        }
        (stop, end + 1)
    } else {
        proof {
            assert(lines_from(chars@, end as int) =~= Seq::<Seq<char>>::empty());
            assert(lines_from(chars@, from as int) =~= seq![
                chars@.subrange(from as int, end as int),
            ] + lines_from(chars@, end as int));
        }
        (end, end)
    }
}

/// The characters of `chars` from `from` up to `to`, as a string.
fn collect(chars: &Vec<char>, from: usize, to: usize) -> (line: String)
    requires
        from <= to <= chars.len(),
    ensures
        line@ == chars@.subrange(from as int, to as int),
{
    let mut line = String::new();
    let mut i: usize = from;
    while i < to
        invariant
            from <= i <= to <= chars.len(),
            line@ == chars@.subrange(from as int, i as int),
        decreases to - i,
    {
        line.push(chars[i]);
        i = i + 1;
        assert(line@ =~= chars@.subrange(from as int, i as int));
    }
    line
}

/// Whether `c` may open the pattern of a substitution.
fn delimiter(c: char) -> (yes: bool)
    ensures
        yes == is_delimiter(c),
{
    c == '/' || c == '(' || c == '[' || c == '<' || c == '{'
}

/// Whether the characters of `chars` from `from` up to `to` form a
/// substitution expression.
fn expression_at(chars: &Vec<char>, from: usize, to: usize) -> (yes: bool)
    requires
        from <= to <= chars.len(),
    ensures
        yes == is_expression_line(chars@.subrange(from as int, to as int)),
{
    to - from >= 2 && chars[from] == 's' && delimiter(chars[from + 1])
}

/// Whether the characters of `chars` from `from` up to `to` form the delete
/// directive.
fn directive_at(chars: &Vec<char>, from: usize, to: usize) -> (yes: bool)
    requires
        from <= to <= chars.len(),
    ensures
        yes == (chars@.subrange(from as int, to as int) == delete_directive()),
{
    let yes = to - from == 4 && chars[from] == ';' && chars[from + 1] == 'd' && chars[from + 2]
        == 'e' && chars[from + 3] == 'l';
    proof {
        let line = chars@.subrange(from as int, to as int);
        if yes {
            assert(line =~= delete_directive());
        } else if line.len() == 4 {
            assert(line[0] == chars@[from as int]);
            assert(line[1] == chars@[from + 1]);
            assert(line[2] == chars@[from + 2]);
            assert(line[3] == chars@[from + 3]);
        }
    }
    yes
}

/// Whether `line` is a substitution expression: `s` followed by a delimiter.
pub fn is_expression(line: &str) -> (yes: bool)
    ensures
        yes == is_expression_line(line@),
{
    let chars = characters(line);
    expression_at(&chars, 0, chars.len())
}

/// The lines of `text`, in order.
pub fn split_lines(text: &str) -> (lines: Vec<String>)
    ensures
        lines.deep_view() == lines_of(text@),
{
    let chars = characters(text);
    let mut lines: Vec<String> = Vec::new();
    let mut from: usize = 0;
    while from < chars.len()
        invariant
            from <= chars.len(),
            chars@ == text@,
            lines_of(text@) == lines.deep_view() + lines_from(chars@, from as int),
        decreases chars.len() - from,
    {
        let (stop, next) = line_bounds(&chars, from);
        let line = collect(&chars, from, stop);
        let ghost before = lines.deep_view();
        lines.push(line);
        assert(lines.deep_view() =~= before.push(chars@.subrange(from as int, stop as int)));
        assert(lines_of(text@) =~= lines.deep_view() + lines_from(chars@, next as int));
        from = next;
    }
    assert(lines_of(text@) =~= lines.deep_view());
    lines
}

/// The lines of `raw_exprs` that are substitution expressions, in the order
/// in which they stand in the text. Every other line is dropped.
pub fn filter_exprs(raw_exprs: &str) -> (exprs: Vec<String>)
    ensures
        exprs.deep_view() == expressions_of(raw_exprs@),
{
    let chars = characters(raw_exprs);
    let mut exprs: Vec<String> = Vec::new();
    let mut from: usize = 0;
    while from < chars.len()
        invariant
            from <= chars.len(),
            chars@ == raw_exprs@,
            expressions_of(raw_exprs@) == exprs.deep_view() + lines_from(
                chars@,
                from as int,
            ).filter(expression_test()),
        decreases chars.len() - from,
    {
        let (stop, next) = line_bounds(&chars, from);
        proof {
            let line = chars@.subrange(from as int, stop as int);
            lemma_filter_first(line, lines_from(chars@, next as int));
        }
        if expression_at(&chars, from, stop) {
            let line = collect(&chars, from, stop);
            let ghost before = exprs.deep_view();
            exprs.push(line);
            assert(exprs.deep_view() =~= before.push(chars@.subrange(from as int, stop as int)));
        }
        assert(expressions_of(raw_exprs@) =~= exprs.deep_view() + lines_from(
            chars@,
            next as int,
        ).filter(expression_test()));
        from = next;
    }
    assert(lines_from(chars@, from as int) =~= Seq::<Seq<char>>::empty());
    assert(expressions_of(raw_exprs@) =~= exprs.deep_view());
    exprs
}

/// Whether some line of `text` is the delete directive.
pub fn wants_deletion(text: &str) -> (yes: bool)
    ensures
        yes == has_delete_directive(text@),
{
    let chars = characters(text);
    let mut from: usize = 0;
    while from < chars.len()
        invariant
            from <= chars.len(),
            chars@ == text@,
            has_delete_directive(text@) == lines_from(chars@, from as int).contains(
                delete_directive(),
            ),
        decreases chars.len() - from,
    {
        let (stop, next) = line_bounds(&chars, from);
        let ghost line = chars@.subrange(from as int, stop as int);
        let ghost rest = lines_from(chars@, next as int);
        if directive_at(&chars, from, stop) {
            assert((seq![line] + rest)[0] == delete_directive());
            return true;
        }
        proof {
            if (seq![line] + rest).contains(delete_directive()) {
                let i = choose|i: int|
                    0 <= i < (seq![line] + rest).len() && (seq![line] + rest)[i]
                        == delete_directive();
                assert(rest[i - 1] == delete_directive());
            }
            if rest.contains(delete_directive()) {
                let i = choose|i: int| 0 <= i < rest.len() && rest[i] == delete_directive();
                assert((seq![line] + rest)[i + 1] == delete_directive());
            }
        }
        from = next;
    }
    assert(lines_from(chars@, from as int) =~= Seq::<Seq<char>>::empty());
    false
}

/// Filtering a sequence of lines decides on its first line and then on the
/// rest.
proof fn lemma_filter_first(first: Seq<char>, rest: Seq<Seq<char>>)
    ensures
        (seq![first] + rest).filter(expression_test()) == if is_expression_line(first) {
            seq![first] + rest.filter(expression_test())
        } else {
            rest.filter(expression_test())
        },
{
    let head = seq![first];
    Seq::filter_distributes_over_add(head, rest, expression_test());
    reveal_with_fuel(Seq::filter, 2);
    assert(head.drop_last() =~= Seq::<Seq<char>>::empty());
    assert(head.filter(expression_test()) =~= if is_expression_line(first) {
        head
    } else {
        Seq::<Seq<char>>::empty()
    });
    assert(Seq::<Seq<char>>::empty() + rest.filter(expression_test()) =~= rest.filter(
        expression_test(),
    ));
}

/// `next_break` stays within the text and stops at the first line feed.
pub proof fn lemma_next_break(text: Seq<char>, from: int)
    requires
        0 <= from <= text.len(),
    ensures
        from <= next_break(text, from) <= text.len(),
        next_break(text, from) < text.len() ==> text[next_break(text, from)] == '\n',
        forall|i: int| from <= i < next_break(text, from) ==> text[i] != '\n',
    decreases text.len() - from,
{
    if from < text.len() && text[from] != '\n' {
        lemma_next_break(text, from + 1);
    }
}

/// No line holds a line feed.
pub proof fn lemma_lines_hold_no_line_feed(text: Seq<char>, from: int)
    requires
        0 <= from <= text.len(),
    ensures
        forall|i: int|
            0 <= i < lines_from(text, from).len() ==> !(#[trigger] lines_from(text, from)[i])
                .contains('\n'),
    decreases text.len() - from,
{
    if from < text.len() {
        let end = next_break(text, from);
        lemma_next_break(text, from);
        let rest = if end < text.len() {
            lines_from(text, end + 1)
        } else {
            Seq::empty()
        };
        if end < text.len() {
            lemma_lines_hold_no_line_feed(text, end + 1);
        }
        let whole = text.subrange(from, end);
        assert(!whole.contains('\n'));
        assert(!without_cr(whole).contains('\n')) by {
            if without_cr(whole).contains('\n') {
                let j = choose|j: int|
                    0 <= j < without_cr(whole).len() && without_cr(whole)[j] == '\n';
                assert(whole[j] == '\n');
            }
        }
        assert forall|i: int| 0 <= i < lines_from(text, from).len() implies !(
        #[trigger] lines_from(text, from)[i]).contains('\n') by {
            if i > 0 {
                assert(lines_from(text, from)[i] == rest[i - 1]);
            }
        }
    }
}

/// The filter keeps lines in the order in which they stand: the kept lines
/// are the lines at strictly increasing positions of the input.
pub proof fn lemma_filter_is_subsequence(lines: Seq<Seq<char>>)
    ensures
        filter_positions(lines).len() == lines.filter(expression_test()).len(),
        forall|i: int|
            0 <= i < filter_positions(lines).len() ==> 0 <= #[trigger] filter_positions(lines)[i]
                < lines.len(),
        forall|i: int|
            0 <= i < filter_positions(lines).len() ==> lines[#[trigger] filter_positions(
                lines,
            )[i]] == lines.filter(expression_test())[i],
        forall|i: int, j: int|
            0 <= i < j < filter_positions(lines).len() ==> filter_positions(lines)[i]
                < filter_positions(lines)[j],
    decreases lines.len(),
{
    reveal(Seq::filter);
    if lines.len() > 0 {
        lemma_filter_is_subsequence(lines.drop_last());
    }
}

/// Every expression that the filter keeps is a line of the text that is a
/// substitution expression, and every such line is kept.
pub proof fn lemma_kept_iff_expression(text: Seq<char>, line: Seq<char>)
    ensures
        expressions_of(text).contains(line) <==> (lines_of(text).contains(line)
            && is_expression_line(line)),
{
    let lines = lines_of(text);
    let kept = expressions_of(text);
    broadcast use vstd::seq_lib::group_filter_ensures;

    if kept.contains(line) {
        let i = choose|i: int| 0 <= i < kept.len() && kept[i] == line;
        assert(expression_test()(kept[i]));
        lemma_filter_is_subsequence(lines);
        let at = filter_positions(lines);
        assert(lines[at[i]] == line);
    }
    if lines.contains(line) && is_expression_line(line) {
        let i = choose|i: int| 0 <= i < lines.len() && lines[i] == line;
        assert(expression_test()(lines[i]));
        assert(kept.contains(lines[i]));
    }
}

/// The order of the kept expressions is the order of their lines in the text.
pub proof fn lemma_expressions_keep_order(text: Seq<char>)
    ensures
        filter_positions(lines_of(text)).len() == expressions_of(text).len(),
        forall|i: int|
            0 <= i < expressions_of(text).len() ==> {
                let at = #[trigger] filter_positions(lines_of(text))[i];
                0 <= at < lines_of(text).len() && lines_of(text)[at] == expressions_of(text)[i]
            },
        forall|i: int, j: int|
            0 <= i < j < expressions_of(text).len() ==> filter_positions(lines_of(text))[i]
                < filter_positions(lines_of(text))[j],
{
    lemma_filter_is_subsequence(lines_of(text));
}

} // verus!
