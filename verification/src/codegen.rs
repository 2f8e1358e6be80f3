//! Text layout for generated pipeline sources.
use vstd::prelude::*;

verus! {

/// The lines of `text`: the runs between its line feeds, in order. A text of
/// `n` line feeds has `n + 1` lines, some of which may be empty.
pub open spec fn lines(text: Seq<char>) -> Seq<Seq<char>>
    decreases text.len(),
{
    if text.len() == 0 {
        seq![Seq::empty()]
    } else {
        let before = lines(text.drop_last());
        if text.last() == '\n' {
            before.push(Seq::empty())
        } else {
            before.drop_last().push(before.last().push(text.last()))
        }
    }
}

/// The lines `lines`, with one line feed between each two neighbours.
pub open spec fn joined(lines: Seq<Seq<char>>) -> Seq<char>
    decreases lines.len(),
{
    if lines.len() == 0 {
        Seq::empty()
    } else if lines.len() == 1 {
        lines[0]
    } else {
        joined(lines.drop_last()).push('\n') + lines.last()
    }
}

/// A line behind `indentation`; a blank line stays blank.
pub open spec fn indented_line(indentation: Seq<char>, line: Seq<char>) -> Seq<char> {
    if line.len() == 0 {
        line
    } else {
        indentation + line
    }
}

/// `text` with each of its non-blank lines behind `indentation`.
pub open spec fn indented(indentation: Seq<char>, text: Seq<char>) -> Seq<char> {
    joined(lines(text).map_values(|line: Seq<char>| indented_line(indentation, line)))
}

/// A text always has a first line.
pub proof fn lemma_lines_nonempty(text: Seq<char>)
    ensures
        lines(text).len() >= 1,
    decreases text.len(),
{
    if text.len() > 0 {
        lemma_lines_nonempty(text.drop_last());
    }
}

/// Replacing the last of some joined lines replaces the tail of the joined
/// text.
proof fn lemma_joined_last(lines: Seq<Seq<char>>, line: Seq<char>)
    requires
        lines.len() >= 1,
    ensures
        joined(lines.drop_last().push(line)) == joined(lines).subrange(
            0,
            joined(lines).len() - lines.last().len(),
        ) + line,
        joined(lines).len() >= lines.last().len(),
{
    assert(lines.drop_last().push(line).drop_last() =~= lines.drop_last());
}

/// What one more character does to an indented text: a line feed is
/// appended as it is, the first character of a line brings the indentation
/// with it, and any other character is appended as it is.
proof fn lemma_indented_push(indentation: Seq<char>, text: Seq<char>, c: char)
    ensures
        indented(indentation, text.push(c)) == if c != '\n' && lines(text).last().len() == 0 {
            indented(indentation, text) + indentation.push(c)
        } else {
            indented(indentation, text).push(c)
        },
        lines(text.push(c)).last().len() == 0 <==> c == '\n',
{
    let f = |line: Seq<char>| indented_line(indentation, line);
    let before = lines(text);
    let after = lines(text.push(c));
    lemma_lines_nonempty(text);
    assert(text.push(c).drop_last() =~= text);
    if c == '\n' {
        assert(after.map_values(f).drop_last() =~= before.map_values(f));
    } else {
        let grown = before.last().push(c);
        assert(after.map_values(f) =~= before.map_values(f).drop_last().push(f(grown)));
        lemma_joined_last(before.map_values(f), f(grown));
        lemma_joined_last(before.map_values(f), f(before.last()));
    }
}

/// `String::push` of the standard library: the string afterwards holds the
/// characters it held, then `c`.
#[verifier::external_body]
fn push_char(text: &mut String, c: char)
    ensures
        final(text)@ == old(text)@.push(c),
{
    text.push(c);
}

/// Indents every non-blank line of `text` by `indentation`.
pub fn indent(indentation: &str, text: String) -> (out: String)
    ensures
        out@ == indented(indentation@, text@),
{
    broadcast use vstd::string::group_string_axioms;

    let mut out = String::new();
    let mut at_line_start = true;
    let source = text.as_str();
    assert(indented(indentation@, Seq::<char>::empty()) =~= Seq::<char>::empty());
    for c in it: source.chars()
        invariant
            it.seq() == text@,
            out@ == indented(indentation@, text@.take(it.index())),
            at_line_start <==> lines(text@.take(it.index())).last().len() == 0,
    {
        proof {
            lemma_indented_push(indentation@, text@.take(it.index()), c);
            assert(text@.take(it.index()).push(c) =~= text@.take(it.index() + 1));
        }
        if c == '\n' {
            at_line_start = true;
        } else if at_line_start {
            out.append(indentation);
            at_line_start = false;
        }
        push_char(&mut out, c);
    }
    assert(text@.take(text@.len() as int) =~= text@);
    out
}

} // verus!
