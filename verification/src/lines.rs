//! Text as a sequence of lines: splitting at newline characters, joining with
//! them, and the laws that relate the two.

use vstd::prelude::*;
use vstd::string::StringExecFns;

verus! {

/// The lines joined into one text, with a newline between each two neighbours.
pub open spec fn join_lines(lines: Seq<Seq<char>>) -> Seq<char>
    decreases lines.len(),
{
    if lines.len() == 0 {
        Seq::empty()
    } else if lines.len() == 1 {
        lines[0]
    } else {
        join_lines(lines.drop_last()) + seq!['\n'] + lines.last()
    }
}

/// The lines of a text: the pieces between its newline characters, in order.
/// A text without a newline is one line, and so is the empty text; a newline
/// at either end, or next to another, bounds an empty line.
pub open spec fn split_lines(text: Seq<char>) -> Seq<Seq<char>>
    decreases text.len(),
{
    if text.len() == 0 {
        seq![Seq::empty()]
    } else {
        let lines = split_lines(text.drop_last());
        if text.last() == '\n' {
            lines.push(Seq::empty())
        } else {
            lines.drop_last().push(lines.last().push(text.last()))
        }
    }
}

/// Whether a line is free of newline characters.
pub open spec fn is_line(line: Seq<char>) -> bool {
    forall|i: int| 0 <= i < line.len() ==> line[i] != '\n'
}

/// Whether `lines` can be the lines of a text: there is at least one, and none
/// holds a newline.
pub open spec fn are_lines(lines: Seq<Seq<char>>) -> bool {
    &&& lines.len() > 0
    &&& forall|i: int| 0 <= i < lines.len() ==> is_line(#[trigger] lines[i])
}

/// How many newline characters a text holds.
pub open spec fn count_newlines(text: Seq<char>) -> nat
    decreases text.len(),
{
    if text.len() == 0 {
        0
    } else {
        count_newlines(text.drop_last()) + if text.last() == '\n' { 1nat } else { 0nat }
    }
}

/// Splitting yields one line more than the text has newlines, and no line
/// holds a newline.
pub proof fn lemma_split_are_lines(text: Seq<char>)
    ensures
        are_lines(split_lines(text)),
        split_lines(text).len() == count_newlines(text) + 1,
    decreases text.len(),
{
    if text.len() > 0 {
        lemma_split_are_lines(text.drop_last());
    }
}

/// Joining the lines of a text gives the text back.
pub proof fn lemma_join_split(text: Seq<char>)
    ensures
        join_lines(split_lines(text)) == text,
    decreases text.len(),
{
    if text.len() > 0 {
        let shorter = text.drop_last();
        let lines = split_lines(shorter);
        lemma_join_split(shorter);
        lemma_split_are_lines(shorter);
        if text.last() == '\n' {
            assert(lines.push(Seq::empty()).drop_last() == lines);
            assert(shorter + seq!['\n'] + Seq::<char>::empty() == text);
        } else {
            let grown = lines.drop_last().push(lines.last().push(text.last()));
            if lines.len() == 1 {
                assert(lines.last().push(text.last()) == text);
            } else {
                assert(grown.drop_last() == lines.drop_last());
                assert(join_lines(lines.drop_last()) + seq!['\n'] + lines.last().push(text.last())
                    == (join_lines(lines.drop_last()) + seq!['\n'] + lines.last()).push(text.last()));
                assert(shorter.push(text.last()) == text);
            }
        }
    }
}

/// Text that holds no newline, put behind a text, extends its last line.
pub proof fn lemma_split_extend(text: Seq<char>, tail: Seq<char>)
    requires
        is_line(tail),
    ensures
        split_lines(text + tail) == split_lines(text).drop_last().push(
            split_lines(text).last() + tail,
        ),
    decreases tail.len(),
{
    lemma_split_are_lines(text);
    let lines = split_lines(text);
    if tail.len() == 0 {
        assert(text + tail == text);
        assert(lines.last() + tail == lines.last());
        assert(lines.drop_last().push(lines.last()) == lines);
    } else {
        let shorter = tail.drop_last();
        lemma_split_extend(text, shorter);
        assert((text + tail).drop_last() == text + shorter);
        assert((text + tail).last() == tail.last());
        let before = lines.drop_last().push(lines.last() + shorter);
        assert(before.drop_last() == lines.drop_last());
        assert((lines.last() + shorter).push(tail.last()) == lines.last() + tail);
    }
}

/// A text without a newline is a single line.
pub proof fn lemma_split_line(line: Seq<char>)
    requires
        is_line(line),
    ensures
        split_lines(line) == seq![line],
{
    let empty = Seq::<char>::empty();
    lemma_split_extend(empty, line);
    assert(empty + line == line);
    assert(split_lines(empty) == seq![empty]);
    assert(seq![empty].drop_last().push(empty + line) == seq![line]);
}

/// Splitting what was joined gives the lines back, where they are lines.
/// With `lemma_join_split` this makes `split_lines` and `join_lines` inverses
/// of each other: a text has exactly one sequence of lines.
pub proof fn lemma_split_join(lines: Seq<Seq<char>>)
    requires
        are_lines(lines),
    ensures
        split_lines(join_lines(lines)) == lines,
    decreases lines.len(),
{
    if lines.len() == 1 {
        lemma_split_line(lines[0]);
        assert(seq![lines[0]] == lines);
    } else {
        let front = lines.drop_last();
        lemma_split_join(front);
        let head = join_lines(front) + seq!['\n'];
        assert(head.drop_last() == join_lines(front));
        assert(split_lines(head) == front.push(Seq::empty()));
        lemma_split_extend(head, lines.last());
        assert(Seq::<char>::empty() + lines.last() == lines.last());
        assert(front.push(Seq::empty()).drop_last() == front);
        assert(front.push(lines.last()) == lines);
    }
}

/// `String::push`: puts one character at the end of the string and leaves
/// the rest as it was.
#[verifier::external_body]
pub(crate) fn push_char(text: &mut String, c: char)
    ensures
        final(text)@ == old(text)@.push(c),
{
    text.push(c);
}

/// Splits a text at its newline characters.
pub fn split(text: &str) -> (lines: Vec<String>)
    ensures
        lines.deep_view() == split_lines(text@),
{
    let mut lines: Vec<String> = Vec::new();
    let mut current = String::new();
    proof {
        assert(text@.take(0) == Seq::<char>::empty());
        assert(lines.deep_view().push(current@) == seq![Seq::<char>::empty()]);
    }
    for c in it: text.chars()
        invariant
            it.seq() == text@,
            lines.deep_view().push(current@) == split_lines(text@.take(it.index())),
    {
        let ghost done = lines.deep_view();
        let ghost line = current@;
        let ghost seen = text@.take(it.index());
        let ghost next = text@.take(it.index() + 1);
        proof {
            assert(next.drop_last() == seen);
            assert(next.last() == c);
            assert(done.push(line).drop_last() == done);
        }
        if c == '\n' {
            lines.push(current);
            current = String::new();
            assert(lines.deep_view() == done.push(line));
        } else {
            push_char(&mut current, c);
        }
    }
    proof {
        assert(text@.take(text@.len() as int) == text@);
    }
    let ghost done = lines.deep_view();
    let ghost line = current@;
    lines.push(current);
    assert(lines.deep_view() == done.push(line));
    lines
}

/// Joins lines into one text, with a newline between each two neighbours.
pub fn join(lines: &Vec<String>) -> (text: String)
    ensures
        text@ == join_lines(lines.deep_view()),
{
    let mut text = String::new();
    let mut i: usize = 0;
    let ghost all = lines.deep_view();
    while i < lines.len()
        invariant
            i <= lines.len(),
            all == lines.deep_view(),
            text@ == join_lines(all.take(i as int)),
        decreases lines.len() - i,
    {
        let ghost joined = all.take(i as int);
        let ghost longer = all.take(i + 1);
        proof {
            assert(longer.drop_last() == joined);
            assert(longer.last() == lines[i as int]@);
        }
        if i > 0 {
            push_char(&mut text, '\n');
            assert(text@ == join_lines(joined) + seq!['\n']);
        } else {
            assert(Seq::<char>::empty() + lines[0]@ == lines[0]@);
        }
        text.append(lines[i].as_str());
        i += 1;
    }
    proof {
        assert(all.take(lines.len() as int) == all);
    }
    text
}

} // verus!
