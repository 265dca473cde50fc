//! Text on its way to and from the clipboard: lines joined by line feeds,
//! and split at them again.

use crate::text::{text_of, to_chars};
use vstd::prelude::*;
use vstd::string::*;

verus! {

/// The lines of `lines` with a line feed between each two.
pub open spec fn joined(lines: Seq<Seq<char>>) -> Seq<char>
    decreases lines.len(),
{
    if lines.len() == 0 {
        Seq::empty()
    } else if lines.len() == 1 {
        lines[0]
    } else {
        joined(lines.drop_last()) + seq!['\n'] + lines.last()
    }
}

/// The lines that the line feeds of `text` part it into. A text without a
/// line feed is one line; a line feed at the end is followed by an empty line.
pub open spec fn split_lines(text: Seq<char>) -> Seq<Seq<char>>
    decreases text.len(),
{
    if text.len() == 0 {
        seq![Seq::empty()]
    } else {
        let before = split_lines(text.drop_last());
        if text.last() == '\n' {
            before.push(Seq::empty())
        } else {
            before.drop_last().push(before.last().push(text.last()))
        }
    }
}

/// A text splits into at least one line.
pub proof fn lemma_split_lines_len(text: Seq<char>)
    ensures
        split_lines(text).len() >= 1,
    decreases text.len(),
{
    if text.len() > 0 {
        lemma_split_lines_len(text.drop_last());
    }
}

/// Splitting goes through a concatenation with a text without line feeds:
/// that text is appended to the last line.
proof fn lemma_split_append(text: Seq<char>, more: Seq<char>)
    requires
        forall|i: int| 0 <= i < more.len() ==> more[i] != '\n',
    ensures
        split_lines(text + more) == split_lines(text).drop_last().push(
            split_lines(text).last() + more,
        ),
    decreases more.len(),
{
    lemma_split_lines_len(text);
    let parts = split_lines(text);
    if more.len() == 0 {
        assert(text + more =~= text);
        assert(parts.last() + more =~= parts.last());
        assert(parts.drop_last().push(parts.last()) =~= parts);
    } else {
        let shorter = more.drop_last();
        lemma_split_append(text, shorter);
        assert((text + more).drop_last() =~= text + shorter);
        assert((text + more).last() == more.last());
        assert((parts.last() + shorter).push(more.last()) =~= parts.last() + more);
        let before = split_lines(text + shorter);
        assert(before.drop_last() =~= parts.drop_last());
    }
}

/// Joining lines that hold no line feed and splitting the result gives the
/// lines back.
pub proof fn lemma_split_joined(lines: Seq<Seq<char>>)
    requires
        lines.len() >= 1,
        forall|i: int, j: int|
            0 <= i < lines.len() && 0 <= j < lines[i].len() ==> (#[trigger] lines[i][j]) != '\n',
    ensures
        split_lines(joined(lines)) == lines,
    decreases lines.len(),
{
    if lines.len() == 1 {
        assert(Seq::<char>::empty() + lines[0] =~= lines[0]);
        lemma_split_append(Seq::empty(), lines[0]);
        assert(split_lines(Seq::<char>::empty()) =~= seq![Seq::<char>::empty()]);
        assert(split_lines(lines[0]) =~= lines);
    } else {
        let shorter = lines.drop_last();
        lemma_split_joined(shorter);
        let head = joined(shorter) + seq!['\n'];
        assert(head.drop_last() =~= joined(shorter));
        assert(split_lines(head) == shorter.push(Seq::empty()));
        lemma_split_append(head, lines.last());
        assert(Seq::<char>::empty() + lines.last() =~= lines.last());
        assert(split_lines(joined(lines)) =~= lines);
    }
}

/// The lines of `lines` as one text, with a line feed between each two.
pub fn join_text(lines: &Vec<String>) -> (text: String)
    ensures
        text@ == joined(text_of(lines@)),
{
    let mut text = String::new();
    let mut i: usize = 0;
    while i < lines.len()
        invariant
            i <= lines.len(),
            text@ == joined(text_of(lines@).take(i as int)),
        decreases lines.len() - i,
    {
        let ghost done = text_of(lines@).take(i as int);
        let ghost next = text_of(lines@).take(i + 1);
        assert(next.drop_last() =~= done);
        assert(next.last() == lines@[i as int]@);
        if i > 0 {
            text.push('\n');
            assert(text@ =~= joined(done) + seq!['\n']);
        } else {
            assert(Seq::<char>::empty() + lines@[0]@ =~= lines@[0]@);
        }
        text.append(lines[i].as_str());
        i = i + 1;
    }
    assert(text_of(lines@).take(i as int) =~= text_of(lines@));
    text
}

/// The lines that the line feeds of `text` part it into.
pub fn split_text(text: &str) -> (lines: Vec<String>)
    ensures
        text_of(lines@) == split_lines(text@),
        lines@.len() >= 1,
{
    let chars = to_chars(text);
    let mut lines: Vec<String> = Vec::new();
    let mut current = String::new();
    let mut i: usize = 0;
    while i < chars.len()
        invariant
            i <= chars.len(),
            chars@ == text@,
            text_of(lines@).push(current@) == split_lines(text@.take(i as int)),
        decreases chars.len() - i,
    {
        let ghost prefix = text@.take(i as int);
        let ghost next = text@.take(i + 1);
        assert(next.drop_last() =~= prefix);
        assert(next.last() == chars@[i as int]);
        let ghost before = text_of(lines@).push(current@);
        assert(before.drop_last() =~= text_of(lines@));
        if chars[i] == '\n' {
            lines.push(current);
            current = String::new();
            assert(text_of(lines@) =~= before);
        } else {
            current.push(chars[i]);
        }
        i = i + 1;
    }
    assert(text@.take(i as int) =~= text@);
    proof {
        lemma_split_lines_len(text@);
    }
    let ghost before = text_of(lines@);
    lines.push(current);
    assert(text_of(lines@) =~= before.push(current@));
    lines
}

} // verus!
