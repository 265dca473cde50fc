//! The text of a file and the lines of a buffer: how one is read as the
//! other, and written back.

use crate::clipboard::{join_text, joined, lemma_split_lines_len, split_lines, split_text};
use crate::editor::Editor;
use crate::indent::{blanks, Indent};
use crate::text::{char_count, text_of, to_chars, CharSlice};
use crate::textarea::TextArea;
use vstd::prelude::*;
use vstd::string::*;

verus! {

/// `line` without the carriage return at its end, if it has one.
pub open spec fn strip_cr(line: Seq<char>) -> Seq<char> {
    if line.len() > 0 && line.last() == '\r' {
        line.drop_last()
    } else {
        line
    }
}

/// The lines that a buffer holds for the text of a file: the text is parted
/// at its line feeds, and each line that a line feed ended loses the carriage
/// return before it. A text that ends with a line feed gives an empty last
/// line.
pub open spec fn loaded_lines(text: Seq<char>) -> Seq<Seq<char>> {
    let parts = split_lines(text);
    Seq::new(
        parts.len(),
        |i: int|
            if i < parts.len() - 1 {
                strip_cr(parts[i])
            } else {
                parts[i]
            },
    )
}

/// The number of spaces that `line` begins with.
pub open spec fn leading_spaces(line: Seq<char>) -> nat
    decreases line.len(),
{
    if line.len() > 0 && line[0] == ' ' {
        1 + leading_spaces(line.drop_first())
    } else {
        0
    }
}

/// The unit of indentation that the first indented line from `from` on
/// shows: a tab where it begins with a tab, the spaces that it begins with
/// where it begins with a space. Nothing where no line is indented.
pub open spec fn detected_unit(lines: Seq<Seq<char>>, from: int) -> Option<Seq<char>>
    decreases lines.len() - from,
{
    if from < 0 || from >= lines.len() {
        None
    } else if lines[from].len() > 0 && lines[from][0] == '\t' {
        Some(seq!['\t'])
    } else if lines[from].len() > 0 && lines[from][0] == ' ' {
        Some(blanks(leading_spaces(lines[from])))
    } else {
        detected_unit(lines, from + 1)
    }
}

/// The text of the file that holds `lines`: a line feed follows each line
/// but the last, and the last too unless it is empty.
pub open spec fn saved_text(lines: Seq<Seq<char>>) -> Seq<char> {
    if lines.len() > 0 && lines.last().len() > 0 {
        joined(lines) + seq!['\n']
    } else {
        joined(lines)
    }
}

/// Joining the lines that a text splits into gives the text back.
pub proof fn lemma_joined_split(text: Seq<char>)
    ensures
        joined(split_lines(text)) == text,
        text.len() > 0 && text.last() == '\n' ==> split_lines(text).last().len() == 0,
        text.len() == 0 ==> split_lines(text).last().len() == 0,
    decreases text.len(),
{
    lemma_split_lines_len(text);
    if text.len() == 0 {
        assert(split_lines(text) =~= seq![Seq::<char>::empty()]);
    } else {
        let shorter = text.drop_last();
        let before = split_lines(shorter);
        lemma_split_lines_len(shorter);
        lemma_joined_split(shorter);
        lemma_joined_push(before.drop_last(), before.last());
        assert(before.drop_last().push(before.last()) =~= before);
        if text.last() == '\n' {
            let parts = before.push(Seq::empty());
            assert(parts.drop_last() =~= before);
            assert(joined(parts) =~= shorter + seq!['\n']);
            assert(shorter + seq!['\n'] =~= text);
        } else {
            let grown = before.last().push(text.last());
            lemma_joined_push(before.drop_last(), grown);
            assert(joined(before.drop_last().push(grown)) =~= shorter.push(text.last()));
            assert(shorter.push(text.last()) =~= text);
        }
    }
}

/// What joining gives once one more line has been added.
proof fn lemma_joined_push(lines: Seq<Seq<char>>, last: Seq<char>)
    ensures
        joined(lines.push(last)) == if lines.len() == 0 {
            last
        } else {
            joined(lines) + seq!['\n'] + last
        },
{
    let all = lines.push(last);
    assert(all.drop_last() =~= lines);
    assert(all.last() == last);
    if lines.len() == 0 {
        assert(all[0] == last);
    }
}

/// Writing back what was read gives the same text, for a text without
/// carriage returns that is empty or ends with a line feed.
pub proof fn lemma_save_load(text: Seq<char>)
    requires
        forall|i: int| 0 <= i < text.len() ==> text[i] != '\r',
        text.len() == 0 || text.last() == '\n',
    ensures
        saved_text(loaded_lines(text)) == text,
{
    let parts = split_lines(text);
    lemma_split_lines_len(text);
    lemma_joined_split(text);
    lemma_parts_within(text);
    assert(loaded_lines(text) =~= parts);
}

/// Every character of a line that a text splits into is a character of the
/// text.
proof fn lemma_parts_within(text: Seq<char>)
    ensures
        forall|i: int, j: int|
            0 <= i < split_lines(text).len() && 0 <= j < split_lines(text)[i].len()
                ==> text.contains(#[trigger] split_lines(text)[i][j]),
    decreases text.len(),
{
    lemma_split_lines_len(text);
    if text.len() > 0 {
        let shorter = text.drop_last();
        lemma_parts_within(shorter);
        lemma_split_lines_len(shorter);
        let before = split_lines(shorter);
        assert forall|i: int, j: int|
            0 <= i < split_lines(text).len() && 0 <= j < split_lines(text)[i].len()
        implies text.contains(#[trigger] split_lines(text)[i][j]) by {
            let c = split_lines(text)[i][j];
            if text.last() != '\n' && i == before.len() - 1 && j == before.last().len() {
                assert(c == text.last());
                assert(text[text.len() - 1] == c);
            } else {
                assert(c == before[i][j]);
                assert(shorter.contains(c));
                let k = choose|k: int| 0 <= k < shorter.len() && shorter[k] == c;
                assert(text[k] == c);
            }
        }
    }
}

/// The lines of `text` as a buffer holds them.
pub fn load_lines(text: &str) -> (lines: Vec<String>)
    ensures
        text_of(lines@) == loaded_lines(text@),
        lines@.len() >= 1,
{
    let mut lines = split_text(text);
    let ghost parts = text_of(lines@);
    let last = lines.len() - 1;
    let mut i: usize = 0;
    while i < last
        invariant
            i <= last,
            last + 1 == lines@.len(),
            parts == split_lines(text@),
            parts.len() == lines@.len(),
            forall|k: int| 0 <= k < i ==> text_of(lines@)[k] == strip_cr(parts[k]),
            forall|k: int| i <= k < parts.len() ==> text_of(lines@)[k] == parts[k],
        decreases last - i,
    {
        let ghost previous = text_of(lines@);
        assert(previous[i as int] == parts[i as int]);
        let width = char_count(lines[i].as_str());
        if width > 0 && lines[i].as_str().get_char(width - 1) == '\r' {
            let stripped = lines[i].as_str().char_slice(0, width - 1).to_owned();
            assert(stripped@ =~= parts[i as int].drop_last());
            lines[i] = stripped;
            assert(text_of(lines@) =~= previous.update(i as int, strip_cr(parts[i as int])));
        } else {
            assert(strip_cr(parts[i as int]) == parts[i as int]);
        }
        i = i + 1;
    }
    assert(text_of(lines@) =~= loaded_lines(text@));
    lines
}

/// The number of spaces that `chars` begins with.
fn count_leading_spaces(chars: &Vec<char>) -> (n: usize)
    ensures
        n == leading_spaces(chars@),
{
    let mut n: usize = 0;
    assert(chars@.skip(0) =~= chars@);
    while n < chars.len() && chars[n] == ' '
        invariant
            n <= chars.len(),
            leading_spaces(chars@) == n + leading_spaces(chars@.skip(n as int)),
        decreases chars.len() - n,
    {
        assert(chars@.skip(n as int).drop_first() =~= chars@.skip(n + 1));
        n = n + 1;
    }
    assert(chars@.skip(n as int).len() == 0 || chars@.skip(n as int)[0] != ' ');
    n
}

/// The indentation that `lines` show, or four spaces where no line is
/// indented.
pub fn detect_indent(lines: &Vec<String>) -> (indent: Indent)
    ensures
        indent.wf(),
        indent.unit() == match detected_unit(text_of(lines@), 0) {
            Some(unit) => unit,
            None => blanks(4),
        },
{
    let mut i: usize = 0;
    while i < lines.len()
        invariant
            i <= lines.len(),
            detected_unit(text_of(lines@), 0) == detected_unit(text_of(lines@), i as int),
        decreases lines.len() - i,
    {
        let chars = to_chars(lines[i].as_str());
        if chars.len() > 0 && chars[0] == '\t' {
            return Indent::Tabs;
        }
        if chars.len() > 0 && chars[0] == ' ' {
            let width = count_leading_spaces(&chars);
            assert(leading_spaces(chars@) >= 1);
            return Indent::with_spaces(width);
        }
        i = i + 1;
    }
    Indent::default()
}

/// The text of the file that holds `lines`.
pub fn save_text(lines: &Vec<String>) -> (text: String)
    ensures
        text@ == saved_text(text_of(lines@)),
{
    let mut text = join_text(lines);
    let count = lines.len();
    if count > 0 && !lines[count - 1].as_str().is_empty() {
        text.push('\n');
    }
    text
}

impl Editor {
    /// An editor for the text of a file: its lines, the indentation that
    /// they show, the cursor at the start.
    pub fn from_text(text: &str) -> (r: Editor)
        ensures
            r.textarea@.wf(),
            r.textarea@.lines == loaded_lines(text@),
            r.textarea@.cursor == (crate::cursor::CursorPosition { row: 0, col: 0 }),
            r.textarea@.selection is None,
            r.textarea@.undo.len() == 0,
            r.textarea@.redo.len() == 0,
            r.textarea@.clipboard is None,
            r.textarea@.pattern is None,
            r.textarea@.line_numbers,
            r.textarea@.indent.unit() == match detected_unit(split_lines(text@), 0) {
                Some(unit) => unit,
                None => blanks(4),
            },
    {
        let parts = split_text(text);
        let indent = detect_indent(&parts);
        let lines = load_lines(text);
        Editor { textarea: TextArea::new(lines, indent) }
    }

    /// The text of the file that holds the lines of the editor.
    pub fn to_text(&self) -> (text: String)
        ensures
            text@ == saved_text(self.textarea@.lines),
    {
        save_text(self.textarea.lines())
    }
}

} // verus!
