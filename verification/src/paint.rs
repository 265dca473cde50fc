//! What the painter draws for each visible row: the text as it is shown, cut
//! into segments that say how each part is to be drawn.

use crate::indent::blanks;
use crate::padding::{digits, num_digits};
use crate::display::capped;
use crate::search::{column_spans, ordered_spans, spans_of, Pattern};
use crate::state::TextState;
use crate::text::{char_count, char_range, to_chars, CharSlice};
use crate::textarea::TextArea;
use crate::word::skip_spaces_back;
use vstd::prelude::*;
use vstd::string::*;

verus! {

/// How a segment of a row is drawn.
#[derive(Debug, Clone, Copy, PartialEq, Eq, Structural)]
pub enum Style {
    /// Text as it is.
    Plain,
    /// Text within the selection.
    Selected,
    /// Text that the search pattern matches.
    Found,
    /// The number of a row.
    Number,
    /// The number of the cursor's row.
    CurrentNumber,
}

/// A piece of a row with the style to draw it in.
#[derive(Debug)]
pub struct Segment {
    pub text: String,
    pub style: Style,
}

/// A piece of a row as a mathematical value.
pub type Piece = (Seq<char>, Style);

/// The pieces of a vector of segments.
pub open spec fn pieces_of(segments: Seq<Segment>) -> Seq<Piece> {
    Seq::new(segments.len(), |i: int| (segments[i].text@, segments[i].style))
}

/// The character for the digit `d`.
pub open spec fn digit(d: int) -> char {
    if d == 0 {
        '0'
    } else if d == 1 {
        '1'
    } else if d == 2 {
        '2'
    } else if d == 3 {
        '3'
    } else if d == 4 {
        '4'
    } else if d == 5 {
        '5'
    } else if d == 6 {
        '6'
    } else if d == 7 {
        '7'
    } else if d == 8 {
        '8'
    } else {
        '9'
    }
}

/// The decimal numeral of `n`.
pub open spec fn decimal(n: nat) -> Seq<char>
    decreases n,
{
    if n < 10 {
        seq![digit(n as int)]
    } else {
        decimal(n / 10).push(digit((n % 10) as int))
    }
}

/// The label of row `number` in a column `width` characters wide: the
/// numeral of the row, set to the right, and a blank after it.
pub open spec fn label(number: nat, width: nat) -> Seq<char> {
    let pad = if width > digits(number) {
        (width - digits(number)) as nat
    } else {
        0
    };
    blanks(pad) + decimal(number) + seq![' ']
}

/// What is shown for the character `c`: a tab takes `tab_width` columns. In
/// the white space at the end of a line a middle dot stands in each column,
/// elsewhere a tab is shown as blanks and any other character as itself.
pub open spec fn shown_char(c: char, trailing: bool, tab_width: nat) -> Seq<char> {
    if c == '\t' {
        Seq::new(
            tab_width,
            |i: int|
                if trailing {
                    '\u{b7}'
                } else {
                    ' '
                },
        )
    } else if trailing {
        seq!['\u{b7}']
    } else {
        seq![c]
    }
}

/// What is shown for the first `n` characters of `line`.
pub open spec fn shown_prefix(line: Seq<char>, n: int, tab_width: nat) -> Seq<char>
    decreases n,
{
    if n <= 0 {
        Seq::empty()
    } else {
        shown_prefix(line, n - 1, tab_width) + shown_char(
            line[n - 1],
            n - 1 >= skip_spaces_back(line, line.len() as int),
            tab_width,
        )
    }
}

/// What is shown for `line`.
pub open spec fn shown(line: Seq<char>, tab_width: nat) -> Seq<char> {
    shown_prefix(line, line.len() as int, tab_width)
}

/// The character for the digit `d`.
fn digit_char(d: usize) -> (c: char)
    requires
        d < 10,
    ensures
        c == digit(d as int),
{
    if d == 0 {
        '0'
    } else if d == 1 {
        '1'
    } else if d == 2 {
        '2'
    } else if d == 3 {
        '3'
    } else if d == 4 {
        '4'
    } else if d == 5 {
        '5'
    } else if d == 6 {
        '6'
    } else if d == 7 {
        '7'
    } else if d == 8 {
        '8'
    } else {
        '9'
    }
}

/// Appends the decimal numeral of `n` to `text`.
fn push_decimal(text: &mut String, n: usize)
    ensures
        final(text)@ == old(text)@ + decimal(n as nat),
    decreases n,
{
    if n >= 10 {
        push_decimal(text, n / 10);
    }
    text.push(digit_char(n % 10));
    proof {
        if n < 10 {
            assert(final(text)@ =~= old(text)@ + decimal(n as nat));
        } else {
            assert(text@ =~= old(text)@ + decimal((n / 10) as nat).push(digit((n % 10) as int)));
        }
    }
}

/// The label of row `number` in a column `width` characters wide, to be
/// drawn as the number of the cursor's row or of another row.
pub fn line_label(number: usize, width: u8, current: bool) -> (r: Segment)
    ensures
        r.text@ == label(number as nat, width as nat),
        r.style == if current {
            Style::CurrentNumber
        } else {
            Style::Number
        },
{
    let count = num_digits(number);
    let pad = if width > count {
        width - count
    } else {
        0
    };
    let mut text = crate::padding::spaces(pad);
    assert(text@ =~= blanks(pad as nat));
    push_decimal(&mut text, number);
    text.push(' ');
    assert(text@ =~= label(number as nat, width as nat));
    Segment {
        text,
        style: if current {
            Style::CurrentNumber
        } else {
            Style::Number
        },
    }
}

/// What is shown for `line`, where a tab takes `tab_width` columns.
pub fn show_line(line: &str, tab_width: usize) -> (r: String)
    ensures
        r@ == shown(line@, tab_width as nat),
{
    let chars = to_chars(line);
    let n = chars.len();
    let mut trim: usize = n;
    while trim > 0 && chars[trim - 1].is_whitespace()
        invariant
            trim <= n,
            n == chars@.len(),
            skip_spaces_back(chars@, n as int) == skip_spaces_back(chars@, trim as int),
        decreases trim,
    {
        trim = trim - 1;
    }
    let mut text = String::new();
    let mut i: usize = 0;
    while i < n
        invariant
            i <= n,
            n == chars@.len(),
            chars@ == line@,
            trim == skip_spaces_back(chars@, n as int),
            text@ == shown_prefix(chars@, i as int, tab_width as nat),
        decreases n - i,
    {
        let c = chars[i];
        let trailing = i >= trim;
        let ghost before = text@;
        if c == '\t' {
            let mark = if trailing {
                '\u{b7}'
            } else {
                ' '
            };
            let mut k: usize = 0;
            while k < tab_width
                invariant
                    k <= tab_width,
                    text@ == before + Seq::new(k as nat, |j: int| mark),
                decreases tab_width - k,
            {
                text.push(mark);
                k = k + 1;
                assert(text@ =~= before + Seq::new(k as nat, |j: int| mark));
            }
            assert(Seq::new(tab_width as nat, |j: int| mark) =~= shown_char(
                c,
                trailing,
                tab_width as nat,
            ));
        } else if trailing {
            text.push('\u{b7}');
            assert(text@ =~= before + shown_char(c, trailing, tab_width as nat));
        } else {
            text.push(c);
            assert(text@ =~= before + shown_char(c, trailing, tab_width as nat));
        }
        i = i + 1;
    }
    text
}

/// Where the text between the matches before match `k` and match `k`
/// begins: at the end of the match before it, or at the start of the text.
pub open spec fn gap_start(spans: Seq<(int, int)>, k: int) -> int {
    if k <= 0 {
        0
    } else {
        spans[k - 1].1
    }
}

/// The pieces of `text` up to the end of its first `k` matches: before each
/// match the plain text since the match before it, then the match itself.
pub open spec fn marked_upto(text: Seq<char>, spans: Seq<(int, int)>, k: int) -> Seq<Piece>
    decreases k,
{
    if k <= 0 {
        Seq::empty()
    } else {
        marked_upto(text, spans, k - 1).push(
            (text.subrange(gap_start(spans, k - 1), spans[k - 1].0), Style::Plain),
        ).push((text.subrange(spans[k - 1].0, spans[k - 1].1), Style::Found))
    }
}

/// The pieces of `text` with the matches of `pattern` marked: plain text and
/// matches in turn, and the plain text after the last match. Without a
/// pattern the text is one plain piece.
pub open spec fn marked(text: Seq<char>, pattern: Option<Seq<char>>) -> Seq<Piece> {
    match pattern {
        None => seq![(text, Style::Plain)],
        Some(pattern) => {
            let spans = column_spans(pattern, text);
            marked_upto(text, spans, spans.len() as int).push(
                (text.skip(gap_start(spans, spans.len() as int)), Style::Plain),
            )
        },
    }
}

/// The number of columns that the first `n` characters of `line` take where
/// each tab takes `tab_width` columns and any other character one.
pub open spec fn shown_width(line: Seq<char>, n: int, tab_width: nat) -> nat
    decreases n,
{
    if n <= 0 {
        0
    } else {
        shown_width(line, n - 1, tab_width) + if line[n - 1] == '\t' {
            tab_width
        } else {
            1
        }
    }
}

/// `x` less `left`, but not below 0 and not above `len`.
pub open spec fn clipped(x: int, left: int, len: int) -> int {
    if x <= left {
        0
    } else if x - left >= len {
        len
    } else {
        x - left
    }
}

impl TextState {
    /// The columns of what is shown for `row` between which the row is
    /// selected, where the selection is not empty and touches the row.
    pub open spec fn highlight(self, row: int) -> Option<(usize, usize)> {
        match self.selection {
            None => None,
            Some(anchor) => {
                let (start, end) = self.selection_ends();
                if start.before(end) && start.row <= row <= end.row {
                    let line = self.lines[row];
                    let from = if row == start.row {
                        start.col as int
                    } else {
                        0
                    };
                    let to = if row == end.row {
                        end.col as int
                    } else {
                        line.len() as int
                    };
                    Some(
                        (
                            capped(shown_width(line, from, self.indent.tab_width()) as int),
                            capped(shown_width(line, to, self.indent.tab_width()) as int),
                        ),
                    )
                } else {
                    None
                }
            },
        }
    }

    /// The label that stands before `row`: its number where line numbers are
    /// shown, else an empty piece.
    pub open spec fn row_label(self, row: int) -> Piece {
        if self.line_numbers {
            (
                label(row as nat, digits(self.lines.len())),
                if row == self.cursor.row {
                    Style::CurrentNumber
                } else {
                    Style::Number
                },
            )
        } else {
            (Seq::empty(), Style::Plain)
        }
    }

    /// The pieces that are drawn for `row` in a window that shows the
    /// columns from `left` up to, not including, `right`: the label of the
    /// row, then what is shown of its text, with the selected part and the
    /// matches of the search pattern marked. Of a selected row without text
    /// one selected blank is drawn.
    pub open spec fn rendered_row(self, row: int, left: int, right: int) -> Seq<Piece> {
        let text = char_range(shown(self.lines[row], self.indent.tab_width()), left, right);
        let body = match self.highlight(row) {
            None => marked(text, self.pattern),
            Some((from, to)) => {
                if text.len() == 0 && from == 0 && to == 0 {
                    seq![(seq![' '], Style::Selected)]
                } else {
                    let a = clipped(from as int, left, text.len() as int);
                    let b = clipped(to as int, left, text.len() as int);
                    marked(char_range(text, 0, a), self.pattern).push(
                        (char_range(text, a, b), Style::Selected),
                    ) + marked(char_range(text, b, text.len() as int), self.pattern)
                }
            },
        };
        seq![self.row_label(row)] + body
    }
}

/// Appends the pieces of `text` to `segments`, with the matches of `pattern`
/// marked.
pub fn mark_matches(segments: &mut Vec<Segment>, text: &str, pattern: Option<&Pattern>)
    ensures
        pieces_of(final(segments)@) == pieces_of(old(segments)@) + marked(
            text@,
            match pattern {
                Some(pattern) => Some(pattern@),
                None => None,
            },
        ),
{
    let ghost before = pieces_of(segments@);
    match pattern {
        None => {
            segments.push(Segment { text: text.to_owned(), style: Style::Plain });
            assert(pieces_of(segments@) =~= before + seq![(text@, Style::Plain)]);
        },
        Some(pattern) => {
            let spans = pattern.find_spans(text);
            let ghost cols = spans_of(spans@);
            let width = char_count(text);
            let mut previous: usize = 0;
            let mut k: usize = 0;
            assert(pieces_of(segments@) =~= before + marked_upto(text@, cols, 0));
            while k < spans.len()
                invariant
                    k <= spans.len(),
                    cols == spans_of(spans@),
                    ordered_spans(cols, text@.len() as int),
                    width == text@.len(),
                    previous == gap_start(cols, k as int),
                    previous <= width,
                    pieces_of(segments@) == before + marked_upto(text@, cols, k as int),
                decreases spans.len() - k,
            {
                let span = spans[k];
                assert(cols[k as int] == (span.0 as int, span.1 as int));
                proof {
                    if k > 0 {
                        assert(cols[k - 1].1 <= cols[k as int].0);
                    }
                }
                let ghost done = pieces_of(segments@);
                let gap = text.char_slice(previous, span.0);
                let hit = text.char_slice(span.0, span.1);
                segments.push(Segment { text: gap.to_owned(), style: Style::Plain });
                segments.push(Segment { text: hit.to_owned(), style: Style::Found });
                assert(pieces_of(segments@) =~= done.push((gap@, Style::Plain)).push(
                    (hit@, Style::Found),
                ));
                assert(pieces_of(segments@) =~= before + marked_upto(text@, cols, k + 1));
                previous = span.1;
                k = k + 1;
            }
            let ghost done = pieces_of(segments@);
            let rest = text.char_slice(previous, width);
            segments.push(Segment { text: rest.to_owned(), style: Style::Plain });
            assert(rest@ =~= text@.skip(previous as int));
            assert(pieces_of(segments@) =~= done.push((rest@, Style::Plain)));
            assert(pieces_of(segments@) =~= before + marked(text@, Some(pattern@)));
        },
    }
}

/// The number of columns that the first `n` characters of `line` take, as
/// far as `usize` reaches.
pub fn width_shown(line: &str, n: usize, tab_width: usize) -> (r: usize)
    requires
        n <= line@.len(),
    ensures
        r == capped(shown_width(line@, n as int, tab_width as nat) as int),
{
    let chars = to_chars(line);
    let mut total: usize = 0;
    let mut i: usize = 0;
    while i < n
        invariant
            i <= n <= chars@.len(),
            chars@ == line@,
            total == capped(shown_width(chars@, i as int, tab_width as nat) as int),
        decreases n - i,
    {
        let step = if chars[i] == '\t' {
            tab_width
        } else {
            1
        };
        total = match total.checked_add(step) {
            Some(sum) => sum,
            None => usize::MAX,
        };
        i = i + 1;
    }
    total
}

/// The rows of pieces of a vector of rows of segments.
pub open spec fn rows_of(rows: Seq<Vec<Segment>>) -> Seq<Seq<Piece>> {
    Seq::new(rows.len(), |i: int| pieces_of(rows[i]@))
}

/// `x` less `left`, but not above `len`.
fn clip(x: usize, left: usize, len: usize) -> (r: usize)
    ensures
        r == clipped(x as int, left as int, len as int),
{
    if x <= left {
        0
    } else if x - left >= len {
        len
    } else {
        x - left
    }
}

impl TextArea {
    /// The columns of what is shown for `row` between which the row is
    /// selected.
    pub fn highlight(&self, row: usize) -> (r: Option<(usize, usize)>)
        requires
            self@.wf(),
            row < self@.lines.len(),
        ensures
            r == self@.highlight(row as int),
    {
        match self.selection {
            None => None,
            Some(anchor) => {
                let (start, end) = crate::cursor::CursorPosition::ordered(self.cursor, anchor);
                if start.is_before(&end) && start.row <= row && row <= end.row {
                    let line = self.lines[row].as_str();
                    let tab_width = char_count(self.indent.spaces());
                    let from = if row == start.row {
                        start.col
                    } else {
                        0
                    };
                    let to = if row == end.row {
                        end.col
                    } else {
                        char_count(line)
                    };
                    Some((width_shown(line, from, tab_width), width_shown(line, to, tab_width)))
                } else {
                    None
                }
            },
        }
    }

    /// The segments that are drawn for `row` in a window that shows the
    /// columns from `left` up to, not including, `right`.
    pub fn render_line(&self, row: usize, left: usize, right: usize) -> (r: Vec<Segment>)
        requires
            self@.wf(),
            row < self@.lines.len(),
        ensures
            pieces_of(r@) == self@.rendered_row(row as int, left as int, right as int),
    {
        let tab_width = char_count(self.indent.spaces());
        let full = show_line(self.lines[row].as_str(), tab_width);
        let text = full.as_str().char_slice(left, right);
        let pattern = self.search_pattern.as_ref();
        let mut segments: Vec<Segment> = Vec::new();
        if self.line_numbers {
            let width = crate::padding::num_digits(self.lines.len());
            segments.push(line_label(row, width, row == self.cursor.row));
        } else {
            segments.push(Segment { text: String::new(), style: Style::Plain });
        }
        assert(pieces_of(segments@) =~= seq![self@.row_label(row as int)]);
        match self.highlight(row) {
            None => {
                mark_matches(&mut segments, text, pattern);
            },
            Some((from, to)) => {
                let width = char_count(text);
                if width == 0 && from == 0 && to == 0 {
                    let ghost done = pieces_of(segments@);
                    let mut blank = String::new();
                    blank.push(' ');
                    assert(blank@ =~= seq![' ']);
                    segments.push(Segment { text: blank, style: Style::Selected });
                    assert(pieces_of(segments@) =~= done + seq![(seq![' '], Style::Selected)]);
                } else {
                    let a = clip(from, left, width);
                    let b = clip(to, left, width);
                    mark_matches(&mut segments, text.char_slice(0, a), pattern);
                    let ghost done = pieces_of(segments@);
                    segments.push(
                        Segment { text: text.char_slice(a, b).to_owned(), style: Style::Selected },
                    );
                    assert(pieces_of(segments@) =~= done.push(
                        (char_range(text@, a as int, b as int), Style::Selected),
                    ));
                    mark_matches(&mut segments, text.char_slice(b, width), pattern);
                }
            },
        }
        assert(pieces_of(segments@) =~= self@.rendered_row(row as int, left as int, right as int));
        segments
    }

    /// Sets the size of the window, scrolls it to the cursor, and gives what
    /// is drawn for each of its rows that the text has.
    pub fn render(&mut self, width: usize, height: usize) -> (r: Vec<Vec<Segment>>)
        requires
            old(self)@.wf(),
        ensures
            final(self)@ == (TextState { viewport: final(self)@.viewport, ..old(self)@ }),
            final(self)@.wf(),
            ({
                let top = final(self)@.viewport.origin().row as int;
                let left = final(self)@.viewport.origin().col as int;
                let right = capped(left + old(self)@.text_columns(width)) as int;
                let first = if top < old(self)@.lines.len() {
                    top
                } else {
                    old(self)@.lines.len() as int
                };
                &&& r@.len() == if top + height < old(self)@.lines.len() {
                    height as int
                } else {
                    old(self)@.lines.len() - first
                }
                &&& forall|i: int|
                    0 <= i < r@.len() ==> #[trigger] rows_of(r@)[i] == final(self)@.rendered_row(
                        first + i,
                        left,
                        right,
                    )
            }),
    {
        let (top_left, bottom_right) = self.update_size(width, height);
        let total = self.lines.len();
        let first = if top_left.row < total {
            top_left.row
        } else {
            total
        };
        let end = if bottom_right.row < total {
            bottom_right.row
        } else {
            total
        };
        let mut rows: Vec<Vec<Segment>> = Vec::new();
        let mut row: usize = first;
        while row < end
            invariant
                first <= row <= end || (end < first && row == first),
                end <= total,
                total == self@.lines.len(),
                self@.wf(),
                rows@.len() == row - first,
                forall|i: int|
                    0 <= i < rows@.len() ==> #[trigger] rows_of(rows@)[i] == self@.rendered_row(
                        first + i,
                        top_left.col as int,
                        bottom_right.col as int,
                    ),
            decreases end - row,
        {
            let ghost done = rows_of(rows@);
            let segments = self.render_line(row, top_left.col, bottom_right.col);
            let ghost pieces = pieces_of(segments@);
            rows.push(segments);
            assert(rows_of(rows@) =~= done.push(pieces));
            row = row + 1;
        }
        rows
    }
}

} // verus!
