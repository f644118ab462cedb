//! Text area layout for the edit form: how a value wraps into rows, where
//! the cursor stands among them, and how the cursor moves.
use vstd::prelude::*;

use crate::text::{chars_of, push_char, push_str, string_of};
use crate::tui::editform::{EditFormState, FieldKind, Rect};

verus! {

/// At most this many rows of a text area are shown at once.
pub const TEXTAREA_MAX_DISPLAY_ROWS: u16 = 12;

/// One on-screen row after wrapping: where it starts among the characters,
/// and how many it holds.
#[derive(Debug, Clone, Copy, PartialEq, Eq, Structural)]
pub struct VisualLine {
    pub start: usize,
    pub len: usize,
}

// ---------------------------------------------------------------------------
// Rows
// ---------------------------------------------------------------------------

/// The first `\n` at or after `i`, or the end.
pub open spec fn line_end(cs: Seq<char>, i: int) -> int
    decreases cs.len() - i,
{
    if i < 0 || i >= cs.len() {
        cs.len() as int
    } else if cs[i] == '\n' {
        i
    } else {
        line_end(cs, i + 1)
    }
}

pub proof fn lemma_line_end(cs: Seq<char>, i: int)
    requires
        0 <= i <= cs.len(),
    ensures
        i <= line_end(cs, i) <= cs.len(),
        line_end(cs, i) < cs.len() ==> cs[line_end(cs, i)] == '\n',
        forall|k: int| i <= k < line_end(cs, i) ==> cs[k] != '\n',
    decreases cs.len() - i,
{
    if i < cs.len() && cs[i] != '\n' {
        lemma_line_end(cs, i + 1);
    }
}

/// The rows of `cs` from the row starting at `start`: each row is the rest
/// of its line, cut after `w` characters when there is a width; a `\n`
/// ends a row and the next row starts after it.
pub open spec fn rows_from(cs: Seq<char>, start: int, w: Option<int>) -> Seq<VisualLine>
    decreases cs.len() - start + 1,
{
    if start < 0 || start > cs.len() {
        Seq::empty()
    } else {
        let p = line_end(cs, start);
        proof {
            lemma_line_end(cs, start);
        }
        match w {
            Some(wd) if wd >= 1 && p - start > wd => seq![VisualLine { start: start as usize, len: wd as usize }]
                + rows_from(cs, start + wd, w),
            _ => if p < cs.len() {
                seq![VisualLine { start: start as usize, len: (p - start) as usize }] + rows_from(cs, p + 1, w)
            } else {
                seq![VisualLine { start: start as usize, len: (p - start) as usize }]
            },
        }
    }
}

/// The wrap width in use: at least 1.
pub open spec fn width_of(wrap_width: Option<u16>) -> Option<int> {
    match wrap_width {
        Some(w) => Some(if w >= 1 {
            w as int
        } else {
            1
        }),
        None => None,
    }
}

/// The rows of a value.
pub open spec fn rows_of(value: Seq<char>, wrap_width: Option<u16>) -> Seq<VisualLine> {
    rows_from(value, 0, width_of(wrap_width))
}

/// Unfolding `rows_from` at a row start `rs` from position `i`, when the
/// characters between are no `\n` and fewer than a row.
proof fn lemma_line_end_skip(cs: Seq<char>, rs: int, i: int)
    requires
        0 <= rs <= i <= cs.len(),
        forall|k: int| rs <= k < i ==> cs[k] != '\n',
    ensures
        line_end(cs, rs) == line_end(cs, i),
    decreases i - rs,
{
    if rs < i {
        lemma_line_end_skip(cs, rs + 1, i);
    }
}

/// The rows of `value`, wrapped at `wrap_width` (at least 1) when given.
pub fn visual_lines(value: &str, wrap_width: Option<u16>) -> (r: Vec<VisualLine>)
    ensures
        r@ == rows_of(value@, wrap_width),
        r@.len() >= 1,
{
    let chars = chars_of(value);
    let n = chars.len();
    let width: Option<usize> = match wrap_width {
        Some(w) => Some(if w >= 1 {
            w as usize
        } else {
            1
        }),
        None => None,
    };
    let ghost w = width_of(wrap_width);
    let mut lines: Vec<VisualLine> = Vec::new();
    let mut i: usize = 0;
    let mut row_start: usize = 0;
    proof {
        lemma_rows_nonempty(chars@, 0, w);
    }
    while i < n
        invariant
            n == chars@.len(),
            chars@ == value@,
            w == width_of(wrap_width),
            width matches Some(x) ==> w == Some(x as int) && x >= 1,
            width is None ==> w is None,
            row_start <= i <= n,
            forall|k: int| row_start <= k < i ==> chars@[k] != '\n',
            width matches Some(x) ==> i - row_start <= x,
            lines@ + rows_from(chars@, row_start as int, w) == rows_of(value@, wrap_width),
        decreases 2 * (n - i) + (if (width matches Some(x) && i - row_start == x) {
            1int
        } else {
            0int
        }),
    {
        proof {
            lemma_line_end_skip(chars@, row_start as int, i as int);
            lemma_line_end(chars@, i as int);
        }
        if chars[i] == '\n' {
            let line = VisualLine { start: row_start, len: i - row_start };
            proof {
                assert(line_end(chars@, i as int) == i);
                assert(rows_from(chars@, row_start as int, w) == seq![line] + rows_from(chars@, i + 1, w));
                assert(lines@.push(line) + rows_from(chars@, i + 1, w) =~= lines@ + (seq![line] + rows_from(chars@, i + 1, w)));
            }
            lines.push(line);
            i += 1;
            row_start = i;
            continue;
        }
        if let Some(wd) = width {
            if i - row_start == wd {
                let line = VisualLine { start: row_start, len: wd };
                proof {
                    assert(line_end(chars@, row_start as int) > i);
                    assert(rows_from(chars@, row_start as int, w) == seq![line] + rows_from(chars@, i as int, w));
                    assert(lines@.push(line) + rows_from(chars@, i as int, w) =~= lines@ + (seq![line] + rows_from(chars@, i as int, w)));
                }
                lines.push(line);
                row_start = i;
                continue;
            }
        }
        i += 1;
    }
    let last = VisualLine { start: row_start, len: n - row_start };
    proof {
        lemma_line_end_skip(chars@, row_start as int, n as int);
        assert(line_end(chars@, n as int) == n);
        assert(rows_from(chars@, row_start as int, w) == seq![last]);
        assert(lines@.push(last) =~= lines@ + seq![last]);
    }
    lines.push(last);
    lines
}

proof fn lemma_rows_nonempty(cs: Seq<char>, start: int, w: Option<int>)
    requires
        0 <= start <= cs.len(),
    ensures
        rows_from(cs, start, w).len() >= 1,
{
    lemma_line_end(cs, start);
}

/// The last row that starts at or before `pos`; 0 when there is none.
pub open spec fn row_for(lines: Seq<VisualLine>, pos: int) -> int
    decreases lines.len(),
{
    if lines.len() == 0 {
        0
    } else if lines.last().start <= pos {
        lines.len() - 1
    } else {
        row_for(lines.drop_last(), pos)
    }
}

proof fn lemma_row_for(lines: Seq<VisualLine>, pos: int)
    ensures
        lines.len() > 0 ==> 0 <= row_for(lines, pos) < lines.len(),
        lines.len() == 0 ==> row_for(lines, pos) == 0,
    decreases lines.len(),
{
    if lines.len() > 0 {
        lemma_row_for(lines.drop_last(), pos);
    }
}

fn visual_row_for_cursor(lines: &Vec<VisualLine>, cursor_pos: usize) -> (r: usize)
    ensures
        r == row_for(lines@, cursor_pos as int),
        lines@.len() > 0 ==> r < lines@.len(),
{
    proof {
        lemma_row_for(lines@, cursor_pos as int);
    }
    let mut i = lines.len();
    assert(lines@.take(i as int) =~= lines@);
    while i > 0
        invariant
            i <= lines@.len(),
            row_for(lines@, cursor_pos as int) == row_for(lines@.take(i as int), cursor_pos as int),
        decreases i,
    {
        proof {
            assert(lines@.take(i as int).drop_last() =~= lines@.take(i - 1));
            assert(lines@.take(i as int).last() == lines@[i - 1]);
        }
        if lines[i - 1].start <= cursor_pos {
            return i - 1;
        }
        i -= 1;
    }
    0
}

/// `lines.len() - 1`, or 0.
pub open spec fn last_row(lines: Seq<VisualLine>) -> int {
    if lines.len() == 0 {
        0
    } else {
        lines.len() - 1
    }
}

pub open spec fn min(a: int, b: int) -> int {
    if a < b {
        a
    } else {
        b
    }
}

pub open spec fn max(a: int, b: int) -> int {
    if a < b {
        b
    } else {
        a
    }
}

/// The number of rows of a value, at least 1.
pub fn textarea_visual_line_count(value: &str, wrap_width: Option<u16>) -> (r: usize)
    ensures
        r == rows_of(value@, wrap_width).len(),
        r >= 1,
{
    visual_lines(value, wrap_width).len()
}

/// How many rows a text area shows: its own row count, grown to the
/// content, and capped at `max_rows` (at least 1).
pub fn textarea_display_rows(value: &str, base_rows: u16, wrap_width: Option<u16>, max_rows: u16) -> (r: u16)
    ensures
        r == min(max(base_rows as int, max(min(rows_of(value@, wrap_width).len() as int, u16::MAX as int), 1)), max(max_rows as int, 1)),
{
    let count = textarea_visual_line_count(value, wrap_width);
    let content: u16 = if count > 65535 {
        65535
    } else {
        count as u16
    };
    let content = if content < 1 {
        1
    } else {
        content
    };
    let grown = if base_rows < content {
        content
    } else {
        base_rows
    };
    let cap = if max_rows < 1 {
        1
    } else {
        max_rows
    };
    if grown < cap {
        grown
    } else {
        cap
    }
}

/// The rows a text area may use in a window whose content is `content_height`
/// rows high.
pub fn textarea_max_rows_for_window(content_height: u16) -> (r: u16)
    ensures
        r == min(max(content_height - 3, 1), TEXTAREA_MAX_DISPLAY_ROWS as int),
{
    let h = content_height.saturating_sub(3);
    let h = if h < 1 {
        1
    } else {
        h
    };
    if h < TEXTAREA_MAX_DISPLAY_ROWS {
        h
    } else {
        TEXTAREA_MAX_DISPLAY_ROWS
    }
}

/// The wrap width for a text area drawn in `rect`, and whether a column is
/// kept for a scroll bar (when the rows do not fit and there is room).
pub fn textarea_wrap_for_rect(value: &str, rect: Rect) -> (r: (u16, bool))
    ensures
        ({
            let visible = max(rect.height as int, 1);
            let full = max(rect.width as int, 1);
            let needs = rows_of(value@, Some(full as u16)).len() > visible && rect.width > 1;
            if needs {
                r == (max(full - 1, 1) as u16, true)
            } else {
                r == (full as u16, false)
            }
        }),
{
    let visible: usize = if rect.height < 1 {
        1
    } else {
        rect.height as usize
    };
    let full: u16 = if rect.width < 1 {
        1
    } else {
        rect.width
    };
    let needs_scroll = visual_lines(value, Some(full)).len() > visible && rect.width > 1;
    if needs_scroll {
        let w = full - 1;
        (if w < 1 {
            1
        } else {
            w
        }, true)
    } else {
        (full, false)
    }
}

/// The characters of one row.
pub open spec fn row_text(cs: Seq<char>, line: VisualLine) -> Seq<char> {
    cs.subrange(line.start as int, min(line.start + line.len, cs.len() as int))
}

/// The first row shown: the cursor's row kept in view when focused, else
/// the top.
pub open spec fn window_start(lines: Seq<VisualLine>, cursor_pos: int, focused: bool, visible: int) -> int {
    let cursor_row = min(row_for(lines, cursor_pos), last_row(lines));
    if focused {
        max(cursor_row - (visible - 1), 0)
    } else {
        0
    }
}

/// The rows `start..end` of the text, padded with empty rows to `visible`.
pub open spec fn window_rows(cs: Seq<char>, lines: Seq<VisualLine>, start: int, end: int, visible: int) -> Seq<Seq<char>> {
    let shown = Seq::new(if end > start {
        (end - start) as nat
    } else {
        0
    }, |k: int| row_text(cs, lines[start + k]));
    shown + Seq::new(if visible > shown.len() {
        (visible - shown.len()) as nat
    } else {
        0
    }, |k: int| Seq::<char>::empty())
}

fn row_string(chars: &Vec<char>, line: VisualLine) -> (r: String)
    requires
        line.start <= chars@.len(),
    ensures
        r@ == row_text(chars@, line),
{
    let end = if line.len <= chars.len() - line.start {
        line.start + line.len
    } else {
        chars.len()
    };
    string_of(chars, line.start, end)
}

proof fn lemma_rows_start_bound(cs: Seq<char>, start: int, w: Option<int>)
    requires
        0 <= start <= cs.len(),
        cs.len() <= usize::MAX,
    ensures
        forall|k: int|
            0 <= k < rows_from(cs, start, w).len() ==> start <= (#[trigger] rows_from(cs, start, w)[k]).start
                <= cs.len() && rows_from(cs, start, w)[k].start + rows_from(cs, start, w)[k].len <= cs.len(),
    decreases cs.len() - start + 1,
{
    let p = line_end(cs, start);
    lemma_line_end(cs, start);
    match w {
        Some(wd) if wd >= 1 && p - start > wd => {
            lemma_rows_start_bound(cs, start + wd, w);
            let rest = rows_from(cs, start + wd, w);
            assert forall|k: int| 0 <= k < rows_from(cs, start, w).len() implies start <= (#[trigger] rows_from(cs, start, w)[k]).start <= cs.len() && rows_from(cs, start, w)[k].start + rows_from(cs, start, w)[k].len <= cs.len() by {
                if k > 0 {
                    assert(rows_from(cs, start, w)[k] == rest[k - 1]);
                }
            }
        },
        _ => if p < cs.len() {
            lemma_rows_start_bound(cs, p + 1, w);
            let rest = rows_from(cs, p + 1, w);
            assert forall|k: int| 0 <= k < rows_from(cs, start, w).len() implies start <= (#[trigger] rows_from(cs, start, w)[k]).start <= cs.len() && rows_from(cs, start, w)[k].start + rows_from(cs, start, w)[k].len <= cs.len() by {
                if k > 0 {
                    assert(rows_from(cs, start, w)[k] == rest[k - 1]);
                }
            }
        },
    }
}

/// The rows of a text area that are in view, joined by `\n`; the first row
/// shown; and the number of rows.
pub fn render_textarea_display_window(
    value: &str,
    cursor_pos: usize,
    focused: bool,
    visible_rows: usize,
    wrap_width: Option<u16>,
) -> (r: (String, usize, usize))
    requires
        visible_rows + value@.len() + 1 <= usize::MAX,
    ensures
        ({
            let lines = rows_of(value@, wrap_width);
            let visible = max(visible_rows as int, 1);
            let start = window_start(lines, cursor_pos as int, focused, visible);
            let end = min(start + visible, lines.len() as int);
            &&& r.1 == start
            &&& r.2 == lines.len()
            &&& r.0@ == crate::text::join(window_rows(value@, lines, start, end, visible), "\n"@)
        }),
{
    let visible: usize = if visible_rows < 1 {
        1
    } else {
        visible_rows
    };
    let lines = visual_lines(value, wrap_width);
    let chars = chars_of(value);
    proof {
        lemma_rows_start_bound(value@, 0, width_of(wrap_width));
    }
    let row = visual_row_for_cursor(&lines, cursor_pos);
    let last = lines.len() - 1;
    let cursor_row = if row < last {
        row
    } else {
        last
    };
    let start = if focused {
        cursor_row.saturating_sub(visible - 1)
    } else {
        0
    };
    let end = if visible <= lines.len() - start {
        start + visible
    } else {
        lines.len()
    };
    let ghost rows = window_rows(value@, lines@, start as int, end as int, visible as int);
    let mut display: Vec<String> = Vec::new();
    let mut k = start;
    while k < end
        invariant
            start <= k <= end <= lines@.len(),
            chars@ == value@,
            lines@ == rows_of(value@, wrap_width),
            forall|j: int| 0 <= j < lines@.len() ==> (#[trigger] lines@[j]).start <= chars@.len(),
            crate::text::views(display@) == rows.take(k - start),
            display@.len() == k - start,
            rows == window_rows(value@, lines@, start as int, end as int, visible as int),
        decreases end - k,
    {
        let s = row_string(&chars, lines[k]);
        display.push(s);
        proof {
            assert(crate::text::views(display@) =~= rows.take(k - start + 1));
        }
        k += 1;
    }
    proof {
        assert(display@.len() == end - start);
    }
    while display.len() < visible
        invariant
            display@.len() <= visible,
            end - start <= display@.len(),
            crate::text::views(display@) == rows.take(display@.len() as int),
            rows == window_rows(value@, lines@, start as int, end as int, visible as int),
            rows.len() == visible,
            forall|j: int| end - start <= j < rows.len() ==> rows[j] == Seq::<char>::empty(),
        decreases visible - display@.len(),
    {
        display.push(String::new());
        proof {
            reveal_strlit("");
            assert(crate::text::views(display@) =~= rows.take(display@.len() as int));
        }
    }
    proof {
        assert(rows.take(display@.len() as int) =~= rows);
    }
    (crate::text::join_exec(&display, "\n"), start, lines.len())
}

/// The rows of a value are in order and inside it.
pub proof fn lemma_rows_bound(value: Seq<char>, wrap_width: Option<u16>)
    requires
        value.len() <= usize::MAX,
    ensures
        forall|k: int|
            0 <= k < rows_of(value, wrap_width).len() ==> (#[trigger] rows_of(value, wrap_width)[k]).start
                + rows_of(value, wrap_width)[k].len <= value.len(),
        rows_of(value, wrap_width).len() >= 1,
{
    lemma_rows_start_bound(value, 0, width_of(wrap_width));
    lemma_rows_nonempty(value, 0, width_of(wrap_width));
}

/// The row the cursor is on, at most the last.
pub open spec fn cursor_row(value: Seq<char>, pos: int, wrap_width: Option<u16>) -> int {
    let lines = rows_of(value, wrap_width);
    min(row_for(lines, pos), last_row(lines))
}

/// The row the cursor is on.
pub fn textarea_cursor_row(value: &str, cursor_pos: usize, wrap_width: Option<u16>) -> (r: usize)
    ensures
        r == cursor_row(value@, cursor_pos as int, wrap_width),
{
    let lines = visual_lines(value, wrap_width);
    let row = visual_row_for_cursor(&lines, cursor_pos);
    let last = lines.len() - 1;
    if row < last {
        row
    } else {
        last
    }
}

/// The cursor's column in its row.
pub fn textarea_cursor_col(value: &str, cursor_pos: usize, wrap_width: Option<u16>) -> (r: usize)
    ensures
        r == max(cursor_pos - rows_of(value@, wrap_width)[row_for(rows_of(value@, wrap_width), cursor_pos as int)].start, 0),
{
    let lines = visual_lines(value, wrap_width);
    let row = visual_row_for_cursor(&lines, cursor_pos);
    cursor_pos.saturating_sub(lines[row].start)
}

/// The cursor after moving `row_delta` rows, keeping its column as far as
/// the target row allows.
pub open spec fn moved_vertically(value: Seq<char>, pos: int, row_delta: int, wrap_width: Option<u16>) -> int {
    let lines = rows_of(value, wrap_width);
    let row = cursor_row(value, pos, wrap_width);
    let col = max(pos - lines[row].start, 0);
    let target = min(max(row + row_delta, 0), last_row(lines));
    lines[target].start + min(col, lines[target].len as int)
}

/// Moves the cursor by `row_delta` rows.
pub fn textarea_move_cursor_vertical(value: &str, cursor_pos: usize, row_delta: isize, wrap_width: Option<u16>) -> (r: usize)
    ensures
        r == moved_vertically(value@, cursor_pos as int, row_delta as int, wrap_width),
{
    let lines = visual_lines(value, wrap_width);
    let _ = value.unicode_len();
    proof {
        lemma_rows_bound(value@, wrap_width);
    }
    let row = visual_row_for_cursor(&lines, cursor_pos);
    let last = lines.len() - 1;
    let row = if row < last {
        row
    } else {
        last
    };
    let col = cursor_pos.saturating_sub(lines[row].start);
    let target: usize = if row_delta >= 0 {
        let d = row_delta as usize;
        if d > last - row {
            last
        } else {
            row + d
        }
    } else {
        let back = if row_delta == isize::MIN {
            (isize::MAX as usize) + 1
        } else {
            (-row_delta) as usize
        };
        if back > row {
            0
        } else {
            row - back
        }
    };
    let line = lines[target];
    let take = if col < line.len {
        col
    } else {
        line.len
    };
    proof {
        let ls = rows_of(value@, wrap_width);
        assert(ls == lines@);
        assert(row == cursor_row(value@, cursor_pos as int, wrap_width));
        assert(col == max(cursor_pos - ls[row as int].start, 0));
        assert(target == min(max(row + row_delta, 0), last_row(ls)));
    }
    line.start + take
}

/// The start of the cursor's row.
pub fn textarea_home(value: &str, cursor_pos: usize, wrap_width: Option<u16>) -> (r: usize)
    ensures
        r == rows_of(value@, wrap_width)[row_for(rows_of(value@, wrap_width), cursor_pos as int)].start,
{
    let lines = visual_lines(value, wrap_width);
    let row = visual_row_for_cursor(&lines, cursor_pos);
    lines[row].start
}

/// The end of the cursor's row: on a row cut by wrapping, its last
/// character; else just past it.
pub open spec fn row_end(value: Seq<char>, pos: int, wrap_width: Option<u16>) -> int {
    let lines = rows_of(value, wrap_width);
    let row = row_for(lines, pos);
    let line = lines[row];
    if line.len == 0 {
        line.start as int
    } else if row + 1 < lines.len() && lines[row + 1].start == line.start + line.len {
        line.start + line.len - 1
    } else {
        line.start + line.len
    }
}

pub fn textarea_end(value: &str, cursor_pos: usize, wrap_width: Option<u16>) -> (r: usize)
    ensures
        r == row_end(value@, cursor_pos as int, wrap_width),
{
    let lines = visual_lines(value, wrap_width);
    let _ = value.unicode_len();
    proof {
        lemma_rows_bound(value@, wrap_width);
    }
    let row = visual_row_for_cursor(&lines, cursor_pos);
    let line = lines[row];
    if line.len == 0 {
        return line.start;
    }
    let soft = row < lines.len() - 1 && lines[row + 1].start == line.start + line.len;
    if soft {
        line.start + line.len - 1
    } else {
        line.start + line.len
    }
}

/// The cursor for a click at `(local_x, local_y)` in the shown rows.
pub open spec fn clicked(value: Seq<char>, wrap_width: Option<u16>, first_visible_row: int, local_x: int, local_y: int) -> int {
    let lines = rows_of(value, wrap_width);
    let row = min(min(first_visible_row + local_y, usize::MAX as int), last_row(lines));
    lines[row].start + min(local_x, lines[row].len as int)
}

pub fn textarea_cursor_from_click(value: &str, wrap_width: Option<u16>, first_visible_row: usize, local_x: u16, local_y: u16) -> (r: usize)
    ensures
        r == clicked(value@, wrap_width, first_visible_row as int, local_x as int, local_y as int),
{
    let lines = visual_lines(value, wrap_width);
    let _ = value.unicode_len();
    proof {
        lemma_rows_bound(value@, wrap_width);
    }
    let row = first_visible_row.saturating_add(local_y as usize);
    let last = lines.len() - 1;
    let row = if row < last {
        row
    } else {
        last
    };
    let line = lines[row];
    let x = local_x as usize;
    line.start + (if x < line.len {
        x
    } else {
        line.len
    })
}

/// Where a text area was hit on screen.
#[derive(Clone, Copy, Debug)]
pub struct TextareaHit {
    pub rect: Rect,
    pub field_idx: usize,
    pub first_visible_row: usize,
    pub wrap_width: u16,
}

/// `a + b`, capped at the largest `u16`.
pub open spec fn sat16(a: int, b: int) -> int {
    min(a + b, u16::MAX as int)
}

/// The number of items of sub-form field `id`; 0 when there is no list.
pub open spec fn item_count(st: EditFormState, id: Seq<char>) -> int {
    match crate::tui::editform::assoc(st.subs(), id) {
        Some(v) => v.len() as int,
        None => 0,
    }
}

/// How many content rows a field takes in the form.
pub open spec fn field_rows(st: EditFormState, i: int) -> int {
    let f = st.form.fields@[i];
    match f.kind {
        FieldKind::Textarea { rows, .. } => min(
            max(max(rows as int, 1), max(min(rows_of(st.value(f.id@), None).len() as int, u16::MAX as int), 1)),
            TEXTAREA_MAX_DISPLAY_ROWS as int,
        ),
        FieldKind::SubForm { .. } => (1 + max(item_count(st, f.id@), 1)) % 65536,
        _ => 1,
    }
}

/// The top and bottom row of the focused field when the fields from `i`
/// on are laid out from row `y`, each as a label row, a box of its content
/// rows plus two borders, and a blank row; `(0, 0)` when the focused field
/// is not among the shown ones.
pub open spec fn focus_rows_from(st: EditFormState, i: int, y: int) -> (int, int)
    decreases st.form.fields@.len() - i,
{
    if i < 0 || i >= st.form.fields@.len() {
        (0, 0)
    } else if !crate::tui::editform::shows(st.vals(), st.form.fields@[i]) {
        focus_rows_from(st, i + 1, y)
    } else {
        let box_height = sat16(field_rows(st, i), 2);
        if i == st.focused_field {
            (y, sat16(sat16(y, 1), box_height))
        } else {
            focus_rows_from(st, i + 1, sat16(y, sat16(sat16(1, box_height), 1)))
        }
    }
}

fn sat_add16(a: u16, b: u16) -> (r: u16)
    ensures
        r == sat16(a as int, b as int),
{
    a.saturating_add(b)
}

fn content_rows(state: &EditFormState, i: usize) -> (r: u16)
    requires
        i < state.form.fields@.len(),
    ensures
        r == field_rows(*state, i as int),
{
    let field = &state.form.fields[i];
    match &field.kind {
        FieldKind::Textarea { rows, .. } => {
            let base = if *rows < 1 {
                1
            } else {
                *rows
            };
            textarea_display_rows(state.get(field.id), base, None, TEXTAREA_MAX_DISPLAY_ROWS)
        },
        FieldKind::SubForm { .. } => {
            let n: usize = match state.sub_items(field.id) {
                Some(v) => v.len(),
                None => 0,
            };
            let m: u128 = if n < 1 {
                1
            } else {
                n as u128
            };
            ((1 + m) % 65536) as u16
        },
        _ => 1,
    }
}

/// The top and bottom row of the focused field in the laid-out form.
pub fn focused_field_virtual_rows(state: &EditFormState) -> (r: (u16, u16))
    ensures
        r.0 == focus_rows_from(*state, 0, 0).0,
        r.1 == focus_rows_from(*state, 0, 0).1,
{
    let mut y: u16 = 0;
    let mut i: usize = 0;
    while i < state.form.fields.len()
        invariant
            i <= state.form.fields@.len(),
            focus_rows_from(*state, 0, 0) == focus_rows_from(*state, i as int, y as int),
        decreases state.form.fields@.len() - i,
    {
        if !state.field_visible(&state.form.fields[i]) {
            i += 1;
            continue;
        }
        let box_height = sat_add16(content_rows(state, i), 2);
        if i == state.focused_field {
            return (y, sat_add16(sat_add16(y, 1), box_height));
        }
        y = sat_add16(y, sat_add16(sat_add16(1, box_height), 1));
        i += 1;
    }
    (0, 0)
}

/// The scroll offset that keeps the focused field in view, assuming about
/// sixteen rows are visible.
pub open spec fn scrolled_for_focus(st: EditFormState, current: int) -> int {
    let (top, bottom) = focus_rows_from(st, 0, 0);
    if top < current {
        top
    } else if bottom > sat16(current, 16) {
        max(bottom - 16, 0)
    } else {
        current
    }
}

pub fn auto_scroll_for_focus(state: &EditFormState, current_scroll: u16) -> (r: u16)
    ensures
        r == scrolled_for_focus(*state, current_scroll as int),
{
    let (top, bottom) = focused_field_virtual_rows(state);
    if top < current_scroll {
        top
    } else if bottom > current_scroll.saturating_add(16) {
        bottom.saturating_sub(16)
    } else {
        current_scroll
    }
}

/// Inserts `ch` at the cursor (clamped to the end); the cursor moves past it.
pub fn insert_char(value: &str, cursor_pos: usize, ch: char) -> (r: (String, usize))
    requires
        value@.len() < usize::MAX,
    ensures
        ({
            let pos = min(cursor_pos as int, value@.len() as int);
            &&& r.0@ == value@.take(pos) + seq![ch] + value@.skip(pos)
            &&& r.1 == pos + 1
        }),
{
    let mut chars = chars_of(value);
    let pos = if cursor_pos < chars.len() {
        cursor_pos
    } else {
        chars.len()
    };
    chars.insert(pos, ch);
    assert(chars@ =~= value@.take(pos as int) + seq![ch] + value@.skip(pos as int));
    let n = chars.len();
    let s = string_of(&chars, 0, n);
    assert(chars@.subrange(0, n as int) =~= chars@);
    (s, pos + 1)
}

/// Deletes the character before the cursor (clamped to the end); the
/// cursor moves back over it. Nothing changes at the start.
pub fn delete_char_before(value: &str, cursor_pos: usize) -> (r: (String, usize))
    ensures
        ({
            let pos = min(cursor_pos as int, value@.len() as int);
            if pos == 0 {
                r.0@ == value@ && r.1 == 0
            } else {
                r.0@ == value@.take(pos - 1) + value@.skip(pos) && r.1 == pos - 1
            }
        }),
{
    let mut chars = chars_of(value);
    let pos = if cursor_pos < chars.len() {
        cursor_pos
    } else {
        chars.len()
    };
    if pos == 0 {
        return (crate::text::owned(value), 0);
    }
    chars.remove(pos - 1);
    assert(chars@ =~= value@.take(pos - 1) + value@.skip(pos as int));
    let n = chars.len();
    let s = string_of(&chars, 0, n);
    assert(chars@.subrange(0, n as int) =~= chars@);
    (s, pos - 1)
}


// ---------------------------------------------------------------------------
// The scrollbar, and finding a textarea on screen
// ---------------------------------------------------------------------------

/// The textarea scrollbar's thumb in a track `track` rows tall: its top row
/// and its height, in proportion to the visible share of the rows; none when
/// the track is empty or every row is visible.
pub open spec fn scroll_thumb(track: nat, first: nat, visible: nat, total: nat) -> Option<(nat, nat)> {
    if track == 0 || total <= visible {
        None
    } else {
        let v = max(visible as int, 1);
        let t = max(total as int, 1);
        let h = min(max(v * track / t, 1), track as int);
        let max_scroll = if total > v { total - v } else { 0 };
        let travel = track - h;
        let top = if max_scroll == 0 {
            0
        } else {
            min(first as int, max_scroll) * travel / max_scroll
        };
        Some((top as nat, h as nat))
    }
}

/// The thumb of `render_textarea_scrollbar` (see [`scroll_thumb`]); it
/// always lies inside the track.
pub fn textarea_scrollbar_thumb(track_height: u16, first_visible_row: usize, visible_rows: usize, total_rows: usize) -> (r: Option<(usize, usize)>)
    ensures
        match r {
            Some((top, h)) => scroll_thumb(track_height as nat, first_visible_row as nat, visible_rows as nat, total_rows as nat)
                == Some((top as nat, h as nat)) && h >= 1 && top + h <= track_height,
            None => scroll_thumb(track_height as nat, first_visible_row as nat, visible_rows as nat, total_rows as nat) is None,
        },
{
    if track_height == 0 || total_rows <= visible_rows {
        return None;
    }
    let track = track_height as u128;
    let v: u128 = if visible_rows == 0 {
        1
    } else {
        visible_rows as u128
    };
    let t: u128 = if total_rows == 0 {
        1
    } else {
        total_rows as u128
    };
    assert(v * track <= 0xffff_ffff_ffff_ffff * 0xffff) by (nonlinear_arith)
        requires
            v <= 0xffff_ffff_ffff_ffff,
            track <= 0xffff,
    ;
    let h0 = v * track / t;
    let h1 = if h0 < 1 {
        1
    } else {
        h0
    };
    let h = if h1 > track {
        track
    } else {
        h1
    };
    let max_scroll: u128 = if total_rows as u128 > v {
        total_rows as u128 - v
    } else {
        0
    };
    let travel = track - h;
    let top: u128 = if max_scroll == 0 {
        0
    } else {
        let f = if (first_visible_row as u128) < max_scroll {
            first_visible_row as u128
        } else {
            max_scroll
        };
        assert(f * travel <= 0xffff_ffff_ffff_ffff * 0xffff) by (nonlinear_arith)
            requires
                f <= 0xffff_ffff_ffff_ffff,
                travel <= 0xffff,
        ;
        assert((f * travel) as int / (max_scroll as int) <= travel as int) by (nonlinear_arith)
            requires
                f <= max_scroll,
                max_scroll > 0,
        ;
        f * travel / max_scroll
    };
    Some((top as usize, h as usize))
}

/// `contains_rect`: whether cell `(x, y)` lies inside `area` (its far edges
/// capped at the largest `u16`).
pub fn contains_rect(area: Rect, x: u16, y: u16) -> (r: bool)
    ensures
        r == (area.x <= x && x < sat16(area.x as int, area.width as int) && area.y <= y && y < sat16(
            area.y as int,
            area.height as int,
        )),
{
    x >= area.x && x < area.x.saturating_add(area.width) && y >= area.y && y < area.y.saturating_add(area.height)
}

/// The first hit at or after `i` for field `field_idx`.
pub open spec fn first_hit(hits: Seq<TextareaHit>, field_idx: usize, i: int) -> Option<TextareaHit>
    decreases hits.len() - i,
{
    if i < 0 || i >= hits.len() {
        None
    } else if hits[i].field_idx == field_idx {
        Some(hits[i])
    } else {
        first_hit(hits, field_idx, i + 1)
    }
}

/// `textarea_wrap_width`: the wrap width recorded for a field's textarea,
/// from its first hit, when it is not zero.
pub fn textarea_wrap_width(hits: &Vec<TextareaHit>, field_idx: usize) -> (r: Option<u16>)
    ensures
        r == match first_hit(hits@, field_idx, 0) {
            Some(h) => if h.wrap_width > 0 {
                Some(h.wrap_width)
            } else {
                None
            },
            None => None,
        },
{
    let mut i: usize = 0;
    while i < hits.len()
        invariant
            i <= hits@.len(),
            first_hit(hits@, field_idx, 0) == first_hit(hits@, field_idx, i as int),
        decreases hits@.len() - i,
    {
        if hits[i].field_idx == field_idx {
            let w = hits[i].wrap_width;
            return if w > 0 {
                Some(w)
            } else {
                None
            };
        }
        i += 1;
    }
    None
}

} // verus!
