//! The help overlay's text: key tables laid out in a key column and a
//! word-wrapped description column.
use vstd::prelude::*;

use crate::text::{chars_of, is_ws, owned, push_char, push_str, string_of, views, words, words_exec};

verus! {

/// Descriptions start after this many columns.
pub const KEY_COL: usize = 22;

// ---------------------------------------------------------------------------
// Word wrapping
// ---------------------------------------------------------------------------

/// `word` cut into pieces of `w` characters, the last one shorter.
pub open spec fn chunks(word: Seq<char>, w: int) -> Seq<Seq<char>>
    decreases word.len(),
{
    if w < 1 || word.len() <= w {
        seq![word]
    } else {
        seq![word.take(w)] + chunks(word.skip(w), w)
    }
}

/// One word added to the wrap so far: `(lines done, line being filled)`.
/// A word goes on the current line after a space when it fits; otherwise
/// the line is finished and the word starts the next. A word longer than
/// the width is cut into pieces of the width, each a line of its own.
pub open spec fn wrap_step(acc: (Seq<Seq<char>>, Seq<char>), word: Seq<char>, w: int) -> (Seq<Seq<char>>, Seq<char>) {
    let (out, cur) = acc;
    if cur.len() == 0 {
        if word.len() > w {
            (out + chunks(word, w), Seq::empty())
        } else {
            (out, word)
        }
    } else if cur.len() + 1 + word.len() <= w {
        (out, cur + seq![' '] + word)
    } else if word.len() > w {
        (out.push(cur) + chunks(word, w), Seq::empty())
    } else {
        (out.push(cur), word)
    }
}

pub open spec fn wrap_fold(ws: Seq<Seq<char>>, w: int) -> (Seq<Seq<char>>, Seq<char>)
    decreases ws.len(),
{
    if ws.len() == 0 {
        (Seq::empty(), Seq::empty())
    } else {
        wrap_step(wrap_fold(ws.drop_last(), w), ws.last(), w)
    }
}

/// `text` wrapped greedily at `width` (at least 1) columns; at least one
/// line, empty when there are no words.
pub open spec fn wrapped(text: Seq<char>, width: int) -> Seq<Seq<char>> {
    let w = if width < 1 {
        1
    } else {
        width
    };
    let (out, cur) = wrap_fold(words(text, false), w);
    let out = if cur.len() > 0 {
        out.push(cur)
    } else {
        out
    };
    if out.len() == 0 {
        seq![Seq::empty()]
    } else {
        out
    }
}

fn push_chunks(out: &mut Vec<String>, word: &str, w: usize)
    requires
        w >= 1,
        word@.len() > 0,
    ensures
        views(final(out)@) == views(old(out)@) + chunks(word@, w as int),
{
    let chars = chars_of(word);
    let mut i: usize = 0;
    proof {
        assert(chars@.skip(0) =~= word@);
    }
    while i < chars.len()
        invariant
            w >= 1,
            i <= chars@.len(),
            chars@ == word@,
            chars@.len() > 0,
            i < chars@.len() ==> views(out@) + chunks(chars@.skip(i as int), w as int) == views(old(out)@)
                + chunks(word@, w as int),
            i == chars@.len() ==> views(out@) == views(old(out)@) + chunks(word@, w as int),
        decreases chars@.len() - i,
    {
        let end = if w <= chars.len() - i {
            i + w
        } else {
            chars.len()
        };
        let piece = string_of(&chars, i, end);
        let ghost before = views(out@);
        let ghost rest = chars@.skip(i as int);
        out.push(piece);
        proof {
            assert(views(out@) =~= before.push(piece@));
            if rest.len() <= w {
                assert(piece@ =~= rest);
                assert(chunks(rest, w as int) == seq![rest]);
                assert(before.push(piece@) =~= before + seq![rest]);
            } else {
                assert(piece@ =~= rest.take(w as int));
                assert(rest.skip(w as int) =~= chars@.skip(end as int));
                assert(chunks(rest, w as int) == seq![rest.take(w as int)] + chunks(rest.skip(w as int), w as int));
                assert(before.push(piece@) + chunks(chars@.skip(end as int), w as int) =~= before + (seq![piece@]
                    + chunks(chars@.skip(end as int), w as int)));
            }
        }
        i = end;
    }
}

/// `text` wrapped at `width` columns (see [`wrapped`]).
pub fn wrap_to_lines(text: &str, width: usize) -> (r: Vec<String>)
    ensures
        views(r@) == wrapped(text@, width as int),
{
    let w: usize = if width < 1 {
        1
    } else {
        width
    };
    let ws = words_exec(text, false);
    let ghost wsv = views(ws@);
    proof {
        crate::text::lemma_words_scan_clean(text@, false);
    }
    let mut out: Vec<String> = Vec::new();
    let mut current = String::new();
    let mut k: usize = 0;
    proof {
        assert(wsv.take(0) =~= Seq::<Seq<char>>::empty());
        reveal_strlit("");
    }
    while k < ws.len()
        invariant
            w >= 1,
            w == (if width < 1 { 1 } else { width }),
            k <= ws@.len(),
            wsv == views(ws@),
            wsv == words(text@, false),
            crate::text::clean_words(wsv, false),
            (views(out@), current@) == wrap_fold(wsv.take(k as int), w as int),
        decreases ws@.len() - k,
    {
        let word = ws[k].as_str();
        let wlen = word.unicode_len();
        let clen = current.as_str().unicode_len();
        proof {
            assert(wsv.take(k + 1).drop_last() =~= wsv.take(k as int));
            assert(wsv.take(k + 1).last() == word@);
            assert(word@.len() > 0);
        }
        if clen == 0 {
            if wlen > w {
                push_chunks(&mut out, word, w);
                current = String::new();
            } else {
                current = owned(word);
            }
        } else if clen < w && wlen <= w - clen - 1 {
            push_char(&mut current, ' ');
            push_str(&mut current, word);
            proof {
                assert(current@ =~= wrap_fold(wsv.take(k as int), w as int).1 + seq![' '] + word@);
            }
        } else {
            let done = current;
            out.push(done);
            proof {
                assert(views(out@) =~= wrap_fold(wsv.take(k as int), w as int).0.push(done@));
            }
            if wlen > w {
                push_chunks(&mut out, word, w);
                current = String::new();
            } else {
                current = owned(word);
            }
        }
        k += 1;
    }
    proof {
        assert(wsv.take(ws@.len() as int) =~= wsv);
    }
    if current.as_str().unicode_len() > 0 {
        let last = current;
        out.push(last);
        proof {
            assert(views(out@) =~= wrap_fold(wsv, w as int).0.push(last@));
        }
    }
    if out.len() == 0 {
        out.push(String::new());
        proof {
            assert(views(out@) =~= seq![Seq::<char>::empty()]);
        }
    }
    out
}

// ---------------------------------------------------------------------------
// The help text
// ---------------------------------------------------------------------------

/// What a help line is, for styling.
#[derive(Clone, Copy, Debug, PartialEq, Eq, Structural)]
pub enum HelpKind {
    /// A section title.
    Heading,
    /// A key (in `key`) with the first piece of its description.
    Key,
    /// Plain text: a blank line, a continued description, or a note.
    Plain,
    /// A divider.
    Rule,
}

/// One line of the help text. For a `Key` line, `key` is the indented key
/// column; `text` is the rest of the line.
#[derive(Clone, Debug, PartialEq, Eq)]
pub struct HelpLine {
    pub kind: HelpKind,
    pub key: String,
    pub text: String,
}

/// A titled table of keys and what they do.
pub struct HelpSection {
    pub title: &'static str,
    pub items: Vec<(&'static str, &'static str)>,
}

/// A help line as the spec sees it.
pub struct LineView {
    pub kind: HelpKind,
    pub key: Seq<char>,
    pub text: Seq<char>,
}

pub open spec fn line_view(l: HelpLine) -> LineView {
    LineView { kind: l.kind, key: l.key@, text: l.text@ }
}

pub open spec fn lines_view(ls: Seq<HelpLine>) -> Seq<LineView> {
    ls.map_values(|l: HelpLine| line_view(l))
}

pub open spec fn plain(t: Seq<char>) -> LineView {
    LineView { kind: HelpKind::Plain, key: Seq::empty(), text: t }
}

/// `n` copies of `c`.
pub open spec fn repeat(c: char, n: nat) -> Seq<char> {
    Seq::new(n, |i: int| c)
}

/// `s` padded with spaces to `n` characters.
pub open spec fn pad_right(s: Seq<char>, n: nat) -> Seq<char> {
    if s.len() < n {
        s + repeat(' ', (n - s.len()) as nat)
    } else {
        s
    }
}

/// The divider: two spaces, then `width - 4` rules, at least 12 and at
/// most 50.
pub open spec fn rule_line(width: int) -> Seq<char> {
    let n = if width - 4 < 12 {
        12
    } else if width - 4 > 50 {
        50
    } else {
        width - 4
    };
    "  "@ + repeat('─', n as nat)
}

/// The lines of one key: the key column, then its description wrapped in
/// the space left; continued pieces are indented to the description column.
pub open spec fn item_lines(key: Seq<char>, action: Seq<char>, width: int) -> Seq<LineView> {
    let prefix = "  • "@ + pad_right(key, 18);
    let avail = if width > KEY_COL {
        width - KEY_COL
    } else {
        0
    };
    let chunks = wrapped(action, avail);
    if chunks.len() == 1 && chunks[0].len() == 0 {
        seq![LineView { kind: HelpKind::Key, key: prefix, text: Seq::empty() }]
    } else {
        Seq::new(chunks.len(), |i: int| if i == 0 {
            LineView { kind: HelpKind::Key, key: prefix, text: chunks[0] }
        } else {
            plain(repeat(' ', KEY_COL as nat) + chunks[i])
        })
    }
}

pub open spec fn items_lines(items: Seq<(Seq<char>, Seq<char>)>, width: int) -> Seq<LineView>
    decreases items.len(),
{
    if items.len() == 0 {
        Seq::empty()
    } else {
        items_lines(items.drop_last(), width) + item_lines(items.last().0, items.last().1, width)
    }
}

/// A section: its title, a blank line, its keys, a blank line, the
/// divider and a blank line.
pub open spec fn section_lines(title: Seq<char>, items: Seq<(Seq<char>, Seq<char>)>, width: int) -> Seq<LineView> {
    seq![LineView { kind: HelpKind::Heading, key: Seq::empty(), text: title }, plain(Seq::empty())]
        + items_lines(items, width) + seq![
        plain(Seq::empty()),
        LineView { kind: HelpKind::Rule, key: Seq::empty(), text: rule_line(width) },
        plain(Seq::empty()),
    ]
}

pub open spec fn section_items(s: HelpSection) -> Seq<(Seq<char>, Seq<char>)> {
    s.items@.map_values(|p: (&'static str, &'static str)| (p.0@, p.1@))
}

pub open spec fn sections_lines(ss: Seq<HelpSection>, width: int) -> Seq<LineView>
    decreases ss.len(),
{
    if ss.len() == 0 {
        Seq::empty()
    } else {
        sections_lines(ss.drop_last(), width) + section_lines(ss.last().title@, section_items(ss.last()), width)
    }
}

/// The notes: a heading, a blank line, and the note wrapped two columns
/// in from the width.
pub open spec fn notes_lines(note: Seq<char>, width: int) -> Seq<LineView> {
    let chunks = wrapped(note, if width > 2 {
        width - 2
    } else {
        0
    });
    seq![LineView { kind: HelpKind::Heading, key: Seq::empty(), text: "Notes"@ }, plain(Seq::empty())]
        + Seq::new(chunks.len(), |i: int| plain("  "@ + chunks[i]))
}

fn repeat_char(c: char, n: usize) -> (r: String)
    ensures
        r@ == repeat(c, n as nat),
{
    let mut s = String::new();
    let mut i: usize = 0;
    while i < n
        invariant
            i <= n,
            s@ == repeat(c, i as nat),
        decreases n - i,
    {
        push_char(&mut s, c);
        proof {
            assert(s@ =~= repeat(c, (i + 1) as nat));
        }
        i += 1;
    }
    s
}

pub(crate) fn padded(s: &str, n: usize) -> (r: String)
    ensures
        r@ == pad_right(s@, n as nat),
{
    let len = s.unicode_len();
    let mut out = owned(s);
    if len < n {
        let spaces = repeat_char(' ', n - len);
        push_str(&mut out, spaces.as_str());
    }
    out
}

pub(crate) fn plain_line(t: String) -> (r: HelpLine)
    ensures
        line_view(r) == plain(t@),
{
    proof {
        reveal_strlit("");
    }
    HelpLine { kind: HelpKind::Plain, key: String::new(), text: t }
}

pub(crate) fn push_line(out: &mut Vec<HelpLine>, l: HelpLine)
    ensures
        lines_view(final(out)@) == lines_view(old(out)@).push(line_view(l)),
{
    out.push(l);
    assert(lines_view(out@) =~= lines_view(old(out)@).push(line_view(l)));
}

fn push_item(out: &mut Vec<HelpLine>, key: &str, action: &str, width: usize)
    ensures
        lines_view(final(out)@) == lines_view(old(out)@) + item_lines(key@, action@, width as int),
{
    let mut prefix = owned("  • ");
    let key_col = padded(key, 18);
    push_str(&mut prefix, key_col.as_str());
    let avail = width.saturating_sub(KEY_COL);
    let chunks = wrap_to_lines(action, avail);
    let ghost start = lines_view(out@);
    let ghost cs = views(chunks@);
    if chunks.len() == 1 && chunks[0].as_str().unicode_len() == 0 {
        proof {
            reveal_strlit("");
        }
        push_line(out, HelpLine { kind: HelpKind::Key, key: prefix, text: String::new() });
        proof {
            assert(lines_view(out@) =~= start + item_lines(key@, action@, width as int));
        }
        return;
    }
    let indent = repeat_char(' ', KEY_COL);
    let mut i: usize = 0;
    while i < chunks.len()
        invariant
            i <= chunks@.len(),
            cs == views(chunks@),
            cs == wrapped(action@, (if width > KEY_COL { width - KEY_COL } else { 0 }) as int),
            !(cs.len() == 1 && cs[0].len() == 0),
            prefix@ == "  • "@ + pad_right(key@, 18),
            indent@ == repeat(' ', KEY_COL as nat),
            lines_view(out@) == start + item_lines(key@, action@, width as int).take(i as int),
        decreases chunks@.len() - i,
    {
        let chunk = chunks[i].clone();
        let line = if i == 0 {
            HelpLine { kind: HelpKind::Key, key: prefix.clone(), text: chunk }
        } else {
            let mut t = indent.clone();
            push_str(&mut t, chunk.as_str());
            plain_line(t)
        };
        push_line(out, line);
        proof {
            assert(lines_view(out@) =~= start + item_lines(key@, action@, width as int).take(i + 1));
        }
        i += 1;
    }
    proof {
        assert(item_lines(key@, action@, width as int).take(chunks@.len() as int) =~= item_lines(key@, action@, width as int));
    }
}

pub(crate) fn rule_text(width: usize) -> (r: String)
    ensures
        r@ == rule_line(width as int),
{
    let n: usize = if width < 16 {
        12
    } else if width - 4 > 50 {
        50
    } else {
        width - 4
    };
    let mut s = owned("  ");
    let rules = repeat_char('─', n);
    push_str(&mut s, rules.as_str());
    s
}

fn push_section(out: &mut Vec<HelpLine>, title: &str, items: &Vec<(&'static str, &'static str)>, width: usize)
    ensures
        lines_view(final(out)@) == lines_view(old(out)@) + section_lines(
            title@,
            items@.map_values(|p: (&'static str, &'static str)| (p.0@, p.1@)),
            width as int,
        ),
{
    let ghost start = lines_view(out@);
    let ghost its = items@.map_values(|p: (&'static str, &'static str)| (p.0@, p.1@));
    proof {
        reveal_strlit("");
    }
    push_line(out, HelpLine { kind: HelpKind::Heading, key: String::new(), text: owned(title) });
    push_line(out, plain_line(String::new()));
    let ghost head = lines_view(out@);
    let mut i: usize = 0;
    while i < items.len()
        invariant
            i <= items@.len(),
            its == items@.map_values(|p: (&'static str, &'static str)| (p.0@, p.1@)),
            lines_view(out@) == head + items_lines(its.take(i as int), width as int),
        decreases items@.len() - i,
    {
        let (k, a) = items[i];
        push_item(out, k, a, width);
        proof {
            assert(its.take(i + 1).drop_last() =~= its.take(i as int));
            assert(its.take(i + 1).last() == (k@, a@));
        }
        i += 1;
    }
    proof {
        assert(its.take(items@.len() as int) =~= its);
    }
    push_line(out, plain_line(String::new()));
    push_line(out, HelpLine { kind: HelpKind::Rule, key: String::new(), text: rule_text(width) });
    push_line(out, plain_line(String::new()));
    proof {
        assert(lines_view(out@) =~= start + section_lines(title@, its, width as int));
    }
}

/// The help text for `width` columns: each section, then the notes.
pub fn help_lines(sections: &Vec<HelpSection>, note: &str, width: usize) -> (r: Vec<HelpLine>)
    ensures
        lines_view(r@) == sections_lines(sections@, width as int) + notes_lines(note@, width as int),
{
    let mut out: Vec<HelpLine> = Vec::new();
    let mut i: usize = 0;
    assert(lines_view(out@) =~= sections_lines(sections@.take(0), width as int));
    while i < sections.len()
        invariant
            i <= sections@.len(),
            lines_view(out@) == sections_lines(sections@.take(i as int), width as int),
        decreases sections@.len() - i,
    {
        push_section(&mut out, sections[i].title, &sections[i].items, width);
        proof {
            assert(sections@.take(i + 1).drop_last() =~= sections@.take(i as int));
            assert(sections@.take(i + 1).last() == sections@[i as int]);
        }
        i += 1;
    }
    proof {
        assert(sections@.take(sections@.len() as int) =~= sections@);
        reveal_strlit("");
    }
    let ghost before = lines_view(out@);
    push_line(&mut out, HelpLine { kind: HelpKind::Heading, key: String::new(), text: owned("Notes") });
    push_line(&mut out, plain_line(String::new()));
    let chunks = wrap_to_lines(note, width.saturating_sub(2));
    let ghost cs = views(chunks@);
    let ghost head = lines_view(out@);
    let mut k: usize = 0;
    while k < chunks.len()
        invariant
            k <= chunks@.len(),
            cs == views(chunks@),
            lines_view(out@) == head + Seq::new(k as nat, |j: int| plain("  "@ + cs[j])),
        decreases chunks@.len() - k,
    {
        let mut t = owned("  ");
        push_str(&mut t, chunks[k].as_str());
        push_line(&mut out, plain_line(t));
        proof {
            assert(lines_view(out@) =~= head + Seq::new((k + 1) as nat, |j: int| plain("  "@ + cs[j])));
        }
        k += 1;
    }
    proof {
        assert(lines_view(out@) =~= before + notes_lines(note@, width as int));
    }
    out
}

/// The note at the end of the help.
pub const HELP_NOTE: &'static str = "Autosave rewrites template.json 2s after a change when a path is set. Manual s also writes template.json.backup. JSON-LD and CSS may be invalid while typing; F3 / export / preview require them to parse. Insert picker lists only kinds legal for the current selection. Image picker is rooted at images/ and cannot walk above the template folder. Padding is 1-4 values with px or % (e.g. 10px or 10px 20px); bare numbers are saved as px.";

/// The key tables of the help as the spec sees them: each title with its
/// key and action rows.
pub open spec fn sections_view(ss: Seq<HelpSection>) -> Seq<(Seq<char>, Seq<(Seq<char>, Seq<char>)>)> {
    ss.map_values(|s: HelpSection| (s.title@, section_items(s)))
}

/// The help's key tables.
pub open spec fn help_table() -> Seq<(Seq<char>, Seq<(Seq<char>, Seq<char>)>)> {
    seq![
        ("Global"@, seq![
                ("F1"@, "Open/close this help"@),
                ("F2"@, "Open/close theme source + sampled tokens"@),
                ("F3"@, "Validate the open template"@),
                ("p"@, "Preview in browser (mjml -w + loopback wrapper)"@),
                ("Shift+E"@, "Export template.mjml + template.html next to the JSON"@),
                ("s"@, "Save template.json (+ .backup on manual save)"@),
                ("Ctrl+Q"@, "Quit (confirms if unsaved; bare q does not quit)"@),
            ]),
        ("Help / Theme overlays"@, seq![
                ("F1 / Esc"@, "Close help"@),
                ("F2 / Esc"@, "Close theme"@),
                ("j/k or arrows"@, "Scroll"@),
                ("g / G"@, "Jump to top / bottom"@),
                ("PageUp / PageDown"@, "Scroll by a page"@),
            ]),
        ("Structure tree"@, seq![
                ("j/k or arrows"@, "Move selection"@),
                ("g / G"@, "First / last row"@),
                ("h / l"@, "Collapse / expand"@),
                ("Space"@, "Toggle expand"@),
                ("Enter"@, "Edit selected (FormEdit)"@),
                ("/"@, "Insert component (legal kinds only)"@),
                ("Tab"@, "Focus Structure ↔ Details"@),
                ("d"@, "Delete (not HEAD/BRAND/BODY)"@),
                ("y"@, "Duplicate after"@),
                ("u"@, "Undo (cap 20)"@),
                ("J / K"@, "Reorder sibling down / up"@),
                ("C / V"@, "Add / remove column"@),
                ("c / v"@, "Prev / next column"@),
            ]),
        ("FormEdit"@, seq![
                ("Tab / Shift+Tab"@, "Next / previous field"@),
                ("Up / Down"@, "Previous / next field (textarea: move line)"@),
                ("Left / Right"@, "Cycle enum, or move cursor"@),
                ("A / X"@, "Add / remove collection row (fonts, social)"@),
                ("Ctrl+S"@, "Save (or return from a drilled-in item)"@),
                ("Ctrl+P"@, "Image picker on src / background_url fields"@),
                ("Ctrl+E"@, "Expand focused textarea to a full-size editor"@),
                ("Esc"@, "Close expanded textarea, or cancel edit"@),
                ("Click field"@, "Focus that input"@),
            ]),
        ("Mouse"@, seq![
                ("Wheel"@, "Scroll the pane under the cursor"@),
                ("Click tree row"@, "Select (glyph column expands)"@),
                ("Click pane"@, "Focus Structure or Details"@),
                ("Click blueprint"@, "Select that element in the tree"@),
                ("Double-click"@, "Same as Enter (open FormEdit)"@),
            ]),
    ]
}

/// The key tables of the help, in order (see [`help_table`]).
pub fn help_sections() -> (r: Vec<HelpSection>)
    ensures
        sections_view(r@) == help_table(),
{
    let r = vec![
        HelpSection {
            title: "Global",
            items: vec![
                ("F1", "Open/close this help"),
                ("F2", "Open/close theme source + sampled tokens"),
                ("F3", "Validate the open template"),
                ("p", "Preview in browser (mjml -w + loopback wrapper)"),
                ("Shift+E", "Export template.mjml + template.html next to the JSON"),
                ("s", "Save template.json (+ .backup on manual save)"),
                ("Ctrl+Q", "Quit (confirms if unsaved; bare q does not quit)"),
            ],
        },
        HelpSection {
            title: "Help / Theme overlays",
            items: vec![
                ("F1 / Esc", "Close help"),
                ("F2 / Esc", "Close theme"),
                ("j/k or arrows", "Scroll"),
                ("g / G", "Jump to top / bottom"),
                ("PageUp / PageDown", "Scroll by a page"),
            ],
        },
        HelpSection {
            title: "Structure tree",
            items: vec![
                ("j/k or arrows", "Move selection"),
                ("g / G", "First / last row"),
                ("h / l", "Collapse / expand"),
                ("Space", "Toggle expand"),
                ("Enter", "Edit selected (FormEdit)"),
                ("/", "Insert component (legal kinds only)"),
                ("Tab", "Focus Structure ↔ Details"),
                ("d", "Delete (not HEAD/BRAND/BODY)"),
                ("y", "Duplicate after"),
                ("u", "Undo (cap 20)"),
                ("J / K", "Reorder sibling down / up"),
                ("C / V", "Add / remove column"),
                ("c / v", "Prev / next column"),
            ],
        },
        HelpSection {
            title: "FormEdit",
            items: vec![
                ("Tab / Shift+Tab", "Next / previous field"),
                ("Up / Down", "Previous / next field (textarea: move line)"),
                ("Left / Right", "Cycle enum, or move cursor"),
                ("A / X", "Add / remove collection row (fonts, social)"),
                ("Ctrl+S", "Save (or return from a drilled-in item)"),
                ("Ctrl+P", "Image picker on src / background_url fields"),
                ("Ctrl+E", "Expand focused textarea to a full-size editor"),
                ("Esc", "Close expanded textarea, or cancel edit"),
                ("Click field", "Focus that input"),
            ],
        },
        HelpSection {
            title: "Mouse",
            items: vec![
                ("Wheel", "Scroll the pane under the cursor"),
                ("Click tree row", "Select (glyph column expands)"),
                ("Click pane", "Focus Structure or Details"),
                ("Click blueprint", "Select that element in the tree"),
                ("Double-click", "Same as Enter (open FormEdit)"),
            ],
        },
    ];
    assert(sections_view(r@) =~~= help_table());
    r
}

} // verus!
