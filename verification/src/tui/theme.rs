//! The color theme: a palette read from a theme file, the built-in
//! colors, which theme file wins, and the theme overview text.
use vstd::prelude::*;

use crate::text::{cat, cat3, owned, push_str};
use crate::tui::colors::{color_to_hex, default_header_quotes, hex_color, hex_text, parse_hex_color};
use crate::tui::help::{
    line_view, lines_view, pad_right, padded, plain, plain_line, push_line, rule_line, rule_text, HelpKind, HelpLine, LineView,
};

verus! {

/// The version shown in the theme overview.
pub const APP_VERSION: &'static str = "0.1.0";

/// A theme file's colors as written, each in hex. Two may be left out.
pub struct Palette {
    pub base_background: String,
    pub body_background: String,
    pub modal_background: String,
    pub text_primary: String,
    pub text_secondary: String,
    pub text_disabled: Option<String>,
    pub text_inverse: Option<String>,
    pub text_labels: String,
    pub text_active_focus: String,
    pub modal_labels: String,
    pub modal_text: String,
    pub modal_header: String,
    pub selected_background: String,
    pub border_default: String,
    pub border_active: String,
    pub scrollbar: String,
    pub scrollbar_hover: String,
    pub input_border_default: String,
    pub input_border_focus: String,
    pub input_text_default: String,
    pub input_text_focus: String,
    pub cursor: String,
    pub success: String,
    pub warning: String,
    pub error: String,
    pub info: String,
    pub folders: String,
    pub files: String,
    pub links: String,
}

/// The theme's colors as RGB triples.
#[derive(Clone, Copy, Debug)]
pub struct ThemeColors {
    pub base_background: (u8, u8, u8),
    pub body_background: (u8, u8, u8),
    pub modal_background: (u8, u8, u8),
    pub text_primary: (u8, u8, u8),
    pub text_secondary: (u8, u8, u8),
    pub text_disabled: (u8, u8, u8),
    pub text_inverse: (u8, u8, u8),
    pub text_labels: (u8, u8, u8),
    pub text_active_focus: (u8, u8, u8),
    pub modal_labels: (u8, u8, u8),
    pub modal_text: (u8, u8, u8),
    pub modal_header: (u8, u8, u8),
    pub selected_background: (u8, u8, u8),
    pub border_default: (u8, u8, u8),
    pub border_active: (u8, u8, u8),
    pub scrollbar: (u8, u8, u8),
    pub scrollbar_hover: (u8, u8, u8),
    pub input_border_default: (u8, u8, u8),
    pub input_border_focus: (u8, u8, u8),
    pub input_text_default: (u8, u8, u8),
    pub input_text_focus: (u8, u8, u8),
    pub cursor: (u8, u8, u8),
    pub success: (u8, u8, u8),
    pub warning: (u8, u8, u8),
    pub error: (u8, u8, u8),
    pub info: (u8, u8, u8),
    pub folders: (u8, u8, u8),
    pub files: (u8, u8, u8),
    pub links: (u8, u8, u8),
}

/// The text of the palette entry that gives each color, in the order they
/// are read; a left-out entry reads as its default.
pub open spec fn palette_raw(p: Palette) -> Seq<Seq<char>> {
    seq![
        p.base_background@,
        p.body_background@,
        p.modal_background@,
        p.text_primary@,
        p.text_secondary@,
        match p.text_disabled { Some(s) => s@, None => "#A0A4A8"@ },
        match p.text_inverse { Some(s) => s@, None => "#F9FAFB"@ },
        p.text_labels@,
        p.text_active_focus@,
        p.modal_labels@,
        p.modal_text@,
        p.modal_header@,
        p.selected_background@,
        p.border_default@,
        p.border_active@,
        p.scrollbar@,
        p.scrollbar_hover@,
        p.input_border_default@,
        p.input_border_focus@,
        p.input_text_default@,
        p.input_text_focus@,
        p.cursor@,
        p.success@,
        p.warning@,
        p.error@,
        p.info@,
        p.folders@,
        p.files@,
        p.links@,
    ]
}

/// The colors in palette order.
pub open spec fn color_seq(c: ThemeColors) -> Seq<(u8, u8, u8)> {
    seq![
        c.base_background,
        c.body_background,
        c.modal_background,
        c.text_primary,
        c.text_secondary,
        c.text_disabled,
        c.text_inverse,
        c.text_labels,
        c.text_active_focus,
        c.modal_labels,
        c.modal_text,
        c.modal_header,
        c.selected_background,
        c.border_default,
        c.border_active,
        c.scrollbar,
        c.scrollbar_hover,
        c.input_border_default,
        c.input_border_focus,
        c.input_text_default,
        c.input_text_focus,
        c.cursor,
        c.success,
        c.warning,
        c.error,
        c.info,
        c.folders,
        c.files,
        c.links,
    ]
}

/// The first entry at or after `i` that is no hex color.
pub open spec fn first_bad(raws: Seq<Seq<char>>, i: int) -> Option<int>
    decreases raws.len() - i,
{
    if i < 0 || i >= raws.len() {
        None
    } else if hex_color(raws[i]) is Err {
        Some(i)
    } else {
        first_bad(raws, i + 1)
    }
}

/// Every entry reads as a color.
pub open spec fn palette_ok(p: Palette) -> bool {
    forall|i: int| 0 <= i < palette_raw(p).len() ==> #[trigger] hex_color(palette_raw(p)[i]) is Ok
}

proof fn lemma_first_bad_at(raws: Seq<Seq<char>>, k: int)
    requires
        0 <= k < raws.len(),
        hex_color(raws[k]) is Err,
        forall|j: int| 0 <= j < k ==> #[trigger] hex_color(raws[j]) is Ok,
    ensures
        first_bad(raws, 0) == Some(k),
{
    lemma_first_bad_from(raws, 0, k);
}

proof fn lemma_first_bad_from(raws: Seq<Seq<char>>, i: int, k: int)
    requires
        0 <= i <= k < raws.len(),
        hex_color(raws[k]) is Err,
        forall|j: int| 0 <= j < k ==> #[trigger] hex_color(raws[j]) is Ok,
    ensures
        first_bad(raws, i) == Some(k),
    decreases k - i,
{
    if i < k {
        lemma_first_bad_from(raws, i + 1, k);
    }
}

proof fn lemma_no_bad(raws: Seq<Seq<char>>, i: int)
    requires
        0 <= i <= raws.len(),
        forall|j: int| i <= j < raws.len() ==> #[trigger] hex_color(raws[j]) is Ok,
    ensures
        first_bad(raws, i) is None,
    decreases raws.len() - i,
{
    if i < raws.len() {
        lemma_no_bad(raws, i + 1);
    }
}

/// The palette's entries in reading order.
fn raw_entries(p: &Palette) -> (r: Vec<&str>)
    ensures
        r@.map_values(|s: &str| s@) == palette_raw(*p),
{
    proof {
        reveal_strlit("#A0A4A8");
        reveal_strlit("#F9FAFB");
    }
    let text_disabled: &str = match &p.text_disabled {
        Some(s) => s.as_str(),
        None => "#A0A4A8",
    };
    let text_inverse: &str = match &p.text_inverse {
        Some(s) => s.as_str(),
        None => "#F9FAFB",
    };
    let r = vec![
        p.base_background.as_str(),
        p.body_background.as_str(),
        p.modal_background.as_str(),
        p.text_primary.as_str(),
        p.text_secondary.as_str(),
        text_disabled,
        text_inverse,
        p.text_labels.as_str(),
        p.text_active_focus.as_str(),
        p.modal_labels.as_str(),
        p.modal_text.as_str(),
        p.modal_header.as_str(),
        p.selected_background.as_str(),
        p.border_default.as_str(),
        p.border_active.as_str(),
        p.scrollbar.as_str(),
        p.scrollbar_hover.as_str(),
        p.input_border_default.as_str(),
        p.input_border_focus.as_str(),
        p.input_text_default.as_str(),
        p.input_text_focus.as_str(),
        p.cursor.as_str(),
        p.success.as_str(),
        p.warning.as_str(),
        p.error.as_str(),
        p.info.as_str(),
        p.folders.as_str(),
        p.files.as_str(),
        p.links.as_str(),
    ];
    assert(r@.map_values(|s: &str| s@) =~= palette_raw(*p));
    r
}

/// The colors from a list in palette order.
fn colors_from(cs: &Vec<(u8, u8, u8)>) -> (r: ThemeColors)
    requires
        cs@.len() == 29,
    ensures
        color_seq(r) == cs@,
{
    let r = ThemeColors {
        base_background: cs[0],
        body_background: cs[1],
        modal_background: cs[2],
        text_primary: cs[3],
        text_secondary: cs[4],
        text_disabled: cs[5],
        text_inverse: cs[6],
        text_labels: cs[7],
        text_active_focus: cs[8],
        modal_labels: cs[9],
        modal_text: cs[10],
        modal_header: cs[11],
        selected_background: cs[12],
        border_default: cs[13],
        border_active: cs[14],
        scrollbar: cs[15],
        scrollbar_hover: cs[16],
        input_border_default: cs[17],
        input_border_focus: cs[18],
        input_text_default: cs[19],
        input_text_focus: cs[20],
        cursor: cs[21],
        success: cs[22],
        warning: cs[23],
        error: cs[24],
        info: cs[25],
        folders: cs[26],
        files: cs[27],
        links: cs[28],
    };
    assert(color_seq(r) =~= cs@);
    r
}

/// `from_palette`: every entry read as a color. The first entry that is no
/// color stops it with its message.
pub fn from_palette(p: &Palette) -> (r: Result<ThemeColors, String>)
    ensures
        r is Ok <==> palette_ok(*p),
        r matches Ok(c) ==> forall|i: int| 0 <= i < palette_raw(*p).len() ==> hex_color(palette_raw(*p)[i]) == Ok::<(u8, u8, u8), Seq<char>>(#[trigger] color_seq(c)[i]),
        r matches Err(e) ==> (first_bad(palette_raw(*p), 0) matches Some(k) && hex_color(palette_raw(*p)[k]) == Err::<(u8, u8, u8), Seq<char>>(e@)),
{
    let raws = raw_entries(p);
    let ghost rv = palette_raw(*p);
    let mut cs: Vec<(u8, u8, u8)> = Vec::new();
    let mut i: usize = 0;
    while i < raws.len()
        invariant
            i <= raws@.len(),
            raws@.map_values(|s: &str| s@) == rv,
            rv == palette_raw(*p),
            cs@.len() == i,
            forall|j: int| 0 <= j < i ==> hex_color(rv[j]) == Ok::<(u8, u8, u8), Seq<char>>(#[trigger] cs@[j]),
        decreases raws@.len() - i,
    {
        assert(rv[i as int] == raws@[i as int]@);
        match parse_hex_color(raws[i]) {
            Ok(c) => cs.push(c),
            Err(e) => {
                proof {
                    assert forall|j: int| 0 <= j < i implies #[trigger] hex_color(rv[j]) is Ok by {
                        assert(hex_color(rv[j]) == Ok::<(u8, u8, u8), Seq<char>>(cs@[j]));
                    }
                    lemma_first_bad_at(rv, i as int);
                }
                return Err(e);
            },
        }
        i += 1;
    }
    proof {
        assert(raws@.map_values(|s: &str| s@).len() == raws@.len());
        assert forall|j: int| 0 <= j < rv.len() implies #[trigger] hex_color(rv[j]) is Ok by {
            assert(hex_color(rv[j]) == Ok::<(u8, u8, u8), Seq<char>>(cs@[j]));
        }
    }
    let c = colors_from(&cs);
    Ok(c)
}

/// The built-in colors.
pub open spec fn builtin_colors() -> ThemeColors {
    ThemeColors {
        base_background: (15u8, 17u8, 20u8),
        body_background: (42u8, 45u8, 49u8),
        modal_background: (28u8, 30u8, 33u8),
        text_primary: (245u8, 246u8, 247u8),
        text_secondary: (158u8, 163u8, 170u8),
        text_disabled: (160u8, 164u8, 168u8),
        text_inverse: (249u8, 250u8, 251u8),
        text_labels: (255u8, 175u8, 70u8),
        text_active_focus: (100u8, 180u8, 245u8),
        modal_labels: (100u8, 180u8, 245u8),
        modal_text: (245u8, 246u8, 247u8),
        modal_header: (100u8, 180u8, 245u8),
        selected_background: (15u8, 17u8, 20u8),
        border_default: (245u8, 246u8, 247u8),
        border_active: (100u8, 180u8, 245u8),
        scrollbar: (255u8, 160u8, 135u8),
        scrollbar_hover: (100u8, 180u8, 245u8),
        input_border_default: (245u8, 246u8, 247u8),
        input_border_focus: (100u8, 180u8, 245u8),
        input_text_default: (245u8, 246u8, 247u8),
        input_text_focus: (100u8, 180u8, 245u8),
        cursor: (100u8, 180u8, 245u8),
        success: (130u8, 224u8, 170u8),
        warning: (245u8, 196u8, 105u8),
        error: (229u8, 115u8, 115u8),
        info: (93u8, 173u8, 226u8),
        folders: (100u8, 180u8, 245u8),
        files: (255u8, 175u8, 70u8),
        links: (255u8, 160u8, 135u8),
    }
}

/// The colors of the built-in theme.
pub fn default_colors() -> (r: ThemeColors)
    ensures
        r == builtin_colors(),
{
    let focus: (u8, u8, u8) = (100, 180, 245);
    let base: (u8, u8, u8) = (15, 17, 20);
    let text: (u8, u8, u8) = (245, 246, 247);
    ThemeColors {
        base_background: base,
        body_background: (42, 45, 49),
        modal_background: (28, 30, 33),
        text_primary: text,
        text_secondary: (158, 163, 170),
        text_disabled: (160, 164, 168),
        text_inverse: (249, 250, 251),
        text_labels: (255, 175, 70),
        text_active_focus: focus,
        modal_labels: focus,
        modal_text: text,
        modal_header: focus,
        selected_background: base,
        border_default: text,
        border_active: focus,
        scrollbar: (255, 160, 135),
        scrollbar_hover: focus,
        input_border_default: text,
        input_border_focus: focus,
        input_text_default: text,
        input_text_focus: focus,
        cursor: focus,
        success: (130, 224, 170),
        warning: (245, 196, 105),
        error: (229, 115, 115),
        info: (93, 173, 226),
        folders: focus,
        files: (255, 175, 70),
        links: (255, 160, 135),
    }
}

/// `try_parse_hex_color`: the color, when `raw` is one.
pub fn try_parse_hex_color(raw: &str) -> (r: Option<(u8, u8, u8)>)
    ensures
        r == match hex_color(raw@) {
            Ok(c) => Some(c),
            Err(_) => None::<(u8, u8, u8)>,
        },
{
    match parse_hex_color(raw) {
        Ok(c) => Some(c),
        Err(_) => None,
    }
}

// ---------------------------------------------------------------------------
// Which theme file wins
// ---------------------------------------------------------------------------

/// What reading one candidate theme file gave.
pub enum ThemeRead {
    /// There is no such file.
    Missing,
    /// The file could not be read; the reason.
    ReadFailed(String),
    /// The file is no theme file; the reason.
    Invalid(String),
    /// The file's declared version, taglines and palette.
    Parsed { version: Option<u32>, header_quotes: Vec<String>, colors: Palette },
}

/// After one candidate: go on to the next, with the warning to keep, or use
/// this theme.
pub enum ThemeStep {
    Next(Option<String>),
    Use { colors: ThemeColors, header_quotes: Vec<String>, warning: Option<String> },
}

pub open spec fn warn_view(w: Option<String>) -> Option<Seq<char>> {
    match w {
        Some(s) => Some(s@),
        None => None,
    }
}

/// `r` says "next, with warning `w`".
pub open spec fn goes_on(r: ThemeStep, w: Option<Seq<char>>) -> bool {
    r matches ThemeStep::Next(n) && warn_view(n) == w
}

/// What one candidate at `path` decides, the warning so far being `warning`:
/// a missing file is passed over; an unreadable or invalid file, a version
/// other than 1, or a palette entry that is no color is passed over with a
/// warning; else its colors are used, with its taglines or, when it has
/// none, the built-in ones.
pub open spec fn theme_decided(warning: Option<Seq<char>>, path: Seq<char>, read: ThemeRead, r: ThemeStep) -> bool {
    match read {
        ThemeRead::Missing => goes_on(r, warning),
        ThemeRead::ReadFailed(e) => goes_on(r, Some("could not read '"@ + path + "': "@ + e@)),
        ThemeRead::Invalid(e) => goes_on(r, Some("invalid theme file '"@ + path + "': "@ + e@)),
        ThemeRead::Parsed { version, header_quotes, colors } => match version {
            None => goes_on(r, Some("theme '"@ + path + "' is missing required 'version: 1'; using built-in defaults"@)),
            Some(v) => if v != 1 {
                goes_on(
                    r,
                    Some(
                        "theme '"@ + path + "' declares version "@ + crate::text::decimal(v as nat)
                            + " (expected 1); using built-in defaults"@,
                    ),
                )
            } else if palette_ok(colors) {
                r matches ThemeStep::Use { colors: c, header_quotes: q, warning: w } && warn_view(w) == warning
                    && crate::text::views(q@) == (if header_quotes@.len() > 0 {
                    crate::text::views(header_quotes@)
                } else {
                    crate::tui::colors::builtin_quotes()
                }) && forall|i: int| 0 <= i < palette_raw(colors).len() ==> hex_color(palette_raw(colors)[i])
                    == Ok::<(u8, u8, u8), Seq<char>>(#[trigger] color_seq(c)[i])
            } else {
                first_bad(palette_raw(colors), 0) matches Some(k) && goes_on(
                    r,
                    Some("theme '"@ + path + "' color parse error: "@ + hex_color(palette_raw(colors)[k])->Err_0
                        + "; using defaults"@),
                )
            },
        },
    }
}

/// One step of choosing the theme (see [`theme_decided`]): the files are
/// tried in order and the first usable one wins; the last warning is kept.
pub fn theme_step(warning: Option<String>, path: &str, read: ThemeRead) -> (r: ThemeStep)
    ensures
        theme_decided(warn_view(warning), path@, read, r),
{
    match read {
        ThemeRead::Missing => ThemeStep::Next(warning),
        ThemeRead::ReadFailed(e) => {
            let mut m = cat3("could not read '", path, "': ");
            push_str(&mut m, e.as_str());
            ThemeStep::Next(Some(m))
        },
        ThemeRead::Invalid(e) => {
            let mut m = cat3("invalid theme file '", path, "': ");
            push_str(&mut m, e.as_str());
            ThemeStep::Next(Some(m))
        },
        ThemeRead::Parsed { version, header_quotes, colors } => match version {
            None => ThemeStep::Next(
                Some(cat3("theme '", path, "' is missing required 'version: 1'; using built-in defaults")),
            ),
            Some(v) => {
                if v != 1 {
                    let mut m = cat3("theme '", path, "' declares version ");
                    let d = crate::text::decimal_exec(v as u64);
                    push_str(&mut m, d.as_str());
                    push_str(&mut m, " (expected 1); using built-in defaults");
                    return ThemeStep::Next(Some(m));
                }
                match from_palette(&colors) {
                    Ok(c) => {
                        let quotes = if header_quotes.len() > 0 {
                            header_quotes
                        } else {
                            default_header_quotes()
                        };
                        ThemeStep::Use { colors: c, header_quotes: quotes, warning }
                    },
                    Err(e) => {
                        let mut m = cat3("theme '", path, "' color parse error: ");
                        push_str(&mut m, e.as_str());
                        push_str(&mut m, "; using defaults");
                        ThemeStep::Next(Some(m))
                    },
                }
            },
        },
    }
}

// ---------------------------------------------------------------------------
// The theme overview
// ---------------------------------------------------------------------------

/// The sampled tokens: name, color, and what it colors.
pub open spec fn token_table(c: ThemeColors) -> Seq<(Seq<char>, (u8, u8, u8), Seq<char>)> {
    seq![
        ("base_background"@, c.base_background, "app_shell base"@),
        ("body_background"@, c.body_background, "body panes"@),
        ("modal_background"@, c.modal_background, "modals & toasts"@),
        ("text_primary"@, c.text_primary, "primary text"@),
        ("text_secondary"@, c.text_secondary, "muted text"@),
        ("text_disabled"@, c.text_disabled, "disabled text"@),
        ("text_inverse"@, c.text_inverse, "inverted text"@),
        ("text_labels"@, c.text_labels, "labels at rest"@),
        ("text_active_focus"@, c.text_active_focus, "focus + keys"@),
        ("modal_labels"@, c.modal_labels, "modal labels"@),
        ("modal_header"@, c.modal_header, "section titles bold"@),
        ("selected_background"@, c.selected_background, "selected row"@),
        ("border_default"@, c.border_default, "idle pane border"@),
        ("border_active"@, c.border_active, "focused pane border"@),
        ("input_border_default"@, c.input_border_default, "idle inputs"@),
        ("input_border_focus"@, c.input_border_focus, "focused inputs"@),
        ("input_text_default"@, c.input_text_default, "idle input text"@),
        ("input_text_focus"@, c.input_text_focus, "focused input text"@),
        ("cursor"@, c.cursor, "input cursor overlay"@),
        ("success"@, c.success, "success toasts"@),
        ("warning"@, c.warning, "warning toasts"@),
        ("error"@, c.error, "error toasts"@),
        ("info"@, c.info, "info toasts"@),
        ("folders"@, c.folders, "picker folders"@),
        ("files"@, c.files, "picker files"@),
        ("links"@, c.links, "picker links"@),
        ("scrollbar"@, c.scrollbar, "scrollbars"@),
        ("scrollbar_hover"@, c.scrollbar_hover, "scrollbar thumb"@),
    ]
}

/// A token line: the name padded to 18, the color in hex, its use.
pub open spec fn token_line(t: (Seq<char>, (u8, u8, u8), Seq<char>)) -> LineView {
    plain("  "@ + pad_right(t.0, 18) + " "@ + hex_text(t.1.0, t.1.1, t.1.2) + "   ("@ + t.2 + ")"@)
}

pub open spec fn key_line(key: Seq<char>, text: Seq<char>) -> LineView {
    LineView { kind: HelpKind::Key, key, text }
}

pub open spec fn heading(t: Seq<char>) -> LineView {
    LineView { kind: HelpKind::Heading, key: Seq::empty(), text: t }
}

pub open spec fn rule(width: int) -> LineView {
    LineView { kind: HelpKind::Rule, key: Seq::empty(), text: rule_line(width) }
}

/// The theme overview: where the theme came from, whether it loaded
/// cleanly, and the sampled colors.
pub open spec fn theme_text(c: ThemeColors, source: Seq<char>, status: Option<Seq<char>>, width: int) -> Seq<LineView> {
    seq![
        heading("Theme"@),
        plain(Seq::empty()),
        key_line("  App: "@, "dd_emailforge v"@ + APP_VERSION@),
        key_line("  Source: "@, source + "   (./dd_emailforge_theme.yml or ~/.config/ldnddev/)"@),
        key_line("  Status: "@, match status {
            Some(s) => s,
            None => "OK (loaded cleanly)"@,
        }),
        plain(Seq::empty()),
        rule(width),
        plain(Seq::empty()),
        heading("Loaded color tokens (sampled)"@),
        plain(Seq::empty()),
    ] + token_table(c).map_values(|t: (Seq<char>, (u8, u8, u8), Seq<char>)| token_line(t)) + seq![
        plain(Seq::empty()),
        rule(width),
        plain(Seq::empty()),
        plain("  (All colors from self.theme.*. No hardcodes.)"@),
    ]
}

fn tokens_of(c: &ThemeColors) -> (r: Vec<(&'static str, (u8, u8, u8), &'static str)>)
    ensures
        r@.map_values(|t: (&'static str, (u8, u8, u8), &'static str)| (t.0@, t.1, t.2@)) == token_table(*c),
{
    let r = vec![
        ("base_background", c.base_background, "app_shell base"),
        ("body_background", c.body_background, "body panes"),
        ("modal_background", c.modal_background, "modals & toasts"),
        ("text_primary", c.text_primary, "primary text"),
        ("text_secondary", c.text_secondary, "muted text"),
        ("text_disabled", c.text_disabled, "disabled text"),
        ("text_inverse", c.text_inverse, "inverted text"),
        ("text_labels", c.text_labels, "labels at rest"),
        ("text_active_focus", c.text_active_focus, "focus + keys"),
        ("modal_labels", c.modal_labels, "modal labels"),
        ("modal_header", c.modal_header, "section titles bold"),
        ("selected_background", c.selected_background, "selected row"),
        ("border_default", c.border_default, "idle pane border"),
        ("border_active", c.border_active, "focused pane border"),
        ("input_border_default", c.input_border_default, "idle inputs"),
        ("input_border_focus", c.input_border_focus, "focused inputs"),
        ("input_text_default", c.input_text_default, "idle input text"),
        ("input_text_focus", c.input_text_focus, "focused input text"),
        ("cursor", c.cursor, "input cursor overlay"),
        ("success", c.success, "success toasts"),
        ("warning", c.warning, "warning toasts"),
        ("error", c.error, "error toasts"),
        ("info", c.info, "info toasts"),
        ("folders", c.folders, "picker folders"),
        ("files", c.files, "picker files"),
        ("links", c.links, "picker links"),
        ("scrollbar", c.scrollbar, "scrollbars"),
        ("scrollbar_hover", c.scrollbar_hover, "scrollbar thumb"),
    ];
    assert(r@.map_values(|t: (&'static str, (u8, u8, u8), &'static str)| (t.0@, t.1, t.2@)) =~= token_table(*c));
    r
}

fn heading_line(t: &str) -> (r: HelpLine)
    ensures
        line_view(r) == heading(t@),
{
    HelpLine { kind: HelpKind::Heading, key: String::new(), text: owned(t) }
}

fn blank_line() -> (r: HelpLine)
    ensures
        line_view(r) == plain(Seq::empty()),
{
    plain_line(String::new())
}

/// The theme overview (see [`theme_text`]) for the
/// colors in use, where they came from, and the load warning if any.
pub fn theme_lines(c: &ThemeColors, source: &str, status: &Option<String>, width: usize) -> (r: Vec<HelpLine>)
    ensures
        lines_view(r@) == theme_text(*c, source@, warn_view(*status), width as int),
{
    proof {
        reveal_strlit("");
    }
    let mut out: Vec<HelpLine> = Vec::new();
    push_line(&mut out, heading_line("Theme"));
    push_line(&mut out, blank_line());
    push_line(&mut out, HelpLine { kind: HelpKind::Key, key: owned("  App: "), text: cat("dd_emailforge v", APP_VERSION) });
    push_line(
        &mut out,
        HelpLine {
            kind: HelpKind::Key,
            key: owned("  Source: "),
            text: cat(source, "   (./dd_emailforge_theme.yml or ~/.config/ldnddev/)"),
        },
    );
    let status_text = match status {
        Some(s) => owned(s.as_str()),
        None => owned("OK (loaded cleanly)"),
    };
    push_line(&mut out, HelpLine { kind: HelpKind::Key, key: owned("  Status: "), text: status_text });
    push_line(&mut out, blank_line());
    push_line(&mut out, HelpLine { kind: HelpKind::Rule, key: String::new(), text: rule_text(width) });
    push_line(&mut out, blank_line());
    push_line(&mut out, heading_line("Loaded color tokens (sampled)"));
    push_line(&mut out, blank_line());
    let ghost head = lines_view(out@);
    let tokens = tokens_of(c);
    let ghost table = token_table(*c);
    let mut i: usize = 0;
    while i < tokens.len()
        invariant
            i <= tokens@.len(),
            tokens@.map_values(|t: (&'static str, (u8, u8, u8), &'static str)| (t.0@, t.1, t.2@)) == table,
            lines_view(out@) == head + table.take(i as int).map_values(|t: (Seq<char>, (u8, u8, u8), Seq<char>)| token_line(t)),
        decreases tokens@.len() - i,
    {
        let (name, color, role) = tokens[i];
        let mut line = owned("  ");
        let name_col = padded(name, 18);
        push_str(&mut line, name_col.as_str());
        push_str(&mut line, " ");
        let hex = color_to_hex(color.0, color.1, color.2);
        push_str(&mut line, hex.as_str());
        push_str(&mut line, "   (");
        push_str(&mut line, role);
        push_str(&mut line, ")");
        proof {
            assert(table[i as int] == (name@, color, role@));
        }
        push_line(&mut out, plain_line(line));
        proof {
            assert(table.take(i + 1).map_values(|t: (Seq<char>, (u8, u8, u8), Seq<char>)| token_line(t)) =~= table.take(
                i as int,
            ).map_values(|t: (Seq<char>, (u8, u8, u8), Seq<char>)| token_line(t)).push(token_line(table[i as int])));
        }
        i += 1;
    }
    proof {
        assert(table.take(tokens@.len() as int) =~= table);
    }
    push_line(&mut out, blank_line());
    push_line(&mut out, HelpLine { kind: HelpKind::Rule, key: String::new(), text: rule_text(width) });
    push_line(&mut out, blank_line());
    push_line(&mut out, plain_line(owned("  (All colors from self.theme.*. No hardcodes.)")));
    proof {
        assert(lines_view(out@) =~= theme_text(*c, source@, warn_view(*status), width as int));
    }
    out
}

} // verus!
