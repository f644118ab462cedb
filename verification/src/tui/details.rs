//! The details pane: the fields of the selected row, then an ascii blueprint
//! of the whole email whose regions lead back to the tree rows they show.
//!
//! What the pane shows is stated by spec functions over the template; the
//! blueprint is stated over a model of its character canvas, one spec
//! function per drawing step.
use vstd::prelude::*;

use crate::emit::given;
use crate::padding::{all_digits, digits_value, is_digit};
use crate::json_ld::{json_reading, read_json, JsonReading, JsonShape};
use crate::model::{
    BodyNode, ColumnChild, EmailArticle, EmailFooter, EmailHeader, EmailHero, ImagePosition,
    MjColumn, MjGroup, MjHero, MjSection, MjWrapper, SectionChild, Template, WebFont,
};
use crate::text::{
    blank, cat, cat3, chars_of, eq_str, decimal, decimal_exec, first_of, first_of_exec, is_blank, join,
    join_exec, lines, lines_exec, owned, push_char, push_str, string_of, trim, trim_str, views,
};
use crate::tui::tree::{copy_id, copy_path, extend_path, same_id, IdView, Step, TreeId, TreeRow};

verus! {

// ---------------------------------------------------------------------------
// Small text helpers
// ---------------------------------------------------------------------------

/// The pane's title for the selected row's label.
pub open spec fn title_of(label: Seq<char>) -> Seq<char> {
    "Details — "@ + label
}

/// The pane's title: `Details — <label>`.
pub fn details_title(label: &str) -> (r: String)
    ensures
        r@ == title_of(label@),
{
    cat("Details — ", label)
}

/// A field shown as `—` when it is blank.
pub open spec fn dash(s: Seq<char>) -> Seq<char> {
    if is_blank(s) {
        "—"@
    } else {
        s
    }
}

fn dash_exec(s: &str) -> (r: String)
    ensures
        r@ == dash(s@),
{
    if blank(s) {
        owned("—")
    } else {
        owned(s)
    }
}

/// `s` with each line break shown as a space.
pub open spec fn unbreak(s: Seq<char>) -> Seq<char> {
    s.map_values(|c: char| if c == '\n' { ' ' } else { c })
}

/// `s` on one line, cut to `max` characters with a final `…` when longer.
pub open spec fn truncated(s: Seq<char>, max: nat) -> Seq<char> {
    let t = unbreak(s);
    if t.len() <= max {
        t
    } else {
        t.take(if max == 0 { 0int } else { max - 1 }) + "…"@
    }
}

fn truncate(s: &str, max: usize) -> (r: String)
    ensures
        r@ == truncated(s@, max as nat),
{
    let v = chars_of(s);
    let keep: usize = if v.len() <= max {
        v.len()
    } else if max == 0 {
        0
    } else {
        max - 1
    };
    let mut r = String::new();
    let mut i: usize = 0;
    while i < keep
        invariant
            keep <= v.len(),
            i <= keep,
            v@ == s@,
            r@ == unbreak(v@).take(i as int),
        decreases keep - i,
    {
        let c = if v[i] == '\n' {
            ' '
        } else {
            v[i]
        };
        push_char(&mut r, c);
        assert(unbreak(v@).take(i + 1) =~= unbreak(v@).take(i as int).push(c));
        i += 1;
    }
    if keep < v.len() {
        push_str(&mut r, "…");
    } else {
        assert(unbreak(v@).take(i as int) =~= unbreak(v@));
    }
    r
}

/// The host of a URL: the text between its second and third `/` (to the end
/// when there is no third); the whole text when it has fewer than two `/`.
pub open spec fn host_of(href: Seq<char>) -> Seq<char> {
    match first_of(href, '/', 0) {
        None => href,
        Some(i) => match first_of(href, '/', i + 1) {
            None => href,
            Some(j) => match first_of(href, '/', j + 1) {
                Some(k) => href.subrange(j + 1, k),
                None => href.subrange(j + 1, href.len() as int),
            },
        },
    }
}

proof fn lemma_first_of_range(s: Seq<char>, c: char, i: int)
    ensures
        first_of(s, c, i) matches Some(k) ==> i <= k < s.len() && s[k] == c,
    decreases s.len() - i,
{
    if 0 <= i < s.len() && s[i] != c {
        lemma_first_of_range(s, c, i + 1);
    }
}

fn host_of_exec(href: &str) -> (r: String)
    ensures
        r@ == host_of(href@),
{
    let v = chars_of(href);
    proof {
        lemma_first_of_range(v@, '/', 0);
    }
    match first_of_exec(&v, '/', 0) {
        None => owned(href),
        Some(i) => {
            proof {
                lemma_first_of_range(v@, '/', i + 1);
            }
            match first_of_exec(&v, '/', i + 1) {
                None => owned(href),
                Some(j) => {
                    proof {
                        lemma_first_of_range(v@, '/', j + 1);
                    }
                    match first_of_exec(&v, '/', j + 1) {
                        Some(k) => string_of(&v, j + 1, k),
                        None => string_of(&v, j + 1, v.len()),
                    }
                },
            }
        },
    }
}

fn decimal_usize(n: usize) -> (r: String)
    ensures
        r@ == decimal(n as nat),
{
    decimal_exec(n as u64)
}

pub open spec fn bool_text(b: bool) -> Seq<char> {
    if b {
        "true"@
    } else {
        "false"@
    }
}

fn bool_text_exec(b: bool) -> (r: String)
    ensures
        r@ == bool_text(b),
{
    if b {
        owned("true")
    } else {
        owned("false")
    }
}

// ---------------------------------------------------------------------------
// The structured-data summary
// ---------------------------------------------------------------------------

/// The first `@type` at or after element `i`.
pub open spec fn first_type(tys: Seq<Option<Seq<char>>>, i: int) -> Option<Seq<char>>
    decreases tys.len() - i,
{
    if i < 0 || i >= tys.len() {
        None
    } else if tys[i] is Some {
        tys[i]
    } else {
        first_type(tys, i + 1)
    }
}

/// What the head's summary says of a reading of `head.json_ld`: the object's
/// `@type`, or the first element `@type` of an array.
pub open spec fn type_summary(r: JsonShape) -> Seq<char> {
    match r {
        JsonShape::Object(_, _, Some(t)) => t,
        JsonShape::Array(_, _, tys) => match first_type(tys, 0) {
            Some(t) => t,
            None => "(invalid JSON)"@,
        },
        _ => "(invalid JSON)"@,
    }
}

/// The head's one-line summary of `head.json_ld`.
pub open spec fn json_ld_summary(raw: Seq<char>) -> Seq<char> {
    if trim(raw).len() == 0 {
        "(empty)"@
    } else {
        type_summary(json_reading(trim(raw)))
    }
}

/// The summary of one reading of `head.json_ld` (see [`type_summary`]).
pub fn summary_from_reading(r: &JsonReading) -> (out: String)
    ensures
        out@ == type_summary(r@),
{
    match r {
        JsonReading::Object(_, _, Some(t)) => owned(t.as_str()),
        JsonReading::Array(_, _, tys) => {
            let mut i: usize = 0;
            while i < tys.len()
                invariant
                    i <= tys.len(),
                    r@ == JsonShape::Array(r@->Array_0, r@->Array_1, crate::json_ld::opt_views(tys@)),
                    first_type(crate::json_ld::opt_views(tys@), 0) == first_type(
                        crate::json_ld::opt_views(tys@),
                        i as int,
                    ),
                decreases tys.len() - i,
            {
                if let Some(t) = &tys[i] {
                    return owned(t.as_str());
                }
                i += 1;
            }
            owned("(invalid JSON)")
        },
        _ => owned("(invalid JSON)"),
    }
}

fn json_ld_summary_exec(raw: &str) -> (r: String)
    ensures
        r@ == json_ld_summary(raw@),
{
    let t = trim_str(raw);
    if t.as_str().is_empty() {
        owned("(empty)")
    } else {
        let reading = read_json(t.as_str());
        summary_from_reading(&reading)
    }
}


// ---------------------------------------------------------------------------
// The selected row's fields
// ---------------------------------------------------------------------------

pub open spec fn font_entry(f: WebFont) -> Seq<char> {
    f.name@ + " ("@ + host_of(f.href@) + ")"@
}

pub open spec fn fonts_summary(fs: Seq<WebFont>) -> Seq<char> {
    if fs.len() == 0 {
        "(none)"@
    } else {
        join(fs.map_values(|f: WebFont| font_entry(f)), ", "@)
    }
}

pub open spec fn css_summary(css: Seq<char>) -> Seq<char> {
    if is_blank(css) {
        "(empty)"@
    } else {
        decimal(lines(css).len()) + " lines"@
    }
}

/// The head row's fields.
pub open spec fn head_lines(t: Template) -> Seq<Seq<char>> {
    seq![
        "subject:     "@ + dash(t.subject@),
        "preheader:   "@ + dash(t.preheader@),
        "lang:        "@ + dash(t.lang@),
        "dir:         "@ + dash(t.dir@),
        "title:       "@ + dash(t.head.title@),
        "breakpoint:  "@ + dash(t.head.breakpoint@),
        "base_url:    "@ + dash(t.base_url@),
        "fonts:       "@ + fonts_summary(t.head.fonts@),
        "json_ld:     "@ + json_ld_summary(t.head.json_ld@),
        "css:         "@ + css_summary(t.head.css@),
        "css_inline:  "@ + bool_text(t.head.css_inline),
    ]
}

fn fonts_summary_exec(fs: &Vec<WebFont>) -> (r: String)
    ensures
        r@ == fonts_summary(fs@),
{
    if fs.len() == 0 {
        return owned("(none)");
    }
    let mut parts: Vec<String> = Vec::new();
    let mut i: usize = 0;
    while i < fs.len()
        invariant
            i <= fs.len(),
            views(parts@) == fs@.take(i as int).map_values(|f: WebFont| font_entry(f)),
        decreases fs.len() - i,
    {
        let host = host_of_exec(fs[i].href.as_str());
        let mut e = cat3(fs[i].name.as_str(), " (", host.as_str());
        push_str(&mut e, ")");
        assert(e@ == font_entry(fs@[i as int]));
        let ghost before = parts@;
        parts.push(e);
        assert(views(parts@) =~= views(before).push(font_entry(fs@[i as int])));
        assert(fs@.take(i + 1).map_values(|f: WebFont| font_entry(f)) =~= fs@.take(
            i as int,
        ).map_values(|f: WebFont| font_entry(f)).push(font_entry(fs@[i as int])));
        i += 1;
    }
    assert(fs@.take(fs.len() as int) =~= fs@);
    join_exec(&parts, ", ")
}

fn css_summary_exec(css: &str) -> (r: String)
    ensures
        r@ == css_summary(css@),
{
    if blank(css) {
        owned("(empty)")
    } else {
        let ls = lines_exec(css);
        let n = decimal_usize(ls.len());
        cat(n.as_str(), " lines")
    }
}

fn labeled(label: &str, value: String) -> (r: String)
    ensures
        r@ == label@ + value@,
{
    cat(label, value.as_str())
}

fn head_lines_exec(t: &Template) -> (r: Vec<String>)
    ensures
        views(r@) == head_lines(*t),
{
    let mut r: Vec<String> = Vec::new();
    r.push(labeled("subject:     ", dash_exec(t.subject.as_str())));
    r.push(labeled("preheader:   ", dash_exec(t.preheader.as_str())));
    r.push(labeled("lang:        ", dash_exec(t.lang.as_str())));
    r.push(labeled("dir:         ", dash_exec(t.dir.as_str())));
    r.push(labeled("title:       ", dash_exec(t.head.title.as_str())));
    r.push(labeled("breakpoint:  ", dash_exec(t.head.breakpoint.as_str())));
    r.push(labeled("base_url:    ", dash_exec(t.base_url.as_str())));
    r.push(labeled("fonts:       ", fonts_summary_exec(&t.head.fonts)));
    r.push(labeled("json_ld:     ", json_ld_summary_exec(t.head.json_ld.as_str())));
    r.push(labeled("css:         ", css_summary_exec(t.head.css.as_str())));
    r.push(labeled("css_inline:  ", bool_text_exec(t.head.css_inline)));
    assert(views(r@) =~= head_lines(*t));
    r
}

/// The brand row's fields.
pub open spec fn brand_lines(t: Template) -> Seq<Seq<char>> {
    seq![
        "font_family:         "@ + t.brand.font_family@,
        "text_color:          "@ + t.brand.text_color@,
        "background_color:    "@ + t.brand.background_color@,
        "content_width:       "@ + decimal(t.brand.content_width as nat),
        "button_background:   "@ + t.brand.button_background@,
        "button_color:        "@ + t.brand.button_color@,
    ]
}

fn brand_lines_exec(t: &Template) -> (r: Vec<String>)
    ensures
        views(r@) == brand_lines(*t),
{
    let mut r: Vec<String> = Vec::new();
    r.push(cat("font_family:         ", t.brand.font_family.as_str()));
    r.push(cat("text_color:          ", t.brand.text_color.as_str()));
    r.push(cat("background_color:    ", t.brand.background_color.as_str()));
    r.push(labeled("content_width:       ", decimal_exec(t.brand.content_width as u64)));
    r.push(cat("button_background:   ", t.brand.button_background.as_str()));
    r.push(cat("button_color:        ", t.brand.button_color.as_str()));
    assert(views(r@) =~= brand_lines(*t));
    r
}

pub open spec fn header_lines(h: EmailHeader) -> Seq<Seq<char>> {
    seq![
        "logo_src: "@ + dash(h.logo_src@),
        "logo_alt: "@ + dash(h.logo_alt@),
        "logo_width: "@ + h.logo_width@,
    ]
}

pub open spec fn hero_lines(h: EmailHero) -> Seq<Seq<char>> {
    seq![
        "heading:    "@ + dash(h.heading@),
        "subheading: "@ + dash(h.subheading@),
        "image_src:  "@ + dash(h.image_src@),
    ]
}

/// How `email-article`'s image position is written (its `Debug` form).
pub open spec fn position_name(p: ImagePosition) -> Seq<char> {
    match p {
        ImagePosition::Top => "Top"@,
        ImagePosition::Left => "Left"@,
        ImagePosition::Right => "Right"@,
    }
}

pub open spec fn article_lines(a: EmailArticle) -> Seq<Seq<char>> {
    seq![
        "title:     "@ + dash(a.title@),
        "copy:      "@ + dash(a.copy@),
        "image:     "@ + dash(a.image_src@),
        "position:  "@ + position_name(a.image_position),
    ]
}

pub open spec fn footer_lines(f: EmailFooter) -> Seq<Seq<char>> {
    seq![
        "company: "@ + dash(f.company_name@),
        "address: "@ + join(views(f.address_lines@), " / "@),
        "unsub:   "@ + dash(f.unsubscribe_href@),
    ]
}

/// The fields of a body node.
pub open spec fn body_node_summary(n: BodyNode) -> Seq<Seq<char>> {
    match n {
        BodyNode::MjSection(s) => {
            let l = match given(s.label) {
                Some(x) => seq!["label: "@ + x],
                None => Seq::empty(),
            };
            let b = match s.background_color {
                Some(bg) => seq!["background: "@ + bg@],
                None => Seq::empty(),
            };
            l + seq!["children: "@ + decimal(s.children.len() as nat)] + b
        },
        BodyNode::MjWrapper(w) => {
            let l = match given(w.label) {
                Some(x) => seq!["label: "@ + x],
                None => Seq::empty(),
            };
            l + seq![
                "wrapper children: "@ + decimal(w.children.len() as nat),
                "full_width: "@ + bool_text(w.full_width),
            ]
        },
        BodyNode::MjHero(h) => seq!["hero children: "@ + decimal(h.children.len() as nat)] + match h.background_url {
            Some(u) => seq!["background_url: "@ + u@],
            None => Seq::empty(),
        },
        BodyNode::EmailHeader(h) => header_lines(h),
        BodyNode::EmailHero(h) => hero_lines(h),
        BodyNode::EmailCta(c) => seq![
            "heading: "@ + dash(c.heading@),
            "copy:    "@ + dash(c.copy@),
            "button:  "@ + dash(c.button_label@) + " → "@ + dash(c.button_href@),
        ],
        BodyNode::EmailArticle(a) => article_lines(a),
        BodyNode::EmailFooter(f) => footer_lines(f),
    }
}

fn given_label(v: &Option<String>) -> (r: Option<String>)
    ensures
        r is Some == given(*v) is Some,
        r matches Some(x) ==> given(*v) == Some(x@),
{
    match v {
        Some(s) => {
            let t = trim_str(s.as_str());
            if t.as_str().is_empty() {
                None
            } else {
                Some(t)
            }
        },
        None => None,
    }
}

fn body_node_summary_exec(n: &BodyNode) -> (r: Vec<String>)
    ensures
        views(r@) == body_node_summary(*n),
{
    let mut r: Vec<String> = Vec::new();
    match n {
        BodyNode::MjSection(s) => {
            if let Some(l) = given_label(&s.label) {
                r.push(cat("label: ", l.as_str()));
            }
            r.push(labeled("children: ", decimal_usize(s.children.len())));
            if let Some(bg) = &s.background_color {
                r.push(cat("background: ", bg.as_str()));
            }
        },
        BodyNode::MjWrapper(w) => {
            if let Some(l) = given_label(&w.label) {
                r.push(cat("label: ", l.as_str()));
            }
            r.push(labeled("wrapper children: ", decimal_usize(w.children.len())));
            r.push(labeled("full_width: ", bool_text_exec(w.full_width)));
        },
        BodyNode::MjHero(h) => {
            r.push(labeled("hero children: ", decimal_usize(h.children.len())));
            if let Some(u) = &h.background_url {
                r.push(cat("background_url: ", u.as_str()));
            }
        },
        BodyNode::EmailHeader(h) => {
            r.push(labeled("logo_src: ", dash_exec(h.logo_src.as_str())));
            r.push(labeled("logo_alt: ", dash_exec(h.logo_alt.as_str())));
            r.push(cat("logo_width: ", h.logo_width.as_str()));
        },
        BodyNode::EmailHero(h) => {
            r.push(labeled("heading:    ", dash_exec(h.heading.as_str())));
            r.push(labeled("subheading: ", dash_exec(h.subheading.as_str())));
            r.push(labeled("image_src:  ", dash_exec(h.image_src.as_str())));
        },
        BodyNode::EmailCta(c) => {
            r.push(labeled("heading: ", dash_exec(c.heading.as_str())));
            r.push(labeled("copy:    ", dash_exec(c.copy.as_str())));
            let label = dash_exec(c.button_label.as_str());
            let href = dash_exec(c.button_href.as_str());
            let mut b = cat3("button:  ", label.as_str(), " → ");
            push_str(&mut b, href.as_str());
            r.push(b);
        },
        BodyNode::EmailArticle(a) => {
            r.push(labeled("title:     ", dash_exec(a.title.as_str())));
            r.push(labeled("copy:      ", dash_exec(a.copy.as_str())));
            r.push(labeled("image:     ", dash_exec(a.image_src.as_str())));
            let pos = match a.image_position {
                ImagePosition::Top => "Top",
                ImagePosition::Left => "Left",
                ImagePosition::Right => "Right",
            };
            r.push(cat("position:  ", pos));
        },
        BodyNode::EmailFooter(f) => {
            r.push(labeled("company: ", dash_exec(f.company_name.as_str())));
            r.push(labeled("address: ", join_exec(&f.address_lines, " / ")));
            r.push(labeled("unsub:   ", dash_exec(f.unsubscribe_href.as_str())));
        },
    }
    assert(views(r@) =~= body_node_summary(*n));
    r
}

/// The one-line description of a content component.
pub open spec fn column_child_detail(c: ColumnChild) -> Seq<char> {
    match c {
        ColumnChild::MjText(t) => "mj-text  "@ + truncated(t.content@, 40),
        ColumnChild::MjButton(b) => "mj-button  "@ + b.content@ + " → "@ + b.href@,
        ColumnChild::MjImage(i) => "mj-image  "@ + i.src@,
        ColumnChild::MjDivider(_) => "mj-divider"@,
        ColumnChild::MjSpacer(s) => "mj-spacer  "@ + s.height@,
        ColumnChild::MjSocial(s) => "mj-social  "@ + decimal(s.elements.len() as nat) + " icons"@,
        ColumnChild::MjTable(_) => "mj-table"@,
        ColumnChild::MjNavbar(n) => "mj-navbar  "@ + decimal(n.links.len() as nat) + " links"@,
        ColumnChild::MjAccordion(a) => "mj-accordion  "@ + decimal(a.elements.len() as nat) + " items"@,
        ColumnChild::MjCarousel(c) => "mj-carousel  "@ + decimal(c.images.len() as nat) + " images"@,
    }
}

fn counted(head: &str, n: usize, tail: &str) -> (r: String)
    ensures
        r@ == head@ + decimal(n as nat) + tail@,
{
    let d = decimal_usize(n);
    cat3(head, d.as_str(), tail)
}

fn count_line(head: &str, n: usize) -> (r: String)
    ensures
        r@ == head@ + decimal(n as nat),
{
    let d = decimal_usize(n);
    cat(head, d.as_str())
}

fn column_child_detail_exec(c: &ColumnChild) -> (r: String)
    ensures
        r@ == column_child_detail(*c),
{
    match c {
        ColumnChild::MjText(t) => labeled("mj-text  ", truncate(t.content.as_str(), 40)),
        ColumnChild::MjButton(b) => {
            let mut r = cat3("mj-button  ", b.content.as_str(), " → ");
            push_str(&mut r, b.href.as_str());
            r
        },
        ColumnChild::MjImage(i) => cat("mj-image  ", i.src.as_str()),
        ColumnChild::MjDivider(_) => owned("mj-divider"),
        ColumnChild::MjSpacer(s) => cat("mj-spacer  ", s.height.as_str()),
        ColumnChild::MjSocial(s) => counted("mj-social  ", s.elements.len(), " icons"),
        ColumnChild::MjTable(_) => owned("mj-table"),
        ColumnChild::MjNavbar(n) => counted("mj-navbar  ", n.links.len(), " links"),
        ColumnChild::MjAccordion(a) => counted("mj-accordion  ", a.elements.len(), " items"),
        ColumnChild::MjCarousel(k) => counted("mj-carousel  ", k.images.len(), " images"),
    }
}

// ---------------------------------------------------------------------------
// Finding the selected node
// ---------------------------------------------------------------------------

/// What a path leads to in a template.
pub enum Located {
    Node(BodyNode),
    Column(MjColumn),
    Leaf(Seq<char>, Seq<Seq<char>>),
    Missing,
}

/// The extra lines of a component with items.
pub open spec fn child_extra(c: ColumnChild) -> Seq<Seq<char>> {
    match c {
        ColumnChild::MjNavbar(n) => seq!["links: "@ + decimal(n.links.len() as nat)],
        ColumnChild::MjAccordion(a) => seq!["elements: "@ + decimal(a.elements.len() as nat)],
        ColumnChild::MjCarousel(k) => seq!["images: "@ + decimal(k.images.len() as nat)],
        _ => Seq::empty(),
    }
}

/// Where steps `k..` of `p` lead from a component; steps after an item's
/// step are not looked at.
pub open spec fn locate_child(c: ColumnChild, p: Seq<Step>, k: int) -> Located {
    if k >= p.len() {
        Located::Leaf(column_child_detail(c), child_extra(c))
    } else {
        match (p[k], c) {
            (Step::NavbarLink(i), ColumnChild::MjNavbar(n)) => if i < n.links.len() {
                let l = n.links@[i as int];
                Located::Leaf("mj-navbar-link  "@ + l.content@ + " → "@ + l.href@, Seq::empty())
            } else {
                Located::Missing
            },
            (Step::AccordionEl(i), ColumnChild::MjAccordion(a)) => if i < a.elements.len() {
                Located::Leaf(
                    "mj-accordion-element  "@ + truncated(a.elements@[i as int].title@, 40),
                    Seq::empty(),
                )
            } else {
                Located::Missing
            },
            (Step::CarouselImg(i), ColumnChild::MjCarousel(m)) => if i < m.images.len() {
                Located::Leaf("mj-carousel-image  "@ + m.images@[i as int].src@, Seq::empty())
            } else {
                Located::Missing
            },
            _ => Located::Missing,
        }
    }
}

pub open spec fn locate_column(c: MjColumn, p: Seq<Step>, k: int) -> Located {
    if k >= p.len() {
        Located::Column(c)
    } else {
        match p[k] {
            Step::ColComp(i) => if i < c.components.len() {
                locate_child(c.components@[i as int], p, k + 1)
            } else {
                Located::Missing
            },
            _ => Located::Missing,
        }
    }
}

pub open spec fn locate_group(g: MjGroup, p: Seq<Step>, k: int) -> Located {
    if k >= p.len() {
        Located::Leaf("mj-group"@, seq!["columns: "@ + decimal(g.children.len() as nat)])
    } else {
        match p[k] {
            Step::GroupCol(i) => if i < g.children.len() {
                locate_column(g.children@[i as int], p, k + 1)
            } else {
                Located::Missing
            },
            _ => Located::Missing,
        }
    }
}

/// Where steps `k..` of `p` lead from a body node.
pub open spec fn locate_node(n: BodyNode, p: Seq<Step>, k: int) -> Located
    decreases p.len() - k,
{
    if k >= p.len() {
        Located::Node(n)
    } else {
        match (p[k], n) {
            (Step::WrapperChild(j), BodyNode::MjWrapper(w)) => if j < w.children.len() {
                locate_node(w.children@[j as int], p, k + 1)
            } else {
                Located::Missing
            },
            (Step::SectionChild(j), BodyNode::MjSection(s)) => if j < s.children.len() {
                match s.children@[j as int] {
                    SectionChild::MjColumn(c) => locate_column(c, p, k + 1),
                    SectionChild::MjGroup(g) => locate_group(g, p, k + 1),
                }
            } else {
                Located::Missing
            },
            (Step::HeroChild(j), BodyNode::MjHero(h)) => if j < h.children.len() {
                locate_child(h.children@[j as int], p, k + 1)
            } else {
                Located::Missing
            },
            _ => Located::Missing,
        }
    }
}

/// Where a path leads in a template: it starts at a top-level body node.
pub open spec fn locate(t: Template, p: Seq<Step>) -> Located {
    if p.len() > 0 && p[0] is BodyNode && p[0]->BodyNode_0 < t.body.nodes.len() {
        locate_node(t.body.nodes@[p[0]->BodyNode_0 as int], p, 1)
    } else {
        Located::Missing
    }
}

/// The lines shown for what a path leads to.
pub open spec fn located_lines(l: Located) -> Seq<Seq<char>> {
    match l {
        Located::Node(n) => body_node_summary(n),
        Located::Column(c) => seq![
            "width: "@ + match c.width {
                Some(w) => w@,
                None => "(equal split)"@,
            },
            "components: "@ + decimal(c.components.len() as nat),
        ],
        Located::Leaf(label, extra) => seq![label] + extra,
        Located::Missing => seq!["(missing node)"@],
    }
}

fn one_line(s: String) -> (r: Vec<String>)
    ensures
        views(r@) == seq![s@],
{
    let mut r: Vec<String> = Vec::new();
    r.push(s);
    assert(views(r@) =~= seq![s@]);
    r
}

fn missing_lines() -> (r: Vec<String>)
    ensures
        views(r@) == located_lines(Located::Missing),
{
    one_line(owned("(missing node)"))
}

fn child_lines(c: &ColumnChild, p: &Vec<Step>, k: usize) -> (r: Vec<String>)
    ensures
        views(r@) == located_lines(locate_child(*c, p@, k as int)),
{
    if k >= p.len() {
        let mut r = one_line(column_child_detail_exec(c));
        match c {
            ColumnChild::MjNavbar(n) => r.push(count_line("links: ", n.links.len())),
            ColumnChild::MjAccordion(a) => r.push(count_line("elements: ", a.elements.len())),
            ColumnChild::MjCarousel(m) => r.push(count_line("images: ", m.images.len())),
            _ => {},
        }
        assert(views(r@) =~= located_lines(locate_child(*c, p@, k as int)));
        return r;
    }
    match (p[k], c) {
        (Step::NavbarLink(i), ColumnChild::MjNavbar(n)) => if i < n.links.len() {
            let l = &n.links[i];
            let mut s = cat3("mj-navbar-link  ", l.content.as_str(), " → ");
            push_str(&mut s, l.href.as_str());
            one_line(s)
        } else {
            missing_lines()
        },
        (Step::AccordionEl(i), ColumnChild::MjAccordion(a)) => if i < a.elements.len() {
            one_line(labeled("mj-accordion-element  ", truncate(a.elements[i].title.as_str(), 40)))
        } else {
            missing_lines()
        },
        (Step::CarouselImg(i), ColumnChild::MjCarousel(m)) => if i < m.images.len() {
            one_line(cat("mj-carousel-image  ", m.images[i].src.as_str()))
        } else {
            missing_lines()
        },
        _ => missing_lines(),
    }
}

fn column_lines(c: &MjColumn, p: &Vec<Step>, k: usize) -> (r: Vec<String>)
    ensures
        views(r@) == located_lines(locate_column(*c, p@, k as int)),
{
    if k >= p.len() {
        let w = match &c.width {
            Some(w) => owned(w.as_str()),
            None => owned("(equal split)"),
        };
        let first = labeled("width: ", w);
        let second = count_line("components: ", c.components.len());
        let mut r = one_line(first);
        let ghost before = r@;
        r.push(second);
        assert(views(r@) =~= views(before).push(second@));
        assert(views(r@) =~= located_lines(locate_column(*c, p@, k as int)));
        return r;
    }
    match p[k] {
        Step::ColComp(i) => if i < c.components.len() {
            child_lines(&c.components[i], p, k + 1)
        } else {
            missing_lines()
        },
        _ => missing_lines(),
    }
}

fn group_lines(g: &MjGroup, p: &Vec<Step>, k: usize) -> (r: Vec<String>)
    ensures
        views(r@) == located_lines(locate_group(*g, p@, k as int)),
{
    if k >= p.len() {
        let mut r = one_line(owned("mj-group"));
        r.push(count_line("columns: ", g.children.len()));
        assert(views(r@) =~= located_lines(locate_group(*g, p@, k as int)));
        return r;
    }
    match p[k] {
        Step::GroupCol(i) => if i < g.children.len() {
            column_lines(&g.children[i], p, k + 1)
        } else {
            missing_lines()
        },
        _ => missing_lines(),
    }
}

fn node_lines(n: &BodyNode, p: &Vec<Step>, k: usize) -> (r: Vec<String>)
    ensures
        views(r@) == located_lines(locate_node(*n, p@, k as int)),
    decreases p.len() - k,
{
    if k >= p.len() {
        return body_node_summary_exec(n);
    }
    match (p[k], n) {
        (Step::WrapperChild(j), BodyNode::MjWrapper(w)) => if j < w.children.len() {
            node_lines(&w.children[j], p, k + 1)
        } else {
            missing_lines()
        },
        (Step::SectionChild(j), BodyNode::MjSection(s)) => if j < s.children.len() {
            match &s.children[j] {
                SectionChild::MjColumn(c) => column_lines(c, p, k + 1),
                SectionChild::MjGroup(g) => group_lines(g, p, k + 1),
            }
        } else {
            missing_lines()
        },
        (Step::HeroChild(j), BodyNode::MjHero(h)) => if j < h.children.len() {
            child_lines(&h.children[j], p, k + 1)
        } else {
            missing_lines()
        },
        _ => missing_lines(),
    }
}

fn selection_summary(t: &Template, p: &Vec<Step>) -> (r: Vec<String>)
    ensures
        views(r@) == located_lines(locate(*t, p@)),
{
    if p.len() > 0 {
        if let Step::BodyNode(i) = p[0] {
            if i < t.body.nodes.len() {
                return node_lines(&t.body.nodes[i], p, 1);
            }
        }
    }
    missing_lines()
}

/// The fields shown above the blueprint for the selected row.
pub open spec fn selection_lines(t: Template, id: IdView) -> Seq<Seq<char>> {
    match id {
        IdView::Head => head_lines(t),
        IdView::Brand => brand_lines(t),
        IdView::Body => seq!["nodes: "@ + decimal(t.body.nodes.len() as nat)],
        IdView::Path(p) => located_lines(locate(t, p)),
    }
}

fn selection_lines_exec(t: &Template, id: &TreeId) -> (r: Vec<String>)
    ensures
        views(r@) == selection_lines(*t, id@),
{
    match id {
        TreeId::Head => head_lines_exec(t),
        TreeId::Brand => brand_lines_exec(t),
        TreeId::Body => one_line(count_line("nodes: ", t.body.nodes.len())),
        TreeId::Path(p) => selection_summary(t, p),
    }
}

// ---------------------------------------------------------------------------
// Column widths
// ---------------------------------------------------------------------------

/// `u32::from_str`: an optional `+`, then at least one digit, at most
/// `u32::MAX`.
pub open spec fn parse_u32(d: Seq<char>) -> Option<u32> {
    let b = if d.len() > 0 && d[0] == '+' {
        d.drop_first()
    } else {
        d
    };
    if b.len() > 0 && all_digits(b) && digits_value(b) <= u32::MAX {
        Some(digits_value(b) as u32)
    } else {
        None
    }
}

/// A width written as a whole percentage, such as ` 50% `.
pub open spec fn parse_pct(s: Option<String>) -> Option<u32> {
    match s {
        Some(x) => {
            let t = trim(x@);
            if t.len() > 0 && t.last() == '%' {
                parse_u32(t.drop_last())
            } else {
                None
            }
        },
        None => None,
    }
}

proof fn lemma_digits_grow(b: Seq<char>, i: int, j: int)
    requires
        0 <= i <= j <= b.len(),
        all_digits(b.take(j)),
    ensures
        digits_value(b.take(i)) <= digits_value(b.take(j)),
    decreases j - i,
{
    if i < j {
        let t = b.take(j);
        assert(t.drop_last() =~= b.take(j - 1));
        assert(is_digit(t[j - 1]));
        assert(all_digits(b.take(j - 1))) by {
            assert forall|k: int| 0 <= k < j - 1 implies is_digit(#[trigger] b.take(j - 1)[k]) by {
                assert(b.take(j - 1)[k] == t[k]);
            }
        }
        lemma_digits_grow(b, i, j - 1);
        crate::padding::lemma_digits_bound(b.take(j - 1));
    }
}

fn parse_u32_exec(v: &Vec<char>, start: usize) -> (r: Option<u32>)
    requires
        start <= v@.len(),
    ensures
        r == parse_u32(v@.skip(start as int)),
{
    let ghost d = v@.skip(start as int);
    let mut i = start;
    if i < v.len() && v[i] == '+' {
        i += 1;
    }
    let ghost b = v@.skip(i as int);
    assert(b == if d.len() > 0 && d[0] == '+' { d.drop_first() } else { d });
    if i >= v.len() {
        return None;
    }
    let first = i;
    let mut acc: u64 = 0;
    while i < v.len()
        invariant
            first <= i <= v@.len(),
            first < v@.len(),
            d == v@.skip(start as int),
            b == (if d.len() > 0 && d[0] == '+' { d.drop_first() } else { d }),
            b == v@.skip(first as int),
            all_digits(b.take(i - first)),
            acc as int == digits_value(b.take(i - first)),
            acc <= u32::MAX,
        decreases v@.len() - i,
    {
        let c = v[i];
        if !('0' <= c && c <= '9') {
            assert(!all_digits(b)) by {
                assert(b[i - first] == c);
            }
            return None;
        }
        let ghost p = b.take(i - first);
        assert(b.take(i - first + 1) =~= p.push(c));
        assert(b.take(i - first + 1).drop_last() =~= p);
        acc = acc * 10 + (c as u64 - 48);
        assert(all_digits(b.take(i - first + 1))) by {
            assert forall|k: int| 0 <= k < i - first + 1 implies is_digit(#[trigger] b.take(i - first + 1)[k]) by {
                if k < i - first {
                    assert(b.take(i - first + 1)[k] == p[k]);
                }
            }
        }
        if acc > 0xffff_ffff {
            proof {
                if all_digits(b) {
                    assert(b.take(b.len() as int) =~= b);
                    lemma_digits_grow(b, i - first + 1, b.len() as int);
                }
            }
            return None;
        }
        i += 1;
    }
    assert(b.take(i - first) =~= b);
    Some(acc as u32)
}

fn parse_pct_exec(s: &Option<String>) -> (r: Option<u32>)
    ensures
        r == parse_pct(*s),
{
    match s {
        Some(x) => {
            let t = trim_str(x.as_str());
            let v = chars_of(t.as_str());
            if v.len() > 0 && v[v.len() - 1] == '%' {
                let mut body = v;
                body.pop();
                assert(body@.skip(0) =~= body@);
                parse_u32_exec(&body, 0)
            } else {
                None
            }
        },
        None => None,
    }
}

/// Whether the first `k` widths are all given.
pub open spec fn all_given(ps: Seq<Option<u32>>) -> bool {
    forall|i: int| 0 <= i < ps.len() ==> (#[trigger] ps[i]) is Some
}

pub open spec fn pct_sum(ps: Seq<Option<u32>>, k: int) -> int
    decreases k,
{
    if k <= 0 {
        0
    } else {
        pct_sum(ps, k - 1) + match ps[k - 1] {
            Some(p) => p as int,
            None => 0,
        }
    }
}

pub open spec fn width_sum(ws: Seq<int>, k: int) -> int
    decreases k,
{
    if k <= 0 {
        0
    } else {
        width_sum(ws, k - 1) + ws[k - 1]
    }
}

/// The room for `n` slots in `total` cells, after one gutter between each
/// two: at least one cell each.
pub open spec fn slot_room(total: usize, n: usize) -> int {
    let inner = total - (n - 1);
    if inner < n {
        n as int
    } else {
        inner
    }
}

/// The widths of `n` slots sharing `total` cells: by their percentages when
/// all are given and they add up to more than zero (the rounding left over
/// going to the last), else evenly (the remainder going to the last); each
/// at least one.
pub open spec fn distributed(total: usize, n: usize, ps: Seq<Option<u32>>) -> Seq<int> {
    if n == 0 {
        Seq::empty()
    } else {
        let inner = slot_room(total, n);
        let sum = pct_sum(ps, n as int);
        if ps.len() == n && all_given(ps) && sum > 0 {
            let base = Seq::new(
                n as nat,
                |i: int| {
                    let q = ((inner as u32) as int) * (ps[i]->0 as int) / sum;
                    if q == 0 {
                        1
                    } else {
                        q
                    }
                },
            );
            let used = width_sum(base, n as int);
            if inner >= used {
                base.update(n - 1, base[n - 1] + (inner - used))
            } else {
                base
            }
        } else {
            Seq::new(n as nat, |i: int| {
                let e = inner / (n as int) + if i == n - 1 { inner % (n as int) } else { 0 };
                if e == 0 {
                    1
                } else {
                    e
                }
            })
        }
    }
}

pub open spec fn as_ints(v: Seq<usize>) -> Seq<int> {
    v.map_values(|x: usize| x as int)
}

proof fn lemma_pct_sum_bounds(ps: Seq<Option<u32>>, k: int)
    requires
        0 <= k <= ps.len(),
    ensures
        0 <= pct_sum(ps, k) <= k * 0xffff_ffff,
        forall|i: int| 0 <= i < k && (#[trigger] ps[i]) is Some ==> ps[i]->0 <= pct_sum(ps, k),
    decreases k,
{
    if k > 0 {
        lemma_pct_sum_bounds(ps, k - 1);
    }
}

proof fn lemma_width_sum_bounds(ws: Seq<int>, k: int)
    requires
        0 <= k <= ws.len(),
        forall|i: int| 0 <= i < k ==> 1 <= #[trigger] ws[i] <= 0xffff_ffff,
    ensures
        k <= width_sum(ws, k) <= k * 0xffff_ffff,
        k > 0 ==> ws[k - 1] <= width_sum(ws, k),
    decreases k,
{
    if k > 0 {
        lemma_width_sum_bounds(ws, k - 1);
    }
}

/// `distribute_widths`: the widths of the slots whose percentages are `pcts`.
fn distribute_widths(total: usize, pcts: &Vec<Option<u32>>) -> (r: Vec<usize>)
    ensures
        as_ints(r@) == distributed(total, pcts@.len() as usize, pcts@),
        r@.len() == pcts@.len(),
{
    let n = pcts.len();
    let ghost goal = distributed(total, n, pcts@);
    if n == 0 {
        let r: Vec<usize> = Vec::new();
        assert(as_ints(r@) =~= goal);
        return r;
    }
    let gutters = n - 1;
    let inner: usize = if total >= gutters && total - gutters >= n {
        total - gutters
    } else {
        n
    };
    assert(inner as int == slot_room(total, n));
    let mut all = true;
    let mut sum: u128 = 0;
    let mut i: usize = 0;
    while i < n
        invariant
            n == pcts@.len(),
            i <= n,
            sum as int == pct_sum(pcts@, i as int),
            all == (forall|j: int| 0 <= j < i ==> (#[trigger] pcts@[j]) is Some),
        decreases n - i,
    {
        proof {
            lemma_pct_sum_bounds(pcts@, i as int);
            assert(i * 0xffff_ffff <= 0xffff_ffff_ffff_ffff * 0xffff_ffff) by (nonlinear_arith)
                requires
                    i <= 0xffff_ffff_ffff_ffff,
            ;
        }
        match pcts[i] {
            Some(p) => {
                sum = sum + p as u128;
            },
            None => {
                all = false;
            },
        }
        i += 1;
    }
    if all && sum > 0 {
        let iu: u128 = (inner as u32) as u128;
        let ghost base = Seq::new(
            n as nat,
            |j: int| {
                let q = ((inner as u32) as int) * (pcts@[j]->0 as int) / (sum as int);
                if q == 0 {
                    1
                } else {
                    q
                }
            },
        );
        proof {
            lemma_pct_sum_bounds(pcts@, n as int);
            assert forall|j: int| 0 <= j < n implies 1 <= #[trigger] base[j] <= 0xffff_ffff by {
                assert(pcts@[j] is Some);
                let pj = pcts@[j]->0 as int;
                let s = sum as int;
                let a = (inner as u32) as int;
                assert(pj <= s);
                assert(0 <= a * pj / s <= a) by (nonlinear_arith)
                    requires
                        0 <= pj <= s,
                        s > 0,
                        0 <= a,
                ;
            }
        }
        let mut ws: Vec<usize> = Vec::new();
        let mut used: u128 = 0;
        let mut k: usize = 0;
        while k < n
            invariant
                n == pcts@.len(),
                k <= n,
                all_given(pcts@),
                sum > 0,
                sum as int == pct_sum(pcts@, n as int),
                forall|j: int| 0 <= j < n ==> pcts@[j]->0 <= pct_sum(pcts@, n as int),
                iu as int == (inner as u32) as int,
                base == Seq::new(
                    n as nat,
                    |j: int| {
                        let q = ((inner as u32) as int) * (pcts@[j]->0 as int) / (sum as int);
                        if q == 0 {
                            1
                        } else {
                            q
                        }
                    },
                ),
                forall|j: int| 0 <= j < n ==> 1 <= #[trigger] base[j] <= 0xffff_ffff,
                as_ints(ws@) == base.take(k as int),
                used as int == width_sum(base, k as int),
            decreases n - k,
        {
            let p: u128 = match pcts[k] {
                Some(p) => p as u128,
                None => 0,
            };
            assert(pcts@[k as int] is Some);
            proof {
                assert(iu * p <= 0xffff_ffff * 0xffff_ffff) by (nonlinear_arith)
                    requires
                        iu <= 0xffff_ffff,
                        p <= 0xffff_ffff,
                ;
                lemma_width_sum_bounds(base, k as int);
                assert(k * 0xffff_ffff <= 0xffff_ffff_ffff_ffff * 0xffff_ffff) by (nonlinear_arith)
                    requires
                        k <= 0xffff_ffff_ffff_ffff,
                ;
            }
            let q: u128 = iu * p / sum;
            let w: usize = if q == 0 {
                1
            } else {
                q as usize
            };
            assert(w as int == base[k as int]);
            let ghost before = ws@;
            ws.push(w);
            assert(as_ints(ws@) =~= as_ints(before).push(base[k as int]));
            assert(base.take(k + 1) =~= base.take(k as int).push(base[k as int]));
            used = used + w as u128;
            k += 1;
        }
        assert(base.take(n as int) =~= base);
        proof {
            lemma_width_sum_bounds(base, n as int);
        }
        if inner as u128 >= used {
            let last = ws[n - 1];
            let extra = (inner as u128 - used) as usize;
            ws.set(n - 1, last + extra);
        }
        assert(forall|j: int| 0 <= j < n ==> #[trigger] base[j] == {
            let q = ((inner as u32) as int) * (pcts@[j]->0 as int) / pct_sum(pcts@, n as int);
            if q == 0 {
                1
            } else {
                q
            }
        });
        assert(as_ints(ws@) =~= goal);
        ws
    } else {
        let each = inner / n;
        let rem = inner % n;
        let mut ws: Vec<usize> = Vec::new();
        let mut k: usize = 0;
        let ghost even = Seq::new(n as nat, |j: int| {
            let e = (inner as int) / (n as int) + if j == n - 1 { (inner as int) % (n as int) } else { 0 };
            if e == 0 {
                1
            } else {
                e
            }
        });
        while k < n
            invariant
                k <= n,
                n >= 1,
                each == inner / n,
                rem == inner % n,
                even == Seq::new(n as nat, |j: int| {
                    let e = (inner as int) / (n as int) + if j == n - 1 { (inner as int) % (n as int) } else { 0 };
                    if e == 0 {
                        1
                    } else {
                        e
                    }
                }),
                as_ints(ws@) == even.take(k as int),
            decreases n - k,
        {
            assert(each + rem <= inner) by (nonlinear_arith)
                requires
                    each == inner / n,
                    rem == inner % n,
                    n >= 1,
            ;
            let e: usize = each + if k + 1 == n {
                rem
            } else {
                0
            };
            let w: usize = if e == 0 {
                1
            } else {
                e
            };
            let ghost before = ws@;
            ws.push(w);
            assert(as_ints(ws@) =~= as_ints(before).push(even[k as int]));
            assert(even.take(k + 1) =~= even.take(k as int).push(even[k as int]));
            k += 1;
        }
        assert(even.take(n as int) =~= even);
        assert(as_ints(ws@) =~= goal);
        ws
    }
}

// ---------------------------------------------------------------------------
// The character canvas
// ---------------------------------------------------------------------------

/// One character cell of the blueprint and the tree row it leads to.
pub type CellV = (char, Option<IdView>);

/// The model of a canvas: its width and its rows of cells.
pub struct CanvasV {
    pub width: nat,
    pub rows: Seq<Seq<CellV>>,
}

pub open spec fn opt_id(o: Option<TreeId>) -> Option<IdView> {
    match o {
        Some(i) => Some(i@),
        None => None,
    }
}

/// A canvas whose rows all have its width, which is at least one.
pub open spec fn well_formed(c: CanvasV) -> bool {
    &&& c.width >= 1
    &&& forall|r: int| 0 <= r < c.rows.len() ==> (#[trigger] c.rows[r]).len() == c.width
}

pub open spec fn empty_cell() -> CellV {
    (' ', None)
}

pub open spec fn blank_row(w: nat) -> Seq<CellV> {
    Seq::new(w, |i: int| empty_cell())
}

/// A new canvas `w` cells wide (at least one), with no rows.
pub open spec fn new_canvas(w: nat) -> CanvasV {
    CanvasV { width: if w == 0 { 1 } else { w }, rows: Seq::empty() }
}

/// `c` with blank rows added so that row `y` exists.
pub open spec fn grown(c: CanvasV, y: int) -> CanvasV {
    if y < c.rows.len() {
        c
    } else {
        CanvasV {
            width: c.width,
            rows: c.rows + Seq::new((y + 1 - c.rows.len()) as nat, |i: int| blank_row(c.width)),
        }
    }
}

/// `c` with `|` in column `x` of rows `y..y + h`; a column right of the
/// canvas is dropped.
pub open spec fn guttered(c: CanvasV, x: int, y: int, h: int) -> CanvasV {
    if x >= c.width {
        c
    } else {
        let g = grown(c, y + h - 1);
        CanvasV {
            width: g.width,
            rows: Seq::new(g.rows.len(), |r: int| if y <= r < y + h { g.rows[r].update(x, ('|', None)) } else { g.rows[r] }),
        }
    }
}

/// `text` after one space, cut or padded with spaces to `max` characters.
pub open spec fn padded(text: Seq<char>, max: nat) -> Seq<char> {
    let t = text.take(if text.len() < max - 1 { text.len() as int } else { max - 1 });
    seq![' '] + t + Seq::new((max - 1 - t.len()) as nat, |i: int| ' ')
}

/// How many cells a line of width `w` from column `x` covers.
pub open spec fn span(c: CanvasV, x: int, w: nat) -> nat {
    if x >= c.width {
        0
    } else if w < c.width - x {
        w
    } else {
        (c.width - x) as nat
    }
}

/// `c` with a line of `w` cells from `(x, y)` showing `text`.
pub open spec fn filled(c: CanvasV, x: int, y: int, w: nat, text: Seq<char>, id: Option<IdView>) -> CanvasV {
    let max = span(c, x, w);
    if max == 0 {
        c
    } else {
        let g = grown(c, y);
        let line = padded(text, max);
        CanvasV {
            width: g.width,
            rows: g.rows.update(
                y,
                Seq::new(g.width, |i: int| if x <= i < x + max { (line[i - x], id) } else { g.rows[y][i] }),
            ),
        }
    }
}

/// `c` with a frame of the full width from row `top` to row `bottom`.
pub open spec fn framed(c: CanvasV, top: int, bottom: int, id: Option<IdView>) -> CanvasV {
    let w = c.width;
    if w < 2 {
        c
    } else {
        let g = grown(c, bottom);
        CanvasV {
            width: w,
            rows: Seq::new(
                g.rows.len(),
                |r: int|
                    if r == top || r == bottom {
                        Seq::new(w, |i: int| if i == 0 || i == w - 1 { ('+', id) } else { ('-', id) })
                    } else if top < r < bottom {
                        g.rows[r].update(0, ('|', id)).update(w - 1, ('|', id))
                    } else {
                        g.rows[r]
                    },
            ),
        }
    }
}

/// A cell that a blit copies: anything but an unlinked space.
pub open spec fn shows(cell: CellV) -> bool {
    !(cell.0 == ' ' && cell.1 is None)
}

/// Whether a row copied from column `x` puts a cell inside width `w`.
pub open spec fn reaches(row: Seq<CellV>, x: int, w: nat) -> bool {
    exists|sx: int| 0 <= sx < row.len() && x + sx < w && shows(#[trigger] row[sx])
}

/// The last of the first `n` rows that puts a cell inside width `w`, or -1.
pub open spec fn last_reaching(src: Seq<Seq<CellV>>, x: int, w: nat, n: int) -> int
    decreases n,
{
    if n <= 0 {
        -1
    } else if reaches(src[n - 1], x, w) {
        n - 1
    } else {
        last_reaching(src, x, w, n - 1)
    }
}

/// `row` with the shown cells of `src` laid over it from column `x`.
pub open spec fn overlay(row: Seq<CellV>, src: Seq<CellV>, x: int) -> Seq<CellV> {
    Seq::new(row.len(), |i: int| if x <= i < x + src.len() && shows(src[i - x]) { src[i - x] } else { row[i] })
}

/// `c` with the shown cells of `src` copied with their top left at `(x, y)`;
/// rows are added down to the last one that receives a cell.
pub open spec fn blitted(c: CanvasV, src: CanvasV, x: int, y: int) -> CanvasV {
    let last = last_reaching(src.rows, x, c.width, src.rows.len() as int);
    let g = if last >= 0 {
        grown(c, y + last)
    } else {
        c
    };
    CanvasV {
        width: g.width,
        rows: Seq::new(
            g.rows.len(),
            |r: int| if y <= r < y + src.rows.len() { overlay(g.rows[r], src.rows[r - y], x) } else { g.rows[r] },
        ),
    }
}

/// `c` with every cell that leads nowhere leading to `id`.
pub open spec fn marked(c: CanvasV, id: IdView) -> CanvasV {
    CanvasV {
        width: c.width,
        rows: c.rows.map_values(
            |row: Seq<CellV>| row.map_values(|cell: CellV| if cell.1 is None { (cell.0, Some(id)) } else { cell }),
        ),
    }
}

/// The characters of a canvas, row by row.
pub open spec fn canvas_lines(c: CanvasV) -> Seq<Seq<char>> {
    c.rows.map_values(|row: Seq<CellV>| row.map_values(|cell: CellV| cell.0))
}

/// A clickable region of the details text: columns `x0..x1` of a line.
pub struct HitV {
    pub line: nat,
    pub x0: nat,
    pub x1: nat,
    pub id: IdView,
}

/// The regions of one row from column `x` on; `open` is the region in
/// progress, with its first column and its row.
pub open spec fn row_hits(row: Seq<CellV>, line: nat, x: int, open: Option<(nat, IdView)>) -> Seq<HitV>
    decreases row.len() - x,
{
    if x >= row.len() || x < 0 {
        match open {
            Some((x0, id)) => seq![HitV { line, x0, x1: row.len(), id }],
            None => Seq::empty(),
        }
    } else {
        match open {
            Some((x0, id)) => if row[x].1 == Some(id) {
                row_hits(row, line, x + 1, open)
            } else {
                seq![HitV { line, x0, x1: x as nat, id }] + match row[x].1 {
                    Some(next) => row_hits(row, line, x + 1, Some((x as nat, next))),
                    None => row_hits(row, line, x + 1, None),
                }
            },
            None => match row[x].1 {
                Some(next) => row_hits(row, line, x + 1, Some((x as nat, next))),
                None => row_hits(row, line, x + 1, None),
            },
        }
    }
}

/// The regions of the first `n` rows: each maximal run of cells leading to
/// the same row of the tree.
pub open spec fn canvas_hits(rows: Seq<Seq<CellV>>, n: int) -> Seq<HitV>
    decreases n,
{
    if n <= 0 {
        Seq::empty()
    } else {
        canvas_hits(rows, n - 1) + row_hits(rows[n - 1], (n - 1) as nat, 0, None)
    }
}

// ---------------------------------------------------------------------------
// The blueprint
// ---------------------------------------------------------------------------

/// The width inside a box `w` cells wide: two less, at least one.
pub open spec fn inner_width(w: nat) -> nat {
    if w > 2 {
        (w - 2) as nat
    } else {
        1
    }
}

/// A box around `inner`, from row `y` across the whole canvas; the cells of
/// `inner` that lead nowhere lead to `id`. Also the row after the box.
pub open spec fn boxed(c: CanvasV, y: usize, id: IdView, inner: CanvasV) -> (CanvasV, usize) {
    let m = marked(inner, id);
    let ih: usize = if m.rows.len() == 0 {
        1
    } else {
        m.rows.len() as usize
    };
    let h = ih.saturating_add(2);
    let framed_c = framed(c, y as int, y + h - 1, Some(id));
    (blitted(framed_c, m, 1, y.saturating_add(1) as int), y.saturating_add(h))
}

/// The extra lines of a labeled box, from the first `k`: blank ones and
/// `—` are left out, the others go on rows `1..`.
pub open spec fn extra_lines(c: CanvasV, extra: Seq<Seq<char>>, w: nat, id: IdView, k: int) -> CanvasV
    decreases k,
{
    if k <= 0 {
        c
    } else {
        let prev = extra_lines(c, extra, w, id, k - 1);
        let l = extra[k - 1];
        if is_blank(l) || trim(l) == "—"@ {
            prev
        } else {
            filled(prev, 0, k, w, l, Some(id))
        }
    }
}

/// A box with a title and extra lines.
pub open spec fn labeled_box(c: CanvasV, y: usize, id: IdView, title: Seq<char>, extra: Seq<Seq<char>>) -> (CanvasV, usize) {
    let iw = inner_width(c.width);
    let inner = extra_lines(filled(new_canvas(iw), 0, 0, iw, title, Some(id)), extra, iw, id, extra.len() as int);
    boxed(c, y, id, inner)
}

/// The three kinds of items under a component.
pub enum ItemKind {
    Link,
    Element,
    Image,
}

pub open spec fn item_step(kind: ItemKind, i: usize) -> Step {
    match kind {
        ItemKind::Link => Step::NavbarLink(i),
        ItemKind::Element => Step::AccordionEl(i),
        ItemKind::Image => Step::CarouselImg(i),
    }
}

/// The room for an item's label in a line `w` cells wide.
pub open spec fn item_room(w: nat) -> nat {
    if w > 3 {
        (w - 3) as nat
    } else {
        0
    }
}

/// The labels of a component's items, as the blueprint shows them.
pub open spec fn item_labels(c: ColumnChild, w: nat) -> Seq<Seq<char>> {
    match c {
        ColumnChild::MjNavbar(n) => n.links@.map_values(|l: crate::model::MjNavbarLink| truncated(l.content@, item_room(w))),
        ColumnChild::MjAccordion(a) => a.elements@.map_values(
            |e: crate::model::MjAccordionElement| truncated(e.title@, item_room(w)),
        ),
        ColumnChild::MjCarousel(k) => k.images@.map_values(
            |i: crate::model::MjCarouselImage|
                if is_blank(i.alt@) {
                    truncated(i.src@, item_room(w))
                } else {
                    truncated(i.alt@, item_room(w))
                },
        ),
        _ => Seq::empty(),
    }
}

pub open spec fn item_kind(c: ColumnChild) -> ItemKind {
    match c {
        ColumnChild::MjAccordion(_) => ItemKind::Element,
        ColumnChild::MjCarousel(_) => ItemKind::Image,
        _ => ItemKind::Link,
    }
}

/// The first `k` item lines, from row `y0`; also the row after them.
pub open spec fn item_lines(
    c: CanvasV,
    labels: Seq<Seq<char>>,
    path: Seq<Step>,
    kind: ItemKind,
    y0: usize,
    w: nat,
    k: int,
) -> (CanvasV, usize)
    decreases k,
{
    if k <= 0 {
        (c, y0)
    } else {
        let (prev, y) = item_lines(c, labels, path, kind, y0, w, k - 1);
        (
            filled(prev, 0, y as int, w, "  "@ + labels[k - 1], Some(IdView::Path(path.push(item_step(kind, (k - 1) as usize))))),
            y.saturating_add(1),
        )
    }
}

/// A component's line at row `y` (and its items' lines); also the row after.
pub open spec fn component_lines(c: CanvasV, ch: ColumnChild, path: Seq<Step>, y: usize, w: nat) -> (CanvasV, usize) {
    let first = filled(c, 0, y as int, w, column_child_detail(ch), Some(IdView::Path(path)));
    let labels = item_labels(ch, w);
    item_lines(first, labels, path, item_kind(ch), y.saturating_add(1), w, labels.len() as int)
}

pub open spec fn comp_step(hero: bool, i: usize) -> Step {
    if hero {
        Step::HeroChild(i)
    } else {
        Step::ColComp(i)
    }
}

/// The first `k` components, from row 1; also the row after them.
pub open spec fn components_lines(c: CanvasV, cs: Seq<ColumnChild>, path: Seq<Step>, hero: bool, w: nat, k: int) -> (CanvasV, usize)
    decreases k,
{
    if k <= 0 {
        (c, 1)
    } else {
        let (prev, y) = components_lines(c, cs, path, hero, w, k - 1);
        component_lines(prev, cs[k - 1], path.push(comp_step(hero, (k - 1) as usize)), y, w)
    }
}

/// A column's own canvas, `w` cells wide.
pub open spec fn column_canvas(col: MjColumn, path: Seq<Step>, w: nat) -> CanvasV {
    let id = IdView::Path(path);
    let label = match given(col.width) {
        Some(x) => "mj-column "@ + x,
        None => "mj-column"@,
    };
    let top = filled(new_canvas(w), 0, 0, w, label, Some(id));
    let body = if col.components.len() == 0 {
        filled(top, 0, 1, w, "(empty)"@, Some(id))
    } else {
        components_lines(top, col.components@, path, false, w, col.components.len() as int).0
    };
    marked(body, id)
}

/// The tallest of the first `k` parts, at least one.
pub open spec fn parts_height(parts: Seq<CanvasV>, k: int) -> nat
    decreases k,
{
    if k <= 0 {
        1
    } else {
        let prev = parts_height(parts, k - 1);
        let h = parts[k - 1].rows.len();
        if h > prev {
            h
        } else {
            prev
        }
    }
}

/// The first `k` parts laid side by side from row `y`, each followed by a
/// `|` gutter but the last; also the column after them.
pub open spec fn row_parts(c: CanvasV, parts: Seq<CanvasV>, widths: Seq<int>, y: usize, h: nat, k: int) -> (CanvasV, usize)
    decreases k,
{
    if k <= 0 {
        (c, 0)
    } else {
        let (prev, x) = row_parts(c, parts, widths, y, h, k - 1);
        let placed = blitted(prev, parts[k - 1], x as int, y as int);
        let step: usize = if k - 1 < widths.len() {
            widths[k - 1] as usize
        } else {
            parts[k - 1].width as usize
        };
        let x2 = x.saturating_add(step);
        if k < parts.len() {
            (guttered(placed, x2 as int, y as int, h as int), x2.saturating_add(1))
        } else {
            (placed, x2)
        }
    }
}

/// `blit_row`: the parts side by side from row `y`.
pub open spec fn row_blit(c: CanvasV, parts: Seq<CanvasV>, widths: Seq<int>, y: usize) -> CanvasV {
    row_parts(c, parts, widths, y, parts_height(parts, parts.len() as int), parts.len() as int).0
}

pub open spec fn group_pcts(cols: Seq<MjColumn>) -> Seq<Option<u32>> {
    cols.map_values(|c: MjColumn| parse_pct(c.width))
}

/// A group's own canvas, `w` cells wide: its columns side by side.
pub open spec fn group_canvas(g: MjGroup, path: Seq<Step>, w: nat) -> CanvasV {
    let id = IdView::Path(path);
    let top = filled(new_canvas(w), 0, 0, w, "mj-group"@, Some(id));
    let n = g.children.len();
    if n == 0 {
        marked(filled(top, 0, 1, w, "(no columns)"@, Some(id)), id)
    } else {
        let widths = distributed(w as usize, n, group_pcts(g.children@));
        let parts = Seq::new(
            n as nat,
            |i: int| column_canvas(g.children@[i], path.push(Step::GroupCol(i as usize)), widths[i] as nat),
        );
        let row = row_blit(new_canvas(w), parts, widths, 0);
        marked(blitted(top, row, 0, 1), id)
    }
}

pub open spec fn slot_canvas(ch: SectionChild, path: Seq<Step>, w: nat) -> CanvasV {
    match ch {
        SectionChild::MjColumn(col) => column_canvas(col, path, w),
        SectionChild::MjGroup(g) => group_canvas(g, path, w),
    }
}

pub open spec fn slot_pcts(cs: Seq<SectionChild>) -> Seq<Option<u32>> {
    cs.map_values(
        |c: SectionChild|
            match c {
                SectionChild::MjColumn(col) => parse_pct(col.width),
                SectionChild::MjGroup(g) => parse_pct(g.width),
            },
    )
}

/// A section's inside, `w` cells wide: its label, then its columns and
/// groups side by side.
pub open spec fn section_canvas(s: MjSection, path: Seq<Step>, w: nat) -> CanvasV {
    let id = IdView::Path(path);
    let (top, y) = match given(s.label) {
        Some(l) => (filled(new_canvas(w), 0, 0, w, l, Some(id)), 1usize),
        None => (new_canvas(w), 0usize),
    };
    let n = s.children.len();
    if n == 0 {
        filled(top, 0, y as int, w, "(no columns)"@, None)
    } else {
        let widths = distributed(w as usize, n, slot_pcts(s.children@));
        let parts = Seq::new(
            n as nat,
            |i: int| slot_canvas(s.children@[i], path.push(Step::SectionChild(i as usize)), widths[i] as nat),
        );
        row_blit(top, parts, widths, y)
    }
}

/// A hero's inside, `w` cells wide.
pub open spec fn hero_canvas(h: MjHero, path: Seq<Step>, w: nat) -> CanvasV {
    let top = filled(new_canvas(w), 0, 0, w, "mj-hero"@, None);
    if h.children.len() == 0 {
        filled(top, 0, 1, w, "(empty)"@, None)
    } else {
        components_lines(top, h.children@, path, true, w, h.children.len() as int).0
    }
}

pub open spec fn wrapper_caption(label: Option<String>) -> Seq<char> {
    match given(label) {
        Some(l) => "mj-wrapper  "@ + l,
        None => "mj-wrapper"@,
    }
}

pub open spec fn position_text(p: ImagePosition) -> Seq<char> {
    match p {
        ImagePosition::Top => "image top"@,
        ImagePosition::Left => "image left"@,
        ImagePosition::Right => "image right"@,
    }
}

/// A body node's box from row `y` across the whole canvas; also the row
/// after it.
pub open spec fn node_box(c: CanvasV, n: BodyNode, path: Seq<Step>, y: usize) -> (CanvasV, usize)
    decreases n, 0nat,
{
    let id = IdView::Path(path);
    let iw = inner_width(c.width);
    match n {
        BodyNode::MjSection(s) => boxed(c, y, id, section_canvas(s, path, iw)),
        BodyNode::MjWrapper(w) => {
            let top = filled(new_canvas(iw), 0, 0, iw, wrapper_caption(w.label), None);
            let inner = if w.children.len() == 0 {
                filled(top, 0, 1, iw, "(empty)"@, None)
            } else {
                wrapper_boxes(top, w.children@, path, w.children.len() as nat).0
            };
            boxed(c, y, id, inner)
        },
        BodyNode::MjHero(h) => boxed(c, y, id, hero_canvas(h, path, iw)),
        BodyNode::EmailHeader(h) => labeled_box(c, y, id, "email-header"@, seq!["logo "@ + dash(h.logo_src@), dash(h.logo_alt@)]),
        BodyNode::EmailHero(h) => labeled_box(c, y, id, "email-hero"@, seq![dash(h.heading@), dash(h.subheading@)]),
        BodyNode::EmailCta(a) => labeled_box(c, y, id, "email-cta"@, seq![dash(a.heading@), "btn "@ + dash(a.button_label@)]),
        BodyNode::EmailArticle(a) => labeled_box(c, y, id, "email-article"@, seq![dash(a.title@), position_text(a.image_position)]),
        BodyNode::EmailFooter(f) => labeled_box(c, y, id, "email-footer"@, seq![dash(f.company_name@), dash(f.unsubscribe_label@)]),
    }
}

/// The boxes of a wrapper's first `k` children, from row 1; also the row
/// after them.
pub open spec fn wrapper_boxes(c: CanvasV, ns: Seq<BodyNode>, path: Seq<Step>, k: nat) -> (CanvasV, usize)
    decreases ns, k,
{
    if k == 0 || k > ns.len() {
        (c, 1)
    } else {
        let (prev, y) = wrapper_boxes(c, ns, path, (k - 1) as nat);
        node_box(prev, ns[k - 1], path.push(Step::WrapperChild((k - 1) as usize)), y)
    }
}

/// The boxes of the first `k` body nodes, from row 1; also the row after.
pub open spec fn body_boxes(c: CanvasV, ns: Seq<BodyNode>, k: nat) -> (CanvasV, usize)
    decreases k,
{
    if k == 0 || k > ns.len() {
        (c, 1)
    } else {
        let (prev, y) = body_boxes(c, ns, (k - 1) as nat);
        node_box(prev, ns[k - 1], seq![Step::BodyNode((k - 1) as usize)], y)
    }
}

/// The whole email's canvas for a pane `width` cells wide (at least 12): the
/// content width, then a box per body node.
pub open spec fn blueprint_canvas(t: Template, width: usize) -> CanvasV {
    let w: nat = if width < 12 {
        12
    } else {
        width as nat
    };
    let top = filled(new_canvas(w), 0, 0, w, decimal(t.brand.content_width as nat) + "px canvas"@, None);
    if t.body.nodes.len() == 0 {
        let iw = inner_width(w);
        boxed(top, 1, IdView::Body, filled(new_canvas(iw), 0, 0, iw, "(empty body)"@, Some(IdView::Body))).0
    } else {
        body_boxes(top, t.body.nodes@, t.body.nodes.len() as nat).0
    }
}

struct Cell {
    ch: char,
    id: Option<TreeId>,
}

struct Canvas {
    width: usize,
    rows: Vec<Vec<Cell>>,
}

spec fn cell_view(c: Cell) -> CellV {
    (c.ch, opt_id(c.id))
}

spec fn row_view(r: Seq<Cell>) -> Seq<CellV> {
    r.map_values(|c: Cell| cell_view(c))
}

impl View for Canvas {
    type V = CanvasV;

    closed spec fn view(&self) -> CanvasV {
        CanvasV { width: self.width as nat, rows: self.rows@.map_values(|r: Vec<Cell>| row_view(r@)) }
    }
}

fn copy_opt_id(o: &Option<TreeId>) -> (r: Option<TreeId>)
    ensures
        opt_id(r) == opt_id(*o),
{
    match o {
        Some(i) => Some(copy_id(i)),
        None => None,
    }
}

fn copy_cell(c: &Cell) -> (r: Cell)
    ensures
        cell_view(r) == cell_view(*c),
{
    Cell { ch: c.ch, id: copy_opt_id(&c.id) }
}

fn blank_row_exec(w: usize) -> (r: Vec<Cell>)
    ensures
        row_view(r@) == blank_row(w as nat),
{
    let mut r: Vec<Cell> = Vec::new();
    let mut i: usize = 0;
    while i < w
        invariant
            i <= w,
            row_view(r@) == blank_row(i as nat),
        decreases w - i,
    {
        let ghost before = r@;
        r.push(Cell { ch: ' ', id: None });
        assert(row_view(r@) =~= row_view(before).push(empty_cell()));
        assert(row_view(r@) =~= blank_row((i + 1) as nat));
        i += 1;
    }
    r
}


/// `padded` as characters.
fn padded_exec(text: &str, max: usize) -> (r: Vec<char>)
    requires
        max >= 1,
    ensures
        r@ == padded(text@, max as nat),
        r@.len() == max,
{
    let v = chars_of(text);
    let keep: usize = if v.len() < max - 1 {
        v.len()
    } else {
        max - 1
    };
    let mut r: Vec<char> = Vec::new();
    r.push(' ');
    let mut i: usize = 0;
    while i < keep
        invariant
            keep <= v.len(),
            keep <= max - 1,
            i <= keep,
            v@ == text@,
            r@ == seq![' '] + v@.take(i as int),
        decreases keep - i,
    {
        r.push(v[i]);
        assert(v@.take(i + 1) =~= v@.take(i as int).push(v@[i as int]));
        i += 1;
    }
    let mut j: usize = 0;
    while j < max - 1 - keep
        invariant
            keep <= max - 1,
            j <= max - 1 - keep,
            r@ == seq![' '] + v@.take(keep as int) + Seq::new(j as nat, |q: int| ' '),
        decreases max - 1 - keep - j,
    {
        r.push(' ');
        assert(Seq::new((j + 1) as nat, |q: int| ' ') =~= Seq::new(j as nat, |q: int| ' ').push(' '));
        j += 1;
    }
    assert(r@ =~= padded(text@, max as nat));
    r
}

fn char_at(v: &Vec<char>, k: usize) -> (c: char)
    requires
        k < v@.len(),
    ensures
        c == v@[k as int],
{
    v[k]
}

/// `old` with cells `x..x + line.len()` showing `line`, leading to `id`.
fn line_row(old: &Vec<Cell>, x: usize, max: usize, shown: &Vec<char>, id: &Option<TreeId>) -> (r: Vec<Cell>)
    requires
        x + max <= old@.len(),
        shown@.len() == max,
        max >= 1,
    ensures
        row_view(r@) == Seq::new(
            old@.len(),
            |j: int| if x <= j < x + max { (shown@[j - x], opt_id(*id)) } else { row_view(old@)[j] },
        ),
        r@.len() == old@.len(),
{
    let ghost target = Seq::new(
        old@.len(),
        |j: int| if x <= j < x + max { (shown@[j - x], opt_id(*id)) } else { row_view(old@)[j] },
    );
    let mut r: Vec<Cell> = Vec::new();
    let mut i: usize = 0;
    while i < old.len()
        invariant
            i <= old@.len(),
            x + max <= old@.len(),
            shown@.len() == max,
            max >= 1,
            target == Seq::new(
                old@.len(),
                |j: int| if x <= j < x + max { (shown@[j - x], opt_id(*id)) } else { row_view(old@)[j] },
            ),
            row_view(r@) == target.take(i as int),
            r@.len() == i,
        decreases old@.len() - i,
    {
        let ghost before = r@;
        let inside = x <= i && i < x + max;
        let k: usize = if inside {
            i - x
        } else {
            0
        };
        let ch: char = char_at(shown, k);
        let c = if inside {
            Cell { ch: ch, id: copy_opt_id(id) }
        } else {
            copy_cell(&old[i])
        };
        assert(cell_view(c) == target[i as int]);
        r.push(c);
        assert(row_view(r@) =~= row_view(before).push(target[i as int]));
        assert(target.take(i + 1) =~= target.take(i as int).push(target[i as int]));
        i += 1;
    }
    assert(target.take(i as int) =~= target);
    r
}

fn shows_exec(c: &Cell) -> (b: bool)
    ensures
        b == shows(cell_view(*c)),
{
    !(c.ch == ' ' && c.id.is_none())
}

/// Whether `row`, copied from column `x`, puts a cell inside width `w`.
fn row_reaches(row: &Vec<Cell>, x: usize, w: usize) -> (b: bool)
    ensures
        b == reaches(row_view(row@), x as int, w as nat),
{
    if x >= w {
        return false;
    }
    let mut sx: usize = 0;
    while sx < row.len()
        invariant
            x < w,
            sx <= row@.len(),
            forall|k: int| 0 <= k < sx ==> !(x + k < w && shows(#[trigger] row_view(row@)[k])),
        decreases row@.len() - sx,
    {
        if sx < w - x && shows_exec(&row[sx]) {
            assert(shows(row_view(row@)[sx as int]));
            return true;
        }
        sx += 1;
    }
    false
}

/// `overlay` on exec rows.
fn overlay_row(old: &Vec<Cell>, src: &Vec<Cell>, x: usize) -> (r: Vec<Cell>)
    ensures
        row_view(r@) == overlay(row_view(old@), row_view(src@), x as int),
        r@.len() == old@.len(),
{
    let ghost target = overlay(row_view(old@), row_view(src@), x as int);
    let mut r: Vec<Cell> = Vec::new();
    let mut i: usize = 0;
    while i < old.len()
        invariant
            i <= old@.len(),
            target == overlay(row_view(old@), row_view(src@), x as int),
            row_view(r@) == target.take(i as int),
            r@.len() == i,
        decreases old@.len() - i,
    {
        let ghost before = r@;
        let from_src = x <= i && i - x < src.len() && shows_exec(&src[i - x]);
        let c = if from_src {
            copy_cell(&src[i - x])
        } else {
            copy_cell(&old[i])
        };
        assert(cell_view(c) == target[i as int]);
        r.push(c);
        assert(row_view(r@) =~= row_view(before).push(target[i as int]));
        assert(target.take(i + 1) =~= target.take(i as int).push(target[i as int]));
        i += 1;
    }
    assert(target.take(i as int) =~= target);
    r
}

pub open spec fn mark_row(row: Seq<CellV>, id: IdView) -> Seq<CellV> {
    row.map_values(|cell: CellV| if cell.1 is None { (cell.0, Some(id)) } else { cell })
}

fn mark_row_exec(old: &Vec<Cell>, id: &TreeId) -> (r: Vec<Cell>)
    ensures
        row_view(r@) == mark_row(row_view(old@), id@),
        r@.len() == old@.len(),
{
    let ghost target = mark_row(row_view(old@), id@);
    let mut r: Vec<Cell> = Vec::new();
    let mut i: usize = 0;
    while i < old.len()
        invariant
            i <= old@.len(),
            target == mark_row(row_view(old@), id@),
            row_view(r@) == target.take(i as int),
            r@.len() == i,
        decreases old@.len() - i,
    {
        let ghost before = r@;
        let c = if old[i].id.is_none() {
            Cell { ch: old[i].ch, id: Some(copy_id(id)) }
        } else {
            copy_cell(&old[i])
        };
        assert(cell_view(c) == target[i as int]);
        r.push(c);
        assert(row_view(r@) =~= row_view(before).push(target[i as int]));
        assert(target.take(i + 1) =~= target.take(i as int).push(target[i as int]));
        i += 1;
    }
    assert(target.take(i as int) =~= target);
    r
}

/// One clickable region of the details text.
pub struct DetailHit {
    pub line: usize,
    pub x0: usize,
    pub x1: usize,
    pub id: TreeId,
}

impl View for DetailHit {
    type V = HitV;

    open spec fn view(&self) -> HitV {
        HitV { line: self.line as nat, x0: self.x0 as nat, x1: self.x1 as nat, id: self.id@ }
    }
}

pub open spec fn hits_view(v: Seq<DetailHit>) -> Seq<HitV> {
    v.map_values(|h: DetailHit| h@)
}

fn push_hit(hits: &mut Vec<DetailHit>, line: usize, x0: usize, x1: usize, id: TreeId)
    ensures
        hits_view(final(hits)@) == hits_view(old(hits)@).push(HitV { line: line as nat, x0: x0 as nat, x1: x1 as nat, id: id@ }),
{
    let ghost before = hits@;
    let ghost hv = HitV { line: line as nat, x0: x0 as nat, x1: x1 as nat, id: id@ };
    hits.push(DetailHit { line, x0, x1, id });
    assert(hits_view(hits@) =~= hits_view(before).push(hv));
}

pub open spec fn open_view(o: Option<(usize, TreeId)>) -> Option<(nat, IdView)> {
    match o {
        Some((x0, id)) => Some((x0 as nat, id@)),
        None => None,
    }
}

/// The regions of one row, added to `hits`.
fn push_row_hits(hits: &mut Vec<DetailHit>, row: &Vec<Cell>, line: usize)
    ensures
        hits_view(final(hits)@) == hits_view(old(hits)@) + row_hits(row_view(row@), line as nat, 0, None),
{
    let ghost start = hits_view(hits@);
    let ghost rv = row_view(row@);
    let mut open: Option<(usize, TreeId)> = None;
    let mut x: usize = 0;
    assert(start + row_hits(rv, line as nat, 0, None) == hits_view(hits@) + row_hits(rv, line as nat, 0, open_view(open)));
    while x < row.len()
        invariant
            x <= row@.len(),
            rv == row_view(row@),
            open matches Some((x0, _)) ==> x0 < x,
            hits_view(hits@) + row_hits(rv, line as nat, x as int, open_view(open)) == start + row_hits(rv, line as nat, 0, None),
        decreases row@.len() - x,
    {
        let ghost before = hits_view(hits@);
        let ghost ov = open_view(open);
        let cell_id = copy_opt_id(&row[x].id);
        assert(opt_id(cell_id) == rv[x as int].1);
        match open {
            Some((x0, id)) => {
                let same = match &cell_id {
                    Some(c) => same_id(c, &id),
                    None => false,
                };
                if same {
                    open = Some((x0, id));
                } else {
                    push_hit(hits, line, x0, x, id);
                    open = match cell_id {
                        Some(c) => Some((x, c)),
                        None => None,
                    };
                    assert(hits_view(hits@) + row_hits(rv, line as nat, x + 1, open_view(open)) =~= before
                        + row_hits(rv, line as nat, x as int, ov));
                }
            },
            None => {
                open = match cell_id {
                    Some(c) => Some((x, c)),
                    None => None,
                };
            },
        }
        x += 1;
    }
    match open {
        Some((x0, id)) => {
            let ghost before = hits_view(hits@);
            push_hit(hits, line, x0, x, id);
            assert(hits_view(hits@) =~= before + row_hits(rv, line as nat, x as int, Some((x0 as nat, id@))));
        },
        None => {
            assert(row_hits(rv, line as nat, x as int, None) =~= Seq::<HitV>::empty());
            assert(hits_view(hits@) + Seq::<HitV>::empty() =~= hits_view(hits@));
        },
    }
}

/// The characters of one row.
fn row_text(row: &Vec<Cell>) -> (s: String)
    ensures
        s@ == row_view(row@).map_values(|cell: CellV| cell.0),
{
    let ghost target = row_view(row@).map_values(|cell: CellV| cell.0);
    let mut s = String::new();
    let mut i: usize = 0;
    while i < row.len()
        invariant
            i <= row@.len(),
            target == row_view(row@).map_values(|cell: CellV| cell.0),
            s@ == target.take(i as int),
        decreases row@.len() - i,
    {
        push_char(&mut s, row[i].ch);
        assert(target.take(i + 1) =~= target.take(i as int).push(target[i as int]));
        i += 1;
    }
    assert(target.take(i as int) =~= target);
    s
}

impl Canvas {
    fn new(width: usize) -> (c: Canvas)
        ensures
            c@ == new_canvas(width as nat),
            well_formed(c@),
    {
        let w = if width == 0 {
            1
        } else {
            width
        };
        let c = Canvas { width: w, rows: Vec::new() };
        assert(c@.rows =~= Seq::<Seq<CellV>>::empty());
        c
    }

    fn ensure(&mut self, y: u128)
        requires
            well_formed(old(self)@),
        ensures
            final(self)@ == grown(old(self)@, y as int),
            well_formed(final(self)@),
    {
        let ghost start = self@;
        if y < self.rows.len() as u128 {
            return;
        }
        while self.rows.len() as u128 <= y
            invariant
                well_formed(self@),
                self@.width == start.width,
                start.rows.len() <= self@.rows.len() <= y + 1,
                self@.rows =~= start.rows + Seq::new(
                    (self@.rows.len() - start.rows.len()) as nat,
                    |i: int| blank_row(start.width),
                ),
            decreases y + 1 - self.rows@.len(),
        {
            let row = blank_row_exec(self.width);
            let ghost before = self@.rows;
            self.rows.push(row);
            assert(self@.rows =~= before.push(blank_row(start.width)));
        }
        assert(self@ =~= grown(start, y as int));
    }

    /// A copy of row `y`.
    fn row_copy(&self, y: usize) -> (r: Vec<Cell>)
        requires
            well_formed(self@),
            y < self@.rows.len(),
        ensures
            row_view(r@) == self@.rows[y as int],
            r@.len() == self.width,
    {
        let ghost target = self@.rows[y as int];
        assert(self.rows@[y as int]@.len() == target.len());
        let mut r: Vec<Cell> = Vec::new();
        let mut i: usize = 0;
        while i < self.width
            invariant
                well_formed(self@),
                y < self@.rows.len(),
                target == self@.rows[y as int],
                self.rows@[y as int]@.len() == self.width,
                row_view(self.rows@[y as int]@) == target,
                i <= self.width,
                row_view(r@) == target.take(i as int),
                r@.len() == i,
            decreases self.width - i,
        {
            let c = copy_cell(&self.rows[y][i]);
            let ghost before = r@;
            r.push(c);
            assert(row_view(r@) =~= row_view(before).push(target[i as int]));
            assert(target.take(i + 1) =~= target.take(i as int).push(target[i as int]));
            i += 1;
        }
        assert(target.take(i as int) =~= target);
        r
    }

    /// Row `y` replaced by `row`.
    fn replace_row(&mut self, y: usize, row: Vec<Cell>)
        requires
            well_formed(old(self)@),
            y < old(self)@.rows.len(),
            row@.len() == old(self).width,
        ensures
            final(self)@ == (CanvasV { width: old(self)@.width, rows: old(self)@.rows.update(y as int, row_view(row@)) }),
            well_formed(final(self)@),
    {
        let ghost g = self@;
        self.rows.set(y, row);
        assert(self@.rows =~= g.rows.update(y as int, row_view(row@)));
    }

    /// `fill_line`: a line of `w` cells from `(x, y)` showing `text`.
    fn fill_line(&mut self, x: usize, y: usize, w: usize, text: &str, id: &Option<TreeId>)
        requires
            well_formed(old(self)@),
        ensures
            final(self)@ == filled(old(self)@, x as int, y as int, w as nat, text@, opt_id(*id)),
            well_formed(final(self)@),
    {
        let ghost c0 = self@;
        let max: usize = if x >= self.width {
            0
        } else if w < self.width - x {
            w
        } else {
            self.width - x
        };
        assert(max == span(c0, x as int, w as nat));
        if max == 0 {
            return;
        }
        self.ensure(y as u128);
        let ghost g = self@;
        let line = padded_exec(text, max);
        let old_row = self.row_copy(y);
        let fresh = line_row(&old_row, x, max, &line, id);
        self.replace_row(y, fresh);
        assert(self@ =~= filled(c0, x as int, y as int, w as nat, text@, opt_id(*id)));
    }

    /// `rect` over the full width: a frame from row `y` to row `y + h - 1`.
    fn frame(&mut self, y: usize, h: usize, id: &Option<TreeId>)
        requires
            well_formed(old(self)@),
            h >= 1,
        ensures
            final(self)@ == framed(old(self)@, y as int, y + h - 1, opt_id(*id)),
            well_formed(final(self)@),
    {
        let ghost c0 = self@;
        let w = self.width;
        if w < 2 {
            return;
        }
        let bottom: u128 = y as u128 + h as u128 - 1;
        self.ensure(bottom);
        let ghost g = self@;
        let n = self.rows.len();
        assert(n as int == g.rows.len());
        assert(bottom < n);
        let b = bottom as usize;
        let ghost iv = opt_id(*id);
        let ghost border = Seq::new(w as nat, |i: int| if i == 0 || i == w - 1 { ('+', iv) } else { ('-', iv) });
        let ghost goal = framed(c0, y as int, b as int, iv);
        // the border rows
        let mut top_row: Vec<Cell> = Vec::new();
        let mut i: usize = 0;
        while i < w
            invariant
                i <= w,
                w >= 2,
                iv == opt_id(*id),
                border == Seq::new(w as nat, |i: int| if i == 0 || i == w - 1 { ('+', iv) } else { ('-', iv) }),
                row_view(top_row@) == border.take(i as int),
                top_row@.len() == i,
            decreases w - i,
        {
            let ch = if i == 0 || i + 1 == w {
                '+'
            } else {
                '-'
            };
            let ghost before = top_row@;
            top_row.push(Cell { ch, id: copy_opt_id(id) });
            assert(row_view(top_row@) =~= row_view(before).push(border[i as int]));
            assert(border.take(i + 1) =~= border.take(i as int).push(border[i as int]));
            i += 1;
        }
        assert(border.take(i as int) =~= border);
        let mut bottom_row: Vec<Cell> = Vec::new();
        let mut k: usize = 0;
        while k < w
            invariant
                k <= w,
                top_row@.len() == w,
                row_view(top_row@) == border,
                row_view(bottom_row@) == border.take(k as int),
                bottom_row@.len() == k,
            decreases w - k,
        {
            let c = copy_cell(&top_row[k]);
            let ghost before = bottom_row@;
            bottom_row.push(c);
            assert(row_view(bottom_row@) =~= row_view(before).push(border[k as int]));
            assert(border.take(k + 1) =~= border.take(k as int).push(border[k as int]));
            k += 1;
        }
        assert(border.take(k as int) =~= border);
        self.replace_row(y, top_row);
        self.replace_row(b, bottom_row);
        // the sides
        let mut r: usize = y + 1;
        while r < b
            invariant
                well_formed(self@),
                self@.width == w,
                w >= 2,
                y < r <= b || (b <= y && r == y + 1),
                b < self@.rows.len(),
                self@.rows.len() == g.rows.len(),
                iv == opt_id(*id),
                forall|q: int|
                    0 <= q < g.rows.len() ==> #[trigger] self@.rows[q] == if q == y || q == b {
                        border
                    } else if y < q < r {
                        g.rows[q].update(0, ('|', iv)).update(w - 1, ('|', iv))
                    } else {
                        g.rows[q]
                    },
            decreases b - r,
        {
            let mut row = self.row_copy(r);
            row.set(0, Cell { ch: '|', id: copy_opt_id(id) });
            row.set(w - 1, Cell { ch: '|', id: copy_opt_id(id) });
            let ghost rv = row_view(row@);
            assert(rv =~= g.rows[r as int].update(0, ('|', iv)).update(w - 1, ('|', iv)));
            self.replace_row(r, row);
            r += 1;
        }
        assert(g == grown(c0, b as int));
        assert(self@.rows =~= goal.rows);
        assert(self@ == goal);
    }

    /// `blit`: the shown cells of `src` copied with their top left at `(x, y)`.
    fn blit(&mut self, src: &Canvas, x: usize, y: usize)
        requires
            well_formed(old(self)@),
            well_formed(src@),
        ensures
            final(self)@ == blitted(old(self)@, src@, x as int, y as int),
            well_formed(final(self)@),
    {
        let ghost c0 = self@;
        let ghost sv = src@;
        let mut last: Option<usize> = None;
        let mut sy: usize = 0;
        while sy < src.rows.len()
            invariant
                sv == src@,
                self@ == c0,
                sy <= sv.rows.len(),
                sv.rows.len() == src.rows@.len(),
                (match last {
                    Some(l) => l as int,
                    None => -1,
                }) == last_reaching(sv.rows, x as int, c0.width, sy as int),
                last matches Some(l) ==> l < sy,
            decreases sv.rows.len() - sy,
        {
            assert(row_view(src.rows@[sy as int]@) == sv.rows[sy as int]);
            if row_reaches(&src.rows[sy], x, self.width) {
                last = Some(sy);
            }
            sy += 1;
        }
        if let Some(l) = last {
            self.ensure(y as u128 + l as u128);
        }
        let ghost g = self@;
        let n = self.rows.len();
        assert(n as int == g.rows.len());
        let mut k: usize = 0;
        while k < src.rows.len()
            invariant
                sv == src@,
                well_formed(sv),
                well_formed(self@),
                sv.rows.len() == src.rows@.len(),
                self@.width == g.width,
                self@.rows.len() == g.rows.len() == n,
                k <= sv.rows.len(),
                forall|q: int|
                    0 <= q < g.rows.len() ==> #[trigger] self@.rows[q] == if y <= q < y + k {
                        overlay(g.rows[q], sv.rows[q - y], x as int)
                    } else {
                        g.rows[q]
                    },
            decreases sv.rows.len() - k,
        {
            let target: u128 = y as u128 + k as u128;
            if target < n as u128 {
                let t = target as usize;
                let old_row = self.row_copy(t);
                assert(row_view(src.rows@[k as int]@) == sv.rows[k as int]);
                let fresh = overlay_row(&old_row, &src.rows[k], x);
                self.replace_row(t, fresh);
            }
            k += 1;
        }
        let ghost goal = blitted(c0, sv, x as int, y as int);
        assert(self@.rows =~= goal.rows);
        assert(self@ == goal);
    }

    /// `fill_missing`: every cell that leads nowhere now leads to `id`.
    fn mark(&mut self, id: &TreeId)
        requires
            well_formed(old(self)@),
        ensures
            final(self)@ == marked(old(self)@, id@),
            well_formed(final(self)@),
    {
        let ghost g = self@;
        let n = self.rows.len();
        let mut r: usize = 0;
        while r < n
            invariant
                well_formed(self@),
                self@.width == g.width,
                self@.rows.len() == g.rows.len() == n,
                r <= n,
                forall|q: int|
                    0 <= q < g.rows.len() ==> #[trigger] self@.rows[q] == if q < r {
                        mark_row(g.rows[q], id@)
                    } else {
                        g.rows[q]
                    },
            decreases n - r,
        {
            assert(row_view(self.rows@[r as int]@) == self@.rows[r as int]);
            let fresh = mark_row_exec(&self.rows[r], id);
            self.replace_row(r, fresh);
            r += 1;
        }
        assert(self@.rows =~= marked(g, id@).rows);
    }

    /// `finish`: the canvas as lines of text and the regions of its cells.
    fn finish(&self) -> (r: (Vec<String>, Vec<DetailHit>))
        requires
            well_formed(self@),
        ensures
            views(r.0@) == canvas_lines(self@),
            hits_view(r.1@) == canvas_hits(self@.rows, self@.rows.len() as int),
    {
        let ghost cv = self@;
        let mut lines: Vec<String> = Vec::new();
        let mut hits: Vec<DetailHit> = Vec::new();
        let mut y: usize = 0;
        while y < self.rows.len()
            invariant
                cv == self@,
                y <= cv.rows.len(),
                cv.rows.len() == self.rows@.len(),
                views(lines@) == canvas_lines(cv).take(y as int),
                hits_view(hits@) == canvas_hits(cv.rows, y as int),
            decreases cv.rows.len() - y,
        {
            assert(row_view(self.rows@[y as int]@) == cv.rows[y as int]);
            let text = row_text(&self.rows[y]);
            let ghost before = lines@;
            lines.push(text);
            assert(views(lines@) =~= views(before).push(text@));
            assert(canvas_lines(cv).take(y + 1) =~= canvas_lines(cv).take(y as int).push(text@));
            push_row_hits(&mut hits, &self.rows[y], y);
            y += 1;
        }
        assert(canvas_lines(cv).take(y as int) =~= canvas_lines(cv));
        (lines, hits)
    }

    /// The `|` gutter: column `x` of rows `y..y + h` (a column right of the
    /// canvas is dropped).
    fn gutter(&mut self, x: usize, y: usize, h: usize)
        requires
            well_formed(old(self)@),
            h >= 1,
        ensures
            final(self)@ == guttered(old(self)@, x as int, y as int, h as int),
            well_formed(final(self)@),
    {
        let ghost c0 = self@;
        if x >= self.width {
            return;
        }
        let bottom: u128 = y as u128 + h as u128 - 1;
        self.ensure(bottom);
        let ghost g = self@;
        let n = self.rows.len();
        assert(n as int == g.rows.len());
        let mut k: usize = 0;
        while k < h
            invariant
                well_formed(self@),
                self@.width == g.width,
                x < g.width,
                self@.rows.len() == g.rows.len() == n,
                y + h - 1 < n,
                k <= h,
                forall|q: int|
                    0 <= q < g.rows.len() ==> #[trigger] self@.rows[q] == if y <= q < y + k {
                        g.rows[q].update(x as int, ('|', None))
                    } else {
                        g.rows[q]
                    },
            decreases h - k,
        {
            let r = y + k;
            let mut row = self.row_copy(r);
            row.set(x, Cell { ch: '|', id: None });
            assert(row_view(row@) =~= g.rows[r as int].update(x as int, ('|', None)));
            self.replace_row(r, row);
            k += 1;
        }
        assert(self@.rows =~= guttered(c0, x as int, y as int, h as int).rows);
    }
}

// ---------------------------------------------------------------------------
// Painting the blueprint
// ---------------------------------------------------------------------------

fn path_id(path: &Vec<Step>) -> (r: TreeId)
    ensures
        r@ == IdView::Path(path@),
{
    TreeId::Path(copy_path(path))
}

/// `blit_boxed` (at the left edge, across the whole canvas).
fn blit_boxed(c: &mut Canvas, y: usize, id: &TreeId, inner: Canvas) -> (r: usize)
    requires
        well_formed(old(c)@),
        well_formed(inner@),
    ensures
        (final(c)@, r) == boxed(old(c)@, y, id@, inner@),
        well_formed(final(c)@),
{
    let mut inner = inner;
    inner.mark(id);
    let ih: usize = if inner.rows.len() == 0 {
        1
    } else {
        inner.rows.len()
    };
    let h = ih.saturating_add(2);
    c.frame(y, h, &Some(copy_id(id)));
    c.blit(&inner, 1, y.saturating_add(1));
    y.saturating_add(h)
}

/// `paint_labeled_box`.
fn paint_labeled_box(c: &mut Canvas, y: usize, id: &TreeId, title: &str, extra: &Vec<String>) -> (r: usize)
    requires
        well_formed(old(c)@),
    ensures
        (final(c)@, r) == labeled_box(old(c)@, y, id@, title@, views(extra@)),
        well_formed(final(c)@),
{
    let iw: usize = if c.width > 2 {
        c.width - 2
    } else {
        1
    };
    let mut inner = Canvas::new(iw);
    let some_id = Some(copy_id(id));
    inner.fill_line(0, 0, iw, title, &some_id);
    let ghost first = inner@;
    let mut i: usize = 0;
    while i < extra.len()
        invariant
            i <= extra@.len(),
            well_formed(inner@),
            opt_id(some_id) == Some(id@),
            inner@ == extra_lines(first, views(extra@), iw as nat, id@, i as int),
        decreases extra@.len() - i,
    {
        let line = extra[i].as_str();
        let t = trim_str(line);
        if !(blank(line) || eq_str(t.as_str(), "—")) {
            inner.fill_line(0, i + 1, iw, line, &some_id);
        }
        i += 1;
    }
    blit_boxed(c, y, id, inner)
}

fn item_labels_exec(ch: &ColumnChild, w: usize) -> (r: Vec<String>)
    ensures
        views(r@) == item_labels(*ch, w as nat),
{
    let room: usize = if w > 3 {
        w - 3
    } else {
        0
    };
    let mut r: Vec<String> = Vec::new();
    match ch {
        ColumnChild::MjNavbar(n) => {
            let mut i: usize = 0;
            while i < n.links.len()
                invariant
                    i <= n.links@.len(),
                    room == item_room(w as nat),
                    views(r@) == n.links@.take(i as int).map_values(
                        |l: crate::model::MjNavbarLink| truncated(l.content@, item_room(w as nat)),
                    ),
                decreases n.links@.len() - i,
            {
                let ghost before = r@;
                let l = truncate(n.links[i].content.as_str(), room);
                r.push(l);
                assert(views(r@) =~= views(before).push(truncated(n.links@[i as int].content@, room as nat)));
                assert(n.links@.take(i + 1).map_values(
                    |l: crate::model::MjNavbarLink| truncated(l.content@, item_room(w as nat)),
                ) =~= n.links@.take(i as int).map_values(
                    |l: crate::model::MjNavbarLink| truncated(l.content@, item_room(w as nat)),
                ).push(truncated(n.links@[i as int].content@, room as nat)));
                i += 1;
            }
            assert(n.links@.take(i as int) =~= n.links@);
        },
        ColumnChild::MjAccordion(a) => {
            let mut i: usize = 0;
            while i < a.elements.len()
                invariant
                    i <= a.elements@.len(),
                    room == item_room(w as nat),
                    views(r@) == a.elements@.take(i as int).map_values(
                        |e: crate::model::MjAccordionElement| truncated(e.title@, item_room(w as nat)),
                    ),
                decreases a.elements@.len() - i,
            {
                let ghost before = r@;
                let l = truncate(a.elements[i].title.as_str(), room);
                r.push(l);
                assert(views(r@) =~= views(before).push(truncated(a.elements@[i as int].title@, room as nat)));
                assert(a.elements@.take(i + 1).map_values(
                    |e: crate::model::MjAccordionElement| truncated(e.title@, item_room(w as nat)),
                ) =~= a.elements@.take(i as int).map_values(
                    |e: crate::model::MjAccordionElement| truncated(e.title@, item_room(w as nat)),
                ).push(truncated(a.elements@[i as int].title@, room as nat)));
                i += 1;
            }
            assert(a.elements@.take(i as int) =~= a.elements@);
        },
        ColumnChild::MjCarousel(k) => {
            let mut i: usize = 0;
            while i < k.images.len()
                invariant
                    i <= k.images@.len(),
                    room == item_room(w as nat),
                    views(r@) == k.images@.take(i as int).map_values(
                        |m: crate::model::MjCarouselImage|
                            if is_blank(m.alt@) {
                                truncated(m.src@, item_room(w as nat))
                            } else {
                                truncated(m.alt@, item_room(w as nat))
                            },
                    ),
                decreases k.images@.len() - i,
            {
                let ghost before = r@;
                let img = &k.images[i];
                let l = if blank(img.alt.as_str()) {
                    truncate(img.src.as_str(), room)
                } else {
                    truncate(img.alt.as_str(), room)
                };
                let ghost lv = if is_blank(k.images@[i as int].alt@) {
                    truncated(k.images@[i as int].src@, room as nat)
                } else {
                    truncated(k.images@[i as int].alt@, room as nat)
                };
                assert(l@ == lv);
                r.push(l);
                assert(views(r@) =~= views(before).push(lv));
                assert(k.images@.take(i + 1).map_values(
                    |m: crate::model::MjCarouselImage|
                        if is_blank(m.alt@) {
                            truncated(m.src@, item_room(w as nat))
                        } else {
                            truncated(m.alt@, item_room(w as nat))
                        },
                ) =~= k.images@.take(i as int).map_values(
                    |m: crate::model::MjCarouselImage|
                        if is_blank(m.alt@) {
                            truncated(m.src@, item_room(w as nat))
                        } else {
                            truncated(m.alt@, item_room(w as nat))
                        },
                ).push(lv));
                i += 1;
            }
            assert(k.images@.take(i as int) =~= k.images@);
        },
        _ => {
            assert(views(r@) =~= item_labels(*ch, w as nat));
        },
    }
    r
}

fn item_step_exec(kind: &ItemKind, i: usize) -> (r: Step)
    ensures
        r == item_step(*kind, i),
{
    match kind {
        ItemKind::Link => Step::NavbarLink(i),
        ItemKind::Element => Step::AccordionEl(i),
        ItemKind::Image => Step::CarouselImg(i),
    }
}

/// `paint_component`: a component's line at row `y` and its items' lines.
fn paint_component(c: &mut Canvas, ch: &ColumnChild, path: &Vec<Step>, y: usize, w: usize) -> (r: usize)
    requires
        well_formed(old(c)@),
    ensures
        (final(c)@, r) == component_lines(old(c)@, *ch, path@, y, w as nat),
        well_formed(final(c)@),
{
    let ghost c0 = c@;
    let detail = column_child_detail_exec(ch);
    c.fill_line(0, y, w, detail.as_str(), &Some(path_id(path)));
    let ghost first = c@;
    let labels = item_labels_exec(ch, w);
    let kind = match ch {
        ColumnChild::MjAccordion(_) => ItemKind::Element,
        ColumnChild::MjCarousel(_) => ItemKind::Image,
        _ => ItemKind::Link,
    };
    assert(kind == item_kind(*ch));
    let mut yy = y.saturating_add(1);
    let mut i: usize = 0;
    while i < labels.len()
        invariant
            i <= labels@.len(),
            well_formed(c@),
            kind == item_kind(*ch),
            views(labels@) == item_labels(*ch, w as nat),
            (c@, yy) == item_lines(first, views(labels@), path@, kind, y.saturating_add(1), w as nat, i as int),
        decreases labels@.len() - i,
    {
        let text = cat("  ", labels[i].as_str());
        let step = item_step_exec(&kind, i);
        let item = extend_path(path, step);
        c.fill_line(0, yy, w, text.as_str(), &Some(path_id(&item)));
        yy = yy.saturating_add(1);
        i += 1;
    }
    yy
}

fn comp_step_exec(hero: bool, i: usize) -> (r: Step)
    ensures
        r == comp_step(hero, i),
{
    if hero {
        Step::HeroChild(i)
    } else {
        Step::ColComp(i)
    }
}

/// The components' lines from row 1.
fn paint_components(c: &mut Canvas, cs: &Vec<ColumnChild>, path: &Vec<Step>, hero: bool, w: usize) -> (r: usize)
    requires
        well_formed(old(c)@),
    ensures
        (final(c)@, r) == components_lines(old(c)@, cs@, path@, hero, w as nat, cs@.len() as int),
        well_formed(final(c)@),
{
    let ghost c0 = c@;
    let mut y: usize = 1;
    let mut i: usize = 0;
    while i < cs.len()
        invariant
            i <= cs@.len(),
            well_formed(c@),
            (c@, y) == components_lines(c0, cs@, path@, hero, w as nat, i as int),
        decreases cs@.len() - i,
    {
        let p = extend_path(path, comp_step_exec(hero, i));
        y = paint_component(c, &cs[i], &p, y, w);
        i += 1;
    }
    y
}

/// `paint_column`.
fn paint_column(col: &MjColumn, path: &Vec<Step>, w: usize) -> (r: Canvas)
    ensures
        r@ == column_canvas(*col, path@, w as nat),
        well_formed(r@),
{
    let id = path_id(path);
    let mut c = Canvas::new(w);
    let label = match given_label(&col.width) {
        Some(x) => cat("mj-column ", x.as_str()),
        None => owned("mj-column"),
    };
    let some_id = Some(copy_id(&id));
    c.fill_line(0, 0, w, label.as_str(), &some_id);
    if col.components.len() == 0 {
        c.fill_line(0, 1, w, "(empty)", &some_id);
    } else {
        let _ = paint_components(&mut c, &col.components, path, false, w);
    }
    c.mark(&id);
    c
}

spec fn canvases(v: Seq<Canvas>) -> Seq<CanvasV> {
    v.map_values(|c: Canvas| c@)
}

/// `blit_row`: the parts side by side from row `y`.
fn blit_row(dst: &mut Canvas, parts: &Vec<Canvas>, widths: &Vec<usize>, y: usize)
    requires
        well_formed(old(dst)@),
        forall|i: int| 0 <= i < parts@.len() ==> well_formed(#[trigger] parts@[i]@),
    ensures
        final(dst)@ == row_blit(old(dst)@, canvases(parts@), as_ints(widths@), y),
        well_formed(final(dst)@),
{
    let ghost d0 = dst@;
    let ghost pv = canvases(parts@);
    let ghost wv = as_ints(widths@);
    let n = parts.len();
    let mut h: usize = 1;
    let mut i: usize = 0;
    while i < n
        invariant
            n == parts@.len(),
            pv == canvases(parts@),
            i <= n,
            h >= 1,
            h as nat == parts_height(pv, i as int),
        decreases n - i,
    {
        if parts[i].rows.len() > h {
            h = parts[i].rows.len();
        }
        i += 1;
    }
    let mut x: usize = 0;
    let mut k: usize = 0;
    while k < n
        invariant
            n == parts@.len(),
            pv == canvases(parts@),
            wv == as_ints(widths@),
            forall|i: int| 0 <= i < parts@.len() ==> well_formed(#[trigger] parts@[i]@),
            h as nat == parts_height(pv, n as int),
            h >= 1,
            k <= n,
            well_formed(dst@),
            (dst@, x) == row_parts(d0, pv, wv, y, h as nat, k as int),
        decreases n - k,
    {
        dst.blit(&parts[k], x, y);
        let step: usize = if k < widths.len() {
            widths[k]
        } else {
            parts[k].width
        };
        x = x.saturating_add(step);
        if k + 1 < n {
            dst.gutter(x, y, h);
            x = x.saturating_add(1);
        }
        k += 1;
    }
}

fn group_pcts_exec(cols: &Vec<MjColumn>) -> (r: Vec<Option<u32>>)
    ensures
        r@ == group_pcts(cols@),
{
    let mut r: Vec<Option<u32>> = Vec::new();
    let mut i: usize = 0;
    while i < cols.len()
        invariant
            i <= cols@.len(),
            r@ == group_pcts(cols@.take(i as int)),
        decreases cols@.len() - i,
    {
        r.push(parse_pct_exec(&cols[i].width));
        assert(group_pcts(cols@.take(i + 1)) =~= group_pcts(cols@.take(i as int)).push(parse_pct(cols@[i as int].width)));
        i += 1;
    }
    assert(cols@.take(i as int) =~= cols@);
    r
}

/// `paint_group`.
fn paint_group(g: &MjGroup, path: &Vec<Step>, w: usize) -> (r: Canvas)
    ensures
        r@ == group_canvas(*g, path@, w as nat),
        well_formed(r@),
{
    let id = path_id(path);
    let some_id = Some(copy_id(&id));
    let mut c = Canvas::new(w);
    c.fill_line(0, 0, w, "mj-group", &some_id);
    let n = g.children.len();
    if n == 0 {
        c.fill_line(0, 1, w, "(no columns)", &some_id);
        c.mark(&id);
        return c;
    }
    let pcts = group_pcts_exec(&g.children);
    let widths = distribute_widths(w, &pcts);
    let ghost wv = distributed(w, n, group_pcts(g.children@));
    let ghost goal = Seq::new(
        n as nat,
        |i: int| column_canvas(g.children@[i], path@.push(Step::GroupCol(i as usize)), wv[i] as nat),
    );
    let mut parts: Vec<Canvas> = Vec::new();
    let mut i: usize = 0;
    while i < n
        invariant
            n == g.children@.len() == widths@.len(),
            as_ints(widths@) == wv,
            goal == Seq::new(
                n as nat,
                |i: int| column_canvas(g.children@[i], path@.push(Step::GroupCol(i as usize)), wv[i] as nat),
            ),
            i <= n,
            canvases(parts@) == goal.take(i as int),
            forall|j: int| 0 <= j < parts@.len() ==> well_formed(#[trigger] parts@[j]@),
        decreases n - i,
    {
        let p = extend_path(path, Step::GroupCol(i));
        let part = paint_column(&g.children[i], &p, widths[i]);
        assert(part@ == goal[i as int]);
        let ghost before = parts@;
        parts.push(part);
        assert(canvases(parts@) =~= canvases(before).push(goal[i as int]));
        assert(goal.take(i + 1) =~= goal.take(i as int).push(goal[i as int]));
        i += 1;
    }
    assert(goal.take(i as int) =~= goal);
    let mut row = Canvas::new(w);
    blit_row(&mut row, &parts, &widths, 0);
    c.blit(&row, 0, 1);
    c.mark(&id);
    c
}

fn slot_pcts_exec(cs: &Vec<SectionChild>) -> (r: Vec<Option<u32>>)
    ensures
        r@ == slot_pcts(cs@),
{
    let mut r: Vec<Option<u32>> = Vec::new();
    let mut i: usize = 0;
    while i < cs.len()
        invariant
            i <= cs@.len(),
            r@ == slot_pcts(cs@.take(i as int)),
        decreases cs@.len() - i,
    {
        let p = match &cs[i] {
            SectionChild::MjColumn(col) => parse_pct_exec(&col.width),
            SectionChild::MjGroup(g) => parse_pct_exec(&g.width),
        };
        r.push(p);
        assert(slot_pcts(cs@.take(i + 1)) =~= slot_pcts(cs@.take(i as int)).push(p));
        i += 1;
    }
    assert(cs@.take(i as int) =~= cs@);
    r
}

/// `paint_section_inner`.
fn paint_section_inner(s: &MjSection, path: &Vec<Step>, w: usize) -> (r: Canvas)
    ensures
        r@ == section_canvas(*s, path@, w as nat),
        well_formed(r@),
{
    let id = path_id(path);
    let mut c = Canvas::new(w);
    let mut y: usize = 0;
    if let Some(l) = given_label(&s.label) {
        c.fill_line(0, 0, w, l.as_str(), &Some(copy_id(&id)));
        y = 1;
    }
    let n = s.children.len();
    if n == 0 {
        c.fill_line(0, y, w, "(no columns)", &None);
        return c;
    }
    let pcts = slot_pcts_exec(&s.children);
    let widths = distribute_widths(w, &pcts);
    let ghost wv = distributed(w, n, slot_pcts(s.children@));
    let ghost goal = Seq::new(
        n as nat,
        |i: int| slot_canvas(s.children@[i], path@.push(Step::SectionChild(i as usize)), wv[i] as nat),
    );
    let mut parts: Vec<Canvas> = Vec::new();
    let mut i: usize = 0;
    while i < n
        invariant
            n == s.children@.len() == widths@.len(),
            as_ints(widths@) == wv,
            goal == Seq::new(
                n as nat,
                |i: int| slot_canvas(s.children@[i], path@.push(Step::SectionChild(i as usize)), wv[i] as nat),
            ),
            i <= n,
            canvases(parts@) == goal.take(i as int),
            forall|j: int| 0 <= j < parts@.len() ==> well_formed(#[trigger] parts@[j]@),
        decreases n - i,
    {
        let p = extend_path(path, Step::SectionChild(i));
        let part = match &s.children[i] {
            SectionChild::MjColumn(col) => paint_column(col, &p, widths[i]),
            SectionChild::MjGroup(g) => paint_group(g, &p, widths[i]),
        };
        assert(part@ == goal[i as int]);
        let ghost before = parts@;
        parts.push(part);
        assert(canvases(parts@) =~= canvases(before).push(goal[i as int]));
        assert(goal.take(i + 1) =~= goal.take(i as int).push(goal[i as int]));
        i += 1;
    }
    assert(goal.take(i as int) =~= goal);
    blit_row(&mut c, &parts, &widths, y);
    c
}

/// `paint_hero_inner`.
fn paint_hero_inner(h: &MjHero, path: &Vec<Step>, w: usize) -> (r: Canvas)
    ensures
        r@ == hero_canvas(*h, path@, w as nat),
        well_formed(r@),
{
    let mut c = Canvas::new(w);
    c.fill_line(0, 0, w, "mj-hero", &None);
    if h.children.len() == 0 {
        c.fill_line(0, 1, w, "(empty)", &None);
    } else {
        let _ = paint_components(&mut c, &h.children, path, true, w);
    }
    c
}

fn wrapper_caption_exec(label: &Option<String>) -> (r: String)
    ensures
        r@ == wrapper_caption(*label),
{
    match given_label(label) {
        Some(l) => cat("mj-wrapper  ", l.as_str()),
        None => owned("mj-wrapper"),
    }
}

fn two_lines(a: String, b: String) -> (r: Vec<String>)
    ensures
        views(r@) == seq![a@, b@],
{
    let mut r: Vec<String> = Vec::new();
    r.push(a);
    r.push(b);
    assert(views(r@) =~= seq![a@, b@]);
    r
}

/// `paint_body_node` (at the left edge, across the whole canvas).
fn paint_body_node(c: &mut Canvas, node: &BodyNode, path: &Vec<Step>, y: usize) -> (r: usize)
    requires
        well_formed(old(c)@),
    ensures
        (final(c)@, r) == node_box(old(c)@, *node, path@, y),
        well_formed(final(c)@),
    decreases node, 1nat,
{
    let id = path_id(path);
    let iw: usize = if c.width > 2 {
        c.width - 2
    } else {
        1
    };
    match node {
        BodyNode::MjSection(s) => {
            let inner = paint_section_inner(s, path, iw);
            blit_boxed(c, y, &id, inner)
        },
        BodyNode::MjWrapper(w) => {
            let mut inner = Canvas::new(iw);
            let caption = wrapper_caption_exec(&w.label);
            inner.fill_line(0, 0, iw, caption.as_str(), &None);
            if w.children.len() == 0 {
                inner.fill_line(0, 1, iw, "(empty)", &None);
            } else {
                let _ = paint_wrapper_children(&mut inner, &w.children, path);
            }
            blit_boxed(c, y, &id, inner)
        },
        BodyNode::MjHero(h) => {
            let inner = paint_hero_inner(h, path, iw);
            blit_boxed(c, y, &id, inner)
        },
        BodyNode::EmailHeader(h) => {
            let src = dash_exec(h.logo_src.as_str());
            let extra = two_lines(cat("logo ", src.as_str()), dash_exec(h.logo_alt.as_str()));
            paint_labeled_box(c, y, &id, "email-header", &extra)
        },
        BodyNode::EmailHero(h) => {
            let extra = two_lines(dash_exec(h.heading.as_str()), dash_exec(h.subheading.as_str()));
            paint_labeled_box(c, y, &id, "email-hero", &extra)
        },
        BodyNode::EmailCta(a) => {
            let label = dash_exec(a.button_label.as_str());
            let extra = two_lines(dash_exec(a.heading.as_str()), cat("btn ", label.as_str()));
            paint_labeled_box(c, y, &id, "email-cta", &extra)
        },
        BodyNode::EmailArticle(a) => {
            let pos = match a.image_position {
                ImagePosition::Top => "image top",
                ImagePosition::Left => "image left",
                ImagePosition::Right => "image right",
            };
            let extra = two_lines(dash_exec(a.title.as_str()), owned(pos));
            paint_labeled_box(c, y, &id, "email-article", &extra)
        },
        BodyNode::EmailFooter(f) => {
            let extra = two_lines(dash_exec(f.company_name.as_str()), dash_exec(f.unsubscribe_label.as_str()));
            paint_labeled_box(c, y, &id, "email-footer", &extra)
        },
    }
}

/// A wrapper's children, boxed one under another from row 1.
fn paint_wrapper_children(c: &mut Canvas, ns: &Vec<BodyNode>, path: &Vec<Step>) -> (r: usize)
    requires
        well_formed(old(c)@),
    ensures
        (final(c)@, r) == wrapper_boxes(old(c)@, ns@, path@, ns@.len()),
        well_formed(final(c)@),
    decreases ns, 0nat,
{
    let ghost c0 = c@;
    let mut y: usize = 1;
    let mut i: usize = 0;
    while i < ns.len()
        invariant
            i <= ns@.len(),
            well_formed(c@),
            (c@, y) == wrapper_boxes(c0, ns@, path@, i as nat),
        decreases ns@.len() - i,
    {
        let p = extend_path(path, Step::WrapperChild(i));
        y = paint_body_node(c, &ns[i], &p, y);
        i += 1;
    }
    y
}

/// `email_blueprint`'s canvas.
fn paint_blueprint(t: &Template, width: usize) -> (r: Canvas)
    ensures
        r@ == blueprint_canvas(*t, width),
        well_formed(r@),
{
    let w: usize = if width < 12 {
        12
    } else {
        width
    };
    let mut c = Canvas::new(w);
    let head = cat(decimal_exec(t.brand.content_width as u64).as_str(), "px canvas");
    c.fill_line(0, 0, w, head.as_str(), &None);
    let nodes = &t.body.nodes;
    if nodes.len() == 0 {
        let iw: usize = if w > 2 {
            w - 2
        } else {
            1
        };
        let mut inner = Canvas::new(iw);
        inner.fill_line(0, 0, iw, "(empty body)", &Some(TreeId::Body));
        let _ = blit_boxed(&mut c, 1, &TreeId::Body, inner);
    } else {
        let ghost c0 = c@;
        let mut y: usize = 1;
        let mut i: usize = 0;
        while i < nodes.len()
            invariant
                i <= nodes@.len(),
                nodes@ == t.body.nodes@,
                well_formed(c@),
                (c@, y) == body_boxes(c0, nodes@, i as nat),
            decreases nodes@.len() - i,
        {
            let mut p: Vec<Step> = Vec::new();
            p.push(Step::BodyNode(i));
            assert(p@ =~= seq![Step::BodyNode(i)]);
            y = paint_body_node(&mut c, &nodes[i], &p, y);
            i += 1;
        }
    }
    c
}

// ---------------------------------------------------------------------------
// The pane
// ---------------------------------------------------------------------------

/// The blueprint's lines for a pane `width` cells wide.
pub open spec fn blueprint_lines(t: Template, width: usize) -> Seq<Seq<char>> {
    canvas_lines(blueprint_canvas(t, width))
}

/// The blueprint's regions, each leading to a row of the tree.
pub open spec fn blueprint_hits(t: Template, width: usize) -> Seq<HitV> {
    let c = blueprint_canvas(t, width);
    canvas_hits(c.rows, c.rows.len() as int)
}

/// The fields above the blueprint, followed by an empty line when there are
/// any.
pub open spec fn top_lines(t: Template, id: IdView) -> Seq<Seq<char>> {
    let sel = selection_lines(t, id);
    if sel.len() > 0 {
        sel.push(Seq::empty())
    } else {
        sel
    }
}

/// A region moved down by `by` lines.
pub open spec fn shifted(h: HitV, by: usize) -> HitV {
    HitV { line: (h.line as usize).saturating_add(by) as nat, ..h }
}

/// The whole pane's text: a notice when no template is open or nothing is
/// selected; else the selected row's fields, then the blueprint.
pub open spec fn details_text(t: Option<Template>, id: Option<IdView>, width: usize) -> Seq<Seq<char>> {
    match (t, id) {
        (None, _) => seq!["No template open."@],
        (Some(_), None) => seq!["Nothing selected."@],
        (Some(t), Some(id)) => top_lines(t, id) + blueprint_lines(t, width),
    }
}

/// The pane's regions: those of the blueprint, below the fields.
pub open spec fn details_hits(t: Option<Template>, id: Option<IdView>, width: usize) -> Seq<HitV> {
    match (t, id) {
        (Some(t), Some(id)) => blueprint_hits(t, width).map_values(
            |h: HitV| shifted(h, top_lines(t, id).len() as usize),
        ),
        _ => Seq::empty(),
    }
}

pub open spec fn row_id(row: Option<&TreeRow>) -> Option<IdView> {
    match row {
        Some(r) => Some(r.id@),
        None => None,
    }
}

pub open spec fn template_of(t: Option<&Template>) -> Option<Template> {
    match t {
        Some(t) => Some(*t),
        None => None,
    }
}

/// The details pane for the selected row: its lines and the regions of the
/// blueprint that lead to tree rows (see [`details_text`], [`details_hits`]).
pub fn details_view(template: Option<&Template>, row: Option<&TreeRow>, width: usize) -> (r: (
    Vec<String>,
    Vec<DetailHit>,
))
    ensures
        views(r.0@) == details_text(template_of(template), row_id(row), width),
        hits_view(r.1@) == details_hits(template_of(template), row_id(row), width),
{
    let t = match template {
        Some(t) => t,
        None => {
            let lines = one_line(owned("No template open."));
            let hits: Vec<DetailHit> = Vec::new();
            assert(hits_view(hits@) =~= Seq::<HitV>::empty());
            return (lines, hits);
        },
    };
    let row = match row {
        Some(r) => r,
        None => {
            let lines = one_line(owned("Nothing selected."));
            let hits: Vec<DetailHit> = Vec::new();
            assert(hits_view(hits@) =~= Seq::<HitV>::empty());
            return (lines, hits);
        },
    };
    let mut lines = selection_lines_exec(t, &row.id);
    if lines.len() > 0 {
        let ghost before = lines@;
        lines.push(String::new());
        assert(views(lines@) =~= views(before).push(Seq::empty()));
    }
    assert(views(lines@) == top_lines(*t, row.id@));
    let c = paint_blueprint(t, width);
    let (ascii, raw_hits) = c.finish();
    let offset = lines.len();
    let ghost top = views(lines@);
    let ghost bh = blueprint_hits(*t, width);
    let mut hits: Vec<DetailHit> = Vec::new();
    let mut i: usize = 0;
    while i < raw_hits.len()
        invariant
            i <= raw_hits@.len(),
            hits_view(raw_hits@) == bh,
            offset == top.len(),
            hits_view(hits@) == bh.take(i as int).map_values(|h: HitV| shifted(h, offset)),
        decreases raw_hits@.len() - i,
    {
        let h = &raw_hits[i];
        let moved = DetailHit { line: h.line.saturating_add(offset), x0: h.x0, x1: h.x1, id: copy_id(&h.id) };
        assert(moved@ == shifted(bh[i as int], offset));
        let ghost before = hits@;
        hits.push(moved);
        assert(hits_view(hits@) =~= hits_view(before).push(moved@));
        assert(bh.take(i + 1).map_values(|h: HitV| shifted(h, offset)) =~= bh.take(i as int).map_values(
            |h: HitV| shifted(h, offset),
        ).push(shifted(bh[i as int], offset)));
        i += 1;
    }
    assert(bh.take(i as int) =~= bh);
    let mut k: usize = 0;
    let ghost bl = blueprint_lines(*t, width);
    while k < ascii.len()
        invariant
            k <= ascii@.len(),
            views(ascii@) == bl,
            views(lines@) == top + bl.take(k as int),
        decreases ascii@.len() - k,
    {
        let ghost before = lines@;
        lines.push(owned(ascii[k].as_str()));
        assert(views(lines@) =~= views(before).push(bl[k as int]));
        assert(top + bl.take(k + 1) =~= (top + bl.take(k as int)).push(bl[k as int]));
        k += 1;
    }
    assert(bl.take(k as int) =~= bl);
    (lines, hits)
}

/// The details pane's lines (see [`details_view`]).
pub fn details_lines(template: Option<&Template>, row: Option<&TreeRow>, width: usize) -> (r: Vec<String>)
    ensures
        views(r@) == details_text(template_of(template), row_id(row), width),
{
    details_view(template, row, width).0
}

/// The blueprint does not depend on the selected row: whichever rows `a`
/// and `b` are selected, the pane ends in the same blueprint lines, and its
/// regions are the same but for their line, which moves with the number of
/// field lines above (when no line number reaches the largest `usize`).
pub proof fn law_blueprint_same_for_every_row(t: Template, a: IdView, b: IdView, width: usize)
    ensures
        ({
            let da = details_text(Some(t), Some(a), width);
            let db = details_text(Some(t), Some(b), width);
            let n = blueprint_lines(t, width).len() as int;
            let ka = da.len() - n;
            let kb = db.len() - n;
            let ha = details_hits(Some(t), Some(a), width);
            let hb = details_hits(Some(t), Some(b), width);
            &&& ka >= 0 && kb >= 0
            &&& da.skip(ka) == db.skip(kb)
            &&& ha.len() == hb.len()
            &&& forall|i: int|
                0 <= i < ha.len() ==> (#[trigger] ha[i]).x0 == hb[i].x0 && ha[i].x1 == hb[i].x1 && ha[i].id == hb[i].id
                    && (ha[i].line + kb <= usize::MAX && hb[i].line + ka <= usize::MAX ==> ha[i].line - ka
                    == hb[i].line - kb)
        }),
{
    let da = details_text(Some(t), Some(a), width);
    let db = details_text(Some(t), Some(b), width);
    let bl = blueprint_lines(t, width);
    assert(da.skip(top_lines(t, a).len() as int) =~= bl);
    assert(db.skip(top_lines(t, b).len() as int) =~= bl);
}

proof fn lemma_row_hits_line(row: Seq<CellV>, line: nat, x: int, open: Option<(nat, IdView)>)
    ensures
        forall|i: int| 0 <= i < row_hits(row, line, x, open).len() ==> (#[trigger] row_hits(row, line, x, open)[i]).line == line,
    decreases row.len() - x,
{
    if !(x >= row.len() || x < 0) {
        lemma_row_hits_line(row, line, x + 1, open);
        lemma_row_hits_line(row, line, x + 1, None);
        if let Some(next) = row[x].1 {
            lemma_row_hits_line(row, line, x + 1, Some((x as nat, next)));
        }
    }
}

proof fn lemma_canvas_hits_lines(rows: Seq<Seq<CellV>>, n: int)
    requires
        n <= rows.len(),
    ensures
        forall|i: int| 0 <= i < canvas_hits(rows, n).len() ==> (#[trigger] canvas_hits(rows, n)[i]).line < n,
    decreases n,
{
    if n > 0 {
        lemma_canvas_hits_lines(rows, n - 1);
        lemma_row_hits_line(rows[n - 1], (n - 1) as nat, 0, None);
        let a = canvas_hits(rows, n - 1);
        let b = row_hits(rows[n - 1], (n - 1) as nat, 0, None);
        assert forall|i: int| 0 <= i < (a + b).len() implies (#[trigger] (a + b)[i]).line < n by {
            if i < a.len() {
                assert((a + b)[i] == a[i]);
            } else {
                assert((a + b)[i] == b[i - a.len()]);
            }
        }
    }
}

/// Every region of the blueprint lies on one of its lines; in the pane,
/// every region lies on a blueprint line, below the selected row's fields
/// (when its line number stays within `usize`).
pub proof fn law_blueprint_hits_on_its_lines(t: Template, id: IdView, width: usize)
    ensures
        forall|i: int|
            0 <= i < blueprint_hits(t, width).len() ==> (#[trigger] blueprint_hits(t, width)[i]).line < blueprint_lines(
                t,
                width,
            ).len(),
        forall|i: int|
            0 <= i < details_hits(Some(t), Some(id), width).len() && blueprint_hits(t, width)[i].line + top_lines(
                t,
                id,
            ).len() <= usize::MAX ==> top_lines(t, id).len() <= (#[trigger] details_hits(Some(t), Some(id), width)[i]).line
                < details_text(Some(t), Some(id), width).len(),
{
    let c = blueprint_canvas(t, width);
    lemma_canvas_hits_lines(c.rows, c.rows.len() as int);
}

} // verus!
