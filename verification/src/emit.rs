//! Deterministic Template → self-contained MJML 5.
//!
//! The output is described by spec functions over [`Out`], the text written
//! so far and the current nesting depth. Each spec function says what one
//! element adds; the executable emitters are proved to write exactly that.
use vstd::prelude::*;

use crate::border::{all_sides, attr_names, mjml_attrs, sides_from, str_views, Sides};
use crate::json_ld::{json_ld_payload, json_ld_payload_exec};
use crate::model::{
    Align, BodyNode, ColumnChild, EmailArticle, EmailCta, EmailFooter, EmailHeader, EmailHero,
    HeroMode, ImagePosition, MjAccordion, MjAccordionElement, MjButton, MjCarousel,
    MjCarouselImage, MjColumn, MjDivider, MjGroup, MjHero, MjImage, MjNavbar, MjNavbarLink,
    MjSection, MjSocial, MjSocialElement, MjSpacer, MjTable, MjText, MjWrapper, SectionChild,
    SocialMode, SocialNetwork, Template, Thumbnails, WebFont,
};
use crate::padding::{normalize_padding, normalize_unit, normalized_padding, normalized_unit};
use crate::text::{
    blank, chars_of, ends_with, ends_with_str, eq_str, first_of, first_of_exec, is_ws,
    is_ws_char, lemma_first_of, lemma_trim_start_len, lines, lines_exec, lower, lower_str, owned,
    push_char, push_str, skip_ws, starts_with, starts_with_str, string_of, strip_all_end,
    strip_all_start, strip_end_char, strip_end_len, strip_start_char, sub_vec, trim, trim_bounds,
    trim_end, trim_end_len, trim_start, trim_str, views,
};

verus! {

// ---------------------------------------------------------------------------
// The writer and its meaning
// ---------------------------------------------------------------------------

/// Text written so far and the indentation depth.
pub struct Out {
    pub text: Seq<char>,
    pub depth: nat,
}

/// One attribute: name and (already escaped) value.
pub type Attr = (Seq<char>, Seq<char>);

/// Two spaces per level.
pub open spec fn pad(n: nat) -> Seq<char>
    decreases n,
{
    if n == 0 {
        Seq::empty()
    } else {
        pad((n - 1) as nat) + "  "@
    }
}

/// One level deeper (the depth saturates at the machine limit).
pub open spec fn deeper(d: nat) -> nat {
    if d < usize::MAX {
        d + 1
    } else {
        d
    }
}

/// One level shallower, never below zero.
pub open spec fn shallower(d: nat) -> nat {
    if d > 0 {
        (d - 1) as nat
    } else {
        0
    }
}

/// ` k="v"` for each attribute, in order.
pub open spec fn attrs_text(a: Seq<Attr>) -> Seq<char>
    decreases a.len(),
{
    if a.len() == 0 {
        Seq::empty()
    } else {
        attrs_text(a.drop_last()) + " "@ + a.last().0 + "=\""@ + a.last().1 + "\""@
    }
}

/// `<tag>` on its own line; the depth grows.
pub open spec fn op_open(o: Out, tag: Seq<char>) -> Out {
    Out { text: o.text + pad(o.depth) + "<"@ + tag + ">\n"@, depth: deeper(o.depth) }
}

/// `<tag k="v" ...>` on its own line; the depth grows.
pub open spec fn op_open_attrs(o: Out, tag: Seq<char>, a: Seq<Attr>) -> Out {
    Out {
        text: o.text + pad(o.depth) + "<"@ + tag + attrs_text(a) + ">\n"@,
        depth: deeper(o.depth),
    }
}

/// `</tag>` one level shallower.
pub open spec fn op_close(o: Out, tag: Seq<char>) -> Out {
    let d = shallower(o.depth);
    Out { text: o.text + pad(d) + "</"@ + tag + ">\n"@, depth: d }
}

/// `<tag k="v" ... />` on its own line.
pub open spec fn op_self_close(o: Out, tag: Seq<char>, a: Seq<Attr>) -> Out {
    Out { text: o.text + pad(o.depth) + "<"@ + tag + attrs_text(a) + " />\n"@, depth: o.depth }
}

/// `<tag>text</tag>` on one line.
pub open spec fn op_leaf(o: Out, tag: Seq<char>, body: Seq<char>) -> Out {
    Out {
        text: o.text + pad(o.depth) + "<"@ + tag + ">"@ + body + "</"@ + tag + ">\n"@,
        depth: o.depth,
    }
}

/// Each of `ls` on its own indented line.
pub open spec fn raw_lines(o: Out, ls: Seq<Seq<char>>) -> Out
    decreases ls.len(),
{
    if ls.len() == 0 {
        o
    } else {
        let p = raw_lines(o, ls.drop_last());
        Out { text: p.text + pad(o.depth) + ls.last() + "\n"@, depth: o.depth }
    }
}

/// Every line of `body`, indented at the current depth.
pub open spec fn op_raw(o: Out, body: Seq<char>) -> Out {
    raw_lines(o, lines(body))
}

/// The final document: the text, ending with a newline.
pub open spec fn finished(o: Out) -> Seq<char> {
    if o.text.len() > 0 && o.text.last() == '\n' {
        o.text
    } else {
        o.text.push('\n')
    }
}

/// The outcome of a step as a spec value: the new writer state or the error.
pub open spec fn outcome(r: Result<(), String>, after: Out) -> Result<Out, Seq<char>> {
    match r {
        Ok(_) => Ok(after),
        Err(e) => Err(e@),
    }
}

/// The views of an executable attribute list.
pub open spec fn attr_view(v: Seq<(&'static str, String)>) -> Seq<Attr> {
    Seq::new(v.len(), |i: int| (v[i].0@, v[i].1@))
}

struct Writer {
    buf: String,
    indent: usize,
}

impl View for Writer {
    type V = Out;

    closed spec fn view(&self) -> Out {
        Out { text: self.buf@, depth: self.indent as nat }
    }
}

impl Writer {
    fn new() -> (r: Self)
        ensures
            r@ == (Out { text: Seq::empty(), depth: 0 }),
    {
        Writer { buf: String::new(), indent: 0 }
    }

    fn pad(&mut self)
        ensures
            final(self)@ == (Out { text: old(self)@.text + pad(old(self)@.depth), depth: old(self)@.depth }),
    {
        let n = self.indent;
        let mut i: usize = 0;
        while i < n
            invariant
                i <= n,
                n == old(self).indent,
                self.indent == n,
                self.buf@ == old(self).buf@ + pad(i as nat),
            decreases n - i,
        {
            push_str(&mut self.buf, "  ");
            assert(pad((i + 1) as nat) == pad(i as nat) + "  "@);
            i += 1;
        }
    }

    fn deepen(&mut self)
        ensures
            final(self)@ == (Out { text: old(self)@.text, depth: deeper(old(self)@.depth) }),
    {
        if self.indent < usize::MAX {
            self.indent = self.indent + 1;
        }
    }

    fn write_attrs(&mut self, attrs: &Vec<(&'static str, String)>)
        ensures
            final(self)@ == (Out { text: old(self)@.text + attrs_text(attr_view(attrs@)), depth: old(self)@.depth }),
    {
        let mut i: usize = 0;
        while i < attrs.len()
            invariant
                i <= attrs.len(),
                self.indent == old(self).indent,
                self.buf@ == old(self).buf@ + attrs_text(attr_view(attrs@.take(i as int))),
            decreases attrs.len() - i,
        {
            let (k, v) = &attrs[i];
            push_str(&mut self.buf, " ");
            push_str(&mut self.buf, k);
            push_str(&mut self.buf, "=\"");
            push_str(&mut self.buf, v.as_str());
            push_str(&mut self.buf, "\"");
            proof {
                let a = attr_view(attrs@.take(i + 1));
                assert(a.drop_last() =~= attr_view(attrs@.take(i as int)));
                assert(a.last() == (k@, v@));
            }
            i += 1;
        }
        assert(attrs@.take(attrs.len() as int) =~= attrs@);
    }

    fn open(&mut self, tag: &str)
        ensures
            final(self)@ == op_open(old(self)@, tag@),
    {
        self.pad();
        push_str(&mut self.buf, "<");
        push_str(&mut self.buf, tag);
        push_str(&mut self.buf, ">\n");
        self.deepen();
    }

    fn open_attrs(&mut self, tag: &str, attrs: &Vec<(&'static str, String)>)
        ensures
            final(self)@ == op_open_attrs(old(self)@, tag@, attr_view(attrs@)),
    {
        self.pad();
        push_str(&mut self.buf, "<");
        push_str(&mut self.buf, tag);
        self.write_attrs(attrs);
        push_str(&mut self.buf, ">\n");
        self.deepen();
    }

    fn close(&mut self, tag: &str)
        ensures
            final(self)@ == op_close(old(self)@, tag@),
    {
        if self.indent > 0 {
            self.indent = self.indent - 1;
        }
        self.pad();
        push_str(&mut self.buf, "</");
        push_str(&mut self.buf, tag);
        push_str(&mut self.buf, ">\n");
    }

    fn self_close(&mut self, tag: &str, attrs: &Vec<(&'static str, String)>)
        ensures
            final(self)@ == op_self_close(old(self)@, tag@, attr_view(attrs@)),
    {
        self.pad();
        push_str(&mut self.buf, "<");
        push_str(&mut self.buf, tag);
        self.write_attrs(attrs);
        push_str(&mut self.buf, " />\n");
    }

    fn leaf_text(&mut self, tag: &str, text: &str)
        ensures
            final(self)@ == op_leaf(old(self)@, tag@, text@),
    {
        self.pad();
        push_str(&mut self.buf, "<");
        push_str(&mut self.buf, tag);
        push_str(&mut self.buf, ">");
        push_str(&mut self.buf, text);
        push_str(&mut self.buf, "</");
        push_str(&mut self.buf, tag);
        push_str(&mut self.buf, ">\n");
    }

    fn raw_indented(&mut self, text: &str)
        ensures
            final(self)@ == op_raw(old(self)@, text@),
    {
        let ls = lines_exec(text);
        let ghost start = self@;
        let mut i: usize = 0;
        while i < ls.len()
            invariant
                i <= ls.len(),
                self@ == raw_lines(start, crate::text::views(ls@).take(i as int)),
                crate::text::views(ls@) == lines(text@),
                self@.depth == start.depth,
            decreases ls.len() - i,
        {
            proof {
                let vs = crate::text::views(ls@).take(i + 1);
                assert(vs.drop_last() =~= crate::text::views(ls@).take(i as int));
            }
            self.pad();
            push_str(&mut self.buf, ls[i].as_str());
            push_str(&mut self.buf, "\n");
            i += 1;
        }
        assert(crate::text::views(ls@).take(ls.len() as int) =~= crate::text::views(ls@));
    }

    fn finish(self) -> (r: String)
        ensures
            r@ == finished(self@),
    {
        let mut buf = self.buf;
        let v = chars_of(buf.as_str());
        if v.len() == 0 || v[v.len() - 1] != '\n' {
            push_char(&mut buf, '\n');
        }
        buf
    }
}


// ---------------------------------------------------------------------------
// Escaping, image URLs and attribute lists
// ---------------------------------------------------------------------------

/// Where the MJML goes: a local preview served from `origin`, or export.
#[derive(Debug, Clone)]
pub enum EmitMode {
    Preview { origin: String },
    Export,
}

/// Written on `<mj-button>` in `mj-attributes`. MJML subtracts this from a
/// pixel `width` when sizing the inner `<a>`, so keep it in sync with validate.
pub const BRAND_BUTTON_INNER_PADDING: &'static str = "12px 24px";

/// The XML escape of one character.
pub open spec fn esc_char(c: char) -> Seq<char> {
    if c == '&' {
        "&amp;"@
    } else if c == '<' {
        "&lt;"@
    } else if c == '>' {
        "&gt;"@
    } else if c == '"' {
        "&quot;"@
    } else {
        seq![c]
    }
}

/// `&`, `<`, `>` and `"` replaced by their entities; nothing else changes.
pub open spec fn escaped(s: Seq<char>) -> Seq<char>
    decreases s.len(),
{
    if s.len() == 0 {
        Seq::empty()
    } else {
        escaped(s.drop_last()) + esc_char(s.last())
    }
}

/// Escapes text for an attribute value.
fn xml_escape_attr(s: &str) -> (r: String)
    ensures
        r@ == escaped(s@),
{
    let v = chars_of(s);
    let mut out = String::new();
    let mut i: usize = 0;
    while i < v.len()
        invariant
            i <= v.len(),
            v@ == s@,
            out@ == escaped(v@.take(i as int)),
        decreases v.len() - i,
    {
        let c = v[i];
        if c == '&' {
            push_str(&mut out, "&amp;");
        } else if c == '<' {
            push_str(&mut out, "&lt;");
        } else if c == '>' {
            push_str(&mut out, "&gt;");
        } else if c == '"' {
            push_str(&mut out, "&quot;");
        } else {
            push_char(&mut out, c);
        }
        proof {
            let t = v@.take(i + 1);
            assert(t.drop_last() =~= v@.take(i as int));
            assert(t.last() == c);
            assert(escaped(v@.take(i as int)).push(c) =~= escaped(v@.take(i as int)) + seq![c]);
        }
        i += 1;
    }
    assert(v@.take(v.len() as int) =~= v@);
    out
}

/// Escapes text content; the same replacements as for attributes.
fn xml_escape_text(s: &str) -> (r: String)
    ensures
        r@ == escaped(s@),
{
    xml_escape_attr(s)
}

/// Where an image source points after rewriting, or why it is refused.
pub open spec fn rewritten(src: Seq<char>, base_url: Seq<char>, mode: EmitMode) -> Result<Seq<char>, Seq<char>> {
    let s = trim(src);
    let l = lower(s);
    if s.len() == 0 {
        Err("empty image src"@)
    } else if starts_with(l, "data:"@) || starts_with(l, "cid:"@) {
        Err("unsupported image URL scheme: "@ + s)
    } else if starts_with(l, "https://"@) {
        Ok(s)
    } else if starts_with(l, "http://127.0.0.1:"@) || starts_with(l, "http://localhost:"@) {
        match mode {
            EmitMode::Preview { .. } => Ok(s),
            EmitMode::Export => Err("loopback image URL not allowed in export: "@ + s),
        }
    } else if starts_with(l, "http://"@) {
        Err("insecure image URL: "@ + s)
    } else {
        match mode {
            EmitMode::Preview { origin } => {
                let rel = strip_all_start(s, '/');
                let path = if starts_with(rel, "images/"@) {
                    rel
                } else {
                    "images/"@ + rel
                };
                Ok(strip_all_end(origin@, '/') + "/"@ + path)
            },
            EmitMode::Export => {
                let b = trim(base_url);
                if b.len() == 0 {
                    Err("relative image '"@ + s + "' requires base_url"@)
                } else {
                    let base = if ends_with(b, "/"@) {
                        b
                    } else {
                        b.push('/')
                    };
                    Ok(base + strip_all_start(s, '/'))
                }
            },
        }
    }
}

/// `s` with `tail` appended, as a new string.
fn concat(s: &str, tail: &str) -> (r: String)
    ensures
        r@ == s@ + tail@,
{
    let mut r = owned(s);
    push_str(&mut r, tail);
    r
}

/// Rewrites an image source for the output: `https://` stays, loopback
/// `http://` stays in preview only, relative paths go under the preview
/// origin's `images/` or under `base_url` on export; `data:`, `cid:`, other
/// `http://` and empty sources are refused.
pub fn rewrite_src(src: &str, t: &Template, mode: &EmitMode) -> (r: Result<String, String>)
    ensures
        r matches Ok(u) ==> rewritten(src@, t.base_url@, *mode) == Ok::<Seq<char>, Seq<char>>(u@),
        r matches Err(e) ==> rewritten(src@, t.base_url@, *mode) == Err::<Seq<char>, Seq<char>>(e@),
{
    let s = trim_str(src);
    if s.as_str().is_empty() {
        return Err(owned("empty image src"));
    }
    let l = lower_str(s.as_str());
    if starts_with_str(l.as_str(), "data:") || starts_with_str(l.as_str(), "cid:") {
        return Err(concat("unsupported image URL scheme: ", s.as_str()));
    }
    if starts_with_str(l.as_str(), "https://") {
        return Ok(s);
    }
    if starts_with_str(l.as_str(), "http://127.0.0.1:") || starts_with_str(l.as_str(), "http://localhost:") {
        return match mode {
            EmitMode::Preview { .. } => Ok(s),
            EmitMode::Export => Err(concat("loopback image URL not allowed in export: ", s.as_str())),
        };
    }
    if starts_with_str(l.as_str(), "http://") {
        return Err(concat("insecure image URL: ", s.as_str()));
    }
    match mode {
        EmitMode::Preview { origin } => {
            let rel = strip_start_char(s.as_str(), '/');
            let path = if starts_with_str(rel.as_str(), "images/") {
                rel
            } else {
                concat("images/", rel.as_str())
            };
            let mut out = strip_end_char(origin.as_str(), '/');
            push_str(&mut out, "/");
            push_str(&mut out, path.as_str());
            Ok(out)
        },
        EmitMode::Export => {
            let b = trim_str(t.base_url.as_str());
            if b.as_str().is_empty() {
                let mut e = concat("relative image '", s.as_str());
                push_str(&mut e, "' requires base_url");
                return Err(e);
            }
            let mut base = b;
            if !ends_with_str(base.as_str(), "/") {
                push_char(&mut base, '/');
            }
            let rel = strip_start_char(s.as_str(), '/');
            push_str(&mut base, rel.as_str());
            Ok(base)
        },
    }
}

/// The trimmed value of an optional field, when it is not blank.
pub open spec fn given(v: Option<String>) -> Option<Seq<char>> {
    match v {
        Some(s) => if trim(s@).len() == 0 {
            None
        } else {
            Some(trim(s@))
        },
        None => None,
    }
}

fn given_value(v: &Option<String>) -> (r: Option<String>)
    ensures
        r is Some == given(*v) is Some,
        r matches Some(x) ==> given(*v) == Some(x@),
{
    match v {
        Some(s) => {
            let t = trim_str(s.as_str());
            if t.as_str().is_empty() {
                None
            } else {
                Some(t)
            }
        },
        None => None,
    }
}

/// The attribute list with `(key, escaped value)` added when the field is set.
pub open spec fn with_opt(a: Seq<Attr>, key: Seq<char>, v: Option<String>) -> Seq<Attr> {
    match given(v) {
        Some(x) => a.push((key, escaped(x))),
        None => a,
    }
}

/// A padding attribute: added only when the value normalizes.
pub open spec fn with_padding(a: Seq<Attr>, key: Seq<char>, v: Option<String>) -> Seq<Attr> {
    match given(v) {
        Some(x) => match normalized_padding(x) {
            Some(n) => a.push((key, escaped(n))),
            None => a,
        },
        None => a,
    }
}

/// A length: normalized as padding, else as a single unit, else kept as written.
pub open spec fn unit_text(x: Seq<char>) -> Seq<char> {
    match normalized_padding(x) {
        Some(n) => n,
        None => match normalized_unit(x) {
            Some(n) => n,
            None => x,
        },
    }
}

/// A length attribute (radius, gutter, gap).
pub open spec fn with_unit(a: Seq<Attr>, key: Seq<char>, v: Option<String>) -> Seq<Attr> {
    match given(v) {
        Some(x) => a.push((key, escaped(unit_text(x)))),
        None => a,
    }
}

/// The sides a border applies to; unreadable sides mean all four.
pub open spec fn sides_or_all(sides: Option<String>) -> Sides {
    match sides_from(
        match sides {
            Some(s) => s@,
            None => Seq::empty(),
        },
    ) {
        Ok(s) => s,
        Err(_) => all_sides(),
    }
}

/// Each name paired with the same value.
pub open spec fn keyed(names: Seq<Seq<char>>, value: Seq<char>) -> Seq<Attr> {
    names.map_values(|k: Seq<char>| (k, value))
}

/// A border: the shorthand, or one attribute per selected side.
pub open spec fn with_border(a: Seq<Attr>, shorthand: Seq<char>, v: Option<String>, sides: Option<String>) -> Seq<Attr> {
    match given(v) {
        Some(x) => a + keyed(attr_names(shorthand, sides_or_all(sides)), escaped(x)),
        None => a,
    }
}

/// MJML's name for an alignment.
pub open spec fn align_name(x: Align) -> Seq<char> {
    match x {
        Align::Left => "left"@,
        Align::Center => "center"@,
        Align::Right => "right"@,
    }
}

pub open spec fn with_align(a: Seq<Attr>, align: Option<Align>) -> Seq<Attr> {
    match align {
        Some(x) => a.push(("align"@, align_name(x))),
        None => a,
    }
}

/// A background image: rewritten like any image source, or the refusal.
pub open spec fn with_bg_url(a: Seq<Attr>, url: Option<String>, t: Template, mode: EmitMode) -> Result<Seq<Attr>, Seq<char>> {
    match given(url) {
        Some(x) => match rewritten(x, t.base_url@, mode) {
            Ok(u) => Ok(a.push(("background-url"@, escaped(u)))),
            Err(e) => Err(e),
        },
        None => Ok(a),
    }
}

fn add_attr(attrs: &mut Vec<(&'static str, String)>, key: &'static str, value: String)
    ensures
        attr_view(final(attrs)@) == attr_view(old(attrs)@).push((key@, value@)),
{
    attrs.push((key, value));
    assert(attr_view(attrs@) =~= attr_view(old(attrs)@).push((key@, value@)));
}

fn push_opt(attrs: &mut Vec<(&'static str, String)>, key: &'static str, value: &Option<String>)
    ensures
        attr_view(final(attrs)@) == with_opt(attr_view(old(attrs)@), key@, *value),
{
    if let Some(v) = given_value(value) {
        add_attr(attrs, key, xml_escape_attr(v.as_str()));
    }
}

fn push_padding(attrs: &mut Vec<(&'static str, String)>, key: &'static str, value: &Option<String>)
    ensures
        attr_view(final(attrs)@) == with_padding(attr_view(old(attrs)@), key@, *value),
{
    if let Some(v) = given_value(value) {
        if let Ok(out) = normalize_padding(v.as_str()) {
            add_attr(attrs, key, xml_escape_attr(out.as_str()));
        }
    }
}

fn push_unit(attrs: &mut Vec<(&'static str, String)>, key: &'static str, value: &Option<String>)
    ensures
        attr_view(final(attrs)@) == with_unit(attr_view(old(attrs)@), key@, *value),
{
    if let Some(v) = given_value(value) {
        let out = match normalize_padding(v.as_str()) {
            Ok(n) => n,
            Err(_) => match normalize_unit(v.as_str()) {
                Ok(n) => n,
                Err(_) => v,
            },
        };
        add_attr(attrs, key, xml_escape_attr(out.as_str()));
    }
}

fn push_border(
    attrs: &mut Vec<(&'static str, String)>,
    shorthand: &'static str,
    value: &Option<String>,
    sides: &Option<String>,
)
    ensures
        attr_view(final(attrs)@) == with_border(attr_view(old(attrs)@), shorthand@, *value, *sides),
{
    if let Some(v) = given_value(value) {
        let escaped_value = xml_escape_attr(v.as_str());
        let side_text = match sides {
            Some(s) => owned(s.as_str()),
            None => String::new(),
        };
        let parsed = match Sides::from_storage(side_text.as_str()) {
            Ok(s) => s,
            Err(_) => Sides::all(),
        };
        let keys = mjml_attrs(shorthand, parsed);
        let ghost start = attr_view(attrs@);
        let ghost names = attr_names(shorthand@, sides_or_all(*sides));
        let mut i: usize = 0;
        while i < keys.len()
            invariant
                i <= keys.len(),
                str_views(keys@) == names,
                attr_view(attrs@) == start + keyed(names.take(i as int), escaped_value@),
            decreases keys.len() - i,
        {
            add_attr(attrs, keys[i], owned(escaped_value.as_str()));
            proof {
                assert(keyed(names.take(i + 1), escaped_value@) =~= keyed(names.take(i as int), escaped_value@).push((keys@[i as int]@, escaped_value@)));
            }
            i += 1;
        }
        assert(names.take(keys.len() as int) =~= names);
    }
}

fn push_align(attrs: &mut Vec<(&'static str, String)>, align: Option<Align>)
    ensures
        attr_view(final(attrs)@) == with_align(attr_view(old(attrs)@), align),
{
    if let Some(a) = align {
        let name = match a {
            Align::Left => "left",
            Align::Center => "center",
            Align::Right => "right",
        };
        add_attr(attrs, "align", owned(name));
    }
}

fn push_bg_url(attrs: &mut Vec<(&'static str, String)>, url: &Option<String>, t: &Template, mode: &EmitMode) -> (r: Result<(), String>)
    ensures
        match with_bg_url(attr_view(old(attrs)@), *url, *t, *mode) {
            Ok(a) => r is Ok && attr_view(final(attrs)@) == a,
            Err(e) => r matches Err(x) && x@ == e,
        },
{
    if let Some(u) = given_value(url) {
        let out = rewrite_src(u.as_str(), t, mode)?;
        add_attr(attrs, "background-url", xml_escape_attr(out.as_str()));
    }
    Ok(())
}


// ---------------------------------------------------------------------------
// Text content: a small allowlist of inline tags, everything else escaped
// ---------------------------------------------------------------------------

/// The inline tags that text content may carry.
pub open spec fn allowed_tag(n: Seq<char>) -> bool {
    n == "br"@ || n == "a"@ || n == "b"@ || n == "strong"@ || n == "em"@ || n == "span"@ || n
        == "u"@
}

pub open spec fn is_alpha(c: char) -> bool {
    ('a' <= c && c <= 'z') || ('A' <= c && c <= 'Z')
}

/// Where a tag name ends (white space or the end); `None` when a character
/// before that is not an ASCII letter.
pub open spec fn name_end(b: Seq<char>, i: int) -> Option<int>
    decreases b.len() - i,
{
    if i < 0 || i >= b.len() {
        Some(b.len() as int)
    } else if is_ws(b[i]) {
        Some(i)
    } else if !is_alpha(b[i]) {
        None
    } else {
        name_end(b, i + 1)
    }
}

pub open spec fn key_char(c: char) -> bool {
    is_alpha(c) || c == '-'
}

pub open spec fn all_key_chars(k: Seq<char>) -> bool {
    forall|i: int| 0 <= i < k.len() ==> key_char(#[trigger] k[i])
}

/// Reads `key="value"` / `key='value'` pairs; each is re-written as
/// ` key="escaped value"` after `acc`. `None` on anything else.
pub open spec fn attr_scan(r: Seq<char>, acc: Seq<char>) -> Option<Seq<char>>
    decreases r.len(),
{
    if r.len() == 0 {
        Some(acc)
    } else {
        match first_of(r, '=', 0) {
            None => None,
            Some(eq) => {
                let key = trim(r.take(eq));
                if key.len() == 0 || !all_key_chars(key) {
                    None
                } else {
                    let r2 = trim_start(r.skip(eq + 1));
                    if r2.len() == 0 || (r2[0] != '"' && r2[0] != '\'') {
                        None
                    } else {
                        let q = r2[0];
                        let r3 = r2.drop_first();
                        match first_of(r3, q, 0) {
                            None => None,
                            Some(end) => {
                                proof {
                                    lemma_first_of(r, '=', 0);
                                    lemma_trim_start_len(r.skip(eq + 1));
                                    lemma_first_of(r3, q, 0);
                                    lemma_trim_start_len(r3.skip(end + 1));
                                }
                                attr_scan(
                                    trim_start(r3.skip(end + 1)),
                                    acc + " "@ + key + "=\""@ + escaped(r3.take(end)) + "\""@,
                                )
                            },
                        }
                    }
                }
            },
        }
    }
}

/// A tag body split into its name and its re-written attributes.
pub open spec fn split_tag(b: Seq<char>) -> Option<(Seq<char>, Seq<char>)> {
    match name_end(b, 0) {
        None => None,
        Some(ne) => {
            let rest = trim(b.skip(ne));
            if rest.len() == 0 {
                Some((b.take(ne), Seq::empty()))
            } else {
                match attr_scan(rest, Seq::empty()) {
                    Some(at) => Some((b.take(ne), at)),
                    None => None,
                }
            }
        },
    }
}

/// Reads `v` from `pos`: text is escaped, allowed tags are re-written in lower
/// case with escaped attributes, and every opened tag must be closed in order.
/// `None` as soon as anything else is met.
pub open spec fn allow_scan(v: Seq<char>, pos: int, stack: Seq<Seq<char>>, out: Seq<char>) -> Option<Seq<char>>
    decreases v.len() - pos,
{
    if pos < 0 || pos >= v.len() {
        if stack.len() == 0 {
            Some(out)
        } else {
            None
        }
    } else if v[pos] == '<' {
        match first_of(v, '>', pos + 1) {
            None => None,
            Some(end) => {
                proof {
                    lemma_first_of(v, '>', pos + 1);
                }
                let inner = v.subrange(pos + 1, end);
                let closing = inner.len() > 0 && inner[0] == '/';
                let body = if closing {
                    inner.drop_first()
                } else {
                    inner
                };
                let te = trim_end(body);
                let self_close = te.len() > 0 && te.last() == '/';
                let nb = trim(strip_all_end(te, '/'));
                if nb.len() == 0 {
                    None
                } else {
                    match split_tag(nb) {
                        None => None,
                        Some((name, at)) => {
                            let nl = lower(name);
                            if !allowed_tag(nl) {
                                None
                            } else if closing {
                                if stack.len() == 0 || stack.last() != nl {
                                    None
                                } else {
                                    allow_scan(v, end + 1, stack.drop_last(), out + "</"@ + nl + ">"@)
                                }
                            } else if self_close || nl == "br"@ {
                                allow_scan(v, end + 1, stack, out + "<"@ + nl + at + " />"@)
                            } else {
                                allow_scan(v, end + 1, stack.push(nl), out + "<"@ + nl + at + ">"@)
                            }
                        },
                    }
                }
            },
        }
    } else {
        proof {
            lemma_first_of(v, '<', pos + 1);
        }
        let next = match first_of(v, '<', pos + 1) {
            Some(k) => k,
            None => v.len() as int,
        };
        allow_scan(v, next, stack, out + escaped(v.subrange(pos, next)))
    }
}

/// What text content becomes in the MJML: the allowlisted rewrite when the
/// whole content passes, else the escaped content.
pub open spec fn text_inner(content: Seq<char>) -> Seq<char> {
    match allow_scan(content, 0, Seq::empty(), Seq::empty()) {
        Some(o) => o,
        None => escaped(content),
    }
}

fn key_chars_ok(key: &Vec<char>) -> (r: bool)
    ensures
        r == all_key_chars(key@),
{
    let mut j: usize = 0;
    while j < key.len()
        invariant
            j <= key.len(),
            forall|i: int| 0 <= i < j ==> key_char(#[trigger] key@[i]),
        decreases key.len() - j,
    {
        let c = key[j];
        if !(('a' <= c && c <= 'z') || ('A' <= c && c <= 'Z') || c == '-') {
            assert(!key_char(key@[j as int]));
            return false;
        }
        j += 1;
    }
    true
}

/// Splits a tag body into its name and re-written attributes.
fn split_name_attrs(b: &Vec<char>) -> (r: Option<(String, String)>)
    ensures
        r matches Some((n, a)) ==> split_tag(b@) == Some((n@, a@)),
        r is None ==> split_tag(b@) is None,
{
    let mut ne: usize = 0;
    while ne < b.len() && !is_ws_char(b[ne])
        invariant
            ne <= b.len(),
            name_end(b@, 0) == name_end(b@, ne as int),
        decreases b.len() - ne,
    {
        let c = b[ne];
        if !(('a' <= c && c <= 'z') || ('A' <= c && c <= 'Z')) {
            return None;
        }
        ne += 1;
    }
    let name = string_of(b, 0, ne);
    assert(name@ =~= b@.take(ne as int));
    let tail = sub_vec(b, ne, b.len());
    assert(tail@ =~= b@.skip(ne as int));
    let (ta, tb) = trim_bounds(&tail);
    let mut r = sub_vec(&tail, ta, tb);
    if r.len() == 0 {
        return Some((name, String::new()));
    }
    let mut acc = String::new();
    while r.len() > 0
        invariant
            name_end(b@, 0) == Some(ne as int),
            trim(b@.skip(ne as int)).len() > 0,
            name@ == b@.take(ne as int),
            attr_scan(trim(b@.skip(ne as int)), Seq::empty()) == attr_scan(r@, acc@),
        decreases r.len(),
    {
        let eq = match first_of_exec(&r, '=', 0) {
            Some(k) => k,
            None => {
                return None;
            },
        };
        proof {
            lemma_first_of(r@, '=', 0);
        }
        let kv = sub_vec(&r, 0, eq);
        let (ka, kb) = trim_bounds(&kv);
        let key = sub_vec(&kv, ka, kb);
        assert(kv@ =~= r@.take(eq as int));
        if key.len() == 0 {
            return None;
        }
        if !key_chars_ok(&key) {
            return None;
        }
        let after = sub_vec(&r, eq + 1, r.len());
        assert(after@ =~= r@.skip(eq + 1));
        let s2 = skip_ws(&after);
        let r2 = sub_vec(&after, s2, after.len());
        assert(r2@ =~= trim_start(r@.skip(eq + 1)));
        if r2.len() == 0 || (r2[0] != '"' && r2[0] != '\'') {
            return None;
        }
        let q = r2[0];
        let r3 = sub_vec(&r2, 1, r2.len());
        assert(r3@ =~= r2@.drop_first());
        let end = match first_of_exec(&r3, q, 0) {
            Some(k) => k,
            None => {
                return None;
            },
        };
        proof {
            lemma_first_of(r3@, q, 0);
            lemma_trim_start_len(r3@.skip(end + 1));
        }
        let val = string_of(&r3, 0, end);
        assert(val@ =~= r3@.take(end as int));
        let keys = string_of(&key, 0, key.len());
        assert(keys@ =~= key@);
        push_str(&mut acc, " ");
        push_str(&mut acc, keys.as_str());
        push_str(&mut acc, "=\"");
        push_str(&mut acc, xml_escape_attr(val.as_str()).as_str());
        push_str(&mut acc, "\"");
        let rest = sub_vec(&r3, end + 1, r3.len());
        assert(rest@ =~= r3@.skip(end + 1));
        let s4 = skip_ws(&rest);
        r = sub_vec(&rest, s4, rest.len());
        assert(r@ =~= trim_start(r3@.skip(end + 1)));
    }
    let at = acc;
    Some((name, at))
}

/// Text content re-written through the tag allowlist, or `None` when it
/// holds anything the allowlist refuses.
fn try_allowlisted(v: &Vec<char>) -> (r: Option<String>)
    ensures
        r matches Some(o) ==> allow_scan(v@, 0, Seq::empty(), Seq::empty()) == Some(o@),
        r is None ==> allow_scan(v@, 0, Seq::empty(), Seq::empty()) is None,
{
    let mut out = String::new();
    let mut pos: usize = 0;
    let mut stack: Vec<String> = Vec::new();
    assert(views(stack@) =~= Seq::<Seq<char>>::empty());
    while pos < v.len()
        invariant
            pos <= v.len(),
            allow_scan(v@, 0, Seq::empty(), Seq::empty()) == allow_scan(v@, pos as int, views(stack@), out@),
        decreases v.len() - pos,
    {
        if v[pos] == '<' {
            let end = match first_of_exec(v, '>', pos + 1) {
                Some(k) => k,
                None => {
                    return None;
                },
            };
            proof {
                lemma_first_of(v@, '>', pos + 1);
            }
            let inner = sub_vec(v, pos + 1, end);
            let closing = inner.len() > 0 && inner[0] == '/';
            let body = if closing {
                sub_vec(&inner, 1, inner.len())
            } else {
                sub_vec(&inner, 0, inner.len())
            };
            assert(closing ==> body@ =~= inner@.drop_first());
            assert(!closing ==> body@ =~= inner@);
            let tl = trim_end_len(&body);
            let te = sub_vec(&body, 0, tl);
            assert(te@ =~= trim_end(body@));
            let self_close = te.len() > 0 && te[te.len() - 1] == '/';
            let sl = strip_end_len(&te, '/');
            let st = sub_vec(&te, 0, sl);
            assert(st@ =~= strip_all_end(te@, '/'));
            let (na, nb_end) = trim_bounds(&st);
            let nb = sub_vec(&st, na, nb_end);
            if nb.len() == 0 {
                return None;
            }
            let (name, at) = match split_name_attrs(&nb) {
                Some(p) => p,
                None => {
                    return None;
                },
            };
            let nl = lower_str(name.as_str());
            let allowed = eq_str(nl.as_str(), "br") || eq_str(nl.as_str(), "a") || eq_str(
                nl.as_str(),
                "b",
            ) || eq_str(nl.as_str(), "strong") || eq_str(nl.as_str(), "em") || eq_str(
                nl.as_str(),
                "span",
            ) || eq_str(nl.as_str(), "u");
            if !allowed {
                return None;
            }
            if closing {
                if stack.len() == 0 {
                    return None;
                }
                let ghost before = stack@;
                let last = stack.pop().unwrap();
                proof {
                    assert(views(stack@) =~= views(before).drop_last());
                    assert(last@ == views(before).last());
                }
                if !eq_str(last.as_str(), nl.as_str()) {
                    return None;
                }
                push_str(&mut out, "</");
                push_str(&mut out, nl.as_str());
                push_str(&mut out, ">");
            } else {
                push_str(&mut out, "<");
                push_str(&mut out, nl.as_str());
                push_str(&mut out, at.as_str());
                if self_close || eq_str(nl.as_str(), "br") {
                    push_str(&mut out, " />");
                } else {
                    push_str(&mut out, ">");
                    let ghost before = stack@;
                    stack.push(nl);
                    assert(views(stack@) =~= views(before).push(nl@));
                }
            }
            pos = end + 1;
        } else {
            proof {
                lemma_first_of(v@, '<', pos + 1);
            }
            let next = match first_of_exec(v, '<', pos + 1) {
                Some(k) => k,
                None => v.len(),
            };
            let chunk = string_of(v, pos, next);
            push_str(&mut out, xml_escape_text(chunk.as_str()).as_str());
            pos = next;
        }
    }
    if stack.len() == 0 {
        Some(out)
    } else {
        None
    }
}

/// Text content for the MJML: the allowlisted rewrite, or all of it escaped.
pub fn emit_text_inner(content: &str) -> (r: String)
    ensures
        r@ == text_inner(content@),
{
    let v = chars_of(content);
    match try_allowlisted(&v) {
        Some(o) => o,
        None => xml_escape_text(content),
    }
}


// ---------------------------------------------------------------------------
// What each element writes
// ---------------------------------------------------------------------------

/// Steps applied to the items of `xs` in order; the first refusal stops.
pub open spec fn fold_steps<A>(o: Out, xs: Seq<A>, f: spec_fn(Out, A) -> Result<Out, Seq<char>>) -> Result<Out, Seq<char>>
    decreases xs.len(),
{
    if xs.len() == 0 {
        Ok(o)
    } else {
        match f(o, xs[0]) {
            Ok(o2) => fold_steps(o2, xs.drop_first(), f),
            Err(e) => Err(e),
        }
    }
}

pub proof fn lemma_fold_step<A>(o: Out, xs: Seq<A>, i: int, f: spec_fn(Out, A) -> Result<Out, Seq<char>>)
    requires
        0 <= i < xs.len(),
    ensures
        fold_steps(o, xs.skip(i), f) == match f(o, xs[i]) {
            Ok(o2) => fold_steps(o2, xs.skip(i + 1), f),
            Err(e) => Err(e),
        },
{
    assert(xs.skip(i).drop_first() =~= xs.skip(i + 1));
}

/// Closes `tag` after a step that succeeded.
pub open spec fn then_close(r: Result<Out, Seq<char>>, tag: Seq<char>) -> Result<Out, Seq<char>> {
    match r {
        Ok(o) => Ok(op_close(o, tag)),
        Err(e) => Err(e),
    }
}

/// Raw content between an opening and a closing tag.
pub open spec fn op_wrap_raw(o: Out, tag: Seq<char>, a: Seq<Attr>, body: Seq<char>) -> Out {
    op_close(op_raw(op_open_attrs(o, tag, a), body), tag)
}

pub open spec fn text_attrs(n: MjText) -> Seq<Attr> {
    let a = with_align(Seq::empty(), n.align);
    let a = with_opt(a, "font-size"@, n.font_size);
    let a = with_opt(a, "font-family"@, n.font_family);
    let a = with_opt(a, "font-weight"@, n.font_weight);
    let a = with_opt(a, "font-style"@, n.font_style);
    let a = with_opt(a, "line-height"@, n.line_height);
    let a = with_opt(a, "color"@, n.color);
    let a = with_padding(a, "padding"@, n.padding);
    let a = with_opt(a, "letter-spacing"@, n.letter_spacing);
    let a = with_opt(a, "text-decoration"@, n.text_decoration);
    let a = with_opt(a, "text-transform"@, n.text_transform);
    let a = with_opt(a, "height"@, n.height);
    with_opt(a, "css-class"@, n.css_class)
}

pub open spec fn text_out(o: Out, n: MjText) -> Out {
    op_wrap_raw(o, "mj-text"@, text_attrs(n), text_inner(n.content@))
}

pub open spec fn button_attrs(n: MjButton) -> Seq<Attr> {
    let a = seq![("href"@, escaped(n.href@))];
    let a = with_opt(a, "background-color"@, n.background_color);
    let a = with_opt(a, "color"@, n.color);
    let a = with_align(a, n.align);
    let a = with_opt(a, "font-family"@, n.font_family);
    let a = with_opt(a, "font-size"@, n.font_size);
    let a = with_opt(a, "font-weight"@, n.font_weight);
    let a = with_opt(a, "font-style"@, n.font_style);
    let a = with_border(a, "border"@, n.border, n.border_sides);
    let a = with_unit(a, "border-radius"@, n.border_radius);
    let a = with_padding(a, "inner-padding"@, n.inner_padding);
    let a = with_opt(a, "width"@, n.width);
    let a = with_opt(a, "height"@, n.height);
    let a = with_opt(a, "target"@, n.target);
    let a = with_padding(a, "padding"@, n.padding);
    let a = with_opt(a, "letter-spacing"@, n.letter_spacing);
    let a = with_opt(a, "line-height"@, n.line_height);
    let a = with_opt(a, "text-decoration"@, n.text_decoration);
    let a = with_opt(a, "text-transform"@, n.text_transform);
    let a = with_opt(a, "rel"@, n.rel);
    let a = with_opt(a, "title"@, n.title);
    with_opt(a, "css-class"@, n.css_class)
}

pub open spec fn button_out(o: Out, n: MjButton) -> Out {
    op_wrap_raw(o, "mj-button"@, button_attrs(n), escaped(n.content@))
}

/// An optional link, trimmed and escaped, when it is set.
pub open spec fn with_href(a: Seq<Attr>, href: Option<String>) -> Seq<Attr> {
    match given(href) {
        Some(x) => a.push(("href"@, escaped(x))),
        None => a,
    }
}

pub open spec fn image_attrs(src: Seq<char>, n: MjImage) -> Seq<Attr> {
    let a = seq![("src"@, escaped(src)), ("alt"@, escaped(n.alt@))];
    let a = with_href(a, n.href);
    let a = with_opt(a, "width"@, n.width);
    let a = with_opt(a, "height"@, n.height);
    let a = with_align(a, n.align);
    let a = if n.fluid_on_mobile {
        a.push(("fluid-on-mobile"@, "true"@))
    } else {
        a
    };
    let a = with_border(a, "border"@, n.border, n.border_sides);
    let a = with_unit(a, "border-radius"@, n.border_radius);
    let a = with_opt(a, "title"@, n.title);
    let a = with_padding(a, "padding"@, n.padding);
    let a = with_opt(a, "target"@, n.target);
    let a = with_opt(a, "rel"@, n.rel);
    with_opt(a, "css-class"@, n.css_class)
}

pub open spec fn image_out(o: Out, t: Template, mode: EmitMode, n: MjImage) -> Result<Out, Seq<char>> {
    match rewritten(n.src@, t.base_url@, mode) {
        Ok(src) => Ok(op_self_close(o, "mj-image"@, image_attrs(src, n))),
        Err(e) => Err(e),
    }
}

pub open spec fn divider_attrs(n: MjDivider) -> Seq<Attr> {
    let a = with_opt(Seq::empty(), "border-color"@, n.border_color);
    let a = with_opt(a, "border-width"@, n.border_width);
    let a = with_opt(a, "border-style"@, n.border_style);
    let a = with_opt(a, "width"@, n.width);
    let a = with_align(a, n.align);
    let a = with_padding(a, "padding"@, n.padding);
    with_opt(a, "css-class"@, n.css_class)
}

pub open spec fn spacer_attrs(n: MjSpacer) -> Seq<Attr> {
    let a = seq![("height"@, escaped(n.height@))];
    let a = with_padding(a, "padding"@, n.padding);
    with_opt(a, "css-class"@, n.css_class)
}

/// MJML's built-in network name; X is still `twitter` there.
pub open spec fn network_name(n: SocialNetwork) -> Seq<char> {
    match n {
        SocialNetwork::Facebook => "facebook"@,
        SocialNetwork::Instagram => "instagram"@,
        SocialNetwork::Linkedin => "linkedin"@,
        SocialNetwork::X => "twitter"@,
        SocialNetwork::Github => "github"@,
        SocialNetwork::Web => "web"@,
        SocialNetwork::Youtube => "youtube"@,
        SocialNetwork::Pinterest => "pinterest"@,
        SocialNetwork::Google => "google"@,
        SocialNetwork::Tumblr => "tumblr"@,
        SocialNetwork::Snapchat => "snapchat"@,
        SocialNetwork::Vimeo => "vimeo"@,
        SocialNetwork::Medium => "medium"@,
        SocialNetwork::Soundcloud => "soundcloud"@,
        SocialNetwork::Dribbble => "dribbble"@,
        SocialNetwork::Xing => "xing"@,
    }
}

pub open spec fn social_element_attrs(el: MjSocialElement) -> Seq<Attr> {
    let a = seq![("name"@, network_name(el.name)), ("href"@, escaped(el.href@))];
    let a = match given(el.src) {
        Some(x) => a.push(("src"@, escaped(x))),
        None => a,
    };
    let a = with_opt(a, "background-color"@, el.background_color);
    let a = with_padding(a, "padding"@, el.padding);
    let a = with_opt(a, "icon-size"@, el.icon_size);
    let a = with_opt(a, "alt"@, el.alt);
    with_opt(a, "css-class"@, el.css_class)
}

pub open spec fn social_element_step() -> spec_fn(Out, MjSocialElement) -> Result<Out, Seq<char>> {
    |o: Out, el: MjSocialElement| Ok(op_self_close(o, "mj-social-element"@, social_element_attrs(el)))
}

pub open spec fn social_attrs(n: MjSocial) -> Seq<Attr> {
    let a = seq![
        ("mode"@, match n.mode {
            SocialMode::Horizontal => "horizontal"@,
            SocialMode::Vertical => "vertical"@,
        }),
    ];
    let a = with_align(a, n.align);
    let a = if trim(n.icon_size@).len() == 0 {
        a
    } else {
        a.push(("icon-size"@, escaped(n.icon_size@)))
    };
    let a = with_unit(a, "border-radius"@, n.border_radius);
    let a = with_padding(a, "padding"@, n.padding);
    let a = with_padding(a, "icon-padding"@, n.icon_padding);
    let a = with_padding(a, "inner-padding"@, n.inner_padding);
    let a = with_opt(a, "font-size"@, n.font_size);
    let a = with_opt(a, "color"@, n.color);
    with_opt(a, "css-class"@, n.css_class)
}

pub open spec fn social_out(o: Out, n: MjSocial) -> Result<Out, Seq<char>> {
    then_close(
        fold_steps(op_open_attrs(o, "mj-social"@, social_attrs(n)), n.elements@, social_element_step()),
        "mj-social"@,
    )
}

pub open spec fn table_attrs(n: MjTable) -> Seq<Attr> {
    let a = with_opt(Seq::empty(), "font-size"@, n.font_size);
    let a = with_opt(a, "font-family"@, n.font_family);
    let a = with_opt(a, "line-height"@, n.line_height);
    let a = with_opt(a, "color"@, n.color);
    let a = with_align(a, n.align);
    let a = with_opt(a, "width"@, n.width);
    let a = with_opt(a, "border"@, n.border);
    let a = with_padding(a, "padding"@, n.padding);
    let a = with_opt(a, "cellpadding"@, n.cellpadding);
    let a = with_opt(a, "cellspacing"@, n.cellspacing);
    let a = with_opt(a, "role"@, n.role);
    with_opt(a, "css-class"@, n.css_class)
}

/// Table rows are written as given (trimmed) unless they hold an MJML closer.
pub open spec fn table_inner(content: Seq<char>) -> Seq<char> {
    if crate::text::contains_ci(content, "</mj-"@) {
        escaped(content)
    } else {
        trim(content)
    }
}

pub open spec fn table_out(o: Out, n: MjTable) -> Out {
    op_wrap_raw(o, "mj-table"@, table_attrs(n), table_inner(n.content@))
}

pub open spec fn navbar_attrs(n: MjNavbar) -> Seq<Attr> {
    let a: Seq<Attr> = if n.hamburger {
        seq![("hamburger"@, "hamburger"@)]
    } else {
        Seq::empty()
    };
    let a = with_opt(a, "ico-color"@, n.ico_color);
    let a = with_opt(a, "base-url"@, n.base_url);
    let a = with_align(a, n.align);
    let a = with_padding(a, "padding"@, n.padding);
    let a = if n.hamburger {
        let a = with_opt(a, "ico-align"@, n.ico_align);
        let a = with_opt(a, "ico-font-size"@, n.ico_font_size);
        let a = with_padding(a, "ico-padding"@, n.ico_padding);
        let a = with_opt(a, "ico-open"@, n.ico_open);
        with_opt(a, "ico-close"@, n.ico_close)
    } else {
        a
    };
    with_opt(a, "css-class"@, n.css_class)
}

pub open spec fn navbar_link_attrs(n: MjNavbarLink) -> Seq<Attr> {
    let a = seq![("href"@, escaped(n.href@))];
    let a = with_opt(a, "color"@, n.color);
    let a = with_opt(a, "font-family"@, n.font_family);
    let a = with_opt(a, "font-size"@, n.font_size);
    let a = with_opt(a, "font-weight"@, n.font_weight);
    let a = with_opt(a, "text-decoration"@, n.text_decoration);
    let a = with_opt(a, "text-transform"@, n.text_transform);
    let a = with_padding(a, "padding"@, n.padding);
    with_opt(a, "css-class"@, n.css_class)
}

pub open spec fn navbar_link_step() -> spec_fn(Out, MjNavbarLink) -> Result<Out, Seq<char>> {
    |o: Out, l: MjNavbarLink| Ok(op_wrap_raw(o, "mj-navbar-link"@, navbar_link_attrs(l), escaped(l.content@)))
}

pub open spec fn navbar_out(o: Out, n: MjNavbar) -> Result<Out, Seq<char>> {
    then_close(
        fold_steps(op_open_attrs(o, "mj-navbar"@, navbar_attrs(n)), n.links@, navbar_link_step()),
        "mj-navbar"@,
    )
}

pub open spec fn accordion_attrs(n: MjAccordion) -> Seq<Attr> {
    let a = with_opt(Seq::empty(), "border"@, n.border);
    let a = with_padding(a, "padding"@, n.padding);
    let a = with_opt(a, "font-family"@, n.font_family);
    let a = with_opt(a, "icon-position"@, n.icon_position);
    let a = with_opt(a, "icon-width"@, n.icon_width);
    let a = with_opt(a, "icon-height"@, n.icon_height);
    let a = with_opt(a, "icon-wrapped-url"@, n.icon_wrapped_url);
    let a = with_opt(a, "icon-unwrapped-url"@, n.icon_unwrapped_url);
    with_opt(a, "css-class"@, n.css_class)
}

pub open spec fn accordion_element_out(o: Out, n: MjAccordionElement) -> Out {
    let a = with_opt(Seq::empty(), "background-color"@, n.background_color);
    let a = with_opt(a, "css-class"@, n.css_class);
    let o = op_open_attrs(o, "mj-accordion-element"@, a);
    let o = op_close(op_raw(op_open(o, "mj-accordion-title"@), escaped(n.title@)), "mj-accordion-title"@);
    let o = op_close(op_raw(op_open(o, "mj-accordion-text"@), text_inner(n.content@)), "mj-accordion-text"@);
    op_close(o, "mj-accordion-element"@)
}

pub open spec fn accordion_element_step() -> spec_fn(Out, MjAccordionElement) -> Result<Out, Seq<char>> {
    |o: Out, el: MjAccordionElement| Ok(accordion_element_out(o, el))
}

pub open spec fn accordion_out(o: Out, n: MjAccordion) -> Result<Out, Seq<char>> {
    then_close(
        fold_steps(op_open_attrs(o, "mj-accordion"@, accordion_attrs(n)), n.elements@, accordion_element_step()),
        "mj-accordion"@,
    )
}

pub open spec fn thumbnails_name(x: Thumbnails) -> Seq<char> {
    match x {
        Thumbnails::Visible => "visible"@,
        Thumbnails::Hidden => "hidden"@,
        Thumbnails::Supported => "supported"@,
    }
}

pub open spec fn carousel_attrs(n: MjCarousel) -> Seq<Attr> {
    let a = with_align(Seq::empty(), n.align);
    let a = with_padding(a, "padding"@, n.padding);
    let a = with_unit(a, "border-radius"@, n.border_radius);
    let a = with_unit(a, "tb-border-radius"@, n.tb_border_radius);
    let a = with_opt(a, "icon-width"@, n.icon_width);
    let a = with_opt(a, "css-class"@, n.css_class);
    a.push(("thumbnails"@, thumbnails_name(n.thumbnails)))
}

pub open spec fn carousel_image_out(o: Out, t: Template, mode: EmitMode, n: MjCarouselImage) -> Result<Out, Seq<char>> {
    match rewritten(n.src@, t.base_url@, mode) {
        Err(e) => Err(e),
        Ok(src) => {
            let a = seq![("src"@, escaped(src)), ("alt"@, escaped(n.alt@))];
            let a = with_href(a, n.href);
            let thumb: Result<Seq<Attr>, Seq<char>> = match given(n.thumbnails_src) {
                Some(x) => match rewritten(x, t.base_url@, mode) {
                    Ok(u) => Ok(a.push(("thumbnails-src"@, escaped(u)))),
                    Err(e) => Err(e),
                },
                None => Ok(a),
            };
            match thumb {
                Err(e) => Err(e),
                Ok(a) => {
                    let a = with_unit(a, "border-radius"@, n.border_radius);
                    let a = with_opt(a, "css-class"@, n.css_class);
                    Ok(op_self_close(o, "mj-carousel-image"@, a))
                },
            }
        },
    }
}

pub open spec fn carousel_image_step(t: Template, mode: EmitMode) -> spec_fn(Out, MjCarouselImage) -> Result<Out, Seq<char>> {
    |o: Out, img: MjCarouselImage| carousel_image_out(o, t, mode, img)
}

pub open spec fn carousel_out(o: Out, t: Template, mode: EmitMode, n: MjCarousel) -> Result<Out, Seq<char>> {
    then_close(
        fold_steps(op_open_attrs(o, "mj-carousel"@, carousel_attrs(n)), n.images@, carousel_image_step(t, mode)),
        "mj-carousel"@,
    )
}

/// What one content component writes.
#[verifier::opaque]
pub open spec fn child_out(o: Out, t: Template, mode: EmitMode, c: ColumnChild) -> Result<Out, Seq<char>> {
    match c {
        ColumnChild::MjText(n) => Ok(text_out(o, n)),
        ColumnChild::MjButton(n) => Ok(button_out(o, n)),
        ColumnChild::MjImage(n) => image_out(o, t, mode, n),
        ColumnChild::MjDivider(n) => Ok(op_self_close(o, "mj-divider"@, divider_attrs(n))),
        ColumnChild::MjSpacer(n) => Ok(op_self_close(o, "mj-spacer"@, spacer_attrs(n))),
        ColumnChild::MjSocial(n) => social_out(o, n),
        ColumnChild::MjTable(n) => Ok(table_out(o, n)),
        ColumnChild::MjNavbar(n) => navbar_out(o, n),
        ColumnChild::MjAccordion(n) => accordion_out(o, n),
        ColumnChild::MjCarousel(n) => carousel_out(o, t, mode, n),
    }
}

pub open spec fn child_step(t: Template, mode: EmitMode) -> spec_fn(Out, ColumnChild) -> Result<Out, Seq<char>> {
    |o: Out, c: ColumnChild| child_out(o, t, mode, c)
}

pub open spec fn column_attrs(c: MjColumn) -> Seq<Attr> {
    let a = with_opt(Seq::empty(), "width"@, c.width);
    let a = with_opt(a, "background-color"@, c.background_color);
    let a = with_padding(a, "padding"@, c.padding);
    let a = with_opt(a, "inner-background-color"@, c.inner_background_color);
    let a = with_border(a, "border"@, c.border, c.border_sides);
    let a = with_unit(a, "border-radius"@, c.border_radius);
    let a = with_border(a, "inner-border"@, c.inner_border, c.inner_border_sides);
    let a = with_unit(a, "inner-border-radius"@, c.inner_border_radius);
    let a = with_opt(a, "vertical-align"@, c.vertical_align);
    with_opt(a, "css-class"@, c.css_class)
}

pub open spec fn column_out(o: Out, t: Template, mode: EmitMode, c: MjColumn) -> Result<Out, Seq<char>> {
    then_close(
        fold_steps(op_open_attrs(o, "mj-column"@, column_attrs(c)), c.components@, child_step(t, mode)),
        "mj-column"@,
    )
}

pub open spec fn group_attrs(g: MjGroup) -> Seq<Attr> {
    let a = with_opt(Seq::empty(), "width"@, g.width);
    let a = with_opt(a, "background-color"@, g.background_color);
    let a = with_opt(a, "direction"@, g.direction);
    let a = with_opt(a, "vertical-align"@, g.vertical_align);
    with_opt(a, "css-class"@, g.css_class)
}

pub open spec fn column_step(t: Template, mode: EmitMode) -> spec_fn(Out, MjColumn) -> Result<Out, Seq<char>> {
    |o: Out, c: MjColumn| column_out(o, t, mode, c)
}

pub open spec fn group_out(o: Out, t: Template, mode: EmitMode, g: MjGroup) -> Result<Out, Seq<char>> {
    then_close(
        fold_steps(op_open_attrs(o, "mj-group"@, group_attrs(g)), g.children@, column_step(t, mode)),
        "mj-group"@,
    )
}

#[verifier::opaque]
pub open spec fn section_child_out(o: Out, t: Template, mode: EmitMode, c: SectionChild) -> Result<Out, Seq<char>> {
    match c {
        SectionChild::MjColumn(col) => column_out(o, t, mode, col),
        SectionChild::MjGroup(g) => group_out(o, t, mode, g),
    }
}

pub open spec fn section_child_step(t: Template, mode: EmitMode) -> spec_fn(Out, SectionChild) -> Result<Out, Seq<char>> {
    |o: Out, c: SectionChild| section_child_out(o, t, mode, c)
}

pub open spec fn section_attrs(t: Template, mode: EmitMode, s: MjSection) -> Result<Seq<Attr>, Seq<char>> {
    let a = with_opt(Seq::empty(), "background-color"@, s.background_color);
    let a = with_padding(a, "padding"@, s.padding);
    let a = with_border(a, "border"@, s.border, s.border_sides);
    let a = with_unit(a, "border-radius"@, s.border_radius);
    let a = with_unit(a, "gutter"@, s.gutter);
    match with_bg_url(a, s.background_url, t, mode) {
        Err(e) => Err(e),
        Ok(a) => {
            let a = with_opt(a, "background-size"@, s.background_size);
            let a = with_opt(a, "background-repeat"@, s.background_repeat);
            let a = with_opt(a, "direction"@, s.direction);
            let a = if s.full_width {
                a.push(("full-width"@, "full-width"@))
            } else {
                a
            };
            Ok(with_opt(a, "css-class"@, s.css_class))
        },
    }
}

pub open spec fn section_out(o: Out, t: Template, mode: EmitMode, s: MjSection) -> Result<Out, Seq<char>> {
    match section_attrs(t, mode, s) {
        Err(e) => Err(e),
        Ok(a) => then_close(
            fold_steps(op_open_attrs(o, "mj-section"@, a), s.children@, section_child_step(t, mode)),
            "mj-section"@,
        ),
    }
}

pub open spec fn wrapper_attrs(t: Template, mode: EmitMode, s: MjWrapper) -> Result<Seq<Attr>, Seq<char>> {
    let a = with_opt(Seq::empty(), "background-color"@, s.background_color);
    let a = with_padding(a, "padding"@, s.padding);
    let a = with_border(a, "border"@, s.border, s.border_sides);
    let a = with_unit(a, "border-radius"@, s.border_radius);
    match with_bg_url(a, s.background_url, t, mode) {
        Err(e) => Err(e),
        Ok(a) => {
            let a = with_opt(a, "background-size"@, s.background_size);
            let a = with_opt(a, "background-repeat"@, s.background_repeat);
            let a = with_unit(a, "gap"@, s.gap);
            let a = if s.full_width {
                a.push(("full-width"@, "full-width"@))
            } else {
                a
            };
            Ok(with_opt(a, "css-class"@, s.css_class))
        },
    }
}

pub open spec fn hero_attrs(t: Template, mode: EmitMode, h: MjHero) -> Result<Seq<Attr>, Seq<char>> {
    let a = seq![
        ("mode"@, match h.mode {
            HeroMode::FluidHeight => "fluid-height"@,
            HeroMode::FixedHeight => "fixed-height"@,
        }),
    ];
    match with_bg_url(a, h.background_url, t, mode) {
        Err(e) => Err(e),
        Ok(a) => {
            let a = with_opt(a, "background-color"@, h.background_color);
            let a = with_opt(a, "background-height"@, h.background_height);
            let a = with_opt(a, "background-width"@, h.background_width);
            let a = with_opt(a, "background-position"@, h.background_position);
            let a = with_opt(a, "width"@, h.width);
            let a = with_opt(a, "height"@, h.height);
            let a = with_padding(a, "padding"@, h.padding);
            let a = with_padding(a, "inner-padding"@, h.inner_padding);
            let a = with_unit(a, "border-radius"@, h.border_radius);
            let a = with_opt(a, "vertical-align"@, h.vertical_align);
            Ok(with_opt(a, "css-class"@, h.css_class))
        },
    }
}

pub open spec fn hero_out(o: Out, t: Template, mode: EmitMode, h: MjHero) -> Result<Out, Seq<char>> {
    match hero_attrs(t, mode, h) {
        Err(e) => Err(e),
        Ok(a) => then_close(
            fold_steps(op_open_attrs(o, "mj-hero"@, a), h.children@, child_step(t, mode)),
            "mj-hero"@,
        ),
    }
}

/// A section holding one column (the shape of the block nodes).
pub open spec fn open_block(o: Out, a: Seq<Attr>) -> Out {
    op_open(op_open_attrs(o, "mj-section"@, a), "mj-column"@)
}

pub open spec fn close_block(o: Out) -> Out {
    op_close(op_close(o, "mj-column"@), "mj-section"@)
}

pub open spec fn header_out(o: Out, t: Template, mode: EmitMode, h: EmailHeader) -> Result<Out, Seq<char>> {
    let o = open_block(o, with_opt(Seq::empty(), "background-color"@, h.background_color));
    if trim(h.logo_src@).len() == 0 {
        Ok(close_block(o))
    } else {
        match rewritten(h.logo_src@, t.base_url@, mode) {
            Err(e) => Err(e),
            Ok(src) => {
                let img = seq![
                    ("src"@, escaped(src)),
                    ("alt"@, escaped(h.logo_alt@)),
                    ("width"@, escaped(h.logo_width@)),
                    ("align"@, "left"@),
                ];
                Ok(close_block(op_self_close(o, "mj-image"@, with_href(img, h.logo_href))))
            },
        }
    }
}

/// A text line with fixed attributes, written only when `body` is not blank.
pub open spec fn opt_text(o: Out, tag: Seq<char>, a: Seq<Attr>, body: Seq<char>) -> Out {
    if trim(body).len() == 0 {
        o
    } else {
        op_wrap_raw(o, tag, a, escaped(body))
    }
}

pub open spec fn hero_block_out(o: Out, t: Template, mode: EmitMode, h: EmailHero) -> Result<Out, Seq<char>> {
    let o = open_block(o, with_opt(Seq::empty(), "background-color"@, h.background_color));
    let img: Result<Out, Seq<char>> = if trim(h.image_src@).len() == 0 {
        Ok(o)
    } else {
        match rewritten(h.image_src@, t.base_url@, mode) {
            Err(e) => Err(e),
            Ok(src) => Ok(
                op_self_close(o, "mj-image"@, seq![("src"@, escaped(src)), ("alt"@, escaped(h.image_alt@))]),
            ),
        }
    };
    match img {
        Err(e) => Err(e),
        Ok(o) => {
            let o = opt_text(
                o,
                "mj-text"@,
                seq![("font-size"@, "28px"@), ("font-weight"@, "bold"@)],
                h.heading@,
            );
            let o = opt_text(o, "mj-text"@, seq![("color"@, escaped(t.brand.text_color@))], h.subheading@);
            Ok(close_block(o))
        },
    }
}

pub open spec fn cta_out(o: Out, c: EmailCta) -> Out {
    let o = open_block(o, with_opt(Seq::empty(), "background-color"@, c.background_color));
    let o = opt_text(o, "mj-text"@, seq![("font-size"@, "22px"@), ("font-weight"@, "bold"@)], c.heading@);
    let o = opt_text(o, "mj-text"@, Seq::empty(), c.copy@);
    let o = opt_text(o, "mj-button"@, seq![("href"@, escaped(c.button_href@))], c.button_label@);
    close_block(o)
}

pub open spec fn article_text_col(o: Out, a: EmailArticle, width: Seq<char>) -> Out {
    let o = op_open_attrs(o, "mj-column"@, seq![("width"@, width)]);
    let o = opt_text(o, "mj-text"@, seq![("font-size"@, "20px"@), ("font-weight"@, "bold"@)], a.title@);
    let o = opt_text(o, "mj-text"@, Seq::empty(), a.copy@);
    let o = opt_text(o, "mj-button"@, seq![("href"@, escaped(a.link_href@))], a.link_label@);
    op_close(o, "mj-column"@)
}

pub open spec fn article_image(o: Out, src: Seq<char>, a: EmailArticle) -> Out {
    op_self_close(o, "mj-image"@, seq![("src"@, escaped(src)), ("alt"@, escaped(a.image_alt@))])
}

pub open spec fn article_out(o: Out, t: Template, mode: EmitMode, a: EmailArticle) -> Result<Out, Seq<char>> {
    let o = op_open(o, "mj-section"@);
    if trim(a.image_src@).len() == 0 {
        Ok(op_close(article_text_col(o, a, "100%"@), "mj-section"@))
    } else {
        match rewritten(a.image_src@, t.base_url@, mode) {
            Err(e) => Err(e),
            Ok(src) => {
                let o = match a.image_position {
                    ImagePosition::Top => article_text_col(
                        op_close(article_image(op_open(o, "mj-column"@), src, a), "mj-column"@),
                        a,
                        "100%"@,
                    ),
                    ImagePosition::Left => article_text_col(
                        op_close(
                            article_image(op_open_attrs(o, "mj-column"@, seq![("width"@, "50%"@)]), src, a),
                            "mj-column"@,
                        ),
                        a,
                        "50%"@,
                    ),
                    ImagePosition::Right => op_close(
                        article_image(
                            op_open_attrs(article_text_col(o, a, "50%"@), "mj-column"@, seq![("width"@, "50%"@)]),
                            src,
                            a,
                        ),
                        "mj-column"@,
                    ),
                };
                Ok(op_close(o, "mj-section"@))
            },
        }
    }
}

/// The escapes of the lines that are not blank, in order.
pub open spec fn nonblank_escaped(ls: Seq<Seq<char>>) -> Seq<Seq<char>>
    decreases ls.len(),
{
    if ls.len() == 0 {
        Seq::empty()
    } else if trim(ls.last()).len() == 0 {
        nonblank_escaped(ls.drop_last())
    } else {
        nonblank_escaped(ls.drop_last()).push(escaped(ls.last()))
    }
}

/// The footer's text lines: company, address lines, unsubscribe link and
/// copyright, each only when set.
pub open spec fn footer_lines(f: EmailFooter) -> Seq<Seq<char>> {
    let ls: Seq<Seq<char>> = if trim(f.company_name@).len() == 0 {
        Seq::empty()
    } else {
        seq![escaped(f.company_name@)]
    };
    let ls = ls + nonblank_escaped(crate::text::views(f.address_lines@));
    let ls = if trim(f.unsubscribe_href@).len() == 0 {
        ls
    } else {
        let label = if trim(f.unsubscribe_label@).len() == 0 {
            "Unsubscribe"@
        } else {
            trim(f.unsubscribe_label@)
        };
        ls.push("<a href=\""@ + escaped(f.unsubscribe_href@) + "\">"@ + escaped(label) + "</a>"@)
    };
    match given(f.copyright) {
        Some(x) => ls.push(escaped(x)),
        None => ls,
    }
}

pub open spec fn footer_out(o: Out, t: Template, f: EmailFooter) -> Out {
    let o = op_open(op_open(o, "mj-section"@), "mj-column"@);
    let o = op_self_close(o, "mj-divider"@, Seq::empty());
    let o = if f.social.len() == 0 {
        o
    } else {
        match then_close(
            fold_steps(
                op_open_attrs(o, "mj-social"@, seq![("mode"@, "horizontal"@)]),
                f.social@,
                social_element_step(),
            ),
            "mj-social"@,
        ) {
            Ok(o2) => o2,
            Err(_) => o,
        }
    };
    let ls = footer_lines(f);
    let o = if ls.len() == 0 {
        o
    } else {
        op_wrap_raw(
            o,
            "mj-text"@,
            seq![("font-size"@, "12px"@), ("align"@, "center"@), ("color"@, escaped(t.brand.text_color@))],
            crate::text::join(ls, "<br />"@),
        )
    };
    close_block(o)
}

/// What one body node writes.
pub open spec fn node_out(o: Out, t: Template, mode: EmitMode, n: BodyNode) -> Result<Out, Seq<char>>
    decreases n, 0nat,
{
    match n {
        BodyNode::MjSection(s) => section_out(o, t, mode, s),
        BodyNode::MjWrapper(w) => match wrapper_attrs(t, mode, w) {
            Err(e) => Err(e),
            Ok(a) => then_close(
                nodes_out(op_open_attrs(o, "mj-wrapper"@, a), t, mode, w.children@),
                "mj-wrapper"@,
            ),
        },
        BodyNode::MjHero(h) => hero_out(o, t, mode, h),
        BodyNode::EmailHeader(h) => header_out(o, t, mode, h),
        BodyNode::EmailHero(h) => hero_block_out(o, t, mode, h),
        BodyNode::EmailCta(c) => Ok(cta_out(o, c)),
        BodyNode::EmailArticle(a) => article_out(o, t, mode, a),
        BodyNode::EmailFooter(f) => Ok(footer_out(o, t, f)),
    }
}

/// What a sequence of body nodes writes, in order.
pub open spec fn nodes_out(o: Out, t: Template, mode: EmitMode, ns: Seq<BodyNode>) -> Result<Out, Seq<char>>
    decreases ns, 1nat,
{
    if ns.len() == 0 {
        Ok(o)
    } else {
        match node_out(o, t, mode, ns[0]) {
            Ok(o2) => nodes_out(o2, t, mode, ns.subrange(1, ns.len() as int)),
            Err(e) => Err(e),
        }
    }
}


// ---------------------------------------------------------------------------
// Emitters
// ---------------------------------------------------------------------------

fn no_attrs() -> (r: Vec<(&'static str, String)>)
    ensures
        attr_view(r@) == Seq::<Attr>::empty(),
{
    let r: Vec<(&'static str, String)> = Vec::new();
    assert(attr_view(r@) =~= Seq::<Attr>::empty());
    r
}

fn one_attr(key: &'static str, value: String) -> (r: Vec<(&'static str, String)>)
    ensures
        attr_view(r@) == seq![(key@, value@)],
{
    let mut r = no_attrs();
    add_attr(&mut r, key, value);
    assert(attr_view(r@) =~= seq![(key@, value@)]);
    r
}

fn two_attrs(k1: &'static str, v1: String, k2: &'static str, v2: String) -> (r: Vec<(&'static str, String)>)
    ensures
        attr_view(r@) == seq![(k1@, v1@), (k2@, v2@)],
{
    let mut r = one_attr(k1, v1);
    add_attr(&mut r, k2, v2);
    assert(attr_view(r@) =~= seq![(k1@, v1@), (k2@, v2@)]);
    r
}

fn emit_text(w: &mut Writer, n: &MjText)
    ensures
        final(w)@ == text_out(old(w)@, *n),
{
    let mut a = no_attrs();
    push_align(&mut a, n.align);
    push_opt(&mut a, "font-size", &n.font_size);
    push_opt(&mut a, "font-family", &n.font_family);
    push_opt(&mut a, "font-weight", &n.font_weight);
    push_opt(&mut a, "font-style", &n.font_style);
    push_opt(&mut a, "line-height", &n.line_height);
    push_opt(&mut a, "color", &n.color);
    push_padding(&mut a, "padding", &n.padding);
    push_opt(&mut a, "letter-spacing", &n.letter_spacing);
    push_opt(&mut a, "text-decoration", &n.text_decoration);
    push_opt(&mut a, "text-transform", &n.text_transform);
    push_opt(&mut a, "height", &n.height);
    push_opt(&mut a, "css-class", &n.css_class);
    w.open_attrs("mj-text", &a);
    w.raw_indented(emit_text_inner(n.content.as_str()).as_str());
    w.close("mj-text");
}

fn emit_button(w: &mut Writer, n: &MjButton)
    ensures
        final(w)@ == button_out(old(w)@, *n),
{
    let mut a = one_attr("href", xml_escape_attr(n.href.as_str()));
    push_opt(&mut a, "background-color", &n.background_color);
    push_opt(&mut a, "color", &n.color);
    push_align(&mut a, n.align);
    push_opt(&mut a, "font-family", &n.font_family);
    push_opt(&mut a, "font-size", &n.font_size);
    push_opt(&mut a, "font-weight", &n.font_weight);
    push_opt(&mut a, "font-style", &n.font_style);
    push_border(&mut a, "border", &n.border, &n.border_sides);
    push_unit(&mut a, "border-radius", &n.border_radius);
    push_padding(&mut a, "inner-padding", &n.inner_padding);
    push_opt(&mut a, "width", &n.width);
    push_opt(&mut a, "height", &n.height);
    push_opt(&mut a, "target", &n.target);
    push_padding(&mut a, "padding", &n.padding);
    push_opt(&mut a, "letter-spacing", &n.letter_spacing);
    push_opt(&mut a, "line-height", &n.line_height);
    push_opt(&mut a, "text-decoration", &n.text_decoration);
    push_opt(&mut a, "text-transform", &n.text_transform);
    push_opt(&mut a, "rel", &n.rel);
    push_opt(&mut a, "title", &n.title);
    push_opt(&mut a, "css-class", &n.css_class);
    w.open_attrs("mj-button", &a);
    w.raw_indented(xml_escape_text(n.content.as_str()).as_str());
    w.close("mj-button");
}

fn push_href(a: &mut Vec<(&'static str, String)>, href: &Option<String>)
    ensures
        attr_view(final(a)@) == with_href(attr_view(old(a)@), *href),
{
    if let Some(h) = given_value(href) {
        add_attr(a, "href", xml_escape_attr(h.as_str()));
    }
}

fn emit_image(w: &mut Writer, t: &Template, mode: &EmitMode, n: &MjImage) -> (r: Result<(), String>)
    ensures
        outcome(r, final(w)@) == image_out(old(w)@, *t, *mode, *n),
{
    let src = rewrite_src(n.src.as_str(), t, mode)?;
    let mut a = two_attrs("src", xml_escape_attr(src.as_str()), "alt", xml_escape_attr(n.alt.as_str()));
    push_href(&mut a, &n.href);
    push_opt(&mut a, "width", &n.width);
    push_opt(&mut a, "height", &n.height);
    push_align(&mut a, n.align);
    if n.fluid_on_mobile {
        add_attr(&mut a, "fluid-on-mobile", owned("true"));
    }
    push_border(&mut a, "border", &n.border, &n.border_sides);
    push_unit(&mut a, "border-radius", &n.border_radius);
    push_opt(&mut a, "title", &n.title);
    push_padding(&mut a, "padding", &n.padding);
    push_opt(&mut a, "target", &n.target);
    push_opt(&mut a, "rel", &n.rel);
    push_opt(&mut a, "css-class", &n.css_class);
    w.self_close("mj-image", &a);
    Ok(())
}

fn emit_divider(w: &mut Writer, n: &MjDivider)
    ensures
        final(w)@ == op_self_close(old(w)@, "mj-divider"@, divider_attrs(*n)),
{
    let mut a = no_attrs();
    push_opt(&mut a, "border-color", &n.border_color);
    push_opt(&mut a, "border-width", &n.border_width);
    push_opt(&mut a, "border-style", &n.border_style);
    push_opt(&mut a, "width", &n.width);
    push_align(&mut a, n.align);
    push_padding(&mut a, "padding", &n.padding);
    push_opt(&mut a, "css-class", &n.css_class);
    w.self_close("mj-divider", &a);
}

fn emit_spacer(w: &mut Writer, n: &MjSpacer)
    ensures
        final(w)@ == op_self_close(old(w)@, "mj-spacer"@, spacer_attrs(*n)),
{
    let mut a = one_attr("height", xml_escape_attr(n.height.as_str()));
    push_padding(&mut a, "padding", &n.padding);
    push_opt(&mut a, "css-class", &n.css_class);
    w.self_close("mj-spacer", &a);
}

/// MJML's built-in name for a network.
fn social_network_mjml(n: SocialNetwork) -> (r: &'static str)
    ensures
        r@ == network_name(n),
{
    match n {
        SocialNetwork::Facebook => "facebook",
        SocialNetwork::Instagram => "instagram",
        SocialNetwork::Linkedin => "linkedin",
        SocialNetwork::X => "twitter",
        SocialNetwork::Github => "github",
        SocialNetwork::Web => "web",
        SocialNetwork::Youtube => "youtube",
        SocialNetwork::Pinterest => "pinterest",
        SocialNetwork::Google => "google",
        SocialNetwork::Tumblr => "tumblr",
        SocialNetwork::Snapchat => "snapchat",
        SocialNetwork::Vimeo => "vimeo",
        SocialNetwork::Medium => "medium",
        SocialNetwork::Soundcloud => "soundcloud",
        SocialNetwork::Dribbble => "dribbble",
        SocialNetwork::Xing => "xing",
    }
}

fn emit_social_element(w: &mut Writer, el: &MjSocialElement)
    ensures
        final(w)@ == op_self_close(old(w)@, "mj-social-element"@, social_element_attrs(*el)),
{
    let mut a = two_attrs("name", owned(social_network_mjml(el.name)), "href", xml_escape_attr(el.href.as_str()));
    if let Some(src) = given_value(&el.src) {
        add_attr(&mut a, "src", xml_escape_attr(src.as_str()));
    }
    push_opt(&mut a, "background-color", &el.background_color);
    push_padding(&mut a, "padding", &el.padding);
    push_opt(&mut a, "icon-size", &el.icon_size);
    push_opt(&mut a, "alt", &el.alt);
    push_opt(&mut a, "css-class", &el.css_class);
    w.self_close("mj-social-element", &a);
}

fn emit_social_elements(w: &mut Writer, els: &Vec<MjSocialElement>)
    ensures
        fold_steps(old(w)@, els@, social_element_step()) == Ok::<Out, Seq<char>>(final(w)@),
{
    let ghost start = w@;
    let mut i: usize = 0;
    assert(els@.skip(0) =~= els@);
    while i < els.len()
        invariant
            i <= els.len(),
            fold_steps(start, els@, social_element_step()) == fold_steps(w@, els@.skip(i as int), social_element_step()),
        decreases els.len() - i,
    {
        proof {
            lemma_fold_step(w@, els@, i as int, social_element_step());
        }
        emit_social_element(w, &els[i]);
        i += 1;
    }
    assert(els@.skip(els.len() as int) =~= Seq::<MjSocialElement>::empty());
}

fn emit_social(w: &mut Writer, n: &MjSocial)
    ensures
        social_out(old(w)@, *n) == Ok::<Out, Seq<char>>(final(w)@),
{
    let mode_name = match n.mode {
        SocialMode::Horizontal => "horizontal",
        SocialMode::Vertical => "vertical",
    };
    let mut a = one_attr("mode", owned(mode_name));
    push_align(&mut a, n.align);
    if !blank(n.icon_size.as_str()) {
        add_attr(&mut a, "icon-size", xml_escape_attr(n.icon_size.as_str()));
    }
    push_unit(&mut a, "border-radius", &n.border_radius);
    push_padding(&mut a, "padding", &n.padding);
    push_padding(&mut a, "icon-padding", &n.icon_padding);
    push_padding(&mut a, "inner-padding", &n.inner_padding);
    push_opt(&mut a, "font-size", &n.font_size);
    push_opt(&mut a, "color", &n.color);
    push_opt(&mut a, "css-class", &n.css_class);
    w.open_attrs("mj-social", &a);
    emit_social_elements(w, &n.elements);
    w.close("mj-social");
}

fn emit_navbar_link(w: &mut Writer, n: &MjNavbarLink)
    ensures
        final(w)@ == op_wrap_raw(old(w)@, "mj-navbar-link"@, navbar_link_attrs(*n), escaped(n.content@)),
{
    let mut a = one_attr("href", xml_escape_attr(n.href.as_str()));
    push_opt(&mut a, "color", &n.color);
    push_opt(&mut a, "font-family", &n.font_family);
    push_opt(&mut a, "font-size", &n.font_size);
    push_opt(&mut a, "font-weight", &n.font_weight);
    push_opt(&mut a, "text-decoration", &n.text_decoration);
    push_opt(&mut a, "text-transform", &n.text_transform);
    push_padding(&mut a, "padding", &n.padding);
    push_opt(&mut a, "css-class", &n.css_class);
    w.open_attrs("mj-navbar-link", &a);
    w.raw_indented(xml_escape_text(n.content.as_str()).as_str());
    w.close("mj-navbar-link");
}

fn emit_navbar(w: &mut Writer, n: &MjNavbar)
    ensures
        navbar_out(old(w)@, *n) == Ok::<Out, Seq<char>>(final(w)@),
{
    let mut a = no_attrs();
    if n.hamburger {
        add_attr(&mut a, "hamburger", owned("hamburger"));
    }
    proof {
        if n.hamburger {
            assert(attr_view(a@) =~= seq![("hamburger"@, "hamburger"@)]);
        }
    }
    push_opt(&mut a, "ico-color", &n.ico_color);
    push_opt(&mut a, "base-url", &n.base_url);
    push_align(&mut a, n.align);
    push_padding(&mut a, "padding", &n.padding);
    if n.hamburger {
        push_opt(&mut a, "ico-align", &n.ico_align);
        push_opt(&mut a, "ico-font-size", &n.ico_font_size);
        push_padding(&mut a, "ico-padding", &n.ico_padding);
        push_opt(&mut a, "ico-open", &n.ico_open);
        push_opt(&mut a, "ico-close", &n.ico_close);
    }
    push_opt(&mut a, "css-class", &n.css_class);
    w.open_attrs("mj-navbar", &a);
    let ghost start = w@;
    let mut i: usize = 0;
    assert(n.links@.skip(0) =~= n.links@);
    while i < n.links.len()
        invariant
            i <= n.links.len(),
            fold_steps(start, n.links@, navbar_link_step()) == fold_steps(w@, n.links@.skip(i as int), navbar_link_step()),
        decreases n.links.len() - i,
    {
        proof {
            lemma_fold_step(w@, n.links@, i as int, navbar_link_step());
        }
        emit_navbar_link(w, &n.links[i]);
        i += 1;
    }
    assert(n.links@.skip(n.links.len() as int) =~= Seq::<MjNavbarLink>::empty());
    w.close("mj-navbar");
}

fn emit_accordion_element(w: &mut Writer, n: &MjAccordionElement)
    ensures
        final(w)@ == accordion_element_out(old(w)@, *n),
{
    let mut a = no_attrs();
    push_opt(&mut a, "background-color", &n.background_color);
    push_opt(&mut a, "css-class", &n.css_class);
    w.open_attrs("mj-accordion-element", &a);
    w.open("mj-accordion-title");
    w.raw_indented(xml_escape_text(n.title.as_str()).as_str());
    w.close("mj-accordion-title");
    w.open("mj-accordion-text");
    w.raw_indented(emit_text_inner(n.content.as_str()).as_str());
    w.close("mj-accordion-text");
    w.close("mj-accordion-element");
}

fn emit_accordion(w: &mut Writer, n: &MjAccordion)
    ensures
        accordion_out(old(w)@, *n) == Ok::<Out, Seq<char>>(final(w)@),
{
    let mut a = no_attrs();
    push_opt(&mut a, "border", &n.border);
    push_padding(&mut a, "padding", &n.padding);
    push_opt(&mut a, "font-family", &n.font_family);
    push_opt(&mut a, "icon-position", &n.icon_position);
    push_opt(&mut a, "icon-width", &n.icon_width);
    push_opt(&mut a, "icon-height", &n.icon_height);
    push_opt(&mut a, "icon-wrapped-url", &n.icon_wrapped_url);
    push_opt(&mut a, "icon-unwrapped-url", &n.icon_unwrapped_url);
    push_opt(&mut a, "css-class", &n.css_class);
    w.open_attrs("mj-accordion", &a);
    let ghost start = w@;
    let mut i: usize = 0;
    assert(n.elements@.skip(0) =~= n.elements@);
    while i < n.elements.len()
        invariant
            i <= n.elements.len(),
            fold_steps(start, n.elements@, accordion_element_step()) == fold_steps(
                w@,
                n.elements@.skip(i as int),
                accordion_element_step(),
            ),
        decreases n.elements.len() - i,
    {
        proof {
            lemma_fold_step(w@, n.elements@, i as int, accordion_element_step());
        }
        emit_accordion_element(w, &n.elements[i]);
        i += 1;
    }
    assert(n.elements@.skip(n.elements.len() as int) =~= Seq::<MjAccordionElement>::empty());
    w.close("mj-accordion");
}

fn emit_carousel_image(w: &mut Writer, t: &Template, mode: &EmitMode, n: &MjCarouselImage) -> (r: Result<(), String>)
    ensures
        outcome(r, final(w)@) == carousel_image_out(old(w)@, *t, *mode, *n),
{
    let src = rewrite_src(n.src.as_str(), t, mode)?;
    let mut a = two_attrs("src", xml_escape_attr(src.as_str()), "alt", xml_escape_attr(n.alt.as_str()));
    push_href(&mut a, &n.href);
    if let Some(thumb) = given_value(&n.thumbnails_src) {
        let u = rewrite_src(thumb.as_str(), t, mode)?;
        add_attr(&mut a, "thumbnails-src", xml_escape_attr(u.as_str()));
    }
    push_unit(&mut a, "border-radius", &n.border_radius);
    push_opt(&mut a, "css-class", &n.css_class);
    w.self_close("mj-carousel-image", &a);
    Ok(())
}

fn emit_carousel(w: &mut Writer, t: &Template, mode: &EmitMode, n: &MjCarousel) -> (r: Result<(), String>)
    ensures
        outcome(r, final(w)@) == carousel_out(old(w)@, *t, *mode, *n),
{
    let mut a = no_attrs();
    push_align(&mut a, n.align);
    push_padding(&mut a, "padding", &n.padding);
    push_unit(&mut a, "border-radius", &n.border_radius);
    push_unit(&mut a, "tb-border-radius", &n.tb_border_radius);
    push_opt(&mut a, "icon-width", &n.icon_width);
    push_opt(&mut a, "css-class", &n.css_class);
    let thumbs = match n.thumbnails {
        Thumbnails::Visible => "visible",
        Thumbnails::Hidden => "hidden",
        Thumbnails::Supported => "supported",
    };
    add_attr(&mut a, "thumbnails", owned(thumbs));
    w.open_attrs("mj-carousel", &a);
    let ghost start = w@;
    let ghost f = carousel_image_step(*t, *mode);
    let mut i: usize = 0;
    assert(n.images@.skip(0) =~= n.images@);
    while i < n.images.len()
        invariant
            i <= n.images.len(),
            start == op_open_attrs(old(w)@, "mj-carousel"@, carousel_attrs(*n)),
            f == carousel_image_step(*t, *mode),
            fold_steps(start, n.images@, f) == fold_steps(w@, n.images@.skip(i as int), f),
        decreases n.images.len() - i,
    {
        proof {
            lemma_fold_step(w@, n.images@, i as int, f);
        }
        emit_carousel_image(w, t, mode, &n.images[i])?;
        i += 1;
    }
    assert(n.images@.skip(n.images.len() as int) =~= Seq::<MjCarouselImage>::empty());
    w.close("mj-carousel");
    Ok(())
}

fn emit_table(w: &mut Writer, n: &MjTable)
    ensures
        final(w)@ == table_out(old(w)@, *n),
{
    let mut a = no_attrs();
    push_opt(&mut a, "font-size", &n.font_size);
    push_opt(&mut a, "font-family", &n.font_family);
    push_opt(&mut a, "line-height", &n.line_height);
    push_opt(&mut a, "color", &n.color);
    push_align(&mut a, n.align);
    push_opt(&mut a, "width", &n.width);
    push_opt(&mut a, "border", &n.border);
    push_padding(&mut a, "padding", &n.padding);
    push_opt(&mut a, "cellpadding", &n.cellpadding);
    push_opt(&mut a, "cellspacing", &n.cellspacing);
    push_opt(&mut a, "role", &n.role);
    push_opt(&mut a, "css-class", &n.css_class);
    w.open_attrs("mj-table", &a);
    let inner = if crate::text::contains_ci_str(n.content.as_str(), "</mj-") {
        xml_escape_text(n.content.as_str())
    } else {
        trim_str(n.content.as_str())
    };
    w.raw_indented(inner.as_str());
    w.close("mj-table");
}

fn emit_column_child(w: &mut Writer, t: &Template, mode: &EmitMode, c: &ColumnChild) -> (r: Result<(), String>)
    ensures
        outcome(r, final(w)@) == child_out(old(w)@, *t, *mode, *c),
{
    reveal(child_out);
    match c {
        ColumnChild::MjText(n) => {
            emit_text(w, n);
            Ok(())
        },
        ColumnChild::MjButton(n) => {
            emit_button(w, n);
            Ok(())
        },
        ColumnChild::MjImage(n) => emit_image(w, t, mode, n),
        ColumnChild::MjDivider(n) => {
            emit_divider(w, n);
            Ok(())
        },
        ColumnChild::MjSpacer(n) => {
            emit_spacer(w, n);
            Ok(())
        },
        ColumnChild::MjSocial(n) => {
            emit_social(w, n);
            Ok(())
        },
        ColumnChild::MjTable(n) => {
            emit_table(w, n);
            Ok(())
        },
        ColumnChild::MjNavbar(n) => {
            emit_navbar(w, n);
            Ok(())
        },
        ColumnChild::MjAccordion(n) => {
            emit_accordion(w, n);
            Ok(())
        },
        ColumnChild::MjCarousel(n) => emit_carousel(w, t, mode, n),
    }
}

fn emit_column_children(w: &mut Writer, t: &Template, mode: &EmitMode, cs: &Vec<ColumnChild>) -> (r: Result<(), String>)
    ensures
        outcome(r, final(w)@) == fold_steps(old(w)@, cs@, child_step(*t, *mode)),
{
    let ghost start = w@;
    let mut i: usize = 0;
    assert(cs@.skip(0) =~= cs@);
    while i < cs.len()
        invariant
            i <= cs.len(),
            start == old(w)@,
            fold_steps(start, cs@, child_step(*t, *mode)) == fold_steps(w@, cs@.skip(i as int), child_step(*t, *mode)),
        decreases cs.len() - i,
    {
        proof {
            lemma_fold_step(w@, cs@, i as int, child_step(*t, *mode));
        }
        emit_column_child(w, t, mode, &cs[i])?;
        i += 1;
    }
    assert(cs@.skip(cs.len() as int) =~= Seq::<ColumnChild>::empty());
    Ok(())
}


fn emit_column(w: &mut Writer, t: &Template, mode: &EmitMode, c: &MjColumn) -> (r: Result<(), String>)
    ensures
        outcome(r, final(w)@) == column_out(old(w)@, *t, *mode, *c),
{
    let mut a = no_attrs();
    push_opt(&mut a, "width", &c.width);
    push_opt(&mut a, "background-color", &c.background_color);
    push_padding(&mut a, "padding", &c.padding);
    push_opt(&mut a, "inner-background-color", &c.inner_background_color);
    push_border(&mut a, "border", &c.border, &c.border_sides);
    push_unit(&mut a, "border-radius", &c.border_radius);
    push_border(&mut a, "inner-border", &c.inner_border, &c.inner_border_sides);
    push_unit(&mut a, "inner-border-radius", &c.inner_border_radius);
    push_opt(&mut a, "vertical-align", &c.vertical_align);
    push_opt(&mut a, "css-class", &c.css_class);
    w.open_attrs("mj-column", &a);
    emit_column_children(w, t, mode, &c.components)?;
    w.close("mj-column");
    Ok(())
}

fn emit_group(w: &mut Writer, t: &Template, mode: &EmitMode, g: &MjGroup) -> (r: Result<(), String>)
    ensures
        outcome(r, final(w)@) == group_out(old(w)@, *t, *mode, *g),
{
    let mut a = no_attrs();
    push_opt(&mut a, "width", &g.width);
    push_opt(&mut a, "background-color", &g.background_color);
    push_opt(&mut a, "direction", &g.direction);
    push_opt(&mut a, "vertical-align", &g.vertical_align);
    push_opt(&mut a, "css-class", &g.css_class);
    w.open_attrs("mj-group", &a);
    let ghost start = w@;
    let mut i: usize = 0;
    assert(g.children@.skip(0) =~= g.children@);
    while i < g.children.len()
        invariant
            i <= g.children.len(),
            start == op_open_attrs(old(w)@, "mj-group"@, group_attrs(*g)),
            fold_steps(start, g.children@, column_step(*t, *mode)) == fold_steps(
                w@,
                g.children@.skip(i as int),
                column_step(*t, *mode),
            ),
        decreases g.children.len() - i,
    {
        proof {
            lemma_fold_step(w@, g.children@, i as int, column_step(*t, *mode));
        }
        emit_column(w, t, mode, &g.children[i])?;
        i += 1;
    }
    assert(g.children@.skip(g.children.len() as int) =~= Seq::<MjColumn>::empty());
    w.close("mj-group");
    Ok(())
}

fn emit_section_child(w: &mut Writer, t: &Template, mode: &EmitMode, c: &SectionChild) -> (r: Result<(), String>)
    ensures
        outcome(r, final(w)@) == section_child_out(old(w)@, *t, *mode, *c),
{
    reveal(section_child_out);
    match c {
        SectionChild::MjColumn(col) => emit_column(w, t, mode, col),
        SectionChild::MjGroup(g) => emit_group(w, t, mode, g),
    }
}

fn emit_section(w: &mut Writer, t: &Template, mode: &EmitMode, s: &MjSection) -> (r: Result<(), String>)
    ensures
        outcome(r, final(w)@) == section_out(old(w)@, *t, *mode, *s),
{
    let mut a = no_attrs();
    push_opt(&mut a, "background-color", &s.background_color);
    push_padding(&mut a, "padding", &s.padding);
    push_border(&mut a, "border", &s.border, &s.border_sides);
    push_unit(&mut a, "border-radius", &s.border_radius);
    push_unit(&mut a, "gutter", &s.gutter);
    push_bg_url(&mut a, &s.background_url, t, mode)?;
    push_opt(&mut a, "background-size", &s.background_size);
    push_opt(&mut a, "background-repeat", &s.background_repeat);
    push_opt(&mut a, "direction", &s.direction);
    if s.full_width {
        add_attr(&mut a, "full-width", owned("full-width"));
    }
    push_opt(&mut a, "css-class", &s.css_class);
    let ghost attrs = attr_view(a@);
    assert(section_attrs(*t, *mode, *s) == Ok::<Seq<Attr>, Seq<char>>(attrs));
    w.open_attrs("mj-section", &a);
    let ghost start = w@;
    let mut i: usize = 0;
    assert(s.children@.skip(0) =~= s.children@);
    while i < s.children.len()
        invariant
            i <= s.children.len(),
            section_attrs(*t, *mode, *s) == Ok::<Seq<Attr>, Seq<char>>(attrs),
            start == op_open_attrs(old(w)@, "mj-section"@, attrs),
            fold_steps(start, s.children@, section_child_step(*t, *mode)) == fold_steps(
                w@,
                s.children@.skip(i as int),
                section_child_step(*t, *mode),
            ),
        decreases s.children.len() - i,
    {
        proof {
            lemma_fold_step(w@, s.children@, i as int, section_child_step(*t, *mode));
        }
        emit_section_child(w, t, mode, &s.children[i])?;
        i += 1;
    }
    assert(s.children@.skip(s.children.len() as int) =~= Seq::<SectionChild>::empty());
    w.close("mj-section");
    Ok(())
}

fn emit_hero(w: &mut Writer, t: &Template, mode: &EmitMode, h: &MjHero) -> (r: Result<(), String>)
    ensures
        outcome(r, final(w)@) == hero_out(old(w)@, *t, *mode, *h),
{
    let mode_name = match h.mode {
        HeroMode::FluidHeight => "fluid-height",
        HeroMode::FixedHeight => "fixed-height",
    };
    let mut a = one_attr("mode", owned(mode_name));
    push_bg_url(&mut a, &h.background_url, t, mode)?;
    push_opt(&mut a, "background-color", &h.background_color);
    push_opt(&mut a, "background-height", &h.background_height);
    push_opt(&mut a, "background-width", &h.background_width);
    push_opt(&mut a, "background-position", &h.background_position);
    push_opt(&mut a, "width", &h.width);
    push_opt(&mut a, "height", &h.height);
    push_padding(&mut a, "padding", &h.padding);
    push_padding(&mut a, "inner-padding", &h.inner_padding);
    push_unit(&mut a, "border-radius", &h.border_radius);
    push_opt(&mut a, "vertical-align", &h.vertical_align);
    push_opt(&mut a, "css-class", &h.css_class);
    let ghost attrs = attr_view(a@);
    assert(hero_attrs(*t, *mode, *h) == Ok::<Seq<Attr>, Seq<char>>(attrs));
    w.open_attrs("mj-hero", &a);
    emit_column_children(w, t, mode, &h.children)?;
    w.close("mj-hero");
    Ok(())
}

fn open_block_exec(w: &mut Writer, background: &Option<String>)
    ensures
        final(w)@ == open_block(old(w)@, with_opt(Seq::empty(), "background-color"@, *background)),
{
    let mut a = no_attrs();
    push_opt(&mut a, "background-color", background);
    w.open_attrs("mj-section", &a);
    w.open("mj-column");
}

fn close_block_exec(w: &mut Writer)
    ensures
        final(w)@ == close_block(old(w)@),
{
    w.close("mj-column");
    w.close("mj-section");
}

fn emit_email_header(w: &mut Writer, t: &Template, mode: &EmitMode, h: &EmailHeader) -> (r: Result<(), String>)
    ensures
        outcome(r, final(w)@) == header_out(old(w)@, *t, *mode, *h),
{
    open_block_exec(w, &h.background_color);
    if !blank(h.logo_src.as_str()) {
        let src = rewrite_src(h.logo_src.as_str(), t, mode)?;
        let mut img = two_attrs("src", xml_escape_attr(src.as_str()), "alt", xml_escape_attr(h.logo_alt.as_str()));
        add_attr(&mut img, "width", xml_escape_attr(h.logo_width.as_str()));
        add_attr(&mut img, "align", owned("left"));
        assert(attr_view(img@) =~= seq![
            ("src"@, escaped(src@)),
            ("alt"@, escaped(h.logo_alt@)),
            ("width"@, escaped(h.logo_width@)),
            ("align"@, "left"@),
        ]);
        push_href(&mut img, &h.logo_href);
        w.self_close("mj-image", &img);
    }
    close_block_exec(w);
    Ok(())
}

fn text_block(w: &mut Writer, tag: &str, a: &Vec<(&'static str, String)>, body: &str)
    ensures
        final(w)@ == opt_text(old(w)@, tag@, attr_view(a@), body@),
{
    if !blank(body) {
        w.open_attrs(tag, a);
        w.raw_indented(xml_escape_text(body).as_str());
        w.close(tag);
    }
}

fn bold_attrs(size: &'static str) -> (r: Vec<(&'static str, String)>)
    ensures
        attr_view(r@) == seq![("font-size"@, size@), ("font-weight"@, "bold"@)],
{
    two_attrs("font-size", owned(size), "font-weight", owned("bold"))
}

fn emit_email_hero(w: &mut Writer, t: &Template, mode: &EmitMode, h: &EmailHero) -> (r: Result<(), String>)
    ensures
        outcome(r, final(w)@) == hero_block_out(old(w)@, *t, *mode, *h),
{
    open_block_exec(w, &h.background_color);
    if !blank(h.image_src.as_str()) {
        let src = rewrite_src(h.image_src.as_str(), t, mode)?;
        let img = two_attrs("src", xml_escape_attr(src.as_str()), "alt", xml_escape_attr(h.image_alt.as_str()));
        w.self_close("mj-image", &img);
    }
    text_block(w, "mj-text", &bold_attrs("28px"), h.heading.as_str());
    text_block(w, "mj-text", &one_attr("color", xml_escape_attr(t.brand.text_color.as_str())), h.subheading.as_str());
    close_block_exec(w);
    Ok(())
}

fn emit_email_cta(w: &mut Writer, c: &EmailCta)
    ensures
        final(w)@ == cta_out(old(w)@, *c),
{
    open_block_exec(w, &c.background_color);
    text_block(w, "mj-text", &bold_attrs("22px"), c.heading.as_str());
    text_block(w, "mj-text", &no_attrs(), c.copy.as_str());
    text_block(w, "mj-button", &one_attr("href", xml_escape_attr(c.button_href.as_str())), c.button_label.as_str());
    close_block_exec(w);
}

fn article_text_column(w: &mut Writer, a: &EmailArticle, width: &'static str)
    ensures
        final(w)@ == article_text_col(old(w)@, *a, width@),
{
    w.open_attrs("mj-column", &one_attr("width", owned(width)));
    text_block(w, "mj-text", &bold_attrs("20px"), a.title.as_str());
    text_block(w, "mj-text", &no_attrs(), a.copy.as_str());
    text_block(w, "mj-button", &one_attr("href", xml_escape_attr(a.link_href.as_str())), a.link_label.as_str());
    w.close("mj-column");
}

fn article_image_exec(w: &mut Writer, src: &str, a: &EmailArticle)
    ensures
        final(w)@ == article_image(old(w)@, src@, *a),
{
    w.self_close("mj-image", &two_attrs("src", xml_escape_attr(src), "alt", xml_escape_attr(a.image_alt.as_str())));
}

fn emit_email_article(w: &mut Writer, t: &Template, mode: &EmitMode, a: &EmailArticle) -> (r: Result<(), String>)
    ensures
        outcome(r, final(w)@) == article_out(old(w)@, *t, *mode, *a),
{
    w.open("mj-section");
    if blank(a.image_src.as_str()) {
        article_text_column(w, a, "100%");
    } else {
        let src = rewrite_src(a.image_src.as_str(), t, mode)?;
        match a.image_position {
            ImagePosition::Top => {
                w.open("mj-column");
                article_image_exec(w, src.as_str(), a);
                w.close("mj-column");
                article_text_column(w, a, "100%");
            },
            ImagePosition::Left => {
                w.open_attrs("mj-column", &one_attr("width", owned("50%")));
                article_image_exec(w, src.as_str(), a);
                w.close("mj-column");
                article_text_column(w, a, "50%");
            },
            ImagePosition::Right => {
                article_text_column(w, a, "50%");
                w.open_attrs("mj-column", &one_attr("width", owned("50%")));
                article_image_exec(w, src.as_str(), a);
                w.close("mj-column");
            },
        }
    }
    w.close("mj-section");
    Ok(())
}

fn push_line(ls: &mut Vec<String>, line: String)
    ensures
        views(final(ls)@) == views(old(ls)@).push(line@),
{
    ls.push(line);
    assert(views(ls@) =~= views(old(ls)@).push(line@));
}

fn footer_line_list(f: &EmailFooter) -> (r: Vec<String>)
    ensures
        views(r@) == footer_lines(*f),
{
    let mut ls: Vec<String> = Vec::new();
    assert(views(ls@) =~= Seq::<Seq<char>>::empty());
    if !blank(f.company_name.as_str()) {
        push_line(&mut ls, xml_escape_text(f.company_name.as_str()));
    }
    let ghost head = views(ls@);
    let mut i: usize = 0;
    assert(views(f.address_lines@).take(0) =~= Seq::<Seq<char>>::empty());
    assert(head + nonblank_escaped(Seq::<Seq<char>>::empty()) =~= head);
    while i < f.address_lines.len()
        invariant
            i <= f.address_lines.len(),
            views(ls@) == head + nonblank_escaped(views(f.address_lines@).take(i as int)),
        decreases f.address_lines.len() - i,
    {
        let ghost p = views(f.address_lines@).take(i + 1);
        let ghost before = nonblank_escaped(views(f.address_lines@).take(i as int));
        proof {
            assert(p.drop_last() =~= views(f.address_lines@).take(i as int));
            assert(p.last() == f.address_lines@[i as int]@);
        }
        let line = f.address_lines[i].as_str();
        if !blank(line) {
            push_line(&mut ls, xml_escape_text(line));
            assert(head + before.push(escaped(p.last())) =~= (head + before).push(escaped(p.last())));
        }
        i += 1;
    }
    assert(views(f.address_lines@).take(f.address_lines.len() as int) =~= views(f.address_lines@));
    if !blank(f.unsubscribe_href.as_str()) {
        let label = if blank(f.unsubscribe_label.as_str()) {
            owned("Unsubscribe")
        } else {
            trim_str(f.unsubscribe_label.as_str())
        };
        let mut link = owned("<a href=\"");
        push_str(&mut link, xml_escape_attr(f.unsubscribe_href.as_str()).as_str());
        push_str(&mut link, "\">");
        push_str(&mut link, xml_escape_text(label.as_str()).as_str());
        push_str(&mut link, "</a>");
        push_line(&mut ls, link);
    }
    if let Some(copy) = given_value(&f.copyright) {
        push_line(&mut ls, xml_escape_text(copy.as_str()));
    }
    ls
}

fn emit_email_footer(w: &mut Writer, t: &Template, f: &EmailFooter)
    ensures
        final(w)@ == footer_out(old(w)@, *t, *f),
{
    w.open("mj-section");
    w.open("mj-column");
    w.self_close("mj-divider", &no_attrs());
    let ghost o1 = w@;
    assert(o1 == op_self_close(op_open(op_open(old(w)@, "mj-section"@), "mj-column"@), "mj-divider"@, Seq::empty()));
    if f.social.len() > 0 {
        w.open_attrs("mj-social", &one_attr("mode", owned("horizontal")));
        emit_social_elements(w, &f.social);
        w.close("mj-social");
    }
    let ghost o2 = w@;
    assert(o2 == (if f.social.len() == 0 {
        o1
    } else {
        match then_close(
            fold_steps(
                op_open_attrs(o1, "mj-social"@, seq![("mode"@, "horizontal"@)]),
                f.social@,
                social_element_step(),
            ),
            "mj-social"@,
        ) {
            Ok(o) => o,
            Err(_) => o1,
        }
    }));
    let ls = footer_line_list(f);
    if ls.len() > 0 {
        let mut a = two_attrs("font-size", owned("12px"), "align", owned("center"));
        add_attr(&mut a, "color", xml_escape_attr(t.brand.text_color.as_str()));
        assert(attr_view(a@) =~= seq![("font-size"@, "12px"@), ("align"@, "center"@), ("color"@, escaped(t.brand.text_color@))]);
        w.open_attrs("mj-text", &a);
        w.raw_indented(crate::text::join_exec(&ls, "<br />").as_str());
        w.close("mj-text");
    }
    close_block_exec(w);
}

#[verifier::spinoff_prover]
#[verifier::rlimit(30)]
pub proof fn lemma_nodes_step(o: Out, t: Template, mode: EmitMode, ns: Seq<BodyNode>, i: int)
    requires
        0 <= i < ns.len(),
    ensures
        nodes_out(o, t, mode, ns.skip(i)) == match node_out(o, t, mode, ns[i]) {
            Ok(o2) => nodes_out(o2, t, mode, ns.skip(i + 1)),
            Err(e) => Err(e),
        },
{
    let s = ns.skip(i);
    assert(s[0] == ns[i]);
    assert(s.subrange(1, s.len() as int) =~= ns.skip(i + 1));
}

fn emit_wrapper(w: &mut Writer, t: &Template, mode: &EmitMode, s: &MjWrapper) -> (r: Result<(), String>)
    ensures
        outcome(r, final(w)@) == match wrapper_attrs(*t, *mode, *s) {
            Err(e) => Err(e),
            Ok(a) => then_close(nodes_out(op_open_attrs(old(w)@, "mj-wrapper"@, a), *t, *mode, s.children@), "mj-wrapper"@),
        },
    decreases s, 1nat,
{
    let mut a = no_attrs();
    push_opt(&mut a, "background-color", &s.background_color);
    push_padding(&mut a, "padding", &s.padding);
    push_border(&mut a, "border", &s.border, &s.border_sides);
    push_unit(&mut a, "border-radius", &s.border_radius);
    push_bg_url(&mut a, &s.background_url, t, mode)?;
    push_opt(&mut a, "background-size", &s.background_size);
    push_opt(&mut a, "background-repeat", &s.background_repeat);
    push_unit(&mut a, "gap", &s.gap);
    if s.full_width {
        add_attr(&mut a, "full-width", owned("full-width"));
    }
    push_opt(&mut a, "css-class", &s.css_class);
    let ghost attrs = attr_view(a@);
    assert(wrapper_attrs(*t, *mode, *s) == Ok::<Seq<Attr>, Seq<char>>(attrs));
    w.open_attrs("mj-wrapper", &a);
    emit_body_nodes(w, t, mode, &s.children)?;
    w.close("mj-wrapper");
    Ok(())
}

fn emit_body_nodes(w: &mut Writer, t: &Template, mode: &EmitMode, ns: &Vec<BodyNode>) -> (r: Result<(), String>)
    ensures
        outcome(r, final(w)@) == nodes_out(old(w)@, *t, *mode, ns@),
    decreases ns, 0nat,
{
    let ghost start = w@;
    let mut i: usize = 0;
    assert(ns@.skip(0) =~= ns@);
    while i < ns.len()
        invariant
            i <= ns.len(),
            start == old(w)@,
            nodes_out(start, *t, *mode, ns@) == nodes_out(w@, *t, *mode, ns@.skip(i as int)),
        decreases ns.len() - i,
    {
        proof {
            lemma_nodes_step(w@, *t, *mode, ns@, i as int);
        }
        emit_body_node(w, t, mode, &ns[i])?;
        i += 1;
    }
    assert(ns@.skip(ns.len() as int) =~= Seq::<BodyNode>::empty());
    Ok(())
}

fn emit_body_node(w: &mut Writer, t: &Template, mode: &EmitMode, node: &BodyNode) -> (r: Result<(), String>)
    ensures
        outcome(r, final(w)@) == node_out(old(w)@, *t, *mode, *node),
    decreases node, 2nat,
{
    match node {
        BodyNode::MjSection(s) => emit_section(w, t, mode, s),
        BodyNode::MjWrapper(s) => emit_wrapper(w, t, mode, s),
        BodyNode::MjHero(s) => emit_hero(w, t, mode, s),
        BodyNode::EmailHeader(s) => emit_email_header(w, t, mode, s),
        BodyNode::EmailHero(s) => emit_email_hero(w, t, mode, s),
        BodyNode::EmailCta(s) => {
            emit_email_cta(w, s);
            Ok(())
        },
        BodyNode::EmailArticle(s) => emit_email_article(w, t, mode, s),
        BodyNode::EmailFooter(s) => {
            emit_email_footer(w, t, s);
            Ok(())
        },
    }
}


// ---------------------------------------------------------------------------
// The document
// ---------------------------------------------------------------------------

/// Hides the preheader text in clients that render it.
pub const PREHEADER_CSS: &'static str = ".preheader { display:none !important; visibility:hidden; opacity:0; color:transparent; height:0; width:0; }";

/// The body background: its own colour, else the brand's.
pub open spec fn body_background(t: Template) -> Seq<char> {
    if trim(t.body.background_color@).len() == 0 {
        t.brand.background_color@
    } else {
        t.body.background_color@
    }
}

/// The content width written as pixels.
pub open spec fn width_text(t: Template) -> Seq<char> {
    crate::text::decimal(t.brand.content_width as nat) + "px"@
}

pub open spec fn fonts_out(o: Out, fs: Seq<WebFont>) -> Out
    decreases fs.len(),
{
    if fs.len() == 0 {
        o
    } else {
        op_self_close(
            fonts_out(o, fs.drop_last()),
            "mj-font"@,
            seq![("name"@, escaped(fs.last().name@)), ("href"@, escaped(fs.last().href@))],
        )
    }
}

/// `<mj-attributes>`: the brand defaults for every element kind.
pub open spec fn attributes_out(o: Out, t: Template) -> Out {
    let o = op_open(o, "mj-attributes"@);
    let o = op_self_close(o, "mj-all"@, seq![("font-family"@, escaped(t.brand.font_family@))]);
    let o = op_self_close(
        o,
        "mj-text"@,
        seq![("color"@, escaped(t.brand.text_color@)), ("font-size"@, "16px"@), ("line-height"@, "1.5"@)],
    );
    let o = op_self_close(
        o,
        "mj-button"@,
        seq![
            ("background-color"@, escaped(t.brand.button_background@)),
            ("color"@, escaped(t.brand.button_color@)),
            ("border-radius"@, "4px"@),
            ("inner-padding"@, BRAND_BUTTON_INNER_PADDING@),
            ("font-weight"@, "bold"@),
        ],
    );
    let o = op_self_close(
        o,
        "mj-body"@,
        seq![("background-color"@, escaped(body_background(t))), ("width"@, width_text(t))],
    );
    let o = op_self_close(o, "mj-section"@, seq![("padding"@, "20px 0"@)]);
    let o = op_self_close(o, "mj-image"@, seq![("padding"@, "0"@)]);
    op_close(o, "mj-attributes"@)
}

pub open spec fn raw_each(o: Out, ls: Seq<Seq<char>>) -> Out
    decreases ls.len(),
{
    if ls.len() == 0 {
        o
    } else {
        op_raw(raw_each(o, ls.drop_last()), ls.last())
    }
}

/// The JSON-LD payload in a `<script>` inside `<mj-raw>`.
pub open spec fn json_ld_block(o: Out, payload: Seq<char>) -> Out {
    let o = op_open(o, "mj-raw"@);
    let o = op_raw(o, "<script type=\"application/ld+json\">"@);
    let o = raw_each(o, lines(payload));
    let o = op_raw(o, "</script>"@);
    op_close(o, "mj-raw"@)
}

/// `<mjml>` and `<mj-head>` opened, with title, preview and breakpoint.
pub open spec fn head_start(o: Out, t: Template) -> Out {
    let a = if trim(t.dir@).len() == 0 {
        seq![("lang"@, escaped(t.lang@))]
    } else {
        seq![("lang"@, escaped(t.lang@)), ("dir"@, escaped(t.dir@))]
    };
    let o = op_open(op_open_attrs(o, "mjml"@, a), "mj-head"@);
    let o = op_leaf(o, "mj-title"@, escaped(t.head.title@));
    let o = if trim(t.preheader@).len() == 0 {
        o
    } else {
        op_leaf(o, "mj-preview"@, escaped(t.preheader@))
    };
    op_self_close(o, "mj-breakpoint"@, seq![("width"@, escaped(t.head.breakpoint@))])
}

/// The preheader style and, when set, the author's stylesheet.
pub open spec fn styles_out(o: Out, t: Template) -> Out {
    let o = op_close(op_raw(op_open(o, "mj-style"@), PREHEADER_CSS@), "mj-style"@);
    if trim(t.head.css@).len() == 0 {
        o
    } else {
        let o2 = if t.head.css_inline {
            op_open_attrs(o, "mj-style"@, seq![("inline"@, "inline"@)])
        } else {
            op_open(o, "mj-style"@)
        };
        op_close(op_raw(o2, trim(t.head.css@)), "mj-style"@)
    }
}

/// `<mjml>` opened and the whole `<mj-head>`, or the JSON-LD refusal.
pub open spec fn head_out(o: Out, t: Template) -> Result<Out, Seq<char>> {
    let o = styles_out(attributes_out(fonts_out(head_start(o, t), t.head.fonts@), t), t);
    match json_ld_payload(t.head.json_ld@) {
        Err(e) => Err(e),
        Ok(p) => {
            let o = match p {
                Some(x) => json_ld_block(o, x),
                None => o,
            };
            Ok(op_close(o, "mj-head"@))
        },
    }
}

/// `<mj-body>` opened, with the hidden preheader row when there is one.
#[verifier::opaque]
pub open spec fn body_open(o: Out, t: Template) -> Out {
    let a = seq![("background-color"@, escaped(body_background(t))), ("width"@, width_text(t))];
    let o = op_open_attrs(o, "mj-body"@, with_opt(a, "css-class"@, t.body.css_class));
    if trim(t.preheader@).len() == 0 {
        o
    } else {
        let o = op_open_attrs(o, "mj-section"@, seq![("css-class"@, "preheader"@), ("padding"@, "0"@)]);
        let o = op_leaf(op_open(o, "mj-column"@), "mj-text"@, escaped(t.preheader@));
        op_close(op_close(o, "mj-column"@), "mj-section"@)
    }
}

/// The MJML document for a template, or why it cannot be written.
pub open spec fn mjml_of(t: Template, mode: EmitMode) -> Result<Seq<char>, Seq<char>> {
    match head_out(Out { text: Seq::empty(), depth: 0 }, t) {
        Err(e) => Err(e),
        Ok(o) => match nodes_out(body_open(o, t), t, mode, t.body.nodes@) {
            Err(e) => Err(e),
            Ok(o) => Ok(finished(op_close(op_close(o, "mj-body"@), "mjml"@))),
        },
    }
}

fn width_value(t: &Template) -> (r: String)
    ensures
        r@ == width_text(*t),
{
    let mut s = crate::text::decimal_exec(t.brand.content_width as u64);
    push_str(&mut s, "px");
    s
}

fn body_background_value(t: &Template) -> (r: String)
    ensures
        r@ == body_background(*t),
{
    if blank(t.body.background_color.as_str()) {
        owned(t.brand.background_color.as_str())
    } else {
        owned(t.body.background_color.as_str())
    }
}

fn emit_attributes(w: &mut Writer, t: &Template)
    ensures
        final(w)@ == attributes_out(old(w)@, *t),
{
    w.open("mj-attributes");
    w.self_close("mj-all", &one_attr("font-family", xml_escape_attr(t.brand.font_family.as_str())));
    let mut a = two_attrs("color", xml_escape_attr(t.brand.text_color.as_str()), "font-size", owned("16px"));
    add_attr(&mut a, "line-height", owned("1.5"));
    assert(attr_view(a@) =~= seq![("color"@, escaped(t.brand.text_color@)), ("font-size"@, "16px"@), ("line-height"@, "1.5"@)]);
    w.self_close("mj-text", &a);
    let mut b = two_attrs(
        "background-color",
        xml_escape_attr(t.brand.button_background.as_str()),
        "color",
        xml_escape_attr(t.brand.button_color.as_str()),
    );
    add_attr(&mut b, "border-radius", owned("4px"));
    add_attr(&mut b, "inner-padding", owned(BRAND_BUTTON_INNER_PADDING));
    add_attr(&mut b, "font-weight", owned("bold"));
    assert(attr_view(b@) =~= seq![
        ("background-color"@, escaped(t.brand.button_background@)),
        ("color"@, escaped(t.brand.button_color@)),
        ("border-radius"@, "4px"@),
        ("inner-padding"@, BRAND_BUTTON_INNER_PADDING@),
        ("font-weight"@, "bold"@),
    ]);
    w.self_close("mj-button", &b);
    let bg = body_background_value(t);
    w.self_close("mj-body", &two_attrs("background-color", xml_escape_attr(bg.as_str()), "width", width_value(t)));
    w.self_close("mj-section", &one_attr("padding", owned("20px 0")));
    w.self_close("mj-image", &one_attr("padding", owned("0")));
    w.close("mj-attributes");
}

fn emit_json_ld_raw(w: &mut Writer, payload: &str)
    ensures
        final(w)@ == json_ld_block(old(w)@, payload@),
{
    w.open("mj-raw");
    w.raw_indented("<script type=\"application/ld+json\">");
    let ls = lines_exec(payload);
    let ghost start = w@;
    let mut i: usize = 0;
    while i < ls.len()
        invariant
            i <= ls.len(),
            views(ls@) == lines(payload@),
            w@ == raw_each(start, views(ls@).take(i as int)),
        decreases ls.len() - i,
    {
        proof {
            let p = views(ls@).take(i + 1);
            assert(p.drop_last() =~= views(ls@).take(i as int));
        }
        w.raw_indented(ls[i].as_str());
        i += 1;
    }
    assert(views(ls@).take(ls.len() as int) =~= views(ls@));
    w.raw_indented("</script>");
    w.close("mj-raw");
}

fn emit_head_start(w: &mut Writer, t: &Template)
    ensures
        final(w)@ == head_start(old(w)@, *t),
{
    let mut a = one_attr("lang", xml_escape_attr(t.lang.as_str()));
    if !blank(t.dir.as_str()) {
        add_attr(&mut a, "dir", xml_escape_attr(t.dir.as_str()));
        assert(attr_view(a@) =~= seq![("lang"@, escaped(t.lang@)), ("dir"@, escaped(t.dir@))]);
    }
    w.open_attrs("mjml", &a);
    w.open("mj-head");
    w.leaf_text("mj-title", xml_escape_text(t.head.title.as_str()).as_str());
    if !blank(t.preheader.as_str()) {
        w.leaf_text("mj-preview", xml_escape_text(t.preheader.as_str()).as_str());
    }
    w.self_close("mj-breakpoint", &one_attr("width", xml_escape_attr(t.head.breakpoint.as_str())));
}

fn emit_fonts(w: &mut Writer, fonts: &Vec<WebFont>)
    ensures
        final(w)@ == fonts_out(old(w)@, fonts@),
{
    let ghost start = w@;
    let mut i: usize = 0;
    assert(fonts@.take(0) =~= Seq::<WebFont>::empty());
    while i < fonts.len()
        invariant
            i <= fonts.len(),
            w@ == fonts_out(start, fonts@.take(i as int)),
        decreases fonts.len() - i,
    {
        proof {
            let p = fonts@.take(i + 1);
            assert(p.drop_last() =~= fonts@.take(i as int));
        }
        let font = &fonts[i];
        w.self_close(
            "mj-font",
            &two_attrs("name", xml_escape_attr(font.name.as_str()), "href", xml_escape_attr(font.href.as_str())),
        );
        i += 1;
    }
    assert(fonts@.take(fonts.len() as int) =~= fonts@);
}

fn emit_styles(w: &mut Writer, t: &Template)
    ensures
        final(w)@ == styles_out(old(w)@, *t),
{
    w.open("mj-style");
    w.raw_indented(PREHEADER_CSS);
    w.close("mj-style");
    if !blank(t.head.css.as_str()) {
        if t.head.css_inline {
            w.open_attrs("mj-style", &one_attr("inline", owned("inline")));
        } else {
            w.open("mj-style");
        }
        w.raw_indented(trim_str(t.head.css.as_str()).as_str());
        w.close("mj-style");
    }
}

fn emit_head(w: &mut Writer, t: &Template) -> (r: Result<(), String>)
    ensures
        outcome(r, final(w)@) == head_out(old(w)@, *t),
{
    emit_head_start(w, t);
    emit_fonts(w, &t.head.fonts);
    emit_attributes(w, t);
    emit_styles(w, t);
    let payload = json_ld_payload_exec(t.head.json_ld.as_str())?;
    if let Some(p) = payload {
        emit_json_ld_raw(w, p.as_str());
    }
    w.close("mj-head");
    Ok(())
}

fn emit_body_open(w: &mut Writer, t: &Template)
    ensures
        final(w)@ == body_open(old(w)@, *t),
{
    reveal(body_open);
    let mut a = two_attrs("background-color", xml_escape_attr(body_background_value(t).as_str()), "width", width_value(t));
    push_opt(&mut a, "css-class", &t.body.css_class);
    w.open_attrs("mj-body", &a);
    if !blank(t.preheader.as_str()) {
        w.open_attrs("mj-section", &two_attrs("css-class", owned("preheader"), "padding", owned("0")));
        w.open("mj-column");
        w.leaf_text("mj-text", xml_escape_text(t.preheader.as_str()).as_str());
        w.close("mj-column");
        w.close("mj-section");
    }
}

/// Deterministic Template → MJML 5. `Err` carries the reason an image source
/// or `head.json_ld` cannot be written (see [`mjml_of`]).
pub fn emit_mjml(t: &Template, mode: EmitMode) -> (r: Result<String, String>)
    ensures
        r matches Ok(s) ==> mjml_of(*t, mode) == Ok::<Seq<char>, Seq<char>>(s@),
        r matches Err(e) ==> mjml_of(*t, mode) == Err::<Seq<char>, Seq<char>>(e@),
{
    let mut w = Writer::new();
    emit_head(&mut w, t)?;
    emit_body_open(&mut w, t);
    emit_body_nodes(&mut w, t, &mode, &t.body.nodes)?;
    w.close("mj-body");
    w.close("mjml");
    Ok(w.finish())
}

/// Each social network is written under its own MJML name: the name the
/// icon form uses for it (which the form reads back as that network), except
/// X, which MJML still knows as `twitter`. So two different networks are
/// never written under the same name.
pub proof fn law_network_names(n: SocialNetwork, m: SocialNetwork)
    ensures
        n != SocialNetwork::X ==> network_name(n) == crate::tui::cursor::network_text(n),
        n != SocialNetwork::X ==> crate::tui::cursor::read_network(network_name(n)) == Ok::<SocialNetwork, Seq<char>>(n),
        network_name(SocialNetwork::X) == "twitter"@,
        n != m ==> network_name(n) != network_name(m),
{
    crate::tui::saving::lemma_read_network_back(n);
    crate::tui::saving::lemma_read_network_back(m);
    reveal_strlit("twitter");
    reveal_strlit("x");
    if n != m && (n == SocialNetwork::X || m == SocialNetwork::X) {
        let o = if n == SocialNetwork::X { m } else { n };
        crate::tui::saving::lemma_read_network_back(o);
        reveal_strlit("facebook");
        reveal_strlit("instagram");
        reveal_strlit("linkedin");
        reveal_strlit("github");
        reveal_strlit("web");
        reveal_strlit("youtube");
        reveal_strlit("pinterest");
        reveal_strlit("google");
        reveal_strlit("tumblr");
        reveal_strlit("snapchat");
        reveal_strlit("vimeo");
        reveal_strlit("medium");
        reveal_strlit("soundcloud");
        reveal_strlit("dribbble");
        reveal_strlit("xing");
        assert(network_name(o).len() != 7 || network_name(o)[0] != 't' || network_name(o)[1] != 'w');
    }
}

/// Choices are written under the names the edit forms use for them: an
/// alignment, a carousel's thumbnails and a social block's mode as the form
/// shows them, and a social block opens with its mode (and its alignment
/// next, when it has one).
pub proof fn law_choice_names(a: Align, th: Thumbnails, so: MjSocial)
    ensures
        align_name(a) == crate::tui::cursor::align_text(Some(a)),
        thumbnails_name(th) == crate::tui::cursor::thumbnails_text(th),
        social_attrs(so)[0] == ("mode"@, crate::tui::cursor::social_mode_text(so.mode)),
        so.align matches Some(x) ==> social_attrs(so)[1] == ("align"@, crate::tui::cursor::align_text(Some(x))),
{
    let base = seq![("mode"@, crate::tui::cursor::social_mode_text(so.mode))];
    let b = with_align(base, so.align);
    assert(b[0] == base[0]);
    lemma_social_attrs_prefix(so);
}

/// The first attributes of a social block stay first.
proof fn lemma_social_attrs_prefix(so: MjSocial)
    ensures
        social_attrs(so).len() >= 1,
        social_attrs(so)[0] == with_align(
            seq![("mode"@, crate::tui::cursor::social_mode_text(so.mode))],
            so.align,
        )[0],
        so.align is Some ==> social_attrs(so).len() >= 2 && social_attrs(so)[1] == with_align(
            seq![("mode"@, crate::tui::cursor::social_mode_text(so.mode))],
            so.align,
        )[1],
{
}

} // verus!
