//! Template validation: the errors that block export and the warnings that
//! do not, in the order the template is read.
//!
//! Each check is a spec function from the audit so far ([`Audit`]) to the
//! audit after it; the walkers are proved to produce exactly that.
use vstd::prelude::*;

use crate::border::{sides_from, border_horizontal_scaled, Sides};
use crate::emit::{given, BRAND_BUTTON_INNER_PADDING};
use crate::json_ld::{json_ld_findings, json_ld_findings_exec};
use crate::model::{
    BodyNode, ColumnChild, EmailArticle, EmailFooter, EmailHeader, EmailHero, MjButton, MjColumn,
    MjGroup, MjHero, MjSection, MjSocialElement, MjWrapper, SectionChild, SocialNetwork, Template,
    WebFont,
};
use crate::padding::{horizontal_scaled, normalized_padding, normalized_unit, scaled_decimal};
use crate::text::{
    blank, cat, cat3, cat4, cat5, chars_of, contains, contains_ci, decimal, ends_with, first_of,
    join, lower, owned, push_char, push_str, starts_with, strip_all_start, trim, trim_str, views,
};

verus! {

/// What validation found: errors block export, warnings do not.
#[derive(Debug, Default, Clone, PartialEq, Eq)]
pub struct ValidateReport {
    pub errors: Vec<String>,
    pub warnings: Vec<String>,
}

impl ValidateReport {
    /// No errors (warnings allowed).
    pub fn ok(&self) -> (r: bool)
        ensures
            r == (self.errors@.len() == 0),
    {
        self.errors.len() == 0
    }
}

/// The paths under the project root, relative and with `/` between
/// segments, that name a file there. Local images are looked up here: a
/// caller asks [`local_image_probes`] which paths decide the check and keeps
/// those that are files.
pub struct LocalFiles {
    pub paths: Vec<String>,
}

/// The audit so far: errors, warnings, the font names in use, whether a
/// relative image was seen, and the paths that decide whether the relative
/// images seen so far exist (see [`image_candidates`]).
pub struct Audit {
    pub errors: Seq<Seq<char>>,
    pub warnings: Seq<Seq<char>>,
    pub fonts: Seq<char>,
    pub relative: bool,
    pub probes: Seq<Seq<char>>,
}

/// What stays fixed during a walk: the known local files (when a root is
/// given), whether this is an export, and the template's base URL.
pub struct Ctx {
    pub files: Option<Seq<Seq<char>>>,
    pub export: bool,
    pub base_url: Seq<char>,
}

pub open spec fn err(a: Audit, m: Seq<char>) -> Audit {
    Audit { errors: a.errors.push(m), ..a }
}

pub open spec fn warn(a: Audit, m: Seq<char>) -> Audit {
    Audit { warnings: a.warnings.push(m), ..a }
}

/// The text of an optional field; empty when unset.
pub open spec fn text_or_empty(v: Option<String>) -> Seq<char> {
    match v {
        Some(s) => s@,
        None => Seq::empty(),
    }
}

pub open spec fn nonempty_checked(a: Audit, field: Seq<char>, value: Seq<char>) -> Audit {
    if trim(value).len() == 0 {
        err(a, field + " is empty"@)
    } else {
        a
    }
}

pub open spec fn is_hex_digit(c: char) -> bool {
    ('0' <= c && c <= '9') || ('a' <= c && c <= 'f') || ('A' <= c && c <= 'F')
}

/// `#RRGGBB`, surrounding white space allowed.
pub open spec fn hex_color(value: Seq<char>) -> bool {
    let v = trim(value);
    let hex = strip_all_start(v, '#');
    hex.len() == 6 && (forall|i: int| 0 <= i < 6 ==> is_hex_digit(#[trigger] hex[i])) && v.len() > 0
        && v[0] == '#'
}

pub open spec fn color_checked(a: Audit, field: Seq<char>, value: Seq<char>) -> Audit {
    if trim(value).len() == 0 || hex_color(value) {
        a
    } else {
        err(a, field + " must be #RRGGBB, got '"@ + value + "'"@)
    }
}

pub open spec fn one_of_checked(a: Audit, field: Seq<char>, value: Seq<char>, allowed: Seq<Seq<char>>) -> Audit {
    let v = trim(value);
    if v.len() == 0 || allowed.contains(v) {
        a
    } else {
        err(a, field + " must be one of "@ + join(allowed, "|"@) + ", got '"@ + value + "'"@)
    }
}

pub open spec fn border_sides_checked(a: Audit, field: Seq<char>, value: Option<String>) -> Audit {
    match given(value) {
        Some(v) => match sides_from(v) {
            Err(e) => err(a, field + " "@ + e),
            Ok(_) => a,
        },
        None => a,
    }
}

pub open spec fn padding_checked(a: Audit, field: Seq<char>, value: Option<String>) -> Audit {
    match given(value) {
        Some(v) => if normalized_padding(v) is None {
            err(a, field + " must be "@ + crate::padding::RULE@ + ", got '"@ + v + "'"@)
        } else {
            a
        },
        None => a,
    }
}

pub open spec fn unit_checked(a: Audit, field: Seq<char>, value: Option<String>) -> Audit {
    match given(value) {
        Some(v) => if normalized_padding(v) is Some || normalized_unit(v) is Some {
            a
        } else {
            err(a, field + " must be "@ + crate::padding::UNIT_RULE@ + ", got '"@ + v + "'"@)
        },
        None => a,
    }
}

/// Room left inside a button's pixel width once MJML takes the horizontal
/// inner padding (the brand default when unset) and border, in units of
/// 10^-18 px. `None` when there is no readable pixel width or padding.
pub open spec fn button_room(b: MjButton) -> Option<int> {
    match given(b.width) {
        None => None,
        Some(w) => if !ends_with(w, "px"@) {
            None
        } else {
            match scaled_decimal(w.take(w.len() - 2)) {
                None => None,
                Some(wpx) => {
                    let inner = match given(b.inner_padding) {
                        Some(x) => x,
                        None => BRAND_BUTTON_INNER_PADDING@,
                    };
                    match horizontal_scaled(inner) {
                        None => None,
                        Some(ih) => {
                            let bh = match b.border {
                                Some(bs) => border_horizontal_scaled(bs@, text_or_empty(b.border_sides)),
                                None => 0,
                            };
                            Some(wpx - ih - bh)
                        },
                    }
                },
            }
        },
    }
}

pub open spec fn button_room_checked(a: Audit, b: MjButton) -> Audit {
    match button_room(b) {
        Some(r) => if r <= 0 {
            err(
                a,
                "mj-button inner-padding + border leave no room inside width "@ + trim(text_or_empty(b.width))
                    + " (MJML collapses the button)"@,
            )
        } else {
            a
        },
        None => a,
    }
}

/// Where a relative image may live under the root: the paths, relative to
/// the root, that are asked whether they name a file.
pub open spec fn image_candidates(s: Seq<char>) -> Seq<Seq<char>> {
    let rel = strip_all_start(s, '/');
    if starts_with(rel, "images/"@) {
        seq![rel]
    } else {
        seq!["images/"@ + rel, rel]
    }
}

pub open spec fn local_image_found(files: Seq<Seq<char>>, s: Seq<char>) -> bool {
    exists|i: int| 0 <= i < image_candidates(s).len() && files.contains(#[trigger] image_candidates(s)[i])
}

pub open spec fn is_loopback(l: Seq<char>) -> bool {
    starts_with(l, "http://127.0.0.1:"@) || starts_with(l, "http://localhost:"@)
}

/// An image source that is set: schemes, export rules, and local files.
pub open spec fn image_src_checked(a: Audit, ctx: Ctx, field: Seq<char>, src: Seq<char>) -> Audit {
    let s = trim(src);
    let l = lower(s);
    if starts_with(l, "data:"@) || starts_with(l, "cid:"@) {
        err(a, field + " uses unsupported scheme: "@ + s)
    } else if starts_with(l, "https://"@) {
        a
    } else if starts_with(l, "http://"@) {
        if ctx.export {
            err(a, field + " must be https:// in export, got "@ + s)
        } else if is_loopback(l) {
            a
        } else {
            err(a, field + " uses insecure http:// URL: "@ + s)
        }
    } else {
        let a = Audit { relative: true, probes: a.probes + image_candidates(s), ..a };
        let a = if ctx.export && !starts_with(trim(ctx.base_url), "https://"@) {
            err(a, field + " is relative and requires an https:// base_url in export"@)
        } else {
            a
        };
        match ctx.files {
            Some(fs) => if local_image_found(fs, s) {
                a
            } else {
                err(a, "Missing local image: "@ + s)
            },
            None => a,
        }
    }
}

pub open spec fn required_image(a: Audit, ctx: Ctx, field: Seq<char>, src: Seq<char>) -> Audit {
    if trim(src).len() == 0 {
        err(a, field + " is empty"@)
    } else {
        image_src_checked(a, ctx, field, src)
    }
}

pub open spec fn optional_image(a: Audit, ctx: Ctx, field: Seq<char>, src: Seq<char>) -> Audit {
    if trim(src).len() == 0 {
        a
    } else {
        image_src_checked(a, ctx, field, src)
    }
}

/// Steps applied to the items of `xs` in order.
pub open spec fn fold_audit<A>(a: Audit, xs: Seq<A>, f: spec_fn(Audit, A) -> Audit) -> Audit
    decreases xs.len(),
{
    if xs.len() == 0 {
        a
    } else {
        f(fold_audit(a, xs.drop_last(), f), xs.last())
    }
}

pub proof fn lemma_fold_audit_step<A>(a: Audit, xs: Seq<A>, i: int, f: spec_fn(Audit, A) -> Audit)
    requires
        0 <= i < xs.len(),
    ensures
        fold_audit(a, xs.take(i + 1), f) == f(fold_audit(a, xs.take(i), f), xs[i]),
{
    assert(xs.take(i + 1).drop_last() =~= xs.take(i));
}

pub open spec fn with_font(a: Audit, ff: Option<String>) -> Audit {
    match ff {
        Some(f) => Audit { fonts: a.fonts + " "@ + f@, ..a },
        None => a,
    }
}

pub open spec fn ltr_rtl() -> Seq<Seq<char>> {
    seq!["ltr"@, "rtl"@]
}

pub open spec fn top_middle_bottom() -> Seq<Seq<char>> {
    seq!["top"@, "middle"@, "bottom"@]
}

pub open spec fn repeat_values() -> Seq<Seq<char>> {
    seq!["repeat"@, "no-repeat"@]
}

pub open spec fn target_values() -> Seq<Seq<char>> {
    seq!["_blank"@, "_self"@]
}

pub open spec fn social_element_audit(a: Audit, el: MjSocialElement) -> Audit {
    let a = if trim(el.href@).len() == 0 {
        err(a, "mj-social-element.href is empty"@)
    } else {
        a
    };
    let a = if el.name == SocialNetwork::Web && (match el.src {
        Some(s) => trim(s@).len() == 0,
        None => true,
    }) {
        warn(a, "social web element has no icon src"@)
    } else {
        a
    };
    let a = color_checked(a, "mj-social-element.background_color"@, text_or_empty(el.background_color));
    padding_checked(a, "mj-social-element.padding"@, el.padding)
}

pub open spec fn social_element_step() -> spec_fn(Audit, MjSocialElement) -> Audit {
    |a: Audit, el: MjSocialElement| social_element_audit(a, el)
}

/// `mj-table` content is row markup: not blank, not wrapped in `<table>`,
/// with a `<tr ...>` and a `</tr>` (any case).
pub open spec fn is_table_fragment(content: Seq<char>) -> bool {
    let t = trim(content);
    let l = lower(t);
    t.len() > 0 && !table_tag_first(l) && contains(l, "<tr"@) && contains(l, "</tr>"@)
}

pub open spec fn table_tag_first(l: Seq<char>) -> bool {
    starts_with(l, "<table"@) && {
        let rest = l.skip(6);
        rest.len() == 0 || rest[0] == '>' || rest[0] == '/' || crate::text::is_ws(rest[0])
    }
}

pub open spec fn navbar_link_audit(a: Audit, link: crate::model::MjNavbarLink) -> Audit {
    let a = if trim(link.href@).len() == 0 {
        err(a, "mj-navbar-link.href is empty"@)
    } else {
        a
    };
    let a = color_checked(a, "mj-navbar-link.color"@, text_or_empty(link.color));
    let a = padding_checked(a, "mj-navbar-link.padding"@, link.padding);
    unit_checked(a, "mj-navbar-link.font_size"@, link.font_size)
}

pub open spec fn accordion_element_audit(a: Audit, el: crate::model::MjAccordionElement) -> Audit {
    let a = if trim(el.title@).len() == 0 {
        err(a, "mj-accordion-element.title is empty"@)
    } else {
        a
    };
    let a = color_checked(a, "mj-accordion-element.background_color"@, text_or_empty(el.background_color));
    if contains_ci(el.content@, "</mj-"@) {
        err(a, "mj-accordion-element.content contains </mj-"@)
    } else {
        a
    }
}

pub open spec fn carousel_image_audit(a: Audit, ctx: Ctx, img: crate::model::MjCarouselImage) -> Audit {
    let a = required_image(a, ctx, "mj-carousel-image.src"@, img.src@);
    let a = if trim(img.alt@).len() == 0 {
        err(a, "mj-carousel-image.alt is empty"@)
    } else {
        a
    };
    optional_image(a, ctx, "mj-carousel-image.thumbnails_src"@, text_or_empty(img.thumbnails_src))
}

pub open spec fn navbar_link_step() -> spec_fn(Audit, crate::model::MjNavbarLink) -> Audit {
    |a: Audit, l: crate::model::MjNavbarLink| navbar_link_audit(a, l)
}

pub open spec fn accordion_element_step() -> spec_fn(Audit, crate::model::MjAccordionElement) -> Audit {
    |a: Audit, el: crate::model::MjAccordionElement| accordion_element_audit(a, el)
}

pub open spec fn carousel_image_step(ctx: Ctx) -> spec_fn(Audit, crate::model::MjCarouselImage) -> Audit {
    |a: Audit, img: crate::model::MjCarouselImage| carousel_image_audit(a, ctx, img)
}

/// What one content component adds to the audit.
#[verifier::opaque]
pub open spec fn child_audit(a: Audit, ctx: Ctx, child: ColumnChild) -> Audit {
    match child {
        ColumnChild::MjText(text) => {
            let a = color_checked(a, "mj-text.color"@, text_or_empty(text.color));
            let a = padding_checked(a, "mj-text.padding"@, text.padding);
            let a = unit_checked(a, "mj-text.line_height"@, text.line_height);
            let a = with_font(a, text.font_family);
            if contains_ci(text.content@, "</mj-"@) {
                err(a, "mj-text.content contains </mj-"@)
            } else {
                a
            }
        },
        ColumnChild::MjButton(btn) => {
            let a = color_checked(a, "mj-button.background_color"@, text_or_empty(btn.background_color));
            let a = color_checked(a, "mj-button.color"@, text_or_empty(btn.color));
            let a = padding_checked(a, "mj-button.padding"@, btn.padding);
            let a = padding_checked(a, "mj-button.inner_padding"@, btn.inner_padding);
            let a = button_room_checked(a, btn);
            let a = border_sides_checked(a, "mj-button.border_sides"@, btn.border_sides);
            let a = unit_checked(a, "mj-button.border_radius"@, btn.border_radius);
            let a = unit_checked(a, "mj-button.font_size"@, btn.font_size);
            let a = unit_checked(a, "mj-button.height"@, btn.height);
            let a = one_of_checked(a, "mj-button.target"@, text_or_empty(btn.target), target_values());
            let a = with_font(a, btn.font_family);
            if trim(btn.href@).len() == 0 {
                err(a, "mj-button.href is empty"@)
            } else {
                a
            }
        },
        ColumnChild::MjImage(img) => {
            let a = required_image(a, ctx, "mj-image.src"@, img.src@);
            let a = padding_checked(a, "mj-image.padding"@, img.padding);
            let a = border_sides_checked(a, "mj-image.border_sides"@, img.border_sides);
            let a = unit_checked(a, "mj-image.border_radius"@, img.border_radius);
            let a = unit_checked(a, "mj-image.height"@, img.height);
            let a = one_of_checked(a, "mj-image.target"@, text_or_empty(img.target), target_values());
            if trim(img.alt@).len() == 0 {
                err(a, "mj-image.alt is empty"@)
            } else {
                a
            }
        },
        ColumnChild::MjDivider(d) => {
            let a = color_checked(a, "mj-divider.border_color"@, text_or_empty(d.border_color));
            let a = padding_checked(a, "mj-divider.padding"@, d.padding);
            let a = unit_checked(a, "mj-divider.border_width"@, d.border_width);
            unit_checked(a, "mj-divider.width"@, d.width)
        },
        ColumnChild::MjSpacer(sp) => padding_checked(a, "mj-spacer.padding"@, sp.padding),
        ColumnChild::MjSocial(social) => {
            let a = padding_checked(a, "mj-social.padding"@, social.padding);
            let a = padding_checked(a, "mj-social.icon_padding"@, social.icon_padding);
            let a = padding_checked(a, "mj-social.inner_padding"@, social.inner_padding);
            let a = unit_checked(a, "mj-social.border_radius"@, social.border_radius);
            let a = color_checked(a, "mj-social.color"@, text_or_empty(social.color));
            fold_audit(a, social.elements@, social_element_step())
        },
        ColumnChild::MjTable(table) => {
            let a = color_checked(a, "mj-table.color"@, text_or_empty(table.color));
            let a = padding_checked(a, "mj-table.padding"@, table.padding);
            let a = unit_checked(a, "mj-table.line_height"@, table.line_height);
            let a = one_of_checked(a, "mj-table.role"@, text_or_empty(table.role), seq!["none"@, "presentation"@]);
            let a = if contains_ci(table.content@, "</mj-"@) {
                err(a, "mj-table.content contains </mj-"@)
            } else {
                a
            };
            if is_table_fragment(table.content@) {
                a
            } else {
                err(a, "mj-table.content must be table rows (<tr>…</tr>), not a wrapping <table>"@)
            }
        },
        ColumnChild::MjNavbar(nav) => {
            let a = color_checked(a, "mj-navbar.ico_color"@, text_or_empty(nav.ico_color));
            let a = padding_checked(a, "mj-navbar.padding"@, nav.padding);
            let a = if nav.links@.len() == 0 {
                warn(a, "mj-navbar has no mj-navbar-link children"@)
            } else {
                a
            };
            fold_audit(a, nav.links@, navbar_link_step())
        },
        ColumnChild::MjAccordion(acc) => {
            let a = padding_checked(a, "mj-accordion.padding"@, acc.padding);
            let a = one_of_checked(a, "mj-accordion.icon_position"@, text_or_empty(acc.icon_position), seq!["left"@, "right"@]);
            let a = if acc.elements@.len() == 0 {
                warn(a, "mj-accordion has no mj-accordion-element children"@)
            } else {
                a
            };
            fold_audit(a, acc.elements@, accordion_element_step())
        },
        ColumnChild::MjCarousel(car) => {
            let a = padding_checked(a, "mj-carousel.padding"@, car.padding);
            let a = unit_checked(a, "mj-carousel.border_radius"@, car.border_radius);
            let a = unit_checked(a, "mj-carousel.tb_border_radius"@, car.tb_border_radius);
            let a = if car.images@.len() == 0 {
                warn(a, "mj-carousel has no mj-carousel-image children"@)
            } else {
                a
            };
            fold_audit(a, car.images@, carousel_image_step(ctx))
        },
    }
}

pub open spec fn child_step(ctx: Ctx) -> spec_fn(Audit, ColumnChild) -> Audit {
    |a: Audit, c: ColumnChild| child_audit(a, ctx, c)
}

pub open spec fn column_audit(a: Audit, ctx: Ctx, col: MjColumn) -> Audit {
    let a = color_checked(a, "mj-column.background_color"@, text_or_empty(col.background_color));
    let a = color_checked(a, "mj-column.inner_background_color"@, text_or_empty(col.inner_background_color));
    let a = padding_checked(a, "mj-column.padding"@, col.padding);
    let a = border_sides_checked(a, "mj-column.border_sides"@, col.border_sides);
    let a = unit_checked(a, "mj-column.border_radius"@, col.border_radius);
    let a = border_sides_checked(a, "mj-column.inner_border_sides"@, col.inner_border_sides);
    let a = one_of_checked(a, "mj-column.vertical_align"@, text_or_empty(col.vertical_align), top_middle_bottom());
    let a = unit_checked(a, "mj-column.inner_border_radius"@, col.inner_border_radius);
    fold_audit(a, col.components@, child_step(ctx))
}

pub open spec fn column_step(ctx: Ctx) -> spec_fn(Audit, MjColumn) -> Audit {
    |a: Audit, c: MjColumn| column_audit(a, ctx, c)
}

pub open spec fn group_audit(a: Audit, ctx: Ctx, g: MjGroup) -> Audit {
    let a = color_checked(a, "mj-group.background_color"@, text_or_empty(g.background_color));
    let a = one_of_checked(a, "mj-group.direction"@, text_or_empty(g.direction), ltr_rtl());
    let a = one_of_checked(a, "mj-group.vertical_align"@, text_or_empty(g.vertical_align), top_middle_bottom());
    let a = if g.children@.len() == 0 {
        err(a, "mj-group has no columns"@)
    } else {
        a
    };
    fold_audit(a, g.children@, column_step(ctx))
}

#[verifier::opaque]
pub open spec fn section_child_audit(a: Audit, ctx: Ctx, c: SectionChild) -> Audit {
    match c {
        SectionChild::MjColumn(col) => column_audit(a, ctx, col),
        SectionChild::MjGroup(g) => group_audit(a, ctx, g),
    }
}

pub open spec fn section_child_step(ctx: Ctx) -> spec_fn(Audit, SectionChild) -> Audit {
    |a: Audit, c: SectionChild| section_child_audit(a, ctx, c)
}

pub open spec fn section_audit(a: Audit, ctx: Ctx, s: MjSection) -> Audit {
    let a = color_checked(a, "mj-section.background_color"@, text_or_empty(s.background_color));
    let a = padding_checked(a, "mj-section.padding"@, s.padding);
    let a = border_sides_checked(a, "mj-section.border_sides"@, s.border_sides);
    let a = unit_checked(a, "mj-section.border_radius"@, s.border_radius);
    let a = unit_checked(a, "mj-section.gutter"@, s.gutter);
    let a = one_of_checked(a, "mj-section.direction"@, text_or_empty(s.direction), ltr_rtl());
    let a = one_of_checked(a, "mj-section.background_repeat"@, text_or_empty(s.background_repeat), repeat_values());
    let a = optional_image(a, ctx, "mj-section.background_url"@, text_or_empty(s.background_url));
    let a = if s.children@.len() == 0 {
        err(a, "mj-section has no children"@)
    } else {
        a
    };
    fold_audit(a, s.children@, section_child_step(ctx))
}

pub open spec fn hero_audit(a: Audit, ctx: Ctx, h: MjHero) -> Audit {
    let a = color_checked(a, "mj-hero.background_color"@, text_or_empty(h.background_color));
    let a = padding_checked(a, "mj-hero.padding"@, h.padding);
    let a = padding_checked(a, "mj-hero.inner_padding"@, h.inner_padding);
    let a = unit_checked(a, "mj-hero.border_radius"@, h.border_radius);
    let a = one_of_checked(a, "mj-hero.vertical_align"@, text_or_empty(h.vertical_align), top_middle_bottom());
    let a = optional_image(a, ctx, "mj-hero.background_url"@, text_or_empty(h.background_url));
    fold_audit(a, h.children@, child_step(ctx))
}

pub open spec fn wrapper_head_audit(a: Audit, ctx: Ctx, w: MjWrapper) -> Audit {
    let a = color_checked(a, "mj-wrapper.background_color"@, text_or_empty(w.background_color));
    let a = padding_checked(a, "mj-wrapper.padding"@, w.padding);
    let a = border_sides_checked(a, "mj-wrapper.border_sides"@, w.border_sides);
    let a = unit_checked(a, "mj-wrapper.border_radius"@, w.border_radius);
    let a = unit_checked(a, "mj-wrapper.gap"@, w.gap);
    let a = one_of_checked(a, "mj-wrapper.background_repeat"@, text_or_empty(w.background_repeat), repeat_values());
    optional_image(a, ctx, "mj-wrapper.background_url"@, text_or_empty(w.background_url))
}

pub open spec fn header_audit(a: Audit, ctx: Ctx, h: EmailHeader) -> Audit {
    let a = color_checked(a, "email-header.background_color"@, text_or_empty(h.background_color));
    let a = optional_image(a, ctx, "email-header.logo_src"@, h.logo_src@);
    if trim(h.logo_src@).len() > 0 && trim(h.logo_alt@).len() == 0 {
        err(a, "email-header.logo_alt is required when logo_src is set"@)
    } else {
        a
    }
}

pub open spec fn email_hero_audit(a: Audit, ctx: Ctx, h: EmailHero) -> Audit {
    let a = color_checked(a, "email-hero.background_color"@, text_or_empty(h.background_color));
    let a = optional_image(a, ctx, "email-hero.image_src"@, h.image_src@);
    if trim(h.image_src@).len() > 0 && trim(h.image_alt@).len() == 0 {
        err(a, "email-hero.image_alt is required when image_src is set"@)
    } else {
        a
    }
}

pub open spec fn article_audit(a: Audit, ctx: Ctx, x: EmailArticle) -> Audit {
    let a = optional_image(a, ctx, "email-article.image_src"@, x.image_src@);
    if trim(x.image_src@).len() > 0 && trim(x.image_alt@).len() == 0 {
        err(a, "email-article.image_alt is required when image_src is set"@)
    } else {
        a
    }
}

/// Some address line is not blank.
pub open spec fn has_address(f: EmailFooter) -> bool {
    exists|i: int| 0 <= i < f.address_lines@.len() && trim(#[trigger] f.address_lines@[i]@).len() > 0
}

pub open spec fn footer_audit(a: Audit, f: EmailFooter) -> Audit {
    let a = if has_address(f) {
        a
    } else {
        err(a, "email-footer.address_lines is empty"@)
    };
    let a = fold_audit(a, f.social@, social_element_step());
    if has_address(f) && trim(f.unsubscribe_href@).len() == 0 && trim(f.unsubscribe_label@).len() > 0 {
        warn(a, "marketing mail usually needs an unsubscribe link"@)
    } else {
        a
    }
}

/// What one body node adds to the audit.
pub open spec fn body_audit(a: Audit, ctx: Ctx, n: BodyNode) -> Audit
    decreases n, 1nat,
{
    match n {
        BodyNode::MjSection(s) => section_audit(a, ctx, s),
        BodyNode::MjWrapper(w) => wrapper_children_audit(wrapper_head_audit(a, ctx, w), ctx, w.children@),
        BodyNode::MjHero(h) => hero_audit(a, ctx, h),
        BodyNode::EmailHeader(h) => header_audit(a, ctx, h),
        BodyNode::EmailHero(h) => email_hero_audit(a, ctx, h),
        BodyNode::EmailCta(c) => {
            let a = color_checked(a, "email-cta.background_color"@, text_or_empty(c.background_color));
            if trim(c.button_href@).len() == 0 {
                err(a, "email-cta.button_href is empty"@)
            } else {
                a
            }
        },
        BodyNode::EmailArticle(x) => article_audit(a, ctx, x),
        BodyNode::EmailFooter(f) => footer_audit(a, f),
    }
}

/// A wrapper's children: sections and heroes are walked, anything else is
/// an error.
pub open spec fn wrapper_children_audit(a: Audit, ctx: Ctx, ns: Seq<BodyNode>) -> Audit
    decreases ns, 0nat,
{
    if ns.len() == 0 {
        a
    } else {
        let a = wrapper_children_audit(a, ctx, ns.subrange(0, ns.len() - 1));
        let n = ns[ns.len() - 1];
        match n {
            BodyNode::MjSection(_) => body_audit(a, ctx, n),
            BodyNode::MjHero(_) => body_audit(a, ctx, n),
            _ => err(a, "mj-wrapper may only contain mj-section or mj-hero"@),
        }
    }
}

pub open spec fn body_step(ctx: Ctx) -> spec_fn(Audit, BodyNode) -> Audit {
    |a: Audit, n: BodyNode| body_audit(a, ctx, n)
}


/// The key a font name is compared by.
pub open spec fn font_key(f: WebFont) -> Seq<char> {
    lower(trim(f.name@))
}

pub open spec fn font_keys(fs: Seq<WebFont>) -> Seq<Seq<char>> {
    fs.map_values(|f: WebFont| font_key(f))
}

pub open spec fn google_fonts_css(href: Seq<char>) -> bool {
    let h = trim(href);
    starts_with(h, "https://fonts.googleapis.com/css?"@) || starts_with(h, "https://fonts.googleapis.com/css2?"@)
}

/// The registered fonts: names set and unique (ignoring case), Google Fonts
/// CSS links.
pub open spec fn fonts_audit(a: Audit, fs: Seq<WebFont>) -> Audit
    decreases fs.len(),
{
    if fs.len() == 0 {
        a
    } else {
        let a = fonts_audit(a, fs.drop_last());
        let i = (fs.len() - 1) as nat;
        let font = fs.last();
        let a = if trim(font.name@).len() == 0 {
            err(a, "head.fonts["@ + decimal(i) + "].name is empty"@)
        } else {
            a
        };
        let key = font_key(font);
        let a = if key.len() > 0 && font_keys(fs.drop_last()).contains(key) {
            err(a, "duplicate font name '"@ + font.name@ + "'"@)
        } else {
            a
        };
        if google_fonts_css(font.href@) {
            a
        } else {
            err(
                a,
                "head.fonts["@ + decimal(i) + "].href must be a Google Fonts CSS URL, got '"@ + font.href@
                    + "'"@,
            )
        }
    }
}

pub open spec fn is_quote(c: char) -> bool {
    c == '\'' || c == '"'
}

pub open spec fn strip_quotes_start(s: Seq<char>) -> Seq<char>
    decreases s.len(),
{
    if s.len() > 0 && is_quote(s[0]) {
        strip_quotes_start(s.drop_first())
    } else {
        s
    }
}

pub open spec fn strip_quotes_end(s: Seq<char>) -> Seq<char>
    decreases s.len(),
{
    if s.len() > 0 && is_quote(s.last()) {
        strip_quotes_end(s.drop_last())
    } else {
        s
    }
}

/// The `url(...)` arguments of a stylesheet from position `search` on:
/// found case-insensitively, trimmed, quotes removed.
pub open spec fn css_urls_from(css: Seq<char>, search: int) -> Seq<Seq<char>>
    decreases css.len() + 1 - search,
{
    if search < 0 || search >= css.len() {
        Seq::empty()
    } else {
        match crate::text::find_from(lower(css), "url("@, search) {
            None => Seq::empty(),
            Some(k) => {
                proof {
                    crate::text::lemma_find_from_is_first(lower(css), "url("@, search);
                }
                let start = k + "url("@.len();
                let end = match first_of(css, ')', start) {
                    Some(e) => e,
                    None => css.len() as int,
                };
                proof {
                    crate::text::lemma_first_of(css, ')', start);
                }
                seq![strip_quotes_end(strip_quotes_start(trim(css.subrange(start, end))))] + css_urls_from(
                    css,
                    end + 1,
                )
            },
        }
    }
}

pub open spec fn css_url_audit(a: Audit, url: Seq<char>) -> Audit {
    if starts_with(url, "https://fonts.googleapis.com/"@) {
        a
    } else {
        err(a, "head.css url() must be https://fonts.googleapis.com/, got '"@ + url + "'"@)
    }
}

pub open spec fn css_url_step() -> spec_fn(Audit, Seq<char>) -> Audit {
    |a: Audit, u: Seq<char>| css_url_audit(a, u)
}

pub open spec fn css_audit(a: Audit, raw: Seq<char>) -> Audit {
    let css = trim(raw);
    if css.len() == 0 {
        a
    } else {
        let a = if contains_ci(css, "</mj-style>"@) || contains_ci(css, "</mj-"@) {
            err(a, "head.css contains a forbidden MJML closer"@)
        } else {
            a
        };
        let a = if contains_ci(css, "@import"@) {
            err(a, "head.css must not contain @import"@)
        } else {
            a
        };
        fold_audit(a, css_urls_from(css, 0), css_url_step())
    }
}

/// The audit before any check: no findings, the brand font in use.
pub open spec fn initial_audit(t: Template) -> Audit {
    Audit {
        errors: Seq::empty(),
        warnings: Seq::empty(),
        fonts: t.brand.font_family@,
        relative: false,
        probes: Seq::empty(),
    }
}

/// Everything checked before the body is walked.
pub open spec fn head_checks(a: Audit, t: Template) -> Audit {
    let a = if t.version != 1 {
        err(a, "version must be 1, got "@ + decimal(t.version as nat))
    } else {
        a
    };
    let a = nonempty_checked(a, "name"@, t.name@);
    let a = nonempty_checked(a, "subject"@, t.subject@);
    let a = nonempty_checked(a, "head.title"@, t.head.title@);
    let a = nonempty_checked(a, "lang"@, t.lang@);
    let a = one_of_checked(a, "dir"@, t.dir@, seq!["auto"@, "ltr"@, "rtl"@]);
    let w = t.brand.content_width;
    let a = if 320 <= w && w <= 800 {
        a
    } else {
        err(a, "brand.content_width must be 320..=800, got "@ + decimal(w as nat))
    };
    let a = color_checked(a, "brand.text_color"@, t.brand.text_color@);
    let a = color_checked(a, "brand.background_color"@, t.brand.background_color@);
    let a = color_checked(a, "brand.button_background"@, t.brand.button_background@);
    let a = color_checked(a, "brand.button_color"@, t.brand.button_color@);
    let a = color_checked(a, "body.background_color"@, t.body.background_color@);
    let a = fonts_audit(a, t.head.fonts@);
    let j = json_ld_findings(t.head.json_ld@);
    let a = Audit { errors: a.errors + j.0, warnings: a.warnings + j.1, ..a };
    css_audit(a, t.head.css@)
}

pub open spec fn unused_font_audit(a: Audit, f: WebFont) -> Audit {
    let name = trim(f.name@);
    if name.len() > 0 && !contains(lower(a.fonts), lower(name)) {
        warn(
            a,
            "font '"@ + f.name@ + "' is registered but not used in brand.font_family or any node font_family"@,
        )
    } else {
        a
    }
}

pub open spec fn unused_font_step() -> spec_fn(Audit, WebFont) -> Audit {
    |a: Audit, f: WebFont| unused_font_audit(a, f)
}

/// The full audit of a template.
pub open spec fn audit_of(t: Template, files: Option<Seq<Seq<char>>>, export: bool) -> Audit {
    let ctx = Ctx { files, export, base_url: t.base_url@ };
    let a = fold_audit(head_checks(initial_audit(t), t), t.body.nodes@, body_step(ctx));
    let a = fold_audit(a, t.head.fonts@, unused_font_step());
    if a.relative && trim(t.base_url@).len() == 0 && !export {
        warn(a, "base_url is empty while relative images exist"@)
    } else {
        a
    }
}

/// The files as the spec sees them.
pub open spec fn files_view(files: Option<&LocalFiles>) -> Option<Seq<Seq<char>>> {
    match files {
        Some(f) => Some(views(f.paths@)),
        None => None,
    }
}

/// The report of a template: `(errors, warnings)` of its audit.
pub open spec fn report_of(t: Template, files: Option<Seq<Seq<char>>>, export: bool) -> (Seq<Seq<char>>, Seq<Seq<char>>) {
    let a = audit_of(t, files, export);
    (a.errors, a.warnings)
}

/// The view of a report.
pub open spec fn report_view(r: ValidateReport) -> (Seq<Seq<char>>, Seq<Seq<char>>) {
    (views(r.errors@), views(r.warnings@))
}


// ---------------------------------------------------------------------------
// Executable checks
// ---------------------------------------------------------------------------

struct Walk {
    errors: Vec<String>,
    warnings: Vec<String>,
    fonts: String,
    relative: bool,
    probes: Vec<String>,
}

impl View for Walk {
    type V = Audit;

    closed spec fn view(&self) -> Audit {
        Audit {
            errors: views(self.errors@),
            warnings: views(self.warnings@),
            fonts: self.fonts@,
            relative: self.relative,
            probes: views(self.probes@),
        }
    }
}

impl Walk {
    fn error(&mut self, m: String)
        ensures
            final(self)@ == err(old(self)@, m@),
    {
        self.errors.push(m);
        assert(views(self.errors@) =~= views(old(self).errors@).push(m@));
    }

    fn warning(&mut self, m: String)
        ensures
            final(self)@ == warn(old(self)@, m@),
    {
        self.warnings.push(m);
        assert(views(self.warnings@) =~= views(old(self).warnings@).push(m@));
    }
}

/// The fixed inputs of a walk.
struct Opts<'a> {
    files: Option<&'a LocalFiles>,
    export: bool,
    base_url: &'a str,
}

spec fn ctx_of(o: Opts) -> Ctx {
    Ctx { files: files_view(o.files), export: o.export, base_url: o.base_url@ }
}

fn opt(v: &Option<String>) -> (r: &str)
    ensures
        r@ == text_or_empty(*v),
{
    proof {
        reveal_strlit("");
    }
    match v {
        Some(s) => s.as_str(),
        None => "",
    }
}

fn require_nonempty(w: &mut Walk, field: &str, value: &str)
    ensures
        final(w)@ == nonempty_checked(old(w)@, field@, value@),
{
    if blank(value) {
        w.error(cat(field, " is empty"));
    }
}

fn is_hex_color(value: &str) -> (r: bool)
    ensures
        r == hex_color(value@),
{
    let v = trim_str(value);
    let hex = crate::text::strip_start_char(v.as_str(), '#');
    let hv = chars_of(hex.as_str());
    if hv.len() != 6 {
        return false;
    }
    let mut i: usize = 0;
    while i < 6
        invariant
            i <= 6,
            hv.len() == 6,
            hv@ == strip_all_start(trim(value@), '#'),
            forall|j: int| 0 <= j < i ==> is_hex_digit(#[trigger] hv@[j]),
        decreases 6 - i,
    {
        let c = hv[i];
        if !(('0' <= c && c <= '9') || ('a' <= c && c <= 'f') || ('A' <= c && c <= 'F')) {
            assert(!is_hex_digit(hv@[i as int]));
            return false;
        }
        i += 1;
    }
    let vv = chars_of(v.as_str());
    vv.len() > 0 && vv[0] == '#'
}

fn check_color(w: &mut Walk, field: &str, value: &str)
    ensures
        final(w)@ == color_checked(old(w)@, field@, value@),
{
    if blank(value) {
        return;
    }
    if !is_hex_color(value) {
        w.error(cat4(field, " must be #RRGGBB, got '", value, "'"));
    }
}

fn check_one_of(w: &mut Walk, field: &str, value: &str, allowed: &Vec<String>)
    ensures
        final(w)@ == one_of_checked(old(w)@, field@, value@, views(allowed@)),
{
    let v = trim_str(value);
    if v.as_str().is_empty() {
        return;
    }
    let mut i: usize = 0;
    while i < allowed.len()
        invariant
            i <= allowed.len(),
            v@ == trim(value@),
            v@.len() > 0,
            forall|j: int| 0 <= j < i ==> views(allowed@)[j] != v@,
        decreases allowed.len() - i,
    {
        if crate::text::eq_str(allowed[i].as_str(), v.as_str()) {
            assert(views(allowed@)[i as int] == v@);
            return;
        }
        i += 1;
    }
    let list = crate::text::join_exec(allowed, "|");
    let mut m = cat4(field, " must be one of ", list.as_str(), ", got '");
    push_str(&mut m, value);
    push_str(&mut m, "'");
    w.error(m);
}

fn words_of(a: &'static str, b: &'static str) -> (r: Vec<String>)
    ensures
        views(r@) == seq![a@, b@],
{
    let r = vec![owned(a), owned(b)];
    assert(views(r@) =~= seq![a@, b@]);
    r
}

fn words_of3(a: &'static str, b: &'static str, c: &'static str) -> (r: Vec<String>)
    ensures
        views(r@) == seq![a@, b@, c@],
{
    let r = vec![owned(a), owned(b), owned(c)];
    assert(views(r@) =~= seq![a@, b@, c@]);
    r
}

fn check_opt_one_of(w: &mut Walk, field: &str, value: &Option<String>, allowed: &Vec<String>)
    ensures
        final(w)@ == one_of_checked(old(w)@, field@, text_or_empty(*value), views(allowed@)),
{
    check_one_of(w, field, opt(value), allowed);
}

fn given_text(v: &Option<String>) -> (r: Option<String>)
    ensures
        r is Some == given(*v) is Some,
        r matches Some(x) ==> given(*v) == Some(x@),
{
    match v {
        Some(s) => {
            let t = trim_str(s.as_str());
            if t.as_str().is_empty() {
                None
            } else {
                Some(t)
            }
        },
        None => None,
    }
}

fn check_border_sides(w: &mut Walk, field: &str, value: &Option<String>)
    ensures
        final(w)@ == border_sides_checked(old(w)@, field@, *value),
{
    if let Some(v) = given_text(value) {
        if let Err(e) = Sides::from_storage(v.as_str()) {
            w.error(cat3(field, " ", e.as_str()));
        }
    }
}

fn check_padding(w: &mut Walk, field: &str, value: &Option<String>)
    ensures
        final(w)@ == padding_checked(old(w)@, field@, *value),
{
    if let Some(v) = given_text(value) {
        if crate::padding::normalize_padding(v.as_str()).is_err() {
            let mut m = cat4(field, " must be ", crate::padding::RULE, ", got '");
            push_str(&mut m, v.as_str());
            push_str(&mut m, "'");
            w.error(m);
        }
    }
}

fn check_unit(w: &mut Walk, field: &str, value: &Option<String>)
    ensures
        final(w)@ == unit_checked(old(w)@, field@, *value),
{
    if let Some(v) = given_text(value) {
        if crate::padding::normalize_padding(v.as_str()).is_ok() || crate::padding::normalize_unit(
            v.as_str(),
        ).is_ok() {
            return;
        }
        let mut m = cat4(field, " must be ", crate::padding::UNIT_RULE, ", got '");
        push_str(&mut m, v.as_str());
        push_str(&mut m, "'");
        w.error(m);
    }
}


pub proof fn lemma_scaled_bound(s: Seq<char>)
    ensures
        scaled_decimal(s) matches Some(x) ==> -crate::padding::length_bound() < x
            < crate::padding::length_bound(),
{
    if s.len() > 0 && (s[0] == '-' || s[0] == '+') {
        crate::padding::lemma_unsigned_bound(s.drop_first());
    } else {
        crate::padding::lemma_unsigned_bound(s);
    }
}

pub proof fn lemma_horizontal_bound(v: Seq<char>)
    ensures
        horizontal_scaled(v) matches Some(x) ==> -2 * crate::padding::length_bound() < x < 2
            * crate::padding::length_bound(),
{
    match normalized_padding(v) {
        Some(n) => {
            let parts = crate::text::words(n, false);
            if parts.len() > 0 {
                crate::padding::lemma_px_bound(parts[0]);
            }
            if parts.len() > 1 {
                crate::padding::lemma_px_bound(parts[1]);
            }
            if parts.len() > 3 {
                crate::padding::lemma_px_bound(parts[3]);
            }
        },
        None => {},
    }
}

pub proof fn lemma_border_bound(value: Seq<char>, sides: Seq<char>)
    ensures
        -2 * crate::padding::length_bound() < border_horizontal_scaled(value, sides) < 2
            * crate::padding::length_bound(),
{
    let ws = crate::text::words(value, false);
    let first = if ws.len() > 0 {
        ws[0]
    } else {
        Seq::empty()
    };
    if first.len() > 0 && ends_with(first, "px"@) {
        lemma_scaled_bound(first.take(first.len() - "px"@.len()));
    }
}

fn check_button_inner_padding_vs_width(w: &mut Walk, btn: &MjButton)
    ensures
        final(w)@ == button_room_checked(old(w)@, *btn),
{
    let width = match given_text(&btn.width) {
        Some(x) => x,
        None => {
            return;
        },
    };
    if !crate::text::ends_with_str(width.as_str(), "px") {
        return;
    }
    proof {
        reveal_strlit("px");
    }
    let wv = chars_of(width.as_str());
    let num = crate::text::string_of(&wv, 0, wv.len() - 2);
    assert(num@ =~= width@.take(width@.len() - 2));
    let width_px = match crate::padding::parse_scaled(num.as_str()) {
        Some(x) => x,
        None => {
            return;
        },
    };
    let inner = match given_text(&btn.inner_padding) {
        Some(x) => x,
        None => owned(BRAND_BUTTON_INNER_PADDING),
    };
    let inner_h = match crate::padding::horizontal_px(inner.as_str()) {
        Some(x) => x,
        None => {
            return;
        },
    };
    let border_h: i128 = match &btn.border {
        Some(b) => crate::border::horizontal_px(
            b.as_str(),
            match &btn.border_sides {
                Some(x) => Some(x.as_str()),
                None => None,
            },
        ),
        None => 0,
    };
    proof {
        lemma_scaled_bound(num@);
        lemma_horizontal_bound(inner@);
        if btn.border is Some {
            lemma_border_bound(btn.border->0@, text_or_empty(btn.border_sides));
        }
        assert(match btn.border_sides {
            Some(x) => x@,
            None => Seq::<char>::empty(),
        } == text_or_empty(btn.border_sides));
    }
    if width_px - inner_h - border_h <= 0 {
        let mut m = owned("mj-button inner-padding + border leave no room inside width ");
        push_str(&mut m, width.as_str());
        push_str(&mut m, " (MJML collapses the button)");
        w.error(m);
    }
}

/// The paths where a relative image may live (see [`image_candidates`]).
fn candidate_paths(src: &str) -> (r: Vec<String>)
    ensures
        views(r@) == image_candidates(src@),
{
    let rel = crate::text::strip_start_char(src, '/');
    let candidates: Vec<String> = if crate::text::starts_with_str(rel.as_str(), "images/") {
        vec![owned(rel.as_str())]
    } else {
        vec![cat("images/", rel.as_str()), owned(rel.as_str())]
    };
    assert(views(candidates@) =~= image_candidates(src@));
    candidates
}

/// Records the paths that decide whether a relative image exists.
fn add_probes(w: &mut Walk, src: &str)
    ensures
        final(w)@ == (Audit { probes: old(w)@.probes + image_candidates(src@), ..old(w)@ }),
{
    let candidates = candidate_paths(src);
    let ghost start = w@;
    let mut i: usize = 0;
    while i < candidates.len()
        invariant
            i <= candidates.len(),
            views(candidates@) == image_candidates(src@),
            w@ == (Audit { probes: start.probes + image_candidates(src@).take(i as int), ..start }),
        decreases candidates.len() - i,
    {
        let ghost before = views(w.probes@);
        w.probes.push(owned(candidates[i].as_str()));
        proof {
            assert(views(w.probes@) =~= before.push(candidates@[i as int]@));
            assert(image_candidates(src@).take(i + 1) =~= image_candidates(src@).take(i as int).push(
                candidates@[i as int]@,
            ));
            assert(start.probes + image_candidates(src@).take(i + 1) =~= (start.probes + image_candidates(
                src@,
            ).take(i as int)).push(candidates@[i as int]@));
        }
        i += 1;
    }
    assert(image_candidates(src@).take(candidates.len() as int) =~= image_candidates(src@));
}

/// Whether a relative image is among the local files (see [`image_candidates`]).
fn local_image_exists(files: &LocalFiles, src: &str) -> (r: bool)
    ensures
        r == local_image_found(views(files.paths@), src@),
{
    let candidates = candidate_paths(src);
    let mut i: usize = 0;
    while i < candidates.len()
        invariant
            i <= candidates.len(),
            views(candidates@) == image_candidates(src@),
            forall|j: int| 0 <= j < i ==> !views(files.paths@).contains(#[trigger] image_candidates(src@)[j]),
        decreases candidates.len() - i,
    {
        let mut k: usize = 0;
        let mut found = false;
        while k < files.paths.len()
            invariant
                k <= files.paths.len(),
                i < candidates.len(),
                found ==> views(files.paths@).contains(candidates@[i as int]@),
                !found ==> forall|m: int| 0 <= m < k ==> views(files.paths@)[m] != candidates@[i as int]@,
            decreases files.paths.len() - k,
        {
            if crate::text::eq_str(files.paths[k].as_str(), candidates[i].as_str()) {
                assert(views(files.paths@)[k as int] == candidates@[i as int]@);
                found = true;
            }
            k += 1;
        }
        if found {
            assert(image_candidates(src@)[i as int] == candidates@[i as int]@);
            return true;
        }
        assert(!views(files.paths@).contains(candidates@[i as int]@));
        i += 1;
    }
    false
}

fn check_image_src(w: &mut Walk, o: &Opts, field: &str, src: &str)
    ensures
        final(w)@ == image_src_checked(old(w)@, ctx_of(*o), field@, src@),
{
    let s = trim_str(src);
    let l = crate::text::lower_str(s.as_str());
    if crate::text::starts_with_str(l.as_str(), "data:") || crate::text::starts_with_str(l.as_str(), "cid:") {
        w.error(cat3(field, " uses unsupported scheme: ", s.as_str()));
        return;
    }
    if crate::text::starts_with_str(l.as_str(), "https://") {
        return;
    }
    if crate::text::starts_with_str(l.as_str(), "http://") {
        if o.export {
            w.error(cat3(field, " must be https:// in export, got ", s.as_str()));
        } else if crate::text::starts_with_str(l.as_str(), "http://127.0.0.1:") || crate::text::starts_with_str(
            l.as_str(),
            "http://localhost:",
        ) {
        } else {
            w.error(cat3(field, " uses insecure http:// URL: ", s.as_str()));
        }
        return;
    }
    w.relative = true;
    add_probes(w, s.as_str());
    if o.export {
        let base = trim_str(o.base_url);
        if !crate::text::starts_with_str(base.as_str(), "https://") {
            w.error(cat(field, " is relative and requires an https:// base_url in export"));
        }
    }
    if let Some(files) = o.files {
        if !local_image_exists(files, s.as_str()) {
            w.error(cat("Missing local image: ", s.as_str()));
        }
    }
}

fn check_required_image(w: &mut Walk, o: &Opts, field: &str, src: &str)
    ensures
        final(w)@ == required_image(old(w)@, ctx_of(*o), field@, src@),
{
    if blank(src) {
        w.error(cat(field, " is empty"));
        return;
    }
    check_image_src(w, o, field, src);
}

fn check_optional_image(w: &mut Walk, o: &Opts, field: &str, src: &str)
    ensures
        final(w)@ == optional_image(old(w)@, ctx_of(*o), field@, src@),
{
    if blank(src) {
        return;
    }
    check_image_src(w, o, field, src);
}

fn starts_with_table_tag(l: &str) -> (r: bool)
    ensures
        r == table_tag_first(l@),
{
    if !crate::text::starts_with_str(l, "<table") {
        return false;
    }
    proof {
        reveal_strlit("<table");
    }
    let v = chars_of(l);
    let rest = crate::text::sub_vec(&v, 6, v.len());
    assert(rest@ =~= l@.skip(6));
    rest.len() == 0 || rest[0] == '>' || rest[0] == '/' || crate::text::is_ws_char(rest[0])
}

/// `mj-table` content is row markup (see [`is_table_fragment`]).
pub fn is_table_inner_fragment(content: &str) -> (r: bool)
    ensures
        r == is_table_fragment(content@),
{
    let t = trim_str(content);
    if t.as_str().is_empty() {
        return false;
    }
    let l = crate::text::lower_str(t.as_str());
    if starts_with_table_tag(l.as_str()) {
        return false;
    }
    crate::text::contains_str(l.as_str(), "<tr") && crate::text::contains_str(l.as_str(), "</tr>")
}


fn check_social_element(el: &MjSocialElement, w: &mut Walk)
    ensures
        final(w)@ == social_element_audit(old(w)@, *el),
{
    if blank(el.href.as_str()) {
        w.error(owned("mj-social-element.href is empty"));
    }
    let no_src = match &el.src {
        Some(s) => blank(s.as_str()),
        None => true,
    };
    if el.name == SocialNetwork::Web && no_src {
        w.warning(owned("social web element has no icon src"));
    }
    check_color(w, "mj-social-element.background_color", opt(&el.background_color));
    check_padding(w, "mj-social-element.padding", &el.padding);
}

fn check_social_elements(els: &Vec<MjSocialElement>, w: &mut Walk)
    ensures
        final(w)@ == fold_audit(old(w)@, els@, social_element_step()),
{
    let ghost start = w@;
    let mut i: usize = 0;
    assert(els@.take(0) =~= Seq::<MjSocialElement>::empty());
    while i < els.len()
        invariant
            i <= els.len(),
            w@ == fold_audit(start, els@.take(i as int), social_element_step()),
        decreases els.len() - i,
    {
        proof {
            lemma_fold_audit_step(start, els@, i as int, social_element_step());
        }
        check_social_element(&els[i], w);
        i += 1;
    }
    assert(els@.take(els.len() as int) =~= els@);
}

fn walk_navbar(nav: &crate::model::MjNavbar, w: &mut Walk)
    ensures
        final(w)@ == {
            let a = color_checked(old(w)@, "mj-navbar.ico_color"@, text_or_empty(nav.ico_color));
            let a = padding_checked(a, "mj-navbar.padding"@, nav.padding);
            let a = if nav.links@.len() == 0 {
                warn(a, "mj-navbar has no mj-navbar-link children"@)
            } else {
                a
            };
            fold_audit(a, nav.links@, navbar_link_step())
        },
{
    check_color(w, "mj-navbar.ico_color", opt(&nav.ico_color));
    check_padding(w, "mj-navbar.padding", &nav.padding);
    if nav.links.len() == 0 {
        w.warning(owned("mj-navbar has no mj-navbar-link children"));
    }
    let ghost start = w@;
    let mut i: usize = 0;
    assert(nav.links@.take(0) =~= Seq::<crate::model::MjNavbarLink>::empty());
    while i < nav.links.len()
        invariant
            i <= nav.links.len(),
            w@ == fold_audit(start, nav.links@.take(i as int), navbar_link_step()),
        decreases nav.links.len() - i,
    {
        proof {
            lemma_fold_audit_step(start, nav.links@, i as int, navbar_link_step());
        }
        let link = &nav.links[i];
        if blank(link.href.as_str()) {
            w.error(owned("mj-navbar-link.href is empty"));
        }
        check_color(w, "mj-navbar-link.color", opt(&link.color));
        check_padding(w, "mj-navbar-link.padding", &link.padding);
        check_unit(w, "mj-navbar-link.font_size", &link.font_size);
        i += 1;
    }
    assert(nav.links@.take(nav.links.len() as int) =~= nav.links@);
}

fn walk_accordion(acc: &crate::model::MjAccordion, w: &mut Walk)
    ensures
        final(w)@ == {
            let a = padding_checked(old(w)@, "mj-accordion.padding"@, acc.padding);
            let a = one_of_checked(a, "mj-accordion.icon_position"@, text_or_empty(acc.icon_position), seq!["left"@, "right"@]);
            let a = if acc.elements@.len() == 0 {
                warn(a, "mj-accordion has no mj-accordion-element children"@)
            } else {
                a
            };
            fold_audit(a, acc.elements@, accordion_element_step())
        },
{
    check_padding(w, "mj-accordion.padding", &acc.padding);
    check_opt_one_of(w, "mj-accordion.icon_position", &acc.icon_position, &words_of("left", "right"));
    if acc.elements.len() == 0 {
        w.warning(owned("mj-accordion has no mj-accordion-element children"));
    }
    let ghost start = w@;
    let mut i: usize = 0;
    assert(acc.elements@.take(0) =~= Seq::<crate::model::MjAccordionElement>::empty());
    while i < acc.elements.len()
        invariant
            i <= acc.elements.len(),
            w@ == fold_audit(start, acc.elements@.take(i as int), accordion_element_step()),
        decreases acc.elements.len() - i,
    {
        proof {
            lemma_fold_audit_step(start, acc.elements@, i as int, accordion_element_step());
        }
        let el = &acc.elements[i];
        if blank(el.title.as_str()) {
            w.error(owned("mj-accordion-element.title is empty"));
        }
        check_color(w, "mj-accordion-element.background_color", opt(&el.background_color));
        if crate::text::contains_ci_str(el.content.as_str(), "</mj-") {
            w.error(owned("mj-accordion-element.content contains </mj-"));
        }
        i += 1;
    }
    assert(acc.elements@.take(acc.elements.len() as int) =~= acc.elements@);
}

fn walk_carousel(car: &crate::model::MjCarousel, w: &mut Walk, o: &Opts)
    ensures
        final(w)@ == {
            let a = padding_checked(old(w)@, "mj-carousel.padding"@, car.padding);
            let a = unit_checked(a, "mj-carousel.border_radius"@, car.border_radius);
            let a = unit_checked(a, "mj-carousel.tb_border_radius"@, car.tb_border_radius);
            let a = if car.images@.len() == 0 {
                warn(a, "mj-carousel has no mj-carousel-image children"@)
            } else {
                a
            };
            fold_audit(a, car.images@, carousel_image_step(ctx_of(*o)))
        },
{
    check_padding(w, "mj-carousel.padding", &car.padding);
    check_unit(w, "mj-carousel.border_radius", &car.border_radius);
    check_unit(w, "mj-carousel.tb_border_radius", &car.tb_border_radius);
    if car.images.len() == 0 {
        w.warning(owned("mj-carousel has no mj-carousel-image children"));
    }
    let ghost start = w@;
    let mut i: usize = 0;
    assert(car.images@.take(0) =~= Seq::<crate::model::MjCarouselImage>::empty());
    while i < car.images.len()
        invariant
            i <= car.images.len(),
            w@ == fold_audit(start, car.images@.take(i as int), carousel_image_step(ctx_of(*o))),
        decreases car.images.len() - i,
    {
        proof {
            lemma_fold_audit_step(start, car.images@, i as int, carousel_image_step(ctx_of(*o)));
        }
        let img = &car.images[i];
        check_required_image(w, o, "mj-carousel-image.src", img.src.as_str());
        if blank(img.alt.as_str()) {
            w.error(owned("mj-carousel-image.alt is empty"));
        }
        check_optional_image(w, o, "mj-carousel-image.thumbnails_src", opt(&img.thumbnails_src));
        i += 1;
    }
    assert(car.images@.take(car.images.len() as int) =~= car.images@);
}

fn add_font(w: &mut Walk, ff: &Option<String>)
    ensures
        final(w)@ == with_font(old(w)@, *ff),
{
    if let Some(f) = ff {
        push_str(&mut w.fonts, " ");
        push_str(&mut w.fonts, f.as_str());
    }
}

fn walk_column_child(child: &ColumnChild, w: &mut Walk, o: &Opts)
    ensures
        final(w)@ == child_audit(old(w)@, ctx_of(*o), *child),
{
    reveal(child_audit);
    match child {
        ColumnChild::MjText(text) => {
            check_color(w, "mj-text.color", opt(&text.color));
            check_padding(w, "mj-text.padding", &text.padding);
            check_unit(w, "mj-text.line_height", &text.line_height);
            add_font(w, &text.font_family);
            if crate::text::contains_ci_str(text.content.as_str(), "</mj-") {
                w.error(owned("mj-text.content contains </mj-"));
            }
        },
        ColumnChild::MjButton(btn) => {
            check_color(w, "mj-button.background_color", opt(&btn.background_color));
            check_color(w, "mj-button.color", opt(&btn.color));
            check_padding(w, "mj-button.padding", &btn.padding);
            check_padding(w, "mj-button.inner_padding", &btn.inner_padding);
            check_button_inner_padding_vs_width(w, btn);
            check_border_sides(w, "mj-button.border_sides", &btn.border_sides);
            check_unit(w, "mj-button.border_radius", &btn.border_radius);
            check_unit(w, "mj-button.font_size", &btn.font_size);
            check_unit(w, "mj-button.height", &btn.height);
            check_opt_one_of(w, "mj-button.target", &btn.target, &words_of("_blank", "_self"));
            add_font(w, &btn.font_family);
            if blank(btn.href.as_str()) {
                w.error(owned("mj-button.href is empty"));
            }
        },
        ColumnChild::MjImage(img) => {
            check_required_image(w, o, "mj-image.src", img.src.as_str());
            check_padding(w, "mj-image.padding", &img.padding);
            check_border_sides(w, "mj-image.border_sides", &img.border_sides);
            check_unit(w, "mj-image.border_radius", &img.border_radius);
            check_unit(w, "mj-image.height", &img.height);
            check_opt_one_of(w, "mj-image.target", &img.target, &words_of("_blank", "_self"));
            if blank(img.alt.as_str()) {
                w.error(owned("mj-image.alt is empty"));
            }
        },
        ColumnChild::MjDivider(d) => {
            check_color(w, "mj-divider.border_color", opt(&d.border_color));
            check_padding(w, "mj-divider.padding", &d.padding);
            check_unit(w, "mj-divider.border_width", &d.border_width);
            check_unit(w, "mj-divider.width", &d.width);
        },
        ColumnChild::MjSpacer(sp) => {
            check_padding(w, "mj-spacer.padding", &sp.padding);
        },
        ColumnChild::MjSocial(social) => {
            check_padding(w, "mj-social.padding", &social.padding);
            check_padding(w, "mj-social.icon_padding", &social.icon_padding);
            check_padding(w, "mj-social.inner_padding", &social.inner_padding);
            check_unit(w, "mj-social.border_radius", &social.border_radius);
            check_color(w, "mj-social.color", opt(&social.color));
            check_social_elements(&social.elements, w);
        },
        ColumnChild::MjTable(table) => {
            check_color(w, "mj-table.color", opt(&table.color));
            check_padding(w, "mj-table.padding", &table.padding);
            check_unit(w, "mj-table.line_height", &table.line_height);
            check_opt_one_of(w, "mj-table.role", &table.role, &words_of("none", "presentation"));
            if crate::text::contains_ci_str(table.content.as_str(), "</mj-") {
                w.error(owned("mj-table.content contains </mj-"));
            }
            if !is_table_inner_fragment(table.content.as_str()) {
                w.error(owned("mj-table.content must be table rows (<tr>…</tr>), not a wrapping <table>"));
            }
        },
        ColumnChild::MjNavbar(nav) => walk_navbar(nav, w),
        ColumnChild::MjAccordion(acc) => walk_accordion(acc, w),
        ColumnChild::MjCarousel(car) => walk_carousel(car, w, o),
    }
}

fn walk_column_children(cs: &Vec<ColumnChild>, w: &mut Walk, o: &Opts)
    ensures
        final(w)@ == fold_audit(old(w)@, cs@, child_step(ctx_of(*o))),
{
    let ghost start = w@;
    let mut i: usize = 0;
    assert(cs@.take(0) =~= Seq::<ColumnChild>::empty());
    while i < cs.len()
        invariant
            i <= cs.len(),
            w@ == fold_audit(start, cs@.take(i as int), child_step(ctx_of(*o))),
        decreases cs.len() - i,
    {
        proof {
            lemma_fold_audit_step(start, cs@, i as int, child_step(ctx_of(*o)));
        }
        walk_column_child(&cs[i], w, o);
        i += 1;
    }
    assert(cs@.take(cs.len() as int) =~= cs@);
}


fn walk_column(col: &MjColumn, w: &mut Walk, o: &Opts)
    ensures
        final(w)@ == column_audit(old(w)@, ctx_of(*o), *col),
{
    check_color(w, "mj-column.background_color", opt(&col.background_color));
    check_color(w, "mj-column.inner_background_color", opt(&col.inner_background_color));
    check_padding(w, "mj-column.padding", &col.padding);
    check_border_sides(w, "mj-column.border_sides", &col.border_sides);
    check_unit(w, "mj-column.border_radius", &col.border_radius);
    check_border_sides(w, "mj-column.inner_border_sides", &col.inner_border_sides);
    check_opt_one_of(w, "mj-column.vertical_align", &col.vertical_align, &words_of3("top", "middle", "bottom"));
    check_unit(w, "mj-column.inner_border_radius", &col.inner_border_radius);
    walk_column_children(&col.components, w, o);
}

fn walk_group(group: &MjGroup, w: &mut Walk, o: &Opts)
    ensures
        final(w)@ == group_audit(old(w)@, ctx_of(*o), *group),
{
    check_color(w, "mj-group.background_color", opt(&group.background_color));
    check_opt_one_of(w, "mj-group.direction", &group.direction, &words_of("ltr", "rtl"));
    check_opt_one_of(w, "mj-group.vertical_align", &group.vertical_align, &words_of3("top", "middle", "bottom"));
    if group.children.len() == 0 {
        w.error(owned("mj-group has no columns"));
    }
    let ghost start = w@;
    let mut i: usize = 0;
    assert(group.children@.take(0) =~= Seq::<MjColumn>::empty());
    while i < group.children.len()
        invariant
            i <= group.children.len(),
            w@ == fold_audit(start, group.children@.take(i as int), column_step(ctx_of(*o))),
        decreases group.children.len() - i,
    {
        proof {
            lemma_fold_audit_step(start, group.children@, i as int, column_step(ctx_of(*o)));
        }
        walk_column(&group.children[i], w, o);
        i += 1;
    }
    assert(group.children@.take(group.children.len() as int) =~= group.children@);
}

fn walk_section_child(c: &SectionChild, w: &mut Walk, o: &Opts)
    ensures
        final(w)@ == section_child_audit(old(w)@, ctx_of(*o), *c),
{
    reveal(section_child_audit);
    match c {
        SectionChild::MjColumn(col) => walk_column(col, w, o),
        SectionChild::MjGroup(g) => walk_group(g, w, o),
    }
}

fn walk_section(section: &MjSection, w: &mut Walk, o: &Opts)
    ensures
        final(w)@ == section_audit(old(w)@, ctx_of(*o), *section),
{
    check_color(w, "mj-section.background_color", opt(&section.background_color));
    check_padding(w, "mj-section.padding", &section.padding);
    check_border_sides(w, "mj-section.border_sides", &section.border_sides);
    check_unit(w, "mj-section.border_radius", &section.border_radius);
    check_unit(w, "mj-section.gutter", &section.gutter);
    check_opt_one_of(w, "mj-section.direction", &section.direction, &words_of("ltr", "rtl"));
    check_opt_one_of(w, "mj-section.background_repeat", &section.background_repeat, &words_of("repeat", "no-repeat"));
    check_optional_image(w, o, "mj-section.background_url", opt(&section.background_url));
    if section.children.len() == 0 {
        w.error(owned("mj-section has no children"));
    }
    let ghost start = w@;
    let mut i: usize = 0;
    assert(section.children@.take(0) =~= Seq::<SectionChild>::empty());
    while i < section.children.len()
        invariant
            i <= section.children.len(),
            w@ == fold_audit(start, section.children@.take(i as int), section_child_step(ctx_of(*o))),
        decreases section.children.len() - i,
    {
        proof {
            lemma_fold_audit_step(start, section.children@, i as int, section_child_step(ctx_of(*o)));
        }
        walk_section_child(&section.children[i], w, o);
        i += 1;
    }
    assert(section.children@.take(section.children.len() as int) =~= section.children@);
}

fn walk_hero(hero: &MjHero, w: &mut Walk, o: &Opts)
    ensures
        final(w)@ == hero_audit(old(w)@, ctx_of(*o), *hero),
{
    check_color(w, "mj-hero.background_color", opt(&hero.background_color));
    check_padding(w, "mj-hero.padding", &hero.padding);
    check_padding(w, "mj-hero.inner_padding", &hero.inner_padding);
    check_unit(w, "mj-hero.border_radius", &hero.border_radius);
    check_opt_one_of(w, "mj-hero.vertical_align", &hero.vertical_align, &words_of3("top", "middle", "bottom"));
    check_optional_image(w, o, "mj-hero.background_url", opt(&hero.background_url));
    walk_column_children(&hero.children, w, o);
}

fn walk_email_header(h: &EmailHeader, w: &mut Walk, o: &Opts)
    ensures
        final(w)@ == header_audit(old(w)@, ctx_of(*o), *h),
{
    check_color(w, "email-header.background_color", opt(&h.background_color));
    check_optional_image(w, o, "email-header.logo_src", h.logo_src.as_str());
    if !blank(h.logo_src.as_str()) && blank(h.logo_alt.as_str()) {
        w.error(owned("email-header.logo_alt is required when logo_src is set"));
    }
}

fn walk_email_hero(h: &EmailHero, w: &mut Walk, o: &Opts)
    ensures
        final(w)@ == email_hero_audit(old(w)@, ctx_of(*o), *h),
{
    check_color(w, "email-hero.background_color", opt(&h.background_color));
    check_optional_image(w, o, "email-hero.image_src", h.image_src.as_str());
    if !blank(h.image_src.as_str()) && blank(h.image_alt.as_str()) {
        w.error(owned("email-hero.image_alt is required when image_src is set"));
    }
}

fn walk_email_article(a: &EmailArticle, w: &mut Walk, o: &Opts)
    ensures
        final(w)@ == article_audit(old(w)@, ctx_of(*o), *a),
{
    check_optional_image(w, o, "email-article.image_src", a.image_src.as_str());
    if !blank(a.image_src.as_str()) && blank(a.image_alt.as_str()) {
        w.error(owned("email-article.image_alt is required when image_src is set"));
    }
}

fn any_address(f: &EmailFooter) -> (r: bool)
    ensures
        r == has_address(*f),
{
    let mut i: usize = 0;
    while i < f.address_lines.len()
        invariant
            i <= f.address_lines.len(),
            forall|j: int| 0 <= j < i ==> trim(#[trigger] f.address_lines@[j]@).len() == 0,
        decreases f.address_lines.len() - i,
    {
        if !blank(f.address_lines[i].as_str()) {
            return true;
        }
        i += 1;
    }
    false
}

fn walk_email_footer(f: &EmailFooter, w: &mut Walk)
    ensures
        final(w)@ == footer_audit(old(w)@, *f),
{
    let addressed = any_address(f);
    if !addressed {
        w.error(owned("email-footer.address_lines is empty"));
    }
    check_social_elements(&f.social, w);
    if addressed && blank(f.unsubscribe_href.as_str()) && !blank(f.unsubscribe_label.as_str()) {
        w.warning(owned("marketing mail usually needs an unsubscribe link"));
    }
}

fn walk_wrapper(wrapper: &MjWrapper, w: &mut Walk, o: &Opts)
    ensures
        final(w)@ == wrapper_children_audit(wrapper_head_audit(old(w)@, ctx_of(*o), *wrapper), ctx_of(*o), wrapper.children@),
    decreases wrapper, 1nat,
{
    check_color(w, "mj-wrapper.background_color", opt(&wrapper.background_color));
    check_padding(w, "mj-wrapper.padding", &wrapper.padding);
    check_border_sides(w, "mj-wrapper.border_sides", &wrapper.border_sides);
    check_unit(w, "mj-wrapper.border_radius", &wrapper.border_radius);
    check_unit(w, "mj-wrapper.gap", &wrapper.gap);
    check_opt_one_of(w, "mj-wrapper.background_repeat", &wrapper.background_repeat, &words_of("repeat", "no-repeat"));
    check_optional_image(w, o, "mj-wrapper.background_url", opt(&wrapper.background_url));
    let ghost start = w@;
    let mut i: usize = 0;
    assert(wrapper.children@.subrange(0, 0) =~= Seq::<BodyNode>::empty());
    while i < wrapper.children.len()
        invariant
            i <= wrapper.children.len(),
            w@ == wrapper_children_audit(start, ctx_of(*o), wrapper.children@.subrange(0, i as int)),
        decreases wrapper.children.len() - i,
    {
        let ghost before = w@;
        let child = &wrapper.children[i];
        proof {
            let p = wrapper.children@.subrange(0, i + 1);
            assert(p.subrange(0, p.len() - 1) =~= wrapper.children@.subrange(0, i as int));
            assert(p[p.len() - 1] == *child);
        }
        match child {
            BodyNode::MjSection(_) => walk_body(child, w, o),
            BodyNode::MjHero(_) => walk_body(child, w, o),
            _ => w.error(owned("mj-wrapper may only contain mj-section or mj-hero")),
        }
        i += 1;
    }
    assert(wrapper.children@.subrange(0, wrapper.children.len() as int) =~= wrapper.children@);
}

fn walk_body(node: &BodyNode, w: &mut Walk, o: &Opts)
    ensures
        final(w)@ == body_audit(old(w)@, ctx_of(*o), *node),
    decreases node, 2nat,
{
    match node {
        BodyNode::MjSection(section) => walk_section(section, w, o),
        BodyNode::MjWrapper(wrapper) => walk_wrapper(wrapper, w, o),
        BodyNode::MjHero(hero) => walk_hero(hero, w, o),
        BodyNode::EmailHeader(h) => walk_email_header(h, w, o),
        BodyNode::EmailHero(h) => walk_email_hero(h, w, o),
        BodyNode::EmailCta(c) => {
            check_color(w, "email-cta.background_color", opt(&c.background_color));
            if blank(c.button_href.as_str()) {
                w.error(owned("email-cta.button_href is empty"));
            }
        },
        BodyNode::EmailArticle(a) => walk_email_article(a, w, o),
        BodyNode::EmailFooter(f) => walk_email_footer(f, w),
    }
}


pub proof fn lemma_quotes_start_skip(s: Seq<char>, i: int)
    requires
        0 <= i <= s.len(),
        forall|k: int| 0 <= k < i ==> is_quote(#[trigger] s[k]),
    ensures
        strip_quotes_start(s) == strip_quotes_start(s.skip(i)),
    decreases i,
{
    if i > 0 {
        lemma_quotes_start_skip(s, i - 1);
        assert(s.skip(i - 1).drop_first() =~= s.skip(i));
    } else {
        assert(s.skip(0) =~= s);
    }
}

pub proof fn lemma_quotes_end_take(s: Seq<char>, j: int)
    requires
        0 <= j <= s.len(),
        forall|k: int| j <= k < s.len() ==> is_quote(#[trigger] s[k]),
    ensures
        strip_quotes_end(s) == strip_quotes_end(s.take(j)),
    decreases s.len() - j,
{
    if j < s.len() {
        lemma_quotes_end_take(s, j + 1);
        assert(s.take(j + 1).drop_last() =~= s.take(j));
    } else {
        assert(s.take(j) =~= s);
    }
}

/// `s` without leading and trailing quote characters.
fn strip_quotes(v: &Vec<char>) -> (r: String)
    ensures
        r@ == strip_quotes_end(strip_quotes_start(v@)),
{
    let mut a: usize = 0;
    while a < v.len() && (v[a] == '\'' || v[a] == '"')
        invariant
            a <= v.len(),
            forall|k: int| 0 <= k < a ==> is_quote(#[trigger] v@[k]),
        decreases v.len() - a,
    {
        a += 1;
    }
    proof {
        lemma_quotes_start_skip(v@, a as int);
    }
    let rest = crate::text::sub_vec(v, a, v.len());
    assert(rest@ =~= v@.skip(a as int));
    let mut b: usize = rest.len();
    while b > 0 && (rest[b - 1] == '\'' || rest[b - 1] == '"')
        invariant
            b <= rest.len(),
            forall|k: int| b <= k < rest.len() ==> is_quote(#[trigger] rest@[k]),
        decreases b,
    {
        b -= 1;
    }
    proof {
        lemma_quotes_end_take(rest@, b as int);
    }
    let r = crate::text::string_of(&rest, 0, b);
    assert(r@ =~= rest@.take(b as int));
    r
}

/// The `url(...)` arguments of a stylesheet (see [`css_urls_from`]).
fn css_urls(css: &str) -> (r: Vec<String>)
    ensures
        views(r@) == css_urls_from(css@, 0),
{
    let v = chars_of(css);
    let lv = crate::text::lower_vec(&v);
    let needle = chars_of("url(");
    let mut out: Vec<String> = Vec::new();
    let mut search: usize = 0;
    let mut done = false;
    assert(views(out@) + css_urls_from(css@, 0) =~= css_urls_from(css@, 0));
    while !done && search < v.len()
        invariant
            v@ == css@,
            lv@ == lower(css@),
            needle@ == "url("@,
            search <= v.len(),
            done ==> css_urls_from(css@, search as int) == Seq::<Seq<char>>::empty(),
            css_urls_from(css@, 0) == views(out@) + css_urls_from(css@, search as int),
        decreases v.len() - search, if done { 0nat } else { 1nat },
    {
        match crate::text::find_from_exec(&lv, &needle, search) {
            None => {
                done = true;
            },
            Some(k) => {
                proof {
                    crate::text::lemma_find_from_is_first(lower(css@), "url("@, search as int);
                }
                let start = k + needle.len();
                let end = match crate::text::first_of_exec(&v, ')', start) {
                    Some(e) => e,
                    None => v.len(),
                };
                proof {
                    crate::text::lemma_first_of(css@, ')', start as int);
                }
                let inner = crate::text::sub_vec(&v, start, end);
                let (ta, tb) = crate::text::trim_bounds(&inner);
                let trimmed = crate::text::sub_vec(&inner, ta, tb);
                let raw = strip_quotes(&trimmed);
                let ghost before = views(out@);
                out.push(raw);
                proof {
                    assert(views(out@) =~= before.push(raw@));
                    assert(before.push(raw@) + css_urls_from(css@, end + 1) =~= before + (seq![raw@]
                        + css_urls_from(css@, end + 1)));
                }
                if end >= v.len() {
                    assert(css_urls_from(css@, end + 1) =~= Seq::<Seq<char>>::empty());
                    search = v.len();
                    done = true;
                } else {
                    search = end + 1;
                }
            },
        }
    }
    proof {
        if !done {
            assert(css_urls_from(css@, search as int) =~= Seq::<Seq<char>>::empty());
        }
    }
    assert(views(out@) + Seq::<Seq<char>>::empty() =~= views(out@));
    out
}

fn validate_css(t: &Template, w: &mut Walk)
    ensures
        final(w)@ == css_audit(old(w)@, t.head.css@),
{
    let css = trim_str(t.head.css.as_str());
    if css.as_str().is_empty() {
        return;
    }
    if crate::text::contains_ci_str(css.as_str(), "</mj-style>") || crate::text::contains_ci_str(
        css.as_str(),
        "</mj-",
    ) {
        w.error(owned("head.css contains a forbidden MJML closer"));
    }
    if crate::text::contains_ci_str(css.as_str(), "@import") {
        w.error(owned("head.css must not contain @import"));
    }
    let urls = css_urls(css.as_str());
    let ghost start = w@;
    let mut i: usize = 0;
    assert(views(urls@).take(0) =~= Seq::<Seq<char>>::empty());
    while i < urls.len()
        invariant
            i <= urls.len(),
            w@ == fold_audit(start, views(urls@).take(i as int), css_url_step()),
        decreases urls.len() - i,
    {
        proof {
            lemma_fold_audit_step(start, views(urls@), i as int, css_url_step());
        }
        let url = urls[i].as_str();
        if !crate::text::starts_with_str(url, "https://fonts.googleapis.com/") {
            w.error(cat3("head.css url() must be https://fonts.googleapis.com/, got '", url, "'"));
        }
        i += 1;
    }
    assert(views(urls@).take(urls.len() as int) =~= views(urls@));
}

fn is_google_fonts_css_url(href: &str) -> (r: bool)
    ensures
        r == google_fonts_css(href@),
{
    let h = trim_str(href);
    crate::text::starts_with_str(h.as_str(), "https://fonts.googleapis.com/css?")
        || crate::text::starts_with_str(h.as_str(), "https://fonts.googleapis.com/css2?")
}

fn validate_fonts(t: &Template, w: &mut Walk)
    ensures
        final(w)@ == fonts_audit(old(w)@, t.head.fonts@),
{
    let fonts = &t.head.fonts;
    let mut seen: Vec<String> = Vec::new();
    let ghost start = w@;
    let mut i: usize = 0;
    assert(fonts@.take(0) =~= Seq::<WebFont>::empty());
    assert(views(seen@) =~= font_keys(fonts@.take(0)));
    while i < fonts.len()
        invariant
            i <= fonts.len(),
            fonts == &t.head.fonts,
            w@ == fonts_audit(start, fonts@.take(i as int)),
            views(seen@) == font_keys(fonts@.take(i as int)),
        decreases fonts.len() - i,
    {
        let font = &fonts[i];
        proof {
            let p = fonts@.take(i + 1);
            assert(p.drop_last() =~= fonts@.take(i as int));
            assert(p.last() == *font);
            assert(p.len() - 1 == i);
        }
        let idx = crate::text::decimal_exec(i as u64);
        if blank(font.name.as_str()) {
            w.error(cat3("head.fonts[", idx.as_str(), "].name is empty"));
        }
        let key = crate::text::lower_str(trim_str(font.name.as_str()).as_str());
        let mut dup = false;
        let mut j: usize = 0;
        while j < seen.len()
            invariant
                j <= seen.len(),
                dup ==> views(seen@).contains(key@),
                !dup ==> forall|m: int| 0 <= m < j ==> views(seen@)[m] != key@,
            decreases seen.len() - j,
        {
            if crate::text::eq_str(seen[j].as_str(), key.as_str()) {
                assert(views(seen@)[j as int] == key@);
                dup = true;
            }
            j += 1;
        }
        if !key.as_str().is_empty() && dup {
            w.error(cat3("duplicate font name '", font.name.as_str(), "'"));
        }
        let ghost before = views(seen@);
        seen.push(key);
        proof {
            assert(views(seen@) =~= before.push(key@));
            assert(font_keys(fonts@.take(i + 1)) =~= font_keys(fonts@.take(i as int)).push(font_key(*font)));
        }
        if !is_google_fonts_css_url(font.href.as_str()) {
            w.error(cat5(
                "head.fonts[",
                idx.as_str(),
                "].href must be a Google Fonts CSS URL, got '",
                font.href.as_str(),
                "'",
            ));
        }
        i += 1;
    }
    assert(fonts@.take(fonts.len() as int) =~= fonts@);
}

impl Walk {
    fn add_all(&mut self, errs: Vec<String>, warns: Vec<String>)
        ensures
            final(self)@ == (Audit {
                errors: old(self)@.errors + views(errs@),
                warnings: old(self)@.warnings + views(warns@),
                ..old(self)@
            }),
    {
        let mut i: usize = 0;
        while i < errs.len()
            invariant
                i <= errs.len(),
                self@ == (Audit { errors: old(self)@.errors + views(errs@).take(i as int), ..old(self)@ }),
            decreases errs.len() - i,
        {
            let ghost before = self@;
            self.error(owned(errs[i].as_str()));
            assert(old(self)@.errors + views(errs@).take(i + 1) =~= (old(self)@.errors + views(errs@).take(
                i as int,
            )).push(errs@[i as int]@));
            i += 1;
        }
        assert(views(errs@).take(errs.len() as int) =~= views(errs@));
        let ghost mid = self@;
        let mut k: usize = 0;
        while k < warns.len()
            invariant
                k <= warns.len(),
                self@ == (Audit { warnings: mid.warnings + views(warns@).take(k as int), ..mid }),
            decreases warns.len() - k,
        {
            self.warning(owned(warns[k].as_str()));
            assert(mid.warnings + views(warns@).take(k + 1) =~= (mid.warnings + views(warns@).take(
                k as int,
            )).push(warns@[k as int]@));
            k += 1;
        }
        assert(views(warns@).take(warns.len() as int) =~= views(warns@));
    }
}

fn validate_json_ld(t: &Template, w: &mut Walk)
    ensures
        final(w)@ == (Audit {
            errors: old(w)@.errors + json_ld_findings(t.head.json_ld@).0,
            warnings: old(w)@.warnings + json_ld_findings(t.head.json_ld@).1,
            ..old(w)@
        }),
{
    let (e, x) = json_ld_findings_exec(t.head.json_ld.as_str());
    w.add_all(e, x);
}

fn check_head(t: &Template, w: &mut Walk)
    ensures
        final(w)@ == head_checks(old(w)@, *t),
{
    if t.version != 1 {
        w.error(cat("version must be 1, got ", crate::text::decimal_exec(t.version as u64).as_str()));
    }
    require_nonempty(w, "name", t.name.as_str());
    require_nonempty(w, "subject", t.subject.as_str());
    require_nonempty(w, "head.title", t.head.title.as_str());
    require_nonempty(w, "lang", t.lang.as_str());
    check_one_of(w, "dir", t.dir.as_str(), &words_of3("auto", "ltr", "rtl"));
    let width = t.brand.content_width;
    if !(320 <= width && width <= 800) {
        w.error(cat("brand.content_width must be 320..=800, got ", crate::text::decimal_exec(width as u64).as_str()));
    }
    check_color(w, "brand.text_color", t.brand.text_color.as_str());
    check_color(w, "brand.background_color", t.brand.background_color.as_str());
    check_color(w, "brand.button_background", t.brand.button_background.as_str());
    check_color(w, "brand.button_color", t.brand.button_color.as_str());
    check_color(w, "body.background_color", t.body.background_color.as_str());
    validate_fonts(t, w);
    validate_json_ld(t, w);
    validate_css(t, w);
}

fn validate_inner(t: &Template, files: Option<&LocalFiles>, export: bool) -> (r: (ValidateReport, Vec<String>))
    ensures
        report_view(r.0) == report_of(*t, files_view(files), export),
        views(r.1@) == audit_of(*t, files_view(files), export).probes,
{
    let mut w = Walk {
        errors: Vec::new(),
        warnings: Vec::new(),
        fonts: owned(t.brand.font_family.as_str()),
        relative: false,
        probes: Vec::new(),
    };
    assert(views(w.errors@) =~= Seq::<Seq<char>>::empty());
    assert(views(w.probes@) =~= Seq::<Seq<char>>::empty());
    assert(views(w.warnings@) =~= Seq::<Seq<char>>::empty());
    assert(w@ == initial_audit(*t));
    check_head(t, &mut w);
    let o = Opts { files, export, base_url: t.base_url.as_str() };
    let ghost ctx = ctx_of(o);
    assert(ctx == (Ctx { files: files_view(files), export, base_url: t.base_url@ }));
    let ghost start = w@;
    let mut i: usize = 0;
    assert(t.body.nodes@.take(0) =~= Seq::<BodyNode>::empty());
    while i < t.body.nodes.len()
        invariant
            i <= t.body.nodes.len(),
            ctx == ctx_of(o),
            w@ == fold_audit(start, t.body.nodes@.take(i as int), body_step(ctx)),
        decreases t.body.nodes.len() - i,
    {
        proof {
            lemma_fold_audit_step(start, t.body.nodes@, i as int, body_step(ctx));
        }
        walk_body(&t.body.nodes[i], &mut w, &o);
        i += 1;
    }
    assert(t.body.nodes@.take(t.body.nodes.len() as int) =~= t.body.nodes@);
    let ghost mid = w@;
    let mut k: usize = 0;
    assert(t.head.fonts@.take(0) =~= Seq::<WebFont>::empty());
    while k < t.head.fonts.len()
        invariant
            k <= t.head.fonts.len(),
            w@ == fold_audit(mid, t.head.fonts@.take(k as int), unused_font_step()),
        decreases t.head.fonts.len() - k,
    {
        proof {
            lemma_fold_audit_step(mid, t.head.fonts@, k as int, unused_font_step());
        }
        let font = &t.head.fonts[k];
        let name = trim_str(font.name.as_str());
        if !name.as_str().is_empty() && !crate::text::contains_ci_str(w.fonts.as_str(), name.as_str()) {
            w.warning(cat3(
                "font '",
                font.name.as_str(),
                "' is registered but not used in brand.font_family or any node font_family",
            ));
        }
        k += 1;
    }
    assert(t.head.fonts@.take(t.head.fonts.len() as int) =~= t.head.fonts@);
    if w.relative && blank(t.base_url.as_str()) && !export {
        w.warning(owned("base_url is empty while relative images exist"));
    }
    (ValidateReport { errors: w.errors, warnings: w.warnings }, w.probes)
}

/// Validates a template for preview (no local file checks).
pub fn validate_template(t: &Template) -> (r: ValidateReport)
    ensures
        report_view(r) == report_of(*t, None, false),
{
    validate_inner(t, None, false).0
}

/// The paths under the project root that decide whether the template's
/// relative images exist: for each relative image, in the order checked, the
/// places it may live (see [`image_candidates`]). The same paths are asked
/// whatever files are known and whether the check is for export (see
/// [`law_probes_fixed`]).
pub fn local_image_probes(t: &Template) -> (r: Vec<String>)
    ensures
        views(r@) == audit_of(*t, None, false).probes,
{
    validate_inner(t, None, false).1
}

/// Validates a template for preview; with the project's local files, a
/// relative image none of whose places (see [`image_candidates`]) is among
/// them is reported missing.
pub fn validate_template_with_root(t: &Template, root: Option<&LocalFiles>) -> (r: ValidateReport)
    ensures
        report_view(r) == report_of(*t, files_view(root), false),
{
    validate_inner(t, root, false).0
}

/// Validates a template for export: images must be `https://` or relative
/// under an `https://` base URL.
pub fn validate_template_for_export(t: &Template, root: Option<&LocalFiles>) -> (r: ValidateReport)
    ensures
        report_view(r) == report_of(*t, files_view(root), true),
{
    validate_inner(t, root, true).0
}

// ---------------------------------------------------------------------------
// Export validation is stricter than preview validation
// ---------------------------------------------------------------------------

/// `y` is the audit of the same walk as `x` under stricter rules: the same
/// warnings, fonts, relative-image flag and probed paths, and at least as
/// many errors.
pub open spec fn stricter(x: Audit, y: Audit) -> bool {
    &&& x.warnings == y.warnings
    &&& x.fonts == y.fonts
    &&& x.relative == y.relative
    &&& x.probes == y.probes
    &&& x.errors.len() <= y.errors.len()
}

/// A step that keeps the audits in step.
pub open spec fn keeps_step<A>(f: spec_fn(Audit, A) -> Audit, g: spec_fn(Audit, A) -> Audit) -> bool {
    forall|x: Audit, y: Audit, v: A| #[trigger] stricter(x, y) ==> stricter(f(x, v), #[trigger] g(y, v))
}

/// Two contexts of one template, the second at least as strict: an export
/// when the first is, and the same local files when the first knows any.
pub open spec fn ctx_pair(p: Ctx, e: Ctx) -> bool {
    &&& p.base_url == e.base_url
    &&& p.export ==> e.export
    &&& p.files is Some ==> p.files == e.files
}

proof fn lemma_fold_stricter<A>(x: Audit, y: Audit, xs: Seq<A>, f: spec_fn(Audit, A) -> Audit, g: spec_fn(Audit, A) -> Audit)
    requires
        stricter(x, y),
        keeps_step(f, g),
    ensures
        stricter(fold_audit(x, xs, f), fold_audit(y, xs, g)),
    decreases xs.len(),
{
    if xs.len() > 0 {
        lemma_fold_stricter(x, y, xs.drop_last(), f, g);
        let fx = fold_audit(x, xs.drop_last(), f);
        let gy = fold_audit(y, xs.drop_last(), g);
        assert(stricter(f(fx, xs.last()), g(gy, xs.last())));
    }
}

/// The checks that do not depend on the rules keep the audits in step.
proof fn lemma_checks()
    ensures
        forall|x: Audit, y: Audit, f: Seq<char>, v: Seq<char>|
            stricter(x, y) ==> stricter(#[trigger] color_checked(x, f, v), #[trigger] color_checked(y, f, v)),
        forall|x: Audit, y: Audit, f: Seq<char>, v: Seq<char>|
            stricter(x, y) ==> stricter(#[trigger] nonempty_checked(x, f, v), #[trigger] nonempty_checked(y, f, v)),
        forall|x: Audit, y: Audit, f: Seq<char>, v: Seq<char>, al: Seq<Seq<char>>|
            stricter(x, y) ==> stricter(#[trigger] one_of_checked(x, f, v, al), #[trigger] one_of_checked(y, f, v, al)),
        forall|x: Audit, y: Audit, f: Seq<char>, v: Option<String>|
            stricter(x, y) ==> stricter(#[trigger] border_sides_checked(x, f, v), #[trigger] border_sides_checked(y, f, v)),
        forall|x: Audit, y: Audit, f: Seq<char>, v: Option<String>|
            stricter(x, y) ==> stricter(#[trigger] padding_checked(x, f, v), #[trigger] padding_checked(y, f, v)),
        forall|x: Audit, y: Audit, f: Seq<char>, v: Option<String>|
            stricter(x, y) ==> stricter(#[trigger] unit_checked(x, f, v), #[trigger] unit_checked(y, f, v)),
        forall|x: Audit, y: Audit, b: MjButton|
            stricter(x, y) ==> stricter(#[trigger] button_room_checked(x, b), #[trigger] button_room_checked(y, b)),
        forall|x: Audit, y: Audit, ff: Option<String>|
            stricter(x, y) ==> stricter(#[trigger] with_font(x, ff), #[trigger] with_font(y, ff)),
        forall|x: Audit, y: Audit, m: Seq<char>| stricter(x, y) ==> stricter(#[trigger] err(x, m), #[trigger] err(y, m)),
        forall|x: Audit, y: Audit, m: Seq<char>| stricter(x, y) ==> stricter(#[trigger] warn(x, m), #[trigger] warn(y, m)),
        keeps_step(social_element_step(), social_element_step()),
        keeps_step(navbar_link_step(), navbar_link_step()),
        keeps_step(accordion_element_step(), accordion_element_step()),
        keeps_step(unused_font_step(), unused_font_step()),
{
}

proof fn lemma_image_stricter(x: Audit, y: Audit, p: Ctx, e: Ctx, field: Seq<char>, src: Seq<char>)
    requires
        stricter(x, y),
        ctx_pair(p, e),
    ensures
        stricter(image_src_checked(x, p, field, src), image_src_checked(y, e, field, src)),
        stricter(required_image(x, p, field, src), required_image(y, e, field, src)),
        stricter(optional_image(x, p, field, src), optional_image(y, e, field, src)),
{
}

proof fn lemma_images(p: Ctx, e: Ctx)
    requires
        ctx_pair(p, e),
    ensures
        forall|x: Audit, y: Audit, f: Seq<char>, v: Seq<char>|
            stricter(x, y) ==> stricter(#[trigger] required_image(x, p, f, v), #[trigger] required_image(y, e, f, v)),
        forall|x: Audit, y: Audit, f: Seq<char>, v: Seq<char>|
            stricter(x, y) ==> stricter(#[trigger] optional_image(x, p, f, v), #[trigger] optional_image(y, e, f, v)),
{
    assert forall|x: Audit, y: Audit, f: Seq<char>, v: Seq<char>| stricter(x, y) implies stricter(
        #[trigger] required_image(x, p, f, v),
        #[trigger] required_image(y, e, f, v),
    ) by {
        lemma_image_stricter(x, y, p, e, f, v);
    }
    assert forall|x: Audit, y: Audit, f: Seq<char>, v: Seq<char>| stricter(x, y) implies stricter(
        #[trigger] optional_image(x, p, f, v),
        #[trigger] optional_image(y, e, f, v),
    ) by {
        lemma_image_stricter(x, y, p, e, f, v);
    }
}

proof fn lemma_fold_all<A>(xs: Seq<A>, f: spec_fn(Audit, A) -> Audit, g: spec_fn(Audit, A) -> Audit)
    requires
        keeps_step(f, g),
    ensures
        forall|x: Audit, y: Audit|
            stricter(x, y) ==> stricter(#[trigger] fold_audit(x, xs, f), #[trigger] fold_audit(y, xs, g)),
{
    assert forall|x: Audit, y: Audit| stricter(x, y) implies stricter(
        #[trigger] fold_audit(x, xs, f),
        #[trigger] fold_audit(y, xs, g),
    ) by {
        lemma_fold_stricter(x, y, xs, f, g);
    }
}

proof fn lemma_carousel_steps(p: Ctx, e: Ctx)
    requires
        ctx_pair(p, e),
    ensures
        keeps_step(carousel_image_step(p), carousel_image_step(e)),
{
    lemma_checks();
    lemma_images(p, e);
}

#[verifier::spinoff_prover]
proof fn lemma_child_mjtext(x: Audit, y: Audit, p: Ctx, e: Ctx, c: ColumnChild)
    requires
        stricter(x, y),
        ctx_pair(p, e),
        c is MjText,
    ensures
        stricter(child_audit(x, p, c), child_audit(y, e, c)),
{
    reveal(child_audit);
    lemma_checks();
    lemma_images(p, e);
}

#[verifier::spinoff_prover]
proof fn lemma_child_mjbutton(x: Audit, y: Audit, p: Ctx, e: Ctx, c: ColumnChild)
    requires
        stricter(x, y),
        ctx_pair(p, e),
        c is MjButton,
    ensures
        stricter(child_audit(x, p, c), child_audit(y, e, c)),
{
    reveal(child_audit);
    lemma_checks();
    lemma_images(p, e);
}

#[verifier::spinoff_prover]
proof fn lemma_child_mjimage(x: Audit, y: Audit, p: Ctx, e: Ctx, c: ColumnChild)
    requires
        stricter(x, y),
        ctx_pair(p, e),
        c is MjImage,
    ensures
        stricter(child_audit(x, p, c), child_audit(y, e, c)),
{
    reveal(child_audit);
    lemma_checks();
    lemma_images(p, e);
}

#[verifier::spinoff_prover]
proof fn lemma_child_mjdivider(x: Audit, y: Audit, p: Ctx, e: Ctx, c: ColumnChild)
    requires
        stricter(x, y),
        ctx_pair(p, e),
        c is MjDivider,
    ensures
        stricter(child_audit(x, p, c), child_audit(y, e, c)),
{
    reveal(child_audit);
    lemma_checks();
    lemma_images(p, e);
}

#[verifier::spinoff_prover]
proof fn lemma_child_mjspacer(x: Audit, y: Audit, p: Ctx, e: Ctx, c: ColumnChild)
    requires
        stricter(x, y),
        ctx_pair(p, e),
        c is MjSpacer,
    ensures
        stricter(child_audit(x, p, c), child_audit(y, e, c)),
{
    reveal(child_audit);
    lemma_checks();
    lemma_images(p, e);
}

#[verifier::spinoff_prover]
proof fn lemma_child_mjsocial(x: Audit, y: Audit, p: Ctx, e: Ctx, c: ColumnChild)
    requires
        stricter(x, y),
        ctx_pair(p, e),
        c is MjSocial,
    ensures
        stricter(child_audit(x, p, c), child_audit(y, e, c)),
{
    reveal(child_audit);
    lemma_checks();
    lemma_images(p, e);
        lemma_fold_all(c->MjSocial_0.elements@, social_element_step(), social_element_step());
}

#[verifier::spinoff_prover]
proof fn lemma_child_mjtable(x: Audit, y: Audit, p: Ctx, e: Ctx, c: ColumnChild)
    requires
        stricter(x, y),
        ctx_pair(p, e),
        c is MjTable,
    ensures
        stricter(child_audit(x, p, c), child_audit(y, e, c)),
{
    reveal(child_audit);
    lemma_checks();
    lemma_images(p, e);
}

#[verifier::spinoff_prover]
proof fn lemma_child_mjnavbar(x: Audit, y: Audit, p: Ctx, e: Ctx, c: ColumnChild)
    requires
        stricter(x, y),
        ctx_pair(p, e),
        c is MjNavbar,
    ensures
        stricter(child_audit(x, p, c), child_audit(y, e, c)),
{
    reveal(child_audit);
    lemma_checks();
    lemma_images(p, e);
        lemma_fold_all(c->MjNavbar_0.links@, navbar_link_step(), navbar_link_step());
}

#[verifier::spinoff_prover]
proof fn lemma_child_mjaccordion(x: Audit, y: Audit, p: Ctx, e: Ctx, c: ColumnChild)
    requires
        stricter(x, y),
        ctx_pair(p, e),
        c is MjAccordion,
    ensures
        stricter(child_audit(x, p, c), child_audit(y, e, c)),
{
    reveal(child_audit);
    lemma_checks();
    lemma_images(p, e);
        lemma_fold_all(c->MjAccordion_0.elements@, accordion_element_step(), accordion_element_step());
}

#[verifier::spinoff_prover]
proof fn lemma_child_mjcarousel(x: Audit, y: Audit, p: Ctx, e: Ctx, c: ColumnChild)
    requires
        stricter(x, y),
        ctx_pair(p, e),
        c is MjCarousel,
    ensures
        stricter(child_audit(x, p, c), child_audit(y, e, c)),
{
    reveal(child_audit);
    lemma_checks();
    lemma_images(p, e);
        lemma_carousel_steps(p, e);
        lemma_fold_all(c->MjCarousel_0.images@, carousel_image_step(p), carousel_image_step(e));
}

proof fn lemma_child_stricter(x: Audit, y: Audit, p: Ctx, e: Ctx, c: ColumnChild)
    requires
        stricter(x, y),
        ctx_pair(p, e),
    ensures
        stricter(child_audit(x, p, c), child_audit(y, e, c)),
{
    match c {
        ColumnChild::MjText(_) => lemma_child_mjtext(x, y, p, e, c),
        ColumnChild::MjButton(_) => lemma_child_mjbutton(x, y, p, e, c),
        ColumnChild::MjImage(_) => lemma_child_mjimage(x, y, p, e, c),
        ColumnChild::MjDivider(_) => lemma_child_mjdivider(x, y, p, e, c),
        ColumnChild::MjSpacer(_) => lemma_child_mjspacer(x, y, p, e, c),
        ColumnChild::MjSocial(_) => lemma_child_mjsocial(x, y, p, e, c),
        ColumnChild::MjTable(_) => lemma_child_mjtable(x, y, p, e, c),
        ColumnChild::MjNavbar(_) => lemma_child_mjnavbar(x, y, p, e, c),
        ColumnChild::MjAccordion(_) => lemma_child_mjaccordion(x, y, p, e, c),
        ColumnChild::MjCarousel(_) => lemma_child_mjcarousel(x, y, p, e, c),
    }
}

proof fn lemma_child_steps(p: Ctx, e: Ctx)
    requires
        ctx_pair(p, e),
    ensures
        keeps_step(child_step(p), child_step(e)),
{
    assert forall|x: Audit, y: Audit, c: ColumnChild| #[trigger] stricter(x, y) implies stricter(
        child_step(p)(x, c),
        #[trigger] child_step(e)(y, c),
    ) by {
        lemma_child_stricter(x, y, p, e, c);
    }
}

proof fn lemma_column_steps(p: Ctx, e: Ctx)
    requires
        ctx_pair(p, e),
    ensures
        keeps_step(column_step(p), column_step(e)),
{
    assert forall|x: Audit, y: Audit, c: MjColumn| #[trigger] stricter(x, y) implies stricter(
        column_step(p)(x, c),
        #[trigger] column_step(e)(y, c),
    ) by {
        lemma_checks();
        lemma_child_steps(p, e);
        lemma_fold_all(c.components@, child_step(p), child_step(e));
    }
}

proof fn lemma_group_stricter(x: Audit, y: Audit, p: Ctx, e: Ctx, g: MjGroup)
    requires
        stricter(x, y),
        ctx_pair(p, e),
    ensures
        stricter(group_audit(x, p, g), group_audit(y, e, g)),
{
    lemma_checks();
    lemma_column_steps(p, e);
    lemma_fold_all(g.children@, column_step(p), column_step(e));
}

proof fn lemma_section_child_steps(p: Ctx, e: Ctx)
    requires
        ctx_pair(p, e),
    ensures
        keeps_step(section_child_step(p), section_child_step(e)),
{
    lemma_column_steps(p, e);
    assert forall|x: Audit, y: Audit, c: SectionChild| #[trigger] stricter(x, y) implies stricter(
        section_child_step(p)(x, c),
        #[trigger] section_child_step(e)(y, c),
    ) by {
        reveal(section_child_audit);
        match c {
            SectionChild::MjColumn(col) => {
                assert(stricter(column_step(p)(x, col), column_step(e)(y, col)));
                assert(section_child_step(p)(x, c) == column_step(p)(x, col));
                assert(section_child_step(e)(y, c) == column_step(e)(y, col));
            },
            SectionChild::MjGroup(g) => {
                lemma_group_stricter(x, y, p, e, g);
                assert(section_child_step(p)(x, c) == group_audit(x, p, g));
                assert(section_child_step(e)(y, c) == group_audit(y, e, g));
            },
        }
    }
}

#[verifier::spinoff_prover]
proof fn lemma_body_stricter(x: Audit, y: Audit, p: Ctx, e: Ctx, n: BodyNode)
    requires
        stricter(x, y),
        ctx_pair(p, e),
    ensures
        stricter(body_audit(x, p, n), body_audit(y, e, n)),
    decreases n, 1nat,
{
    lemma_checks();
    lemma_images(p, e);
    match n {
        BodyNode::MjSection(sec) => {
            lemma_section_child_steps(p, e);
            lemma_fold_all(sec.children@, section_child_step(p), section_child_step(e));
        },
        BodyNode::MjWrapper(w) => {
            lemma_wrapper_stricter(wrapper_head_audit(x, p, w), wrapper_head_audit(y, e, w), p, e, w.children@);
        },
        BodyNode::MjHero(h) => {
            lemma_child_steps(p, e);
            lemma_fold_all(h.children@, child_step(p), child_step(e));
        },
        BodyNode::EmailFooter(f) => {
            lemma_fold_all(f.social@, social_element_step(), social_element_step());
        },
        _ => {},
    }
}

proof fn lemma_wrapper_stricter(x: Audit, y: Audit, p: Ctx, e: Ctx, ns: Seq<BodyNode>)
    requires
        stricter(x, y),
        ctx_pair(p, e),
    ensures
        stricter(wrapper_children_audit(x, p, ns), wrapper_children_audit(y, e, ns)),
    decreases ns, 0nat,
{
    if ns.len() > 0 {
        let init = ns.subrange(0, ns.len() - 1);
        assert(decreases_to!(ns => init)) by {
            vstd::seq::axiom_seq_len_decreases(ns, init);
        }
        lemma_wrapper_stricter(x, y, p, e, init);
        let a = wrapper_children_audit(x, p, init);
        let b = wrapper_children_audit(y, e, init);
        let n = ns[ns.len() - 1];
        match n {
            BodyNode::MjSection(_) | BodyNode::MjHero(_) => {
                assert(decreases_to!(ns => n));
                lemma_body_stricter(a, b, p, e, n);
            },
            _ => {},
        }
    }
}

proof fn lemma_body_steps(p: Ctx, e: Ctx)
    requires
        ctx_pair(p, e),
    ensures
        keeps_step(body_step(p), body_step(e)),
{
    assert forall|x: Audit, y: Audit, n: BodyNode| #[trigger] stricter(x, y) implies stricter(
        body_step(p)(x, n),
        #[trigger] body_step(e)(y, n),
    ) by {
        lemma_body_stricter(x, y, p, e, n);
    }
}

/// Export validation is stricter than preview validation: a template whose
/// export check finds no error passes the preview check too, with the same
/// local files known.
pub proof fn law_export_clean_implies_preview_clean(t: Template, files: Option<Seq<Seq<char>>>)
    ensures
        report_of(t, files, true).0.len() == 0 ==> report_of(t, files, false).0.len() == 0,
        report_of(t, files, false).0.len() <= report_of(t, files, true).0.len(),
{
    let p = Ctx { files, export: false, base_url: t.base_url@ };
    let e = Ctx { files, export: true, base_url: t.base_url@ };
    let h = head_checks(initial_audit(t), t);
    lemma_body_steps(p, e);
    lemma_fold_stricter(h, h, t.body.nodes@, body_step(p), body_step(e));
    lemma_checks();
    let a = fold_audit(h, t.body.nodes@, body_step(p));
    let b = fold_audit(h, t.body.nodes@, body_step(e));
    lemma_fold_stricter(a, b, t.head.fonts@, unused_font_step(), unused_font_step());
}

/// The walk to the end of the fonts under a context at least as strict.
proof fn lemma_walk_stricter(t: Template, p: Ctx, e: Ctx)
    requires
        ctx_pair(p, e),
    ensures
        stricter(
            fold_audit(fold_audit(head_checks(initial_audit(t), t), t.body.nodes@, body_step(p)), t.head.fonts@, unused_font_step()),
            fold_audit(fold_audit(head_checks(initial_audit(t), t), t.body.nodes@, body_step(e)), t.head.fonts@, unused_font_step()),
        ),
{
    let h = head_checks(initial_audit(t), t);
    lemma_body_steps(p, e);
    lemma_fold_stricter(h, h, t.body.nodes@, body_step(p), body_step(e));
    lemma_checks();
    let a = fold_audit(h, t.body.nodes@, body_step(p));
    let b = fold_audit(h, t.body.nodes@, body_step(e));
    lemma_fold_stricter(a, b, t.head.fonts@, unused_font_step(), unused_font_step());
}

/// The paths probed for local images depend on the template alone: the same
/// whatever local files are known and whether the check is for export. So
/// the local files can be read for exactly the paths that
/// [`local_image_probes`] names, before the check runs.
pub proof fn law_probes_fixed(t: Template, files: Option<Seq<Seq<char>>>, export: bool)
    ensures
        audit_of(t, files, export).probes == audit_of(t, None, false).probes,
{
    let p = Ctx { files: None, export: false, base_url: t.base_url@ };
    let e = Ctx { files, export, base_url: t.base_url@ };
    lemma_walk_stricter(t, p, e);
}

/// An email article with an image must describe it: whenever its image
/// source is set (not blank) and its alt text is blank, checking the article
/// (alone or as a body node) adds the error that asks for the alt text, and
/// keeps every error found before it.
pub proof fn law_article_image_needs_alt(a: Audit, ctx: Ctx, x: EmailArticle)
    requires
        trim(x.image_src@).len() > 0,
        trim(x.image_alt@).len() == 0,
    ensures
        article_audit(a, ctx, x).errors.last() == "email-article.image_alt is required when image_src is set"@,
        body_audit(a, ctx, BodyNode::EmailArticle(x)).errors.contains(
            "email-article.image_alt is required when image_src is set"@,
        ),
        article_audit(a, ctx, x).errors.take(a.errors.len() as int) == a.errors,
{
    let b = optional_image(a, ctx, "email-article.image_src"@, x.image_src@);
    lemma_optional_image_keeps(a, ctx, "email-article.image_src"@, x.image_src@);
    let e = article_audit(a, ctx, x).errors;
    assert(e == b.errors.push("email-article.image_alt is required when image_src is set"@));
    assert(e[e.len() - 1] == e.last());
    assert(body_audit(a, ctx, BodyNode::EmailArticle(x)) == article_audit(a, ctx, x));
    assert(e.take(a.errors.len() as int) =~= a.errors) by {
        assert(b.errors.take(a.errors.len() as int) == a.errors);
        assert forall|i: int| 0 <= i < a.errors.len() implies e.take(a.errors.len() as int)[i] == a.errors[i] by {
            assert(e[i] == b.errors[i]);
            assert(b.errors.take(a.errors.len() as int)[i] == b.errors[i]);
        }
    }
}

/// An optional image check only adds errors after those already found.
proof fn lemma_optional_image_keeps(a: Audit, ctx: Ctx, field: Seq<char>, src: Seq<char>)
    ensures
        optional_image(a, ctx, field, src).errors.len() >= a.errors.len(),
        optional_image(a, ctx, field, src).errors.take(a.errors.len() as int) == a.errors,
{
    let r = optional_image(a, ctx, field, src).errors;
    assert(r.take(a.errors.len() as int) =~= a.errors);
}

/// `y` holds every error of `x`, in place, and maybe more after them.
pub open spec fn keeps_errors(x: Audit, y: Audit) -> bool {
    y.errors.len() >= x.errors.len() && y.errors.take(x.errors.len() as int) == x.errors
}

proof fn lemma_keeps_trans(x: Audit, y: Audit, z: Audit)
    requires
        keeps_errors(x, y),
        keeps_errors(y, z),
    ensures
        keeps_errors(x, z),
{
    assert(z.errors.take(x.errors.len() as int) =~= x.errors) by {
        assert forall|i: int| 0 <= i < x.errors.len() implies z.errors.take(x.errors.len() as int)[i]
            == x.errors[i] by {
            assert(z.errors.take(y.errors.len() as int)[i] == z.errors[i]);
            assert(y.errors.take(x.errors.len() as int)[i] == y.errors[i]);
        }
    }
}

/// The checks that can only add errors keep those found before.
proof fn lemma_checks_keep(a: Audit, ctx: Ctx, field: Seq<char>, v: Seq<char>, o: Option<String>, m: Seq<char>)
    ensures
        keeps_errors(a, err(a, m)),
        keeps_errors(a, warn(a, m)),
        keeps_errors(a, color_checked(a, field, v)),
        keeps_errors(a, padding_checked(a, field, o)),
        keeps_errors(a, unit_checked(a, field, o)),
        keeps_errors(a, optional_image(a, ctx, field, v)),
        keeps_errors(a, required_image(a, ctx, field, v)),
{
    assert(err(a, m).errors.take(a.errors.len() as int) =~= a.errors);
    assert(a.errors.take(a.errors.len() as int) =~= a.errors);
    let r = optional_image(a, ctx, field, v).errors;
    assert(r.take(a.errors.len() as int) =~= a.errors);
    let q = required_image(a, ctx, field, v).errors;
    assert(q.take(a.errors.len() as int) =~= a.errors);
    let c = color_checked(a, field, v).errors;
    assert(c.take(a.errors.len() as int) =~= a.errors);
    let p = padding_checked(a, field, o).errors;
    assert(p.take(a.errors.len() as int) =~= a.errors);
    let u = unit_checked(a, field, o).errors;
    assert(u.take(a.errors.len() as int) =~= a.errors);
}

/// An error pushed on `x` is still there in any later audit that keeps it.
proof fn lemma_pushed_stays(x: Audit, m: Seq<char>, z: Audit)
    requires
        keeps_errors(err(x, m), z),
    ensures
        z.errors.contains(m),
{
    let e = err(x, m);
    assert(z.errors[x.errors.len() as int] == z.errors.take(e.errors.len() as int)[x.errors.len() as int]);
    assert(e.errors[x.errors.len() as int] == m);
}

/// What must be filled in is required: a component, item or block whose
/// link, title or image description is blank (where the rule asks for it)
/// gets the error that names that field, and the errors found before it
/// stay. (Buttons and images, social icons, navbar links, accordion
/// elements, carousel images, and the header, hero, article and call to
/// action blocks.)
pub proof fn law_required_fields_reported(
    a: Audit,
    ctx: Ctx,
    btn: MjButton,
    img: crate::model::MjImage,
    el: MjSocialElement,
    link: crate::model::MjNavbarLink,
    acc: crate::model::MjAccordionElement,
    ci: crate::model::MjCarouselImage,
    h: EmailHeader,
    eh: EmailHero,
    x: EmailArticle,
    c: crate::model::EmailCta,
)
    ensures
        trim(btn.href@).len() == 0 ==> child_audit(a, ctx, ColumnChild::MjButton(btn)).errors.last()
            == "mj-button.href is empty"@,
        trim(img.alt@).len() == 0 ==> child_audit(a, ctx, ColumnChild::MjImage(img)).errors.last()
            == "mj-image.alt is empty"@,
        trim(el.href@).len() == 0 ==> social_element_audit(a, el).errors.contains("mj-social-element.href is empty"@),
        trim(link.href@).len() == 0 ==> navbar_link_audit(a, link).errors.contains("mj-navbar-link.href is empty"@),
        trim(acc.title@).len() == 0 ==> accordion_element_audit(a, acc).errors.contains(
            "mj-accordion-element.title is empty"@,
        ),
        trim(ci.alt@).len() == 0 ==> carousel_image_audit(a, ctx, ci).errors.contains("mj-carousel-image.alt is empty"@),
        trim(h.logo_src@).len() > 0 && trim(h.logo_alt@).len() == 0 ==> body_audit(a, ctx, BodyNode::EmailHeader(h)).errors.last()
            == "email-header.logo_alt is required when logo_src is set"@,
        trim(eh.image_src@).len() > 0 && trim(eh.image_alt@).len() == 0 ==> body_audit(a, ctx, BodyNode::EmailHero(eh)).errors.last()
            == "email-hero.image_alt is required when image_src is set"@,
        trim(x.image_src@).len() > 0 && trim(x.image_alt@).len() == 0 ==> body_audit(a, ctx, BodyNode::EmailArticle(x)).errors.last()
            == "email-article.image_alt is required when image_src is set"@,
        trim(c.button_href@).len() == 0 ==> body_audit(a, ctx, BodyNode::EmailCta(c)).errors.last()
            == "email-cta.button_href is empty"@,
        keeps_errors(a, social_element_audit(a, el)),
        keeps_errors(a, navbar_link_audit(a, link)),
        keeps_errors(a, accordion_element_audit(a, acc)),
        keeps_errors(a, carousel_image_audit(a, ctx, ci)),
{
    reveal(child_audit);
    // social icon
    {
        let m = "mj-social-element.href is empty"@;
        let a1 = if trim(el.href@).len() == 0 { err(a, m) } else { a };
        lemma_checks_keep(a, ctx, Seq::empty(), Seq::empty(), None, m);
        let a2 = if el.name == SocialNetwork::Web && (match el.src {
            Some(s) => trim(s@).len() == 0,
            None => true,
        }) {
            warn(a1, "social web element has no icon src"@)
        } else {
            a1
        };
        lemma_checks_keep(a1, ctx, Seq::empty(), Seq::empty(), None, "social web element has no icon src"@);
        let a3 = color_checked(a2, "mj-social-element.background_color"@, text_or_empty(el.background_color));
        lemma_checks_keep(a2, ctx, "mj-social-element.background_color"@, text_or_empty(el.background_color), None, m);
        let a4 = padding_checked(a3, "mj-social-element.padding"@, el.padding);
        lemma_checks_keep(a3, ctx, "mj-social-element.padding"@, Seq::empty(), el.padding, m);
        lemma_keeps_trans(a1, a2, a3);
        lemma_keeps_trans(a1, a3, a4);
        lemma_keeps_trans(a, a1, a4);
        if trim(el.href@).len() == 0 {
            lemma_pushed_stays(a, m, a4);
        }
    }
    // navbar link
    {
        let m = "mj-navbar-link.href is empty"@;
        let a1 = if trim(link.href@).len() == 0 { err(a, m) } else { a };
        lemma_checks_keep(a, ctx, Seq::empty(), Seq::empty(), None, m);
        let a2 = color_checked(a1, "mj-navbar-link.color"@, text_or_empty(link.color));
        lemma_checks_keep(a1, ctx, "mj-navbar-link.color"@, text_or_empty(link.color), None, m);
        let a3 = padding_checked(a2, "mj-navbar-link.padding"@, link.padding);
        lemma_checks_keep(a2, ctx, "mj-navbar-link.padding"@, Seq::empty(), link.padding, m);
        let a4 = unit_checked(a3, "mj-navbar-link.font_size"@, link.font_size);
        lemma_checks_keep(a3, ctx, "mj-navbar-link.font_size"@, Seq::empty(), link.font_size, m);
        lemma_keeps_trans(a1, a2, a3);
        lemma_keeps_trans(a1, a3, a4);
        lemma_keeps_trans(a, a1, a4);
        if trim(link.href@).len() == 0 {
            lemma_pushed_stays(a, m, a4);
        }
    }
    // accordion element
    {
        let m = "mj-accordion-element.title is empty"@;
        let a1 = if trim(acc.title@).len() == 0 { err(a, m) } else { a };
        lemma_checks_keep(a, ctx, Seq::empty(), Seq::empty(), None, m);
        let a2 = color_checked(a1, "mj-accordion-element.background_color"@, text_or_empty(acc.background_color));
        lemma_checks_keep(a1, ctx, "mj-accordion-element.background_color"@, text_or_empty(acc.background_color), None, m);
        let a3 = if contains_ci(acc.content@, "</mj-"@) {
            err(a2, "mj-accordion-element.content contains </mj-"@)
        } else {
            a2
        };
        lemma_checks_keep(a2, ctx, Seq::empty(), Seq::empty(), None, "mj-accordion-element.content contains </mj-"@);
        lemma_keeps_trans(a1, a2, a3);
        lemma_keeps_trans(a, a1, a3);
        if trim(acc.title@).len() == 0 {
            lemma_pushed_stays(a, m, a3);
        }
    }
    // carousel image
    {
        let m = "mj-carousel-image.alt is empty"@;
        let a1 = required_image(a, ctx, "mj-carousel-image.src"@, ci.src@);
        lemma_checks_keep(a, ctx, "mj-carousel-image.src"@, ci.src@, None, m);
        let a2 = if trim(ci.alt@).len() == 0 { err(a1, m) } else { a1 };
        lemma_checks_keep(a1, ctx, Seq::empty(), Seq::empty(), None, m);
        let a3 = optional_image(a2, ctx, "mj-carousel-image.thumbnails_src"@, text_or_empty(ci.thumbnails_src));
        lemma_checks_keep(a2, ctx, "mj-carousel-image.thumbnails_src"@, text_or_empty(ci.thumbnails_src), None, m);
        lemma_keeps_trans(a1, a2, a3);
        lemma_keeps_trans(a, a1, a3);
        if trim(ci.alt@).len() == 0 {
            lemma_pushed_stays(a1, m, a3);
        }
    }
}

} // verus!
