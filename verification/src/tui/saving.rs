//! Saving a form that was not changed.
//!
//! The head, the brand, the body, a section, wrapper or hero, a column or
//! group, an email header, hero, call to action, article or footer, a text,
//! button, image, divider, table, spacer, social block, navbar, accordion
//! or carousel, or a navbar link, accordion element or carousel image whose
//! stored values are already in the form a save writes (trimmed, paddings
//! and lengths normalized, unset rather than blank) saves without an error,
//! and its form then shows the same values; so does the node at any path of
//! the tree, saved through the template.
use vstd::prelude::*;

use crate::model::{
    Align, Body, BodyNode, Brand, ColumnChild, HeroMode, ImagePosition, MjAccordionElement, MjCarouselImage,
    MjColumn, MjGroup, MjNavbarLink, MjSocialElement, SectionChild, SocialMode, SocialNetwork, Template,
    Thumbnails,
};
use crate::padding::normalized_padding;
use crate::text::{is_ws, trim};
use crate::tui::tree::Step;
use crate::tui::cursor::{
    Target, accordion_el_applied, accordion_el_shown, align_text, all_items_ok, body_applied, body_shown,
    bool_text, brand_applied, brand_shown, carousel_img_applied, carousel_img_shown, child_applied_at,
    column_applied, column_applied_at, column_shown, email_footer_applied, email_footer_shown, group_applied,
    group_applied_at, group_shown, head_applied, head_shown, hero_mode_text, image_pos_text, keep_nonblank,
    leaf_applied, leaf_shown, navbar_link_applied, navbar_link_shown, network_text, nl_scan, node_applied,
    node_applied_at, node_shown, nonblank_lines, opt_text, opt_view, read_align, read_bool, read_hero_mode,
    read_image_pos, read_network, read_opt, read_padding, read_sides, read_social_mode, read_thumbnails,
    read_unit, read_width, section_child_applied_at, sides_text, social_item_ok, social_item_read,
    social_item_shown, social_items_read, social_items_shown, social_mode_text, target_in_child,
    target_in_column, target_in_group, target_in_node, target_of, target_shown, template_applied_at,
    thumbnails_text,
};

verus! {

/// An optional value as a save stores it: unset, or trimmed and not empty.
pub open spec fn clean_opt(v: Option<String>) -> bool {
    match v {
        Some(s) => s@.len() > 0 && trim(s@) == s@,
        None => true,
    }
}

/// A padding as a save stores it: unset, or trimmed and normalized.
pub open spec fn clean_padding(v: Option<String>) -> bool {
    match v {
        Some(s) => s@.len() > 0 && trim(s@) == s@ && normalized_padding(s@) == Some(s@),
        None => true,
    }
}

/// A social icon whose values are as a save stores them.
pub open spec fn social_el_clean(el: MjSocialElement) -> bool {
    &&& clean_opt(el.src)
    &&& clean_opt(el.alt)
    &&& clean_opt(el.background_color)
    &&& clean_opt(el.icon_size)
    &&& clean_padding(el.padding)
    &&& clean_opt(el.css_class)
}

/// A length as a save stores it: unset, or a value that reads back as
/// itself.
pub open spec fn clean_unit(id: Seq<char>, v: Option<String>) -> bool {
    match v {
        Some(s) => s@.len() > 0 && trim(s@) == s@ && read_unit(id, s@) == Ok::<Option<Seq<char>>, Seq<char>>(Some(s@)),
        None => true,
    }
}

/// Border sides as a save stores them: unset (every side), or a selection
/// that reads back as itself.
pub open spec fn clean_sides(id: Seq<char>, v: Option<String>) -> bool {
    match v {
        Some(s) => s@.len() > 0 && trim(s@) == s@ && read_sides(id, s@) == Ok::<Option<Seq<char>>, Seq<char>>(Some(s@)),
        None => true,
    }
}

/// A text, button, image, divider, table, spacer, social block, navbar,
/// accordion or carousel whose own values (and, for a social block, its
/// icons') are as a save stores them.
pub open spec fn plain_leaf_clean(c: ColumnChild) -> bool {
    match c {
        ColumnChild::MjText(x) => {
            &&& clean_opt(x.font_size)
            &&& clean_opt(x.font_family)
            &&& clean_opt(x.font_weight)
            &&& clean_opt(x.font_style)
            &&& clean_opt(x.line_height)
            &&& clean_opt(x.color)
            &&& clean_padding(x.padding)
            &&& clean_opt(x.letter_spacing)
            &&& clean_opt(x.text_decoration)
            &&& clean_opt(x.text_transform)
            &&& clean_opt(x.height)
            &&& clean_opt(x.css_class)
        },
        ColumnChild::MjButton(x) => {
            &&& clean_opt(x.background_color)
            &&& clean_opt(x.color)
            &&& clean_opt(x.font_family)
            &&& clean_opt(x.font_size)
            &&& clean_opt(x.font_weight)
            &&& clean_opt(x.font_style)
            &&& clean_opt(x.border)
            &&& clean_sides("border_sides"@, x.border_sides)
            &&& clean_unit("border_radius"@, x.border_radius)
            &&& clean_padding(x.inner_padding)
            &&& clean_opt(x.width)
            &&& clean_opt(x.height)
            &&& clean_opt(x.target)
            &&& clean_padding(x.padding)
            &&& clean_opt(x.letter_spacing)
            &&& clean_opt(x.line_height)
            &&& clean_opt(x.text_decoration)
            &&& clean_opt(x.text_transform)
            &&& clean_opt(x.rel)
            &&& clean_opt(x.title)
            &&& clean_opt(x.css_class)
        },
        ColumnChild::MjImage(x) => {
            &&& trim(x.src@) == x.src@
            &&& clean_opt(x.href)
            &&& clean_opt(x.title)
            &&& clean_opt(x.width)
            &&& clean_opt(x.height)
            &&& clean_opt(x.border)
            &&& clean_sides("border_sides"@, x.border_sides)
            &&& clean_unit("border_radius"@, x.border_radius)
            &&& clean_padding(x.padding)
            &&& clean_opt(x.target)
            &&& clean_opt(x.rel)
            &&& clean_opt(x.css_class)
        },
        ColumnChild::MjSocial(x) => {
            &&& trim(x.icon_size@) == x.icon_size@
            &&& clean_unit("border_radius"@, x.border_radius)
            &&& clean_padding(x.padding)
            &&& clean_padding(x.icon_padding)
            &&& clean_padding(x.inner_padding)
            &&& clean_opt(x.font_size)
            &&& clean_opt(x.color)
            &&& clean_opt(x.css_class)
            &&& forall|i: int| 0 <= i < x.elements@.len() ==> social_el_clean(#[trigger] x.elements@[i])
        },
        ColumnChild::MjNavbar(x) => {
            &&& clean_opt(x.ico_color)
            &&& clean_opt(x.base_url)
            &&& clean_padding(x.padding)
            &&& clean_opt(x.ico_align)
            &&& clean_opt(x.ico_font_size)
            &&& clean_padding(x.ico_padding)
            &&& clean_opt(x.ico_open)
            &&& clean_opt(x.ico_close)
            &&& clean_opt(x.css_class)
        },
        ColumnChild::MjAccordion(x) => {
            &&& clean_opt(x.border)
            &&& clean_padding(x.padding)
            &&& clean_opt(x.font_family)
            &&& clean_opt(x.icon_position)
            &&& clean_opt(x.icon_width)
            &&& clean_opt(x.icon_height)
            &&& clean_opt(x.icon_wrapped_url)
            &&& clean_opt(x.icon_unwrapped_url)
            &&& clean_opt(x.css_class)
        },
        ColumnChild::MjCarousel(x) => {
            &&& clean_padding(x.padding)
            &&& clean_unit("border_radius"@, x.border_radius)
            &&& clean_unit("tb_border_radius"@, x.tb_border_radius)
            &&& clean_opt(x.icon_width)
            &&& clean_opt(x.css_class)
        },
        ColumnChild::MjDivider(x) => {
            &&& clean_opt(x.border_color)
            &&& clean_opt(x.border_width)
            &&& clean_opt(x.border_style)
            &&& clean_opt(x.width)
            &&& clean_padding(x.padding)
            &&& clean_opt(x.css_class)
        },
        ColumnChild::MjTable(x) => {
            &&& clean_opt(x.font_size)
            &&& clean_opt(x.font_family)
            &&& clean_opt(x.line_height)
            &&& clean_opt(x.color)
            &&& clean_opt(x.width)
            &&& clean_opt(x.border)
            &&& clean_padding(x.padding)
            &&& clean_opt(x.cellpadding)
            &&& clean_opt(x.cellspacing)
            &&& clean_opt(x.role)
            &&& clean_opt(x.css_class)
        },
        ColumnChild::MjSpacer(x) => {
            &&& trim(x.height@) == x.height@
            &&& clean_padding(x.padding)
            &&& clean_opt(x.css_class)
        },
        _ => false,
    }
}

proof fn lemma_trim_empty()
    ensures
        trim(Seq::<char>::empty()) == Seq::<char>::empty(),
{
    assert(trim(Seq::<char>::empty()) =~= Seq::<char>::empty());
}

proof fn lemma_read_opt_back(v: Option<String>)
    requires
        clean_opt(v),
    ensures
        read_opt(opt_text(v)) == opt_view(v),
{
    lemma_trim_empty();
}

proof fn lemma_read_padding_back(id: Seq<char>, v: Option<String>)
    requires
        clean_padding(v),
    ensures
        read_padding(id, opt_text(v)) == Ok::<Option<Seq<char>>, Seq<char>>(opt_view(v)),
{
    lemma_trim_empty();
}

proof fn lemma_read_align_back(a: Option<Align>)
    ensures
        read_align(align_text(a)) == Ok::<Option<Align>, Seq<char>>(a),
{
    reveal_strlit("");
    reveal_strlit("left");
    reveal_strlit("center");
    reveal_strlit("right");
    lemma_trim_empty();
    match a {
        Some(Align::Left) => {
            assert(!is_ws('l') && !is_ws('t'));
            crate::text::lemma_trim_fixed("left"@);
        },
        Some(Align::Center) => {
            assert(!is_ws('c') && !is_ws('r'));
            crate::text::lemma_trim_fixed("center"@);
            assert("center"@ != "left"@);
        },
        Some(Align::Right) => {
            assert(!is_ws('r') && !is_ws('t'));
            crate::text::lemma_trim_fixed("right"@);
            assert("right"@ != "left"@);
            assert("right"@ != "center"@);
        },
        None => {},
    }
}

proof fn lemma_same_text(a: Option<String>, b: Option<String>)
    requires
        opt_view(a) == opt_view(b),
    ensures
        opt_text(a) == opt_text(b),
{
}

proof fn lemma_read_unit_back(id: Seq<char>, v: Option<String>)
    requires
        clean_unit(id, v),
    ensures
        read_unit(id, opt_text(v)) == Ok::<Option<Seq<char>>, Seq<char>>(opt_view(v)),
{
    lemma_trim_empty();
}

proof fn lemma_read_sides_back(id: Seq<char>, v: Option<String>)
    requires
        clean_sides(id, v),
    ensures
        read_sides(id, sides_text(v)) == Ok::<Option<Seq<char>>, Seq<char>>(opt_view(v)),
{
    lemma_trim_empty();
    reveal_strlit("all");
    match v {
        Some(s) => {
            let sd = crate::border::sides_from(s@)->Ok_0;
            assert(crate::border::storage_of(sd) == Some(s@));
            assert(sides_text(v) == s@);
        },
        None => {
            crate::border::law_form_round_trip(crate::border::all_sides());
            assert(!is_ws('a') && !is_ws('l'));
            crate::text::lemma_trim_fixed("all"@);
            assert(sides_text(v) == "all"@);
        },
    }
}

proof fn lemma_read_bool_back(b: bool)
    ensures
        read_bool(bool_text(b)) == Ok::<bool, Seq<char>>(b),
{
    reveal_strlit("true");
    reveal_strlit("false");
    if b {
        crate::text::lemma_trim_fixed("true"@);
    } else {
        crate::text::lemma_trim_fixed("false"@);
        assert("false"@ != "true"@);
    }
}

proof fn lemma_read_thumbnails_back(t: Thumbnails)
    ensures
        read_thumbnails(thumbnails_text(t)) == Ok::<Thumbnails, Seq<char>>(t),
{
    reveal_strlit("visible");
    reveal_strlit("hidden");
    reveal_strlit("supported");
    match t {
        Thumbnails::Visible => {
            crate::text::lemma_trim_fixed("visible"@);
        },
        Thumbnails::Hidden => {
            crate::text::lemma_trim_fixed("hidden"@);
            assert("hidden"@ != "visible"@);
        },
        Thumbnails::Supported => {
            crate::text::lemma_trim_fixed("supported"@);
            assert("supported"@ != "visible"@);
            assert("supported"@ != "hidden"@);
        },
    }
}

#[verifier::rlimit(40)]
pub(crate) proof fn lemma_read_network_back(n: SocialNetwork)
    ensures
        read_network(network_text(n)) == Ok::<SocialNetwork, Seq<char>>(n),
{
    reveal_strlit("facebook");
    reveal_strlit("instagram");
    reveal_strlit("linkedin");
    reveal_strlit("x");
    reveal_strlit("github");
    reveal_strlit("web");
    reveal_strlit("youtube");
    reveal_strlit("pinterest");
    reveal_strlit("google");
    reveal_strlit("tumblr");
    reveal_strlit("snapchat");
    reveal_strlit("vimeo");
    reveal_strlit("medium");
    reveal_strlit("soundcloud");
    reveal_strlit("dribbble");
    reveal_strlit("xing");
    let t = network_text(n);
    assert(t.len() > 0 && !is_ws(t[0]) && !is_ws(t.last()));
    crate::text::lemma_trim_fixed(t);
}

proof fn lemma_read_social_mode_back(m: SocialMode)
    ensures
        read_social_mode(social_mode_text(m)) == Ok::<SocialMode, Seq<char>>(m),
{
    reveal_strlit("horizontal");
    reveal_strlit("vertical");
    let t = social_mode_text(m);
    crate::text::lemma_trim_fixed(t);
}

/// The icons of a clean social list read back from their unchanged items,
/// and the icons read show as the items do.
proof fn lemma_social_items_back(els: Seq<MjSocialElement>, items: Seq<crate::tui::editform::EditFormState>, read: Seq<MjSocialElement>)
    requires
        forall|i: int| 0 <= i < els.len() ==> social_el_clean(#[trigger] els[i]),
        social_items_shown(els, items),
    ensures
        all_items_ok(items),
        social_items_read(read, items) ==> social_items_shown(read, items),
{
    assert forall|i: int| 0 <= i < items.len() implies #[trigger] social_item_ok(items[i]) by {
        assert(social_item_shown(els[i], items[i]));
        lemma_read_network_back(els[i].name);
        lemma_read_padding_back("padding"@, els[i].padding);
    }
    if social_items_read(read, items) {
        assert forall|i: int| 0 <= i < read.len() implies #[trigger] social_item_shown(read[i], items[i]) by {
            let x = els[i];
            let y = read[i];
            assert(social_item_shown(x, items[i]));
            assert(social_item_read(y, items[i]));
            lemma_read_network_back(x.name);
            lemma_read_padding_back("padding"@, x.padding);
            lemma_read_opt_back(x.src);
            lemma_read_opt_back(x.alt);
            lemma_read_opt_back(x.background_color);
            lemma_read_opt_back(x.icon_size);
            lemma_read_opt_back(x.css_class);
            lemma_same_text(y.src, x.src);
            lemma_same_text(y.alt, x.alt);
            lemma_same_text(y.background_color, x.background_color);
            lemma_same_text(y.icon_size, x.icon_size);
            lemma_same_text(y.padding, x.padding);
            lemma_same_text(y.css_class, x.css_class);
        }
    }
}

proof fn lemma_same_sides(a: Option<String>, b: Option<String>)
    requires
        opt_view(a) == opt_view(b),
    ensures
        sides_text(a) == sides_text(b),
{
    lemma_same_text(a, b);
}

/// Saving the unchanged form of a clean text, button, image, divider, table,
/// spacer, social block, navbar, accordion or carousel
/// succeeds, and the saved component's form shows the same values.
pub proof fn law_plain_leaf_save_unchanged(c: ColumnChild, st: crate::tui::editform::EditFormState, n: ColumnChild, r: Result<(), String>)
    requires
        plain_leaf_clean(c),
        leaf_shown(c, st),
        leaf_applied(c, n, st, r),
    ensures
        r is Ok,
        leaf_shown(n, st),
{
    match c {
        ColumnChild::MjText(x) => {
            let y = n->MjText_0;
            lemma_read_align_back(x.align);
            lemma_read_padding_back("padding"@, x.padding);
            lemma_read_opt_back(x.font_size);
            lemma_read_opt_back(x.font_family);
            lemma_read_opt_back(x.font_weight);
            lemma_read_opt_back(x.font_style);
            lemma_read_opt_back(x.line_height);
            lemma_read_opt_back(x.color);
            lemma_read_opt_back(x.letter_spacing);
            lemma_read_opt_back(x.text_decoration);
            lemma_read_opt_back(x.text_transform);
            lemma_read_opt_back(x.height);
            lemma_read_opt_back(x.css_class);
            lemma_same_text(y.font_size, x.font_size);
            lemma_same_text(y.font_family, x.font_family);
            lemma_same_text(y.font_weight, x.font_weight);
            lemma_same_text(y.font_style, x.font_style);
            lemma_same_text(y.line_height, x.line_height);
            lemma_same_text(y.color, x.color);
            lemma_same_text(y.padding, x.padding);
            lemma_same_text(y.letter_spacing, x.letter_spacing);
            lemma_same_text(y.text_decoration, x.text_decoration);
            lemma_same_text(y.text_transform, x.text_transform);
            lemma_same_text(y.height, x.height);
            lemma_same_text(y.css_class, x.css_class);
        },
        ColumnChild::MjButton(x) => {
            let y = n->MjButton_0;
            lemma_read_align_back(x.align);
            lemma_read_sides_back("border_sides"@, x.border_sides);
            lemma_read_unit_back("border_radius"@, x.border_radius);
            lemma_read_padding_back("inner_padding"@, x.inner_padding);
            lemma_read_padding_back("padding"@, x.padding);
            lemma_read_opt_back(x.background_color);
            lemma_read_opt_back(x.color);
            lemma_read_opt_back(x.font_family);
            lemma_read_opt_back(x.font_size);
            lemma_read_opt_back(x.font_weight);
            lemma_read_opt_back(x.font_style);
            lemma_read_opt_back(x.border);
            lemma_read_opt_back(x.width);
            lemma_read_opt_back(x.height);
            lemma_read_opt_back(x.target);
            lemma_read_opt_back(x.letter_spacing);
            lemma_read_opt_back(x.line_height);
            lemma_read_opt_back(x.text_decoration);
            lemma_read_opt_back(x.text_transform);
            lemma_read_opt_back(x.rel);
            lemma_read_opt_back(x.title);
            lemma_read_opt_back(x.css_class);
            lemma_same_text(y.background_color, x.background_color);
            lemma_same_text(y.color, x.color);
            lemma_same_text(y.font_family, x.font_family);
            lemma_same_text(y.font_size, x.font_size);
            lemma_same_text(y.font_weight, x.font_weight);
            lemma_same_text(y.font_style, x.font_style);
            lemma_same_text(y.border, x.border);
            lemma_same_sides(y.border_sides, x.border_sides);
            lemma_same_text(y.border_radius, x.border_radius);
            lemma_same_text(y.inner_padding, x.inner_padding);
            lemma_same_text(y.width, x.width);
            lemma_same_text(y.height, x.height);
            lemma_same_text(y.target, x.target);
            lemma_same_text(y.padding, x.padding);
            lemma_same_text(y.letter_spacing, x.letter_spacing);
            lemma_same_text(y.line_height, x.line_height);
            lemma_same_text(y.text_decoration, x.text_decoration);
            lemma_same_text(y.text_transform, x.text_transform);
            lemma_same_text(y.rel, x.rel);
            lemma_same_text(y.title, x.title);
            lemma_same_text(y.css_class, x.css_class);
        },
        ColumnChild::MjImage(x) => {
            let y = n->MjImage_0;
            lemma_read_align_back(x.align);
            lemma_read_bool_back(x.fluid_on_mobile);
            lemma_read_sides_back("border_sides"@, x.border_sides);
            lemma_read_unit_back("border_radius"@, x.border_radius);
            lemma_read_padding_back("padding"@, x.padding);
            lemma_read_opt_back(x.href);
            lemma_read_opt_back(x.title);
            lemma_read_opt_back(x.width);
            lemma_read_opt_back(x.height);
            lemma_read_opt_back(x.border);
            lemma_read_opt_back(x.target);
            lemma_read_opt_back(x.rel);
            lemma_read_opt_back(x.css_class);
            lemma_same_text(y.href, x.href);
            lemma_same_text(y.title, x.title);
            lemma_same_text(y.width, x.width);
            lemma_same_text(y.height, x.height);
            lemma_same_text(y.border, x.border);
            lemma_same_sides(y.border_sides, x.border_sides);
            lemma_same_text(y.border_radius, x.border_radius);
            lemma_same_text(y.padding, x.padding);
            lemma_same_text(y.target, x.target);
            lemma_same_text(y.rel, x.rel);
            lemma_same_text(y.css_class, x.css_class);
        },
        ColumnChild::MjSocial(x) => {
            let y = n->MjSocial_0;
            lemma_read_social_mode_back(x.mode);
            lemma_read_align_back(x.align);
            lemma_read_unit_back("border_radius"@, x.border_radius);
            lemma_read_padding_back("padding"@, x.padding);
            lemma_read_padding_back("icon_padding"@, x.icon_padding);
            lemma_read_padding_back("inner_padding"@, x.inner_padding);
            lemma_read_opt_back(x.font_size);
            lemma_read_opt_back(x.color);
            lemma_read_opt_back(x.css_class);
            lemma_social_items_back(x.elements@, crate::tui::cursor::items_of(st, "elements"@), y.elements@);
            lemma_same_text(y.border_radius, x.border_radius);
            lemma_same_text(y.padding, x.padding);
            lemma_same_text(y.icon_padding, x.icon_padding);
            lemma_same_text(y.inner_padding, x.inner_padding);
            lemma_same_text(y.font_size, x.font_size);
            lemma_same_text(y.color, x.color);
            lemma_same_text(y.css_class, x.css_class);
        },
        ColumnChild::MjNavbar(x) => {
            let y = n->MjNavbar_0;
            lemma_read_bool_back(x.hamburger);
            lemma_read_align_back(x.align);
            lemma_read_padding_back("padding"@, x.padding);
            lemma_read_padding_back("ico_padding"@, x.ico_padding);
            lemma_read_opt_back(x.ico_color);
            lemma_read_opt_back(x.base_url);
            lemma_read_opt_back(x.ico_align);
            lemma_read_opt_back(x.ico_font_size);
            lemma_read_opt_back(x.ico_open);
            lemma_read_opt_back(x.ico_close);
            lemma_read_opt_back(x.css_class);
            lemma_same_text(y.ico_color, x.ico_color);
            lemma_same_text(y.base_url, x.base_url);
            lemma_same_text(y.padding, x.padding);
            lemma_same_text(y.ico_align, x.ico_align);
            lemma_same_text(y.ico_font_size, x.ico_font_size);
            lemma_same_text(y.ico_padding, x.ico_padding);
            lemma_same_text(y.ico_open, x.ico_open);
            lemma_same_text(y.ico_close, x.ico_close);
            lemma_same_text(y.css_class, x.css_class);
        },
        ColumnChild::MjAccordion(x) => {
            let y = n->MjAccordion_0;
            lemma_read_padding_back("padding"@, x.padding);
            lemma_read_opt_back(x.border);
            lemma_read_opt_back(x.font_family);
            lemma_read_opt_back(x.icon_position);
            lemma_read_opt_back(x.icon_width);
            lemma_read_opt_back(x.icon_height);
            lemma_read_opt_back(x.icon_wrapped_url);
            lemma_read_opt_back(x.icon_unwrapped_url);
            lemma_read_opt_back(x.css_class);
            lemma_same_text(y.border, x.border);
            lemma_same_text(y.padding, x.padding);
            lemma_same_text(y.font_family, x.font_family);
            lemma_same_text(y.icon_position, x.icon_position);
            lemma_same_text(y.icon_width, x.icon_width);
            lemma_same_text(y.icon_height, x.icon_height);
            lemma_same_text(y.icon_wrapped_url, x.icon_wrapped_url);
            lemma_same_text(y.icon_unwrapped_url, x.icon_unwrapped_url);
            lemma_same_text(y.css_class, x.css_class);
        },
        ColumnChild::MjCarousel(x) => {
            let y = n->MjCarousel_0;
            lemma_read_align_back(x.align);
            lemma_read_thumbnails_back(x.thumbnails);
            lemma_read_padding_back("padding"@, x.padding);
            lemma_read_unit_back("border_radius"@, x.border_radius);
            lemma_read_unit_back("tb_border_radius"@, x.tb_border_radius);
            lemma_read_opt_back(x.icon_width);
            lemma_read_opt_back(x.css_class);
            lemma_same_text(y.padding, x.padding);
            lemma_same_text(y.border_radius, x.border_radius);
            lemma_same_text(y.tb_border_radius, x.tb_border_radius);
            lemma_same_text(y.icon_width, x.icon_width);
            lemma_same_text(y.css_class, x.css_class);
        },
        ColumnChild::MjDivider(x) => {
            let y = n->MjDivider_0;
            lemma_read_align_back(x.align);
            lemma_read_padding_back("padding"@, x.padding);
            lemma_read_opt_back(x.border_color);
            lemma_read_opt_back(x.border_width);
            lemma_read_opt_back(x.border_style);
            lemma_read_opt_back(x.width);
            lemma_read_opt_back(x.css_class);
            lemma_same_text(y.border_color, x.border_color);
            lemma_same_text(y.border_width, x.border_width);
            lemma_same_text(y.border_style, x.border_style);
            lemma_same_text(y.width, x.width);
            lemma_same_text(y.padding, x.padding);
            lemma_same_text(y.css_class, x.css_class);
        },
        ColumnChild::MjTable(x) => {
            let y = n->MjTable_0;
            lemma_read_align_back(x.align);
            lemma_read_padding_back("padding"@, x.padding);
            lemma_read_opt_back(x.font_size);
            lemma_read_opt_back(x.font_family);
            lemma_read_opt_back(x.line_height);
            lemma_read_opt_back(x.color);
            lemma_read_opt_back(x.width);
            lemma_read_opt_back(x.border);
            lemma_read_opt_back(x.cellpadding);
            lemma_read_opt_back(x.cellspacing);
            lemma_read_opt_back(x.role);
            lemma_read_opt_back(x.css_class);
            lemma_same_text(y.font_size, x.font_size);
            lemma_same_text(y.font_family, x.font_family);
            lemma_same_text(y.line_height, x.line_height);
            lemma_same_text(y.color, x.color);
            lemma_same_text(y.width, x.width);
            lemma_same_text(y.border, x.border);
            lemma_same_text(y.padding, x.padding);
            lemma_same_text(y.cellpadding, x.cellpadding);
            lemma_same_text(y.cellspacing, x.cellspacing);
            lemma_same_text(y.role, x.role);
            lemma_same_text(y.css_class, x.css_class);
        },
        ColumnChild::MjSpacer(x) => {
            let y = n->MjSpacer_0;
            lemma_read_padding_back("padding"@, x.padding);
            lemma_read_opt_back(x.css_class);
            lemma_same_text(y.padding, x.padding);
            lemma_same_text(y.css_class, x.css_class);
        },
        _ => {},
    }
}

/// A brand whose colours are as a save stores them: trimmed.
pub open spec fn brand_clean(b: Brand) -> bool {
    &&& trim(b.text_color@) == b.text_color@
    &&& trim(b.background_color@) == b.background_color@
    &&& trim(b.button_background@) == b.button_background@
    &&& trim(b.button_color@) == b.button_color@
}

/// A body whose values are as a save stores them.
pub open spec fn body_clean(b: Body) -> bool {
    &&& trim(b.background_color@) == b.background_color@
    &&& clean_opt(b.css_class)
}

proof fn lemma_decimal_digits(n: nat)
    ensures
        crate::text::decimal(n).len() > 0,
        crate::padding::all_digits(crate::text::decimal(n)),
        crate::padding::digits_value(crate::text::decimal(n)) == n,
    decreases n,
{
    let d = crate::text::decimal(n);
    if n < 10 {
        assert(d.drop_last() =~= Seq::<char>::empty());
        assert(d.last() as int == 48 + n);
        assert(crate::padding::digits_value(d) == crate::padding::digits_value(d.drop_last()) * 10 + (d.last() as int
            - 48));
    } else {
        lemma_decimal_digits(n / 10);
        assert(d.drop_last() =~= crate::text::decimal(n / 10));
        assert(d.last() as int == 48 + n % 10);
        assert(n == (n / 10) * 10 + n % 10) by (nonlinear_arith);
        assert(crate::padding::digits_value(d) == crate::padding::digits_value(d.drop_last()) * 10 + (d.last() as int
            - 48));
        assert(crate::padding::all_digits(d)) by {
            assert forall|i: int| 0 <= i < d.len() implies crate::padding::is_digit(#[trigger] d[i]) by {
                if i < d.len() - 1 {
                    assert(d[i] == crate::text::decimal(n / 10)[i]);
                }
            }
        }
    }
}

/// A width as the brand form shows it reads back as the same width.
proof fn lemma_read_width_back(w: u32)
    ensures
        read_width(crate::text::decimal(w as nat)) == Ok::<u32, Seq<char>>(w),
{
    let d = crate::text::decimal(w as nat);
    lemma_decimal_digits(w as nat);
    assert(crate::padding::is_digit(d[0]));
    assert(crate::padding::is_digit(d.last()));
    crate::text::lemma_trim_fixed(d);
}

/// Saving the unchanged brand form of a clean brand succeeds, and the saved
/// brand's form shows the same values.
pub proof fn law_brand_save_unchanged(b: Brand, st: crate::tui::editform::EditFormState, n: Brand, r: Result<(), String>)
    requires
        brand_clean(b),
        brand_shown(b, st),
        brand_applied(b, n, st, r),
    ensures
        r is Ok,
        brand_shown(n, st),
{
    lemma_read_width_back(b.content_width);
}

/// Saving the unchanged body form of a clean body succeeds, keeps its
/// nodes, and the saved body's form shows the same values.
pub proof fn law_body_save_unchanged(b: Body, st: crate::tui::editform::EditFormState, n: Body, r: Result<(), String>)
    requires
        body_clean(b),
        body_shown(b, st),
        body_applied(b, n, st, r),
    ensures
        r is Ok,
        n.nodes == b.nodes,
        body_shown(n, st),
{
    lemma_read_opt_back(b.css_class);
    lemma_same_text(n.css_class, b.css_class);
}

/// A section, wrapper, hero, email header, hero, call to action, article
/// or footer whose own values are as a save stores them: sources and widths
/// trimmed, optional values unset rather than blank, paddings and lengths
/// normalized, address lines not blank and on one line each.
pub open spec fn node_clean(n: BodyNode) -> bool {
    match n {
        BodyNode::EmailFooter(x) => {
            &&& clean_opt(x.copyright)
            &&& forall|i: int| 0 <= i < x.address_lines@.len() ==> one_line(#[trigger] x.address_lines@[i]@)
            &&& forall|i: int| 0 <= i < x.social@.len() ==> social_el_clean(#[trigger] x.social@[i])
        },
        BodyNode::MjSection(x) => {
            &&& clean_opt(x.label)
            &&& clean_opt(x.background_color)
            &&& clean_opt(x.background_url)
            &&& clean_opt(x.background_size)
            &&& clean_opt(x.background_repeat)
            &&& clean_padding(x.padding)
            &&& clean_unit("gutter"@, x.gutter)
            &&& clean_opt(x.direction)
            &&& clean_opt(x.border)
            &&& clean_sides("border_sides"@, x.border_sides)
            &&& clean_unit("border_radius"@, x.border_radius)
            &&& clean_opt(x.css_class)
        },
        BodyNode::MjWrapper(x) => {
            &&& clean_opt(x.label)
            &&& clean_opt(x.background_color)
            &&& clean_opt(x.background_url)
            &&& clean_opt(x.background_size)
            &&& clean_opt(x.background_repeat)
            &&& clean_padding(x.padding)
            &&& clean_unit("gap"@, x.gap)
            &&& clean_opt(x.border)
            &&& clean_sides("border_sides"@, x.border_sides)
            &&& clean_unit("border_radius"@, x.border_radius)
            &&& clean_opt(x.css_class)
        },
        BodyNode::MjHero(x) => {
            &&& clean_opt(x.background_url)
            &&& clean_opt(x.background_color)
            &&& clean_opt(x.background_height)
            &&& clean_opt(x.background_width)
            &&& clean_opt(x.background_position)
            &&& clean_opt(x.width)
            &&& clean_opt(x.height)
            &&& clean_padding(x.padding)
            &&& clean_padding(x.inner_padding)
            &&& clean_unit("border_radius"@, x.border_radius)
            &&& clean_opt(x.vertical_align)
            &&& clean_opt(x.css_class)
        },
        BodyNode::EmailHeader(x) => {
            &&& trim(x.logo_src@) == x.logo_src@
            &&& trim(x.logo_width@) == x.logo_width@
            &&& clean_opt(x.logo_href)
            &&& clean_opt(x.background_color)
        },
        BodyNode::EmailHero(x) => {
            &&& trim(x.image_src@) == x.image_src@
            &&& clean_opt(x.background_color)
        },
        BodyNode::EmailCta(x) => clean_opt(x.background_color),
        BodyNode::EmailArticle(x) => trim(x.image_src@) == x.image_src@,
        _ => false,
    }
}

proof fn lemma_read_image_pos_back(p: ImagePosition)
    ensures
        read_image_pos(image_pos_text(p)) == Ok::<ImagePosition, Seq<char>>(p),
{
    reveal_strlit("top");
    reveal_strlit("left");
    reveal_strlit("right");
    match p {
        ImagePosition::Top => {
            crate::text::lemma_trim_fixed("top"@);
        },
        ImagePosition::Left => {
            crate::text::lemma_trim_fixed("left"@);
            assert("left"@ != "top"@);
        },
        ImagePosition::Right => {
            crate::text::lemma_trim_fixed("right"@);
            assert("right"@ != "top"@);
            assert("right"@ != "left"@);
        },
    }
}

/// A line that is not blank and holds no line break.
pub open spec fn one_line(l: Seq<char>) -> bool {
    trim(l).len() > 0 && !l.contains('\n')
}

proof fn lemma_nl_scan_append(x: Seq<char>, p: Seq<char>)
    requires
        !p.contains('\n'),
    ensures
        nl_scan(x + p) == (nl_scan(x).0, nl_scan(x).1 + p),
    decreases p.len(),
{
    if p.len() == 0 {
        assert(x + p =~= x);
        assert(nl_scan(x).1 + p =~= nl_scan(x).1);
    } else {
        let q = p.drop_last();
        assert(!q.contains('\n')) by {
            if q.contains('\n') {
                let k = choose|k: int| 0 <= k < q.len() && q[k] == '\n';
                assert(p[k] == '\n');
            }
        }
        lemma_nl_scan_append(x, q);
        assert((x + p).drop_last() =~= x + q);
        assert((x + p).last() == p.last());
        assert(p.last() != '\n') by {
            assert(p[p.len() - 1] == p.last());
        }
        assert(nl_scan(x).1 + q.push(p.last()) =~= nl_scan(x).1 + p);
        assert((nl_scan(x).1 + q).push(p.last()) =~= nl_scan(x).1 + p);
    }
}

proof fn lemma_nl_scan_join(parts: Seq<Seq<char>>)
    requires
        parts.len() > 0,
        forall|i: int| 0 <= i < parts.len() ==> !(#[trigger] parts[i]).contains('\n'),
    ensures
        nl_scan(crate::text::join(parts, "\n"@)) == (parts.drop_last(), parts.last()),
    decreases parts.len(),
{
    reveal_strlit("\n");
    if parts.len() == 1 {
        lemma_nl_scan_append(Seq::empty(), parts[0]);
        assert(Seq::<char>::empty() + parts[0] =~= parts[0]);
        assert(parts.drop_last() =~= Seq::<Seq<char>>::empty());
        assert(Seq::<char>::empty() + parts.last() =~= parts.last());
    } else {
        let init = parts.drop_last();
        assert forall|i: int| 0 <= i < init.len() implies !(#[trigger] init[i]).contains('\n') by {
            assert(init[i] == parts[i]);
        }
        lemma_nl_scan_join(init);
        let j = crate::text::join(init, "\n"@);
        let jn = j + "\n"@;
        assert(jn.drop_last() =~= j);
        assert(jn.last() == '\n');
        assert(nl_scan(jn) == (init.drop_last().push(init.last()), Seq::<char>::empty()));
        assert(init.drop_last().push(init.last()) =~= init);
        assert(parts[parts.len() - 1] == parts.last());
        lemma_nl_scan_append(jn, parts.last());
        assert(crate::text::join(parts, "\n"@) == jn + parts.last());
        assert(Seq::<char>::empty() + parts.last() =~= parts.last());
    }
}

proof fn lemma_keep_all(parts: Seq<Seq<char>>)
    requires
        forall|i: int| 0 <= i < parts.len() ==> trim(#[trigger] parts[i]).len() > 0,
    ensures
        keep_nonblank(parts) == parts,
    decreases parts.len(),
{
    if parts.len() > 0 {
        let init = parts.drop_last();
        assert forall|i: int| 0 <= i < init.len() implies trim(#[trigger] init[i]).len() > 0 by {
            assert(init[i] == parts[i]);
        }
        lemma_keep_all(init);
        assert(parts[parts.len() - 1] == parts.last());
        assert(init.push(parts.last()) =~= parts);
    }
}

/// Lines that are not blank, each on one line, read back from the text
/// that joins them.
proof fn lemma_lines_back(lines: Seq<Seq<char>>)
    requires
        forall|i: int| 0 <= i < lines.len() ==> one_line(#[trigger] lines[i]),
    ensures
        nonblank_lines(crate::text::join(lines, "\n"@)) == lines,
{
    if lines.len() == 0 {
        lemma_trim_empty();
        assert(nl_scan(Seq::<char>::empty()).0.push(nl_scan(Seq::<char>::empty()).1) =~= seq![Seq::<char>::empty()]);
        assert(seq![Seq::<char>::empty()].drop_last() =~= Seq::<Seq<char>>::empty());
        assert(crate::text::join(lines, "\n"@) == Seq::<char>::empty());
        assert(keep_nonblank(seq![Seq::<char>::empty()]) == keep_nonblank(Seq::<Seq<char>>::empty()));
        assert(lines =~= Seq::<Seq<char>>::empty());
    } else {
        assert forall|i: int| 0 <= i < lines.len() implies !(#[trigger] lines[i]).contains('\n') by {
            assert(one_line(lines[i]));
        }
        lemma_nl_scan_join(lines);
        assert(lines.drop_last().push(lines.last()) =~= lines);
        assert forall|i: int| 0 <= i < lines.len() implies trim(#[trigger] lines[i]).len() > 0 by {
            assert(one_line(lines[i]));
        }
        lemma_keep_all(lines);
        assert(nonblank_lines(crate::text::join(lines, "\n"@)) == keep_nonblank(lines));
    }
}

proof fn lemma_read_hero_mode_back(m: HeroMode)
    ensures
        read_hero_mode(hero_mode_text(m)) == Ok::<HeroMode, Seq<char>>(m),
{
    reveal_strlit("fluid-height");
    reveal_strlit("fixed-height");
    match m {
        HeroMode::FluidHeight => {
            crate::text::lemma_trim_fixed("fluid-height"@);
        },
        HeroMode::FixedHeight => {
            crate::text::lemma_trim_fixed("fixed-height"@);
            assert("fixed-height"@[1] != "fluid-height"@[1]);
        },
    }
}

/// Saving the unchanged form of a clean section, wrapper, hero, email
/// header, hero, call to action, article or footer succeeds, and the saved node's
/// form shows the same values (its children are kept as they were).
pub proof fn law_node_save_unchanged(o: BodyNode, st: crate::tui::editform::EditFormState, n: BodyNode, r: Result<(), String>)
    requires
        node_clean(o),
        node_shown(o, st),
        node_applied(o, n, st, r),
    ensures
        r is Ok,
        node_shown(n, st),
{
    match o {
        BodyNode::MjSection(x) => {
            let y = n->MjSection_0;
            lemma_read_bool_back(x.full_width);
            lemma_read_padding_back("padding"@, x.padding);
            lemma_read_unit_back("gutter"@, x.gutter);
            lemma_read_sides_back("border_sides"@, x.border_sides);
            lemma_read_unit_back("border_radius"@, x.border_radius);
            lemma_read_opt_back(x.label);
            lemma_read_opt_back(x.background_color);
            lemma_read_opt_back(x.background_url);
            lemma_read_opt_back(x.background_size);
            lemma_read_opt_back(x.background_repeat);
            lemma_read_opt_back(x.direction);
            lemma_read_opt_back(x.border);
            lemma_read_opt_back(x.css_class);
            lemma_same_text(y.label, x.label);
            lemma_same_text(y.background_color, x.background_color);
            lemma_same_text(y.background_url, x.background_url);
            lemma_same_text(y.background_size, x.background_size);
            lemma_same_text(y.background_repeat, x.background_repeat);
            lemma_same_text(y.padding, x.padding);
            lemma_same_text(y.gutter, x.gutter);
            lemma_same_text(y.direction, x.direction);
            lemma_same_text(y.border, x.border);
            lemma_same_sides(y.border_sides, x.border_sides);
            lemma_same_text(y.border_radius, x.border_radius);
            lemma_same_text(y.css_class, x.css_class);
        },
        BodyNode::MjWrapper(x) => {
            let y = n->MjWrapper_0;
            lemma_read_bool_back(x.full_width);
            lemma_read_padding_back("padding"@, x.padding);
            lemma_read_unit_back("gap"@, x.gap);
            lemma_read_sides_back("border_sides"@, x.border_sides);
            lemma_read_unit_back("border_radius"@, x.border_radius);
            lemma_read_opt_back(x.label);
            lemma_read_opt_back(x.background_color);
            lemma_read_opt_back(x.background_url);
            lemma_read_opt_back(x.background_size);
            lemma_read_opt_back(x.background_repeat);
            lemma_read_opt_back(x.border);
            lemma_read_opt_back(x.css_class);
            lemma_same_text(y.label, x.label);
            lemma_same_text(y.background_color, x.background_color);
            lemma_same_text(y.background_url, x.background_url);
            lemma_same_text(y.background_size, x.background_size);
            lemma_same_text(y.background_repeat, x.background_repeat);
            lemma_same_text(y.padding, x.padding);
            lemma_same_text(y.gap, x.gap);
            lemma_same_text(y.border, x.border);
            lemma_same_sides(y.border_sides, x.border_sides);
            lemma_same_text(y.border_radius, x.border_radius);
            lemma_same_text(y.css_class, x.css_class);
        },
        BodyNode::MjHero(x) => {
            let y = n->MjHero_0;
            lemma_read_hero_mode_back(x.mode);
            lemma_read_padding_back("padding"@, x.padding);
            lemma_read_padding_back("inner_padding"@, x.inner_padding);
            lemma_read_unit_back("border_radius"@, x.border_radius);
            lemma_read_opt_back(x.background_url);
            lemma_read_opt_back(x.background_color);
            lemma_read_opt_back(x.background_height);
            lemma_read_opt_back(x.background_width);
            lemma_read_opt_back(x.background_position);
            lemma_read_opt_back(x.width);
            lemma_read_opt_back(x.height);
            lemma_read_opt_back(x.vertical_align);
            lemma_read_opt_back(x.css_class);
            lemma_same_text(y.background_url, x.background_url);
            lemma_same_text(y.background_color, x.background_color);
            lemma_same_text(y.background_height, x.background_height);
            lemma_same_text(y.background_width, x.background_width);
            lemma_same_text(y.background_position, x.background_position);
            lemma_same_text(y.width, x.width);
            lemma_same_text(y.height, x.height);
            lemma_same_text(y.padding, x.padding);
            lemma_same_text(y.inner_padding, x.inner_padding);
            lemma_same_text(y.border_radius, x.border_radius);
            lemma_same_text(y.vertical_align, x.vertical_align);
            lemma_same_text(y.css_class, x.css_class);
        },
        BodyNode::EmailFooter(x) => {
            let y = n->EmailFooter_0;
            let lv = crate::text::views(x.address_lines@);
            assert forall|i: int| 0 <= i < lv.len() implies one_line(#[trigger] lv[i]) by {
                assert(one_line(x.address_lines@[i]@));
            }
            lemma_lines_back(lv);
            lemma_read_opt_back(x.copyright);
            lemma_same_text(y.copyright, x.copyright);
            lemma_social_items_back(x.social@, crate::tui::cursor::items_of(st, "social"@), y.social@);
        },
        BodyNode::EmailHeader(x) => {
            let y = n->EmailHeader_0;
            lemma_read_opt_back(x.logo_href);
            lemma_read_opt_back(x.background_color);
            lemma_same_text(y.logo_href, x.logo_href);
            lemma_same_text(y.background_color, x.background_color);
        },
        BodyNode::EmailHero(x) => {
            let y = n->EmailHero_0;
            lemma_read_opt_back(x.background_color);
            lemma_same_text(y.background_color, x.background_color);
        },
        BodyNode::EmailCta(x) => {
            let y = n->EmailCta_0;
            lemma_read_opt_back(x.background_color);
            lemma_same_text(y.background_color, x.background_color);
        },
        BodyNode::EmailArticle(x) => {
            lemma_read_image_pos_back(x.image_position);
        },
        _ => {},
    }
}

/// A column whose own values are as a save stores them.
pub open spec fn column_clean(x: MjColumn) -> bool {
    &&& clean_opt(x.width)
    &&& clean_opt(x.background_color)
    &&& clean_padding(x.padding)
    &&& clean_opt(x.inner_background_color)
    &&& clean_opt(x.border)
    &&& clean_sides("border_sides"@, x.border_sides)
    &&& clean_unit("border_radius"@, x.border_radius)
    &&& clean_opt(x.inner_border)
    &&& clean_sides("inner_border_sides"@, x.inner_border_sides)
    &&& clean_unit("inner_border_radius"@, x.inner_border_radius)
    &&& clean_opt(x.vertical_align)
    &&& clean_opt(x.css_class)
}

/// Saving the unchanged form of a clean column succeeds, and the saved
/// column's form shows the same values.
pub proof fn law_column_save_unchanged(x: MjColumn, st: crate::tui::editform::EditFormState, y: MjColumn, r: Result<(), String>)
    requires
        column_clean(x),
        column_shown(x, st),
        column_applied(x, y, st, r),
    ensures
        r is Ok,
        column_shown(y, st),
{
    lemma_read_padding_back("padding"@, x.padding);
    lemma_read_sides_back("border_sides"@, x.border_sides);
    lemma_read_unit_back("border_radius"@, x.border_radius);
    lemma_read_sides_back("inner_border_sides"@, x.inner_border_sides);
    lemma_read_unit_back("inner_border_radius"@, x.inner_border_radius);
    lemma_read_opt_back(x.width);
    lemma_read_opt_back(x.background_color);
    lemma_read_opt_back(x.inner_background_color);
    lemma_read_opt_back(x.border);
    lemma_read_opt_back(x.inner_border);
    lemma_read_opt_back(x.vertical_align);
    lemma_read_opt_back(x.css_class);
    lemma_same_text(y.width, x.width);
    lemma_same_text(y.background_color, x.background_color);
    lemma_same_text(y.padding, x.padding);
    lemma_same_text(y.inner_background_color, x.inner_background_color);
    lemma_same_text(y.border, x.border);
    lemma_same_sides(y.border_sides, x.border_sides);
    lemma_same_text(y.border_radius, x.border_radius);
    lemma_same_text(y.inner_border, x.inner_border);
    lemma_same_sides(y.inner_border_sides, x.inner_border_sides);
    lemma_same_text(y.inner_border_radius, x.inner_border_radius);
    lemma_same_text(y.vertical_align, x.vertical_align);
    lemma_same_text(y.css_class, x.css_class);
}

/// A group whose own values are as a save stores them.
pub open spec fn group_clean(x: MjGroup) -> bool {
    &&& clean_opt(x.width)
    &&& clean_opt(x.background_color)
    &&& clean_opt(x.direction)
    &&& clean_opt(x.vertical_align)
    &&& clean_opt(x.css_class)
}

/// Saving the unchanged form of a clean group succeeds, and the saved
/// group's form shows the same values.
pub proof fn law_group_save_unchanged(x: MjGroup, st: crate::tui::editform::EditFormState, y: MjGroup, r: Result<(), String>)
    requires
        group_clean(x),
        group_shown(x, st),
        group_applied(x, y, st, r),
    ensures
        r is Ok,
        group_shown(y, st),
{
    lemma_read_opt_back(x.width);
    lemma_read_opt_back(x.background_color);
    lemma_read_opt_back(x.direction);
    lemma_read_opt_back(x.vertical_align);
    lemma_read_opt_back(x.css_class);
    lemma_same_text(y.width, x.width);
    lemma_same_text(y.background_color, x.background_color);
    lemma_same_text(y.direction, x.direction);
    lemma_same_text(y.vertical_align, x.vertical_align);
    lemma_same_text(y.css_class, x.css_class);
}

/// A navbar link whose values are as a save stores them.
pub open spec fn navbar_link_clean(x: MjNavbarLink) -> bool {
    &&& clean_opt(x.color)
    &&& clean_opt(x.font_family)
    &&& clean_opt(x.font_size)
    &&& clean_opt(x.font_weight)
    &&& clean_opt(x.text_decoration)
    &&& clean_opt(x.text_transform)
    &&& clean_padding(x.padding)
    &&& clean_opt(x.css_class)
}

/// Saving the unchanged form of a clean navbar link succeeds, and the saved
/// link's form shows the same values.
pub proof fn law_navbar_link_save_unchanged(
    x: MjNavbarLink,
    st: crate::tui::editform::EditFormState,
    y: MjNavbarLink,
    r: Result<(), String>,
)
    requires
        navbar_link_clean(x),
        navbar_link_shown(x, st),
        navbar_link_applied(x, y, st, r),
    ensures
        r is Ok,
        navbar_link_shown(y, st),
{
    lemma_read_padding_back("padding"@, x.padding);
    lemma_read_opt_back(x.color);
    lemma_read_opt_back(x.font_family);
    lemma_read_opt_back(x.font_size);
    lemma_read_opt_back(x.font_weight);
    lemma_read_opt_back(x.text_decoration);
    lemma_read_opt_back(x.text_transform);
    lemma_read_opt_back(x.css_class);
    lemma_same_text(y.color, x.color);
    lemma_same_text(y.font_family, x.font_family);
    lemma_same_text(y.font_size, x.font_size);
    lemma_same_text(y.font_weight, x.font_weight);
    lemma_same_text(y.text_decoration, x.text_decoration);
    lemma_same_text(y.text_transform, x.text_transform);
    lemma_same_text(y.padding, x.padding);
    lemma_same_text(y.css_class, x.css_class);
}

/// Saving the unchanged form of an accordion element whose optional values
/// are unset rather than blank succeeds, and the saved element's form shows
/// the same values.
pub proof fn law_accordion_el_save_unchanged(
    x: MjAccordionElement,
    st: crate::tui::editform::EditFormState,
    y: MjAccordionElement,
    r: Result<(), String>,
)
    requires
        clean_opt(x.background_color),
        clean_opt(x.css_class),
        accordion_el_shown(x, st),
        accordion_el_applied(x, y, st, r),
    ensures
        r is Ok,
        accordion_el_shown(y, st),
{
    lemma_read_opt_back(x.background_color);
    lemma_read_opt_back(x.css_class);
    lemma_same_text(y.background_color, x.background_color);
    lemma_same_text(y.css_class, x.css_class);
}

/// A carousel image whose values are as a save stores them.
pub open spec fn carousel_img_clean(x: MjCarouselImage) -> bool {
    &&& trim(x.src@) == x.src@
    &&& clean_opt(x.href)
    &&& clean_opt(x.thumbnails_src)
    &&& clean_unit("border_radius"@, x.border_radius)
    &&& clean_opt(x.css_class)
}

/// Saving the unchanged form of a clean carousel image succeeds, and the
/// saved image's form shows the same values.
pub proof fn law_carousel_img_save_unchanged(
    x: MjCarouselImage,
    st: crate::tui::editform::EditFormState,
    y: MjCarouselImage,
    r: Result<(), String>,
)
    requires
        carousel_img_clean(x),
        carousel_img_shown(x, st),
        carousel_img_applied(x, y, st, r),
    ensures
        r is Ok,
        carousel_img_shown(y, st),
{
    lemma_read_unit_back("border_radius"@, x.border_radius);
    lemma_read_opt_back(x.href);
    lemma_read_opt_back(x.thumbnails_src);
    lemma_read_opt_back(x.css_class);
    lemma_same_text(y.href, x.href);
    lemma_same_text(y.thumbnails_src, x.thumbnails_src);
    lemma_same_text(y.border_radius, x.border_radius);
    lemma_same_text(y.css_class, x.css_class);
}

/// A head whose values are as a save stores them: the direction trimmed,
/// and each web font's name and address trimmed.
pub open spec fn head_clean(t: crate::model::Template) -> bool {
    &&& trim(t.dir@) == t.dir@
    &&& forall|i: int|
        0 <= i < t.head.fonts@.len() ==> trim((#[trigger] t.head.fonts@[i]).name@) == t.head.fonts@[i].name@
            && trim(t.head.fonts@[i].href@) == t.head.fonts@[i].href@
}

/// Saving the unchanged head form of a clean head succeeds, keeps the brand
/// and body, and the saved head's form shows the same values.
pub proof fn law_head_save_unchanged(
    o: crate::model::Template,
    st: crate::tui::editform::EditFormState,
    n: crate::model::Template,
    r: Result<(), String>,
)
    requires
        head_clean(o),
        head_shown(o, st),
        head_applied(o, n, st, r),
    ensures
        r is Ok,
        n.brand == o.brand,
        n.body == o.body,
        head_shown(n, st),
{
    lemma_read_bool_back(o.head.css_inline);
    let items = crate::tui::cursor::items_of(st, "fonts"@);
    assert forall|i: int| 0 <= i < n.head.fonts@.len() implies #[trigger] crate::tui::cursor::font_item_shown(
        n.head.fonts@[i],
        items[i],
    ) by {
        assert(crate::tui::cursor::font_item_shown(o.head.fonts@[i], items[i]));
    }
}

/// What a path leads to, with its values as a save stores them.
pub open spec fn target_clean(tg: Target) -> bool {
    match tg {
        Target::Node(n) => node_clean(n),
        Target::Column(c) => column_clean(c),
        Target::Group(g) => group_clean(g),
        Target::Leaf(c) => plain_leaf_clean(c),
        Target::NavbarLink(l) => navbar_link_clean(l),
        Target::AccordionEl(e) => clean_opt(e.background_color) && clean_opt(e.css_class),
        Target::CarouselImg(i) => carousel_img_clean(i),
    }
}

/// After a save at `steps`, what they lead to shows the form again.
pub open spec fn still_shown(tg: Option<Target>, st: crate::tui::editform::EditFormState) -> bool {
    tg matches Some(x) && target_shown(x, st)
}

proof fn lemma_child_at(
    o: ColumnChild,
    n: ColumnChild,
    steps: Seq<Step>,
    st: crate::tui::editform::EditFormState,
    r: Result<(), String>,
)
    requires
        target_in_child(o, steps) matches Some(tg) && target_clean(tg) && target_shown(tg, st),
        child_applied_at(o, n, steps, st, r),
    ensures
        r is Ok,
        still_shown(target_in_child(n, steps), st),
{
    if steps.len() == 0 {
        law_plain_leaf_save_unchanged(o, st, n, r);
    } else {
        match (steps[0], o) {
            (Step::NavbarLink(i), ColumnChild::MjNavbar(a)) => {
                let b = n->MjNavbar_0;
                assert(b.links@.len() == a.links@.len());
                law_navbar_link_save_unchanged(a.links@[i as int], st, b.links@[i as int], r);
            },
            (Step::AccordionEl(i), ColumnChild::MjAccordion(a)) => {
                let b = n->MjAccordion_0;
                assert(b.elements@.len() == a.elements@.len());
                law_accordion_el_save_unchanged(a.elements@[i as int], st, b.elements@[i as int], r);
            },
            (Step::CarouselImg(i), ColumnChild::MjCarousel(a)) => {
                let b = n->MjCarousel_0;
                assert(b.images@.len() == a.images@.len());
                law_carousel_img_save_unchanged(a.images@[i as int], st, b.images@[i as int], r);
            },
            _ => {},
        }
    }
}

proof fn lemma_column_at(
    o: MjColumn,
    n: MjColumn,
    steps: Seq<Step>,
    st: crate::tui::editform::EditFormState,
    r: Result<(), String>,
)
    requires
        target_in_column(o, steps) matches Some(tg) && target_clean(tg) && target_shown(tg, st),
        column_applied_at(o, n, steps, st, r),
    ensures
        r is Ok,
        still_shown(target_in_column(n, steps), st),
{
    if steps.len() == 0 {
        law_column_save_unchanged(o, st, n, r);
    } else {
        let i = steps[0]->ColComp_0;
        assert(n.components@.len() == o.components@.len());
        lemma_child_at(o.components@[i as int], n.components@[i as int], steps.drop_first(), st, r);
    }
}

proof fn lemma_group_at(
    o: MjGroup,
    n: MjGroup,
    steps: Seq<Step>,
    st: crate::tui::editform::EditFormState,
    r: Result<(), String>,
)
    requires
        target_in_group(o, steps) matches Some(tg) && target_clean(tg) && target_shown(tg, st),
        group_applied_at(o, n, steps, st, r),
    ensures
        r is Ok,
        still_shown(target_in_group(n, steps), st),
{
    if steps.len() == 0 {
        law_group_save_unchanged(o, st, n, r);
    } else {
        let i = steps[0]->GroupCol_0;
        assert(n.children@.len() == o.children@.len());
        lemma_column_at(o.children@[i as int], n.children@[i as int], steps.drop_first(), st, r);
    }
}

proof fn lemma_node_at(
    o: BodyNode,
    n: BodyNode,
    steps: Seq<Step>,
    st: crate::tui::editform::EditFormState,
    r: Result<(), String>,
)
    requires
        target_in_node(o, steps) matches Some(tg) && target_clean(tg) && target_shown(tg, st),
        node_applied_at(o, n, steps, st, r),
    ensures
        r is Ok,
        still_shown(target_in_node(n, steps), st),
    decreases steps.len(),
{
    if steps.len() == 0 {
        law_node_save_unchanged(o, st, n, r);
    } else {
        match (steps[0], o) {
            (Step::WrapperChild(j), BodyNode::MjWrapper(a)) => {
                let b = n->MjWrapper_0;
                assert(b.children@.len() == a.children@.len());
                lemma_node_at(a.children@[j as int], b.children@[j as int], steps.drop_first(), st, r);
            },
            (Step::SectionChild(j), BodyNode::MjSection(a)) => {
                let b = n->MjSection_0;
                assert(b.children@.len() == a.children@.len());
                match a.children@[j as int] {
                    SectionChild::MjColumn(c) => {
                        let d = b.children@[j as int]->MjColumn_0;
                        lemma_column_at(c, d, steps.drop_first(), st, r);
                    },
                    SectionChild::MjGroup(g) => {
                        let h = b.children@[j as int]->MjGroup_0;
                        lemma_group_at(g, h, steps.drop_first(), st, r);
                    },
                }
            },
            (Step::HeroChild(j), BodyNode::MjHero(a)) => {
                let b = n->MjHero_0;
                assert(b.children@.len() == a.children@.len());
                lemma_child_at(a.children@[j as int], b.children@[j as int], steps.drop_first(), st, r);
            },
            _ => {},
        }
    }
}

/// Saving the unchanged form at a path of the tree: when the path leads to
/// a node whose values are as a save stores them, and the form shows it
/// (as [`crate::tui::cursor::form_for`] fills it), writing the form back
/// with [`crate::tui::cursor::apply_form`] succeeds, the path still leads
/// to a node, and that node's form shows the same values.
pub proof fn law_path_save_unchanged(
    t: Template,
    p: Seq<Step>,
    st: crate::tui::editform::EditFormState,
    n: Template,
    r: Result<(), String>,
)
    requires
        target_of(t, p) matches Some(tg) && target_clean(tg) && target_shown(tg, st),
        template_applied_at(t, n, p, st, r),
    ensures
        r is Ok,
        still_shown(target_of(n, p), st),
{
    let i = p[0]->BodyNode_0 as int;
    assert(n.body.nodes@.len() == t.body.nodes@.len());
    lemma_node_at(t.body.nodes@[i], n.body.nodes@[i], p.drop_first(), st, r);
}

/// An optional field after a save takes the form's text: unset when the text
/// is blank, else the text without surrounding white space.
pub open spec fn takes_text(f: Option<String>, v: Seq<char>) -> bool {
    if trim(v).len() == 0 {
        f is None
    } else {
        f matches Some(s) && s@ == trim(v)
    }
}

/// A padding field after a save: unset when the form's text is blank, else
/// that text normalized.
pub open spec fn takes_padding(f: Option<String>, v: Seq<char>) -> bool {
    if trim(v).len() == 0 {
        f is None
    } else {
        f matches Some(s) && normalized_padding(trim(v)) == Some(s@)
    }
}

/// A length field after a save: unset when the form's text is blank, else
/// that text normalized as a padding shorthand, or as one length when it is
/// not one.
pub open spec fn takes_unit(f: Option<String>, v: Seq<char>) -> bool {
    if trim(v).len() == 0 {
        f is None
    } else {
        f matches Some(s) && (normalized_padding(trim(v)) == Some(s@) || (normalized_padding(trim(v)) is None
            && crate::padding::normalized_unit(trim(v)) == Some(s@)))
    }
}

/// A border-sides field after a save selects the sides the form's text
/// selects.
pub open spec fn takes_sides(f: Option<String>, v: Seq<char>) -> bool {
    crate::border::sides_from(opt_text(f)) == crate::border::sides_from(trim(v))
}

proof fn lemma_takes_sides(v: Seq<char>)
    ensures
        forall|f: Option<String>|
            crate::border::sides_from(trim(v)) is Ok && opt_view(f) == crate::border::storage_of(
                crate::border::sides_from(trim(v))->Ok_0,
            ) ==> #[trigger] takes_sides(f, v),
{
    assert forall|f: Option<String>|
        crate::border::sides_from(trim(v)) is Ok && opt_view(f) == crate::border::storage_of(
            crate::border::sides_from(trim(v))->Ok_0,
        ) implies #[trigger] takes_sides(f, v) by {
        let s = crate::border::sides_from(trim(v))->Ok_0;
        crate::border::law_form_round_trip(s);
        lemma_trim_empty();
        if f is None {
            assert(opt_text(f) == Seq::<char>::empty());
            assert(s == crate::border::all_sides());
        } else {
            assert(opt_text(f) == crate::border::form_of(s));
        }
    }
}

/// Saving the section form writes the form's fields into it: each text
/// field takes the form's text (trimmed where the form trims it, unset when
/// blank), each padding or length the form's normalized, each flag the
/// form's `true`/`false`, each choice (alignment, mode, position) the one the
/// form names, each border-sides field the sides the form selects; fields
/// after the first that does not read are written only when the save
/// succeeds, and what the form does not edit is kept.
pub proof fn law_section_save_takes_form(
    o: crate::model::MjSection,
    n: crate::model::MjSection,
    st: crate::tui::editform::EditFormState,
    r: Result<(), String>,
)
    requires
        crate::tui::cursor::section_applied(o, n, st, r),
    ensures
        takes_text(n.label, st.value("label"@)),
        takes_text(n.background_color, st.value("background_color"@)),
        takes_text(n.background_url, st.value("background_url"@)),
        takes_text(n.background_size, st.value("background_size"@)),
        takes_text(n.background_repeat, st.value("background_repeat"@)),
        r is Ok ==> takes_padding(n.padding, st.value("padding"@)),
        r is Ok ==> takes_unit(n.gutter, st.value("gutter"@)),
        r is Ok ==> takes_text(n.direction, st.value("direction"@)),
        r is Ok ==> takes_text(n.border, st.value("border"@)),
        r is Ok ==> takes_sides(n.border_sides, st.value("border_sides"@)),
        r is Ok ==> takes_unit(n.border_radius, st.value("border_radius"@)),
        r is Ok ==> (n.full_width <==> trim(st.value("full_width"@)) == "true"@),
        r is Ok ==> takes_text(n.css_class, st.value("css_class"@)),
        n.children == o.children,
{
    reveal_strlit("true");
    reveal_strlit("false");
    lemma_takes_sides(st.value("border_sides"@));
}

/// Saving the wrapper form writes the form's fields into it: each text
/// field takes the form's text (trimmed where the form trims it, unset when
/// blank), each padding or length the form's normalized, each flag the
/// form's `true`/`false`, each choice (alignment, mode, position) the one the
/// form names, each border-sides field the sides the form selects; fields
/// after the first that does not read are written only when the save
/// succeeds, and what the form does not edit is kept.
pub proof fn law_wrapper_save_takes_form(
    o: crate::model::MjWrapper,
    n: crate::model::MjWrapper,
    st: crate::tui::editform::EditFormState,
    r: Result<(), String>,
)
    requires
        crate::tui::cursor::wrapper_applied(o, n, st, r),
    ensures
        takes_text(n.label, st.value("label"@)),
        takes_text(n.background_color, st.value("background_color"@)),
        takes_text(n.background_url, st.value("background_url"@)),
        takes_text(n.background_size, st.value("background_size"@)),
        takes_text(n.background_repeat, st.value("background_repeat"@)),
        r is Ok ==> takes_padding(n.padding, st.value("padding"@)),
        r is Ok ==> takes_unit(n.gap, st.value("gap"@)),
        r is Ok ==> takes_text(n.border, st.value("border"@)),
        r is Ok ==> takes_sides(n.border_sides, st.value("border_sides"@)),
        r is Ok ==> takes_unit(n.border_radius, st.value("border_radius"@)),
        r is Ok ==> (n.full_width <==> trim(st.value("full_width"@)) == "true"@),
        r is Ok ==> takes_text(n.css_class, st.value("css_class"@)),
        n.children == o.children,
{
    reveal_strlit("true");
    reveal_strlit("false");
    lemma_takes_sides(st.value("border_sides"@));
}

/// Saving the column form writes the form's fields into it: each text
/// field takes the form's text (trimmed where the form trims it, unset when
/// blank), each padding or length the form's normalized, each flag the
/// form's `true`/`false`, each choice (alignment, mode, position) the one the
/// form names, each border-sides field the sides the form selects; fields
/// after the first that does not read are written only when the save
/// succeeds, and what the form does not edit is kept.
pub proof fn law_column_save_takes_form(
    o: crate::model::MjColumn,
    n: crate::model::MjColumn,
    st: crate::tui::editform::EditFormState,
    r: Result<(), String>,
)
    requires
        crate::tui::cursor::column_applied(o, n, st, r),
    ensures
        takes_text(n.width, st.value("width"@)),
        takes_text(n.background_color, st.value("background_color"@)),
        r is Ok ==> takes_padding(n.padding, st.value("padding"@)),
        r is Ok ==> takes_text(n.inner_background_color, st.value("inner_background_color"@)),
        r is Ok ==> takes_text(n.border, st.value("border"@)),
        r is Ok ==> takes_sides(n.border_sides, st.value("border_sides"@)),
        r is Ok ==> takes_unit(n.border_radius, st.value("border_radius"@)),
        r is Ok ==> takes_text(n.inner_border, st.value("inner_border"@)),
        r is Ok ==> takes_sides(n.inner_border_sides, st.value("inner_border_sides"@)),
        r is Ok ==> takes_unit(n.inner_border_radius, st.value("inner_border_radius"@)),
        r is Ok ==> takes_text(n.vertical_align, st.value("vertical_align"@)),
        r is Ok ==> takes_text(n.css_class, st.value("css_class"@)),
        n.components == o.components,
{
    reveal_strlit("true");
    reveal_strlit("false");
    lemma_takes_sides(st.value("border_sides"@));
    lemma_takes_sides(st.value("inner_border_sides"@));
}

/// Saving the group form writes the form's fields into it: each text
/// field takes the form's text (trimmed where the form trims it, unset when
/// blank), each padding or length the form's normalized, each flag the
/// form's `true`/`false`, each choice (alignment, mode, position) the one the
/// form names, each border-sides field the sides the form selects; fields
/// after the first that does not read are written only when the save
/// succeeds, and what the form does not edit is kept.
pub proof fn law_group_save_takes_form(
    o: crate::model::MjGroup,
    n: crate::model::MjGroup,
    st: crate::tui::editform::EditFormState,
    r: Result<(), String>,
)
    requires
        crate::tui::cursor::group_applied(o, n, st, r),
    ensures
        takes_text(n.width, st.value("width"@)),
        takes_text(n.background_color, st.value("background_color"@)),
        takes_text(n.direction, st.value("direction"@)),
        takes_text(n.vertical_align, st.value("vertical_align"@)),
        takes_text(n.css_class, st.value("css_class"@)),
        n.children == o.children,
{
    reveal_strlit("true");
    reveal_strlit("false");
}

/// Saving the hero form writes the form's fields into it: each text
/// field takes the form's text (trimmed where the form trims it, unset when
/// blank), each padding or length the form's normalized, each flag the
/// form's `true`/`false`, each choice (alignment, mode, position) the one the
/// form names, each border-sides field the sides the form selects; fields
/// after the first that does not read are written only when the save
/// succeeds, and what the form does not edit is kept.
pub proof fn law_hero_save_takes_form(
    o: crate::model::MjHero,
    n: crate::model::MjHero,
    st: crate::tui::editform::EditFormState,
    r: Result<(), String>,
)
    requires
        crate::tui::cursor::hero_applied(o, n, st, r),
    ensures
        r is Ok ==> crate::tui::cursor::hero_mode_text(n.mode) == trim(st.value("mode"@)),
        r is Ok ==> takes_text(n.background_url, st.value("background_url"@)),
        r is Ok ==> takes_text(n.background_color, st.value("background_color"@)),
        r is Ok ==> takes_text(n.background_height, st.value("background_height"@)),
        r is Ok ==> takes_text(n.background_width, st.value("background_width"@)),
        r is Ok ==> takes_text(n.background_position, st.value("background_position"@)),
        r is Ok ==> takes_text(n.width, st.value("width"@)),
        r is Ok ==> takes_text(n.height, st.value("height"@)),
        r is Ok ==> takes_padding(n.padding, st.value("padding"@)),
        r is Ok ==> takes_padding(n.inner_padding, st.value("inner_padding"@)),
        r is Ok ==> takes_unit(n.border_radius, st.value("border_radius"@)),
        r is Ok ==> takes_text(n.vertical_align, st.value("vertical_align"@)),
        r is Ok ==> takes_text(n.css_class, st.value("css_class"@)),
        n.children == o.children,
{
    reveal_strlit("true");
    reveal_strlit("false");
    reveal_strlit("fluid-height");
    reveal_strlit("fixed-height");
}

/// Saving the text form writes the form's fields into it: each text
/// field takes the form's text (trimmed where the form trims it, unset when
/// blank), each padding or length the form's normalized, each flag the
/// form's `true`/`false`, each choice (alignment, mode, position) the one the
/// form names, each border-sides field the sides the form selects; fields
/// after the first that does not read are written only when the save
/// succeeds, and what the form does not edit is kept.
pub proof fn law_text_save_takes_form(
    o: crate::model::MjText,
    n: crate::model::MjText,
    st: crate::tui::editform::EditFormState,
    r: Result<(), String>,
)
    requires
        crate::tui::cursor::text_applied(o, n, st, r),
    ensures
        n.content@ == st.value("content"@),
        r is Ok ==> crate::tui::cursor::align_text(n.align) == trim(st.value("align"@)),
        r is Ok ==> takes_text(n.font_size, st.value("font_size"@)),
        r is Ok ==> takes_text(n.font_family, st.value("font_family"@)),
        r is Ok ==> takes_text(n.font_weight, st.value("font_weight"@)),
        r is Ok ==> takes_text(n.font_style, st.value("font_style"@)),
        r is Ok ==> takes_text(n.line_height, st.value("line_height"@)),
        r is Ok ==> takes_text(n.color, st.value("color"@)),
        r is Ok ==> takes_padding(n.padding, st.value("padding"@)),
        r is Ok ==> takes_text(n.letter_spacing, st.value("letter_spacing"@)),
        r is Ok ==> takes_text(n.text_decoration, st.value("text_decoration"@)),
        r is Ok ==> takes_text(n.text_transform, st.value("text_transform"@)),
        r is Ok ==> takes_text(n.height, st.value("height"@)),
        r is Ok ==> takes_text(n.css_class, st.value("css_class"@)),
{
    reveal_strlit("true");
    reveal_strlit("false");
    reveal_strlit("");
    reveal_strlit("left");
    reveal_strlit("center");
    reveal_strlit("right");
}

/// Saving the button form writes the form's fields into it: each text
/// field takes the form's text (trimmed where the form trims it, unset when
/// blank), each padding or length the form's normalized, each flag the
/// form's `true`/`false`, each choice (alignment, mode, position) the one the
/// form names, each border-sides field the sides the form selects; fields
/// after the first that does not read are written only when the save
/// succeeds, and what the form does not edit is kept.
pub proof fn law_button_save_takes_form(
    o: crate::model::MjButton,
    n: crate::model::MjButton,
    st: crate::tui::editform::EditFormState,
    r: Result<(), String>,
)
    requires
        crate::tui::cursor::button_applied(o, n, st, r),
    ensures
        n.content@ == st.value("content"@),
        n.href@ == st.value("href"@),
        takes_text(n.background_color, st.value("background_color"@)),
        takes_text(n.color, st.value("color"@)),
        r is Ok ==> crate::tui::cursor::align_text(n.align) == trim(st.value("align"@)),
        r is Ok ==> takes_text(n.font_family, st.value("font_family"@)),
        r is Ok ==> takes_text(n.font_size, st.value("font_size"@)),
        r is Ok ==> takes_text(n.font_weight, st.value("font_weight"@)),
        r is Ok ==> takes_text(n.font_style, st.value("font_style"@)),
        r is Ok ==> takes_text(n.border, st.value("border"@)),
        r is Ok ==> takes_sides(n.border_sides, st.value("border_sides"@)),
        r is Ok ==> takes_unit(n.border_radius, st.value("border_radius"@)),
        r is Ok ==> takes_padding(n.inner_padding, st.value("inner_padding"@)),
        r is Ok ==> takes_text(n.width, st.value("width"@)),
        r is Ok ==> takes_text(n.height, st.value("height"@)),
        r is Ok ==> takes_text(n.target, st.value("target"@)),
        r is Ok ==> takes_padding(n.padding, st.value("padding"@)),
        r is Ok ==> takes_text(n.letter_spacing, st.value("letter_spacing"@)),
        r is Ok ==> takes_text(n.line_height, st.value("line_height"@)),
        r is Ok ==> takes_text(n.text_decoration, st.value("text_decoration"@)),
        r is Ok ==> takes_text(n.text_transform, st.value("text_transform"@)),
        r is Ok ==> takes_text(n.rel, st.value("rel"@)),
        r is Ok ==> takes_text(n.title, st.value("title"@)),
        r is Ok ==> takes_text(n.css_class, st.value("css_class"@)),
{
    reveal_strlit("true");
    reveal_strlit("false");
    reveal_strlit("");
    reveal_strlit("left");
    reveal_strlit("center");
    reveal_strlit("right");
    lemma_takes_sides(st.value("border_sides"@));
}

/// Saving the image form writes the form's fields into it: each text
/// field takes the form's text (trimmed where the form trims it, unset when
/// blank), each padding or length the form's normalized, each flag the
/// form's `true`/`false`, each choice (alignment, mode, position) the one the
/// form names, each border-sides field the sides the form selects; fields
/// after the first that does not read are written only when the save
/// succeeds, and what the form does not edit is kept.
pub proof fn law_image_save_takes_form(
    o: crate::model::MjImage,
    n: crate::model::MjImage,
    st: crate::tui::editform::EditFormState,
    r: Result<(), String>,
)
    requires
        crate::tui::cursor::image_applied(o, n, st, r),
    ensures
        n.src@ == trim(st.value("src"@)),
        n.alt@ == st.value("alt"@),
        takes_text(n.href, st.value("href"@)),
        takes_text(n.title, st.value("title"@)),
        takes_text(n.width, st.value("width"@)),
        takes_text(n.height, st.value("height"@)),
        r is Ok ==> crate::tui::cursor::align_text(n.align) == trim(st.value("align"@)),
        r is Ok ==> (n.fluid_on_mobile <==> trim(st.value("fluid_on_mobile"@)) == "true"@),
        r is Ok ==> takes_text(n.border, st.value("border"@)),
        r is Ok ==> takes_sides(n.border_sides, st.value("border_sides"@)),
        r is Ok ==> takes_unit(n.border_radius, st.value("border_radius"@)),
        r is Ok ==> takes_padding(n.padding, st.value("padding"@)),
        r is Ok ==> takes_text(n.target, st.value("target"@)),
        r is Ok ==> takes_text(n.rel, st.value("rel"@)),
        r is Ok ==> takes_text(n.css_class, st.value("css_class"@)),
{
    reveal_strlit("true");
    reveal_strlit("false");
    reveal_strlit("");
    reveal_strlit("left");
    reveal_strlit("center");
    reveal_strlit("right");
    lemma_takes_sides(st.value("border_sides"@));
}

/// Saving the divider form writes the form's fields into it: each text
/// field takes the form's text (trimmed where the form trims it, unset when
/// blank), each padding or length the form's normalized, each flag the
/// form's `true`/`false`, each choice (alignment, mode, position) the one the
/// form names, each border-sides field the sides the form selects; fields
/// after the first that does not read are written only when the save
/// succeeds, and what the form does not edit is kept.
pub proof fn law_divider_save_takes_form(
    o: crate::model::MjDivider,
    n: crate::model::MjDivider,
    st: crate::tui::editform::EditFormState,
    r: Result<(), String>,
)
    requires
        crate::tui::cursor::divider_applied(o, n, st, r),
    ensures
        takes_text(n.border_color, st.value("border_color"@)),
        takes_text(n.border_width, st.value("border_width"@)),
        takes_text(n.border_style, st.value("border_style"@)),
        takes_text(n.width, st.value("width"@)),
        r is Ok ==> crate::tui::cursor::align_text(n.align) == trim(st.value("align"@)),
        r is Ok ==> takes_padding(n.padding, st.value("padding"@)),
        r is Ok ==> takes_text(n.css_class, st.value("css_class"@)),
{
    reveal_strlit("true");
    reveal_strlit("false");
    reveal_strlit("");
    reveal_strlit("left");
    reveal_strlit("center");
    reveal_strlit("right");
}

/// Saving the spacer form writes the form's fields into it: each text
/// field takes the form's text (trimmed where the form trims it, unset when
/// blank), each padding or length the form's normalized, each flag the
/// form's `true`/`false`, each choice (alignment, mode, position) the one the
/// form names, each border-sides field the sides the form selects; fields
/// after the first that does not read are written only when the save
/// succeeds, and what the form does not edit is kept.
pub proof fn law_spacer_save_takes_form(
    o: crate::model::MjSpacer,
    n: crate::model::MjSpacer,
    st: crate::tui::editform::EditFormState,
    r: Result<(), String>,
)
    requires
        crate::tui::cursor::spacer_applied(o, n, st, r),
    ensures
        n.height@ == trim(st.value("height"@)),
        r is Ok ==> takes_padding(n.padding, st.value("padding"@)),
        r is Ok ==> takes_text(n.css_class, st.value("css_class"@)),
{
    reveal_strlit("true");
    reveal_strlit("false");
}

/// Saving the table form writes the form's fields into it: each text
/// field takes the form's text (trimmed where the form trims it, unset when
/// blank), each padding or length the form's normalized, each flag the
/// form's `true`/`false`, each choice (alignment, mode, position) the one the
/// form names, each border-sides field the sides the form selects; fields
/// after the first that does not read are written only when the save
/// succeeds, and what the form does not edit is kept.
pub proof fn law_table_save_takes_form(
    o: crate::model::MjTable,
    n: crate::model::MjTable,
    st: crate::tui::editform::EditFormState,
    r: Result<(), String>,
)
    requires
        crate::tui::cursor::table_applied(o, n, st, r),
    ensures
        n.content@ == st.value("content"@),
        takes_text(n.font_size, st.value("font_size"@)),
        takes_text(n.font_family, st.value("font_family"@)),
        takes_text(n.line_height, st.value("line_height"@)),
        takes_text(n.color, st.value("color"@)),
        r is Ok ==> crate::tui::cursor::align_text(n.align) == trim(st.value("align"@)),
        r is Ok ==> takes_text(n.width, st.value("width"@)),
        r is Ok ==> takes_text(n.border, st.value("border"@)),
        r is Ok ==> takes_padding(n.padding, st.value("padding"@)),
        r is Ok ==> takes_text(n.cellpadding, st.value("cellpadding"@)),
        r is Ok ==> takes_text(n.cellspacing, st.value("cellspacing"@)),
        r is Ok ==> takes_text(n.role, st.value("role"@)),
        r is Ok ==> takes_text(n.css_class, st.value("css_class"@)),
{
    reveal_strlit("true");
    reveal_strlit("false");
    reveal_strlit("");
    reveal_strlit("left");
    reveal_strlit("center");
    reveal_strlit("right");
}

/// Saving the navbar form writes the form's fields into it: each text
/// field takes the form's text (trimmed where the form trims it, unset when
/// blank), each padding or length the form's normalized, each flag the
/// form's `true`/`false`, each choice (alignment, mode, position) the one the
/// form names, each border-sides field the sides the form selects; fields
/// after the first that does not read are written only when the save
/// succeeds, and what the form does not edit is kept.
pub proof fn law_navbar_save_takes_form(
    o: crate::model::MjNavbar,
    n: crate::model::MjNavbar,
    st: crate::tui::editform::EditFormState,
    r: Result<(), String>,
)
    requires
        crate::tui::cursor::navbar_applied(o, n, st, r),
    ensures
        r is Ok ==> (n.hamburger <==> trim(st.value("hamburger"@)) == "true"@),
        r is Ok ==> takes_text(n.ico_color, st.value("ico_color"@)),
        r is Ok ==> takes_text(n.base_url, st.value("base_url"@)),
        r is Ok ==> crate::tui::cursor::align_text(n.align) == trim(st.value("align"@)),
        r is Ok ==> takes_padding(n.padding, st.value("padding"@)),
        r is Ok ==> takes_text(n.ico_align, st.value("ico_align"@)),
        r is Ok ==> takes_text(n.ico_font_size, st.value("ico_font_size"@)),
        r is Ok ==> takes_padding(n.ico_padding, st.value("ico_padding"@)),
        r is Ok ==> takes_text(n.ico_open, st.value("ico_open"@)),
        r is Ok ==> takes_text(n.ico_close, st.value("ico_close"@)),
        r is Ok ==> takes_text(n.css_class, st.value("css_class"@)),
        n.links == o.links,
{
    reveal_strlit("true");
    reveal_strlit("false");
    reveal_strlit("");
    reveal_strlit("left");
    reveal_strlit("center");
    reveal_strlit("right");
}

/// Saving the navbar link form writes the form's fields into it: each text
/// field takes the form's text (trimmed where the form trims it, unset when
/// blank), each padding or length the form's normalized, each flag the
/// form's `true`/`false`, each choice (alignment, mode, position) the one the
/// form names, each border-sides field the sides the form selects; fields
/// after the first that does not read are written only when the save
/// succeeds, and what the form does not edit is kept.
pub proof fn law_navbar_link_save_takes_form(
    o: crate::model::MjNavbarLink,
    n: crate::model::MjNavbarLink,
    st: crate::tui::editform::EditFormState,
    r: Result<(), String>,
)
    requires
        crate::tui::cursor::navbar_link_applied(o, n, st, r),
    ensures
        n.href@ == st.value("href"@),
        n.content@ == st.value("content"@),
        takes_text(n.color, st.value("color"@)),
        takes_text(n.font_family, st.value("font_family"@)),
        takes_text(n.font_size, st.value("font_size"@)),
        takes_text(n.font_weight, st.value("font_weight"@)),
        takes_text(n.text_decoration, st.value("text_decoration"@)),
        takes_text(n.text_transform, st.value("text_transform"@)),
        r is Ok ==> takes_padding(n.padding, st.value("padding"@)),
        r is Ok ==> takes_text(n.css_class, st.value("css_class"@)),
{
    reveal_strlit("true");
    reveal_strlit("false");
}

/// Saving the accordion form writes the form's fields into it: each text
/// field takes the form's text (trimmed where the form trims it, unset when
/// blank), each padding or length the form's normalized, each flag the
/// form's `true`/`false`, each choice (alignment, mode, position) the one the
/// form names, each border-sides field the sides the form selects; fields
/// after the first that does not read are written only when the save
/// succeeds, and what the form does not edit is kept.
pub proof fn law_accordion_save_takes_form(
    o: crate::model::MjAccordion,
    n: crate::model::MjAccordion,
    st: crate::tui::editform::EditFormState,
    r: Result<(), String>,
)
    requires
        crate::tui::cursor::accordion_applied(o, n, st, r),
    ensures
        takes_text(n.border, st.value("border"@)),
        r is Ok ==> takes_padding(n.padding, st.value("padding"@)),
        r is Ok ==> takes_text(n.font_family, st.value("font_family"@)),
        r is Ok ==> takes_text(n.icon_position, st.value("icon_position"@)),
        r is Ok ==> takes_text(n.icon_width, st.value("icon_width"@)),
        r is Ok ==> takes_text(n.icon_height, st.value("icon_height"@)),
        r is Ok ==> takes_text(n.icon_wrapped_url, st.value("icon_wrapped_url"@)),
        r is Ok ==> takes_text(n.icon_unwrapped_url, st.value("icon_unwrapped_url"@)),
        r is Ok ==> takes_text(n.css_class, st.value("css_class"@)),
        n.elements == o.elements,
{
    reveal_strlit("true");
    reveal_strlit("false");
}

/// Saving the accordion el form writes the form's fields into it: each text
/// field takes the form's text (trimmed where the form trims it, unset when
/// blank), each padding or length the form's normalized, each flag the
/// form's `true`/`false`, each choice (alignment, mode, position) the one the
/// form names, each border-sides field the sides the form selects; fields
/// after the first that does not read are written only when the save
/// succeeds, and what the form does not edit is kept.
pub proof fn law_accordion_el_save_takes_form(
    o: crate::model::MjAccordionElement,
    n: crate::model::MjAccordionElement,
    st: crate::tui::editform::EditFormState,
    r: Result<(), String>,
)
    requires
        crate::tui::cursor::accordion_el_applied(o, n, st, r),
    ensures
        n.title@ == st.value("title"@),
        n.content@ == st.value("content"@),
        takes_text(n.background_color, st.value("background_color"@)),
        takes_text(n.css_class, st.value("css_class"@)),
{
    reveal_strlit("true");
    reveal_strlit("false");
}

/// Saving the carousel form writes the form's fields into it: each text
/// field takes the form's text (trimmed where the form trims it, unset when
/// blank), each padding or length the form's normalized, each flag the
/// form's `true`/`false`, each choice (alignment, mode, position) the one the
/// form names, each border-sides field the sides the form selects; fields
/// after the first that does not read are written only when the save
/// succeeds, and what the form does not edit is kept.
pub proof fn law_carousel_save_takes_form(
    o: crate::model::MjCarousel,
    n: crate::model::MjCarousel,
    st: crate::tui::editform::EditFormState,
    r: Result<(), String>,
)
    requires
        crate::tui::cursor::carousel_applied(o, n, st, r),
    ensures
        r is Ok ==> crate::tui::cursor::align_text(n.align) == trim(st.value("align"@)),
        r is Ok ==> takes_padding(n.padding, st.value("padding"@)),
        r is Ok ==> takes_unit(n.border_radius, st.value("border_radius"@)),
        r is Ok ==> takes_unit(n.tb_border_radius, st.value("tb_border_radius"@)),
        r is Ok ==> takes_text(n.icon_width, st.value("icon_width"@)),
        r is Ok ==> takes_text(n.css_class, st.value("css_class"@)),
        r is Ok ==> crate::tui::cursor::thumbnails_text(n.thumbnails) == trim(st.value("thumbnails"@)),
        n.images == o.images,
{
    reveal_strlit("true");
    reveal_strlit("false");
    reveal_strlit("");
    reveal_strlit("left");
    reveal_strlit("center");
    reveal_strlit("right");
    reveal_strlit("visible");
    reveal_strlit("hidden");
    reveal_strlit("supported");
}

/// Saving the carousel img form writes the form's fields into it: each text
/// field takes the form's text (trimmed where the form trims it, unset when
/// blank), each padding or length the form's normalized, each flag the
/// form's `true`/`false`, each choice (alignment, mode, position) the one the
/// form names, each border-sides field the sides the form selects; fields
/// after the first that does not read are written only when the save
/// succeeds, and what the form does not edit is kept.
pub proof fn law_carousel_img_save_takes_form(
    o: crate::model::MjCarouselImage,
    n: crate::model::MjCarouselImage,
    st: crate::tui::editform::EditFormState,
    r: Result<(), String>,
)
    requires
        crate::tui::cursor::carousel_img_applied(o, n, st, r),
    ensures
        n.src@ == trim(st.value("src"@)),
        n.alt@ == st.value("alt"@),
        takes_text(n.href, st.value("href"@)),
        takes_text(n.thumbnails_src, st.value("thumbnails_src"@)),
        r is Ok ==> takes_unit(n.border_radius, st.value("border_radius"@)),
        r is Ok ==> takes_text(n.css_class, st.value("css_class"@)),
{
    reveal_strlit("true");
    reveal_strlit("false");
}

/// Saving the social form writes the form's fields into it: each text
/// field takes the form's text (trimmed where the form trims it, unset when
/// blank), each padding or length the form's normalized, each flag the
/// form's `true`/`false`, each choice (alignment, mode, position) the one the
/// form names, each border-sides field the sides the form selects; fields
/// after the first that does not read are written only when the save
/// succeeds, and what the form does not edit is kept.
pub proof fn law_social_save_takes_form(
    o: crate::model::MjSocial,
    n: crate::model::MjSocial,
    st: crate::tui::editform::EditFormState,
    r: Result<(), String>,
)
    requires
        crate::tui::cursor::social_applied(o, n, st, r),
    ensures
        r is Ok ==> crate::tui::cursor::social_mode_text(n.mode) == trim(st.value("mode"@)),
        r is Ok ==> crate::tui::cursor::align_text(n.align) == trim(st.value("align"@)),
        r is Ok ==> n.icon_size@ == trim(st.value("icon_size"@)),
        r is Ok ==> takes_unit(n.border_radius, st.value("border_radius"@)),
        r is Ok ==> takes_padding(n.padding, st.value("padding"@)),
        r is Ok ==> takes_padding(n.icon_padding, st.value("icon_padding"@)),
        r is Ok ==> takes_padding(n.inner_padding, st.value("inner_padding"@)),
        r is Ok ==> takes_text(n.font_size, st.value("font_size"@)),
        r is Ok ==> takes_text(n.color, st.value("color"@)),
        r is Ok ==> takes_text(n.css_class, st.value("css_class"@)),
{
    reveal_strlit("true");
    reveal_strlit("false");
    reveal_strlit("");
    reveal_strlit("left");
    reveal_strlit("center");
    reveal_strlit("right");
    reveal_strlit("horizontal");
    reveal_strlit("vertical");
}

/// Saving the email header form writes the form's fields into it: each text
/// field takes the form's text (trimmed where the form trims it, unset when
/// blank), each padding or length the form's normalized, each flag the
/// form's `true`/`false`, each choice (alignment, mode, position) the one the
/// form names, each border-sides field the sides the form selects; fields
/// after the first that does not read are written only when the save
/// succeeds, and what the form does not edit is kept.
pub proof fn law_email_header_save_takes_form(
    o: crate::model::EmailHeader,
    n: crate::model::EmailHeader,
    st: crate::tui::editform::EditFormState,
    r: Result<(), String>,
)
    requires
        crate::tui::cursor::email_header_applied(o, n, st, r),
    ensures
        n.logo_src@ == trim(st.value("logo_src"@)),
        n.logo_alt@ == st.value("logo_alt"@),
        takes_text(n.logo_href, st.value("logo_href"@)),
        n.logo_width@ == trim(st.value("logo_width"@)),
        takes_text(n.background_color, st.value("background_color"@)),
{
    reveal_strlit("true");
    reveal_strlit("false");
}

/// Saving the email hero form writes the form's fields into it: each text
/// field takes the form's text (trimmed where the form trims it, unset when
/// blank), each padding or length the form's normalized, each flag the
/// form's `true`/`false`, each choice (alignment, mode, position) the one the
/// form names, each border-sides field the sides the form selects; fields
/// after the first that does not read are written only when the save
/// succeeds, and what the form does not edit is kept.
pub proof fn law_email_hero_save_takes_form(
    o: crate::model::EmailHero,
    n: crate::model::EmailHero,
    st: crate::tui::editform::EditFormState,
    r: Result<(), String>,
)
    requires
        crate::tui::cursor::email_hero_applied(o, n, st, r),
    ensures
        n.image_src@ == trim(st.value("image_src"@)),
        n.image_alt@ == st.value("image_alt"@),
        n.heading@ == st.value("heading"@),
        n.subheading@ == st.value("subheading"@),
        takes_text(n.background_color, st.value("background_color"@)),
{
    reveal_strlit("true");
    reveal_strlit("false");
}

/// Saving the email cta form writes the form's fields into it: each text
/// field takes the form's text (trimmed where the form trims it, unset when
/// blank), each padding or length the form's normalized, each flag the
/// form's `true`/`false`, each choice (alignment, mode, position) the one the
/// form names, each border-sides field the sides the form selects; fields
/// after the first that does not read are written only when the save
/// succeeds, and what the form does not edit is kept.
pub proof fn law_email_cta_save_takes_form(
    o: crate::model::EmailCta,
    n: crate::model::EmailCta,
    st: crate::tui::editform::EditFormState,
    r: Result<(), String>,
)
    requires
        crate::tui::cursor::email_cta_applied(o, n, st, r),
    ensures
        n.heading@ == st.value("heading"@),
        n.copy@ == st.value("copy"@),
        n.button_label@ == st.value("button_label"@),
        n.button_href@ == st.value("button_href"@),
        takes_text(n.background_color, st.value("background_color"@)),
{
    reveal_strlit("true");
    reveal_strlit("false");
}

/// Saving the email article form writes the form's fields into it: each text
/// field takes the form's text (trimmed where the form trims it, unset when
/// blank), each padding or length the form's normalized, each flag the
/// form's `true`/`false`, each choice (alignment, mode, position) the one the
/// form names, each border-sides field the sides the form selects; fields
/// after the first that does not read are written only when the save
/// succeeds, and what the form does not edit is kept.
pub proof fn law_email_article_save_takes_form(
    o: crate::model::EmailArticle,
    n: crate::model::EmailArticle,
    st: crate::tui::editform::EditFormState,
    r: Result<(), String>,
)
    requires
        crate::tui::cursor::email_article_applied(o, n, st, r),
    ensures
        n.image_src@ == trim(st.value("image_src"@)),
        n.image_alt@ == st.value("image_alt"@),
        n.title@ == st.value("title"@),
        n.copy@ == st.value("copy"@),
        n.link_label@ == st.value("link_label"@),
        n.link_href@ == st.value("link_href"@),
        r is Ok ==> crate::tui::cursor::image_pos_text(n.image_position) == trim(st.value("image_position"@)),
{
    reveal_strlit("true");
    reveal_strlit("false");
    reveal_strlit("top");
    reveal_strlit("left");
    reveal_strlit("right");
}

/// Saving the email footer form writes the form's fields into it: each text
/// field takes the form's text (trimmed where the form trims it, unset when
/// blank), each padding or length the form's normalized, each flag the
/// form's `true`/`false`, each choice (alignment, mode, position) the one the
/// form names, each border-sides field the sides the form selects; fields
/// after the first that does not read are written only when the save
/// succeeds, and what the form does not edit is kept.
pub proof fn law_email_footer_save_takes_form(
    o: crate::model::EmailFooter,
    n: crate::model::EmailFooter,
    st: crate::tui::editform::EditFormState,
    r: Result<(), String>,
)
    requires
        crate::tui::cursor::email_footer_applied(o, n, st, r),
    ensures
        n.company_name@ == st.value("company_name"@),
        n.unsubscribe_label@ == st.value("unsubscribe_label"@),
        n.unsubscribe_href@ == st.value("unsubscribe_href"@),
        takes_text(n.copyright, st.value("copyright"@)),
{
    reveal_strlit("true");
    reveal_strlit("false");
}

/// Saving the brand form writes the form's fields into it: each text
/// field takes the form's text (trimmed where the form trims it, unset when
/// blank), each padding or length the form's normalized, each flag the
/// form's `true`/`false`, each choice (alignment, mode, position) the one the
/// form names, each border-sides field the sides the form selects; fields
/// after the first that does not read are written only when the save
/// succeeds, and what the form does not edit is kept.
pub proof fn law_brand_save_takes_form(
    o: crate::model::Brand,
    n: crate::model::Brand,
    st: crate::tui::editform::EditFormState,
    r: Result<(), String>,
)
    requires
        crate::tui::cursor::brand_applied(o, n, st, r),
    ensures
        n.font_family@ == st.value("font_family"@),
        n.text_color@ == trim(st.value("text_color"@)),
        n.background_color@ == trim(st.value("background_color"@)),
        r is Ok ==> n.button_background@ == trim(st.value("button_background"@)),
        r is Ok ==> n.button_color@ == trim(st.value("button_color"@)),
{
    reveal_strlit("true");
    reveal_strlit("false");
}

/// Saving the body form writes the form's fields into it: each text
/// field takes the form's text (trimmed where the form trims it, unset when
/// blank), each padding or length the form's normalized, each flag the
/// form's `true`/`false`, each choice (alignment, mode, position) the one the
/// form names, each border-sides field the sides the form selects; fields
/// after the first that does not read are written only when the save
/// succeeds, and what the form does not edit is kept.
pub proof fn law_body_save_takes_form(
    o: crate::model::Body,
    n: crate::model::Body,
    st: crate::tui::editform::EditFormState,
    r: Result<(), String>,
)
    requires
        crate::tui::cursor::body_applied(o, n, st, r),
    ensures
        n.background_color@ == trim(st.value("background_color"@)),
        takes_text(n.css_class, st.value("css_class"@)),
        n.nodes == o.nodes,
{
    reveal_strlit("true");
    reveal_strlit("false");
}

/// Saving the head form writes the form's fields into it: each text
/// field takes the form's text (trimmed where the form trims it, unset when
/// blank), each padding or length the form's normalized, each flag the
/// form's `true`/`false`, each choice (alignment, mode, position) the one the
/// form names, each border-sides field the sides the form selects; fields
/// after the first that does not read are written only when the save
/// succeeds, and what the form does not edit is kept.
pub proof fn law_head_save_takes_form(
    o: crate::model::Template,
    n: crate::model::Template,
    st: crate::tui::editform::EditFormState,
    r: Result<(), String>,
)
    requires
        crate::tui::cursor::head_applied(o, n, st, r),
    ensures
        n.subject@ == st.value("subject"@),
        n.preheader@ == st.value("preheader"@),
        n.lang@ == st.value("lang"@),
        n.dir@ == trim(st.value("dir"@)),
        n.head.title@ == st.value("title"@),
        n.head.breakpoint@ == st.value("breakpoint"@),
        n.base_url@ == st.value("base_url"@),
        n.head.json_ld@ == st.value("json_ld"@),
        n.head.css@ == st.value("css"@),
        r is Ok ==> (n.head.css_inline <==> trim(st.value("css_inline"@)) == "true"@),
        n.version == o.version,
        n.name == o.name,
        n.brand == o.brand,
        n.body == o.body,
{
    reveal_strlit("true");
    reveal_strlit("false");
}

} // verus!
