//! The forms, one per node kind. Field ids match the JSON / model names.
use vstd::prelude::*;

use super::{strs, BrandPlaceholder, EditForm, FieldKind, FieldPredicate, FormField, FormId};

verus! {

/// The ids of a form's fields, in order.
pub open spec fn field_ids(fields: Seq<FormField>) -> Seq<Seq<char>> {
    fields.map_values(|f: FormField| f.id@)
}

/// A field kind as the spec sees it.
pub enum KindV {
    Text { default: Seq<char> },
    Textarea { rows: u16, default: Seq<char> },
    Url { default: Seq<char> },
    Enum { options: Seq<Seq<char>>, default: Seq<char> },
    Checkboxes { options: Seq<(Seq<char>, Seq<char>)>, default: Seq<char> },
    SubForm { template: FormId, min_items: usize, summary_field_id: Seq<char> },
}

/// A field as the spec sees it; `visible_when` is the other field and the
/// value it must hold.
pub struct FieldView {
    pub id: Seq<char>,
    pub label: Seq<char>,
    pub kind: KindV,
    pub required: bool,
    pub visible_when: Option<(Seq<char>, Seq<char>)>,
    pub hint: Option<Seq<char>>,
    pub placeholder: Option<Seq<char>>,
    pub brand_placeholder: Option<BrandPlaceholder>,
}

pub open spec fn kind_view(k: FieldKind) -> KindV {
    match k {
        FieldKind::Text { default } => KindV::Text { default: default@ },
        FieldKind::Textarea { rows, default } => KindV::Textarea { rows, default: default@ },
        FieldKind::Url { default } => KindV::Url { default: default@ },
        FieldKind::Enum { options, default } => KindV::Enum { options: strs(options@), default: default@ },
        FieldKind::Checkboxes { options, default } => KindV::Checkboxes {
            options: crate::border::pair_views(options@),
            default: default@,
        },
        FieldKind::SubForm { template, min_items, summary_field_id } => KindV::SubForm {
            template,
            min_items,
            summary_field_id: summary_field_id@,
        },
    }
}

pub open spec fn field_view(f: FormField) -> FieldView {
    FieldView {
        id: f.id@,
        label: f.label@,
        kind: kind_view(f.kind),
        required: f.required,
        visible_when: match f.visible_when {
            Some(FieldPredicate::FieldEquals { other_id, value }) => Some((other_id@, value@)),
            None => None,
        },
        hint: match f.hint {
            Some(h) => Some(h@),
            None => None,
        },
        placeholder: match f.placeholder {
            Some(h) => Some(h@),
            None => None,
        },
        brand_placeholder: f.brand_placeholder,
    }
}

/// Every field of a form, as the spec sees it.
pub open spec fn fields_view(fields: Seq<FormField>) -> Seq<FieldView> {
    fields.map_values(|f: FormField| field_view(f))
}

/// The title of each form.
pub open spec fn form_title(id: FormId) -> Seq<char> {
    match id {
        FormId::FontItem => "font"@,
        FormId::SocialItem => "social icon"@,
        FormId::Head => "mj-head"@,
        FormId::Brand => "brand"@,
        FormId::Body => "mj-body"@,
        FormId::Section => "mj-section"@,
        FormId::Column => "mj-column"@,
        FormId::Wrapper => "mj-wrapper"@,
        FormId::Group => "mj-group"@,
        FormId::Hero => "mj-hero"@,
        FormId::Text => "mj-text"@,
        FormId::Button => "mj-button"@,
        FormId::Image => "mj-image"@,
        FormId::Divider => "mj-divider"@,
        FormId::Spacer => "mj-spacer"@,
        FormId::Social => "mj-social"@,
        FormId::Navbar => "mj-navbar"@,
        FormId::NavbarLink => "mj-navbar-link"@,
        FormId::Accordion => "mj-accordion"@,
        FormId::AccordionElement => "mj-accordion-element"@,
        FormId::Carousel => "mj-carousel"@,
        FormId::CarouselImage => "mj-carousel-image"@,
        FormId::Table => "mj-table"@,
        FormId::EmailHeader => "email-header"@,
        FormId::EmailHero => "email-hero"@,
        FormId::EmailCta => "email-cta"@,
        FormId::EmailArticle => "email-article"@,
        FormId::EmailFooter => "email-footer"@,
    }
}

/// The fields of each form.
pub open spec fn form_fields(id: FormId) -> Seq<FieldView> {
    match id {
        FormId::FontItem => font_item_fields(),
        FormId::SocialItem => social_item_fields(),
        FormId::Head => head_fields(),
        FormId::Brand => brand_fields(),
        FormId::Body => body_fields(),
        FormId::Section => section_fields(),
        FormId::Column => column_fields(),
        FormId::Wrapper => wrapper_fields(),
        FormId::Group => group_fields(),
        FormId::Hero => hero_fields(),
        FormId::Text => text_fields(),
        FormId::Button => button_fields(),
        FormId::Image => image_fields(),
        FormId::Divider => divider_fields(),
        FormId::Spacer => spacer_fields(),
        FormId::Social => social_fields(),
        FormId::Navbar => navbar_fields(),
        FormId::NavbarLink => navbar_link_fields(),
        FormId::Accordion => accordion_fields(),
        FormId::AccordionElement => accordion_element_fields(),
        FormId::Carousel => carousel_fields(),
        FormId::CarouselImage => carousel_image_fields(),
        FormId::Table => table_fields(),
        FormId::EmailHeader => email_header_fields(),
        FormId::EmailHero => email_hero_fields(),
        FormId::EmailCta => email_cta_fields(),
        FormId::EmailArticle => email_article_fields(),
        FormId::EmailFooter => email_footer_fields(),
    }
}

/// The form for `id`.
pub fn edit_form(id: FormId) -> (r: EditForm)
    ensures
        r.title@ == form_title(id),
        fields_view(r.fields@) == form_fields(id),
{
    match id {
        FormId::FontItem => font_item_form(),
        FormId::SocialItem => social_item_form(),
        FormId::Head => head_form(),
        FormId::Brand => brand_form(),
        FormId::Body => body_form(),
        FormId::Section => section_form(),
        FormId::Column => column_form(),
        FormId::Wrapper => wrapper_form(),
        FormId::Group => group_form(),
        FormId::Hero => hero_form(),
        FormId::Text => text_form(),
        FormId::Button => button_form(),
        FormId::Image => image_form(),
        FormId::Divider => divider_form(),
        FormId::Spacer => spacer_form(),
        FormId::Social => social_form(),
        FormId::Navbar => navbar_form(),
        FormId::NavbarLink => navbar_link_form(),
        FormId::Accordion => accordion_form(),
        FormId::AccordionElement => accordion_element_form(),
        FormId::Carousel => carousel_form(),
        FormId::CarouselImage => carousel_image_form(),
        FormId::Table => table_form(),
        FormId::EmailHeader => email_header_form(),
        FormId::EmailHero => email_hero_form(),
        FormId::EmailCta => email_cta_form(),
        FormId::EmailArticle => email_article_form(),
        FormId::EmailFooter => email_footer_form(),
    }
}

/// The view of a plain field.
pub open spec fn f_v(id: Seq<char>, label: Seq<char>, kind: KindV, required: bool) -> FieldView {
    FieldView { id, label, kind, required, visible_when: None, hint: None, placeholder: None, brand_placeholder: None }
}

fn f(id: &'static str, label: &'static str, kind: FieldKind, required: bool) -> (r: FormField)
    ensures
        r.id == id,
        r.label == label,
        r.kind == kind,
        r.required == required,
        r.visible_when is None,
        field_view(r) == f_v(id@, label@, kind_view(kind), required),
{
    FormField {
        id,
        label,
        kind,
        required,
        visible_when: None,
        hint: None,
        placeholder: None,
        brand_placeholder: None,
    }
}

/// The view of a field whose blank value shows a brand value.
pub open spec fn with_brand_v(field: FieldView, token: BrandPlaceholder) -> FieldView {
    FieldView {
        brand_placeholder: Some(token),
        hint: if field.hint is None {
            Some("empty uses brand"@)
        } else {
            field.hint
        },
        ..field
    }
}

fn with_brand(mut field: FormField, token: BrandPlaceholder) -> (r: FormField)
    ensures
        r.id == field.id,
        r.label == field.label,
        r.kind == field.kind,
        field_view(r) == with_brand_v(field_view(field), token),
{
    field.brand_placeholder = Some(token);
    if field.hint.is_none() {
        field.hint = Some("empty uses brand");
    }
    field
}

pub open spec fn font_family_field_v() -> FieldView {
    with_brand_v(
        f_v(
            "font_family"@,
            "Font family"@,
            KindV::Text { default: ""@ },
            false,
        ),
        BrandPlaceholder::FontFamily,
    )
}

fn font_family_field() -> (r: FormField)
    ensures
        r.id@ == "font_family"@,
        field_view(r) == font_family_field_v(),
{
    with_brand(
        f(
            "font_family",
            "Font family",
            FieldKind::Text { default: "" },
            false,
        ),
        BrandPlaceholder::FontFamily,
    )
}

pub open spec fn text_color_field_v() -> FieldView {
    with_brand_v(
        f_v("color"@, "Color"@, KindV::Text { default: ""@ }, false),
        BrandPlaceholder::TextColor,
    )
}

fn text_color_field() -> (r: FormField)
    ensures
        r.id@ == "color"@,
        field_view(r) == text_color_field_v(),
{
    with_brand(
        f("color", "Color", FieldKind::Text { default: "" }, false),
        BrandPlaceholder::TextColor,
    )
}

pub open spec fn button_color_field_v() -> FieldView {
    with_brand_v(
        f_v("color"@, "Color"@, KindV::Text { default: ""@ }, false),
        BrandPlaceholder::ButtonColor,
    )
}

fn button_color_field() -> (r: FormField)
    ensures
        r.id@ == "color"@,
        field_view(r) == button_color_field_v(),
{
    with_brand(
        f("color", "Color", FieldKind::Text { default: "" }, false),
        BrandPlaceholder::ButtonColor,
    )
}

pub open spec fn button_bg_field_v() -> FieldView {
    with_brand_v(
        f_v(
            "background_color"@,
            "Background"@,
            KindV::Text { default: ""@ },
            false,
        ),
        BrandPlaceholder::ButtonBackground,
    )
}

fn button_bg_field() -> (r: FormField)
    ensures
        r.id@ == "background_color"@,
        field_view(r) == button_bg_field_v(),
{
    with_brand(
        f(
            "background_color",
            "Background",
            FieldKind::Text { default: "" },
            false,
        ),
        BrandPlaceholder::ButtonBackground,
    )
}

pub open spec fn body_bg_field_v() -> FieldView {
    with_brand_v(
        f_v(
            "background_color"@,
            "Background"@,
            KindV::Text { default: ""@ },
            false,
        ),
        BrandPlaceholder::Background,
    )
}

fn body_bg_field() -> (r: FormField)
    ensures
        r.id@ == "background_color"@,
        field_view(r) == body_bg_field_v(),
{
    with_brand(
        f(
            "background_color",
            "Background",
            FieldKind::Text { default: "" },
            false,
        ),
        BrandPlaceholder::Background,
    )
}

pub open spec fn padding_field_v() -> FieldView {
    FieldView {
        id: "padding"@,
        label: "Padding"@,
        kind: KindV::Text { default: ""@ },
        required: false,
        visible_when: None,
        hint: Some(crate::padding::HINT@),
        placeholder: Some(crate::padding::PLACEHOLDER@),
        brand_placeholder: None,
    }
}

fn padding_field() -> (r: FormField)
    ensures
        r.id@ == "padding"@,
        field_view(r) == padding_field_v(),
{
    FormField {
        id: "padding",
        label: "Padding",
        kind: FieldKind::Text { default: "" },
        required: false,
        visible_when: None,
        hint: Some(crate::padding::HINT),
        placeholder: Some(crate::padding::PLACEHOLDER),
        brand_placeholder: None,
    }
}

pub open spec fn inner_padding_field_v() -> FieldView {
    FieldView {
        id: "inner_padding"@,
        label: "Inner padding"@,
        kind: KindV::Text { default: ""@ },
        required: false,
        visible_when: None,
        hint: Some(crate::padding::HINT@),
        placeholder: Some("e.g. 12px 24px"@),
        brand_placeholder: None,
    }
}

fn inner_padding_field() -> (r: FormField)
    ensures
        r.id@ == "inner_padding"@,
        field_view(r) == inner_padding_field_v(),
{
    FormField {
        id: "inner_padding",
        label: "Inner padding",
        kind: FieldKind::Text { default: "" },
        required: false,
        visible_when: None,
        hint: Some(crate::padding::HINT),
        placeholder: Some("e.g. 12px 24px"),
        brand_placeholder: None,
    }
}

pub open spec fn hinted_v(id: Seq<char>, label: Seq<char>, hint: Seq<char>, placeholder: Seq<char>) -> FieldView {
    FieldView {
        id,
        label,
        kind: KindV::Text { default: ""@ },
        required: false,
        visible_when: None,
        hint: Some(hint),
        placeholder: Some(placeholder),
        brand_placeholder: None,
    }
}

fn hinted(
    id: &'static str,
    label: &'static str,
    hint: &'static str,
    placeholder: &'static str,
) -> (r: FormField)
    ensures
        r.id == id,
        r.label == label,
        field_view(r) == hinted_v(id@, label@, hint@, placeholder@),
{
    FormField {
        id,
        label,
        kind: FieldKind::Text { default: "" },
        required: false,
        visible_when: None,
        hint: Some(hint),
        placeholder: Some(placeholder),
        brand_placeholder: None,
    }
}

pub open spec fn border_field_v() -> FieldView {
    FieldView {
        id: "border"@,
        label: "Border"@,
        kind: KindV::Text { default: ""@ },
        required: false,
        visible_when: None,
        hint: Some("CSS border, e.g. 1px solid #000"@),
        placeholder: Some("e.g. 1px solid #000000"@),
        brand_placeholder: None,
    }
}

fn border_field() -> (r: FormField)
    ensures
        r.id@ == "border"@,
        field_view(r) == border_field_v(),
{
    FormField {
        id: "border",
        label: "Border",
        kind: FieldKind::Text { default: "" },
        required: false,
        visible_when: None,
        hint: Some("CSS border, e.g. 1px solid #000"),
        placeholder: Some("e.g. 1px solid #000000"),
        brand_placeholder: None,
    }
}

pub open spec fn border_sides_field_v() -> FieldView {
    FieldView {
        id: "border_sides"@,
        label: "Border sides"@,
        kind: KindV::Checkboxes {
            options: seq![("all"@, "All"@), ("top"@, "Top"@), ("right"@, "Right"@), ("bottom"@, "Bottom"@), ("left"@, "Left"@)],
            default: "all"@,
        },
        required: false,
        visible_when: None,
        hint: Some("Space: toggle  ·  ←/→: move"@),
        placeholder: None,
        brand_placeholder: None,
    }
}

fn border_sides_field() -> (r: FormField)
    ensures
        r.id@ == "border_sides"@,
        field_view(r) == border_sides_field_v(),
{
    FormField {
        id: "border_sides",
        label: "Border sides",
        kind: FieldKind::Checkboxes {
            options: crate::border::options(),
            default: "all",
        },
        required: false,
        visible_when: None,
        hint: Some("Space: toggle  ·  ←/→: move"),
        placeholder: None,
        brand_placeholder: None,
    }
}

pub open spec fn inner_border_sides_field_v() -> FieldView {
    FieldView {
        id: "inner_border_sides"@,
        label: "Inner border sides"@,
        kind: KindV::Checkboxes {
            options: seq![("all"@, "All"@), ("top"@, "Top"@), ("right"@, "Right"@), ("bottom"@, "Bottom"@), ("left"@, "Left"@)],
            default: "all"@,
        },
        required: false,
        visible_when: None,
        hint: Some("Space: toggle  ·  ←/→: move"@),
        placeholder: None,
        brand_placeholder: None,
    }
}

fn inner_border_sides_field() -> (r: FormField)
    ensures
        r.id@ == "inner_border_sides"@,
        field_view(r) == inner_border_sides_field_v(),
{
    FormField {
        id: "inner_border_sides",
        label: "Inner border sides",
        kind: FieldKind::Checkboxes {
            options: crate::border::options(),
            default: "all",
        },
        required: false,
        visible_when: None,
        hint: Some("Space: toggle  ·  ←/→: move"),
        placeholder: None,
        brand_placeholder: None,
    }
}

pub open spec fn border_radius_field_v() -> FieldView {
    hinted_v(
        "border_radius"@,
        "Border radius"@,
        crate::padding::UNIT_HINT@,
        crate::padding::UNIT_PLACEHOLDER@,
    )
}

fn border_radius_field() -> (r: FormField)
    ensures
        r.id@ == "border_radius"@,
        field_view(r) == border_radius_field_v(),
{
    hinted(
        "border_radius",
        "Border radius",
        crate::padding::UNIT_HINT,
        crate::padding::UNIT_PLACEHOLDER,
    )
}

pub open spec fn author_label_field_v() -> FieldView {
    FieldView {
        id: "label"@,
        label: "Label"@,
        kind: KindV::Text { default: ""@ },
        required: false,
        visible_when: None,
        hint: Some("Tree and blueprint only — not in the email"@),
        placeholder: Some("e.g. hero, features, footer"@),
        brand_placeholder: None,
    }
}

fn author_label_field() -> (r: FormField)
    ensures
        r.id@ == "label"@,
        field_view(r) == author_label_field_v(),
{
    FormField {
        id: "label",
        label: "Label",
        kind: FieldKind::Text { default: "" },
        required: false,
        visible_when: None,
        hint: Some("Tree and blueprint only — not in the email"),
        placeholder: Some("e.g. hero, features, footer"),
        brand_placeholder: None,
    }
}

pub open spec fn css_class_field_v() -> FieldView {
    f_v(
        "css_class"@,
        "CSS class"@,
        KindV::Text { default: ""@ },
        false,
    )
}

fn css_class_field() -> (r: FormField)
    ensures
        r.id@ == "css_class"@,
        field_view(r) == css_class_field_v(),
{
    f(
        "css_class",
        "CSS class",
        FieldKind::Text { default: "" },
        false,
    )
}

pub open spec fn hamburger_only_v(id: Seq<char>, label: Seq<char>, kind: KindV) -> FieldView {
    FieldView {
        id,
        label,
        kind,
        required: false,
        visible_when: Some(("hamburger"@, "true"@)),
        hint: None,
        placeholder: None,
        brand_placeholder: None,
    }
}

fn hamburger_only(id: &'static str, label: &'static str, kind: FieldKind) -> (r: FormField)
    ensures
        r.id == id,
        r.label == label,
        r.kind == kind,
        field_view(r) == hamburger_only_v(id@, label@, kind_view(kind)),
{
    FormField {
        id,
        label,
        kind,
        required: false,
        visible_when: Some(FieldPredicate::FieldEquals {
            other_id: "hamburger",
            value: "true",
        }),
        hint: None,
        placeholder: None,
        brand_placeholder: None,
    }
}

pub fn align_options() -> (r: Vec<&'static str>)
    ensures
        strs(r@) == seq![""@, "left"@, "center"@, "right"@],
{
    vec!["", "left", "center", "right"]
}
pub fn bool_options() -> (r: Vec<&'static str>)
    ensures
        strs(r@) == seq!["false"@, "true"@],
{
    vec!["false", "true"]
}
pub fn font_weight_options() -> (r: Vec<&'static str>)
    ensures
        strs(r@) == seq![""@, "normal"@, "bold"@, "400"@, "700"@],
{
    vec!["", "normal", "bold", "400", "700"]
}
pub fn font_style_options() -> (r: Vec<&'static str>)
    ensures
        strs(r@) == seq![""@, "normal"@, "italic"@],
{
    vec!["", "normal", "italic"]
}
pub fn border_style_options() -> (r: Vec<&'static str>)
    ensures
        strs(r@) == seq![""@, "solid"@, "dashed"@, "dotted"@, "none"@],
{
    vec!["", "solid", "dashed", "dotted", "none"]
}
pub fn text_decoration_options() -> (r: Vec<&'static str>)
    ensures
        strs(r@) == seq![""@, "none"@, "underline"@, "overline"@, "line-through"@],
{
    vec!["", "none", "underline", "overline", "line-through"]
}
pub fn text_transform_options() -> (r: Vec<&'static str>)
    ensures
        strs(r@) == seq![""@, "none"@, "uppercase"@, "lowercase"@, "capitalize"@],
{
    vec!["", "none", "uppercase", "lowercase", "capitalize"]
}
pub fn hero_mode_options() -> (r: Vec<&'static str>)
    ensures
        strs(r@) == seq!["fluid-height"@, "fixed-height"@],
{
    vec!["fluid-height", "fixed-height"]
}
pub fn social_mode_options() -> (r: Vec<&'static str>)
    ensures
        strs(r@) == seq!["horizontal"@, "vertical"@],
{
    vec!["horizontal", "vertical"]
}
pub fn image_pos_options() -> (r: Vec<&'static str>)
    ensures
        strs(r@) == seq!["top"@, "left"@, "right"@],
{
    vec!["top", "left", "right"]
}
pub fn social_net_options() -> (r: Vec<&'static str>)
    ensures
        strs(r@) == seq!["facebook"@, "instagram"@, "linkedin"@, "x"@, "github"@, "youtube"@, "pinterest"@, "google"@, "tumblr"@, "snapchat"@, "vimeo"@, "medium"@, "soundcloud"@, "dribbble"@, "xing"@, "web"@],
{
    vec![
    "facebook",
    "instagram",
    "linkedin",
    "x",
    "github",
    "youtube",
    "pinterest",
    "google",
    "tumblr",
    "snapchat",
    "vimeo",
    "medium",
    "soundcloud",
    "dribbble",
    "xing",
    "web",
]
}
pub fn icon_position_options() -> (r: Vec<&'static str>)
    ensures
        strs(r@) == seq![""@, "left"@, "right"@],
{
    vec!["", "left", "right"]
}
pub fn table_role_options() -> (r: Vec<&'static str>)
    ensures
        strs(r@) == seq![""@, "none"@, "presentation"@],
{
    vec!["", "none", "presentation"]
}
pub fn thumbnails_options() -> (r: Vec<&'static str>)
    ensures
        strs(r@) == seq!["hidden"@, "visible"@, "supported"@],
{
    vec!["hidden", "visible", "supported"]
}
pub fn dir_options() -> (r: Vec<&'static str>)
    ensures
        strs(r@) == seq![""@, "auto"@, "ltr"@, "rtl"@],
{
    vec!["", "auto", "ltr", "rtl"]
}
pub fn direction_options() -> (r: Vec<&'static str>)
    ensures
        strs(r@) == seq![""@, "ltr"@, "rtl"@],
{
    vec!["", "ltr", "rtl"]
}
pub fn vertical_align_options() -> (r: Vec<&'static str>)
    ensures
        strs(r@) == seq![""@, "top"@, "middle"@, "bottom"@],
{
    vec!["", "top", "middle", "bottom"]
}
pub fn bg_repeat_options() -> (r: Vec<&'static str>)
    ensures
        strs(r@) == seq![""@, "no-repeat"@, "repeat"@],
{
    vec!["", "no-repeat", "repeat"]
}
pub fn target_options() -> (r: Vec<&'static str>)
    ensures
        strs(r@) == seq![""@, "_blank"@, "_self"@],
{
    vec!["", "_blank", "_self"]
}

pub open spec fn direction_field_v() -> FieldView {
    f_v(
        "direction"@,
        "Direction"@,
        KindV::Enum {
            options: seq![""@, "ltr"@, "rtl"@],
            default: ""@,
        },
        false,
    )
}

fn direction_field() -> (r: FormField)
    ensures
        r.id@ == "direction"@,
        field_view(r) == direction_field_v(),
{
    f(
        "direction",
        "Direction",
        FieldKind::Enum {
            options: direction_options(),
            default: "",
        },
        false,
    )
}

pub open spec fn vertical_align_field_v() -> FieldView {
    f_v(
        "vertical_align"@,
        "Vertical align"@,
        KindV::Enum {
            options: seq![""@, "top"@, "middle"@, "bottom"@],
            default: ""@,
        },
        false,
    )
}

fn vertical_align_field() -> (r: FormField)
    ensures
        r.id@ == "vertical_align"@,
        field_view(r) == vertical_align_field_v(),
{
    f(
        "vertical_align",
        "Vertical align",
        FieldKind::Enum {
            options: vertical_align_options(),
            default: "",
        },
        false,
    )
}

pub open spec fn background_url_field_v() -> FieldView {
    f_v(
        "background_url"@,
        "Background URL"@,
        KindV::Url { default: ""@ },
        false,
    )
}

fn background_url_field() -> (r: FormField)
    ensures
        r.id@ == "background_url"@,
        field_view(r) == background_url_field_v(),
{
    f(
        "background_url",
        "Background URL",
        FieldKind::Url { default: "" },
        false,
    )
}

pub open spec fn background_size_field_v() -> FieldView {
    FieldView {
        id: "background_size"@,
        label: "Background size"@,
        kind: KindV::Text { default: ""@ },
        required: false,
        visible_when: None,
        hint: Some("auto, cover, contain, or px/%"@),
        placeholder: Some("e.g. cover"@),
        brand_placeholder: None,
    }
}

fn background_size_field() -> (r: FormField)
    ensures
        r.id@ == "background_size"@,
        field_view(r) == background_size_field_v(),
{
    FormField {
        id: "background_size",
        label: "Background size",
        kind: FieldKind::Text { default: "" },
        required: false,
        visible_when: None,
        hint: Some("auto, cover, contain, or px/%"),
        placeholder: Some("e.g. cover"),
        brand_placeholder: None,
    }
}

pub open spec fn background_repeat_field_v() -> FieldView {
    f_v(
        "background_repeat"@,
        "Background repeat"@,
        KindV::Enum {
            options: seq![""@, "no-repeat"@, "repeat"@],
            default: ""@,
        },
        false,
    )
}

fn background_repeat_field() -> (r: FormField)
    ensures
        r.id@ == "background_repeat"@,
        field_view(r) == background_repeat_field_v(),
{
    f(
        "background_repeat",
        "Background repeat",
        FieldKind::Enum {
            options: bg_repeat_options(),
            default: "",
        },
        false,
    )
}

/// The fields of the font item form.
pub open spec fn font_item_fields() -> Seq<FieldView> {
    seq![
        f_v("name"@, "Name"@, KindV::Text { default: "Raleway"@ }, true),
        f_v(
            "href"@,
            "Google Fonts href"@,
            KindV::Url {
                default: "https://fonts.googleapis.com/css2?family=Raleway:wght@400;700&display=swap"@,
            },
            true,
        ),
    ]
}

pub fn font_item_form() -> (r: EditForm)
    ensures
        r.title@ == "font"@,
        field_ids(r.fields@) == seq!["name"@, "href"@],
        fields_view(r.fields@) == font_item_fields(),
{
    let r = EditForm {
    title: "font",
    fields: vec![
        f("name", "Name", FieldKind::Text { default: "Raleway" }, true),
        f(
            "href",
            "Google Fonts href",
            FieldKind::Url {
                default: "https://fonts.googleapis.com/css2?family=Raleway:wght@400;700&display=swap",
            },
            true,
        ),
    ],
    };
    assert(fields_view(r.fields@) =~= font_item_fields());
    r
}

/// The fields of the social item form.
pub open spec fn social_item_fields() -> Seq<FieldView> {
    seq![
        f_v(
            "name"@,
            "Network"@,
            KindV::Enum {
                options: seq!["facebook"@, "instagram"@, "linkedin"@, "x"@, "github"@, "youtube"@, "pinterest"@, "google"@, "tumblr"@, "snapchat"@, "vimeo"@, "medium"@, "soundcloud"@, "dribbble"@, "xing"@, "web"@],
                default: "x"@,
            },
            true,
        ),
        f_v(
            "href"@,
            "Href"@,
            KindV::Url {
                default: "https://example.com"@,
            },
            true,
        ),
        f_v(
            "src"@,
            "Icon src (web)"@,
            KindV::Url { default: ""@ },
            false,
        ),
        f_v("alt"@, "Alt"@, KindV::Text { default: ""@ }, false),
        f_v(
            "background_color"@,
            "Background"@,
            KindV::Text { default: ""@ },
            false,
        ),
        hinted_v(
            "icon_size"@,
            "Icon size"@,
            crate::padding::UNIT_HINT@,
            crate::padding::UNIT_PLACEHOLDER@,
        ),
        padding_field_v(),
        css_class_field_v(),
    ]
}

pub fn social_item_form() -> (r: EditForm)
    ensures
        r.title@ == "social icon"@,
        field_ids(r.fields@) == seq!["name"@, "href"@, "src"@, "alt"@, "background_color"@, "icon_size"@, "padding"@, "css_class"@],
        fields_view(r.fields@) == social_item_fields(),
{
    let r = EditForm {
    title: "social icon",
    fields: vec![
        f(
            "name",
            "Network",
            FieldKind::Enum {
                options: social_net_options(),
                default: "x",
            },
            true,
        ),
        f(
            "href",
            "Href",
            FieldKind::Url {
                default: "https://example.com",
            },
            true,
        ),
        f(
            "src",
            "Icon src (web)",
            FieldKind::Url { default: "" },
            false,
        ),
        f("alt", "Alt", FieldKind::Text { default: "" }, false),
        f(
            "background_color",
            "Background",
            FieldKind::Text { default: "" },
            false,
        ),
        hinted(
            "icon_size",
            "Icon size",
            crate::padding::UNIT_HINT,
            crate::padding::UNIT_PLACEHOLDER,
        ),
        padding_field(),
        css_class_field(),
    ],
    };
    assert(fields_view(r.fields@) =~= social_item_fields());
    r
}

/// The fields of the head form.
pub open spec fn head_fields() -> Seq<FieldView> {
    seq![
        f_v("subject"@, "Subject"@, KindV::Text { default: ""@ }, true),
        f_v(
            "preheader"@,
            "Preheader"@,
            KindV::Text { default: ""@ },
            false,
        ),
        f_v("lang"@, "Lang"@, KindV::Text { default: "en"@ }, true),
        f_v(
            "dir"@,
            "Dir"@,
            KindV::Enum {
                options: seq![""@, "auto"@, "ltr"@, "rtl"@],
                default: ""@,
            },
            false,
        ),
        f_v("title"@, "Title"@, KindV::Text { default: ""@ }, true),
        f_v(
            "breakpoint"@,
            "Breakpoint"@,
            KindV::Text { default: "480px"@ },
            false,
        ),
        f_v(
            "base_url"@,
            "Base URL"@,
            KindV::Url { default: ""@ },
            false,
        ),
        f_v(
            "fonts"@,
            "Fonts"@,
            KindV::SubForm {
                template: FormId::FontItem,
                min_items: 0,
                summary_field_id: "name"@,
            },
            false,
        ),
        f_v(
            "json_ld"@,
            "JSON-LD"@,
            KindV::Textarea {
                rows: 6,
                default: ""@,
            },
            false,
        ),
        f_v(
            "css"@,
            "Custom CSS"@,
            KindV::Textarea {
                rows: 6,
                default: ""@,
            },
            false,
        ),
        f_v(
            "css_inline"@,
            "Inline CSS"@,
            KindV::Enum {
                options: seq!["false"@, "true"@],
                default: "false"@,
            },
            false,
        ),
    ]
}

pub fn head_form() -> (r: EditForm)
    ensures
        r.title@ == "mj-head"@,
        field_ids(r.fields@) == seq!["subject"@, "preheader"@, "lang"@, "dir"@, "title"@, "breakpoint"@, "base_url"@, "fonts"@, "json_ld"@, "css"@, "css_inline"@],
        fields_view(r.fields@) == head_fields(),
{
    let r = EditForm {
    title: "mj-head",
    fields: vec![
        f("subject", "Subject", FieldKind::Text { default: "" }, true),
        f(
            "preheader",
            "Preheader",
            FieldKind::Text { default: "" },
            false,
        ),
        f("lang", "Lang", FieldKind::Text { default: "en" }, true),
        f(
            "dir",
            "Dir",
            FieldKind::Enum {
                options: dir_options(),
                default: "",
            },
            false,
        ),
        f("title", "Title", FieldKind::Text { default: "" }, true),
        f(
            "breakpoint",
            "Breakpoint",
            FieldKind::Text { default: "480px" },
            false,
        ),
        f(
            "base_url",
            "Base URL",
            FieldKind::Url { default: "" },
            false,
        ),
        f(
            "fonts",
            "Fonts",
            FieldKind::SubForm {
                template: FormId::FontItem,
                min_items: 0,
                summary_field_id: "name",
            },
            false,
        ),
        f(
            "json_ld",
            "JSON-LD",
            FieldKind::Textarea {
                rows: 6,
                default: "",
            },
            false,
        ),
        f(
            "css",
            "Custom CSS",
            FieldKind::Textarea {
                rows: 6,
                default: "",
            },
            false,
        ),
        f(
            "css_inline",
            "Inline CSS",
            FieldKind::Enum {
                options: bool_options(),
                default: "false",
            },
            false,
        ),
    ],
    };
    assert(fields_view(r.fields@) =~= head_fields());
    r
}

/// The fields of the brand form.
pub open spec fn brand_fields() -> Seq<FieldView> {
    seq![
        f_v(
            "font_family"@,
            "Font family"@,
            KindV::Text { default: ""@ },
            true,
        ),
        f_v(
            "text_color"@,
            "Text color"@,
            KindV::Text { default: "#1a1a1a"@ },
            true,
        ),
        f_v(
            "background_color"@,
            "Background"@,
            KindV::Text { default: "#f4f4f4"@ },
            true,
        ),
        f_v(
            "content_width"@,
            "Content width"@,
            KindV::Text { default: "600"@ },
            true,
        ),
        f_v(
            "button_background"@,
            "Button background"@,
            KindV::Text { default: "#FFAF46"@ },
            true,
        ),
        f_v(
            "button_color"@,
            "Button color"@,
            KindV::Text { default: "#0F1114"@ },
            true,
        ),
    ]
}

pub fn brand_form() -> (r: EditForm)
    ensures
        r.title@ == "brand"@,
        field_ids(r.fields@) == seq!["font_family"@, "text_color"@, "background_color"@, "content_width"@, "button_background"@, "button_color"@],
        fields_view(r.fields@) == brand_fields(),
{
    let r = EditForm {
    title: "brand",
    fields: vec![
        f(
            "font_family",
            "Font family",
            FieldKind::Text { default: "" },
            true,
        ),
        f(
            "text_color",
            "Text color",
            FieldKind::Text { default: "#1a1a1a" },
            true,
        ),
        f(
            "background_color",
            "Background",
            FieldKind::Text { default: "#f4f4f4" },
            true,
        ),
        f(
            "content_width",
            "Content width",
            FieldKind::Text { default: "600" },
            true,
        ),
        f(
            "button_background",
            "Button background",
            FieldKind::Text { default: "#FFAF46" },
            true,
        ),
        f(
            "button_color",
            "Button color",
            FieldKind::Text { default: "#0F1114" },
            true,
        ),
    ],
    };
    assert(fields_view(r.fields@) =~= brand_fields());
    r
}

/// The fields of the body form.
pub open spec fn body_fields() -> Seq<FieldView> {
    seq![
        body_bg_field_v(),
        css_class_field_v(),
    ]
}

pub fn body_form() -> (r: EditForm)
    ensures
        r.title@ == "mj-body"@,
        field_ids(r.fields@) == seq!["background_color"@, "css_class"@],
        fields_view(r.fields@) == body_fields(),
{
    let r = EditForm {
    title: "mj-body",
    fields: vec![
        body_bg_field(),
        css_class_field(),
    ],
    };
    assert(fields_view(r.fields@) =~= body_fields());
    r
}

/// The fields of the section form.
pub open spec fn section_fields() -> Seq<FieldView> {
    seq![
        author_label_field_v(),
        f_v(
            "background_color"@,
            "Background"@,
            KindV::Text { default: ""@ },
            false,
        ),
        background_url_field_v(),
        background_size_field_v(),
        background_repeat_field_v(),
        padding_field_v(),
        hinted_v("gutter"@, "Gutter"@, crate::padding::UNIT_HINT@, "e.g. 4%"@),
        direction_field_v(),
        border_field_v(),
        border_sides_field_v(),
        border_radius_field_v(),
        f_v(
            "full_width"@,
            "Full width"@,
            KindV::Enum {
                options: seq!["false"@, "true"@],
                default: "false"@,
            },
            false,
        ),
        css_class_field_v(),
    ]
}

pub fn section_form() -> (r: EditForm)
    ensures
        r.title@ == "mj-section"@,
        field_ids(r.fields@) == seq!["label"@, "background_color"@, "background_url"@, "background_size"@, "background_repeat"@, "padding"@, "gutter"@, "direction"@, "border"@, "border_sides"@, "border_radius"@, "full_width"@, "css_class"@],
        fields_view(r.fields@) == section_fields(),
{
    let r = EditForm {
    title: "mj-section",
    fields: vec![
        author_label_field(),
        f(
            "background_color",
            "Background",
            FieldKind::Text { default: "" },
            false,
        ),
        background_url_field(),
        background_size_field(),
        background_repeat_field(),
        padding_field(),
        hinted("gutter", "Gutter", crate::padding::UNIT_HINT, "e.g. 4%"),
        direction_field(),
        border_field(),
        border_sides_field(),
        border_radius_field(),
        f(
            "full_width",
            "Full width",
            FieldKind::Enum {
                options: bool_options(),
                default: "false",
            },
            false,
        ),
        css_class_field(),
    ],
    };
    assert(fields_view(r.fields@) =~= section_fields());
    r
}

/// The fields of the column form.
pub open spec fn column_fields() -> Seq<FieldView> {
    seq![
        f_v("width"@, "Width"@, KindV::Text { default: ""@ }, false),
        f_v(
            "background_color"@,
            "Background"@,
            KindV::Text { default: ""@ },
            false,
        ),
        padding_field_v(),
        f_v(
            "inner_background_color"@,
            "Inner background"@,
            KindV::Text { default: ""@ },
            false,
        ),
        border_field_v(),
        border_sides_field_v(),
        border_radius_field_v(),
        f_v(
            "inner_border"@,
            "Inner border"@,
            KindV::Text { default: ""@ },
            false,
        ),
        inner_border_sides_field_v(),
        hinted_v(
            "inner_border_radius"@,
            "Inner border radius"@,
            crate::padding::UNIT_HINT@,
            crate::padding::UNIT_PLACEHOLDER@,
        ),
        vertical_align_field_v(),
        css_class_field_v(),
    ]
}

pub fn column_form() -> (r: EditForm)
    ensures
        r.title@ == "mj-column"@,
        field_ids(r.fields@) == seq!["width"@, "background_color"@, "padding"@, "inner_background_color"@, "border"@, "border_sides"@, "border_radius"@, "inner_border"@, "inner_border_sides"@, "inner_border_radius"@, "vertical_align"@, "css_class"@],
        fields_view(r.fields@) == column_fields(),
{
    let r = EditForm {
    title: "mj-column",
    fields: vec![
        f("width", "Width", FieldKind::Text { default: "" }, false),
        f(
            "background_color",
            "Background",
            FieldKind::Text { default: "" },
            false,
        ),
        padding_field(),
        f(
            "inner_background_color",
            "Inner background",
            FieldKind::Text { default: "" },
            false,
        ),
        border_field(),
        border_sides_field(),
        border_radius_field(),
        f(
            "inner_border",
            "Inner border",
            FieldKind::Text { default: "" },
            false,
        ),
        inner_border_sides_field(),
        hinted(
            "inner_border_radius",
            "Inner border radius",
            crate::padding::UNIT_HINT,
            crate::padding::UNIT_PLACEHOLDER,
        ),
        vertical_align_field(),
        css_class_field(),
    ],
    };
    assert(fields_view(r.fields@) =~= column_fields());
    r
}

/// The fields of the wrapper form.
pub open spec fn wrapper_fields() -> Seq<FieldView> {
    seq![
        author_label_field_v(),
        f_v(
            "background_color"@,
            "Background"@,
            KindV::Text { default: ""@ },
            false,
        ),
        background_url_field_v(),
        background_size_field_v(),
        background_repeat_field_v(),
        padding_field_v(),
        hinted_v(
            "gap"@,
            "Gap"@,
            crate::padding::UNIT_HINT@,
            crate::padding::UNIT_PLACEHOLDER@,
        ),
        border_field_v(),
        border_sides_field_v(),
        border_radius_field_v(),
        f_v(
            "full_width"@,
            "Full width"@,
            KindV::Enum {
                options: seq!["false"@, "true"@],
                default: "false"@,
            },
            false,
        ),
        css_class_field_v(),
    ]
}

pub fn wrapper_form() -> (r: EditForm)
    ensures
        r.title@ == "mj-wrapper"@,
        field_ids(r.fields@) == seq!["label"@, "background_color"@, "background_url"@, "background_size"@, "background_repeat"@, "padding"@, "gap"@, "border"@, "border_sides"@, "border_radius"@, "full_width"@, "css_class"@],
        fields_view(r.fields@) == wrapper_fields(),
{
    let r = EditForm {
    title: "mj-wrapper",
    fields: vec![
        author_label_field(),
        f(
            "background_color",
            "Background",
            FieldKind::Text { default: "" },
            false,
        ),
        background_url_field(),
        background_size_field(),
        background_repeat_field(),
        padding_field(),
        hinted(
            "gap",
            "Gap",
            crate::padding::UNIT_HINT,
            crate::padding::UNIT_PLACEHOLDER,
        ),
        border_field(),
        border_sides_field(),
        border_radius_field(),
        f(
            "full_width",
            "Full width",
            FieldKind::Enum {
                options: bool_options(),
                default: "false",
            },
            false,
        ),
        css_class_field(),
    ],
    };
    assert(fields_view(r.fields@) =~= wrapper_fields());
    r
}

/// The fields of the group form.
pub open spec fn group_fields() -> Seq<FieldView> {
    seq![
        f_v("width"@, "Width"@, KindV::Text { default: ""@ }, false),
        f_v(
            "background_color"@,
            "Background"@,
            KindV::Text { default: ""@ },
            false,
        ),
        direction_field_v(),
        vertical_align_field_v(),
        css_class_field_v(),
    ]
}

pub fn group_form() -> (r: EditForm)
    ensures
        r.title@ == "mj-group"@,
        field_ids(r.fields@) == seq!["width"@, "background_color"@, "direction"@, "vertical_align"@, "css_class"@],
        fields_view(r.fields@) == group_fields(),
{
    let r = EditForm {
    title: "mj-group",
    fields: vec![
        f("width", "Width", FieldKind::Text { default: "" }, false),
        f(
            "background_color",
            "Background",
            FieldKind::Text { default: "" },
            false,
        ),
        direction_field(),
        vertical_align_field(),
        css_class_field(),
    ],
    };
    assert(fields_view(r.fields@) =~= group_fields());
    r
}

/// The fields of the hero form.
pub open spec fn hero_fields() -> Seq<FieldView> {
    seq![
        f_v(
            "mode"@,
            "Mode"@,
            KindV::Enum {
                options: seq!["fluid-height"@, "fixed-height"@],
                default: "fluid-height"@,
            },
            true,
        ),
        f_v(
            "background_url"@,
            "Background URL"@,
            KindV::Url { default: ""@ },
            false,
        ),
        f_v(
            "background_color"@,
            "Background"@,
            KindV::Text { default: ""@ },
            false,
        ),
        f_v(
            "background_height"@,
            "Background height"@,
            KindV::Text { default: ""@ },
            false,
        ),
        f_v(
            "background_width"@,
            "Background width"@,
            KindV::Text { default: ""@ },
            false,
        ),
        f_v(
            "background_position"@,
            "Background position"@,
            KindV::Text { default: ""@ },
            false,
        ),
        f_v("width"@, "Width"@, KindV::Text { default: ""@ }, false),
        f_v("height"@, "Height"@, KindV::Text { default: ""@ }, false),
        padding_field_v(),
        inner_padding_field_v(),
        border_radius_field_v(),
        vertical_align_field_v(),
        css_class_field_v(),
    ]
}

pub fn hero_form() -> (r: EditForm)
    ensures
        r.title@ == "mj-hero"@,
        field_ids(r.fields@) == seq!["mode"@, "background_url"@, "background_color"@, "background_height"@, "background_width"@, "background_position"@, "width"@, "height"@, "padding"@, "inner_padding"@, "border_radius"@, "vertical_align"@, "css_class"@],
        fields_view(r.fields@) == hero_fields(),
{
    let r = EditForm {
    title: "mj-hero",
    fields: vec![
        f(
            "mode",
            "Mode",
            FieldKind::Enum {
                options: hero_mode_options(),
                default: "fluid-height",
            },
            true,
        ),
        f(
            "background_url",
            "Background URL",
            FieldKind::Url { default: "" },
            false,
        ),
        f(
            "background_color",
            "Background",
            FieldKind::Text { default: "" },
            false,
        ),
        f(
            "background_height",
            "Background height",
            FieldKind::Text { default: "" },
            false,
        ),
        f(
            "background_width",
            "Background width",
            FieldKind::Text { default: "" },
            false,
        ),
        f(
            "background_position",
            "Background position",
            FieldKind::Text { default: "" },
            false,
        ),
        f("width", "Width", FieldKind::Text { default: "" }, false),
        f("height", "Height", FieldKind::Text { default: "" }, false),
        padding_field(),
        inner_padding_field(),
        border_radius_field(),
        vertical_align_field(),
        css_class_field(),
    ],
    };
    assert(fields_view(r.fields@) =~= hero_fields());
    r
}

/// The fields of the text form.
pub open spec fn text_fields() -> Seq<FieldView> {
    seq![
        f_v(
            "content"@,
            "Content"@,
            KindV::Textarea {
                rows: 6,
                default: ""@,
            },
            true,
        ),
        f_v(
            "align"@,
            "Align"@,
            KindV::Enum {
                options: seq![""@, "left"@, "center"@, "right"@],
                default: ""@,
            },
            false,
        ),
        f_v(
            "font_size"@,
            "Font size"@,
            KindV::Text { default: ""@ },
            false,
        ),
        font_family_field_v(),
        f_v(
            "font_weight"@,
            "Font weight"@,
            KindV::Enum {
                options: seq![""@, "normal"@, "bold"@, "400"@, "700"@],
                default: ""@,
            },
            false,
        ),
        f_v(
            "font_style"@,
            "Font style"@,
            KindV::Enum {
                options: seq![""@, "normal"@, "italic"@],
                default: ""@,
            },
            false,
        ),
        hinted_v(
            "line_height"@,
            "Line height"@,
            crate::padding::UNIT_HINT@,
            "e.g. 1.5  or  24px"@,
        ),
        text_color_field_v(),
        padding_field_v(),
        hinted_v(
            "letter_spacing"@,
            "Letter spacing"@,
            crate::padding::UNIT_HINT@,
            "e.g. 0.5px"@,
        ),
        f_v(
            "text_decoration"@,
            "Text decoration"@,
            KindV::Enum {
                options: seq![""@, "none"@, "underline"@, "overline"@, "line-through"@],
                default: ""@,
            },
            false,
        ),
        f_v(
            "text_transform"@,
            "Text transform"@,
            KindV::Enum {
                options: seq![""@, "none"@, "uppercase"@, "lowercase"@, "capitalize"@],
                default: ""@,
            },
            false,
        ),
        hinted_v("height"@, "Height"@, crate::padding::UNIT_HINT@, "e.g. 24px"@),
        css_class_field_v(),
    ]
}

pub fn text_form() -> (r: EditForm)
    ensures
        r.title@ == "mj-text"@,
        field_ids(r.fields@) == seq!["content"@, "align"@, "font_size"@, "font_family"@, "font_weight"@, "font_style"@, "line_height"@, "color"@, "padding"@, "letter_spacing"@, "text_decoration"@, "text_transform"@, "height"@, "css_class"@],
        fields_view(r.fields@) == text_fields(),
{
    let r = EditForm {
    title: "mj-text",
    fields: vec![
        f(
            "content",
            "Content",
            FieldKind::Textarea {
                rows: 6,
                default: "",
            },
            true,
        ),
        f(
            "align",
            "Align",
            FieldKind::Enum {
                options: align_options(),
                default: "",
            },
            false,
        ),
        f(
            "font_size",
            "Font size",
            FieldKind::Text { default: "" },
            false,
        ),
        font_family_field(),
        f(
            "font_weight",
            "Font weight",
            FieldKind::Enum {
                options: font_weight_options(),
                default: "",
            },
            false,
        ),
        f(
            "font_style",
            "Font style",
            FieldKind::Enum {
                options: font_style_options(),
                default: "",
            },
            false,
        ),
        hinted(
            "line_height",
            "Line height",
            crate::padding::UNIT_HINT,
            "e.g. 1.5  or  24px",
        ),
        text_color_field(),
        padding_field(),
        hinted(
            "letter_spacing",
            "Letter spacing",
            crate::padding::UNIT_HINT,
            "e.g. 0.5px",
        ),
        f(
            "text_decoration",
            "Text decoration",
            FieldKind::Enum {
                options: text_decoration_options(),
                default: "",
            },
            false,
        ),
        f(
            "text_transform",
            "Text transform",
            FieldKind::Enum {
                options: text_transform_options(),
                default: "",
            },
            false,
        ),
        hinted("height", "Height", crate::padding::UNIT_HINT, "e.g. 24px"),
        css_class_field(),
    ],
    };
    assert(fields_view(r.fields@) =~= text_fields());
    r
}

/// The fields of the button form.
pub open spec fn button_fields() -> Seq<FieldView> {
    seq![
        f_v(
            "content"@,
            "Label"@,
            KindV::Text {
                default: "Read more"@,
            },
            true,
        ),
        f_v(
            "href"@,
            "Href"@,
            KindV::Url {
                default: "https://example.com"@,
            },
            true,
        ),
        button_bg_field_v(),
        button_color_field_v(),
        f_v(
            "align"@,
            "Align"@,
            KindV::Enum {
                options: seq![""@, "left"@, "center"@, "right"@],
                default: ""@,
            },
            false,
        ),
        font_family_field_v(),
        hinted_v(
            "font_size"@,
            "Font size"@,
            crate::padding::UNIT_HINT@,
            crate::padding::UNIT_PLACEHOLDER@,
        ),
        f_v(
            "font_weight"@,
            "Font weight"@,
            KindV::Enum {
                options: seq![""@, "normal"@, "bold"@, "400"@, "700"@],
                default: ""@,
            },
            false,
        ),
        f_v(
            "font_style"@,
            "Font style"@,
            KindV::Enum {
                options: seq![""@, "normal"@, "italic"@],
                default: ""@,
            },
            false,
        ),
        border_field_v(),
        border_sides_field_v(),
        border_radius_field_v(),
        inner_padding_field_v(),
        f_v("width"@, "Width"@, KindV::Text { default: ""@ }, false),
        hinted_v("height"@, "Height"@, crate::padding::UNIT_HINT@, "e.g. 44px"@),
        f_v(
            "target"@,
            "Target"@,
            KindV::Enum {
                options: seq![""@, "_blank"@, "_self"@],
                default: ""@,
            },
            false,
        ),
        padding_field_v(),
        hinted_v(
            "letter_spacing"@,
            "Letter spacing"@,
            crate::padding::UNIT_HINT@,
            "e.g. 0.5px"@,
        ),
        hinted_v(
            "line_height"@,
            "Line height"@,
            crate::padding::UNIT_HINT@,
            "e.g. 120%"@,
        ),
        f_v(
            "text_decoration"@,
            "Text decoration"@,
            KindV::Enum {
                options: seq![""@, "none"@, "underline"@, "overline"@, "line-through"@],
                default: ""@,
            },
            false,
        ),
        f_v(
            "text_transform"@,
            "Text transform"@,
            KindV::Enum {
                options: seq![""@, "none"@, "uppercase"@, "lowercase"@, "capitalize"@],
                default: ""@,
            },
            false,
        ),
        f_v("rel"@, "Rel"@, KindV::Text { default: ""@ }, false),
        f_v("title"@, "Title"@, KindV::Text { default: ""@ }, false),
        css_class_field_v(),
    ]
}

pub fn button_form() -> (r: EditForm)
    ensures
        r.title@ == "mj-button"@,
        field_ids(r.fields@) == seq!["content"@, "href"@, "background_color"@, "color"@, "align"@, "font_family"@, "font_size"@, "font_weight"@, "font_style"@, "border"@, "border_sides"@, "border_radius"@, "inner_padding"@, "width"@, "height"@, "target"@, "padding"@, "letter_spacing"@, "line_height"@, "text_decoration"@, "text_transform"@, "rel"@, "title"@, "css_class"@],
        fields_view(r.fields@) == button_fields(),
{
    let r = EditForm {
    title: "mj-button",
    fields: vec![
        f(
            "content",
            "Label",
            FieldKind::Text {
                default: "Read more",
            },
            true,
        ),
        f(
            "href",
            "Href",
            FieldKind::Url {
                default: "https://example.com",
            },
            true,
        ),
        button_bg_field(),
        button_color_field(),
        f(
            "align",
            "Align",
            FieldKind::Enum {
                options: align_options(),
                default: "",
            },
            false,
        ),
        font_family_field(),
        hinted(
            "font_size",
            "Font size",
            crate::padding::UNIT_HINT,
            crate::padding::UNIT_PLACEHOLDER,
        ),
        f(
            "font_weight",
            "Font weight",
            FieldKind::Enum {
                options: font_weight_options(),
                default: "",
            },
            false,
        ),
        f(
            "font_style",
            "Font style",
            FieldKind::Enum {
                options: font_style_options(),
                default: "",
            },
            false,
        ),
        border_field(),
        border_sides_field(),
        border_radius_field(),
        inner_padding_field(),
        f("width", "Width", FieldKind::Text { default: "" }, false),
        hinted("height", "Height", crate::padding::UNIT_HINT, "e.g. 44px"),
        f(
            "target",
            "Target",
            FieldKind::Enum {
                options: target_options(),
                default: "",
            },
            false,
        ),
        padding_field(),
        hinted(
            "letter_spacing",
            "Letter spacing",
            crate::padding::UNIT_HINT,
            "e.g. 0.5px",
        ),
        hinted(
            "line_height",
            "Line height",
            crate::padding::UNIT_HINT,
            "e.g. 120%",
        ),
        f(
            "text_decoration",
            "Text decoration",
            FieldKind::Enum {
                options: text_decoration_options(),
                default: "",
            },
            false,
        ),
        f(
            "text_transform",
            "Text transform",
            FieldKind::Enum {
                options: text_transform_options(),
                default: "",
            },
            false,
        ),
        f("rel", "Rel", FieldKind::Text { default: "" }, false),
        f("title", "Title", FieldKind::Text { default: "" }, false),
        css_class_field(),
    ],
    };
    assert(fields_view(r.fields@) =~= button_fields());
    r
}

/// The fields of the image form.
pub open spec fn image_fields() -> Seq<FieldView> {
    seq![
        f_v("src"@, "Src"@, KindV::Url { default: ""@ }, true),
        f_v("alt"@, "Alt"@, KindV::Text { default: ""@ }, true),
        f_v("href"@, "Href"@, KindV::Url { default: ""@ }, false),
        f_v("title"@, "Title"@, KindV::Text { default: ""@ }, false),
        f_v("width"@, "Width"@, KindV::Text { default: ""@ }, false),
        hinted_v(
            "height"@,
            "Height"@,
            crate::padding::UNIT_HINT@,
            "e.g. 200px  or  auto"@,
        ),
        f_v(
            "align"@,
            "Align"@,
            KindV::Enum {
                options: seq![""@, "left"@, "center"@, "right"@],
                default: ""@,
            },
            false,
        ),
        f_v(
            "fluid_on_mobile"@,
            "Fluid on mobile"@,
            KindV::Enum {
                options: seq!["false"@, "true"@],
                default: "true"@,
            },
            false,
        ),
        border_field_v(),
        border_sides_field_v(),
        border_radius_field_v(),
        padding_field_v(),
        f_v(
            "target"@,
            "Target"@,
            KindV::Enum {
                options: seq![""@, "_blank"@, "_self"@],
                default: ""@,
            },
            false,
        ),
        f_v("rel"@, "Rel"@, KindV::Text { default: ""@ }, false),
        css_class_field_v(),
    ]
}

pub fn image_form() -> (r: EditForm)
    ensures
        r.title@ == "mj-image"@,
        field_ids(r.fields@) == seq!["src"@, "alt"@, "href"@, "title"@, "width"@, "height"@, "align"@, "fluid_on_mobile"@, "border"@, "border_sides"@, "border_radius"@, "padding"@, "target"@, "rel"@, "css_class"@],
        fields_view(r.fields@) == image_fields(),
{
    let r = EditForm {
    title: "mj-image",
    fields: vec![
        f("src", "Src", FieldKind::Url { default: "" }, true),
        f("alt", "Alt", FieldKind::Text { default: "" }, true),
        f("href", "Href", FieldKind::Url { default: "" }, false),
        f("title", "Title", FieldKind::Text { default: "" }, false),
        f("width", "Width", FieldKind::Text { default: "" }, false),
        hinted(
            "height",
            "Height",
            crate::padding::UNIT_HINT,
            "e.g. 200px  or  auto",
        ),
        f(
            "align",
            "Align",
            FieldKind::Enum {
                options: align_options(),
                default: "",
            },
            false,
        ),
        f(
            "fluid_on_mobile",
            "Fluid on mobile",
            FieldKind::Enum {
                options: bool_options(),
                default: "true",
            },
            false,
        ),
        border_field(),
        border_sides_field(),
        border_radius_field(),
        padding_field(),
        f(
            "target",
            "Target",
            FieldKind::Enum {
                options: target_options(),
                default: "",
            },
            false,
        ),
        f("rel", "Rel", FieldKind::Text { default: "" }, false),
        css_class_field(),
    ],
    };
    assert(fields_view(r.fields@) =~= image_fields());
    r
}

/// The fields of the divider form.
pub open spec fn divider_fields() -> Seq<FieldView> {
    seq![
        f_v(
            "border_color"@,
            "Border color"@,
            KindV::Text { default: ""@ },
            false,
        ),
        f_v(
            "border_width"@,
            "Border width"@,
            KindV::Text { default: ""@ },
            false,
        ),
        f_v(
            "border_style"@,
            "Border style"@,
            KindV::Enum {
                options: seq![""@, "solid"@, "dashed"@, "dotted"@, "none"@],
                default: ""@,
            },
            false,
        ),
        f_v("width"@, "Width"@, KindV::Text { default: ""@ }, false),
        f_v(
            "align"@,
            "Align"@,
            KindV::Enum {
                options: seq![""@, "left"@, "center"@, "right"@],
                default: ""@,
            },
            false,
        ),
        padding_field_v(),
        css_class_field_v(),
    ]
}

pub fn divider_form() -> (r: EditForm)
    ensures
        r.title@ == "mj-divider"@,
        field_ids(r.fields@) == seq!["border_color"@, "border_width"@, "border_style"@, "width"@, "align"@, "padding"@, "css_class"@],
        fields_view(r.fields@) == divider_fields(),
{
    let r = EditForm {
    title: "mj-divider",
    fields: vec![
        f(
            "border_color",
            "Border color",
            FieldKind::Text { default: "" },
            false,
        ),
        f(
            "border_width",
            "Border width",
            FieldKind::Text { default: "" },
            false,
        ),
        f(
            "border_style",
            "Border style",
            FieldKind::Enum {
                options: border_style_options(),
                default: "",
            },
            false,
        ),
        f("width", "Width", FieldKind::Text { default: "" }, false),
        f(
            "align",
            "Align",
            FieldKind::Enum {
                options: align_options(),
                default: "",
            },
            false,
        ),
        padding_field(),
        css_class_field(),
    ],
    };
    assert(fields_view(r.fields@) =~= divider_fields());
    r
}

/// The fields of the spacer form.
pub open spec fn spacer_fields() -> Seq<FieldView> {
    seq![
        f_v(
            "height"@,
            "Height"@,
            KindV::Text { default: "24px"@ },
            true,
        ),
        padding_field_v(),
        css_class_field_v(),
    ]
}

pub fn spacer_form() -> (r: EditForm)
    ensures
        r.title@ == "mj-spacer"@,
        field_ids(r.fields@) == seq!["height"@, "padding"@, "css_class"@],
        fields_view(r.fields@) == spacer_fields(),
{
    let r = EditForm {
    title: "mj-spacer",
    fields: vec![
        f(
            "height",
            "Height",
            FieldKind::Text { default: "24px" },
            true,
        ),
        padding_field(),
        css_class_field(),
    ],
    };
    assert(fields_view(r.fields@) =~= spacer_fields());
    r
}

/// The fields of the social form.
pub open spec fn social_fields() -> Seq<FieldView> {
    seq![
        f_v(
            "mode"@,
            "Mode"@,
            KindV::Enum {
                options: seq!["horizontal"@, "vertical"@],
                default: "horizontal"@,
            },
            true,
        ),
        f_v(
            "align"@,
            "Align"@,
            KindV::Enum {
                options: seq![""@, "left"@, "center"@, "right"@],
                default: ""@,
            },
            false,
        ),
        f_v(
            "icon_size"@,
            "Icon size"@,
            KindV::Text { default: "32px"@ },
            false,
        ),
        border_radius_field_v(),
        padding_field_v(),
        hinted_v(
            "icon_padding"@,
            "Icon padding"@,
            crate::padding::HINT@,
            crate::padding::PLACEHOLDER@,
        ),
        inner_padding_field_v(),
        hinted_v(
            "font_size"@,
            "Font size"@,
            crate::padding::UNIT_HINT@,
            crate::padding::UNIT_PLACEHOLDER@,
        ),
        f_v("color"@, "Color"@, KindV::Text { default: ""@ }, false),
        f_v(
            "elements"@,
            "Icons"@,
            KindV::SubForm {
                template: FormId::SocialItem,
                min_items: 0,
                summary_field_id: "name"@,
            },
            false,
        ),
        css_class_field_v(),
    ]
}

pub fn social_form() -> (r: EditForm)
    ensures
        r.title@ == "mj-social"@,
        field_ids(r.fields@) == seq!["mode"@, "align"@, "icon_size"@, "border_radius"@, "padding"@, "icon_padding"@, "inner_padding"@, "font_size"@, "color"@, "elements"@, "css_class"@],
        fields_view(r.fields@) == social_fields(),
{
    let r = EditForm {
    title: "mj-social",
    fields: vec![
        f(
            "mode",
            "Mode",
            FieldKind::Enum {
                options: social_mode_options(),
                default: "horizontal",
            },
            true,
        ),
        f(
            "align",
            "Align",
            FieldKind::Enum {
                options: align_options(),
                default: "",
            },
            false,
        ),
        f(
            "icon_size",
            "Icon size",
            FieldKind::Text { default: "32px" },
            false,
        ),
        border_radius_field(),
        padding_field(),
        hinted(
            "icon_padding",
            "Icon padding",
            crate::padding::HINT,
            crate::padding::PLACEHOLDER,
        ),
        inner_padding_field(),
        hinted(
            "font_size",
            "Font size",
            crate::padding::UNIT_HINT,
            crate::padding::UNIT_PLACEHOLDER,
        ),
        f("color", "Color", FieldKind::Text { default: "" }, false),
        f(
            "elements",
            "Icons",
            FieldKind::SubForm {
                template: FormId::SocialItem,
                min_items: 0,
                summary_field_id: "name",
            },
            false,
        ),
        css_class_field(),
    ],
    };
    assert(fields_view(r.fields@) =~= social_fields());
    r
}

/// The fields of the navbar form.
pub open spec fn navbar_fields() -> Seq<FieldView> {
    seq![
        f_v(
            "hamburger"@,
            "Hamburger"@,
            KindV::Enum {
                options: seq!["false"@, "true"@],
                default: "false"@,
            },
            false,
        ),
        f_v(
            "ico_color"@,
            "Icon color"@,
            KindV::Text { default: ""@ },
            false,
        ),
        f_v(
            "base_url"@,
            "Base URL"@,
            KindV::Url { default: ""@ },
            false,
        ),
        f_v(
            "align"@,
            "Align"@,
            KindV::Enum {
                options: seq![""@, "left"@, "center"@, "right"@],
                default: ""@,
            },
            false,
        ),
        padding_field_v(),
        hamburger_only_v(
            "ico_align"@,
            "Icon align"@,
            KindV::Enum {
                options: seq![""@, "left"@, "center"@, "right"@],
                default: ""@,
            },
        ),
        hamburger_only_v(
            "ico_font_size"@,
            "Icon font size"@,
            KindV::Text { default: ""@ },
        ),
        hamburger_only_v(
            "ico_padding"@,
            "Icon padding"@,
            KindV::Text { default: ""@ },
        ),
        hamburger_only_v("ico_open"@, "Icon open"@, KindV::Text { default: ""@ }),
        hamburger_only_v("ico_close"@, "Icon close"@, KindV::Text { default: ""@ }),
        css_class_field_v(),
    ]
}

pub fn navbar_form() -> (r: EditForm)
    ensures
        r.title@ == "mj-navbar"@,
        field_ids(r.fields@) == seq!["hamburger"@, "ico_color"@, "base_url"@, "align"@, "padding"@, "ico_align"@, "ico_font_size"@, "ico_padding"@, "ico_open"@, "ico_close"@, "css_class"@],
        fields_view(r.fields@) == navbar_fields(),
{
    let r = EditForm {
    title: "mj-navbar",
    fields: vec![
        f(
            "hamburger",
            "Hamburger",
            FieldKind::Enum {
                options: bool_options(),
                default: "false",
            },
            false,
        ),
        f(
            "ico_color",
            "Icon color",
            FieldKind::Text { default: "" },
            false,
        ),
        f(
            "base_url",
            "Base URL",
            FieldKind::Url { default: "" },
            false,
        ),
        f(
            "align",
            "Align",
            FieldKind::Enum {
                options: align_options(),
                default: "",
            },
            false,
        ),
        padding_field(),
        hamburger_only(
            "ico_align",
            "Icon align",
            FieldKind::Enum {
                options: align_options(),
                default: "",
            },
        ),
        hamburger_only(
            "ico_font_size",
            "Icon font size",
            FieldKind::Text { default: "" },
        ),
        hamburger_only(
            "ico_padding",
            "Icon padding",
            FieldKind::Text { default: "" },
        ),
        hamburger_only("ico_open", "Icon open", FieldKind::Text { default: "" }),
        hamburger_only("ico_close", "Icon close", FieldKind::Text { default: "" }),
        css_class_field(),
    ],
    };
    assert(fields_view(r.fields@) =~= navbar_fields());
    r
}

/// The fields of the navbar link form.
pub open spec fn navbar_link_fields() -> Seq<FieldView> {
    seq![
        f_v(
            "href"@,
            "Href"@,
            KindV::Url {
                default: "https://example.com"@,
            },
            true,
        ),
        f_v(
            "content"@,
            "Label"@,
            KindV::Text { default: "Link"@ },
            true,
        ),
        f_v("color"@, "Color"@, KindV::Text { default: ""@ }, false),
        font_family_field_v(),
        hinted_v(
            "font_size"@,
            "Font size"@,
            crate::padding::UNIT_HINT@,
            crate::padding::UNIT_PLACEHOLDER@,
        ),
        f_v(
            "font_weight"@,
            "Font weight"@,
            KindV::Enum {
                options: seq![""@, "normal"@, "bold"@, "400"@, "700"@],
                default: ""@,
            },
            false,
        ),
        f_v(
            "text_decoration"@,
            "Text decoration"@,
            KindV::Enum {
                options: seq![""@, "none"@, "underline"@, "overline"@, "line-through"@],
                default: ""@,
            },
            false,
        ),
        f_v(
            "text_transform"@,
            "Text transform"@,
            KindV::Enum {
                options: seq![""@, "none"@, "uppercase"@, "lowercase"@, "capitalize"@],
                default: ""@,
            },
            false,
        ),
        padding_field_v(),
        css_class_field_v(),
    ]
}

pub fn navbar_link_form() -> (r: EditForm)
    ensures
        r.title@ == "mj-navbar-link"@,
        field_ids(r.fields@) == seq!["href"@, "content"@, "color"@, "font_family"@, "font_size"@, "font_weight"@, "text_decoration"@, "text_transform"@, "padding"@, "css_class"@],
        fields_view(r.fields@) == navbar_link_fields(),
{
    let r = EditForm {
    title: "mj-navbar-link",
    fields: vec![
        f(
            "href",
            "Href",
            FieldKind::Url {
                default: "https://example.com",
            },
            true,
        ),
        f(
            "content",
            "Label",
            FieldKind::Text { default: "Link" },
            true,
        ),
        f("color", "Color", FieldKind::Text { default: "" }, false),
        font_family_field(),
        hinted(
            "font_size",
            "Font size",
            crate::padding::UNIT_HINT,
            crate::padding::UNIT_PLACEHOLDER,
        ),
        f(
            "font_weight",
            "Font weight",
            FieldKind::Enum {
                options: font_weight_options(),
                default: "",
            },
            false,
        ),
        f(
            "text_decoration",
            "Text decoration",
            FieldKind::Enum {
                options: text_decoration_options(),
                default: "",
            },
            false,
        ),
        f(
            "text_transform",
            "Text transform",
            FieldKind::Enum {
                options: text_transform_options(),
                default: "",
            },
            false,
        ),
        padding_field(),
        css_class_field(),
    ],
    };
    assert(fields_view(r.fields@) =~= navbar_link_fields());
    r
}

/// The fields of the accordion form.
pub open spec fn accordion_fields() -> Seq<FieldView> {
    seq![
        f_v("border"@, "Border"@, KindV::Text { default: ""@ }, false),
        padding_field_v(),
        font_family_field_v(),
        f_v(
            "icon_position"@,
            "Icon position"@,
            KindV::Enum {
                options: seq![""@, "left"@, "right"@],
                default: ""@,
            },
            false,
        ),
        hinted_v(
            "icon_width"@,
            "Icon width"@,
            crate::padding::UNIT_HINT@,
            crate::padding::UNIT_PLACEHOLDER@,
        ),
        hinted_v(
            "icon_height"@,
            "Icon height"@,
            crate::padding::UNIT_HINT@,
            crate::padding::UNIT_PLACEHOLDER@,
        ),
        f_v(
            "icon_wrapped_url"@,
            "Icon wrapped URL"@,
            KindV::Url { default: ""@ },
            false,
        ),
        f_v(
            "icon_unwrapped_url"@,
            "Icon unwrapped URL"@,
            KindV::Url { default: ""@ },
            false,
        ),
        css_class_field_v(),
    ]
}

pub fn accordion_form() -> (r: EditForm)
    ensures
        r.title@ == "mj-accordion"@,
        field_ids(r.fields@) == seq!["border"@, "padding"@, "font_family"@, "icon_position"@, "icon_width"@, "icon_height"@, "icon_wrapped_url"@, "icon_unwrapped_url"@, "css_class"@],
        fields_view(r.fields@) == accordion_fields(),
{
    let r = EditForm {
    title: "mj-accordion",
    fields: vec![
        f("border", "Border", FieldKind::Text { default: "" }, false),
        padding_field(),
        font_family_field(),
        f(
            "icon_position",
            "Icon position",
            FieldKind::Enum {
                options: icon_position_options(),
                default: "",
            },
            false,
        ),
        hinted(
            "icon_width",
            "Icon width",
            crate::padding::UNIT_HINT,
            crate::padding::UNIT_PLACEHOLDER,
        ),
        hinted(
            "icon_height",
            "Icon height",
            crate::padding::UNIT_HINT,
            crate::padding::UNIT_PLACEHOLDER,
        ),
        f(
            "icon_wrapped_url",
            "Icon wrapped URL",
            FieldKind::Url { default: "" },
            false,
        ),
        f(
            "icon_unwrapped_url",
            "Icon unwrapped URL",
            FieldKind::Url { default: "" },
            false,
        ),
        css_class_field(),
    ],
    };
    assert(fields_view(r.fields@) =~= accordion_fields());
    r
}

/// The fields of the accordion element form.
pub open spec fn accordion_element_fields() -> Seq<FieldView> {
    seq![
        f_v("title"@, "Title"@, KindV::Text { default: "Title"@ }, true),
        f_v(
            "content"@,
            "Content"@,
            KindV::Textarea {
                rows: 6,
                default: ""@,
            },
            false,
        ),
        f_v(
            "background_color"@,
            "Background"@,
            KindV::Text { default: ""@ },
            false,
        ),
        css_class_field_v(),
    ]
}

pub fn accordion_element_form() -> (r: EditForm)
    ensures
        r.title@ == "mj-accordion-element"@,
        field_ids(r.fields@) == seq!["title"@, "content"@, "background_color"@, "css_class"@],
        fields_view(r.fields@) == accordion_element_fields(),
{
    let r = EditForm {
    title: "mj-accordion-element",
    fields: vec![
        f("title", "Title", FieldKind::Text { default: "Title" }, true),
        f(
            "content",
            "Content",
            FieldKind::Textarea {
                rows: 6,
                default: "",
            },
            false,
        ),
        f(
            "background_color",
            "Background",
            FieldKind::Text { default: "" },
            false,
        ),
        css_class_field(),
    ],
    };
    assert(fields_view(r.fields@) =~= accordion_element_fields());
    r
}

/// The fields of the carousel form.
pub open spec fn carousel_fields() -> Seq<FieldView> {
    seq![
        f_v(
            "align"@,
            "Align"@,
            KindV::Enum {
                options: seq![""@, "left"@, "center"@, "right"@],
                default: ""@,
            },
            false,
        ),
        padding_field_v(),
        border_radius_field_v(),
        hinted_v(
            "tb_border_radius"@,
            "Thumbnail radius"@,
            crate::padding::UNIT_HINT@,
            crate::padding::UNIT_PLACEHOLDER@,
        ),
        hinted_v(
            "icon_width"@,
            "Icon width"@,
            crate::padding::UNIT_HINT@,
            crate::padding::UNIT_PLACEHOLDER@,
        ),
        f_v(
            "thumbnails"@,
            "Thumbnails"@,
            KindV::Enum {
                options: seq!["hidden"@, "visible"@, "supported"@],
                default: "hidden"@,
            },
            true,
        ),
        css_class_field_v(),
    ]
}

pub fn carousel_form() -> (r: EditForm)
    ensures
        r.title@ == "mj-carousel"@,
        field_ids(r.fields@) == seq!["align"@, "padding"@, "border_radius"@, "tb_border_radius"@, "icon_width"@, "thumbnails"@, "css_class"@],
        fields_view(r.fields@) == carousel_fields(),
{
    let r = EditForm {
    title: "mj-carousel",
    fields: vec![
        f(
            "align",
            "Align",
            FieldKind::Enum {
                options: align_options(),
                default: "",
            },
            false,
        ),
        padding_field(),
        border_radius_field(),
        hinted(
            "tb_border_radius",
            "Thumbnail radius",
            crate::padding::UNIT_HINT,
            crate::padding::UNIT_PLACEHOLDER,
        ),
        hinted(
            "icon_width",
            "Icon width",
            crate::padding::UNIT_HINT,
            crate::padding::UNIT_PLACEHOLDER,
        ),
        f(
            "thumbnails",
            "Thumbnails",
            FieldKind::Enum {
                options: thumbnails_options(),
                default: "hidden",
            },
            true,
        ),
        css_class_field(),
    ],
    };
    assert(fields_view(r.fields@) =~= carousel_fields());
    r
}

/// The fields of the carousel image form.
pub open spec fn carousel_image_fields() -> Seq<FieldView> {
    seq![
        f_v("src"@, "Src"@, KindV::Url { default: ""@ }, true),
        f_v("alt"@, "Alt"@, KindV::Text { default: ""@ }, true),
        f_v("href"@, "Href"@, KindV::Url { default: ""@ }, false),
        f_v(
            "thumbnails_src"@,
            "Thumbnail src"@,
            KindV::Url { default: ""@ },
            false,
        ),
        border_radius_field_v(),
        css_class_field_v(),
    ]
}

pub fn carousel_image_form() -> (r: EditForm)
    ensures
        r.title@ == "mj-carousel-image"@,
        field_ids(r.fields@) == seq!["src"@, "alt"@, "href"@, "thumbnails_src"@, "border_radius"@, "css_class"@],
        fields_view(r.fields@) == carousel_image_fields(),
{
    let r = EditForm {
    title: "mj-carousel-image",
    fields: vec![
        f("src", "Src", FieldKind::Url { default: "" }, true),
        f("alt", "Alt", FieldKind::Text { default: "" }, true),
        f("href", "Href", FieldKind::Url { default: "" }, false),
        f(
            "thumbnails_src",
            "Thumbnail src",
            FieldKind::Url { default: "" },
            false,
        ),
        border_radius_field(),
        css_class_field(),
    ],
    };
    assert(fields_view(r.fields@) =~= carousel_image_fields());
    r
}

/// The fields of the table form.
pub open spec fn table_fields() -> Seq<FieldView> {
    seq![
        FieldView {
            id: "content"@,
            label: "Table HTML"@,
            kind: KindV::Textarea {
                rows: 8,
                default: ""@,
            },
            required: true,
            visible_when: None,
            hint: Some("Rows only: <tr><td>…</td></tr>. mj-table already emits <table>."@),
            placeholder: Some("<tr><td></td></tr>"@),
            brand_placeholder: None,
        },
        f_v(
            "font_size"@,
            "Font size"@,
            KindV::Text { default: ""@ },
            false,
        ),
        font_family_field_v(),
        hinted_v(
            "line_height"@,
            "Line height"@,
            crate::padding::UNIT_HINT@,
            "e.g. 22px"@,
        ),
        f_v("color"@, "Color"@, KindV::Text { default: ""@ }, false),
        f_v(
            "align"@,
            "Align"@,
            KindV::Enum {
                options: seq![""@, "left"@, "center"@, "right"@],
                default: ""@,
            },
            false,
        ),
        f_v("width"@, "Width"@, KindV::Text { default: ""@ }, false),
        border_field_v(),
        padding_field_v(),
        f_v(
            "cellpadding"@,
            "Cell padding"@,
            KindV::Text { default: ""@ },
            false,
        ),
        f_v(
            "cellspacing"@,
            "Cell spacing"@,
            KindV::Text { default: ""@ },
            false,
        ),
        f_v(
            "role"@,
            "Role"@,
            KindV::Enum {
                options: seq![""@, "none"@, "presentation"@],
                default: ""@,
            },
            false,
        ),
        css_class_field_v(),
    ]
}

pub fn table_form() -> (r: EditForm)
    ensures
        r.title@ == "mj-table"@,
        field_ids(r.fields@) == seq!["content"@, "font_size"@, "font_family"@, "line_height"@, "color"@, "align"@, "width"@, "border"@, "padding"@, "cellpadding"@, "cellspacing"@, "role"@, "css_class"@],
        fields_view(r.fields@) == table_fields(),
{
    let r = EditForm {
    title: "mj-table",
    fields: vec![
        FormField {
            id: "content",
            label: "Table HTML",
            kind: FieldKind::Textarea {
                rows: 8,
                default: "",
            },
            required: true,
            visible_when: None,
            hint: Some("Rows only: <tr><td>…</td></tr>. mj-table already emits <table>."),
            placeholder: Some("<tr><td></td></tr>"),
            brand_placeholder: None,
        },
        f(
            "font_size",
            "Font size",
            FieldKind::Text { default: "" },
            false,
        ),
        font_family_field(),
        hinted(
            "line_height",
            "Line height",
            crate::padding::UNIT_HINT,
            "e.g. 22px",
        ),
        f("color", "Color", FieldKind::Text { default: "" }, false),
        f(
            "align",
            "Align",
            FieldKind::Enum {
                options: align_options(),
                default: "",
            },
            false,
        ),
        f("width", "Width", FieldKind::Text { default: "" }, false),
        border_field(),
        padding_field(),
        f(
            "cellpadding",
            "Cell padding",
            FieldKind::Text { default: "" },
            false,
        ),
        f(
            "cellspacing",
            "Cell spacing",
            FieldKind::Text { default: "" },
            false,
        ),
        f(
            "role",
            "Role",
            FieldKind::Enum {
                options: table_role_options(),
                default: "",
            },
            false,
        ),
        css_class_field(),
    ],
    };
    assert(fields_view(r.fields@) =~= table_fields());
    r
}

/// The fields of the email header form.
pub open spec fn email_header_fields() -> Seq<FieldView> {
    seq![
        f_v(
            "logo_src"@,
            "Logo src"@,
            KindV::Url { default: ""@ },
            false,
        ),
        f_v(
            "logo_alt"@,
            "Logo alt"@,
            KindV::Text { default: ""@ },
            false,
        ),
        f_v(
            "logo_href"@,
            "Logo href"@,
            KindV::Url { default: ""@ },
            false,
        ),
        f_v(
            "logo_width"@,
            "Logo width"@,
            KindV::Text { default: "160px"@ },
            false,
        ),
        f_v(
            "background_color"@,
            "Background"@,
            KindV::Text { default: ""@ },
            false,
        ),
    ]
}

pub fn email_header_form() -> (r: EditForm)
    ensures
        r.title@ == "email-header"@,
        field_ids(r.fields@) == seq!["logo_src"@, "logo_alt"@, "logo_href"@, "logo_width"@, "background_color"@],
        fields_view(r.fields@) == email_header_fields(),
{
    let r = EditForm {
    title: "email-header",
    fields: vec![
        f(
            "logo_src",
            "Logo src",
            FieldKind::Url { default: "" },
            false,
        ),
        f(
            "logo_alt",
            "Logo alt",
            FieldKind::Text { default: "" },
            false,
        ),
        f(
            "logo_href",
            "Logo href",
            FieldKind::Url { default: "" },
            false,
        ),
        f(
            "logo_width",
            "Logo width",
            FieldKind::Text { default: "160px" },
            false,
        ),
        f(
            "background_color",
            "Background",
            FieldKind::Text { default: "" },
            false,
        ),
    ],
    };
    assert(fields_view(r.fields@) =~= email_header_fields());
    r
}

/// The fields of the email hero form.
pub open spec fn email_hero_fields() -> Seq<FieldView> {
    seq![
        f_v(
            "image_src"@,
            "Image src"@,
            KindV::Url { default: ""@ },
            false,
        ),
        f_v(
            "image_alt"@,
            "Image alt"@,
            KindV::Text { default: ""@ },
            false,
        ),
        f_v("heading"@, "Heading"@, KindV::Text { default: ""@ }, false),
        f_v(
            "subheading"@,
            "Subheading"@,
            KindV::Text { default: ""@ },
            false,
        ),
        f_v(
            "background_color"@,
            "Background"@,
            KindV::Text { default: ""@ },
            false,
        ),
    ]
}

pub fn email_hero_form() -> (r: EditForm)
    ensures
        r.title@ == "email-hero"@,
        field_ids(r.fields@) == seq!["image_src"@, "image_alt"@, "heading"@, "subheading"@, "background_color"@],
        fields_view(r.fields@) == email_hero_fields(),
{
    let r = EditForm {
    title: "email-hero",
    fields: vec![
        f(
            "image_src",
            "Image src",
            FieldKind::Url { default: "" },
            false,
        ),
        f(
            "image_alt",
            "Image alt",
            FieldKind::Text { default: "" },
            false,
        ),
        f("heading", "Heading", FieldKind::Text { default: "" }, false),
        f(
            "subheading",
            "Subheading",
            FieldKind::Text { default: "" },
            false,
        ),
        f(
            "background_color",
            "Background",
            FieldKind::Text { default: "" },
            false,
        ),
    ],
    };
    assert(fields_view(r.fields@) =~= email_hero_fields());
    r
}

/// The fields of the email cta form.
pub open spec fn email_cta_fields() -> Seq<FieldView> {
    seq![
        f_v("heading"@, "Heading"@, KindV::Text { default: ""@ }, false),
        f_v(
            "copy"@,
            "Copy"@,
            KindV::Textarea {
                rows: 4,
                default: ""@,
            },
            false,
        ),
        f_v(
            "button_label"@,
            "Button label"@,
            KindV::Text { default: ""@ },
            false,
        ),
        f_v(
            "button_href"@,
            "Button href"@,
            KindV::Url { default: ""@ },
            false,
        ),
        f_v(
            "background_color"@,
            "Background"@,
            KindV::Text { default: ""@ },
            false,
        ),
    ]
}

pub fn email_cta_form() -> (r: EditForm)
    ensures
        r.title@ == "email-cta"@,
        field_ids(r.fields@) == seq!["heading"@, "copy"@, "button_label"@, "button_href"@, "background_color"@],
        fields_view(r.fields@) == email_cta_fields(),
{
    let r = EditForm {
    title: "email-cta",
    fields: vec![
        f("heading", "Heading", FieldKind::Text { default: "" }, false),
        f(
            "copy",
            "Copy",
            FieldKind::Textarea {
                rows: 4,
                default: "",
            },
            false,
        ),
        f(
            "button_label",
            "Button label",
            FieldKind::Text { default: "" },
            false,
        ),
        f(
            "button_href",
            "Button href",
            FieldKind::Url { default: "" },
            false,
        ),
        f(
            "background_color",
            "Background",
            FieldKind::Text { default: "" },
            false,
        ),
    ],
    };
    assert(fields_view(r.fields@) =~= email_cta_fields());
    r
}

/// The fields of the email article form.
pub open spec fn email_article_fields() -> Seq<FieldView> {
    seq![
        f_v(
            "image_src"@,
            "Image src"@,
            KindV::Url { default: ""@ },
            false,
        ),
        f_v(
            "image_alt"@,
            "Image alt"@,
            KindV::Text { default: ""@ },
            false,
        ),
        f_v("title"@, "Title"@, KindV::Text { default: ""@ }, false),
        f_v(
            "copy"@,
            "Copy"@,
            KindV::Textarea {
                rows: 4,
                default: ""@,
            },
            false,
        ),
        f_v(
            "link_label"@,
            "Link label"@,
            KindV::Text { default: ""@ },
            false,
        ),
        f_v(
            "link_href"@,
            "Link href"@,
            KindV::Url { default: ""@ },
            false,
        ),
        f_v(
            "image_position"@,
            "Image position"@,
            KindV::Enum {
                options: seq!["top"@, "left"@, "right"@],
                default: "top"@,
            },
            false,
        ),
    ]
}

pub fn email_article_form() -> (r: EditForm)
    ensures
        r.title@ == "email-article"@,
        field_ids(r.fields@) == seq!["image_src"@, "image_alt"@, "title"@, "copy"@, "link_label"@, "link_href"@, "image_position"@],
        fields_view(r.fields@) == email_article_fields(),
{
    let r = EditForm {
    title: "email-article",
    fields: vec![
        f(
            "image_src",
            "Image src",
            FieldKind::Url { default: "" },
            false,
        ),
        f(
            "image_alt",
            "Image alt",
            FieldKind::Text { default: "" },
            false,
        ),
        f("title", "Title", FieldKind::Text { default: "" }, false),
        f(
            "copy",
            "Copy",
            FieldKind::Textarea {
                rows: 4,
                default: "",
            },
            false,
        ),
        f(
            "link_label",
            "Link label",
            FieldKind::Text { default: "" },
            false,
        ),
        f(
            "link_href",
            "Link href",
            FieldKind::Url { default: "" },
            false,
        ),
        f(
            "image_position",
            "Image position",
            FieldKind::Enum {
                options: image_pos_options(),
                default: "top",
            },
            false,
        ),
    ],
    };
    assert(fields_view(r.fields@) =~= email_article_fields());
    r
}

/// The fields of the email footer form.
pub open spec fn email_footer_fields() -> Seq<FieldView> {
    seq![
        f_v(
            "company_name"@,
            "Company"@,
            KindV::Text { default: ""@ },
            false,
        ),
        f_v(
            "address_lines"@,
            "Address (one line per row)"@,
            KindV::Textarea {
                rows: 4,
                default: ""@,
            },
            true,
        ),
        f_v(
            "unsubscribe_label"@,
            "Unsubscribe label"@,
            KindV::Text { default: ""@ },
            false,
        ),
        f_v(
            "unsubscribe_href"@,
            "Unsubscribe href"@,
            KindV::Url { default: ""@ },
            false,
        ),
        f_v(
            "copyright"@,
            "Copyright"@,
            KindV::Text { default: ""@ },
            false,
        ),
        f_v(
            "social"@,
            "Social"@,
            KindV::SubForm {
                template: FormId::SocialItem,
                min_items: 0,
                summary_field_id: "name"@,
            },
            false,
        ),
    ]
}

pub fn email_footer_form() -> (r: EditForm)
    ensures
        r.title@ == "email-footer"@,
        field_ids(r.fields@) == seq!["company_name"@, "address_lines"@, "unsubscribe_label"@, "unsubscribe_href"@, "copyright"@, "social"@],
        fields_view(r.fields@) == email_footer_fields(),
{
    let r = EditForm {
    title: "email-footer",
    fields: vec![
        f(
            "company_name",
            "Company",
            FieldKind::Text { default: "" },
            false,
        ),
        f(
            "address_lines",
            "Address (one line per row)",
            FieldKind::Textarea {
                rows: 4,
                default: "",
            },
            true,
        ),
        f(
            "unsubscribe_label",
            "Unsubscribe label",
            FieldKind::Text { default: "" },
            false,
        ),
        f(
            "unsubscribe_href",
            "Unsubscribe href",
            FieldKind::Url { default: "" },
            false,
        ),
        f(
            "copyright",
            "Copyright",
            FieldKind::Text { default: "" },
            false,
        ),
        f(
            "social",
            "Social",
            FieldKind::SubForm {
                template: FormId::SocialItem,
                min_items: 0,
                summary_field_id: "name",
            },
            false,
        ),
    ],
    };
    assert(fields_view(r.fields@) =~= email_footer_fields());
    r
}

} // verus!
