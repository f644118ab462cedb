//! Insert-picker kinds and the legal-target table: which component may be
//! inserted at the selected row, and the picker's rows.
use vstd::prelude::*;

use crate::model::{
    Align, BodyNode, ColumnChild, EmailArticle, EmailCta, EmailFooter, EmailHeader, EmailHero,
    HeroMode, ImagePosition, MjAccordion, MjAccordionElement, MjButton, MjCarousel,
    MjCarouselImage, MjColumn, MjDivider, MjGroup, MjHero, MjImage, MjNavbar, MjNavbarLink,
    MjSection, MjSocial, MjSpacer, MjTable, MjText, MjWrapper, SectionChild, SocialMode,
    Template, Thumbnails,
};
use crate::text::{contains, contains_str, owned, to_lowercase, trim, trim_str, unicode_lowercase};
use crate::tui::tree::{IdView, Step, TreeId};

verus! {

/// Every component kind the picker offers.
#[derive(Clone, Copy, Debug, PartialEq, Eq, Structural)]
pub enum ComponentKind {
    EmailHeader,
    EmailHero,
    EmailCta,
    EmailArticle,
    EmailFooter,
    MjSection,
    MjWrapper,
    MjHero,
    MjGroup,
    MjColumn,
    MjText,
    MjButton,
    MjImage,
    MjDivider,
    MjSpacer,
    MjSocial,
    MjTable,
    MjNavbar,
    MjNavbarLink,
    MjAccordion,
    MjAccordionElement,
    MjCarousel,
    MjCarouselImage,
}

/// The picker's two groups.
#[derive(Clone, Copy, Debug, PartialEq, Eq, Structural)]
pub enum KindGroup {
    Block,
    Primitive,
}

/// What the selected row is, as far as inserting goes.
#[derive(Clone, Copy, Debug, PartialEq, Eq, Structural)]
pub enum SelectionClass {
    HeadBrand,
    Body,
    EmailBlock,
    Section { in_wrapper: bool },
    Wrapper,
    Hero,
    Group,
    Column,
    Leaf,
    Navbar,
    NavbarLink,
    Accordion,
    AccordionEl,
    Carousel,
    CarouselImg,
}

/// All kinds, in picker order.
pub open spec fn all_kinds() -> Seq<ComponentKind> {
    seq![
        ComponentKind::EmailHeader,
        ComponentKind::EmailHero,
        ComponentKind::EmailCta,
        ComponentKind::EmailArticle,
        ComponentKind::EmailFooter,
        ComponentKind::MjSection,
        ComponentKind::MjWrapper,
        ComponentKind::MjHero,
        ComponentKind::MjGroup,
        ComponentKind::MjColumn,
        ComponentKind::MjText,
        ComponentKind::MjButton,
        ComponentKind::MjImage,
        ComponentKind::MjDivider,
        ComponentKind::MjSpacer,
        ComponentKind::MjSocial,
        ComponentKind::MjTable,
        ComponentKind::MjNavbar,
        ComponentKind::MjNavbarLink,
        ComponentKind::MjAccordion,
        ComponentKind::MjAccordionElement,
        ComponentKind::MjCarousel,
        ComponentKind::MjCarouselImage,
    ]
}

/// The MJML tag name of a kind.
pub open spec fn kind_label(k: ComponentKind) -> Seq<char> {
    match k {
        ComponentKind::EmailHeader => "email-header"@,
        ComponentKind::EmailHero => "email-hero"@,
        ComponentKind::EmailCta => "email-cta"@,
        ComponentKind::EmailArticle => "email-article"@,
        ComponentKind::EmailFooter => "email-footer"@,
        ComponentKind::MjSection => "mj-section"@,
        ComponentKind::MjWrapper => "mj-wrapper"@,
        ComponentKind::MjHero => "mj-hero"@,
        ComponentKind::MjGroup => "mj-group"@,
        ComponentKind::MjColumn => "mj-column"@,
        ComponentKind::MjText => "mj-text"@,
        ComponentKind::MjButton => "mj-button"@,
        ComponentKind::MjImage => "mj-image"@,
        ComponentKind::MjDivider => "mj-divider"@,
        ComponentKind::MjSpacer => "mj-spacer"@,
        ComponentKind::MjSocial => "mj-social"@,
        ComponentKind::MjTable => "mj-table"@,
        ComponentKind::MjNavbar => "mj-navbar"@,
        ComponentKind::MjNavbarLink => "mj-navbar-link"@,
        ComponentKind::MjAccordion => "mj-accordion"@,
        ComponentKind::MjAccordionElement => "mj-accordion-element"@,
        ComponentKind::MjCarousel => "mj-carousel"@,
        ComponentKind::MjCarouselImage => "mj-carousel-image"@,
    }
}

/// The ready-made email blocks.
pub open spec fn block_kind(k: ComponentKind) -> bool {
    k == ComponentKind::EmailHeader || k == ComponentKind::EmailHero || k == ComponentKind::EmailCta
        || k == ComponentKind::EmailArticle || k == ComponentKind::EmailFooter
}

/// Kinds that stand directly in the body.
pub open spec fn layout_kind(k: ComponentKind) -> bool {
    k == ComponentKind::MjSection || k == ComponentKind::MjWrapper || k == ComponentKind::MjHero
}

/// Content components of a column.
pub open spec fn leaf_kind(k: ComponentKind) -> bool {
    k == ComponentKind::MjText || k == ComponentKind::MjButton || k == ComponentKind::MjImage || k
        == ComponentKind::MjDivider || k == ComponentKind::MjSpacer || k == ComponentKind::MjSocial
        || k == ComponentKind::MjTable || k == ComponentKind::MjNavbar || k
        == ComponentKind::MjAccordion || k == ComponentKind::MjCarousel
}

/// Items that live only inside a navbar, accordion or carousel.
pub open spec fn nested_kind(k: ComponentKind) -> bool {
    k == ComponentKind::MjNavbarLink || k == ComponentKind::MjAccordionElement || k
        == ComponentKind::MjCarouselImage
}

/// Whether kind `k` may be inserted at a selection of class `c`.
pub open spec fn legal(k: ComponentKind, c: SelectionClass) -> bool {
    match c {
        SelectionClass::HeadBrand => false,
        SelectionClass::Body | SelectionClass::EmailBlock => block_kind(k) || layout_kind(k) || leaf_kind(k),
        SelectionClass::Section { in_wrapper } => if nested_kind(k) {
            false
        } else if block_kind(k) || k == ComponentKind::MjWrapper {
            !in_wrapper
        } else {
            layout_kind(k) || k == ComponentKind::MjGroup || k == ComponentKind::MjColumn || leaf_kind(k)
        },
        SelectionClass::Wrapper => k == ComponentKind::MjSection || k == ComponentKind::MjHero,
        SelectionClass::Hero => leaf_kind(k),
        SelectionClass::Group => k == ComponentKind::MjColumn,
        SelectionClass::Column => k == ComponentKind::MjColumn || leaf_kind(k),
        SelectionClass::Leaf => leaf_kind(k),
        SelectionClass::Navbar | SelectionClass::NavbarLink => k == ComponentKind::MjNavbarLink,
        SelectionClass::Accordion | SelectionClass::AccordionEl => k == ComponentKind::MjAccordionElement,
        SelectionClass::Carousel | SelectionClass::CarouselImg => k == ComponentKind::MjCarouselImage,
    }
}

impl ComponentKind {
    /// All kinds, in picker order.
    pub fn all() -> (r: Vec<ComponentKind>)
        ensures
            r@ == all_kinds(),
    {
        let r = vec![
            ComponentKind::EmailHeader,
            ComponentKind::EmailHero,
            ComponentKind::EmailCta,
            ComponentKind::EmailArticle,
            ComponentKind::EmailFooter,
            ComponentKind::MjSection,
            ComponentKind::MjWrapper,
            ComponentKind::MjHero,
            ComponentKind::MjGroup,
            ComponentKind::MjColumn,
            ComponentKind::MjText,
            ComponentKind::MjButton,
            ComponentKind::MjImage,
            ComponentKind::MjDivider,
            ComponentKind::MjSpacer,
            ComponentKind::MjSocial,
            ComponentKind::MjTable,
            ComponentKind::MjNavbar,
            ComponentKind::MjNavbarLink,
            ComponentKind::MjAccordion,
            ComponentKind::MjAccordionElement,
            ComponentKind::MjCarousel,
            ComponentKind::MjCarouselImage,
        ];
        assert(r@ =~= all_kinds());
        r
    }

    /// The MJML tag name.
    pub fn label(self) -> (r: &'static str)
        ensures
            r@ == kind_label(self),
    {
        match self {
            ComponentKind::EmailHeader => "email-header",
            ComponentKind::EmailHero => "email-hero",
            ComponentKind::EmailCta => "email-cta",
            ComponentKind::EmailArticle => "email-article",
            ComponentKind::EmailFooter => "email-footer",
            ComponentKind::MjSection => "mj-section",
            ComponentKind::MjWrapper => "mj-wrapper",
            ComponentKind::MjHero => "mj-hero",
            ComponentKind::MjGroup => "mj-group",
            ComponentKind::MjColumn => "mj-column",
            ComponentKind::MjText => "mj-text",
            ComponentKind::MjButton => "mj-button",
            ComponentKind::MjImage => "mj-image",
            ComponentKind::MjDivider => "mj-divider",
            ComponentKind::MjSpacer => "mj-spacer",
            ComponentKind::MjSocial => "mj-social",
            ComponentKind::MjTable => "mj-table",
            ComponentKind::MjNavbar => "mj-navbar",
            ComponentKind::MjNavbarLink => "mj-navbar-link",
            ComponentKind::MjAccordion => "mj-accordion",
            ComponentKind::MjAccordionElement => "mj-accordion-element",
            ComponentKind::MjCarousel => "mj-carousel",
            ComponentKind::MjCarouselImage => "mj-carousel-image",
        }
    }

    /// Blocks are the ready-made email blocks; everything else is a primitive.
    pub fn group(self) -> (r: KindGroup)
        ensures
            r == (if block_kind(self) {
                KindGroup::Block
            } else {
                KindGroup::Primitive
            }),
    {
        match self {
            ComponentKind::EmailHeader | ComponentKind::EmailHero | ComponentKind::EmailCta
            | ComponentKind::EmailArticle | ComponentKind::EmailFooter => KindGroup::Block,
            _ => KindGroup::Primitive,
        }
    }

    pub fn is_block(self) -> (r: bool)
        ensures
            r == block_kind(self),
    {
        match self.group() {
            KindGroup::Block => true,
            KindGroup::Primitive => false,
        }
    }

    pub fn is_layout(self) -> (r: bool)
        ensures
            r == layout_kind(self),
    {
        match self {
            ComponentKind::MjSection | ComponentKind::MjWrapper | ComponentKind::MjHero => true,
            _ => false,
        }
    }

    pub fn is_leaf(self) -> (r: bool)
        ensures
            r == leaf_kind(self),
    {
        match self {
            ComponentKind::MjText | ComponentKind::MjButton | ComponentKind::MjImage
            | ComponentKind::MjDivider | ComponentKind::MjSpacer | ComponentKind::MjSocial
            | ComponentKind::MjTable | ComponentKind::MjNavbar | ComponentKind::MjAccordion
            | ComponentKind::MjCarousel => true,
            _ => false,
        }
    }

    pub fn is_nested(self) -> (r: bool)
        ensures
            r == nested_kind(self),
    {
        match self {
            ComponentKind::MjNavbarLink | ComponentKind::MjAccordionElement
            | ComponentKind::MjCarouselImage => true,
            _ => false,
        }
    }

    /// Whether this kind may be inserted at a selection of `class`.
    pub fn legal_for(self, class: SelectionClass) -> (r: bool)
        ensures
            r == legal(self, class),
    {
        match class {
            SelectionClass::HeadBrand => false,
            SelectionClass::Body | SelectionClass::EmailBlock => self.is_block() || self.is_layout()
                || self.is_leaf(),
            SelectionClass::Section { in_wrapper } => {
                if self.is_nested() {
                    false
                } else if self.is_block() || self == ComponentKind::MjWrapper {
                    !in_wrapper
                } else {
                    self.is_layout() || self == ComponentKind::MjGroup || self == ComponentKind::MjColumn
                        || self.is_leaf()
                }
            },
            SelectionClass::Wrapper => self == ComponentKind::MjSection || self == ComponentKind::MjHero,
            SelectionClass::Hero => self.is_leaf(),
            SelectionClass::Group => self == ComponentKind::MjColumn,
            SelectionClass::Column => self == ComponentKind::MjColumn || self.is_leaf(),
            SelectionClass::Leaf => self.is_leaf(),
            SelectionClass::Navbar | SelectionClass::NavbarLink => self == ComponentKind::MjNavbarLink,
            SelectionClass::Accordion | SelectionClass::AccordionEl => self
                == ComponentKind::MjAccordionElement,
            SelectionClass::Carousel | SelectionClass::CarouselImg => self
                == ComponentKind::MjCarouselImage,
        }
    }
}


// ---------------------------------------------------------------------------
// What a freshly inserted component holds
// ---------------------------------------------------------------------------

pub open spec fn empty_text(s: String) -> bool {
    s@ == Seq::<char>::empty()
}

pub open spec fn is_blank_section(s: MjSection) -> bool {
    &&& s.label is None && s.background_color is None && s.padding is None
    &&& s.border is None && s.border_sides is None && s.border_radius is None
    &&& s.gutter is None && s.background_url is None && s.background_size is None
    &&& s.background_repeat is None && s.direction is None && !s.full_width
    &&& s.css_class is None
}

pub open spec fn is_blank_column(c: MjColumn) -> bool {
    &&& c.width is None && c.background_color is None && c.padding is None
    &&& c.inner_background_color is None && c.border is None && c.border_sides is None
    &&& c.border_radius is None && c.inner_border is None && c.inner_border_sides is None
    &&& c.inner_border_radius is None && c.vertical_align is None && c.css_class is None
}

pub open spec fn is_blank_wrapper(w: MjWrapper) -> bool {
    &&& w.label is None && w.background_color is None && w.padding is None
    &&& w.border is None && w.border_sides is None && w.border_radius is None
    &&& w.background_url is None && w.background_size is None && w.background_repeat is None
    &&& w.gap is None && !w.full_width && w.css_class is None
    &&& w.children@.len() == 0
}

pub open spec fn is_blank_hero(h: MjHero) -> bool {
    &&& h.mode == HeroMode::FluidHeight && h.background_url is None && h.background_color is None
    &&& h.background_height is None && h.background_width is None && h.background_position is None
    &&& h.width is None && h.height is None && h.padding is None && h.inner_padding is None
    &&& h.border_radius is None && h.vertical_align is None && h.css_class is None
    &&& h.children@.len() == 0
}

pub open spec fn is_blank_navbar(n: MjNavbar) -> bool {
    &&& !n.hamburger && n.ico_color is None && n.base_url is None && n.align is None
    &&& n.padding is None && n.ico_align is None && n.ico_font_size is None
    &&& n.ico_padding is None && n.ico_open is None && n.ico_close is None
    &&& n.css_class is None && n.links@.len() == 0
}

pub open spec fn is_blank_accordion(a: MjAccordion) -> bool {
    &&& a.border is None && a.padding is None && a.font_family is None
    &&& a.icon_position is None && a.icon_width is None && a.icon_height is None
    &&& a.icon_wrapped_url is None && a.icon_unwrapped_url is None && a.css_class is None
    &&& a.elements@.len() == 0
}

pub open spec fn is_blank_carousel(c: MjCarousel) -> bool {
    &&& c.align is None && c.padding is None && c.border_radius is None
    &&& c.tb_border_radius is None && c.icon_width is None && c.css_class is None
    &&& c.thumbnails == Thumbnails::Hidden && c.images@.len() == 0
}

pub open spec fn is_fresh_link(l: MjNavbarLink) -> bool {
    &&& l.href@ == "https://example.com"@ && l.content@ == "Link"@
    &&& l.color is None && l.font_family is None && l.font_size is None && l.font_weight is None
    &&& l.text_decoration is None && l.text_transform is None && l.padding is None
    &&& l.css_class is None
}

pub open spec fn is_fresh_accordion_element(e: MjAccordionElement) -> bool {
    &&& e.title@ == "Title"@ && e.content@ == "Write something."@
    &&& e.background_color is None && e.css_class is None
}

pub open spec fn placeholder_image() -> Seq<char> {
    "https://dummyimage.com/600x200/cccccc/000000"@
}

pub open spec fn is_fresh_carousel_image(i: MjCarouselImage) -> bool {
    &&& i.src@ == placeholder_image() && i.alt@ == "Image"@
    &&& i.href is None && i.thumbnails_src is None && i.border_radius is None && i.css_class is None
}

/// What inserting a block or layout kind puts in the body.
pub open spec fn fresh_body_node(k: ComponentKind, n: BodyNode) -> bool {
    match k {
        ComponentKind::EmailHeader => n matches BodyNode::EmailHeader(h) && empty_text(h.logo_src)
            && empty_text(h.logo_alt) && h.logo_href is None && h.logo_width@ == "160px"@
            && h.background_color is None,
        ComponentKind::EmailHero => n matches BodyNode::EmailHero(h) && empty_text(h.image_src)
            && empty_text(h.image_alt) && h.heading@ == "Heading"@ && empty_text(h.subheading)
            && h.background_color is None,
        ComponentKind::EmailCta => n matches BodyNode::EmailCta(c) && c.heading@ == "Heading"@
            && empty_text(c.copy) && c.button_label@ == "Read more"@ && c.button_href@
            == "https://example.com"@ && c.background_color is None,
        ComponentKind::EmailArticle => n matches BodyNode::EmailArticle(a) && empty_text(a.image_src)
            && empty_text(a.image_alt) && a.title@ == "Title"@ && empty_text(a.copy) && empty_text(
            a.link_label,
        ) && empty_text(a.link_href) && a.image_position == ImagePosition::Top,
        ComponentKind::EmailFooter => n matches BodyNode::EmailFooter(f) && empty_text(f.company_name)
            && f.address_lines@.len() == 1 && f.address_lines@[0]@ == "123 Main St"@
            && f.unsubscribe_label@ == "Unsubscribe"@ && f.unsubscribe_href@ == "*|UNSUB|*"@
            && f.social@.len() == 0 && f.copyright is None,
        ComponentKind::MjSection => n matches BodyNode::MjSection(s) && is_blank_section(s)
            && s.children@.len() == 0,
        ComponentKind::MjWrapper => n matches BodyNode::MjWrapper(w) && is_blank_wrapper(w),
        ComponentKind::MjHero => n matches BodyNode::MjHero(h) && is_blank_hero(h),
        _ => false,
    }
}

/// What inserting a content kind puts in a column.
pub open spec fn fresh_leaf(k: ComponentKind, c: ColumnChild) -> bool {
    match k {
        ComponentKind::MjText => c matches ColumnChild::MjText(t) && t.content@ == "Write something."@
            && t.align is None && t.font_size is None && t.font_family is None && t.font_weight is None
            && t.font_style is None && t.line_height is None && t.color is None && t.padding is None
            && t.letter_spacing is None && t.text_decoration is None && t.text_transform is None
            && t.height is None && t.css_class is None,
        ComponentKind::MjButton => c matches ColumnChild::MjButton(b) && b.content@ == "Read more"@
            && b.href@ == "https://example.com"@ && b.align == Some(Align::Center)
            && b.background_color is None && b.color is None && b.font_family is None
            && b.font_size is None && b.font_weight is None && b.font_style is None && b.border is None
            && b.border_sides is None && b.border_radius is None && b.inner_padding is None
            && b.width is None && b.height is None && b.target is None && b.padding is None
            && b.letter_spacing is None && b.line_height is None && b.text_decoration is None
            && b.text_transform is None && b.rel is None && b.title is None && b.css_class is None,
        ComponentKind::MjImage => c matches ColumnChild::MjImage(i) && i.src@ == placeholder_image()
            && i.alt@ == "Image"@ && i.fluid_on_mobile && i.href is None && i.width is None
            && i.height is None && i.align is None && i.border is None && i.border_sides is None
            && i.border_radius is None && i.title is None && i.padding is None && i.target is None
            && i.rel is None && i.css_class is None,
        ComponentKind::MjDivider => c matches ColumnChild::MjDivider(d) && d.border_color is None
            && d.border_width is None && d.border_style is None && d.width is None && d.align is None
            && d.padding is None && d.css_class is None,
        ComponentKind::MjSpacer => c matches ColumnChild::MjSpacer(sp) && sp.height@ == "24px"@
            && sp.padding is None && sp.css_class is None,
        ComponentKind::MjSocial => c matches ColumnChild::MjSocial(so) && so.mode == SocialMode::Horizontal
            && so.icon_size@ == "32px"@ && so.elements@.len() == 0 && so.align is None
            && so.border_radius is None && so.padding is None && so.icon_padding is None
            && so.inner_padding is None && so.font_size is None && so.color is None
            && so.css_class is None,
        ComponentKind::MjTable => c matches ColumnChild::MjTable(t) && t.content@ == "<tr><td></td></tr>"@
            && t.font_size is None && t.font_family is None && t.line_height is None && t.color is None
            && t.align is None && t.width is None && t.border is None && t.padding is None
            && t.cellpadding is None && t.cellspacing is None && t.role is None && t.css_class is None,
        ComponentKind::MjNavbar => c matches ColumnChild::MjNavbar(n) && is_blank_navbar(n),
        ComponentKind::MjAccordion => c matches ColumnChild::MjAccordion(a) && is_blank_accordion(a),
        ComponentKind::MjCarousel => c matches ColumnChild::MjCarousel(car) && is_blank_carousel(car),
        _ => false,
    }
}

/// A column with nothing set.
pub fn empty_column() -> (r: MjColumn)
    ensures
        is_blank_column(r),
        r.components@.len() == 0,
{
    MjColumn {
        width: None,
        background_color: None,
        padding: None,
        inner_background_color: None,
        border: None,
        border_sides: None,
        border_radius: None,
        inner_border: None,
        inner_border_sides: None,
        inner_border_radius: None,
        vertical_align: None,
        css_class: None,
        components: Vec::new(),
    }
}

/// A section with nothing set and no children.
pub fn empty_section() -> (r: MjSection)
    ensures
        is_blank_section(r),
        r.children@.len() == 0,
{
    MjSection {
        label: None,
        background_color: None,
        padding: None,
        border: None,
        border_sides: None,
        border_radius: None,
        gutter: None,
        background_url: None,
        background_size: None,
        background_repeat: None,
        direction: None,
        full_width: false,
        css_class: None,
        children: Vec::new(),
    }
}

/// A fluid-height hero with nothing set and no children.
pub fn empty_hero() -> (r: MjHero)
    ensures
        is_blank_hero(r),
{
    MjHero {
        mode: HeroMode::FluidHeight,
        background_url: None,
        background_color: None,
        background_height: None,
        background_width: None,
        background_position: None,
        width: None,
        height: None,
        padding: None,
        inner_padding: None,
        border_radius: None,
        vertical_align: None,
        css_class: None,
        children: Vec::new(),
    }
}

/// A navbar without links.
pub fn empty_navbar() -> (r: MjNavbar)
    ensures
        is_blank_navbar(r),
{
    MjNavbar {
        hamburger: false,
        ico_color: None,
        base_url: None,
        align: None,
        padding: None,
        ico_align: None,
        ico_font_size: None,
        ico_padding: None,
        ico_open: None,
        ico_close: None,
        css_class: None,
        links: Vec::new(),
    }
}

/// A placeholder navbar link.
pub fn empty_navbar_link() -> (r: MjNavbarLink)
    ensures
        is_fresh_link(r),
{
    MjNavbarLink {
        href: owned("https://example.com"),
        content: owned("Link"),
        color: None,
        font_family: None,
        font_size: None,
        font_weight: None,
        text_decoration: None,
        text_transform: None,
        padding: None,
        css_class: None,
    }
}

/// An accordion without elements.
pub fn empty_accordion() -> (r: MjAccordion)
    ensures
        is_blank_accordion(r),
{
    MjAccordion {
        border: None,
        padding: None,
        font_family: None,
        icon_position: None,
        icon_width: None,
        icon_height: None,
        icon_wrapped_url: None,
        icon_unwrapped_url: None,
        css_class: None,
        elements: Vec::new(),
    }
}

/// A placeholder accordion element.
pub fn empty_accordion_element() -> (r: MjAccordionElement)
    ensures
        is_fresh_accordion_element(r),
{
    MjAccordionElement {
        title: owned("Title"),
        content: owned("Write something."),
        background_color: None,
        css_class: None,
    }
}

/// A carousel without images (thumbnails hidden).
pub fn empty_carousel() -> (r: MjCarousel)
    ensures
        is_blank_carousel(r),
{
    MjCarousel {
        align: None,
        padding: None,
        border_radius: None,
        tb_border_radius: None,
        icon_width: None,
        css_class: None,
        thumbnails: Thumbnails::Hidden,
        images: Vec::new(),
    }
}

/// A placeholder carousel image.
pub fn empty_carousel_image() -> (r: MjCarouselImage)
    ensures
        is_fresh_carousel_image(r),
{
    MjCarouselImage {
        src: owned("https://dummyimage.com/600x200/cccccc/000000"),
        alt: owned("Image"),
        href: None,
        thumbnails_src: None,
        border_radius: None,
        css_class: None,
    }
}

/// A group holding one empty column.
pub fn empty_group() -> (r: MjGroup)
    ensures
        r.width is None && r.background_color is None && r.direction is None,
        r.vertical_align is None && r.css_class is None,
        r.children@.len() == 1 && is_blank_column(r.children@[0]) && r.children@[0].components@.len() == 0,
{
    let mut children: Vec<MjColumn> = Vec::new();
    children.push(empty_column());
    MjGroup { width: None, background_color: None, direction: None, vertical_align: None, css_class: None, children }
}

/// A full-width single-column section holding `leaf`.
pub fn wrap_leaf_in_section(leaf: ColumnChild) -> (r: BodyNode)
    ensures
        r matches BodyNode::MjSection(s) && is_blank_section(s) && s.children@.len() == 1 && (s.children@[0] matches SectionChild::MjColumn(c)
            && c.width matches Some(w) && w@ == "100%"@ && c.components@ == seq![leaf]
            && c.background_color is None && c.padding is None && c.inner_background_color is None
            && c.border is None && c.border_sides is None && c.border_radius is None
            && c.inner_border is None && c.inner_border_sides is None && c.inner_border_radius is None
            && c.vertical_align is None && c.css_class is None),
{
    let mut col = empty_column();
    col.width = Some(owned("100%"));
    col.components.push(leaf);
    assert(col.components@ =~= seq![leaf]);
    let mut s = empty_section();
    s.children.push(SectionChild::MjColumn(col));
    BodyNode::MjSection(s)
}

impl ComponentKind {
    /// The body node a block or layout kind inserts; `None` for other kinds.
    pub fn as_body_node(self) -> (r: Option<BodyNode>)
        ensures
            r is Some == (block_kind(self) || layout_kind(self)),
            r matches Some(n) ==> fresh_body_node(self, n),
    {
        match self {
            ComponentKind::EmailHeader => Some(
                BodyNode::EmailHeader(
                    EmailHeader {
                        logo_src: String::new(),
                        logo_alt: String::new(),
                        logo_href: None,
                        logo_width: owned("160px"),
                        background_color: None,
                    },
                ),
            ),
            ComponentKind::EmailHero => Some(
                BodyNode::EmailHero(
                    EmailHero {
                        image_src: String::new(),
                        image_alt: String::new(),
                        heading: owned("Heading"),
                        subheading: String::new(),
                        background_color: None,
                    },
                ),
            ),
            ComponentKind::EmailCta => Some(
                BodyNode::EmailCta(
                    EmailCta {
                        heading: owned("Heading"),
                        copy: String::new(),
                        button_label: owned("Read more"),
                        button_href: owned("https://example.com"),
                        background_color: None,
                    },
                ),
            ),
            ComponentKind::EmailArticle => Some(
                BodyNode::EmailArticle(
                    EmailArticle {
                        image_src: String::new(),
                        image_alt: String::new(),
                        title: owned("Title"),
                        copy: String::new(),
                        link_label: String::new(),
                        link_href: String::new(),
                        image_position: ImagePosition::Top,
                    },
                ),
            ),
            ComponentKind::EmailFooter => {
                let lines = vec![owned("123 Main St")];
                Some(
                    BodyNode::EmailFooter(
                        EmailFooter {
                            company_name: String::new(),
                            address_lines: lines,
                            unsubscribe_label: owned("Unsubscribe"),
                            unsubscribe_href: owned("*|UNSUB|*"),
                            social: Vec::new(),
                            copyright: None,
                        },
                    ),
                )
            },
            ComponentKind::MjSection => Some(BodyNode::MjSection(empty_section())),
            ComponentKind::MjWrapper => Some(
                BodyNode::MjWrapper(
                    MjWrapper {
                        label: None,
                        background_color: None,
                        padding: None,
                        border: None,
                        border_sides: None,
                        border_radius: None,
                        background_url: None,
                        background_size: None,
                        background_repeat: None,
                        gap: None,
                        full_width: false,
                        css_class: None,
                        children: Vec::new(),
                    },
                ),
            ),
            ComponentKind::MjHero => Some(BodyNode::MjHero(empty_hero())),
            _ => None,
        }
    }

    /// The content component a leaf kind inserts; `None` for other kinds.
    pub fn as_leaf(self) -> (r: Option<ColumnChild>)
        ensures
            r is Some == leaf_kind(self),
            r matches Some(c) ==> fresh_leaf(self, c),
    {
        match self {
            ComponentKind::MjText => Some(
                ColumnChild::MjText(
                    MjText {
                        content: owned("Write something."),
                        align: None,
                        font_size: None,
                        font_family: None,
                        font_weight: None,
                        font_style: None,
                        line_height: None,
                        color: None,
                        padding: None,
                        letter_spacing: None,
                        text_decoration: None,
                        text_transform: None,
                        height: None,
                        css_class: None,
                    },
                ),
            ),
            ComponentKind::MjButton => Some(
                ColumnChild::MjButton(
                    MjButton {
                        content: owned("Read more"),
                        href: owned("https://example.com"),
                        background_color: None,
                        color: None,
                        align: Some(Align::Center),
                        font_family: None,
                        font_size: None,
                        font_weight: None,
                        font_style: None,
                        border: None,
                        border_sides: None,
                        border_radius: None,
                        inner_padding: None,
                        width: None,
                        height: None,
                        target: None,
                        padding: None,
                        letter_spacing: None,
                        line_height: None,
                        text_decoration: None,
                        text_transform: None,
                        rel: None,
                        title: None,
                        css_class: None,
                    },
                ),
            ),
            ComponentKind::MjImage => Some(
                ColumnChild::MjImage(
                    MjImage {
                        src: owned("https://dummyimage.com/600x200/cccccc/000000"),
                        alt: owned("Image"),
                        href: None,
                        width: None,
                        height: None,
                        align: None,
                        fluid_on_mobile: true,
                        border: None,
                        border_sides: None,
                        border_radius: None,
                        title: None,
                        padding: None,
                        target: None,
                        rel: None,
                        css_class: None,
                    },
                ),
            ),
            ComponentKind::MjDivider => Some(
                ColumnChild::MjDivider(
                    MjDivider {
                        border_color: None,
                        border_width: None,
                        border_style: None,
                        width: None,
                        align: None,
                        padding: None,
                        css_class: None,
                    },
                ),
            ),
            ComponentKind::MjSpacer => Some(
                ColumnChild::MjSpacer(MjSpacer { height: owned("24px"), padding: None, css_class: None }),
            ),
            ComponentKind::MjSocial => Some(
                ColumnChild::MjSocial(
                    MjSocial {
                        mode: SocialMode::Horizontal,
                        align: None,
                        icon_size: owned("32px"),
                        border_radius: None,
                        padding: None,
                        icon_padding: None,
                        inner_padding: None,
                        font_size: None,
                        color: None,
                        css_class: None,
                        elements: Vec::new(),
                    },
                ),
            ),
            ComponentKind::MjTable => Some(
                ColumnChild::MjTable(
                    MjTable {
                        content: owned("<tr><td></td></tr>"),
                        font_size: None,
                        font_family: None,
                        line_height: None,
                        color: None,
                        align: None,
                        width: None,
                        border: None,
                        padding: None,
                        cellpadding: None,
                        cellspacing: None,
                        role: None,
                        css_class: None,
                    },
                ),
            ),
            ComponentKind::MjNavbar => Some(ColumnChild::MjNavbar(empty_navbar())),
            ComponentKind::MjAccordion => Some(ColumnChild::MjAccordion(empty_accordion())),
            ComponentKind::MjCarousel => Some(ColumnChild::MjCarousel(empty_carousel())),
            _ => None,
        }
    }

    /// A placeholder link for the navbar-link kind; `None` otherwise.
    pub fn as_navbar_link(self) -> (r: Option<MjNavbarLink>)
        ensures
            r is Some == (self == ComponentKind::MjNavbarLink),
            r matches Some(l) ==> is_fresh_link(l),
    {
        if self == ComponentKind::MjNavbarLink {
            Some(empty_navbar_link())
        } else {
            None
        }
    }

    /// A placeholder element for the accordion-element kind; `None` otherwise.
    pub fn as_accordion_element(self) -> (r: Option<MjAccordionElement>)
        ensures
            r is Some == (self == ComponentKind::MjAccordionElement),
            r matches Some(e) ==> is_fresh_accordion_element(e),
    {
        if self == ComponentKind::MjAccordionElement {
            Some(empty_accordion_element())
        } else {
            None
        }
    }

    /// A placeholder image for the carousel-image kind; `None` otherwise.
    pub fn as_carousel_image(self) -> (r: Option<MjCarouselImage>)
        ensures
            r is Some == (self == ComponentKind::MjCarouselImage),
            r matches Some(i) ==> is_fresh_carousel_image(i),
    {
        if self == ComponentKind::MjCarouselImage {
            Some(empty_carousel_image())
        } else {
            None
        }
    }
}


// ---------------------------------------------------------------------------
// What the selected row is
// ---------------------------------------------------------------------------

pub open spec fn seq_get<A>(s: Seq<A>, i: usize) -> Option<A> {
    if i < s.len() {
        Some(s[i as int])
    } else {
        None
    }
}

/// The body node reached by the body-node and wrapper-child steps of
/// `path` from position `k` on (the walk stops at any other step).
pub open spec fn body_node_walk(t: Template, path: Seq<Step>, k: int, node: Option<BodyNode>) -> Option<BodyNode>
    decreases path.len() - k,
{
    if k < 0 || k >= path.len() {
        node
    } else {
        match path[k] {
            Step::BodyNode(i) => body_node_walk(t, path, k + 1, seq_get(t.body.nodes@, i)),
            Step::WrapperChild(i) => match node {
                Some(BodyNode::MjWrapper(w)) => body_node_walk(t, path, k + 1, seq_get(w.children@, i)),
                _ => None,
            },
            _ => node,
        }
    }
}

pub open spec fn body_node_of(t: Option<Template>, path: Seq<Step>) -> Option<BodyNode> {
    match t {
        Some(t) => body_node_walk(t, path, 0, None),
        None => None,
    }
}

/// The component at `path[k]` when it is a column-component step.
pub open spec fn col_comp(c: MjColumn, path: Seq<Step>, k: int) -> Option<ColumnChild> {
    if 0 <= k < path.len() {
        match path[k] {
            Step::ColComp(i) => seq_get(c.components@, i),
            _ => None,
        }
    } else {
        None
    }
}

/// The content component `path` leads to from `node`, reading from `k` on.
pub open spec fn child_walk(path: Seq<Step>, k: int, node: BodyNode) -> Option<ColumnChild>
    decreases path.len() - k,
{
    if k < 0 || k >= path.len() {
        None
    } else {
        match path[k] {
            Step::WrapperChild(j) => match node {
                BodyNode::MjWrapper(w) => match seq_get(w.children@, j) {
                    Some(n2) => child_walk(path, k + 1, n2),
                    None => None,
                },
                _ => None,
            },
            Step::SectionChild(j) => match node {
                BodyNode::MjSection(s) => match seq_get(s.children@, j) {
                    Some(SectionChild::MjColumn(c)) => col_comp(c, path, k + 1),
                    Some(SectionChild::MjGroup(g)) => if k + 1 < path.len() {
                        match path[k + 1] {
                            Step::GroupCol(m) => match seq_get(g.children@, m) {
                                Some(c) => col_comp(c, path, k + 2),
                                None => None,
                            },
                            _ => None,
                        }
                    } else {
                        None
                    },
                    None => None,
                },
                _ => None,
            },
            Step::HeroChild(j) => match node {
                BodyNode::MjHero(h) => seq_get(h.children@, j),
                _ => None,
            },
            _ => None,
        }
    }
}

/// The content component a path leads to.
pub open spec fn child_of(t: Option<Template>, path: Seq<Step>) -> Option<ColumnChild> {
    match t {
        Some(t) => if path.len() > 0 {
            match path[0] {
                Step::BodyNode(i) => match seq_get(t.body.nodes@, i) {
                    Some(n) => child_walk(path, 1, n),
                    None => None,
                },
                _ => None,
            }
        } else {
            None
        },
        None => None,
    }
}

/// The section child a path ending in a section-child step names.
pub open spec fn section_child_of(t: Template, path: Seq<Step>) -> Option<SectionChild> {
    if path.len() == 0 {
        None
    } else {
        match path.last() {
            Step::SectionChild(i) => match body_node_walk(t, path.drop_last(), 0, None) {
                Some(BodyNode::MjSection(s)) => seq_get(s.children@, i),
                _ => None,
            },
            _ => None,
        }
    }
}

pub open spec fn has_wrapper_step(path: Seq<Step>) -> bool {
    exists|k: int| 0 <= k < path.len() && (#[trigger] path[k]) is WrapperChild
}

/// What a selection path names, as far as inserting goes.
pub open spec fn path_class(t: Option<Template>, path: Seq<Step>) -> SelectionClass {
    if path.len() == 0 {
        SelectionClass::Body
    } else {
        match path.last() {
            Step::NavbarLink(_) => SelectionClass::NavbarLink,
            Step::AccordionEl(_) => SelectionClass::AccordionEl,
            Step::CarouselImg(_) => SelectionClass::CarouselImg,
            Step::ColComp(_) | Step::HeroChild(_) => match child_of(t, path) {
                Some(ColumnChild::MjNavbar(_)) => SelectionClass::Navbar,
                Some(ColumnChild::MjAccordion(_)) => SelectionClass::Accordion,
                Some(ColumnChild::MjCarousel(_)) => SelectionClass::Carousel,
                _ => SelectionClass::Leaf,
            },
            Step::GroupCol(_) => SelectionClass::Column,
            Step::SectionChild(_) => match t {
                None => SelectionClass::Column,
                Some(t) => match section_child_of(t, path) {
                    Some(SectionChild::MjGroup(_)) => SelectionClass::Group,
                    _ => SelectionClass::Column,
                },
            },
            Step::BodyNode(_) | Step::WrapperChild(_) => match body_node_of(t, path) {
                Some(BodyNode::MjSection(_)) => SelectionClass::Section { in_wrapper: has_wrapper_step(path) },
                Some(BodyNode::MjWrapper(_)) => SelectionClass::Wrapper,
                Some(BodyNode::MjHero(_)) => SelectionClass::Hero,
                Some(_) => SelectionClass::EmailBlock,
                None => SelectionClass::Body,
            },
        }
    }
}

/// What a tree row names, as far as inserting goes.
pub open spec fn class_of(t: Option<Template>, id: IdView) -> SelectionClass {
    match id {
        IdView::Head | IdView::Brand => SelectionClass::HeadBrand,
        IdView::Body => SelectionClass::Body,
        IdView::Path(p) => path_class(t, p),
    }
}

pub open spec fn deref_node(n: Option<&BodyNode>) -> Option<BodyNode> {
    match n {
        Some(x) => Some(*x),
        None => None,
    }
}

pub open spec fn deref_child(n: Option<&ColumnChild>) -> Option<ColumnChild> {
    match n {
        Some(x) => Some(*x),
        None => None,
    }
}

pub open spec fn deref_template(t: Option<&Template>) -> Option<Template> {
    match t {
        Some(x) => Some(*x),
        None => None,
    }
}

fn body_node_at<'a>(template: Option<&'a Template>, path: &Vec<Step>) -> (r: Option<&'a BodyNode>)
    ensures
        deref_node(r) == body_node_of(deref_template(template), path@),
{
    let t = match template {
        Some(t) => t,
        None => {
            return None;
        },
    };
    let mut node: Option<&BodyNode> = None;
    let mut k: usize = 0;
    while k < path.len()
        invariant
            k <= path.len(),
            deref_template(template) == Some(*t),
            body_node_walk(*t, path@, 0, None) == body_node_walk(*t, path@, k as int, deref_node(node)),
        decreases path.len() - k,
    {
        match path[k] {
            Step::BodyNode(i) => {
                node = if i < t.body.nodes.len() {
                    Some(&t.body.nodes[i])
                } else {
                    None
                };
            },
            Step::WrapperChild(i) => {
                match node {
                    Some(BodyNode::MjWrapper(w)) => {
                        node = if i < w.children.len() {
                            Some(&w.children[i])
                        } else {
                            None
                        };
                    },
                    _ => {
                        return None;
                    },
                }
            },
            _ => {
                return node;
            },
        }
        k += 1;
    }
    node
}

fn take_col_comp<'a>(c: &'a MjColumn, path: &Vec<Step>, k: usize) -> (r: Option<&'a ColumnChild>)
    ensures
        deref_child(r) == col_comp(*c, path@, k as int),
{
    if k < path.len() {
        match path[k] {
            Step::ColComp(i) => if i < c.components.len() {
                Some(&c.components[i])
            } else {
                None
            },
            _ => None,
        }
    } else {
        None
    }
}

fn column_child_at<'a>(template: Option<&'a Template>, path: &Vec<Step>) -> (r: Option<&'a ColumnChild>)
    ensures
        deref_child(r) == child_of(deref_template(template), path@),
{
    let t = match template {
        Some(t) => t,
        None => {
            return None;
        },
    };
    if path.len() == 0 {
        return None;
    }
    let mut node: &BodyNode = match path[0] {
        Step::BodyNode(i) => if i < t.body.nodes.len() {
            &t.body.nodes[i]
        } else {
            return None;
        },
        _ => {
            return None;
        },
    };
    let mut k: usize = 1;
    while k < path.len()
        invariant
            1 <= k <= path.len(),
            path@.len() > 0,
            deref_template(template) == Some(*t),
            child_of(Some(*t), path@) == child_walk(path@, k as int, *node),
        decreases path.len() - k,
    {
        match path[k] {
            Step::WrapperChild(j) => {
                match node {
                    BodyNode::MjWrapper(w) => {
                        if j < w.children.len() {
                            node = &w.children[j];
                        } else {
                            return None;
                        }
                    },
                    _ => {
                        return None;
                    },
                }
            },
            Step::SectionChild(j) => {
                return match node {
                    BodyNode::MjSection(s) => {
                        if j >= s.children.len() {
                            None
                        } else {
                            match &s.children[j] {
                                SectionChild::MjColumn(c) => take_col_comp(c, path, k + 1),
                                SectionChild::MjGroup(g) => {
                                    if k + 1 < path.len() {
                                        match path[k + 1] {
                                            Step::GroupCol(m) => {
                                                if m < g.children.len() {
                                                    take_col_comp(&g.children[m], path, k + 2)
                                                } else {
                                                    None
                                                }
                                            },
                                            _ => None,
                                        }
                                    } else {
                                        None
                                    }
                                },
                            }
                        }
                    },
                    _ => None,
                };
            },
            Step::HeroChild(j) => {
                return match node {
                    BodyNode::MjHero(h) => if j < h.children.len() {
                        Some(&h.children[j])
                    } else {
                        None
                    },
                    _ => None,
                };
            },
            _ => {
                return None;
            },
        }
        k += 1;
    }
    None
}

fn locate_section_child<'a>(t: &'a Template, path: &Vec<Step>) -> (r: Option<&'a SectionChild>)
    ensures
        match r {
            Some(x) => section_child_of(*t, path@) == Some(*x),
            None => section_child_of(*t, path@) is None,
        },
{
    if path.len() == 0 {
        return None;
    }
    let i = match path[path.len() - 1] {
        Step::SectionChild(i) => i,
        _ => {
            return None;
        },
    };
    let mut parent: Vec<Step> = Vec::new();
    let mut k: usize = 0;
    while k + 1 < path.len()
        invariant
            k < path.len(),
            parent@ == path@.take(k as int),
        decreases path.len() - k,
    {
        parent.push(path[k]);
        assert(parent@ =~= path@.take(k + 1));
        k += 1;
    }
    assert(parent@ =~= path@.drop_last());
    match body_node_at(Some(t), &parent) {
        Some(BodyNode::MjSection(s)) => if i < s.children.len() {
            Some(&s.children[i])
        } else {
            None
        },
        _ => None,
    }
}

fn any_wrapper_step(path: &Vec<Step>) -> (r: bool)
    ensures
        r == has_wrapper_step(path@),
{
    let mut k: usize = 0;
    while k < path.len()
        invariant
            k <= path.len(),
            forall|j: int| 0 <= j < k ==> !((#[trigger] path@[j]) is WrapperChild),
        decreases path.len() - k,
    {
        match path[k] {
            Step::WrapperChild(_) => {
                return true;
            },
            _ => {},
        }
        k += 1;
    }
    false
}

fn classify_path(template: Option<&Template>, path: &Vec<Step>) -> (r: SelectionClass)
    ensures
        r == path_class(deref_template(template), path@),
{
    if path.len() == 0 {
        return SelectionClass::Body;
    }
    match path[path.len() - 1] {
        Step::NavbarLink(_) => SelectionClass::NavbarLink,
        Step::AccordionEl(_) => SelectionClass::AccordionEl,
        Step::CarouselImg(_) => SelectionClass::CarouselImg,
        Step::ColComp(_) | Step::HeroChild(_) => match column_child_at(template, path) {
            Some(ColumnChild::MjNavbar(_)) => SelectionClass::Navbar,
            Some(ColumnChild::MjAccordion(_)) => SelectionClass::Accordion,
            Some(ColumnChild::MjCarousel(_)) => SelectionClass::Carousel,
            _ => SelectionClass::Leaf,
        },
        Step::GroupCol(_) => SelectionClass::Column,
        Step::SectionChild(_) => match template {
            None => SelectionClass::Column,
            Some(t) => match locate_section_child(t, path) {
                Some(SectionChild::MjGroup(_)) => SelectionClass::Group,
                _ => SelectionClass::Column,
            },
        },
        Step::BodyNode(_) | Step::WrapperChild(_) => match body_node_at(template, path) {
            Some(BodyNode::MjSection(_)) => SelectionClass::Section { in_wrapper: any_wrapper_step(path) },
            Some(BodyNode::MjWrapper(_)) => SelectionClass::Wrapper,
            Some(BodyNode::MjHero(_)) => SelectionClass::Hero,
            Some(_) => SelectionClass::EmailBlock,
            None => SelectionClass::Body,
        },
    }
}

/// What the selected row is, as far as inserting goes (see [`class_of`]).
pub fn classify(template: Option<&Template>, id: &TreeId) -> (r: SelectionClass)
    ensures
        r == class_of(deref_template(template), id@),
{
    match id {
        TreeId::Head | TreeId::Brand => SelectionClass::HeadBrand,
        TreeId::Body => SelectionClass::Body,
        TreeId::Path(path) => classify_path(template, path),
    }
}


// ---------------------------------------------------------------------------
// The picker
// ---------------------------------------------------------------------------

/// One picker row: a group header or a kind.
#[derive(Clone, Copy, Debug)]
pub enum PickerRow {
    Header(&'static str),
    Kind(ComponentKind),
}

/// The view of a [`PickerRow`].
pub enum PickerView {
    Header(Seq<char>),
    Kind(ComponentKind),
}

impl View for PickerRow {
    type V = PickerView;

    open spec fn view(&self) -> PickerView {
        match self {
            PickerRow::Header(h) => PickerView::Header(h@),
            PickerRow::Kind(k) => PickerView::Kind(*k),
        }
    }
}

pub open spec fn picker_view(v: Seq<PickerRow>) -> Seq<PickerView> {
    v.map_values(|r: PickerRow| r@)
}

/// A kind the picker shows: legal here, and its label holds the search
/// text when there is one.
pub open spec fn shown(k: ComponentKind, class: SelectionClass, needle: Seq<char>) -> bool {
    legal(k, class) && (needle.len() == 0 || contains(kind_label(k), needle))
}

/// The shown kinds of `ks` in one group, in order.
pub open spec fn shown_in(ks: Seq<ComponentKind>, class: SelectionClass, needle: Seq<char>, block: bool) -> Seq<PickerView>
    decreases ks.len(),
{
    if ks.len() == 0 {
        Seq::empty()
    } else {
        let rest = shown_in(ks.drop_last(), class, needle, block);
        let k = ks.last();
        if shown(k, class, needle) && block_kind(k) == block {
            rest.push(PickerView::Kind(k))
        } else {
            rest
        }
    }
}

/// The picker: a blocks group and a primitives group, each under its header
/// and only when not empty. The search text is trimmed and lowercased.
pub open spec fn picker_of(class: SelectionClass, query: Seq<char>) -> Seq<PickerView> {
    let needle = unicode_lowercase(trim(query));
    let blocks = shown_in(all_kinds(), class, needle, true);
    let prims = shown_in(all_kinds(), class, needle, false);
    (if blocks.len() > 0 {
        seq![PickerView::Header("-- blocks --"@)] + blocks
    } else {
        Seq::empty()
    }) + (if prims.len() > 0 {
        seq![PickerView::Header("-- primitives --"@)] + prims
    } else {
        Seq::empty()
    })
}

fn push_kind(rows: &mut Vec<PickerRow>, k: ComponentKind)
    ensures
        picker_view(final(rows)@) == picker_view(old(rows)@).push(PickerView::Kind(k)),
{
    rows.push(PickerRow::Kind(k));
    assert(picker_view(rows@) =~= picker_view(old(rows)@).push(PickerView::Kind(k)));
}

/// The picker rows for a selection of `class` and a search text (see
/// [`picker_of`]).
pub fn picker_rows(class: SelectionClass, query: &str) -> (r: Vec<PickerRow>)
    ensures
        picker_view(r@) == picker_of(class, query@),
{
    let needle = to_lowercase(trim_str(query).as_str());
    let all = ComponentKind::all();
    let mut blocks: Vec<PickerRow> = Vec::new();
    let mut prims: Vec<PickerRow> = Vec::new();
    assert(picker_view(blocks@) =~= Seq::<PickerView>::empty());
    assert(picker_view(prims@) =~= Seq::<PickerView>::empty());
    let mut i: usize = 0;
    while i < all.len()
        invariant
            i <= all.len(),
            all@ == all_kinds(),
            needle@ == unicode_lowercase(trim(query@)),
            picker_view(blocks@) == shown_in(all_kinds().take(i as int), class, needle@, true),
            picker_view(prims@) == shown_in(all_kinds().take(i as int), class, needle@, false),
        decreases all.len() - i,
    {
        let kind = all[i];
        proof {
            let p = all_kinds().take(i + 1);
            assert(p.drop_last() =~= all_kinds().take(i as int));
            assert(p.last() == kind);
        }
        let ok = kind.legal_for(class) && (needle.as_str().is_empty() || contains_str(kind.label(), needle.as_str()));
        if ok {
            if kind.is_block() {
                push_kind(&mut blocks, kind);
            } else {
                push_kind(&mut prims, kind);
            }
        }
        i += 1;
    }
    assert(all_kinds().take(all.len() as int) =~= all_kinds());
    let mut rows: Vec<PickerRow> = Vec::new();
    if blocks.len() > 0 {
        rows.push(PickerRow::Header("-- blocks --"));
        assert(picker_view(rows@) =~= seq![PickerView::Header("-- blocks --"@)]);
        let mut k: usize = 0;
        while k < blocks.len()
            invariant
                k <= blocks.len() > 0,
                picker_view(rows@) == seq![PickerView::Header("-- blocks --"@)] + picker_view(blocks@).take(k as int),
            decreases blocks.len() - k,
        {
            let ghost before = picker_view(rows@);
            rows.push(blocks[k]);
            assert(picker_view(rows@) =~= before.push(picker_view(blocks@)[k as int]));
            assert(picker_view(rows@) =~= seq![PickerView::Header("-- blocks --"@)] + picker_view(blocks@).take(k + 1));
            k += 1;
        }
        assert(picker_view(blocks@).take(blocks.len() as int) =~= picker_view(blocks@));
    } else {
        assert(picker_view(rows@) =~= Seq::<PickerView>::empty());
    }
    let ghost head = picker_view(rows@);
    if prims.len() > 0 {
        rows.push(PickerRow::Header("-- primitives --"));
        assert(picker_view(rows@) =~= head + seq![PickerView::Header("-- primitives --"@)]);
        let mut k: usize = 0;
        while k < prims.len()
            invariant
                k <= prims.len() > 0,
                picker_view(rows@) == head + seq![PickerView::Header("-- primitives --"@)] + picker_view(prims@).take(k as int),
            decreases prims.len() - k,
        {
            let ghost before = picker_view(rows@);
            rows.push(prims[k]);
            assert(picker_view(rows@) =~= before.push(picker_view(prims@)[k as int]));
            assert(picker_view(rows@) =~= head + seq![PickerView::Header("-- primitives --"@)] + picker_view(prims@).take(k + 1));
            k += 1;
        }
        assert(picker_view(prims@).take(prims.len() as int) =~= picker_view(prims@));
    }
    assert(picker_view(rows@) =~= picker_of(class, query@));
    rows
}

/// The first position of a kind row, or 0 when there is none.
pub open spec fn first_kind(rows: Seq<PickerView>) -> int {
    if exists|i: int| 0 <= i < rows.len() && (#[trigger] rows[i]) is Kind {
        choose|i: int| 0 <= i < rows.len() && rows[i] is Kind && forall|j: int| 0 <= j < i ==> !(#[trigger] rows[j] is Kind)
    } else {
        0
    }
}

/// Index of the first kind row, or 0 (see [`first_kind`]).
pub fn first_kind_index(rows: &Vec<PickerRow>) -> (r: usize)
    ensures
        (exists|i: int| 0 <= i < rows@.len() && (#[trigger] picker_view(rows@)[i]) is Kind) ==> (r
            < rows@.len() && picker_view(rows@)[r as int] is Kind && forall|j: int|
            0 <= j < r ==> !(#[trigger] picker_view(rows@)[j] is Kind)),
        !(exists|i: int| 0 <= i < rows@.len() && (#[trigger] picker_view(rows@)[i]) is Kind) ==> r == 0,
{
    let mut i: usize = 0;
    while i < rows.len()
        invariant
            i <= rows.len(),
            forall|j: int| 0 <= j < i ==> !(#[trigger] picker_view(rows@)[j] is Kind),
        decreases rows.len() - i,
    {
        match rows[i] {
            PickerRow::Kind(_) => {
                return i;
            },
            PickerRow::Header(_) => {},
        }
        i += 1;
    }
    0
}

/// The selection after moving `delta` rows with wrap-around, skipping
/// headers, trying at most `tries` rows.
pub open spec fn move_scan(rows: Seq<PickerView>, i: int, delta: int, tries: nat) -> int
    decreases tries,
{
    if tries == 0 {
        i
    } else {
        let next = (i + delta) % (rows.len() as int);
        if rows[next] is Kind {
            next
        } else {
            move_scan(rows, next, delta, (tries - 1) as nat)
        }
    }
}

/// Moving the picker selection by `delta`: from the selection (clamped to
/// the last row), step by `delta` with wrap-around until a kind row is met,
/// at most once round; 0 when there are no rows.
pub open spec fn moved_selection(rows: Seq<PickerView>, selected: int, delta: int) -> int {
    if rows.len() == 0 {
        0
    } else {
        let start = if selected < rows.len() - 1 {
            selected
        } else {
            rows.len() - 1
        };
        move_scan(rows, start, delta, rows.len())
    }
}

/// `(i + delta) mod len`, for `i < len`.
fn wrap_step(i: usize, delta: isize, len: usize) -> (r: usize)
    requires
        0 < len,
        i < len,
    ensures
        r == (i + delta) % (len as int),
{
    let m = len as u128;
    let d: u128 = if delta >= 0 {
        (delta as u128) % m
    } else {
        let e = ((-(delta as i128)) as u128) % m;
        (m - e) % m
    };
    let r = ((i as u128 + d) % m) as usize;
    proof {
        let li = len as int;
        if delta >= 0 {
            let q = (delta as int) / li;
            let dd = (delta as int) % li;
            vstd::arithmetic::div_mod::lemma_fundamental_div_mod(delta as int, li);
            assert(i + delta == li * q + (i + dd));
            vstd::arithmetic::div_mod::lemma_mod_multiples_vanish(q, i + dd, li);
        } else {
            let nd = -(delta as int);
            let q = nd / li;
            let e = nd % li;
            vstd::arithmetic::div_mod::lemma_fundamental_div_mod(nd, li);
            vstd::arithmetic::div_mod::lemma_mod_bound(nd, li);
            assert(i + delta == li * (-q - 1) + (i + (li - e))) by (nonlinear_arith)
                requires
                    nd == li * q + e,
                    delta == -nd,
            ;
            vstd::arithmetic::div_mod::lemma_mod_multiples_vanish(-q - 1, i + (li - e), li);
            if e == 0 {
                assert(li % li == 0) by {
                    vstd::arithmetic::div_mod::lemma_mod_multiples_vanish(1, 0, li);
                    vstd::arithmetic::div_mod::lemma_small_mod(0, li as nat);
                }
                assert(i + (li - e) == li * 1 + i);
                vstd::arithmetic::div_mod::lemma_mod_multiples_vanish(1, i as int, li);
            } else {
                vstd::arithmetic::div_mod::lemma_small_mod((li - e) as nat, li as nat);
            }
        }
    }
    r
}

/// Moves the picker selection (see [`moved_selection`]).
pub fn move_picker_selection(rows: &Vec<PickerRow>, selected: usize, delta: isize) -> (r: usize)
    ensures
        r == moved_selection(picker_view(rows@), selected as int, delta as int),
{
    if rows.len() == 0 {
        return 0;
    }
    let n = rows.len();
    let mut i = if selected < n - 1 {
        selected
    } else {
        n - 1
    };
    let ghost start = i as int;
    let mut t: usize = 0;
    while t < n
        invariant
            0 < n == rows.len(),
            t <= n,
            i < n,
            moved_selection(picker_view(rows@), selected as int, delta as int) == move_scan(
                picker_view(rows@),
                i as int,
                delta as int,
                (n - t) as nat,
            ),
        decreases n - t,
    {
        let next = wrap_step(i, delta, n);
        proof {
            vstd::arithmetic::div_mod::lemma_mod_bound(i + delta, n as int);
        }
        i = next;
        match rows[i] {
            PickerRow::Kind(_) => {
                return i;
            },
            PickerRow::Header(_) => {},
        }
        t += 1;
    }
    i
}

/// Every row that `shown_in` yields is a kind that is legal for `class`.
proof fn lemma_shown_in_legal(ks: Seq<ComponentKind>, class: SelectionClass, needle: Seq<char>, block: bool)
    ensures
        forall|i: int|
            0 <= i < shown_in(ks, class, needle, block).len() ==> ((#[trigger] shown_in(
                ks,
                class,
                needle,
                block,
            )[i]) matches PickerView::Kind(k) && legal(k, class)),
    decreases ks.len(),
{
    if ks.len() > 0 {
        lemma_shown_in_legal(ks.drop_last(), class, needle, block);
    }
}

/// The insert picker offers only kinds that are legal where the selection
/// stands: every row is a group header or such a kind.
pub proof fn law_picker_offers_only_legal_kinds(class: SelectionClass, query: Seq<char>, i: int)
    requires
        0 <= i < picker_of(class, query).len(),
    ensures
        picker_of(class, query)[i] matches PickerView::Kind(k) ==> legal(k, class),
{
    let needle = unicode_lowercase(trim(query));
    let blocks = shown_in(all_kinds(), class, needle, true);
    let prims = shown_in(all_kinds(), class, needle, false);
    lemma_shown_in_legal(all_kinds(), class, needle, true);
    lemma_shown_in_legal(all_kinds(), class, needle, false);
    let first = if blocks.len() > 0 {
        seq![PickerView::Header("-- blocks --"@)] + blocks
    } else {
        Seq::empty()
    };
    let second = if prims.len() > 0 {
        seq![PickerView::Header("-- primitives --"@)] + prims
    } else {
        Seq::empty()
    };
    assert(picker_of(class, query) == first + second);
    if i < first.len() {
        if i > 0 {
            assert(first[i] == blocks[i - 1]);
        }
    } else {
        let j = i - first.len();
        assert(picker_of(class, query)[i] == second[j]);
        if j > 0 {
            assert(second[j] == prims[j - 1]);
        }
    }
}

proof fn lemma_move_scan_in_range(rows: Seq<PickerView>, i: int, delta: int, tries: nat)
    requires
        0 <= i < rows.len(),
    ensures
        0 <= move_scan(rows, i, delta, tries) < rows.len(),
    decreases tries,
{
    if tries > 0 {
        let next = (i + delta) % (rows.len() as int);
        if !(rows[next] is Kind) {
            lemma_move_scan_in_range(rows, next, delta, (tries - 1) as nat);
        }
    }
}

/// Moving the picker selection always lands on a row of the picker, when it
/// has any.
pub proof fn law_picker_selection_stays_on_a_row(rows: Seq<PickerView>, selected: int, delta: int)
    requires
        rows.len() > 0,
        0 <= selected,
    ensures
        0 <= moved_selection(rows, selected, delta) < rows.len(),
{
    let start = if selected < rows.len() - 1 {
        selected
    } else {
        rows.len() - 1
    };
    lemma_move_scan_in_range(rows, start, delta, rows.len());
}

/// The first picker row shown when `visible` rows fit: the list scrolls
/// just far enough to keep row `selected` as the last shown row.
pub fn picker_window_start(selected: usize, visible: usize) -> (r: usize)
    requires
        selected < usize::MAX,
    ensures
        r == (if selected >= visible {
            selected + 1 - visible
        } else {
            0
        }),
{
    if selected >= visible {
        selected + 1 - visible
    } else {
        0
    }
}

/// With a hero selected, the picker offers exactly the content components a
/// column could take (text, button, image, divider, spacer, social, table,
/// navbar, accordion, carousel), never a column, block or layout node.
pub proof fn law_hero_takes_content_kinds(k: ComponentKind)
    ensures
        legal(k, SelectionClass::Hero) <==> (legal(k, SelectionClass::Column) && k != ComponentKind::MjColumn),
        legal(k, SelectionClass::Hero) <==> (k == ComponentKind::MjText || k == ComponentKind::MjButton || k
            == ComponentKind::MjImage || k == ComponentKind::MjDivider || k == ComponentKind::MjSpacer || k
            == ComponentKind::MjSocial || k == ComponentKind::MjTable || k == ComponentKind::MjNavbar || k
            == ComponentKind::MjAccordion || k == ComponentKind::MjCarousel),
        !legal(ComponentKind::MjColumn, SelectionClass::Hero),
{
}

/// Where each kind may go: nothing beside the head or brand; in a wrapper
/// only sections and heroes; in a group only columns; in a column a column
/// or any content component; beside a content component another content
/// component; inside a navbar, accordion or carousel only its own items;
/// and a ready-made block never inside a wrapper.
pub proof fn law_insert_places(k: ComponentKind, in_wrapper: bool)
    ensures
        !legal(k, SelectionClass::HeadBrand),
        legal(k, SelectionClass::Wrapper) <==> (k == ComponentKind::MjSection || k == ComponentKind::MjHero),
        legal(k, SelectionClass::Group) <==> k == ComponentKind::MjColumn,
        legal(k, SelectionClass::Column) <==> (k == ComponentKind::MjColumn || legal(k, SelectionClass::Hero)),
        legal(k, SelectionClass::Leaf) <==> legal(k, SelectionClass::Hero),
        legal(k, SelectionClass::Navbar) <==> k == ComponentKind::MjNavbarLink,
        legal(k, SelectionClass::NavbarLink) <==> k == ComponentKind::MjNavbarLink,
        legal(k, SelectionClass::Accordion) <==> k == ComponentKind::MjAccordionElement,
        legal(k, SelectionClass::AccordionEl) <==> k == ComponentKind::MjAccordionElement,
        legal(k, SelectionClass::Carousel) <==> k == ComponentKind::MjCarouselImage,
        legal(k, SelectionClass::CarouselImg) <==> k == ComponentKind::MjCarouselImage,
        (k == ComponentKind::EmailHeader || k == ComponentKind::EmailFooter || k == ComponentKind::MjWrapper)
            ==> !legal(k, SelectionClass::Section { in_wrapper: true }),
        (k == ComponentKind::MjNavbarLink || k == ComponentKind::MjAccordionElement || k
            == ComponentKind::MjCarouselImage) ==> !legal(k, SelectionClass::Body) && !legal(k, SelectionClass::Section { in_wrapper }),
{
}

} // verus!
