//! The template document: every node kind of an email and its fields.
//!
//! JSON (de)serialisation lives with the program; this module holds the
//! plain data and its defaults.
use vstd::prelude::*;

use crate::text::{chars_of, owned, push_char, string_of, trim, trim_bounds};

verus! {

/// One email: document settings, brand defaults, `<mj-head>` content and the body nodes.
#[derive(Debug, PartialEq)]
pub struct Template {
    pub version: u32,
    pub name: String,
    pub subject: String,
    pub preheader: String,
    pub lang: String,
    pub dir: String,
    pub base_url: String,
    pub brand: Brand,
    pub head: Head,
    pub body: Body,
}

/// Brand defaults written as `<mj-attributes>`.
#[derive(Debug, Clone, PartialEq)]
pub struct Brand {
    pub font_family: String,
    pub text_color: String,
    pub background_color: String,
    pub content_width: u32,
    pub button_background: String,
    pub button_color: String,
}

/// Content of `<mj-head>`.
#[derive(Debug, Clone, PartialEq)]
pub struct Head {
    pub title: String,
    pub breakpoint: String,
    pub fonts: Vec<WebFont>,
    pub json_ld: String,
    pub css: String,
    pub css_inline: bool,
}

/// A web font registered with `<mj-font>`.
#[derive(Debug, Clone, PartialEq)]
pub struct WebFont {
    pub name: String,
    pub href: String,
}

/// Content of `<mj-body>`.
#[derive(Debug, PartialEq, Default)]
pub struct Body {
    pub background_color: String,
    pub css_class: Option<String>,
    pub nodes: Vec<BodyNode>,
}

/// A node directly under `<mj-body>` (or inside an `mj-wrapper`).
#[derive(Debug, PartialEq)]
pub enum BodyNode {
    MjSection(MjSection),
    MjWrapper(MjWrapper),
    MjHero(MjHero),
    EmailHeader(EmailHeader),
    EmailHero(EmailHero),
    EmailCta(EmailCta),
    EmailArticle(EmailArticle),
    EmailFooter(EmailFooter),
}

/// A child of `mj-section`.
#[derive(Debug, Clone, PartialEq)]
pub enum SectionChild {
    MjColumn(MjColumn),
    MjGroup(MjGroup),
}

/// A content component inside `mj-column` or `mj-hero`.
#[derive(Debug, Clone, PartialEq)]
pub enum ColumnChild {
    MjText(MjText),
    MjButton(MjButton),
    MjImage(MjImage),
    MjDivider(MjDivider),
    MjSpacer(MjSpacer),
    MjSocial(MjSocial),
    MjTable(MjTable),
    MjNavbar(MjNavbar),
    MjAccordion(MjAccordion),
    MjCarousel(MjCarousel),
}

/// Horizontal alignment.
#[derive(Debug, Clone, Copy, PartialEq, Eq, Structural, Default)]
pub enum Align {
    Left,
    #[default]
    Center,
    Right,
}

/// `mj-hero` height mode.
#[derive(Debug, Clone, Copy, PartialEq, Eq, Structural, Default)]
pub enum HeroMode {
    #[default]
    FluidHeight,
    FixedHeight,
}

/// `mj-social` layout mode.
#[derive(Debug, Clone, Copy, PartialEq, Eq, Structural, Default)]
pub enum SocialMode {
    #[default]
    Horizontal,
    Vertical,
}

/// `mj-carousel` thumbnail mode.
#[derive(Debug, Clone, Copy, PartialEq, Eq, Structural, Default)]
pub enum Thumbnails {
    Visible,
    #[default]
    Hidden,
    Supported,
}

/// Where `email-article` places its image.
#[derive(Debug, Clone, Copy, PartialEq, Eq, Structural, Default)]
pub enum ImagePosition {
    #[default]
    Top,
    Left,
    Right,
}

/// Built-in `mj-social-element` networks.
#[derive(Debug, Clone, Copy, PartialEq, Eq, Structural)]
pub enum SocialNetwork {
    Facebook,
    Instagram,
    Linkedin,
    X,
    Github,
    Web,
    Youtube,
    Pinterest,
    Google,
    Tumblr,
    Snapchat,
    Vimeo,
    Medium,
    Soundcloud,
    Dribbble,
    Xing,
}

/// The `MjSection` component.
#[derive(Debug, Clone, PartialEq, Default)]
pub struct MjSection {
    pub label: Option<String>,
    pub background_color: Option<String>,
    pub padding: Option<String>,
    pub border: Option<String>,
    pub border_sides: Option<String>,
    pub border_radius: Option<String>,
    pub gutter: Option<String>,
    pub background_url: Option<String>,
    pub background_size: Option<String>,
    pub background_repeat: Option<String>,
    pub direction: Option<String>,
    pub full_width: bool,
    pub css_class: Option<String>,
    pub children: Vec<SectionChild>,
}

/// The `MjColumn` component.
#[derive(Debug, Clone, PartialEq, Default)]
pub struct MjColumn {
    pub width: Option<String>,
    pub background_color: Option<String>,
    pub padding: Option<String>,
    pub inner_background_color: Option<String>,
    pub border: Option<String>,
    pub border_sides: Option<String>,
    pub border_radius: Option<String>,
    pub inner_border: Option<String>,
    pub inner_border_sides: Option<String>,
    pub inner_border_radius: Option<String>,
    pub vertical_align: Option<String>,
    pub css_class: Option<String>,
    pub components: Vec<ColumnChild>,
}

/// The `MjWrapper` component.
#[derive(Debug, PartialEq, Default)]
pub struct MjWrapper {
    pub label: Option<String>,
    pub background_color: Option<String>,
    pub padding: Option<String>,
    pub border: Option<String>,
    pub border_sides: Option<String>,
    pub border_radius: Option<String>,
    pub background_url: Option<String>,
    pub background_size: Option<String>,
    pub background_repeat: Option<String>,
    pub gap: Option<String>,
    pub full_width: bool,
    pub css_class: Option<String>,
    pub children: Vec<BodyNode>,
}

/// The `MjGroup` component.
#[derive(Debug, Clone, PartialEq, Default)]
pub struct MjGroup {
    pub width: Option<String>,
    pub background_color: Option<String>,
    pub direction: Option<String>,
    pub vertical_align: Option<String>,
    pub css_class: Option<String>,
    pub children: Vec<MjColumn>,
}

/// The `MjText` component.
#[derive(Debug, Clone, PartialEq, Default)]
pub struct MjText {
    pub content: String,
    pub align: Option<Align>,
    pub font_size: Option<String>,
    pub font_family: Option<String>,
    pub font_weight: Option<String>,
    pub font_style: Option<String>,
    pub line_height: Option<String>,
    pub color: Option<String>,
    pub padding: Option<String>,
    pub letter_spacing: Option<String>,
    pub text_decoration: Option<String>,
    pub text_transform: Option<String>,
    pub height: Option<String>,
    pub css_class: Option<String>,
}

/// The `MjButton` component.
#[derive(Debug, Clone, PartialEq, Default)]
pub struct MjButton {
    pub content: String,
    pub href: String,
    pub background_color: Option<String>,
    pub color: Option<String>,
    pub align: Option<Align>,
    pub font_family: Option<String>,
    pub font_size: Option<String>,
    pub font_weight: Option<String>,
    pub font_style: Option<String>,
    pub border: Option<String>,
    pub border_sides: Option<String>,
    pub border_radius: Option<String>,
    pub inner_padding: Option<String>,
    pub width: Option<String>,
    pub height: Option<String>,
    pub target: Option<String>,
    pub padding: Option<String>,
    pub letter_spacing: Option<String>,
    pub line_height: Option<String>,
    pub text_decoration: Option<String>,
    pub text_transform: Option<String>,
    pub rel: Option<String>,
    pub title: Option<String>,
    pub css_class: Option<String>,
}

/// The `MjImage` component.
#[derive(Debug, Clone, PartialEq)]
pub struct MjImage {
    pub src: String,
    pub alt: String,
    pub href: Option<String>,
    pub width: Option<String>,
    pub height: Option<String>,
    pub align: Option<Align>,
    pub fluid_on_mobile: bool,
    pub border: Option<String>,
    pub border_sides: Option<String>,
    pub border_radius: Option<String>,
    pub title: Option<String>,
    pub padding: Option<String>,
    pub target: Option<String>,
    pub rel: Option<String>,
    pub css_class: Option<String>,
}

/// The `MjDivider` component.
#[derive(Debug, Clone, PartialEq, Default)]
pub struct MjDivider {
    pub border_color: Option<String>,
    pub border_width: Option<String>,
    pub border_style: Option<String>,
    pub width: Option<String>,
    pub align: Option<Align>,
    pub padding: Option<String>,
    pub css_class: Option<String>,
}

/// The `MjSpacer` component.
#[derive(Debug, Clone, PartialEq)]
pub struct MjSpacer {
    pub height: String,
    pub padding: Option<String>,
    pub css_class: Option<String>,
}

/// The `MjSocial` component.
#[derive(Debug, Clone, PartialEq)]
pub struct MjSocial {
    pub mode: SocialMode,
    pub align: Option<Align>,
    pub icon_size: String,
    pub border_radius: Option<String>,
    pub padding: Option<String>,
    pub icon_padding: Option<String>,
    pub inner_padding: Option<String>,
    pub font_size: Option<String>,
    pub color: Option<String>,
    pub css_class: Option<String>,
    pub elements: Vec<MjSocialElement>,
}

/// The `MjSocialElement` component.
#[derive(Debug, Clone, PartialEq)]
pub struct MjSocialElement {
    pub name: SocialNetwork,
    pub href: String,
    pub src: Option<String>,
    pub background_color: Option<String>,
    pub padding: Option<String>,
    pub icon_size: Option<String>,
    pub alt: Option<String>,
    pub css_class: Option<String>,
}

/// The `MjTable` component.
#[derive(Debug, Clone, PartialEq, Default)]
pub struct MjTable {
    pub content: String,
    pub font_size: Option<String>,
    pub font_family: Option<String>,
    pub line_height: Option<String>,
    pub color: Option<String>,
    pub align: Option<Align>,
    pub width: Option<String>,
    pub border: Option<String>,
    pub padding: Option<String>,
    pub cellpadding: Option<String>,
    pub cellspacing: Option<String>,
    pub role: Option<String>,
    pub css_class: Option<String>,
}

/// The `MjNavbar` component.
#[derive(Debug, Clone, PartialEq, Default)]
pub struct MjNavbar {
    pub hamburger: bool,
    pub ico_color: Option<String>,
    pub base_url: Option<String>,
    pub align: Option<Align>,
    pub padding: Option<String>,
    pub ico_align: Option<String>,
    pub ico_font_size: Option<String>,
    pub ico_padding: Option<String>,
    pub ico_open: Option<String>,
    pub ico_close: Option<String>,
    pub css_class: Option<String>,
    pub links: Vec<MjNavbarLink>,
}

/// The `MjNavbarLink` component.
#[derive(Debug, Clone, PartialEq, Default)]
pub struct MjNavbarLink {
    pub href: String,
    pub content: String,
    pub color: Option<String>,
    pub font_family: Option<String>,
    pub font_size: Option<String>,
    pub font_weight: Option<String>,
    pub text_decoration: Option<String>,
    pub text_transform: Option<String>,
    pub padding: Option<String>,
    pub css_class: Option<String>,
}

/// The `MjAccordion` component.
#[derive(Debug, Clone, PartialEq, Default)]
pub struct MjAccordion {
    pub border: Option<String>,
    pub padding: Option<String>,
    pub font_family: Option<String>,
    pub icon_position: Option<String>,
    pub icon_width: Option<String>,
    pub icon_height: Option<String>,
    pub icon_wrapped_url: Option<String>,
    pub icon_unwrapped_url: Option<String>,
    pub css_class: Option<String>,
    pub elements: Vec<MjAccordionElement>,
}

/// The `MjAccordionElement` component.
#[derive(Debug, Clone, PartialEq, Default)]
pub struct MjAccordionElement {
    pub title: String,
    pub content: String,
    pub background_color: Option<String>,
    pub css_class: Option<String>,
}

/// The `MjCarousel` component.
#[derive(Debug, Clone, PartialEq, Default)]
pub struct MjCarousel {
    pub align: Option<Align>,
    pub padding: Option<String>,
    pub border_radius: Option<String>,
    pub tb_border_radius: Option<String>,
    pub icon_width: Option<String>,
    pub css_class: Option<String>,
    pub thumbnails: Thumbnails,
    pub images: Vec<MjCarouselImage>,
}

/// The `MjCarouselImage` component.
#[derive(Debug, Clone, PartialEq, Default)]
pub struct MjCarouselImage {
    pub src: String,
    pub alt: String,
    pub href: Option<String>,
    pub thumbnails_src: Option<String>,
    pub border_radius: Option<String>,
    pub css_class: Option<String>,
}

/// The `MjHero` component.
#[derive(Debug, Clone, PartialEq, Default)]
pub struct MjHero {
    pub mode: HeroMode,
    pub background_url: Option<String>,
    pub background_color: Option<String>,
    pub background_height: Option<String>,
    pub background_width: Option<String>,
    pub background_position: Option<String>,
    pub width: Option<String>,
    pub height: Option<String>,
    pub padding: Option<String>,
    pub inner_padding: Option<String>,
    pub border_radius: Option<String>,
    pub vertical_align: Option<String>,
    pub css_class: Option<String>,
    pub children: Vec<ColumnChild>,
}

/// Logo row block.
#[derive(Debug, Clone, PartialEq)]
pub struct EmailHeader {
    pub logo_src: String,
    pub logo_alt: String,
    pub logo_href: Option<String>,
    pub logo_width: String,
    pub background_color: Option<String>,
}

/// Image + heading block.
#[derive(Debug, Clone, PartialEq)]
pub struct EmailHero {
    pub image_src: String,
    pub image_alt: String,
    pub heading: String,
    pub subheading: String,
    pub background_color: Option<String>,
}

/// Heading, copy and button block.
#[derive(Debug, Clone, PartialEq)]
pub struct EmailCta {
    pub heading: String,
    pub copy: String,
    pub button_label: String,
    pub button_href: String,
    pub background_color: Option<String>,
}

/// Image + title + copy + link block.
#[derive(Debug, Clone, PartialEq)]
pub struct EmailArticle {
    pub image_src: String,
    pub image_alt: String,
    pub title: String,
    pub copy: String,
    pub link_label: String,
    pub link_href: String,
    pub image_position: ImagePosition,
}

/// Address, social icons, unsubscribe and copyright block.
#[derive(Debug, Clone, PartialEq)]
pub struct EmailFooter {
    pub company_name: String,
    pub address_lines: Vec<String>,
    pub unsubscribe_label: String,
    pub unsubscribe_href: String,
    pub social: Vec<MjSocialElement>,
    pub copyright: Option<String>,
}

/// Default document language.
pub fn default_lang() -> (r: String)
    ensures
        r@ == "en"@,
{
    owned("en")
}

/// Default brand font stack.
pub fn default_font() -> (r: String)
    ensures
        r@ == "Arial, Helvetica, sans-serif"@,
{
    owned("Arial, Helvetica, sans-serif")
}

/// Default brand text color.
pub fn default_text_color() -> (r: String)
    ensures
        r@ == "#1a1a1a"@,
{
    owned("#1a1a1a")
}

/// Default brand background color.
pub fn default_bg() -> (r: String)
    ensures
        r@ == "#f4f4f4"@,
{
    owned("#f4f4f4")
}

/// Default content width in pixels.
pub fn default_width() -> (r: u32)
    ensures
        r == 600,
{
    600
}

/// Default button background.
pub fn default_btn_bg() -> (r: String)
    ensures
        r@ == "#FFAF46"@,
{
    owned("#FFAF46")
}

/// Default button text color.
pub fn default_btn_fg() -> (r: String)
    ensures
        r@ == "#0F1114"@,
{
    owned("#0F1114")
}

/// Default responsive breakpoint.
pub fn default_breakpoint() -> (r: String)
    ensures
        r@ == "480px"@,
{
    owned("480px")
}

/// Default `email-header` logo width.
pub fn default_logo_width() -> (r: String)
    ensures
        r@ == "160px"@,
{
    owned("160px")
}

/// Default `mj-spacer` height.
pub fn default_spacer_height() -> (r: String)
    ensures
        r@ == "24px"@,
{
    owned("24px")
}

/// Default `mj-social` icon size.
pub fn default_icon_size() -> (r: String)
    ensures
        r@ == "32px"@,
{
    owned("32px")
}

/// Default for flags that are on unless set.
pub fn default_true() -> (r: bool)
    ensures
        r,
{
    true
}

/// The brand defaults.
pub open spec fn is_default_brand(b: Brand) -> bool {
    &&& b.font_family@ == "Arial, Helvetica, sans-serif"@
    &&& b.text_color@ == "#1a1a1a"@
    &&& b.background_color@ == "#f4f4f4"@
    &&& b.content_width == 600
    &&& b.button_background@ == "#FFAF46"@
    &&& b.button_color@ == "#0F1114"@
}

impl Default for Brand {
    fn default() -> (r: Self)
        ensures
            is_default_brand(r),
    {
        Brand {
            font_family: default_font(),
            text_color: default_text_color(),
            background_color: default_bg(),
            content_width: default_width(),
            button_background: default_btn_bg(),
            button_color: default_btn_fg(),
        }
    }
}

impl Default for Head {
    fn default() -> (r: Self)
        ensures
            r.title@ == Seq::<char>::empty(),
            r.breakpoint@ == "480px"@,
            r.fonts@ == Seq::<WebFont>::empty(),
            r.json_ld@ == Seq::<char>::empty(),
            r.css@ == Seq::<char>::empty(),
            !r.css_inline,
    {
        Head {
            title: String::new(),
            breakpoint: default_breakpoint(),
            fonts: Vec::new(),
            json_ld: String::new(),
            css: String::new(),
            css_inline: false,
        }
    }
}

impl Default for MjImage {
    fn default() -> (r: Self)
        ensures
            r.src@ == Seq::<char>::empty(),
            r.alt@ == Seq::<char>::empty(),
            r.fluid_on_mobile,
            r.href is None && r.width is None && r.height is None && r.align is None,
            r.border is None && r.border_sides is None && r.border_radius is None,
            r.title is None && r.padding is None && r.target is None && r.rel is None,
            r.css_class is None,
    {
        MjImage {
            src: String::new(),
            alt: String::new(),
            href: None,
            width: None,
            height: None,
            align: None,
            fluid_on_mobile: true,
            border: None,
            border_sides: None,
            border_radius: None,
            title: None,
            padding: None,
            target: None,
            rel: None,
            css_class: None,
        }
    }
}

impl Default for MjSpacer {
    fn default() -> (r: Self)
        ensures
            r.height@ == "24px"@,
            r.padding is None,
            r.css_class is None,
    {
        MjSpacer { height: default_spacer_height(), padding: None, css_class: None }
    }
}

impl Default for MjSocial {
    fn default() -> (r: Self)
        ensures
            r.mode == SocialMode::Horizontal,
            r.icon_size@ == "32px"@,
            r.elements@ == Seq::<MjSocialElement>::empty(),
            r.align is None && r.border_radius is None && r.padding is None,
            r.icon_padding is None && r.inner_padding is None && r.font_size is None,
            r.color is None && r.css_class is None,
    {
        MjSocial {
            mode: SocialMode::Horizontal,
            align: None,
            icon_size: default_icon_size(),
            border_radius: None,
            padding: None,
            icon_padding: None,
            inner_padding: None,
            font_size: None,
            color: None,
            css_class: None,
            elements: Vec::new(),
        }
    }
}

impl Default for MjSocialElement {
    fn default() -> (r: Self)
        ensures
            r.name == SocialNetwork::X,
            r.href@ == Seq::<char>::empty(),
            r.src is None && r.background_color is None && r.padding is None,
            r.icon_size is None && r.alt is None && r.css_class is None,
    {
        MjSocialElement {
            name: SocialNetwork::X,
            href: String::new(),
            src: None,
            background_color: None,
            padding: None,
            icon_size: None,
            alt: None,
            css_class: None,
        }
    }
}

/// What `normalize_base_url` makes of a base URL: trimmed, empty stays
/// empty, anything else ends with exactly the `/` it had or one more.
pub open spec fn normalized_base_url(u: Seq<char>) -> Seq<char> {
    let t = trim(u);
    if t.len() == 0 {
        t
    } else if t.last() == '/' {
        t
    } else {
        t.push('/')
    }
}

impl Template {
    /// The smallest valid template: a welcome email with an empty body.
    pub fn minimal() -> (r: Self)
        ensures
            r.version == 1,
            r.name@ == "welcome"@,
            r.subject@ == "You're in."@,
            r.preheader@ == "Here's what happens next."@,
            r.lang@ == "en"@,
            r.dir@ == Seq::<char>::empty(),
            r.base_url@ == Seq::<char>::empty(),
            is_default_brand(r.brand),
            r.head.title@ == "You're in."@,
            r.head.breakpoint@ == "480px"@,
            r.head.fonts@ == Seq::<WebFont>::empty(),
            r.head.json_ld@ == Seq::<char>::empty(),
            r.head.css@ == Seq::<char>::empty(),
            !r.head.css_inline,
            r.body.background_color@ == Seq::<char>::empty(),
            r.body.css_class is None,
            r.body.nodes@ == Seq::<BodyNode>::empty(),
    {
        let mut head = Head::default();
        head.title = owned("You're in.");
        Template {
            version: 1,
            name: owned("welcome"),
            subject: owned("You're in."),
            preheader: owned("Here's what happens next."),
            lang: default_lang(),
            dir: String::new(),
            base_url: String::new(),
            brand: Brand::default(),
            head,
            body: Body { background_color: String::new(), css_class: None, nodes: Vec::new() },
        }
    }

    /// Trims `base_url` and makes a non-empty one end with `/`.
    pub fn normalize_base_url(&mut self)
        ensures
            final(self).base_url@ == normalized_base_url(old(self).base_url@),
            final(self).version == old(self).version,
            final(self).name == old(self).name,
            final(self).subject == old(self).subject,
            final(self).preheader == old(self).preheader,
            final(self).lang == old(self).lang,
            final(self).dir == old(self).dir,
            final(self).brand == old(self).brand,
            final(self).head == old(self).head,
            final(self).body == old(self).body,
    {
        let v = chars_of(self.base_url.as_str());
        let (a, b) = trim_bounds(&v);
        if a == b {
            self.base_url = String::new();
            return;
        }
        let mut t = string_of(&v, a, b);
        if v[b - 1] != '/' {
            push_char(&mut t, '/');
        }
        self.base_url = t;
    }
}

/// A base URL that is already normalized stays as it is: normalizing is
/// idempotent.
pub proof fn law_base_url_normalized_once(u: Seq<char>)
    ensures
        normalized_base_url(normalized_base_url(u)) == normalized_base_url(u),
{
    let t = trim(u);
    crate::text::lemma_trim_idempotent(u);
    if t.len() > 0 && t.last() != '/' {
        let x = t.push('/');
        crate::text::lemma_trim_start_from(u);
        crate::text::lemma_trim_end_to(crate::text::trim_start(u));
        assert(x[0] == t[0]);
        assert(!crate::text::is_ws(x[0]));
        assert(crate::text::trim_start(x) == x);
        assert(x.last() == '/');
        assert(!crate::text::is_ws(x.last()));
        assert(crate::text::trim_end(x) == x);
    }
}

} // verus!
