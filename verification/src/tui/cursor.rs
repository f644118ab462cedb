//! Fill an edit form from the tree selection, and write it back on save.
//!
//! Each node kind has a form. Writing back goes field by field in a fixed
//! order; the first field that does not read stops the write, and the fields
//! before it keep their new values.
use vstd::prelude::*;

use crate::border::{form_of, sides_from, storage_of, Sides};
use crate::model::{
    Align, Body, BodyNode, Brand, ColumnChild, EmailArticle, EmailCta, EmailFooter, EmailHeader,
    EmailHero, Head, HeroMode, ImagePosition, MjAccordion, MjAccordionElement, MjButton,
    MjCarousel, MjCarouselImage, MjColumn, MjDivider, MjGroup, MjHero, MjImage, MjNavbar,
    MjNavbarLink, MjSection, MjSocial, MjSocialElement, MjSpacer, MjTable, MjText, MjWrapper,
    SectionChild, SocialMode, SocialNetwork, Template, Thumbnails, WebFont,
};
use crate::padding::{normalize_padding, normalize_unit, normalized_padding, normalized_unit, RULE, UNIT_RULE};
use crate::text::{cat, cat3, eq_str, join, join_exec, owned, trim, trim_str, views};
use crate::tui::editform::{assoc, edit_form, form_title, EditFormState, FormId};
use crate::tui::tree::{Step, TreeId};

verus! {

// ---------------------------------------------------------------------------
// How a value is shown in a form field, and how a field is read back
// ---------------------------------------------------------------------------

/// The text of an optional value; empty when unset.
pub open spec fn opt_text(v: Option<String>) -> Seq<char> {
    match v {
        Some(s) => s@,
        None => Seq::empty(),
    }
}

/// An optional string as the spec sees it.
pub open spec fn opt_view(v: Option<String>) -> Option<Seq<char>> {
    match v {
        Some(s) => Some(s@),
        None => None,
    }
}

/// Border sides as the checkbox field shows them; unreadable storage shows
/// as all sides.
pub open spec fn sides_text(v: Option<String>) -> Seq<char> {
    match sides_from(opt_text(v)) {
        Ok(s) => form_of(s),
        Err(_) => "all"@,
    }
}

pub open spec fn bool_text(b: bool) -> Seq<char> {
    if b {
        "true"@
    } else {
        "false"@
    }
}

pub open spec fn align_text(a: Option<Align>) -> Seq<char> {
    match a {
        Some(Align::Left) => "left"@,
        Some(Align::Center) => "center"@,
        Some(Align::Right) => "right"@,
        None => ""@,
    }
}

pub open spec fn hero_mode_text(m: HeroMode) -> Seq<char> {
    match m {
        HeroMode::FluidHeight => "fluid-height"@,
        HeroMode::FixedHeight => "fixed-height"@,
    }
}

pub open spec fn social_mode_text(m: SocialMode) -> Seq<char> {
    match m {
        SocialMode::Horizontal => "horizontal"@,
        SocialMode::Vertical => "vertical"@,
    }
}

pub open spec fn image_pos_text(p: ImagePosition) -> Seq<char> {
    match p {
        ImagePosition::Top => "top"@,
        ImagePosition::Left => "left"@,
        ImagePosition::Right => "right"@,
    }
}

pub open spec fn thumbnails_text(t: Thumbnails) -> Seq<char> {
    match t {
        Thumbnails::Visible => "visible"@,
        Thumbnails::Hidden => "hidden"@,
        Thumbnails::Supported => "supported"@,
    }
}

pub open spec fn network_text(n: SocialNetwork) -> Seq<char> {
    match n {
        SocialNetwork::Facebook => "facebook"@,
        SocialNetwork::Instagram => "instagram"@,
        SocialNetwork::Linkedin => "linkedin"@,
        SocialNetwork::X => "x"@,
        SocialNetwork::Github => "github"@,
        SocialNetwork::Web => "web"@,
        SocialNetwork::Youtube => "youtube"@,
        SocialNetwork::Pinterest => "pinterest"@,
        SocialNetwork::Google => "google"@,
        SocialNetwork::Tumblr => "tumblr"@,
        SocialNetwork::Snapchat => "snapchat"@,
        SocialNetwork::Vimeo => "vimeo"@,
        SocialNetwork::Medium => "medium"@,
        SocialNetwork::Soundcloud => "soundcloud"@,
        SocialNetwork::Dribbble => "dribbble"@,
        SocialNetwork::Xing => "xing"@,
    }
}

/// A text field read as an optional value: trimmed, unset when blank.
pub open spec fn read_opt(v: Seq<char>) -> Option<Seq<char>> {
    if trim(v).len() == 0 {
        None
    } else {
        Some(trim(v))
    }
}

/// A padding field read back: unset when blank, else normalized or refused.
pub open spec fn read_padding(id: Seq<char>, v: Seq<char>) -> Result<Option<Seq<char>>, Seq<char>> {
    let t = trim(v);
    if t.len() == 0 {
        Ok(None)
    } else {
        match normalized_padding(t) {
            Some(n) => Ok(Some(n)),
            None => Err(id + " "@ + RULE@),
        }
    }
}

/// A length field read back: a padding shorthand or a single length.
pub open spec fn read_unit(id: Seq<char>, v: Seq<char>) -> Result<Option<Seq<char>>, Seq<char>> {
    let t = trim(v);
    if t.len() == 0 {
        Ok(None)
    } else {
        match normalized_padding(t) {
            Some(n) => Ok(Some(n)),
            None => match normalized_unit(t) {
                Some(n) => Ok(Some(n)),
                None => Err(id + " "@ + UNIT_RULE@),
            },
        }
    }
}

/// A border-sides field read back, as it is stored.
pub open spec fn read_sides(id: Seq<char>, v: Seq<char>) -> Result<Option<Seq<char>>, Seq<char>> {
    match sides_from(trim(v)) {
        Ok(s) => Ok(storage_of(s)),
        Err(e) => Err(id + " "@ + e),
    }
}

pub open spec fn read_bool(v: Seq<char>) -> Result<bool, Seq<char>> {
    let t = trim(v);
    if t == "true"@ {
        Ok(true)
    } else if t == "false"@ {
        Ok(false)
    } else {
        Err("expected true/false, got "@ + t)
    }
}

pub open spec fn read_align(v: Seq<char>) -> Result<Option<Align>, Seq<char>> {
    let t = trim(v);
    if t == ""@ {
        Ok(None)
    } else if t == "left"@ {
        Ok(Some(Align::Left))
    } else if t == "center"@ {
        Ok(Some(Align::Center))
    } else if t == "right"@ {
        Ok(Some(Align::Right))
    } else {
        Err("invalid align: "@ + t)
    }
}

pub open spec fn read_hero_mode(v: Seq<char>) -> Result<HeroMode, Seq<char>> {
    let t = trim(v);
    if t == "fluid-height"@ {
        Ok(HeroMode::FluidHeight)
    } else if t == "fixed-height"@ {
        Ok(HeroMode::FixedHeight)
    } else {
        Err("invalid hero mode: "@ + t)
    }
}

pub open spec fn read_social_mode(v: Seq<char>) -> Result<SocialMode, Seq<char>> {
    let t = trim(v);
    if t == "horizontal"@ {
        Ok(SocialMode::Horizontal)
    } else if t == "vertical"@ {
        Ok(SocialMode::Vertical)
    } else {
        Err("invalid social mode: "@ + t)
    }
}

pub open spec fn read_image_pos(v: Seq<char>) -> Result<ImagePosition, Seq<char>> {
    let t = trim(v);
    if t == "top"@ {
        Ok(ImagePosition::Top)
    } else if t == "left"@ {
        Ok(ImagePosition::Left)
    } else if t == "right"@ {
        Ok(ImagePosition::Right)
    } else {
        Err("invalid image_position: "@ + t)
    }
}

pub open spec fn read_thumbnails(v: Seq<char>) -> Result<Thumbnails, Seq<char>> {
    let t = trim(v);
    if t == "visible"@ {
        Ok(Thumbnails::Visible)
    } else if t == "hidden"@ {
        Ok(Thumbnails::Hidden)
    } else if t == "supported"@ {
        Ok(Thumbnails::Supported)
    } else {
        Err("invalid thumbnails: "@ + t)
    }
}

/// The network whose name is `t`, if any.
pub open spec fn network_named(t: Seq<char>) -> Option<SocialNetwork> {
    if t == "facebook"@ {
        Some(SocialNetwork::Facebook)
    } else if t == "instagram"@ {
        Some(SocialNetwork::Instagram)
    } else if t == "linkedin"@ {
        Some(SocialNetwork::Linkedin)
    } else if t == "x"@ {
        Some(SocialNetwork::X)
    } else if t == "github"@ {
        Some(SocialNetwork::Github)
    } else if t == "web"@ {
        Some(SocialNetwork::Web)
    } else if t == "youtube"@ {
        Some(SocialNetwork::Youtube)
    } else if t == "pinterest"@ {
        Some(SocialNetwork::Pinterest)
    } else if t == "google"@ {
        Some(SocialNetwork::Google)
    } else if t == "tumblr"@ {
        Some(SocialNetwork::Tumblr)
    } else if t == "snapchat"@ {
        Some(SocialNetwork::Snapchat)
    } else if t == "vimeo"@ {
        Some(SocialNetwork::Vimeo)
    } else if t == "medium"@ {
        Some(SocialNetwork::Medium)
    } else if t == "soundcloud"@ {
        Some(SocialNetwork::Soundcloud)
    } else if t == "dribbble"@ {
        Some(SocialNetwork::Dribbble)
    } else if t == "xing"@ {
        Some(SocialNetwork::Xing)
    } else {
        None
    }
}

pub open spec fn read_network(v: Seq<char>) -> Result<SocialNetwork, Seq<char>> {
    match network_named(trim(v)) {
        Some(n) => Ok(n),
        None => Err("invalid social network: "@ + trim(v)),
    }
}

// ---------------------------------------------------------------------------
// Executable field conversions
// ---------------------------------------------------------------------------

fn opt_get(v: &Option<String>) -> (r: String)
    ensures
        r@ == opt_text(*v),
{
    match v {
        Some(s) => s.clone(),
        None => String::new(),
    }
}

fn sides_to_form(v: &Option<String>) -> (r: String)
    ensures
        r@ == sides_text(*v),
{
    let stored = match v {
        Some(s) => s.as_str(),
        None => "",
    };
    proof {
        reveal_strlit("");
    }
    match Sides::from_storage(stored) {
        Ok(s) => s.to_form(),
        Err(_) => owned("all"),
    }
}

fn opt_set(state: &EditFormState, id: &str) -> (r: Option<String>)
    ensures
        opt_view(r) == read_opt(state.value(id@)),
{
    let t = trim_str(state.get(id));
    if t.as_str().is_empty() {
        None
    } else {
        Some(t)
    }
}

fn with_id(id: &str, msg: &str) -> (r: String)
    ensures
        r@ == id@ + " "@ + msg@,
{
    cat3(id, " ", msg)
}

fn opt_set_named_padding(state: &EditFormState, id: &str) -> (r: Result<Option<String>, String>)
    ensures
        r matches Ok(v) ==> read_padding(id@, state.value(id@)) == Ok::<Option<Seq<char>>, Seq<char>>(opt_view(v)),
        r matches Err(e) ==> read_padding(id@, state.value(id@)) == Err::<Option<Seq<char>>, Seq<char>>(e@),
{
    let t = trim_str(state.get(id));
    if t.as_str().is_empty() {
        return Ok(None);
    }
    proof {
        crate::text::lemma_trim_idempotent(state.value(id@));
    }
    match normalize_padding(t.as_str()) {
        Ok(v) => Ok(Some(v)),
        Err(msg) => Err(with_id(id, msg.as_str())),
    }
}

fn opt_set_padding(state: &EditFormState) -> (r: Result<Option<String>, String>)
    ensures
        r matches Ok(v) ==> read_padding("padding"@, state.value("padding"@)) == Ok::<Option<Seq<char>>, Seq<char>>(opt_view(v)),
        r matches Err(e) ==> read_padding("padding"@, state.value("padding"@)) == Err::<Option<Seq<char>>, Seq<char>>(e@),
{
    opt_set_named_padding(state, "padding")
}

fn opt_set_unit(state: &EditFormState, id: &str) -> (r: Result<Option<String>, String>)
    ensures
        r matches Ok(v) ==> read_unit(id@, state.value(id@)) == Ok::<Option<Seq<char>>, Seq<char>>(opt_view(v)),
        r matches Err(e) ==> read_unit(id@, state.value(id@)) == Err::<Option<Seq<char>>, Seq<char>>(e@),
{
    let t = trim_str(state.get(id));
    if t.as_str().is_empty() {
        return Ok(None);
    }
    match normalize_padding(t.as_str()) {
        Ok(v) => Ok(Some(v)),
        Err(_) => match normalize_unit(t.as_str()) {
            Ok(v) => Ok(Some(v)),
            Err(msg) => Err(with_id(id, msg.as_str())),
        },
    }
}

fn opt_set_sides(state: &EditFormState, id: &str) -> (r: Result<Option<String>, String>)
    ensures
        r matches Ok(v) ==> read_sides(id@, state.value(id@)) == Ok::<Option<Seq<char>>, Seq<char>>(opt_view(v)),
        r matches Err(e) ==> read_sides(id@, state.value(id@)) == Err::<Option<Seq<char>>, Seq<char>>(e@),
{
    let t = trim_str(state.get(id));
    match Sides::from_storage(t.as_str()) {
        Ok(s) => Ok(s.to_storage()),
        Err(e) => Err(with_id(id, e.as_str())),
    }
}

fn bool_str(v: bool) -> (r: &'static str)
    ensures
        r@ == bool_text(v),
{
    if v {
        "true"
    } else {
        "false"
    }
}

fn parse_bool(s: &str) -> (r: Result<bool, String>)
    ensures
        r matches Ok(b) ==> read_bool(s@) == Ok::<bool, Seq<char>>(b),
        r matches Err(e) ==> read_bool(s@) == Err::<bool, Seq<char>>(e@),
{
    let t = trim_str(s);
    if eq_str(t.as_str(), "true") {
        Ok(true)
    } else if eq_str(t.as_str(), "false") {
        Ok(false)
    } else {
        Err(cat("expected true/false, got ", t.as_str()))
    }
}

fn align_str(a: Option<Align>) -> (r: &'static str)
    ensures
        r@ == align_text(a),
{
    match a {
        Some(Align::Left) => "left",
        Some(Align::Center) => "center",
        Some(Align::Right) => "right",
        None => "",
    }
}

fn parse_align(s: &str) -> (r: Result<Option<Align>, String>)
    ensures
        r matches Ok(a) ==> read_align(s@) == Ok::<Option<Align>, Seq<char>>(a),
        r matches Err(e) ==> read_align(s@) == Err::<Option<Align>, Seq<char>>(e@),
{
    let t = trim_str(s);
    if eq_str(t.as_str(), "") {
        Ok(None)
    } else if eq_str(t.as_str(), "left") {
        Ok(Some(Align::Left))
    } else if eq_str(t.as_str(), "center") {
        Ok(Some(Align::Center))
    } else if eq_str(t.as_str(), "right") {
        Ok(Some(Align::Right))
    } else {
        Err(cat("invalid align: ", t.as_str()))
    }
}

fn hero_mode_str(m: HeroMode) -> (r: &'static str)
    ensures
        r@ == hero_mode_text(m),
{
    match m {
        HeroMode::FluidHeight => "fluid-height",
        HeroMode::FixedHeight => "fixed-height",
    }
}

fn parse_hero_mode(s: &str) -> (r: Result<HeroMode, String>)
    ensures
        r matches Ok(m) ==> read_hero_mode(s@) == Ok::<HeroMode, Seq<char>>(m),
        r matches Err(e) ==> read_hero_mode(s@) == Err::<HeroMode, Seq<char>>(e@),
{
    let t = trim_str(s);
    if eq_str(t.as_str(), "fluid-height") {
        Ok(HeroMode::FluidHeight)
    } else if eq_str(t.as_str(), "fixed-height") {
        Ok(HeroMode::FixedHeight)
    } else {
        Err(cat("invalid hero mode: ", t.as_str()))
    }
}

fn social_mode_str(m: SocialMode) -> (r: &'static str)
    ensures
        r@ == social_mode_text(m),
{
    match m {
        SocialMode::Horizontal => "horizontal",
        SocialMode::Vertical => "vertical",
    }
}

fn parse_social_mode(s: &str) -> (r: Result<SocialMode, String>)
    ensures
        r matches Ok(m) ==> read_social_mode(s@) == Ok::<SocialMode, Seq<char>>(m),
        r matches Err(e) ==> read_social_mode(s@) == Err::<SocialMode, Seq<char>>(e@),
{
    let t = trim_str(s);
    if eq_str(t.as_str(), "horizontal") {
        Ok(SocialMode::Horizontal)
    } else if eq_str(t.as_str(), "vertical") {
        Ok(SocialMode::Vertical)
    } else {
        Err(cat("invalid social mode: ", t.as_str()))
    }
}

fn image_pos_str(p: ImagePosition) -> (r: &'static str)
    ensures
        r@ == image_pos_text(p),
{
    match p {
        ImagePosition::Top => "top",
        ImagePosition::Left => "left",
        ImagePosition::Right => "right",
    }
}

fn parse_image_pos(s: &str) -> (r: Result<ImagePosition, String>)
    ensures
        r matches Ok(p) ==> read_image_pos(s@) == Ok::<ImagePosition, Seq<char>>(p),
        r matches Err(e) ==> read_image_pos(s@) == Err::<ImagePosition, Seq<char>>(e@),
{
    let t = trim_str(s);
    if eq_str(t.as_str(), "top") {
        Ok(ImagePosition::Top)
    } else if eq_str(t.as_str(), "left") {
        Ok(ImagePosition::Left)
    } else if eq_str(t.as_str(), "right") {
        Ok(ImagePosition::Right)
    } else {
        Err(cat("invalid image_position: ", t.as_str()))
    }
}

fn thumbnails_str(t: Thumbnails) -> (r: &'static str)
    ensures
        r@ == thumbnails_text(t),
{
    match t {
        Thumbnails::Visible => "visible",
        Thumbnails::Hidden => "hidden",
        Thumbnails::Supported => "supported",
    }
}

fn parse_thumbnails(s: &str) -> (r: Result<Thumbnails, String>)
    ensures
        r matches Ok(x) ==> read_thumbnails(s@) == Ok::<Thumbnails, Seq<char>>(x),
        r matches Err(e) ==> read_thumbnails(s@) == Err::<Thumbnails, Seq<char>>(e@),
{
    let t = trim_str(s);
    if eq_str(t.as_str(), "visible") {
        Ok(Thumbnails::Visible)
    } else if eq_str(t.as_str(), "hidden") {
        Ok(Thumbnails::Hidden)
    } else if eq_str(t.as_str(), "supported") {
        Ok(Thumbnails::Supported)
    } else {
        Err(cat("invalid thumbnails: ", t.as_str()))
    }
}

fn social_net_str(n: SocialNetwork) -> (r: &'static str)
    ensures
        r@ == network_text(n),
{
    match n {
        SocialNetwork::Facebook => "facebook",
        SocialNetwork::Instagram => "instagram",
        SocialNetwork::Linkedin => "linkedin",
        SocialNetwork::X => "x",
        SocialNetwork::Github => "github",
        SocialNetwork::Web => "web",
        SocialNetwork::Youtube => "youtube",
        SocialNetwork::Pinterest => "pinterest",
        SocialNetwork::Google => "google",
        SocialNetwork::Tumblr => "tumblr",
        SocialNetwork::Snapchat => "snapchat",
        SocialNetwork::Vimeo => "vimeo",
        SocialNetwork::Medium => "medium",
        SocialNetwork::Soundcloud => "soundcloud",
        SocialNetwork::Dribbble => "dribbble",
        SocialNetwork::Xing => "xing",
    }
}

fn parse_social_net(s: &str) -> (r: Result<SocialNetwork, String>)
    ensures
        r matches Ok(n) ==> read_network(s@) == Ok::<SocialNetwork, Seq<char>>(n),
        r matches Err(e) ==> read_network(s@) == Err::<SocialNetwork, Seq<char>>(e@),
{
    let t = trim_str(s);
    let ts = t.as_str();
    if eq_str(ts, "facebook") {
        Ok(SocialNetwork::Facebook)
    } else if eq_str(ts, "instagram") {
        Ok(SocialNetwork::Instagram)
    } else if eq_str(ts, "linkedin") {
        Ok(SocialNetwork::Linkedin)
    } else if eq_str(ts, "x") {
        Ok(SocialNetwork::X)
    } else if eq_str(ts, "github") {
        Ok(SocialNetwork::Github)
    } else if eq_str(ts, "web") {
        Ok(SocialNetwork::Web)
    } else if eq_str(ts, "youtube") {
        Ok(SocialNetwork::Youtube)
    } else if eq_str(ts, "pinterest") {
        Ok(SocialNetwork::Pinterest)
    } else if eq_str(ts, "google") {
        Ok(SocialNetwork::Google)
    } else if eq_str(ts, "tumblr") {
        Ok(SocialNetwork::Tumblr)
    } else if eq_str(ts, "snapchat") {
        Ok(SocialNetwork::Snapchat)
    } else if eq_str(ts, "vimeo") {
        Ok(SocialNetwork::Vimeo)
    } else if eq_str(ts, "medium") {
        Ok(SocialNetwork::Medium)
    } else if eq_str(ts, "soundcloud") {
        Ok(SocialNetwork::Soundcloud)
    } else if eq_str(ts, "dribbble") {
        Ok(SocialNetwork::Dribbble)
    } else if eq_str(ts, "xing") {
        Ok(SocialNetwork::Xing)
    } else {
        Err(cat("invalid social network: ", ts))
    }
}

/// Trimmed text as a new string.
fn trimmed(s: &str) -> (r: String)
    ensures
        r@ == trim(s@),
{
    trim_str(s)
}

// ---------------------------------------------------------------------------
// Sub-form items, address lines, and the content width
// ---------------------------------------------------------------------------

/// The items of sub-form field `id`; none when the form has no such list.
pub open spec fn items_of(st: EditFormState, id: Seq<char>) -> Seq<EditFormState> {
    match assoc(st.subs(), id) {
        Some(v) => v,
        None => Seq::empty(),
    }
}

/// The items behind an optional list.
pub open spec fn opt_items(items: Option<&Vec<EditFormState>>) -> Seq<EditFormState> {
    match items {
        Some(v) => v@,
        None => Seq::empty(),
    }
}

/// What the social icon form shows of `el`.
pub open spec fn social_item_shown(el: MjSocialElement, st: EditFormState) -> bool {
    &&& st.value("name"@) == network_text(el.name)
    &&& st.value("href"@) == el.href@
    &&& st.value("src"@) == opt_text(el.src)
    &&& st.value("alt"@) == opt_text(el.alt)
    &&& st.value("background_color"@) == opt_text(el.background_color)
    &&& st.value("icon_size"@) == opt_text(el.icon_size)
    &&& st.value("padding"@) == opt_text(el.padding)
    &&& st.value("css_class"@) == opt_text(el.css_class)
}

/// One form item per element, each showing it.
pub open spec fn social_items_shown(els: Seq<MjSocialElement>, items: Seq<EditFormState>) -> bool {
    &&& items.len() == els.len()
    &&& forall|i: int| 0 <= i < els.len() ==> #[trigger] social_item_shown(els[i], items[i])
}

/// A social icon item reads back.
pub open spec fn social_item_ok(st: EditFormState) -> bool {
    read_network(st.value("name"@)) is Ok && read_padding("padding"@, st.value("padding"@)) is Ok
}

/// Why a social icon item does not read back.
pub open spec fn social_item_err(st: EditFormState) -> Seq<char> {
    if !(read_network(st.value("name"@)) is Ok) {
        read_network(st.value("name"@))->Err_0
    } else {
        read_padding("padding"@, st.value("padding"@))->Err_0
    }
}

/// The element read back from a social icon item.
pub open spec fn social_item_read(el: MjSocialElement, st: EditFormState) -> bool {
    &&& el.name == read_network(st.value("name"@))->Ok_0
    &&& el.href@ == st.value("href"@)
    &&& opt_view(el.src) == read_opt(st.value("src"@))
    &&& opt_view(el.alt) == read_opt(st.value("alt"@))
    &&& opt_view(el.background_color) == read_opt(st.value("background_color"@))
    &&& opt_view(el.icon_size) == read_opt(st.value("icon_size"@))
    &&& opt_view(el.padding) == read_padding("padding"@, st.value("padding"@))->Ok_0
    &&& opt_view(el.css_class) == read_opt(st.value("css_class"@))
}

pub open spec fn all_items_ok(items: Seq<EditFormState>) -> bool {
    forall|i: int| 0 <= i < items.len() ==> #[trigger] social_item_ok(items[i])
}

/// The message of the first item that does not read back.
pub open spec fn first_item_err(items: Seq<EditFormState>) -> Seq<char>
    decreases items.len(),
{
    if items.len() == 0 {
        Seq::empty()
    } else if !social_item_ok(items[0]) {
        social_item_err(items[0])
    } else {
        first_item_err(items.drop_first())
    }
}

/// One element per item, each read back from it.
pub open spec fn social_items_read(els: Seq<MjSocialElement>, items: Seq<EditFormState>) -> bool {
    &&& els.len() == items.len()
    &&& forall|i: int| 0 <= i < items.len() ==> #[trigger] social_item_read(els[i], items[i])
}

fn social_item_to_form(el: &MjSocialElement) -> (r: EditFormState)
    ensures
        r.wf(),
        social_item_shown(*el, r),
{
    let mut st = EditFormState::new(edit_form(FormId::SocialItem));
    proof {
        reveal_strlit("name");
        reveal_strlit("href");
        reveal_strlit("src");
        reveal_strlit("alt");
        reveal_strlit("background_color");
        reveal_strlit("icon_size");
        reveal_strlit("padding");
        reveal_strlit("css_class");
        assert("alt"@.len() == 3);
        assert("background_color"@.len() == 16);
        assert("css_class"@.len() == 9);
        assert("href"@.len() == 4);
        assert("icon_size"@.len() == 9);
        assert("name"@.len() == 4);
        assert("padding"@.len() == 7);
        assert("src"@.len() == 3);
        assert("alt"@[0] == 'a');
        assert("css_class"@[0] == 'c');
        assert("href"@[0] == 'h');
        assert("icon_size"@[0] == 'i');
        assert("name"@[0] == 'n');
        assert("src"@[0] == 's');
    }
    st.set("name", owned(social_net_str(el.name)));
    st.set("href", el.href.clone());
    st.set("src", opt_get(&el.src));
    st.set("alt", opt_get(&el.alt));
    st.set("background_color", opt_get(&el.background_color));
    st.set("icon_size", opt_get(&el.icon_size));
    st.set("padding", opt_get(&el.padding));
    st.set("css_class", opt_get(&el.css_class));
    st
}

fn social_items(els: &Vec<MjSocialElement>) -> (r: Vec<EditFormState>)
    ensures
        social_items_shown(els@, r@),
{
    let mut out: Vec<EditFormState> = Vec::new();
    let mut i: usize = 0;
    while i < els.len()
        invariant
            i <= els.len(),
            social_items_shown(els@.take(i as int), out@),
        decreases els.len() - i,
    {
        let item = social_item_to_form(&els[i]);
        out.push(item);
        proof {
            assert forall|j: int| 0 <= j < i + 1 implies #[trigger] social_item_shown(
                els@.take(i + 1)[j],
                out@[j],
            ) by {
                if j < i {
                    assert(els@.take(i + 1)[j] == els@.take(i as int)[j]);
                }
            }
        }
        i += 1;
    }
    assert(els@.take(els.len() as int) =~= els@);
    out
}

fn parse_social_item(item: &EditFormState) -> (r: Result<MjSocialElement, String>)
    ensures
        r is Ok <==> social_item_ok(*item),
        r matches Ok(el) ==> social_item_read(el, *item),
        r matches Err(e) ==> e@ == social_item_err(*item),
{
    let name = match parse_social_net(item.get("name")) {
        Ok(n) => n,
        Err(e) => {
            return Err(e);
        },
    };
    let href = owned(item.get("href"));
    let src = opt_set(item, "src");
    let alt = opt_set(item, "alt");
    let background_color = opt_set(item, "background_color");
    let icon_size = opt_set(item, "icon_size");
    let padding = match opt_set_named_padding(item, "padding") {
        Ok(p) => p,
        Err(e) => {
            return Err(e);
        },
    };
    let css_class = opt_set(item, "css_class");
    Ok(MjSocialElement { name, href, src, background_color, padding, icon_size, alt, css_class })
}

fn parse_social_items(items: Option<&Vec<EditFormState>>) -> (r: Result<Vec<MjSocialElement>, String>)
    ensures
        r is Ok <==> all_items_ok(opt_items(items)),
        r matches Ok(v) ==> social_items_read(v@, opt_items(items)),
        r matches Err(e) ==> e@ == first_item_err(opt_items(items)),
{
    let mut out: Vec<MjSocialElement> = Vec::new();
    match items {
        None => {
            assert(out@ =~= Seq::<MjSocialElement>::empty());
            Ok(out)
        },
        Some(v) => {
            let mut i: usize = 0;
            assert(v@.skip(0) =~= v@);
            while i < v.len()
                invariant
                    i <= v.len(),
                    opt_items(items) == v@,
                    out@.len() == i,
                    forall|j: int| 0 <= j < i ==> #[trigger] social_item_ok(v@[j]),
                    forall|j: int| 0 <= j < i ==> #[trigger] social_item_read(out@[j], v@[j]),
                    first_item_err(v@) == first_item_err(v@.skip(i as int)),
                decreases v.len() - i,
            {
                proof {
                    assert(v@.skip(i as int)[0] == v@[i as int]);
                    assert(v@.skip(i as int).drop_first() =~= v@.skip(i + 1));
                }
                match parse_social_item(&v[i]) {
                    Ok(el) => {
                        out.push(el);
                    },
                    Err(e) => {
                        proof {
                            assert(!social_item_ok(v@[i as int]));
                            assert(!all_items_ok(v@));
                            assert(first_item_err(v@.skip(i as int)) == social_item_err(v@[i as int]));
                        }
                        return Err(e);
                    },
                }
                i += 1;
            }
            Ok(out)
        },
    }
}

/// What the font item form shows of `f`.
pub open spec fn font_item_shown(f: WebFont, st: EditFormState) -> bool {
    &&& st.value("name"@) == f.name@
    &&& st.value("href"@) == f.href@
}

pub open spec fn fonts_shown(fs: Seq<WebFont>, items: Seq<EditFormState>) -> bool {
    &&& items.len() == fs.len()
    &&& forall|i: int| 0 <= i < fs.len() ==> #[trigger] font_item_shown(fs[i], items[i])
}

/// One font per item: its name and href, trimmed.
pub open spec fn fonts_read(fs: Seq<WebFont>, items: Seq<EditFormState>) -> bool {
    &&& fs.len() == items.len()
    &&& forall|i: int|
        0 <= i < items.len() ==> (#[trigger] fs[i]).name@ == trim(items[i].value("name"@)) && fs[i].href@
            == trim(items[i].value("href"@))
}

fn font_items(fs: &Vec<WebFont>) -> (r: Vec<EditFormState>)
    ensures
        fonts_shown(fs@, r@),
{
    let mut out: Vec<EditFormState> = Vec::new();
    let mut i: usize = 0;
    while i < fs.len()
        invariant
            i <= fs.len(),
            fonts_shown(fs@.take(i as int), out@),
        decreases fs.len() - i,
    {
        let mut item = EditFormState::new(edit_form(FormId::FontItem));
        proof {
            reveal_strlit("name");
            reveal_strlit("href");
            assert("href"@.len() == 4);
            assert("name"@.len() == 4);
            assert("href"@[0] == 'h');
            assert("name"@[0] == 'n');
        }
        item.set("name", fs[i].name.clone());
        item.set("href", fs[i].href.clone());
        out.push(item);
        proof {
            assert forall|j: int| 0 <= j < i + 1 implies #[trigger] font_item_shown(fs@.take(i + 1)[j], out@[j]) by {
                if j < i {
                    assert(fs@.take(i + 1)[j] == fs@.take(i as int)[j]);
                }
            }
        }
        i += 1;
    }
    assert(fs@.take(fs.len() as int) =~= fs@);
    out
}

fn fonts_from(items: Option<&Vec<EditFormState>>) -> (r: Vec<WebFont>)
    ensures
        fonts_read(r@, opt_items(items)),
{
    let mut out: Vec<WebFont> = Vec::new();
    if let Some(v) = items {
        let mut i: usize = 0;
        while i < v.len()
            invariant
                i <= v.len(),
                fonts_read(out@, v@.take(i as int)),
            decreases v.len() - i,
        {
            out.push(WebFont { name: trimmed(v[i].get("name")), href: trimmed(v[i].get("href")) });
            proof {
                assert forall|j: int| 0 <= j < i + 1 implies (#[trigger] out@[j]).name@ == trim(
                    v@.take(i + 1)[j].value("name"@),
                ) && out@[j].href@ == trim(v@.take(i + 1)[j].value("href"@)) by {
                    if j < i {
                        assert(v@.take(i + 1)[j] == v@.take(i as int)[j]);
                    }
                }
            }
            i += 1;
        }
        assert(v@.take(v.len() as int) =~= v@);
    }
    out
}

/// `s` cut at each `\n` (`str::split('\n')`): the pieces read so far and
/// the piece being read.
pub open spec fn nl_scan(s: Seq<char>) -> (Seq<Seq<char>>, Seq<char>)
    decreases s.len(),
{
    if s.len() == 0 {
        (Seq::empty(), Seq::empty())
    } else {
        let (done, cur) = nl_scan(s.drop_last());
        if s.last() == '\n' {
            (done.push(cur), Seq::empty())
        } else {
            (done, cur.push(s.last()))
        }
    }
}

/// The pieces that are not blank, in order.
pub open spec fn keep_nonblank(parts: Seq<Seq<char>>) -> Seq<Seq<char>>
    decreases parts.len(),
{
    if parts.len() == 0 {
        Seq::empty()
    } else if trim(parts.last()).len() == 0 {
        keep_nonblank(parts.drop_last())
    } else {
        keep_nonblank(parts.drop_last()).push(parts.last())
    }
}

/// The lines of a text field that are not blank, each as written.
pub open spec fn nonblank_lines(s: Seq<char>) -> Seq<Seq<char>> {
    keep_nonblank(nl_scan(s).0.push(nl_scan(s).1))
}

fn nonblank_lines_exec(s: &str) -> (r: Vec<String>)
    ensures
        views(r@) == nonblank_lines(s@),
{
    let v = crate::text::chars_of(s);
    let mut done: Vec<String> = Vec::new();
    let mut cur = String::new();
    let mut i: usize = 0;
    proof {
        reveal_strlit("");
        assert(v@.take(0) =~= Seq::<char>::empty());
    }
    while i < v.len()
        invariant
            i <= v.len(),
            v@ == s@,
            views(done@) == keep_nonblank(nl_scan(v@.take(i as int)).0),
            cur@ == nl_scan(v@.take(i as int)).1,
        decreases v.len() - i,
    {
        proof {
            assert(v@.take(i + 1).drop_last() =~= v@.take(i as int));
            assert(v@.take(i + 1).last() == v@[i as int]);
        }
        if v[i] == '\n' {
            let piece = cur;
            cur = String::new();
            if !crate::text::blank(piece.as_str()) {
                done.push(piece);
                proof {
                    assert(views(done@) =~= views(done@).drop_last().push(done@.last()@));
                }
            }
            proof {
                reveal_strlit("");
                let parts = nl_scan(v@.take(i as int)).0.push(nl_scan(v@.take(i as int)).1);
                assert(parts.drop_last() =~= nl_scan(v@.take(i as int)).0);
            }
        } else {
            crate::text::push_char(&mut cur, v[i]);
        }
        i += 1;
    }
    proof {
        assert(v@.take(v.len() as int) =~= v@);
        let parts = nl_scan(v@).0.push(nl_scan(v@).1);
        assert(parts.drop_last() =~= nl_scan(v@).0);
    }
    if !crate::text::blank(cur.as_str()) {
        done.push(cur);
        proof {
            assert(views(done@) =~= views(done@).drop_last().push(done@.last()@));
        }
    }
    done
}

/// The content width as read from its field: an optional `+`, then at
/// least one digit, and a value that fits in 32 bits (`str::parse::<u32>`).
pub open spec fn width_digits(t: Seq<char>) -> Seq<char> {
    if t.len() > 0 && t[0] == '+' {
        t.drop_first()
    } else {
        t
    }
}

pub open spec fn read_width(v: Seq<char>) -> Result<u32, Seq<char>> {
    let d = width_digits(trim(v));
    if d.len() > 0 && crate::padding::all_digits(d) && crate::padding::digits_value(d) <= u32::MAX {
        Ok(crate::padding::digits_value(d) as u32)
    } else {
        Err("content_width must be a number"@)
    }
}

fn parse_width(s: &str) -> (r: Result<u32, String>)
    ensures
        r matches Ok(w) ==> read_width(s@) == Ok::<u32, Seq<char>>(w),
        r matches Err(e) ==> read_width(s@) == Err::<u32, Seq<char>>(e@),
{
    let tt = trim_str(s);
    let t = crate::text::chars_of(tt.as_str());
    assert(t@ == trim(s@));
    let start: usize = if t.len() > 0 && t[0] == '+' {
        1
    } else {
        0
    };
    let ghost d = width_digits(t@);
    proof {
        if start == 1 {
            assert(d =~= t@.skip(1));
        } else {
            assert(d =~= t@.skip(0));
        }
    }
    if start >= t.len() {
        proof {
            assert(d.len() == 0);
        }
        return Err(owned("content_width must be a number"));
    }
    let mut acc: u64 = 0;
    let mut i: usize = start;
    while i < t.len()
        invariant
            start <= i <= t.len(),
            d == t@.skip(start as int),
            d == width_digits(trim(s@)),
            d.len() > 0,
            crate::padding::all_digits(d.take(i - start)),
            acc == crate::padding::digits_value(d.take(i - start)),
            acc <= u32::MAX,
        decreases t.len() - i,
    {
        proof {
            assert(d.take(i - start + 1).drop_last() =~= d.take(i - start));
            assert(d.take(i - start + 1).last() == t@[i as int]);
        }
        let c = t[i];
        if !('0' <= c && c <= '9') {
            proof {
                assert(d[i - start] == t@[i as int]);
                assert(!crate::padding::is_digit(d[i - start]));
                assert(!crate::padding::all_digits(d));
            }
            return Err(owned("content_width must be a number"));
        }
        let next = acc * 10 + ((c as u32) as u64 - 48);
        if next > u32::MAX as u64 {
            proof {
                if crate::padding::all_digits(d) {
                    lemma_digits_value_prefix(d, i - start + 1);
                }
            }
            return Err(owned("content_width must be a number"));
        }
        acc = next;
        i += 1;
    }
    proof {
        assert(d.take(i - start) =~= d);
    }
    Ok(acc as u32)
}

/// A longer run of digits is worth at least as much as its prefix.
proof fn lemma_digits_value_prefix(d: Seq<char>, k: int)
    requires
        0 <= k <= d.len(),
        crate::padding::all_digits(d),
    ensures
        crate::padding::digits_value(d) >= crate::padding::digits_value(d.take(k)),
    decreases d.len() - k,
{
    if k < d.len() {
        lemma_digits_value_prefix(d, k + 1);
        assert(d.take(k + 1).drop_last() =~= d.take(k));
        assert(crate::padding::is_digit(d[k]));
        assert(crate::padding::all_digits(d.take(k))) by {
            assert forall|i: int| 0 <= i < k implies crate::padding::is_digit(#[trigger] d.take(k)[i]) by {
                assert(d.take(k)[i] == d[i]);
            }
        }
        crate::padding::lemma_digits_bound(d.take(k));
        assert(crate::padding::digits_value(d.take(k + 1)) >= crate::padding::digits_value(d.take(k)))
            by (nonlinear_arith)
            requires
                crate::padding::digits_value(d.take(k + 1)) == crate::padding::digits_value(d.take(k)) * 10
                    + (d[k] as int - 48),
                crate::padding::digits_value(d.take(k)) >= 0,
                d[k] as int >= 48,
        ;
    } else {
        assert(d.take(k) =~= d);
    }
}

/// What the section form shows of `x`.
pub open spec fn section_shown(x: MjSection, st: EditFormState) -> bool {
    &&& st.value("label"@) == opt_text(x.label)
    &&& st.value("background_color"@) == opt_text(x.background_color)
    &&& st.value("background_url"@) == opt_text(x.background_url)
    &&& st.value("background_size"@) == opt_text(x.background_size)
    &&& st.value("background_repeat"@) == opt_text(x.background_repeat)
    &&& st.value("padding"@) == opt_text(x.padding)
    &&& st.value("gutter"@) == opt_text(x.gutter)
    &&& st.value("direction"@) == opt_text(x.direction)
    &&& st.value("border"@) == opt_text(x.border)
    &&& st.value("border_sides"@) == sides_text(x.border_sides)
    &&& st.value("border_radius"@) == opt_text(x.border_radius)
    &&& st.value("full_width"@) == bool_text(x.full_width)
    &&& st.value("css_class"@) == opt_text(x.css_class)
}

fn section_to_form(x: &MjSection) -> (r: EditFormState)
    ensures
        r.wf(),
        r.form.title@ == form_title(FormId::Section),
        section_shown(*x, r),
{
    let mut st = EditFormState::new(edit_form(FormId::Section));
    proof {
        reveal_strlit("background_color");
        reveal_strlit("background_repeat");
        reveal_strlit("background_size");
        reveal_strlit("background_url");
        reveal_strlit("border");
        reveal_strlit("border_radius");
        reveal_strlit("border_sides");
        reveal_strlit("css_class");
        reveal_strlit("direction");
        reveal_strlit("full_width");
        reveal_strlit("gutter");
        reveal_strlit("label");
        reveal_strlit("padding");
        assert("background_color"@.len() == 16);
        assert("background_repeat"@.len() == 17);
        assert("background_size"@.len() == 15);
        assert("background_url"@.len() == 14);
        assert("border"@.len() == 6);
        assert("border_radius"@.len() == 13);
        assert("border_sides"@.len() == 12);
        assert("css_class"@.len() == 9);
        assert("direction"@.len() == 9);
        assert("full_width"@.len() == 10);
        assert("gutter"@.len() == 6);
        assert("label"@.len() == 5);
        assert("padding"@.len() == 7);
        assert("border"@[0] == 'b');
        assert("css_class"@[0] == 'c');
        assert("direction"@[0] == 'd');
        assert("gutter"@[0] == 'g');
    }
    st.set("label", opt_get(&x.label));
    st.set("background_color", opt_get(&x.background_color));
    st.set("background_url", opt_get(&x.background_url));
    st.set("background_size", opt_get(&x.background_size));
    st.set("background_repeat", opt_get(&x.background_repeat));
    st.set("padding", opt_get(&x.padding));
    st.set("gutter", opt_get(&x.gutter));
    st.set("direction", opt_get(&x.direction));
    st.set("border", opt_get(&x.border));
    st.set("border_sides", sides_to_form(&x.border_sides));
    st.set("border_radius", opt_get(&x.border_radius));
    st.set("full_width", owned(bool_str(x.full_width)));
    st.set("css_class", opt_get(&x.css_class));
    st
}

/// The message of the first field of the section form that does not read.
pub open spec fn section_first_error(st: EditFormState) -> Seq<char> {
    if !(read_padding("padding"@, st.value("padding"@)) is Ok) {
        read_padding("padding"@, st.value("padding"@))->Err_0
    } else if !(read_unit("gutter"@, st.value("gutter"@)) is Ok) {
        read_unit("gutter"@, st.value("gutter"@))->Err_0
    } else if !(read_sides("border_sides"@, st.value("border_sides"@)) is Ok) {
        read_sides("border_sides"@, st.value("border_sides"@))->Err_0
    } else if !(read_unit("border_radius"@, st.value("border_radius"@)) is Ok) {
        read_unit("border_radius"@, st.value("border_radius"@))->Err_0
    } else if !(read_bool(st.value("full_width"@)) is Ok) {
        read_bool(st.value("full_width"@))->Err_0
    } else {
        Seq::empty()
    }
}

/// What writing the section form back does: `o` before, `n` after.
pub open spec fn section_applied(o: MjSection, n: MjSection, st: EditFormState, r: Result<(), String>) -> bool {
    &&& opt_view(n.label) == read_opt(st.value("label"@))
    &&& opt_view(n.background_color) == read_opt(st.value("background_color"@))
    &&& opt_view(n.background_url) == read_opt(st.value("background_url"@))
    &&& opt_view(n.background_size) == read_opt(st.value("background_size"@))
    &&& opt_view(n.background_repeat) == read_opt(st.value("background_repeat"@))
    &&& (read_padding("padding"@, st.value("padding"@)) is Ok) ==> opt_view(n.padding) == read_padding("padding"@, st.value("padding"@))->Ok_0
    &&& !(read_padding("padding"@, st.value("padding"@)) is Ok) ==> n.padding == o.padding
    &&& (read_padding("padding"@, st.value("padding"@)) is Ok && read_unit("gutter"@, st.value("gutter"@)) is Ok) ==> opt_view(n.gutter) == read_unit("gutter"@, st.value("gutter"@))->Ok_0
    &&& !(read_padding("padding"@, st.value("padding"@)) is Ok && read_unit("gutter"@, st.value("gutter"@)) is Ok) ==> n.gutter == o.gutter
    &&& (read_padding("padding"@, st.value("padding"@)) is Ok && read_unit("gutter"@, st.value("gutter"@)) is Ok) ==> opt_view(n.direction) == read_opt(st.value("direction"@))
    &&& !(read_padding("padding"@, st.value("padding"@)) is Ok && read_unit("gutter"@, st.value("gutter"@)) is Ok) ==> n.direction == o.direction
    &&& (read_padding("padding"@, st.value("padding"@)) is Ok && read_unit("gutter"@, st.value("gutter"@)) is Ok) ==> opt_view(n.border) == read_opt(st.value("border"@))
    &&& !(read_padding("padding"@, st.value("padding"@)) is Ok && read_unit("gutter"@, st.value("gutter"@)) is Ok) ==> n.border == o.border
    &&& (read_padding("padding"@, st.value("padding"@)) is Ok && read_unit("gutter"@, st.value("gutter"@)) is Ok && read_sides("border_sides"@, st.value("border_sides"@)) is Ok) ==> opt_view(n.border_sides) == read_sides("border_sides"@, st.value("border_sides"@))->Ok_0
    &&& !(read_padding("padding"@, st.value("padding"@)) is Ok && read_unit("gutter"@, st.value("gutter"@)) is Ok && read_sides("border_sides"@, st.value("border_sides"@)) is Ok) ==> n.border_sides == o.border_sides
    &&& (read_padding("padding"@, st.value("padding"@)) is Ok && read_unit("gutter"@, st.value("gutter"@)) is Ok && read_sides("border_sides"@, st.value("border_sides"@)) is Ok && read_unit("border_radius"@, st.value("border_radius"@)) is Ok) ==> opt_view(n.border_radius) == read_unit("border_radius"@, st.value("border_radius"@))->Ok_0
    &&& !(read_padding("padding"@, st.value("padding"@)) is Ok && read_unit("gutter"@, st.value("gutter"@)) is Ok && read_sides("border_sides"@, st.value("border_sides"@)) is Ok && read_unit("border_radius"@, st.value("border_radius"@)) is Ok) ==> n.border_radius == o.border_radius
    &&& (read_padding("padding"@, st.value("padding"@)) is Ok && read_unit("gutter"@, st.value("gutter"@)) is Ok && read_sides("border_sides"@, st.value("border_sides"@)) is Ok && read_unit("border_radius"@, st.value("border_radius"@)) is Ok && read_bool(st.value("full_width"@)) is Ok) ==> n.full_width == read_bool(st.value("full_width"@))->Ok_0
    &&& !(read_padding("padding"@, st.value("padding"@)) is Ok && read_unit("gutter"@, st.value("gutter"@)) is Ok && read_sides("border_sides"@, st.value("border_sides"@)) is Ok && read_unit("border_radius"@, st.value("border_radius"@)) is Ok && read_bool(st.value("full_width"@)) is Ok) ==> n.full_width == o.full_width
    &&& (read_padding("padding"@, st.value("padding"@)) is Ok && read_unit("gutter"@, st.value("gutter"@)) is Ok && read_sides("border_sides"@, st.value("border_sides"@)) is Ok && read_unit("border_radius"@, st.value("border_radius"@)) is Ok && read_bool(st.value("full_width"@)) is Ok) ==> opt_view(n.css_class) == read_opt(st.value("css_class"@))
    &&& !(read_padding("padding"@, st.value("padding"@)) is Ok && read_unit("gutter"@, st.value("gutter"@)) is Ok && read_sides("border_sides"@, st.value("border_sides"@)) is Ok && read_unit("border_radius"@, st.value("border_radius"@)) is Ok && read_bool(st.value("full_width"@)) is Ok) ==> n.css_class == o.css_class
    &&& n.children == o.children
    &&& r is Ok <==> (read_padding("padding"@, st.value("padding"@)) is Ok && read_unit("gutter"@, st.value("gutter"@)) is Ok && read_sides("border_sides"@, st.value("border_sides"@)) is Ok && read_unit("border_radius"@, st.value("border_radius"@)) is Ok && read_bool(st.value("full_width"@)) is Ok)
    &&& r matches Err(e) ==> e@ == section_first_error(st)
}

fn apply_section(x: &mut MjSection, state: &EditFormState) -> (r: Result<(), String>)
    ensures
        section_applied(*old(x), *final(x), *state, r),
{
    x.label = opt_set(state, "label");
    x.background_color = opt_set(state, "background_color");
    x.background_url = opt_set(state, "background_url");
    x.background_size = opt_set(state, "background_size");
    x.background_repeat = opt_set(state, "background_repeat");
    match opt_set_named_padding(state, "padding") {
        Ok(v) => {
            x.padding = v;
        },
        Err(e) => {
            return Err(e);
        },
    }
    match opt_set_unit(state, "gutter") {
        Ok(v) => {
            x.gutter = v;
        },
        Err(e) => {
            return Err(e);
        },
    }
    x.direction = opt_set(state, "direction");
    x.border = opt_set(state, "border");
    match opt_set_sides(state, "border_sides") {
        Ok(v) => {
            x.border_sides = v;
        },
        Err(e) => {
            return Err(e);
        },
    }
    match opt_set_unit(state, "border_radius") {
        Ok(v) => {
            x.border_radius = v;
        },
        Err(e) => {
            return Err(e);
        },
    }
    match parse_bool(state.get("full_width")) {
        Ok(v) => {
            x.full_width = v;
        },
        Err(e) => {
            return Err(e);
        },
    }
    x.css_class = opt_set(state, "css_class");
    Ok(())
}

/// What the wrapper form shows of `x`.
pub open spec fn wrapper_shown(x: MjWrapper, st: EditFormState) -> bool {
    &&& st.value("label"@) == opt_text(x.label)
    &&& st.value("background_color"@) == opt_text(x.background_color)
    &&& st.value("background_url"@) == opt_text(x.background_url)
    &&& st.value("background_size"@) == opt_text(x.background_size)
    &&& st.value("background_repeat"@) == opt_text(x.background_repeat)
    &&& st.value("padding"@) == opt_text(x.padding)
    &&& st.value("gap"@) == opt_text(x.gap)
    &&& st.value("border"@) == opt_text(x.border)
    &&& st.value("border_sides"@) == sides_text(x.border_sides)
    &&& st.value("border_radius"@) == opt_text(x.border_radius)
    &&& st.value("full_width"@) == bool_text(x.full_width)
    &&& st.value("css_class"@) == opt_text(x.css_class)
}

fn wrapper_to_form(x: &MjWrapper) -> (r: EditFormState)
    ensures
        r.wf(),
        r.form.title@ == form_title(FormId::Wrapper),
        wrapper_shown(*x, r),
{
    let mut st = EditFormState::new(edit_form(FormId::Wrapper));
    proof {
        reveal_strlit("background_color");
        reveal_strlit("background_repeat");
        reveal_strlit("background_size");
        reveal_strlit("background_url");
        reveal_strlit("border");
        reveal_strlit("border_radius");
        reveal_strlit("border_sides");
        reveal_strlit("css_class");
        reveal_strlit("full_width");
        reveal_strlit("gap");
        reveal_strlit("label");
        reveal_strlit("padding");
        assert("background_color"@.len() == 16);
        assert("background_repeat"@.len() == 17);
        assert("background_size"@.len() == 15);
        assert("background_url"@.len() == 14);
        assert("border"@.len() == 6);
        assert("border_radius"@.len() == 13);
        assert("border_sides"@.len() == 12);
        assert("css_class"@.len() == 9);
        assert("full_width"@.len() == 10);
        assert("gap"@.len() == 3);
        assert("label"@.len() == 5);
        assert("padding"@.len() == 7);
    }
    st.set("label", opt_get(&x.label));
    st.set("background_color", opt_get(&x.background_color));
    st.set("background_url", opt_get(&x.background_url));
    st.set("background_size", opt_get(&x.background_size));
    st.set("background_repeat", opt_get(&x.background_repeat));
    st.set("padding", opt_get(&x.padding));
    st.set("gap", opt_get(&x.gap));
    st.set("border", opt_get(&x.border));
    st.set("border_sides", sides_to_form(&x.border_sides));
    st.set("border_radius", opt_get(&x.border_radius));
    st.set("full_width", owned(bool_str(x.full_width)));
    st.set("css_class", opt_get(&x.css_class));
    st
}

/// The message of the first field of the wrapper form that does not read.
pub open spec fn wrapper_first_error(st: EditFormState) -> Seq<char> {
    if !(read_padding("padding"@, st.value("padding"@)) is Ok) {
        read_padding("padding"@, st.value("padding"@))->Err_0
    } else if !(read_unit("gap"@, st.value("gap"@)) is Ok) {
        read_unit("gap"@, st.value("gap"@))->Err_0
    } else if !(read_sides("border_sides"@, st.value("border_sides"@)) is Ok) {
        read_sides("border_sides"@, st.value("border_sides"@))->Err_0
    } else if !(read_unit("border_radius"@, st.value("border_radius"@)) is Ok) {
        read_unit("border_radius"@, st.value("border_radius"@))->Err_0
    } else if !(read_bool(st.value("full_width"@)) is Ok) {
        read_bool(st.value("full_width"@))->Err_0
    } else {
        Seq::empty()
    }
}

/// What writing the wrapper form back does: `o` before, `n` after.
pub open spec fn wrapper_applied(o: MjWrapper, n: MjWrapper, st: EditFormState, r: Result<(), String>) -> bool {
    &&& opt_view(n.label) == read_opt(st.value("label"@))
    &&& opt_view(n.background_color) == read_opt(st.value("background_color"@))
    &&& opt_view(n.background_url) == read_opt(st.value("background_url"@))
    &&& opt_view(n.background_size) == read_opt(st.value("background_size"@))
    &&& opt_view(n.background_repeat) == read_opt(st.value("background_repeat"@))
    &&& (read_padding("padding"@, st.value("padding"@)) is Ok) ==> opt_view(n.padding) == read_padding("padding"@, st.value("padding"@))->Ok_0
    &&& !(read_padding("padding"@, st.value("padding"@)) is Ok) ==> n.padding == o.padding
    &&& (read_padding("padding"@, st.value("padding"@)) is Ok && read_unit("gap"@, st.value("gap"@)) is Ok) ==> opt_view(n.gap) == read_unit("gap"@, st.value("gap"@))->Ok_0
    &&& !(read_padding("padding"@, st.value("padding"@)) is Ok && read_unit("gap"@, st.value("gap"@)) is Ok) ==> n.gap == o.gap
    &&& (read_padding("padding"@, st.value("padding"@)) is Ok && read_unit("gap"@, st.value("gap"@)) is Ok) ==> opt_view(n.border) == read_opt(st.value("border"@))
    &&& !(read_padding("padding"@, st.value("padding"@)) is Ok && read_unit("gap"@, st.value("gap"@)) is Ok) ==> n.border == o.border
    &&& (read_padding("padding"@, st.value("padding"@)) is Ok && read_unit("gap"@, st.value("gap"@)) is Ok && read_sides("border_sides"@, st.value("border_sides"@)) is Ok) ==> opt_view(n.border_sides) == read_sides("border_sides"@, st.value("border_sides"@))->Ok_0
    &&& !(read_padding("padding"@, st.value("padding"@)) is Ok && read_unit("gap"@, st.value("gap"@)) is Ok && read_sides("border_sides"@, st.value("border_sides"@)) is Ok) ==> n.border_sides == o.border_sides
    &&& (read_padding("padding"@, st.value("padding"@)) is Ok && read_unit("gap"@, st.value("gap"@)) is Ok && read_sides("border_sides"@, st.value("border_sides"@)) is Ok && read_unit("border_radius"@, st.value("border_radius"@)) is Ok) ==> opt_view(n.border_radius) == read_unit("border_radius"@, st.value("border_radius"@))->Ok_0
    &&& !(read_padding("padding"@, st.value("padding"@)) is Ok && read_unit("gap"@, st.value("gap"@)) is Ok && read_sides("border_sides"@, st.value("border_sides"@)) is Ok && read_unit("border_radius"@, st.value("border_radius"@)) is Ok) ==> n.border_radius == o.border_radius
    &&& (read_padding("padding"@, st.value("padding"@)) is Ok && read_unit("gap"@, st.value("gap"@)) is Ok && read_sides("border_sides"@, st.value("border_sides"@)) is Ok && read_unit("border_radius"@, st.value("border_radius"@)) is Ok && read_bool(st.value("full_width"@)) is Ok) ==> n.full_width == read_bool(st.value("full_width"@))->Ok_0
    &&& !(read_padding("padding"@, st.value("padding"@)) is Ok && read_unit("gap"@, st.value("gap"@)) is Ok && read_sides("border_sides"@, st.value("border_sides"@)) is Ok && read_unit("border_radius"@, st.value("border_radius"@)) is Ok && read_bool(st.value("full_width"@)) is Ok) ==> n.full_width == o.full_width
    &&& (read_padding("padding"@, st.value("padding"@)) is Ok && read_unit("gap"@, st.value("gap"@)) is Ok && read_sides("border_sides"@, st.value("border_sides"@)) is Ok && read_unit("border_radius"@, st.value("border_radius"@)) is Ok && read_bool(st.value("full_width"@)) is Ok) ==> opt_view(n.css_class) == read_opt(st.value("css_class"@))
    &&& !(read_padding("padding"@, st.value("padding"@)) is Ok && read_unit("gap"@, st.value("gap"@)) is Ok && read_sides("border_sides"@, st.value("border_sides"@)) is Ok && read_unit("border_radius"@, st.value("border_radius"@)) is Ok && read_bool(st.value("full_width"@)) is Ok) ==> n.css_class == o.css_class
    &&& n.children == o.children
    &&& r is Ok <==> (read_padding("padding"@, st.value("padding"@)) is Ok && read_unit("gap"@, st.value("gap"@)) is Ok && read_sides("border_sides"@, st.value("border_sides"@)) is Ok && read_unit("border_radius"@, st.value("border_radius"@)) is Ok && read_bool(st.value("full_width"@)) is Ok)
    &&& r matches Err(e) ==> e@ == wrapper_first_error(st)
}

fn apply_wrapper(x: &mut MjWrapper, state: &EditFormState) -> (r: Result<(), String>)
    ensures
        wrapper_applied(*old(x), *final(x), *state, r),
{
    x.label = opt_set(state, "label");
    x.background_color = opt_set(state, "background_color");
    x.background_url = opt_set(state, "background_url");
    x.background_size = opt_set(state, "background_size");
    x.background_repeat = opt_set(state, "background_repeat");
    match opt_set_named_padding(state, "padding") {
        Ok(v) => {
            x.padding = v;
        },
        Err(e) => {
            return Err(e);
        },
    }
    match opt_set_unit(state, "gap") {
        Ok(v) => {
            x.gap = v;
        },
        Err(e) => {
            return Err(e);
        },
    }
    x.border = opt_set(state, "border");
    match opt_set_sides(state, "border_sides") {
        Ok(v) => {
            x.border_sides = v;
        },
        Err(e) => {
            return Err(e);
        },
    }
    match opt_set_unit(state, "border_radius") {
        Ok(v) => {
            x.border_radius = v;
        },
        Err(e) => {
            return Err(e);
        },
    }
    match parse_bool(state.get("full_width")) {
        Ok(v) => {
            x.full_width = v;
        },
        Err(e) => {
            return Err(e);
        },
    }
    x.css_class = opt_set(state, "css_class");
    Ok(())
}

/// What the column form shows of `x`.
pub open spec fn column_shown(x: MjColumn, st: EditFormState) -> bool {
    &&& st.value("width"@) == opt_text(x.width)
    &&& st.value("background_color"@) == opt_text(x.background_color)
    &&& st.value("padding"@) == opt_text(x.padding)
    &&& st.value("inner_background_color"@) == opt_text(x.inner_background_color)
    &&& st.value("border"@) == opt_text(x.border)
    &&& st.value("border_sides"@) == sides_text(x.border_sides)
    &&& st.value("border_radius"@) == opt_text(x.border_radius)
    &&& st.value("inner_border"@) == opt_text(x.inner_border)
    &&& st.value("inner_border_sides"@) == sides_text(x.inner_border_sides)
    &&& st.value("inner_border_radius"@) == opt_text(x.inner_border_radius)
    &&& st.value("vertical_align"@) == opt_text(x.vertical_align)
    &&& st.value("css_class"@) == opt_text(x.css_class)
}

fn column_to_form(x: &MjColumn) -> (r: EditFormState)
    ensures
        r.wf(),
        r.form.title@ == form_title(FormId::Column),
        column_shown(*x, r),
{
    let mut st = EditFormState::new(edit_form(FormId::Column));
    proof {
        reveal_strlit("background_color");
        reveal_strlit("border");
        reveal_strlit("border_radius");
        reveal_strlit("border_sides");
        reveal_strlit("css_class");
        reveal_strlit("inner_background_color");
        reveal_strlit("inner_border");
        reveal_strlit("inner_border_radius");
        reveal_strlit("inner_border_sides");
        reveal_strlit("padding");
        reveal_strlit("vertical_align");
        reveal_strlit("width");
        assert("background_color"@.len() == 16);
        assert("border"@.len() == 6);
        assert("border_radius"@.len() == 13);
        assert("border_sides"@.len() == 12);
        assert("css_class"@.len() == 9);
        assert("inner_background_color"@.len() == 22);
        assert("inner_border"@.len() == 12);
        assert("inner_border_radius"@.len() == 19);
        assert("inner_border_sides"@.len() == 18);
        assert("padding"@.len() == 7);
        assert("vertical_align"@.len() == 14);
        assert("width"@.len() == 5);
        assert("border_sides"@[0] == 'b');
        assert("inner_border"@[0] == 'i');
    }
    st.set("width", opt_get(&x.width));
    st.set("background_color", opt_get(&x.background_color));
    st.set("padding", opt_get(&x.padding));
    st.set("inner_background_color", opt_get(&x.inner_background_color));
    st.set("border", opt_get(&x.border));
    st.set("border_sides", sides_to_form(&x.border_sides));
    st.set("border_radius", opt_get(&x.border_radius));
    st.set("inner_border", opt_get(&x.inner_border));
    st.set("inner_border_sides", sides_to_form(&x.inner_border_sides));
    st.set("inner_border_radius", opt_get(&x.inner_border_radius));
    st.set("vertical_align", opt_get(&x.vertical_align));
    st.set("css_class", opt_get(&x.css_class));
    st
}

/// The message of the first field of the column form that does not read.
pub open spec fn column_first_error(st: EditFormState) -> Seq<char> {
    if !(read_padding("padding"@, st.value("padding"@)) is Ok) {
        read_padding("padding"@, st.value("padding"@))->Err_0
    } else if !(read_sides("border_sides"@, st.value("border_sides"@)) is Ok) {
        read_sides("border_sides"@, st.value("border_sides"@))->Err_0
    } else if !(read_unit("border_radius"@, st.value("border_radius"@)) is Ok) {
        read_unit("border_radius"@, st.value("border_radius"@))->Err_0
    } else if !(read_sides("inner_border_sides"@, st.value("inner_border_sides"@)) is Ok) {
        read_sides("inner_border_sides"@, st.value("inner_border_sides"@))->Err_0
    } else if !(read_unit("inner_border_radius"@, st.value("inner_border_radius"@)) is Ok) {
        read_unit("inner_border_radius"@, st.value("inner_border_radius"@))->Err_0
    } else {
        Seq::empty()
    }
}

/// What writing the column form back does: `o` before, `n` after.
pub open spec fn column_applied(o: MjColumn, n: MjColumn, st: EditFormState, r: Result<(), String>) -> bool {
    &&& opt_view(n.width) == read_opt(st.value("width"@))
    &&& opt_view(n.background_color) == read_opt(st.value("background_color"@))
    &&& (read_padding("padding"@, st.value("padding"@)) is Ok) ==> opt_view(n.padding) == read_padding("padding"@, st.value("padding"@))->Ok_0
    &&& !(read_padding("padding"@, st.value("padding"@)) is Ok) ==> n.padding == o.padding
    &&& (read_padding("padding"@, st.value("padding"@)) is Ok) ==> opt_view(n.inner_background_color) == read_opt(st.value("inner_background_color"@))
    &&& !(read_padding("padding"@, st.value("padding"@)) is Ok) ==> n.inner_background_color == o.inner_background_color
    &&& (read_padding("padding"@, st.value("padding"@)) is Ok) ==> opt_view(n.border) == read_opt(st.value("border"@))
    &&& !(read_padding("padding"@, st.value("padding"@)) is Ok) ==> n.border == o.border
    &&& (read_padding("padding"@, st.value("padding"@)) is Ok && read_sides("border_sides"@, st.value("border_sides"@)) is Ok) ==> opt_view(n.border_sides) == read_sides("border_sides"@, st.value("border_sides"@))->Ok_0
    &&& !(read_padding("padding"@, st.value("padding"@)) is Ok && read_sides("border_sides"@, st.value("border_sides"@)) is Ok) ==> n.border_sides == o.border_sides
    &&& (read_padding("padding"@, st.value("padding"@)) is Ok && read_sides("border_sides"@, st.value("border_sides"@)) is Ok && read_unit("border_radius"@, st.value("border_radius"@)) is Ok) ==> opt_view(n.border_radius) == read_unit("border_radius"@, st.value("border_radius"@))->Ok_0
    &&& !(read_padding("padding"@, st.value("padding"@)) is Ok && read_sides("border_sides"@, st.value("border_sides"@)) is Ok && read_unit("border_radius"@, st.value("border_radius"@)) is Ok) ==> n.border_radius == o.border_radius
    &&& (read_padding("padding"@, st.value("padding"@)) is Ok && read_sides("border_sides"@, st.value("border_sides"@)) is Ok && read_unit("border_radius"@, st.value("border_radius"@)) is Ok) ==> opt_view(n.inner_border) == read_opt(st.value("inner_border"@))
    &&& !(read_padding("padding"@, st.value("padding"@)) is Ok && read_sides("border_sides"@, st.value("border_sides"@)) is Ok && read_unit("border_radius"@, st.value("border_radius"@)) is Ok) ==> n.inner_border == o.inner_border
    &&& (read_padding("padding"@, st.value("padding"@)) is Ok && read_sides("border_sides"@, st.value("border_sides"@)) is Ok && read_unit("border_radius"@, st.value("border_radius"@)) is Ok && read_sides("inner_border_sides"@, st.value("inner_border_sides"@)) is Ok) ==> opt_view(n.inner_border_sides) == read_sides("inner_border_sides"@, st.value("inner_border_sides"@))->Ok_0
    &&& !(read_padding("padding"@, st.value("padding"@)) is Ok && read_sides("border_sides"@, st.value("border_sides"@)) is Ok && read_unit("border_radius"@, st.value("border_radius"@)) is Ok && read_sides("inner_border_sides"@, st.value("inner_border_sides"@)) is Ok) ==> n.inner_border_sides == o.inner_border_sides
    &&& (read_padding("padding"@, st.value("padding"@)) is Ok && read_sides("border_sides"@, st.value("border_sides"@)) is Ok && read_unit("border_radius"@, st.value("border_radius"@)) is Ok && read_sides("inner_border_sides"@, st.value("inner_border_sides"@)) is Ok && read_unit("inner_border_radius"@, st.value("inner_border_radius"@)) is Ok) ==> opt_view(n.inner_border_radius) == read_unit("inner_border_radius"@, st.value("inner_border_radius"@))->Ok_0
    &&& !(read_padding("padding"@, st.value("padding"@)) is Ok && read_sides("border_sides"@, st.value("border_sides"@)) is Ok && read_unit("border_radius"@, st.value("border_radius"@)) is Ok && read_sides("inner_border_sides"@, st.value("inner_border_sides"@)) is Ok && read_unit("inner_border_radius"@, st.value("inner_border_radius"@)) is Ok) ==> n.inner_border_radius == o.inner_border_radius
    &&& (read_padding("padding"@, st.value("padding"@)) is Ok && read_sides("border_sides"@, st.value("border_sides"@)) is Ok && read_unit("border_radius"@, st.value("border_radius"@)) is Ok && read_sides("inner_border_sides"@, st.value("inner_border_sides"@)) is Ok && read_unit("inner_border_radius"@, st.value("inner_border_radius"@)) is Ok) ==> opt_view(n.vertical_align) == read_opt(st.value("vertical_align"@))
    &&& !(read_padding("padding"@, st.value("padding"@)) is Ok && read_sides("border_sides"@, st.value("border_sides"@)) is Ok && read_unit("border_radius"@, st.value("border_radius"@)) is Ok && read_sides("inner_border_sides"@, st.value("inner_border_sides"@)) is Ok && read_unit("inner_border_radius"@, st.value("inner_border_radius"@)) is Ok) ==> n.vertical_align == o.vertical_align
    &&& (read_padding("padding"@, st.value("padding"@)) is Ok && read_sides("border_sides"@, st.value("border_sides"@)) is Ok && read_unit("border_radius"@, st.value("border_radius"@)) is Ok && read_sides("inner_border_sides"@, st.value("inner_border_sides"@)) is Ok && read_unit("inner_border_radius"@, st.value("inner_border_radius"@)) is Ok) ==> opt_view(n.css_class) == read_opt(st.value("css_class"@))
    &&& !(read_padding("padding"@, st.value("padding"@)) is Ok && read_sides("border_sides"@, st.value("border_sides"@)) is Ok && read_unit("border_radius"@, st.value("border_radius"@)) is Ok && read_sides("inner_border_sides"@, st.value("inner_border_sides"@)) is Ok && read_unit("inner_border_radius"@, st.value("inner_border_radius"@)) is Ok) ==> n.css_class == o.css_class
    &&& n.components == o.components
    &&& r is Ok <==> (read_padding("padding"@, st.value("padding"@)) is Ok && read_sides("border_sides"@, st.value("border_sides"@)) is Ok && read_unit("border_radius"@, st.value("border_radius"@)) is Ok && read_sides("inner_border_sides"@, st.value("inner_border_sides"@)) is Ok && read_unit("inner_border_radius"@, st.value("inner_border_radius"@)) is Ok)
    &&& r matches Err(e) ==> e@ == column_first_error(st)
}

fn apply_column(x: &mut MjColumn, state: &EditFormState) -> (r: Result<(), String>)
    ensures
        column_applied(*old(x), *final(x), *state, r),
{
    x.width = opt_set(state, "width");
    x.background_color = opt_set(state, "background_color");
    match opt_set_named_padding(state, "padding") {
        Ok(v) => {
            x.padding = v;
        },
        Err(e) => {
            return Err(e);
        },
    }
    x.inner_background_color = opt_set(state, "inner_background_color");
    x.border = opt_set(state, "border");
    match opt_set_sides(state, "border_sides") {
        Ok(v) => {
            x.border_sides = v;
        },
        Err(e) => {
            return Err(e);
        },
    }
    match opt_set_unit(state, "border_radius") {
        Ok(v) => {
            x.border_radius = v;
        },
        Err(e) => {
            return Err(e);
        },
    }
    x.inner_border = opt_set(state, "inner_border");
    match opt_set_sides(state, "inner_border_sides") {
        Ok(v) => {
            x.inner_border_sides = v;
        },
        Err(e) => {
            return Err(e);
        },
    }
    match opt_set_unit(state, "inner_border_radius") {
        Ok(v) => {
            x.inner_border_radius = v;
        },
        Err(e) => {
            return Err(e);
        },
    }
    x.vertical_align = opt_set(state, "vertical_align");
    x.css_class = opt_set(state, "css_class");
    Ok(())
}

/// What the group form shows of `x`.
pub open spec fn group_shown(x: MjGroup, st: EditFormState) -> bool {
    &&& st.value("width"@) == opt_text(x.width)
    &&& st.value("background_color"@) == opt_text(x.background_color)
    &&& st.value("direction"@) == opt_text(x.direction)
    &&& st.value("vertical_align"@) == opt_text(x.vertical_align)
    &&& st.value("css_class"@) == opt_text(x.css_class)
}

fn group_to_form(x: &MjGroup) -> (r: EditFormState)
    ensures
        r.wf(),
        r.form.title@ == form_title(FormId::Group),
        group_shown(*x, r),
{
    let mut st = EditFormState::new(edit_form(FormId::Group));
    proof {
        reveal_strlit("background_color");
        reveal_strlit("css_class");
        reveal_strlit("direction");
        reveal_strlit("vertical_align");
        reveal_strlit("width");
        assert("background_color"@.len() == 16);
        assert("css_class"@.len() == 9);
        assert("direction"@.len() == 9);
        assert("vertical_align"@.len() == 14);
        assert("width"@.len() == 5);
        assert("css_class"@[0] == 'c');
        assert("direction"@[0] == 'd');
    }
    st.set("width", opt_get(&x.width));
    st.set("background_color", opt_get(&x.background_color));
    st.set("direction", opt_get(&x.direction));
    st.set("vertical_align", opt_get(&x.vertical_align));
    st.set("css_class", opt_get(&x.css_class));
    st
}

/// What writing the group form back does: `o` before, `n` after.
pub open spec fn group_applied(o: MjGroup, n: MjGroup, st: EditFormState, r: Result<(), String>) -> bool {
    &&& opt_view(n.width) == read_opt(st.value("width"@))
    &&& opt_view(n.background_color) == read_opt(st.value("background_color"@))
    &&& opt_view(n.direction) == read_opt(st.value("direction"@))
    &&& opt_view(n.vertical_align) == read_opt(st.value("vertical_align"@))
    &&& opt_view(n.css_class) == read_opt(st.value("css_class"@))
    &&& n.children == o.children
    &&& r is Ok <==> (true)
}

fn apply_group(x: &mut MjGroup, state: &EditFormState) -> (r: Result<(), String>)
    ensures
        group_applied(*old(x), *final(x), *state, r),
{
    x.width = opt_set(state, "width");
    x.background_color = opt_set(state, "background_color");
    x.direction = opt_set(state, "direction");
    x.vertical_align = opt_set(state, "vertical_align");
    x.css_class = opt_set(state, "css_class");
    Ok(())
}

/// What the hero form shows of `x`.
pub open spec fn hero_shown(x: MjHero, st: EditFormState) -> bool {
    &&& st.value("mode"@) == hero_mode_text(x.mode)
    &&& st.value("background_url"@) == opt_text(x.background_url)
    &&& st.value("background_color"@) == opt_text(x.background_color)
    &&& st.value("background_height"@) == opt_text(x.background_height)
    &&& st.value("background_width"@) == opt_text(x.background_width)
    &&& st.value("background_position"@) == opt_text(x.background_position)
    &&& st.value("width"@) == opt_text(x.width)
    &&& st.value("height"@) == opt_text(x.height)
    &&& st.value("padding"@) == opt_text(x.padding)
    &&& st.value("inner_padding"@) == opt_text(x.inner_padding)
    &&& st.value("border_radius"@) == opt_text(x.border_radius)
    &&& st.value("vertical_align"@) == opt_text(x.vertical_align)
    &&& st.value("css_class"@) == opt_text(x.css_class)
}

fn hero_to_form(x: &MjHero) -> (r: EditFormState)
    ensures
        r.wf(),
        r.form.title@ == form_title(FormId::Hero),
        hero_shown(*x, r),
{
    let mut st = EditFormState::new(edit_form(FormId::Hero));
    proof {
        reveal_strlit("background_color");
        reveal_strlit("background_height");
        reveal_strlit("background_position");
        reveal_strlit("background_url");
        reveal_strlit("background_width");
        reveal_strlit("border_radius");
        reveal_strlit("css_class");
        reveal_strlit("height");
        reveal_strlit("inner_padding");
        reveal_strlit("mode");
        reveal_strlit("padding");
        reveal_strlit("vertical_align");
        reveal_strlit("width");
        assert("background_color"@.len() == 16);
        assert("background_height"@.len() == 17);
        assert("background_position"@.len() == 19);
        assert("background_url"@.len() == 14);
        assert("background_width"@.len() == 16);
        assert("border_radius"@.len() == 13);
        assert("css_class"@.len() == 9);
        assert("height"@.len() == 6);
        assert("inner_padding"@.len() == 13);
        assert("mode"@.len() == 4);
        assert("padding"@.len() == 7);
        assert("vertical_align"@.len() == 14);
        assert("width"@.len() == 5);
        assert("background_color"@[11] == 'c');
        assert("background_url"@[0] == 'b');
        assert("background_width"@[11] == 'w');
        assert("border_radius"@[0] == 'b');
        assert("inner_padding"@[0] == 'i');
        assert("vertical_align"@[0] == 'v');
    }
    st.set("mode", owned(hero_mode_str(x.mode)));
    st.set("background_url", opt_get(&x.background_url));
    st.set("background_color", opt_get(&x.background_color));
    st.set("background_height", opt_get(&x.background_height));
    st.set("background_width", opt_get(&x.background_width));
    st.set("background_position", opt_get(&x.background_position));
    st.set("width", opt_get(&x.width));
    st.set("height", opt_get(&x.height));
    st.set("padding", opt_get(&x.padding));
    st.set("inner_padding", opt_get(&x.inner_padding));
    st.set("border_radius", opt_get(&x.border_radius));
    st.set("vertical_align", opt_get(&x.vertical_align));
    st.set("css_class", opt_get(&x.css_class));
    st
}

/// The message of the first field of the hero form that does not read.
pub open spec fn hero_first_error(st: EditFormState) -> Seq<char> {
    if !(read_hero_mode(st.value("mode"@)) is Ok) {
        read_hero_mode(st.value("mode"@))->Err_0
    } else if !(read_padding("padding"@, st.value("padding"@)) is Ok) {
        read_padding("padding"@, st.value("padding"@))->Err_0
    } else if !(read_padding("inner_padding"@, st.value("inner_padding"@)) is Ok) {
        read_padding("inner_padding"@, st.value("inner_padding"@))->Err_0
    } else if !(read_unit("border_radius"@, st.value("border_radius"@)) is Ok) {
        read_unit("border_radius"@, st.value("border_radius"@))->Err_0
    } else {
        Seq::empty()
    }
}

/// What writing the hero form back does: `o` before, `n` after.
pub open spec fn hero_applied(o: MjHero, n: MjHero, st: EditFormState, r: Result<(), String>) -> bool {
    &&& (read_hero_mode(st.value("mode"@)) is Ok) ==> n.mode == read_hero_mode(st.value("mode"@))->Ok_0
    &&& !(read_hero_mode(st.value("mode"@)) is Ok) ==> n.mode == o.mode
    &&& (read_hero_mode(st.value("mode"@)) is Ok) ==> opt_view(n.background_url) == read_opt(st.value("background_url"@))
    &&& !(read_hero_mode(st.value("mode"@)) is Ok) ==> n.background_url == o.background_url
    &&& (read_hero_mode(st.value("mode"@)) is Ok) ==> opt_view(n.background_color) == read_opt(st.value("background_color"@))
    &&& !(read_hero_mode(st.value("mode"@)) is Ok) ==> n.background_color == o.background_color
    &&& (read_hero_mode(st.value("mode"@)) is Ok) ==> opt_view(n.background_height) == read_opt(st.value("background_height"@))
    &&& !(read_hero_mode(st.value("mode"@)) is Ok) ==> n.background_height == o.background_height
    &&& (read_hero_mode(st.value("mode"@)) is Ok) ==> opt_view(n.background_width) == read_opt(st.value("background_width"@))
    &&& !(read_hero_mode(st.value("mode"@)) is Ok) ==> n.background_width == o.background_width
    &&& (read_hero_mode(st.value("mode"@)) is Ok) ==> opt_view(n.background_position) == read_opt(st.value("background_position"@))
    &&& !(read_hero_mode(st.value("mode"@)) is Ok) ==> n.background_position == o.background_position
    &&& (read_hero_mode(st.value("mode"@)) is Ok) ==> opt_view(n.width) == read_opt(st.value("width"@))
    &&& !(read_hero_mode(st.value("mode"@)) is Ok) ==> n.width == o.width
    &&& (read_hero_mode(st.value("mode"@)) is Ok) ==> opt_view(n.height) == read_opt(st.value("height"@))
    &&& !(read_hero_mode(st.value("mode"@)) is Ok) ==> n.height == o.height
    &&& (read_hero_mode(st.value("mode"@)) is Ok && read_padding("padding"@, st.value("padding"@)) is Ok) ==> opt_view(n.padding) == read_padding("padding"@, st.value("padding"@))->Ok_0
    &&& !(read_hero_mode(st.value("mode"@)) is Ok && read_padding("padding"@, st.value("padding"@)) is Ok) ==> n.padding == o.padding
    &&& (read_hero_mode(st.value("mode"@)) is Ok && read_padding("padding"@, st.value("padding"@)) is Ok && read_padding("inner_padding"@, st.value("inner_padding"@)) is Ok) ==> opt_view(n.inner_padding) == read_padding("inner_padding"@, st.value("inner_padding"@))->Ok_0
    &&& !(read_hero_mode(st.value("mode"@)) is Ok && read_padding("padding"@, st.value("padding"@)) is Ok && read_padding("inner_padding"@, st.value("inner_padding"@)) is Ok) ==> n.inner_padding == o.inner_padding
    &&& (read_hero_mode(st.value("mode"@)) is Ok && read_padding("padding"@, st.value("padding"@)) is Ok && read_padding("inner_padding"@, st.value("inner_padding"@)) is Ok && read_unit("border_radius"@, st.value("border_radius"@)) is Ok) ==> opt_view(n.border_radius) == read_unit("border_radius"@, st.value("border_radius"@))->Ok_0
    &&& !(read_hero_mode(st.value("mode"@)) is Ok && read_padding("padding"@, st.value("padding"@)) is Ok && read_padding("inner_padding"@, st.value("inner_padding"@)) is Ok && read_unit("border_radius"@, st.value("border_radius"@)) is Ok) ==> n.border_radius == o.border_radius
    &&& (read_hero_mode(st.value("mode"@)) is Ok && read_padding("padding"@, st.value("padding"@)) is Ok && read_padding("inner_padding"@, st.value("inner_padding"@)) is Ok && read_unit("border_radius"@, st.value("border_radius"@)) is Ok) ==> opt_view(n.vertical_align) == read_opt(st.value("vertical_align"@))
    &&& !(read_hero_mode(st.value("mode"@)) is Ok && read_padding("padding"@, st.value("padding"@)) is Ok && read_padding("inner_padding"@, st.value("inner_padding"@)) is Ok && read_unit("border_radius"@, st.value("border_radius"@)) is Ok) ==> n.vertical_align == o.vertical_align
    &&& (read_hero_mode(st.value("mode"@)) is Ok && read_padding("padding"@, st.value("padding"@)) is Ok && read_padding("inner_padding"@, st.value("inner_padding"@)) is Ok && read_unit("border_radius"@, st.value("border_radius"@)) is Ok) ==> opt_view(n.css_class) == read_opt(st.value("css_class"@))
    &&& !(read_hero_mode(st.value("mode"@)) is Ok && read_padding("padding"@, st.value("padding"@)) is Ok && read_padding("inner_padding"@, st.value("inner_padding"@)) is Ok && read_unit("border_radius"@, st.value("border_radius"@)) is Ok) ==> n.css_class == o.css_class
    &&& n.children == o.children
    &&& r is Ok <==> (read_hero_mode(st.value("mode"@)) is Ok && read_padding("padding"@, st.value("padding"@)) is Ok && read_padding("inner_padding"@, st.value("inner_padding"@)) is Ok && read_unit("border_radius"@, st.value("border_radius"@)) is Ok)
    &&& r matches Err(e) ==> e@ == hero_first_error(st)
}

fn apply_hero(x: &mut MjHero, state: &EditFormState) -> (r: Result<(), String>)
    ensures
        hero_applied(*old(x), *final(x), *state, r),
{
    match parse_hero_mode(state.get("mode")) {
        Ok(v) => {
            x.mode = v;
        },
        Err(e) => {
            return Err(e);
        },
    }
    x.background_url = opt_set(state, "background_url");
    x.background_color = opt_set(state, "background_color");
    x.background_height = opt_set(state, "background_height");
    x.background_width = opt_set(state, "background_width");
    x.background_position = opt_set(state, "background_position");
    x.width = opt_set(state, "width");
    x.height = opt_set(state, "height");
    match opt_set_named_padding(state, "padding") {
        Ok(v) => {
            x.padding = v;
        },
        Err(e) => {
            return Err(e);
        },
    }
    match opt_set_named_padding(state, "inner_padding") {
        Ok(v) => {
            x.inner_padding = v;
        },
        Err(e) => {
            return Err(e);
        },
    }
    match opt_set_unit(state, "border_radius") {
        Ok(v) => {
            x.border_radius = v;
        },
        Err(e) => {
            return Err(e);
        },
    }
    x.vertical_align = opt_set(state, "vertical_align");
    x.css_class = opt_set(state, "css_class");
    Ok(())
}

/// What the text form shows of `x`.
pub open spec fn text_shown(x: MjText, st: EditFormState) -> bool {
    &&& st.value("content"@) == x.content@
    &&& st.value("align"@) == align_text(x.align)
    &&& st.value("font_size"@) == opt_text(x.font_size)
    &&& st.value("font_family"@) == opt_text(x.font_family)
    &&& st.value("font_weight"@) == opt_text(x.font_weight)
    &&& st.value("font_style"@) == opt_text(x.font_style)
    &&& st.value("line_height"@) == opt_text(x.line_height)
    &&& st.value("color"@) == opt_text(x.color)
    &&& st.value("padding"@) == opt_text(x.padding)
    &&& st.value("letter_spacing"@) == opt_text(x.letter_spacing)
    &&& st.value("text_decoration"@) == opt_text(x.text_decoration)
    &&& st.value("text_transform"@) == opt_text(x.text_transform)
    &&& st.value("height"@) == opt_text(x.height)
    &&& st.value("css_class"@) == opt_text(x.css_class)
}

fn text_to_form(x: &MjText) -> (r: EditFormState)
    ensures
        r.wf(),
        r.form.title@ == form_title(FormId::Text),
        text_shown(*x, r),
{
    let mut st = EditFormState::new(edit_form(FormId::Text));
    proof {
        reveal_strlit("align");
        reveal_strlit("color");
        reveal_strlit("content");
        reveal_strlit("css_class");
        reveal_strlit("font_family");
        reveal_strlit("font_size");
        reveal_strlit("font_style");
        reveal_strlit("font_weight");
        reveal_strlit("height");
        reveal_strlit("letter_spacing");
        reveal_strlit("line_height");
        reveal_strlit("padding");
        reveal_strlit("text_decoration");
        reveal_strlit("text_transform");
        assert("align"@.len() == 5);
        assert("color"@.len() == 5);
        assert("content"@.len() == 7);
        assert("css_class"@.len() == 9);
        assert("font_family"@.len() == 11);
        assert("font_size"@.len() == 9);
        assert("font_style"@.len() == 10);
        assert("font_weight"@.len() == 11);
        assert("height"@.len() == 6);
        assert("letter_spacing"@.len() == 14);
        assert("line_height"@.len() == 11);
        assert("padding"@.len() == 7);
        assert("text_decoration"@.len() == 15);
        assert("text_transform"@.len() == 14);
        assert("align"@[0] == 'a');
        assert("color"@[0] == 'c');
        assert("content"@[0] == 'c');
        assert("css_class"@[0] == 'c');
        assert("font_family"@[0] == 'f');
        assert("font_family"@[5] == 'f');
        assert("font_size"@[0] == 'f');
        assert("font_weight"@[0] == 'f');
        assert("font_weight"@[5] == 'w');
        assert("letter_spacing"@[0] == 'l');
        assert("line_height"@[0] == 'l');
        assert("padding"@[0] == 'p');
        assert("text_transform"@[0] == 't');
    }
    st.set("content", x.content.clone());
    st.set("align", owned(align_str(x.align)));
    st.set("font_size", opt_get(&x.font_size));
    st.set("font_family", opt_get(&x.font_family));
    st.set("font_weight", opt_get(&x.font_weight));
    st.set("font_style", opt_get(&x.font_style));
    st.set("line_height", opt_get(&x.line_height));
    st.set("color", opt_get(&x.color));
    st.set("padding", opt_get(&x.padding));
    st.set("letter_spacing", opt_get(&x.letter_spacing));
    st.set("text_decoration", opt_get(&x.text_decoration));
    st.set("text_transform", opt_get(&x.text_transform));
    st.set("height", opt_get(&x.height));
    st.set("css_class", opt_get(&x.css_class));
    st
}

/// The message of the first field of the text form that does not read.
pub open spec fn text_first_error(st: EditFormState) -> Seq<char> {
    if !(read_align(st.value("align"@)) is Ok) {
        read_align(st.value("align"@))->Err_0
    } else if !(read_padding("padding"@, st.value("padding"@)) is Ok) {
        read_padding("padding"@, st.value("padding"@))->Err_0
    } else {
        Seq::empty()
    }
}

/// What writing the text form back does: `o` before, `n` after.
pub open spec fn text_applied(o: MjText, n: MjText, st: EditFormState, r: Result<(), String>) -> bool {
    &&& n.content@ == st.value("content"@)
    &&& (read_align(st.value("align"@)) is Ok) ==> n.align == read_align(st.value("align"@))->Ok_0
    &&& !(read_align(st.value("align"@)) is Ok) ==> n.align == o.align
    &&& (read_align(st.value("align"@)) is Ok) ==> opt_view(n.font_size) == read_opt(st.value("font_size"@))
    &&& !(read_align(st.value("align"@)) is Ok) ==> n.font_size == o.font_size
    &&& (read_align(st.value("align"@)) is Ok) ==> opt_view(n.font_family) == read_opt(st.value("font_family"@))
    &&& !(read_align(st.value("align"@)) is Ok) ==> n.font_family == o.font_family
    &&& (read_align(st.value("align"@)) is Ok) ==> opt_view(n.font_weight) == read_opt(st.value("font_weight"@))
    &&& !(read_align(st.value("align"@)) is Ok) ==> n.font_weight == o.font_weight
    &&& (read_align(st.value("align"@)) is Ok) ==> opt_view(n.font_style) == read_opt(st.value("font_style"@))
    &&& !(read_align(st.value("align"@)) is Ok) ==> n.font_style == o.font_style
    &&& (read_align(st.value("align"@)) is Ok) ==> opt_view(n.line_height) == read_opt(st.value("line_height"@))
    &&& !(read_align(st.value("align"@)) is Ok) ==> n.line_height == o.line_height
    &&& (read_align(st.value("align"@)) is Ok) ==> opt_view(n.color) == read_opt(st.value("color"@))
    &&& !(read_align(st.value("align"@)) is Ok) ==> n.color == o.color
    &&& (read_align(st.value("align"@)) is Ok && read_padding("padding"@, st.value("padding"@)) is Ok) ==> opt_view(n.padding) == read_padding("padding"@, st.value("padding"@))->Ok_0
    &&& !(read_align(st.value("align"@)) is Ok && read_padding("padding"@, st.value("padding"@)) is Ok) ==> n.padding == o.padding
    &&& (read_align(st.value("align"@)) is Ok && read_padding("padding"@, st.value("padding"@)) is Ok) ==> opt_view(n.letter_spacing) == read_opt(st.value("letter_spacing"@))
    &&& !(read_align(st.value("align"@)) is Ok && read_padding("padding"@, st.value("padding"@)) is Ok) ==> n.letter_spacing == o.letter_spacing
    &&& (read_align(st.value("align"@)) is Ok && read_padding("padding"@, st.value("padding"@)) is Ok) ==> opt_view(n.text_decoration) == read_opt(st.value("text_decoration"@))
    &&& !(read_align(st.value("align"@)) is Ok && read_padding("padding"@, st.value("padding"@)) is Ok) ==> n.text_decoration == o.text_decoration
    &&& (read_align(st.value("align"@)) is Ok && read_padding("padding"@, st.value("padding"@)) is Ok) ==> opt_view(n.text_transform) == read_opt(st.value("text_transform"@))
    &&& !(read_align(st.value("align"@)) is Ok && read_padding("padding"@, st.value("padding"@)) is Ok) ==> n.text_transform == o.text_transform
    &&& (read_align(st.value("align"@)) is Ok && read_padding("padding"@, st.value("padding"@)) is Ok) ==> opt_view(n.height) == read_opt(st.value("height"@))
    &&& !(read_align(st.value("align"@)) is Ok && read_padding("padding"@, st.value("padding"@)) is Ok) ==> n.height == o.height
    &&& (read_align(st.value("align"@)) is Ok && read_padding("padding"@, st.value("padding"@)) is Ok) ==> opt_view(n.css_class) == read_opt(st.value("css_class"@))
    &&& !(read_align(st.value("align"@)) is Ok && read_padding("padding"@, st.value("padding"@)) is Ok) ==> n.css_class == o.css_class
    &&& r is Ok <==> (read_align(st.value("align"@)) is Ok && read_padding("padding"@, st.value("padding"@)) is Ok)
    &&& r matches Err(e) ==> e@ == text_first_error(st)
}

fn apply_text(x: &mut MjText, state: &EditFormState) -> (r: Result<(), String>)
    ensures
        text_applied(*old(x), *final(x), *state, r),
{
    x.content = owned(state.get("content"));
    match parse_align(state.get("align")) {
        Ok(v) => {
            x.align = v;
        },
        Err(e) => {
            return Err(e);
        },
    }
    x.font_size = opt_set(state, "font_size");
    x.font_family = opt_set(state, "font_family");
    x.font_weight = opt_set(state, "font_weight");
    x.font_style = opt_set(state, "font_style");
    x.line_height = opt_set(state, "line_height");
    x.color = opt_set(state, "color");
    match opt_set_named_padding(state, "padding") {
        Ok(v) => {
            x.padding = v;
        },
        Err(e) => {
            return Err(e);
        },
    }
    x.letter_spacing = opt_set(state, "letter_spacing");
    x.text_decoration = opt_set(state, "text_decoration");
    x.text_transform = opt_set(state, "text_transform");
    x.height = opt_set(state, "height");
    x.css_class = opt_set(state, "css_class");
    Ok(())
}

/// What the button form shows of `x`.
pub open spec fn button_shown(x: MjButton, st: EditFormState) -> bool {
    &&& st.value("content"@) == x.content@
    &&& st.value("href"@) == x.href@
    &&& st.value("background_color"@) == opt_text(x.background_color)
    &&& st.value("color"@) == opt_text(x.color)
    &&& st.value("align"@) == align_text(x.align)
    &&& st.value("font_family"@) == opt_text(x.font_family)
    &&& st.value("font_size"@) == opt_text(x.font_size)
    &&& st.value("font_weight"@) == opt_text(x.font_weight)
    &&& st.value("font_style"@) == opt_text(x.font_style)
    &&& st.value("border"@) == opt_text(x.border)
    &&& st.value("border_sides"@) == sides_text(x.border_sides)
    &&& st.value("border_radius"@) == opt_text(x.border_radius)
    &&& st.value("inner_padding"@) == opt_text(x.inner_padding)
    &&& st.value("width"@) == opt_text(x.width)
    &&& st.value("height"@) == opt_text(x.height)
    &&& st.value("target"@) == opt_text(x.target)
    &&& st.value("padding"@) == opt_text(x.padding)
    &&& st.value("letter_spacing"@) == opt_text(x.letter_spacing)
    &&& st.value("line_height"@) == opt_text(x.line_height)
    &&& st.value("text_decoration"@) == opt_text(x.text_decoration)
    &&& st.value("text_transform"@) == opt_text(x.text_transform)
    &&& st.value("rel"@) == opt_text(x.rel)
    &&& st.value("title"@) == opt_text(x.title)
    &&& st.value("css_class"@) == opt_text(x.css_class)
}

fn button_to_form(x: &MjButton) -> (r: EditFormState)
    ensures
        r.wf(),
        r.form.title@ == form_title(FormId::Button),
        button_shown(*x, r),
{
    let mut st = EditFormState::new(edit_form(FormId::Button));
    proof {
        reveal_strlit("align");
        reveal_strlit("background_color");
        reveal_strlit("border");
        reveal_strlit("border_radius");
        reveal_strlit("border_sides");
        reveal_strlit("color");
        reveal_strlit("content");
        reveal_strlit("css_class");
        reveal_strlit("font_family");
        reveal_strlit("font_size");
        reveal_strlit("font_style");
        reveal_strlit("font_weight");
        reveal_strlit("height");
        reveal_strlit("href");
        reveal_strlit("inner_padding");
        reveal_strlit("letter_spacing");
        reveal_strlit("line_height");
        reveal_strlit("padding");
        reveal_strlit("rel");
        reveal_strlit("target");
        reveal_strlit("text_decoration");
        reveal_strlit("text_transform");
        reveal_strlit("title");
        reveal_strlit("width");
        assert("align"@.len() == 5);
        assert("background_color"@.len() == 16);
        assert("border"@.len() == 6);
        assert("border_radius"@.len() == 13);
        assert("border_sides"@.len() == 12);
        assert("color"@.len() == 5);
        assert("content"@.len() == 7);
        assert("css_class"@.len() == 9);
        assert("font_family"@.len() == 11);
        assert("font_size"@.len() == 9);
        assert("font_style"@.len() == 10);
        assert("font_weight"@.len() == 11);
        assert("height"@.len() == 6);
        assert("href"@.len() == 4);
        assert("inner_padding"@.len() == 13);
        assert("letter_spacing"@.len() == 14);
        assert("line_height"@.len() == 11);
        assert("padding"@.len() == 7);
        assert("rel"@.len() == 3);
        assert("target"@.len() == 6);
        assert("text_decoration"@.len() == 15);
        assert("text_transform"@.len() == 14);
        assert("title"@.len() == 5);
        assert("width"@.len() == 5);
        assert("align"@[0] == 'a');
        assert("border"@[0] == 'b');
        assert("border_radius"@[0] == 'b');
        assert("color"@[0] == 'c');
        assert("content"@[0] == 'c');
        assert("css_class"@[0] == 'c');
        assert("font_family"@[0] == 'f');
        assert("font_family"@[5] == 'f');
        assert("font_size"@[0] == 'f');
        assert("font_weight"@[0] == 'f');
        assert("font_weight"@[5] == 'w');
        assert("height"@[0] == 'h');
        assert("inner_padding"@[0] == 'i');
        assert("letter_spacing"@[0] == 'l');
        assert("line_height"@[0] == 'l');
        assert("padding"@[0] == 'p');
        assert("target"@[0] == 't');
        assert("text_transform"@[0] == 't');
        assert("title"@[0] == 't');
        assert("width"@[0] == 'w');
    }
    st.set("content", x.content.clone());
    st.set("href", x.href.clone());
    st.set("background_color", opt_get(&x.background_color));
    st.set("color", opt_get(&x.color));
    st.set("align", owned(align_str(x.align)));
    st.set("font_family", opt_get(&x.font_family));
    st.set("font_size", opt_get(&x.font_size));
    st.set("font_weight", opt_get(&x.font_weight));
    st.set("font_style", opt_get(&x.font_style));
    st.set("border", opt_get(&x.border));
    st.set("border_sides", sides_to_form(&x.border_sides));
    st.set("border_radius", opt_get(&x.border_radius));
    st.set("inner_padding", opt_get(&x.inner_padding));
    st.set("width", opt_get(&x.width));
    st.set("height", opt_get(&x.height));
    st.set("target", opt_get(&x.target));
    st.set("padding", opt_get(&x.padding));
    st.set("letter_spacing", opt_get(&x.letter_spacing));
    st.set("line_height", opt_get(&x.line_height));
    st.set("text_decoration", opt_get(&x.text_decoration));
    st.set("text_transform", opt_get(&x.text_transform));
    st.set("rel", opt_get(&x.rel));
    st.set("title", opt_get(&x.title));
    st.set("css_class", opt_get(&x.css_class));
    st
}

/// The message of the first field of the button form that does not read.
pub open spec fn button_first_error(st: EditFormState) -> Seq<char> {
    if !(read_align(st.value("align"@)) is Ok) {
        read_align(st.value("align"@))->Err_0
    } else if !(read_sides("border_sides"@, st.value("border_sides"@)) is Ok) {
        read_sides("border_sides"@, st.value("border_sides"@))->Err_0
    } else if !(read_unit("border_radius"@, st.value("border_radius"@)) is Ok) {
        read_unit("border_radius"@, st.value("border_radius"@))->Err_0
    } else if !(read_padding("inner_padding"@, st.value("inner_padding"@)) is Ok) {
        read_padding("inner_padding"@, st.value("inner_padding"@))->Err_0
    } else if !(read_padding("padding"@, st.value("padding"@)) is Ok) {
        read_padding("padding"@, st.value("padding"@))->Err_0
    } else {
        Seq::empty()
    }
}

/// What writing the button form back does: `o` before, `n` after.
pub open spec fn button_applied(o: MjButton, n: MjButton, st: EditFormState, r: Result<(), String>) -> bool {
    &&& n.content@ == st.value("content"@)
    &&& n.href@ == st.value("href"@)
    &&& opt_view(n.background_color) == read_opt(st.value("background_color"@))
    &&& opt_view(n.color) == read_opt(st.value("color"@))
    &&& (read_align(st.value("align"@)) is Ok) ==> n.align == read_align(st.value("align"@))->Ok_0
    &&& !(read_align(st.value("align"@)) is Ok) ==> n.align == o.align
    &&& (read_align(st.value("align"@)) is Ok) ==> opt_view(n.font_family) == read_opt(st.value("font_family"@))
    &&& !(read_align(st.value("align"@)) is Ok) ==> n.font_family == o.font_family
    &&& (read_align(st.value("align"@)) is Ok) ==> opt_view(n.font_size) == read_opt(st.value("font_size"@))
    &&& !(read_align(st.value("align"@)) is Ok) ==> n.font_size == o.font_size
    &&& (read_align(st.value("align"@)) is Ok) ==> opt_view(n.font_weight) == read_opt(st.value("font_weight"@))
    &&& !(read_align(st.value("align"@)) is Ok) ==> n.font_weight == o.font_weight
    &&& (read_align(st.value("align"@)) is Ok) ==> opt_view(n.font_style) == read_opt(st.value("font_style"@))
    &&& !(read_align(st.value("align"@)) is Ok) ==> n.font_style == o.font_style
    &&& (read_align(st.value("align"@)) is Ok) ==> opt_view(n.border) == read_opt(st.value("border"@))
    &&& !(read_align(st.value("align"@)) is Ok) ==> n.border == o.border
    &&& (read_align(st.value("align"@)) is Ok && read_sides("border_sides"@, st.value("border_sides"@)) is Ok) ==> opt_view(n.border_sides) == read_sides("border_sides"@, st.value("border_sides"@))->Ok_0
    &&& !(read_align(st.value("align"@)) is Ok && read_sides("border_sides"@, st.value("border_sides"@)) is Ok) ==> n.border_sides == o.border_sides
    &&& (read_align(st.value("align"@)) is Ok && read_sides("border_sides"@, st.value("border_sides"@)) is Ok && read_unit("border_radius"@, st.value("border_radius"@)) is Ok) ==> opt_view(n.border_radius) == read_unit("border_radius"@, st.value("border_radius"@))->Ok_0
    &&& !(read_align(st.value("align"@)) is Ok && read_sides("border_sides"@, st.value("border_sides"@)) is Ok && read_unit("border_radius"@, st.value("border_radius"@)) is Ok) ==> n.border_radius == o.border_radius
    &&& (read_align(st.value("align"@)) is Ok && read_sides("border_sides"@, st.value("border_sides"@)) is Ok && read_unit("border_radius"@, st.value("border_radius"@)) is Ok && read_padding("inner_padding"@, st.value("inner_padding"@)) is Ok) ==> opt_view(n.inner_padding) == read_padding("inner_padding"@, st.value("inner_padding"@))->Ok_0
    &&& !(read_align(st.value("align"@)) is Ok && read_sides("border_sides"@, st.value("border_sides"@)) is Ok && read_unit("border_radius"@, st.value("border_radius"@)) is Ok && read_padding("inner_padding"@, st.value("inner_padding"@)) is Ok) ==> n.inner_padding == o.inner_padding
    &&& (read_align(st.value("align"@)) is Ok && read_sides("border_sides"@, st.value("border_sides"@)) is Ok && read_unit("border_radius"@, st.value("border_radius"@)) is Ok && read_padding("inner_padding"@, st.value("inner_padding"@)) is Ok) ==> opt_view(n.width) == read_opt(st.value("width"@))
    &&& !(read_align(st.value("align"@)) is Ok && read_sides("border_sides"@, st.value("border_sides"@)) is Ok && read_unit("border_radius"@, st.value("border_radius"@)) is Ok && read_padding("inner_padding"@, st.value("inner_padding"@)) is Ok) ==> n.width == o.width
    &&& (read_align(st.value("align"@)) is Ok && read_sides("border_sides"@, st.value("border_sides"@)) is Ok && read_unit("border_radius"@, st.value("border_radius"@)) is Ok && read_padding("inner_padding"@, st.value("inner_padding"@)) is Ok) ==> opt_view(n.height) == read_opt(st.value("height"@))
    &&& !(read_align(st.value("align"@)) is Ok && read_sides("border_sides"@, st.value("border_sides"@)) is Ok && read_unit("border_radius"@, st.value("border_radius"@)) is Ok && read_padding("inner_padding"@, st.value("inner_padding"@)) is Ok) ==> n.height == o.height
    &&& (read_align(st.value("align"@)) is Ok && read_sides("border_sides"@, st.value("border_sides"@)) is Ok && read_unit("border_radius"@, st.value("border_radius"@)) is Ok && read_padding("inner_padding"@, st.value("inner_padding"@)) is Ok) ==> opt_view(n.target) == read_opt(st.value("target"@))
    &&& !(read_align(st.value("align"@)) is Ok && read_sides("border_sides"@, st.value("border_sides"@)) is Ok && read_unit("border_radius"@, st.value("border_radius"@)) is Ok && read_padding("inner_padding"@, st.value("inner_padding"@)) is Ok) ==> n.target == o.target
    &&& (read_align(st.value("align"@)) is Ok && read_sides("border_sides"@, st.value("border_sides"@)) is Ok && read_unit("border_radius"@, st.value("border_radius"@)) is Ok && read_padding("inner_padding"@, st.value("inner_padding"@)) is Ok && read_padding("padding"@, st.value("padding"@)) is Ok) ==> opt_view(n.padding) == read_padding("padding"@, st.value("padding"@))->Ok_0
    &&& !(read_align(st.value("align"@)) is Ok && read_sides("border_sides"@, st.value("border_sides"@)) is Ok && read_unit("border_radius"@, st.value("border_radius"@)) is Ok && read_padding("inner_padding"@, st.value("inner_padding"@)) is Ok && read_padding("padding"@, st.value("padding"@)) is Ok) ==> n.padding == o.padding
    &&& (read_align(st.value("align"@)) is Ok && read_sides("border_sides"@, st.value("border_sides"@)) is Ok && read_unit("border_radius"@, st.value("border_radius"@)) is Ok && read_padding("inner_padding"@, st.value("inner_padding"@)) is Ok && read_padding("padding"@, st.value("padding"@)) is Ok) ==> opt_view(n.letter_spacing) == read_opt(st.value("letter_spacing"@))
    &&& !(read_align(st.value("align"@)) is Ok && read_sides("border_sides"@, st.value("border_sides"@)) is Ok && read_unit("border_radius"@, st.value("border_radius"@)) is Ok && read_padding("inner_padding"@, st.value("inner_padding"@)) is Ok && read_padding("padding"@, st.value("padding"@)) is Ok) ==> n.letter_spacing == o.letter_spacing
    &&& (read_align(st.value("align"@)) is Ok && read_sides("border_sides"@, st.value("border_sides"@)) is Ok && read_unit("border_radius"@, st.value("border_radius"@)) is Ok && read_padding("inner_padding"@, st.value("inner_padding"@)) is Ok && read_padding("padding"@, st.value("padding"@)) is Ok) ==> opt_view(n.line_height) == read_opt(st.value("line_height"@))
    &&& !(read_align(st.value("align"@)) is Ok && read_sides("border_sides"@, st.value("border_sides"@)) is Ok && read_unit("border_radius"@, st.value("border_radius"@)) is Ok && read_padding("inner_padding"@, st.value("inner_padding"@)) is Ok && read_padding("padding"@, st.value("padding"@)) is Ok) ==> n.line_height == o.line_height
    &&& (read_align(st.value("align"@)) is Ok && read_sides("border_sides"@, st.value("border_sides"@)) is Ok && read_unit("border_radius"@, st.value("border_radius"@)) is Ok && read_padding("inner_padding"@, st.value("inner_padding"@)) is Ok && read_padding("padding"@, st.value("padding"@)) is Ok) ==> opt_view(n.text_decoration) == read_opt(st.value("text_decoration"@))
    &&& !(read_align(st.value("align"@)) is Ok && read_sides("border_sides"@, st.value("border_sides"@)) is Ok && read_unit("border_radius"@, st.value("border_radius"@)) is Ok && read_padding("inner_padding"@, st.value("inner_padding"@)) is Ok && read_padding("padding"@, st.value("padding"@)) is Ok) ==> n.text_decoration == o.text_decoration
    &&& (read_align(st.value("align"@)) is Ok && read_sides("border_sides"@, st.value("border_sides"@)) is Ok && read_unit("border_radius"@, st.value("border_radius"@)) is Ok && read_padding("inner_padding"@, st.value("inner_padding"@)) is Ok && read_padding("padding"@, st.value("padding"@)) is Ok) ==> opt_view(n.text_transform) == read_opt(st.value("text_transform"@))
    &&& !(read_align(st.value("align"@)) is Ok && read_sides("border_sides"@, st.value("border_sides"@)) is Ok && read_unit("border_radius"@, st.value("border_radius"@)) is Ok && read_padding("inner_padding"@, st.value("inner_padding"@)) is Ok && read_padding("padding"@, st.value("padding"@)) is Ok) ==> n.text_transform == o.text_transform
    &&& (read_align(st.value("align"@)) is Ok && read_sides("border_sides"@, st.value("border_sides"@)) is Ok && read_unit("border_radius"@, st.value("border_radius"@)) is Ok && read_padding("inner_padding"@, st.value("inner_padding"@)) is Ok && read_padding("padding"@, st.value("padding"@)) is Ok) ==> opt_view(n.rel) == read_opt(st.value("rel"@))
    &&& !(read_align(st.value("align"@)) is Ok && read_sides("border_sides"@, st.value("border_sides"@)) is Ok && read_unit("border_radius"@, st.value("border_radius"@)) is Ok && read_padding("inner_padding"@, st.value("inner_padding"@)) is Ok && read_padding("padding"@, st.value("padding"@)) is Ok) ==> n.rel == o.rel
    &&& (read_align(st.value("align"@)) is Ok && read_sides("border_sides"@, st.value("border_sides"@)) is Ok && read_unit("border_radius"@, st.value("border_radius"@)) is Ok && read_padding("inner_padding"@, st.value("inner_padding"@)) is Ok && read_padding("padding"@, st.value("padding"@)) is Ok) ==> opt_view(n.title) == read_opt(st.value("title"@))
    &&& !(read_align(st.value("align"@)) is Ok && read_sides("border_sides"@, st.value("border_sides"@)) is Ok && read_unit("border_radius"@, st.value("border_radius"@)) is Ok && read_padding("inner_padding"@, st.value("inner_padding"@)) is Ok && read_padding("padding"@, st.value("padding"@)) is Ok) ==> n.title == o.title
    &&& (read_align(st.value("align"@)) is Ok && read_sides("border_sides"@, st.value("border_sides"@)) is Ok && read_unit("border_radius"@, st.value("border_radius"@)) is Ok && read_padding("inner_padding"@, st.value("inner_padding"@)) is Ok && read_padding("padding"@, st.value("padding"@)) is Ok) ==> opt_view(n.css_class) == read_opt(st.value("css_class"@))
    &&& !(read_align(st.value("align"@)) is Ok && read_sides("border_sides"@, st.value("border_sides"@)) is Ok && read_unit("border_radius"@, st.value("border_radius"@)) is Ok && read_padding("inner_padding"@, st.value("inner_padding"@)) is Ok && read_padding("padding"@, st.value("padding"@)) is Ok) ==> n.css_class == o.css_class
    &&& r is Ok <==> (read_align(st.value("align"@)) is Ok && read_sides("border_sides"@, st.value("border_sides"@)) is Ok && read_unit("border_radius"@, st.value("border_radius"@)) is Ok && read_padding("inner_padding"@, st.value("inner_padding"@)) is Ok && read_padding("padding"@, st.value("padding"@)) is Ok)
    &&& r matches Err(e) ==> e@ == button_first_error(st)
}

fn apply_button(x: &mut MjButton, state: &EditFormState) -> (r: Result<(), String>)
    ensures
        button_applied(*old(x), *final(x), *state, r),
{
    x.content = owned(state.get("content"));
    x.href = owned(state.get("href"));
    x.background_color = opt_set(state, "background_color");
    x.color = opt_set(state, "color");
    match parse_align(state.get("align")) {
        Ok(v) => {
            x.align = v;
        },
        Err(e) => {
            return Err(e);
        },
    }
    x.font_family = opt_set(state, "font_family");
    x.font_size = opt_set(state, "font_size");
    x.font_weight = opt_set(state, "font_weight");
    x.font_style = opt_set(state, "font_style");
    x.border = opt_set(state, "border");
    match opt_set_sides(state, "border_sides") {
        Ok(v) => {
            x.border_sides = v;
        },
        Err(e) => {
            return Err(e);
        },
    }
    match opt_set_unit(state, "border_radius") {
        Ok(v) => {
            x.border_radius = v;
        },
        Err(e) => {
            return Err(e);
        },
    }
    match opt_set_named_padding(state, "inner_padding") {
        Ok(v) => {
            x.inner_padding = v;
        },
        Err(e) => {
            return Err(e);
        },
    }
    x.width = opt_set(state, "width");
    x.height = opt_set(state, "height");
    x.target = opt_set(state, "target");
    match opt_set_named_padding(state, "padding") {
        Ok(v) => {
            x.padding = v;
        },
        Err(e) => {
            return Err(e);
        },
    }
    x.letter_spacing = opt_set(state, "letter_spacing");
    x.line_height = opt_set(state, "line_height");
    x.text_decoration = opt_set(state, "text_decoration");
    x.text_transform = opt_set(state, "text_transform");
    x.rel = opt_set(state, "rel");
    x.title = opt_set(state, "title");
    x.css_class = opt_set(state, "css_class");
    Ok(())
}

/// What the image form shows of `x`.
pub open spec fn image_shown(x: MjImage, st: EditFormState) -> bool {
    &&& st.value("src"@) == x.src@
    &&& st.value("alt"@) == x.alt@
    &&& st.value("href"@) == opt_text(x.href)
    &&& st.value("title"@) == opt_text(x.title)
    &&& st.value("width"@) == opt_text(x.width)
    &&& st.value("height"@) == opt_text(x.height)
    &&& st.value("align"@) == align_text(x.align)
    &&& st.value("fluid_on_mobile"@) == bool_text(x.fluid_on_mobile)
    &&& st.value("border"@) == opt_text(x.border)
    &&& st.value("border_sides"@) == sides_text(x.border_sides)
    &&& st.value("border_radius"@) == opt_text(x.border_radius)
    &&& st.value("padding"@) == opt_text(x.padding)
    &&& st.value("target"@) == opt_text(x.target)
    &&& st.value("rel"@) == opt_text(x.rel)
    &&& st.value("css_class"@) == opt_text(x.css_class)
}

fn image_to_form(x: &MjImage) -> (r: EditFormState)
    ensures
        r.wf(),
        r.form.title@ == form_title(FormId::Image),
        image_shown(*x, r),
{
    let mut st = EditFormState::new(edit_form(FormId::Image));
    proof {
        reveal_strlit("align");
        reveal_strlit("alt");
        reveal_strlit("border");
        reveal_strlit("border_radius");
        reveal_strlit("border_sides");
        reveal_strlit("css_class");
        reveal_strlit("fluid_on_mobile");
        reveal_strlit("height");
        reveal_strlit("href");
        reveal_strlit("padding");
        reveal_strlit("rel");
        reveal_strlit("src");
        reveal_strlit("target");
        reveal_strlit("title");
        reveal_strlit("width");
        assert("align"@.len() == 5);
        assert("alt"@.len() == 3);
        assert("border"@.len() == 6);
        assert("border_radius"@.len() == 13);
        assert("border_sides"@.len() == 12);
        assert("css_class"@.len() == 9);
        assert("fluid_on_mobile"@.len() == 15);
        assert("height"@.len() == 6);
        assert("href"@.len() == 4);
        assert("padding"@.len() == 7);
        assert("rel"@.len() == 3);
        assert("src"@.len() == 3);
        assert("target"@.len() == 6);
        assert("title"@.len() == 5);
        assert("width"@.len() == 5);
        assert("align"@[0] == 'a');
        assert("alt"@[0] == 'a');
        assert("border"@[0] == 'b');
        assert("height"@[0] == 'h');
        assert("rel"@[0] == 'r');
        assert("src"@[0] == 's');
        assert("target"@[0] == 't');
        assert("title"@[0] == 't');
        assert("width"@[0] == 'w');
    }
    st.set("src", x.src.clone());
    st.set("alt", x.alt.clone());
    st.set("href", opt_get(&x.href));
    st.set("title", opt_get(&x.title));
    st.set("width", opt_get(&x.width));
    st.set("height", opt_get(&x.height));
    st.set("align", owned(align_str(x.align)));
    st.set("fluid_on_mobile", owned(bool_str(x.fluid_on_mobile)));
    st.set("border", opt_get(&x.border));
    st.set("border_sides", sides_to_form(&x.border_sides));
    st.set("border_radius", opt_get(&x.border_radius));
    st.set("padding", opt_get(&x.padding));
    st.set("target", opt_get(&x.target));
    st.set("rel", opt_get(&x.rel));
    st.set("css_class", opt_get(&x.css_class));
    st
}

/// The message of the first field of the image form that does not read.
pub open spec fn image_first_error(st: EditFormState) -> Seq<char> {
    if !(read_align(st.value("align"@)) is Ok) {
        read_align(st.value("align"@))->Err_0
    } else if !(read_bool(st.value("fluid_on_mobile"@)) is Ok) {
        read_bool(st.value("fluid_on_mobile"@))->Err_0
    } else if !(read_sides("border_sides"@, st.value("border_sides"@)) is Ok) {
        read_sides("border_sides"@, st.value("border_sides"@))->Err_0
    } else if !(read_unit("border_radius"@, st.value("border_radius"@)) is Ok) {
        read_unit("border_radius"@, st.value("border_radius"@))->Err_0
    } else if !(read_padding("padding"@, st.value("padding"@)) is Ok) {
        read_padding("padding"@, st.value("padding"@))->Err_0
    } else {
        Seq::empty()
    }
}

/// What writing the image form back does: `o` before, `n` after.
pub open spec fn image_applied(o: MjImage, n: MjImage, st: EditFormState, r: Result<(), String>) -> bool {
    &&& n.src@ == trim(st.value("src"@))
    &&& n.alt@ == st.value("alt"@)
    &&& opt_view(n.href) == read_opt(st.value("href"@))
    &&& opt_view(n.title) == read_opt(st.value("title"@))
    &&& opt_view(n.width) == read_opt(st.value("width"@))
    &&& opt_view(n.height) == read_opt(st.value("height"@))
    &&& (read_align(st.value("align"@)) is Ok) ==> n.align == read_align(st.value("align"@))->Ok_0
    &&& !(read_align(st.value("align"@)) is Ok) ==> n.align == o.align
    &&& (read_align(st.value("align"@)) is Ok && read_bool(st.value("fluid_on_mobile"@)) is Ok) ==> n.fluid_on_mobile == read_bool(st.value("fluid_on_mobile"@))->Ok_0
    &&& !(read_align(st.value("align"@)) is Ok && read_bool(st.value("fluid_on_mobile"@)) is Ok) ==> n.fluid_on_mobile == o.fluid_on_mobile
    &&& (read_align(st.value("align"@)) is Ok && read_bool(st.value("fluid_on_mobile"@)) is Ok) ==> opt_view(n.border) == read_opt(st.value("border"@))
    &&& !(read_align(st.value("align"@)) is Ok && read_bool(st.value("fluid_on_mobile"@)) is Ok) ==> n.border == o.border
    &&& (read_align(st.value("align"@)) is Ok && read_bool(st.value("fluid_on_mobile"@)) is Ok && read_sides("border_sides"@, st.value("border_sides"@)) is Ok) ==> opt_view(n.border_sides) == read_sides("border_sides"@, st.value("border_sides"@))->Ok_0
    &&& !(read_align(st.value("align"@)) is Ok && read_bool(st.value("fluid_on_mobile"@)) is Ok && read_sides("border_sides"@, st.value("border_sides"@)) is Ok) ==> n.border_sides == o.border_sides
    &&& (read_align(st.value("align"@)) is Ok && read_bool(st.value("fluid_on_mobile"@)) is Ok && read_sides("border_sides"@, st.value("border_sides"@)) is Ok && read_unit("border_radius"@, st.value("border_radius"@)) is Ok) ==> opt_view(n.border_radius) == read_unit("border_radius"@, st.value("border_radius"@))->Ok_0
    &&& !(read_align(st.value("align"@)) is Ok && read_bool(st.value("fluid_on_mobile"@)) is Ok && read_sides("border_sides"@, st.value("border_sides"@)) is Ok && read_unit("border_radius"@, st.value("border_radius"@)) is Ok) ==> n.border_radius == o.border_radius
    &&& (read_align(st.value("align"@)) is Ok && read_bool(st.value("fluid_on_mobile"@)) is Ok && read_sides("border_sides"@, st.value("border_sides"@)) is Ok && read_unit("border_radius"@, st.value("border_radius"@)) is Ok && read_padding("padding"@, st.value("padding"@)) is Ok) ==> opt_view(n.padding) == read_padding("padding"@, st.value("padding"@))->Ok_0
    &&& !(read_align(st.value("align"@)) is Ok && read_bool(st.value("fluid_on_mobile"@)) is Ok && read_sides("border_sides"@, st.value("border_sides"@)) is Ok && read_unit("border_radius"@, st.value("border_radius"@)) is Ok && read_padding("padding"@, st.value("padding"@)) is Ok) ==> n.padding == o.padding
    &&& (read_align(st.value("align"@)) is Ok && read_bool(st.value("fluid_on_mobile"@)) is Ok && read_sides("border_sides"@, st.value("border_sides"@)) is Ok && read_unit("border_radius"@, st.value("border_radius"@)) is Ok && read_padding("padding"@, st.value("padding"@)) is Ok) ==> opt_view(n.target) == read_opt(st.value("target"@))
    &&& !(read_align(st.value("align"@)) is Ok && read_bool(st.value("fluid_on_mobile"@)) is Ok && read_sides("border_sides"@, st.value("border_sides"@)) is Ok && read_unit("border_radius"@, st.value("border_radius"@)) is Ok && read_padding("padding"@, st.value("padding"@)) is Ok) ==> n.target == o.target
    &&& (read_align(st.value("align"@)) is Ok && read_bool(st.value("fluid_on_mobile"@)) is Ok && read_sides("border_sides"@, st.value("border_sides"@)) is Ok && read_unit("border_radius"@, st.value("border_radius"@)) is Ok && read_padding("padding"@, st.value("padding"@)) is Ok) ==> opt_view(n.rel) == read_opt(st.value("rel"@))
    &&& !(read_align(st.value("align"@)) is Ok && read_bool(st.value("fluid_on_mobile"@)) is Ok && read_sides("border_sides"@, st.value("border_sides"@)) is Ok && read_unit("border_radius"@, st.value("border_radius"@)) is Ok && read_padding("padding"@, st.value("padding"@)) is Ok) ==> n.rel == o.rel
    &&& (read_align(st.value("align"@)) is Ok && read_bool(st.value("fluid_on_mobile"@)) is Ok && read_sides("border_sides"@, st.value("border_sides"@)) is Ok && read_unit("border_radius"@, st.value("border_radius"@)) is Ok && read_padding("padding"@, st.value("padding"@)) is Ok) ==> opt_view(n.css_class) == read_opt(st.value("css_class"@))
    &&& !(read_align(st.value("align"@)) is Ok && read_bool(st.value("fluid_on_mobile"@)) is Ok && read_sides("border_sides"@, st.value("border_sides"@)) is Ok && read_unit("border_radius"@, st.value("border_radius"@)) is Ok && read_padding("padding"@, st.value("padding"@)) is Ok) ==> n.css_class == o.css_class
    &&& r is Ok <==> (read_align(st.value("align"@)) is Ok && read_bool(st.value("fluid_on_mobile"@)) is Ok && read_sides("border_sides"@, st.value("border_sides"@)) is Ok && read_unit("border_radius"@, st.value("border_radius"@)) is Ok && read_padding("padding"@, st.value("padding"@)) is Ok)
    &&& r matches Err(e) ==> e@ == image_first_error(st)
}

fn apply_image(x: &mut MjImage, state: &EditFormState) -> (r: Result<(), String>)
    ensures
        image_applied(*old(x), *final(x), *state, r),
{
    x.src = trimmed(state.get("src"));
    x.alt = owned(state.get("alt"));
    x.href = opt_set(state, "href");
    x.title = opt_set(state, "title");
    x.width = opt_set(state, "width");
    x.height = opt_set(state, "height");
    match parse_align(state.get("align")) {
        Ok(v) => {
            x.align = v;
        },
        Err(e) => {
            return Err(e);
        },
    }
    match parse_bool(state.get("fluid_on_mobile")) {
        Ok(v) => {
            x.fluid_on_mobile = v;
        },
        Err(e) => {
            return Err(e);
        },
    }
    x.border = opt_set(state, "border");
    match opt_set_sides(state, "border_sides") {
        Ok(v) => {
            x.border_sides = v;
        },
        Err(e) => {
            return Err(e);
        },
    }
    match opt_set_unit(state, "border_radius") {
        Ok(v) => {
            x.border_radius = v;
        },
        Err(e) => {
            return Err(e);
        },
    }
    match opt_set_named_padding(state, "padding") {
        Ok(v) => {
            x.padding = v;
        },
        Err(e) => {
            return Err(e);
        },
    }
    x.target = opt_set(state, "target");
    x.rel = opt_set(state, "rel");
    x.css_class = opt_set(state, "css_class");
    Ok(())
}

/// What the divider form shows of `x`.
pub open spec fn divider_shown(x: MjDivider, st: EditFormState) -> bool {
    &&& st.value("border_color"@) == opt_text(x.border_color)
    &&& st.value("border_width"@) == opt_text(x.border_width)
    &&& st.value("border_style"@) == opt_text(x.border_style)
    &&& st.value("width"@) == opt_text(x.width)
    &&& st.value("align"@) == align_text(x.align)
    &&& st.value("padding"@) == opt_text(x.padding)
    &&& st.value("css_class"@) == opt_text(x.css_class)
}

fn divider_to_form(x: &MjDivider) -> (r: EditFormState)
    ensures
        r.wf(),
        r.form.title@ == form_title(FormId::Divider),
        divider_shown(*x, r),
{
    let mut st = EditFormState::new(edit_form(FormId::Divider));
    proof {
        reveal_strlit("align");
        reveal_strlit("border_color");
        reveal_strlit("border_style");
        reveal_strlit("border_width");
        reveal_strlit("css_class");
        reveal_strlit("padding");
        reveal_strlit("width");
        assert("align"@.len() == 5);
        assert("border_color"@.len() == 12);
        assert("border_style"@.len() == 12);
        assert("border_width"@.len() == 12);
        assert("css_class"@.len() == 9);
        assert("padding"@.len() == 7);
        assert("width"@.len() == 5);
        assert("align"@[0] == 'a');
        assert("border_color"@[7] == 'c');
        assert("border_style"@[7] == 's');
        assert("border_width"@[7] == 'w');
        assert("width"@[0] == 'w');
    }
    st.set("border_color", opt_get(&x.border_color));
    st.set("border_width", opt_get(&x.border_width));
    st.set("border_style", opt_get(&x.border_style));
    st.set("width", opt_get(&x.width));
    st.set("align", owned(align_str(x.align)));
    st.set("padding", opt_get(&x.padding));
    st.set("css_class", opt_get(&x.css_class));
    st
}

/// The message of the first field of the divider form that does not read.
pub open spec fn divider_first_error(st: EditFormState) -> Seq<char> {
    if !(read_align(st.value("align"@)) is Ok) {
        read_align(st.value("align"@))->Err_0
    } else if !(read_padding("padding"@, st.value("padding"@)) is Ok) {
        read_padding("padding"@, st.value("padding"@))->Err_0
    } else {
        Seq::empty()
    }
}

/// What writing the divider form back does: `o` before, `n` after.
pub open spec fn divider_applied(o: MjDivider, n: MjDivider, st: EditFormState, r: Result<(), String>) -> bool {
    &&& opt_view(n.border_color) == read_opt(st.value("border_color"@))
    &&& opt_view(n.border_width) == read_opt(st.value("border_width"@))
    &&& opt_view(n.border_style) == read_opt(st.value("border_style"@))
    &&& opt_view(n.width) == read_opt(st.value("width"@))
    &&& (read_align(st.value("align"@)) is Ok) ==> n.align == read_align(st.value("align"@))->Ok_0
    &&& !(read_align(st.value("align"@)) is Ok) ==> n.align == o.align
    &&& (read_align(st.value("align"@)) is Ok && read_padding("padding"@, st.value("padding"@)) is Ok) ==> opt_view(n.padding) == read_padding("padding"@, st.value("padding"@))->Ok_0
    &&& !(read_align(st.value("align"@)) is Ok && read_padding("padding"@, st.value("padding"@)) is Ok) ==> n.padding == o.padding
    &&& (read_align(st.value("align"@)) is Ok && read_padding("padding"@, st.value("padding"@)) is Ok) ==> opt_view(n.css_class) == read_opt(st.value("css_class"@))
    &&& !(read_align(st.value("align"@)) is Ok && read_padding("padding"@, st.value("padding"@)) is Ok) ==> n.css_class == o.css_class
    &&& r is Ok <==> (read_align(st.value("align"@)) is Ok && read_padding("padding"@, st.value("padding"@)) is Ok)
    &&& r matches Err(e) ==> e@ == divider_first_error(st)
}

fn apply_divider(x: &mut MjDivider, state: &EditFormState) -> (r: Result<(), String>)
    ensures
        divider_applied(*old(x), *final(x), *state, r),
{
    x.border_color = opt_set(state, "border_color");
    x.border_width = opt_set(state, "border_width");
    x.border_style = opt_set(state, "border_style");
    x.width = opt_set(state, "width");
    match parse_align(state.get("align")) {
        Ok(v) => {
            x.align = v;
        },
        Err(e) => {
            return Err(e);
        },
    }
    match opt_set_named_padding(state, "padding") {
        Ok(v) => {
            x.padding = v;
        },
        Err(e) => {
            return Err(e);
        },
    }
    x.css_class = opt_set(state, "css_class");
    Ok(())
}

/// What the spacer form shows of `x`.
pub open spec fn spacer_shown(x: MjSpacer, st: EditFormState) -> bool {
    &&& st.value("height"@) == x.height@
    &&& st.value("padding"@) == opt_text(x.padding)
    &&& st.value("css_class"@) == opt_text(x.css_class)
}

fn spacer_to_form(x: &MjSpacer) -> (r: EditFormState)
    ensures
        r.wf(),
        r.form.title@ == form_title(FormId::Spacer),
        spacer_shown(*x, r),
{
    let mut st = EditFormState::new(edit_form(FormId::Spacer));
    proof {
        reveal_strlit("css_class");
        reveal_strlit("height");
        reveal_strlit("padding");
        assert("css_class"@.len() == 9);
        assert("height"@.len() == 6);
        assert("padding"@.len() == 7);
    }
    st.set("height", x.height.clone());
    st.set("padding", opt_get(&x.padding));
    st.set("css_class", opt_get(&x.css_class));
    st
}

/// The message of the first field of the spacer form that does not read.
pub open spec fn spacer_first_error(st: EditFormState) -> Seq<char> {
    if !(read_padding("padding"@, st.value("padding"@)) is Ok) {
        read_padding("padding"@, st.value("padding"@))->Err_0
    } else {
        Seq::empty()
    }
}

/// What writing the spacer form back does: `o` before, `n` after.
pub open spec fn spacer_applied(o: MjSpacer, n: MjSpacer, st: EditFormState, r: Result<(), String>) -> bool {
    &&& n.height@ == trim(st.value("height"@))
    &&& (read_padding("padding"@, st.value("padding"@)) is Ok) ==> opt_view(n.padding) == read_padding("padding"@, st.value("padding"@))->Ok_0
    &&& !(read_padding("padding"@, st.value("padding"@)) is Ok) ==> n.padding == o.padding
    &&& (read_padding("padding"@, st.value("padding"@)) is Ok) ==> opt_view(n.css_class) == read_opt(st.value("css_class"@))
    &&& !(read_padding("padding"@, st.value("padding"@)) is Ok) ==> n.css_class == o.css_class
    &&& r is Ok <==> (read_padding("padding"@, st.value("padding"@)) is Ok)
    &&& r matches Err(e) ==> e@ == spacer_first_error(st)
}

fn apply_spacer(x: &mut MjSpacer, state: &EditFormState) -> (r: Result<(), String>)
    ensures
        spacer_applied(*old(x), *final(x), *state, r),
{
    x.height = trimmed(state.get("height"));
    match opt_set_named_padding(state, "padding") {
        Ok(v) => {
            x.padding = v;
        },
        Err(e) => {
            return Err(e);
        },
    }
    x.css_class = opt_set(state, "css_class");
    Ok(())
}

/// What the table form shows of `x`.
pub open spec fn table_shown(x: MjTable, st: EditFormState) -> bool {
    &&& st.value("content"@) == x.content@
    &&& st.value("font_size"@) == opt_text(x.font_size)
    &&& st.value("font_family"@) == opt_text(x.font_family)
    &&& st.value("line_height"@) == opt_text(x.line_height)
    &&& st.value("color"@) == opt_text(x.color)
    &&& st.value("align"@) == align_text(x.align)
    &&& st.value("width"@) == opt_text(x.width)
    &&& st.value("border"@) == opt_text(x.border)
    &&& st.value("padding"@) == opt_text(x.padding)
    &&& st.value("cellpadding"@) == opt_text(x.cellpadding)
    &&& st.value("cellspacing"@) == opt_text(x.cellspacing)
    &&& st.value("role"@) == opt_text(x.role)
    &&& st.value("css_class"@) == opt_text(x.css_class)
}

fn table_to_form(x: &MjTable) -> (r: EditFormState)
    ensures
        r.wf(),
        r.form.title@ == form_title(FormId::Table),
        table_shown(*x, r),
{
    let mut st = EditFormState::new(edit_form(FormId::Table));
    proof {
        reveal_strlit("align");
        reveal_strlit("border");
        reveal_strlit("cellpadding");
        reveal_strlit("cellspacing");
        reveal_strlit("color");
        reveal_strlit("content");
        reveal_strlit("css_class");
        reveal_strlit("font_family");
        reveal_strlit("font_size");
        reveal_strlit("line_height");
        reveal_strlit("padding");
        reveal_strlit("role");
        reveal_strlit("width");
        assert("align"@.len() == 5);
        assert("border"@.len() == 6);
        assert("cellpadding"@.len() == 11);
        assert("cellspacing"@.len() == 11);
        assert("color"@.len() == 5);
        assert("content"@.len() == 7);
        assert("css_class"@.len() == 9);
        assert("font_family"@.len() == 11);
        assert("font_size"@.len() == 9);
        assert("line_height"@.len() == 11);
        assert("padding"@.len() == 7);
        assert("role"@.len() == 4);
        assert("width"@.len() == 5);
        assert("align"@[0] == 'a');
        assert("cellpadding"@[0] == 'c');
        assert("cellpadding"@[4] == 'p');
        assert("cellspacing"@[0] == 'c');
        assert("cellspacing"@[4] == 's');
        assert("color"@[0] == 'c');
        assert("content"@[0] == 'c');
        assert("css_class"@[0] == 'c');
        assert("font_family"@[0] == 'f');
        assert("font_size"@[0] == 'f');
        assert("line_height"@[0] == 'l');
        assert("padding"@[0] == 'p');
        assert("width"@[0] == 'w');
    }
    st.set("content", x.content.clone());
    st.set("font_size", opt_get(&x.font_size));
    st.set("font_family", opt_get(&x.font_family));
    st.set("line_height", opt_get(&x.line_height));
    st.set("color", opt_get(&x.color));
    st.set("align", owned(align_str(x.align)));
    st.set("width", opt_get(&x.width));
    st.set("border", opt_get(&x.border));
    st.set("padding", opt_get(&x.padding));
    st.set("cellpadding", opt_get(&x.cellpadding));
    st.set("cellspacing", opt_get(&x.cellspacing));
    st.set("role", opt_get(&x.role));
    st.set("css_class", opt_get(&x.css_class));
    st
}

/// The message of the first field of the table form that does not read.
pub open spec fn table_first_error(st: EditFormState) -> Seq<char> {
    if !(read_align(st.value("align"@)) is Ok) {
        read_align(st.value("align"@))->Err_0
    } else if !(read_padding("padding"@, st.value("padding"@)) is Ok) {
        read_padding("padding"@, st.value("padding"@))->Err_0
    } else {
        Seq::empty()
    }
}

/// What writing the table form back does: `o` before, `n` after.
pub open spec fn table_applied(o: MjTable, n: MjTable, st: EditFormState, r: Result<(), String>) -> bool {
    &&& n.content@ == st.value("content"@)
    &&& opt_view(n.font_size) == read_opt(st.value("font_size"@))
    &&& opt_view(n.font_family) == read_opt(st.value("font_family"@))
    &&& opt_view(n.line_height) == read_opt(st.value("line_height"@))
    &&& opt_view(n.color) == read_opt(st.value("color"@))
    &&& (read_align(st.value("align"@)) is Ok) ==> n.align == read_align(st.value("align"@))->Ok_0
    &&& !(read_align(st.value("align"@)) is Ok) ==> n.align == o.align
    &&& (read_align(st.value("align"@)) is Ok) ==> opt_view(n.width) == read_opt(st.value("width"@))
    &&& !(read_align(st.value("align"@)) is Ok) ==> n.width == o.width
    &&& (read_align(st.value("align"@)) is Ok) ==> opt_view(n.border) == read_opt(st.value("border"@))
    &&& !(read_align(st.value("align"@)) is Ok) ==> n.border == o.border
    &&& (read_align(st.value("align"@)) is Ok && read_padding("padding"@, st.value("padding"@)) is Ok) ==> opt_view(n.padding) == read_padding("padding"@, st.value("padding"@))->Ok_0
    &&& !(read_align(st.value("align"@)) is Ok && read_padding("padding"@, st.value("padding"@)) is Ok) ==> n.padding == o.padding
    &&& (read_align(st.value("align"@)) is Ok && read_padding("padding"@, st.value("padding"@)) is Ok) ==> opt_view(n.cellpadding) == read_opt(st.value("cellpadding"@))
    &&& !(read_align(st.value("align"@)) is Ok && read_padding("padding"@, st.value("padding"@)) is Ok) ==> n.cellpadding == o.cellpadding
    &&& (read_align(st.value("align"@)) is Ok && read_padding("padding"@, st.value("padding"@)) is Ok) ==> opt_view(n.cellspacing) == read_opt(st.value("cellspacing"@))
    &&& !(read_align(st.value("align"@)) is Ok && read_padding("padding"@, st.value("padding"@)) is Ok) ==> n.cellspacing == o.cellspacing
    &&& (read_align(st.value("align"@)) is Ok && read_padding("padding"@, st.value("padding"@)) is Ok) ==> opt_view(n.role) == read_opt(st.value("role"@))
    &&& !(read_align(st.value("align"@)) is Ok && read_padding("padding"@, st.value("padding"@)) is Ok) ==> n.role == o.role
    &&& (read_align(st.value("align"@)) is Ok && read_padding("padding"@, st.value("padding"@)) is Ok) ==> opt_view(n.css_class) == read_opt(st.value("css_class"@))
    &&& !(read_align(st.value("align"@)) is Ok && read_padding("padding"@, st.value("padding"@)) is Ok) ==> n.css_class == o.css_class
    &&& r is Ok <==> (read_align(st.value("align"@)) is Ok && read_padding("padding"@, st.value("padding"@)) is Ok)
    &&& r matches Err(e) ==> e@ == table_first_error(st)
}

fn apply_table(x: &mut MjTable, state: &EditFormState) -> (r: Result<(), String>)
    ensures
        table_applied(*old(x), *final(x), *state, r),
{
    x.content = owned(state.get("content"));
    x.font_size = opt_set(state, "font_size");
    x.font_family = opt_set(state, "font_family");
    x.line_height = opt_set(state, "line_height");
    x.color = opt_set(state, "color");
    match parse_align(state.get("align")) {
        Ok(v) => {
            x.align = v;
        },
        Err(e) => {
            return Err(e);
        },
    }
    x.width = opt_set(state, "width");
    x.border = opt_set(state, "border");
    match opt_set_named_padding(state, "padding") {
        Ok(v) => {
            x.padding = v;
        },
        Err(e) => {
            return Err(e);
        },
    }
    x.cellpadding = opt_set(state, "cellpadding");
    x.cellspacing = opt_set(state, "cellspacing");
    x.role = opt_set(state, "role");
    x.css_class = opt_set(state, "css_class");
    Ok(())
}

/// What the navbar form shows of `x`.
pub open spec fn navbar_shown(x: MjNavbar, st: EditFormState) -> bool {
    &&& st.value("hamburger"@) == bool_text(x.hamburger)
    &&& st.value("ico_color"@) == opt_text(x.ico_color)
    &&& st.value("base_url"@) == opt_text(x.base_url)
    &&& st.value("align"@) == align_text(x.align)
    &&& st.value("padding"@) == opt_text(x.padding)
    &&& st.value("ico_align"@) == opt_text(x.ico_align)
    &&& st.value("ico_font_size"@) == opt_text(x.ico_font_size)
    &&& st.value("ico_padding"@) == opt_text(x.ico_padding)
    &&& st.value("ico_open"@) == opt_text(x.ico_open)
    &&& st.value("ico_close"@) == opt_text(x.ico_close)
    &&& st.value("css_class"@) == opt_text(x.css_class)
}

fn navbar_to_form(x: &MjNavbar) -> (r: EditFormState)
    ensures
        r.wf(),
        r.form.title@ == form_title(FormId::Navbar),
        navbar_shown(*x, r),
{
    let mut st = EditFormState::new(edit_form(FormId::Navbar));
    proof {
        reveal_strlit("align");
        reveal_strlit("base_url");
        reveal_strlit("css_class");
        reveal_strlit("hamburger");
        reveal_strlit("ico_align");
        reveal_strlit("ico_close");
        reveal_strlit("ico_color");
        reveal_strlit("ico_font_size");
        reveal_strlit("ico_open");
        reveal_strlit("ico_padding");
        reveal_strlit("padding");
        assert("align"@.len() == 5);
        assert("base_url"@.len() == 8);
        assert("css_class"@.len() == 9);
        assert("hamburger"@.len() == 9);
        assert("ico_align"@.len() == 9);
        assert("ico_close"@.len() == 9);
        assert("ico_color"@.len() == 9);
        assert("ico_font_size"@.len() == 13);
        assert("ico_open"@.len() == 8);
        assert("ico_padding"@.len() == 11);
        assert("padding"@.len() == 7);
        assert("base_url"@[0] == 'b');
        assert("css_class"@[0] == 'c');
        assert("hamburger"@[0] == 'h');
        assert("ico_align"@[0] == 'i');
        assert("ico_align"@[4] == 'a');
        assert("ico_close"@[0] == 'i');
        assert("ico_close"@[4] == 'c');
        assert("ico_close"@[5] == 'l');
        assert("ico_color"@[0] == 'i');
        assert("ico_color"@[4] == 'c');
        assert("ico_color"@[5] == 'o');
        assert("ico_open"@[0] == 'i');
    }
    st.set("hamburger", owned(bool_str(x.hamburger)));
    st.set("ico_color", opt_get(&x.ico_color));
    st.set("base_url", opt_get(&x.base_url));
    st.set("align", owned(align_str(x.align)));
    st.set("padding", opt_get(&x.padding));
    st.set("ico_align", opt_get(&x.ico_align));
    st.set("ico_font_size", opt_get(&x.ico_font_size));
    st.set("ico_padding", opt_get(&x.ico_padding));
    st.set("ico_open", opt_get(&x.ico_open));
    st.set("ico_close", opt_get(&x.ico_close));
    st.set("css_class", opt_get(&x.css_class));
    st
}

/// The message of the first field of the navbar form that does not read.
pub open spec fn navbar_first_error(st: EditFormState) -> Seq<char> {
    if !(read_bool(st.value("hamburger"@)) is Ok) {
        read_bool(st.value("hamburger"@))->Err_0
    } else if !(read_align(st.value("align"@)) is Ok) {
        read_align(st.value("align"@))->Err_0
    } else if !(read_padding("padding"@, st.value("padding"@)) is Ok) {
        read_padding("padding"@, st.value("padding"@))->Err_0
    } else if !(read_padding("ico_padding"@, st.value("ico_padding"@)) is Ok) {
        read_padding("ico_padding"@, st.value("ico_padding"@))->Err_0
    } else {
        Seq::empty()
    }
}

/// What writing the navbar form back does: `o` before, `n` after.
pub open spec fn navbar_applied(o: MjNavbar, n: MjNavbar, st: EditFormState, r: Result<(), String>) -> bool {
    &&& (read_bool(st.value("hamburger"@)) is Ok) ==> n.hamburger == read_bool(st.value("hamburger"@))->Ok_0
    &&& !(read_bool(st.value("hamburger"@)) is Ok) ==> n.hamburger == o.hamburger
    &&& (read_bool(st.value("hamburger"@)) is Ok) ==> opt_view(n.ico_color) == read_opt(st.value("ico_color"@))
    &&& !(read_bool(st.value("hamburger"@)) is Ok) ==> n.ico_color == o.ico_color
    &&& (read_bool(st.value("hamburger"@)) is Ok) ==> opt_view(n.base_url) == read_opt(st.value("base_url"@))
    &&& !(read_bool(st.value("hamburger"@)) is Ok) ==> n.base_url == o.base_url
    &&& (read_bool(st.value("hamburger"@)) is Ok && read_align(st.value("align"@)) is Ok) ==> n.align == read_align(st.value("align"@))->Ok_0
    &&& !(read_bool(st.value("hamburger"@)) is Ok && read_align(st.value("align"@)) is Ok) ==> n.align == o.align
    &&& (read_bool(st.value("hamburger"@)) is Ok && read_align(st.value("align"@)) is Ok && read_padding("padding"@, st.value("padding"@)) is Ok) ==> opt_view(n.padding) == read_padding("padding"@, st.value("padding"@))->Ok_0
    &&& !(read_bool(st.value("hamburger"@)) is Ok && read_align(st.value("align"@)) is Ok && read_padding("padding"@, st.value("padding"@)) is Ok) ==> n.padding == o.padding
    &&& (read_bool(st.value("hamburger"@)) is Ok && read_align(st.value("align"@)) is Ok && read_padding("padding"@, st.value("padding"@)) is Ok) ==> opt_view(n.ico_align) == read_opt(st.value("ico_align"@))
    &&& !(read_bool(st.value("hamburger"@)) is Ok && read_align(st.value("align"@)) is Ok && read_padding("padding"@, st.value("padding"@)) is Ok) ==> n.ico_align == o.ico_align
    &&& (read_bool(st.value("hamburger"@)) is Ok && read_align(st.value("align"@)) is Ok && read_padding("padding"@, st.value("padding"@)) is Ok) ==> opt_view(n.ico_font_size) == read_opt(st.value("ico_font_size"@))
    &&& !(read_bool(st.value("hamburger"@)) is Ok && read_align(st.value("align"@)) is Ok && read_padding("padding"@, st.value("padding"@)) is Ok) ==> n.ico_font_size == o.ico_font_size
    &&& (read_bool(st.value("hamburger"@)) is Ok && read_align(st.value("align"@)) is Ok && read_padding("padding"@, st.value("padding"@)) is Ok && read_padding("ico_padding"@, st.value("ico_padding"@)) is Ok) ==> opt_view(n.ico_padding) == read_padding("ico_padding"@, st.value("ico_padding"@))->Ok_0
    &&& !(read_bool(st.value("hamburger"@)) is Ok && read_align(st.value("align"@)) is Ok && read_padding("padding"@, st.value("padding"@)) is Ok && read_padding("ico_padding"@, st.value("ico_padding"@)) is Ok) ==> n.ico_padding == o.ico_padding
    &&& (read_bool(st.value("hamburger"@)) is Ok && read_align(st.value("align"@)) is Ok && read_padding("padding"@, st.value("padding"@)) is Ok && read_padding("ico_padding"@, st.value("ico_padding"@)) is Ok) ==> opt_view(n.ico_open) == read_opt(st.value("ico_open"@))
    &&& !(read_bool(st.value("hamburger"@)) is Ok && read_align(st.value("align"@)) is Ok && read_padding("padding"@, st.value("padding"@)) is Ok && read_padding("ico_padding"@, st.value("ico_padding"@)) is Ok) ==> n.ico_open == o.ico_open
    &&& (read_bool(st.value("hamburger"@)) is Ok && read_align(st.value("align"@)) is Ok && read_padding("padding"@, st.value("padding"@)) is Ok && read_padding("ico_padding"@, st.value("ico_padding"@)) is Ok) ==> opt_view(n.ico_close) == read_opt(st.value("ico_close"@))
    &&& !(read_bool(st.value("hamburger"@)) is Ok && read_align(st.value("align"@)) is Ok && read_padding("padding"@, st.value("padding"@)) is Ok && read_padding("ico_padding"@, st.value("ico_padding"@)) is Ok) ==> n.ico_close == o.ico_close
    &&& (read_bool(st.value("hamburger"@)) is Ok && read_align(st.value("align"@)) is Ok && read_padding("padding"@, st.value("padding"@)) is Ok && read_padding("ico_padding"@, st.value("ico_padding"@)) is Ok) ==> opt_view(n.css_class) == read_opt(st.value("css_class"@))
    &&& !(read_bool(st.value("hamburger"@)) is Ok && read_align(st.value("align"@)) is Ok && read_padding("padding"@, st.value("padding"@)) is Ok && read_padding("ico_padding"@, st.value("ico_padding"@)) is Ok) ==> n.css_class == o.css_class
    &&& n.links == o.links
    &&& r is Ok <==> (read_bool(st.value("hamburger"@)) is Ok && read_align(st.value("align"@)) is Ok && read_padding("padding"@, st.value("padding"@)) is Ok && read_padding("ico_padding"@, st.value("ico_padding"@)) is Ok)
    &&& r matches Err(e) ==> e@ == navbar_first_error(st)
}

fn apply_navbar(x: &mut MjNavbar, state: &EditFormState) -> (r: Result<(), String>)
    ensures
        navbar_applied(*old(x), *final(x), *state, r),
{
    match parse_bool(state.get("hamburger")) {
        Ok(v) => {
            x.hamburger = v;
        },
        Err(e) => {
            return Err(e);
        },
    }
    x.ico_color = opt_set(state, "ico_color");
    x.base_url = opt_set(state, "base_url");
    match parse_align(state.get("align")) {
        Ok(v) => {
            x.align = v;
        },
        Err(e) => {
            return Err(e);
        },
    }
    match opt_set_named_padding(state, "padding") {
        Ok(v) => {
            x.padding = v;
        },
        Err(e) => {
            return Err(e);
        },
    }
    x.ico_align = opt_set(state, "ico_align");
    x.ico_font_size = opt_set(state, "ico_font_size");
    match opt_set_named_padding(state, "ico_padding") {
        Ok(v) => {
            x.ico_padding = v;
        },
        Err(e) => {
            return Err(e);
        },
    }
    x.ico_open = opt_set(state, "ico_open");
    x.ico_close = opt_set(state, "ico_close");
    x.css_class = opt_set(state, "css_class");
    Ok(())
}

/// What the navbar link form shows of `x`.
pub open spec fn navbar_link_shown(x: MjNavbarLink, st: EditFormState) -> bool {
    &&& st.value("href"@) == x.href@
    &&& st.value("content"@) == x.content@
    &&& st.value("color"@) == opt_text(x.color)
    &&& st.value("font_family"@) == opt_text(x.font_family)
    &&& st.value("font_size"@) == opt_text(x.font_size)
    &&& st.value("font_weight"@) == opt_text(x.font_weight)
    &&& st.value("text_decoration"@) == opt_text(x.text_decoration)
    &&& st.value("text_transform"@) == opt_text(x.text_transform)
    &&& st.value("padding"@) == opt_text(x.padding)
    &&& st.value("css_class"@) == opt_text(x.css_class)
}

fn navbar_link_to_form(x: &MjNavbarLink) -> (r: EditFormState)
    ensures
        r.wf(),
        r.form.title@ == form_title(FormId::NavbarLink),
        navbar_link_shown(*x, r),
{
    let mut st = EditFormState::new(edit_form(FormId::NavbarLink));
    proof {
        reveal_strlit("color");
        reveal_strlit("content");
        reveal_strlit("css_class");
        reveal_strlit("font_family");
        reveal_strlit("font_size");
        reveal_strlit("font_weight");
        reveal_strlit("href");
        reveal_strlit("padding");
        reveal_strlit("text_decoration");
        reveal_strlit("text_transform");
        assert("color"@.len() == 5);
        assert("content"@.len() == 7);
        assert("css_class"@.len() == 9);
        assert("font_family"@.len() == 11);
        assert("font_size"@.len() == 9);
        assert("font_weight"@.len() == 11);
        assert("href"@.len() == 4);
        assert("padding"@.len() == 7);
        assert("text_decoration"@.len() == 15);
        assert("text_transform"@.len() == 14);
        assert("content"@[0] == 'c');
        assert("css_class"@[0] == 'c');
        assert("font_family"@[5] == 'f');
        assert("font_size"@[0] == 'f');
        assert("font_weight"@[5] == 'w');
        assert("padding"@[0] == 'p');
    }
    st.set("href", x.href.clone());
    st.set("content", x.content.clone());
    st.set("color", opt_get(&x.color));
    st.set("font_family", opt_get(&x.font_family));
    st.set("font_size", opt_get(&x.font_size));
    st.set("font_weight", opt_get(&x.font_weight));
    st.set("text_decoration", opt_get(&x.text_decoration));
    st.set("text_transform", opt_get(&x.text_transform));
    st.set("padding", opt_get(&x.padding));
    st.set("css_class", opt_get(&x.css_class));
    st
}

/// The message of the first field of the navbar link form that does not read.
pub open spec fn navbar_link_first_error(st: EditFormState) -> Seq<char> {
    if !(read_padding("padding"@, st.value("padding"@)) is Ok) {
        read_padding("padding"@, st.value("padding"@))->Err_0
    } else {
        Seq::empty()
    }
}

/// What writing the navbar link form back does: `o` before, `n` after.
pub open spec fn navbar_link_applied(o: MjNavbarLink, n: MjNavbarLink, st: EditFormState, r: Result<(), String>) -> bool {
    &&& n.href@ == st.value("href"@)
    &&& n.content@ == st.value("content"@)
    &&& opt_view(n.color) == read_opt(st.value("color"@))
    &&& opt_view(n.font_family) == read_opt(st.value("font_family"@))
    &&& opt_view(n.font_size) == read_opt(st.value("font_size"@))
    &&& opt_view(n.font_weight) == read_opt(st.value("font_weight"@))
    &&& opt_view(n.text_decoration) == read_opt(st.value("text_decoration"@))
    &&& opt_view(n.text_transform) == read_opt(st.value("text_transform"@))
    &&& (read_padding("padding"@, st.value("padding"@)) is Ok) ==> opt_view(n.padding) == read_padding("padding"@, st.value("padding"@))->Ok_0
    &&& !(read_padding("padding"@, st.value("padding"@)) is Ok) ==> n.padding == o.padding
    &&& (read_padding("padding"@, st.value("padding"@)) is Ok) ==> opt_view(n.css_class) == read_opt(st.value("css_class"@))
    &&& !(read_padding("padding"@, st.value("padding"@)) is Ok) ==> n.css_class == o.css_class
    &&& r is Ok <==> (read_padding("padding"@, st.value("padding"@)) is Ok)
    &&& r matches Err(e) ==> e@ == navbar_link_first_error(st)
}

fn apply_navbar_link(x: &mut MjNavbarLink, state: &EditFormState) -> (r: Result<(), String>)
    ensures
        navbar_link_applied(*old(x), *final(x), *state, r),
{
    x.href = owned(state.get("href"));
    x.content = owned(state.get("content"));
    x.color = opt_set(state, "color");
    x.font_family = opt_set(state, "font_family");
    x.font_size = opt_set(state, "font_size");
    x.font_weight = opt_set(state, "font_weight");
    x.text_decoration = opt_set(state, "text_decoration");
    x.text_transform = opt_set(state, "text_transform");
    match opt_set_named_padding(state, "padding") {
        Ok(v) => {
            x.padding = v;
        },
        Err(e) => {
            return Err(e);
        },
    }
    x.css_class = opt_set(state, "css_class");
    Ok(())
}

/// What the accordion form shows of `x`.
pub open spec fn accordion_shown(x: MjAccordion, st: EditFormState) -> bool {
    &&& st.value("border"@) == opt_text(x.border)
    &&& st.value("padding"@) == opt_text(x.padding)
    &&& st.value("font_family"@) == opt_text(x.font_family)
    &&& st.value("icon_position"@) == opt_text(x.icon_position)
    &&& st.value("icon_width"@) == opt_text(x.icon_width)
    &&& st.value("icon_height"@) == opt_text(x.icon_height)
    &&& st.value("icon_wrapped_url"@) == opt_text(x.icon_wrapped_url)
    &&& st.value("icon_unwrapped_url"@) == opt_text(x.icon_unwrapped_url)
    &&& st.value("css_class"@) == opt_text(x.css_class)
}

fn accordion_to_form(x: &MjAccordion) -> (r: EditFormState)
    ensures
        r.wf(),
        r.form.title@ == form_title(FormId::Accordion),
        accordion_shown(*x, r),
{
    let mut st = EditFormState::new(edit_form(FormId::Accordion));
    proof {
        reveal_strlit("border");
        reveal_strlit("css_class");
        reveal_strlit("font_family");
        reveal_strlit("icon_height");
        reveal_strlit("icon_position");
        reveal_strlit("icon_unwrapped_url");
        reveal_strlit("icon_width");
        reveal_strlit("icon_wrapped_url");
        reveal_strlit("padding");
        assert("border"@.len() == 6);
        assert("css_class"@.len() == 9);
        assert("font_family"@.len() == 11);
        assert("icon_height"@.len() == 11);
        assert("icon_position"@.len() == 13);
        assert("icon_unwrapped_url"@.len() == 18);
        assert("icon_width"@.len() == 10);
        assert("icon_wrapped_url"@.len() == 16);
        assert("padding"@.len() == 7);
        assert("font_family"@[0] == 'f');
        assert("icon_height"@[0] == 'i');
    }
    st.set("border", opt_get(&x.border));
    st.set("padding", opt_get(&x.padding));
    st.set("font_family", opt_get(&x.font_family));
    st.set("icon_position", opt_get(&x.icon_position));
    st.set("icon_width", opt_get(&x.icon_width));
    st.set("icon_height", opt_get(&x.icon_height));
    st.set("icon_wrapped_url", opt_get(&x.icon_wrapped_url));
    st.set("icon_unwrapped_url", opt_get(&x.icon_unwrapped_url));
    st.set("css_class", opt_get(&x.css_class));
    st
}

/// The message of the first field of the accordion form that does not read.
pub open spec fn accordion_first_error(st: EditFormState) -> Seq<char> {
    if !(read_padding("padding"@, st.value("padding"@)) is Ok) {
        read_padding("padding"@, st.value("padding"@))->Err_0
    } else {
        Seq::empty()
    }
}

/// What writing the accordion form back does: `o` before, `n` after.
pub open spec fn accordion_applied(o: MjAccordion, n: MjAccordion, st: EditFormState, r: Result<(), String>) -> bool {
    &&& opt_view(n.border) == read_opt(st.value("border"@))
    &&& (read_padding("padding"@, st.value("padding"@)) is Ok) ==> opt_view(n.padding) == read_padding("padding"@, st.value("padding"@))->Ok_0
    &&& !(read_padding("padding"@, st.value("padding"@)) is Ok) ==> n.padding == o.padding
    &&& (read_padding("padding"@, st.value("padding"@)) is Ok) ==> opt_view(n.font_family) == read_opt(st.value("font_family"@))
    &&& !(read_padding("padding"@, st.value("padding"@)) is Ok) ==> n.font_family == o.font_family
    &&& (read_padding("padding"@, st.value("padding"@)) is Ok) ==> opt_view(n.icon_position) == read_opt(st.value("icon_position"@))
    &&& !(read_padding("padding"@, st.value("padding"@)) is Ok) ==> n.icon_position == o.icon_position
    &&& (read_padding("padding"@, st.value("padding"@)) is Ok) ==> opt_view(n.icon_width) == read_opt(st.value("icon_width"@))
    &&& !(read_padding("padding"@, st.value("padding"@)) is Ok) ==> n.icon_width == o.icon_width
    &&& (read_padding("padding"@, st.value("padding"@)) is Ok) ==> opt_view(n.icon_height) == read_opt(st.value("icon_height"@))
    &&& !(read_padding("padding"@, st.value("padding"@)) is Ok) ==> n.icon_height == o.icon_height
    &&& (read_padding("padding"@, st.value("padding"@)) is Ok) ==> opt_view(n.icon_wrapped_url) == read_opt(st.value("icon_wrapped_url"@))
    &&& !(read_padding("padding"@, st.value("padding"@)) is Ok) ==> n.icon_wrapped_url == o.icon_wrapped_url
    &&& (read_padding("padding"@, st.value("padding"@)) is Ok) ==> opt_view(n.icon_unwrapped_url) == read_opt(st.value("icon_unwrapped_url"@))
    &&& !(read_padding("padding"@, st.value("padding"@)) is Ok) ==> n.icon_unwrapped_url == o.icon_unwrapped_url
    &&& (read_padding("padding"@, st.value("padding"@)) is Ok) ==> opt_view(n.css_class) == read_opt(st.value("css_class"@))
    &&& !(read_padding("padding"@, st.value("padding"@)) is Ok) ==> n.css_class == o.css_class
    &&& n.elements == o.elements
    &&& r is Ok <==> (read_padding("padding"@, st.value("padding"@)) is Ok)
    &&& r matches Err(e) ==> e@ == accordion_first_error(st)
}

fn apply_accordion(x: &mut MjAccordion, state: &EditFormState) -> (r: Result<(), String>)
    ensures
        accordion_applied(*old(x), *final(x), *state, r),
{
    x.border = opt_set(state, "border");
    match opt_set_named_padding(state, "padding") {
        Ok(v) => {
            x.padding = v;
        },
        Err(e) => {
            return Err(e);
        },
    }
    x.font_family = opt_set(state, "font_family");
    x.icon_position = opt_set(state, "icon_position");
    x.icon_width = opt_set(state, "icon_width");
    x.icon_height = opt_set(state, "icon_height");
    x.icon_wrapped_url = opt_set(state, "icon_wrapped_url");
    x.icon_unwrapped_url = opt_set(state, "icon_unwrapped_url");
    x.css_class = opt_set(state, "css_class");
    Ok(())
}

/// What the accordion el form shows of `x`.
pub open spec fn accordion_el_shown(x: MjAccordionElement, st: EditFormState) -> bool {
    &&& st.value("title"@) == x.title@
    &&& st.value("content"@) == x.content@
    &&& st.value("background_color"@) == opt_text(x.background_color)
    &&& st.value("css_class"@) == opt_text(x.css_class)
}

fn accordion_el_to_form(x: &MjAccordionElement) -> (r: EditFormState)
    ensures
        r.wf(),
        r.form.title@ == form_title(FormId::AccordionElement),
        accordion_el_shown(*x, r),
{
    let mut st = EditFormState::new(edit_form(FormId::AccordionElement));
    proof {
        reveal_strlit("background_color");
        reveal_strlit("content");
        reveal_strlit("css_class");
        reveal_strlit("title");
        assert("background_color"@.len() == 16);
        assert("content"@.len() == 7);
        assert("css_class"@.len() == 9);
        assert("title"@.len() == 5);
    }
    st.set("title", x.title.clone());
    st.set("content", x.content.clone());
    st.set("background_color", opt_get(&x.background_color));
    st.set("css_class", opt_get(&x.css_class));
    st
}

/// What writing the accordion el form back does: `o` before, `n` after.
pub open spec fn accordion_el_applied(o: MjAccordionElement, n: MjAccordionElement, st: EditFormState, r: Result<(), String>) -> bool {
    &&& n.title@ == st.value("title"@)
    &&& n.content@ == st.value("content"@)
    &&& opt_view(n.background_color) == read_opt(st.value("background_color"@))
    &&& opt_view(n.css_class) == read_opt(st.value("css_class"@))
    &&& r is Ok <==> (true)
}

fn apply_accordion_el(x: &mut MjAccordionElement, state: &EditFormState) -> (r: Result<(), String>)
    ensures
        accordion_el_applied(*old(x), *final(x), *state, r),
{
    x.title = owned(state.get("title"));
    x.content = owned(state.get("content"));
    x.background_color = opt_set(state, "background_color");
    x.css_class = opt_set(state, "css_class");
    Ok(())
}

/// What the carousel form shows of `x`.
pub open spec fn carousel_shown(x: MjCarousel, st: EditFormState) -> bool {
    &&& st.value("align"@) == align_text(x.align)
    &&& st.value("padding"@) == opt_text(x.padding)
    &&& st.value("border_radius"@) == opt_text(x.border_radius)
    &&& st.value("tb_border_radius"@) == opt_text(x.tb_border_radius)
    &&& st.value("icon_width"@) == opt_text(x.icon_width)
    &&& st.value("css_class"@) == opt_text(x.css_class)
    &&& st.value("thumbnails"@) == thumbnails_text(x.thumbnails)
}

fn carousel_to_form(x: &MjCarousel) -> (r: EditFormState)
    ensures
        r.wf(),
        r.form.title@ == form_title(FormId::Carousel),
        carousel_shown(*x, r),
{
    let mut st = EditFormState::new(edit_form(FormId::Carousel));
    proof {
        reveal_strlit("align");
        reveal_strlit("border_radius");
        reveal_strlit("css_class");
        reveal_strlit("icon_width");
        reveal_strlit("padding");
        reveal_strlit("tb_border_radius");
        reveal_strlit("thumbnails");
        assert("align"@.len() == 5);
        assert("border_radius"@.len() == 13);
        assert("css_class"@.len() == 9);
        assert("icon_width"@.len() == 10);
        assert("padding"@.len() == 7);
        assert("tb_border_radius"@.len() == 16);
        assert("thumbnails"@.len() == 10);
        assert("icon_width"@[0] == 'i');
        assert("thumbnails"@[0] == 't');
    }
    st.set("align", owned(align_str(x.align)));
    st.set("padding", opt_get(&x.padding));
    st.set("border_radius", opt_get(&x.border_radius));
    st.set("tb_border_radius", opt_get(&x.tb_border_radius));
    st.set("icon_width", opt_get(&x.icon_width));
    st.set("css_class", opt_get(&x.css_class));
    st.set("thumbnails", owned(thumbnails_str(x.thumbnails)));
    st
}

/// The message of the first field of the carousel form that does not read.
pub open spec fn carousel_first_error(st: EditFormState) -> Seq<char> {
    if !(read_align(st.value("align"@)) is Ok) {
        read_align(st.value("align"@))->Err_0
    } else if !(read_padding("padding"@, st.value("padding"@)) is Ok) {
        read_padding("padding"@, st.value("padding"@))->Err_0
    } else if !(read_unit("border_radius"@, st.value("border_radius"@)) is Ok) {
        read_unit("border_radius"@, st.value("border_radius"@))->Err_0
    } else if !(read_unit("tb_border_radius"@, st.value("tb_border_radius"@)) is Ok) {
        read_unit("tb_border_radius"@, st.value("tb_border_radius"@))->Err_0
    } else if !(read_thumbnails(st.value("thumbnails"@)) is Ok) {
        read_thumbnails(st.value("thumbnails"@))->Err_0
    } else {
        Seq::empty()
    }
}

/// What writing the carousel form back does: `o` before, `n` after.
pub open spec fn carousel_applied(o: MjCarousel, n: MjCarousel, st: EditFormState, r: Result<(), String>) -> bool {
    &&& (read_align(st.value("align"@)) is Ok) ==> n.align == read_align(st.value("align"@))->Ok_0
    &&& !(read_align(st.value("align"@)) is Ok) ==> n.align == o.align
    &&& (read_align(st.value("align"@)) is Ok && read_padding("padding"@, st.value("padding"@)) is Ok) ==> opt_view(n.padding) == read_padding("padding"@, st.value("padding"@))->Ok_0
    &&& !(read_align(st.value("align"@)) is Ok && read_padding("padding"@, st.value("padding"@)) is Ok) ==> n.padding == o.padding
    &&& (read_align(st.value("align"@)) is Ok && read_padding("padding"@, st.value("padding"@)) is Ok && read_unit("border_radius"@, st.value("border_radius"@)) is Ok) ==> opt_view(n.border_radius) == read_unit("border_radius"@, st.value("border_radius"@))->Ok_0
    &&& !(read_align(st.value("align"@)) is Ok && read_padding("padding"@, st.value("padding"@)) is Ok && read_unit("border_radius"@, st.value("border_radius"@)) is Ok) ==> n.border_radius == o.border_radius
    &&& (read_align(st.value("align"@)) is Ok && read_padding("padding"@, st.value("padding"@)) is Ok && read_unit("border_radius"@, st.value("border_radius"@)) is Ok && read_unit("tb_border_radius"@, st.value("tb_border_radius"@)) is Ok) ==> opt_view(n.tb_border_radius) == read_unit("tb_border_radius"@, st.value("tb_border_radius"@))->Ok_0
    &&& !(read_align(st.value("align"@)) is Ok && read_padding("padding"@, st.value("padding"@)) is Ok && read_unit("border_radius"@, st.value("border_radius"@)) is Ok && read_unit("tb_border_radius"@, st.value("tb_border_radius"@)) is Ok) ==> n.tb_border_radius == o.tb_border_radius
    &&& (read_align(st.value("align"@)) is Ok && read_padding("padding"@, st.value("padding"@)) is Ok && read_unit("border_radius"@, st.value("border_radius"@)) is Ok && read_unit("tb_border_radius"@, st.value("tb_border_radius"@)) is Ok) ==> opt_view(n.icon_width) == read_opt(st.value("icon_width"@))
    &&& !(read_align(st.value("align"@)) is Ok && read_padding("padding"@, st.value("padding"@)) is Ok && read_unit("border_radius"@, st.value("border_radius"@)) is Ok && read_unit("tb_border_radius"@, st.value("tb_border_radius"@)) is Ok) ==> n.icon_width == o.icon_width
    &&& (read_align(st.value("align"@)) is Ok && read_padding("padding"@, st.value("padding"@)) is Ok && read_unit("border_radius"@, st.value("border_radius"@)) is Ok && read_unit("tb_border_radius"@, st.value("tb_border_radius"@)) is Ok) ==> opt_view(n.css_class) == read_opt(st.value("css_class"@))
    &&& !(read_align(st.value("align"@)) is Ok && read_padding("padding"@, st.value("padding"@)) is Ok && read_unit("border_radius"@, st.value("border_radius"@)) is Ok && read_unit("tb_border_radius"@, st.value("tb_border_radius"@)) is Ok) ==> n.css_class == o.css_class
    &&& (read_align(st.value("align"@)) is Ok && read_padding("padding"@, st.value("padding"@)) is Ok && read_unit("border_radius"@, st.value("border_radius"@)) is Ok && read_unit("tb_border_radius"@, st.value("tb_border_radius"@)) is Ok && read_thumbnails(st.value("thumbnails"@)) is Ok) ==> n.thumbnails == read_thumbnails(st.value("thumbnails"@))->Ok_0
    &&& !(read_align(st.value("align"@)) is Ok && read_padding("padding"@, st.value("padding"@)) is Ok && read_unit("border_radius"@, st.value("border_radius"@)) is Ok && read_unit("tb_border_radius"@, st.value("tb_border_radius"@)) is Ok && read_thumbnails(st.value("thumbnails"@)) is Ok) ==> n.thumbnails == o.thumbnails
    &&& n.images == o.images
    &&& r is Ok <==> (read_align(st.value("align"@)) is Ok && read_padding("padding"@, st.value("padding"@)) is Ok && read_unit("border_radius"@, st.value("border_radius"@)) is Ok && read_unit("tb_border_radius"@, st.value("tb_border_radius"@)) is Ok && read_thumbnails(st.value("thumbnails"@)) is Ok)
    &&& r matches Err(e) ==> e@ == carousel_first_error(st)
}

fn apply_carousel(x: &mut MjCarousel, state: &EditFormState) -> (r: Result<(), String>)
    ensures
        carousel_applied(*old(x), *final(x), *state, r),
{
    match parse_align(state.get("align")) {
        Ok(v) => {
            x.align = v;
        },
        Err(e) => {
            return Err(e);
        },
    }
    match opt_set_named_padding(state, "padding") {
        Ok(v) => {
            x.padding = v;
        },
        Err(e) => {
            return Err(e);
        },
    }
    match opt_set_unit(state, "border_radius") {
        Ok(v) => {
            x.border_radius = v;
        },
        Err(e) => {
            return Err(e);
        },
    }
    match opt_set_unit(state, "tb_border_radius") {
        Ok(v) => {
            x.tb_border_radius = v;
        },
        Err(e) => {
            return Err(e);
        },
    }
    x.icon_width = opt_set(state, "icon_width");
    x.css_class = opt_set(state, "css_class");
    match parse_thumbnails(state.get("thumbnails")) {
        Ok(v) => {
            x.thumbnails = v;
        },
        Err(e) => {
            return Err(e);
        },
    }
    Ok(())
}

/// What the carousel img form shows of `x`.
pub open spec fn carousel_img_shown(x: MjCarouselImage, st: EditFormState) -> bool {
    &&& st.value("src"@) == x.src@
    &&& st.value("alt"@) == x.alt@
    &&& st.value("href"@) == opt_text(x.href)
    &&& st.value("thumbnails_src"@) == opt_text(x.thumbnails_src)
    &&& st.value("border_radius"@) == opt_text(x.border_radius)
    &&& st.value("css_class"@) == opt_text(x.css_class)
}

fn carousel_img_to_form(x: &MjCarouselImage) -> (r: EditFormState)
    ensures
        r.wf(),
        r.form.title@ == form_title(FormId::CarouselImage),
        carousel_img_shown(*x, r),
{
    let mut st = EditFormState::new(edit_form(FormId::CarouselImage));
    proof {
        reveal_strlit("alt");
        reveal_strlit("border_radius");
        reveal_strlit("css_class");
        reveal_strlit("href");
        reveal_strlit("src");
        reveal_strlit("thumbnails_src");
        assert("alt"@.len() == 3);
        assert("border_radius"@.len() == 13);
        assert("css_class"@.len() == 9);
        assert("href"@.len() == 4);
        assert("src"@.len() == 3);
        assert("thumbnails_src"@.len() == 14);
        assert("alt"@[0] == 'a');
        assert("src"@[0] == 's');
    }
    st.set("src", x.src.clone());
    st.set("alt", x.alt.clone());
    st.set("href", opt_get(&x.href));
    st.set("thumbnails_src", opt_get(&x.thumbnails_src));
    st.set("border_radius", opt_get(&x.border_radius));
    st.set("css_class", opt_get(&x.css_class));
    st
}

/// The message of the first field of the carousel img form that does not read.
pub open spec fn carousel_img_first_error(st: EditFormState) -> Seq<char> {
    if !(read_unit("border_radius"@, st.value("border_radius"@)) is Ok) {
        read_unit("border_radius"@, st.value("border_radius"@))->Err_0
    } else {
        Seq::empty()
    }
}

/// What writing the carousel img form back does: `o` before, `n` after.
pub open spec fn carousel_img_applied(o: MjCarouselImage, n: MjCarouselImage, st: EditFormState, r: Result<(), String>) -> bool {
    &&& n.src@ == trim(st.value("src"@))
    &&& n.alt@ == st.value("alt"@)
    &&& opt_view(n.href) == read_opt(st.value("href"@))
    &&& opt_view(n.thumbnails_src) == read_opt(st.value("thumbnails_src"@))
    &&& (read_unit("border_radius"@, st.value("border_radius"@)) is Ok) ==> opt_view(n.border_radius) == read_unit("border_radius"@, st.value("border_radius"@))->Ok_0
    &&& !(read_unit("border_radius"@, st.value("border_radius"@)) is Ok) ==> n.border_radius == o.border_radius
    &&& (read_unit("border_radius"@, st.value("border_radius"@)) is Ok) ==> opt_view(n.css_class) == read_opt(st.value("css_class"@))
    &&& !(read_unit("border_radius"@, st.value("border_radius"@)) is Ok) ==> n.css_class == o.css_class
    &&& r is Ok <==> (read_unit("border_radius"@, st.value("border_radius"@)) is Ok)
    &&& r matches Err(e) ==> e@ == carousel_img_first_error(st)
}

fn apply_carousel_img(x: &mut MjCarouselImage, state: &EditFormState) -> (r: Result<(), String>)
    ensures
        carousel_img_applied(*old(x), *final(x), *state, r),
{
    x.src = trimmed(state.get("src"));
    x.alt = owned(state.get("alt"));
    x.href = opt_set(state, "href");
    x.thumbnails_src = opt_set(state, "thumbnails_src");
    match opt_set_unit(state, "border_radius") {
        Ok(v) => {
            x.border_radius = v;
        },
        Err(e) => {
            return Err(e);
        },
    }
    x.css_class = opt_set(state, "css_class");
    Ok(())
}

/// What the social form shows of `x`.
pub open spec fn social_shown(x: MjSocial, st: EditFormState) -> bool {
    &&& st.value("mode"@) == social_mode_text(x.mode)
    &&& st.value("align"@) == align_text(x.align)
    &&& st.value("icon_size"@) == x.icon_size@
    &&& st.value("border_radius"@) == opt_text(x.border_radius)
    &&& st.value("padding"@) == opt_text(x.padding)
    &&& st.value("icon_padding"@) == opt_text(x.icon_padding)
    &&& st.value("inner_padding"@) == opt_text(x.inner_padding)
    &&& st.value("font_size"@) == opt_text(x.font_size)
    &&& st.value("color"@) == opt_text(x.color)
    &&& st.value("css_class"@) == opt_text(x.css_class)
    &&& social_items_shown(x.elements@, items_of(st, "elements"@))
    &&& assoc(st.selected(), "elements"@) == Some(0usize)
}

fn social_to_form(x: &MjSocial) -> (r: EditFormState)
    ensures
        r.wf(),
        r.form.title@ == form_title(FormId::Social),
        social_shown(*x, r),
{
    let mut st = EditFormState::new(edit_form(FormId::Social));
    proof {
        reveal_strlit("align");
        reveal_strlit("border_radius");
        reveal_strlit("color");
        reveal_strlit("css_class");
        reveal_strlit("elements");
        reveal_strlit("font_size");
        reveal_strlit("icon_padding");
        reveal_strlit("icon_size");
        reveal_strlit("inner_padding");
        reveal_strlit("mode");
        reveal_strlit("padding");
        assert("align"@.len() == 5);
        assert("border_radius"@.len() == 13);
        assert("color"@.len() == 5);
        assert("css_class"@.len() == 9);
        assert("elements"@.len() == 8);
        assert("font_size"@.len() == 9);
        assert("icon_padding"@.len() == 12);
        assert("icon_size"@.len() == 9);
        assert("inner_padding"@.len() == 13);
        assert("mode"@.len() == 4);
        assert("padding"@.len() == 7);
        assert("align"@[0] == 'a');
        assert("border_radius"@[0] == 'b');
        assert("color"@[0] == 'c');
        assert("css_class"@[0] == 'c');
        assert("font_size"@[0] == 'f');
        assert("icon_size"@[0] == 'i');
        assert("inner_padding"@[0] == 'i');
    }
    st.set("mode", owned(social_mode_str(x.mode)));
    st.set("align", owned(align_str(x.align)));
    st.set("icon_size", x.icon_size.clone());
    st.set("border_radius", opt_get(&x.border_radius));
    st.set("padding", opt_get(&x.padding));
    st.set("icon_padding", opt_get(&x.icon_padding));
    st.set("inner_padding", opt_get(&x.inner_padding));
    st.set("font_size", opt_get(&x.font_size));
    st.set("color", opt_get(&x.color));
    st.set("css_class", opt_get(&x.css_class));
    st.set_sub_items("elements", social_items(&x.elements));
    st.set_selected_sub_item("elements", 0);
    st
}

/// The message of the first field of the social form that does not read.
pub open spec fn social_first_error(st: EditFormState) -> Seq<char> {
    if !(read_social_mode(st.value("mode"@)) is Ok) {
        read_social_mode(st.value("mode"@))->Err_0
    } else if !(read_align(st.value("align"@)) is Ok) {
        read_align(st.value("align"@))->Err_0
    } else if !(read_unit("border_radius"@, st.value("border_radius"@)) is Ok) {
        read_unit("border_radius"@, st.value("border_radius"@))->Err_0
    } else if !(read_padding("padding"@, st.value("padding"@)) is Ok) {
        read_padding("padding"@, st.value("padding"@))->Err_0
    } else if !(read_padding("icon_padding"@, st.value("icon_padding"@)) is Ok) {
        read_padding("icon_padding"@, st.value("icon_padding"@))->Err_0
    } else if !(read_padding("inner_padding"@, st.value("inner_padding"@)) is Ok) {
        read_padding("inner_padding"@, st.value("inner_padding"@))->Err_0
    } else if !(all_items_ok(items_of(st, "elements"@))) {
        first_item_err(items_of(st, "elements"@))
    } else {
        Seq::empty()
    }
}

/// What writing the social form back does: `o` before, `n` after.
pub open spec fn social_applied(o: MjSocial, n: MjSocial, st: EditFormState, r: Result<(), String>) -> bool {
    &&& (read_social_mode(st.value("mode"@)) is Ok) ==> n.mode == read_social_mode(st.value("mode"@))->Ok_0
    &&& !(read_social_mode(st.value("mode"@)) is Ok) ==> n.mode == o.mode
    &&& (read_social_mode(st.value("mode"@)) is Ok && read_align(st.value("align"@)) is Ok) ==> n.align == read_align(st.value("align"@))->Ok_0
    &&& !(read_social_mode(st.value("mode"@)) is Ok && read_align(st.value("align"@)) is Ok) ==> n.align == o.align
    &&& (read_social_mode(st.value("mode"@)) is Ok && read_align(st.value("align"@)) is Ok) ==> n.icon_size@ == trim(st.value("icon_size"@))
    &&& !(read_social_mode(st.value("mode"@)) is Ok && read_align(st.value("align"@)) is Ok) ==> n.icon_size == o.icon_size
    &&& (read_social_mode(st.value("mode"@)) is Ok && read_align(st.value("align"@)) is Ok && read_unit("border_radius"@, st.value("border_radius"@)) is Ok) ==> opt_view(n.border_radius) == read_unit("border_radius"@, st.value("border_radius"@))->Ok_0
    &&& !(read_social_mode(st.value("mode"@)) is Ok && read_align(st.value("align"@)) is Ok && read_unit("border_radius"@, st.value("border_radius"@)) is Ok) ==> n.border_radius == o.border_radius
    &&& (read_social_mode(st.value("mode"@)) is Ok && read_align(st.value("align"@)) is Ok && read_unit("border_radius"@, st.value("border_radius"@)) is Ok && read_padding("padding"@, st.value("padding"@)) is Ok) ==> opt_view(n.padding) == read_padding("padding"@, st.value("padding"@))->Ok_0
    &&& !(read_social_mode(st.value("mode"@)) is Ok && read_align(st.value("align"@)) is Ok && read_unit("border_radius"@, st.value("border_radius"@)) is Ok && read_padding("padding"@, st.value("padding"@)) is Ok) ==> n.padding == o.padding
    &&& (read_social_mode(st.value("mode"@)) is Ok && read_align(st.value("align"@)) is Ok && read_unit("border_radius"@, st.value("border_radius"@)) is Ok && read_padding("padding"@, st.value("padding"@)) is Ok && read_padding("icon_padding"@, st.value("icon_padding"@)) is Ok) ==> opt_view(n.icon_padding) == read_padding("icon_padding"@, st.value("icon_padding"@))->Ok_0
    &&& !(read_social_mode(st.value("mode"@)) is Ok && read_align(st.value("align"@)) is Ok && read_unit("border_radius"@, st.value("border_radius"@)) is Ok && read_padding("padding"@, st.value("padding"@)) is Ok && read_padding("icon_padding"@, st.value("icon_padding"@)) is Ok) ==> n.icon_padding == o.icon_padding
    &&& (read_social_mode(st.value("mode"@)) is Ok && read_align(st.value("align"@)) is Ok && read_unit("border_radius"@, st.value("border_radius"@)) is Ok && read_padding("padding"@, st.value("padding"@)) is Ok && read_padding("icon_padding"@, st.value("icon_padding"@)) is Ok && read_padding("inner_padding"@, st.value("inner_padding"@)) is Ok) ==> opt_view(n.inner_padding) == read_padding("inner_padding"@, st.value("inner_padding"@))->Ok_0
    &&& !(read_social_mode(st.value("mode"@)) is Ok && read_align(st.value("align"@)) is Ok && read_unit("border_radius"@, st.value("border_radius"@)) is Ok && read_padding("padding"@, st.value("padding"@)) is Ok && read_padding("icon_padding"@, st.value("icon_padding"@)) is Ok && read_padding("inner_padding"@, st.value("inner_padding"@)) is Ok) ==> n.inner_padding == o.inner_padding
    &&& (read_social_mode(st.value("mode"@)) is Ok && read_align(st.value("align"@)) is Ok && read_unit("border_radius"@, st.value("border_radius"@)) is Ok && read_padding("padding"@, st.value("padding"@)) is Ok && read_padding("icon_padding"@, st.value("icon_padding"@)) is Ok && read_padding("inner_padding"@, st.value("inner_padding"@)) is Ok) ==> opt_view(n.font_size) == read_opt(st.value("font_size"@))
    &&& !(read_social_mode(st.value("mode"@)) is Ok && read_align(st.value("align"@)) is Ok && read_unit("border_radius"@, st.value("border_radius"@)) is Ok && read_padding("padding"@, st.value("padding"@)) is Ok && read_padding("icon_padding"@, st.value("icon_padding"@)) is Ok && read_padding("inner_padding"@, st.value("inner_padding"@)) is Ok) ==> n.font_size == o.font_size
    &&& (read_social_mode(st.value("mode"@)) is Ok && read_align(st.value("align"@)) is Ok && read_unit("border_radius"@, st.value("border_radius"@)) is Ok && read_padding("padding"@, st.value("padding"@)) is Ok && read_padding("icon_padding"@, st.value("icon_padding"@)) is Ok && read_padding("inner_padding"@, st.value("inner_padding"@)) is Ok) ==> opt_view(n.color) == read_opt(st.value("color"@))
    &&& !(read_social_mode(st.value("mode"@)) is Ok && read_align(st.value("align"@)) is Ok && read_unit("border_radius"@, st.value("border_radius"@)) is Ok && read_padding("padding"@, st.value("padding"@)) is Ok && read_padding("icon_padding"@, st.value("icon_padding"@)) is Ok && read_padding("inner_padding"@, st.value("inner_padding"@)) is Ok) ==> n.color == o.color
    &&& (read_social_mode(st.value("mode"@)) is Ok && read_align(st.value("align"@)) is Ok && read_unit("border_radius"@, st.value("border_radius"@)) is Ok && read_padding("padding"@, st.value("padding"@)) is Ok && read_padding("icon_padding"@, st.value("icon_padding"@)) is Ok && read_padding("inner_padding"@, st.value("inner_padding"@)) is Ok) ==> opt_view(n.css_class) == read_opt(st.value("css_class"@))
    &&& !(read_social_mode(st.value("mode"@)) is Ok && read_align(st.value("align"@)) is Ok && read_unit("border_radius"@, st.value("border_radius"@)) is Ok && read_padding("padding"@, st.value("padding"@)) is Ok && read_padding("icon_padding"@, st.value("icon_padding"@)) is Ok && read_padding("inner_padding"@, st.value("inner_padding"@)) is Ok) ==> n.css_class == o.css_class
    &&& (read_social_mode(st.value("mode"@)) is Ok && read_align(st.value("align"@)) is Ok && read_unit("border_radius"@, st.value("border_radius"@)) is Ok && read_padding("padding"@, st.value("padding"@)) is Ok && read_padding("icon_padding"@, st.value("icon_padding"@)) is Ok && read_padding("inner_padding"@, st.value("inner_padding"@)) is Ok && all_items_ok(items_of(st, "elements"@))) ==> social_items_read(n.elements@, items_of(st, "elements"@))
    &&& !(read_social_mode(st.value("mode"@)) is Ok && read_align(st.value("align"@)) is Ok && read_unit("border_radius"@, st.value("border_radius"@)) is Ok && read_padding("padding"@, st.value("padding"@)) is Ok && read_padding("icon_padding"@, st.value("icon_padding"@)) is Ok && read_padding("inner_padding"@, st.value("inner_padding"@)) is Ok && all_items_ok(items_of(st, "elements"@))) ==> n.elements == o.elements
    &&& r is Ok <==> (read_social_mode(st.value("mode"@)) is Ok && read_align(st.value("align"@)) is Ok && read_unit("border_radius"@, st.value("border_radius"@)) is Ok && read_padding("padding"@, st.value("padding"@)) is Ok && read_padding("icon_padding"@, st.value("icon_padding"@)) is Ok && read_padding("inner_padding"@, st.value("inner_padding"@)) is Ok && all_items_ok(items_of(st, "elements"@)))
    &&& r matches Err(e) ==> e@ == social_first_error(st)
}

fn apply_social(x: &mut MjSocial, state: &EditFormState) -> (r: Result<(), String>)
    ensures
        social_applied(*old(x), *final(x), *state, r),
{
    match parse_social_mode(state.get("mode")) {
        Ok(v) => {
            x.mode = v;
        },
        Err(e) => {
            return Err(e);
        },
    }
    match parse_align(state.get("align")) {
        Ok(v) => {
            x.align = v;
        },
        Err(e) => {
            return Err(e);
        },
    }
    x.icon_size = trimmed(state.get("icon_size"));
    match opt_set_unit(state, "border_radius") {
        Ok(v) => {
            x.border_radius = v;
        },
        Err(e) => {
            return Err(e);
        },
    }
    match opt_set_named_padding(state, "padding") {
        Ok(v) => {
            x.padding = v;
        },
        Err(e) => {
            return Err(e);
        },
    }
    match opt_set_named_padding(state, "icon_padding") {
        Ok(v) => {
            x.icon_padding = v;
        },
        Err(e) => {
            return Err(e);
        },
    }
    match opt_set_named_padding(state, "inner_padding") {
        Ok(v) => {
            x.inner_padding = v;
        },
        Err(e) => {
            return Err(e);
        },
    }
    x.font_size = opt_set(state, "font_size");
    x.color = opt_set(state, "color");
    x.css_class = opt_set(state, "css_class");
    match parse_social_items(state.sub_items("elements")) {
        Ok(v) => {
            x.elements = v;
        },
        Err(e) => {
            return Err(e);
        },
    }
    Ok(())
}

/// What the email header form shows of `x`.
pub open spec fn email_header_shown(x: EmailHeader, st: EditFormState) -> bool {
    &&& st.value("logo_src"@) == x.logo_src@
    &&& st.value("logo_alt"@) == x.logo_alt@
    &&& st.value("logo_href"@) == opt_text(x.logo_href)
    &&& st.value("logo_width"@) == x.logo_width@
    &&& st.value("background_color"@) == opt_text(x.background_color)
}

fn email_header_to_form(x: &EmailHeader) -> (r: EditFormState)
    ensures
        r.wf(),
        r.form.title@ == form_title(FormId::EmailHeader),
        email_header_shown(*x, r),
{
    let mut st = EditFormState::new(edit_form(FormId::EmailHeader));
    proof {
        reveal_strlit("background_color");
        reveal_strlit("logo_alt");
        reveal_strlit("logo_href");
        reveal_strlit("logo_src");
        reveal_strlit("logo_width");
        assert("background_color"@.len() == 16);
        assert("logo_alt"@.len() == 8);
        assert("logo_href"@.len() == 9);
        assert("logo_src"@.len() == 8);
        assert("logo_width"@.len() == 10);
        assert("logo_alt"@[5] == 'a');
        assert("logo_src"@[5] == 's');
    }
    st.set("logo_src", x.logo_src.clone());
    st.set("logo_alt", x.logo_alt.clone());
    st.set("logo_href", opt_get(&x.logo_href));
    st.set("logo_width", x.logo_width.clone());
    st.set("background_color", opt_get(&x.background_color));
    st
}

/// What writing the email header form back does: `o` before, `n` after.
pub open spec fn email_header_applied(o: EmailHeader, n: EmailHeader, st: EditFormState, r: Result<(), String>) -> bool {
    &&& n.logo_src@ == trim(st.value("logo_src"@))
    &&& n.logo_alt@ == st.value("logo_alt"@)
    &&& opt_view(n.logo_href) == read_opt(st.value("logo_href"@))
    &&& n.logo_width@ == trim(st.value("logo_width"@))
    &&& opt_view(n.background_color) == read_opt(st.value("background_color"@))
    &&& r is Ok <==> (true)
}

fn apply_email_header(x: &mut EmailHeader, state: &EditFormState) -> (r: Result<(), String>)
    ensures
        email_header_applied(*old(x), *final(x), *state, r),
{
    x.logo_src = trimmed(state.get("logo_src"));
    x.logo_alt = owned(state.get("logo_alt"));
    x.logo_href = opt_set(state, "logo_href");
    x.logo_width = trimmed(state.get("logo_width"));
    x.background_color = opt_set(state, "background_color");
    Ok(())
}

/// What the email hero form shows of `x`.
pub open spec fn email_hero_shown(x: EmailHero, st: EditFormState) -> bool {
    &&& st.value("image_src"@) == x.image_src@
    &&& st.value("image_alt"@) == x.image_alt@
    &&& st.value("heading"@) == x.heading@
    &&& st.value("subheading"@) == x.subheading@
    &&& st.value("background_color"@) == opt_text(x.background_color)
}

fn email_hero_to_form(x: &EmailHero) -> (r: EditFormState)
    ensures
        r.wf(),
        r.form.title@ == form_title(FormId::EmailHero),
        email_hero_shown(*x, r),
{
    let mut st = EditFormState::new(edit_form(FormId::EmailHero));
    proof {
        reveal_strlit("background_color");
        reveal_strlit("heading");
        reveal_strlit("image_alt");
        reveal_strlit("image_src");
        reveal_strlit("subheading");
        assert("background_color"@.len() == 16);
        assert("heading"@.len() == 7);
        assert("image_alt"@.len() == 9);
        assert("image_src"@.len() == 9);
        assert("subheading"@.len() == 10);
        assert("image_alt"@[6] == 'a');
        assert("image_src"@[6] == 's');
    }
    st.set("image_src", x.image_src.clone());
    st.set("image_alt", x.image_alt.clone());
    st.set("heading", x.heading.clone());
    st.set("subheading", x.subheading.clone());
    st.set("background_color", opt_get(&x.background_color));
    st
}

/// What writing the email hero form back does: `o` before, `n` after.
pub open spec fn email_hero_applied(o: EmailHero, n: EmailHero, st: EditFormState, r: Result<(), String>) -> bool {
    &&& n.image_src@ == trim(st.value("image_src"@))
    &&& n.image_alt@ == st.value("image_alt"@)
    &&& n.heading@ == st.value("heading"@)
    &&& n.subheading@ == st.value("subheading"@)
    &&& opt_view(n.background_color) == read_opt(st.value("background_color"@))
    &&& r is Ok <==> (true)
}

fn apply_email_hero(x: &mut EmailHero, state: &EditFormState) -> (r: Result<(), String>)
    ensures
        email_hero_applied(*old(x), *final(x), *state, r),
{
    x.image_src = trimmed(state.get("image_src"));
    x.image_alt = owned(state.get("image_alt"));
    x.heading = owned(state.get("heading"));
    x.subheading = owned(state.get("subheading"));
    x.background_color = opt_set(state, "background_color");
    Ok(())
}

/// What the email cta form shows of `x`.
pub open spec fn email_cta_shown(x: EmailCta, st: EditFormState) -> bool {
    &&& st.value("heading"@) == x.heading@
    &&& st.value("copy"@) == x.copy@
    &&& st.value("button_label"@) == x.button_label@
    &&& st.value("button_href"@) == x.button_href@
    &&& st.value("background_color"@) == opt_text(x.background_color)
}

fn email_cta_to_form(x: &EmailCta) -> (r: EditFormState)
    ensures
        r.wf(),
        r.form.title@ == form_title(FormId::EmailCta),
        email_cta_shown(*x, r),
{
    let mut st = EditFormState::new(edit_form(FormId::EmailCta));
    proof {
        reveal_strlit("background_color");
        reveal_strlit("button_href");
        reveal_strlit("button_label");
        reveal_strlit("copy");
        reveal_strlit("heading");
        assert("background_color"@.len() == 16);
        assert("button_href"@.len() == 11);
        assert("button_label"@.len() == 12);
        assert("copy"@.len() == 4);
        assert("heading"@.len() == 7);
    }
    st.set("heading", x.heading.clone());
    st.set("copy", x.copy.clone());
    st.set("button_label", x.button_label.clone());
    st.set("button_href", x.button_href.clone());
    st.set("background_color", opt_get(&x.background_color));
    st
}

/// What writing the email cta form back does: `o` before, `n` after.
pub open spec fn email_cta_applied(o: EmailCta, n: EmailCta, st: EditFormState, r: Result<(), String>) -> bool {
    &&& n.heading@ == st.value("heading"@)
    &&& n.copy@ == st.value("copy"@)
    &&& n.button_label@ == st.value("button_label"@)
    &&& n.button_href@ == st.value("button_href"@)
    &&& opt_view(n.background_color) == read_opt(st.value("background_color"@))
    &&& r is Ok <==> (true)
}

fn apply_email_cta(x: &mut EmailCta, state: &EditFormState) -> (r: Result<(), String>)
    ensures
        email_cta_applied(*old(x), *final(x), *state, r),
{
    x.heading = owned(state.get("heading"));
    x.copy = owned(state.get("copy"));
    x.button_label = owned(state.get("button_label"));
    x.button_href = owned(state.get("button_href"));
    x.background_color = opt_set(state, "background_color");
    Ok(())
}

/// What the email article form shows of `x`.
pub open spec fn email_article_shown(x: EmailArticle, st: EditFormState) -> bool {
    &&& st.value("image_src"@) == x.image_src@
    &&& st.value("image_alt"@) == x.image_alt@
    &&& st.value("title"@) == x.title@
    &&& st.value("copy"@) == x.copy@
    &&& st.value("link_label"@) == x.link_label@
    &&& st.value("link_href"@) == x.link_href@
    &&& st.value("image_position"@) == image_pos_text(x.image_position)
}

fn email_article_to_form(x: &EmailArticle) -> (r: EditFormState)
    ensures
        r.wf(),
        r.form.title@ == form_title(FormId::EmailArticle),
        email_article_shown(*x, r),
{
    let mut st = EditFormState::new(edit_form(FormId::EmailArticle));
    proof {
        reveal_strlit("copy");
        reveal_strlit("image_alt");
        reveal_strlit("image_position");
        reveal_strlit("image_src");
        reveal_strlit("link_href");
        reveal_strlit("link_label");
        reveal_strlit("title");
        assert("copy"@.len() == 4);
        assert("image_alt"@.len() == 9);
        assert("image_position"@.len() == 14);
        assert("image_src"@.len() == 9);
        assert("link_href"@.len() == 9);
        assert("link_label"@.len() == 10);
        assert("title"@.len() == 5);
        assert("image_alt"@[0] == 'i');
        assert("image_alt"@[6] == 'a');
        assert("image_src"@[0] == 'i');
        assert("image_src"@[6] == 's');
        assert("link_href"@[0] == 'l');
    }
    st.set("image_src", x.image_src.clone());
    st.set("image_alt", x.image_alt.clone());
    st.set("title", x.title.clone());
    st.set("copy", x.copy.clone());
    st.set("link_label", x.link_label.clone());
    st.set("link_href", x.link_href.clone());
    st.set("image_position", owned(image_pos_str(x.image_position)));
    st
}

/// The message of the first field of the email article form that does not read.
pub open spec fn email_article_first_error(st: EditFormState) -> Seq<char> {
    if !(read_image_pos(st.value("image_position"@)) is Ok) {
        read_image_pos(st.value("image_position"@))->Err_0
    } else {
        Seq::empty()
    }
}

/// What writing the email article form back does: `o` before, `n` after.
pub open spec fn email_article_applied(o: EmailArticle, n: EmailArticle, st: EditFormState, r: Result<(), String>) -> bool {
    &&& n.image_src@ == trim(st.value("image_src"@))
    &&& n.image_alt@ == st.value("image_alt"@)
    &&& n.title@ == st.value("title"@)
    &&& n.copy@ == st.value("copy"@)
    &&& n.link_label@ == st.value("link_label"@)
    &&& n.link_href@ == st.value("link_href"@)
    &&& (read_image_pos(st.value("image_position"@)) is Ok) ==> n.image_position == read_image_pos(st.value("image_position"@))->Ok_0
    &&& !(read_image_pos(st.value("image_position"@)) is Ok) ==> n.image_position == o.image_position
    &&& r is Ok <==> (read_image_pos(st.value("image_position"@)) is Ok)
    &&& r matches Err(e) ==> e@ == email_article_first_error(st)
}

fn apply_email_article(x: &mut EmailArticle, state: &EditFormState) -> (r: Result<(), String>)
    ensures
        email_article_applied(*old(x), *final(x), *state, r),
{
    x.image_src = trimmed(state.get("image_src"));
    x.image_alt = owned(state.get("image_alt"));
    x.title = owned(state.get("title"));
    x.copy = owned(state.get("copy"));
    x.link_label = owned(state.get("link_label"));
    x.link_href = owned(state.get("link_href"));
    match parse_image_pos(state.get("image_position")) {
        Ok(v) => {
            x.image_position = v;
        },
        Err(e) => {
            return Err(e);
        },
    }
    Ok(())
}

/// What the email footer form shows of `x`.
pub open spec fn email_footer_shown(x: EmailFooter, st: EditFormState) -> bool {
    &&& st.value("company_name"@) == x.company_name@
    &&& st.value("address_lines"@) == join(views(x.address_lines@), "\n"@)
    &&& st.value("unsubscribe_label"@) == x.unsubscribe_label@
    &&& st.value("unsubscribe_href"@) == x.unsubscribe_href@
    &&& st.value("copyright"@) == opt_text(x.copyright)
    &&& social_items_shown(x.social@, items_of(st, "social"@))
    &&& assoc(st.selected(), "social"@) == Some(0usize)
}

fn email_footer_to_form(x: &EmailFooter) -> (r: EditFormState)
    ensures
        r.wf(),
        r.form.title@ == form_title(FormId::EmailFooter),
        email_footer_shown(*x, r),
{
    let mut st = EditFormState::new(edit_form(FormId::EmailFooter));
    proof {
        reveal_strlit("address_lines");
        reveal_strlit("company_name");
        reveal_strlit("copyright");
        reveal_strlit("social");
        reveal_strlit("unsubscribe_href");
        reveal_strlit("unsubscribe_label");
        assert("address_lines"@.len() == 13);
        assert("company_name"@.len() == 12);
        assert("copyright"@.len() == 9);
        assert("social"@.len() == 6);
        assert("unsubscribe_href"@.len() == 16);
        assert("unsubscribe_label"@.len() == 17);
    }
    st.set("company_name", x.company_name.clone());
    st.set("address_lines", join_exec(&x.address_lines, "\n"));
    st.set("unsubscribe_label", x.unsubscribe_label.clone());
    st.set("unsubscribe_href", x.unsubscribe_href.clone());
    st.set("copyright", opt_get(&x.copyright));
    st.set_sub_items("social", social_items(&x.social));
    st.set_selected_sub_item("social", 0);
    st
}

/// The message of the first field of the email footer form that does not read.
pub open spec fn email_footer_first_error(st: EditFormState) -> Seq<char> {
    if !(all_items_ok(items_of(st, "social"@))) {
        first_item_err(items_of(st, "social"@))
    } else {
        Seq::empty()
    }
}

/// What writing the email footer form back does: `o` before, `n` after.
pub open spec fn email_footer_applied(o: EmailFooter, n: EmailFooter, st: EditFormState, r: Result<(), String>) -> bool {
    &&& n.company_name@ == st.value("company_name"@)
    &&& views(n.address_lines@) == nonblank_lines(st.value("address_lines"@))
    &&& n.unsubscribe_label@ == st.value("unsubscribe_label"@)
    &&& n.unsubscribe_href@ == st.value("unsubscribe_href"@)
    &&& opt_view(n.copyright) == read_opt(st.value("copyright"@))
    &&& (all_items_ok(items_of(st, "social"@))) ==> social_items_read(n.social@, items_of(st, "social"@))
    &&& !(all_items_ok(items_of(st, "social"@))) ==> n.social == o.social
    &&& r is Ok <==> (all_items_ok(items_of(st, "social"@)))
    &&& r matches Err(e) ==> e@ == email_footer_first_error(st)
}

fn apply_email_footer(x: &mut EmailFooter, state: &EditFormState) -> (r: Result<(), String>)
    ensures
        email_footer_applied(*old(x), *final(x), *state, r),
{
    x.company_name = owned(state.get("company_name"));
    x.address_lines = nonblank_lines_exec(state.get("address_lines"));
    x.unsubscribe_label = owned(state.get("unsubscribe_label"));
    x.unsubscribe_href = owned(state.get("unsubscribe_href"));
    x.copyright = opt_set(state, "copyright");
    match parse_social_items(state.sub_items("social")) {
        Ok(v) => {
            x.social = v;
        },
        Err(e) => {
            return Err(e);
        },
    }
    Ok(())
}

/// What the brand form shows of `x`.
pub open spec fn brand_shown(x: Brand, st: EditFormState) -> bool {
    &&& st.value("font_family"@) == x.font_family@
    &&& st.value("text_color"@) == x.text_color@
    &&& st.value("background_color"@) == x.background_color@
    &&& st.value("content_width"@) == crate::text::decimal(x.content_width as nat)
    &&& st.value("button_background"@) == x.button_background@
    &&& st.value("button_color"@) == x.button_color@
}

fn brand_to_form(x: &Brand) -> (r: EditFormState)
    ensures
        r.wf(),
        r.form.title@ == form_title(FormId::Brand),
        brand_shown(*x, r),
{
    let mut st = EditFormState::new(edit_form(FormId::Brand));
    proof {
        reveal_strlit("background_color");
        reveal_strlit("button_background");
        reveal_strlit("button_color");
        reveal_strlit("content_width");
        reveal_strlit("font_family");
        reveal_strlit("text_color");
        assert("background_color"@.len() == 16);
        assert("button_background"@.len() == 17);
        assert("button_color"@.len() == 12);
        assert("content_width"@.len() == 13);
        assert("font_family"@.len() == 11);
        assert("text_color"@.len() == 10);
    }
    st.set("font_family", x.font_family.clone());
    st.set("text_color", x.text_color.clone());
    st.set("background_color", x.background_color.clone());
    st.set("content_width", crate::text::decimal_exec(x.content_width as u64));
    st.set("button_background", x.button_background.clone());
    st.set("button_color", x.button_color.clone());
    st
}

/// The message of the first field of the brand form that does not read.
pub open spec fn brand_first_error(st: EditFormState) -> Seq<char> {
    if !(read_width(st.value("content_width"@)) is Ok) {
        read_width(st.value("content_width"@))->Err_0
    } else {
        Seq::empty()
    }
}

/// What writing the brand form back does: `o` before, `n` after.
pub open spec fn brand_applied(o: Brand, n: Brand, st: EditFormState, r: Result<(), String>) -> bool {
    &&& n.font_family@ == st.value("font_family"@)
    &&& n.text_color@ == trim(st.value("text_color"@))
    &&& n.background_color@ == trim(st.value("background_color"@))
    &&& (read_width(st.value("content_width"@)) is Ok) ==> n.content_width == read_width(st.value("content_width"@))->Ok_0
    &&& !(read_width(st.value("content_width"@)) is Ok) ==> n.content_width == o.content_width
    &&& (read_width(st.value("content_width"@)) is Ok) ==> n.button_background@ == trim(st.value("button_background"@))
    &&& !(read_width(st.value("content_width"@)) is Ok) ==> n.button_background == o.button_background
    &&& (read_width(st.value("content_width"@)) is Ok) ==> n.button_color@ == trim(st.value("button_color"@))
    &&& !(read_width(st.value("content_width"@)) is Ok) ==> n.button_color == o.button_color
    &&& r is Ok <==> (read_width(st.value("content_width"@)) is Ok)
    &&& r matches Err(e) ==> e@ == brand_first_error(st)
}

fn apply_brand(x: &mut Brand, state: &EditFormState) -> (r: Result<(), String>)
    ensures
        brand_applied(*old(x), *final(x), *state, r),
{
    x.font_family = owned(state.get("font_family"));
    x.text_color = trimmed(state.get("text_color"));
    x.background_color = trimmed(state.get("background_color"));
    match parse_width(state.get("content_width")) {
        Ok(v) => {
            x.content_width = v;
        },
        Err(e) => {
            return Err(e);
        },
    }
    x.button_background = trimmed(state.get("button_background"));
    x.button_color = trimmed(state.get("button_color"));
    Ok(())
}

/// What the body form shows of `x`.
pub open spec fn body_shown(x: Body, st: EditFormState) -> bool {
    &&& st.value("background_color"@) == x.background_color@
    &&& st.value("css_class"@) == opt_text(x.css_class)
}

fn body_to_form(x: &Body) -> (r: EditFormState)
    ensures
        r.wf(),
        r.form.title@ == form_title(FormId::Body),
        body_shown(*x, r),
{
    let mut st = EditFormState::new(edit_form(FormId::Body));
    proof {
        reveal_strlit("background_color");
        reveal_strlit("css_class");
        assert("background_color"@.len() == 16);
        assert("css_class"@.len() == 9);
    }
    st.set("background_color", x.background_color.clone());
    st.set("css_class", opt_get(&x.css_class));
    st
}

/// What writing the body form back does: `o` before, `n` after.
pub open spec fn body_applied(o: Body, n: Body, st: EditFormState, r: Result<(), String>) -> bool {
    &&& n.background_color@ == trim(st.value("background_color"@))
    &&& opt_view(n.css_class) == read_opt(st.value("css_class"@))
    &&& n.nodes == o.nodes
    &&& r is Ok <==> (true)
}

fn apply_body(x: &mut Body, state: &EditFormState) -> (r: Result<(), String>)
    ensures
        body_applied(*old(x), *final(x), *state, r),
{
    x.background_color = trimmed(state.get("background_color"));
    x.css_class = opt_set(state, "css_class");
    Ok(())
}

/// What the head form shows of `x`.
pub open spec fn head_shown(x: Template, st: EditFormState) -> bool {
    &&& st.value("subject"@) == x.subject@
    &&& st.value("preheader"@) == x.preheader@
    &&& st.value("lang"@) == x.lang@
    &&& st.value("dir"@) == x.dir@
    &&& st.value("title"@) == x.head.title@
    &&& st.value("breakpoint"@) == x.head.breakpoint@
    &&& st.value("base_url"@) == x.base_url@
    &&& st.value("json_ld"@) == x.head.json_ld@
    &&& st.value("css"@) == x.head.css@
    &&& st.value("css_inline"@) == bool_text(x.head.css_inline)
    &&& fonts_shown(x.head.fonts@, items_of(st, "fonts"@))
    &&& assoc(st.selected(), "fonts"@) == Some(0usize)
}

fn head_to_form(x: &Template) -> (r: EditFormState)
    ensures
        r.wf(),
        r.form.title@ == form_title(FormId::Head),
        head_shown(*x, r),
{
    let mut st = EditFormState::new(edit_form(FormId::Head));
    proof {
        reveal_strlit("base_url");
        reveal_strlit("breakpoint");
        reveal_strlit("css");
        reveal_strlit("css_inline");
        reveal_strlit("dir");
        reveal_strlit("fonts");
        reveal_strlit("json_ld");
        reveal_strlit("lang");
        reveal_strlit("preheader");
        reveal_strlit("subject");
        reveal_strlit("title");
        assert("base_url"@.len() == 8);
        assert("breakpoint"@.len() == 10);
        assert("css"@.len() == 3);
        assert("css_inline"@.len() == 10);
        assert("dir"@.len() == 3);
        assert("fonts"@.len() == 5);
        assert("json_ld"@.len() == 7);
        assert("lang"@.len() == 4);
        assert("preheader"@.len() == 9);
        assert("subject"@.len() == 7);
        assert("title"@.len() == 5);
        assert("breakpoint"@[0] == 'b');
        assert("css"@[0] == 'c');
        assert("css_inline"@[0] == 'c');
        assert("dir"@[0] == 'd');
        assert("fonts"@[0] == 'f');
        assert("json_ld"@[0] == 'j');
        assert("subject"@[0] == 's');
        assert("title"@[0] == 't');
    }
    st.set("subject", x.subject.clone());
    st.set("preheader", x.preheader.clone());
    st.set("lang", x.lang.clone());
    st.set("dir", x.dir.clone());
    st.set("title", x.head.title.clone());
    st.set("breakpoint", x.head.breakpoint.clone());
    st.set("base_url", x.base_url.clone());
    st.set("json_ld", x.head.json_ld.clone());
    st.set("css", x.head.css.clone());
    st.set("css_inline", owned(bool_str(x.head.css_inline)));
    st.set_sub_items("fonts", font_items(&x.head.fonts));
    st.set_selected_sub_item("fonts", 0);
    st
}

/// The message of the first field of the head form that does not read.
pub open spec fn head_first_error(st: EditFormState) -> Seq<char> {
    if !(read_bool(st.value("css_inline"@)) is Ok) {
        read_bool(st.value("css_inline"@))->Err_0
    } else {
        Seq::empty()
    }
}

/// What writing the head form back does: `o` before, `n` after.
pub open spec fn head_applied(o: Template, n: Template, st: EditFormState, r: Result<(), String>) -> bool {
    &&& n.subject@ == st.value("subject"@)
    &&& n.preheader@ == st.value("preheader"@)
    &&& n.lang@ == st.value("lang"@)
    &&& n.dir@ == trim(st.value("dir"@))
    &&& n.head.title@ == st.value("title"@)
    &&& n.head.breakpoint@ == st.value("breakpoint"@)
    &&& n.base_url@ == st.value("base_url"@)
    &&& n.head.json_ld@ == st.value("json_ld"@)
    &&& n.head.css@ == st.value("css"@)
    &&& (read_bool(st.value("css_inline"@)) is Ok) ==> n.head.css_inline == read_bool(st.value("css_inline"@))->Ok_0
    &&& !(read_bool(st.value("css_inline"@)) is Ok) ==> n.head.css_inline == o.head.css_inline
    &&& (read_bool(st.value("css_inline"@)) is Ok) ==> fonts_read(n.head.fonts@, items_of(st, "fonts"@))
    &&& !(read_bool(st.value("css_inline"@)) is Ok) ==> n.head.fonts == o.head.fonts
    &&& n.version == o.version
    &&& n.name == o.name
    &&& n.brand == o.brand
    &&& n.body == o.body
    &&& r is Ok <==> (read_bool(st.value("css_inline"@)) is Ok)
    &&& r matches Err(e) ==> e@ == head_first_error(st)
}

fn apply_head(x: &mut Template, state: &EditFormState) -> (r: Result<(), String>)
    ensures
        head_applied(*old(x), *final(x), *state, r),
{
    x.subject = owned(state.get("subject"));
    x.preheader = owned(state.get("preheader"));
    x.lang = owned(state.get("lang"));
    x.dir = trimmed(state.get("dir"));
    x.head.title = owned(state.get("title"));
    x.head.breakpoint = owned(state.get("breakpoint"));
    x.base_url = owned(state.get("base_url"));
    x.head.json_ld = owned(state.get("json_ld"));
    x.head.css = owned(state.get("css"));
    match parse_bool(state.get("css_inline")) {
        Ok(v) => {
            x.head.css_inline = v;
        },
        Err(e) => {
            return Err(e);
        },
    }
    x.head.fonts = fonts_from(state.sub_items("fonts"));
    Ok(())
}
// ---------------------------------------------------------------------------
// Node kinds
// ---------------------------------------------------------------------------

/// What the form of a body node shows of it.
pub open spec fn node_shown(n: BodyNode, st: EditFormState) -> bool {
    match n {
        BodyNode::MjSection(s) => st.form.title@ == form_title(FormId::Section) && section_shown(s, st),
        BodyNode::MjWrapper(w) => st.form.title@ == form_title(FormId::Wrapper) && wrapper_shown(w, st),
        BodyNode::MjHero(h) => st.form.title@ == form_title(FormId::Hero) && hero_shown(h, st),
        BodyNode::EmailHeader(h) => st.form.title@ == form_title(FormId::EmailHeader) && email_header_shown(h, st),
        BodyNode::EmailHero(h) => st.form.title@ == form_title(FormId::EmailHero) && email_hero_shown(h, st),
        BodyNode::EmailCta(c) => st.form.title@ == form_title(FormId::EmailCta) && email_cta_shown(c, st),
        BodyNode::EmailArticle(a) => st.form.title@ == form_title(FormId::EmailArticle) && email_article_shown(a, st),
        BodyNode::EmailFooter(f) => st.form.title@ == form_title(FormId::EmailFooter) && email_footer_shown(f, st),
    }
}

fn body_node_to_form(n: &BodyNode) -> (r: EditFormState)
    ensures
        r.wf(),
        node_shown(*n, r),
{
    match n {
        BodyNode::MjSection(s) => section_to_form(s),
        BodyNode::MjWrapper(w) => wrapper_to_form(w),
        BodyNode::MjHero(h) => hero_to_form(h),
        BodyNode::EmailHeader(h) => email_header_to_form(h),
        BodyNode::EmailHero(h) => email_hero_to_form(h),
        BodyNode::EmailCta(c) => email_cta_to_form(c),
        BodyNode::EmailArticle(a) => email_article_to_form(a),
        BodyNode::EmailFooter(f) => email_footer_to_form(f),
    }
}

/// What writing a body node's form back does to it.
pub open spec fn node_applied(o: BodyNode, n: BodyNode, st: EditFormState, r: Result<(), String>) -> bool {
    match o {
        BodyNode::MjSection(a) => n matches BodyNode::MjSection(b) && section_applied(a, b, st, r),
        BodyNode::MjWrapper(a) => n matches BodyNode::MjWrapper(b) && wrapper_applied(a, b, st, r),
        BodyNode::MjHero(a) => n matches BodyNode::MjHero(b) && hero_applied(a, b, st, r),
        BodyNode::EmailHeader(a) => n matches BodyNode::EmailHeader(b) && email_header_applied(a, b, st, r),
        BodyNode::EmailHero(a) => n matches BodyNode::EmailHero(b) && email_hero_applied(a, b, st, r),
        BodyNode::EmailCta(a) => n matches BodyNode::EmailCta(b) && email_cta_applied(a, b, st, r),
        BodyNode::EmailArticle(a) => n matches BodyNode::EmailArticle(b) && email_article_applied(a, b, st, r),
        BodyNode::EmailFooter(a) => n matches BodyNode::EmailFooter(b) && email_footer_applied(a, b, st, r),
    }
}

fn apply_body_node(n: &mut BodyNode, state: &EditFormState) -> (r: Result<(), String>)
    ensures
        node_applied(*old(n), *final(n), *state, r),
{
    match n {
        BodyNode::MjSection(s) => apply_section(s, state),
        BodyNode::MjWrapper(w) => apply_wrapper(w, state),
        BodyNode::MjHero(h) => apply_hero(h, state),
        BodyNode::EmailHeader(h) => apply_email_header(h, state),
        BodyNode::EmailHero(h) => apply_email_hero(h, state),
        BodyNode::EmailCta(c) => apply_email_cta(c, state),
        BodyNode::EmailArticle(a) => apply_email_article(a, state),
        BodyNode::EmailFooter(f) => apply_email_footer(f, state),
    }
}

/// What the form of a content component shows of it.
pub open spec fn leaf_shown(c: ColumnChild, st: EditFormState) -> bool {
    match c {
        ColumnChild::MjText(x) => st.form.title@ == form_title(FormId::Text) && text_shown(x, st),
        ColumnChild::MjButton(x) => st.form.title@ == form_title(FormId::Button) && button_shown(x, st),
        ColumnChild::MjImage(x) => st.form.title@ == form_title(FormId::Image) && image_shown(x, st),
        ColumnChild::MjDivider(x) => st.form.title@ == form_title(FormId::Divider) && divider_shown(x, st),
        ColumnChild::MjSpacer(x) => st.form.title@ == form_title(FormId::Spacer) && spacer_shown(x, st),
        ColumnChild::MjSocial(x) => st.form.title@ == form_title(FormId::Social) && social_shown(x, st),
        ColumnChild::MjTable(x) => st.form.title@ == form_title(FormId::Table) && table_shown(x, st),
        ColumnChild::MjNavbar(x) => st.form.title@ == form_title(FormId::Navbar) && navbar_shown(x, st),
        ColumnChild::MjAccordion(x) => st.form.title@ == form_title(FormId::Accordion) && accordion_shown(x, st),
        ColumnChild::MjCarousel(x) => st.form.title@ == form_title(FormId::Carousel) && carousel_shown(x, st),
    }
}

fn leaf_to_form(c: &ColumnChild) -> (r: EditFormState)
    ensures
        r.wf(),
        leaf_shown(*c, r),
{
    match c {
        ColumnChild::MjText(x) => text_to_form(x),
        ColumnChild::MjButton(x) => button_to_form(x),
        ColumnChild::MjImage(x) => image_to_form(x),
        ColumnChild::MjDivider(x) => divider_to_form(x),
        ColumnChild::MjSpacer(x) => spacer_to_form(x),
        ColumnChild::MjSocial(x) => social_to_form(x),
        ColumnChild::MjTable(x) => table_to_form(x),
        ColumnChild::MjNavbar(x) => navbar_to_form(x),
        ColumnChild::MjAccordion(x) => accordion_to_form(x),
        ColumnChild::MjCarousel(x) => carousel_to_form(x),
    }
}

/// What writing a content component's form back does to it.
pub open spec fn leaf_applied(o: ColumnChild, n: ColumnChild, st: EditFormState, r: Result<(), String>) -> bool {
    match o {
        ColumnChild::MjText(a) => n matches ColumnChild::MjText(b) && text_applied(a, b, st, r),
        ColumnChild::MjButton(a) => n matches ColumnChild::MjButton(b) && button_applied(a, b, st, r),
        ColumnChild::MjImage(a) => n matches ColumnChild::MjImage(b) && image_applied(a, b, st, r),
        ColumnChild::MjDivider(a) => n matches ColumnChild::MjDivider(b) && divider_applied(a, b, st, r),
        ColumnChild::MjSpacer(a) => n matches ColumnChild::MjSpacer(b) && spacer_applied(a, b, st, r),
        ColumnChild::MjSocial(a) => n matches ColumnChild::MjSocial(b) && social_applied(a, b, st, r),
        ColumnChild::MjTable(a) => n matches ColumnChild::MjTable(b) && table_applied(a, b, st, r),
        ColumnChild::MjNavbar(a) => n matches ColumnChild::MjNavbar(b) && navbar_applied(a, b, st, r),
        ColumnChild::MjAccordion(a) => n matches ColumnChild::MjAccordion(b) && accordion_applied(a, b, st, r),
        ColumnChild::MjCarousel(a) => n matches ColumnChild::MjCarousel(b) && carousel_applied(a, b, st, r),
    }
}

fn apply_leaf(c: &mut ColumnChild, state: &EditFormState) -> (r: Result<(), String>)
    ensures
        leaf_applied(*old(c), *final(c), *state, r),
{
    match c {
        ColumnChild::MjText(x) => apply_text(x, state),
        ColumnChild::MjButton(x) => apply_button(x, state),
        ColumnChild::MjImage(x) => apply_image(x, state),
        ColumnChild::MjDivider(x) => apply_divider(x, state),
        ColumnChild::MjSpacer(x) => apply_spacer(x, state),
        ColumnChild::MjSocial(x) => apply_social(x, state),
        ColumnChild::MjTable(x) => apply_table(x, state),
        ColumnChild::MjNavbar(x) => apply_navbar(x, state),
        ColumnChild::MjAccordion(x) => apply_accordion(x, state),
        ColumnChild::MjCarousel(x) => apply_carousel(x, state),
    }
}

// ---------------------------------------------------------------------------
// Finding the selected node
// ---------------------------------------------------------------------------

/// What a tree path points at.
pub enum Target {
    Node(BodyNode),
    Column(MjColumn),
    Group(MjGroup),
    Leaf(ColumnChild),
    NavbarLink(MjNavbarLink),
    AccordionEl(MjAccordionElement),
    CarouselImg(MjCarouselImage),
}

/// Where `steps` lead from a content component. A step into a navbar
/// link, accordion element or carousel image ends the walk.
pub open spec fn target_in_child(c: ColumnChild, steps: Seq<Step>) -> Option<Target> {
    if steps.len() == 0 {
        Some(Target::Leaf(c))
    } else {
        match steps[0] {
            Step::NavbarLink(i) => match c {
                ColumnChild::MjNavbar(n) => if i < n.links@.len() {
                    Some(Target::NavbarLink(n.links@[i as int]))
                } else {
                    None
                },
                _ => None,
            },
            Step::AccordionEl(i) => match c {
                ColumnChild::MjAccordion(n) => if i < n.elements@.len() {
                    Some(Target::AccordionEl(n.elements@[i as int]))
                } else {
                    None
                },
                _ => None,
            },
            Step::CarouselImg(i) => match c {
                ColumnChild::MjCarousel(n) => if i < n.images@.len() {
                    Some(Target::CarouselImg(n.images@[i as int]))
                } else {
                    None
                },
                _ => None,
            },
            _ => None,
        }
    }
}

pub open spec fn target_in_column(c: MjColumn, steps: Seq<Step>) -> Option<Target> {
    if steps.len() == 0 {
        Some(Target::Column(c))
    } else {
        match steps[0] {
            Step::ColComp(i) => if i < c.components@.len() {
                target_in_child(c.components@[i as int], steps.drop_first())
            } else {
                None
            },
            _ => None,
        }
    }
}

pub open spec fn target_in_group(g: MjGroup, steps: Seq<Step>) -> Option<Target> {
    if steps.len() == 0 {
        Some(Target::Group(g))
    } else {
        match steps[0] {
            Step::GroupCol(i) => if i < g.children@.len() {
                target_in_column(g.children@[i as int], steps.drop_first())
            } else {
                None
            },
            _ => None,
        }
    }
}

/// Where `steps` lead from a body node.
pub open spec fn target_in_node(n: BodyNode, steps: Seq<Step>) -> Option<Target>
    decreases steps.len(),
{
    if steps.len() == 0 {
        Some(Target::Node(n))
    } else {
        match steps[0] {
            Step::WrapperChild(j) => match n {
                BodyNode::MjWrapper(w) => if j < w.children@.len() {
                    target_in_node(w.children@[j as int], steps.drop_first())
                } else {
                    None
                },
                _ => None,
            },
            Step::SectionChild(j) => match n {
                BodyNode::MjSection(s) => if j < s.children@.len() {
                    match s.children@[j as int] {
                        SectionChild::MjColumn(c) => target_in_column(c, steps.drop_first()),
                        SectionChild::MjGroup(g) => target_in_group(g, steps.drop_first()),
                    }
                } else {
                    None
                },
                _ => None,
            },
            Step::HeroChild(j) => match n {
                BodyNode::MjHero(h) => if j < h.children@.len() {
                    target_in_child(h.children@[j as int], steps.drop_first())
                } else {
                    None
                },
                _ => None,
            },
            _ => None,
        }
    }
}

/// What a path of the tree points at: it starts at a body node.
pub open spec fn target_of(t: Template, path: Seq<Step>) -> Option<Target> {
    if path.len() > 0 {
        match path[0] {
            Step::BodyNode(i) => if i < t.body.nodes@.len() {
                target_in_node(t.body.nodes@[i as int], path.drop_first())
            } else {
                None
            },
            _ => None,
        }
    } else {
        None
    }
}

/// What the form of a target shows of it.
pub open spec fn target_shown(tg: Target, st: EditFormState) -> bool {
    match tg {
        Target::Node(n) => node_shown(n, st),
        Target::Column(c) => st.form.title@ == form_title(FormId::Column) && column_shown(c, st),
        Target::Group(g) => st.form.title@ == form_title(FormId::Group) && group_shown(g, st),
        Target::Leaf(c) => leaf_shown(c, st),
        Target::NavbarLink(l) => st.form.title@ == form_title(FormId::NavbarLink) && navbar_link_shown(l, st),
        Target::AccordionEl(e) => st.form.title@ == form_title(FormId::AccordionElement) && accordion_el_shown(e, st),
        Target::CarouselImg(i) => st.form.title@ == form_title(FormId::CarouselImage) && carousel_img_shown(i, st),
    }
}

/// The form for what `steps` lead to, or `None`.
pub open spec fn form_matches(tg: Option<Target>, r: Option<EditFormState>) -> bool {
    match tg {
        None => r is None,
        Some(x) => r matches Some(st) && target_shown(x, st),
    }
}

fn form_in_child(c: &ColumnChild, path: &Vec<Step>, k: usize) -> (r: Option<EditFormState>)
    requires
        k <= path@.len(),
    ensures
        r matches Some(st) ==> st.wf(),
        form_matches(target_in_child(*c, path@.skip(k as int)), r),
{
    if k == path.len() {
        return Some(leaf_to_form(c));
    }
    proof {
        assert(path@.skip(k as int)[0] == path@[k as int]);
    }
    match path[k] {
        Step::NavbarLink(i) => match c {
            ColumnChild::MjNavbar(n) => if i < n.links.len() {
                Some(navbar_link_to_form(&n.links[i]))
            } else {
                None
            },
            _ => None,
        },
        Step::AccordionEl(i) => match c {
            ColumnChild::MjAccordion(n) => if i < n.elements.len() {
                Some(accordion_el_to_form(&n.elements[i]))
            } else {
                None
            },
            _ => None,
        },
        Step::CarouselImg(i) => match c {
            ColumnChild::MjCarousel(n) => if i < n.images.len() {
                Some(carousel_img_to_form(&n.images[i]))
            } else {
                None
            },
            _ => None,
        },
        _ => None,
    }
}

fn form_in_column(c: &MjColumn, path: &Vec<Step>, k: usize) -> (r: Option<EditFormState>)
    requires
        k <= path@.len(),
    ensures
        r matches Some(st) ==> st.wf(),
        form_matches(target_in_column(*c, path@.skip(k as int)), r),
{
    if k == path.len() {
        return Some(column_to_form(c));
    }
    proof {
        assert(path@.skip(k as int)[0] == path@[k as int]);
        assert(path@.skip(k as int).drop_first() =~= path@.skip(k + 1));
    }
    match path[k] {
        Step::ColComp(i) => if i < c.components.len() {
            form_in_child(&c.components[i], path, k + 1)
        } else {
            None
        },
        _ => None,
    }
}

fn form_in_group(g: &MjGroup, path: &Vec<Step>, k: usize) -> (r: Option<EditFormState>)
    requires
        k <= path@.len(),
    ensures
        r matches Some(st) ==> st.wf(),
        form_matches(target_in_group(*g, path@.skip(k as int)), r),
{
    if k == path.len() {
        return Some(group_to_form(g));
    }
    proof {
        assert(path@.skip(k as int)[0] == path@[k as int]);
        assert(path@.skip(k as int).drop_first() =~= path@.skip(k + 1));
    }
    match path[k] {
        Step::GroupCol(i) => if i < g.children.len() {
            form_in_column(&g.children[i], path, k + 1)
        } else {
            None
        },
        _ => None,
    }
}

fn form_in_node(n: &BodyNode, path: &Vec<Step>, k: usize) -> (r: Option<EditFormState>)
    requires
        k <= path@.len(),
    ensures
        r matches Some(st) ==> st.wf(),
        form_matches(target_in_node(*n, path@.skip(k as int)), r),
    decreases path@.len() - k,
{
    if k == path.len() {
        return Some(body_node_to_form(n));
    }
    proof {
        assert(path@.skip(k as int)[0] == path@[k as int]);
        assert(path@.skip(k as int).drop_first() =~= path@.skip(k + 1));
    }
    match path[k] {
        Step::WrapperChild(j) => match n {
            BodyNode::MjWrapper(w) => if j < w.children.len() {
                form_in_node(&w.children[j], path, k + 1)
            } else {
                None
            },
            _ => None,
        },
        Step::SectionChild(j) => match n {
            BodyNode::MjSection(s) => if j < s.children.len() {
                match &s.children[j] {
                    SectionChild::MjColumn(c) => form_in_column(c, path, k + 1),
                    SectionChild::MjGroup(g) => form_in_group(g, path, k + 1),
                }
            } else {
                None
            },
            _ => None,
        },
        Step::HeroChild(j) => match n {
            BodyNode::MjHero(h) => if j < h.children.len() {
                form_in_child(&h.children[j], path, k + 1)
            } else {
                None
            },
            _ => None,
        },
        _ => None,
    }
}

/// The edit form for the selected tree row, filled from the template;
/// `None` when the path leads nowhere.
pub fn form_for(template: &Template, id: &TreeId) -> (r: Option<EditFormState>)
    ensures
        *id is Head ==> (r matches Some(st) && st.form.title@ == form_title(FormId::Head) && head_shown(*template, st)),
        *id is Brand ==> (r matches Some(st) && st.form.title@ == form_title(FormId::Brand) && brand_shown(template.brand, st)),
        *id is Body ==> (r matches Some(st) && st.form.title@ == form_title(FormId::Body) && body_shown(template.body, st)),
        id matches TreeId::Path(p) ==> form_matches(target_of(*template, p@), r),
        r matches Some(st) ==> st.wf(),
{
    match id {
        TreeId::Head => Some(head_to_form(template)),
        TreeId::Brand => Some(brand_to_form(&template.brand)),
        TreeId::Body => Some(body_to_form(&template.body)),
        TreeId::Path(path) => {
            if path.len() == 0 {
                return None;
            }
            match path[0] {
                Step::BodyNode(i) => if i < template.body.nodes.len() {
                    proof {
                        assert(path@.drop_first() =~= path@.skip(1));
                    }
                    form_in_node(&template.body.nodes[i], path, 1)
                } else {
                    None
                },
                _ => None,
            }
        },
    }
}

// ---------------------------------------------------------------------------
// Writing a form back at the selected node
// ---------------------------------------------------------------------------

/// The refusal when a path leads nowhere.
pub open spec fn missing(r: Result<(), String>) -> bool {
    r matches Err(e) && e@ == "missing node"@
}

/// Writing back at `steps` from a content component: `o` before, `n` after.
pub open spec fn child_applied_at(o: ColumnChild, n: ColumnChild, steps: Seq<Step>, st: EditFormState, r: Result<(), String>) -> bool {
    if steps.len() == 0 {
        leaf_applied(o, n, st, r)
    } else {
        match (steps[0], o) {
            (Step::NavbarLink(i), ColumnChild::MjNavbar(a)) if i < a.links@.len() => n matches ColumnChild::MjNavbar(b) && {
            &&& b.hamburger == a.hamburger
            &&& b.ico_color == a.ico_color
            &&& b.base_url == a.base_url
            &&& b.align == a.align
            &&& b.padding == a.padding
            &&& b.ico_align == a.ico_align
            &&& b.ico_font_size == a.ico_font_size
            &&& b.ico_padding == a.ico_padding
            &&& b.ico_open == a.ico_open
            &&& b.ico_close == a.ico_close
            &&& b.css_class == a.css_class
            &&& b.links@ == a.links@.update(i as int, b.links@[i as int])
            &&& navbar_link_applied(a.links@[i as int], b.links@[i as int], st, r)
            },
            (Step::AccordionEl(i), ColumnChild::MjAccordion(a)) if i < a.elements@.len() => n matches ColumnChild::MjAccordion(b) && {
            &&& b.border == a.border
            &&& b.padding == a.padding
            &&& b.font_family == a.font_family
            &&& b.icon_position == a.icon_position
            &&& b.icon_width == a.icon_width
            &&& b.icon_height == a.icon_height
            &&& b.icon_wrapped_url == a.icon_wrapped_url
            &&& b.icon_unwrapped_url == a.icon_unwrapped_url
            &&& b.css_class == a.css_class
            &&& b.elements@ == a.elements@.update(i as int, b.elements@[i as int])
            &&& accordion_el_applied(a.elements@[i as int], b.elements@[i as int], st, r)
            },
            (Step::CarouselImg(i), ColumnChild::MjCarousel(a)) if i < a.images@.len() => n matches ColumnChild::MjCarousel(b) && {
            &&& b.align == a.align
            &&& b.padding == a.padding
            &&& b.border_radius == a.border_radius
            &&& b.tb_border_radius == a.tb_border_radius
            &&& b.icon_width == a.icon_width
            &&& b.css_class == a.css_class
            &&& b.thumbnails == a.thumbnails
            &&& b.images@ == a.images@.update(i as int, b.images@[i as int])
            &&& carousel_img_applied(a.images@[i as int], b.images@[i as int], st, r)
            },
            _ => n == o && missing(r),
        }
    }
}

pub open spec fn column_applied_at(o: MjColumn, n: MjColumn, steps: Seq<Step>, st: EditFormState, r: Result<(), String>) -> bool {
    if steps.len() == 0 {
        column_applied(o, n, st, r)
    } else {
        match steps[0] {
            Step::ColComp(i) if i < o.components@.len() => {
            &&& n.width == o.width
            &&& n.background_color == o.background_color
            &&& n.padding == o.padding
            &&& n.inner_background_color == o.inner_background_color
            &&& n.border == o.border
            &&& n.border_sides == o.border_sides
            &&& n.border_radius == o.border_radius
            &&& n.inner_border == o.inner_border
            &&& n.inner_border_sides == o.inner_border_sides
            &&& n.inner_border_radius == o.inner_border_radius
            &&& n.vertical_align == o.vertical_align
            &&& n.css_class == o.css_class
            &&& n.components@ == o.components@.update(i as int, n.components@[i as int])
            &&& child_applied_at(o.components@[i as int], n.components@[i as int], steps.drop_first(), st, r)
            },
            _ => n == o && missing(r),
        }
    }
}

pub open spec fn group_applied_at(o: MjGroup, n: MjGroup, steps: Seq<Step>, st: EditFormState, r: Result<(), String>) -> bool {
    if steps.len() == 0 {
        group_applied(o, n, st, r)
    } else {
        match steps[0] {
            Step::GroupCol(i) if i < o.children@.len() => {
            &&& n.width == o.width
            &&& n.background_color == o.background_color
            &&& n.direction == o.direction
            &&& n.vertical_align == o.vertical_align
            &&& n.css_class == o.css_class
            &&& n.children@ == o.children@.update(i as int, n.children@[i as int])
            &&& column_applied_at(o.children@[i as int], n.children@[i as int], steps.drop_first(), st, r)
            },
            _ => n == o && missing(r),
        }
    }
}

pub open spec fn section_child_applied_at(o: SectionChild, n: SectionChild, steps: Seq<Step>, st: EditFormState, r: Result<(), String>) -> bool {
    match o {
        SectionChild::MjColumn(a) => n matches SectionChild::MjColumn(b) && column_applied_at(a, b, steps, st, r),
        SectionChild::MjGroup(a) => n matches SectionChild::MjGroup(b) && group_applied_at(a, b, steps, st, r),
    }
}

/// Writing back at `steps` from a body node: the node there takes the
/// form, every other node and field stays; a path that leads nowhere
/// changes nothing and is refused.
pub open spec fn node_applied_at(o: BodyNode, n: BodyNode, steps: Seq<Step>, st: EditFormState, r: Result<(), String>) -> bool
    decreases steps.len(),
{
    if steps.len() == 0 {
        node_applied(o, n, st, r)
    } else {
        match (steps[0], o) {
            (Step::WrapperChild(j), BodyNode::MjWrapper(a)) if j < a.children@.len() => n matches BodyNode::MjWrapper(b) && {
            &&& b.label == a.label
            &&& b.background_color == a.background_color
            &&& b.padding == a.padding
            &&& b.border == a.border
            &&& b.border_sides == a.border_sides
            &&& b.border_radius == a.border_radius
            &&& b.background_url == a.background_url
            &&& b.background_size == a.background_size
            &&& b.background_repeat == a.background_repeat
            &&& b.gap == a.gap
            &&& b.full_width == a.full_width
            &&& b.css_class == a.css_class
            &&& b.children@ == a.children@.update(j as int, b.children@[j as int])
            &&& node_applied_at(a.children@[j as int], b.children@[j as int], steps.drop_first(), st, r)
            },
            (Step::SectionChild(j), BodyNode::MjSection(a)) if j < a.children@.len() => n matches BodyNode::MjSection(b) && {
            &&& b.label == a.label
            &&& b.background_color == a.background_color
            &&& b.padding == a.padding
            &&& b.border == a.border
            &&& b.border_sides == a.border_sides
            &&& b.border_radius == a.border_radius
            &&& b.gutter == a.gutter
            &&& b.background_url == a.background_url
            &&& b.background_size == a.background_size
            &&& b.background_repeat == a.background_repeat
            &&& b.direction == a.direction
            &&& b.full_width == a.full_width
            &&& b.css_class == a.css_class
            &&& b.children@ == a.children@.update(j as int, b.children@[j as int])
            &&& section_child_applied_at(a.children@[j as int], b.children@[j as int], steps.drop_first(), st, r)
            },
            (Step::HeroChild(j), BodyNode::MjHero(a)) if j < a.children@.len() => n matches BodyNode::MjHero(b) && {
            &&& b.mode == a.mode
            &&& b.background_url == a.background_url
            &&& b.background_color == a.background_color
            &&& b.background_height == a.background_height
            &&& b.background_width == a.background_width
            &&& b.background_position == a.background_position
            &&& b.width == a.width
            &&& b.height == a.height
            &&& b.padding == a.padding
            &&& b.inner_padding == a.inner_padding
            &&& b.border_radius == a.border_radius
            &&& b.vertical_align == a.vertical_align
            &&& b.css_class == a.css_class
            &&& b.children@ == a.children@.update(j as int, b.children@[j as int])
            &&& child_applied_at(a.children@[j as int], b.children@[j as int], steps.drop_first(), st, r)
            },
            _ => n == o && missing(r),
        }
    }
}

/// Writing back at a tree path.
pub open spec fn template_applied_at(o: Template, n: Template, path: Seq<Step>, st: EditFormState, r: Result<(), String>) -> bool {
    if path.len() > 0 && path[0] is BodyNode && path[0]->BodyNode_0 < o.body.nodes@.len() {
        let i = path[0]->BodyNode_0 as int;
            &&& n.version == o.version
            &&& n.name == o.name
            &&& n.subject == o.subject
            &&& n.preheader == o.preheader
            &&& n.lang == o.lang
            &&& n.dir == o.dir
            &&& n.base_url == o.base_url
            &&& n.brand == o.brand
            &&& n.head == o.head
        &&& n.body.background_color == o.body.background_color
        &&& n.body.css_class == o.body.css_class
        &&& n.body.nodes@ == o.body.nodes@.update(i, n.body.nodes@[i])
        &&& node_applied_at(o.body.nodes@[i], n.body.nodes@[i], path.drop_first(), st, r)
    } else {
        n == o && missing(r)
    }
}

fn missing_node() -> (r: Result<(), String>)
    ensures
        missing(r),
{
    Err(owned("missing node"))
}

fn apply_in_child(c: &mut ColumnChild, path: &Vec<Step>, k: usize, state: &EditFormState) -> (r: Result<(), String>)
    requires
        k <= path@.len(),
    ensures
        child_applied_at(*old(c), *final(c), path@.skip(k as int), *state, r),
{
    if k == path.len() {
        return apply_leaf(c, state);
    }
    proof {
        assert(path@.skip(k as int)[0] == path@[k as int]);
    }
    match path[k] {
        Step::NavbarLink(i) => match c {
            ColumnChild::MjNavbar(n) => if i < n.links.len() {
                apply_navbar_link(&mut n.links[i], state)
            } else {
                missing_node()
            },
            _ => missing_node(),
        },
        Step::AccordionEl(i) => match c {
            ColumnChild::MjAccordion(n) => if i < n.elements.len() {
                apply_accordion_el(&mut n.elements[i], state)
            } else {
                missing_node()
            },
            _ => missing_node(),
        },
        Step::CarouselImg(i) => match c {
            ColumnChild::MjCarousel(n) => if i < n.images.len() {
                apply_carousel_img(&mut n.images[i], state)
            } else {
                missing_node()
            },
            _ => missing_node(),
        },
        _ => missing_node(),
    }
}

fn apply_in_column(c: &mut MjColumn, path: &Vec<Step>, k: usize, state: &EditFormState) -> (r: Result<(), String>)
    requires
        k <= path@.len(),
    ensures
        column_applied_at(*old(c), *final(c), path@.skip(k as int), *state, r),
{
    if k == path.len() {
        return apply_column(c, state);
    }
    proof {
        assert(path@.skip(k as int)[0] == path@[k as int]);
        assert(path@.skip(k as int).drop_first() =~= path@.skip(k + 1));
    }
    match path[k] {
        Step::ColComp(i) => if i < c.components.len() {
            apply_in_child(&mut c.components[i], path, k + 1, state)
        } else {
            missing_node()
        },
        _ => missing_node(),
    }
}

fn apply_in_group(g: &mut MjGroup, path: &Vec<Step>, k: usize, state: &EditFormState) -> (r: Result<(), String>)
    requires
        k <= path@.len(),
    ensures
        group_applied_at(*old(g), *final(g), path@.skip(k as int), *state, r),
{
    if k == path.len() {
        return apply_group(g, state);
    }
    proof {
        assert(path@.skip(k as int)[0] == path@[k as int]);
        assert(path@.skip(k as int).drop_first() =~= path@.skip(k + 1));
    }
    match path[k] {
        Step::GroupCol(i) => if i < g.children.len() {
            apply_in_column(&mut g.children[i], path, k + 1, state)
        } else {
            missing_node()
        },
        _ => missing_node(),
    }
}

fn apply_in_node(n: &mut BodyNode, path: &Vec<Step>, k: usize, state: &EditFormState) -> (r: Result<(), String>)
    requires
        k <= path@.len(),
    ensures
        node_applied_at(*old(n), *final(n), path@.skip(k as int), *state, r),
    decreases path@.len() - k,
{
    if k == path.len() {
        return apply_body_node(n, state);
    }
    proof {
        assert(path@.skip(k as int)[0] == path@[k as int]);
        assert(path@.skip(k as int).drop_first() =~= path@.skip(k + 1));
    }
    match path[k] {
        Step::WrapperChild(j) => match n {
            BodyNode::MjWrapper(w) => if j < w.children.len() {
                apply_in_node(&mut w.children[j], path, k + 1, state)
            } else {
                missing_node()
            },
            _ => missing_node(),
        },
        Step::SectionChild(j) => match n {
            BodyNode::MjSection(s) => if j < s.children.len() {
                match &mut s.children[j] {
                    SectionChild::MjColumn(c) => apply_in_column(c, path, k + 1, state),
                    SectionChild::MjGroup(g) => apply_in_group(g, path, k + 1, state),
                }
            } else {
                missing_node()
            },
            _ => missing_node(),
        },
        Step::HeroChild(j) => match n {
            BodyNode::MjHero(h) => if j < h.children.len() {
                apply_in_child(&mut h.children[j], path, k + 1, state)
            } else {
                missing_node()
            },
            _ => missing_node(),
        },
        _ => missing_node(),
    }
}

/// Writes the form back into the selected part of the template: the head,
/// the brand, the body, or the node at a path. Fields are written in form
/// order; the first one that does not read stops the write with its
/// message, and the fields before it keep their new values.
pub fn apply_form(template: &mut Template, id: &TreeId, state: &EditFormState) -> (r: Result<(), String>)
    ensures
        *id is Head ==> head_applied(*old(template), *final(template), *state, r),
        *id is Brand ==> (brand_applied(old(template).brand, final(template).brand, *state, r) && *final(template)
            == (Template { brand: final(template).brand, ..*old(template) })),
        *id is Body ==> (body_applied(old(template).body, final(template).body, *state, r) && *final(template)
            == (Template { body: final(template).body, ..*old(template) })),
        id matches TreeId::Path(p) ==> template_applied_at(*old(template), *final(template), p@, *state, r),
{
    match id {
        TreeId::Head => apply_head(template, state),
        TreeId::Brand => apply_brand(&mut template.brand, state),
        TreeId::Body => apply_body(&mut template.body, state),
        TreeId::Path(path) => {
            if path.len() == 0 {
                return missing_node();
            }
            match path[0] {
                Step::BodyNode(i) => if i < template.body.nodes.len() {
                    proof {
                        assert(path@.drop_first() =~= path@.skip(1));
                    }
                    apply_in_node(&mut template.body.nodes[i], path, 1, state)
                } else {
                    missing_node()
                },
                _ => missing_node(),
            }
        },
    }
}

} // verus!
