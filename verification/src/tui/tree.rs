//! Structure tree: identity, rows, labels and the tree pane's width.
//!
//! The rows a template shows are stated by spec functions over [`RowView`],
//! one per kind of node; the builders are proved to produce exactly them.
use vstd::prelude::*;

use crate::emit::given;
use crate::model::{
    BodyNode, ColumnChild, MjAccordion, MjCarousel, MjColumn, MjGroup, MjHero, MjNavbar,
    MjSection, SectionChild, Template,
};
use crate::text::{decimal, decimal_exec, owned, push_str, trim_str};

verus! {

/// One step from a node to one of its children.
#[derive(Clone, Copy, Debug, PartialEq, Eq, Hash, Structural)]
pub enum Step {
    BodyNode(usize),
    WrapperChild(usize),
    SectionChild(usize),
    GroupCol(usize),
    ColComp(usize),
    HeroChild(usize),
    NavbarLink(usize),
    AccordionEl(usize),
    CarouselImg(usize),
}

/// Which tree row: the head, the brand, the body, or a node by its path.
#[derive(Clone, Debug, PartialEq, Eq, Hash)]
pub enum TreeId {
    Head,
    Brand,
    Body,
    Path(Vec<Step>),
}

/// The view of a [`TreeId`].
pub enum IdView {
    Head,
    Brand,
    Body,
    Path(Seq<Step>),
}

impl View for TreeId {
    type V = IdView;

    open spec fn view(&self) -> IdView {
        match self {
            TreeId::Head => IdView::Head,
            TreeId::Brand => IdView::Brand,
            TreeId::Body => IdView::Body,
            TreeId::Path(p) => IdView::Path(p@),
        }
    }
}

/// One row of the structure tree.
#[derive(Clone, Debug)]
pub struct TreeRow {
    pub id: TreeId,
    pub label: String,
    pub prefix: String,
    pub expandable: bool,
}

/// The view of a [`TreeRow`].
pub struct RowView {
    pub id: IdView,
    pub label: Seq<char>,
    pub prefix: Seq<char>,
    pub expandable: bool,
}

impl View for TreeRow {
    type V = RowView;

    open spec fn view(&self) -> RowView {
        RowView { id: self.id@, label: self.label@, prefix: self.prefix@, expandable: self.expandable }
    }
}

/// Which pane has the keyboard.
#[derive(Clone, Copy, Debug, PartialEq, Eq, Structural)]
pub enum PaneFocus {
    Structure,
    Details,
}

pub open spec fn ids_view(v: Seq<TreeId>) -> Seq<IdView> {
    v.map_values(|i: TreeId| i@)
}

pub open spec fn rows_view(v: Seq<TreeRow>) -> Seq<RowView> {
    v.map_values(|r: TreeRow| r@)
}

// ---------------------------------------------------------------------------
// The tree pane's width
// ---------------------------------------------------------------------------

/// The tree pane's width for a terminal `area_width` columns wide: none
/// below 48; else 32% of it, at least 24, leaving at least 20 columns.
pub open spec fn tree_width(area_width: u16) -> Option<u16> {
    if area_width < 48 {
        None
    } else {
        let preferred = (area_width * 8 / 25) as int;
        let wide = if preferred < 24 {
            24
        } else {
            preferred
        };
        let room = area_width - 20;
        Some((if wide < room {
            wide
        } else {
            room
        }) as u16)
    }
}

/// The tree pane's width (see [`tree_width`]).
pub fn master_detail_tree_width(area_width: u16) -> (r: Option<u16>)
    ensures
        r == tree_width(area_width),
{
    if area_width < 48 {
        return None;
    }
    let preferred = (area_width as u32 * 8 / 25) as u16;
    let wide = if preferred < 24 {
        24
    } else {
        preferred
    };
    let room = area_width - 20;
    Some(
        if wide < room {
            wide
        } else {
            room
        },
    )
}

// ---------------------------------------------------------------------------
// What rows a template shows
// ---------------------------------------------------------------------------

/// The guide columns for the ancestors: `│` under those with siblings below.
pub open spec fn bars(anc: Seq<bool>) -> Seq<char>
    decreases anc.len(),
{
    if anc.len() == 0 {
        Seq::empty()
    } else {
        bars(anc.drop_last()) + if anc.last() {
            "   "@
        } else {
            "│  "@
        }
    }
}

pub open spec fn row_of(id: IdView, label: Seq<char>, anc: Seq<bool>, is_last: bool, expandable: bool) -> RowView {
    RowView {
        id,
        label,
        prefix: bars(anc) + if is_last {
            "└─ "@
        } else {
            "├─ "@
        },
        expandable,
    }
}

/// `"3. mj-section"`, with the author's label after two spaces when set.
pub open spec fn numbered(number: nat, kind: Seq<char>, label: Option<String>) -> Seq<char> {
    match given(label) {
        Some(l) => decimal(number) + ". "@ + kind + "  "@ + l,
        None => decimal(number) + ". "@ + kind,
    }
}

pub open spec fn leaf_label(c: ColumnChild) -> Seq<char> {
    match c {
        ColumnChild::MjText(_) => "mj-text"@,
        ColumnChild::MjButton(_) => "mj-button"@,
        ColumnChild::MjImage(_) => "mj-image"@,
        ColumnChild::MjDivider(_) => "mj-divider"@,
        ColumnChild::MjSpacer(_) => "mj-spacer"@,
        ColumnChild::MjSocial(_) => "mj-social"@,
        ColumnChild::MjTable(_) => "mj-table"@,
        ColumnChild::MjNavbar(_) => "mj-navbar"@,
        ColumnChild::MjAccordion(_) => "mj-accordion"@,
        ColumnChild::MjCarousel(_) => "mj-carousel"@,
    }
}

/// The rows of the first `k` of `count` nested items under `path`.
pub open spec fn item_rows(
    path: Seq<Step>,
    next: Seq<bool>,
    count: nat,
    k: nat,
    mk: spec_fn(usize) -> Step,
    label: Seq<char>,
) -> Seq<RowView>
    decreases k,
{
    if k == 0 {
        Seq::empty()
    } else {
        item_rows(path, next, count, (k - 1) as nat, mk, label).push(
            row_of(IdView::Path(path.push(mk((k - 1) as usize))), label, next, k == count, false),
        )
    }
}

/// A node with `count` nested items: its row, then the items when expanded.
pub open spec fn parent_rows(
    path: Seq<Step>,
    anc: Seq<bool>,
    is_last: bool,
    label: Seq<char>,
    count: nat,
    cs: Seq<IdView>,
    mk: spec_fn(usize) -> Step,
    item_label: Seq<char>,
) -> Seq<RowView> {
    let expandable = count > 0;
    let expanded = expandable && !cs.contains(IdView::Path(path));
    seq![row_of(IdView::Path(path), label, anc, is_last, expandable)] + if expanded {
        item_rows(path, anc.push(is_last), count, count, mk, item_label)
    } else {
        Seq::empty()
    }
}

pub open spec fn child_rows(c: ColumnChild, path: Seq<Step>, anc: Seq<bool>, is_last: bool, cs: Seq<IdView>) -> Seq<RowView> {
    match c {
        ColumnChild::MjNavbar(n) => parent_rows(
            path,
            anc,
            is_last,
            "mj-navbar"@,
            n.links.len() as nat,
            cs,
            |i: usize| Step::NavbarLink(i),
            "mj-navbar-link"@,
        ),
        ColumnChild::MjAccordion(a) => parent_rows(
            path,
            anc,
            is_last,
            "mj-accordion"@,
            a.elements.len() as nat,
            cs,
            |i: usize| Step::AccordionEl(i),
            "mj-accordion-element"@,
        ),
        ColumnChild::MjCarousel(car) => parent_rows(
            path,
            anc,
            is_last,
            "mj-carousel"@,
            car.images.len() as nat,
            cs,
            |i: usize| Step::CarouselImg(i),
            "mj-carousel-image"@,
        ),
        _ => seq![row_of(IdView::Path(path), leaf_label(c), anc, is_last, false)],
    }
}

/// The rows of the first `k` components of a column or hero.
pub open spec fn comps_rows(
    comps: Seq<ColumnChild>,
    path: Seq<Step>,
    next: Seq<bool>,
    cs: Seq<IdView>,
    k: nat,
    mk: spec_fn(usize) -> Step,
) -> Seq<RowView>
    decreases k,
{
    if k == 0 {
        Seq::empty()
    } else {
        comps_rows(comps, path, next, cs, (k - 1) as nat, mk) + child_rows(
            comps[k - 1],
            path.push(mk((k - 1) as usize)),
            next,
            k == comps.len(),
            cs,
        )
    }
}

pub open spec fn column_label(c: MjColumn) -> Seq<char> {
    match given(c.width) {
        Some(w) => "mj-column "@ + w,
        None => "mj-column"@,
    }
}

pub open spec fn column_rows(c: MjColumn, path: Seq<Step>, anc: Seq<bool>, is_last: bool, cs: Seq<IdView>) -> Seq<RowView> {
    let n = c.components.len() as nat;
    let expandable = n > 0;
    let expanded = expandable && !cs.contains(IdView::Path(path));
    seq![row_of(IdView::Path(path), column_label(c), anc, is_last, expandable)] + if expanded {
        comps_rows(c.components@, path, anc.push(is_last), cs, n, |i: usize| Step::ColComp(i))
    } else {
        Seq::empty()
    }
}

pub open spec fn cols_rows(cols: Seq<MjColumn>, path: Seq<Step>, next: Seq<bool>, cs: Seq<IdView>, k: nat) -> Seq<RowView>
    decreases k,
{
    if k == 0 {
        Seq::empty()
    } else {
        cols_rows(cols, path, next, cs, (k - 1) as nat) + column_rows(
            cols[k - 1],
            path.push(Step::GroupCol((k - 1) as usize)),
            next,
            k == cols.len(),
            cs,
        )
    }
}

pub open spec fn group_rows(g: MjGroup, path: Seq<Step>, anc: Seq<bool>, is_last: bool, cs: Seq<IdView>) -> Seq<RowView> {
    let n = g.children.len() as nat;
    let expandable = n > 0;
    let expanded = expandable && !cs.contains(IdView::Path(path));
    seq![row_of(IdView::Path(path), "mj-group"@, anc, is_last, expandable)] + if expanded {
        cols_rows(g.children@, path, anc.push(is_last), cs, n)
    } else {
        Seq::empty()
    }
}

pub open spec fn section_child_rows(
    chs: Seq<SectionChild>,
    path: Seq<Step>,
    next: Seq<bool>,
    cs: Seq<IdView>,
    k: nat,
) -> Seq<RowView>
    decreases k,
{
    if k == 0 {
        Seq::empty()
    } else {
        let p = path.push(Step::SectionChild((k - 1) as usize));
        let last = k == chs.len();
        section_child_rows(chs, path, next, cs, (k - 1) as nat) + match chs[k - 1] {
            SectionChild::MjColumn(c) => column_rows(c, p, next, last, cs),
            SectionChild::MjGroup(g) => group_rows(g, p, next, last, cs),
        }
    }
}

/// A body node's rows: its own row, then its children when it has some and
/// is not collapsed.
pub open spec fn node_rows(
    node: BodyNode,
    path: Seq<Step>,
    anc: Seq<bool>,
    is_last: bool,
    number: nat,
    cs: Seq<IdView>,
) -> Seq<RowView>
    decreases node, 0nat,
{
    let id = IdView::Path(path);
    match node {
        BodyNode::MjSection(s) => {
            let n = s.children.len() as nat;
            let expanded = n > 0 && !cs.contains(id);
            seq![row_of(id, numbered(number, "mj-section"@, s.label), anc, is_last, n > 0)] + if expanded {
                section_child_rows(s.children@, path, anc.push(is_last), cs, n)
            } else {
                Seq::empty()
            }
        },
        BodyNode::MjWrapper(w) => {
            let n = w.children.len() as nat;
            let expanded = n > 0 && !cs.contains(id);
            seq![row_of(id, numbered(number, "mj-wrapper"@, w.label), anc, is_last, n > 0)] + if expanded {
                wrapper_rows(w.children@, path, anc.push(is_last), cs, n)
            } else {
                Seq::empty()
            }
        },
        BodyNode::MjHero(h) => {
            let n = h.children.len() as nat;
            let expanded = n > 0 && !cs.contains(id);
            seq![row_of(id, decimal(number) + ". "@ + "mj-hero"@, anc, is_last, n > 0)] + if expanded {
                comps_rows(h.children@, path, anc.push(is_last), cs, n, |i: usize| Step::HeroChild(i))
            } else {
                Seq::empty()
            }
        },
        BodyNode::EmailHeader(_) => seq![row_of(id, decimal(number) + ". "@ + "email-header"@, anc, is_last, false)],
        BodyNode::EmailHero(_) => seq![row_of(id, decimal(number) + ". "@ + "email-hero"@, anc, is_last, false)],
        BodyNode::EmailCta(_) => seq![row_of(id, decimal(number) + ". "@ + "email-cta"@, anc, is_last, false)],
        BodyNode::EmailArticle(_) => seq![row_of(id, decimal(number) + ". "@ + "email-article"@, anc, is_last, false)],
        BodyNode::EmailFooter(_) => seq![row_of(id, decimal(number) + ". "@ + "email-footer"@, anc, is_last, false)],
    }
}

/// The rows of a wrapper's first `k` children.
pub open spec fn wrapper_rows(ns: Seq<BodyNode>, path: Seq<Step>, next: Seq<bool>, cs: Seq<IdView>, k: nat) -> Seq<RowView>
    decreases ns, k,
{
    if k == 0 || k > ns.len() {
        Seq::empty()
    } else {
        wrapper_rows(ns, path, next, cs, (k - 1) as nat) + node_rows(
            ns[k - 1],
            path.push(Step::WrapperChild((k - 1) as usize)),
            next,
            k == ns.len(),
            k,
            cs,
        )
    }
}

/// The rows of the first `k` body nodes.
pub open spec fn body_rows(ns: Seq<BodyNode>, cs: Seq<IdView>, k: nat) -> Seq<RowView>
    decreases k,
{
    if k == 0 {
        Seq::empty()
    } else {
        body_rows(ns, cs, (k - 1) as nat) + node_rows(
            ns[k - 1],
            seq![Step::BodyNode((k - 1) as usize)],
            Seq::empty(),
            k == ns.len(),
            k,
            cs,
        )
    }
}

pub open spec fn root_row(id: IdView, label: Seq<char>, expandable: bool) -> RowView {
    RowView { id, label, prefix: Seq::empty(), expandable }
}

/// The whole tree: head, brand, body and, unless the body is collapsed, its
/// nodes.
pub open spec fn tree_rows(t: Option<Template>, cs: Seq<IdView>) -> Seq<RowView> {
    let head = seq![
        root_row(IdView::Head, "[HEAD] mj-head"@, false),
        root_row(IdView::Brand, "[BRAND] brand"@, false),
    ];
    match t {
        None => head.push(root_row(IdView::Body, "[BODY] mj-body"@, false)),
        Some(t) => {
            let n = t.body.nodes.len() as nat;
            let body = root_row(IdView::Body, "[BODY] mj-body ("@ + decimal(n) + ")"@, n > 0);
            head.push(body) + if n > 0 && !cs.contains(IdView::Body) {
                body_rows(t.body.nodes@, cs, n)
            } else {
                Seq::empty()
            }
        },
    }
}


// ---------------------------------------------------------------------------
// Building the rows
// ---------------------------------------------------------------------------

pub(crate) fn copy_path(p: &Vec<Step>) -> (r: Vec<Step>)
    ensures
        r@ == p@,
{
    let mut r: Vec<Step> = Vec::new();
    let mut i: usize = 0;
    while i < p.len()
        invariant
            i <= p.len(),
            r@ == p@.take(i as int),
        decreases p.len() - i,
    {
        r.push(p[i]);
        assert(r@ =~= p@.take(i + 1));
        i += 1;
    }
    assert(p@.take(p.len() as int) =~= p@);
    r
}

/// A copy of a row id.
pub(crate) fn copy_id(id: &TreeId) -> (r: TreeId)
    ensures
        r@ == id@,
{
    match id {
        TreeId::Head => TreeId::Head,
        TreeId::Brand => TreeId::Brand,
        TreeId::Body => TreeId::Body,
        TreeId::Path(p) => TreeId::Path(copy_path(p)),
    }
}

pub(crate) fn extend_path(p: &Vec<Step>, s: Step) -> (r: Vec<Step>)
    ensures
        r@ == p@.push(s),
{
    let mut r = copy_path(p);
    r.push(s);
    r
}

fn extend_anc(a: &Vec<bool>, last: bool) -> (r: Vec<bool>)
    ensures
        r@ == a@.push(last),
{
    let mut r: Vec<bool> = Vec::new();
    let mut i: usize = 0;
    while i < a.len()
        invariant
            i <= a.len(),
            r@ == a@.take(i as int),
        decreases a.len() - i,
    {
        r.push(a[i]);
        assert(r@ =~= a@.take(i + 1));
        i += 1;
    }
    assert(a@.take(a.len() as int) =~= a@);
    r.push(last);
    r
}

fn same_path(a: &Vec<Step>, b: &Vec<Step>) -> (r: bool)
    ensures
        r == (a@ == b@),
{
    if a.len() != b.len() {
        return false;
    }
    let mut i: usize = 0;
    while i < a.len()
        invariant
            i <= a.len() == b.len(),
            forall|j: int| 0 <= j < i ==> a@[j] == b@[j],
        decreases a.len() - i,
    {
        if a[i] != b[i] {
            return false;
        }
        i += 1;
    }
    assert(a@ =~= b@);
    true
}

/// Whether two ids name the same row.
pub(crate) fn same_id(a: &TreeId, b: &TreeId) -> (r: bool)
    ensures
        r == (a@ == b@),
{
    match (a, b) {
        (TreeId::Head, TreeId::Head) => true,
        (TreeId::Brand, TreeId::Brand) => true,
        (TreeId::Body, TreeId::Body) => true,
        (TreeId::Path(p), TreeId::Path(q)) => same_path(p, q),
        _ => false,
    }
}

/// Whether `id` is among the collapsed rows.
fn is_collapsed(collapsed: &Vec<TreeId>, id: &TreeId) -> (r: bool)
    ensures
        r == ids_view(collapsed@).contains(id@),
{
    let mut i: usize = 0;
    while i < collapsed.len()
        invariant
            i <= collapsed.len(),
            forall|j: int| 0 <= j < i ==> ids_view(collapsed@)[j] != id@,
        decreases collapsed.len() - i,
    {
        if same_id(&collapsed[i], id) {
            assert(ids_view(collapsed@)[i as int] == id@);
            return true;
        }
        i += 1;
    }
    false
}

fn push_row(rows: &mut Vec<TreeRow>, r: TreeRow)
    ensures
        rows_view(final(rows)@) == rows_view(old(rows)@).push(r@),
{
    rows.push(r);
    assert(rows_view(rows@) =~= rows_view(old(rows)@).push(r@));
}

fn row(id: TreeId, label: String, ancestors_last: &Vec<bool>, is_last: bool, expandable: bool) -> (r: TreeRow)
    ensures
        r@ == row_of(id@, label@, ancestors_last@, is_last, expandable),
{
    let mut prefix = String::new();
    let mut i: usize = 0;
    while i < ancestors_last.len()
        invariant
            i <= ancestors_last.len(),
            prefix@ == bars(ancestors_last@.take(i as int)),
        decreases ancestors_last.len() - i,
    {
        assert(ancestors_last@.take(i + 1).drop_last() =~= ancestors_last@.take(i as int));
        if ancestors_last[i] {
            push_str(&mut prefix, "   ");
        } else {
            push_str(&mut prefix, "│  ");
        }
        i += 1;
    }
    assert(ancestors_last@.take(ancestors_last.len() as int) =~= ancestors_last@);
    if is_last {
        push_str(&mut prefix, "└─ ");
    } else {
        push_str(&mut prefix, "├─ ");
    }
    TreeRow { id, label, prefix, expandable }
}

fn number_text(number: usize, kind: &str) -> (r: String)
    ensures
        r@ == decimal(number as nat) + ". "@ + kind@,
{
    let mut s = decimal_exec(number as u64);
    push_str(&mut s, ". ");
    push_str(&mut s, kind);
    s
}

fn numbered_kind(number: usize, kind: &str, label: &Option<String>) -> (r: String)
    ensures
        r@ == numbered(number as nat, kind@, *label),
{
    let mut s = number_text(number, kind);
    match label {
        Some(l) => {
            let t = trim_str(l.as_str());
            if !t.as_str().is_empty() {
                push_str(&mut s, "  ");
                push_str(&mut s, t.as_str());
            }
        },
        None => {},
    }
    s
}

fn column_child_label(c: &ColumnChild) -> (r: String)
    ensures
        r@ == leaf_label(*c),
{
    let s = match c {
        ColumnChild::MjText(_) => "mj-text",
        ColumnChild::MjButton(_) => "mj-button",
        ColumnChild::MjImage(_) => "mj-image",
        ColumnChild::MjDivider(_) => "mj-divider",
        ColumnChild::MjSpacer(_) => "mj-spacer",
        ColumnChild::MjSocial(_) => "mj-social",
        ColumnChild::MjTable(_) => "mj-table",
        ColumnChild::MjNavbar(_) => "mj-navbar",
        ColumnChild::MjAccordion(_) => "mj-accordion",
        ColumnChild::MjCarousel(_) => "mj-carousel",
    };
    owned(s)
}

/// Which nested items a parent lists.
enum Nested {
    Links,
    Elements,
    Images,
}

spec fn nested_step(k: Nested) -> spec_fn(usize) -> Step {
    match k {
        Nested::Links => |i: usize| Step::NavbarLink(i),
        Nested::Elements => |i: usize| Step::AccordionEl(i),
        Nested::Images => |i: usize| Step::CarouselImg(i),
    }
}

fn nested_step_exec(k: &Nested, i: usize) -> (r: Step)
    ensures
        r == nested_step(*k)(i),
{
    match k {
        Nested::Links => Step::NavbarLink(i),
        Nested::Elements => Step::AccordionEl(i),
        Nested::Images => Step::CarouselImg(i),
    }
}

fn push_parent(
    rows: &mut Vec<TreeRow>,
    path: Vec<Step>,
    ancestors_last: &Vec<bool>,
    is_last: bool,
    label: &'static str,
    count: usize,
    collapsed: &Vec<TreeId>,
    kind: Nested,
    item_label: &'static str,
)
    ensures
        rows_view(final(rows)@) == rows_view(old(rows)@) + parent_rows(
            path@,
            ancestors_last@,
            is_last,
            label@,
            count as nat,
            ids_view(collapsed@),
            nested_step(kind),
            item_label@,
        ),
{
    let id = TreeId::Path(copy_path(&path));
    let expandable = count > 0;
    let expanded = expandable && !is_collapsed(collapsed, &id);
    push_row(rows, row(id, owned(label), ancestors_last, is_last, expandable));
    let ghost start = rows_view(rows@);
    if expanded {
        let next = extend_anc(ancestors_last, is_last);
        let mut i: usize = 0;
        while i < count
            invariant
                i <= count,
                next@ == ancestors_last@.push(is_last),
                rows_view(rows@) == start + item_rows(path@, next@, count as nat, i as nat, nested_step(kind), item_label@),
            decreases count - i,
        {
            let p = extend_path(&path, nested_step_exec(&kind, i));
            push_row(rows, row(TreeId::Path(p), owned(item_label), &next, i + 1 == count, false));
            i += 1;
        }
    }
    assert(start + Seq::<RowView>::empty() =~= start);
}


fn push_column_child(
    rows: &mut Vec<TreeRow>,
    c: &ColumnChild,
    path: Vec<Step>,
    ancestors_last: &Vec<bool>,
    is_last: bool,
    collapsed: &Vec<TreeId>,
)
    ensures
        rows_view(final(rows)@) == rows_view(old(rows)@) + child_rows(*c, path@, ancestors_last@, is_last, ids_view(collapsed@)),
{
    match c {
        ColumnChild::MjNavbar(n) => {
            push_parent(rows, path, ancestors_last, is_last, "mj-navbar", n.links.len(), collapsed, Nested::Links, "mj-navbar-link");
            assert(nested_step(Nested::Links) == (|i: usize| Step::NavbarLink(i)));
        },
        ColumnChild::MjAccordion(a) => {
            push_parent(rows, path, ancestors_last, is_last, "mj-accordion", a.elements.len(), collapsed, Nested::Elements, "mj-accordion-element");
            assert(nested_step(Nested::Elements) == (|i: usize| Step::AccordionEl(i)));
        },
        ColumnChild::MjCarousel(car) => {
            push_parent(rows, path, ancestors_last, is_last, "mj-carousel", car.images.len(), collapsed, Nested::Images, "mj-carousel-image");
            assert(nested_step(Nested::Images) == (|i: usize| Step::CarouselImg(i)));
        },
        _ => {
            let ghost pv = path@;
            push_row(rows, row(TreeId::Path(path), column_child_label(c), ancestors_last, is_last, false));
            assert(rows_view(rows@) =~= rows_view(old(rows)@) + child_rows(*c, pv, ancestors_last@, is_last, ids_view(collapsed@)));
        },
    }
}


spec fn comp_step(hero: bool) -> spec_fn(usize) -> Step {
    if hero {
        |i: usize| Step::HeroChild(i)
    } else {
        |i: usize| Step::ColComp(i)
    }
}

fn push_components(
    rows: &mut Vec<TreeRow>,
    comps: &Vec<ColumnChild>,
    path: &Vec<Step>,
    next: &Vec<bool>,
    collapsed: &Vec<TreeId>,
    hero: bool,
)
    ensures
        rows_view(final(rows)@) == rows_view(old(rows)@) + comps_rows(
            comps@,
            path@,
            next@,
            ids_view(collapsed@),
            comps@.len(),
            comp_step(hero),
        ),
{
    let ghost start = rows_view(rows@);
    let n = comps.len();
    let mut i: usize = 0;
    assert(start + Seq::<RowView>::empty() =~= start);
    while i < n
        invariant
            i <= n == comps.len(),
            rows_view(rows@) == start + comps_rows(comps@, path@, next@, ids_view(collapsed@), i as nat, comp_step(hero)),
        decreases n - i,
    {
        let step = if hero {
            Step::HeroChild(i)
        } else {
            Step::ColComp(i)
        };
        let p = extend_path(path, step);
        let ghost before = rows_view(rows@);
        push_column_child(rows, &comps[i], p, next, i + 1 == n, collapsed);
        assert(start + comps_rows(comps@, path@, next@, ids_view(collapsed@), (i + 1) as nat, comp_step(hero))
            =~= before + child_rows(comps@[i as int], path@.push(comp_step(hero)(i)), next@, i + 1 == n, ids_view(collapsed@)));
        i += 1;
    }
}

fn push_column(
    rows: &mut Vec<TreeRow>,
    c: &MjColumn,
    path: Vec<Step>,
    ancestors_last: &Vec<bool>,
    is_last: bool,
    collapsed: &Vec<TreeId>,
)
    ensures
        rows_view(final(rows)@) == rows_view(old(rows)@) + column_rows(*c, path@, ancestors_last@, is_last, ids_view(collapsed@)),
{
    let id = TreeId::Path(copy_path(&path));
    let expandable = c.components.len() > 0;
    let expanded = expandable && !is_collapsed(collapsed, &id);
    let label = match &c.width {
        Some(w) => {
            let t = trim_str(w.as_str());
            if t.as_str().is_empty() {
                owned("mj-column")
            } else {
                let mut l = owned("mj-column ");
                push_str(&mut l, t.as_str());
                l
            }
        },
        None => owned("mj-column"),
    };
    push_row(rows, row(id, label, ancestors_last, is_last, expandable));
    let ghost start = rows_view(rows@);
    if expanded {
        let next = extend_anc(ancestors_last, is_last);
        push_components(rows, &c.components, &path, &next, collapsed, false);
        assert(comp_step(false) == (|i: usize| Step::ColComp(i)));
    }
    assert(start + Seq::<RowView>::empty() =~= start);
}

fn push_group(
    rows: &mut Vec<TreeRow>,
    g: &MjGroup,
    path: Vec<Step>,
    ancestors_last: &Vec<bool>,
    is_last: bool,
    collapsed: &Vec<TreeId>,
)
    ensures
        rows_view(final(rows)@) == rows_view(old(rows)@) + group_rows(*g, path@, ancestors_last@, is_last, ids_view(collapsed@)),
{
    let id = TreeId::Path(copy_path(&path));
    let n = g.children.len();
    let expandable = n > 0;
    let expanded = expandable && !is_collapsed(collapsed, &id);
    push_row(rows, row(id, owned("mj-group"), ancestors_last, is_last, expandable));
    let ghost start = rows_view(rows@);
    if expanded {
        let next = extend_anc(ancestors_last, is_last);
        let mut i: usize = 0;
        while i < n
            invariant
                i <= n == g.children.len(),
                next@ == ancestors_last@.push(is_last),
                rows_view(rows@) == start + cols_rows(g.children@, path@, next@, ids_view(collapsed@), i as nat),
            decreases n - i,
        {
            let p = extend_path(&path, Step::GroupCol(i));
            let ghost before = rows_view(rows@);
            push_column(rows, &g.children[i], p, &next, i + 1 == n, collapsed);
            assert(start + cols_rows(g.children@, path@, next@, ids_view(collapsed@), (i + 1) as nat) =~= before
                + column_rows(g.children@[i as int], path@.push(Step::GroupCol(i)), next@, i + 1 == n, ids_view(collapsed@)));
            i += 1;
        }
    }
    assert(start + Seq::<RowView>::empty() =~= start);
}

fn push_section_children(
    rows: &mut Vec<TreeRow>,
    s: &MjSection,
    path: &Vec<Step>,
    next: &Vec<bool>,
    collapsed: &Vec<TreeId>,
)
    ensures
        rows_view(final(rows)@) == rows_view(old(rows)@) + section_child_rows(
            s.children@,
            path@,
            next@,
            ids_view(collapsed@),
            s.children@.len(),
        ),
{
    let ghost start = rows_view(rows@);
    let n = s.children.len();
    let mut i: usize = 0;
    assert(start + Seq::<RowView>::empty() =~= start);
    while i < n
        invariant
            i <= n == s.children.len(),
            rows_view(rows@) == start + section_child_rows(s.children@, path@, next@, ids_view(collapsed@), i as nat),
        decreases n - i,
    {
        let p = extend_path(path, Step::SectionChild(i));
        let ghost pv = p@;
        let ghost before = rows_view(rows@);
        match &s.children[i] {
            SectionChild::MjColumn(c) => push_column(rows, c, p, next, i + 1 == n, collapsed),
            SectionChild::MjGroup(g) => push_group(rows, g, p, next, i + 1 == n, collapsed),
        }
        assert(start + section_child_rows(s.children@, path@, next@, ids_view(collapsed@), (i + 1) as nat)
            =~= before + match s.children@[i as int] {
            SectionChild::MjColumn(c) => column_rows(c, pv, next@, i + 1 == n, ids_view(collapsed@)),
            SectionChild::MjGroup(g) => group_rows(g, pv, next@, i + 1 == n, ids_view(collapsed@)),
        });
        i += 1;
    }
}


fn push_leaf_block(rows: &mut Vec<TreeRow>, path: Vec<Step>, number: usize, kind: &str, ancestors_last: &Vec<bool>, is_last: bool)
    ensures
        rows_view(final(rows)@) == rows_view(old(rows)@).push(
            row_of(IdView::Path(path@), decimal(number as nat) + ". "@ + kind@, ancestors_last@, is_last, false),
        ),
{
    push_row(rows, row(TreeId::Path(path), number_text(number, kind), ancestors_last, is_last, false));
}

fn push_wrapper_children(
    rows: &mut Vec<TreeRow>,
    children: &Vec<BodyNode>,
    path: &Vec<Step>,
    next: &Vec<bool>,
    collapsed: &Vec<TreeId>,
)
    ensures
        rows_view(final(rows)@) == rows_view(old(rows)@) + wrapper_rows(
            children@,
            path@,
            next@,
            ids_view(collapsed@),
            children@.len(),
        ),
    decreases children, 0nat,
{
    let ghost start = rows_view(rows@);
    let ghost cs = ids_view(collapsed@);
    let n = children.len();
    let mut i: usize = 0;
    assert(start + Seq::<RowView>::empty() =~= start);
    while i < n
        invariant
            i <= n == children.len(),
            cs == ids_view(collapsed@),
            rows_view(rows@) == start + wrapper_rows(children@, path@, next@, cs, i as nat),
        decreases n - i,
    {
        let p = extend_path(path, Step::WrapperChild(i));
        let ghost before = rows_view(rows@);
        push_body_node(rows, &children[i], p, next, i + 1 == n, i + 1, collapsed);
        assert(start + wrapper_rows(children@, path@, next@, cs, (i + 1) as nat) =~= before + node_rows(
            children@[i as int],
            path@.push(Step::WrapperChild(i)),
            next@,
            i + 1 == n,
            (i + 1) as nat,
            cs,
        ));
        i += 1;
    }
}

fn push_body_node(
    rows: &mut Vec<TreeRow>,
    node: &BodyNode,
    path: Vec<Step>,
    ancestors_last: &Vec<bool>,
    is_last: bool,
    number: usize,
    collapsed: &Vec<TreeId>,
)
    ensures
        rows_view(final(rows)@) == rows_view(old(rows)@) + node_rows(
            *node,
            path@,
            ancestors_last@,
            is_last,
            number as nat,
            ids_view(collapsed@),
        ),
    decreases node, 1nat,
{
    let ghost pv = path@;
    let ghost cs = ids_view(collapsed@);
    let ghost start = rows_view(rows@);
    match node {
        BodyNode::MjSection(s) => {
            let id = TreeId::Path(copy_path(&path));
            let expandable = s.children.len() > 0;
            let expanded = expandable && !is_collapsed(collapsed, &id);
            push_row(rows, row(id, numbered_kind(number, "mj-section", &s.label), ancestors_last, is_last, expandable));
            let ghost mid = rows_view(rows@);
            if expanded {
                let next = extend_anc(ancestors_last, is_last);
                push_section_children(rows, s, &path, &next, collapsed);
            }
            assert(mid + Seq::<RowView>::empty() =~= mid);
            assert(rows_view(rows@) =~= start + node_rows(*node, pv, ancestors_last@, is_last, number as nat, cs));
        },
        BodyNode::MjWrapper(w) => {
            let id = TreeId::Path(copy_path(&path));
            let n = w.children.len();
            let expandable = n > 0;
            let expanded = expandable && !is_collapsed(collapsed, &id);
            push_row(rows, row(id, numbered_kind(number, "mj-wrapper", &w.label), ancestors_last, is_last, expandable));
            let ghost mid = rows_view(rows@);
            if expanded {
                let next = extend_anc(ancestors_last, is_last);
                push_wrapper_children(rows, &w.children, &path, &next, collapsed);
            }
            assert(mid + Seq::<RowView>::empty() =~= mid);
            assert(rows_view(rows@) =~= start + node_rows(*node, pv, ancestors_last@, is_last, number as nat, cs));
        },
        BodyNode::MjHero(h) => {
            let id = TreeId::Path(copy_path(&path));
            let expandable = h.children.len() > 0;
            let expanded = expandable && !is_collapsed(collapsed, &id);
            push_row(rows, row(id, number_text(number, "mj-hero"), ancestors_last, is_last, expandable));
            let ghost mid = rows_view(rows@);
            if expanded {
                let next = extend_anc(ancestors_last, is_last);
                push_components(rows, &h.children, &path, &next, collapsed, true);
                assert(comp_step(true) == (|i: usize| Step::HeroChild(i)));
            }
            assert(mid + Seq::<RowView>::empty() =~= mid);
            assert(rows_view(rows@) =~= start + node_rows(*node, pv, ancestors_last@, is_last, number as nat, cs));
        },
        BodyNode::EmailHeader(_) => {
            push_leaf_block(rows, path, number, "email-header", ancestors_last, is_last);
            assert(rows_view(rows@) =~= start + node_rows(*node, pv, ancestors_last@, is_last, number as nat, cs));
        },
        BodyNode::EmailHero(_) => {
            push_leaf_block(rows, path, number, "email-hero", ancestors_last, is_last);
            assert(rows_view(rows@) =~= start + node_rows(*node, pv, ancestors_last@, is_last, number as nat, cs));
        },
        BodyNode::EmailCta(_) => {
            push_leaf_block(rows, path, number, "email-cta", ancestors_last, is_last);
            assert(rows_view(rows@) =~= start + node_rows(*node, pv, ancestors_last@, is_last, number as nat, cs));
        },
        BodyNode::EmailArticle(_) => {
            push_leaf_block(rows, path, number, "email-article", ancestors_last, is_last);
            assert(rows_view(rows@) =~= start + node_rows(*node, pv, ancestors_last@, is_last, number as nat, cs));
        },
        BodyNode::EmailFooter(_) => {
            push_leaf_block(rows, path, number, "email-footer", ancestors_last, is_last);
            assert(rows_view(rows@) =~= start + node_rows(*node, pv, ancestors_last@, is_last, number as nat, cs));
        },
    }
}

/// The rows of the structure tree: head, brand, body, and the body's nodes
/// unless the body is collapsed (see [`tree_rows`]).
pub fn build_tree(template: Option<&Template>, collapsed: &Vec<TreeId>) -> (r: Vec<TreeRow>)
    ensures
        rows_view(r@) == tree_rows(
            match template {
                Some(t) => Some(*t),
                None => None,
            },
            ids_view(collapsed@),
        ),
{
    let mut rows: Vec<TreeRow> = Vec::new();
    assert(rows_view(rows@) =~= Seq::<RowView>::empty());
    push_row(&mut rows, TreeRow { id: TreeId::Head, label: owned("[HEAD] mj-head"), prefix: String::new(), expandable: false });
    push_row(&mut rows, TreeRow { id: TreeId::Brand, label: owned("[BRAND] brand"), prefix: String::new(), expandable: false });
    let t = match template {
        Some(t) => t,
        None => {
            push_row(&mut rows, TreeRow { id: TreeId::Body, label: owned("[BODY] mj-body"), prefix: String::new(), expandable: false });
            assert(rows_view(rows@) =~= tree_rows(None, ids_view(collapsed@)));
            return rows;
        },
    };
    let n = t.body.nodes.len();
    let expandable = n > 0;
    let body = TreeId::Body;
    let expanded = expandable && !is_collapsed(collapsed, &body);
    let mut label = owned("[BODY] mj-body (");
    push_str(&mut label, decimal_exec(n as u64).as_str());
    push_str(&mut label, ")");
    push_row(&mut rows, TreeRow { id: body, label, prefix: String::new(), expandable });
    let ghost mid = rows_view(rows@);
    let ghost cs = ids_view(collapsed@);
    if expanded {
        let anc: Vec<bool> = Vec::new();
        let mut i: usize = 0;
        assert(mid + Seq::<RowView>::empty() =~= mid);
        while i < n
            invariant
                i <= n == t.body.nodes.len(),
                anc@ == Seq::<bool>::empty(),
                cs == ids_view(collapsed@),
                rows_view(rows@) == mid + body_rows(t.body.nodes@, cs, i as nat),
            decreases n - i,
        {
            let p = vec![Step::BodyNode(i)];
            assert(p@ =~= seq![Step::BodyNode(i)]);
            let ghost before = rows_view(rows@);
            push_body_node(&mut rows, &t.body.nodes[i], p, &anc, i + 1 == n, i + 1, collapsed);
            assert(mid + body_rows(t.body.nodes@, cs, (i + 1) as nat) =~= before + node_rows(
                t.body.nodes@[i as int],
                seq![Step::BodyNode(i)],
                Seq::empty(),
                i + 1 == n,
                (i + 1) as nat,
                cs,
            ));
            i += 1;
        }
    }
    assert(mid + Seq::<RowView>::empty() =~= mid);
    assert(rows_view(rows@) =~= tree_rows(Some(*t), cs));
    rows
}

/// The label of the selected row, or `—` when nothing is selected.
pub fn selected_label(rows: &Vec<TreeRow>, selected: usize) -> (r: String)
    ensures
        r@ == if selected < rows@.len() {
            rows@[selected as int].label@
        } else {
            "—"@
        },
{
    if selected < rows.len() {
        owned(rows[selected].label.as_str())
    } else {
        owned("—")
    }
}

} // verus!
