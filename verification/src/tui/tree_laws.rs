//! What holds of every structure tree: each row names a different node.
use vstd::prelude::*;

use crate::model::{BodyNode, ColumnChild, MjColumn, MjGroup, SectionChild, Template};
use crate::tui::cursor::{target_in_child, target_in_column, target_in_group, target_in_node, target_of};
use crate::tui::tree::{
    body_rows, child_rows, column_rows, cols_rows, comps_rows, group_rows, item_rows, node_rows, parent_rows,
    section_child_rows, tree_rows, wrapper_rows, IdView, RowView, Step,
};

verus! {

/// No two rows have the same id.
pub open spec fn distinct_ids(rows: Seq<RowView>) -> bool {
    forall|i: int, j: int| 0 <= i < j < rows.len() ==> rows[i].id != rows[j].id
}

/// `id` is the node at `p` or below it.
pub open spec fn under(id: IdView, p: Seq<Step>) -> bool {
    id matches IdView::Path(q) && q.len() >= p.len() && q.take(p.len() as int) == p
}

/// `id` is below `p`, inside one of its first `k` items (`mk`).
pub open spec fn item_under(id: IdView, p: Seq<Step>, mk: spec_fn(usize) -> Step, k: nat) -> bool {
    id matches IdView::Path(q) && q.len() > p.len() && q.take(p.len() as int) == p && exists|j: usize|
        j < k && q[p.len() as int] == #[trigger] mk(j)
}

/// Every row is the node at `p` or below it.
pub open spec fn all_under(rows: Seq<RowView>, p: Seq<Step>) -> bool {
    forall|i: int| 0 <= i < rows.len() ==> under((#[trigger] rows[i]).id, p)
}

/// Every row is below `p`, inside one of its first `k` items (`mk`).
pub open spec fn in_items(rows: Seq<RowView>, p: Seq<Step>, mk: spec_fn(usize) -> Step, k: nat) -> bool {
    forall|i: int| 0 <= i < rows.len() ==> item_under((#[trigger] rows[i]).id, p, mk, k)
}

pub open spec fn injective(mk: spec_fn(usize) -> Step) -> bool {
    forall|a: usize, b: usize| #[trigger] mk(a) == #[trigger] mk(b) ==> a == b
}

/// The rows of item `k - 1`, under `p.push(mk(k - 1))`, added after the
/// rows of the items before it.
proof fn lemma_add_item(prev: Seq<RowView>, last: Seq<RowView>, p: Seq<Step>, mk: spec_fn(usize) -> Step, k: nat)
    requires
        1 <= k <= usize::MAX,
        injective(mk),
        in_items(prev, p, mk, (k - 1) as nat),
        distinct_ids(prev),
        all_under(last, p.push(mk((k - 1) as usize))),
        distinct_ids(last),
    ensures
        in_items(prev + last, p, mk, k),
        distinct_ids(prev + last),
{
    let all = prev + last;
    let s = p.push(mk((k - 1) as usize));
    assert forall|i: int| 0 <= i < all.len() implies item_under((#[trigger] all[i]).id, p, mk, k) by {
        if i < prev.len() {
            assert(all[i] == prev[i]);
            let q = prev[i].id->Path_0;
            let j = choose|j: usize| j < k - 1 && q[p.len() as int] == #[trigger] mk(j);
            assert(j < k && q[p.len() as int] == mk(j));
        } else {
            assert(all[i] == last[i - prev.len()]);
            let q = last[i - prev.len()].id->Path_0;
            assert(q.take(s.len() as int) == s);
            assert(q.take(p.len() as int) =~= s.take(p.len() as int));
            assert(s.take(p.len() as int) =~= p);
            assert(q[p.len() as int] == q.take(s.len() as int)[p.len() as int]);
            assert(q[p.len() as int] == mk((k - 1) as usize));
        }
    }
    assert forall|a: int, b: int| 0 <= a < b < all.len() implies all[a].id != all[b].id by {
        if b < prev.len() {
            assert(all[a] == prev[a] && all[b] == prev[b]);
        } else if a >= prev.len() {
            assert(all[a] == last[a - prev.len()] && all[b] == last[b - prev.len()]);
        } else {
            assert(all[a] == prev[a] && all[b] == last[b - prev.len()]);
            assert(item_under(prev[a].id, p, mk, (k - 1) as nat));
            assert(under(last[b - prev.len()].id, s));
            let qa = prev[a].id->Path_0;
            let qb = last[b - prev.len()].id->Path_0;
            let ja = choose|j: usize| j < k - 1 && qa[p.len() as int] == #[trigger] mk(j);
            assert(ja < k - 1 && qa[p.len() as int] == mk(ja));
            assert(qb.take(s.len() as int) == s);
            assert(qb[p.len() as int] == qb.take(s.len() as int)[p.len() as int]);
            assert(qb[p.len() as int] == mk((k - 1) as usize));
            if qa == qb {
                assert(mk(ja) == mk((k - 1) as usize));
                assert(ja == (k - 1) as usize);
            }
            assert(qa != qb);
        }
    }
}

/// A node's own row at `p` above the rows of its items.
proof fn lemma_parent(own: RowView, kids: Seq<RowView>, p: Seq<Step>, mk: spec_fn(usize) -> Step, k: nat)
    requires
        own.id == IdView::Path(p),
        in_items(kids, p, mk, k),
        distinct_ids(kids),
    ensures
        all_under(seq![own] + kids, p),
        distinct_ids(seq![own] + kids),
{
    let all = seq![own] + kids;
    assert forall|i: int| 0 <= i < all.len() implies under((#[trigger] all[i]).id, p) by {
        if i == 0 {
            assert(p.take(p.len() as int) =~= p);
        } else {
            assert(all[i] == kids[i - 1]);
        }
    }
    assert forall|a: int, b: int| 0 <= a < b < all.len() implies all[a].id != all[b].id by {
        assert(all[b] == kids[b - 1]);
        if a > 0 {
            assert(all[a] == kids[a - 1]);
        }
    }
}

proof fn lemma_no_items(p: Seq<Step>, mk: spec_fn(usize) -> Step)
    ensures
        in_items(Seq::<RowView>::empty(), p, mk, 0),
        distinct_ids(Seq::<RowView>::empty()),
{
}

proof fn lemma_single(own: RowView, p: Seq<Step>)
    requires
        own.id == IdView::Path(p),
    ensures
        all_under(seq![own], p),
        distinct_ids(seq![own]),
{
    assert(p.take(p.len() as int) =~= p);
}

proof fn lemma_item_rows(path: Seq<Step>, next: Seq<bool>, count: nat, k: nat, mk: spec_fn(usize) -> Step, label: Seq<char>)
    requires
        injective(mk),
        k <= usize::MAX,
    ensures
        in_items(item_rows(path, next, count, k, mk, label), path, mk, k),
        distinct_ids(item_rows(path, next, count, k, mk, label)),
    decreases k,
{
    if k > 0 {
        lemma_item_rows(path, next, count, (k - 1) as nat, mk, label);
        let prev = item_rows(path, next, count, (k - 1) as nat, mk, label);
        let s = path.push(mk((k - 1) as usize));
        let own = item_rows(path, next, count, k, mk, label).last();
        lemma_single(own, s);
        assert(item_rows(path, next, count, k, mk, label) =~= prev + seq![own]);
        lemma_add_item(prev, seq![own], path, mk, k);
    }
}

proof fn lemma_parent_rows(
    path: Seq<Step>,
    anc: Seq<bool>,
    is_last: bool,
    label: Seq<char>,
    count: nat,
    cs: Seq<IdView>,
    mk: spec_fn(usize) -> Step,
    item_label: Seq<char>,
)
    requires
        injective(mk),
        count <= usize::MAX,
    ensures
        all_under(parent_rows(path, anc, is_last, label, count, cs, mk, item_label), path),
        distinct_ids(parent_rows(path, anc, is_last, label, count, cs, mk, item_label)),
{
    let rows = parent_rows(path, anc, is_last, label, count, cs, mk, item_label);
    let own = rows[0];
    if count > 0 && !cs.contains(IdView::Path(path)) {
        lemma_item_rows(path, anc.push(is_last), count, count, mk, item_label);
        lemma_parent(own, item_rows(path, anc.push(is_last), count, count, mk, item_label), path, mk, count);
    } else {
        lemma_no_items(path, mk);
        lemma_parent(own, Seq::empty(), path, mk, 0);
        assert(rows =~= seq![own] + Seq::<RowView>::empty());
    }
}

proof fn lemma_child_rows(c: ColumnChild, path: Seq<Step>, anc: Seq<bool>, is_last: bool, cs: Seq<IdView>)
    ensures
        all_under(child_rows(c, path, anc, is_last, cs), path),
        distinct_ids(child_rows(c, path, anc, is_last, cs)),
{
    match c {
        ColumnChild::MjNavbar(n) => {
            let mk = |i: usize| Step::NavbarLink(i);
            assert(injective(mk));
            lemma_parent_rows(path, anc, is_last, "mj-navbar"@, n.links.len() as nat, cs, mk, "mj-navbar-link"@);
        },
        ColumnChild::MjAccordion(a) => {
            let mk = |i: usize| Step::AccordionEl(i);
            assert(injective(mk));
            lemma_parent_rows(
                path,
                anc,
                is_last,
                "mj-accordion"@,
                a.elements.len() as nat,
                cs,
                mk,
                "mj-accordion-element"@,
            );
        },
        ColumnChild::MjCarousel(car) => {
            let mk = |i: usize| Step::CarouselImg(i);
            assert(injective(mk));
            lemma_parent_rows(path, anc, is_last, "mj-carousel"@, car.images.len() as nat, cs, mk, "mj-carousel-image"@);
        },
        _ => {
            lemma_single(child_rows(c, path, anc, is_last, cs)[0], path);
            assert(child_rows(c, path, anc, is_last, cs) =~= seq![child_rows(c, path, anc, is_last, cs)[0]]);
        },
    }
}

proof fn lemma_comps_rows(
    comps: Seq<ColumnChild>,
    path: Seq<Step>,
    next: Seq<bool>,
    cs: Seq<IdView>,
    k: nat,
    mk: spec_fn(usize) -> Step,
)
    requires
        injective(mk),
        k <= usize::MAX,
    ensures
        in_items(comps_rows(comps, path, next, cs, k, mk), path, mk, k),
        distinct_ids(comps_rows(comps, path, next, cs, k, mk)),
    decreases k,
{
    if k == 0 {
        lemma_no_items(path, mk);
    } else {
        lemma_comps_rows(comps, path, next, cs, (k - 1) as nat, mk);
        let s = path.push(mk((k - 1) as usize));
        lemma_child_rows(comps[k - 1], s, next, k == comps.len(), cs);
        lemma_add_item(
            comps_rows(comps, path, next, cs, (k - 1) as nat, mk),
            child_rows(comps[k - 1], s, next, k == comps.len(), cs),
            path,
            mk,
            k,
        );
    }
}

proof fn lemma_column_rows(c: MjColumn, path: Seq<Step>, anc: Seq<bool>, is_last: bool, cs: Seq<IdView>)
    ensures
        all_under(column_rows(c, path, anc, is_last, cs), path),
        distinct_ids(column_rows(c, path, anc, is_last, cs)),
{
    let rows = column_rows(c, path, anc, is_last, cs);
    let n = c.components.len() as nat;
    let mk = |i: usize| Step::ColComp(i);
    assert(injective(mk));
    if n > 0 && !cs.contains(IdView::Path(path)) {
        lemma_comps_rows(c.components@, path, anc.push(is_last), cs, n, mk);
        lemma_parent(rows[0], comps_rows(c.components@, path, anc.push(is_last), cs, n, mk), path, mk, n);
    } else {
        lemma_single(rows[0], path);
        assert(rows =~= seq![rows[0]]);
    }
}

proof fn lemma_cols_rows(cols: Seq<MjColumn>, path: Seq<Step>, next: Seq<bool>, cs: Seq<IdView>, k: nat)
    requires
        k <= usize::MAX,
    ensures
        in_items(cols_rows(cols, path, next, cs, k), path, |i: usize| Step::GroupCol(i), k),
        distinct_ids(cols_rows(cols, path, next, cs, k)),
    decreases k,
{
    let mk = |i: usize| Step::GroupCol(i);
    assert(injective(mk));
    if k == 0 {
        lemma_no_items(path, mk);
    } else {
        lemma_cols_rows(cols, path, next, cs, (k - 1) as nat);
        let s = path.push(Step::GroupCol((k - 1) as usize));
        lemma_column_rows(cols[k - 1], s, next, k == cols.len(), cs);
        assert(s == path.push(mk((k - 1) as usize)));
        lemma_add_item(
            cols_rows(cols, path, next, cs, (k - 1) as nat),
            column_rows(cols[k - 1], s, next, k == cols.len(), cs),
            path,
            mk,
            k,
        );
    }
}

proof fn lemma_group_rows(g: MjGroup, path: Seq<Step>, anc: Seq<bool>, is_last: bool, cs: Seq<IdView>)
    ensures
        all_under(group_rows(g, path, anc, is_last, cs), path),
        distinct_ids(group_rows(g, path, anc, is_last, cs)),
{
    let rows = group_rows(g, path, anc, is_last, cs);
    let n = g.children.len() as nat;
    let mk = |i: usize| Step::GroupCol(i);
    if n > 0 && !cs.contains(IdView::Path(path)) {
        lemma_cols_rows(g.children@, path, anc.push(is_last), cs, n);
        lemma_parent(rows[0], cols_rows(g.children@, path, anc.push(is_last), cs, n), path, mk, n);
    } else {
        lemma_single(rows[0], path);
        assert(rows =~= seq![rows[0]]);
    }
}

proof fn lemma_section_child_rows(chs: Seq<SectionChild>, path: Seq<Step>, next: Seq<bool>, cs: Seq<IdView>, k: nat)
    requires
        k <= usize::MAX,
    ensures
        in_items(section_child_rows(chs, path, next, cs, k), path, |i: usize| Step::SectionChild(i), k),
        distinct_ids(section_child_rows(chs, path, next, cs, k)),
    decreases k,
{
    let mk = |i: usize| Step::SectionChild(i);
    assert(injective(mk));
    if k == 0 {
        lemma_no_items(path, mk);
    } else {
        lemma_section_child_rows(chs, path, next, cs, (k - 1) as nat);
        let s = path.push(Step::SectionChild((k - 1) as usize));
        let last = k == chs.len();
        let tail = match chs[k - 1] {
            SectionChild::MjColumn(c) => column_rows(c, s, next, last, cs),
            SectionChild::MjGroup(g) => group_rows(g, s, next, last, cs),
        };
        match chs[k - 1] {
            SectionChild::MjColumn(c) => lemma_column_rows(c, s, next, last, cs),
            SectionChild::MjGroup(g) => lemma_group_rows(g, s, next, last, cs),
        }
        assert(s == path.push(mk((k - 1) as usize)));
        lemma_add_item(section_child_rows(chs, path, next, cs, (k - 1) as nat), tail, path, mk, k);
    }
}

proof fn lemma_node_rows(node: BodyNode, path: Seq<Step>, anc: Seq<bool>, is_last: bool, number: nat, cs: Seq<IdView>)
    ensures
        all_under(node_rows(node, path, anc, is_last, number, cs), path),
        distinct_ids(node_rows(node, path, anc, is_last, number, cs)),
    decreases node, 0nat,
{
    let rows = node_rows(node, path, anc, is_last, number, cs);
    let id = IdView::Path(path);
    match node {
        BodyNode::MjSection(s) => {
            let n = s.children.len() as nat;
            if n > 0 && !cs.contains(id) {
                lemma_section_child_rows(s.children@, path, anc.push(is_last), cs, n);
                lemma_parent(
                    rows[0],
                    section_child_rows(s.children@, path, anc.push(is_last), cs, n),
                    path,
                    |i: usize| Step::SectionChild(i),
                    n,
                );
            } else {
                lemma_single(rows[0], path);
                assert(rows =~= seq![rows[0]]);
            }
        },
        BodyNode::MjWrapper(w) => {
            let n = w.children.len() as nat;
            if n > 0 && !cs.contains(id) {
                lemma_wrapper_rows(w.children@, path, anc.push(is_last), cs, n);
                lemma_parent(
                    rows[0],
                    wrapper_rows(w.children@, path, anc.push(is_last), cs, n),
                    path,
                    |i: usize| Step::WrapperChild(i),
                    n,
                );
            } else {
                lemma_single(rows[0], path);
                assert(rows =~= seq![rows[0]]);
            }
        },
        BodyNode::MjHero(h) => {
            let n = h.children.len() as nat;
            let mk = |i: usize| Step::HeroChild(i);
            assert(injective(mk));
            if n > 0 && !cs.contains(id) {
                lemma_comps_rows(h.children@, path, anc.push(is_last), cs, n, mk);
                lemma_parent(rows[0], comps_rows(h.children@, path, anc.push(is_last), cs, n, mk), path, mk, n);
            } else {
                lemma_single(rows[0], path);
                assert(rows =~= seq![rows[0]]);
            }
        },
        _ => {
            lemma_single(rows[0], path);
            assert(rows =~= seq![rows[0]]);
        },
    }
}

proof fn lemma_wrapper_rows(ns: Seq<BodyNode>, path: Seq<Step>, next: Seq<bool>, cs: Seq<IdView>, k: nat)
    requires
        k <= usize::MAX,
    ensures
        in_items(wrapper_rows(ns, path, next, cs, k), path, |i: usize| Step::WrapperChild(i), k),
        distinct_ids(wrapper_rows(ns, path, next, cs, k)),
    decreases ns, k,
{
    let mk = |i: usize| Step::WrapperChild(i);
    assert(injective(mk));
    if k == 0 || k > ns.len() {
        lemma_no_items(path, mk);
        assert(wrapper_rows(ns, path, next, cs, k) =~= Seq::<RowView>::empty());
    } else {
        lemma_wrapper_rows(ns, path, next, cs, (k - 1) as nat);
        let s = path.push(Step::WrapperChild((k - 1) as usize));
        assert(decreases_to!(ns => ns[k - 1]));
        lemma_node_rows(ns[k - 1], s, next, k == ns.len(), k, cs);
        assert(s == path.push(mk((k - 1) as usize)));
        lemma_add_item(
            wrapper_rows(ns, path, next, cs, (k - 1) as nat),
            node_rows(ns[k - 1], s, next, k == ns.len(), k, cs),
            path,
            mk,
            k,
        );
    }
}

proof fn lemma_body_rows(ns: Seq<BodyNode>, cs: Seq<IdView>, k: nat)
    requires
        k <= usize::MAX,
    ensures
        in_items(body_rows(ns, cs, k), Seq::empty(), |i: usize| Step::BodyNode(i), k),
        distinct_ids(body_rows(ns, cs, k)),
    decreases k,
{
    let mk = |i: usize| Step::BodyNode(i);
    assert(injective(mk));
    if k == 0 {
        lemma_no_items(Seq::empty(), mk);
    } else {
        lemma_body_rows(ns, cs, (k - 1) as nat);
        let s = seq![Step::BodyNode((k - 1) as usize)];
        lemma_node_rows(ns[k - 1], s, Seq::empty(), k == ns.len(), k, cs);
        assert(s =~= Seq::<Step>::empty().push(mk((k - 1) as usize)));
        lemma_add_item(
            body_rows(ns, cs, (k - 1) as nat),
            node_rows(ns[k - 1], s, Seq::empty(), k == ns.len(), k, cs),
            Seq::empty(),
            mk,
            k,
        );
    }
}

/// Each row of the structure tree names a different node: no two rows have
/// the same id, whatever is collapsed.
pub proof fn law_tree_ids_distinct(t: Option<Template>, cs: Seq<IdView>)
    ensures
        distinct_ids(tree_rows(t, cs)),
{
    match t {
        None => {},
        Some(t) => {
            let n = t.body.nodes.len() as nat;
            let rows = tree_rows(Some(t), cs);
            if n > 0 && !cs.contains(IdView::Body) {
                lemma_body_rows(t.body.nodes@, cs, n);
                let body = body_rows(t.body.nodes@, cs, n);
                assert forall|a: int, b: int| 0 <= a < b < rows.len() implies rows[a].id != rows[b].id by {
                    if b >= 3 {
                        assert(rows[b] == body[b - 3]);
                        if a >= 3 {
                            assert(rows[a] == body[a - 3]);
                        }
                    }
                }
            }
        },
    }
}

// ---------------------------------------------------------------------------
// Collapsing only hides rows
// ---------------------------------------------------------------------------

/// `a` is `b` with some rows left out, the rest in order.
pub open spec fn subseq<T>(a: Seq<T>, b: Seq<T>) -> bool
    decreases b.len(),
{
    if a.len() == 0 {
        true
    } else if b.len() == 0 {
        false
    } else if a.last() == b.last() {
        subseq(a.drop_last(), b.drop_last())
    } else {
        subseq(a, b.drop_last())
    }
}

proof fn lemma_subseq_empty<T>(b: Seq<T>)
    ensures
        subseq(Seq::<T>::empty(), b),
{
}

proof fn lemma_subseq_refl<T>(a: Seq<T>)
    ensures
        subseq(a, a),
    decreases a.len(),
{
    if a.len() > 0 {
        lemma_subseq_refl(a.drop_last());
    }
}

proof fn lemma_subseq_prefix<T>(a: Seq<T>, b: Seq<T>, c: Seq<T>)
    requires
        subseq(a, b),
    ensures
        subseq(a, c + b),
    decreases b.len(),
{
    if a.len() == 0 {
    } else if b.len() == 0 {
    } else {
        assert((c + b).drop_last() =~= c + b.drop_last());
        assert((c + b).last() == b.last());
        if a.last() == b.last() {
            lemma_subseq_prefix(a.drop_last(), b.drop_last(), c);
        } else {
            lemma_subseq_prefix(a, b.drop_last(), c);
        }
    }
}

proof fn lemma_subseq_concat<T>(a1: Seq<T>, b1: Seq<T>, a2: Seq<T>, b2: Seq<T>)
    requires
        subseq(a1, b1),
        subseq(a2, b2),
    ensures
        subseq(a1 + a2, b1 + b2),
    decreases b2.len(),
{
    if a2.len() == 0 {
        assert(a1 + a2 =~= a1);
        lemma_subseq_suffix(a1, b1, b2);
    } else {
        assert((a1 + a2).drop_last() =~= a1 + a2.drop_last());
        assert((b1 + b2).drop_last() =~= b1 + b2.drop_last());
        assert((a1 + a2).last() == a2.last());
        assert((b1 + b2).last() == b2.last());
        if a2.last() == b2.last() {
            lemma_subseq_concat(a1, b1, a2.drop_last(), b2.drop_last());
        } else {
            lemma_subseq_concat(a1, b1, a2, b2.drop_last());
        }
    }
}

proof fn lemma_subseq_grow<T>(a: Seq<T>, b: Seq<T>, x: T)
    requires
        subseq(a, b),
    ensures
        subseq(a, b.push(x)),
    decreases b.len(), 1nat,
{
    assert(b.push(x).drop_last() =~= b);
    if a.len() > 0 && a.last() == x {
        lemma_subseq_drop(a, b);
    }
}

proof fn lemma_subseq_drop<T>(a: Seq<T>, b: Seq<T>)
    requires
        subseq(a, b),
        a.len() > 0,
    ensures
        subseq(a.drop_last(), b),
    decreases b.len(), 0nat,
{
    if b.len() > 0 {
        let b1 = b.drop_last();
        assert(b1.push(b.last()) =~= b);
        if a.last() == b.last() {
            lemma_subseq_grow(a.drop_last(), b1, b.last());
        } else {
            lemma_subseq_drop(a, b1);
            lemma_subseq_grow(a.drop_last(), b1, b.last());
        }
    }
}

proof fn lemma_subseq_suffix<T>(a: Seq<T>, b: Seq<T>, c: Seq<T>)
    requires
        subseq(a, b),
    ensures
        subseq(a, b + c),
    decreases c.len(),
{
    if c.len() == 0 {
        assert(b + c =~= b);
    } else {
        lemma_subseq_suffix(a, b, c.drop_last());
        assert((b + c.drop_last()).push(c.last()) =~= b + c);
        lemma_subseq_grow(a, b + c.drop_last(), c.last());
    }
}

/// Every id collapsed in `cs` is collapsed in `cs2` too.
pub open spec fn more_collapsed(cs: Seq<IdView>, cs2: Seq<IdView>) -> bool {
    forall|x: IdView| cs.contains(x) ==> cs2.contains(x)
}

proof fn lemma_own_then(own: RowView, k2: Seq<RowView>, k1: Seq<RowView>, e2: bool, e1: bool)
    requires
        e2 ==> e1,
        e2 ==> subseq(k2, k1),
    ensures
        subseq(
            seq![own] + (if e2 {
                k2
            } else {
                Seq::<RowView>::empty()
            }),
            seq![own] + (if e1 {
                k1
            } else {
                Seq::<RowView>::empty()
            }),
        ),
{
    lemma_subseq_refl(seq![own]);
    if e2 {
        lemma_subseq_concat(seq![own], seq![own], k2, k1);
    } else {
        lemma_subseq_empty(if e1 {
            k1
        } else {
            Seq::<RowView>::empty()
        });
        lemma_subseq_concat(seq![own], seq![own], Seq::<RowView>::empty(), if e1 {
            k1
        } else {
            Seq::<RowView>::empty()
        });
        assert(seq![own] + Seq::<RowView>::empty() =~= seq![own]);
    }
}

proof fn lemma_child_hides(c: ColumnChild, path: Seq<Step>, anc: Seq<bool>, is_last: bool, cs: Seq<IdView>, cs2: Seq<IdView>)
    requires
        more_collapsed(cs, cs2),
    ensures
        subseq(child_rows(c, path, anc, is_last, cs2), child_rows(c, path, anc, is_last, cs)),
{
    match c {
        ColumnChild::MjNavbar(_) | ColumnChild::MjAccordion(_) | ColumnChild::MjCarousel(_) => {
            let r1 = child_rows(c, path, anc, is_last, cs);
            let r2 = child_rows(c, path, anc, is_last, cs2);
            let (count, mk, il) = match c {
                ColumnChild::MjNavbar(n) => (n.links.len() as nat, |i: usize| Step::NavbarLink(i), "mj-navbar-link"@),
                ColumnChild::MjAccordion(a) => (
                    a.elements.len() as nat,
                    |i: usize| Step::AccordionEl(i),
                    "mj-accordion-element"@,
                ),
                ColumnChild::MjCarousel(car) => (car.images.len() as nat, |i: usize| Step::CarouselImg(i), "mj-carousel-image"@),
                _ => (0, |i: usize| Step::NavbarLink(i), Seq::empty()),
            };
            let kids = item_rows(path, anc.push(is_last), count, count, mk, il);
            lemma_subseq_refl(kids);
            lemma_own_then(
                r1[0],
                kids,
                kids,
                count > 0 && !cs2.contains(IdView::Path(path)),
                count > 0 && !cs.contains(IdView::Path(path)),
            );
        },
        _ => {
            lemma_subseq_refl(child_rows(c, path, anc, is_last, cs));
        },
    }
}

proof fn lemma_comps_hides(
    comps: Seq<ColumnChild>,
    path: Seq<Step>,
    next: Seq<bool>,
    cs: Seq<IdView>,
    cs2: Seq<IdView>,
    k: nat,
    mk: spec_fn(usize) -> Step,
)
    requires
        more_collapsed(cs, cs2),
    ensures
        subseq(comps_rows(comps, path, next, cs2, k, mk), comps_rows(comps, path, next, cs, k, mk)),
    decreases k,
{
    if k > 0 {
        lemma_comps_hides(comps, path, next, cs, cs2, (k - 1) as nat, mk);
        let s = path.push(mk((k - 1) as usize));
        lemma_child_hides(comps[k - 1], s, next, k == comps.len(), cs, cs2);
        lemma_subseq_concat(
            comps_rows(comps, path, next, cs2, (k - 1) as nat, mk),
            comps_rows(comps, path, next, cs, (k - 1) as nat, mk),
            child_rows(comps[k - 1], s, next, k == comps.len(), cs2),
            child_rows(comps[k - 1], s, next, k == comps.len(), cs),
        );
    }
}

proof fn lemma_column_hides(c: MjColumn, path: Seq<Step>, anc: Seq<bool>, is_last: bool, cs: Seq<IdView>, cs2: Seq<IdView>)
    requires
        more_collapsed(cs, cs2),
    ensures
        subseq(column_rows(c, path, anc, is_last, cs2), column_rows(c, path, anc, is_last, cs)),
{
    let n = c.components.len() as nat;
    let mk = |i: usize| Step::ColComp(i);
    lemma_comps_hides(c.components@, path, anc.push(is_last), cs, cs2, n, mk);
    lemma_own_then(
        column_rows(c, path, anc, is_last, cs)[0],
        comps_rows(c.components@, path, anc.push(is_last), cs2, n, mk),
        comps_rows(c.components@, path, anc.push(is_last), cs, n, mk),
        n > 0 && !cs2.contains(IdView::Path(path)),
        n > 0 && !cs.contains(IdView::Path(path)),
    );
}

proof fn lemma_cols_hides(cols: Seq<MjColumn>, path: Seq<Step>, next: Seq<bool>, cs: Seq<IdView>, cs2: Seq<IdView>, k: nat)
    requires
        more_collapsed(cs, cs2),
    ensures
        subseq(cols_rows(cols, path, next, cs2, k), cols_rows(cols, path, next, cs, k)),
    decreases k,
{
    if k > 0 {
        lemma_cols_hides(cols, path, next, cs, cs2, (k - 1) as nat);
        let s = path.push(Step::GroupCol((k - 1) as usize));
        lemma_column_hides(cols[k - 1], s, next, k == cols.len(), cs, cs2);
        lemma_subseq_concat(
            cols_rows(cols, path, next, cs2, (k - 1) as nat),
            cols_rows(cols, path, next, cs, (k - 1) as nat),
            column_rows(cols[k - 1], s, next, k == cols.len(), cs2),
            column_rows(cols[k - 1], s, next, k == cols.len(), cs),
        );
    }
}

proof fn lemma_group_hides(g: MjGroup, path: Seq<Step>, anc: Seq<bool>, is_last: bool, cs: Seq<IdView>, cs2: Seq<IdView>)
    requires
        more_collapsed(cs, cs2),
    ensures
        subseq(group_rows(g, path, anc, is_last, cs2), group_rows(g, path, anc, is_last, cs)),
{
    let n = g.children.len() as nat;
    lemma_cols_hides(g.children@, path, anc.push(is_last), cs, cs2, n);
    lemma_own_then(
        group_rows(g, path, anc, is_last, cs)[0],
        cols_rows(g.children@, path, anc.push(is_last), cs2, n),
        cols_rows(g.children@, path, anc.push(is_last), cs, n),
        n > 0 && !cs2.contains(IdView::Path(path)),
        n > 0 && !cs.contains(IdView::Path(path)),
    );
}

proof fn lemma_section_child_hides(
    chs: Seq<SectionChild>,
    path: Seq<Step>,
    next: Seq<bool>,
    cs: Seq<IdView>,
    cs2: Seq<IdView>,
    k: nat,
)
    requires
        more_collapsed(cs, cs2),
    ensures
        subseq(section_child_rows(chs, path, next, cs2, k), section_child_rows(chs, path, next, cs, k)),
    decreases k,
{
    if k > 0 {
        lemma_section_child_hides(chs, path, next, cs, cs2, (k - 1) as nat);
        let p = path.push(Step::SectionChild((k - 1) as usize));
        let last = k == chs.len();
        let (t2, t1) = match chs[k - 1] {
            SectionChild::MjColumn(c) => (column_rows(c, p, next, last, cs2), column_rows(c, p, next, last, cs)),
            SectionChild::MjGroup(g) => (group_rows(g, p, next, last, cs2), group_rows(g, p, next, last, cs)),
        };
        match chs[k - 1] {
            SectionChild::MjColumn(c) => lemma_column_hides(c, p, next, last, cs, cs2),
            SectionChild::MjGroup(g) => lemma_group_hides(g, p, next, last, cs, cs2),
        }
        lemma_subseq_concat(
            section_child_rows(chs, path, next, cs2, (k - 1) as nat),
            section_child_rows(chs, path, next, cs, (k - 1) as nat),
            t2,
            t1,
        );
    }
}

proof fn lemma_node_hides(node: BodyNode, path: Seq<Step>, anc: Seq<bool>, is_last: bool, number: nat, cs: Seq<IdView>, cs2: Seq<IdView>)
    requires
        more_collapsed(cs, cs2),
    ensures
        subseq(node_rows(node, path, anc, is_last, number, cs2), node_rows(node, path, anc, is_last, number, cs)),
    decreases node, 0nat,
{
    let id = IdView::Path(path);
    let own = node_rows(node, path, anc, is_last, number, cs)[0];
    match node {
        BodyNode::MjSection(s) => {
            let n = s.children.len() as nat;
            lemma_section_child_hides(s.children@, path, anc.push(is_last), cs, cs2, n);
            lemma_own_then(
                own,
                section_child_rows(s.children@, path, anc.push(is_last), cs2, n),
                section_child_rows(s.children@, path, anc.push(is_last), cs, n),
                n > 0 && !cs2.contains(id),
                n > 0 && !cs.contains(id),
            );
        },
        BodyNode::MjWrapper(w) => {
            let n = w.children.len() as nat;
            lemma_wrapper_hides(w.children@, path, anc.push(is_last), cs, cs2, n);
            lemma_own_then(
                own,
                wrapper_rows(w.children@, path, anc.push(is_last), cs2, n),
                wrapper_rows(w.children@, path, anc.push(is_last), cs, n),
                n > 0 && !cs2.contains(id),
                n > 0 && !cs.contains(id),
            );
        },
        BodyNode::MjHero(h) => {
            let n = h.children.len() as nat;
            let mk = |i: usize| Step::HeroChild(i);
            lemma_comps_hides(h.children@, path, anc.push(is_last), cs, cs2, n, mk);
            lemma_own_then(
                own,
                comps_rows(h.children@, path, anc.push(is_last), cs2, n, mk),
                comps_rows(h.children@, path, anc.push(is_last), cs, n, mk),
                n > 0 && !cs2.contains(id),
                n > 0 && !cs.contains(id),
            );
        },
        _ => {
            lemma_subseq_refl(node_rows(node, path, anc, is_last, number, cs));
        },
    }
}

proof fn lemma_wrapper_hides(ns: Seq<BodyNode>, path: Seq<Step>, next: Seq<bool>, cs: Seq<IdView>, cs2: Seq<IdView>, k: nat)
    requires
        more_collapsed(cs, cs2),
    ensures
        subseq(wrapper_rows(ns, path, next, cs2, k), wrapper_rows(ns, path, next, cs, k)),
    decreases ns, k,
{
    if k > 0 && k <= ns.len() {
        lemma_wrapper_hides(ns, path, next, cs, cs2, (k - 1) as nat);
        let s = path.push(Step::WrapperChild((k - 1) as usize));
        assert(decreases_to!(ns => ns[k - 1]));
        lemma_node_hides(ns[k - 1], s, next, k == ns.len(), k, cs, cs2);
        lemma_subseq_concat(
            wrapper_rows(ns, path, next, cs2, (k - 1) as nat),
            wrapper_rows(ns, path, next, cs, (k - 1) as nat),
            node_rows(ns[k - 1], s, next, k == ns.len(), k, cs2),
            node_rows(ns[k - 1], s, next, k == ns.len(), k, cs),
        );
    }
}

proof fn lemma_body_hides(ns: Seq<BodyNode>, cs: Seq<IdView>, cs2: Seq<IdView>, k: nat)
    requires
        more_collapsed(cs, cs2),
    ensures
        subseq(body_rows(ns, cs2, k), body_rows(ns, cs, k)),
    decreases k,
{
    if k > 0 {
        lemma_body_hides(ns, cs, cs2, (k - 1) as nat);
        let s = seq![Step::BodyNode((k - 1) as usize)];
        lemma_node_hides(ns[k - 1], s, Seq::empty(), k == ns.len(), k, cs, cs2);
        lemma_subseq_concat(
            body_rows(ns, cs2, (k - 1) as nat),
            body_rows(ns, cs, (k - 1) as nat),
            node_rows(ns[k - 1], s, Seq::empty(), k == ns.len(), k, cs2),
            node_rows(ns[k - 1], s, Seq::empty(), k == ns.len(), k, cs),
        );
    }
}

/// Collapsing a row only hides rows: the tree with `id` collapsed too is
/// the tree before with some rows left out, every other row unchanged and
/// in the same order.
pub proof fn law_collapse_only_hides(t: Option<Template>, cs: Seq<IdView>, id: IdView)
    ensures
        subseq(tree_rows(t, cs.push(id)), tree_rows(t, cs)),
{
    let cs2 = cs.push(id);
    assert forall|x: IdView| cs.contains(x) implies cs2.contains(x) by {
        let i = choose|i: int| 0 <= i < cs.len() && cs[i] == x;
        assert(cs2[i] == x);
    }
    match t {
        None => {
            lemma_subseq_refl(tree_rows(t, cs));
        },
        Some(tt) => {
            let n = tt.body.nodes.len() as nat;
            let head = tree_rows(t, cs).take(3);
            assert(tree_rows(t, cs2).take(3) == head);
            lemma_subseq_refl(head);
            lemma_body_hides(tt.body.nodes@, cs, cs2, n);
            let b2 = if n > 0 && !cs2.contains(IdView::Body) {
                body_rows(tt.body.nodes@, cs2, n)
            } else {
                Seq::<RowView>::empty()
            };
            let b1 = if n > 0 && !cs.contains(IdView::Body) {
                body_rows(tt.body.nodes@, cs, n)
            } else {
                Seq::<RowView>::empty()
            };
            if !(n > 0 && !cs2.contains(IdView::Body)) {
                lemma_subseq_empty(b1);
            }
            lemma_subseq_concat(head, head, b2, b1);
            assert(tree_rows(t, cs2) =~= head + b2);
            assert(tree_rows(t, cs) =~= head + b1);
        },
    }
}

// ---------------------------------------------------------------------------
// Every row leads to a node
// ---------------------------------------------------------------------------

/// `id` is at `p` or below it, and `f` holds of the steps below `p`.
pub open spec fn loc_id(id: IdView, p: Seq<Step>, f: spec_fn(Seq<Step>) -> bool) -> bool {
    id matches IdView::Path(q) && q.len() >= p.len() && q.take(p.len() as int) == p && f(q.skip(p.len() as int))
}

pub open spec fn loc_all(rows: Seq<RowView>, p: Seq<Step>, f: spec_fn(Seq<Step>) -> bool) -> bool {
    forall|i: int| 0 <= i < rows.len() ==> loc_id((#[trigger] rows[i]).id, p, f)
}

proof fn lemma_loc_concat(a: Seq<RowView>, b: Seq<RowView>, p: Seq<Step>, f: spec_fn(Seq<Step>) -> bool)
    requires
        loc_all(a, p, f),
        loc_all(b, p, f),
    ensures
        loc_all(a + b, p, f),
{
    assert forall|i: int| 0 <= i < (a + b).len() implies loc_id(#[trigger] (a + b)[i].id, p, f) by {
        if i < a.len() {
            assert((a + b)[i] == a[i]);
        } else {
            assert((a + b)[i] == b[i - a.len()]);
        }
    }
}

proof fn lemma_loc_own(own: RowView, rest: Seq<RowView>, p: Seq<Step>, f: spec_fn(Seq<Step>) -> bool)
    requires
        own.id == IdView::Path(p),
        f(Seq::empty()),
        loc_all(rest, p, f),
    ensures
        loc_all(seq![own] + rest, p, f),
{
    assert(p.take(p.len() as int) =~= p);
    assert(p.skip(p.len() as int) =~= Seq::<Step>::empty());
    assert(loc_all(seq![own], p, f));
    lemma_loc_concat(seq![own], rest, p, f);
}

proof fn lemma_loc_none(p: Seq<Step>, f: spec_fn(Seq<Step>) -> bool)
    ensures
        loc_all(Seq::<RowView>::empty(), p, f),
{
}

/// Rows located below `p.push(s)` by `g` are located below `p` by `f`,
/// when `f` holds of `s` followed by whatever `g` holds of.
proof fn lemma_loc_lift(rows: Seq<RowView>, p: Seq<Step>, s: Step, g: spec_fn(Seq<Step>) -> bool, f: spec_fn(Seq<Step>) -> bool)
    requires
        loc_all(rows, p.push(s), g),
        forall|rest: Seq<Step>| #[trigger] g(rest) ==> f(seq![s] + rest),
    ensures
        loc_all(rows, p, f),
{
    let ps = p.push(s);
    assert forall|i: int| 0 <= i < rows.len() implies loc_id(#[trigger] rows[i].id, p, f) by {
        let q = rows[i].id->Path_0;
        assert(q.take(ps.len() as int) == ps);
        assert(q.take(p.len() as int) =~= ps.take(p.len() as int));
        assert(ps.take(p.len() as int) =~= p);
        assert(q[p.len() as int] == q.take(ps.len() as int)[p.len() as int]);
        assert(q.skip(p.len() as int) =~= seq![s] + q.skip(ps.len() as int));
        assert(g(q.skip(ps.len() as int)));
    }
}

proof fn lemma_item_ids(path: Seq<Step>, next: Seq<bool>, count: nat, k: nat, mk: spec_fn(usize) -> Step, label: Seq<char>)
    ensures
        item_rows(path, next, count, k, mk, label).len() == k,
        forall|i: int|
            0 <= i < k ==> (#[trigger] item_rows(path, next, count, k, mk, label)[i]).id == IdView::Path(
                path.push(mk(i as usize)),
            ),
    decreases k,
{
    if k > 0 {
        lemma_item_ids(path, next, count, (k - 1) as nat, mk, label);
        let prev = item_rows(path, next, count, (k - 1) as nat, mk, label);
        assert forall|i: int| 0 <= i < k implies (#[trigger] item_rows(path, next, count, k, mk, label)[i]).id
            == IdView::Path(path.push(mk(i as usize))) by {
            if i < k - 1 {
                assert(item_rows(path, next, count, k, mk, label)[i] == prev[i]);
            }
        }
    }
}

proof fn lemma_child_loc(c: ColumnChild, path: Seq<Step>, anc: Seq<bool>, is_last: bool, cs: Seq<IdView>)
    ensures
        loc_all(child_rows(c, path, anc, is_last, cs), path, |st: Seq<Step>| target_in_child(c, st) is Some),
{
    let f = |st: Seq<Step>| target_in_child(c, st) is Some;
    let rows = child_rows(c, path, anc, is_last, cs);
    match c {
        ColumnChild::MjNavbar(_) | ColumnChild::MjAccordion(_) | ColumnChild::MjCarousel(_) => {
            let (count, mk, il) = match c {
                ColumnChild::MjNavbar(n) => (n.links.len() as nat, |i: usize| Step::NavbarLink(i), "mj-navbar-link"@),
                ColumnChild::MjAccordion(a) => (
                    a.elements.len() as nat,
                    |i: usize| Step::AccordionEl(i),
                    "mj-accordion-element"@,
                ),
                ColumnChild::MjCarousel(car) => (car.images.len() as nat, |i: usize| Step::CarouselImg(i), "mj-carousel-image"@),
                _ => (0, |i: usize| Step::NavbarLink(i), Seq::empty()),
            };
            let kids = item_rows(path, anc.push(is_last), count, count, mk, il);
            lemma_item_ids(path, anc.push(is_last), count, count, mk, il);
            assert forall|i: int| 0 <= i < kids.len() implies loc_id(#[trigger] kids[i].id, path, f) by {
                let q = path.push(mk(i as usize));
                assert(q.take(path.len() as int) =~= path);
                assert(q.skip(path.len() as int) =~= seq![mk(i as usize)]);
            }
            if count > 0 && !cs.contains(IdView::Path(path)) {
                lemma_loc_own(rows[0], kids, path, f);
                assert(rows =~= seq![rows[0]] + kids);
            } else {
                lemma_loc_own(rows[0], Seq::empty(), path, f);
                assert(rows =~= seq![rows[0]] + Seq::<RowView>::empty());
            }
        },
        _ => {
            lemma_loc_own(rows[0], Seq::empty(), path, f);
            assert(rows =~= seq![rows[0]] + Seq::<RowView>::empty());
        },
    }
}

proof fn lemma_comps_loc(
    comps: Seq<ColumnChild>,
    path: Seq<Step>,
    next: Seq<bool>,
    cs: Seq<IdView>,
    k: nat,
    mk: spec_fn(usize) -> Step,
    f: spec_fn(Seq<Step>) -> bool,
)
    requires
        k <= comps.len(),
        k <= usize::MAX,
        forall|j: usize, rest: Seq<Step>|
            j < k && target_in_child(comps[j as int], rest) is Some ==> #[trigger] f(seq![mk(j)] + rest),
    ensures
        loc_all(comps_rows(comps, path, next, cs, k, mk), path, f),
    decreases k,
{
    if k == 0 {
        lemma_loc_none(path, f);
    } else {
        lemma_comps_loc(comps, path, next, cs, (k - 1) as nat, mk, f);
        let j = (k - 1) as usize;
        let s = path.push(mk(j));
        let c = comps[j as int];
        lemma_child_loc(c, s, next, k == comps.len(), cs);
        let g = |st: Seq<Step>| target_in_child(c, st) is Some;
        assert forall|rest: Seq<Step>| #[trigger] g(rest) implies f(seq![mk(j)] + rest) by {}
        lemma_loc_lift(child_rows(c, s, next, k == comps.len(), cs), path, mk(j), g, f);
        lemma_loc_concat(
            comps_rows(comps, path, next, cs, (k - 1) as nat, mk),
            child_rows(c, s, next, k == comps.len(), cs),
            path,
            f,
        );
    }
}

proof fn lemma_column_loc(c: MjColumn, path: Seq<Step>, anc: Seq<bool>, is_last: bool, cs: Seq<IdView>)
    ensures
        loc_all(column_rows(c, path, anc, is_last, cs), path, |st: Seq<Step>| target_in_column(c, st) is Some),
{
    let f = |st: Seq<Step>| target_in_column(c, st) is Some;
    let rows = column_rows(c, path, anc, is_last, cs);
    let n = c.components.len() as nat;
    let mk = |i: usize| Step::ColComp(i);
    assert forall|j: usize, rest: Seq<Step>|
        j < n && target_in_child(c.components@[j as int], rest) is Some implies #[trigger] f(seq![mk(j)] + rest) by {
        assert((seq![mk(j)] + rest).drop_first() =~= rest);
    }
    lemma_comps_loc(c.components@, path, anc.push(is_last), cs, n, mk, f);
    if n > 0 && !cs.contains(IdView::Path(path)) {
        lemma_loc_own(rows[0], comps_rows(c.components@, path, anc.push(is_last), cs, n, mk), path, f);
    } else {
        lemma_loc_own(rows[0], Seq::empty(), path, f);
        assert(rows =~= seq![rows[0]] + Seq::<RowView>::empty());
    }
}

proof fn lemma_cols_loc(cols: Seq<MjColumn>, path: Seq<Step>, next: Seq<bool>, cs: Seq<IdView>, k: nat, f: spec_fn(Seq<Step>) -> bool)
    requires
        k <= cols.len(),
        k <= usize::MAX,
        forall|j: usize, rest: Seq<Step>|
            j < k && target_in_column(cols[j as int], rest) is Some ==> #[trigger] f(seq![Step::GroupCol(j)] + rest),
    ensures
        loc_all(cols_rows(cols, path, next, cs, k), path, f),
    decreases k,
{
    if k == 0 {
        lemma_loc_none(path, f);
    } else {
        lemma_cols_loc(cols, path, next, cs, (k - 1) as nat, f);
        let j = (k - 1) as usize;
        let s = path.push(Step::GroupCol(j));
        let c = cols[j as int];
        lemma_column_loc(c, s, next, k == cols.len(), cs);
        let g = |st: Seq<Step>| target_in_column(c, st) is Some;
        assert forall|rest: Seq<Step>| #[trigger] g(rest) implies f(seq![Step::GroupCol(j)] + rest) by {}
        lemma_loc_lift(column_rows(c, s, next, k == cols.len(), cs), path, Step::GroupCol(j), g, f);
        lemma_loc_concat(cols_rows(cols, path, next, cs, (k - 1) as nat), column_rows(c, s, next, k == cols.len(), cs), path, f);
    }
}

proof fn lemma_group_loc(g: MjGroup, path: Seq<Step>, anc: Seq<bool>, is_last: bool, cs: Seq<IdView>)
    ensures
        loc_all(group_rows(g, path, anc, is_last, cs), path, |st: Seq<Step>| target_in_group(g, st) is Some),
{
    let f = |st: Seq<Step>| target_in_group(g, st) is Some;
    let rows = group_rows(g, path, anc, is_last, cs);
    let n = g.children.len() as nat;
    assert forall|j: usize, rest: Seq<Step>|
        j < n && target_in_column(g.children@[j as int], rest) is Some implies #[trigger] f(
        seq![Step::GroupCol(j)] + rest,
    ) by {
        assert((seq![Step::GroupCol(j)] + rest).drop_first() =~= rest);
    }
    lemma_cols_loc(g.children@, path, anc.push(is_last), cs, n, f);
    if n > 0 && !cs.contains(IdView::Path(path)) {
        lemma_loc_own(rows[0], cols_rows(g.children@, path, anc.push(is_last), cs, n), path, f);
    } else {
        lemma_loc_own(rows[0], Seq::empty(), path, f);
        assert(rows =~= seq![rows[0]] + Seq::<RowView>::empty());
    }
}

proof fn lemma_section_child_loc(
    chs: Seq<SectionChild>,
    path: Seq<Step>,
    next: Seq<bool>,
    cs: Seq<IdView>,
    k: nat,
    f: spec_fn(Seq<Step>) -> bool,
)
    requires
        k <= chs.len(),
        k <= usize::MAX,
        forall|j: usize, rest: Seq<Step>|
            j < k && (match chs[j as int] {
                SectionChild::MjColumn(c) => target_in_column(c, rest) is Some,
                SectionChild::MjGroup(g) => target_in_group(g, rest) is Some,
            }) ==> #[trigger] f(seq![Step::SectionChild(j)] + rest),
    ensures
        loc_all(section_child_rows(chs, path, next, cs, k), path, f),
    decreases k,
{
    if k == 0 {
        lemma_loc_none(path, f);
    } else {
        lemma_section_child_loc(chs, path, next, cs, (k - 1) as nat, f);
        let j = (k - 1) as usize;
        let s = path.push(Step::SectionChild(j));
        let last = k == chs.len();
        match chs[j as int] {
            SectionChild::MjColumn(c) => {
                lemma_column_loc(c, s, next, last, cs);
                let g = |st: Seq<Step>| target_in_column(c, st) is Some;
                assert forall|rest: Seq<Step>| #[trigger] g(rest) implies f(seq![Step::SectionChild(j)] + rest) by {}
                lemma_loc_lift(column_rows(c, s, next, last, cs), path, Step::SectionChild(j), g, f);
                lemma_loc_concat(section_child_rows(chs, path, next, cs, (k - 1) as nat), column_rows(c, s, next, last, cs), path, f);
            },
            SectionChild::MjGroup(gr) => {
                lemma_group_loc(gr, s, next, last, cs);
                let g = |st: Seq<Step>| target_in_group(gr, st) is Some;
                assert forall|rest: Seq<Step>| #[trigger] g(rest) implies f(seq![Step::SectionChild(j)] + rest) by {}
                lemma_loc_lift(group_rows(gr, s, next, last, cs), path, Step::SectionChild(j), g, f);
                lemma_loc_concat(section_child_rows(chs, path, next, cs, (k - 1) as nat), group_rows(gr, s, next, last, cs), path, f);
            },
        }
    }
}

proof fn lemma_node_loc(node: BodyNode, path: Seq<Step>, anc: Seq<bool>, is_last: bool, number: nat, cs: Seq<IdView>)
    ensures
        loc_all(node_rows(node, path, anc, is_last, number, cs), path, |st: Seq<Step>| target_in_node(node, st) is Some),
    decreases node, 0nat,
{
    let f = |st: Seq<Step>| target_in_node(node, st) is Some;
    let rows = node_rows(node, path, anc, is_last, number, cs);
    let id = IdView::Path(path);
    match node {
        BodyNode::MjSection(sec) => {
            let n = sec.children.len() as nat;
            assert forall|j: usize, rest: Seq<Step>|
                j < n && (match sec.children@[j as int] {
                    SectionChild::MjColumn(c) => target_in_column(c, rest) is Some,
                    SectionChild::MjGroup(g) => target_in_group(g, rest) is Some,
                }) implies #[trigger] f(seq![Step::SectionChild(j)] + rest) by {
                assert((seq![Step::SectionChild(j)] + rest).drop_first() =~= rest);
            }
            lemma_section_child_loc(sec.children@, path, anc.push(is_last), cs, n, f);
            if n > 0 && !cs.contains(id) {
                lemma_loc_own(rows[0], section_child_rows(sec.children@, path, anc.push(is_last), cs, n), path, f);
            } else {
                lemma_loc_own(rows[0], Seq::empty(), path, f);
                assert(rows =~= seq![rows[0]] + Seq::<RowView>::empty());
            }
        },
        BodyNode::MjWrapper(w) => {
            let n = w.children.len() as nat;
            assert forall|j: usize, rest: Seq<Step>|
                j < n && target_in_node(w.children@[j as int], rest) is Some implies #[trigger] f(
                seq![Step::WrapperChild(j)] + rest,
            ) by {
                assert((seq![Step::WrapperChild(j)] + rest).drop_first() =~= rest);
            }
            lemma_wrapper_loc(w.children@, path, anc.push(is_last), cs, n, f);
            if n > 0 && !cs.contains(id) {
                lemma_loc_own(rows[0], wrapper_rows(w.children@, path, anc.push(is_last), cs, n), path, f);
            } else {
                lemma_loc_own(rows[0], Seq::empty(), path, f);
                assert(rows =~= seq![rows[0]] + Seq::<RowView>::empty());
            }
        },
        BodyNode::MjHero(h) => {
            let n = h.children.len() as nat;
            let mk = |i: usize| Step::HeroChild(i);
            assert forall|j: usize, rest: Seq<Step>|
                j < n && target_in_child(h.children@[j as int], rest) is Some implies #[trigger] f(seq![mk(j)] + rest) by {
                assert((seq![mk(j)] + rest).drop_first() =~= rest);
            }
            lemma_comps_loc(h.children@, path, anc.push(is_last), cs, n, mk, f);
            if n > 0 && !cs.contains(id) {
                lemma_loc_own(rows[0], comps_rows(h.children@, path, anc.push(is_last), cs, n, mk), path, f);
            } else {
                lemma_loc_own(rows[0], Seq::empty(), path, f);
                assert(rows =~= seq![rows[0]] + Seq::<RowView>::empty());
            }
        },
        _ => {
            lemma_loc_own(rows[0], Seq::empty(), path, f);
            assert(rows =~= seq![rows[0]] + Seq::<RowView>::empty());
        },
    }
}

proof fn lemma_wrapper_loc(ns: Seq<BodyNode>, path: Seq<Step>, next: Seq<bool>, cs: Seq<IdView>, k: nat, f: spec_fn(Seq<Step>) -> bool)
    requires
        k <= usize::MAX,
        forall|j: usize, rest: Seq<Step>|
            j < k && j < ns.len() && target_in_node(ns[j as int], rest) is Some ==> #[trigger] f(
                seq![Step::WrapperChild(j)] + rest,
            ),
    ensures
        loc_all(wrapper_rows(ns, path, next, cs, k), path, f),
    decreases ns, k,
{
    if k == 0 || k > ns.len() {
        assert(wrapper_rows(ns, path, next, cs, k) =~= Seq::<RowView>::empty());
    } else {
        lemma_wrapper_loc(ns, path, next, cs, (k - 1) as nat, f);
        let j = (k - 1) as usize;
        let s = path.push(Step::WrapperChild(j));
        let n = ns[j as int];
        assert(decreases_to!(ns => ns[k - 1]));
        lemma_node_loc(n, s, next, k == ns.len(), k, cs);
        let g = |st: Seq<Step>| target_in_node(n, st) is Some;
        assert forall|rest: Seq<Step>| #[trigger] g(rest) implies f(seq![Step::WrapperChild(j)] + rest) by {}
        lemma_loc_lift(node_rows(n, s, next, k == ns.len(), k, cs), path, Step::WrapperChild(j), g, f);
        lemma_loc_concat(wrapper_rows(ns, path, next, cs, (k - 1) as nat), node_rows(n, s, next, k == ns.len(), k, cs), path, f);
    }
}

proof fn lemma_body_loc(t: Template, cs: Seq<IdView>, k: nat)
    requires
        k <= t.body.nodes@.len(),
        k <= usize::MAX,
    ensures
        loc_all(body_rows(t.body.nodes@, cs, k), Seq::empty(), |q: Seq<Step>| target_of(t, q) is Some),
    decreases k,
{
    let ns = t.body.nodes@;
    let f = |q: Seq<Step>| target_of(t, q) is Some;
    if k == 0 {
        lemma_loc_none(Seq::empty(), f);
    } else {
        lemma_body_loc(t, cs, (k - 1) as nat);
        let j = (k - 1) as usize;
        let s = seq![Step::BodyNode(j)];
        let n = ns[j as int];
        lemma_node_loc(n, s, Seq::empty(), k == ns.len(), k, cs);
        let g = |st: Seq<Step>| target_in_node(n, st) is Some;
        assert forall|rest: Seq<Step>| #[trigger] g(rest) implies f(seq![Step::BodyNode(j)] + rest) by {
            assert((seq![Step::BodyNode(j)] + rest).drop_first() =~= rest);
        }
        assert(s =~= Seq::<Step>::empty().push(Step::BodyNode(j)));
        lemma_loc_lift(node_rows(n, s, Seq::empty(), k == ns.len(), k, cs), Seq::empty(), Step::BodyNode(j), g, f);
        lemma_loc_concat(body_rows(ns, cs, (k - 1) as nat), node_rows(n, s, Seq::empty(), k == ns.len(), k, cs), Seq::empty(), f);
    }
}

/// A row's id leads somewhere: the head, brand and body always; a path
/// to a node of the template.
pub open spec fn has_target(t: Template, id: IdView) -> bool {
    match id {
        IdView::Path(p) => target_of(t, p) is Some,
        _ => true,
    }
}

/// Every row of the structure tree opens a form: the head, brand and body
/// rows always do, and every other row's path leads to a node of the
/// template, whose form [`crate::tui::cursor::form_for`] then gives.
pub proof fn law_every_row_has_a_target(t: Template, cs: Seq<IdView>)
    ensures
        forall|i: int| 0 <= i < tree_rows(Some(t), cs).len() ==> has_target(t, (#[trigger] tree_rows(Some(t), cs)[i]).id),
{
    let rows = tree_rows(Some(t), cs);
    let n = t.body.nodes.len() as nat;
    if n > 0 && !cs.contains(IdView::Body) {
        lemma_body_loc(t, cs, n);
        let body = body_rows(t.body.nodes@, cs, n);
        assert forall|i: int| 0 <= i < rows.len() implies has_target(t, (#[trigger] rows[i]).id) by {
            if i >= 3 {
                assert(rows[i] == body[i - 3]);
                assert(loc_id(body[i - 3].id, Seq::empty(), |q: Seq<Step>| target_of(t, q) is Some));
                let q = body[i - 3].id->Path_0;
                assert(q.skip(0) =~= q);
            }
        }
    }
}

/// Every body node gives at least its own row.
proof fn lemma_node_rows_nonempty(
    node: BodyNode,
    path: Seq<Step>,
    anc: Seq<bool>,
    is_last: bool,
    number: nat,
    cs: Seq<IdView>,
)
    ensures
        node_rows(node, path, anc, is_last, number, cs).len() >= 1,
{
    match node {
        BodyNode::MjSection(_) => {},
        BodyNode::MjWrapper(_) => {},
        BodyNode::MjHero(_) => {},
        _ => {},
    }
}

proof fn lemma_body_rows_nonempty(t: Template, cs: Seq<IdView>, k: nat)
    requires
        1 <= k <= t.body.nodes@.len(),
    ensures
        body_rows(t.body.nodes@, cs, k).len() >= 1,
{
    lemma_node_rows_nonempty(
        t.body.nodes@[k - 1],
        seq![Step::BodyNode((k - 1) as usize)],
        Seq::empty(),
        k == t.body.nodes@.len(),
        k,
        cs,
    );
}

/// The tree starts with the head, brand and body rows, and has no more
/// rows exactly when there is no template, its body has no nodes, or the
/// body is collapsed. The body row can be expanded exactly when it has
/// nodes.
pub proof fn law_tree_starts_with_roots(t: Option<Template>, cs: Seq<IdView>)
    ensures
        tree_rows(t, cs).len() >= 3,
        tree_rows(t, cs)[0].id == IdView::Head,
        tree_rows(t, cs)[1].id == IdView::Brand,
        tree_rows(t, cs)[2].id == IdView::Body,
        tree_rows(t, cs).len() == 3 <==> (t is None || t->0.body.nodes@.len() == 0 || cs.contains(IdView::Body)),
        tree_rows(t, cs)[2].expandable <==> (t matches Some(x) && x.body.nodes@.len() > 0),
{
    if let Some(x) = t {
        let n = x.body.nodes.len() as nat;
        if n > 0 && !cs.contains(IdView::Body) {
            lemma_body_rows_nonempty(x, cs, n);
        }
    }
}

/// A path leads nowhere unless it starts at one of the body's nodes: the
/// empty path, and one whose first step is not a body node in range, have
/// no target, so [`crate::tui::cursor::form_for`] gives no form for them.
pub proof fn law_no_target_outside_body(t: Template, p: Seq<Step>)
    ensures
        p.len() == 0 ==> target_of(t, p) is None,
        p.len() > 0 && !(p[0] matches Step::BodyNode(i) && i < t.body.nodes@.len()) ==> target_of(t, p) is None,
{
}

} // verus!
