//! Moving through the structure tree: the selected row, the collapsed rows,
//! and what Enter opens.
//!
//! The collapsed rows are a list without repeats; each operation is stated
//! over the rows the tree shows (see [`tree_rows`]).
use vstd::prelude::*;

use crate::model::Template;
use crate::tui::cursor::form_for;
use crate::tui::editform::EditFormState;
use crate::tui::tree::{build_tree, copy_id, copy_path, ids_view, same_id, tree_rows, IdView, RowView, Step, TreeId};

verus! {

/// The structure pane's cursor: the selected row and the rows whose
/// children are hidden.
pub struct TreeNav {
    pub selected_row: usize,
    pub collapsed: Vec<TreeId>,
}

/// The view of a [`TreeNav`].
pub struct NavView {
    pub selected: nat,
    pub collapsed: Seq<IdView>,
}

impl View for TreeNav {
    type V = NavView;

    open spec fn view(&self) -> NavView {
        NavView { selected: self.selected_row as nat, collapsed: ids_view(self.collapsed@) }
    }
}

/// No row is collapsed twice.
pub open spec fn no_repeats(cs: Seq<IdView>) -> bool {
    forall|i: int, j: int| 0 <= i < j < cs.len() ==> cs[i] != cs[j]
}

pub open spec fn opt_template(t: Option<&Template>) -> Option<Template> {
    match t {
        Some(t) => Some(*t),
        None => None,
    }
}

/// The rows shown for a template with `cs` collapsed.
pub open spec fn shown_rows(t: Option<&Template>, cs: Seq<IdView>) -> Seq<RowView> {
    tree_rows(opt_template(t), cs)
}

/// `cs` without `id`.
pub open spec fn without(cs: Seq<IdView>, id: IdView) -> Seq<IdView> {
    cs.filter(|x: IdView| x != id)
}

/// `cs` with `id` removed when it is there, added when it is not.
pub open spec fn toggled(cs: Seq<IdView>, id: IdView) -> Seq<IdView> {
    if cs.contains(id) {
        without(cs, id)
    } else {
        cs.push(id)
    }
}

/// The row above a node: the body for a top-level node, else the node one
/// step up; the head, brand and body have none.
pub open spec fn parent_of(id: IdView) -> Option<IdView> {
    match id {
        IdView::Path(p) => if p.len() == 1 {
            Some(IdView::Body)
        } else if p.len() == 0 {
            Some(IdView::Path(p))
        } else {
            Some(IdView::Path(p.drop_last()))
        },
        _ => None,
    }
}

/// The first row at or after `i` whose id is `id`.
pub open spec fn row_position(rows: Seq<RowView>, id: IdView, i: int) -> Option<int>
    decreases rows.len() - i,
{
    if i < 0 || i >= rows.len() {
        None
    } else if rows[i].id == id {
        Some(i)
    } else {
        row_position(rows, id, i + 1)
    }
}

/// `tree_move`: the selection moved by `delta`, kept on a row.
pub open spec fn moved(sel: nat, delta: int, n: nat) -> nat {
    if n == 0 {
        sel
    } else if sel + delta < 0 {
        0
    } else if sel + delta > n - 1 {
        (n - 1) as nat
    } else {
        (sel + delta) as nat
    }
}

/// `tree_collapse`: an expandable open row closes; any other row hands the
/// selection to its parent row.
pub open spec fn collapsed_view(rows: Seq<RowView>, v: NavView) -> NavView {
    if v.selected >= rows.len() {
        v
    } else {
        let row = rows[v.selected as int];
        if row.expandable && !v.collapsed.contains(row.id) {
            NavView { collapsed: v.collapsed.push(row.id), ..v }
        } else {
            match parent_of(row.id) {
                Some(p) => match row_position(rows, p, 0) {
                    Some(i) => NavView { selected: i as nat, ..v },
                    None => v,
                },
                None => v,
            }
        }
    }
}

/// What Enter on a tree row leads to.
pub enum TreeEnter {
    /// Nothing happens.
    Stay,
    /// A warning is shown.
    Warn(String),
    /// The row's edit form opens, with the text cursor at the end of its
    /// first field.
    Edit { cursor: TreeId, state: EditFormState, cursor_pos: usize },
}

/// `parent_id`: the row above a node (see [`parent_of`]).
pub fn parent_id(id: &TreeId) -> (r: Option<TreeId>)
    ensures
        match r {
            Some(p) => parent_of(id@) == Some(p@),
            None => parent_of(id@) is None,
        },
{
    match id {
        TreeId::Path(p) => {
            if p.len() == 1 {
                Some(TreeId::Body)
            } else {
                let mut n = copy_path(p);
                if n.len() > 0 {
                    n.pop();
                    assert(n@ =~= p@.drop_last());
                }
                Some(TreeId::Path(n))
            }
        },
        _ => None,
    }
}

impl TreeNav {
    /// The collapsed rows, without repeats.
    pub open spec fn wf(&self) -> bool {
        no_repeats(ids_view(self.collapsed@))
    }

    /// A cursor on the first row with nothing collapsed.
    pub fn new() -> (r: TreeNav)
        ensures
            r@.selected == 0,
            r@.collapsed == Seq::<IdView>::empty(),
            r.wf(),
    {
        let r = TreeNav { selected_row: 0, collapsed: Vec::new() };
        assert(ids_view(r.collapsed@) =~= Seq::<IdView>::empty());
        r
    }

    fn is_collapsed(&self, id: &TreeId) -> (r: Option<usize>)
        ensures
            r is Some == self@.collapsed.contains(id@),
            r matches Some(i) ==> i < self.collapsed@.len() && self@.collapsed[i as int] == id@,
    {
        let mut i: usize = 0;
        while i < self.collapsed.len()
            invariant
                i <= self.collapsed@.len(),
                forall|j: int| 0 <= j < i ==> self@.collapsed[j] != id@,
            decreases self.collapsed@.len() - i,
        {
            if same_id(&self.collapsed[i], id) {
                assert(self@.collapsed[i as int] == id@);
                return Some(i);
            }
            i += 1;
        }
        None
    }

    /// `clamp_tree_selection`: the selection moved onto the last row when it
    /// is past it.
    pub fn clamp_tree_selection(&mut self, template: Option<&Template>)
        ensures
            final(self)@.collapsed == old(self)@.collapsed,
            final(self)@.selected == {
                let n = shown_rows(template, old(self)@.collapsed).len();
                if n == 0 {
                    0
                } else if old(self)@.selected >= n {
                    (n - 1) as nat
                } else {
                    old(self)@.selected
                }
            },
    {
        let n = build_tree(template, &self.collapsed).len();
        if n == 0 {
            self.selected_row = 0;
        } else if self.selected_row >= n {
            self.selected_row = n - 1;
        }
    }

    /// `tree_move`: the selection moved by `delta` rows, kept on a row.
    pub fn tree_move(&mut self, template: Option<&Template>, delta: isize)
        ensures
            final(self)@.collapsed == old(self)@.collapsed,
            final(self)@.selected == moved(
                old(self)@.selected,
                delta as int,
                shown_rows(template, old(self)@.collapsed).len(),
            ),
    {
        let n = build_tree(template, &self.collapsed).len();
        if n == 0 {
            return;
        }
        let next: i128 = self.selected_row as i128 + delta as i128;
        if next < 0 {
            self.selected_row = 0;
        } else if next > (n - 1) as i128 {
            self.selected_row = n - 1;
        } else {
            self.selected_row = next as usize;
        }
    }

    /// `tree_home`: the first row.
    pub fn tree_home(&mut self)
        ensures
            final(self)@ == (NavView { selected: 0, ..old(self)@ }),
    {
        self.selected_row = 0;
    }

    /// `tree_end`: the last row.
    pub fn tree_end(&mut self, template: Option<&Template>)
        ensures
            final(self)@.collapsed == old(self)@.collapsed,
            final(self)@.selected == {
                let n = shown_rows(template, old(self)@.collapsed).len();
                if n == 0 {
                    0
                } else {
                    (n - 1) as nat
                }
            },
    {
        let n = build_tree(template, &self.collapsed).len();
        self.selected_row = if n == 0 {
            0
        } else {
            n - 1
        };
    }

    /// Removes `id` from the collapsed rows.
    fn uncollapse(&mut self, id: &TreeId)
        requires
            old(self).wf(),
        ensures
            final(self)@ == (NavView { collapsed: without(old(self)@.collapsed, id@), ..old(self)@ }),
            final(self).wf(),
    {
        let ghost before = self@.collapsed;
        match self.is_collapsed(id) {
            Some(i) => {
                self.collapsed.remove(i);
                proof {
                    let after = ids_view(self.collapsed@);
                    assert(after =~= before.remove(i as int));
                    assert(without(before, id@) =~= before.remove(i as int)) by {
                        lemma_without_at(before, id@, i as int);
                    }
                }
            },
            None => {
                proof {
                    lemma_without_absent(before, id@);
                }
            },
        }
    }

    /// Adds `id`, which is not there, to the collapsed rows.
    fn collapse_id(&mut self, id: &TreeId)
        requires
            old(self).wf(),
            !old(self)@.collapsed.contains(id@),
        ensures
            final(self)@ == (NavView { collapsed: old(self)@.collapsed.push(id@), ..old(self)@ }),
            final(self).wf(),
    {
        let ghost before = self@.collapsed;
        self.collapsed.push(copy_id(id));
        assert(ids_view(self.collapsed@) =~= before.push(id@));
    }

    /// `tree_expand`: the selected row's children shown again.
    pub fn tree_expand(&mut self, template: Option<&Template>)
        requires
            old(self).wf(),
        ensures
            final(self).wf(),
            final(self)@ == {
                let rows = shown_rows(template, old(self)@.collapsed);
                let v = old(self)@;
                if v.selected < rows.len() && rows[v.selected as int].expandable {
                    NavView { collapsed: without(v.collapsed, rows[v.selected as int].id), ..v }
                } else {
                    v
                }
            },
    {
        let rows = build_tree(template, &self.collapsed);
        if self.selected_row < rows.len() {
            let row = &rows[self.selected_row];
            assert(row@ == shown_rows(template, self@.collapsed)[self.selected_row as int]);
            if row.expandable {
                self.uncollapse(&row.id);
            }
        }
    }

    /// `tree_collapse`: an expandable open row closes; any other row hands
    /// the selection to its parent row (see [`collapsed_view`]).
    pub fn tree_collapse(&mut self, template: Option<&Template>)
        requires
            old(self).wf(),
        ensures
            final(self).wf(),
            final(self)@ == collapsed_view(shown_rows(template, old(self)@.collapsed), old(self)@),
    {
        let ghost v = self@;
        let rows = build_tree(template, &self.collapsed);
        let ghost rv = shown_rows(template, v.collapsed);
        if self.selected_row >= rows.len() {
            return;
        }
        let row = &rows[self.selected_row];
        assert(row@ == rv[self.selected_row as int]);
        if row.expandable && self.is_collapsed(&row.id).is_none() {
            self.collapse_id(&row.id);
            return;
        }
        if let Some(parent) = parent_id(&row.id) {
            let mut i: usize = 0;
            while i < rows.len()
                invariant
                    i <= rows@.len(),
                    crate::tui::tree::rows_view(rows@) == rv,
                    row_position(rv, parent@, 0) == row_position(rv, parent@, i as int),
                    self@ == v,
                    v == old(self)@,
                    rv == shown_rows(template, v.collapsed),
                    no_repeats(v.collapsed),
                    v.selected < rv.len(),
                    !(rv[v.selected as int].expandable && !v.collapsed.contains(rv[v.selected as int].id)),
                    parent_of(rv[v.selected as int].id) == Some(parent@),
                decreases rows@.len() - i,
            {
                assert(rows@[i as int]@ == rv[i as int]);
                if same_id(&rows[i].id, &parent) {
                    assert(rv[i as int].id == parent@);
                    assert(row_position(rv, parent@, i as int) == Some(i as int));
                    self.selected_row = i;
                    assert(self@ == (NavView { selected: i as nat, ..v }));
                    return;
                }
                i += 1;
            }
        }
    }

    /// `tree_toggle_expand`: the selected expandable row collapsed when it is
    /// open, opened when it is collapsed.
    pub fn tree_toggle_expand(&mut self, template: Option<&Template>)
        requires
            old(self).wf(),
        ensures
            final(self).wf(),
            final(self)@ == {
                let rows = shown_rows(template, old(self)@.collapsed);
                let v = old(self)@;
                if v.selected < rows.len() && rows[v.selected as int].expandable {
                    NavView { collapsed: toggled(v.collapsed, rows[v.selected as int].id), ..v }
                } else {
                    v
                }
            },
    {
        let rows = build_tree(template, &self.collapsed);
        if self.selected_row >= rows.len() {
            return;
        }
        let row = &rows[self.selected_row];
        assert(row@ == shown_rows(template, self@.collapsed)[self.selected_row as int]);
        if !row.expandable {
            return;
        }
        if self.is_collapsed(&row.id).is_some() {
            self.uncollapse(&row.id);
        } else {
            self.collapse_id(&row.id);
        }
    }

    /// `tree_enter`: what Enter on the selected row does. Without a template
    /// it warns; on a row past the end nothing happens; a row with no form
    /// warns; else the row's form opens (see [`form_for`]), the text cursor
    /// after the first field's value.
    pub fn tree_enter(&self, template: Option<&Template>) -> (r: TreeEnter)
        ensures
            template is None ==> r == TreeEnter::Warn(r->Warn_0) && r->Warn_0@
                == "No template open. Run: dd_emailforge init <dir>"@,
            template matches Some(t) ==> {
                let rows = shown_rows(template, self@.collapsed);
                if self@.selected >= rows.len() {
                    r is Stay
                } else {
                    match r {
                        TreeEnter::Warn(m) => m@ == "Nothing to edit here."@,
                        TreeEnter::Edit { cursor, state, cursor_pos } => {
                            &&& cursor@ == rows[self@.selected as int].id
                            &&& state.wf()
                            &&& cursor_pos == if state.form.fields@.len() > 0 {
                                state.value(state.form.fields@[0].id@).len()
                            } else {
                                0
                            }
                        },
                        TreeEnter::Stay => false,
                    }
                }
            },
    {
        let t = match template {
            Some(t) => t,
            None => return TreeEnter::Warn(crate::text::owned("No template open. Run: dd_emailforge init <dir>")),
        };
        let rows = build_tree(template, &self.collapsed);
        if self.selected_row >= rows.len() {
            return TreeEnter::Stay;
        }
        let row = &rows[self.selected_row];
        assert(row@ == shown_rows(template, self@.collapsed)[self.selected_row as int]);
        match form_for(t, &row.id) {
            None => TreeEnter::Warn(crate::text::owned("Nothing to edit here.")),
            Some(state) => {
                let cursor_pos = if state.form.fields.len() > 0 {
                    let v = state.get(state.form.fields[0].id);
                    v.unicode_len()
                } else {
                    0
                };
                TreeEnter::Edit { cursor: copy_id(&row.id), state, cursor_pos }
            },
        }
    }
}

// ---------------------------------------------------------------------------
// Lemmas and laws
// ---------------------------------------------------------------------------

proof fn lemma_without_absent(cs: Seq<IdView>, id: IdView)
    requires
        !cs.contains(id),
    ensures
        without(cs, id) == cs,
    decreases cs.len(),
{
    if cs.len() > 0 {
        lemma_without_absent(cs.drop_last(), id);
        assert(cs.drop_last().push(cs.last()) =~= cs);
        assert(cs.last() != id);
    }
    assert(without(cs, id) =~= cs) by {
        if cs.len() > 0 {
            reveal_with_fuel(Seq::filter, 2);
        }
    }
}

proof fn lemma_without_at(cs: Seq<IdView>, id: IdView, i: int)
    requires
        0 <= i < cs.len(),
        cs[i] == id,
        no_repeats(cs),
    ensures
        without(cs, id) == cs.remove(i),
    decreases cs.len(),
{
    let n = cs.len();
    if i == n - 1 {
        assert(!cs.drop_last().contains(id)) by {
            assert forall|j: int| 0 <= j < n - 1 implies cs.drop_last()[j] != id by {
                assert(cs[j] != cs[i]);
            }
        }
        lemma_without_absent(cs.drop_last(), id);
        reveal_with_fuel(Seq::filter, 2);
        assert(cs.drop_last().push(cs.last()) =~= cs);
        assert(cs.remove(i) =~= cs.drop_last());
    } else {
        let d = cs.drop_last();
        assert(no_repeats(d));
        lemma_without_at(d, id, i);
        assert(cs.last() != id) by {
            assert(cs[n - 1] != cs[i]);
        }
        reveal_with_fuel(Seq::filter, 2);
        assert(d.push(cs.last()) =~= cs);
        assert(cs.remove(i) =~= d.remove(i).push(cs.last()));
    }
}

/// Toggling the same row twice leaves the same rows collapsed.
pub proof fn law_toggle_twice_restores(cs: Seq<IdView>, id: IdView)
    requires
        no_repeats(cs),
    ensures
        toggled(toggled(cs, id), id).to_set() == cs.to_set(),
{
    if cs.contains(id) {
        let i = cs.index_of(id);
        lemma_without_at(cs, id, i);
        let w = cs.remove(i);
        assert(!w.contains(id)) by {
            assert forall|j: int| 0 <= j < w.len() implies w[j] != id by {
                if j < i {
                    assert(w[j] == cs[j]);
                    assert(cs[j] != cs[i]);
                } else {
                    assert(w[j] == cs[j + 1]);
                    assert(cs[j + 1] != cs[i]);
                }
            }
        }
        let back = w.push(id);
        assert(toggled(toggled(cs, id), id) == back);
        assert forall|x: IdView| cs.contains(x) <==> back.contains(x) by {
            if cs.contains(x) {
                let k = cs.index_of(x);
                if k < i {
                    assert(back[k] == x);
                } else if k == i {
                    assert(back[w.len() as int] == x);
                } else {
                    assert(back[k - 1] == x);
                }
            }
            if back.contains(x) {
                let k = back.index_of(x);
                if k == w.len() {
                    assert(cs[i] == x);
                } else if k < i {
                    assert(cs[k] == x);
                } else {
                    assert(cs[k + 1] == x);
                }
            }
        }
        assert(back.to_set() =~= cs.to_set());
    } else {
        let p = cs.push(id);
        assert(p[cs.len() as int] == id);
        assert(no_repeats(p)) by {
            assert forall|a: int, b: int| 0 <= a < b < p.len() implies p[a] != p[b] by {
                if b == cs.len() {
                    assert(p[a] == cs[a]);
                }
            }
        }
        lemma_without_at(p, id, cs.len() as int);
        assert(p.remove(cs.len() as int) =~= cs);
    }
}

/// Collapsing an open expandable row and expanding it again leaves the same
/// rows collapsed.
pub proof fn law_expand_undoes_collapse(cs: Seq<IdView>, id: IdView)
    requires
        no_repeats(cs),
        !cs.contains(id),
    ensures
        without(cs.push(id), id) == cs,
{
    let p = cs.push(id);
    assert(p[cs.len() as int] == id);
    assert(no_repeats(p)) by {
        assert forall|a: int, b: int| 0 <= a < b < p.len() implies p[a] != p[b] by {
            if b == cs.len() {
                assert(p[a] == cs[a]);
            }
        }
    }
    lemma_without_at(p, id, cs.len() as int);
    assert(p.remove(cs.len() as int) =~= cs);
}

/// A move never leaves the rows: on a non-empty tree the selection ends on
/// a row.
pub proof fn law_move_stays_on_a_row(sel: nat, delta: int, n: nat)
    requires
        n > 0,
    ensures
        moved(sel, delta, n) < n,
{
}

/// The row above a node is the node one step up: a path with one more
/// step has the shorter path as its parent, and a top-level node has the
/// body. So the parent of a nested path is that path with exactly its last
/// step removed.
pub proof fn law_parent_drops_last_step(p: Seq<Step>, s: Step)
    ensures
        parent_of(IdView::Path(seq![s])) == Some(IdView::Body),
        p.len() > 0 ==> parent_of(IdView::Path(p.push(s))) == Some(IdView::Path(p)),
        p.len() >= 2 ==> (parent_of(IdView::Path(p)) matches Some(IdView::Path(q)) && q.len() == p.len() - 1
            && q == p.take(q.len() as int)),
{
    assert(p.push(s).drop_last() =~= p);
    if p.len() >= 2 {
        assert(p.drop_last() =~= p.take(p.len() - 1));
    }
}

} // verus!
