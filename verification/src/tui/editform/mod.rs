//! FormEdit data model: one `EditForm` per node kind, and the live
//! `EditFormState` of a form being edited.
//!
//! Values are kept as association lists keyed by field id; a key occurs at
//! most once, so each list reads as a map.
use vstd::prelude::*;

use crate::border::{form_of, sides_from, toggled, Sides};
use crate::text::{eq_str, owned};

pub mod forms;

pub use forms::{edit_form, field_ids, form_title};

verus! {

/// Which form a state edits. Sub-forms name their item form by this id.
#[derive(Clone, Copy, Debug, PartialEq, Eq, Structural)]
pub enum FormId {
    FontItem,
    SocialItem,
    Head,
    Brand,
    Body,
    Section,
    Column,
    Wrapper,
    Group,
    Hero,
    Text,
    Button,
    Image,
    Divider,
    Spacer,
    Social,
    Navbar,
    NavbarLink,
    Accordion,
    AccordionElement,
    Carousel,
    CarouselImage,
    Table,
    EmailHeader,
    EmailHero,
    EmailCta,
    EmailArticle,
    EmailFooter,
}

/// The brand value an empty field falls back to.
#[derive(Clone, Copy, Debug, PartialEq, Eq, Structural)]
pub enum BrandPlaceholder {
    FontFamily,
    TextColor,
    ButtonColor,
    ButtonBackground,
    Background,
}

#[derive(Debug)]
pub struct EditForm {
    pub title: &'static str,
    pub fields: Vec<FormField>,
}

#[derive(Debug)]
pub struct FormField {
    pub id: &'static str,
    pub label: &'static str,
    pub kind: FieldKind,
    pub required: bool,
    pub visible_when: Option<FieldPredicate>,
    pub hint: Option<&'static str>,
    pub placeholder: Option<&'static str>,
    pub brand_placeholder: Option<BrandPlaceholder>,
}

#[derive(Debug)]
pub enum FieldKind {
    Text { default: &'static str },
    Textarea { rows: u16, default: &'static str },
    Url { default: &'static str },
    Enum { options: Vec<&'static str>, default: &'static str },
    /// Compact checkbox row. `options` is `(id, label)`. The value is a
    /// comma-separated list of checked ids (border sides use `"all"`).
    Checkboxes { options: Vec<(&'static str, &'static str)>, default: &'static str },
    SubForm { template: FormId, min_items: usize, summary_field_id: &'static str },
}

#[derive(Debug)]
pub enum FieldPredicate {
    FieldEquals { other_id: &'static str, value: &'static str },
}

/// The live state of a form: field values, sub-form items, and where the
/// focus is.
#[derive(Debug)]
pub struct EditFormState {
    pub form: EditForm,
    pub values: Vec<(String, String)>,
    pub sub_state: Vec<(String, Vec<EditFormState>)>,
    pub selected_sub_item: Vec<(String, usize)>,
    pub focused_field: usize,
    pub textarea_cursor: (usize, usize),
    /// Index of the focused checkbox inside a `Checkboxes` field.
    pub checkbox_cursor: usize,
}

/// A cell rectangle on screen.
#[derive(Clone, Copy, Debug, PartialEq, Eq, Structural)]
pub struct Rect {
    pub x: u16,
    pub y: u16,
    pub width: u16,
    pub height: u16,
}

// ---------------------------------------------------------------------------
// Association lists
// ---------------------------------------------------------------------------

/// The value stored under `k`: the first entry with that key.
pub open spec fn assoc<T>(vs: Seq<(Seq<char>, T)>, k: Seq<char>) -> Option<T>
    decreases vs.len(),
{
    if vs.len() == 0 {
        None
    } else if vs[0].0 == k {
        Some(vs[0].1)
    } else {
        assoc(vs.drop_first(), k)
    }
}

/// No key occurs twice.
pub open spec fn keys_unique<T>(vs: Seq<(Seq<char>, T)>) -> bool {
    forall|i: int, j: int| 0 <= i < j < vs.len() ==> vs[i].0 != vs[j].0
}

pub proof fn lemma_assoc_absent<T>(vs: Seq<(Seq<char>, T)>, k: Seq<char>)
    ensures
        (forall|j: int| 0 <= j < vs.len() ==> vs[j].0 != k) <==> assoc(vs, k) is None,
    decreases vs.len(),
{
    if vs.len() > 0 {
        lemma_assoc_absent(vs.drop_first(), k);
        if assoc(vs, k) is None {
            assert forall|j: int| 0 <= j < vs.len() implies vs[j].0 != k by {
                if j > 0 {
                    assert(vs[j] == vs.drop_first()[j - 1]);
                }
            }
        } else if forall|j: int| 0 <= j < vs.len() ==> vs[j].0 != k {
            assert(vs[0].0 != k);
            assert forall|j: int| 0 <= j < vs.drop_first().len() implies vs.drop_first()[j].0 != k by {
                assert(vs.drop_first()[j] == vs[j + 1]);
            }
        }
    }
}

/// Appending an entry under a new key adds exactly that key.
pub proof fn lemma_assoc_push<T>(vs: Seq<(Seq<char>, T)>, p: (Seq<char>, T), k: Seq<char>)
    requires
        assoc(vs, p.0) is None,
    ensures
        assoc(vs.push(p), k) == (if k == p.0 {
            Some(p.1)
        } else {
            assoc(vs, k)
        }),
    decreases vs.len(),
{
    if vs.len() == 0 {
        let e = Seq::<(Seq<char>, T)>::empty();
        assert(vs.push(p).drop_first() =~= e);
        assert(vs.push(p)[0] == p);
        assert(assoc(e, k) is None);
        assert(assoc(vs, k) is None);
        if k != p.0 {
            assert(assoc(vs.push(p), k) == assoc(vs.push(p).drop_first(), k));
        }
    } else {
        assert(vs.push(p).drop_first() =~= vs.drop_first().push(p));
        assert(vs.push(p)[0] == vs[0]);
        assert(vs[0].0 != p.0);
        lemma_assoc_push(vs.drop_first(), p, k);
    }
}

/// Replacing the value of the first entry under a key changes only that key.
pub proof fn lemma_assoc_update<T>(vs: Seq<(Seq<char>, T)>, i: int, v: T, k: Seq<char>)
    requires
        0 <= i < vs.len(),
        forall|j: int| 0 <= j < i ==> vs[j].0 != vs[i].0,
    ensures
        assoc(vs.update(i, (vs[i].0, v)), k) == (if k == vs[i].0 {
            Some(v)
        } else {
            assoc(vs, k)
        }),
    decreases vs.len(),
{
    let u = vs.update(i, (vs[i].0, v));
    if i == 0 {
        assert(u.drop_first() =~= vs.drop_first());
        assert(u[0] == (vs[0].0, v));
    } else {
        let rest = vs.drop_first();
        assert(u[0] == vs[0]);
        assert(vs[0].0 != vs[i].0);
        assert(u.drop_first() =~= rest.update(i - 1, (rest[i - 1].0, v)));
        assert forall|j: int| 0 <= j < i - 1 implies #[trigger] rest[j].0 != rest[i - 1].0 by {
            assert(rest[j] == vs[j + 1]);
        }
        lemma_assoc_update(rest, i - 1, v, k);
    }
}

/// The keys of a list, as the spec sees them.
pub open spec fn str_pairs(vs: Seq<(String, String)>) -> Seq<(Seq<char>, Seq<char>)> {
    vs.map_values(|p: (String, String)| (p.0@, p.1@))
}

pub open spec fn sub_pairs(vs: Seq<(String, Vec<EditFormState>)>) -> Seq<(Seq<char>, Seq<EditFormState>)> {
    vs.map_values(|p: (String, Vec<EditFormState>)| (p.0@, p.1@))
}

pub open spec fn index_pairs(vs: Seq<(String, usize)>) -> Seq<(Seq<char>, usize)> {
    vs.map_values(|p: (String, usize)| (p.0@, p.1))
}

/// Where `x` first occurs in `s`.
pub open spec fn position_of<T>(s: Seq<T>, x: T) -> Option<int>
    decreases s.len(),
{
    if s.len() == 0 {
        None
    } else if s[0] == x {
        Some(0)
    } else {
        match position_of(s.drop_first(), x) {
            Some(p) => Some(p + 1),
            None => None,
        }
    }
}

pub proof fn lemma_position_of<T>(s: Seq<T>, x: T)
    ensures
        position_of(s, x) matches Some(p) ==> 0 <= p < s.len() && s[p] == x && forall|j: int|
            0 <= j < p ==> s[j] != x,
        position_of(s, x) is None ==> forall|j: int| 0 <= j < s.len() ==> s[j] != x,
    decreases s.len(),
{
    if s.len() > 0 {
        lemma_position_of(s.drop_first(), x);
        assert forall|j: int| 0 < j < s.len() implies s[j] == s.drop_first()[j - 1] by {}
    }
}

/// `x` first occurs at `i`.
pub proof fn lemma_position_at<T>(s: Seq<T>, x: T, i: int)
    requires
        0 <= i < s.len(),
        s[i] == x,
        forall|j: int| 0 <= j < i ==> s[j] != x,
    ensures
        position_of(s, x) == Some(i),
    decreases i,
{
    if i > 0 {
        assert forall|j: int| 0 <= j < i - 1 implies s.drop_first()[j] != x by {
            assert(s.drop_first()[j] == s[j + 1]);
        }
        lemma_position_at(s.drop_first(), x, i - 1);
    }
}

// ---------------------------------------------------------------------------
// Specification of the state
// ---------------------------------------------------------------------------

/// The default value a field starts with; `None` for a sub-form.
pub open spec fn field_default(k: FieldKind) -> Option<Seq<char>> {
    match k {
        FieldKind::Text { default } => Some(default@),
        FieldKind::Textarea { default, .. } => Some(default@),
        FieldKind::Url { default } => Some(default@),
        FieldKind::Enum { default, .. } => Some(default@),
        FieldKind::Checkboxes { default, .. } => Some(default@),
        FieldKind::SubForm { .. } => None,
    }
}

/// The values a fresh state holds: each non-sub-form field's default, in
/// field order, the first field of an id winning.
pub open spec fn default_values(fields: Seq<FormField>) -> Seq<(Seq<char>, Seq<char>)>
    decreases fields.len(),
{
    if fields.len() == 0 {
        Seq::empty()
    } else {
        let rest = default_values(fields.drop_last());
        let f = fields.last();
        match field_default(f.kind) {
            Some(d) => if assoc(rest, f.id@) is Some {
                rest
            } else {
                rest.push((f.id@, d))
            },
            None => rest,
        }
    }
}

/// The sub-form fields of a fresh state, each with no items.
pub open spec fn default_subs(fields: Seq<FormField>) -> Seq<(Seq<char>, Seq<EditFormState>)>
    decreases fields.len(),
{
    if fields.len() == 0 {
        Seq::empty()
    } else {
        let rest = default_subs(fields.drop_last());
        let f = fields.last();
        match f.kind {
            FieldKind::SubForm { .. } => if assoc(rest, f.id@) is Some {
                rest
            } else {
                rest.push((f.id@, Seq::empty()))
            },
            _ => rest,
        }
    }
}

pub open spec fn default_selected(fields: Seq<FormField>) -> Seq<(Seq<char>, usize)>
    decreases fields.len(),
{
    if fields.len() == 0 {
        Seq::empty()
    } else {
        let rest = default_selected(fields.drop_last());
        let f = fields.last();
        match f.kind {
            FieldKind::SubForm { .. } => if assoc(rest, f.id@) is Some {
                rest
            } else {
                rest.push((f.id@, 0usize))
            },
            _ => rest,
        }
    }
}

/// A field shows when it has no condition or its condition holds.
pub open spec fn shows(vals: Seq<(Seq<char>, Seq<char>)>, f: FormField) -> bool {
    match f.visible_when {
        None => true,
        Some(FieldPredicate::FieldEquals { other_id, value }) => value_in(vals, other_id@) == value@,
    }
}

/// The value of a field; empty when it has none.
pub open spec fn value_in(vals: Seq<(Seq<char>, Seq<char>)>, id: Seq<char>) -> Seq<char> {
    match assoc(vals, id) {
        Some(v) => v,
        None => Seq::empty(),
    }
}

/// The indices of the shown fields among the first `n`, in order.
pub open spec fn shown_upto(vals: Seq<(Seq<char>, Seq<char>)>, fields: Seq<FormField>, n: int) -> Seq<usize>
    decreases n,
{
    if n <= 0 {
        Seq::empty()
    } else {
        let rest = shown_upto(vals, fields, n - 1);
        if shows(vals, fields[n - 1]) {
            rest.push((n - 1) as usize)
        } else {
            rest
        }
    }
}

/// The focus after stepping `forward` (or back) through the shown fields,
/// with wrap-around; `None` when no field shows.
pub open spec fn stepped_focus(shown: Seq<usize>, focused: usize, forward: bool) -> Option<usize> {
    if shown.len() == 0 {
        None
    } else {
        let pos = match position_of(shown, focused) {
            Some(p) => p,
            None => 0,
        };
        let next = if forward {
            (pos + 1) % (shown.len() as int)
        } else if pos == 0 {
            shown.len() - 1
        } else {
            pos - 1
        };
        Some(shown[next])
    }
}

/// The option an enum field moves to from `current`.
pub open spec fn cycled(options: Seq<Seq<char>>, current: Seq<char>, forward: bool) -> int {
    let idx = match position_of(options, current) {
        Some(p) => p,
        None => 0,
    };
    if forward {
        (idx + 1) % (options.len() as int)
    } else if idx == 0 {
        options.len() - 1
    } else {
        idx - 1
    }
}

/// The views of a list of `&str`.
pub open spec fn strs(v: Seq<&'static str>) -> Seq<Seq<char>> {
    v.map_values(|s: &'static str| s@)
}

impl EditFormState {
    /// The field values, as the spec sees them.
    pub open spec fn vals(&self) -> Seq<(Seq<char>, Seq<char>)> {
        str_pairs(self.values@)
    }

    /// The value of field `id`; empty when it has none.
    pub open spec fn value(&self, id: Seq<char>) -> Seq<char> {
        value_in(self.vals(), id)
    }

    /// The sub-form items, as the spec sees them.
    pub open spec fn subs(&self) -> Seq<(Seq<char>, Seq<EditFormState>)> {
        sub_pairs(self.sub_state@)
    }

    pub open spec fn selected(&self) -> Seq<(Seq<char>, usize)> {
        index_pairs(self.selected_sub_item@)
    }

    /// Each list reads as a map.
    pub open spec fn wf(&self) -> bool {
        &&& keys_unique(self.vals())
        &&& keys_unique(self.subs())
        &&& keys_unique(self.selected())
    }

    /// The indices of the shown fields, in order.
    pub open spec fn shown(&self) -> Seq<usize> {
        shown_upto(self.vals(), self.form.fields@, self.form.fields@.len() as int)
    }
}

proof fn lemma_defaults_unique(fields: Seq<FormField>)
    ensures
        keys_unique(default_values(fields)),
        keys_unique(default_subs(fields)),
        keys_unique(default_selected(fields)),
    decreases fields.len(),
{
    if fields.len() > 0 {
        let init = fields.drop_last();
        lemma_defaults_unique(init);
        let f = fields.last();
        lemma_assoc_absent(default_values(init), f.id@);
        lemma_assoc_absent(default_subs(init), f.id@);
        lemma_assoc_absent(default_selected(init), f.id@);
    }
}

/// Looks `id` up in a list of string pairs.
fn find_key(vs: &Vec<(String, String)>, id: &str) -> (r: Option<usize>)
    ensures
        r matches Some(i) ==> i < vs@.len() && str_pairs(vs@)[i as int].0 == id@ && forall|j: int|
            0 <= j < i ==> str_pairs(vs@)[j].0 != id@,
        r is None ==> assoc(str_pairs(vs@), id@) is None,
{
    let mut i: usize = 0;
    while i < vs.len()
        invariant
            i <= vs.len(),
            forall|j: int| 0 <= j < i ==> str_pairs(vs@)[j].0 != id@,
        decreases vs.len() - i,
    {
        if eq_str(vs[i].0.as_str(), id) {
            return Some(i);
        }
        i += 1;
    }
    proof {
        lemma_assoc_absent(str_pairs(vs@), id@);
    }
    None
}

fn find_sub_key(vs: &Vec<(String, Vec<EditFormState>)>, id: &str) -> (r: Option<usize>)
    ensures
        r matches Some(i) ==> i < vs@.len() && sub_pairs(vs@)[i as int].0 == id@ && forall|j: int|
            0 <= j < i ==> sub_pairs(vs@)[j].0 != id@,
        r is None ==> assoc(sub_pairs(vs@), id@) is None,
{
    let mut i: usize = 0;
    while i < vs.len()
        invariant
            i <= vs.len(),
            forall|j: int| 0 <= j < i ==> sub_pairs(vs@)[j].0 != id@,
        decreases vs.len() - i,
    {
        if eq_str(vs[i].0.as_str(), id) {
            return Some(i);
        }
        i += 1;
    }
    proof {
        lemma_assoc_absent(sub_pairs(vs@), id@);
    }
    None
}

fn find_index_key(vs: &Vec<(String, usize)>, id: &str) -> (r: Option<usize>)
    ensures
        r matches Some(i) ==> i < vs@.len() && index_pairs(vs@)[i as int].0 == id@ && forall|j: int|
            0 <= j < i ==> index_pairs(vs@)[j].0 != id@,
        r is None ==> assoc(index_pairs(vs@), id@) is None,
{
    let mut i: usize = 0;
    while i < vs.len()
        invariant
            i <= vs.len(),
            forall|j: int| 0 <= j < i ==> index_pairs(vs@)[j].0 != id@,
        decreases vs.len() - i,
    {
        if eq_str(vs[i].0.as_str(), id) {
            return Some(i);
        }
        i += 1;
    }
    proof {
        lemma_assoc_absent(index_pairs(vs@), id@);
    }
    None
}

fn field_default_exec(k: &FieldKind) -> (r: Option<&'static str>)
    ensures
        r matches Some(d) ==> field_default(*k) == Some(d@),
        r is None ==> field_default(*k) is None,
{
    match k {
        FieldKind::Text { default } => Some(*default),
        FieldKind::Textarea { default, .. } => Some(*default),
        FieldKind::Url { default } => Some(*default),
        FieldKind::Enum { default, .. } => Some(*default),
        FieldKind::Checkboxes { default, .. } => Some(*default),
        FieldKind::SubForm { .. } => None,
    }
}

impl EditFormState {
    /// A fresh state: every field at its default, every sub-form empty,
    /// the focus on the first field.
    pub fn new(form: EditForm) -> (r: Self)
        ensures
            r.form == form,
            r.vals() == default_values(form.fields@),
            r.subs() == default_subs(form.fields@),
            r.selected() == default_selected(form.fields@),
            r.focused_field == 0,
            r.textarea_cursor == (0usize, 0usize),
            r.checkbox_cursor == 0,
            r.wf(),
    {
        let mut values: Vec<(String, String)> = Vec::new();
        let mut sub_state: Vec<(String, Vec<EditFormState>)> = Vec::new();
        let mut selected_sub_item: Vec<(String, usize)> = Vec::new();
        let mut i: usize = 0;
        while i < form.fields.len()
            invariant
                i <= form.fields.len(),
                str_pairs(values@) == default_values(form.fields@.take(i as int)),
                sub_pairs(sub_state@) == default_subs(form.fields@.take(i as int)),
                index_pairs(selected_sub_item@) == default_selected(form.fields@.take(i as int)),
            decreases form.fields.len() - i,
        {
            let field = &form.fields[i];
            proof {
                assert(form.fields@.take(i + 1).drop_last() =~= form.fields@.take(i as int));
                assert(form.fields@.take(i + 1).last() == form.fields@[i as int]);
            }
            match field_default_exec(&field.kind) {
                Some(d) => {
                    match find_key(&values, field.id) {
                        None => {
                            values.push((owned(field.id), owned(d)));
                            assert(str_pairs(values@) =~= str_pairs(values@).drop_last().push((field.id@, d@)));
                        },
                        Some(j) => {
                            proof {
                                lemma_assoc_prefix(str_pairs(values@), j as int, field.id@);
                            }
                        },
                    }
                },
                None => {
                    match find_sub_key(&sub_state, field.id) {
                        None => {
                            sub_state.push((owned(field.id), Vec::new()));
                            assert(sub_pairs(sub_state@) =~= sub_pairs(sub_state@).drop_last().push(
                                (field.id@, Seq::<EditFormState>::empty()),
                            ));
                        },
                        Some(j) => {
                            proof {
                                lemma_assoc_prefix(sub_pairs(sub_state@), j as int, field.id@);
                            }
                        },
                    }
                    match find_index_key(&selected_sub_item, field.id) {
                        None => {
                            selected_sub_item.push((owned(field.id), 0));
                            assert(index_pairs(selected_sub_item@) =~= index_pairs(selected_sub_item@).drop_last().push(
                                (field.id@, 0usize),
                            ));
                        },
                        Some(j) => {
                            proof {
                                lemma_assoc_prefix(index_pairs(selected_sub_item@), j as int, field.id@);
                            }
                        },
                    }
                },
            }
            i += 1;
        }
        proof {
            assert(form.fields@.take(form.fields.len() as int) =~= form.fields@);
            lemma_defaults_unique(form.fields@);
        }
        EditFormState {
            form,
            values,
            sub_state,
            selected_sub_item,
            focused_field: 0,
            textarea_cursor: (0, 0),
            checkbox_cursor: 0,
        }
    }

    /// A fresh item for the sub-form field `subform_field_id`, when the form
    /// has such a field.
    pub fn new_sub_item(&self, subform_field_id: &str) -> (r: Option<EditFormState>)
        ensures
            r is Some <==> exists|i: int|
                0 <= i < self.form.fields@.len() && self.form.fields@[i].id@ == subform_field_id@
                    && self.form.fields@[i].kind is SubForm,
            r matches Some(s) ==> s.focused_field == 0 && s.vals() == default_values(s.form.fields@)
                && s.subs() == default_subs(s.form.fields@) && s.selected() == default_selected(s.form.fields@)
                && s.wf() && s.checkbox_cursor == 0 && s.textarea_cursor == (0usize, 0usize),
    {
        let mut i: usize = 0;
        while i < self.form.fields.len()
            invariant
                i <= self.form.fields.len(),
                forall|j: int|
                    0 <= j < i ==> !(self.form.fields@[j].id@ == subform_field_id@
                        && self.form.fields@[j].kind is SubForm),
            decreases self.form.fields.len() - i,
        {
            let field = &self.form.fields[i];
            if eq_str(field.id, subform_field_id) {
                if let FieldKind::SubForm { template, .. } = &field.kind {
                    return Some(EditFormState::new(edit_form(*template)));
                }
            }
            i += 1;
        }
        None
    }

    /// The value of field `id`; empty when it has none.
    pub fn get(&self, id: &str) -> (r: &str)
        ensures
            r@ == self.value(id@),
    {
        match find_key(&self.values, id) {
            Some(i) => {
                proof {
                    let vs = str_pairs(self.values@);
                    assert(vs[i as int] == (self.values@[i as int].0@, self.values@[i as int].1@));
                    lemma_assoc_prefix(vs, i as int, id@);
                }
                self.values[i].1.as_str()
            },
            None => {
                proof {
                    reveal_strlit("");
                }
                ""
            },
        }
    }

    /// Stores `value` under `id`; every other field keeps its value.
    pub fn set(&mut self, id: &str, value: String)
        requires
            old(self).wf(),
        ensures
            final(self).wf(),
            final(self).value(id@) == value@,
            forall|k: Seq<char>| k != id@ ==> #[trigger] final(self).value(k) == old(self).value(k),
            assoc(final(self).vals(), id@) == Some(value@),
            forall|k: Seq<char>| k != id@ ==> #[trigger] assoc(final(self).vals(), k) == assoc(old(self).vals(), k),
            final(self).form == old(self).form,
            final(self).sub_state == old(self).sub_state,
            final(self).selected_sub_item == old(self).selected_sub_item,
            final(self).focused_field == old(self).focused_field,
            final(self).textarea_cursor == old(self).textarea_cursor,
            final(self).checkbox_cursor == old(self).checkbox_cursor,
    {
        let ghost before = self.vals();
        match find_key(&self.values, id) {
            Some(i) => {
                let key = owned(id);
                self.values.set(i, (key, value));
                proof {
                    let now = self.vals();
                    assert(now =~= before.update(i as int, (before[i as int].0, value@)));
                    assert forall|k: Seq<char>| #[trigger] assoc(now, k) == (if k == before[i as int].0 {
                        Some(value@)
                    } else {
                        assoc(before, k)
                    }) by {
                        lemma_assoc_update(before, i as int, value@, k);
                    }
                    assert forall|a: int, b: int| 0 <= a < b < now.len() implies now[a].0 != now[b].0 by {
                        assert(now[a].0 == before[a].0);
                        assert(now[b].0 == before[b].0);
                    }
                }
            },
            None => {
                let key = owned(id);
                self.values.push((key, value));
                proof {
                    let now = self.vals();
                    assert(now =~= before.push((id@, value@)));
                    assert forall|k: Seq<char>| #[trigger] assoc(now, k) == (if k == id@ {
                        Some(value@)
                    } else {
                        assoc(before, k)
                    }) by {
                        lemma_assoc_push(before, (id@, value@), k);
                    }
                    lemma_assoc_absent(before, id@);
                    assert forall|a: int, b: int| 0 <= a < b < now.len() implies now[a].0 != now[b].0 by {
                        if b == now.len() - 1 {
                            assert(now[a] == before[a]);
                        } else {
                            assert(now[a] == before[a]);
                            assert(now[b] == before[b]);
                        }
                    }
                }
            },
        }
    }

    /// The items of sub-form field `id`, when it has any list.
    pub fn sub_items(&self, id: &str) -> (r: Option<&Vec<EditFormState>>)
        ensures
            r matches Some(v) ==> assoc(self.subs(), id@) == Some(v@),
            r is None ==> assoc(self.subs(), id@) is None,
    {
        match find_sub_key(&self.sub_state, id) {
            Some(i) => {
                proof {
                    lemma_assoc_prefix(self.subs(), i as int, id@);
                }
                Some(&self.sub_state[i].1)
            },
            None => None,
        }
    }

    /// Replaces the items of sub-form field `id`; every other list stays.
    pub fn set_sub_items(&mut self, id: &str, items: Vec<EditFormState>)
        requires
            old(self).wf(),
        ensures
            final(self).wf(),
            assoc(final(self).subs(), id@) == Some(items@),
            forall|k: Seq<char>| k != id@ ==> #[trigger] assoc(final(self).subs(), k) == assoc(old(self).subs(), k),
            final(self).form == old(self).form,
            final(self).values == old(self).values,
            final(self).selected_sub_item == old(self).selected_sub_item,
            final(self).focused_field == old(self).focused_field,
            final(self).textarea_cursor == old(self).textarea_cursor,
            final(self).checkbox_cursor == old(self).checkbox_cursor,
    {
        let ghost before = self.subs();
        let ghost iv = items@;
        match find_sub_key(&self.sub_state, id) {
            Some(i) => {
                let key = owned(id);
                self.sub_state.set(i, (key, items));
                proof {
                    let now = self.subs();
                    assert(now =~= before.update(i as int, (before[i as int].0, iv)));
                    assert forall|k: Seq<char>| #[trigger] assoc(now, k) == (if k == before[i as int].0 {
                        Some(iv)
                    } else {
                        assoc(before, k)
                    }) by {
                        lemma_assoc_update(before, i as int, iv, k);
                    }
                    assert forall|a: int, b: int| 0 <= a < b < now.len() implies now[a].0 != now[b].0 by {
                        assert(now[a].0 == before[a].0);
                        assert(now[b].0 == before[b].0);
                    }
                }
            },
            None => {
                let key = owned(id);
                self.sub_state.push((key, items));
                proof {
                    let now = self.subs();
                    assert(now =~= before.push((id@, iv)));
                    assert forall|k: Seq<char>| #[trigger] assoc(now, k) == (if k == id@ {
                        Some(iv)
                    } else {
                        assoc(before, k)
                    }) by {
                        lemma_assoc_push(before, (id@, iv), k);
                    }
                    lemma_assoc_absent(before, id@);
                    assert forall|a: int, b: int| 0 <= a < b < now.len() implies now[a].0 != now[b].0 by {
                        assert(now[a] == before[a]);
                        if b < now.len() - 1 {
                            assert(now[b] == before[b]);
                        }
                    }
                }
            },
        }
    }

    /// Takes the items of sub-form field `id` out, leaving an empty list.
    pub fn take_sub_items(&mut self, id: &str) -> (r: Vec<EditFormState>)
        requires
            old(self).wf(),
        ensures
            final(self).wf(),
            r@ == match assoc(old(self).subs(), id@) {
                Some(v) => v,
                None => Seq::<EditFormState>::empty(),
            },
            assoc(final(self).subs(), id@) == Some(Seq::<EditFormState>::empty()),
            forall|k: Seq<char>| k != id@ ==> #[trigger] assoc(final(self).subs(), k) == assoc(old(self).subs(), k),
            final(self).form == old(self).form,
            final(self).values == old(self).values,
            final(self).selected_sub_item == old(self).selected_sub_item,
            final(self).focused_field == old(self).focused_field,
            final(self).textarea_cursor == old(self).textarea_cursor,
            final(self).checkbox_cursor == old(self).checkbox_cursor,
    {
        let ghost before = self.subs();
        match find_sub_key(&self.sub_state, id) {
            Some(i) => {
                let pair = self.sub_state.remove(i);
                let taken = pair.1;
                self.sub_state.insert(i, (pair.0, Vec::new()));
                proof {
                    let now = self.subs();
                    let e = Seq::<EditFormState>::empty();
                    assert(now =~= before.update(i as int, (before[i as int].0, e)));
                    lemma_assoc_update(before, i as int, taken@, id@);
                    assert(before.update(i as int, (before[i as int].0, taken@)) =~= before);
                    assert forall|k: Seq<char>| #[trigger] assoc(now, k) == (if k == before[i as int].0 {
                        Some(e)
                    } else {
                        assoc(before, k)
                    }) by {
                        lemma_assoc_update(before, i as int, e, k);
                    }
                    assert forall|a: int, b: int| 0 <= a < b < now.len() implies now[a].0 != now[b].0 by {
                        assert(now[a].0 == before[a].0);
                        assert(now[b].0 == before[b].0);
                    }
                }
                taken
            },
            None => {
                self.set_sub_items(id, Vec::new());
                Vec::new()
            },
        }
    }

    /// The selected item of sub-form field `id`; 0 when none is recorded.
    pub fn selected_sub_index(&self, id: &str) -> (r: usize)
        ensures
            r == match assoc(self.selected(), id@) {
                Some(i) => i,
                None => 0usize,
            },
    {
        match find_index_key(&self.selected_sub_item, id) {
            Some(i) => {
                proof {
                    lemma_assoc_prefix(self.selected(), i as int, id@);
                }
                self.selected_sub_item[i].1
            },
            None => 0,
        }
    }

    /// Marks item `index` of sub-form field `id` as selected.
    pub fn set_selected_sub_item(&mut self, id: &str, index: usize)
        requires
            old(self).wf(),
        ensures
            final(self).wf(),
            assoc(final(self).selected(), id@) == Some(index),
            forall|k: Seq<char>| k != id@ ==> #[trigger] assoc(final(self).selected(), k) == assoc(
                old(self).selected(),
                k,
            ),
            final(self).form == old(self).form,
            final(self).values == old(self).values,
            final(self).sub_state == old(self).sub_state,
            final(self).focused_field == old(self).focused_field,
            final(self).textarea_cursor == old(self).textarea_cursor,
            final(self).checkbox_cursor == old(self).checkbox_cursor,
    {
        let ghost before = self.selected();
        match find_index_key(&self.selected_sub_item, id) {
            Some(i) => {
                let key = owned(id);
                self.selected_sub_item.set(i, (key, index));
                proof {
                    let now = self.selected();
                    assert(now =~= before.update(i as int, (before[i as int].0, index)));
                    assert forall|k: Seq<char>| #[trigger] assoc(now, k) == (if k == before[i as int].0 {
                        Some(index)
                    } else {
                        assoc(before, k)
                    }) by {
                        lemma_assoc_update(before, i as int, index, k);
                    }
                    assert forall|a: int, b: int| 0 <= a < b < now.len() implies now[a].0 != now[b].0 by {
                        assert(now[a].0 == before[a].0);
                        assert(now[b].0 == before[b].0);
                    }
                }
            },
            None => {
                let key = owned(id);
                self.selected_sub_item.push((key, index));
                proof {
                    let now = self.selected();
                    assert(now =~= before.push((id@, index)));
                    assert forall|k: Seq<char>| #[trigger] assoc(now, k) == (if k == id@ {
                        Some(index)
                    } else {
                        assoc(before, k)
                    }) by {
                        lemma_assoc_push(before, (id@, index), k);
                    }
                    lemma_assoc_absent(before, id@);
                    assert forall|a: int, b: int| 0 <= a < b < now.len() implies now[a].0 != now[b].0 by {
                        assert(now[a] == before[a]);
                        if b < now.len() - 1 {
                            assert(now[b] == before[b]);
                        }
                    }
                }
            },
        }
    }
}

/// The value at the first entry with key `k` is what `assoc` finds.
pub proof fn lemma_assoc_prefix<T>(vs: Seq<(Seq<char>, T)>, i: int, k: Seq<char>)
    requires
        0 <= i < vs.len(),
        vs[i].0 == k,
        forall|j: int| 0 <= j < i ==> vs[j].0 != k,
    ensures
        assoc(vs, k) == Some(vs[i].1),
    decreases i,
{
    if i > 0 {
        let rest = vs.drop_first();
        assert forall|j: int| 0 <= j < i - 1 implies rest[j].0 != k by {
            assert(rest[j] == vs[j + 1]);
        }
        lemma_assoc_prefix(rest, i - 1, k);
    }
}

fn shows_exec(state: &EditFormState, field: &FormField) -> (r: bool)
    ensures
        r == shows(state.vals(), *field),
{
    match &field.visible_when {
        None => true,
        Some(FieldPredicate::FieldEquals { other_id, value }) => eq_str(state.get(other_id), value),
    }
}

impl EditFormState {
    /// A field shows when it has no condition or its condition holds.
    pub fn field_visible(&self, field: &FormField) -> (r: bool)
        ensures
            r == shows(self.vals(), *field),
    {
        shows_exec(self, field)
    }

    /// The indices of the shown fields, in order.
    pub fn visible_field_indices(&self) -> (r: Vec<usize>)
        ensures
            r@ == self.shown(),
    {
        let mut out: Vec<usize> = Vec::new();
        let mut i: usize = 0;
        while i < self.form.fields.len()
            invariant
                i <= self.form.fields.len(),
                out@ == shown_upto(self.vals(), self.form.fields@, i as int),
            decreases self.form.fields.len() - i,
        {
            if shows_exec(self, &self.form.fields[i]) {
                out.push(i);
            }
            i += 1;
        }
        out
    }

    /// Where `self.focused_field` stands among the shown fields.
    fn focus_position(&self, visible: &Vec<usize>) -> (r: usize)
        requires
            visible.len() > 0,
        ensures
            r == (match position_of(visible@, self.focused_field) {
                Some(p) => p,
                None => 0,
            }),
            r < visible.len(),
    {
        let mut i: usize = 0;
        while i < visible.len()
            invariant
                i <= visible.len(),
                forall|j: int| 0 <= j < i ==> visible@[j] != self.focused_field,
            decreases visible.len() - i,
        {
            if visible[i] == self.focused_field {
                proof {
                    lemma_position_at(visible@, self.focused_field, i as int);
                }
                return i;
            }
            i += 1;
        }
        proof {
            lemma_position_of(visible@, self.focused_field);
        }
        0
    }

    /// Moves the focus to the next shown field, wrapping around; the text
    /// and checkbox cursors go back to the start.
    pub fn focus_next(&mut self)
        ensures
            stepped_focus(old(self).shown(), old(self).focused_field, true) matches Some(f) ==> (
            final(self).focused_field == f && final(self).textarea_cursor == (0usize, 0usize)
                && final(self).checkbox_cursor == 0),
            stepped_focus(old(self).shown(), old(self).focused_field, true) is None ==> *final(self)
                == *old(self),
            final(self).form == old(self).form,
            final(self).values == old(self).values,
            final(self).sub_state == old(self).sub_state,
            final(self).selected_sub_item == old(self).selected_sub_item,
    {
        let visible = self.visible_field_indices();
        if visible.len() == 0 {
            return;
        }
        let pos = self.focus_position(&visible);
        self.focused_field = visible[(pos + 1) % visible.len()];
        self.textarea_cursor = (0, 0);
        self.checkbox_cursor = 0;
    }

    /// Moves the focus to the previous shown field, wrapping around; the
    /// text and checkbox cursors go back to the start.
    pub fn focus_prev(&mut self)
        ensures
            stepped_focus(old(self).shown(), old(self).focused_field, false) matches Some(f) ==> (
            final(self).focused_field == f && final(self).textarea_cursor == (0usize, 0usize)
                && final(self).checkbox_cursor == 0),
            stepped_focus(old(self).shown(), old(self).focused_field, false) is None ==> *final(self)
                == *old(self),
            final(self).form == old(self).form,
            final(self).values == old(self).values,
            final(self).sub_state == old(self).sub_state,
            final(self).selected_sub_item == old(self).selected_sub_item,
    {
        let visible = self.visible_field_indices();
        if visible.len() == 0 {
            return;
        }
        let pos = self.focus_position(&visible);
        let prev = if pos == 0 {
            visible.len() - 1
        } else {
            pos - 1
        };
        self.focused_field = visible[prev];
        self.textarea_cursor = (0, 0);
        self.checkbox_cursor = 0;
    }

    /// The focused field, when the focus is on one.
    pub fn focused(&self) -> (r: Option<&FormField>)
        ensures
            self.focused_field < self.form.fields@.len() ==> r == Some(&self.form.fields@[self.focused_field as int]),
            self.focused_field >= self.form.fields@.len() ==> r is None,
    {
        if self.focused_field < self.form.fields.len() {
            Some(&self.form.fields[self.focused_field])
        } else {
            None
        }
    }

    /// The index of the field with id `id`.
    pub fn field_index(&self, id: &str) -> (r: Option<usize>)
        ensures
            r == (match position_of(field_ids(self.form.fields@), id@) {
                Some(p) => Some(p as usize),
                None => None::<usize>,
            }),
    {
        let mut i: usize = 0;
        while i < self.form.fields.len()
            invariant
                i <= self.form.fields.len(),
                forall|j: int| 0 <= j < i ==> field_ids(self.form.fields@)[j] != id@,
            decreases self.form.fields.len() - i,
        {
            if eq_str(self.form.fields[i].id, id) {
                proof {
                    lemma_position_at(field_ids(self.form.fields@), id@, i as int);
                }
                return Some(i);
            }
            i += 1;
        }
        proof {
            lemma_position_of(field_ids(self.form.fields@), id@);
        }
        None
    }
}

/// The option index that `current` has, or 0.
fn option_index(options: &Vec<&'static str>, current: &str) -> (r: usize)
    requires
        options.len() > 0,
    ensures
        r == (match position_of(strs(options@), current@) {
            Some(p) => p,
            None => 0,
        }),
        r < options.len(),
{
    let mut i: usize = 0;
    while i < options.len()
        invariant
            i <= options.len(),
            forall|j: int| 0 <= j < i ==> strs(options@)[j] != current@,
        decreases options.len() - i,
    {
        if eq_str(options[i], current) {
            proof {
                lemma_position_at(strs(options@), current@, i as int);
            }
            return i;
        }
        i += 1;
    }
    proof {
        lemma_position_of(strs(options@), current@);
    }
    0
}

/// What cycling the focused enum field gives: the field's id and its next
/// value; `None` when the focus is not on an enum with options.
pub open spec fn enum_cycle(s: EditFormState, forward: bool) -> Option<(Seq<char>, Seq<char>)> {
    if s.focused_field < s.form.fields@.len() {
        let f = s.form.fields@[s.focused_field as int];
        match f.kind {
            FieldKind::Enum { options, .. } => if options@.len() > 0 {
                Some((f.id@, strs(options@)[cycled(strs(options@), s.value(f.id@), forward)]))
            } else {
                None
            },
            _ => None,
        }
    } else {
        None
    }
}

/// What toggling the focused checkbox gives: the field's id and its new
/// value; `None` when the focus is not on a checkbox.
pub open spec fn checkbox_toggle(s: EditFormState) -> Option<(Seq<char>, Seq<char>)> {
    if s.focused_field < s.form.fields@.len() {
        let f = s.form.fields@[s.focused_field as int];
        match f.kind {
            FieldKind::Checkboxes { options, .. } => if s.checkbox_cursor < options@.len() {
                let current = match sides_from(s.value(f.id@)) {
                    Ok(x) => x,
                    Err(_) => crate::border::all_sides(),
                };
                Some((f.id@, form_of(toggled(current, options@[s.checkbox_cursor as int].0@))))
            } else {
                None
            },
            _ => None,
        }
    } else {
        None
    }
}

/// The number of checkboxes of the focused field, when it has some.
pub open spec fn checkbox_count(s: EditFormState) -> Option<int> {
    if s.focused_field < s.form.fields@.len() {
        match s.form.fields@[s.focused_field as int].kind {
            FieldKind::Checkboxes { options, .. } => if options@.len() > 0 {
                Some(options@.len() as int)
            } else {
                None
            },
            _ => None,
        }
    } else {
        None
    }
}

impl EditFormState {
    /// Moves the focused enum field to its next (or previous) option, with
    /// wrap-around; a value that is not an option counts as the first.
    pub fn cycle_enum(&mut self, forward: bool)
        requires
            old(self).wf(),
        ensures
            final(self).wf(),
            enum_cycle(*old(self), forward) matches Some((id, v)) ==> (final(self).value(id) == v
                && forall|k: Seq<char>| k != id ==> #[trigger] final(self).value(k) == old(self).value(k)),
            enum_cycle(*old(self), forward) is None ==> final(self).values == old(self).values,
            final(self).form == old(self).form,
            final(self).focused_field == old(self).focused_field,
            final(self).checkbox_cursor == old(self).checkbox_cursor,
            final(self).sub_state == old(self).sub_state,
    {
        if self.focused_field >= self.form.fields.len() {
            return;
        }
        let f = self.focused_field;
        let (id, next): (&'static str, &'static str) = match &self.form.fields[f].kind {
            FieldKind::Enum { options, .. } => {
                if options.len() == 0 {
                    return;
                }
                let id = self.form.fields[f].id;
                let idx = option_index(options, self.get(id));
                let next = if forward {
                    (idx + 1) % options.len()
                } else if idx == 0 {
                    options.len() - 1
                } else {
                    idx - 1
                };
                (id, options[next])
            },
            _ => {
                return;
            },
        };
        self.set(id, owned(next));
    }

    /// Moves the checkbox cursor of the focused checkbox field by `delta`,
    /// with wrap-around.
    pub fn move_checkbox_cursor(&mut self, delta: i32)
        requires
            old(self).checkbox_cursor <= i32::MAX,
            i32::MIN <= old(self).checkbox_cursor + delta <= i32::MAX,
            checkbox_count(*old(self)) matches Some(n) ==> n <= i32::MAX,
        ensures
            checkbox_count(*old(self)) matches Some(n) ==> final(self).checkbox_cursor == (old(
                self,
            ).checkbox_cursor + delta) % n,
            checkbox_count(*old(self)) is None ==> final(self).checkbox_cursor == old(self).checkbox_cursor,
            *final(self) == (EditFormState { checkbox_cursor: final(self).checkbox_cursor, ..*old(self) }),
            final(self).form == old(self).form,
            final(self).values == old(self).values,
            final(self).focused_field == old(self).focused_field,
            final(self).sub_state == old(self).sub_state,
    {
        if self.focused_field >= self.form.fields.len() {
            return;
        }
        let n: usize = match &self.form.fields[self.focused_field].kind {
            FieldKind::Checkboxes { options, .. } => options.len(),
            _ => {
                return;
            },
        };
        if n == 0 {
            return;
        }
        self.checkbox_cursor = euclid_mod(self.checkbox_cursor as i64 + delta as i64, n as u64) as usize;
    }
}

/// `v mod n`, in `0..n`.
fn euclid_mod(v: i64, n: u64) -> (r: u64)
    requires
        0 < n <= i32::MAX,
        i32::MIN <= v <= i32::MAX,
    ensures
        r == (v as int) % (n as int),
        r < n,
{
    let ghost li = n as int;
    if v >= 0 {
        let r = (v as u64) % n;
        r
    } else {
        let nd: u64 = (-v) as u64;
        let e = nd % n;
        proof {
            let q = (nd as int) / li;
            vstd::arithmetic::div_mod::lemma_fundamental_div_mod(nd as int, li);
            vstd::arithmetic::div_mod::lemma_mod_bound(nd as int, li);
            assert(v == li * (-q - 1) + (li - e)) by (nonlinear_arith)
                requires
                    nd == li * q + e,
                    v == -nd,
            ;
            vstd::arithmetic::div_mod::lemma_mod_multiples_vanish(-q - 1, li - e, li);
            if e == 0 {
                assert(li % li == 0) by {
                    vstd::arithmetic::div_mod::lemma_mod_multiples_vanish(1, 0, li);
                    vstd::arithmetic::div_mod::lemma_small_mod(0, li as nat);
                }
            } else {
                vstd::arithmetic::div_mod::lemma_small_mod((li - e) as nat, li as nat);
            }
        }
        if e == 0 {
            0
        } else {
            n - e
        }
    }
}

impl EditFormState {
    /// Toggles the checkbox under the cursor of the focused checkbox field;
    /// an unreadable value counts as all sides.
    pub fn toggle_focused_checkbox(&mut self)
        requires
            old(self).wf(),
        ensures
            final(self).wf(),
            checkbox_toggle(*old(self)) matches Some((id, v)) ==> (final(self).value(id) == v
                && forall|k: Seq<char>| k != id ==> #[trigger] final(self).value(k) == old(self).value(k)),
            checkbox_toggle(*old(self)) is None ==> final(self).values == old(self).values,
            final(self).form == old(self).form,
            final(self).focused_field == old(self).focused_field,
            final(self).checkbox_cursor == old(self).checkbox_cursor,
            final(self).sub_state == old(self).sub_state,
    {
        if self.focused_field >= self.form.fields.len() {
            return;
        }
        let f = self.focused_field;
        let (fid, option): (&'static str, &'static str) = match &self.form.fields[f].kind {
            FieldKind::Checkboxes { options, .. } => {
                if self.checkbox_cursor >= options.len() {
                    return;
                }
                (self.form.fields[f].id, options[self.checkbox_cursor].0)
            },
            _ => {
                return;
            },
        };
        let current = match Sides::from_storage(self.get(fid)) {
            Ok(x) => x,
            Err(_) => Sides::all(),
        };
        let next = current.toggle(option);
        self.set(fid, next.to_form());
    }

    /// Puts the checkbox cursor on option `option_idx` and toggles it.
    pub fn toggle_checkbox_at(&mut self, option_idx: usize)
        requires
            old(self).wf(),
        ensures
            final(self).wf(),
            final(self).checkbox_cursor == option_idx,
            checkbox_toggle(EditFormState { checkbox_cursor: option_idx, ..*old(self) }) matches Some((id, v))
                ==> (final(self).value(id) == v && forall|k: Seq<char>|
                k != id ==> #[trigger] final(self).value(k) == old(self).value(k)),
            checkbox_toggle(EditFormState { checkbox_cursor: option_idx, ..*old(self) }) is None
                ==> final(self).values == old(self).values,
            final(self).form == old(self).form,
            final(self).focused_field == old(self).focused_field,
            final(self).sub_state == old(self).sub_state,
    {
        self.checkbox_cursor = option_idx;
        self.toggle_focused_checkbox();
    }
}

/// The number of UTF-8 bytes a character takes.
pub open spec fn utf8_width(c: char) -> nat {
    if (c as u32) < 0x80 {
        1
    } else if (c as u32) < 0x800 {
        2
    } else if (c as u32) < 0x10000 {
        3
    } else {
        4
    }
}

/// The number of UTF-8 bytes of `s`.
pub open spec fn utf8_bytes(s: Seq<char>) -> nat
    decreases s.len(),
{
    if s.len() == 0 {
        0
    } else {
        utf8_bytes(s.drop_last()) + utf8_width(s.last())
    }
}

/// The length of `s` in bytes (`str::len`), capped at `usize::MAX`.
pub open spec fn capped_bytes(s: Seq<char>) -> nat {
    if utf8_bytes(s) <= usize::MAX {
        utf8_bytes(s)
    } else {
        usize::MAX as nat
    }
}

fn utf8_len(s: &str) -> (r: usize)
    ensures
        r == capped_bytes(s@),
{
    let v = crate::text::chars_of(s);
    let mut total: usize = 0;
    let mut i: usize = 0;
    while i < v.len()
        invariant
            i <= v.len(),
            v@ == s@,
            total == capped_bytes(v@.take(i as int)),
        decreases v.len() - i,
    {
        proof {
            assert(v@.take(i + 1).drop_last() =~= v@.take(i as int));
            assert(v@.take(i + 1).last() == v@[i as int]);
        }
        let c = v[i] as u32;
        let w: usize = if c < 0x80 {
            1
        } else if c < 0x800 {
            2
        } else if c < 0x10000 {
            3
        } else {
            4
        };
        assert(w == utf8_width(v@[i as int]));
        total = total.saturating_add(w);
        i += 1;
    }
    assert(v@.take(v.len() as int) =~= v@);
    total
}

/// `a + b`, capped at the largest `u16`.
pub open spec fn sat_u16(a: int, b: int) -> int {
    if a + b <= u16::MAX {
        a + b
    } else {
        u16::MAX as int
    }
}

/// The width of a checkbox: the box and a space, then the label's bytes
/// (taken as a `u16`), capped at the largest `u16`.
pub open spec fn box_width(label: Seq<char>) -> int {
    sat_u16(4, (capped_bytes(label) % 65536) as int)
}

/// The labels of checkbox options.
pub open spec fn option_labels(options: Seq<(&'static str, &'static str)>) -> Seq<Seq<char>> {
    options.map_values(|o: (&'static str, &'static str)| o.1@)
}

/// The checkbox rectangles from option `i` on, the next one starting at `x`
/// before its gap: each after a two-column gap from the one before, as wide
/// as its box and label but cut at the right edge of `origin`; none once
/// the row is full.
pub open spec fn rects_from(labels: Seq<Seq<char>>, origin: Rect, i: int, x: int) -> Seq<Rect>
    decreases labels.len() - i,
{
    if i < 0 || i >= labels.len() {
        Seq::empty()
    } else {
        let x1 = if i > 0 {
            sat_u16(x, 2)
        } else {
            x
        };
        let w = box_width(labels[i]);
        let used = x1 - origin.x;
        if used >= origin.width {
            Seq::empty()
        } else {
            let width = if w < origin.width - used {
                w
            } else {
                origin.width - used
            };
            seq![Rect { x: x1 as u16, y: origin.y, width: width as u16, height: 1 }] + rects_from(
                labels,
                origin,
                i + 1,
                sat_u16(x1, w),
            )
        }
    }
}

/// Hit rectangles of each checkbox inside `origin`, left to right with a
/// two-column gap, cut at the right edge (see [`rects_from`]).
pub fn checkbox_item_rects(options: &Vec<(&'static str, &'static str)>, origin: Rect) -> (r: Vec<Rect>)
    ensures
        r@ == rects_from(option_labels(options@), origin, 0, origin.x as int),
{
    let ghost labels = option_labels(options@);
    let mut x: u16 = origin.x;
    let mut out: Vec<Rect> = Vec::new();
    let mut i: usize = 0;
    while i < options.len()
        invariant
            i <= options.len(),
            labels == option_labels(options@),
            x >= origin.x,
            out@ + rects_from(labels, origin, i as int, x as int) == rects_from(labels, origin, 0, origin.x as int),
        ensures
            out@ == rects_from(labels, origin, 0, origin.x as int),
        decreases options.len() - i,
    {
        let x1: u16 = if i > 0 {
            x.saturating_add(2)
        } else {
            x
        };
        let label_len = utf8_len(options[i].1);
        assert(labels[i as int] == options@[i as int].1@);
        let w: u16 = 4u16.saturating_add((label_len % 65536) as u16);
        assert(w == box_width(labels[i as int]));
        let used = x1 - origin.x;
        if used >= origin.width {
            assert(rects_from(labels, origin, i as int, x as int) =~= Seq::<Rect>::empty());
            assert(out@ + Seq::<Rect>::empty() =~= out@);
            break;
        }
        let room = origin.width - used;
        let width = if w < room {
            w
        } else {
            room
        };
        let rect = Rect { x: x1, y: origin.y, width, height: 1 };
        proof {
            let rest = rects_from(labels, origin, i + 1, sat_u16(x1 as int, w as int));
            assert(rects_from(labels, origin, i as int, x as int) == seq![rect] + rest);
            assert(out@.push(rect) + rest =~= out@ + (seq![rect] + rest));
        }
        out.push(rect);
        x = x1.saturating_add(w);
        i += 1;
    }
    out
}

} // verus!
