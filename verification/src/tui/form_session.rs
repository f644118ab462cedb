//! An open edit form: what each key does to it.
//!
//! The form being edited, the text cursor, the scroll, the stack of parent
//! forms above a sub-form item being edited, and whether the focused
//! textarea is expanded. A key gives the next session and a reply: whether
//! the form stays open, a toast to show, and the field an image picker is
//! asked for.
use vstd::prelude::*;

use crate::model::Template;
use crate::text::{cat, owned, push_str};
use crate::tui::cursor::{apply_form, body_applied, brand_applied, head_applied, template_applied_at};
use crate::tui::editform::{
    FormId, assoc, checkbox_count, checkbox_toggle, default_values, edit_form, enum_cycle, stepped_focus, EditFormState, FieldKind,
};
use crate::tui::form_textarea::{
    auto_scroll_for_focus, delete_char_before, insert_char, moved_vertically, row_end, row_for, rows_of,
    scrolled_for_focus, textarea_end, textarea_home, textarea_move_cursor_vertical, textarea_wrap_width,
    first_hit, TextareaHit, contains_rect, sat16, clicked, textarea_cursor_from_click, min, max,
};
use crate::tui::tree::TreeId;
use crate::tui::editform::{position_of, FormField, Rect};

verus! {

/// The keys a form reacts to.
pub enum KeyCode {
    Char(char),
    Esc,
    Tab,
    BackTab,
    Left,
    Right,
    Up,
    Down,
    PageUp,
    PageDown,
    Home,
    End,
    Backspace,
    Enter,
    Other,
}

/// A key, and whether Control was held.
pub struct Key {
    pub code: KeyCode,
    pub ctrl: bool,
}

/// Whether the form stays open.
pub enum ModalResult {
    Continue,
    CloseSuccess,
    CloseCancel,
}

pub enum ToastLevel {
    Success,
    Info,
    Warning,
}

/// What a key asks of the rest of the program.
pub struct FormReply {
    pub result: ModalResult,
    pub toast: Option<(ToastLevel, String)>,
    /// The field whose image picker is asked for.
    pub pick_image: Option<String>,
}

/// A parent form, kept while one of its sub-form items is edited.
pub struct DrillFrame {
    pub parent_state: EditFormState,
    pub parent_cursor_pos: usize,
    pub parent_scroll_offset: u16,
    pub subform_field_id: String,
    pub item_idx: usize,
}

/// An open edit form.
pub struct FormSession {
    pub state: EditFormState,
    /// The tree row the form edits.
    pub cursor: TreeId,
    pub cursor_pos: usize,
    pub drill_stack: Vec<DrillFrame>,
    pub scroll_offset: u16,
    /// Whether the focused textarea is shown expanded.
    pub expanded: bool,
}

// ---------------------------------------------------------------------------
// What a key does, as spec functions
// ---------------------------------------------------------------------------

pub open spec fn focused_field_id(s: EditFormState) -> Seq<char> {
    s.form.fields@[s.focused_field as int].id@
}

/// The state after moving the focus to the next (or previous) shown field.
pub open spec fn focus_step(s: EditFormState, forward: bool) -> EditFormState {
    match stepped_focus(s.shown(), s.focused_field, forward) {
        Some(f) => EditFormState { focused_field: f, textarea_cursor: (0usize, 0usize), checkbox_cursor: 0usize, ..s },
        None => s,
    }
}

/// The session after the focus moved: scrolled to the new field, the text
/// cursor after its value.
pub open spec fn refocused(o: FormSession, forward: bool) -> FormSession {
    let st = focus_step(o.state, forward);
    FormSession {
        state: st,
        scroll_offset: scrolled_for_focus(st, o.scroll_offset as int) as u16,
        cursor_pos: st.value(focused_field_id(st)).len() as usize,
        ..o
    }
}

/// Only the text cursor moved.
pub open spec fn cursor_at(o: FormSession, pos: int) -> FormSession {
    FormSession { cursor_pos: pos as usize, ..o }
}

/// The state's values changed as `enum_cycle` / `checkbox_toggle` says, and
/// nothing else that those keep.
pub open spec fn value_stepped(o: EditFormState, n: EditFormState, step: Option<(Seq<char>, Seq<char>)>) -> bool {
    &&& n.wf()
    &&& step matches Some((id, v)) ==> (n.value(id) == v && forall|k: Seq<char>| k != id ==> #[trigger] n.value(k) == o.value(k))
    &&& step is None ==> n.values == o.values
    &&& n.form == o.form
    &&& n.focused_field == o.focused_field
    &&& n.checkbox_cursor == o.checkbox_cursor
    &&& n.sub_state == o.sub_state
}

/// Only the state changed.
pub open spec fn same_but_state(o: FormSession, n: FormSession) -> bool {
    &&& n.cursor == o.cursor
    &&& n.cursor_pos == o.cursor_pos
    &&& n.drill_stack == o.drill_stack
    &&& n.scroll_offset == o.scroll_offset
    &&& n.expanded == o.expanded
}

/// Field `id` now holds `v`; the rest of the state is as it was.
pub open spec fn value_written(o: EditFormState, n: EditFormState, id: Seq<char>, v: Seq<char>) -> bool {
    &&& n.wf()
    &&& n.value(id) == v
    &&& forall|k: Seq<char>| k != id ==> #[trigger] n.value(k) == o.value(k)
    &&& n.form == o.form
    &&& n.sub_state == o.sub_state
    &&& n.selected_sub_item == o.selected_sub_item
    &&& n.focused_field == o.focused_field
    &&& n.textarea_cursor == o.textarea_cursor
    &&& n.checkbox_cursor == o.checkbox_cursor
}

pub open spec fn is_textarea(k: FieldKind) -> bool {
    k is Textarea
}

pub open spec fn takes_text(k: FieldKind) -> bool {
    k is Text || k is Url || k is Textarea
}

/// The text cursor inside the value: where insertion and deletion happen.
pub open spec fn clamped(pos: usize, v: Seq<char>) -> int {
    if pos < v.len() {
        pos as int
    } else {
        v.len() as int
    }
}

/// What an editing key does on a field that is not a sub-form list (and on
/// one when the list did not take the key): `n` from `o`, with `wrap` the
/// focused textarea's wrap width.
pub open spec fn edited(o: FormSession, n: FormSession, key: Key, wrap: Option<u16>) -> bool {
    let st = o.state;
    let f = st.form.fields@[st.focused_field as int];
    let id = f.id@;
    let v = st.value(id);
    let pos = o.cursor_pos;
    match key.code {
        KeyCode::Tab => if !o.expanded { n == refocused(o, true) } else { n == o },
        KeyCode::BackTab => if !o.expanded { n == refocused(o, false) } else { n == o },
        KeyCode::Left => if f.kind is Enum {
            value_stepped(st, n.state, enum_cycle(st, false)) && same_but_state(o, n)
        } else if f.kind is Checkboxes {
            n == FormSession {
                state: EditFormState {
                    checkbox_cursor: match checkbox_count(st) {
                        Some(c) => ((st.checkbox_cursor - 1) % c) as usize,
                        None => st.checkbox_cursor,
                    },
                    ..st
                },
                ..o
            }
        } else {
            n == cursor_at(o, if pos > 0 { pos - 1 } else { pos as int })
        },
        KeyCode::Right => if f.kind is Enum {
            value_stepped(st, n.state, enum_cycle(st, true)) && same_but_state(o, n)
        } else if f.kind is Checkboxes {
            n == FormSession {
                state: EditFormState {
                    checkbox_cursor: match checkbox_count(st) {
                        Some(c) => ((st.checkbox_cursor + 1) % c) as usize,
                        None => st.checkbox_cursor,
                    },
                    ..st
                },
                ..o
            }
        } else {
            n == cursor_at(o, if pos < v.len() { pos + 1 } else { pos as int })
        },
        KeyCode::Up => if is_textarea(f.kind) {
            n == cursor_at(o, moved_vertically(v, pos as int, -1, wrap))
        } else {
            n == refocused(o, false)
        },
        KeyCode::Down => if is_textarea(f.kind) {
            n == cursor_at(o, moved_vertically(v, pos as int, 1, wrap))
        } else {
            n == refocused(o, true)
        },
        KeyCode::PageUp => if is_textarea(f.kind) {
            n == cursor_at(o, moved_vertically(v, pos as int, -10, wrap))
        } else {
            n == o
        },
        KeyCode::PageDown => if is_textarea(f.kind) {
            n == cursor_at(o, moved_vertically(v, pos as int, 10, wrap))
        } else {
            n == o
        },
        KeyCode::Home => if is_textarea(f.kind) {
            n == cursor_at(o, if key.ctrl { 0 } else { rows_of(v, wrap)[row_for(rows_of(v, wrap), pos as int)].start as int })
        } else {
            n == o
        },
        KeyCode::End => if is_textarea(f.kind) {
            n == cursor_at(o, if key.ctrl { v.len() as int } else { row_end(v, pos as int, wrap) })
        } else {
            n == o
        },
        KeyCode::Char(c) => if c == ' ' && f.kind is Checkboxes {
            value_stepped(st, n.state, checkbox_toggle(st)) && same_but_state(o, n)
        } else if !key.ctrl && takes_text(f.kind) {
            let at = clamped(pos, v);
            value_written(st, n.state, id, v.take(at) + seq![c] + v.skip(at)) && n == FormSession { state: n.state, cursor_pos: (at + 1) as usize, ..o }
        } else {
            n == o
        },
        KeyCode::Backspace => if takes_text(f.kind) {
            let at = clamped(pos, v);
            if at == 0 {
                value_written(st, n.state, id, v) && n == FormSession { state: n.state, cursor_pos: 0, ..o }
            } else {
                value_written(st, n.state, id, v.take(at - 1) + v.skip(at)) && n == FormSession {
                    state: n.state,
                    cursor_pos: (at - 1) as usize,
                    ..o
                }
            }
        } else {
            n == o
        },
        KeyCode::Enter => if is_textarea(f.kind) {
            let at = clamped(pos, v);
            value_written(st, n.state, id, v.take(at) + seq!['\n'] + v.skip(at)) && n == FormSession { state: n.state, cursor_pos: (at + 1) as usize, ..o }
        } else {
            n == refocused(o, true)
        },
        _ => n == o,
    }
}

// ---------------------------------------------------------------------------
// Executing a key
// ---------------------------------------------------------------------------

proof fn lemma_shown_below(vals: Seq<(Seq<char>, Seq<char>)>, fields: Seq<crate::tui::editform::FormField>, n: int)
    requires
        0 <= n <= fields.len(),
    ensures
        forall|i: int| 0 <= i < crate::tui::editform::shown_upto(vals, fields, n).len() ==> #[trigger] crate::tui::editform::shown_upto(vals, fields, n)[i] < n,
    decreases n,
{
    if n > 0 {
        lemma_shown_below(vals, fields, n - 1);
        let rest = crate::tui::editform::shown_upto(vals, fields, n - 1);
        let all = crate::tui::editform::shown_upto(vals, fields, n);
        assert forall|i: int| 0 <= i < all.len() implies #[trigger] all[i] < n by {
            if i < rest.len() {
                assert(all[i] == rest[i]);
            }
        }
    }
}

proof fn lemma_focus_step_in_range(s: EditFormState, forward: bool)
    requires
        s.focused_field < s.form.fields@.len(),
    ensures
        focus_step(s, forward).focused_field < s.form.fields@.len(),
{
    let sh = s.shown();
    lemma_shown_below(s.vals(), s.form.fields@, s.form.fields@.len() as int);
    crate::tui::editform::lemma_position_of(sh, s.focused_field);
}

/// The session after the focus moved (see [`refocused`]).
fn move_focus(s: &mut FormSession, forward: bool)
    requires
        old(s).state.focused_field < old(s).state.form.fields@.len(),
    ensures
        *final(s) == refocused(*old(s), forward),
{
    let ghost o = *s;
    if forward {
        s.state.focus_next();
    } else {
        s.state.focus_prev();
    }
    assert(s.state == focus_step(o.state, forward));
    proof {
        lemma_focus_step_in_range(o.state, forward);
    }
    s.scroll_offset = auto_scroll_for_focus(&s.state, s.scroll_offset);
    let id = s.state.form.fields[s.state.focused_field].id;
    let v = s.state.get(id);
    s.cursor_pos = v.unicode_len();
    assert(focus_step(o.state, forward).form == o.state.form);
}

/// What an editing key needs: a well-formed state focused on a field, a
/// checkbox cursor that can step, and room for one more character.
pub open spec fn can_edit(s: FormSession) -> bool {
    &&& s.state.wf()
    &&& s.state.focused_field < s.state.form.fields@.len()
    &&& s.state.checkbox_cursor < i32::MAX
    &&& checkbox_count(s.state) matches Some(n) ==> n <= i32::MAX
    &&& s.state.value(focused_field_id(s.state)).len() < usize::MAX
}

fn set_cursor(s: &mut FormSession, pos: usize)
    ensures
        *final(s) == cursor_at(*old(s), pos as int),
{
    s.cursor_pos = pos;
}

/// An editing key on the focused field (see [`edited`]).
fn edit_key(s: &mut FormSession, key: &Key, wrap: Option<u16>)
    requires
        can_edit(*old(s)),
    ensures
        edited(*old(s), *final(s), *key, wrap),
{
    let ghost o = *s;
    let f = &s.state.form.fields[s.state.focused_field];
    let id = f.id;
    let is_enum = matches!(f.kind, FieldKind::Enum { .. });
    let is_box = matches!(f.kind, FieldKind::Checkboxes { .. });
    let is_area = matches!(f.kind, FieldKind::Textarea { .. });
    let text = matches!(f.kind, FieldKind::Text { .. } | FieldKind::Url { .. } | FieldKind::Textarea { .. });
    let pos = s.cursor_pos;
    match key.code {
        KeyCode::Tab => {
            if !s.expanded {
                move_focus(s, true);
            }
        },
        KeyCode::BackTab => {
            if !s.expanded {
                move_focus(s, false);
            }
        },
        KeyCode::Left => {
            if is_enum {
                s.state.cycle_enum(false);
            } else if is_box {
                s.state.move_checkbox_cursor(-1);
            } else if pos > 0 {
                set_cursor(s, pos - 1);
            }
        },
        KeyCode::Right => {
            if is_enum {
                s.state.cycle_enum(true);
            } else if is_box {
                s.state.move_checkbox_cursor(1);
            } else {
                let len = s.state.get(id).unicode_len();
                if pos < len {
                    set_cursor(s, pos + 1);
                }
            }
        },
        KeyCode::Up => {
            if is_area {
                let p = textarea_move_cursor_vertical(s.state.get(id), pos, -1, wrap);
                set_cursor(s, p);
            } else {
                move_focus(s, false);
            }
        },
        KeyCode::Down => {
            if is_area {
                let p = textarea_move_cursor_vertical(s.state.get(id), pos, 1, wrap);
                set_cursor(s, p);
            } else {
                move_focus(s, true);
            }
        },
        KeyCode::PageUp => {
            if is_area {
                let p = textarea_move_cursor_vertical(s.state.get(id), pos, -10, wrap);
                set_cursor(s, p);
            }
        },
        KeyCode::PageDown => {
            if is_area {
                let p = textarea_move_cursor_vertical(s.state.get(id), pos, 10, wrap);
                set_cursor(s, p);
            }
        },
        KeyCode::Home => {
            if is_area {
                if key.ctrl {
                    set_cursor(s, 0);
                } else {
                    let p = textarea_home(s.state.get(id), pos, wrap);
                    set_cursor(s, p);
                }
            }
        },
        KeyCode::End => {
            if is_area {
                if key.ctrl {
                    let p = s.state.get(id).unicode_len();
                    set_cursor(s, p);
                } else {
                    let p = textarea_end(s.state.get(id), pos, wrap);
                    set_cursor(s, p);
                }
            }
        },
        KeyCode::Char(c) => {
            if c == ' ' && is_box {
                s.state.toggle_focused_checkbox();
            } else if !key.ctrl && text {
                let current = owned(s.state.get(id));
                let (new, p) = insert_char(current.as_str(), pos, c);
                s.state.set(id, new);
                s.cursor_pos = p;
            }
        },
        KeyCode::Backspace => {
            if text {
                let current = owned(s.state.get(id));
                let (new, p) = delete_char_before(current.as_str(), pos);
                s.state.set(id, new);
                s.cursor_pos = p;
            }
        },
        KeyCode::Enter => {
            if is_area {
                let current = owned(s.state.get(id));
                let (new, p) = insert_char(current.as_str(), pos, '\n');
                s.state.set(id, new);
                s.cursor_pos = p;
            } else {
                move_focus(s, true);
            }
        },
        _ => {},
    }
}

// ---------------------------------------------------------------------------
// Sub-form lists
// ---------------------------------------------------------------------------

/// The items of sub-form field `id`; none when it has no list.
pub open spec fn items_of(s: EditFormState, id: Seq<char>) -> Seq<EditFormState> {
    match assoc(s.subs(), id) {
        Some(v) => v,
        None => Seq::<EditFormState>::empty(),
    }
}

/// The selected item of sub-form field `id`; 0 when none is recorded.
pub open spec fn selected_of(s: EditFormState, id: Seq<char>) -> usize {
    match assoc(s.selected(), id) {
        Some(i) => i,
        None => 0usize,
    }
}

/// `n` is `o` with the list of `id` set to `items`, and, when `sel` is
/// given, its selection set to it.
pub open spec fn list_set(
    o: EditFormState,
    n: EditFormState,
    id: Seq<char>,
    items: Seq<EditFormState>,
    sel: Option<usize>,
) -> bool {
    &&& n.wf()
    &&& assoc(n.subs(), id) == Some(items)
    &&& forall|k: Seq<char>| k != id ==> #[trigger] assoc(n.subs(), k) == assoc(o.subs(), k)
    &&& match sel {
        Some(i) => assoc(n.selected(), id) == Some(i) && forall|k: Seq<char>|
            k != id ==> #[trigger] assoc(n.selected(), k) == assoc(o.selected(), k),
        None => n.selected_sub_item == o.selected_sub_item,
    }
    &&& n.form == o.form
    &&& n.values == o.values
    &&& n.focused_field == o.focused_field
    &&& n.textarea_cursor == o.textarea_cursor
    &&& n.checkbox_cursor == o.checkbox_cursor
}

/// `n` is `o` with the selection of `id` set to `i`.
pub open spec fn selection_set(o: EditFormState, n: EditFormState, id: Seq<char>, i: usize) -> bool {
    &&& n.wf()
    &&& assoc(n.selected(), id) == Some(i)
    &&& forall|k: Seq<char>| k != id ==> #[trigger] assoc(n.selected(), k) == assoc(o.selected(), k)
    &&& n.form == o.form
    &&& n.values == o.values
    &&& n.sub_state == o.sub_state
    &&& n.focused_field == o.focused_field
    &&& n.textarea_cursor == o.textarea_cursor
    &&& n.checkbox_cursor == o.checkbox_cursor
}

/// A fresh item: every field at its default, no sub-items, focus on the
/// first field.
pub open spec fn fresh_item(x: EditFormState) -> bool {
    &&& x.wf()
    &&& x.vals() == default_values(x.form.fields@)
    &&& x.subs() == crate::tui::editform::default_subs(x.form.fields@)
    &&& x.selected() == crate::tui::editform::default_selected(x.form.fields@)
    &&& x.focused_field == 0
    &&& x.textarea_cursor == (0usize, 0usize)
    &&& x.checkbox_cursor == 0
}

/// The length of the focused field's value; 0 when the focus is on no field.
pub open spec fn focused_len(s: EditFormState) -> usize {
    if s.focused_field < s.form.fields@.len() {
        s.value(focused_field_id(s)).len() as usize
    } else {
        0
    }
}

/// The reply that keeps the form open and asks for nothing.
pub open spec fn quiet(r: FormReply) -> bool {
    r.result is Continue && r.toast is None && r.pick_image is None
}

/// The reply that keeps the form open with a toast `m` of level `lvl`.
pub open spec fn toasted(r: FormReply, lvl: ToastLevel, m: Seq<char>) -> bool {
    &&& r.result is Continue
    &&& r.pick_image is None
    &&& r.toast matches Some((l, t)) && l == lvl && t@ == m
}

/// Where a new item goes: after the selected one, or first in an empty list.
pub open spec fn insert_at(len: int, sel: usize) -> int {
    if len == 0 {
        0
    } else if sel + 1 < len {
        sel + 1
    } else {
        len
    }
}

/// The selection after item `sel` left a list now `len` long.
pub open spec fn sel_after_remove(sel: usize, len: int) -> usize {
    if len == 0 {
        0
    } else if sel <= len - 1 {
        sel
    } else {
        (len - 1) as usize
    }
}

/// `A` on the list of `id`: a fresh item after the selected one, selected.
pub open spec fn item_added(o: FormSession, n: FormSession, r: FormReply, id: Seq<char>) -> bool {
    let items = items_of(o.state, id);
    let at = insert_at(items.len() as int, selected_of(o.state, id));
    let x = items_of(n.state, id)[at];
    &&& list_set(o.state, n.state, id, items.insert(at, x), Some(at as usize))
    &&& fresh_item(x)
    &&& same_but_state(o, n)
    &&& toasted(r, ToastLevel::Success, "Item added."@)
}

/// `X` on the list of `id`: the selected item goes, unless only `min` are left.
pub open spec fn item_removed(o: FormSession, n: FormSession, r: FormReply, id: Seq<char>, min: usize) -> bool {
    let st = o.state;
    let items = items_of(st, id);
    let sel = selected_of(st, id);
    &&& same_but_state(o, n)
    &&& if items.len() > min {
        if sel < items.len() {
            let rest = items.remove(sel as int);
            list_set(st, n.state, id, rest, Some(sel_after_remove(sel, rest.len() as int))) && toasted(
                r,
                ToastLevel::Info,
                "Item removed."@,
            )
        } else {
            list_set(st, n.state, id, items, None) && quiet(r)
        }
    } else {
        list_set(st, n.state, id, items, None) && toasted(
            r,
            ToastLevel::Warning,
            "Must keep at least "@ + crate::text::decimal(min as nat) + " item(s)."@,
        )
    }
}

/// Up in the list of `id`: the item above is selected; from the first item
/// (or an empty list) the focus moves to the previous field.
pub open spec fn list_up(o: FormSession, n: FormSession, r: FormReply, id: Seq<char>) -> bool {
    let sel = selected_of(o.state, id);
    &&& quiet(r)
    &&& if items_of(o.state, id).len() == 0 || sel == 0 {
        n == refocused(o, false)
    } else {
        selection_set(o.state, n.state, id, (sel - 1) as usize) && same_but_state(o, n)
    }
}

/// Down in the list of `id`: the item below is selected; from the last item
/// the focus moves to the next field.
pub open spec fn list_down(o: FormSession, n: FormSession, r: FormReply, id: Seq<char>) -> bool {
    let sel = selected_of(o.state, id);
    &&& quiet(r)
    &&& if sel + 1 < items_of(o.state, id).len() {
        selection_set(o.state, n.state, id, (sel + 1) as usize) && same_but_state(o, n)
    } else {
        n == refocused(o, true)
    }
}

/// Enter on the list of `id`: the selected item is edited; the parent is
/// kept on the stack, with a fresh form of `t` in the item's place.
pub open spec fn drilled(o: FormSession, n: FormSession, r: FormReply, id: Seq<char>, t: FormId) -> bool {
    let st = o.state;
    let items = items_of(st, id);
    let sel = selected_of(st, id);
    if sel < items.len() {
        let fr = n.drill_stack@.last();
        let p = fr.parent_state;
        let ph = items_of(p, id)[sel as int];
        &&& n.drill_stack@ == o.drill_stack@.push(fr)
        &&& list_set(st, p, id, items.update(sel as int, ph), None)
        &&& fresh_item(ph)
        &&& ph.form.title@ == crate::tui::editform::form_title(t)
        &&& fr.parent_cursor_pos == o.cursor_pos
        &&& fr.parent_scroll_offset == o.scroll_offset
        &&& fr.subform_field_id@ == id
        &&& fr.item_idx == sel
        &&& n.state == items[sel as int]
        &&& n.cursor == o.cursor
        &&& n.cursor_pos == focused_len(items[sel as int])
        &&& n.scroll_offset == 0
        &&& n.expanded == o.expanded
        &&& toasted(r, ToastLevel::Info, "Editing item. Ctrl+S returns to parent."@)
    } else {
        n == o && quiet(r)
    }
}

/// What a key does to a focused sub-form list of field `id` (`min` items
/// at least, new items of form `t`), for the keys the list takes.
pub open spec fn listed(o: FormSession, n: FormSession, key: Key, r: FormReply, id: Seq<char>, min: usize, t: FormId) -> bool {
    match key.code {
        KeyCode::Char('A') => item_added(o, n, r, id),
        KeyCode::Char('X') => item_removed(o, n, r, id, min),
        KeyCode::Up | KeyCode::Char('k') => list_up(o, n, r, id),
        KeyCode::Down | KeyCode::Char('j') => list_down(o, n, r, id),
        KeyCode::Enter => drilled(o, n, r, id, t),
        _ => true,
    }
}

/// The keys a focused sub-form list takes.
pub open spec fn list_key(code: KeyCode) -> bool {
    (code matches KeyCode::Char(c) && (c == 'A' || c == 'X' || c == 'k' || c == 'j')) || code is Up || code is Down
        || code is Enter
}

fn reply(result: ModalResult, toast: Option<(ToastLevel, String)>) -> (r: FormReply)
    ensures
        r.result == result,
        r.toast == toast,
        r.pick_image is None,
{
    FormReply { result, toast, pick_image: None }
}

fn focused_value_len(s: &EditFormState) -> (r: usize)
    ensures
        r == focused_len(*s),
{
    if s.focused_field < s.form.fields.len() {
        s.get(s.form.fields[s.focused_field].id).unicode_len()
    } else {
        0
    }
}

/// What the list keys need: a well-formed state focused on the list of `id`.
pub open spec fn on_list(s: FormSession, id: Seq<char>) -> bool {
    &&& s.state.wf()
    &&& s.state.focused_field < s.state.form.fields@.len()
    &&& focused_field_id(s.state) == id
    &&& s.state.form.fields@[s.state.focused_field as int].kind is SubForm
}

fn item_count(s: &EditFormState, id: &str) -> (r: usize)
    ensures
        r == items_of(*s, id@).len(),
{
    match s.sub_items(id) {
        Some(v) => v.len(),
        None => 0,
    }
}

fn add_item(s: &mut FormSession, id: &str) -> (r: FormReply)
    requires
        on_list(*old(s), id@),
    ensures
        item_added(*old(s), *final(s), r, id@),
{
    let ghost o = *s;
    let sel = s.state.selected_sub_index(id);
    let made = s.state.new_sub_item(id);
    assert(o.state.form.fields@[o.state.focused_field as int].id@ == id@);
    match made {
        Some(x) => {
            let mut items = s.state.take_sub_items(id);
            let at: usize = if items.len() == 0 {
                0
            } else if sel < items.len() - 1 {
                sel + 1
            } else {
                items.len()
            };
            items.insert(at, x);
            s.state.set_sub_items(id, items);
            s.state.set_selected_sub_item(id, at);
            let ghost ni = items_of(s.state, id@);
            assert(ni[at as int] == x);
            assert(ni =~= items_of(o.state, id@).insert(at as int, x));
            reply(ModalResult::Continue, Some((ToastLevel::Success, owned("Item added."))))
        },
        None => {
            assert(false);
            reply(ModalResult::Continue, None)
        },
    }
}

fn remove_item(s: &mut FormSession, id: &str, min: usize) -> (r: FormReply)
    requires
        on_list(*old(s), id@),
    ensures
        item_removed(*old(s), *final(s), r, id@, min),
{
    let sel = s.state.selected_sub_index(id);
    let mut items = s.state.take_sub_items(id);
    if items.len() > min {
        if sel < items.len() {
            items.remove(sel);
            let rest_len = items.len();
            let ns: usize = if rest_len == 0 {
                0
            } else if sel <= rest_len - 1 {
                sel
            } else {
                rest_len - 1
            };
            s.state.set_sub_items(id, items);
            s.state.set_selected_sub_item(id, ns);
            reply(ModalResult::Continue, Some((ToastLevel::Info, owned("Item removed."))))
        } else {
            s.state.set_sub_items(id, items);
            reply(ModalResult::Continue, None)
        }
    } else {
        s.state.set_sub_items(id, items);
        let mut m = owned("Must keep at least ");
        let d = crate::text::decimal_exec(min as u64);
        push_str(&mut m, d.as_str());
        push_str(&mut m, " item(s).");
        reply(ModalResult::Continue, Some((ToastLevel::Warning, m)))
    }
}

fn select_up(s: &mut FormSession, id: &str) -> (r: FormReply)
    requires
        on_list(*old(s), id@),
    ensures
        list_up(*old(s), *final(s), r, id@),
{
    let sel = s.state.selected_sub_index(id);
    let len = item_count(&s.state, id);
    if len == 0 || sel == 0 {
        move_focus(s, false);
    } else {
        s.state.set_selected_sub_item(id, sel - 1);
    }
    reply(ModalResult::Continue, None)
}

fn select_down(s: &mut FormSession, id: &str) -> (r: FormReply)
    requires
        on_list(*old(s), id@),
    ensures
        list_down(*old(s), *final(s), r, id@),
{
    let sel = s.state.selected_sub_index(id);
    let len = item_count(&s.state, id);
    if len > 0 && sel < len - 1 {
        s.state.set_selected_sub_item(id, sel + 1);
    } else {
        move_focus(s, true);
    }
    reply(ModalResult::Continue, None)
}

fn drill_into(s: &mut FormSession, id: &str, t: FormId) -> (r: FormReply)
    requires
        on_list(*old(s), id@),
    ensures
        drilled(*old(s), *final(s), r, id@, t),
{
    let ghost o = *s;
    let sel = s.state.selected_sub_index(id);
    let len = item_count(&s.state, id);
    if sel < len {
        let mut items = s.state.take_sub_items(id);
        let placeholder = EditFormState::new(edit_form(t));
        let item = items.remove(sel);
        items.insert(sel, placeholder);
        s.state.set_sub_items(id, items);
        let item_pos = focused_value_len(&item);
        let mut parent = item;
        std::mem::swap(&mut s.state, &mut parent);
        let frame = DrillFrame {
            parent_state: parent,
            parent_cursor_pos: s.cursor_pos,
            parent_scroll_offset: s.scroll_offset,
            subform_field_id: owned(id),
            item_idx: sel,
        };
        s.drill_stack.push(frame);
        s.cursor_pos = item_pos;
        s.scroll_offset = 0;
        proof {
            let p = s.drill_stack@.last().parent_state;
            assert(items_of(p, id@) =~= items_of(o.state, id@).update(sel as int, items_of(p, id@)[sel as int]));
        }
        reply(ModalResult::Continue, Some((ToastLevel::Info, owned("Editing item. Ctrl+S returns to parent."))))
    } else {
        reply(ModalResult::Continue, None)
    }
}

/// A key on a focused sub-form list (see [`listed`]).
fn list_event(s: &mut FormSession, key: &Key, id: &str, min: usize, t: FormId) -> (r: FormReply)
    requires
        on_list(*old(s), id@),
        list_key(key.code),
    ensures
        listed(*old(s), *final(s), *key, r, id@, min, t),
{
    match key.code {
        KeyCode::Char('A') => add_item(s, id),
        KeyCode::Char('X') => remove_item(s, id, min),
        KeyCode::Up | KeyCode::Char('k') => select_up(s, id),
        KeyCode::Down | KeyCode::Char('j') => select_down(s, id),
        KeyCode::Enter => drill_into(s, id, t),
        _ => {
            assert(false);
            reply(ModalResult::Continue, None)
        },
    }
}

// ---------------------------------------------------------------------------
// Saving, cancelling, and the whole key
// ---------------------------------------------------------------------------

/// The reply carries toast `m` of level `lvl` and asks for no picker.
pub open spec fn told(r: FormReply, lvl: ToastLevel, m: Seq<char>) -> bool {
    &&& r.pick_image is None
    &&& r.toast matches Some((l, t)) && l == lvl && t@ == m
}

/// `n` is template `o` after the form `st` was written to row `id` with
/// outcome `r` (see [`apply_form`]).
pub open spec fn form_saved(o: Template, n: Template, id: TreeId, st: EditFormState, r: Result<(), String>) -> bool {
    &&& id is Head ==> head_applied(o, n, st, r)
    &&& id is Brand ==> (brand_applied(o.brand, n.brand, st, r) && n == Template { brand: n.brand, ..o })
    &&& id is Body ==> (body_applied(o.body, n.body, st, r) && n == Template { body: n.body, ..o })
    &&& id matches TreeId::Path(p) ==> template_applied_at(o, n, p@, st, r)
}

/// Ctrl+S inside an item: the item goes back into its parent's list (in
/// its place, or at the end when that place is gone) and the parent is
/// edited again.
pub open spec fn item_saved(o: FormSession, n: FormSession, r: FormReply) -> bool {
    let fr = o.drill_stack@.last();
    let p = fr.parent_state;
    let id = fr.subform_field_id@;
    let items = items_of(p, id);
    let back = if fr.item_idx < items.len() {
        items.update(fr.item_idx as int, o.state)
    } else {
        items.push(o.state)
    };
    &&& list_set(p, n.state, id, back, None)
    &&& n.cursor == o.cursor
    &&& n.cursor_pos == fr.parent_cursor_pos
    &&& n.scroll_offset == fr.parent_scroll_offset
    &&& n.drill_stack@ == o.drill_stack@.drop_last()
    &&& !n.expanded
    &&& toasted(r, ToastLevel::Success, "Item saved \u{2014} editing parent."@)
}

/// Ctrl+S on the top form: it is written into the template. Success closes
/// the form; a failure keeps it open, scrolled to the top, with the message.
pub open spec fn form_written(o: FormSession, n: FormSession, r: FormReply, ot: Option<Template>, nt: Option<Template>) -> bool {
    match ot {
        None => {
            &&& n == FormSession { expanded: false, ..o }
            &&& nt == ot
            &&& r.result is CloseCancel
            &&& told(r, ToastLevel::Warning, "No template open."@)
        },
        Some(t0) => match nt {
            None => false,
            Some(t1) => exists|res: Result<(), String>|
            #[trigger] form_saved(t0, t1, o.cursor, o.state, res) && match res {
                Ok(_) => {
                    &&& n == FormSession { expanded: false, ..o }
                    &&& r.result is CloseSuccess
                    &&& told(r, ToastLevel::Success, "Saved "@ + o.state.form.title@ + "."@)
                },
                Err(e) => n == FormSession { scroll_offset: 0, ..o } && toasted(
                    r,
                    ToastLevel::Warning,
                    "Save failed: "@ + e@,
                ),
            },
        },
    }
}

/// Esc: a shown expanded textarea shrinks; inside an item the item's edits
/// are dropped and the parent is edited again; else the form closes.
pub open spec fn escaped(o: FormSession, n: FormSession, r: FormReply) -> bool {
    if o.expanded {
        n == FormSession { expanded: false, ..o } && quiet(r)
    } else if o.drill_stack@.len() > 0 {
        let fr = o.drill_stack@.last();
        &&& n.state == fr.parent_state
        &&& n.cursor == o.cursor
        &&& n.cursor_pos == fr.parent_cursor_pos
        &&& n.scroll_offset == fr.parent_scroll_offset
        &&& n.drill_stack@ == o.drill_stack@.drop_last()
        &&& n.expanded == o.expanded
        &&& toasted(r, ToastLevel::Info, "Item edit cancelled."@)
    } else {
        n == o && r.result is CloseCancel && r.toast is None && r.pick_image is None
    }
}

/// The wrap width recorded for field `i`'s textarea.
pub open spec fn hit_wrap(hits: Seq<TextareaHit>, i: usize) -> Option<u16> {
    match first_hit(hits, i, 0) {
        Some(h) => if h.wrap_width > 0 {
            Some(h.wrap_width)
        } else {
            None
        },
        None => None,
    }
}

pub open spec fn ctrl_char(key: Key, c: char) -> bool {
    key.ctrl && (key.code matches KeyCode::Char(d) && d == c)
}

/// What one key does to an open form: `o` becomes `n`, the template `ot`
/// becomes `nt`, and `r` is the reply. `hits` are the textareas last drawn.
pub open spec fn form_event(
    o: FormSession,
    n: FormSession,
    key: Key,
    hits: Seq<TextareaHit>,
    ot: Option<Template>,
    nt: Option<Template>,
    r: FormReply,
) -> bool {
    let st = o.state;
    let on_field = st.focused_field < st.form.fields@.len();
    let f = st.form.fields@[st.focused_field as int];
    if ctrl_char(key, 'e') {
        &&& n == FormSession { expanded: if on_field && f.kind is Textarea { !o.expanded } else { o.expanded }, ..o }
        &&& nt == ot
        &&& quiet(r)
    } else if ctrl_char(key, 'p') {
        &&& n == o
        &&& nt == ot
        &&& r.result is Continue
        &&& r.toast is None
        &&& if on_field && f.kind is Url {
            r.pick_image matches Some(p) && p@ == f.id@
        } else {
            r.pick_image is None
        }
    } else if ctrl_char(key, 's') {
        if o.drill_stack@.len() > 0 {
            item_saved(o, n, r) && nt == ot
        } else {
            form_written(o, n, r, ot, nt)
        }
    } else if key.code is Esc {
        escaped(o, n, r) && nt == ot
    } else if !on_field {
        n == o && nt == ot && r.result is CloseCancel && r.toast is None && r.pick_image is None
    } else if f.kind is SubForm && list_key(key.code) {
        listed(o, n, key, r, f.id@, f.kind->SubForm_min_items, f.kind->SubForm_template) && nt == ot
    } else {
        edited(o, n, key, hit_wrap(hits, st.focused_field)) && quiet(r) && nt == ot
    }
}

/// What every key needs: the state and each kept parent are well formed,
/// and an editing key has room to work.
pub open spec fn session_ok(s: FormSession) -> bool {
    &&& s.state.wf()
    &&& forall|i: int| 0 <= i < s.drill_stack@.len() ==> (#[trigger] s.drill_stack@[i]).parent_state.wf()
    &&& s.state.focused_field < s.state.form.fields@.len() ==> can_edit(s)
}

fn save_item(s: &mut FormSession) -> (r: FormReply)
    requires
        old(s).drill_stack@.len() > 0,
        old(s).drill_stack@.last().parent_state.wf(),
    ensures
        item_saved(*old(s), *final(s), r),
{
    let frame = s.drill_stack.pop().unwrap();
    let DrillFrame { parent_state, parent_cursor_pos, parent_scroll_offset, subform_field_id, item_idx } = frame;
    let mut other = parent_state;
    let mut items = other.take_sub_items(subform_field_id.as_str());
    std::mem::swap(&mut s.state, &mut other);
    if item_idx < items.len() {
        items.set(item_idx, other);
    } else {
        items.push(other);
    }
    s.state.set_sub_items(subform_field_id.as_str(), items);
    s.cursor_pos = parent_cursor_pos;
    s.scroll_offset = parent_scroll_offset;
    s.expanded = false;
    reply(ModalResult::Continue, Some((ToastLevel::Success, owned("Item saved \u{2014} editing parent."))))
}

fn save_form(s: &mut FormSession, template: &mut Option<Template>) -> (r: FormReply)
    ensures
        form_written(*old(s), *final(s), r, *old(template), *final(template)),
{
    if template.is_none() {
        s.expanded = false;
        return FormReply {
            result: ModalResult::CloseCancel,
            toast: Some((ToastLevel::Warning, owned("No template open."))),
            pick_image: None,
        };
    }
    let mut t = template.take().unwrap();
    let ghost t0 = t;
    let res = apply_form(&mut t, &s.cursor, &s.state);
    proof {
        assert(form_saved(t0, t, s.cursor, s.state, res));
    }
    *template = Some(t);
    match res {
        Ok(()) => {
            s.expanded = false;
            let mut m = cat("Saved ", s.state.form.title);
            push_str(&mut m, ".");
            FormReply { result: ModalResult::CloseSuccess, toast: Some((ToastLevel::Success, m)), pick_image: None }
        },
        Err(e) => {
            s.scroll_offset = 0;
            let m = cat("Save failed: ", e.as_str());
            reply(ModalResult::Continue, Some((ToastLevel::Warning, m)))
        },
    }
}

fn escape(s: &mut FormSession) -> (r: FormReply)
    ensures
        escaped(*old(s), *final(s), r),
{
    if s.expanded {
        s.expanded = false;
        return reply(ModalResult::Continue, None);
    }
    if s.drill_stack.len() == 0 {
        return reply(ModalResult::CloseCancel, None);
    }
    let frame = s.drill_stack.pop().unwrap();
    s.state = frame.parent_state;
    s.cursor_pos = frame.parent_cursor_pos;
    s.scroll_offset = frame.parent_scroll_offset;
    reply(ModalResult::Continue, Some((ToastLevel::Info, owned("Item edit cancelled."))))
}

fn is_ctrl_char(key: &Key, c: char) -> (r: bool)
    ensures
        r == ctrl_char(*key, c),
{
    match key.code {
        KeyCode::Char(d) => key.ctrl && d == c,
        _ => false,
    }
}

fn is_list_key(code: &KeyCode) -> (r: bool)
    ensures
        r == list_key(*code),
{
    match code {
        KeyCode::Char(c) => *c == 'A' || *c == 'X' || *c == 'k' || *c == 'j',
        KeyCode::Up | KeyCode::Down | KeyCode::Enter => true,
        _ => false,
    }
}

/// One key on an open form (see [`form_event`]): Ctrl+E expands or
/// shrinks a focused textarea, Ctrl+P asks for the image picker of a
/// focused URL field, Ctrl+S saves, Esc cancels, a focused sub-form list
/// takes its keys, and every other key edits the focused field.
pub fn handle_form_edit_event(
    s: &mut FormSession,
    key: &Key,
    hits: &Vec<TextareaHit>,
    template: &mut Option<Template>,
) -> (r: FormReply)
    requires
        session_ok(*old(s)),
    ensures
        form_event(*old(s), *final(s), *key, hits@, *old(template), *final(template), r),
{
    let on_field = s.state.focused_field < s.state.form.fields.len();
    if is_ctrl_char(key, 'e') {
        if on_field && matches!(s.state.form.fields[s.state.focused_field].kind, FieldKind::Textarea { .. }) {
            s.expanded = !s.expanded;
        }
        return reply(ModalResult::Continue, None);
    }
    if is_ctrl_char(key, 'p') {
        if on_field {
            let f = &s.state.form.fields[s.state.focused_field];
            if matches!(f.kind, FieldKind::Url { .. }) {
                return FormReply { result: ModalResult::Continue, toast: None, pick_image: Some(owned(f.id)) };
            }
        }
        return reply(ModalResult::Continue, None);
    }
    if is_ctrl_char(key, 's') {
        if s.drill_stack.len() > 0 {
            return save_item(s);
        }
        return save_form(s, template);
    }
    if matches!(key.code, KeyCode::Esc) {
        return escape(s);
    }
    if !on_field {
        return reply(ModalResult::CloseCancel, None);
    }
    let focused = s.state.focused_field;
    let f = &s.state.form.fields[focused];
    let id = f.id;
    if let FieldKind::SubForm { template: t, min_items, .. } = &f.kind {
        let t = *t;
        let min = *min_items;
        if is_list_key(&key.code) {
            return list_event(s, key, id, min, t);
        }
    }
    let wrap = textarea_wrap_width(hits, focused);
    edit_key(s, key, wrap);
    reply(ModalResult::Continue, None)
}

// ---------------------------------------------------------------------------
// The mouse
// ---------------------------------------------------------------------------

pub enum MouseKind {
    ScrollUp,
    ScrollDown,
    /// The left button went down.
    LeftDown,
    Other,
}

/// A mouse event at a cell.
pub struct Mouse {
    pub kind: MouseKind,
    pub column: u16,
    pub row: u16,
}

/// Where the last drawn form put its clickable parts.
pub struct FormHits {
    /// A checkbox: its cell, its field, its option.
    pub checkboxes: Vec<(Rect, usize, usize)>,
    /// An expand button: its field and its cell.
    pub expands: Vec<(usize, Rect)>,
    pub textareas: Vec<TextareaHit>,
    /// A field's whole row: its cells and its field.
    pub fields: Vec<(Rect, usize)>,
}

pub open spec fn in_rect(area: Rect, x: u16, y: u16) -> bool {
    area.x <= x && x < sat16(area.x as int, area.width as int) && area.y <= y && y < sat16(area.y as int, area.height as int)
}

/// The first checkbox at or after `i` that holds the cell.
pub open spec fn box_at(hits: Seq<(Rect, usize, usize)>, x: u16, y: u16, i: int) -> Option<(usize, usize)>
    decreases hits.len() - i,
{
    if i < 0 || i >= hits.len() {
        None
    } else if in_rect(hits[i].0, x, y) {
        Some((hits[i].1, hits[i].2))
    } else {
        box_at(hits, x, y, i + 1)
    }
}

/// The first expand button at or after `i` that holds the cell.
pub open spec fn expand_at(hits: Seq<(usize, Rect)>, x: u16, y: u16, i: int) -> Option<usize>
    decreases hits.len() - i,
{
    if i < 0 || i >= hits.len() {
        None
    } else if in_rect(hits[i].1, x, y) {
        Some(hits[i].0)
    } else {
        expand_at(hits, x, y, i + 1)
    }
}

/// The first textarea at or after `i` that holds the cell.
pub open spec fn area_at(hits: Seq<TextareaHit>, x: u16, y: u16, i: int) -> Option<TextareaHit>
    decreases hits.len() - i,
{
    if i < 0 || i >= hits.len() {
        None
    } else if in_rect(hits[i].rect, x, y) {
        Some(hits[i])
    } else {
        area_at(hits, x, y, i + 1)
    }
}

/// The first field row at or after `i` that holds the cell.
pub open spec fn field_at(hits: Seq<(Rect, usize)>, x: u16, y: u16, i: int) -> Option<usize>
    decreases hits.len() - i,
{
    if i < 0 || i >= hits.len() {
        None
    } else if in_rect(hits[i].0, x, y) {
        Some(hits[i].1)
    } else {
        field_at(hits, x, y, i + 1)
    }
}

/// The value of field `i`.
pub open spec fn field_value(s: EditFormState, i: usize) -> Seq<char> {
    s.value(s.form.fields@[i as int].id@)
}

/// `a - b`, or 0 below that.
pub open spec fn sat_sub(a: int, b: int) -> int {
    if a >= b {
        a - b
    } else {
        0
    }
}

/// What a left click at `(x, y)` does: a checkbox is focused and toggled;
/// an expand button focuses its field and expands it; a textarea takes the
/// focus and the cursor; with nothing expanded, a field row takes the focus.
pub open spec fn clicked_at(o: FormSession, n: FormSession, hits: FormHits, x: u16, y: u16) -> bool {
    let st = o.state;
    match box_at(hits.checkboxes@, x, y, 0) {
        Some((fi, oi)) => {
            let at = EditFormState { focused_field: fi, checkbox_cursor: oi, ..st };
            value_stepped(at, n.state, checkbox_toggle(at)) && same_but_state(o, n)
        },
        None => match expand_at(hits.expands@, x, y, 0) {
            Some(idx) => n == FormSession {
                state: EditFormState { focused_field: idx, ..st },
                cursor_pos: if idx < st.form.fields@.len() {
                    field_value(st, idx).len() as usize
                } else {
                    o.cursor_pos
                },
                expanded: true,
                ..o
            },
            None => match area_at(hits.textareas@, x, y, 0) {
                Some(h) => n == FormSession {
                    state: EditFormState { focused_field: h.field_idx, ..st },
                    cursor_pos: clicked(
                        field_value(st, h.field_idx),
                        Some(h.wrap_width),
                        h.first_visible_row as int,
                        sat_sub(x as int, h.rect.x as int),
                        sat_sub(y as int, h.rect.y as int),
                    ) as usize,
                    ..o
                },
                None => if o.expanded {
                    n == o
                } else {
                    match field_at(hits.fields@, x, y, 0) {
                        Some(idx) => n == FormSession {
                            state: EditFormState { focused_field: idx, checkbox_cursor: 0, ..st },
                            cursor_pos: field_value(st, idx).len() as usize,
                            ..o
                        },
                        None => n == o,
                    }
                },
            },
        },
    }
}

/// What a mouse event does to an open form: the wheel scrolls the form (or
/// moves the cursor three rows in an expanded textarea), a left click goes
/// to what it hit.
pub open spec fn mouse_event(o: FormSession, n: FormSession, m: Mouse, hits: FormHits) -> bool {
    let st = o.state;
    match m.kind {
        MouseKind::ScrollUp | MouseKind::ScrollDown => {
            let up = m.kind is ScrollUp;
            if o.expanded {
                if st.focused_field < st.form.fields@.len() && st.form.fields@[st.focused_field as int].kind is Textarea {
                    n == cursor_at(
                        o,
                        moved_vertically(
                            field_value(st, st.focused_field),
                            o.cursor_pos as int,
                            if up { -3 } else { 3 },
                            hit_wrap(hits.textareas@, st.focused_field),
                        ),
                    )
                } else {
                    n == o
                }
            } else {
                n == FormSession {
                    scroll_offset: if up {
                        sat_sub(o.scroll_offset as int, 3) as u16
                    } else {
                        sat16(o.scroll_offset as int, 3) as u16
                    },
                    ..o
                }
            }
        },
        MouseKind::LeftDown => clicked_at(o, n, hits, m.column, m.row),
        MouseKind::Other => n == o,
    }
}

/// What a click needs: a well-formed state, and textareas and field rows
/// that name fields of the form.
pub open spec fn hits_ok(s: FormSession, hits: FormHits) -> bool {
    &&& s.state.wf()
    &&& forall|i: int| 0 <= i < hits.textareas@.len() ==> (#[trigger] hits.textareas@[i]).field_idx < s.state.form.fields@.len()
    &&& forall|i: int| 0 <= i < hits.fields@.len() ==> (#[trigger] hits.fields@[i]).1 < s.state.form.fields@.len()
}

fn find_box(hits: &Vec<(Rect, usize, usize)>, x: u16, y: u16) -> (r: Option<(usize, usize)>)
    ensures
        r == box_at(hits@, x, y, 0),
{
    let mut i: usize = 0;
    while i < hits.len()
        invariant
            i <= hits.len(),
            box_at(hits@, x, y, 0) == box_at(hits@, x, y, i as int),
        decreases hits.len() - i,
    {
        if contains_rect(hits[i].0, x, y) {
            return Some((hits[i].1, hits[i].2));
        }
        i += 1;
    }
    None
}

fn find_expand(hits: &Vec<(usize, Rect)>, x: u16, y: u16) -> (r: Option<usize>)
    ensures
        r == expand_at(hits@, x, y, 0),
{
    let mut i: usize = 0;
    while i < hits.len()
        invariant
            i <= hits.len(),
            expand_at(hits@, x, y, 0) == expand_at(hits@, x, y, i as int),
        decreases hits.len() - i,
    {
        if contains_rect(hits[i].1, x, y) {
            return Some(hits[i].0);
        }
        i += 1;
    }
    None
}

fn find_area(hits: &Vec<TextareaHit>, x: u16, y: u16) -> (r: Option<TextareaHit>)
    ensures
        r == area_at(hits@, x, y, 0),
{
    let mut i: usize = 0;
    while i < hits.len()
        invariant
            i <= hits.len(),
            area_at(hits@, x, y, 0) == area_at(hits@, x, y, i as int),
        decreases hits.len() - i,
    {
        if contains_rect(hits[i].rect, x, y) {
            return Some(hits[i]);
        }
        i += 1;
    }
    None
}

fn find_field(hits: &Vec<(Rect, usize)>, x: u16, y: u16) -> (r: Option<usize>)
    ensures
        r == field_at(hits@, x, y, 0),
{
    let mut i: usize = 0;
    while i < hits.len()
        invariant
            i <= hits.len(),
            field_at(hits@, x, y, 0) == field_at(hits@, x, y, i as int),
        decreases hits.len() - i,
    {
        if contains_rect(hits[i].0, x, y) {
            return Some(hits[i].1);
        }
        i += 1;
    }
    None
}

fn click(s: &mut FormSession, hits: &FormHits, x: u16, y: u16)
    requires
        hits_ok(*old(s), *hits),
    ensures
        clicked_at(*old(s), *final(s), *hits, x, y),
{
    let ghost o = *s;
    if let Some((fi, oi)) = find_box(&hits.checkboxes, x, y) {
        s.state.focused_field = fi;
        s.state.toggle_checkbox_at(oi);
        return;
    }
    if let Some(idx) = find_expand(&hits.expands, x, y) {
        s.state.focused_field = idx;
        if idx < s.state.form.fields.len() {
            s.cursor_pos = s.state.get(s.state.form.fields[idx].id).unicode_len();
        }
        s.expanded = true;
        return;
    }
    if let Some(h) = find_area(&hits.textareas, x, y) {
        proof {
            lemma_area_in(hits.textareas@, x, y, 0);
        }
        s.state.focused_field = h.field_idx;
        let value = s.state.get(s.state.form.fields[h.field_idx].id);
        let local_x = x.saturating_sub(h.rect.x);
        let local_y = y.saturating_sub(h.rect.y);
        s.cursor_pos = textarea_cursor_from_click(value, Some(h.wrap_width), h.first_visible_row, local_x, local_y);
        return;
    }
    if s.expanded {
        return;
    }
    if let Some(idx) = find_field(&hits.fields, x, y) {
        proof {
            lemma_field_in(hits.fields@, x, y, 0);
        }
        s.state.focused_field = idx;
        s.state.checkbox_cursor = 0;
        s.cursor_pos = s.state.get(s.state.form.fields[idx].id).unicode_len();
    }
}

proof fn lemma_area_in(hits: Seq<TextareaHit>, x: u16, y: u16, i: int)
    requires
        0 <= i,
    ensures
        area_at(hits, x, y, i) matches Some(h) ==> exists|j: int| 0 <= j < hits.len() && #[trigger] hits[j] == h,
    decreases hits.len() - i,
{
    if i < hits.len() {
        lemma_area_in(hits, x, y, i + 1);
    }
}

proof fn lemma_field_in(hits: Seq<(Rect, usize)>, x: u16, y: u16, i: int)
    requires
        0 <= i,
    ensures
        field_at(hits, x, y, i) matches Some(k) ==> exists|j: int| 0 <= j < hits.len() && #[trigger] hits[j].1 == k,
    decreases hits.len() - i,
{
    if i < hits.len() {
        lemma_field_in(hits, x, y, i + 1);
    }
}

/// One mouse event on an open form (see [`mouse_event`]); the form stays
/// open.
pub fn handle_form_edit_mouse(s: &mut FormSession, m: &Mouse, hits: &FormHits) -> (r: ModalResult)
    requires
        hits_ok(*old(s), *hits),
    ensures
        mouse_event(*old(s), *final(s), *m, *hits),
        r is Continue,
{
    match m.kind {
        MouseKind::ScrollUp | MouseKind::ScrollDown => {
            let up = matches!(m.kind, MouseKind::ScrollUp);
            if s.expanded {
                let focused = s.state.focused_field;
                if focused < s.state.form.fields.len() && matches!(
                    s.state.form.fields[focused].kind,
                    FieldKind::Textarea { .. }
                ) {
                    let wrap = textarea_wrap_width(&hits.textareas, focused);
                    let delta: isize = if up {
                        -3
                    } else {
                        3
                    };
                    let p = textarea_move_cursor_vertical(
                        s.state.get(s.state.form.fields[focused].id),
                        s.cursor_pos,
                        delta,
                        wrap,
                    );
                    set_cursor(s, p);
                }
            } else if up {
                s.scroll_offset = s.scroll_offset.saturating_sub(3);
            } else {
                s.scroll_offset = s.scroll_offset.saturating_add(3);
            }
        },
        MouseKind::LeftDown => click(s, hits, m.column, m.row),
        MouseKind::Other => {},
    }
    ModalResult::Continue
}

// ---------------------------------------------------------------------------
// The form's layout
// ---------------------------------------------------------------------------

/// Where the form window puts things: the scroll actually used, the height
/// of all the laid-out fields, each label row on screen with its field, the
/// click areas, and the scroll bar's thumb (its row inside the content area
/// and its height) when the fields do not fit.
pub struct FormLayout {
    pub scroll: u16,
    pub total_height: u16,
    pub labels: Vec<(usize, Rect)>,
    pub hits: FormHits,
    pub thumb: Option<(usize, usize)>,
}

/// A layout as the spec sees it.
pub struct LayoutView {
    pub scroll: int,
    pub total_height: int,
    pub labels: Seq<(usize, Rect)>,
    pub checkboxes: Seq<(Rect, usize, usize)>,
    pub expands: Seq<(usize, Rect)>,
    pub textareas: Seq<TextareaHit>,
    pub fields: Seq<(Rect, usize)>,
    pub thumb: Option<(nat, nat)>,
}

pub open spec fn layout_view(l: FormLayout) -> LayoutView {
    LayoutView {
        scroll: l.scroll as int,
        total_height: l.total_height as int,
        labels: l.labels@,
        checkboxes: l.hits.checkboxes@,
        expands: l.hits.expands@,
        textareas: l.hits.textareas@,
        fields: l.hits.fields@,
        thumb: match l.thumb {
            Some((t, h)) => Some((t as nat, h as nat)),
            None => None,
        },
    }
}

/// The rows a text area may take when the content area is `ch` rows high.
pub open spec fn window_rows(ch: int) -> int {
    min(max(ch - 3, 1), crate::tui::form_textarea::TEXTAREA_MAX_DISPLAY_ROWS as int)
}

/// How many content rows field `i` takes in a content area `ch` rows high
/// and `cw` columns wide: a text area shows its own rows grown to its
/// wrapped value, capped by the window; a sub-form list shows a header and
/// its items (at least one line); any other field one row.
pub open spec fn slot_rows(st: EditFormState, i: int, ch: int, cw: int) -> int {
    let f = st.form.fields@[i];
    match f.kind {
        FieldKind::Textarea { rows, .. } => min(
            max(
                max(rows as int, 1),
                max(min(rows_of(st.value(f.id@), Some(sat_sub(cw, 2) as u16)).len() as int, u16::MAX as int), 1),
            ),
            max(window_rows(ch), 1),
        ),
        FieldKind::SubForm { .. } => (1 + max(crate::tui::form_textarea::item_count(st, f.id@), 1)) % 65536,
        _ => 1,
    }
}

/// The box of field `i`: its content rows and two borders.
pub open spec fn box_rows(st: EditFormState, i: int, ch: int, cw: int) -> int {
    sat16(slot_rows(st, i, ch, cw), 2)
}

/// The height of the fields from `i` on, laid out from virtual row `y`:
/// each shown field takes a label row, its box and a blank row.
pub open spec fn layout_total(st: EditFormState, i: int, y: int, ch: int, cw: int) -> int
    decreases st.form.fields@.len() - i,
{
    if i < 0 || i >= st.form.fields@.len() {
        y
    } else if !crate::tui::editform::shows(st.vals(), st.form.fields@[i]) {
        layout_total(st, i + 1, y, ch, cw)
    } else {
        layout_total(st, i + 1, sat16(y, sat16(sat16(1, box_rows(st, i, ch, cw)), 1)), ch, cw)
    }
}

/// The label cell of a field whose label is at virtual row `y`, when it is
/// on screen.
pub open spec fn label_cell(i: int, y: int, scroll: int, cr: Rect) -> Seq<(usize, Rect)> {
    let ls = y - scroll;
    if 0 <= ls < cr.height {
        seq![(i as usize, Rect { x: cr.x, y: (cr.y + ls) as u16, width: cr.width, height: 1 })]
    } else {
        Seq::empty()
    }
}

/// The `[Expand]` cell of a text area's label, at the right end of the row,
/// when the label is on screen and the row is wide enough.
pub open spec fn expand_cell(st: EditFormState, i: int, y: int, scroll: int, cr: Rect) -> Seq<(usize, Rect)> {
    let ls = y - scroll;
    if 0 <= ls < cr.height && st.form.fields@[i].kind is Textarea && cr.width > 10 {
        seq![(i as usize, Rect { x: sat16(cr.x as int, cr.width - 8) as u16, y: (cr.y + ls) as u16, width: 8, height: 1 })]
    } else {
        Seq::empty()
    }
}

/// The click area of a field's box whose top is at virtual row `y`: the
/// part on screen, when its top is on screen and at least three rows show.
pub open spec fn box_cell(i: int, y: int, h: int, scroll: int, cr: Rect) -> Seq<(Rect, usize)> {
    let bt = y - scroll;
    let vh = min(h, cr.height - bt);
    if 0 <= bt < cr.height && vh >= 3 {
        seq![(Rect { x: cr.x, y: (cr.y + bt) as u16, width: cr.width, height: vh as u16 }, i as usize)]
    } else {
        Seq::empty()
    }
}

/// The label, expand and box cells of the fields from `i` on, laid out from
/// virtual row `y` and shown from row `scroll` in the content area `cr`.
pub open spec fn layout_cells(st: EditFormState, i: int, y: int, scroll: int, cr: Rect) -> (
    Seq<(usize, Rect)>,
    Seq<(usize, Rect)>,
    Seq<(Rect, usize)>,
)
    decreases st.form.fields@.len() - i,
{
    if i < 0 || i >= st.form.fields@.len() {
        (Seq::empty(), Seq::empty(), Seq::empty())
    } else if !crate::tui::editform::shows(st.vals(), st.form.fields@[i]) {
        layout_cells(st, i + 1, y, scroll, cr)
    } else {
        let h = box_rows(st, i, cr.height as int, cr.width as int);
        let rest = layout_cells(st, i + 1, sat16(y, sat16(sat16(1, h), 1)), scroll, cr);
        (
            label_cell(i, y, scroll, cr) + rest.0,
            expand_cell(st, i, y, scroll, cr) + rest.1,
            box_cell(i, sat16(y, 1), h, scroll, cr) + rest.2,
        )
    }
}

/// The layout of the form in the window's inner area `inner`, asked to
/// scroll by `scroll_offset`: under a help row and a blank row, a content
/// area one column narrower than `inner` (the last column holds the scroll
/// bar); the scroll is kept within what the fields need. Nothing is laid
/// out in an area under four rows or six columns.
pub open spec fn form_layout_of(st: EditFormState, inner: Rect, scroll_offset: u16) -> LayoutView {
    if inner.height < 4 || inner.width < 6 {
        LayoutView {
            scroll: 0,
            total_height: 0,
            labels: Seq::empty(),
            checkboxes: Seq::empty(),
            expands: Seq::empty(),
            textareas: Seq::empty(),
            fields: Seq::empty(),
            thumb: None,
        }
    } else {
        let ch = inner.height - 2;
        let cr = Rect { x: inner.x, y: (inner.y + 2) as u16, width: (inner.width - 1) as u16, height: ch as u16 };
        let total = layout_total(st, 0, 0, ch, cr.width as int);
        let scroll = min(scroll_offset as int, sat_sub(total, ch));
        let cells = layout_cells(st, 0, 0, scroll, cr);
        LayoutView {
            scroll,
            total_height: total,
            labels: cells.0,
            checkboxes: Seq::empty(),
            expands: cells.1,
            textareas: Seq::empty(),
            fields: cells.2,
            thumb: crate::tui::form_textarea::scroll_thumb(ch as nat, scroll as nat, ch as nat, total as nat),
        }
    }
}

fn slot_rows_exec(st: &EditFormState, i: usize, ch: u16, cw: u16) -> (r: u16)
    requires
        i < st.form.fields@.len(),
    ensures
        r == slot_rows(*st, i as int, ch as int, cw as int),
{
    let field = &st.form.fields[i];
    match &field.kind {
        FieldKind::Textarea { rows, .. } => {
            let base = if *rows < 1 {
                1
            } else {
                *rows
            };
            crate::tui::form_textarea::textarea_display_rows(
                st.get(field.id),
                base,
                Some(cw.saturating_sub(2)),
                crate::tui::form_textarea::textarea_max_rows_for_window(ch),
            )
        },
        FieldKind::SubForm { .. } => {
            let n: usize = match st.sub_items(field.id) {
                Some(v) => v.len(),
                None => 0,
            };
            let m: u128 = if n < 1 {
                1
            } else {
                n as u128
            };
            ((1 + m) % 65536) as u16
        },
        _ => 1,
    }
}

fn sat_add(a: u16, b: u16) -> (r: u16)
    ensures
        r == sat16(a as int, b as int),
{
    a.saturating_add(b)
}

/// The layout of the form window (see [`form_layout_of`]); the click areas
/// it gives are the ones [`handle_form_edit_mouse`] reads.
pub fn form_edit_layout(state: &EditFormState, inner: Rect, scroll_offset: u16) -> (r: FormLayout)
    requires
        inner.x + inner.width <= u16::MAX,
        inner.y + inner.height <= u16::MAX,
    ensures
        layout_view(r) == form_layout_of(*state, inner, scroll_offset),
{
    let mut hits = FormHits { checkboxes: Vec::new(), expands: Vec::new(), textareas: Vec::new(), fields: Vec::new() };
    let mut labels: Vec<(usize, Rect)> = Vec::new();
    if inner.height < 4 || inner.width < 6 {
        let r = FormLayout { scroll: 0, total_height: 0, labels, hits, thumb: None };
        assert(layout_view(r) =~~= form_layout_of(*state, inner, scroll_offset));
        return r;
    }
    let ch = inner.height - 2;
    let cr = Rect { x: inner.x, y: inner.y + 2, width: inner.width - 1, height: ch };
    let n = state.form.fields.len();
    let mut y: u16 = 0;
    let mut i: usize = 0;
    while i < n
        invariant
            n == state.form.fields@.len(),
            i <= n,
            layout_total(*state, 0, 0, ch as int, cr.width as int) == layout_total(*state, i as int, y as int, ch as int, cr.width as int),
        decreases n - i,
    {
        if state.field_visible(&state.form.fields[i]) {
            let h = sat_add(slot_rows_exec(state, i, ch, cr.width), 2);
            y = sat_add(y, sat_add(sat_add(1, h), 1));
        }
        i += 1;
    }
    let total = y;
    let max_scroll = total.saturating_sub(ch);
    let scroll = if scroll_offset < max_scroll {
        scroll_offset
    } else {
        max_scroll
    };
    let ghost full = layout_cells(*state, 0, 0, scroll as int, cr);
    let mut y: u16 = 0;
    let mut i: usize = 0;
    while i < n
        invariant
            n == state.form.fields@.len(),
            i <= n,
            cr.y as int + cr.height as int <= u16::MAX,
            cr.x as int + cr.width as int <= u16::MAX,
            cr.height == ch,
            full == layout_cells(*state, 0, 0, scroll as int, cr),
            labels@ + layout_cells(*state, i as int, y as int, scroll as int, cr).0 == full.0,
            hits.expands@ + layout_cells(*state, i as int, y as int, scroll as int, cr).1 == full.1,
            hits.fields@ + layout_cells(*state, i as int, y as int, scroll as int, cr).2 == full.2,
            hits.checkboxes@.len() == 0,
            hits.textareas@.len() == 0,
        decreases n - i,
    {
        if state.field_visible(&state.form.fields[i]) {
            let h = sat_add(slot_rows_exec(state, i, ch, cr.width), 2);
            let ghost rest = layout_cells(*state, i + 1, sat16(y as int, sat16(sat16(1, h as int), 1)), scroll as int, cr);
            let ghost lc = label_cell(i as int, y as int, scroll as int, cr);
            let ghost ec = expand_cell(*state, i as int, y as int, scroll as int, cr);
            let ghost bc = box_cell(i as int, sat16(y as int, 1), h as int, scroll as int, cr);
            let ghost l0 = labels@;
            let ghost e0 = hits.expands@;
            let ghost f0 = hits.fields@;
            if y >= scroll && y - scroll < ch {
                let ls = y - scroll;
                labels.push((i, Rect { x: cr.x, y: cr.y + ls, width: cr.width, height: 1 }));
                if matches!(state.form.fields[i].kind, FieldKind::Textarea { .. }) && cr.width > 10 {
                    hits.expands.push((i, Rect { x: cr.x.saturating_add(cr.width - 8), y: cr.y + ls, width: 8, height: 1 }));
                }
            }
            let by = sat_add(y, 1);
            if by >= scroll && by - scroll < ch {
                let bt = by - scroll;
                let room = ch - bt;
                let vh = if h < room {
                    h
                } else {
                    room
                };
                if vh >= 3 {
                    hits.fields.push((Rect { x: cr.x, y: cr.y + bt, width: cr.width, height: vh }, i));
                }
            }
            proof {
                assert(labels@ =~= l0 + lc);
                assert(hits.expands@ =~= e0 + ec);
                assert(hits.fields@ =~= f0 + bc);
                assert(l0 + lc + rest.0 =~= l0 + (lc + rest.0));
                assert(e0 + ec + rest.1 =~= e0 + (ec + rest.1));
                assert(f0 + bc + rest.2 =~= f0 + (bc + rest.2));
            }
            y = sat_add(y, sat_add(sat_add(1, h), 1));
        }
        i += 1;
    }
    proof {
        assert(labels@ + Seq::<(usize, Rect)>::empty() =~= labels@);
        assert(hits.expands@ + Seq::<(usize, Rect)>::empty() =~= hits.expands@);
        assert(hits.fields@ + Seq::<(Rect, usize)>::empty() =~= hits.fields@);
    }
    let thumb = crate::tui::form_textarea::textarea_scrollbar_thumb(ch, scroll as usize, ch as usize, total as usize);
    let r = FormLayout { scroll, total_height: total, labels, hits, thumb };
    let ghost want = form_layout_of(*state, inner, scroll_offset);
    assert(want.total_height == total);
    assert(want.scroll == scroll);
    assert(want.labels == r.labels@);
    assert(want.expands == r.hits.expands@);
    assert(want.fields == r.hits.fields@);
    assert(want.thumb == layout_view(r).thumb);
    assert(want.checkboxes =~= r.hits.checkboxes@);
    assert(want.textareas =~= r.hits.textareas@);
    assert(layout_view(r) == want);
    r
}

// ---------------------------------------------------------------------------
// What a field shows
// ---------------------------------------------------------------------------

/// What a field's box shows: its text (rows joined by `\n`), whether that
/// text is the placeholder, whether an enum value is not among its options,
/// the cursor cell (column and row inside the box, and the character drawn
/// there) when the field is focused, and whether a text area keeps its last
/// column for a scroll bar.
pub struct FieldDisplay {
    pub text: String,
    pub placeholder_shown: bool,
    pub invalid_enum: bool,
    pub cursor: Option<(u16, u16, char)>,
    pub scrollbar: bool,
}

pub struct DisplayView {
    pub text: Seq<char>,
    pub placeholder_shown: bool,
    pub invalid_enum: bool,
    pub cursor: Option<(u16, u16, char)>,
    pub scrollbar: bool,
}

pub open spec fn display_view(d: FieldDisplay) -> DisplayView {
    DisplayView {
        text: d.text@,
        placeholder_shown: d.placeholder_shown,
        invalid_enum: d.invalid_enum,
        cursor: d.cursor,
        scrollbar: d.scrollbar,
    }
}

/// The character at `i`, or a space past the end (or on a line break, when
/// `breaks` is set).
pub open spec fn char_or_space(v: Seq<char>, i: int, breaks: bool) -> char {
    if 0 <= i < v.len() && !(breaks && v[i] == '\n') {
        v[i]
    } else {
        ' '
    }
}

/// How a sub-form item is summed up: its summary field, or `(untitled)`
/// when that is blank.
pub open spec fn item_summary(item: EditFormState, summary_id: Seq<char>) -> Seq<char> {
    let v = item.value(summary_id);
    if crate::text::is_blank(v) {
        "(untitled)"@
    } else {
        v
    }
}

/// The line of item `i`: its number and summary, marked `>` when it is the
/// selected item of a focused list.
pub open spec fn item_line(items: Seq<EditFormState>, i: int, marked: bool, summary_id: Seq<char>) -> Seq<char> {
    "  "@ + (if marked {
        ">"@
    } else {
        " "@
    }) + " "@ + crate::text::decimal((i + 1) as nat) + ". "@ + item_summary(items[i], summary_id)
}

/// A sub-form list: how many items and the keys, then a hint when it is
/// empty or one line per item.
pub open spec fn list_lines(items: Seq<EditFormState>, sel: usize, focused: bool, summary_id: Seq<char>) -> Seq<Seq<char>> {
    seq![crate::text::decimal(items.len()) + " item(s) \u{2014} A add \u{b7} X remove \u{b7} Enter edit"@] + if items.len()
        == 0 {
        seq!["  (no items; press A to add)"@]
    } else {
        Seq::new(items.len(), |i: int| item_line(items, i, focused && i == sel, summary_id))
    }
}

/// What field `f` shows in a box `width` by `height` cells (see
/// [`FieldDisplay`]).
pub open spec fn field_display_of(
    f: crate::tui::editform::forms::FieldView,
    st: EditFormState,
    cursor_pos: int,
    focused: bool,
    width: int,
    height: int,
) -> DisplayView {
    let v = st.value(f.id);
    let none = DisplayView { text: Seq::empty(), placeholder_shown: false, invalid_enum: false, cursor: None, scrollbar: false };
    match f.kind {
        crate::tui::editform::forms::KindV::Text { .. } | crate::tui::editform::forms::KindV::Url { .. } => {
            let col = (min(cursor_pos, v.len() as int)) as u16;
            DisplayView {
                text: if v.len() == 0 {
                    match f.placeholder {
                        Some(p) => p,
                        None => Seq::empty(),
                    }
                } else {
                    v
                },
                placeholder_shown: v.len() == 0 && f.placeholder is Some,
                cursor: if focused && width > 0 && height > 0 && col < width {
                    Some((col, 0u16, char_or_space(v, cursor_pos, false)))
                } else {
                    None
                },
                ..none
            }
        },
        crate::tui::editform::forms::KindV::Textarea { .. } => {
            let wrap = textarea_wrap(v, width, height);
            let lines = rows_of(v, Some(wrap));
            let visible = max(height, 1);
            let start = crate::tui::form_textarea::window_start(lines, cursor_pos, focused, visible);
            let end = min(start + visible, lines.len() as int);
            let scroll = lines.len() > height;
            let tw = if scroll {
                sat_sub(width, 1)
            } else {
                width
            };
            let row = sat_sub(crate::tui::form_textarea::cursor_row(v, cursor_pos, Some(wrap)), start) as u16;
            let col = max(cursor_pos - lines[row_for(lines, cursor_pos)].start, 0) as u16;
            DisplayView {
                text: crate::text::join(crate::tui::form_textarea::window_rows(v, lines, start, end, visible), "\n"@),
                cursor: if focused && tw > 0 && height > 0 && row < height && col < tw {
                    Some((col, row, char_or_space(v, cursor_pos, true)))
                } else {
                    None
                },
                scrollbar: scroll,
                ..none
            }
        },
        crate::tui::editform::forms::KindV::Enum { options, .. } => DisplayView {
            text: "< "@ + v + " >"@,
            invalid_enum: !options.contains(v),
            ..none
        },
        crate::tui::editform::forms::KindV::SubForm { summary_field_id, .. } => DisplayView {
            text: crate::text::join(
                list_lines(items_of(st, f.id), selected_of(st, f.id), focused, summary_field_id),
                "\n"@,
            ),
            ..none
        },
        crate::tui::editform::forms::KindV::Checkboxes { .. } => none,
    }
}

/// The wrap width of a text area in a box `width` by `height`: the box's
/// width, less a column for the scroll bar when the rows do not fit.
pub open spec fn textarea_wrap(v: Seq<char>, width: int, height: int) -> u16 {
    let visible = max(height, 1);
    let full = max(width, 1);
    if rows_of(v, Some(full as u16)).len() > visible && width > 1 {
        max(full - 1, 1) as u16
    } else {
        full as u16
    }
}

fn char_at_or_space(v: &str, i: usize, breaks: bool) -> (r: char)
    ensures
        r == char_or_space(v@, i as int, breaks),
{
    let cs = crate::text::chars_of(v);
    if i < cs.len() {
        let c = cs[i];
        if breaks && c == '\n' {
            ' '
        } else {
            c
        }
    } else {
        ' '
    }
}

fn list_text(st: &EditFormState, id: &str, focused: bool, summary_id: &str) -> (r: String)
    requires
        st.wf(),
    ensures
        r@ == crate::text::join(list_lines(items_of(*st, id@), selected_of(*st, id@), focused, summary_id@), "\n"@),
{
    let sel = st.selected_sub_index(id);
    let empty: Vec<EditFormState> = Vec::new();
    let items: &Vec<EditFormState> = match st.sub_items(id) {
        Some(v) => v,
        None => &empty,
    };
    let ghost its = items_of(*st, id@);
    assert(items@ == its);
    let mut lines: Vec<String> = Vec::new();
    let mut head = crate::text::decimal_exec(items.len() as u64);
    push_str(&mut head, " item(s) \u{2014} A add \u{b7} X remove \u{b7} Enter edit");
    lines.push(head);
    if items.len() == 0 {
        lines.push(owned("  (no items; press A to add)"));
        assert(crate::text::views(lines@) =~= list_lines(its, sel, focused, summary_id@));
    } else {
        let mut i: usize = 0;
        while i < items.len()
            invariant
                i <= items@.len(),
                items@ == its,
                its.len() > 0,
                crate::text::views(lines@) == seq![crate::text::decimal(its.len()) + " item(s) \u{2014} A add \u{b7} X remove \u{b7} Enter edit"@]
                    + Seq::new(i as nat, |k: int| item_line(its, k, focused && k == sel, summary_id@)),
            decreases items@.len() - i,
        {
            let item = &items[i];
            let v = item.get(summary_id);
            let summary = if crate::text::blank(v) {
                owned("(untitled)")
            } else {
                owned(v)
            };
            let mut line = owned("  ");
            if focused && i == sel {
                push_str(&mut line, ">");
            } else {
                push_str(&mut line, " ");
            }
            push_str(&mut line, " ");
            let num = crate::text::decimal_exec((i + 1) as u64);
            push_str(&mut line, num.as_str());
            push_str(&mut line, ". ");
            push_str(&mut line, summary.as_str());
            let ghost before = crate::text::views(lines@);
            lines.push(line);
            proof {
                assert(crate::text::views(lines@) =~= before.push(item_line(its, i as int, focused && i == sel, summary_id@)));
                assert(Seq::new((i + 1) as nat, |k: int| item_line(its, k, focused && k == sel, summary_id@)) =~= Seq::new(
                    i as nat,
                    |k: int| item_line(its, k, focused && k == sel, summary_id@),
                ).push(item_line(its, i as int, focused && i == sel, summary_id@)));
            }
            i += 1;
        }
        assert(crate::text::views(lines@) =~= list_lines(its, sel, focused, summary_id@));
    }
    crate::text::join_exec(&lines, "\n")
}

/// What a field shows in a box `width` by `height` (see [`field_display_of`]).
pub fn field_display(
    field: &FormField,
    state: &EditFormState,
    cursor_pos: usize,
    focused: bool,
    width: u16,
    height: u16,
) -> (r: FieldDisplay)
    requires
        state.wf(),
        state.value(field.id@).len() + 65537 <= usize::MAX,
    ensures
        display_view(r) == field_display_of(
            crate::tui::editform::forms::field_view(*field),
            *state,
            cursor_pos as int,
            focused,
            width as int,
            height as int,
        ),
{
    let v = state.get(field.id);
    let none = FieldDisplay { text: String::new(), placeholder_shown: false, invalid_enum: false, cursor: None, scrollbar: false };
    proof {
        reveal_strlit("");
    }
    match &field.kind {
        FieldKind::Text { .. } | FieldKind::Url { .. } => {
            let len = v.unicode_len();
            let col: u16 = (if cursor_pos < len {
                cursor_pos
            } else {
                len
            }) as u16;
            let text = if len == 0 {
                match field.placeholder {
                    Some(p) => owned(p),
                    None => String::new(),
                }
            } else {
                owned(v)
            };
            let cursor = if focused && width > 0 && height > 0 && col < width {
                Some((col, 0u16, char_at_or_space(v, cursor_pos, false)))
            } else {
                None
            };
            FieldDisplay { text, placeholder_shown: len == 0 && field.placeholder.is_some(), invalid_enum: false, cursor, scrollbar: false }
        },
        FieldKind::Textarea { .. } => {
            let (wrap, _) = crate::tui::form_textarea::textarea_wrap_for_rect(v, Rect { x: 0, y: 0, width, height });
            let (display, first, total) = crate::tui::form_textarea::render_textarea_display_window(
                v,
                cursor_pos,
                focused,
                height as usize,
                Some(wrap),
            );
            let scroll = total > height as usize;
            let tw: u16 = if scroll {
                width.saturating_sub(1)
            } else {
                width
            };
            let row = crate::tui::form_textarea::textarea_cursor_row(v, cursor_pos, Some(wrap)).saturating_sub(first) as u16;
            let col = crate::tui::form_textarea::textarea_cursor_col(v, cursor_pos, Some(wrap)) as u16;
            let cursor = if focused && tw > 0 && height > 0 && row < height && col < tw {
                Some((col, row, char_at_or_space(v, cursor_pos, true)))
            } else {
                None
            };
            FieldDisplay { text: display, placeholder_shown: false, invalid_enum: false, cursor, scrollbar: scroll }
        },
        FieldKind::Enum { options, .. } => {
            let text = crate::text::cat3("< ", v, " >");
            let mut found = false;
            let mut i: usize = 0;
            while i < options.len()
                invariant
                    i <= options@.len(),
                    found <==> crate::tui::editform::strs(options@).take(i as int).contains(v@),
                decreases options@.len() - i,
            {
                let ghost before = crate::tui::editform::strs(options@).take(i as int);
                if crate::text::eq_str(options[i], v) {
                    found = true;
                }
                proof {
                    let now = crate::tui::editform::strs(options@).take(i + 1);
                    assert(now =~= before.push(options@[i as int]@));
                    if before.contains(v@) {
                        let k = choose|k: int| 0 <= k < before.len() && before[k] == v@;
                        assert(now[k] == v@);
                    }
                    if now.contains(v@) && !(options@[i as int]@ == v@) {
                        let k = choose|k: int| 0 <= k < now.len() && now[k] == v@;
                        assert(k < before.len());
                        assert(before[k] == v@);
                    }
                    if options@[i as int]@ == v@ {
                        assert(now[i as int] == v@);
                    }
                }
                i += 1;
            }
            assert(crate::tui::editform::strs(options@).take(options@.len() as int) =~= crate::tui::editform::strs(options@));
            FieldDisplay { text, placeholder_shown: false, invalid_enum: !found, cursor: None, scrollbar: false }
        },
        FieldKind::SubForm { summary_field_id, .. } => {
            let text = list_text(state, field.id, focused, summary_field_id);
            FieldDisplay { text, placeholder_shown: false, invalid_enum: false, cursor: None, scrollbar: false }
        },
        FieldKind::Checkboxes { .. } => none,
    }
}

/// The key help shown above the form: the text-area keys when a text area
/// is focused, else the enum keys.
pub open spec fn help_line_of(st: EditFormState) -> Seq<char> {
    if st.focused_field < st.form.fields@.len() && st.form.fields@[st.focused_field as int].kind is Textarea {
        "Tab/Up/Down: navigate  |  Ctrl+E: expand  |  Ctrl+S: save  |  Esc: cancel"@
    } else {
        "Tab/Up/Down: navigate  |  \u{2190}/\u{2192}: cycle enum  |  Ctrl+S: save  |  Esc: cancel"@
    }
}

/// The key help shown above the form (see [`help_line_of`]).
pub fn form_help_line(state: &EditFormState) -> (r: &'static str)
    ensures
        r@ == help_line_of(*state),
{
    if state.focused_field < state.form.fields.len() && matches!(
        state.form.fields[state.focused_field].kind,
        FieldKind::Textarea { .. }
    ) {
        "Tab/Up/Down: navigate  |  Ctrl+E: expand  |  Ctrl+S: save  |  Esc: cancel"
    } else {
        "Tab/Up/Down: navigate  |  \u{2190}/\u{2192}: cycle enum  |  Ctrl+S: save  |  Esc: cancel"
    }
}

// ---------------------------------------------------------------------------
// Laws
// ---------------------------------------------------------------------------

pub open spec fn key(code: KeyCode, ctrl: bool) -> Key {
    Key { code, ctrl }
}

/// On a focused textarea, Ctrl+E then Esc gives the form back as it was:
/// expanding and shrinking touch nothing else, and the template is left
/// alone.
pub proof fn law_expand_then_escape_restores(
    o: FormSession,
    n1: FormSession,
    n2: FormSession,
    hits: Seq<TextareaHit>,
    t0: Option<Template>,
    t1: Option<Template>,
    t2: Option<Template>,
    r1: FormReply,
    r2: FormReply,
)
    requires
        o.state.focused_field < o.state.form.fields@.len(),
        o.state.form.fields@[o.state.focused_field as int].kind is Textarea,
        !o.expanded,
        form_event(o, n1, key(KeyCode::Char('e'), true), hits, t0, t1, r1),
        form_event(n1, n2, key(KeyCode::Esc, false), hits, t1, t2, r2),
    ensures
        n1.expanded,
        n2 == o,
        t2 == t0,
        r2.result is Continue,
{
}

/// Editing a sub-form item and saving it at once puts the parent back as it
/// was: every list holds its items again, values and selections are kept,
/// and the text cursor and scroll come back.
pub proof fn law_drill_then_save_restores_lists(
    o: FormSession,
    n1: FormSession,
    n2: FormSession,
    hits: Seq<TextareaHit>,
    t0: Option<Template>,
    t1: Option<Template>,
    t2: Option<Template>,
    r1: FormReply,
    r2: FormReply,
)
    requires
        o.state.focused_field < o.state.form.fields@.len(),
        o.state.form.fields@[o.state.focused_field as int].kind is SubForm,
        selected_of(o.state, focused_field_id(o.state)) < items_of(o.state, focused_field_id(o.state)).len(),
        form_event(o, n1, key(KeyCode::Enter, false), hits, t0, t1, r1),
        form_event(n1, n2, key(KeyCode::Char('s'), true), hits, t1, t2, r2),
    ensures
        n1.drill_stack@.len() == o.drill_stack@.len() + 1,
        forall|k: Seq<char>| #[trigger] assoc(n2.state.subs(), k) == assoc(o.state.subs(), k),
        n2.state.values == o.state.values,
        n2.state.selected_sub_item == o.state.selected_sub_item,
        n2.state.form == o.state.form,
        n2.state.focused_field == o.state.focused_field,
        n2.cursor == o.cursor,
        n2.cursor_pos == o.cursor_pos,
        n2.scroll_offset == o.scroll_offset,
        n2.drill_stack@ == o.drill_stack@,
        t2 == t0,
        r2.result is Continue,
{
    let id = focused_field_id(o.state);
    let items = items_of(o.state, id);
    let sel = selected_of(o.state, id);
    let fr = n1.drill_stack@.last();
    let p = fr.parent_state;
    assert(n1.drill_stack@.drop_last() =~= o.drill_stack@);
    assert(items_of(p, id).update(sel as int, n1.state) =~= items);
    assert(assoc(o.state.subs(), id) == Some(items));
}

/// Adding an item to a sub-form list and removing it at once gives the list
/// back, when the list had at least its least number of items.
pub proof fn law_add_then_remove_restores_list(
    o: FormSession,
    n1: FormSession,
    n2: FormSession,
    hits: Seq<TextareaHit>,
    t0: Option<Template>,
    t1: Option<Template>,
    t2: Option<Template>,
    r1: FormReply,
    r2: FormReply,
)
    requires
        o.state.focused_field < o.state.form.fields@.len(),
        o.state.form.fields@[o.state.focused_field as int].kind is SubForm,
        items_of(o.state, focused_field_id(o.state)).len()
            >= o.state.form.fields@[o.state.focused_field as int].kind->SubForm_min_items,
        items_of(o.state, focused_field_id(o.state)).len() < usize::MAX,
        form_event(o, n1, key(KeyCode::Char('A'), false), hits, t0, t1, r1),
        form_event(n1, n2, key(KeyCode::Char('X'), false), hits, t1, t2, r2),
    ensures
        items_of(n2.state, focused_field_id(o.state)) == items_of(o.state, focused_field_id(o.state)),
        forall|k: Seq<char>| k != focused_field_id(o.state) ==> #[trigger] assoc(n2.state.subs(), k) == assoc(o.state.subs(), k),
        n2.state.values == o.state.values,
        n2.state.form == o.state.form,
        n2.state.focused_field == o.state.focused_field,
        t2 == t0,
{
    let id = focused_field_id(o.state);
    let items = items_of(o.state, id);
    let at = insert_at(items.len() as int, selected_of(o.state, id));
    let x = items_of(n1.state, id)[at];
    assert(item_added(o, n1, r1, id));
    assert(n1.state.form == o.state.form && n1.state.focused_field == o.state.focused_field);
    assert(focused_field_id(n1.state) == id);
    let items1 = items_of(n1.state, id);
    assert(items1 == items.insert(at, x));
    assert(selected_of(n1.state, id) == at);
    assert(items1.len() > o.state.form.fields@[o.state.focused_field as int].kind->SubForm_min_items);
    assert(item_removed(n1, n2, r2, id, o.state.form.fields@[o.state.focused_field as int].kind->SubForm_min_items));
    assert(items1.remove(at) =~= items);
}

proof fn lemma_shown_increasing(vals: Seq<(Seq<char>, Seq<char>)>, fields: Seq<FormField>, n: int)
    requires
        0 <= n <= fields.len(),
        fields.len() <= usize::MAX,
    ensures
        forall|i: int, j: int|
            0 <= i < j < crate::tui::editform::shown_upto(vals, fields, n).len() ==> crate::tui::editform::shown_upto(
                vals,
                fields,
                n,
            )[i] < crate::tui::editform::shown_upto(vals, fields, n)[j],
        forall|k: int|
            0 <= k < n ==> (crate::tui::editform::shown_upto(vals, fields, n).contains(k as usize)
                <==> crate::tui::editform::shows(vals, fields[k])),
    decreases n,
{
    if n > 0 {
        lemma_shown_increasing(vals, fields, n - 1);
        lemma_shown_below(vals, fields, n - 1);
        let rest = crate::tui::editform::shown_upto(vals, fields, n - 1);
        let all = crate::tui::editform::shown_upto(vals, fields, n);
        assert forall|i: int, j: int| 0 <= i < j < all.len() implies all[i] < all[j] by {
            assert(all[i] == rest[i]);
            if j < rest.len() {
                assert(all[j] == rest[j]);
            } else {
                assert(rest[i] < n - 1);
            }
        }
        assert forall|k: int| 0 <= k < n implies (all.contains(k as usize) <==> crate::tui::editform::shows(vals, fields[k])) by {
            if k < n - 1 {
                if all.contains(k as usize) {
                    let w = choose|w: int| 0 <= w < all.len() && all[w] == k as usize;
                    if w < rest.len() {
                        assert(rest[w] == all[w]);
                    }
                }
                if rest.contains(k as usize) {
                    let w = choose|w: int| 0 <= w < rest.len() && rest[w] == k as usize;
                    assert(all[w] == rest[w]);
                }
            } else {
                if crate::tui::editform::shows(vals, fields[k]) {
                    assert(all[all.len() - 1] == k as usize);
                } else if all.contains(k as usize) {
                    let w = choose|w: int| 0 <= w < all.len() && all[w] == k as usize;
                    assert(all[w] == rest[w]);
                }
            }
        }
    }
}

/// The shown fields of a form come in form order, each once: their indices
/// strictly increase, and an index is among them exactly when its field
/// shows.
pub proof fn law_shown_fields_increase(s: EditFormState)
    requires
        s.form.fields@.len() <= usize::MAX,
    ensures
        forall|i: int, j: int| 0 <= i < j < s.shown().len() ==> s.shown()[i] < s.shown()[j],
        forall|k: int|
            0 <= k < s.form.fields@.len() ==> (s.shown().contains(k as usize) <==> crate::tui::editform::shows(
                s.vals(),
                s.form.fields@[k],
            )),
{
    lemma_shown_increasing(s.vals(), s.form.fields@, s.form.fields@.len() as int);
}

/// Moving the focus to the next shown field and then back to the previous
/// one returns to the field it started on (and back then next as well),
/// when that field is shown.
pub proof fn law_focus_next_then_prev(s: EditFormState)
    requires
        s.form.fields@.len() <= usize::MAX,
        s.shown().contains(s.focused_field),
    ensures
        focus_step(focus_step(s, true), false).focused_field == s.focused_field,
        focus_step(focus_step(s, false), true).focused_field == s.focused_field,
{
    let sh = s.shown();
    lemma_shown_increasing(s.vals(), s.form.fields@, s.form.fields@.len() as int);
    crate::tui::editform::lemma_position_of(sh, s.focused_field);
    let p = position_of(sh, s.focused_field)->0;
    let n = sh.len() as int;
    let nx = (p + 1) % n;
    let pv = if p == 0 { n - 1 } else { p - 1 };
    assert(focus_step(s, true).focused_field == sh[nx]);
    assert(focus_step(s, false).focused_field == sh[pv]);
    assert forall|a: int, b: int| 0 <= a < n && 0 <= b < n && a != b implies sh[a] != sh[b] by {
        if a < b {
            assert(sh[a] < sh[b]);
        } else {
            assert(sh[b] < sh[a]);
        }
    }
    crate::tui::editform::lemma_position_at(sh, sh[nx], nx);
    crate::tui::editform::lemma_position_at(sh, sh[pv], pv);
    assert(focus_step(s, true).shown() == sh);
    assert(focus_step(s, false).shown() == sh);
    assert(0 <= p < n);
    if p + 1 < n {
        assert(nx == p + 1) by (nonlinear_arith)
            requires
                0 <= p + 1 < n,
                nx == (p + 1) % n,
        ;
    } else {
        assert(nx == 0) by (nonlinear_arith)
            requires
                p + 1 == n,
                n > 0,
                nx == (p + 1) % n,
        ;
    }
    if p == 0 {
        assert((pv + 1) % n == 0) by (nonlinear_arith)
            requires
                pv + 1 == n,
                n > 0,
        ;
    } else {
        assert((pv + 1) % n == p) by (nonlinear_arith)
            requires
                pv + 1 == p,
                0 < p < n,
        ;
    }
    assert(sh[p] == s.focused_field);
    assert(focus_step(focus_step(s, true), false).focused_field == sh[p]);
    assert(focus_step(focus_step(s, false), true).focused_field == sh[p]);
}

} // verus!
