use dd_emailforge::model::{BodyNode, ColumnChild, MjColumn, MjSection, MjText, SectionChild, Template};
use dd_emailforge::tui::editform::Rect;
use dd_emailforge::tui::form_session::{
    field_display, form_edit_layout, form_help_line, handle_form_edit_event, handle_form_edit_mouse, FormHits, FormReply, FormSession, Key, KeyCode,
    ModalResult, Mouse, MouseKind, ToastLevel,
};
use dd_emailforge::tui::form_textarea::TextareaHit;
use dd_emailforge::tui::nav::{TreeEnter, TreeNav};
use dd_emailforge::tui::tree::build_tree;

/// An open form with the template it edits, and the last reply.
struct Open {
    session: FormSession,
    template: Option<Template>,
    hits: Vec<TextareaHit>,
    closed: bool,
    last: Option<FormReply>,
}

fn open_row(t: Template, row: usize) -> Open {
    let nav = TreeNav { selected_row: row, collapsed: Vec::new() };
    match nav.tree_enter(Some(&t)) {
        TreeEnter::Edit { cursor, state, cursor_pos } => Open {
            session: FormSession {
                state,
                cursor,
                cursor_pos,
                drill_stack: Vec::new(),
                scroll_offset: 0,
                expanded: false,
            },
            template: Some(t),
            hits: Vec::new(),
            closed: false,
            last: None,
        },
        _ => panic!("expected a form"),
    }
}

fn row_of(t: &Template, part: &str) -> usize {
    build_tree(Some(t), &Vec::new())
        .iter()
        .position(|r| r.label.contains(part))
        .expect("row")
}

fn send(o: &mut Open, code: KeyCode, ctrl: bool) {
    assert!(!o.closed, "form already closed");
    let r = handle_form_edit_event(&mut o.session, &Key { code, ctrl }, &o.hits, &mut o.template);
    if !matches!(r.result, ModalResult::Continue) {
        o.closed = true;
    }
    o.last = Some(r);
}

fn click(o: &mut Open, hits: &FormHits, column: u16, row: u16) {
    let r = handle_form_edit_mouse(&mut o.session, &Mouse { kind: MouseKind::LeftDown, column, row }, hits);
    assert!(matches!(r, ModalResult::Continue));
}

fn no_hits() -> FormHits {
    FormHits { checkboxes: Vec::new(), expands: Vec::new(), textareas: Vec::new(), fields: Vec::new() }
}

fn focused_id(o: &Open) -> Option<&'static str> {
    o.session.state.focused().map(|f| f.id)
}

fn one_column() -> Template {
    let mut t = Template::minimal();
    t.body.nodes.push(BodyNode::MjSection(MjSection {
        background_color: None,
        padding: None,
        full_width: false,
        children: vec![SectionChild::MjColumn(MjColumn {
            width: Some("100%".into()),
            background_color: None,
            padding: None,
            inner_background_color: None,
            components: Vec::new(),
            ..Default::default()
        })],
        ..Default::default()
    }));
    t
}

fn with_text() -> Template {
    let mut t = Template::minimal();
    t.body.nodes.push(BodyNode::MjSection(MjSection {
        children: vec![SectionChild::MjColumn(MjColumn {
            width: Some("100%".into()),
            components: vec![ColumnChild::MjText(MjText { content: "Hello".into(), ..Default::default() })],
            ..Default::default()
        })],
        ..Default::default()
    }));
    t
}

fn text_form() -> Open {
    let t = with_text();
    let row = row_of(&t, "mj-text");
    let o = open_row(t, row);
    assert_eq!(focused_id(&o), Some("content"));
    o
}

fn mj_text_content(o: &Open) -> String {
    let BodyNode::MjSection(s) = &o.template.as_ref().unwrap().body.nodes[0] else {
        panic!("expected mj-section");
    };
    let SectionChild::MjColumn(col) = &s.children[0] else {
        panic!("expected column");
    };
    match &col.components[0] {
        ColumnChild::MjText(t) => t.content.clone(),
        _ => panic!("expected mj-text"),
    }
}

fn toast(o: &Open) -> Option<(ToastLevel, String)> {
    o.last.as_ref().and_then(|r| r.toast.as_ref().map(|(l, m)| {
        let level = match l {
            ToastLevel::Success => ToastLevel::Success,
            ToastLevel::Info => ToastLevel::Info,
            ToastLevel::Warning => ToastLevel::Warning,
        };
        (level, m.clone())
    }))
}

#[test]
fn enter_opens_formedit() {
    let o = open_row(Template::minimal(), 0);
    assert_eq!(o.session.state.form.title, "mj-head");
}

#[test]
fn form_tab_moves_field() {
    let mut o = open_row(Template::minimal(), 0);
    assert_eq!(o.session.state.focused_field, 0);
    send(&mut o, KeyCode::Tab, false);
    assert_eq!(o.session.state.focused_field, 1);
    send(&mut o, KeyCode::BackTab, false);
    assert_eq!(o.session.state.focused_field, 0);
}

#[test]
fn form_enum_cycles_css_inline() {
    let mut o = open_row(Template::minimal(), 0);
    let idx = o.session.state.field_index("css_inline").expect("css_inline field");
    o.session.state.focused_field = idx;
    assert_eq!(o.session.state.get("css_inline"), "false");
    send(&mut o, KeyCode::Right, false);
    assert_eq!(o.session.state.get("css_inline"), "true");
    send(&mut o, KeyCode::Left, false);
    assert_eq!(o.session.state.get("css_inline"), "false");
}

#[test]
fn brand_edit_saves() {
    let mut o = open_row(Template::minimal(), 1);
    assert_eq!(o.session.state.form.title, "brand");
    o.session.state.set("font_family", "Raleway, Arial, sans-serif".to_string());
    send(&mut o, KeyCode::Char('s'), true);
    assert!(o.closed);
    assert!(matches!(o.last.as_ref().unwrap().result, ModalResult::CloseSuccess));
    assert_eq!(o.template.as_ref().unwrap().brand.font_family, "Raleway, Arial, sans-serif");
    let (level, msg) = toast(&o).expect("toast");
    assert!(matches!(level, ToastLevel::Success));
    assert_eq!(msg, "Saved brand.");
}

#[test]
fn add_google_font_row() {
    let mut o = open_row(Template::minimal(), 0);
    let idx = o.session.state.field_index("fonts").expect("fonts field");
    o.session.state.focused_field = idx;
    send(&mut o, KeyCode::Char('A'), false);
    let fonts = o.session.state.sub_items("fonts").expect("fonts collection");
    assert_eq!(fonts.len(), 1);
    assert_eq!(fonts[0].get("name"), "Raleway");
    assert!(fonts[0].get("href").contains("fonts.googleapis.com"));
    assert_eq!(toast(&o).unwrap().1, "Item added.");
}

#[test]
fn json_ld_textarea_accepts_input() {
    let mut o = open_row(Template::minimal(), 0);
    let idx = o.session.state.field_index("json_ld").expect("json_ld field");
    o.session.state.focused_field = idx;
    o.session.cursor_pos = 0;
    send(&mut o, KeyCode::Char('{'), false);
    send(&mut o, KeyCode::Char('}'), false);
    assert_eq!(o.session.state.get("json_ld"), "{}");
}

#[test]
fn form_save_normalizes_unitless_padding() {
    let t = one_column();
    let row = row_of(&t, "mj-column");
    let mut o = open_row(t, row);
    o.session.state.set("padding", "12 10 12 10".to_string());
    send(&mut o, KeyCode::Char('s'), true);
    assert!(o.closed);
    let BodyNode::MjSection(s) = &o.template.as_ref().unwrap().body.nodes[0] else {
        panic!("expected mj-section");
    };
    let SectionChild::MjColumn(col) = &s.children[0] else {
        panic!("expected column");
    };
    assert_eq!(col.padding.as_deref(), Some("12px 10px 12px 10px"));
}

#[test]
fn form_save_rejects_invalid_padding() {
    let t = one_column();
    let row = row_of(&t, "mj-column");
    let mut o = open_row(t, row);
    o.session.scroll_offset = 4;
    o.session.state.set("padding", "10em".to_string());
    send(&mut o, KeyCode::Char('s'), true);
    assert!(!o.closed);
    assert_eq!(o.session.scroll_offset, 0);
    let (level, msg) = toast(&o).expect("toast");
    assert!(matches!(level, ToastLevel::Warning));
    assert!(msg.starts_with("Save failed: "));
    assert!(msg.contains("padding"));
}

#[test]
fn section_label_saves_and_shows_in_tree() {
    let t = one_column();
    let row = row_of(&t, "mj-section");
    let mut o = open_row(t, row);
    assert_eq!(o.session.state.form.fields[0].id, "label");
    o.session.state.set("label", "footer".to_string());
    send(&mut o, KeyCode::Char('s'), true);
    assert!(o.closed);
    let t = o.template.as_ref().unwrap();
    match &t.body.nodes[0] {
        BodyNode::MjSection(s) => assert_eq!(s.label.as_deref(), Some("footer")),
        _ => panic!("expected section"),
    }
    let labels: Vec<String> = build_tree(Some(t), &Vec::new()).iter().map(|r| r.label.clone()).collect();
    assert!(labels.iter().any(|l| l.contains("mj-section  footer")), "{labels:?}");
}

#[test]
fn border_sides_checkboxes_toggle_and_save() {
    let t = one_column();
    let row = row_of(&t, "mj-section");
    let mut o = open_row(t, row);
    let field = o.session.state.field_index("border_sides").expect("border_sides field");
    o.session.state.focused_field = field;
    o.session.state.checkbox_cursor = 0;
    assert_eq!(o.session.state.get("border_sides"), "all");
    send(&mut o, KeyCode::Right, false);
    send(&mut o, KeyCode::Char(' '), false);
    assert_eq!(o.session.state.get("border_sides"), "top");
    send(&mut o, KeyCode::Right, false);
    send(&mut o, KeyCode::Right, false);
    send(&mut o, KeyCode::Char(' '), false);
    assert_eq!(o.session.state.get("border_sides"), "top,bottom");
    o.session.state.set("border", "1px solid #000".to_string());
    send(&mut o, KeyCode::Char('s'), true);
    assert!(o.closed);
    match &o.template.as_ref().unwrap().body.nodes[0] {
        BodyNode::MjSection(s) => {
            assert_eq!(s.border.as_deref(), Some("1px solid #000"));
            assert_eq!(s.border_sides.as_deref(), Some("top,bottom"));
        }
        _ => panic!("expected section"),
    }
}

#[test]
fn textarea_expand_ctrl_e_opens_and_esc_returns_to_form() {
    let mut o = text_form();
    send(&mut o, KeyCode::Char('e'), true);
    assert!(o.session.expanded);
    assert!(!o.closed);
    send(&mut o, KeyCode::Esc, false);
    assert!(!o.session.expanded);
    assert!(!o.closed);
    assert_eq!(focused_id(&o), Some("content"));
}

#[test]
fn textarea_expand_ctrl_e_on_non_textarea_is_noop() {
    let mut o = open_row(Template::minimal(), 0);
    assert_eq!(o.session.state.form.fields[0].id, "subject");
    send(&mut o, KeyCode::Char('e'), true);
    assert!(!o.session.expanded);
    assert!(!o.closed);
}

#[test]
fn textarea_expand_esc_from_form_still_closes() {
    let mut o = text_form();
    send(&mut o, KeyCode::Esc, false);
    assert!(o.closed);
    assert!(matches!(o.last.as_ref().unwrap().result, ModalResult::CloseCancel));
    assert!(!o.session.expanded);
}

#[test]
fn textarea_expand_edits_then_save_commits_copy() {
    let mut o = text_form();
    send(&mut o, KeyCode::Char('e'), true);
    assert!(o.session.expanded);
    send(&mut o, KeyCode::Char('Z'), false);
    send(&mut o, KeyCode::Esc, false);
    assert!(!o.session.expanded);
    assert!(o.session.state.get("content").ends_with('Z'));
    send(&mut o, KeyCode::Char('s'), true);
    assert!(o.closed);
    assert!(mj_text_content(&o).ends_with('Z'));
}

#[test]
fn textarea_expand_ctrl_s_saves_from_expanded_view() {
    let mut o = text_form();
    send(&mut o, KeyCode::Char('e'), true);
    send(&mut o, KeyCode::Char('Q'), false);
    send(&mut o, KeyCode::Char('s'), true);
    assert!(o.closed);
    assert!(!o.session.expanded);
    assert!(mj_text_content(&o).ends_with('Q'));
}

#[test]
fn textarea_expand_tab_does_not_leave_field() {
    let mut o = text_form();
    send(&mut o, KeyCode::Char('e'), true);
    send(&mut o, KeyCode::Tab, false);
    assert!(o.session.expanded);
    assert_eq!(focused_id(&o), Some("content"));
}

#[test]
fn textarea_expand_click_opens_from_hit_target() {
    let mut o = text_form();
    let copy_idx = o.session.state.field_index("content").expect("content field");
    let mut hits = no_hits();
    hits.expands.push((copy_idx, Rect { x: 40, y: 10, width: 8, height: 1 }));
    click(&mut o, &hits, 42, 10);
    assert!(o.session.expanded);
    assert_eq!(focused_id(&o), Some("content"));
}

#[test]
fn textarea_home_end_move_cursor() {
    let mut o = text_form();
    o.session.state.set("content", "hello\nworld".to_string());
    o.session.cursor_pos = 8;
    send(&mut o, KeyCode::Home, false);
    assert_eq!(o.session.cursor_pos, 6);
    send(&mut o, KeyCode::End, false);
    assert_eq!(o.session.cursor_pos, 11);
    send(&mut o, KeyCode::Home, true);
    assert_eq!(o.session.cursor_pos, 0);
    send(&mut o, KeyCode::End, true);
    assert_eq!(o.session.cursor_pos, 11);
}

#[test]
fn textarea_click_places_cursor() {
    let mut o = text_form();
    o.session.state.set("content", "abcdefghij".to_string());
    let field_idx = o.session.state.field_index("content").expect("content field");
    let mut hits = no_hits();
    hits.textareas.push(TextareaHit {
        rect: Rect { x: 10, y: 5, width: 20, height: 4 },
        field_idx,
        first_visible_row: 0,
        wrap_width: 20,
    });
    click(&mut o, &hits, 13, 5);
    assert_eq!(o.session.cursor_pos, 3);
}

#[test]
fn expanded_textarea_click_places_cursor() {
    let mut o = text_form();
    send(&mut o, KeyCode::Char('e'), true);
    assert!(o.session.expanded);
    o.session.state.set("content", "abcdefghij".to_string());
    let field_idx = o.session.state.field_index("content").expect("content field");
    let mut hits = no_hits();
    hits.textareas.push(TextareaHit {
        rect: Rect { x: 4, y: 4, width: 40, height: 10 },
        field_idx,
        first_visible_row: 0,
        wrap_width: 40,
    });
    click(&mut o, &hits, 6, 4);
    assert_eq!(o.session.cursor_pos, 2);
    assert!(o.session.expanded);
}

// Sub-form lists, drilling in and out.

fn fonts_form() -> Open {
    let mut o = open_row(Template::minimal(), 0);
    let idx = o.session.state.field_index("fonts").expect("fonts field");
    o.session.state.focused_field = idx;
    o
}

#[test]
fn list_add_two_then_remove_selected() {
    let mut o = fonts_form();
    send(&mut o, KeyCode::Char('A'), false);
    send(&mut o, KeyCode::Char('A'), false);
    assert_eq!(o.session.state.sub_items("fonts").unwrap().len(), 2);
    assert_eq!(o.session.state.selected_sub_index("fonts"), 1);
    send(&mut o, KeyCode::Char('X'), false);
    assert_eq!(o.session.state.sub_items("fonts").unwrap().len(), 1);
    assert_eq!(o.session.state.selected_sub_index("fonts"), 0);
    assert_eq!(toast(&o).unwrap().1, "Item removed.");
}

#[test]
fn list_remove_on_empty_list_warns() {
    let mut o = fonts_form();
    send(&mut o, KeyCode::Char('X'), false);
    let (level, msg) = toast(&o).expect("toast");
    assert!(matches!(level, ToastLevel::Warning));
    assert_eq!(msg, "Must keep at least 0 item(s).");
}

#[test]
fn list_up_down_select_then_leave() {
    let mut o = fonts_form();
    let idx = o.session.state.focused_field;
    send(&mut o, KeyCode::Char('A'), false);
    send(&mut o, KeyCode::Char('A'), false);
    send(&mut o, KeyCode::Up, false);
    assert_eq!(o.session.state.selected_sub_index("fonts"), 0);
    assert_eq!(o.session.state.focused_field, idx);
    send(&mut o, KeyCode::Char('j'), false);
    assert_eq!(o.session.state.selected_sub_index("fonts"), 1);
    send(&mut o, KeyCode::Down, false);
    assert_ne!(o.session.state.focused_field, idx);
}

#[test]
fn drill_edit_then_save_returns_item() {
    let mut o = fonts_form();
    send(&mut o, KeyCode::Char('A'), false);
    send(&mut o, KeyCode::Enter, false);
    assert_eq!(o.session.drill_stack.len(), 1);
    assert_eq!(toast(&o).unwrap().1, "Editing item. Ctrl+S returns to parent.");
    assert_eq!(o.session.state.get("name"), "Raleway");
    o.session.state.set("name", "Lato".to_string());
    send(&mut o, KeyCode::Char('s'), true);
    assert!(!o.closed);
    assert!(o.session.drill_stack.is_empty());
    assert_eq!(toast(&o).unwrap().1, "Item saved \u{2014} editing parent.");
    let fonts = o.session.state.sub_items("fonts").unwrap();
    assert_eq!(fonts.len(), 1);
    assert_eq!(fonts[0].get("name"), "Lato");
}

#[test]
fn drill_escape_drops_item_edits() {
    let mut o = fonts_form();
    send(&mut o, KeyCode::Char('A'), false);
    send(&mut o, KeyCode::Enter, false);
    o.session.state.set("name", "Lato".to_string());
    send(&mut o, KeyCode::Esc, false);
    assert!(!o.closed);
    assert!(o.session.drill_stack.is_empty());
    assert_eq!(toast(&o).unwrap().1, "Item edit cancelled.");
    let fonts = o.session.state.sub_items("fonts").unwrap();
    assert_eq!(fonts[0].get("name"), "Raleway");
}

#[test]
fn save_without_template_warns_and_closes() {
    let mut o = open_row(Template::minimal(), 0);
    o.template = None;
    send(&mut o, KeyCode::Char('s'), true);
    assert!(o.closed);
    assert!(matches!(o.last.as_ref().unwrap().result, ModalResult::CloseCancel));
    assert_eq!(toast(&o).unwrap().1, "No template open.");
}

#[test]
fn ctrl_p_on_url_field_asks_for_picker() {
    let mut o = open_row(Template::minimal(), 0);
    let idx = o.session.state.field_index("base_url").expect("base_url field");
    o.session.state.focused_field = idx;
    send(&mut o, KeyCode::Char('p'), true);
    assert_eq!(o.last.as_ref().unwrap().pick_image.as_deref(), Some("base_url"));
    assert!(!o.closed);
    o.session.state.focused_field = 0;
    send(&mut o, KeyCode::Char('p'), true);
    assert!(o.last.as_ref().unwrap().pick_image.is_none());
}

#[test]
fn wheel_scrolls_form_and_saturates() {
    let mut o = open_row(Template::minimal(), 0);
    let hits = no_hits();
    let up = Mouse { kind: MouseKind::ScrollUp, column: 0, row: 0 };
    let down = Mouse { kind: MouseKind::ScrollDown, column: 0, row: 0 };
    handle_form_edit_mouse(&mut o.session, &up, &hits);
    assert_eq!(o.session.scroll_offset, 0);
    handle_form_edit_mouse(&mut o.session, &down, &hits);
    assert_eq!(o.session.scroll_offset, 3);
    o.session.scroll_offset = u16::MAX - 1;
    handle_form_edit_mouse(&mut o.session, &down, &hits);
    assert_eq!(o.session.scroll_offset, u16::MAX);
}

#[test]
fn add_then_remove_gives_list_back() {
    let mut o = fonts_form();
    send(&mut o, KeyCode::Char('A'), false);
    let before: Vec<String> = o.session.state.sub_items("fonts").unwrap().iter().map(|i| i.get("name").to_string()).collect();
    send(&mut o, KeyCode::Char('A'), false);
    send(&mut o, KeyCode::Char('X'), false);
    let after: Vec<String> = o.session.state.sub_items("fonts").unwrap().iter().map(|i| i.get("name").to_string()).collect();
    assert_eq!(before, after);
}

#[test]
fn drill_then_save_gives_parent_back() {
    let mut o = fonts_form();
    send(&mut o, KeyCode::Char('A'), false);
    let pos = o.session.cursor_pos;
    o.session.scroll_offset = 2;
    let focused = o.session.state.focused_field;
    send(&mut o, KeyCode::Enter, false);
    assert_eq!(o.session.scroll_offset, 0);
    send(&mut o, KeyCode::Char('s'), true);
    assert_eq!(o.session.cursor_pos, pos);
    assert_eq!(o.session.scroll_offset, 2);
    assert_eq!(o.session.state.focused_field, focused);
    assert_eq!(o.session.state.sub_items("fonts").unwrap()[0].get("name"), "Raleway");
}

#[test]
fn layout_places_labels_boxes_and_clamps_scroll() {
    let o = open_row(Template::minimal(), 0);
    let inner = Rect { x: 0, y: 0, width: 60, height: 20 };
    let l = form_edit_layout(&o.session.state, inner, 0);
    assert_eq!(l.scroll, 0);
    assert_eq!(l.labels[0], (0, Rect { x: 0, y: 2, width: 59, height: 1 }));
    assert_eq!(l.hits.fields[0], (Rect { x: 0, y: 3, width: 59, height: 3 }, 0));
    assert_eq!(l.labels[1], (1, Rect { x: 0, y: 7, width: 59, height: 1 }));
    assert!(l.total_height > 18);
    assert!(l.thumb.is_some());
    let far = form_edit_layout(&o.session.state, inner, 1000);
    assert_eq!(far.scroll, far.total_height - 18);
    let tiny = form_edit_layout(&o.session.state, Rect { x: 0, y: 0, width: 5, height: 20 }, 0);
    assert!(tiny.labels.is_empty() && tiny.hits.fields.is_empty() && tiny.thumb.is_none());
}

#[test]
fn layout_click_areas_focus_fields() {
    let mut o = open_row(Template::minimal(), 0);
    let l = form_edit_layout(&o.session.state, Rect { x: 0, y: 0, width: 60, height: 20 }, 0);
    click(&mut o, &l.hits, 5, 9);
    assert_eq!(o.session.state.focused_field, 1);
}

#[test]
fn layout_textarea_label_has_expand_cell() {
    let o = text_form();
    let l = form_edit_layout(&o.session.state, Rect { x: 0, y: 0, width: 60, height: 30 }, 0);
    let idx = o.session.state.field_index("content").unwrap();
    assert!(l.hits.expands.iter().any(|(i, r)| *i == idx && r.width == 8 && r.x == 51));
}

#[test]
fn field_display_shows_placeholder_enum_list_and_cursor() {
    let mut o = fonts_form();
    let st = &o.session.state;
    let fonts = &st.form.fields[st.field_index("fonts").unwrap()];
    let d = field_display(fonts, st, 0, true, 40, 5);
    assert_eq!(d.text, "0 item(s) \u{2014} A add \u{b7} X remove \u{b7} Enter edit\n  (no items; press A to add)");
    send(&mut o, KeyCode::Char('A'), false);
    let st = &o.session.state;
    let fonts = &st.form.fields[st.field_index("fonts").unwrap()];
    let d = field_display(fonts, st, 0, true, 40, 5);
    assert_eq!(d.text, "1 item(s) \u{2014} A add \u{b7} X remove \u{b7} Enter edit\n  > 1. Raleway");
    let css = &st.form.fields[st.field_index("css_inline").unwrap()];
    let d = field_display(css, st, 0, false, 40, 1);
    assert_eq!(d.text, "< false >");
    assert!(!d.invalid_enum);
    let subject = &st.form.fields[0];
    let d = field_display(subject, st, 3, true, 40, 1);
    assert_eq!(d.text, "You're in.");
    assert!(!d.placeholder_shown);
    assert_eq!(d.cursor, Some((3, 0, '\'')));
    let d = field_display(subject, st, 99, true, 40, 1);
    assert_eq!(d.cursor, Some((10, 0, ' ')));
    assert!(form_help_line(st).contains("cycle enum"));
    let css_idx = st.field_index("css_inline").unwrap();
    o.session.state.set("css_inline", "maybe".to_string());
    let st = &o.session.state;
    let d = field_display(&st.form.fields[css_idx], st, 0, false, 40, 1);
    assert!(d.invalid_enum);
}

#[test]
fn field_display_text_area_cursor_and_placeholder() {
    let mut o = text_form();
    o.session.state.set("content", "hello\nworld".to_string());
    let st = &o.session.state;
    let f = &st.form.fields[st.field_index("content").unwrap()];
    let d = field_display(f, st, 8, true, 20, 4);
    assert_eq!(d.text, "hello\nworld\n\n");
    assert_eq!(d.cursor, Some((2, 1, 'r')));
    assert!(!d.scrollbar);
    assert!(form_help_line(st).contains("Ctrl+E: expand"));
    let pad = &st.form.fields[st.field_index("padding").unwrap()];
    let d = field_display(pad, st, 0, false, 20, 1);
    assert!(d.placeholder_shown);
    assert_eq!(d.text, "e.g. 10px  or  10px 20px");
}
