use dd_emailforge::model::{BodyNode, EmailHeader, Template};
use dd_emailforge::tui::nav::{parent_id, TreeEnter, TreeNav};
use dd_emailforge::tui::tree::{build_tree, Step, TreeId};

fn with_header() -> Template {
    let mut t = Template::minimal();
    t.body.nodes.push(BodyNode::EmailHeader(EmailHeader {
        logo_src: String::new(),
        logo_alt: String::new(),
        logo_href: None,
        logo_width: "160px".into(),
        background_color: None,
    }));
    t
}

fn shows_header(t: &Template, nav: &TreeNav) -> bool {
    build_tree(Some(t), &nav.collapsed)
        .iter()
        .any(|r| r.label.contains("email-header"))
}

#[test]
fn moves_stay_on_the_rows() {
    let t = Template::minimal();
    let mut nav = TreeNav::new();
    assert_eq!(nav.selected_row, 0);
    nav.tree_move(Some(&t), 1);
    assert_eq!(nav.selected_row, 1);
    nav.tree_move(Some(&t), -1);
    assert_eq!(nav.selected_row, 0);
    nav.tree_move(Some(&t), -5);
    assert_eq!(nav.selected_row, 0);
    nav.tree_end(Some(&t));
    assert_eq!(nav.selected_row, build_tree(Some(&t), &nav.collapsed).len() - 1);
    nav.tree_move(Some(&t), 100);
    assert_eq!(nav.selected_row, 2);
    nav.tree_home();
    assert_eq!(nav.selected_row, 0);
}

#[test]
fn collapse_and_expand_the_body() {
    let t = with_header();
    let mut nav = TreeNav::new();
    assert!(shows_header(&t, &nav));
    nav.selected_row = 2;
    nav.tree_collapse(Some(&t));
    assert!(!shows_header(&t, &nav));
    nav.tree_expand(Some(&t));
    assert!(shows_header(&t, &nav));
    assert!(nav.collapsed.is_empty());
}

#[test]
fn collapse_on_a_leaf_selects_its_parent() {
    let t = with_header();
    let mut nav = TreeNav::new();
    nav.selected_row = 3;
    nav.tree_collapse(Some(&t));
    assert_eq!(nav.selected_row, 2);
    assert!(nav.collapsed.is_empty());
}

#[test]
fn toggling_twice_restores() {
    let t = with_header();
    let mut nav = TreeNav::new();
    nav.selected_row = 2;
    nav.tree_toggle_expand(Some(&t));
    assert_eq!(nav.collapsed.len(), 1);
    nav.tree_toggle_expand(Some(&t));
    assert!(nav.collapsed.is_empty());
    nav.selected_row = 0;
    nav.tree_toggle_expand(Some(&t));
    assert!(nav.collapsed.is_empty());
}

#[test]
fn clamp_moves_a_stale_selection_onto_the_last_row() {
    let t = with_header();
    let mut nav = TreeNav::new();
    nav.selected_row = 40;
    nav.clamp_tree_selection(Some(&t));
    assert_eq!(nav.selected_row, 3);
}

#[test]
fn enter_opens_the_head_form() {
    let t = Template::minimal();
    let nav = TreeNav::new();
    match nav.tree_enter(Some(&t)) {
        TreeEnter::Edit { cursor, state, cursor_pos } => {
            assert!(matches!(cursor, TreeId::Head));
            assert_eq!(state.form.title, "mj-head");
            let first = state.form.fields[0].id;
            assert_eq!(cursor_pos, state.get(first).chars().count());
        }
        _ => panic!("expected the head form"),
    }
}

#[test]
fn enter_without_template_warns() {
    let nav = TreeNav::new();
    match nav.tree_enter(None) {
        TreeEnter::Warn(m) => assert_eq!(m, "No template open. Run: dd_emailforge init <dir>"),
        _ => panic!("expected a warning"),
    }
}

#[test]
fn enter_past_the_rows_does_nothing() {
    let t = Template::minimal();
    let mut nav = TreeNav::new();
    nav.selected_row = 9;
    assert!(matches!(nav.tree_enter(Some(&t)), TreeEnter::Stay));
}

#[test]
fn parent_of_nodes() {
    assert!(matches!(parent_id(&TreeId::Path(vec![Step::BodyNode(0)])), Some(TreeId::Body)));
    match parent_id(&TreeId::Path(vec![Step::BodyNode(0), Step::SectionChild(1)])) {
        Some(TreeId::Path(p)) => assert_eq!(p, vec![Step::BodyNode(0)]),
        _ => panic!("expected the section"),
    }
    assert!(parent_id(&TreeId::Head).is_none());
    assert!(parent_id(&TreeId::Body).is_none());
}
