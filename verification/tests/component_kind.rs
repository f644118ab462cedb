use dd_emailforge::tui::component_kind::picker_window_start;
use dd_emailforge::model::{BodyNode, ColumnChild, MjColumn, MjGroup, MjNavbar, MjSection, MjText, MjWrapper, SectionChild, Template};
use dd_emailforge::tui::component_kind::{
    classify, first_kind_index, move_picker_selection, picker_rows, wrap_leaf_in_section,
    ComponentKind, PickerRow, SelectionClass,
};
use dd_emailforge::tui::tree::{Step, TreeId};

fn kind_labels(class: SelectionClass) -> Vec<&'static str> {
    picker_rows(class, "")
        .into_iter()
        .filter_map(|r| match r {
            PickerRow::Kind(k) => Some(k.label()),
            PickerRow::Header(_) => None,
        })
        .collect()
}

#[test]
fn column_picker_includes_navbar_not_navbar_link() {
    let labels = kind_labels(SelectionClass::Column);
    assert!(labels.contains(&"mj-navbar"));
    assert!(labels.contains(&"mj-accordion"));
    assert!(labels.contains(&"mj-carousel"));
    assert!(labels.contains(&"mj-text"));
    assert!(!labels.contains(&"mj-navbar-link"));
    assert!(!labels.contains(&"mj-accordion-element"));
    assert!(!labels.contains(&"mj-carousel-image"));
    assert!(!labels.contains(&"email-header"));
    assert!(!labels.contains(&"mj-section"));
}

#[test]
fn section_picker_excludes_nested_kinds() {
    let labels = kind_labels(SelectionClass::Section { in_wrapper: false });
    assert!(labels.contains(&"mj-column"));
    assert!(labels.contains(&"mj-group"));
    assert!(labels.contains(&"mj-navbar"));
    assert!(!labels.contains(&"mj-navbar-link"));
    assert!(!labels.contains(&"mj-accordion-element"));
    assert!(!labels.contains(&"mj-carousel-image"));
}

#[test]
fn wrapper_picker_is_section_and_hero_only() {
    let labels = kind_labels(SelectionClass::Wrapper);
    assert_eq!(labels, vec!["mj-section", "mj-hero"]);
}

#[test]
fn navbar_picker_is_navbar_link_only() {
    let labels = kind_labels(SelectionClass::Navbar);
    assert_eq!(labels, vec!["mj-navbar-link"]);
}

#[test]
fn group_picker_is_column_only() {
    let labels = kind_labels(SelectionClass::Group);
    assert_eq!(labels, vec!["mj-column"]);
}

#[test]
fn mj_table_insert_default_is_row_markup() {
    let Some(ColumnChild::MjTable(t)) = ComponentKind::MjTable.as_leaf() else {
        panic!("expected mj-table leaf");
    };
    assert_eq!(t.content, "<tr><td></td></tr>");
    assert!(!t.content.to_ascii_lowercase().contains("<table"));
}

#[test]
fn picker_groups_have_headers_and_search_filters() {
    let rows = picker_rows(SelectionClass::Body, "  HERO ");
    let shown: Vec<String> = rows
        .iter()
        .map(|r| match r {
            PickerRow::Header(h) => h.to_string(),
            PickerRow::Kind(k) => k.label().to_string(),
        })
        .collect();
    assert_eq!(shown, vec!["-- blocks --", "email-hero", "-- primitives --", "mj-hero"]);
    assert!(picker_rows(SelectionClass::HeadBrand, "").is_empty());
    assert_eq!(first_kind_index(&rows), 1);
    assert_eq!(first_kind_index(&[PickerRow::Header("x")].to_vec()), 0);
}

#[test]
fn picker_selection_wraps_and_skips_headers() {
    let rows = picker_rows(SelectionClass::Body, "hero");
    // rows: header, email-hero, header, mj-hero
    assert_eq!(move_picker_selection(&rows, 1, 1), 3);
    assert_eq!(move_picker_selection(&rows, 3, 1), 1);
    assert_eq!(move_picker_selection(&rows, 1, -1), 3);
    assert_eq!(move_picker_selection(&rows, 99, 1), 1);
    assert_eq!(move_picker_selection(&rows, 1, 4), 1);
    assert_eq!(move_picker_selection(&rows, 1, -6), 3);
    assert_eq!(move_picker_selection(&Vec::new(), 5, 1), 0);
    let only_headers = vec![PickerRow::Header("a"), PickerRow::Header("b")];
    assert_eq!(move_picker_selection(&only_headers, 0, 1), 0);
}

#[test]
fn classify_follows_paths() {
    let mut t = Template::minimal();
    t.body.nodes.push(BodyNode::MjWrapper(MjWrapper {
        children: vec![BodyNode::MjSection(MjSection {
            children: vec![
                SectionChild::MjGroup(MjGroup {
                    children: vec![MjColumn {
                        components: vec![ColumnChild::MjNavbar(MjNavbar::default())],
                        ..Default::default()
                    }],
                    ..Default::default()
                }),
                SectionChild::MjColumn(MjColumn {
                    components: vec![ColumnChild::MjText(MjText::default())],
                    ..Default::default()
                }),
            ],
            ..Default::default()
        })],
        ..Default::default()
    }));
    let t = Some(&t);
    let p = |steps: Vec<Step>| TreeId::Path(steps);
    assert_eq!(classify(t, &TreeId::Head), SelectionClass::HeadBrand);
    assert_eq!(classify(t, &TreeId::Body), SelectionClass::Body);
    assert_eq!(classify(t, &p(vec![Step::BodyNode(0)])), SelectionClass::Wrapper);
    assert_eq!(
        classify(t, &p(vec![Step::BodyNode(0), Step::WrapperChild(0)])),
        SelectionClass::Section { in_wrapper: true }
    );
    assert_eq!(
        classify(t, &p(vec![Step::BodyNode(0), Step::WrapperChild(0), Step::SectionChild(0)])),
        SelectionClass::Group
    );
    assert_eq!(
        classify(t, &p(vec![Step::BodyNode(0), Step::WrapperChild(0), Step::SectionChild(1)])),
        SelectionClass::Column
    );
    assert_eq!(
        classify(
            t,
            &p(vec![
                Step::BodyNode(0),
                Step::WrapperChild(0),
                Step::SectionChild(0),
                Step::GroupCol(0),
                Step::ColComp(0)
            ])
        ),
        SelectionClass::Navbar
    );
    assert_eq!(
        classify(t, &p(vec![Step::BodyNode(0), Step::WrapperChild(0), Step::SectionChild(1), Step::ColComp(0)])),
        SelectionClass::Leaf
    );
    assert_eq!(classify(t, &p(vec![Step::BodyNode(7)])), SelectionClass::Body);
    assert_eq!(classify(None, &p(vec![Step::SectionChild(0)])), SelectionClass::Column);
}

#[test]
fn fresh_components() {
    assert!(ComponentKind::MjText.as_body_node().is_none());
    let Some(BodyNode::EmailFooter(f)) = ComponentKind::EmailFooter.as_body_node() else {
        panic!("expected footer");
    };
    assert_eq!(f.address_lines, vec!["123 Main St".to_string()]);
    assert_eq!(f.unsubscribe_href, "*|UNSUB|*");
    let link = ComponentKind::MjNavbarLink.as_navbar_link().unwrap();
    assert_eq!(link.href, "https://example.com");
    assert!(ComponentKind::MjText.as_navbar_link().is_none());
    let BodyNode::MjSection(s) = wrap_leaf_in_section(ComponentKind::MjText.as_leaf().unwrap()) else {
        panic!("expected section");
    };
    let SectionChild::MjColumn(c) = &s.children[0] else {
        panic!("expected column");
    };
    assert_eq!(c.width.as_deref(), Some("100%"));
    assert_eq!(c.components.len(), 1);
}

#[test]
fn picker_window_keeps_selected_as_last_row() {
    assert_eq!(picker_window_start(0, 5), 0);
    assert_eq!(picker_window_start(4, 5), 0);
    assert_eq!(picker_window_start(5, 5), 1);
    assert_eq!(picker_window_start(12, 5), 8);
    assert_eq!(picker_window_start(3, 0), 4);
}
