use dd_emailforge::tui::cursor::form_for;
use dd_emailforge::model::{
    BodyNode, ColumnChild, EmailHeader, MjColumn, MjGroup, MjNavbar, MjNavbarLink, MjSection,
    MjText, MjWrapper, SectionChild, Template,
};
use dd_emailforge::tui::tree::{build_tree, master_detail_tree_width, selected_label, Step, TreeId};

#[test]
fn width_none_below_48() {
    assert!(master_detail_tree_width(47).is_none());
    let w = master_detail_tree_width(80).unwrap();
    assert!(w >= 24);
    assert!(w <= 60);
}

#[test]
fn empty_template_has_three_roots() {
    let rows = build_tree(None, &Vec::new());
    assert_eq!(rows.len(), 3);
    assert!(matches!(rows[0].id, TreeId::Head));
    assert!(matches!(rows[1].id, TreeId::Brand));
    assert!(matches!(rows[2].id, TreeId::Body));
}

#[test]
fn body_children_listed_when_expanded() {
    let mut t = Template::minimal();
    t.body.nodes.push(BodyNode::EmailHeader(EmailHeader {
        logo_src: String::new(),
        logo_alt: String::new(),
        logo_href: None,
        logo_width: "160px".into(),
        background_color: None,
    }));
    t.body.nodes.push(BodyNode::MjSection(MjSection {
        background_color: None,
        padding: None,
        full_width: false,
        children: vec![SectionChild::MjColumn(MjColumn {
            width: Some("100%".into()),
            background_color: None,
            padding: None,
            inner_background_color: None,
            components: vec![ColumnChild::MjText(MjText {
                content: "Hi".into(),
                align: None,
                font_size: None,
                font_family: None,
                color: None,
                padding: None,
                ..Default::default()
            })],
            ..Default::default()
        })],
        ..Default::default()
    }));
    let rows = build_tree(Some(&t), &Vec::new());
    let labels: Vec<_> = rows.iter().map(|r| r.label.as_str()).collect();
    assert!(labels.contains(&"[HEAD] mj-head"));
    assert!(labels.contains(&"[BRAND] brand"));
    assert!(labels.iter().any(|l| l.starts_with("[BODY]")));
    assert!(labels.contains(&"1. email-header"));
    assert!(labels.contains(&"2. mj-section"));
    assert!(labels.contains(&"mj-column 100%"));
    assert!(labels.contains(&"mj-text"));
}

#[test]
fn collapsed_body_hides_children() {
    let mut t = Template::minimal();
    t.body.nodes.push(BodyNode::EmailHeader(EmailHeader {
        logo_src: String::new(),
        logo_alt: String::new(),
        logo_href: None,
        logo_width: "160px".into(),
        background_color: None,
    }));
    let collapsed = vec![TreeId::Body];
    let rows = build_tree(Some(&t), &collapsed);
    assert_eq!(rows.len(), 3);
}

#[test]
fn section_and_wrapper_labels_show_in_tree() {
    let mut t = Template::minimal();
    t.body.nodes.push(BodyNode::MjSection(MjSection {
        label: Some("hero".into()),
        ..Default::default()
    }));
    t.body.nodes.push(BodyNode::MjWrapper(MjWrapper {
        label: Some("footer".into()),
        ..Default::default()
    }));
    t.body.nodes.push(BodyNode::MjSection(MjSection::default()));
    let rows = build_tree(Some(&t), &Vec::new());
    let labels: Vec<_> = rows.iter().map(|r| r.label.as_str()).collect();
    assert!(labels.contains(&"1. mj-section  hero"), "{labels:?}");
    assert!(labels.contains(&"2. mj-wrapper  footer"), "{labels:?}");
    assert!(labels.contains(&"3. mj-section"), "{labels:?}");
    assert!(!labels.contains(&"3. mj-section  "), "{labels:?}");
}

fn nested_template() -> Template {
    let mut t = Template::minimal();
    t.body.nodes.push(BodyNode::MjWrapper(MjWrapper {
        children: vec![BodyNode::MjSection(MjSection {
            children: vec![SectionChild::MjGroup(MjGroup {
                children: vec![MjColumn {
                    components: vec![ColumnChild::MjNavbar(MjNavbar {
                        links: vec![MjNavbarLink::default(), MjNavbarLink::default()],
                        ..Default::default()
                    })],
                    ..Default::default()
                }],
                ..Default::default()
            })],
            ..Default::default()
        })],
        ..Default::default()
    }));
    t.body.nodes.push(BodyNode::MjSection(MjSection::default()));
    t
}

#[test]
fn nested_rows_have_paths_prefixes_and_expandability() {
    let t = nested_template();
    let rows = build_tree(Some(&t), &Vec::new());
    let shown: Vec<(String, String, bool)> = rows
        .iter()
        .map(|r| (r.prefix.clone(), r.label.clone(), r.expandable))
        .collect();
    let expect = vec![
        ("", "[HEAD] mj-head", false),
        ("", "[BRAND] brand", false),
        ("", "[BODY] mj-body (2)", true),
        ("├─ ", "1. mj-wrapper", true),
        ("│  └─ ", "1. mj-section", true),
        ("│     └─ ", "mj-group", true),
        ("│        └─ ", "mj-column", true),
        ("│           └─ ", "mj-navbar", true),
        ("│              ├─ ", "mj-navbar-link", false),
        ("│              └─ ", "mj-navbar-link", false),
        ("└─ ", "2. mj-section", false),
    ];
    let expect: Vec<(String, String, bool)> = expect
        .into_iter()
        .map(|(p, l, e)| (p.to_string(), l.to_string(), e))
        .collect();
    assert_eq!(shown, expect);
    assert_eq!(
        rows[9].id,
        TreeId::Path(vec![
            Step::BodyNode(0),
            Step::WrapperChild(0),
            Step::SectionChild(0),
            Step::GroupCol(0),
            Step::ColComp(0),
            Step::NavbarLink(1),
        ])
    );
}

#[test]
fn collapsing_a_nested_row_hides_only_its_descendants() {
    let t = nested_template();
    let collapsed = vec![TreeId::Path(vec![Step::BodyNode(0), Step::WrapperChild(0), Step::SectionChild(0)])];
    let rows = build_tree(Some(&t), &collapsed);
    let labels: Vec<_> = rows.iter().map(|r| r.label.as_str()).collect();
    assert_eq!(
        labels,
        vec!["[HEAD] mj-head", "[BRAND] brand", "[BODY] mj-body (2)", "1. mj-wrapper", "1. mj-section", "mj-group", "2. mj-section"]
    );
}

#[test]
fn selected_label_or_dash() {
    let rows = build_tree(None, &Vec::new());
    assert_eq!(selected_label(&rows, 1), "[BRAND] brand");
    assert_eq!(selected_label(&rows, 3), "—");
}

#[test]
fn tree_width_is_a_third_within_bounds() {
    assert_eq!(master_detail_tree_width(48), Some(24));
    assert_eq!(master_detail_tree_width(100), Some(32));
    assert_eq!(master_detail_tree_width(125), Some(40));
    assert_eq!(master_detail_tree_width(200), Some(64));
    assert_eq!(master_detail_tree_width(u16::MAX), Some(20971));
}

fn nested() -> Template {
    let mut t = Template::minimal();
    for _ in 0..2 {
        t.body.nodes.push(BodyNode::MjSection(MjSection {
            children: vec![
                SectionChild::MjColumn(MjColumn {
                    components: vec![
                        ColumnChild::MjText(MjText { content: "A".into(), ..Default::default() }),
                        ColumnChild::MjText(MjText { content: "B".into(), ..Default::default() }),
                    ],
                    ..Default::default()
                }),
                SectionChild::MjColumn(MjColumn::default()),
            ],
            ..Default::default()
        }));
    }
    t
}

#[test]
fn tree_row_ids_are_distinct() {
    let t = nested();
    let rows = build_tree(Some(&t), &Vec::new());
    assert_eq!(rows.len(), 3 + 2 * 5);
    for a in 0..rows.len() {
        for b in (a + 1)..rows.len() {
            assert_ne!(format!("{:?}", rows[a].id), format!("{:?}", rows[b].id));
        }
    }
}

#[test]
fn collapsing_a_section_only_hides_its_rows() {
    let t = nested();
    let all = build_tree(Some(&t), &Vec::new());
    let fewer = build_tree(Some(&t), &vec![TreeId::Path(vec![Step::BodyNode(0)])]);
    assert_eq!(fewer.len(), all.len() - 4);
    let mut j = 0;
    for r in &fewer {
        while all[j].label != r.label || all[j].prefix != r.prefix {
            j += 1;
        }
        j += 1;
    }
}

#[test]
fn every_tree_row_opens_a_form() {
    let t = nested();
    for r in build_tree(Some(&t), &Vec::new()) {
        assert!(form_for(&t, &r.id).is_some(), "{}", r.label);
    }
    assert!(form_for(&t, &TreeId::Path(vec![Step::BodyNode(5)])).is_none());
    assert!(form_for(&t, &TreeId::Path(Vec::new())).is_none());
}

#[test]
fn roots_first_and_more_rows_only_for_an_open_body() {
    let mut t = Template::minimal();
    let rows = build_tree(Some(&t), &Vec::new());
    assert_eq!(rows.len(), 3);
    assert!(!rows[2].expandable);
    t.body.nodes.push(BodyNode::MjSection(MjSection::default()));
    let rows = build_tree(Some(&t), &Vec::new());
    assert_eq!(rows.len(), 4);
    assert!(matches!(rows[0].id, TreeId::Head));
    assert!(matches!(rows[1].id, TreeId::Brand));
    assert!(matches!(rows[2].id, TreeId::Body));
    assert!(rows[2].expandable);
    let rows = build_tree(Some(&t), &vec![TreeId::Body]);
    assert_eq!(rows.len(), 3);
    assert!(form_for(&t, &TreeId::Path(vec![])).is_none());
    assert!(form_for(&t, &TreeId::Path(vec![Step::BodyNode(1)])).is_none());
    assert!(form_for(&t, &TreeId::Path(vec![Step::ColComp(0)])).is_none());
    assert!(form_for(&t, &TreeId::Path(vec![Step::BodyNode(0)])).is_some());
}
