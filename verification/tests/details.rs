use dd_emailforge::model::{
    BodyNode, ColumnChild, EmailHeader, MjButton, MjColumn, MjSection, MjText, MjWrapper,
    SectionChild, Template, WebFont,
};
use dd_emailforge::tui::details::{details_lines, details_title, details_view, DetailHit};
use dd_emailforge::tui::tree::{build_tree, Step, TreeId, TreeRow};

fn body_row() -> TreeRow {
    TreeRow {
        id: TreeId::Body,
        label: "[BODY] mj-body".into(),
        prefix: String::new(),
        expandable: true,
    }
}

fn path_row(path: Vec<Step>) -> TreeRow {
    TreeRow {
        id: TreeId::Path(path),
        label: String::new(),
        prefix: String::new(),
        expandable: false,
    }
}

fn sample() -> Template {
    let mut t = Template::minimal();
    t.body.nodes.push(BodyNode::MjSection(MjSection {
        background_color: None,
        padding: None,
        full_width: false,
        children: vec![SectionChild::MjColumn(MjColumn {
            width: Some("100%".into()),
            background_color: None,
            padding: None,
            inner_background_color: None,
            components: vec![
                ColumnChild::MjText(MjText {
                    content: "Hello".into(),
                    align: None,
                    font_size: None,
                    font_family: None,
                    color: None,
                    padding: None,
                    ..Default::default()
                }),
                ColumnChild::MjButton(MjButton {
                    content: "Go".into(),
                    href: "https://example.com".into(),
                    background_color: None,
                    color: None,
                    align: None,
                    font_family: None,
                    border_radius: None,
                    width: None,
                    padding: None,
                    ..Default::default()
                }),
            ],
            ..Default::default()
        })],
        ..Default::default()
    }));
    t
}

fn is_path_ending_in_col_comp(h: &DetailHit) -> bool {
    matches!(&h.id, TreeId::Path(p) if matches!(p.last(), Some(Step::ColComp(_))))
}

#[test]
fn blueprint_lists_nested_layout() {
    let t = sample();
    let (lines, hits) = details_view(Some(&t), Some(&body_row()), 48);
    let joined = lines.join("\n");
    assert!(
        joined.contains("mj-section") || joined.contains("mj-column"),
        "{joined}"
    );
    assert!(joined.contains("mj-text"), "{joined}");
    assert!(joined.contains("mj-button"), "{joined}");
    assert!(hits.iter().any(is_path_ending_in_col_comp));
    assert!(hits.iter().any(|h| matches!(
        &h.id,
        TreeId::Path(p) if matches!(p.as_slice(), [Step::BodyNode(_)])
    )));
}

#[test]
fn blueprint_shows_section_and_wrapper_labels() {
    let mut t = Template::minimal();
    t.body.nodes.push(BodyNode::MjSection(MjSection {
        label: Some("hero".into()),
        children: vec![SectionChild::MjColumn(MjColumn {
            components: vec![ColumnChild::MjText(MjText {
                content: "Hi".into(),
                ..Default::default()
            })],
            ..Default::default()
        })],
        ..Default::default()
    }));
    t.body.nodes.push(BodyNode::MjWrapper(MjWrapper {
        label: Some("footer".into()),
        ..Default::default()
    }));
    let (lines, _) = details_view(Some(&t), Some(&body_row()), 48);
    let joined = lines.join("\n");
    assert!(joined.contains("hero"), "{joined}");
    assert!(joined.contains("mj-wrapper  footer"), "{joined}");
    let section_row = TreeRow {
        id: TreeId::Path(vec![Step::BodyNode(0)]),
        label: "1. mj-section  hero".into(),
        prefix: String::new(),
        expandable: true,
    };
    let summary = details_lines(Some(&t), Some(&section_row), 40);
    assert!(summary.iter().any(|l| l == "label: hero"), "{summary:?}");
}

#[test]
fn blueprint_stays_full_when_a_leaf_is_selected() {
    let t = sample();
    let row = TreeRow {
        id: TreeId::Path(vec![
            Step::BodyNode(0),
            Step::SectionChild(0),
            Step::ColComp(1),
        ]),
        label: "mj-button".into(),
        prefix: String::new(),
        expandable: false,
    };
    let (lines, hits) = details_view(Some(&t), Some(&row), 48);
    let joined = lines.join("\n");
    assert!(joined.contains("mj-text"), "{joined}");
    assert!(joined.contains("mj-button"), "{joined}");
    assert!(hits.iter().any(|h| matches!(
        &h.id,
        TreeId::Path(p) if matches!(p.last(), Some(Step::ColComp(0)))
    )));
}

#[test]
fn tree_has_head_brand_body() {
    let t = Template::minimal();
    let rows = build_tree(Some(&t), &Vec::new());
    assert!(matches!(rows[0].id, TreeId::Head));
    assert!(matches!(rows[1].id, TreeId::Brand));
    assert!(matches!(rows[2].id, TreeId::Body));
}

#[test]
fn details_head_and_brand_are_labeled() {
    let t = Template::minimal();
    let rows = build_tree(Some(&t), &Vec::new());
    let head = details_lines(Some(&t), rows.get(0), 40);
    assert!(head.iter().any(|l| l.starts_with("subject:")));
    assert!(head.iter().any(|l| l.starts_with("json_ld:")));
    let brand = details_lines(Some(&t), rows.get(1), 40);
    assert!(brand.iter().any(|l| l.contains("button_background")));
    assert!(brand.iter().any(|l| l.contains('#')));
}

#[test]
fn details_notices_without_template_or_selection() {
    let (lines, hits) = details_view(None, Some(&body_row()), 40);
    assert_eq!(lines, vec!["No template open.".to_string()]);
    assert!(hits.is_empty());
    let t = Template::minimal();
    let (lines, hits) = details_view(Some(&t), None, 40);
    assert_eq!(lines, vec!["Nothing selected.".to_string()]);
    assert!(hits.is_empty());
}

#[test]
fn details_title_names_the_row() {
    assert_eq!(details_title("mj-head"), "Details — mj-head");
}

#[test]
fn empty_body_blueprint_is_exact() {
    let t = Template::minimal();
    let (lines, hits) = details_view(Some(&t), Some(&body_row()), 5);
    assert_eq!(
        lines,
        vec![
            "nodes: 0",
            "",
            " 600px canva",
            "+----------+",
            "| (empty bo|",
            "+----------+",
        ]
    );
    assert_eq!(hits.len(), 3);
    for (k, h) in hits.iter().enumerate() {
        assert_eq!(h.line, 3 + k);
        assert_eq!((h.x0, h.x1), (0, 12));
        assert!(matches!(h.id, TreeId::Body));
    }
}

#[test]
fn labeled_box_skips_dashes_and_keeps_rows() {
    let mut t = Template::minimal();
    t.body.nodes.push(BodyNode::EmailHeader(EmailHeader {
        logo_src: String::new(),
        logo_alt: "Acme".into(),
        logo_href: None,
        logo_width: "160px".into(),
        background_color: None,
    }));
    let (lines, hits) = details_view(Some(&t), Some(&path_row(vec![Step::BodyNode(0)])), 20);
    assert_eq!(
        lines,
        vec![
            "logo_src: —",
            "logo_alt: Acme",
            "logo_width: 160px",
            "",
            " 600px canvas       ",
            "+------------------+",
            "| email-header     |",
            "| logo —           |",
            "| Acme             |",
            "+------------------+",
        ]
    );
    assert_eq!(hits.len(), 5);
    assert!(hits.iter().all(|h| h.x0 == 0
        && h.x1 == 20
        && matches!(&h.id, TreeId::Path(p) if p == &vec![Step::BodyNode(0)])));
}

#[test]
fn head_lines_are_exact_for_minimal() {
    let t = Template::minimal();
    let rows = build_tree(Some(&t), &Vec::new());
    let head = details_lines(Some(&t), rows.get(0), 40);
    assert_eq!(
        &head[..11],
        &[
            "subject:     You're in.",
            "preheader:   Here's what happens next.",
            "lang:        en",
            "dir:         —",
            "title:       You're in.",
            "breakpoint:  480px",
            "base_url:    —",
            "fonts:       (none)",
            "json_ld:     (empty)",
            "css:         (empty)",
            "css_inline:  false",
        ]
    );
    assert_eq!(head[11], "");
}

#[test]
fn head_summarises_fonts_json_ld_and_css() {
    let mut t = Template::minimal();
    t.head.fonts.push(WebFont {
        name: "Raleway".into(),
        href: "https://fonts.googleapis.com/css?family=Raleway".into(),
    });
    t.head.fonts.push(WebFont {
        name: "Local".into(),
        href: "local".into(),
    });
    t.head.json_ld = r#" {"@type": "Organization", "name": "Acme"} "#.into();
    t.head.css = "a { color: red; }\nb { }\n".into();
    let row = TreeRow {
        id: TreeId::Head,
        label: String::new(),
        prefix: String::new(),
        expandable: false,
    };
    let head = details_lines(Some(&t), Some(&row), 40);
    assert_eq!(head[7], "fonts:       Raleway (fonts.googleapis.com), Local (local)");
    assert_eq!(head[8], "json_ld:     Organization");
    assert_eq!(head[9], "css:         2 lines");

    t.head.json_ld = r#"[{"name": "x"}, {"@type": "Event"}]"#.into();
    let head = details_lines(Some(&t), Some(&row), 40);
    assert_eq!(head[8], "json_ld:     Event");

    t.head.json_ld = r#"{"name": "no type"}"#.into();
    let head = details_lines(Some(&t), Some(&row), 40);
    assert_eq!(head[8], "json_ld:     (invalid JSON)");

    t.head.json_ld = "{not json".into();
    let head = details_lines(Some(&t), Some(&row), 40);
    assert_eq!(head[8], "json_ld:     (invalid JSON)");
}

#[test]
fn brand_lines_show_the_brand() {
    let t = Template::minimal();
    let row = TreeRow {
        id: TreeId::Brand,
        label: String::new(),
        prefix: String::new(),
        expandable: false,
    };
    let brand = details_lines(Some(&t), Some(&row), 40);
    assert_eq!(
        &brand[..6],
        &[
            "font_family:         Arial, Helvetica, sans-serif",
            "text_color:          #1a1a1a",
            "background_color:    #f4f4f4",
            "content_width:       600",
            "button_background:   #FFAF46",
            "button_color:        #0F1114",
        ]
    );
}

#[test]
fn selection_summaries_of_columns_leaves_and_missing_paths() {
    let t = sample();
    let col = details_lines(
        Some(&t),
        Some(&path_row(vec![Step::BodyNode(0), Step::SectionChild(0)])),
        40,
    );
    assert_eq!(&col[..3], &["width: 100%", "components: 2", ""]);
    let leaf = details_lines(
        Some(&t),
        Some(&path_row(vec![
            Step::BodyNode(0),
            Step::SectionChild(0),
            Step::ColComp(1),
        ])),
        40,
    );
    assert_eq!(leaf[0], "mj-button  Go → https://example.com");
    assert_eq!(leaf[1], "");
    let missing = details_lines(Some(&t), Some(&path_row(vec![Step::BodyNode(5)])), 40);
    assert_eq!(missing[0], "(missing node)");
    let wrong = details_lines(
        Some(&t),
        Some(&path_row(vec![Step::BodyNode(0), Step::WrapperChild(0)])),
        40,
    );
    assert_eq!(wrong[0], "(missing node)");
}

#[test]
fn long_text_is_truncated_with_an_ellipsis() {
    let mut t = sample();
    if let BodyNode::MjSection(s) = &mut t.body.nodes[0] {
        if let SectionChild::MjColumn(c) = &mut s.children[0] {
            c.components[0] = ColumnChild::MjText(MjText {
                content: "line one\nline two is a good deal longer than forty".into(),
                ..Default::default()
            });
        }
    }
    let leaf = details_lines(
        Some(&t),
        Some(&path_row(vec![
            Step::BodyNode(0),
            Step::SectionChild(0),
            Step::ColComp(0),
        ])),
        40,
    );
    assert_eq!(leaf[0], "mj-text  line one line two is a good deal longer…");
}

#[test]
fn percentage_columns_split_the_section() {
    let mut t = Template::minimal();
    let col = |w: &str, text: &str| {
        SectionChild::MjColumn(MjColumn {
            width: Some(w.into()),
            components: vec![ColumnChild::MjText(MjText {
                content: text.into(),
                ..Default::default()
            })],
            ..Default::default()
        })
    };
    t.body.nodes.push(BodyNode::MjSection(MjSection {
        children: vec![col("25%", "A"), col("75%", "B")],
        ..Default::default()
    }));
    let (lines, _) = details_view(Some(&t), Some(&body_row()), 43);
    // 43 wide: a 41-cell inside, 40 of them shared 10 / 30 after the gutter.
    let row2 = format!("| mj-column| mj-column 75%{}|", " ".repeat(16));
    let row3 = format!("| mj-text  | mj-text  B{}|", " ".repeat(19));
    assert_eq!(lines[4], row2);
    assert_eq!(lines[5], row3);
    assert_eq!(lines[4].chars().count(), 43);
}

#[test]
fn every_region_lies_on_a_blueprint_line_below_the_fields() {
    let t = sample();
    let (plain, plain_hits) = details_view(Some(&t), Some(&body_row()), 48);
    let head = build_tree(Some(&t), &Vec::new())[0].clone();
    let (lines, hits) = details_view(Some(&t), Some(&head), 48);
    assert!(!hits.is_empty());
    assert_eq!(hits.len(), plain_hits.len());
    // The head row shows more field lines above the same blueprint.
    let shift = lines.len() - plain.len();
    for (h, p) in hits.iter().zip(plain_hits.iter()) {
        assert!(h.line < lines.len());
        assert!(h.line >= shift);
        assert_eq!(h.line - shift, p.line);
        assert!(h.x0 < h.x1);
        assert!(lines[h.line].chars().count() >= h.x1);
    }
}
