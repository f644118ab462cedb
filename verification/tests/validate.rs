use dd_emailforge::model::{
    BodyNode, ColumnChild, EmailFooter, EmailHero, MjButton, MjColumn, MjImage, MjSection, MjTable,
    MjText, Template, WebFont,
};
use dd_emailforge::validate::{
    is_table_inner_fragment, local_image_probes, validate_template, validate_template_for_export,
    validate_template_with_root, LocalFiles, ValidateReport,
};

fn report_has(report: &ValidateReport, needle: &str) -> bool {
    report
        .errors
        .iter()
        .chain(report.warnings.iter())
        .any(|s| s.contains(needle))
}

#[test]
fn minimal_template_passes() {
    let t = Template::minimal();
    let r = validate_template(&t);
    assert!(r.ok(), "{:?}", r.errors);
    assert!(r.warnings.is_empty(), "{:?}", r.warnings);
}

#[test]
fn empty_name_is_error() {
    let mut t = Template::minimal();
    t.name.clear();
    let r = validate_template(&t);
    assert!(report_has(&r, "name is empty"));
}

#[test]
fn content_width_out_of_range() {
    let mut t = Template::minimal();
    t.brand.content_width = 1000;
    let r = validate_template(&t);
    assert!(report_has(&r, "content_width"));
}

#[test]
fn navbar_link_empty_href_is_error() {
    let mut t = Template::minimal();
    t.body.nodes.push(BodyNode::MjSection(MjSection {
        background_color: None,
        padding: None,
        full_width: false,
        children: vec![dd_emailforge::model::SectionChild::MjColumn(MjColumn {
            width: None,
            background_color: None,
            padding: None,
            inner_background_color: None,
            components: vec![ColumnChild::MjNavbar(dd_emailforge::model::MjNavbar {
                hamburger: false,
                ico_color: None,
                base_url: None,
                align: None,
                padding: None,
                links: vec![dd_emailforge::model::MjNavbarLink {
                    href: String::new(),
                    content: "Home".into(),
                    color: None,
                    padding: None,
                    ..Default::default()
                }],
                ..Default::default()
            })],
            ..Default::default()
        })],
        ..Default::default()
    }));
    let r = validate_template(&t);
    assert!(report_has(&r, "mj-navbar-link.href is empty"));
}

#[test]
fn data_src_is_error() {
    let mut t = Template::minimal();
    t.body.nodes.push(BodyNode::MjSection(MjSection {
        background_color: None,
        padding: None,
        full_width: false,
        children: vec![dd_emailforge::model::SectionChild::MjColumn(MjColumn {
            width: None,
            background_color: None,
            padding: None,
            inner_background_color: None,
            components: vec![ColumnChild::MjImage(MjImage {
                src: "data:image/png;base64,aaa".to_string(),
                alt: "x".to_string(),
                href: None,
                width: None,
                align: None,
                fluid_on_mobile: true,
                padding: None,
                ..Default::default()
            })],
            ..Default::default()
        })],
        ..Default::default()
    }));
    let r = validate_template(&t);
    assert!(report_has(&r, "unsupported scheme"));
}

#[test]
fn empty_mj_image_src_is_error() {
    let mut t = Template::minimal();
    t.body.nodes.push(BodyNode::MjSection(MjSection {
        background_color: None,
        padding: None,
        full_width: false,
        children: vec![dd_emailforge::model::SectionChild::MjColumn(MjColumn {
            width: None,
            background_color: None,
            padding: None,
            inner_background_color: None,
            components: vec![ColumnChild::MjImage(MjImage {
                src: "  ".to_string(),
                alt: "x".to_string(),
                href: None,
                width: None,
                align: None,
                fluid_on_mobile: true,
                padding: None,
                ..Default::default()
            })],
            ..Default::default()
        })],
        ..Default::default()
    }));
    let r = validate_template(&t);
    assert!(report_has(&r, "mj-image.src is empty"));
}

#[test]
fn text_only_hero_passes() {
    let mut t = Template::minimal();
    t.body.nodes.push(BodyNode::EmailHero(EmailHero {
        image_src: String::new(),
        image_alt: String::new(),
        heading: "Hi".to_string(),
        subheading: String::new(),
        background_color: None,
    }));
    let r = validate_template(&t);
    assert!(r.ok(), "{:?}", r.errors);
}

#[test]
fn hero_with_src_needs_alt() {
    let mut t = Template::minimal();
    t.body.nodes.push(BodyNode::EmailHero(EmailHero {
        image_src: "https://example.com/a.png".to_string(),
        image_alt: String::new(),
        heading: "Hi".to_string(),
        subheading: String::new(),
        background_color: None,
    }));
    let r = validate_template(&t);
    assert!(report_has(&r, "image_alt"));
}

#[test]
fn mj_text_closer_is_error() {
    let mut t = Template::minimal();
    t.body.nodes.push(BodyNode::MjSection(MjSection {
        background_color: None,
        padding: None,
        full_width: false,
        children: vec![dd_emailforge::model::SectionChild::MjColumn(MjColumn {
            width: None,
            background_color: None,
            padding: None,
            inner_background_color: None,
            components: vec![ColumnChild::MjText(MjText {
                content: "</mj-text>oops".to_string(),
                align: None,
                font_size: None,
                font_family: None,
                color: None,
                padding: None,
                ..Default::default()
            })],
            ..Default::default()
        })],
        ..Default::default()
    }));
    let r = validate_template(&t);
    assert!(report_has(&r, "</mj-"));
}

#[test]
fn google_font_href_must_match() {
    let mut t = Template::minimal();
    t.head.fonts.push(WebFont {
        name: "Inter".to_string(),
        href: "https://example.com/inter.css".to_string(),
    });
    let r = validate_template(&t);
    assert!(report_has(&r, "Google Fonts"));
}

#[test]
fn unused_font_is_warning() {
    let mut t = Template::minimal();
    t.head.fonts.push(WebFont {
        name: "Raleway".to_string(),
        href: "https://fonts.googleapis.com/css2?family=Raleway&display=swap".to_string(),
    });
    let r = validate_template(&t);
    assert!(r.ok());
    assert!(report_has(&r, "not used"));
}

#[test]
fn json_ld_must_be_object_or_array() {
    let mut t = Template::minimal();
    t.head.json_ld = "\"hello\"".to_string();
    let r = validate_template(&t);
    assert!(report_has(&r, "object or array"));
}

#[test]
fn json_ld_object_without_type_warns() {
    let mut t = Template::minimal();
    t.head.json_ld = r#"{"@context":"https://schema.org"}"#.to_string();
    let r = validate_template(&t);
    assert!(r.ok());
    assert!(report_has(&r, "@type"));
}

#[test]
fn css_import_is_error() {
    let mut t = Template::minimal();
    t.head.css = "@import url('https://fonts.googleapis.com/css2?family=X');".to_string();
    let r = validate_template(&t);
    assert!(report_has(&r, "@import"));
}

#[test]
fn css_offhost_url_is_error() {
    let mut t = Template::minimal();
    t.head.css = "body { background: url('https://evil.example/x.png'); }".to_string();
    let r = validate_template(&t);
    assert!(report_has(&r, "url()"));
}

#[test]
fn transactional_footer_is_clean() {
    let mut t = Template::minimal();
    t.body.nodes.push(BodyNode::EmailFooter(EmailFooter {
        company_name: "Acme".to_string(),
        address_lines: vec!["1 Main".to_string()],
        unsubscribe_label: String::new(),
        unsubscribe_href: String::new(),
        social: vec![],
        copyright: None,
    }));
    let r = validate_template(&t);
    assert!(r.ok(), "{:?}", r.errors);
    assert!(r.warnings.is_empty(), "{:?}", r.warnings);
}

#[test]
fn marketing_footer_missing_unsub_warns() {
    let mut t = Template::minimal();
    t.body.nodes.push(BodyNode::EmailFooter(EmailFooter {
        company_name: "Acme".to_string(),
        address_lines: vec!["1 Main".to_string()],
        unsubscribe_label: "Unsubscribe".to_string(),
        unsubscribe_href: String::new(),
        social: vec![],
        copyright: None,
    }));
    let r = validate_template(&t);
    assert!(r.ok());
    assert!(report_has(&r, "unsubscribe"));
}

#[test]
fn empty_footer_address_is_error() {
    let mut t = Template::minimal();
    t.body.nodes.push(BodyNode::EmailFooter(EmailFooter {
        company_name: "Acme".to_string(),
        address_lines: vec!["  ".to_string()],
        unsubscribe_label: String::new(),
        unsubscribe_href: String::new(),
        social: vec![],
        copyright: None,
    }));
    let r = validate_template(&t);
    assert!(report_has(&r, "address_lines"));
}

#[test]
fn export_rejects_loopback_image() {
    let mut t = Template::minimal();
    t.body.nodes.push(BodyNode::MjSection(MjSection {
        background_color: None,
        padding: None,
        full_width: false,
        children: vec![dd_emailforge::model::SectionChild::MjColumn(MjColumn {
            width: None,
            background_color: None,
            padding: None,
            inner_background_color: None,
            components: vec![ColumnChild::MjImage(MjImage {
                src: "http://127.0.0.1:9/x.png".to_string(),
                alt: "x".to_string(),
                href: None,
                width: None,
                align: None,
                fluid_on_mobile: true,
                padding: None,
                ..Default::default()
            })],
            ..Default::default()
        })],
        ..Default::default()
    }));
    let r = validate_template_for_export(&t, None);
    assert!(report_has(&r, "https://"));
}

fn section_with_column_padding(padding: Option<String>) -> Template {
    let mut t = Template::minimal();
    t.body.nodes.push(BodyNode::MjSection(MjSection {
        background_color: None,
        padding: None,
        full_width: false,
        children: vec![dd_emailforge::model::SectionChild::MjColumn(MjColumn {
            width: None,
            background_color: None,
            padding,
            inner_background_color: None,
            components: Vec::new(),
            ..Default::default()
        })],
        ..Default::default()
    }));
    t
}

fn template_with_table(content: &str) -> Template {
    let mut t = Template::minimal();
    t.body.nodes.push(BodyNode::MjSection(MjSection {
        children: vec![dd_emailforge::model::SectionChild::MjColumn(MjColumn {
            components: vec![ColumnChild::MjTable(MjTable {
                content: content.to_string(),
                ..Default::default()
            })],
            ..Default::default()
        })],
        ..Default::default()
    }));
    t
}

#[test]
fn table_inner_fragment_shape() {
    assert!(!is_table_inner_fragment(""));
    assert!(!is_table_inner_fragment("   "));
    assert!(!is_table_inner_fragment("hello"));
    assert!(!is_table_inner_fragment(
        "<table><tr><td></td></tr></table>"
    ));
    assert!(!is_table_inner_fragment(
        "<TABLE border=\"0\"><tr><td>x</td></tr></TABLE>"
    ));
    assert!(is_table_inner_fragment("<tr><td></td></tr>"));
    assert!(is_table_inner_fragment(
        "<thead><tr><th>H</th></tr></thead><tbody><tr><td>B</td></tr></tbody>"
    ));
    assert!(is_table_inner_fragment(
        "<tr><td><table><tr><td>n</td></tr></table></td></tr>"
    ));
}

#[test]
fn mj_table_wrapping_table_is_error() {
    let t = template_with_table("<table><tr><td></td></tr></table>");
    let r = validate_template(&t);
    assert!(report_has(&r, "wrapping <table>"));
}

#[test]
fn mj_table_row_fragment_passes() {
    let t = template_with_table("<tr><td></td></tr>");
    let r = validate_template(&t);
    assert!(r.ok(), "{:?}", r.errors);
}

#[test]
fn mj_table_empty_content_is_error() {
    let t = template_with_table("");
    let r = validate_template(&t);
    assert!(report_has(&r, "mj-table.content"));
}

#[test]
fn unitless_padding_is_accepted() {
    let t = section_with_column_padding(Some("12 10 12 10".into()));
    let r = validate_template(&t);
    assert!(r.ok(), "{:?}", r.errors);
}

#[test]
fn padding_with_units_passes() {
    let t = section_with_column_padding(Some("10px 20%".into()));
    let r = validate_template(&t);
    assert!(r.ok(), "{:?}", r.errors);
}

#[test]
fn padding_rejects_unknown_units() {
    let t = section_with_column_padding(Some("10em".into()));
    let r = validate_template(&t);
    assert!(report_has(&r, "mj-column.padding"));
    assert!(report_has(&r, "px or %"));
}

#[test]
fn padding_rejects_five_values() {
    let t = section_with_column_padding(Some("1px 2px 3px 4px 5px".into()));
    let r = validate_template(&t);
    assert!(report_has(&r, "mj-column.padding"));
}

fn template_with_button(btn: MjButton) -> Template {
    let mut t = Template::minimal();
    t.body.nodes.push(BodyNode::MjSection(MjSection {
        children: vec![dd_emailforge::model::SectionChild::MjColumn(MjColumn {
            components: vec![ColumnChild::MjButton(btn)],
            ..Default::default()
        })],
        ..Default::default()
    }));
    t
}

#[test]
fn mj_button_inner_padding_collapsing_width_is_error() {
    let t = template_with_button(MjButton {
        content: "Go".into(),
        href: "https://example.com".into(),
        width: Some("200px".into()),
        inner_padding: Some("100px 100px".into()),
        ..Default::default()
    });
    let r = validate_template(&t);
    assert!(report_has(&r, "collapses the button"));
}

#[test]
fn mj_button_width_too_small_for_brand_inner_padding_is_error() {
    let t = template_with_button(MjButton {
        content: "Go".into(),
        href: "https://example.com".into(),
        width: Some("40px".into()),
        ..Default::default()
    });
    let r = validate_template(&t);
    assert!(report_has(&r, "collapses the button"));
}

#[test]
fn mj_button_inner_padding_fits_width() {
    let t = template_with_button(MjButton {
        content: "Go".into(),
        href: "https://example.com".into(),
        width: Some("200px".into()),
        inner_padding: Some("8px 16px".into()),
        border: Some("1px solid #ff0000".into()),
        ..Default::default()
    });
    let r = validate_template(&t);
    assert!(r.ok(), "{:?}", r.errors);
}

#[test]
fn unknown_border_sides_is_error() {
    let t = template_with_button(MjButton {
        content: "Go".into(),
        href: "https://example.com".into(),
        border: Some("1px solid #000".into()),
        border_sides: Some("top,foo".into()),
        ..Default::default()
    });
    let r = validate_template(&t);
    assert!(report_has(&r, "mj-button.border_sides"), "{:?}", r.errors);
}

#[test]
fn mj_button_negative_inner_padding_is_error() {
    let t = template_with_button(MjButton {
        content: "Go".into(),
        href: "https://example.com".into(),
        inner_padding: Some("-2px".into()),
        ..Default::default()
    });
    let r = validate_template(&t);
    assert!(report_has(&r, "mj-button.inner_padding"));
}

fn template_with_image(src: &str) -> Template {
    let mut t = Template::minimal();
    t.body.nodes.push(BodyNode::MjSection(MjSection {
        children: vec![dd_emailforge::model::SectionChild::MjColumn(MjColumn {
            components: vec![ColumnChild::MjImage(MjImage {
                src: src.to_string(),
                alt: "x".to_string(),
                ..Default::default()
            })],
            ..Default::default()
        })],
        ..Default::default()
    }));
    t
}

#[test]
fn missing_local_image_with_root() {
    let t = template_with_image("images/missing.png");
    let files = LocalFiles { paths: vec!["images/present.png".to_string()] };
    let r = validate_template_with_root(&t, Some(&files));
    assert!(report_has(&r, "Missing local image"));
}

#[test]
fn local_image_found_under_images_or_root() {
    let files = LocalFiles {
        paths: vec!["images/logo.png".to_string(), "hero.png".to_string()],
    };
    let r = validate_template_with_root(&template_with_image("/logo.png"), Some(&files));
    assert!(!report_has(&r, "Missing local image"), "{:?}", r.errors);
    let r = validate_template_with_root(&template_with_image("hero.png"), Some(&files));
    assert!(!report_has(&r, "Missing local image"), "{:?}", r.errors);
    let r = validate_template_with_root(&template_with_image("images/hero.png"), Some(&files));
    assert_eq!(r.errors, vec!["Missing local image: images/hero.png".to_string()]);
    let r = validate_template_with_root(&template_with_image("images/hero.png"), None);
    assert!(r.errors.is_empty(), "{:?}", r.errors);
    assert_eq!(r.warnings, vec!["base_url is empty while relative images exist".to_string()]);
}

#[test]
fn export_relative_image_needs_https_base() {
    let mut t = template_with_image("a.png");
    let r = validate_template_for_export(&t, None);
    assert_eq!(
        r.errors,
        vec!["mj-image.src is relative and requires an https:// base_url in export".to_string()]
    );
    assert!(r.warnings.is_empty());
    t.base_url = "https://cdn.example.com/".into();
    assert!(validate_template_for_export(&t, None).ok());
}

#[test]
fn insecure_http_image_is_error_outside_export() {
    let r = validate_template(&template_with_image("http://example.com/a.png"));
    assert_eq!(
        r.errors,
        vec!["mj-image.src uses insecure http:// URL: http://example.com/a.png".to_string()]
    );
    let r = validate_template(&template_with_image("http://localhost:8080/a.png"));
    assert!(r.ok(), "{:?}", r.errors);
}

#[test]
fn head_errors_come_in_order_with_exact_text() {
    let mut t = Template::minimal();
    t.version = 2;
    t.subject = " ".into();
    t.dir = "up".into();
    t.brand.content_width = 100;
    t.brand.text_color = "red".into();
    let r = validate_template(&t);
    assert_eq!(
        r.errors,
        vec![
            "version must be 1, got 2".to_string(),
            "subject is empty".to_string(),
            "dir must be one of auto|ltr|rtl, got 'up'".to_string(),
            "brand.content_width must be 320..=800, got 100".to_string(),
            "brand.text_color must be #RRGGBB, got 'red'".to_string(),
        ]
    );
}

#[test]
fn duplicate_and_unnamed_fonts() {
    let mut t = Template::minimal();
    let href = "https://fonts.googleapis.com/css2?family=Raleway".to_string();
    t.head.fonts.push(WebFont { name: "Raleway".into(), href: href.clone() });
    t.head.fonts.push(WebFont { name: " raleway ".into(), href: href.clone() });
    t.head.fonts.push(WebFont { name: "".into(), href: "http://x".into() });
    t.brand.font_family = "Raleway, sans-serif".into();
    let r = validate_template(&t);
    assert_eq!(
        r.errors,
        vec![
            "duplicate font name ' raleway '".to_string(),
            "head.fonts[2].name is empty".to_string(),
            "head.fonts[2].href must be a Google Fonts CSS URL, got 'http://x'".to_string(),
        ]
    );
    assert!(r.warnings.is_empty(), "{:?}", r.warnings);
}

#[test]
fn css_urls_are_read_case_insensitively() {
    let mut t = Template::minimal();
    t.head.css = "a { background: URL( \"https://fonts.googleapis.com/x\" ) } b { background: url(/local.png) }".into();
    let r = validate_template(&t);
    assert_eq!(
        r.errors,
        vec!["head.css url() must be https://fonts.googleapis.com/, got '/local.png'".to_string()]
    );
}

#[test]
fn json_ld_array_without_type_warns() {
    let mut t = Template::minimal();
    t.head.json_ld = r#"[{"a":1}, 2]"#.into();
    let r = validate_template(&t);
    assert!(r.ok());
    assert_eq!(r.warnings, vec!["head.json_ld array has no @type on any element".to_string()]);
    t.head.json_ld = r#"[{"a":1}, {"@type":"X"}]"#.into();
    assert!(validate_template(&t).warnings.is_empty());
    t.head.json_ld = r#"{"@type":"X","x":"</script>"}"#.into();
    assert_eq!(
        validate_template(&t).errors,
        vec!["head.json_ld pretty form contains a forbidden closer".to_string()]
    );
}

#[test]
fn wrapper_may_only_hold_sections_and_heroes() {
    let mut t = Template::minimal();
    t.body.nodes.push(BodyNode::MjWrapper(dd_emailforge::model::MjWrapper {
        children: vec![
            BodyNode::EmailHero(EmailHero {
                image_src: String::new(),
                image_alt: String::new(),
                heading: "H".into(),
                subheading: String::new(),
                background_color: None,
            }),
            BodyNode::MjSection(MjSection::default()),
        ],
        ..Default::default()
    }));
    let r = validate_template(&t);
    assert_eq!(
        r.errors,
        vec![
            "mj-wrapper may only contain mj-section or mj-hero".to_string(),
            "mj-section has no children".to_string(),
        ]
    );
}

#[test]
fn report_ok_means_no_errors() {
    let r = ValidateReport { errors: vec![], warnings: vec!["w".into()] };
    assert!(r.ok());
    let r = ValidateReport { errors: vec!["e".into()], warnings: vec![] };
    assert!(!r.ok());
}

#[test]
fn button_width_room_uses_border_sides() {
    let t = template_with_button(MjButton {
        content: "Go".into(),
        href: "https://example.com".into(),
        width: Some("50px".into()),
        inner_padding: Some("0 24px".into()),
        border: Some("1px solid #000".into()),
        border_sides: Some("left".into()),
        ..Default::default()
    });
    assert!(validate_template(&t).ok());
    let t = template_with_button(MjButton {
        content: "Go".into(),
        href: "https://example.com".into(),
        width: Some("50px".into()),
        inner_padding: Some("0 24px".into()),
        border: Some("1px solid #000".into()),
        ..Default::default()
    });
    assert_eq!(
        validate_template(&t).errors,
        vec!["mj-button inner-padding + border leave no room inside width 50px (MJML collapses the button)".to_string()]
    );
}

#[test]
fn export_is_stricter_than_preview() {
    let mut t = Template::minimal();
    let export = validate_template_for_export(&t, None);
    assert!(export.errors.is_empty());
    assert!(validate_template_with_root(&t, None).errors.is_empty());
    t.body.nodes.push(BodyNode::MjSection(MjSection {
        children: vec![dd_emailforge::model::SectionChild::MjColumn(MjColumn {
            components: vec![ColumnChild::MjImage(MjImage {
                src: "http://localhost:8080/a.png".into(),
                alt: "a".into(),
                ..Default::default()
            })],
            ..Default::default()
        })],
        ..Default::default()
    }));
    let preview = validate_template_with_root(&t, None);
    let export = validate_template_for_export(&t, None);
    assert!(preview.errors.len() <= export.errors.len());
    assert!(export.errors.iter().any(|e| e.contains("must be https:// in export")));
    assert!(!preview.errors.iter().any(|e| e.contains("http")));
}

#[test]
fn local_image_probes_name_each_candidate_path() {
    assert_eq!(
        local_image_probes(&template_with_image("/logo.png")),
        vec!["images/logo.png".to_string(), "logo.png".to_string()]
    );
    assert_eq!(
        local_image_probes(&template_with_image("  images/a.png ")),
        vec!["images/a.png".to_string()]
    );
    assert!(local_image_probes(&template_with_image("https://cdn.example.com/a.png")).is_empty());
    assert!(local_image_probes(&template_with_image("cid:logo")).is_empty());
}

#[test]
fn probed_paths_that_are_files_satisfy_the_check() {
    let t = template_with_image("./a.png");
    let probes = local_image_probes(&t);
    assert_eq!(probes, vec!["images/./a.png".to_string(), "./a.png".to_string()]);
    // Only the second candidate names a file.
    let files = LocalFiles { paths: vec![probes[1].clone()] };
    let r = validate_template_with_root(&t, Some(&files));
    assert!(!report_has(&r, "Missing local image"), "{:?}", r.errors);
    let r = validate_template_with_root(&t, Some(&LocalFiles { paths: vec![] }));
    assert_eq!(r.errors, vec!["Missing local image: ./a.png".to_string()]);
    let r = validate_template_for_export(&t, Some(&LocalFiles { paths: vec![] }));
    assert_eq!(local_image_probes(&t), probes);
    assert!(report_has(&r, "Missing local image: ./a.png"));
}
