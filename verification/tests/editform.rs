use dd_emailforge::model::{
    BodyNode, ColumnChild, EmailArticle, EmailCta, EmailFooter, ImagePosition, MjButton, MjColumn, MjImage,
    MjNavbar, MjNavbarLink, MjSection, MjSocial, MjSocialElement, MjText, SectionChild, SocialMode,
    SocialNetwork, Template, WebFont,
};
use dd_emailforge::tui::cursor::{apply_form, form_for};
use dd_emailforge::tui::editform::{
    checkbox_item_rects, edit_form, EditFormState, FieldKind, FormId, Rect,
};
use dd_emailforge::tui::tree::{Step, TreeId};

fn section_template() -> Template {
    let mut t = Template::minimal();
    t.body.nodes.push(BodyNode::MjSection(MjSection {
        padding: Some("10px".to_string()),
        children: vec![SectionChild::MjColumn(MjColumn {
            components: vec![
                ColumnChild::MjText(MjText { content: "Hello".to_string(), ..Default::default() }),
                ColumnChild::MjNavbar(MjNavbar {
                    links: vec![MjNavbarLink {
                        href: "https://a.example".to_string(),
                        content: "A".to_string(),
                        ..Default::default()
                    }],
                    ..Default::default()
                }),
            ],
            ..Default::default()
        })],
        ..Default::default()
    }));
    t
}

#[test]
fn new_state_holds_defaults() {
    let st = EditFormState::new(edit_form(FormId::Head));
    assert_eq!(st.form.title, "mj-head");
    assert_eq!(st.get("lang"), "en");
    assert_eq!(st.get("breakpoint"), "480px");
    assert_eq!(st.get("css_inline"), "false");
    assert_eq!(st.get("no_such_field"), "");
    assert!(st.sub_items("fonts").unwrap().is_empty());
    assert_eq!(st.focused_field, 0);
}

#[test]
fn set_replaces_one_value() {
    let mut st = EditFormState::new(edit_form(FormId::Spacer));
    st.set("height", "30px".to_string());
    st.set("height", "40px".to_string());
    st.set("extra", "x".to_string());
    assert_eq!(st.get("height"), "40px");
    assert_eq!(st.get("extra"), "x");
    assert_eq!(st.get("padding"), "");
}

#[test]
fn focus_skips_hidden_fields_and_wraps() {
    let mut st = EditFormState::new(edit_form(FormId::Navbar));
    let visible = st.visible_field_indices();
    assert_eq!(visible.len(), 6);
    st.focused_field = 4;
    st.focus_next();
    assert_eq!(st.form.fields[st.focused_field].id, "css_class");
    st.focus_next();
    assert_eq!(st.focused_field, 0);
    st.focus_prev();
    assert_eq!(st.form.fields[st.focused_field].id, "css_class");
    st.set("hamburger", "true".to_string());
    assert_eq!(st.visible_field_indices().len(), 11);
}

#[test]
fn cycle_enum_wraps_both_ways() {
    let mut st = EditFormState::new(edit_form(FormId::Hero));
    st.focused_field = st.field_index("mode").unwrap();
    st.cycle_enum(true);
    assert_eq!(st.get("mode"), "fixed-height");
    st.cycle_enum(true);
    assert_eq!(st.get("mode"), "fluid-height");
    st.cycle_enum(false);
    assert_eq!(st.get("mode"), "fixed-height");
}

#[test]
fn checkbox_toggle_and_cursor_wrap() {
    let mut st = EditFormState::new(edit_form(FormId::Section));
    st.focused_field = st.field_index("border_sides").unwrap();
    assert_eq!(st.get("border_sides"), "all");
    st.toggle_checkbox_at(1);
    assert_eq!(st.get("border_sides"), "top");
    st.move_checkbox_cursor(-2);
    assert_eq!(st.checkbox_cursor, 4);
    st.move_checkbox_cursor(3);
    assert_eq!(st.checkbox_cursor, 2);
}

#[test]
fn checkbox_rects_stop_at_the_edge() {
    let opts = vec![("all", "All"), ("top", "Top"), ("right", "Right")];
    let rects = checkbox_item_rects(&opts, Rect { x: 2, y: 5, width: 12, height: 1 });
    assert_eq!(rects.len(), 2);
    assert_eq!(rects[0], Rect { x: 2, y: 5, width: 7, height: 1 });
    assert_eq!(rects[1], Rect { x: 11, y: 5, width: 3, height: 1 });
}

#[test]
fn new_sub_item_uses_the_item_form() {
    let st = EditFormState::new(edit_form(FormId::Social));
    let item = st.new_sub_item("elements").unwrap();
    assert_eq!(item.form.title, "social icon");
    assert_eq!(item.get("name"), "x");
    assert!(st.new_sub_item("mode").is_none());
    match &edit_form(FormId::Social).fields[9].kind {
        FieldKind::SubForm { summary_field_id, .. } => assert_eq!(*summary_field_id, "name"),
        _ => panic!("elements is a sub-form"),
    }
}

#[test]
fn form_for_head_shows_template_values() {
    let t = Template::minimal();
    let st = form_for(&t, &TreeId::Head).unwrap();
    assert_eq!(st.get("subject"), "You're in.");
    assert_eq!(st.get("title"), "You're in.");
    assert_eq!(st.get("css_inline"), "false");
}

#[test]
fn form_for_path_finds_nested_nodes() {
    let t = section_template();
    let st = form_for(&t, &TreeId::Path(vec![Step::BodyNode(0)])).unwrap();
    assert_eq!(st.form.title, "mj-section");
    assert_eq!(st.get("padding"), "10px");
    assert_eq!(st.get("border_sides"), "all");
    let path = vec![Step::BodyNode(0), Step::SectionChild(0), Step::ColComp(0)];
    let st = form_for(&t, &TreeId::Path(path)).unwrap();
    assert_eq!(st.form.title, "mj-text");
    assert_eq!(st.get("content"), "Hello");
    let path = vec![Step::BodyNode(0), Step::SectionChild(0), Step::ColComp(1), Step::NavbarLink(0)];
    let st = form_for(&t, &TreeId::Path(path)).unwrap();
    assert_eq!(st.get("href"), "https://a.example");
    assert!(form_for(&t, &TreeId::Path(vec![Step::BodyNode(3)])).is_none());
    assert!(form_for(&t, &TreeId::Path(vec![Step::BodyNode(0), Step::HeroChild(0)])).is_none());
}

#[test]
fn apply_form_round_trips_an_unedited_form() {
    let mut t = section_template();
    let before = section_template();
    for path in [
        vec![Step::BodyNode(0)],
        vec![Step::BodyNode(0), Step::SectionChild(0)],
        vec![Step::BodyNode(0), Step::SectionChild(0), Step::ColComp(0)],
        vec![Step::BodyNode(0), Step::SectionChild(0), Step::ColComp(1), Step::NavbarLink(0)],
    ] {
        let id = TreeId::Path(path);
        let st = form_for(&t, &id).unwrap();
        apply_form(&mut t, &id, &st).unwrap();
    }
    assert_eq!(t, before);
}

#[test]
fn apply_form_normalizes_and_trims() {
    let mut t = section_template();
    let id = TreeId::Path(vec![Step::BodyNode(0)]);
    let mut st = form_for(&t, &id).unwrap();
    st.set("padding", " 10 ".to_string());
    st.set("label", "  hero ".to_string());
    st.set("css_class", "   ".to_string());
    apply_form(&mut t, &id, &st).unwrap();
    match &t.body.nodes[0] {
        BodyNode::MjSection(s) => {
            assert_eq!(s.padding.as_deref(), Some("10px"));
            assert_eq!(s.label.as_deref(), Some("hero"));
            assert_eq!(s.css_class, None);
        }
        _ => panic!("still a section"),
    }
}

#[test]
fn apply_form_stops_at_first_bad_field() {
    let mut t = section_template();
    let id = TreeId::Path(vec![Step::BodyNode(0)]);
    let mut st = form_for(&t, &id).unwrap();
    st.set("label", "intro".to_string());
    st.set("padding", "10em".to_string());
    st.set("css_class", "late".to_string());
    let err = apply_form(&mut t, &id, &st).unwrap_err();
    assert_eq!(err, "padding 1-4 values with px or % (e.g. 10px or 10px 20px)");
    match &t.body.nodes[0] {
        BodyNode::MjSection(s) => {
            assert_eq!(s.label.as_deref(), Some("intro"));
            assert_eq!(s.padding.as_deref(), Some("10px"));
            assert_eq!(s.css_class, None);
        }
        _ => panic!("still a section"),
    }
}

#[test]
fn apply_form_on_missing_path_is_refused() {
    let mut t = section_template();
    let before = section_template();
    let st = EditFormState::new(edit_form(FormId::Section));
    let err = apply_form(&mut t, &TreeId::Path(vec![Step::BodyNode(9)]), &st).unwrap_err();
    assert_eq!(err, "missing node");
    assert_eq!(t, before);
}

#[test]
fn brand_width_must_be_a_number() {
    let mut t = Template::minimal();
    let mut st = form_for(&t, &TreeId::Brand).unwrap();
    st.set("content_width", "+640".to_string());
    apply_form(&mut t, &TreeId::Brand, &st).unwrap();
    assert_eq!(t.brand.content_width, 640);
    st.set("content_width", "wide".to_string());
    let err = apply_form(&mut t, &TreeId::Brand, &st).unwrap_err();
    assert_eq!(err, "content_width must be a number");
}

#[test]
fn footer_address_lines_drop_blank_lines() {
    let mut t = Template::minimal();
    t.body.nodes.push(BodyNode::EmailFooter(dd_emailforge::model::EmailFooter {
        company_name: "Acme".to_string(),
        address_lines: vec!["1 Main St".to_string()],
        unsubscribe_label: String::new(),
        unsubscribe_href: String::new(),
        social: Vec::new(),
        copyright: None,
    }));
    let id = TreeId::Path(vec![Step::BodyNode(0)]);
    let mut st = form_for(&t, &id).unwrap();
    assert_eq!(st.get("address_lines"), "1 Main St");
    st.set("address_lines", "1 Main St\n\n  \nSpringfield\n".to_string());
    apply_form(&mut t, &id, &st).unwrap();
    match &t.body.nodes[0] {
        BodyNode::EmailFooter(f) => assert_eq!(f.address_lines, vec!["1 Main St", "Springfield"]),
        _ => panic!("still a footer"),
    }
}

#[test]
fn navbar_hidden_fields_are_skipped_both_ways() {
    let mut s = EditFormState::new(edit_form(FormId::Navbar));
    assert_eq!(s.visible_field_indices(), vec![0, 1, 2, 3, 4, 10]);
    s.focused_field = 4;
    s.checkbox_cursor = 3;
    s.focus_next();
    assert_eq!(s.focused_field, 10);
    assert_eq!(s.checkbox_cursor, 0);
    s.focus_prev();
    assert_eq!(s.focused_field, 4);
    s.set("hamburger", "true".to_string());
    s.focus_next();
    assert_eq!(s.focused_field, 5);
}

#[test]
fn new_head_form_holds_defaults() {
    let s = EditFormState::new(edit_form(FormId::Head));
    assert_eq!(s.get("lang"), "en");
    assert_eq!(s.get("breakpoint"), "480px");
    assert_eq!(s.get("css_inline"), "false");
    assert_eq!(s.get("subject"), "");
    assert_eq!(s.values.len(), 10);
    assert!(s.sub_items("fonts").unwrap().is_empty());
    assert_eq!(s.selected_sub_index("fonts"), 0);
}

#[test]
fn unchanged_head_brand_and_body_forms_save_to_the_same_template() {
    let make = || {
        let mut t = Template::minimal();
        t.brand.content_width = 640;
        t.body.css_class = Some("wrap".into());
        t.head.fonts.push(WebFont {
            name: "Raleway".into(),
            href: "https://fonts.googleapis.com/css?family=Raleway".into(),
        });
        t
    };
    let mut t = make();
    let before = make();
    for id in [TreeId::Head, TreeId::Brand, TreeId::Body] {
        let st = form_for(&t, &id).expect("form");
        assert!(apply_form(&mut t, &id, &st).is_ok());
        assert_eq!(t, before);
    }
}

#[test]
fn unchanged_email_node_forms_save_to_the_same_node() {
    let make = || {
        let mut t = Template::minimal();
        t.body.nodes.push(BodyNode::EmailCta(EmailCta {
            heading: " Join ".into(),
            copy: "Now".into(),
            button_label: "Go".into(),
            button_href: "https://example.com".into(),
            background_color: Some("#ffffff".into()),
        }));
        t.body.nodes.push(BodyNode::EmailArticle(EmailArticle {
            image_src: "images/a.png".into(),
            image_alt: "a".into(),
            title: "T".into(),
            copy: "C".into(),
            link_label: "More".into(),
            link_href: "https://example.com/more".into(),
            image_position: ImagePosition::Right,
        }));
        t
    };
    let mut t = make();
    for i in 0..2 {
        let id = TreeId::Path(vec![Step::BodyNode(i)]);
        let st = form_for(&t, &id).expect("form");
        assert!(apply_form(&mut t, &id, &st).is_ok());
        assert_eq!(t, make());
    }
}

#[test]
fn unchanged_section_column_button_and_image_forms_save_to_the_same_template() {
    let make = || {
        let mut t = Template::minimal();
        t.body.nodes.push(BodyNode::MjSection(MjSection {
            children: vec![SectionChild::MjColumn(MjColumn {
                components: vec![ColumnChild::MjButton(MjButton {
                    content: "Buy".into(),
                    href: "https://example.com".into(),
                    border: Some("1px solid #000000".into()),
                    border_sides: Some("top,bottom".into()),
                    border_radius: Some("4px".into()),
                    inner_padding: Some("10px 20px".into()),
                    padding: Some("0".into()),
                    css_class: Some("cta".into()),
                    ..Default::default()
                }), ColumnChild::MjImage(MjImage {
                    src: "images/a.png".into(),
                    alt: "A".into(),
                    width: Some("120px".into()),
                    fluid_on_mobile: true,
                    border_sides: Some("left".into()),
                    padding: Some("5px 0".into()),
                    ..Default::default()
                })],
                padding: Some("4px".into()),
                border_sides: Some("right".into()),
                ..Default::default()
            })],
            padding: Some("20px 0".into()),
            border_radius: Some("8px".into()),
            ..Default::default()
        }));
        t
    };
    let mut t = make();
    let ids = [
        vec![Step::BodyNode(0)],
        vec![Step::BodyNode(0), Step::SectionChild(0)],
        vec![Step::BodyNode(0), Step::SectionChild(0), Step::ColComp(0)],
        vec![Step::BodyNode(0), Step::SectionChild(0), Step::ColComp(1)],
    ];
    for p in ids {
        let id = TreeId::Path(p);
        let st = form_for(&t, &id).expect("form");
        assert!(apply_form(&mut t, &id, &st).is_ok());
        assert_eq!(t, make());
    }
}

fn social_icon(name: SocialNetwork) -> MjSocialElement {
    MjSocialElement {
        name,
        href: "https://example.com/me".into(),
        src: None,
        background_color: Some("#3b5998".into()),
        padding: Some("4px".into()),
        icon_size: None,
        alt: Some("me".into()),
        css_class: None,
    }
}

#[test]
fn unchanged_footer_and_social_forms_save_to_the_same_template() {
    let make = || {
        let mut t = Template::minimal();
        t.body.nodes.push(BodyNode::EmailFooter(EmailFooter {
            company_name: "Acme".into(),
            address_lines: vec!["1 Main St".into(), "Springfield".into()],
            unsubscribe_label: "Unsubscribe".into(),
            unsubscribe_href: "https://example.com/u".into(),
            social: vec![social_icon(SocialNetwork::Github), social_icon(SocialNetwork::Xing)],
            copyright: Some("(c) Acme".into()),
        }));
        t.body.nodes.push(BodyNode::MjSection(MjSection {
            children: vec![SectionChild::MjColumn(MjColumn {
                components: vec![ColumnChild::MjSocial(MjSocial {
                    mode: SocialMode::Horizontal,
                    align: None,
                    icon_size: "20px".into(),
                    border_radius: None,
                    padding: Some("10px".into()),
                    icon_padding: None,
                    inner_padding: None,
                    font_size: None,
                    color: None,
                    css_class: None,
                    elements: vec![social_icon(SocialNetwork::X), social_icon(SocialNetwork::Soundcloud)],
                })],
                ..Default::default()
            })],
            ..Default::default()
        }));
        t
    };
    let mut t = make();
    for p in [vec![Step::BodyNode(0)], vec![Step::BodyNode(1), Step::SectionChild(0), Step::ColComp(0)]] {
        let id = TreeId::Path(p);
        let st = form_for(&t, &id).expect("form");
        assert!(apply_form(&mut t, &id, &st).is_ok());
        assert_eq!(t, make());
    }
}
