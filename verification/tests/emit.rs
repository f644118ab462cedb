use dd_emailforge::emit::{emit_mjml, emit_text_inner, rewrite_src, EmitMode, BRAND_BUTTON_INNER_PADDING};
use dd_emailforge::model::{
    BodyNode, ColumnChild, EmailArticle, EmailCta, EmailFooter, EmailHeader, EmailHero, HeroMode,
    ImagePosition, MjButton, MjColumn, MjGroup, MjHero, MjImage, MjSection, MjSocial,
    MjSocialElement, MjTable, MjText, MjWrapper, SectionChild, SocialMode, SocialNetwork, Template,
    WebFont,
};

fn export(t: &Template) -> String {
    emit_mjml(t, EmitMode::Export).unwrap()
}

fn preview(t: &Template) -> String {
    emit_mjml(
        t,
        EmitMode::Preview {
            origin: "http://127.0.0.1:48712".into(),
        },
    )
    .unwrap()
}

#[test]
fn rewrite_src_unit_cases() {
    let mut t = Template::minimal();
    t.base_url = "https://cdn.example.com/".into();
    let preview = EmitMode::Preview {
        origin: "http://127.0.0.1:48712".into(),
    };
    assert!(rewrite_src("", &t, &EmitMode::Export).is_err());
    assert!(rewrite_src("data:image/png;base64,aaa", &t, &EmitMode::Export).is_err());
    assert!(rewrite_src("cid:ii_abc", &t, &EmitMode::Export).is_err());
    assert!(rewrite_src("http://127.0.0.1:1/x.png", &t, &EmitMode::Export).is_err());
    assert_eq!(
        rewrite_src("http://127.0.0.1:1/x.png", &t, &preview).unwrap(),
        "http://127.0.0.1:1/x.png"
    );
    assert_eq!(
        rewrite_src("https://cdn.example.com/a.png", &t, &EmitMode::Export).unwrap(),
        "https://cdn.example.com/a.png"
    );
    assert_eq!(
        rewrite_src("https://cdn.example.com/a.png", &t, &preview).unwrap(),
        "https://cdn.example.com/a.png"
    );
    assert_eq!(
        rewrite_src("images/a.png", &t, &preview).unwrap(),
        "http://127.0.0.1:48712/images/a.png"
    );
    assert_eq!(
        rewrite_src("images/a.png", &t, &EmitMode::Export).unwrap(),
        "https://cdn.example.com/images/a.png"
    );
}

#[test]
fn unitless_padding_emits_px() {
    let mut t = Template::minimal();
    t.preheader.clear();
    t.body.nodes.push(BodyNode::MjSection(MjSection {
        background_color: None,
        padding: None,
        full_width: false,
        children: vec![SectionChild::MjColumn(MjColumn {
            width: None,
            background_color: None,
            padding: Some("12 10 12 10".into()),
            inner_background_color: None,
            components: vec![ColumnChild::MjText(MjText {
                content: "Hi".into(),
                align: None,
                font_size: None,
                font_family: None,
                color: None,
                padding: Some("2".into()),
                ..Default::default()
            })],
            ..Default::default()
        })],
        ..Default::default()
    }));
    let mjml = export(&t);
    assert!(mjml.contains(r#"padding="12px 10px 12px 10px""#), "{mjml}");
    assert!(mjml.contains(r#"padding="2px""#), "{mjml}");
    assert!(!mjml.contains(r#"padding="12 10 12 10""#), "{mjml}");
    assert!(!mjml.contains(r#"padding="2""#), "{mjml}");
}

#[test]
fn p0_chrome_attrs_emit_when_set() {
    let mut t = Template::minimal();
    t.preheader.clear();
    t.body.nodes.push(BodyNode::MjSection(MjSection {
        border: Some("1px solid #000".into()),
        border_radius: Some("8px".into()),
        children: vec![SectionChild::MjColumn(MjColumn {
            border_radius: Some("4px".into()),
            components: vec![
                ColumnChild::MjText(MjText {
                    content: "Hi".into(),
                    font_weight: Some("bold".into()),
                    font_style: Some("italic".into()),
                    line_height: Some("1.5".into()),
                    ..Default::default()
                }),
                ColumnChild::MjButton(MjButton {
                    content: "Go".into(),
                    href: "https://example.com".into(),
                    inner_padding: Some("8px 16px".into()),
                    font_size: Some("14px".into()),
                    border: Some("1px solid #333".into()),
                    ..Default::default()
                }),
                ColumnChild::MjImage(MjImage {
                    src: "https://example.com/a.png".into(),
                    alt: "A".into(),
                    border_radius: Some("6px".into()),
                    height: Some("120px".into()),
                    ..Default::default()
                }),
                ColumnChild::MjDivider(dd_emailforge::model::MjDivider {
                    border_style: Some("dashed".into()),
                    width: Some("80%".into()),
                    ..Default::default()
                }),
            ],
            ..Default::default()
        })],
        ..Default::default()
    }));
    let mjml = export(&t);
    assert!(mjml.contains(r#"border="1px solid #000""#), "{mjml}");
    assert!(mjml.contains(r#"border-radius="8px""#), "{mjml}");
    assert!(mjml.contains(r#"border-radius="4px""#), "{mjml}");
    assert!(mjml.contains(r#"font-weight="bold""#), "{mjml}");
    assert!(mjml.contains(r#"font-style="italic""#), "{mjml}");
    assert!(mjml.contains(r#"inner-padding="8px 16px""#), "{mjml}");
    assert!(mjml.contains(r#"border-style="dashed""#), "{mjml}");
    assert!(mjml.contains(r#"height="120px""#), "{mjml}");
}

#[test]
fn p1_layout_attrs_emit_when_set() {
    let mut t = Template::minimal();
    t.preheader.clear();
    t.dir = "rtl".into();
    t.body.nodes.push(BodyNode::MjSection(MjSection {
        gutter: Some("4%".into()),
        background_url: Some("https://example.com/bg.png".into()),
        background_size: Some("cover".into()),
        background_repeat: Some("no-repeat".into()),
        direction: Some("rtl".into()),
        children: vec![SectionChild::MjColumn(MjColumn {
            vertical_align: Some("middle".into()),
            components: vec![
                ColumnChild::MjButton(dd_emailforge::model::MjButton {
                    content: "Go".into(),
                    href: "https://example.com".into(),
                    target: Some("_blank".into()),
                    height: Some("44px".into()),
                    ..Default::default()
                }),
                ColumnChild::MjImage(dd_emailforge::model::MjImage {
                    src: "https://example.com/a.png".into(),
                    alt: "A".into(),
                    title: Some("Photo".into()),
                    ..Default::default()
                }),
                ColumnChild::MjSocial(dd_emailforge::model::MjSocial {
                    icon_padding: Some("4px".into()),
                    color: Some("#333333".into()),
                    ..Default::default()
                }),
            ],
            ..Default::default()
        })],
        ..Default::default()
    }));
    let mjml = export(&t);
    assert!(mjml.contains(r#"dir="rtl""#), "{mjml}");
    assert!(mjml.contains(r#"gutter="4%""#), "{mjml}");
    assert!(
        mjml.contains(r#"background-url="https://example.com/bg.png""#),
        "{mjml}"
    );
    assert!(mjml.contains(r#"background-size="cover""#), "{mjml}");
    assert!(mjml.contains(r#"direction="rtl""#), "{mjml}");
    assert!(mjml.contains(r#"vertical-align="middle""#), "{mjml}");
    assert!(mjml.contains(r#"target="_blank""#), "{mjml}");
    assert!(mjml.contains(r#"title="Photo""#), "{mjml}");
    assert!(mjml.contains(r#"icon-padding="4px""#), "{mjml}");
}

#[test]
fn inner_padding_emits_on_button_social_and_hero() {
    let mut t = Template::minimal();
    t.preheader.clear();
    t.body.nodes.push(BodyNode::MjHero(MjHero {
        inner_padding: Some("8px 16px".into()),
        children: vec![ColumnChild::MjButton(MjButton {
            content: "Go".into(),
            href: "https://example.com".into(),
            inner_padding: Some("6px 12px".into()),
            ..Default::default()
        })],
        ..Default::default()
    }));
    t.body.nodes.push(BodyNode::MjSection(MjSection {
        children: vec![SectionChild::MjColumn(MjColumn {
            components: vec![ColumnChild::MjSocial(MjSocial {
                inner_padding: Some("4px".into()),
                ..Default::default()
            })],
            ..Default::default()
        })],
        ..Default::default()
    }));
    let mjml = export(&t);
    assert!(mjml.contains(r#"inner-padding="8px 16px""#), "{mjml}");
    assert!(mjml.contains(r#"inner-padding="6px 12px""#), "{mjml}");
    assert!(mjml.contains(r#"inner-padding="4px""#), "{mjml}");
    assert!(mjml.contains("<mj-hero"), "{mjml}");
    assert!(mjml.contains("<mj-social"), "{mjml}");
    assert!(mjml.contains("<mj-button"), "{mjml}");
}

#[test]
fn illegal_inner_padding_is_omitted_from_emit() {
    let mut t = Template::minimal();
    t.preheader.clear();
    t.body.nodes.push(BodyNode::MjSection(MjSection {
        children: vec![SectionChild::MjColumn(MjColumn {
            components: vec![ColumnChild::MjButton(MjButton {
                content: "Go".into(),
                href: "https://example.com".into(),
                inner_padding: Some("-2px".into()),
                padding: Some("10em".into()),
                ..Default::default()
            })],
            ..Default::default()
        })],
        ..Default::default()
    }));
    let mjml = export(&t);
    assert!(!mjml.contains(r#"inner-padding="-2px""#), "{mjml}");
    assert!(!mjml.contains(r#"padding="10em""#), "{mjml}");
    assert!(
        mjml.contains(r#"inner-padding="12px 24px""#),
        "brand default still present\n{mjml}"
    );
}

#[test]
fn p2_completeness_attrs_emit_when_set() {
    let mut t = Template::minimal();
    t.preheader.clear();
    t.body.css_class = Some("shell".into());
    t.body.nodes.push(BodyNode::MjSection(MjSection {
        css_class: Some("hero-row".into()),
        children: vec![SectionChild::MjColumn(MjColumn {
            css_class: Some("col".into()),
            components: vec![
                ColumnChild::MjText(MjText {
                    content: "Hi".into(),
                    letter_spacing: Some("0.5px".into()),
                    text_transform: Some("uppercase".into()),
                    css_class: Some("lede".into()),
                    ..Default::default()
                }),
                ColumnChild::MjButton(dd_emailforge::model::MjButton {
                    content: "Go".into(),
                    href: "https://example.com".into(),
                    rel: Some("noopener".into()),
                    title: Some("Open".into()),
                    css_class: Some("cta".into()),
                    ..Default::default()
                }),
                ColumnChild::MjTable(MjTable {
                    content: "<tr><td>1</td></tr>".into(),
                    cellpadding: Some("4".into()),
                    role: Some("presentation".into()),
                    ..Default::default()
                }),
            ],
            ..Default::default()
        })],
        ..Default::default()
    }));
    let mjml = export(&t);
    assert!(mjml.contains(r#"css-class="shell""#), "{mjml}");
    assert!(mjml.contains(r#"css-class="hero-row""#), "{mjml}");
    assert!(mjml.contains(r#"letter-spacing="0.5px""#), "{mjml}");
    assert!(mjml.contains(r#"text-transform="uppercase""#), "{mjml}");
    assert!(mjml.contains(r#"rel="noopener""#), "{mjml}");
    assert!(mjml.contains(r#"cellpadding="4""#), "{mjml}");
    assert!(mjml.contains(r#"role="presentation""#), "{mjml}");
    assert!(mjml.contains("<tr><td>1</td></tr>"), "{mjml}");
    assert!(
        !mjml.contains("<table><tr><td>1</td></tr></table>"),
        "mj-table must not wrap a nested <table>\n{mjml}"
    );
}

#[test]
fn text_escaping_and_allowlist() {
    assert_eq!(emit_text_inner("Hello & Co"), "Hello &amp; Co");
    assert_eq!(emit_text_inner("<b>Hi</b>"), "<b>Hi</b>");
    assert_eq!(emit_text_inner("<script>"), "&lt;script&gt;");
    let escaped = emit_text_inner("</mj-text>oops");
    assert_eq!(escaped, "&lt;/mj-text&gt;oops");
    assert_eq!(escaped.matches("</mj-text>").count(), 0);
}

#[test]
fn closer_cannot_close_mj_text_tag() {
    let mut t = Template::minimal();
    t.preheader.clear();
    t.body.nodes.push(BodyNode::MjSection(MjSection {
        background_color: None,
        padding: None,
        full_width: false,
        children: vec![SectionChild::MjColumn(MjColumn {
            width: None,
            background_color: None,
            padding: None,
            inner_background_color: None,
            components: vec![ColumnChild::MjText(MjText {
                content: "</mj-text>oops".into(),
                align: None,
                font_size: None,
                font_family: None,
                color: None,
                padding: None,
                ..Default::default()
            })],
            ..Default::default()
        })],
        ..Default::default()
    }));
    let mjml = export(&t);
    assert_eq!(mjml.matches("</mj-text>").count(), 1);
    assert!(mjml.contains("&lt;/mj-text&gt;oops"));
}

#[test]
fn json_ld_is_pretty_value_in_head_not_raw_textarea() {
    let mut t = Template::minimal();
    t.preheader.clear();
    t.head.json_ld = "{\"@type\":\"EmailMessage\",\"@context\":\"https://schema.org\"}".into();
    let mjml = export(&t);
    let head_end = mjml.find("</mj-head>").unwrap();
    let raw_pos = mjml.find("<mj-raw>").unwrap();
    assert!(raw_pos < head_end, "json-ld mj-raw must live in mj-head");
    assert!(mjml.contains("<script type=\"application/ld+json\">"));
    assert!(mjml.contains("\"@type\": \"EmailMessage\""));
    assert!(!mjml.contains("{\"@type\":\"EmailMessage\""));
}

#[test]
fn social_x_emits_twitter() {
    let mut t = Template::minimal();
    t.preheader.clear();
    t.body.nodes.push(BodyNode::MjSection(MjSection {
        background_color: None,
        padding: None,
        full_width: false,
        children: vec![SectionChild::MjColumn(MjColumn {
            width: None,
            background_color: None,
            padding: None,
            inner_background_color: None,
            components: vec![ColumnChild::MjSocial(MjSocial {
                mode: SocialMode::Horizontal,
                align: None,
                icon_size: "32px".into(),
                elements: vec![MjSocialElement {
                    name: SocialNetwork::X,
                    href: "https://x.com/acme".into(),
                    src: None,
                    ..Default::default()
                }],
                ..Default::default()
            })],
            ..Default::default()
        })],
        ..Default::default()
    }));
    let mjml = export(&t);
    assert!(mjml.contains("name=\"twitter\""));
    assert!(!mjml.contains("name=\"x\""));
}

#[test]
fn fonts_and_author_css_emit() {
    let mut t = Template::minimal();
    t.preheader.clear();
    t.head.fonts.push(WebFont {
        name: "Raleway".into(),
        href: "https://fonts.googleapis.com/css2?family=Raleway&display=swap".into(),
    });
    t.head.css = "a > b { color: red; }".into();
    t.head.css_inline = true;
    let mjml = export(&t);
    assert!(mjml.contains("<mj-font name=\"Raleway\" href=\"https://fonts.googleapis.com/css2?family=Raleway&amp;display=swap\" />"));
    assert!(mjml.contains("inline=\"inline\""));
    assert!(mjml.contains("a > b { color: red; }"));
    assert!(mjml.contains(".preheader { display:none"));
}

#[test]
fn preview_rewrites_relative_images() {
    let mut t = Template::minimal();
    t.preheader.clear();
    t.body.nodes.push(BodyNode::EmailHeader(EmailHeader {
        logo_src: "logo.png".into(),
        logo_alt: "Logo".into(),
        logo_href: None,
        logo_width: "160px".into(),
        background_color: None,
    }));
    let mjml = preview(&t);
    assert!(mjml.contains("src=\"http://127.0.0.1:48712/images/logo.png\""));
}

#[test]
fn kitchen_sink_is_deterministic_and_covers_blocks() {
    let t = kitchen_sink();
    let a = export(&t);
    let b = export(&t);
    assert_eq!(a, b);
    for needle in [
        "<mj-section",
        "<mj-wrapper",
        "<mj-hero",
        "<mj-group",
        "<mj-divider",
        "<mj-spacer",
        "<mj-table",
        "<tr><td>1</td></tr>",
        "<mj-navbar",
        "hamburger=\"hamburger\"",
        "<mj-navbar-link",
        "<mj-accordion",
        "<mj-accordion-element",
        "<mj-accordion-title",
        "<mj-accordion-text",
        "<mj-carousel",
        "thumbnails=\"hidden\"",
        "<mj-carousel-image",
        "font-size=\"28px\"",
        "Unsubscribe",
        "name=\"twitter\"",
    ] {
        assert!(a.contains(needle), "missing {needle}\n{a}");
    }
    assert!(!a.contains("mj-include"));
    assert_eq!(a.matches("<mj-raw>").count(), 1);
    assert!(a.contains("thumbnails-src=\"https://cdn.example.com/thumb.png\""));
    assert!(!a.contains("hamburger=\"true\""));
}

#[test]
fn hamburger_false_omits_attr() {
    let mut t = Template::minimal();
    t.preheader.clear();
    t.body.nodes.push(BodyNode::MjSection(MjSection {
        background_color: None,
        padding: None,
        full_width: false,
        children: vec![SectionChild::MjColumn(MjColumn {
            width: None,
            background_color: None,
            padding: None,
            inner_background_color: None,
            components: vec![ColumnChild::MjNavbar(dd_emailforge::model::MjNavbar {
                hamburger: false,
                ico_color: None,
                base_url: None,
                align: None,
                padding: None,
                links: vec![],
                ..Default::default()
            })],
            ..Default::default()
        })],
        ..Default::default()
    }));
    let mjml = export(&t);
    assert!(mjml.contains("<mj-navbar"));
    assert!(!mjml.contains("hamburger="));
}

fn kitchen_sink() -> Template {
    let mut t = Template::minimal();
    t.base_url = "https://cdn.example.com/".into();
    t.head.fonts.push(WebFont {
        name: "Raleway".into(),
        href: "https://fonts.googleapis.com/css2?family=Raleway&display=swap".into(),
    });
    t.head.json_ld = r#"{"@context":"https://schema.org","@type":"EmailMessage"}"#.into();
    t.body.nodes = vec![
        BodyNode::EmailHeader(EmailHeader {
            logo_src: "https://cdn.example.com/logo.png".into(),
            logo_alt: "Logo".into(),
            logo_href: Some("https://example.com".into()),
            logo_width: "160px".into(),
            background_color: None,
        }),
        BodyNode::EmailHero(EmailHero {
            image_src: String::new(),
            image_alt: String::new(),
            heading: "You're in.".into(),
            subheading: "Welcome.".into(),
            background_color: None,
        }),
        BodyNode::EmailCta(EmailCta {
            heading: "Shop".into(),
            copy: "Now".into(),
            button_label: "Go".into(),
            button_href: "https://example.com".into(),
            background_color: None,
        }),
        BodyNode::EmailArticle(EmailArticle {
            image_src: "https://cdn.example.com/a.png".into(),
            image_alt: "A".into(),
            title: "Story".into(),
            copy: "Body".into(),
            link_label: "More".into(),
            link_href: "https://example.com".into(),
            image_position: ImagePosition::Left,
        }),
        BodyNode::MjWrapper(MjWrapper {
            background_color: None,
            padding: None,
            full_width: false,
            children: vec![BodyNode::MjSection(MjSection {
                background_color: None,
                padding: None,
                full_width: false,
                children: vec![SectionChild::MjGroup(MjGroup {
                    width: None,
                    background_color: None,
                    children: vec![MjColumn {
                        width: Some("100%".into()),
                        background_color: None,
                        padding: None,
                        inner_background_color: None,
                        components: vec![
                            ColumnChild::MjDivider(dd_emailforge::model::MjDivider {
                                border_color: None,
                                border_width: None,
                                padding: None,
                                ..Default::default()
                            }),
                            ColumnChild::MjSpacer(dd_emailforge::model::MjSpacer {
                                height: "24px".into(),
                                ..Default::default()
                            }),
                            ColumnChild::MjTable(MjTable {
                                content: "<tr><td>1</td></tr>".into(),
                                font_size: None,
                                color: None,
                                padding: None,
                                ..Default::default()
                            }),
                            ColumnChild::MjNavbar(dd_emailforge::model::MjNavbar {
                                hamburger: true,
                                ico_color: Some("#ffffff".into()),
                                base_url: None,
                                align: None,
                                padding: None,
                                links: vec![dd_emailforge::model::MjNavbarLink {
                                    href: "https://example.com".into(),
                                    content: "Home".into(),
                                    color: None,
                                    padding: None,
                                    ..Default::default()
                                }],
                                ..Default::default()
                            }),
                            ColumnChild::MjAccordion(dd_emailforge::model::MjAccordion {
                                border: None,
                                padding: None,
                                elements: vec![dd_emailforge::model::MjAccordionElement {
                                    title: "Why?".into(),
                                    content: "Because.".into(),
                                    background_color: None,
                                    ..Default::default()
                                }],
                                ..Default::default()
                            }),
                            ColumnChild::MjCarousel(dd_emailforge::model::MjCarousel {
                                align: None,
                                padding: None,
                                border_radius: None,
                                thumbnails: dd_emailforge::model::Thumbnails::Hidden,
                                images: vec![dd_emailforge::model::MjCarouselImage {
                                    src: "https://cdn.example.com/slide.png".into(),
                                    alt: "Slide".into(),
                                    href: None,
                                    thumbnails_src: Some(
                                        "https://cdn.example.com/thumb.png".into(),
                                    ),
                                    ..Default::default()
                                }],
                                ..Default::default()
                            }),
                        ],
                        ..Default::default()
                    }],
                    ..Default::default()
                })],
                ..Default::default()
            })],
            ..Default::default()
        }),
        BodyNode::MjHero(MjHero {
            mode: HeroMode::FluidHeight,
            background_url: None,
            background_color: None,
            background_height: None,
            width: None,
            height: None,
            children: vec![ColumnChild::MjText(MjText {
                content: "<b>Hi</b>".into(),
                align: None,
                font_size: None,
                font_family: None,
                color: None,
                padding: None,
                ..Default::default()
            })],
            ..Default::default()
        }),
        BodyNode::EmailFooter(EmailFooter {
            company_name: "Acme".into(),
            address_lines: vec!["1 Main".into()],
            unsubscribe_label: "Unsubscribe".into(),
            unsubscribe_href: "*|UNSUB|*".into(),
            social: vec![MjSocialElement {
                name: SocialNetwork::X,
                href: "https://x.com/acme".into(),
                src: None,
                ..Default::default()
            }],
            copyright: Some("© Acme".into()),
        }),
    ];
    t
}

#[test]
fn border_sides_emit_per_side_attrs() {
    let mut t = Template::minimal();
    t.preheader.clear();
    t.body.nodes.push(BodyNode::MjSection(MjSection {
        border: Some("1px solid #000".into()),
        border_sides: Some("top,bottom".into()),
        children: vec![SectionChild::MjColumn(MjColumn {
            border: Some("2px dashed #333".into()),
            border_sides: Some("left".into()),
            inner_border: Some("1px solid #eee".into()),
            inner_border_sides: Some("right".into()),
            components: vec![
                ColumnChild::MjButton(MjButton {
                    content: "Go".into(),
                    href: "https://example.com".into(),
                    border: Some("1px solid #333".into()),
                    border_sides: Some("top".into()),
                    ..Default::default()
                }),
                ColumnChild::MjImage(MjImage {
                    src: "https://example.com/a.png".into(),
                    alt: "A".into(),
                    border: Some("4px solid #f00".into()),
                    border_sides: Some("left,right".into()),
                    ..Default::default()
                }),
            ],
            ..Default::default()
        })],
        ..Default::default()
    }));
    let mjml = export(&t);
    assert!(mjml.contains(r#"border-top="1px solid #000""#), "{mjml}");
    assert!(mjml.contains(r#"border-bottom="1px solid #000""#), "{mjml}");
    assert!(mjml.contains(r#"border-left="2px dashed #333""#), "{mjml}");
    assert!(mjml.contains(r#"inner-border-right="1px solid #eee""#), "{mjml}");
    assert!(mjml.contains(r#"border-top="1px solid #333""#), "{mjml}");
    assert!(mjml.contains(r#"border-left="4px solid #f00""#), "{mjml}");
    assert!(mjml.contains(r#"border-right="4px solid #f00""#), "{mjml}");
    assert!(!mjml.contains(r#"<mj-section border="1px solid #000""#), "{mjml}");
}

#[test]
fn author_label_is_not_emitted() {
    let mut t = Template::minimal();
    t.preheader.clear();
    t.body.nodes.push(BodyNode::MjSection(MjSection {
        label: Some("hero".into()),
        children: vec![SectionChild::MjColumn(MjColumn::default())],
        ..Default::default()
    }));
    t.body.nodes.push(BodyNode::MjWrapper(MjWrapper {
        label: Some("footer".into()),
        ..Default::default()
    }));
    let mjml = export(&t);
    assert!(!mjml.contains("hero"), "{mjml}");
    assert!(!mjml.contains("footer"), "{mjml}");
    assert!(!mjml.contains("label="), "{mjml}");
}

#[test]
fn minimal_template_exact_document() {
    let t = Template::minimal();
    let expected = "\
<mjml lang=\"en\">
  <mj-head>
    <mj-title>You're in.</mj-title>
    <mj-preview>Here's what happens next.</mj-preview>
    <mj-breakpoint width=\"480px\" />
    <mj-attributes>
      <mj-all font-family=\"Arial, Helvetica, sans-serif\" />
      <mj-text color=\"#1a1a1a\" font-size=\"16px\" line-height=\"1.5\" />
      <mj-button background-color=\"#FFAF46\" color=\"#0F1114\" border-radius=\"4px\" inner-padding=\"12px 24px\" font-weight=\"bold\" />
      <mj-body background-color=\"#f4f4f4\" width=\"600px\" />
      <mj-section padding=\"20px 0\" />
      <mj-image padding=\"0\" />
    </mj-attributes>
    <mj-style>
      .preheader { display:none !important; visibility:hidden; opacity:0; color:transparent; height:0; width:0; }
    </mj-style>
  </mj-head>
  <mj-body background-color=\"#f4f4f4\" width=\"600px\">
    <mj-section css-class=\"preheader\" padding=\"0\">
      <mj-column>
        <mj-text>Here's what happens next.</mj-text>
      </mj-column>
    </mj-section>
  </mj-body>
</mjml>
";
    assert_eq!(export(&t), expected);
    assert_eq!(BRAND_BUTTON_INNER_PADDING, "12px 24px");
}

#[test]
fn escaping_in_attributes_and_text() {
    let mut t = Template::minimal();
    t.preheader.clear();
    t.head.title = "A & B <c> \"d\"".into();
    let mjml = export(&t);
    assert!(mjml.contains("<mj-title>A &amp; B &lt;c&gt; &quot;d&quot;</mj-title>"), "{mjml}");
}

#[test]
fn allowlist_keeps_inline_tags_and_escapes_attributes() {
    assert_eq!(
        emit_text_inner("<A HREF='x?a=1&b=2'>go</A>"),
        "<a HREF=\"x?a=1&amp;b=2\">go</a>"
    );
    assert_eq!(emit_text_inner("line<br>next"), "line<br />next");
    assert_eq!(emit_text_inner("<b>open"), "&lt;b&gt;open");
    assert_eq!(emit_text_inner("<b><i>x</i></b>"), "&lt;b&gt;&lt;i&gt;x&lt;/i&gt;&lt;/b&gt;");
    assert_eq!(emit_text_inner("a < b"), "a &lt; b");
    assert_eq!(emit_text_inner("<span class=\"x\"/>"), "<span class=\"x\" />");
    assert_eq!(emit_text_inner("</b>"), "&lt;/b&gt;");
}

#[test]
fn image_errors_are_reported() {
    let mut t = Template::minimal();
    t.preheader.clear();
    t.body.nodes.push(BodyNode::EmailHero(EmailHero {
        image_src: "http://example.com/a.png".into(),
        image_alt: "A".into(),
        heading: "H".into(),
        subheading: String::new(),
        background_color: None,
    }));
    assert_eq!(
        emit_mjml(&t, EmitMode::Export).unwrap_err(),
        "insecure image URL: http://example.com/a.png"
    );
    let mut t2 = Template::minimal();
    t2.body.nodes.push(BodyNode::EmailHeader(EmailHeader {
        logo_src: "logo.png".into(),
        logo_alt: "Logo".into(),
        logo_href: None,
        logo_width: "160px".into(),
        background_color: None,
    }));
    assert_eq!(
        emit_mjml(&t2, EmitMode::Export).unwrap_err(),
        "relative image 'logo.png' requires base_url"
    );
    t2.base_url = "https://cdn.example.com".into();
    let mjml = emit_mjml(&t2, EmitMode::Export).unwrap();
    assert!(mjml.contains("src=\"https://cdn.example.com/logo.png\""), "{mjml}");
}

#[test]
fn json_ld_errors_are_reported() {
    let mut t = Template::minimal();
    t.head.json_ld = "\"hello\"".into();
    assert_eq!(
        emit_mjml(&t, EmitMode::Export).unwrap_err(),
        "head.json_ld must be a JSON object or array"
    );
    t.head.json_ld = "{oops".into();
    let e = emit_mjml(&t, EmitMode::Export).unwrap_err();
    assert!(e.starts_with("head.json_ld is not valid JSON: "), "{e}");
    t.head.json_ld = "   ".into();
    assert!(!emit_mjml(&t, EmitMode::Export).unwrap().contains("<mj-raw>"));
}

#[test]
fn preview_origin_and_leading_slashes() {
    let t = Template::minimal();
    let mode = EmitMode::Preview { origin: "http://127.0.0.1:9/".into() };
    assert_eq!(rewrite_src("/images/a.png", &t, &mode).unwrap(), "http://127.0.0.1:9/images/a.png");
    assert_eq!(rewrite_src("  b.png ", &t, &mode).unwrap(), "http://127.0.0.1:9/images/b.png");
    assert_eq!(rewrite_src("HTTPS://X.example/a.png", &t, &mode).unwrap(), "HTTPS://X.example/a.png");
    assert_eq!(
        rewrite_src("http://localhost:3000/a.png", &t, &EmitMode::Export).unwrap_err(),
        "loopback image URL not allowed in export: http://localhost:3000/a.png"
    );
    assert_eq!(
        rewrite_src("DATA:x", &t, &EmitMode::Export).unwrap_err(),
        "unsupported image URL scheme: DATA:x"
    );
    assert_eq!(rewrite_src("  ", &t, &EmitMode::Export).unwrap_err(), "empty image src");
}

#[test]
fn article_positions_order_columns() {
    let mut t = Template::minimal();
    t.preheader.clear();
    t.body.nodes.push(BodyNode::EmailArticle(EmailArticle {
        image_src: "https://cdn.example.com/a.png".into(),
        image_alt: "A".into(),
        title: "T".into(),
        copy: String::new(),
        link_label: String::new(),
        link_href: String::new(),
        image_position: ImagePosition::Right,
    }));
    let mjml = export(&t);
    let body = &mjml[mjml.rfind("<mj-body").unwrap()..];
    let text = body.find("<mj-text").unwrap();
    let image = body.find("<mj-image src=").unwrap();
    assert!(text < image, "{mjml}");
    assert_eq!(mjml.matches("width=\"50%\"").count(), 2, "{mjml}");
}

#[test]
fn footer_lines_join_with_breaks() {
    let mut t = Template::minimal();
    t.preheader.clear();
    t.body.nodes.push(BodyNode::EmailFooter(EmailFooter {
        company_name: "Acme & Co".into(),
        address_lines: vec!["1 Main".into(), "  ".into(), "Town".into()],
        unsubscribe_label: String::new(),
        unsubscribe_href: "https://x.example/u?a=1&b=2".into(),
        social: vec![],
        copyright: Some("  (c) 2025 ".into()),
    }));
    let mjml = export(&t);
    assert!(mjml.contains(
        "Acme &amp; Co<br />1 Main<br />Town<br /><a href=\"https://x.example/u?a=1&amp;b=2\">Unsubscribe</a><br />(c) 2025"
    ), "{mjml}");
}

#[test]
fn emitting_twice_gives_the_same_document() {
    let mut t = Template::minimal();
    t.body.nodes.push(BodyNode::EmailCta(EmailCta {
        heading: "Shop".into(),
        copy: "Now".into(),
        button_label: "Go".into(),
        button_href: "https://example.com".into(),
        background_color: Some("#ffffff".into()),
    }));
    assert_eq!(export(&t), export(&t));
    assert!(export(&t).ends_with('\n'));
}
