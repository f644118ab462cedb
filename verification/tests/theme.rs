use dd_emailforge::tui::help::HelpLine;
use dd_emailforge::tui::theme::{
    default_colors, from_palette, theme_lines, theme_step, try_parse_hex_color, Palette, ThemeRead, ThemeStep,
};

fn valid_palette() -> Palette {
    Palette {
        base_background: "#0F1114".to_string(),
        body_background: "#2A2D31".to_string(),
        modal_background: "#1C1E21".to_string(),
        text_primary: "#F5F6F7".to_string(),
        text_secondary: "#9EA3AA".to_string(),
        text_disabled: None,
        text_inverse: None,
        text_labels: "#FFAF46".to_string(),
        text_active_focus: "#64B4F5".to_string(),
        modal_labels: "#64B4F5".to_string(),
        modal_text: "#F5F6F7".to_string(),
        modal_header: "#64B4F5".to_string(),
        selected_background: "#0F1114".to_string(),
        border_default: "#F5F6F7".to_string(),
        border_active: "#64B4F5".to_string(),
        scrollbar: "#FFA087".to_string(),
        scrollbar_hover: "#64B4F5".to_string(),
        input_border_default: "#F5F6F7".to_string(),
        input_border_focus: "#64B4F5".to_string(),
        input_text_default: "#F5F6F7".to_string(),
        input_text_focus: "#64B4F5".to_string(),
        cursor: "#64B4F5".to_string(),
        success: "#82e0aa".to_string(),
        warning: "#f5c469".to_string(),
        error: "#e57373".to_string(),
        info: "#5dade2".to_string(),
        folders: "#64B4F5".to_string(),
        files: "#FFAF46".to_string(),
        links: "#FFA087".to_string(),
    }
}

fn parsed(version: Option<u32>, quotes: Vec<String>, colors: Palette) -> ThemeRead {
    ThemeRead::Parsed { version, header_quotes: quotes, colors }
}

fn joined(lines: &[HelpLine]) -> String {
    lines.iter().map(|l| format!("{}{}", l.key, l.text)).collect::<Vec<_>>().join("\n")
}

#[test]
fn theme_text_includes_canonical_token_and_source() {
    let text = theme_lines(&default_colors(), "local", &None, 80);
    let joined = joined(&text);
    assert!(joined.contains("base_background"), "{joined}");
    assert!(joined.contains("local"), "{joined}");
    assert!(joined.contains("OK (loaded cleanly)"), "{joined}");
    assert!(!joined.contains("\nbackground "), "{joined}");
}

#[test]
fn theme_text_token_line_is_padded_hex_and_role() {
    let text = theme_lines(&default_colors(), "default", &Some("warned".to_string()), 80);
    assert!(text.iter().any(|l| l.text == "  base_background    #0F1114   (app_shell base)"));
    assert!(text.iter().any(|l| l.key == "  Status: " && l.text == "warned"));
    assert!(text.iter().any(|l| l.text == "  scrollbar_hover    #64B4F5   (scrollbar thumb)"));
    assert_eq!(text.len(), 42);
}

#[test]
fn load_accepts_version_1() {
    match theme_step(None, "theme.yml", parsed(Some(1), Vec::new(), valid_palette())) {
        ThemeStep::Use { colors, header_quotes, warning } => {
            assert_eq!(colors.base_background, (0x0F, 0x11, 0x14));
            assert_eq!(colors.text_disabled, (0xA0, 0xA4, 0xA8));
            assert_eq!(colors.text_inverse, (0xF9, 0xFA, 0xFB));
            assert_eq!(colors.success, (0x82, 0xe0, 0xaa));
            assert_eq!(header_quotes.len(), 5);
            assert!(warning.is_none());
        }
        ThemeStep::Next(_) => panic!("expected the theme to be used"),
    }
}

#[test]
fn load_skips_version_2_with_warning() {
    match theme_step(None, "theme.yml", parsed(Some(2), Vec::new(), valid_palette())) {
        ThemeStep::Next(Some(w)) => {
            assert_eq!(w, "theme 'theme.yml' declares version 2 (expected 1); using built-in defaults");
        }
        _ => panic!("expected a warning"),
    }
}

#[test]
fn load_skips_missing_version_with_warning() {
    match theme_step(None, "t.yml", parsed(None, Vec::new(), valid_palette())) {
        ThemeStep::Next(Some(w)) => assert!(w.contains("missing required 'version: 1'")),
        _ => panic!("expected a warning"),
    }
}

#[test]
fn load_uses_header_quotes_override() {
    let quotes = vec!["One".to_string(), "Two".to_string()];
    match theme_step(None, "t.yml", parsed(Some(1), quotes, valid_palette())) {
        ThemeStep::Use { header_quotes, .. } => assert_eq!(header_quotes, vec!["One".to_string(), "Two".to_string()]),
        ThemeStep::Next(_) => panic!("expected the theme to be used"),
    }
}

#[test]
fn missing_file_keeps_earlier_warning() {
    match theme_step(Some("earlier".to_string()), "t.yml", ThemeRead::Missing) {
        ThemeStep::Next(w) => assert_eq!(w.as_deref(), Some("earlier")),
        _ => panic!("expected next"),
    }
}

#[test]
fn unreadable_and_invalid_files_warn() {
    match theme_step(None, "a.yml", ThemeRead::ReadFailed("denied".to_string())) {
        ThemeStep::Next(Some(w)) => assert_eq!(w, "could not read 'a.yml': denied"),
        _ => panic!("expected a warning"),
    }
    match theme_step(None, "b.yml", ThemeRead::Invalid("bad yaml".to_string())) {
        ThemeStep::Next(Some(w)) => assert_eq!(w, "invalid theme file 'b.yml': bad yaml"),
        _ => panic!("expected a warning"),
    }
}

#[test]
fn bad_color_names_first_bad_entry() {
    let mut p = valid_palette();
    p.text_primary = "nope".to_string();
    p.links = "also bad".to_string();
    assert_eq!(from_palette(&p).err().as_deref(), Some("expected hex color like '#RRGGBB', got 'nope'"));
    match theme_step(None, "c.yml", parsed(Some(1), Vec::new(), p)) {
        ThemeStep::Next(Some(w)) => assert_eq!(
            w,
            "theme 'c.yml' color parse error: expected hex color like '#RRGGBB', got 'nope'; using defaults"
        ),
        _ => panic!("expected a warning"),
    }
}

#[test]
fn optional_entries_are_read_when_given() {
    let mut p = valid_palette();
    p.text_disabled = Some("#123".to_string());
    let c = from_palette(&p).expect("palette");
    assert_eq!(c.text_disabled, (0x11, 0x22, 0x33));
}

#[test]
fn default_colors_match_builtin_palette() {
    let c = default_colors();
    assert_eq!(c.base_background, (15, 17, 20));
    assert_eq!(c.border_active, (100, 180, 245));
    assert_eq!(c.links, (255, 160, 135));
}

#[test]
fn try_parse_hex_color_is_some_only_for_colors() {
    assert_eq!(try_parse_hex_color(" #fff "), Some((255, 255, 255)));
    assert_eq!(try_parse_hex_color("#12"), None);
}
