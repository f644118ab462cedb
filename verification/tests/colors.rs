use dd_emailforge::tui::colors::{color_to_hex, default_header_quotes, parse_hex_color, pick_header_copy};

#[test]
fn parses_six_and_three_digit_colors() {
    assert_eq!(parse_hex_color("#FFAF46"), Ok((255, 175, 70)));
    assert_eq!(parse_hex_color("  #abc "), Ok((0xaa, 0xbb, 0xcc)));
    assert_eq!(parse_hex_color("0f1114"), Ok((15, 17, 20)));
    assert_eq!(parse_hex_color("##123456"), Ok((0x12, 0x34, 0x56)));
}

#[test]
fn refuses_other_lengths_and_digits() {
    assert_eq!(
        parse_hex_color("#12345"),
        Err("expected hex color like '#RRGGBB', got '#12345'".to_string())
    );
    assert_eq!(
        parse_hex_color(" #ggg"),
        Err("expected hex color like '#RRGGBB', got ' #ggg'".to_string())
    );
    assert!(parse_hex_color("").is_err());
}

#[test]
fn writes_upper_case_hex() {
    assert_eq!(color_to_hex(255, 175, 70), "#FFAF46");
    assert_eq!(color_to_hex(0, 0, 0), "#000000");
    assert_eq!(color_to_hex(15, 17, 20), "#0F1114");
}

#[test]
fn written_colors_read_back() {
    for (r, g, b) in [(0u8, 0u8, 0u8), (255, 255, 255), (1, 128, 254), (42, 45, 49)] {
        assert_eq!(parse_hex_color(&color_to_hex(r, g, b)), Ok((r, g, b)));
    }
}

#[test]
fn choose_header_copy_picks_a_builtin() {
    let quotes = default_header_quotes();
    let picked = pick_header_copy(&quotes, 1_700_000_123);
    assert!(quotes.contains(&picked), "{picked}");
}

#[test]
fn header_copy_by_seed_and_fallback() {
    let quotes = default_header_quotes();
    assert_eq!(quotes.len(), 5);
    assert_eq!(pick_header_copy(&quotes, 7), quotes[2]);
    assert_eq!(pick_header_copy(&quotes, 5), quotes[0]);
    assert_eq!(
        pick_header_copy(&Vec::new(), 3),
        "Subject lines are just clickbait with better manners."
    );
}
