use dd_emailforge::padding::{
    border_horizontal_px, horizontal_px, normalize_padding, normalize_unit, RULE, UNIT_RULE,
};

/// One pixel in the units the width helpers report (10^-18 px).
const PX: i128 = 1_000_000_000_000_000_000;

#[test]
fn empty_is_ok() {
    assert_eq!(normalize_padding("").unwrap(), "");
    assert_eq!(normalize_padding("   ").unwrap(), "");
}

#[test]
fn units_pass_through() {
    assert_eq!(normalize_padding("10px").unwrap(), "10px");
    assert_eq!(normalize_padding("10%").unwrap(), "10%");
    assert_eq!(normalize_padding("10px 20px").unwrap(), "10px 20px");
    assert_eq!(
        normalize_padding("12px 10px 12px 10px").unwrap(),
        "12px 10px 12px 10px"
    );
    assert_eq!(normalize_padding("0").unwrap(), "0");
    assert_eq!(normalize_padding("0 10px").unwrap(), "0 10px");
    assert_eq!(normalize_padding("1.5px").unwrap(), "1.5px");
}

#[test]
fn bare_numbers_become_px() {
    assert_eq!(normalize_padding("2").unwrap(), "2px");
    assert_eq!(
        normalize_padding("12 10 12 10").unwrap(),
        "12px 10px 12px 10px"
    );
    assert_eq!(normalize_padding("10px 20").unwrap(), "10px 20px");
}

#[test]
fn rejects_bad_values() {
    assert!(normalize_padding("10em").is_err());
    assert!(normalize_padding("foo").is_err());
    assert!(normalize_padding("1 2 3 4 5").is_err());
    assert!(normalize_padding("10 px").is_err());
    assert!(normalize_padding("px").is_err());
    assert!(normalize_padding("10PX").is_err());
    assert!(normalize_padding("-2px").is_err());
    assert!(normalize_padding("10px -4px").is_err());
}

#[test]
fn horizontal_px_from_shorthand() {
    assert_eq!(horizontal_px("10px").unwrap(), 20 * PX);
    assert_eq!(horizontal_px("12px 24px").unwrap(), 48 * PX);
    assert_eq!(horizontal_px("1px 2px 3px 4px").unwrap(), 6 * PX);
    assert!(horizontal_px("10%").is_none());
    assert!(horizontal_px("").is_none());
    assert_eq!(border_horizontal_px("1px solid #ff0000"), 2 * PX);
    assert_eq!(border_horizontal_px("none"), 0);
}

#[test]
fn single_unit() {
    assert_eq!(normalize_unit("4").unwrap(), "4px");
    assert_eq!(normalize_unit("4px").unwrap(), "4px");
    assert_eq!(normalize_unit("auto").unwrap(), "auto");
    assert!(normalize_unit("4em").is_err());
}

#[test]
fn error_texts_are_the_rules() {
    assert_eq!(normalize_padding("10em").unwrap_err(), RULE);
    assert_eq!(normalize_unit("4em").unwrap_err(), UNIT_RULE);
    assert_eq!(normalize_unit("  AUTO ").unwrap(), "auto");
    assert_eq!(normalize_unit("").unwrap(), "");
}

#[test]
fn normalizing_twice_changes_nothing() {
    for v in ["2", "12 10 12 10", "10px 20", "0 1.5", "  7%  "] {
        let once = normalize_padding(v).unwrap();
        assert_eq!(normalize_padding(&once).unwrap(), once);
    }
}

#[test]
fn three_value_shorthand_uses_the_middle_value() {
    assert_eq!(horizontal_px("1px 5px 9px").unwrap(), 10 * PX);
    assert_eq!(horizontal_px("0").unwrap(), 0);
    assert_eq!(horizontal_px("0.25").unwrap(), PX / 2);
}

#[test]
fn normalized_padding_shape() {
    assert_eq!(normalize_padding("   ").unwrap(), "");
    let o = normalize_padding(" 12  10% 0 ").unwrap();
    assert_eq!(o, "12px 10% 0");
    assert_eq!(o.split(' ').count(), 3);
    assert!(normalize_padding("-4").is_err());
}
