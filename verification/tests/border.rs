use dd_emailforge::border::{horizontal_px, mjml_attrs, Sides};

/// One pixel in the units `horizontal_px` reports (10^-18 px).
const PX: i128 = 1_000_000_000_000_000_000;

#[test]
fn empty_and_all_are_all_sides() {
    assert_eq!(Sides::from_storage("").unwrap(), Sides::all());
    assert_eq!(Sides::from_storage("all").unwrap(), Sides::all());
    assert_eq!(Sides::from_storage("  ALL  ").unwrap(), Sides::all());
    assert_eq!(Sides::all().to_storage(), None);
    assert_eq!(Sides::all().to_form(), "all");
}

#[test]
fn parses_subset() {
    let s = Sides::from_storage("top,bottom").unwrap();
    assert!(s.top && s.bottom && !s.left && !s.right);
    assert_eq!(s.to_form(), "top,bottom");
    assert_eq!(s.to_storage().as_deref(), Some("top,bottom"));
    let s = Sides::from_storage("left right").unwrap();
    assert_eq!(s.to_form(), "right,left");
}

#[test]
fn rejects_unknown() {
    assert!(Sides::from_storage("top,foo").is_err());
}

#[test]
fn toggle_all_and_sides() {
    assert_eq!(Sides::all().toggle("all"), Sides::all());
    let top = Sides::all().toggle("top");
    assert_eq!(top.to_form(), "top");
    let top_bottom = top.toggle("bottom");
    assert_eq!(top_bottom.to_form(), "top,bottom");
    assert_eq!(top_bottom.toggle("all").to_form(), "all");
    // last remaining side stays
    assert_eq!(top.toggle("top").to_form(), "top");
    // four individuals collapse to all
    let all = Sides::from_storage("top")
        .unwrap()
        .toggle("right")
        .toggle("bottom")
        .toggle("left");
    assert!(all.is_all());
}

#[test]
fn has_shows_all_or_individuals_not_both() {
    assert!(Sides::all().has("all"));
    assert!(!Sides::all().has("top"));
    let top = Sides::all().toggle("top");
    assert!(!top.has("all"));
    assert!(top.has("top"));
    assert!(!top.has("bottom"));
}

#[test]
fn horizontal_px_honors_sides() {
    assert_eq!(horizontal_px("1px solid #ff0000", None), 2 * PX);
    assert_eq!(horizontal_px("1px solid #ff0000", Some("all")), 2 * PX);
    assert_eq!(horizontal_px("1px solid #ff0000", Some("left")), PX);
    assert_eq!(horizontal_px("1px solid #ff0000", Some("top")), 0);
    assert_eq!(horizontal_px("none", None), 0);
}

#[test]
fn mjml_attr_names() {
    assert_eq!(mjml_attrs("border", Sides::all()), vec!["border"]);
    let top_bottom = Sides::from_storage("top,bottom").unwrap();
    assert_eq!(
        mjml_attrs("border", top_bottom),
        vec!["border-top", "border-bottom"]
    );
    assert_eq!(
        mjml_attrs("inner-border", top_bottom),
        vec!["inner-border-top", "inner-border-bottom"]
    );
}

#[test]
fn unknown_side_message_names_the_side() {
    let e = Sides::from_storage("top,foo").unwrap_err();
    assert!(e.contains("foo"), "{e}");
}

#[test]
fn storage_round_trip_of_each_selection() {
    for form in ["top", "right", "bottom", "left", "top,bottom", "right,left", "top,right,bottom"] {
        let s = Sides::from_storage(form).unwrap();
        let stored = s.to_storage().unwrap();
        assert_eq!(Sides::from_storage(&stored).unwrap(), s);
        assert_eq!(Sides::from_storage(&s.to_form()).unwrap(), s);
    }
    let none = Sides::none();
    assert!(none.is_none());
    assert_eq!(none.to_storage(), None);
    assert_eq!(Sides::from_storage("").unwrap(), Sides::all());
}

#[test]
fn toggling_keeps_at_least_one_side() {
    let left = Sides::all().toggle("left");
    let same = left.toggle("left");
    assert_eq!(same, left);
    assert!(!same.is_none());
}

#[test]
fn fractional_and_unreadable_border_widths() {
    assert_eq!(horizontal_px("1.5px dashed #000", None), 3 * PX);
    assert_eq!(horizontal_px("2em solid red", None), 0);
    assert_eq!(horizontal_px("0", None), 0);
    assert_eq!(horizontal_px("", Some("left")), 0);
    assert_eq!(horizontal_px("3px solid", Some("bogus")), 6 * PX);
}
