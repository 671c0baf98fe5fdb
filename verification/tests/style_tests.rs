use render_bridge::strutil::chars_of;
use render_bridge::style::{
    canonical, clamp_len, parse_color, parse_px, radii_from_shorthand, CssValue, Property, Radii,
    Rgba, Unit, UsedValue, LEN_MAX,
};

fn chars(s: &str) -> Vec<char> {
    chars_of(s)
}

#[test]
fn parse_px_plain() {
    assert_eq!(parse_px(&chars("12px")), Some(12));
    assert_eq!(parse_px(&chars("0px")), Some(0));
    assert_eq!(parse_px(&chars("-3px")), Some(-3));
    assert_eq!(parse_px(&chars("999999999999px")), Some(999_999_999_999));
}

#[test]
fn parse_px_fraction_truncates() {
    assert_eq!(parse_px(&chars("12.5px")), Some(12));
    assert_eq!(parse_px(&chars("12.px")), Some(12));
    assert_eq!(parse_px(&chars("-7.9px")), Some(-7));
}

#[test]
fn parse_px_rejects_malformed() {
    assert_eq!(parse_px(&chars("abcpx")), None);
    assert_eq!(parse_px(&chars("12")), None);
    assert_eq!(parse_px(&chars("12em")), None);
    assert_eq!(parse_px(&chars("px")), None);
    assert_eq!(parse_px(&chars("")), None);
    assert_eq!(parse_px(&chars("1.2.3px")), None);
    assert_eq!(parse_px(&chars("1e5px")), None);
    // a thirteenth digit makes the run too long
    assert_eq!(parse_px(&chars("1000000000000px")), None);
}

#[test]
fn parse_color_hex_forms() {
    assert_eq!(
        parse_color(&chars("#ff0000")),
        Some(Rgba { r: 255, g: 0, b: 0, a: 255 })
    );
    assert_eq!(
        parse_color(&chars("#f00")),
        Some(Rgba { r: 255, g: 0, b: 0, a: 255 })
    );
    assert_eq!(
        parse_color(&chars("#00ff0080")),
        Some(Rgba { r: 0, g: 255, b: 0, a: 128 })
    );
    assert_eq!(
        parse_color(&chars("#1a2B")),
        Some(Rgba { r: 17, g: 170, b: 34, a: 187 })
    );
    assert_eq!(parse_color(&chars("#12345")), None);
    assert_eq!(parse_color(&chars("#gg0000")), None);
}

#[test]
fn parse_color_named() {
    assert_eq!(
        parse_color(&chars("red")),
        Some(Rgba { r: 255, g: 0, b: 0, a: 255 })
    );
    assert_eq!(
        parse_color(&chars("transparent")),
        Some(Rgba { r: 0, g: 0, b: 0, a: 0 })
    );
    assert_eq!(
        parse_color(&chars("orange")),
        Some(Rgba { r: 255, g: 165, b: 0, a: 255 })
    );
    assert_eq!(parse_color(&chars("blurple")), None);
    assert_eq!(parse_color(&chars("Red")), None);
}

#[test]
fn radius_shorthand_one_value() {
    assert_eq!(
        radii_from_shorthand(&chars("4px")),
        Radii { tl: 4, tr: 4, br: 4, bl: 4 }
    );
}

#[test]
fn radius_shorthand_two_values() {
    assert_eq!(
        radii_from_shorthand(&chars("4px 2px")),
        Radii { tl: 4, tr: 2, br: 4, bl: 2 }
    );
}

#[test]
fn radius_shorthand_three_values() {
    assert_eq!(
        radii_from_shorthand(&chars("4px 2px 1px")),
        Radii { tl: 4, tr: 2, br: 1, bl: 2 }
    );
}

#[test]
fn radius_shorthand_four_values() {
    assert_eq!(
        radii_from_shorthand(&chars("4px 2px 1px 7px")),
        Radii { tl: 4, tr: 2, br: 1, bl: 7 }
    );
}

#[test]
fn radius_shorthand_bad_pieces_fall_back_to_zero() {
    assert_eq!(
        radii_from_shorthand(&chars("4em 2px")),
        Radii { tl: 0, tr: 2, br: 0, bl: 2 }
    );
    // a double space yields an empty piece, which counts as a corner of zero
    assert_eq!(
        radii_from_shorthand(&chars("4px  2px")),
        Radii { tl: 4, tr: 0, br: 2, bl: 0 }
    );
}

#[test]
fn canonical_resolves_each_form() {
    match canonical(&CssValue::Length(7, Unit::Px)) {
        UsedValue::Px(n) => assert_eq!(n, 7),
        _ => panic!("expected a length"),
    }
    match canonical(&CssValue::Length(7, Unit::Percent)) {
        UsedValue::Px(n) => assert_eq!(n, 0),
        _ => panic!("expected the zero fallback"),
    }
    match canonical(&CssValue::CompositeString(String::from("42px"))) {
        UsedValue::Px(n) => assert_eq!(n, 42),
        _ => panic!("expected a parsed length"),
    }
    match canonical(&CssValue::Keyword(String::from("red"))) {
        UsedValue::Color(c) => assert_eq!(c, Rgba { r: 255, g: 0, b: 0, a: 255 }),
        _ => panic!("expected a parsed color"),
    }
    match canonical(&CssValue::Keyword(String::from("absolute"))) {
        UsedValue::Keyword(s) => assert_eq!(s, "absolute"),
        _ => panic!("expected the keyword to survive"),
    }
}

#[test]
fn clamp_len_limits_magnitude() {
    assert_eq!(clamp_len(5), 5);
    assert_eq!(clamp_len(i64::MAX), LEN_MAX);
    assert_eq!(clamp_len(i64::MIN), -LEN_MAX);
}

#[test]
fn compute_value_is_idempotent() {
    let mut p = Property::new(
        String::from("width"),
        CssValue::CompositeString(String::from("10px")),
    );
    assert!(p.used.is_none());
    p.compute_value();
    match &p.used {
        Some(UsedValue::Px(n)) => assert_eq!(*n, 10),
        _ => panic!("expected the slot to be filled with a length"),
    }
    // resolving again keeps the cached value
    p.compute_value();
    match &p.used {
        Some(UsedValue::Px(n)) => assert_eq!(*n, 10),
        _ => panic!("expected the slot to be stable"),
    }
}

#[test]
fn effective_tolerates_both_states() {
    let p = Property::new(
        String::from("height"),
        CssValue::CompositeString(String::from("3px")),
    );
    match p.effective() {
        UsedValue::Px(n) => assert_eq!(n, 3),
        _ => panic!("expected a length"),
    }
    let mut q = Property::new(
        String::from("height"),
        CssValue::CompositeString(String::from("3px")),
    );
    q.compute_value();
    match q.effective() {
        UsedValue::Px(n) => assert_eq!(n, 3),
        _ => panic!("expected the cached length"),
    }
}
