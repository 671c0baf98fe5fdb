use render_bridge::geom::{resolve_box, AbsBox, Insets};

fn insets() -> Insets {
    Insets { top: None, left: None, right: None, bottom: None, width: None, height: None }
}

#[test]
fn bottom_anchors_top() {
    // top unset, bottom = 30 on a container of height 100: top is 100 - 30
    let i = Insets {
        left: Some(10),
        bottom: Some(30),
        width: Some(50),
        height: Some(20),
        ..insets()
    };
    let b = resolve_box(&i, 200, 100).unwrap();
    assert_eq!(b, AbsBox { x: 10, y: 70, width: 50, height: 20 });
}

#[test]
fn right_anchors_left() {
    let i = Insets {
        top: Some(5),
        right: Some(40),
        width: Some(30),
        height: Some(10),
        ..insets()
    };
    let b = resolve_box(&i, 200, 100).unwrap();
    assert_eq!(b, AbsBox { x: 160, y: 5, width: 30, height: 10 });
}

#[test]
fn top_left_take_precedence_over_bottom_right() {
    // both pairs resolvable: top/left win for position
    let i = Insets {
        top: Some(1),
        left: Some(2),
        right: Some(90),
        bottom: Some(90),
        width: Some(10),
        height: Some(10),
    };
    let b = resolve_box(&i, 200, 100).unwrap();
    assert_eq!((b.x, b.y), (2, 1));
}

#[test]
fn unresolvable_position_gives_no_box() {
    // neither top nor bottom: no vertical position
    let i = Insets { left: Some(10), width: Some(10), height: Some(10), ..insets() };
    assert_eq!(resolve_box(&i, 200, 100), None);
    // neither left nor right: no horizontal position
    let j = Insets { top: Some(10), width: Some(10), height: Some(10), ..insets() };
    assert_eq!(resolve_box(&j, 200, 100), None);
}

#[test]
fn missing_size_derives_from_opposite_inset() {
    // width unset, right = 40: the box spans from left to the right inset
    let i = Insets {
        top: Some(0),
        left: Some(10),
        right: Some(40),
        height: Some(10),
        ..insets()
    };
    let b = resolve_box(&i, 200, 100).unwrap();
    assert_eq!(b.width, 200 - 40 - 10);
}

#[test]
fn missing_size_without_opposite_collapses() {
    // width unset and right unset: the box collapses and is skipped
    let i = Insets { top: Some(0), left: Some(10), height: Some(10), ..insets() };
    assert_eq!(resolve_box(&i, 200, 100), None);
}

#[test]
fn zero_size_is_skipped() {
    let i = Insets {
        top: Some(0),
        left: Some(0),
        width: Some(0),
        height: Some(10),
        ..insets()
    };
    assert_eq!(resolve_box(&i, 200, 100), None);
    let j = Insets {
        top: Some(0),
        left: Some(0),
        width: Some(10),
        height: Some(0),
        ..insets()
    };
    assert_eq!(resolve_box(&j, 200, 100), None);
}
