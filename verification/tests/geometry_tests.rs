use lcd_graphics::geometry::validity::{Unchecked, Valid};
use lcd_graphics::geometry::{Position2, Size2};

#[test]
fn position_new_and_validate_keep_coordinates() {
    let p: Position2<Unchecked> = Position2::new(3, 4);
    let v: Position2<Valid> = p.unchecked_validate();
    assert_eq!((v.x, v.y), (3, 4));
}

#[test]
fn upper_left_is_origin() {
    let p = Position2::upper_left();
    assert_eq!((p.x, p.y), (0, 0));
}

#[test]
fn size_new_and_validate_keep_dimensions() {
    let s = Size2::new(480, 320).unchecked_validate();
    assert_eq!((s.width, s.height), (480, 320));
}

#[test]
fn center_position_halves_rounding_down() {
    let c = Size2::new(35, 20).center_position();
    assert_eq!((c.x, c.y), (17, 10));
}

#[test]
fn div_divides_both_dimensions() {
    let s = Size2::new(480, 321).div(2);
    assert_eq!((s.width, s.height), (240, 160));
    let t = Size2::new(7, 9).div(10);
    assert_eq!((t.width, t.height), (0, 0));
}

#[test]
fn clone_keeps_fields() {
    let p = Position2::new(9, 8);
    let q = p.clone();
    assert_eq!((q.x, q.y), (9, 8));
    let s = Size2::new(5, 6);
    let t = s.clone();
    assert_eq!((t.width, t.height), (5, 6));
}
