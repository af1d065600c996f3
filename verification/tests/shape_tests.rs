use lcd_graphics::color::Color;
use lcd_graphics::geometry::{Position2, Size2};
use lcd_graphics::shape::{Rectangle, Shape};

fn rect(x: u16, y: u16, w: u16, h: u16, radius: u16) -> Rectangle {
    Rectangle {
        position: Position2::new(x, y).unchecked_validate(),
        size: Size2::new(w, h).unchecked_validate(),
        corner_radius: radius,
        fill: Color::new(10, 20, 30),
    }
}

fn rows(r: &Rectangle) -> Vec<(u16, u16, u16, u16)> {
    r.to_draw_commands()
        .iter()
        .map(|c| (c.at.x, c.at.y, c.size.width, c.size.height))
        .collect()
}

#[test]
fn square_corners_give_full_rows() {
    let r = rect(5, 7, 3, 2, 0);
    assert_eq!(rows(&r), vec![(5, 7, 3, 1), (5, 8, 3, 1)]);
}

#[test]
fn small_rounded_square() {
    // radius 2 on a 4x4 square: insets 2, 1, 0, 1
    let r = rect(10, 20, 4, 4, 2);
    assert_eq!(
        rows(&r),
        vec![(12, 20, 0, 1), (11, 21, 2, 1), (10, 22, 4, 1), (11, 23, 2, 1)]
    );
}

#[test]
fn huge_radius_is_clamped_to_half_the_smaller_side() {
    // the bouncing square of the demo: 35x35, radius 9999 -> 17
    let r = rect(100, 100, 35, 35, 9999);
    let rs = rows(&r);
    assert_eq!(rs.len(), 35);
    assert_eq!(rs[0], (117, 100, 1, 1));
    assert_eq!(rs[1], (112, 101, 11, 1));
    assert_eq!(rs[17], (100, 117, 35, 1));
    assert_eq!(rs[18], (100, 118, 35, 1));
    assert_eq!(rs[34], (112, 134, 11, 1));
}

#[test]
fn rows_carry_the_fill() {
    let r = rect(0, 0, 6, 3, 1);
    for c in r.to_draw_commands() {
        assert_eq!(c.color_data.len(), c.size.width as usize);
        assert!(c.color_data.iter().all(|&x| x == Color::new(10, 20, 30)));
    }
}

#[test]
fn rows_stay_inside_and_widen_toward_the_middle() {
    let r = rect(3, 4, 60, 40, 15);
    let rs = rows(&r);
    assert_eq!(rs.len(), 40);
    for (i, (x, y, w, h)) in rs.iter().enumerate() {
        assert_eq!(*y, 4 + i as u16);
        assert_eq!(*h, 1);
        assert!(*x >= 3);
        assert_eq!((*x - 3) * 2 + *w, 60);
    }
    for i in 0..14 {
        assert!(rs[i].0 >= rs[i + 1].0);
    }
    for i in 26..39 {
        assert!(rs[i].0 <= rs[i + 1].0);
    }
}

#[test]
fn empty_rectangle_has_no_rows() {
    assert!(rect(0, 0, 10, 0, 3).to_draw_commands().is_empty());
}

#[test]
fn clone_keeps_the_rectangle() {
    let r = rect(1, 2, 3, 4, 5);
    let s = r.clone();
    assert_eq!((s.position.x, s.position.y, s.size.width, s.size.height, s.corner_radius), (1, 2, 3, 4, 5));
}

#[test]
fn drawable_checks_coordinate_range_and_radius() {
    assert!(rect(100, 100, 35, 35, 9999).drawable());
    assert!(rect(0, 0, 10, 0, 3).drawable());
    assert!(rect(65535, 0, 4, 4, 0).drawable());
    assert!(!rect(65534, 0, 4, 4, 2).drawable());
    assert!(!rect(0, 65535, 4, 2, 0).drawable());
    assert!(rect(0, 65534, 4, 2, 0).drawable());
    assert!(rect(0, 0, 600, 600, 255).drawable());
    assert!(!rect(0, 0, 600, 600, 256).drawable());
}
