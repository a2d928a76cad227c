use circle_game::isqrt::isqrt;
use circle_game::shape::{Circle, Position2d, Rect};

#[test]
fn position2d_distance() {
    let dot = Position2d { x: 3, y: 4 };
    let distance = dot.distance(&dot) as f64;
    assert!(
        distance.abs() < f64::EPSILON,
        "Distance between a point and itself should be 0; distance:{}",
        distance
    );
    let distance = Position2d { x: 0, y: 0 }.distance(&dot) as f64;
    assert!(
        (distance - 5.0).abs() < f64::EPSILON,
        "Distance between (3,4) and (0,0) should be 5; distance:{}",
        distance
    );
    let flipped_distance = dot.distance(&Position2d { x: 0, y: 0 }) as f64;
    assert!(
        (distance - flipped_distance).abs() < f64::EPSILON,
        "Distance operation must be commutative; distance:{}",
        distance
    );
}

#[test]
fn circle_overapping() {
    let origin = Circle::new(0, 0, 3);
    let outer = Circle::new(5, 5, 2);
    assert!(!origin.is_overlapped(&outer));
    let contact = Circle::new(3, 4, 2);
    assert!(origin.is_overlapped(&contact));
    let intersect = Circle::new(3, 4, 3);
    assert!(origin.is_overlapped(&intersect));
    let inner = Circle::new(0, 1, 1);
    assert!(origin.is_overlapped(&inner));
}

#[test]
fn rect_is_outside() {
    let (x, y, w, h) = (0, 0, 640, 480);
    let board = Rect::new(x, y, w as u32, h as u32);
    //border tests
    let one = 1;
    assert!(board.is_outside(&Circle::new(x, y, one as u32)));
    assert!(!board.is_outside(&Circle::new(x + one, y + one, one as u32)));
    assert!(board.is_outside(&Circle::new(x, y + h, one as u32)));
    assert!(!board.is_outside(&Circle::new(x + one, y + h - one, one as u32)));
    assert!(board.is_outside(&Circle::new(x + w, y, one as u32)));
    // The centre lies above the top edge, so the circle is outside.
    assert!(board.is_outside(&Circle::new(x + w - one, y - one, one as u32)));
    assert!(board.is_outside(&Circle::new(x + w, y + h, one as u32)));
    assert!(!board.is_outside(&Circle::new(x + w - one, y + h - one, one as u32)));
    //arbitary
    assert!(board.is_outside(&Circle::new(x + w - 32, y + h - 31, 32)));
}

#[test]
fn isqrt_exact_values() {
    assert_eq!(isqrt(0), 0);
    assert_eq!(isqrt(1), 1);
    assert_eq!(isqrt(2), 1);
    assert_eq!(isqrt(3), 1);
    assert_eq!(isqrt(4), 2);
    assert_eq!(isqrt(24), 4);
    assert_eq!(isqrt(25), 5);
    assert_eq!(isqrt(26), 5);
    assert_eq!(isqrt(99), 9);
    assert_eq!(isqrt(100), 10);
    assert_eq!(isqrt(1 << 64), 1 << 32);
    assert_eq!(isqrt((1 << 64) - 1), (1 << 32) - 1);
    assert_eq!(isqrt(u128::MAX), u64::MAX);
}

#[test]
fn isqrt_brackets_its_argument() {
    for n in 0u128..5000 {
        let r = isqrt(n) as u128;
        assert!(r * r <= n && n < (r + 1) * (r + 1), "n = {}", n);
    }
}

#[test]
fn distance_is_cut_to_a_whole_number() {
    let origin = Position2d { x: 0, y: 0 };
    assert_eq!(origin.distance(&Position2d { x: 5, y: 5 }), 7);
    assert_eq!(origin.distance(&Position2d { x: 1, y: 1 }), 1);
    assert_eq!(origin.distance(&Position2d { x: -3, y: -4 }), 5);
    assert_eq!(origin.distance(&Position2d { x: 0, y: 10 }), 10);
    assert_eq!(Position2d { x: 50, y: 50 }.distance(&Position2d { x: 60, y: 50 }), 10);
}

#[test]
fn distance_is_zero_only_to_the_same_point() {
    let a = Position2d { x: -7, y: 12 };
    assert_eq!(a.distance(&a), 0);
    assert_eq!(a.distance(&Position2d { x: -7, y: 12 }), 0);
    assert_ne!(a.distance(&Position2d { x: -6, y: 12 }), 0);
    assert_ne!(a.distance(&Position2d { x: -7, y: 11 }), 0);
}

#[test]
fn distance_is_symmetric() {
    let points = [
        Position2d { x: 0, y: 0 },
        Position2d { x: 3, y: 4 },
        Position2d { x: -100, y: 77 },
        Position2d { x: i32::MAX, y: i32::MIN },
        Position2d { x: i32::MIN, y: i32::MAX },
    ];
    for a in points {
        for b in points {
            assert_eq!(a.distance(&b), b.distance(&a));
        }
    }
}

#[test]
fn distance_across_the_whole_grid() {
    let low = Position2d { x: i32::MIN, y: i32::MIN };
    let high = Position2d { x: i32::MAX, y: i32::MAX };
    // sqrt(2) * (2^32 - 1), cut to a whole number
    assert_eq!(low.distance(&high), 6_074_000_998);
    assert_eq!(low.distance(&Position2d { x: i32::MAX, y: i32::MIN }), 4_294_967_295);
}

#[test]
fn overlap_is_symmetric() {
    let circles = [
        Circle::new(0, 0, 3),
        Circle::new(5, 5, 2),
        Circle::new(3, 4, 2),
        Circle::new(-10, 0, 7),
        Circle::new(0, 0, 0),
        Circle::new(i32::MAX, i32::MAX, u32::MAX),
        Circle::new(i32::MIN, i32::MIN, 1),
    ];
    for a in circles {
        for b in circles {
            assert_eq!(a.is_overlapped(&b), b.is_overlapped(&a));
        }
    }
}

#[test]
fn touching_circles_overlap() {
    let a = Circle::new(0, 0, 5);
    assert!(a.is_overlapped(&Circle::new(10, 0, 5)));
    assert!(!a.is_overlapped(&Circle::new(11, 0, 5)));
    assert!(a.is_overlapped(&Circle::new(0, 0, 0)));
    assert!(!Circle::new(0, 0, 0).is_overlapped(&Circle::new(1, 0, 0)));
}

#[test]
fn overlap_with_the_largest_values() {
    let far = Circle::new(i32::MIN, i32::MIN, 0);
    assert!(!far.is_overlapped(&Circle::new(i32::MAX, i32::MAX, 0)));
    assert!(!far.is_overlapped(&Circle::new(i32::MAX, i32::MAX, u32::MAX)));
    assert!(Circle::new(i32::MIN, i32::MIN, u32::MAX)
        .is_overlapped(&Circle::new(i32::MAX, i32::MAX, u32::MAX)));
}

#[test]
fn circle_accessors() {
    let mut c = Circle::new(1, 2, 3);
    assert_eq!(c.position(), Position2d { x: 1, y: 2 });
    assert_eq!(c.radius(), 3);
    c.set_position(-4, 5);
    assert_eq!(c.position(), Position2d { x: -4, y: 5 });
    assert_eq!(c.radius(), 3);
    c.set_radius(9);
    assert_eq!(c.position(), Position2d { x: -4, y: 5 });
    assert_eq!(c.radius(), 9);
    assert_eq!(c, Circle::new(-4, 5, 9));
}

#[test]
fn area_exact_values() {
    assert_eq!(Circle::new(0, 0, 0).area(), 0);
    assert_eq!(Circle::new(0, 0, 1).area(), 3);
    assert_eq!(Circle::new(0, 0, 2).area(), 12);
    assert_eq!(Circle::new(7, -7, 10).area(), 314);
    assert_eq!(Circle::new(0, 0, 100).area(), 31_415);
    assert_eq!(Circle::new(0, 0, 1000).area(), 3_141_592);
    assert_eq!(Circle::new(0, 0, u32::MAX).area(), 57_952_155_637_630_902_934);
}

#[test]
fn area_agrees_with_floating_point() {
    for r in 0u32..3000 {
        let float = (r as f64).powf(2.0) * std::f64::consts::PI;
        assert_eq!(Circle::new(0, 0, r).area(), float as u128, "radius {}", r);
    }
}

#[test]
fn board_edges_are_inside() {
    let board = Rect::new(-10, 20, 100, 50);
    assert!(!board.is_outside(&Circle::new(-10, 20, 0)));
    assert!(!board.is_outside(&Circle::new(90, 70, 0)));
    assert!(board.is_outside(&Circle::new(91, 70, 0)));
    assert!(board.is_outside(&Circle::new(90, 71, 0)));
    assert!(board.is_outside(&Circle::new(-11, 20, 0)));
    assert!(board.is_outside(&Circle::new(-10, 19, 0)));
    assert!(!board.is_outside(&Circle::new(40, 45, 25)));
    assert!(board.is_outside(&Circle::new(40, 45, 26)));
    assert!(board.is_outside(&Circle::new(40, 44, 25)));
}

#[test]
fn board_with_the_largest_values() {
    let board = Rect::new(i32::MIN, i32::MIN, u32::MAX, u32::MAX);
    assert!(!board.is_outside(&Circle::new(0, 0, 0x7fff_ffff)));
    assert!(board.is_outside(&Circle::new(0, 0, 0x8000_0000)));
    assert!(!board.is_outside(&Circle::new(-1, -1, 0x7fff_ffff)));
    assert!(board.is_outside(&Circle::new(i32::MAX, 0, 1)));
    let point = Rect::new(i32::MAX, i32::MAX, 0, 0);
    assert!(!point.is_outside(&Circle::new(i32::MAX, i32::MAX, 0)));
    assert!(point.is_outside(&Circle::new(i32::MIN, i32::MIN, u32::MAX)));
}

#[test]
fn rounded_area_exact_values() {
    assert_eq!(Circle::new(0, 0, 0).rounded_area(), 0);
    assert_eq!(Circle::new(0, 0, 1).rounded_area(), 3);
    assert_eq!(Circle::new(0, 0, 2).rounded_area(), 13);
    assert_eq!(Circle::new(0, 0, 5).rounded_area(), 79);
    assert_eq!(Circle::new(7, -7, 10).rounded_area(), 314);
    assert_eq!(Circle::new(0, 0, 100).rounded_area(), 31_416);
    assert_eq!(Circle::new(0, 0, 36_975).rounded_area(), 4_295_030_360);
    assert_eq!(Circle::new(0, 0, u32::MAX).rounded_area(), 57_952_155_637_630_902_934);
}

#[test]
fn rounded_area_is_the_area_or_one_more() {
    for r in 0u32..3000 {
        let c = Circle::new(0, 0, r);
        assert!(c.rounded_area() == c.area() || c.rounded_area() == c.area() + 1, "radius {}", r);
    }
}

#[test]
fn defaults_are_at_the_origin() {
    assert_eq!(Position2d::default(), Position2d { x: 0, y: 0 });
    assert_eq!(Circle::default(), Circle::new(0, 0, 0));
    assert_eq!(Rect::default(), Rect::new(0, 0, 0, 0));
}
