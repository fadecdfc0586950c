use rustux::math::{Direction, Rect, Vector2};

#[test]
fn rect_edges_follow_corner_and_extent() {
    let r = Rect::new(10_000, 20_000, 30_000, 40_000);
    assert_eq!(r.left(), 10_000);
    assert_eq!(r.right(), 40_000);
    assert_eq!(r.top(), 20_000);
    assert_eq!(r.bottom(), 60_000);
    assert_eq!(r.center(), Vector2::new(25_000, 40_000));
}

#[test]
fn intersects_is_symmetric_and_strict() {
    let a = Rect::new(0, 0, 10_000, 10_000);
    let b = Rect::new(5_000, 5_000, 10_000, 10_000);
    let c = Rect::new(10_000, 0, 10_000, 10_000);
    assert!(a.intersects(&b));
    assert!(b.intersects(&a));
    assert!(!a.intersects(&c));
    assert!(!c.intersects(&a));
}

#[test]
fn intersection_is_the_shared_part() {
    let a = Rect::new(0, 0, 10_000, 10_000);
    let b = Rect::new(5_000, 6_000, 10_000, 10_000);
    assert_eq!(a.intersection(&b), Some(Rect::new(5_000, 6_000, 5_000, 4_000)));
    assert_eq!(b.intersection(&a), a.intersection(&b));
    let c = Rect::new(20_000, 0, 1_000, 1_000);
    assert_eq!(a.intersection(&c), None);
}

#[test]
fn direction_opposites() {
    assert_eq!(Direction::Up.opposite(), Direction::Down);
    assert_eq!(Direction::Left.opposite(), Direction::Right);
    assert!(Direction::Left.is_horizontal());
    assert!(Direction::Down.is_vertical());
    assert!(!Direction::Down.is_horizontal());
    assert_eq!(Direction::Up.to_vector(), Vector2::new(0, -1000));
}
