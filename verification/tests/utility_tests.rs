use clockwork::axis::Axis;
use clockwork::cached_bool::CachedBool;
use clockwork::cardinals::{inspect_facing, CardinalPrime, FacingHorizontal, FacingVertical};
use clockwork::number_util::{wrap_isize, wrap_usize};
use clockwork::vec2_int::Vec2Int;
use clockwork::vec_iter::{GameVec, VecIter};

#[test]
fn wrap_usize_values() {
    assert_eq!(wrap_usize(7, 0, 3), 1);
    assert_eq!(wrap_usize(2, 0, 3), 2);
    assert_eq!(wrap_usize(9, 2, 5), 2);
    assert_eq!(wrap_usize(0, 4, 5), 4);
}

#[test]
fn wrap_isize_values() {
    assert_eq!(wrap_isize(7, 0, 3), 1);
    assert_eq!(wrap_isize(-7, 0, 3), 2);
    assert_eq!(wrap_isize(5, -2, 2), -1);
    assert_eq!(wrap_isize(-1, 10, 14), 13);
    assert_eq!(wrap_isize(-1, 0, 3), 2);
    assert_eq!(wrap_isize(-4, 0, 3), 2);
    assert_eq!(wrap_isize(4, 0, 3), 1);
    assert_eq!(wrap_isize(-3, 0, 3), 0);
}

#[test]
fn cached_bool_cycle() {
    let mut c = CachedBool::new(true);
    assert!(c.value);
    assert!(!c.is_dirty());
    c.inspect(false);
    assert!(!c.value);
    assert!(!c.is_dirty());
    c.clean();
    assert!(!c.is_dirty());
    let d = CachedBool::default();
    assert!(!d.value && !d.is_dirty());
}

#[test]
fn cardinal_defaults() {
    assert_eq!(CardinalPrime::default(), CardinalPrime::Right);
    assert_eq!(FacingHorizontal::default(), FacingHorizontal::Right);
    assert_eq!(FacingVertical::default(), FacingVertical::Up);
}

#[test]
fn inspect_facing_applies_selections() {
    let mut h = FacingHorizontal::Right;
    let mut v = FacingVertical::Up;
    assert!(!inspect_facing(&mut h, &mut v, None, None));
    assert_eq!((h, v), (FacingHorizontal::Right, FacingVertical::Up));
    assert!(inspect_facing(&mut h, &mut v, Some(FacingHorizontal::Left), None));
    assert_eq!((h, v), (FacingHorizontal::Left, FacingVertical::Up));
    assert!(inspect_facing(&mut h, &mut v, None, Some(FacingVertical::Down)));
    assert_eq!((h, v), (FacingHorizontal::Left, FacingVertical::Down));
}

#[test]
fn vec_iter_yields_x_then_y() {
    let v = Vec2Int::new(3, -4);
    assert_eq!(*v.x(), 3);
    assert_eq!(*v.y(), -4);
    let mut it = VecIter::new(&v);
    assert_eq!(it.next(), Some(&3));
    assert_eq!(it.next(), Some(&-4));
    assert_eq!(it.next(), None);
    assert_eq!(it.next(), None);
    assert_ne!(Axis::X, Axis::Y);
}
