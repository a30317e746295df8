use termular::vector::Vector;
use termular::vector::Vector2;

#[allow(non_snake_case)]
fn V2<T>(x: T, y: T) -> Vector2<T> {
    Vector2::from([x, y])
}

#[test]
fn binops() {
    let sut = Vector2::default();

    assert_eq!(sut + V2(1, 1), [1, 1].into());
    assert_eq!(sut + [1, 1], [1, 1].into());
    assert_eq!(sut + 1, [1, 1].into());

    assert_eq!(sut - V2(1, 1), [-1, -1].into());
    assert_eq!(sut - [1, 1], [-1, -1].into());
    assert_eq!(sut - 1, [-1, -1].into());

    assert_eq!(sut * V2(1, 1), [0, 0].into());
    assert_eq!(sut * [1, 1], [0, 0].into());
    assert_eq!(sut * 1, [0, 0].into());

    assert_eq!((sut + 4) * V2(-1, -1), [-4, -4].into());
    assert_eq!((sut + 4) * [-1, -1], [-4, -4].into());
    assert_eq!((sut + 4) * -1, [-4, -4].into());

    assert_eq!(sut / V2(1, 1), [0, 0].into());
    assert_eq!(sut / [1, 1], [0, 0].into());
    assert_eq!(sut / 1, [0, 0].into());

    assert_eq!((sut + 4) / V2(-2, -2), [-2, -2].into());
    assert_eq!((sut + 4) / [-2, -2], [-2, -2].into());
    assert_eq!((sut + 4) / -2, [-2, -2].into());

    assert_eq!(sut % V2(2, 2), [0, 0].into());
    assert_eq!(sut % [2, 2], [0, 0].into());
    assert_eq!(sut % 2, [0, 0].into());

    assert_eq!((sut + 3) % V2(2, 2), [1, 1].into());
    assert_eq!((sut + 3) % [2, 2], [1, 1].into());
    assert_eq!((sut + 3) % 2, [1, 1].into());
}

#[test]
fn vector_default_is_all_zero() {
    let v: Vector<u16, 3> = Vector::default();
    assert_eq!(v.into_inner(), [0, 0, 0]);
    let w: Vector<i64, 2> = Vector::new();
    assert_eq!(w.into_inner(), [0, 0]);
}

#[test]
fn vector_components_keep_their_order() {
    let v = Vector2::of(7u16, 9u16);
    assert_eq!(v.x(), 7);
    assert_eq!(v.y(), 9);
    assert_eq!(v.into_inner(), [7, 9]);
    assert_eq!(v, Vector2::from([7, 9]));
    assert_eq!(v[0], 7);
    assert_eq!(v.len(), 2);
}

#[test]
fn vector_negation_is_component_wise() {
    let v: Vector<i32, 3> = Vector::from([1, -2, 0]);
    assert_eq!(-v, Vector::from([-1, 2, 0]));
}

#[test]
fn vector_operators_are_component_wise() {
    let v: Vector<i32, 3> = Vector::from([10, 20, 30]);
    assert_eq!(v + Vector::from([1, 2, 3]), Vector::from([11, 22, 33]));
    assert_eq!(v - [1, 2, 3], Vector::from([9, 18, 27]));
    assert_eq!(v * 2, Vector::from([20, 40, 60]));
    assert_eq!(v / [2, 5, 7], Vector::from([5, 4, 4]));
    assert_eq!(v % [3, 7, 4], Vector::from([1, 6, 2]));
}
