use red::vector2::Vector2;

#[test]
fn editor_vector_is_built_from_coordinates() {
    let v = Vector2::new(3usize, 4);
    assert_eq!((v.x, v.y), (3, 4));
    let s = Vector2::from_scalar(0usize);
    assert_eq!((s.x, s.y), (0, 0));
}

#[test]
fn editor_vector_arithmetic_is_by_coordinate() {
    let a = Vector2::new(12, 20);
    let b = Vector2::new(3, 5);
    let sum = a + b;
    assert_eq!((sum.x, sum.y), (15, 25));
    let diff = a - b;
    assert_eq!((diff.x, diff.y), (9, 15));
    let prod = a * b;
    assert_eq!((prod.x, prod.y), (36, 100));
    let quot = a / b;
    assert_eq!((quot.x, quot.y), (4, 4));
    let mut c = a;
    c += b;
    c -= Vector2::from_scalar(5);
    c *= Vector2::new(2, 3);
    c /= Vector2::from_scalar(10);
    assert_eq!((c.x, c.y), (2, 6));
}
