use smallmat::matrix::iter::cursor::CursorIterator;
use smallmat::matrix::Matrix;

#[test]
fn iter() {
    let mat = Matrix::new([[1, 2], [3, 4], [5, 6]]);

    let mut iter = mat.iter();
    assert_eq!(6, iter.len());
    assert_eq!(Some(&1), iter.next());
    assert_eq!(5, iter.len());
    assert_eq!(Some(&2), iter.next());
    assert_eq!(4, iter.len());
    assert_eq!(Some(&3), iter.next());
    assert_eq!(3, iter.len());
    assert_eq!(Some(&4), iter.next());
    assert_eq!(2, iter.len());
    assert_eq!(Some(&5), iter.next());
    assert_eq!(1, iter.len());
    assert_eq!(Some(&6), iter.next());
    assert_eq!(0, iter.len());
    assert_eq!(None, iter.next());
    assert_eq!(0, iter.len());
    assert_eq!(None, iter.next());
    assert_eq!(0, iter.len());
    assert_eq!(None, iter.next());
}

#[test]
fn iter_mut() {
    let mut mat = Matrix::new([[1, 2], [3, 4], [5, 6]]);

    let mut iter = mat.iter_mut();
    assert_eq!(6, iter.len());
    assert_eq!(Some(&mut 1), iter.next());
    assert_eq!(5, iter.len());
    assert_eq!(Some(&mut 2), iter.next());
    assert_eq!(4, iter.len());
    assert_eq!(Some(&mut 3), iter.next());
    assert_eq!(3, iter.len());
    assert_eq!(Some(&mut 4), iter.next());
    assert_eq!(2, iter.len());
    assert_eq!(Some(&mut 5), iter.next());
    assert_eq!(1, iter.len());
    assert_eq!(Some(&mut 6), iter.next());
    assert_eq!(0, iter.len());
    assert_eq!(None, iter.next());
    assert_eq!(0, iter.len());
    assert_eq!(None, iter.next());
    assert_eq!(0, iter.len());
    assert_eq!(None, iter.next());
}

#[test]
fn into_iter() {
    let mat = Matrix::new([[1, 2], [3, 4], [5, 6]]);

    let mut iter = mat.into_iter();
    assert_eq!(6, iter.len());
    assert_eq!(Some(1), iter.next());
    assert_eq!(5, iter.len());
    assert_eq!(Some(2), iter.next());
    assert_eq!(4, iter.len());
    assert_eq!(Some(3), iter.next());
    assert_eq!(3, iter.len());
    assert_eq!(Some(4), iter.next());
    assert_eq!(2, iter.len());
    assert_eq!(Some(5), iter.next());
    assert_eq!(1, iter.len());
    assert_eq!(Some(6), iter.next());
    assert_eq!(0, iter.len());
    assert_eq!(None, iter.next());
    assert_eq!(0, iter.len());
    assert_eq!(None, iter.next());
    assert_eq!(0, iter.len());
    assert_eq!(None, iter.next());
}

#[test]
fn cursor() {
    let mat = Matrix::new([[1, 2], [3, 4], [5, 6]]);

    let mut iter = mat.iter().cursor();
    assert_eq!(6, iter.len());
    assert_eq!(Some((0, 0, &1)), iter.next());
    assert_eq!(5, iter.len());
    assert_eq!(Some((0, 1, &2)), iter.next());
    assert_eq!(4, iter.len());
    assert_eq!(Some((1, 0, &3)), iter.next());
    assert_eq!(3, iter.len());
    assert_eq!(Some((1, 1, &4)), iter.next());
    assert_eq!(2, iter.len());
    assert_eq!(Some((2, 0, &5)), iter.next());
    assert_eq!(1, iter.len());
    assert_eq!(Some((2, 1, &6)), iter.next());
    assert_eq!(0, iter.len());
    assert_eq!(None, iter.next());
    assert_eq!(0, iter.len());
    assert_eq!(None, iter.next());
    assert_eq!(0, iter.len());
    assert_eq!(None, iter.next());
}
