use smallmat::matrix::Matrix;

#[test]
fn dets_det1x1() {
    let mat = Matrix::new([[-3]]);
    assert_eq!(-3, mat.det());
}

#[test]
fn dets_det2x2() {
    let mat = Matrix::new([[5, -1], [8, 2]]);
    assert_eq!(18, mat.det());
}

#[test]
fn dets_det3x3() {
    let mat = Matrix::new([[0, -1, 2], [3, 2, 1], [-2, -3, 4]]);
    assert_eq!(4, mat.det());
}
