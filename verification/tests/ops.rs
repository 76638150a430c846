use smallmat::matrix::Matrix;

#[test]
fn scale() {
    let mut mat = Matrix::new([[8, 6, -1], [0, 7, 2], [4, 4, 5], [-3, -5, 3]]);

    assert_eq!(
        Matrix::new([[40, 30, -5], [0, 35, 10], [20, 20, 25], [-15, -25, 15],]),
        mat.clone().scale(5)
    );

    mat.scale_mut(5);
    assert_eq!(
        Matrix::new([[40, 30, -5], [0, 35, 10], [20, 20, 25], [-15, -25, 15],]),
        mat
    )
}

#[test]
fn pow() {
    let mat = Matrix::new([[1, 3], [2, -1]]);
    assert_eq!(Matrix::new([[7, 21], [14, -7]]), mat.pow(3));
}

#[test]
fn ops_det1x1() {
    let mat = Matrix::new([[-3]]);
    assert_eq!(-3, mat.det());
}

#[test]
fn ops_det2x2() {
    let mat = Matrix::new([[5, -1], [8, 2]]);
    assert_eq!(18, mat.det());
}

#[test]
fn ops_det3x3() {
    let mat = Matrix::new([[0, -1, 2], [3, 2, 1], [-2, -3, 4]]);
    assert_eq!(4, mat.det());
}

#[test]
fn ops_add() {
    let mut mat1 = Matrix::new([[8, 6, -1], [0, 7, 2], [4, 4, 5], [-3, -5, 3]]);
    let mat2 = Matrix::new([[1, 0, 5], [3, 2, -1], [3, -2, 7], [2, 0, 8]]);

    assert_eq!(
        Matrix::new([[9, 6, 4], [3, 9, 1], [7, 2, 12], [-1, -5, 11]]),
        mat1.clone() + mat2.clone()
    );

    mat1.add_assign(mat2);
    assert_eq!(
        Matrix::new([[9, 6, 4], [3, 9, 1], [7, 2, 12], [-1, -5, 11]]),
        mat1
    );
}

#[test]
fn ops_sub() {
    let mut mat1 = Matrix::new([[8, 6, -1], [0, 7, 2], [4, 4, 5], [-3, -5, 3]]);
    let mat2 = Matrix::new([[1, 0, 5], [3, 2, -1], [3, -2, 7], [2, 0, 8]]);

    assert_eq!(
        Matrix::new([[7, 6, -6], [-3, 5, 3], [1, 6, -2], [-5, -5, -5]]),
        mat1.clone() - mat2.clone()
    );

    mat1.sub_assign(mat2);
    assert_eq!(
        Matrix::new([[7, 6, -6], [-3, 5, 3], [1, 6, -2], [-5, -5, -5]]),
        mat1
    );
}

#[test]
fn ops_neg() {
    let mat = Matrix::new([[1, 0, 5], [3, 2, -1], [3, -2, 7], [2, 0, 8]]);

    assert_eq!(
        Matrix::new([[-1, 0, -5], [-3, -2, 1], [-3, 2, -7], [-2, 0, -8],]),
        -mat
    );
}

#[test]
fn ops_mul() {
    let mat1 = Matrix::new([[8, 6, -1], [0, 7, 2], [4, 4, 5], [-3, -5, 3]]);
    let mat2 = Matrix::new([[3, -1], [2, -3], [-2, 1]]);

    assert_eq!(
        Matrix::new([[38, -27], [10, -19], [10, -11], [-25, 21],]),
        mat1 * mat2
    );
}
