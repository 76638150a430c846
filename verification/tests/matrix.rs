use smallmat::identity::IdMul;
use smallmat::matrix::Matrix;

#[test]
fn rows_mut() {
    let mut mat = Matrix::new([[5, -1, 2], [-5, 0, -1]]);

    assert_eq!(
        [[&mut 5, &mut -1, &mut 2], [&mut -5, &mut 0, &mut -1]],
        mat.rows_mut()
    );
}

#[test]
fn row_mut() {
    let mut mat = Matrix::new([[5, -1, 2], [-5, 0, -1]]);

    let row1 = mat.row_mut(0).unwrap();
    *row1[2] = 8;

    let row2 = mat.row_mut(1).unwrap();
    *row2[0] = 3;

    assert_eq!(&8, &mat[(0, 2)]);
    assert_eq!(&3, &mat[(1, 0)]);
}

#[test]
fn take_row() {
    let mat = Matrix::new([[5, -1, 2], [-5, 0, -1]]);

    assert_eq!(Some([5, -1, 2]), mat.clone().take_row(0));
    assert_eq!(Some([-5, 0, -1]), mat.clone().take_row(1));
    assert_eq!(None, mat.clone().take_row(2));
    assert_eq!(None, mat.take_row(10));
}

#[test]
fn col_mut() {
    let mut mat = Matrix::new([[5, -1, 2], [-5, 0, -1]]);

    let col1 = mat.col_mut(0).unwrap();
    *col1[1] = -2;

    let col2 = mat.col_mut(1).unwrap();
    *col2[0] = 0;

    let col3 = mat.col_mut(2).unwrap();
    *col3[1] = -8;

    assert_eq!(&-2, &mat[(1, 0)]);
    assert_eq!(&0, &mat[(0, 1)]);
    assert_eq!(&-8, &mat[(1, 2)]);
}

#[test]
fn take_col() {
    let mat = Matrix::new([[5, -1, 2], [-5, 0, -1]]);

    assert_eq!(Some([5, -5]), mat.clone().take_col(0));
    assert_eq!(Some([-1, 0]), mat.clone().take_col(1));
    assert_eq!(Some([2, -1]), mat.clone().take_col(2));
    assert_eq!(None, mat.clone().take_col(3));
    assert_eq!(None, mat.take_col(8));
}

#[test]
fn take() {
    let mat = Matrix::new([[4, -1, 3, 1], [-5, 8, 2, 0], [-3, -2, 1, 1]]);

    assert_eq!(Some(3), mat.clone().take(0, 2));
    assert_eq!(Some(8), mat.clone().take(1, 1));
    assert_eq!(Some(1), mat.clone().take(2, 3));
    assert_eq!(None, mat.clone().take(0, 4));
    assert_eq!(None, mat.take(3, 2));
}

#[test]
fn into_map() {
    let mat = Matrix::new([[4, -1, 3, 1], [-5, 8, 2, 0], [-3, -2, 1, 1]]);

    assert_eq!(
        Matrix::new([[8, -2, 6, 2], [-10, 16, 4, 0], [-6, -4, 2, 2],]),
        mat.into_map(|_, _, x| 2 * x)
    )
}

#[test]
fn into_diag() {
    let mat = Matrix::new([[2, 5, 7], [6, 1, -1], [3, -2, 4]]);
    assert_eq!([2, 1, 4], mat.into_diag());
}

#[test]
fn id_mul() {
    let mat3x3 = Matrix::<u32, 3, 3>::id_mul();
    let mat4x4 = Matrix::<u32, 4, 4>::id_mul();

    assert_eq!(Matrix::new([[1, 0, 0], [0, 1, 0], [0, 0, 1]]), mat3x3);
    assert_eq!(
        Matrix::new([[1, 0, 0, 0], [0, 1, 0, 0], [0, 0, 1, 0], [0, 0, 0, 1]]),
        mat4x4
    );
}

#[test]
fn display() {
    let mat = Matrix::new([[-1, 0], [2, 87], [-55, 3]]);

    assert_eq!(
        "\
        | -1    0  |\n\
        |  2   87  |\n\
        | -55   3  |\
        ",
        mat.to_string()
    );
}
