use smallmat::error::Error;
use smallmat::identity::{IdAdd, IdMul};
use smallmat::matrix::aliases::{Matrix2x3, Matrix3x2};
use smallmat::matrix::iter::cursor::CursorIterator;
use smallmat::matrix::Matrix;
use smallmat::recip::Recip;

#[test]
fn from_entries_keeps_row_major_order() {
    let data = [1, 2, 3, 4, 5, 6];
    let mat = Matrix::<i32, 2, 3>::from_entries(&data).unwrap();

    for i in 0..2 {
        for j in 0..3 {
            assert_eq!(Some(&data[i * 3 + j]), mat.get(i, j));
        }
    }
    assert_eq!(Matrix::new([[1, 2, 3], [4, 5, 6]]), mat);
}

#[test]
fn from_entries_rejects_wrong_length() {
    let short = Matrix::<i32, 2, 2>::from_entries(&[1, 2, 3]);
    assert_eq!(
        Err(Error::WrongEntriesLength {
            rows: 2,
            cols: 2,
            len: 3
        }),
        short
    );

    let long = Matrix::<u8, 1, 2>::from_entries(&[1, 2, 3, 4, 5]);
    assert_eq!(
        Err(Error::WrongEntriesLength {
            rows: 1,
            cols: 2,
            len: 5
        }),
        long
    );

    let none = Matrix::<u8, 3, 4>::from_entries(&[]);
    assert_eq!(
        Err(Error::WrongEntriesLength {
            rows: 3,
            cols: 4,
            len: 0
        }),
        none
    );
}

#[test]
fn from_entries_of_empty_shape() {
    let mat = Matrix::<i32, 0, 4>::from_entries(&[]).unwrap();
    assert!(mat.is_empty());
    assert_eq!(None, mat.get(0, 0));

    let wrong = Matrix::<i32, 4, 0>::from_entries(&[7]);
    assert_eq!(
        Err(Error::WrongEntriesLength {
            rows: 4,
            cols: 0,
            len: 1
        }),
        wrong
    );
}

#[test]
fn error_message() {
    let err = Error::WrongEntriesLength {
        rows: 2,
        cols: 13,
        len: 307,
    };
    assert_eq!(
        "entry array of size `307` does not match matrix of size `2x13`",
        err.to_string()
    );

    let zero = Error::WrongEntriesLength {
        rows: 0,
        cols: 10,
        len: 0,
    };
    assert_eq!(
        "entry array of size `0` does not match matrix of size `0x10`",
        zero.to_string()
    );

    let large = Error::WrongEntriesLength {
        rows: 1,
        cols: 1,
        len: usize::MAX,
    };
    assert_eq!(
        format!(
            "entry array of size `{}` does not match matrix of size `1x1`",
            usize::MAX
        ),
        large.to_string()
    );
}

#[test]
fn get_inside_and_outside() {
    let mat = Matrix::new([[1, 2, 3], [4, 5, 6]]);

    assert_eq!(Some(&1), mat.get(0, 0));
    assert_eq!(Some(&6), mat.get(1, 2));
    assert_eq!(None, mat.get(2, 0));
    assert_eq!(None, mat.get(0, 3));
    assert_eq!(None, mat.get(usize::MAX, usize::MAX));
}

#[test]
fn get_mut_writes_one_cell() {
    let mut mat = Matrix::new([[1, 2, 3], [4, 5, 6]]);

    *mat.get_mut(1, 1).unwrap() = 50;
    assert_eq!(Matrix::new([[1, 2, 3], [4, 50, 6]]), mat);
    assert!(mat.get_mut(2, 1).is_none());
    assert!(mat.get_mut(1, 3).is_none());
    assert_eq!(Matrix::new([[1, 2, 3], [4, 50, 6]]), mat);
}

#[test]
fn index_reads_cell() {
    let mat = Matrix::new([[1, 2, 3], [4, 5, 6]]);
    assert_eq!(3, mat[(0, 2)]);
    assert_eq!(4, mat[(1, 0)]);
}

#[test]
fn row_of_four_by_three() {
    let mat = Matrix::new([[8, 6, -1], [0, 7, 2], [4, 4, 5], [-3, -5, 3]]);

    assert_eq!(Some([&4, &4, &5]), mat.row(2));
    assert_eq!(Some([&8, &6, &-1]), mat.row(0));
    assert_eq!(None, mat.row(4));
}

#[test]
fn col_of_four_by_three() {
    let mat = Matrix::new([[8, 6, -1], [0, 7, 2], [4, 4, 5], [-3, -5, 3]]);

    assert_eq!(Some([&6, &7, &4, &-5]), mat.col(1));
    assert_eq!(Some([&-1, &2, &5, &3]), mat.col(2));
    assert_eq!(None, mat.col(3));
}

#[test]
fn rows_and_into_rows() {
    let mat = Matrix::new([[5, -1, 2], [-5, 0, -1]]);

    assert_eq!([[&5, &-1, &2], [&-5, &0, &-1]], mat.rows());
    assert_eq!([[5, -1, 2], [-5, 0, -1]], mat.into_rows());
}

#[test]
fn rows_mut_writes_through() {
    let mut mat = Matrix::new([[5, -1, 2], [-5, 0, -1]]);

    let rows = mat.rows_mut();
    *rows[0][1] = 10;
    *rows[1][2] = 20;

    assert_eq!(Matrix::new([[5, 10, 2], [-5, 0, 20]]), mat);
}

#[test]
fn row_mut_and_col_mut_out_of_range() {
    let mut mat = Matrix::new([[5, -1, 2], [-5, 0, -1]]);

    assert!(mat.row_mut(2).is_none());
    assert!(mat.col_mut(3).is_none());
    assert_eq!(Matrix::new([[5, -1, 2], [-5, 0, -1]]), mat);
}

#[test]
fn col_mut_reads_column_in_order() {
    let mut mat = Matrix::new([[5, -1, 2], [-5, 0, -1]]);
    assert_eq!(Some([&mut 2, &mut -1]), mat.col_mut(2));
    assert_eq!(Some([&mut -5, &mut 0, &mut -1]), mat.row_mut(1));
}

#[test]
fn diag() {
    let mat = Matrix::new([[2, 5, 7], [6, 1, -1], [3, -2, 4]]);
    assert_eq!([&2, &1, &4], mat.diag());
}

#[test]
fn shape_predicates() {
    let row = Matrix::new([[1, 2, 3]]);
    assert!(row.is_row());
    assert!(!row.is_col());
    assert!(!row.is_square());
    assert!(!row.is_empty());

    let col = Matrix::new([[1], [2]]);
    assert!(col.is_col());
    assert!(!col.is_row());
    assert!(!col.is_square());

    let square = Matrix::new([[1, 2], [3, 4]]);
    assert!(square.is_square());
    assert!(!square.is_row());

    let single = Matrix::new([[1]]);
    assert!(single.is_row() && single.is_col() && single.is_square());

    let no_rows = Matrix::<i32, 0, 3>::new([]);
    assert!(no_rows.is_empty());
    let no_cols = Matrix::<i32, 2, 0>::new([[], []]);
    assert!(no_cols.is_empty());
}

#[test]
fn map_sees_coordinates() {
    let mat = Matrix::new([[1, 2, 3], [4, 5, 6]]);

    let mapped = mat.map(|i, j, x| (i * 100 + j * 10) as i32 + *x);
    assert_eq!(Matrix::new([[1, 12, 23], [104, 115, 126]]), mapped);
    assert_eq!(Matrix::new([[1, 2, 3], [4, 5, 6]]), mat);
}

#[test]
fn map_changes_entry_type() {
    let mat = Matrix::new([[1, -2], [0, 4]]);
    let signs = mat.map(|_, _, x| *x > 0);
    assert_eq!(Matrix::new([[true, false], [false, true]]), signs);
}

#[test]
fn map_mut_sees_coordinates() {
    let mut mat = Matrix::new([[1, 2, 3], [4, 5, 6]]);

    mat.map_mut(|i, j, x| *x += (i * 100 + j * 10) as i32);
    assert_eq!(Matrix::new([[1, 12, 23], [104, 115, 126]]), mat);
}

#[test]
fn into_map_sees_coordinates() {
    let mat = Matrix::new([[1, 2, 3], [4, 5, 6]]);

    let mapped = mat.into_map(|i, j, x| if i == j { -x } else { x });
    assert_eq!(Matrix::new([[-1, 2, 3], [4, -5, 6]]), mapped);
}

#[test]
fn default_holds_default_entries() {
    let mat = Matrix::<i32, 2, 3>::default();
    assert_eq!(Matrix::new([[0, 0, 0], [0, 0, 0]]), mat);
}

#[test]
fn equality_compares_every_cell() {
    let a = Matrix::new([[1, 2], [3, 4]]);
    assert!(a == Matrix::new([[1, 2], [3, 4]]));
    assert!(a != Matrix::new([[1, 2], [3, 5]]));
    assert!(a != Matrix::new([[0, 2], [3, 4]]));
    assert!(Matrix::<i32, 0, 2>::new([]) == Matrix::<i32, 0, 2>::new([]));
}

#[test]
fn aliases_name_shapes() {
    let tall: Matrix3x2<i32> = Matrix::new([[1, 2], [3, 4], [5, 6]]);
    let wide: Matrix2x3<i32> = Matrix::new([[1, 0, 0], [0, 1, 0]]);
    assert_eq!(Matrix::new([[1, 2, 0], [3, 4, 0], [5, 6, 0]]), tall * wide);
}

#[test]
fn id_add_is_zero_matrix() {
    assert_eq!(
        Matrix::new([[0, 0, 0], [0, 0, 0]]),
        Matrix::<i64, 2, 3>::id_add()
    );
    assert_eq!(0u8, u8::id_add());
    assert_eq!(1u8, u8::id_mul());
    assert_eq!(0isize, isize::id_add());
    assert_eq!(1i64, i64::id_mul());
}

#[test]
fn adding_zero_changes_nothing() {
    let a = Matrix::new([[8, 6, -1], [0, 7, 2]]);
    let zero = Matrix::<i32, 2, 3>::id_add();
    assert_eq!(a.clone(), a.clone() + zero.clone());
    assert_eq!(a.clone(), zero + a);
}

#[test]
fn addition_commutes() {
    let a = Matrix::new([[8, 6, -1], [0, 7, 2]]);
    let b = Matrix::new([[1, 0, 5], [3, 2, -1]]);
    assert_eq!(a.clone() + b.clone(), b + a);
}

#[test]
fn scaling_by_one_and_zero() {
    let a = Matrix::new([[8, 6, -1], [0, 7, 2]]);
    assert_eq!(a, a.scale(1));
    assert_eq!(Matrix::<i32, 2, 3>::id_add(), a.scale(0));

    let mut b = a.clone();
    b.scale_mut(1);
    assert_eq!(a, b);
    b.scale_mut(0);
    assert_eq!(Matrix::<i32, 2, 3>::id_add(), b);
}

#[test]
fn multiplying_by_identity_changes_nothing() {
    let a = Matrix::new([[8, 6, -1], [0, 7, 2]]);
    assert_eq!(a.clone(), Matrix::<i32, 2, 2>::id_mul() * a.clone());
    assert_eq!(a.clone(), a * Matrix::<i32, 3, 3>::id_mul());
}

#[test]
fn determinants_of_identity_and_zero() {
    assert_eq!(1, Matrix::<i32, 1, 1>::id_mul().det());
    assert_eq!(1, Matrix::<i32, 2, 2>::id_mul().det());
    assert_eq!(1, Matrix::<i32, 3, 3>::id_mul().det());
    assert_eq!(0, Matrix::<i32, 1, 1>::id_add().det());
    assert_eq!(0, Matrix::<i32, 2, 2>::id_add().det());
    assert_eq!(0, Matrix::<i32, 3, 3>::id_add().det());
    assert_eq!(1, Matrix::<u8, 3, 3>::id_mul().det());
}

#[test]
fn pow_counts_from_the_matrix_itself() {
    let mat = Matrix::new([[1, 3], [2, -1]]);
    assert_eq!(mat.clone(), mat.clone().pow(0));
    assert_eq!(mat.clone(), mat.clone().pow(1));
    assert_eq!(Matrix::new([[7, 0], [0, 7]]), mat.clone().pow(2));
    assert_eq!(Matrix::new([[7, 21], [14, -7]]), mat.clone().pow(3));
    assert_eq!(Matrix::new([[49, 0], [0, 49]]), mat.pow(4));
}

#[test]
fn reciprocal_of_integers() {
    assert_eq!(1, 1i32.recip());
    assert_eq!(-1, (-1i32).recip());
    assert_eq!(0, 5i32.recip());
    assert_eq!(0, (-7i64).recip());
    assert_eq!(1, 1u8.recip());
    assert_eq!(0, 200u8.recip());
}

#[test]
fn inverse_of_one_by_one() {
    assert_eq!(Matrix::new([[1]]), Matrix::new([[1]]).recip());
    assert_eq!(Matrix::new([[-1]]), Matrix::new([[-1]]).recip());
    assert_eq!(Matrix::new([[0]]), Matrix::new([[4]]).recip());
}

#[test]
fn inverse_of_two_by_two() {
    let mat = Matrix::new([[2, 1], [1, 1]]);
    assert_eq!(1, mat.det());
    let inverse = mat.clone().recip();
    assert_eq!(Matrix::new([[1, -1], [-1, 2]]), inverse);
    assert_eq!(Matrix::<i32, 2, 2>::id_mul(), mat * inverse);

    let flipped = Matrix::new([[1, 2], [1, 1]]);
    assert_eq!(-1, flipped.det());
    let inverse = flipped.clone().recip();
    assert_eq!(Matrix::new([[-1, 2], [1, -1]]), inverse);
    assert_eq!(Matrix::<i32, 2, 2>::id_mul(), flipped * inverse);

    let doubling = Matrix::new([[2, 0], [0, 1]]);
    assert_eq!(2, doubling.det());
    assert_eq!(Matrix::new([[0, 0], [0, 0]]), doubling.recip());
}

#[test]
fn iteration_order_is_row_major() {
    let data = [1, 2, 3, 4, 5, 6];
    let mut mat = Matrix::<i32, 3, 2>::from_entries(&data).unwrap();

    let by_ref: Vec<i32> = mat.iter().collect().into_iter().copied().collect();
    assert_eq!(data.to_vec(), by_ref);

    let by_cursor: Vec<i32> = mat
        .iter()
        .cursor()
        .collect()
        .into_iter()
        .map(|(_, _, x)| *x)
        .collect();
    assert_eq!(data.to_vec(), by_cursor);

    let mut by_mut = Vec::new();
    let mut iter = mat.iter_mut();
    while let Some(x) = iter.next() {
        by_mut.push(*x);
    }
    assert_eq!(data.to_vec(), by_mut);

    assert_eq!(data.to_vec(), mat.clone().into_iter().collect());

    let by_value_cursor: Vec<i32> = mat
        .into_iter()
        .cursor()
        .collect()
        .into_iter()
        .map(|(_, _, x)| x)
        .collect();
    assert_eq!(data.to_vec(), by_value_cursor);
}

#[test]
fn cursor_reports_coordinates() {
    let mat = Matrix::new([[1, 2, 3], [4, 5, 6]]);
    assert_eq!(
        vec![
            (0, 0, &1),
            (0, 1, &2),
            (0, 2, &3),
            (1, 0, &4),
            (1, 1, &5),
            (1, 2, &6)
        ],
        mat.iter().cursor().collect()
    );
}

#[test]
fn cursor_over_values_and_mutable_references() {
    let mut mat = Matrix::new([[1, 2], [3, 4]]);

    let mut cursor = mat.iter_mut().cursor();
    assert_eq!(4, cursor.len());
    while let Some((i, j, x)) = cursor.next() {
        *x = (10 * i + j) as i32;
    }
    assert_eq!(0, cursor.len());
    assert!(cursor.next().is_none());
    assert_eq!(Matrix::new([[0, 1], [10, 11]]), mat);

    let mut cursor = mat.into_iter().cursor();
    assert_eq!(Some((0, 0, 0)), cursor.next());
    assert_eq!(Some((0, 1, 1)), cursor.next());
    assert_eq!(2, cursor.len());
    assert_eq!(Some((1, 0, 10)), cursor.next());
    assert_eq!(Some((1, 1, 11)), cursor.next());
    assert_eq!(None, cursor.next());
    assert_eq!(None, cursor.next());
    assert_eq!(0, cursor.len());
}

#[test]
fn cursor_counts_from_where_it_was_made() {
    let mat = Matrix::new([[1, 2], [3, 4]]);
    let mut iter = mat.iter();
    assert_eq!(Some(&1), iter.next());

    let mut cursor = iter.cursor();
    assert_eq!(3, cursor.len());
    assert_eq!(Some((0, 0, &2)), cursor.next());
    assert_eq!(Some((0, 1, &3)), cursor.next());
    assert_eq!(Some((1, 0, &4)), cursor.next());
    assert_eq!(None, cursor.next());
}

#[test]
fn iter_mut_writes_through() {
    let mut mat = Matrix::new([[1, 2], [3, 4], [5, 6]]);

    let mut iter = mat.iter_mut();
    let first = iter.next().unwrap();
    let second = iter.next().unwrap();
    *first = 10;
    *second = 20;
    while let Some(x) = iter.next() {
        *x = -*x;
    }

    assert_eq!(Matrix::new([[10, 20], [-3, -4], [-5, -6]]), mat);
}

#[test]
fn iterators_over_empty_matrices() {
    let mut no_rows = Matrix::<i32, 0, 3>::new([]);
    assert_eq!(0, no_rows.iter().len());
    assert_eq!(None, no_rows.iter().next());
    assert_eq!(None, no_rows.iter_mut().next());
    assert_eq!(None, no_rows.iter().cursor().next());
    assert_eq!(None, no_rows.into_iter().next());

    let mut no_cols = Matrix::<i32, 2, 0>::new([[], []]);
    assert_eq!(0, no_cols.iter().len());
    assert_eq!(None, no_cols.iter().next());
    assert_eq!(0, no_cols.iter_mut().len());
    assert_eq!(None, no_cols.iter_mut().next());
    let mut values = no_cols.into_iter();
    assert_eq!(0, values.len());
    assert_eq!(None, values.next());
    assert_eq!(None, values.next());
}

#[test]
fn display_of_empty_matrices() {
    assert_eq!("||", Matrix::<i32, 0, 3>::new([]).to_string());
    assert_eq!("||", Matrix::<i32, 2, 0>::new([[], []]).to_string());
}

#[test]
fn display_centres_with_extra_space_on_the_right() {
    let mat = Matrix::new([[1, 1000], [22, 333]]);
    assert_eq!("|  1    1000 |\n|  22   333  |", mat.to_string());

    let single = Matrix::new([[7]]);
    assert_eq!("| 7 |", single.to_string());
}

#[test]
fn render_lays_out_texts() {
    let cells = Matrix::new([["ab".to_string(), "c".to_string()]]);
    assert_eq!("| ab  c  |", cells.render());
}

#[test]
fn collected_mutable_references_write_through() {
    let mut mat = Matrix::new([[1, 2], [3, 4]]);

    let cells = mat.iter_mut().collect();
    assert_eq!(4, cells.len());
    for (k, cell) in cells.into_iter().enumerate() {
        assert_eq!(k as i32 + 1, *cell);
        *cell *= 10;
    }
    assert_eq!(Matrix::new([[10, 20], [30, 40]]), mat);

    for (i, j, cell) in mat.iter_mut().cursor().collect() {
        *cell += (i * 2 + j) as i32;
    }
    assert_eq!(Matrix::new([[10, 21], [32, 43]]), mat);
}

#[test]
fn collect_after_some_were_given() {
    let mat = Matrix::new([[1, 2, 3], [4, 5, 6]]);
    let mut iter = mat.iter();
    iter.next();
    iter.next();
    assert_eq!(vec![&3, &4, &5, &6], iter.collect());

    let mut values = mat.into_iter();
    values.next();
    assert_eq!(vec![2, 3, 4, 5, 6], values.collect());
}

#[test]
fn index_mut_writes_one_cell() {
    let mut mat = Matrix::new([[1, 2, 3], [4, 5, 6]]);
    *mat.index_mut((0, 2)) = 30;
    *mat.index_mut((1, 0)) += 1;
    assert_eq!(Matrix::new([[1, 2, 30], [5, 5, 6]]), mat);
}

#[test]
fn display_measures_width_in_bytes_and_pads_by_characters() {
    let cells = Matrix::new([["é".to_string(), "ab".to_string()]]);
    assert_eq!("| é   ab |", cells.render());

    let single = Matrix::new([["é"]]);
    assert_eq!("| é  |", single.to_string());
    assert_eq!(format!("|{: ^4}|", "é"), single.to_string());
}

#[test]
fn product_of_unlike_shapes() {
    let a = Matrix::new([[1u64, 2, 3]]);
    let b = Matrix::new([[4u64], [5], [6]]);
    assert_eq!(Matrix::new([[32u64]]), a.clone() * b.clone());
    assert_eq!(
        Matrix::new([[4u64, 8, 12], [5, 10, 15], [6, 12, 18]]),
        b * a
    );
}

#[test]
fn iter_mut_over_entries_without_size() {
    let mut mat = Matrix::new([[(), ()], [(), ()], [(), ()]]);
    let mut iter = mat.iter_mut();
    assert_eq!(6, iter.len());
    let mut seen = 0;
    while let Some(_) = iter.next() {
        seen += 1;
    }
    assert_eq!(6, seen);
    assert_eq!(0, iter.len());
    assert!(iter.next().is_none());
}

#[test]
fn iter_mut_crosses_rows() {
    let mut mat = Matrix::new([[1], [2], [3]]);
    let mut iter = mat.iter_mut();
    *iter.next().unwrap() += 10;
    assert_eq!(2, iter.len());
    *iter.next().unwrap() += 20;
    *iter.next().unwrap() += 30;
    assert!(iter.next().is_none());
    assert_eq!(Matrix::new([[11], [22], [33]]), mat);
}
