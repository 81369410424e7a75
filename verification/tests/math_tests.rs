use mraphics::math::Matrix;
use mraphics::math::Vector;

#[test]
fn vector_construction_and_access() {
    let v = Vector::new(vec![1, 2, 3]);
    assert_eq!(v.len(), 3);
    assert_eq!(v.get(0), 1);
    assert_eq!(v.get(2), 3);
    let z = Vector::zeros(4);
    assert_eq!(z.len(), 4);
    assert_eq!(z.get(3), 0);
    let mut w = Vector::zeros(2);
    w.set(1, 7);
    assert_eq!(w.get(1), 7);
    assert_eq!(w.get(0), 0);
}

#[test]
fn matrix_shape_and_entries() {
    let m = Matrix::zeros(2, 3);
    assert_eq!(m.col_num(), 3);
    assert_eq!(m.row_num(), 2);
    assert_eq!(m.shape(), (2, 3));
    assert_eq!(m.get((1, 2)), 0);
    let mut m = m;
    m.set((1, 2), 9);
    assert_eq!(m.get((1, 2)), 9);
    assert_eq!(m.get((0, 2)), 0);
}

#[test]
fn identity_has_ones_on_the_diagonal() {
    let m = Matrix::identity(3);
    for i in 0..3 {
        for j in 0..3 {
            assert_eq!(m.get((i, j)), if i == j { 1 } else { 0 });
        }
    }
}

#[test]
fn translate_is_column_major() {
    let m = Matrix::translate(10, 20, 30);
    assert_eq!(m.col_num(), 4);
    assert_eq!(m.get((0, 3)), 10);
    assert_eq!(m.get((1, 3)), 20);
    assert_eq!(m.get((2, 3)), 30);
    assert_eq!(m.get((3, 3)), 1);
    assert_eq!(m.get((0, 0)), 1);
    assert_eq!(m.get((1, 0)), 0);
}

#[test]
fn copy_slice_transposes_from_columns() {
    let mut m = Matrix::zeros(2, 2);
    let c0: &[i64] = &[1, 2];
    let c1: &[i64] = &[3, 4];
    m.copy_slice(&[c0, c1]);
    assert_eq!(m.get((0, 0)), 1);
    assert_eq!(m.get((1, 0)), 2);
    assert_eq!(m.get((0, 1)), 3);
    assert_eq!(m.get((1, 1)), 4);
}

#[test]
fn as_static_snapshots_the_top_left_block() {
    let mut m = Matrix::zeros(3, 3);
    m.set((0, 0), 1);
    m.set((1, 0), 2);
    m.set((0, 1), 3);
    m.set((2, 2), 4);
    let s = m.as_static::<2, 2>();
    assert_eq!(s.get(0, 0), 1);
    assert_eq!(s.get(1, 0), 2);
    assert_eq!(s.get(0, 1), 3);
    assert_eq!(s.get(1, 1), 0);
    let z = mraphics::math::SMatrix::<4, 4>::new();
    assert_eq!(z.get(3, 3), 0);
}

#[test]
fn add_and_sub_are_entrywise() {
    let mut a = Matrix::zeros(2, 2);
    a.set((0, 0), 1);
    a.set((1, 1), 2);
    let mut b = Matrix::zeros(2, 2);
    b.set((0, 0), 10);
    b.set((1, 0), 5);
    let sum = a.add(&b);
    assert_eq!(sum.get((0, 0)), 11);
    assert_eq!(sum.get((1, 0)), 5);
    assert_eq!(sum.get((1, 1)), 2);
    let diff = sum.sub(&b);
    assert_eq!(diff.get((0, 0)), 1);
    assert_eq!(diff.get((1, 0)), 0);
    assert_eq!(diff.get((1, 1)), 2);
}
