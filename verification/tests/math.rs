use engine::math::matrix::Matrix;
use engine::math::{Matrix3, Matrix4, Matrix4x4, Vector3};

#[test]
fn test_mat3_mul() {
    let identity = Matrix3::identity();
    let mat1 = Matrix3::new(1, 2, 3, 4, 5, 6, 7, 8, 9);
    let mat2 = Matrix3::new(9, 8, 7, 6, 5, 4, 3, 2, 1);

    assert_eq!(mat1.mul(identity), mat1);
    assert_eq!(mat2.mul(identity), mat2);
    assert_eq!(mat2.mul(identity), identity.mul(mat2));

    assert_eq!(mat1.mul(mat2), Matrix3::new(30, 24, 18, 84, 69, 54, 138, 114, 90));
}

#[test]
fn test_mat4_mul() {
    let identity = Matrix4::identity();
    let mat1 = Matrix4::new(1, 2, 3, 4, 1, 2, 3, 4, 1, 2, 3, 4, 1, 2, 3, 4);
    let mat2 = Matrix4::new(9, 8, 7, 6, 9, 8, 7, 6, 9, 8, 7, 6, 9, 8, 7, 6);

    assert_eq!(mat1.mul(identity), mat1);
    assert_eq!(mat2.mul(identity), mat2);
    assert_eq!(mat2.mul(identity), identity.mul(mat2));

    assert_eq!(
        mat1.mul(mat2),
        Matrix4::new(90, 80, 70, 60, 90, 80, 70, 60, 90, 80, 70, 60, 90, 80, 70, 60)
    );
}

#[test]
fn vector3_test_vec3_components_iter() {
    let vec = Vector3(1, 2, 3);
    let mut components = vec.components();

    assert_eq!(components.next().unwrap(), 1);
    assert_eq!(components.next().unwrap(), 2);
    assert_eq!(components.next().unwrap(), 3);
    assert_eq!(components.next(), None);
    assert_eq!(components.next(), None);
}

#[test]
fn matrix_get_set_row_col() {
    let mut m = Matrix3::new(1, 2, 3, 4, 5, 6, 7, 8, 9);
    assert_eq!(m.get(0, 0), 1);
    assert_eq!(m.get(2, 1), 8);
    m.set(2, 1, 80);
    assert_eq!(m.get(2, 1), 80);
    assert_eq!(m.get(2, 2), 9);

    let row = m.row(1);
    let mut it = row.iter();
    assert_eq!(it.next(), Some(4));
    assert_eq!(it.next(), Some(5));
    assert_eq!(it.next(), Some(6));
    assert_eq!(it.next(), None);

    let col = m.col(0);
    let mut it = col.iter();
    assert_eq!(it.next(), Some(1));
    assert_eq!(it.next(), Some(4));
    assert_eq!(it.next(), Some(7));
    assert_eq!(it.next(), None);
}

#[test]
fn matrix4x4_elements() {
    let m = Matrix4x4::new(1, 2, 3, 4, 5, 6, 7, 8, 9, 10, 11, 12, 13, 14, 15, 16);
    assert_eq!(m.element(0, 0), 1);
    assert_eq!(m.element(1, 2), 7);
    assert_eq!(m.element(3, 3), 16);
}

#[test]
fn vector3_arithmetic() {
    let a = Vector3(1, 2, 3);
    let b = Vector3(4, -5, 6);
    assert_eq!(a.add(b), Vector3(5, -3, 9));
    assert_eq!(a.sub(b), Vector3(-3, 7, -3));
    assert_eq!(a.dot(b), 12);
    assert_eq!(a.cross(b), Vector3(27, 6, -13));
    assert_eq!(b.as_positive(), Vector3(4, 5, 6));
    assert_eq!(a.length_squared(), 14);
    assert_eq!(a.scale(2), Vector3(2, 4, 6));
    assert_eq!(a.mul(b), Vector3(4, -10, 18));
    assert_eq!(Vector3::with_components(7), Vector3(7, 7, 7));
    assert_eq!(a.xyz(), (1, 2, 3));
    assert_eq!(a.xy(), (1, 2));
    assert_eq!(a.x(), 1);
    assert_eq!(a.y(), 2);
    assert_eq!(a.z(), 3);
    assert!(Vector3::zero().is_zero());
    assert!(!a.is_zero());
    assert_eq!(a.map(|c: i64| c * 10), Vector3(10, 20, 30));
}
