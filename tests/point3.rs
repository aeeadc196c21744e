use turnsim::geometry::Point3;

#[test]
fn new_point3() {
    let pt = Point3::new(1, 2, 3);
    assert_eq!(pt.x, 1);
    assert_eq!(pt.y, 2);
    assert_eq!(pt.z, 3);
}

#[test]
fn add_point_to_point3() {
    let pt = Point3::new(0, 0, 0);
    let r = pt + Point3::new(1, 2, 3);
    assert_eq!(r.x, 1);
    assert_eq!(r.y, 2);
    assert_eq!(r.z, 3);
}

#[test]
fn add_point3_to_int() {
    let pt = Point3::new(0, 0, 0);
    let r = pt + 2;
    assert_eq!(r.x, 2);
    assert_eq!(r.y, 2);
    assert_eq!(r.z, 2);
}

#[test]
fn sub_point3_to_point() {
    let pt = Point3::new(0, 0, 0);
    let r = pt - Point3::new(1, 2, 3);
    assert_eq!(r.x, -1);
    assert_eq!(r.y, -2);
    assert_eq!(r.z, -3);
}

#[test]
fn sub_point3_to_int() {
    let pt = Point3::new(0, 0, 0);
    let r = pt - 2;
    assert_eq!(r.x, -2);
    assert_eq!(r.y, -2);
    assert_eq!(r.z, -2);
}

#[test]
fn mul_point3_to_point() {
    let pt = Point3::new(1, 1, 1);
    let r = pt * Point3::new(1, 2, 4);
    assert_eq!(r.x, 1);
    assert_eq!(r.y, 2);
    assert_eq!(r.z, 4);
}

#[test]
fn mul_point3_to_int() {
    let pt = Point3::new(1, 1, 1);
    let r = pt * 2;
    assert_eq!(r.x, 2);
    assert_eq!(r.y, 2);
    assert_eq!(r.z, 2);
}

#[test]
fn div_point3_to_point() {
    let pt = Point3::new(4, 4, 4);
    let r = pt / Point3::new(2, 4, 1);
    assert_eq!(r.x, 2);
    assert_eq!(r.y, 1);
    assert_eq!(r.z, 4);
}

#[test]
fn div_point3_to_int() {
    let pt = Point3::new(4, 4, 4);
    let r = pt / 2;
    assert_eq!(r.x, 2);
    assert_eq!(r.y, 2);
    assert_eq!(r.z, 2);
}

#[test]
fn div_truncates_toward_zero() {
    let pt = Point3::new(-7, 7, -7);
    let r = pt / Point3::new(2, -2, -2);
    assert_eq!(r.x, -3);
    assert_eq!(r.y, -3);
    assert_eq!(r.z, 3);
}
