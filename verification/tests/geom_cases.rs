use ldraw::geom::{det_is_negative, transform_point, Point3, Transform, COORD_LIMIT, SCALE};

fn diagonal(x: i64, y: i64, z: i64) -> Transform {
    Transform {
        a: x * SCALE,
        b: 0,
        c: 0,
        d: 0,
        e: y * SCALE,
        f: 0,
        g: 0,
        h: 0,
        i: z * SCALE,
        tx: 0,
        ty: 0,
        tz: 0,
    }
}

#[test]
fn determinant_sign_detects_reflection() {
    assert!(!det_is_negative(&diagonal(1, 1, 1)));
    assert!(det_is_negative(&diagonal(-1, 1, 1)));
    // Two negated axes make a rotation again.
    assert!(!det_is_negative(&diagonal(-1, -1, 1)));
    assert!(det_is_negative(&diagonal(-1, -1, -1)));
}

#[test]
fn translation_moves_points() {
    let mut t = diagonal(1, 1, 1);
    t.tx = 1 * SCALE;
    t.ty = 2 * SCALE;
    t.tz = 3 * SCALE;
    let p = Point3 { x: 4 * SCALE, y: 5 * SCALE, z: 6 * SCALE };
    let q = transform_point(&t, &p).unwrap();
    assert_eq!(q, Point3 { x: 5 * SCALE, y: 7 * SCALE, z: 9 * SCALE });
}

#[test]
fn scaling_truncates_toward_zero() {
    // An entry of one millionth maps a one-millionth coordinate to a
    // magnitude below one step; the result truncates toward zero from
    // both sides rather than flooring.
    let mut t = diagonal(0, 1, 1);
    t.a = 1;
    let p = Point3 { x: 1, y: 0, z: 0 };
    assert_eq!(transform_point(&t, &p).unwrap().x, 0);
    t.a = -1;
    assert_eq!(transform_point(&t, &p).unwrap().x, 0);
}

#[test]
fn out_of_range_image_is_rejected() {
    let t = diagonal(1000000, 1, 1);
    let p = Point3 { x: COORD_LIMIT, y: 0, z: 0 };
    assert_eq!(transform_point(&t, &p), None);
    // One unit scaled by a million lands exactly on the limit.
    let small = Point3 { x: SCALE, y: 0, z: 0 };
    assert_eq!(transform_point(&t, &small).unwrap().x, COORD_LIMIT);
}
