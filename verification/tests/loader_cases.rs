use ldraw::color::LdrawColor;
use ldraw::geom::Point3;
use ldraw::loader::{load_part, references, LoadError, PartLibrary};

const U: i64 = 1_000_000;

fn lib_with(entries: &[(&[u8], &[u8])]) -> PartLibrary {
    let mut lib = PartLibrary::new();
    for (name, data) in entries {
        lib.insert_file(name, data.to_vec());
    }
    lib
}

fn pt(x: i64, y: i64, z: i64) -> Point3 {
    Point3 { x: x * U, y: y * U, z: z * U }
}

#[test]
fn single_triangle_roundtrip() {
    // A lone CCW-default triangle with the inherited color comes back in
    // the natural field order, untouched.
    let lib = lib_with(&[(b"tri.dat", b"3 16 0 0 0 1 0 0 0 1 0\n")]);
    let polys = load_part(&lib, b"tri.dat", false).unwrap();
    assert_eq!(polys.len(), 1);
    assert_eq!(polys[0].p0, pt(0, 0, 0));
    assert_eq!(polys[0].p1, pt(1, 0, 0));
    assert_eq!(polys[0].p2, pt(0, 1, 0));
    assert_eq!(polys[0].color, LdrawColor::Main);
}

#[test]
fn missing_file_yields_empty() {
    let lib = PartLibrary::new();
    let polys = load_part(&lib, b"nonexistent.dat", false).unwrap();
    assert!(polys.is_empty());
}

#[test]
fn certify_cw_reverses_triangles() {
    let lib = lib_with(&[(
        b"tri.dat",
        b"0 BFC CERTIFY CW\n3 16 0 0 0 1 0 0 0 1 0\n",
    )]);
    let polys = load_part(&lib, b"tri.dat", false).unwrap();
    assert_eq!(polys.len(), 1);
    assert_eq!(polys[0].p0, pt(0, 1, 0));
    assert_eq!(polys[0].p1, pt(1, 0, 0));
    assert_eq!(polys[0].p2, pt(0, 0, 0));
}

#[test]
fn certify_ccw_keeps_natural_order() {
    let lib = lib_with(&[(
        b"tri.dat",
        b"0 BFC CERTIFY CCW\n3 16 0 0 0 1 0 0 0 1 0\n",
    )]);
    let polys = load_part(&lib, b"tri.dat", false).unwrap();
    assert_eq!(polys[0].p0, pt(0, 0, 0));
    assert_eq!(polys[0].p1, pt(1, 0, 0));
    assert_eq!(polys[0].p2, pt(0, 1, 0));
}

#[test]
fn invert_next_consumed_by_one_reference() {
    // The one-shot flag survives an intervening comment line, inverts the
    // first reference, and is gone for the second.
    let root = b"0 BFC INVERTNEXT\n\
                 0 just a comment line\n\
                 1 16 0 0 0 1 0 0 0 1 0 0 0 1 sub.dat\n\
                 1 16 0 0 0 1 0 0 0 1 0 0 0 1 sub.dat\n";
    let lib = lib_with(&[(b"root.dat", root), (b"sub.dat", b"3 16 0 0 0 1 0 0 0 1 0\n")]);
    let polys = load_part(&lib, b"root.dat", false).unwrap();
    assert_eq!(polys.len(), 2);
    // First placement: inverted, so the points are reversed.
    assert_eq!(polys[0].p0, pt(0, 1, 0));
    assert_eq!(polys[0].p1, pt(1, 0, 0));
    assert_eq!(polys[0].p2, pt(0, 0, 0));
    // Second placement: the flag was consumed, natural order again.
    assert_eq!(polys[1].p0, pt(0, 0, 0));
    assert_eq!(polys[1].p1, pt(1, 0, 0));
    assert_eq!(polys[1].p2, pt(0, 1, 0));
}

#[test]
fn invert_next_survives_intervening_geometry() {
    // Even a geometry line between the directive and the reference does
    // not consume the one-shot flag; only a reference line does.
    let root = b"0 BFC INVERTNEXT\n\
                 3 16 0 0 0 1 0 0 0 1 0\n\
                 1 16 0 0 0 1 0 0 0 1 0 0 0 1 sub.dat\n";
    let lib = lib_with(&[(b"root.dat", root), (b"sub.dat", b"3 16 0 0 0 1 0 0 0 1 0\n")]);
    let polys = load_part(&lib, b"root.dat", false).unwrap();
    assert_eq!(polys.len(), 2);
    // The root's own triangle is unaffected by the pending flag.
    assert_eq!(polys[0].p0, pt(0, 0, 0));
    // The referenced triangle is inverted.
    assert_eq!(polys[1].p0, pt(0, 1, 0));
    assert_eq!(polys[1].p2, pt(0, 0, 0));
}

#[test]
fn quad_splits_into_two_triangles() {
    let lib = lib_with(&[(b"q.dat", b"4 16 0 0 0 1 0 0 1 1 0 0 1 0\n")]);
    let polys = load_part(&lib, b"q.dat", false).unwrap();
    assert_eq!(polys.len(), 2);
    let (q0, q1, q2, q3) = (pt(0, 0, 0), pt(1, 0, 0), pt(1, 1, 0), pt(0, 1, 0));
    assert_eq!((polys[0].p0, polys[0].p1, polys[0].p2), (q0, q1, q2));
    assert_eq!((polys[1].p0, polys[1].p1, polys[1].p2), (q2, q3, q0));
    // The two triangles together cover exactly the quad's four points.
    let mut seen = vec![polys[0].p0, polys[0].p1, polys[0].p2, polys[1].p0, polys[1].p1, polys[1].p2];
    seen.sort_by_key(|p| (p.x, p.y, p.z));
    seen.dedup();
    let mut quad = vec![q0, q1, q2, q3];
    quad.sort_by_key(|p| (p.x, p.y, p.z));
    assert_eq!(seen, quad);
}

#[test]
fn quad_reversal_keeps_diagonal() {
    // Under CW certification both triangles reverse but still share the
    // q0-q2 diagonal.
    let lib = lib_with(&[(
        b"q.dat",
        b"0 BFC CERTIFY CW\n4 16 0 0 0 1 0 0 1 1 0 0 1 0\n",
    )]);
    let polys = load_part(&lib, b"q.dat", false).unwrap();
    let (q0, q1, q2, q3) = (pt(0, 0, 0), pt(1, 0, 0), pt(1, 1, 0), pt(0, 1, 0));
    assert_eq!((polys[0].p0, polys[0].p1, polys[0].p2), (q2, q1, q0));
    assert_eq!((polys[1].p0, polys[1].p1, polys[1].p2), (q0, q3, q2));
}

#[test]
fn color_propagates_to_nearest_explicit_ancestor() {
    // The leaf's inherited-color triangle walks out through a `16`
    // reference and takes the root's explicit red; the leaf's explicit
    // green triangle is never overridden.
    let root = b"1 4 0 0 0 1 0 0 0 1 0 0 0 1 mid.dat\n";
    let mid = b"1 16 0 0 0 1 0 0 0 1 0 0 0 1 leaf.dat\n";
    let leaf = b"3 16 0 0 0 1 0 0 0 1 0\n3 2 0 0 0 1 0 0 0 1 0\n";
    let lib = lib_with(&[(b"root.dat", root), (b"mid.dat", mid), (b"leaf.dat", leaf)]);
    let polys = load_part(&lib, b"root.dat", false).unwrap();
    assert_eq!(polys.len(), 2);
    assert_eq!(polys[0].color, LdrawColor::Rgba(705882, 0, 0, 1000000));
    assert_eq!(polys[1].color, LdrawColor::Rgba(0, 521569, 168627, 1000000));
}

#[test]
fn effective_inversion_is_threeway_xor() {
    // All eight combinations of inherited inversion, the one-shot flag and
    // a reflecting transform: the sub-triangle is reversed exactly when
    // the three-way exclusive-or holds.
    for inherited in [false, true] {
        for invert_next in [false, true] {
            for mirrored in [false, true] {
                let mut root = Vec::new();
                if invert_next {
                    root.extend_from_slice(b"0 BFC INVERTNEXT\n");
                }
                if mirrored {
                    root.extend_from_slice(b"1 16 0 0 0 -1 0 0 0 1 0 0 0 1 sub.dat\n");
                } else {
                    root.extend_from_slice(b"1 16 0 0 0 1 0 0 0 1 0 0 0 1 sub.dat\n");
                }
                let lib = lib_with(&[
                    (b"root.dat", root.as_slice()),
                    (b"sub.dat", b"3 16 0 0 0 0 1 0 0 0 1\n"),
                ]);
                let polys = load_part(&lib, b"root.dat", inherited).unwrap();
                assert_eq!(polys.len(), 1);
                let flipped = inherited ^ invert_next ^ mirrored;
                // The sub-file's natural points, through the reference's
                // transform (only x may be negated, and x is 0 here).
                let (a, b, c) = (pt(0, 0, 0), pt(0, 1, 0), pt(0, 0, 1));
                if flipped {
                    assert_eq!((polys[0].p0, polys[0].p1, polys[0].p2), (c, b, a));
                } else {
                    assert_eq!((polys[0].p0, polys[0].p1, polys[0].p2), (a, b, c));
                }
            }
        }
    }
}

#[test]
fn mirrored_reference_flips_winding() {
    let sub = b"3 16 0 0 0 1 0 0 0 1 0\n";
    let plain = b"1 16 0 0 0 1 0 0 0 1 0 0 0 1 sub.dat\n";
    let mirror = b"1 16 0 0 0 -1 0 0 0 1 0 0 0 1 sub.dat\n";
    let lib_a = lib_with(&[(b"root.dat", plain), (b"sub.dat", sub)]);
    let lib_b = lib_with(&[(b"root.dat", mirror), (b"sub.dat", sub)]);
    let pa = load_part(&lib_a, b"root.dat", false).unwrap();
    let pb = load_part(&lib_b, b"root.dat", false).unwrap();
    assert_eq!((pa[0].p0, pa[0].p1, pa[0].p2), (pt(0, 0, 0), pt(1, 0, 0), pt(0, 1, 0)));
    // Mirrored: every x is negated and the winding is reversed.
    assert_eq!((pb[0].p0, pb[0].p1, pb[0].p2), (pt(0, 1, 0), pt(-1, 0, 0), pt(0, 0, 0)));
}

#[test]
fn double_mirror_keeps_winding() {
    // Negating two axes is a rotation (determinant +1), so the winding is
    // kept even though two coordinates change sign.
    let root = b"1 16 0 0 0 -1 0 0 0 -1 0 0 0 1 sub.dat\n";
    let sub = b"3 16 1 0 0 0 1 0 0 0 1\n";
    let lib = lib_with(&[(b"root.dat", root), (b"sub.dat", sub)]);
    let polys = load_part(&lib, b"root.dat", false).unwrap();
    assert_eq!(
        (polys[0].p0, polys[0].p1, polys[0].p2),
        (pt(-1, 0, 0), pt(0, -1, 0), pt(0, 0, 1))
    );
}

#[test]
fn reference_transform_rotates_and_translates() {
    let root = b"1 16 10 20 30 0 -1 0 1 0 0 0 0 1 sub.dat\n";
    let sub = b"3 16 1 0 0 0 1 0 0 0 1\n";
    let lib = lib_with(&[(b"root.dat", root), (b"sub.dat", sub)]);
    let polys = load_part(&lib, b"root.dat", false).unwrap();
    // Rows: x' = -y + 10, y' = x + 20, z' = z + 30; determinant is +1.
    assert_eq!(polys[0].p0, pt(10, 21, 30));
    assert_eq!(polys[0].p1, pt(9, 20, 30));
    assert_eq!(polys[0].p2, pt(10, 20, 31));
}

#[test]
fn decimal_fields_read_exactly() {
    let lib = lib_with(&[(
        b"tri.dat",
        b"3 16 0.5 -0.25 .5 2. 0.000001 0 0 0.1234567 0\n",
    )]);
    let polys = load_part(&lib, b"tri.dat", false).unwrap();
    assert_eq!(polys[0].p0, Point3 { x: 500000, y: -250000, z: 500000 });
    assert_eq!(polys[0].p1, Point3 { x: 2000000, y: 1, z: 0 });
    // Fraction digits past the sixth are dropped.
    assert_eq!(polys[0].p2, Point3 { x: 0, y: 123456, z: 0 });
}

#[test]
fn malformed_reference_number_is_fatal() {
    let lib = lib_with(&[(
        b"root.dat",
        b"1 16 0 0 x 1 0 0 0 1 0 0 0 1 sub.dat\n",
    )]);
    assert_eq!(load_part(&lib, b"root.dat", false), Err(LoadError::MalformedNumber));
}

#[test]
fn malformed_triangle_number_is_fatal() {
    let lib = lib_with(&[(b"t.dat", b"3 16 a 0 0 1 0 0 0 1 0\n")]);
    assert_eq!(load_part(&lib, b"t.dat", false), Err(LoadError::MalformedNumber));
}

#[test]
fn oversized_number_is_fatal() {
    let lib = lib_with(&[(b"t.dat", b"3 16 2000000 0 0 1 0 0 0 1 0\n")]);
    assert_eq!(load_part(&lib, b"t.dat", false), Err(LoadError::NumberTooLarge));
}

#[test]
fn short_reference_line_is_fatal() {
    let lib = lib_with(&[(b"r.dat", b"1 16 0 0 0 1 0 0\n")]);
    assert_eq!(load_part(&lib, b"r.dat", false), Err(LoadError::MalformedReference));
}

#[test]
fn self_reference_is_fatal() {
    let lib = lib_with(&[(b"a.dat", b"1 16 0 0 0 1 0 0 0 1 0 0 0 1 a.dat\n")]);
    assert_eq!(load_part(&lib, b"a.dat", false), Err(LoadError::CyclicReference));
}

#[test]
fn two_file_cycle_is_fatal() {
    let lib = lib_with(&[
        (b"a.dat", b"1 16 0 0 0 1 0 0 0 1 0 0 0 1 b.dat\n"),
        (b"b.dat", b"1 16 0 0 0 1 0 0 0 1 0 0 0 1 a.dat\n"),
    ]);
    assert_eq!(load_part(&lib, b"a.dat", false), Err(LoadError::CyclicReference));
}

#[test]
fn scaled_placement_can_overflow() {
    // A reference scaling by a million units pushes an already-extreme
    // coordinate out of range.
    let root = b"1 16 0 0 0 1000000 0 0 0 1 0 0 0 1 big.dat\n";
    let big = b"3 16 1000000 0 0 0 1 0 0 0 1\n";
    let lib = lib_with(&[(b"root.dat", root), (b"big.dat", big)]);
    assert_eq!(load_part(&lib, b"root.dat", false), Err(LoadError::CoordinateOverflow));
}

#[test]
fn lines_and_unknown_commands_are_ignored() {
    let content = b"0 ordinary comment\n\
                    2 24 0 0 0 1 0 0\n\
                    5 24 0 0 0 1 0 0 1 1 1 0 1 1\n\
                    9 16 0 0 0 1 0 0 0 1 0\n\
                    stray words\n\
                    \n\
                    3 16 0 0 0 1 0 0 0 1 0\n";
    let lib = lib_with(&[(b"t.dat", content)]);
    let polys = load_part(&lib, b"t.dat", false).unwrap();
    assert_eq!(polys.len(), 1);
}

#[test]
fn wrong_arity_geometry_lines_are_skipped() {
    // A triangle needs exactly nine numeric fields and a quad exactly
    // twelve; other counts are silently skipped, not errors.
    let content = b"3 16 0 0 0 1 0 0\n\
                    3 16 0 0 0 1 0 0 0 1 0 5\n\
                    4 16 0 0 0 1 0 0 1 1 0 0 1\n\
                    4 16 0 0 0 1 0 0 1 1 0 0 1 0 7\n";
    let lib = lib_with(&[(b"t.dat", content)]);
    let polys = load_part(&lib, b"t.dat", false).unwrap();
    assert!(polys.is_empty());
}

#[test]
fn whitespace_variants_tokenize_alike() {
    let lib = lib_with(&[(b"t.dat", b"  3\t16  0 0 0\t1 0 0 0 1 0 \r\n")]);
    let polys = load_part(&lib, b"t.dat", false).unwrap();
    assert_eq!(polys.len(), 1);
    assert_eq!(polys[0].p1, pt(1, 0, 0));
}

#[test]
fn names_are_case_insensitive_with_backslashes() {
    let root = b"1 16 0 0 0 1 0 0 0 1 0 0 0 1 S\\Sub.DAT\n";
    let lib = lib_with(&[(b"root.dat", root), (b"s\\SUB.dat", b"3 16 0 0 0 1 0 0 0 1 0\n")]);
    let polys = load_part(&lib, b"ROOT.DAT", false).unwrap();
    assert_eq!(polys.len(), 1);
}

#[test]
fn first_stored_file_wins() {
    let mut lib = PartLibrary::new();
    lib.insert_file(b"t.dat", b"3 16 0 0 0 1 0 0 0 1 0\n".to_vec());
    lib.insert_file(b"t.dat", b"4 16 0 0 0 1 0 0 1 1 0 0 1 0\n".to_vec());
    assert_eq!(lib.file_count(), 1);
    let polys = load_part(&lib, b"t.dat", false).unwrap();
    assert_eq!(polys.len(), 1);
}

#[test]
fn file_without_trailing_newline_loads() {
    let lib = lib_with(&[(b"t.dat", b"3 16 0 0 0 1 0 0 0 1 0")]);
    let polys = load_part(&lib, b"t.dat", false).unwrap();
    assert_eq!(polys.len(), 1);
}

#[test]
fn references_lists_normalized_subfiles() {
    let content = b"0 header\n\
                    1 16 0 0 0 1 0 0 0 1 0 0 0 1 A\\B.dat\n\
                    3 16 0 0 0 1 0 0 0 1 0\n\
                    1 2 0 0 0 1 0 0 0 1 0 0 0 1 c.dat\n\
                    1 16 0 0 0 1 0 0\n";
    let refs = references(content);
    assert_eq!(refs.len(), 2);
    assert_eq!(refs[0], b"a/b.dat".to_vec());
    assert_eq!(refs[1], b"c.dat".to_vec());
}
