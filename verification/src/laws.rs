//! Format-level guarantees of the loader, stated and proved once for all
//! inputs.

use vstd::prelude::*;

verus! {

use crate::color::LdrawColor;
use crate::color::spec_resolve_color;
use crate::geom::Point3;
use crate::geom::Polygon;
use crate::geom::Transform;
use crate::geom::spec_det3;
use crate::geom::spec_transform_point;
use crate::loader::LoadError;
use crate::loader::LoadState;
use crate::loader::spec_effective;
use crate::loader::spec_load;
use crate::loader::spec_run;
use crate::loader::spec_kw_bfc;
use crate::loader::spec_kw_invertnext;
use crate::loader::spec_load_part;
use crate::loader::spec_place;
use crate::loader::spec_place_from;
use crate::loader::spec_quad;
use crate::loader::spec_read_point;
use crate::loader::spec_ref_transform;
use crate::loader::spec_step;
use crate::loader::spec_triangle;
use crate::scan::spec_normalize;
use crate::scan::spec_split_lines;
use crate::scan::spec_tokens;

/// A triangle line emits its points in the natural field order exactly
/// when the declared direction and the inherited inversion agree: declared
/// counter-clockwise and not inverted keeps `(p0, p1, p2)`; declared
/// clockwise and not inverted reverses to `(p2, p1, p0)`.
pub proof fn lemma_triangle_winding(
    t: Seq<Seq<u8>>,
    cw: bool,
    inverted: bool,
    color: LdrawColor,
    q0: Point3,
    q1: Point3,
    q2: Point3,
)
    requires
        spec_read_point(t, 2) == Ok::<Point3, LoadError>(q0),
        spec_read_point(t, 5) == Ok::<Point3, LoadError>(q1),
        spec_read_point(t, 8) == Ok::<Point3, LoadError>(q2),
    ensures
        !cw && !inverted ==> spec_triangle(t, cw, inverted, color) == Ok::<Polygon, LoadError>(
            (Polygon { p0: q0, p1: q1, p2: q2, color: color }),
        ),
        cw && !inverted ==> spec_triangle(t, cw, inverted, color) == Ok::<Polygon, LoadError>(
            (Polygon { p0: q2, p1: q1, p2: q0, color: color }),
        ),
{
}

/// The effective inversion of a sub-file reference is the exclusive-or of
/// the inherited inversion, the one-shot invert flag, and the sign of the
/// transform determinant — exhaustively, over all eight combinations.
pub proof fn lemma_effective_inversion(inherited: bool, invert_next: bool, det_neg: bool)
    ensures
        spec_effective(inherited, invert_next, det_neg) == (inherited ^ invert_next ^ det_neg),
{
}

/// A `BFC INVERTNEXT` line sets the one-shot flag and changes nothing
/// else.
pub proof fn lemma_invert_next_set(
    files: Map<Seq<u8>, Seq<u8>>,
    fuel: nat,
    inverted: bool,
    st: LoadState,
    line: Seq<u8>,
)
    requires
        spec_tokens(line).len() >= 3,
        spec_tokens(line)[0] == seq![48u8],
        spec_tokens(line)[1] == spec_kw_bfc(),
        spec_tokens(line)[2] == spec_kw_invertnext(),
    ensures
        spec_step(files, fuel, inverted, st, line) == Ok::<LoadState, LoadError>(
            (LoadState { cw: st.cw, invert_next: true, polys: st.polys }),
        ),
{
    assert(seq![48u8][0] == 48);
}

/// A sub-file reference line consumes the one-shot flag: whenever it
/// succeeds, the flag is false afterwards.
pub proof fn lemma_invert_next_consumed(
    files: Map<Seq<u8>, Seq<u8>>,
    fuel: nat,
    inverted: bool,
    st: LoadState,
    line: Seq<u8>,
    st2: LoadState,
)
    requires
        spec_tokens(line)[0] == seq![49u8],
        spec_step(files, fuel, inverted, st, line) == Ok::<LoadState, LoadError>(st2),
    ensures
        spec_tokens(line).len() >= 3 ==> !st2.invert_next,
{
    assert(seq![48u8][0] == 48);
    assert(seq![49u8][0] == 49);
}

/// Any line that is neither a sub-file reference nor a `BFC INVERTNEXT`
/// meta command carries the one-shot flag through unchanged, however many
/// such lines intervene before the flag is consumed.
pub proof fn lemma_invert_next_persists(
    files: Map<Seq<u8>, Seq<u8>>,
    fuel: nat,
    inverted: bool,
    st: LoadState,
    line: Seq<u8>,
    st2: LoadState,
)
    requires
        spec_step(files, fuel, inverted, st, line) == Ok::<LoadState, LoadError>(st2),
        spec_tokens(line).len() >= 3 ==> spec_tokens(line)[0] != seq![49u8],
        !(spec_tokens(line).len() >= 3 && spec_tokens(line)[0] == seq![48u8] && spec_tokens(
            line,
        )[1] == spec_kw_bfc() && spec_tokens(line)[2] == spec_kw_invertnext()),
    ensures
        st2.invert_next == st.invert_next,
{
}

/// A quadrilateral line yields exactly two triangles, split along the
/// `q0`–`q2` diagonal in both winding branches, each triangle's points
/// reversed exactly when a triangle line's would be; together they cover
/// exactly the quadrilateral's four points.
pub proof fn lemma_quad_split(
    t: Seq<Seq<u8>>,
    cw: bool,
    inverted: bool,
    color: LdrawColor,
    q0: Point3,
    q1: Point3,
    q2: Point3,
    q3: Point3,
)
    requires
        spec_read_point(t, 2) == Ok::<Point3, LoadError>(q0),
        spec_read_point(t, 5) == Ok::<Point3, LoadError>(q1),
        spec_read_point(t, 8) == Ok::<Point3, LoadError>(q2),
        spec_read_point(t, 11) == Ok::<Point3, LoadError>(q3),
    ensures
        cw == inverted ==> spec_quad(t, cw, inverted, color) == Ok::<(Polygon, Polygon), LoadError>(
            ((
                Polygon { p0: q0, p1: q1, p2: q2, color: color },
                Polygon { p0: q2, p1: q3, p2: q0, color: color },
            )),
        ),
        cw != inverted ==> spec_quad(t, cw, inverted, color) == Ok::<(Polygon, Polygon), LoadError>(
            ((
                Polygon { p0: q2, p1: q1, p2: q0, color: color },
                Polygon { p0: q0, p1: q3, p2: q2, color: color },
            )),
        ),
        (match spec_quad(t, cw, inverted, color) {
            Ok(pr) => pr.0.point_set().union(pr.1.point_set()) == set![q0, q1, q2, q3],
            Err(_) => false,
        }),
{
    match spec_quad(t, cw, inverted, color) {
        Ok(pr) => {
            assert(pr.0.point_set().union(pr.1.point_set()) =~= set![q0, q1, q2, q3]);
        },
        Err(_) => {},
    }
}

/// Color propagation through one sub-file reference: a placed polygon
/// keeps its own color unless that color was inherited (`Main`), in which
/// case it takes the reference line's color — a color set deeper in the
/// hierarchy is never overridden.  Applied at each enclosing reference in
/// turn, this is what resolves every polygon to the nearest enclosing
/// explicit color.
pub proof fn lemma_color_propagation(
    tf: Transform,
    color: LdrawColor,
    polys: Seq<Polygon>,
    placed: Seq<Polygon>,
)
    requires
        spec_place(tf, color, polys) == Ok::<Seq<Polygon>, LoadError>(placed),
    ensures
        placed.len() == polys.len(),
        forall|i: int|
            0 <= i < polys.len() ==> (#[trigger] placed[i].color) == (if polys[i].color
                == LdrawColor::Main {
                color
            } else {
                polys[i].color
            }),
{
    lemma_place_from(tf, color, polys, 0, placed);
}

proof fn lemma_place_from(
    tf: Transform,
    color: LdrawColor,
    polys: Seq<Polygon>,
    k: int,
    rest: Seq<Polygon>,
)
    requires
        0 <= k <= polys.len(),
        spec_place_from(tf, color, polys, k) == Ok::<Seq<Polygon>, LoadError>(rest),
    ensures
        rest.len() == polys.len() - k,
        forall|i: int|
            0 <= i < rest.len() ==> (#[trigger] rest[i].color) == (if polys[k + i].color
                == LdrawColor::Main {
                color
            } else {
                polys[k + i].color
            }),
    decreases polys.len() - k,
{
    if k < polys.len() {
        let tail = choose|tail: Seq<Polygon>|
            spec_place_from(tf, color, polys, k + 1) == Ok::<Seq<Polygon>, LoadError>(tail);
        lemma_place_from(tf, color, polys, k + 1, tail);
        assert forall|i: int|
            0 <= i < rest.len() implies (#[trigger] rest[i].color) == (if polys[k + i].color
            == LdrawColor::Main {
            color
        } else {
            polys[k + i].color
        }) by {
            if i >= 1 {
                assert(rest[i] == tail[i - 1]);
                assert(tail[i - 1].color == (if polys[(k + 1) + (i - 1)].color
                    == LdrawColor::Main {
                    color
                } else {
                    polys[(k + 1) + (i - 1)].color
                }));
            }
        }
    }
}

/// The same triangle with its winding reversed.
pub open spec fn spec_reversed(p: Polygon) -> Polygon {
    Polygon { p0: p.p2, p1: p.p1, p2: p.p0, color: p.color }
}

/// Two polygon lists that agree except that every triangle of the second
/// has its winding reversed.
pub open spec fn spec_all_reversed(a: Seq<Polygon>, b: Seq<Polygon>) -> bool {
    b.len() == a.len() && (forall|i: int|
        0 <= i < a.len() ==> b[i] == spec_reversed(#[trigger] a[i]))
}

/// Flipping the inherited inversion of a load flips the winding of every
/// triangle of the whole referenced sub-tree, and nothing else; failing
/// loads fail alike.  Together with `lemma_effective_inversion` this is
/// what a reflecting (negative-determinant) reference does relative to an
/// otherwise-identical plain one: its sub-tree's effective inversion is
/// flipped, so every one of its triangles comes out rewound.
pub proof fn lemma_inversion_flips_winding(
    files: Map<Seq<u8>, Seq<u8>>,
    name: Seq<u8>,
    inverted: bool,
    fuel: nat,
)
    ensures
        (match (spec_load(files, name, inverted, fuel), spec_load(files, name, !inverted, fuel)) {
            (Ok(a), Ok(b)) => spec_all_reversed(a, b),
            (Err(ea), Err(eb)) => ea == eb,
            _ => false,
        }),
    decreases fuel, 2nat, 0nat,
{
    if files.contains_key(name) && fuel > 0 {
        let init = LoadState { cw: false, invert_next: false, polys: Seq::<Polygon>::empty() };
        lemma_run_flip(files, fuel, inverted, spec_split_lines(files[name]), init, init);
    }
}

spec fn reversed_states(a: LoadState, b: LoadState) -> bool {
    b.cw == a.cw && b.invert_next == a.invert_next && spec_all_reversed(a.polys, b.polys)
}

proof fn lemma_run_flip(
    files: Map<Seq<u8>, Seq<u8>>,
    fuel: nat,
    inverted: bool,
    lines: Seq<Seq<u8>>,
    st_a: LoadState,
    st_b: LoadState,
)
    requires
        reversed_states(st_a, st_b),
    ensures
        (match (
            spec_run(files, fuel, inverted, lines, st_a),
            spec_run(files, fuel, !inverted, lines, st_b),
        ) {
            (Ok(ra), Ok(rb)) => reversed_states(ra, rb),
            (Err(ea), Err(eb)) => ea == eb,
            _ => false,
        }),
    decreases fuel, 1nat, lines.len(),
{
    if lines.len() > 0 {
        lemma_step_flip(files, fuel, inverted, st_a, st_b, lines[0]);
        match (
            spec_step(files, fuel, inverted, st_a, lines[0]),
            spec_step(files, fuel, !inverted, st_b, lines[0]),
        ) {
            (Ok(sa), Ok(sb)) => {
                lemma_run_flip(files, fuel, inverted, lines.skip(1), sa, sb);
            },
            _ => {},
        }
    }
}

proof fn lemma_all_reversed_push(a: Seq<Polygon>, b: Seq<Polygon>, p: Polygon)
    requires
        spec_all_reversed(a, b),
    ensures
        spec_all_reversed(a.push(p), b.push(spec_reversed(p))),
{
    assert forall|i: int|
        0 <= i < a.push(p).len() implies b.push(spec_reversed(p))[i] == spec_reversed(
        #[trigger] a.push(p)[i],
    ) by {
        if i < a.len() {
            assert(a.push(p)[i] == a[i]);
            assert(b.push(spec_reversed(p))[i] == b[i]);
        }
    }
}

proof fn lemma_all_reversed_concat(a: Seq<Polygon>, b: Seq<Polygon>, c: Seq<Polygon>, d: Seq<
    Polygon,
>)
    requires
        spec_all_reversed(a, b),
        spec_all_reversed(c, d),
    ensures
        spec_all_reversed(a + c, b + d),
{
    assert forall|i: int| 0 <= i < (a + c).len() implies (b + d)[i] == spec_reversed(
        #[trigger] (a + c)[i],
    ) by {
        if i < a.len() {
            assert((a + c)[i] == a[i]);
            assert((b + d)[i] == b[i]);
        } else {
            assert((a + c)[i] == c[i - a.len()]);
            assert((b + d)[i] == d[i - b.len()]);
        }
    }
}

proof fn lemma_place_from_flip(
    tf: Transform,
    color: LdrawColor,
    a: Seq<Polygon>,
    b: Seq<Polygon>,
    k: int,
)
    requires
        spec_all_reversed(a, b),
    ensures
        (match (spec_place_from(tf, color, a, k), spec_place_from(tf, color, b, k)) {
            (Ok(ra), Ok(rb)) => spec_all_reversed(ra, rb),
            (Err(ea), Err(eb)) => ea == eb,
            _ => false,
        }),
    decreases a.len() - k,
{
    if 0 <= k < a.len() {
        let pa = a[k];
        let pb = b[k];
        assert(pb == spec_reversed(pa));
        let o0 = spec_transform_point(tf, pa.p0);
        let o1 = spec_transform_point(tf, pa.p1);
        let o2 = spec_transform_point(tf, pa.p2);
        if o0 is Some && o1 is Some && o2 is Some {
            lemma_place_from_flip(tf, color, a, b, k + 1);
            match (spec_place_from(tf, color, a, k + 1), spec_place_from(tf, color, b, k + 1)) {
                (Ok(ra), Ok(rb)) => {
                    let qa = Polygon {
                        p0: o0->0,
                        p1: o1->0,
                        p2: o2->0,
                        color: if pa.color == LdrawColor::Main {
                            color
                        } else {
                            pa.color
                        },
                    };
                    assert(spec_all_reversed(seq![qa], seq![spec_reversed(qa)])) by {
                        assert(seq![qa][0] == qa);
                    }
                    lemma_all_reversed_concat(seq![qa], seq![spec_reversed(qa)], ra, rb);
                },
                _ => {},
            }
        }
    }
}

proof fn lemma_step_flip(
    files: Map<Seq<u8>, Seq<u8>>,
    fuel: nat,
    inverted: bool,
    st_a: LoadState,
    st_b: LoadState,
    line: Seq<u8>,
)
    requires
        reversed_states(st_a, st_b),
    ensures
        (match (
            spec_step(files, fuel, inverted, st_a, line),
            spec_step(files, fuel, !inverted, st_b, line),
        ) {
            (Ok(sa), Ok(sb)) => reversed_states(sa, sb),
            (Err(ea), Err(eb)) => ea == eb,
            _ => false,
        }),
    decreases fuel, 0nat, 0nat,
{
    let t = spec_tokens(line);
    if t.len() >= 3 && t[0] != seq![48u8] {
        if t[0] == seq![49u8] {
            if t.len() >= 15 && fuel > 0 {
                match spec_ref_transform(t) {
                    Ok(tf) => {
                        let det_neg = spec_det3(tf) < 0;
                        let ia = spec_effective(inverted, st_a.invert_next, det_neg);
                        let ib = spec_effective(!inverted, st_b.invert_next, det_neg);
                        assert(ib == !ia);
                        let nm = spec_normalize(t[14]);
                        lemma_inversion_flips_winding(files, nm, ia, (fuel - 1) as nat);
                        match (
                            spec_load(files, nm, ia, (fuel - 1) as nat),
                            spec_load(files, nm, ib, (fuel - 1) as nat),
                        ) {
                            (Ok(sub_a), Ok(sub_b)) => {
                                let col = spec_resolve_color(t[1]);
                                lemma_place_from_flip(tf, col, sub_a, sub_b, 0);
                                match (spec_place(tf, col, sub_a), spec_place(tf, col, sub_b)) {
                                    (Ok(pa), Ok(pb)) => {
                                        lemma_all_reversed_concat(st_a.polys, st_b.polys, pa, pb);
                                    },
                                    _ => {},
                                }
                            },
                            _ => {},
                        }
                    },
                    Err(_) => {},
                }
            }
        } else if t[0] == seq![51u8] {
            if t.len() == 11 {
                let col = spec_resolve_color(t[1]);
                match spec_triangle(t, st_a.cw, inverted, col) {
                    Ok(pa) => {
                        match spec_triangle(t, st_b.cw, !inverted, col) {
                            Ok(pb) => {
                                assert(pb == spec_reversed(pa));
                                lemma_all_reversed_push(st_a.polys, st_b.polys, pa);
                            },
                            Err(_) => {},
                        }
                    },
                    Err(_) => {},
                }
            }
        } else if t[0] == seq![52u8] {
            if t.len() == 14 {
                let col = spec_resolve_color(t[1]);
                match spec_quad(t, st_a.cw, inverted, col) {
                    Ok(pr_a) => {
                        match spec_quad(t, st_b.cw, !inverted, col) {
                            Ok(pr_b) => {
                                assert(pr_b.0 == spec_reversed(pr_a.0));
                                assert(pr_b.1 == spec_reversed(pr_a.1));
                                lemma_all_reversed_push(st_a.polys, st_b.polys, pr_a.0);
                                lemma_all_reversed_push(
                                    st_a.polys.push(pr_a.0),
                                    st_b.polys.push(spec_reversed(pr_a.0)),
                                    pr_a.1,
                                );
                            },
                            Err(_) => {},
                        }
                    },
                    Err(_) => {},
                }
            }
        }
    }
}

/// Loading a name that is not in the library is not an error: it yields
/// the empty sequence of polygons.
pub proof fn lemma_missing_file(files: Map<Seq<u8>, Seq<u8>>, filename: Seq<u8>, inverted: bool)
    requires
        !files.contains_key(spec_normalize(filename)),
    ensures
        spec_load_part(files, filename, inverted) == Ok::<Seq<Polygon>, LoadError>(Seq::empty()),
{
}

} // verus!
