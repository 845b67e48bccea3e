//! Resolving a part hierarchy into a flat triangle list.
//!
//! A part file is interpreted line by line.  Geometry lines (`3` and `4`)
//! emit triangles whose point order encodes the front face; `BFC` meta
//! commands declare the file's winding direction and the one-shot "invert
//! next" flag; sub-file reference lines (`1`) place another file under an
//! affine transform, with the effective inversion of the placed geometry
//! the exclusive-or of the inherited inversion, the one-shot flag and the
//! sign of the transform's determinant.  Files referenced but missing from
//! the library contribute no geometry; malformed numeric fields abort the
//! whole load.
//!
//! The files themselves live in a [`PartLibrary`], a pure value filled by
//! the embedding application: this keeps every step of the interpretation a
//! function of plain values, specified by `spec_load_part`.

use vstd::prelude::*;

verus! {

use crate::color::LdrawColor;
use crate::color::resolve_color;
use crate::color::spec_resolve_color;
use crate::digits::NumToken;
use crate::digits::lemma_parse_num_bounded;
use crate::digits::parse_num;
use crate::digits::spec_parse_num;
use crate::geom::COORD_LIMIT;
use crate::geom::Point3;
use crate::geom::Polygon;
use crate::geom::Transform;
use crate::geom::coord_ok;
use crate::geom::det_is_negative;
use crate::geom::spec_det3;
use crate::geom::spec_transform_point;
use crate::geom::transform_point;
use crate::scan::normalize_name;
use crate::scan::spec_normalize;
use crate::scan::spec_split_lines;
use crate::scan::spec_tokens;
use crate::scan::split_lines;
use crate::scan::tokenize;

/// Why a load failed.  Every variant is fatal for the whole load: no
/// partial geometry is returned.
#[derive(Clone, Copy, PartialEq, Eq, Structural, Debug)]
pub enum LoadError {
    /// A numeric field is not a decimal literal.
    MalformedNumber,
    /// A numeric field exceeds the representable coordinate range.
    NumberTooLarge,
    /// A sub-file reference line is too short to hold its transform and
    /// file name.
    MalformedReference,
    /// A transformed point left the representable coordinate range.
    CoordinateOverflow,
    /// The file hierarchy references one of its own ancestors.
    CyclicReference,
}

/// The per-file interpreter state: the declared winding direction, the
/// one-shot inversion flag, and the polygons gathered so far.
pub ghost struct LoadState {
    pub cw: bool,
    pub invert_next: bool,
    pub polys: Seq<Polygon>,
}

pub open spec fn spec_kw_bfc() -> Seq<u8> {
    seq![66u8, 70u8, 67u8]
}

pub open spec fn spec_kw_invertnext() -> Seq<u8> {
    seq![73u8, 78u8, 86u8, 69u8, 82u8, 84u8, 78u8, 69u8, 88u8, 84u8]
}

pub open spec fn spec_kw_certify() -> Seq<u8> {
    seq![67u8, 69u8, 82u8, 84u8, 73u8, 70u8, 89u8]
}

pub open spec fn spec_kw_cw() -> Seq<u8> {
    seq![67u8, 87u8]
}

/// The effective inversion of a referenced sub-file: the inherited state,
/// flipped by the one-shot flag, flipped again by a reflecting transform.
pub open spec fn spec_effective(inherited: bool, invert_next: bool, det_neg: bool) -> bool {
    let flipped = if invert_next {
        !inherited
    } else {
        inherited
    };
    if det_neg {
        !flipped
    } else {
        flipped
    }
}

/// A numeric field as the loader reads it: malformed and oversized fields
/// become the corresponding fatal error.
pub open spec fn spec_num_field(s: Seq<u8>) -> Result<i64, LoadError> {
    match spec_parse_num(s) {
        NumToken::Bad => Err(LoadError::MalformedNumber),
        NumToken::TooBig => Err(LoadError::NumberTooLarge),
        NumToken::Val(v) => Ok(v),
    }
}

/// Three consecutive numeric fields as a point.
pub open spec fn spec_read_point(t: Seq<Seq<u8>>, base: int) -> Result<Point3, LoadError> {
    match spec_num_field(t[base]) {
        Err(e) => Err(e),
        Ok(x) => match spec_num_field(t[base + 1]) {
            Err(e) => Err(e),
            Ok(y) => match spec_num_field(t[base + 2]) {
                Err(e) => Err(e),
                Ok(z) => Ok(Point3 { x: x, y: y, z: z }),
            },
        },
    }
}

/// The twelve numeric fields of a reference line as a transform: first the
/// translation, then the 3x3 submatrix in row-major order.
pub open spec fn spec_ref_transform(t: Seq<Seq<u8>>) -> Result<Transform, LoadError> {
    match spec_read_point(t, 2) {
        Err(e) => Err(e),
        Ok(tr) => match spec_read_point(t, 5) {
            Err(e) => Err(e),
            Ok(r0) => match spec_read_point(t, 8) {
                Err(e) => Err(e),
                Ok(r1) => match spec_read_point(t, 11) {
                    Err(e) => Err(e),
                    Ok(r2) => Ok(
                        Transform {
                            a: r0.x,
                            b: r0.y,
                            c: r0.z,
                            d: r1.x,
                            e: r1.y,
                            f: r1.z,
                            g: r2.x,
                            h: r2.y,
                            i: r2.z,
                            tx: tr.x,
                            ty: tr.y,
                            tz: tr.z,
                        },
                    ),
                },
            },
        },
    }
}

/// The triangle of a `3` line.  The natural field order is kept unless the
/// declared direction and the inherited inversion disagree, in which case
/// the points are reversed.
pub open spec fn spec_triangle(t: Seq<Seq<u8>>, cw: bool, inverted: bool, color: LdrawColor) -> Result<
    Polygon,
    LoadError,
> {
    match spec_read_point(t, 2) {
        Err(e) => Err(e),
        Ok(q0) => match spec_read_point(t, 5) {
            Err(e) => Err(e),
            Ok(q1) => match spec_read_point(t, 8) {
                Err(e) => Err(e),
                Ok(q2) => Ok(
                    if cw != inverted {
                        Polygon { p0: q2, p1: q1, p2: q0, color: color }
                    } else {
                        Polygon { p0: q0, p1: q1, p2: q2, color: color }
                    },
                ),
            },
        },
    }
}

/// The two triangles of a `4` line, split along the same diagonal in both
/// winding branches.
pub open spec fn spec_quad(t: Seq<Seq<u8>>, cw: bool, inverted: bool, color: LdrawColor) -> Result<
    (Polygon, Polygon),
    LoadError,
> {
    match spec_read_point(t, 2) {
        Err(e) => Err(e),
        Ok(q0) => match spec_read_point(t, 5) {
            Err(e) => Err(e),
            Ok(q1) => match spec_read_point(t, 8) {
                Err(e) => Err(e),
                Ok(q2) => match spec_read_point(t, 11) {
                    Err(e) => Err(e),
                    Ok(q3) => Ok(
                        if cw != inverted {
                            (
                                Polygon { p0: q2, p1: q1, p2: q0, color: color },
                                Polygon { p0: q0, p1: q3, p2: q2, color: color },
                            )
                        } else {
                            (
                                Polygon { p0: q0, p1: q1, p2: q2, color: color },
                                Polygon { p0: q2, p1: q3, p2: q0, color: color },
                            )
                        },
                    ),
                },
            },
        },
    }
}

/// Geometry of a resolved sub-file, carried into the parent: every point
/// is transformed, and polygons that inherited their color take the color
/// of the reference line.
pub open spec fn spec_place(tf: Transform, color: LdrawColor, polys: Seq<Polygon>) -> Result<
    Seq<Polygon>,
    LoadError,
> {
    spec_place_from(tf, color, polys, 0)
}

pub open spec fn spec_place_from(
    tf: Transform,
    color: LdrawColor,
    polys: Seq<Polygon>,
    k: int,
) -> Result<Seq<Polygon>, LoadError>
    decreases polys.len() - k,
{
    if k < 0 || k >= polys.len() {
        Ok(Seq::empty())
    } else {
        let p = polys[k];
        match spec_transform_point(tf, p.p0) {
            None => Err(LoadError::CoordinateOverflow),
            Some(a) => match spec_transform_point(tf, p.p1) {
                None => Err(LoadError::CoordinateOverflow),
                Some(b) => match spec_transform_point(tf, p.p2) {
                    None => Err(LoadError::CoordinateOverflow),
                    Some(c) => {
                        let q = Polygon {
                            p0: a,
                            p1: b,
                            p2: c,
                            color: if p.color == LdrawColor::Main {
                                color
                            } else {
                                p.color
                            },
                        };
                        match spec_place_from(tf, color, polys, k + 1) {
                            Err(e) => Err(e),
                            Ok(rest) => Ok(seq![q] + rest),
                        }
                    },
                },
            },
        }
    }
}

/// The effect of one line on the interpreter state.  Lines with fewer than
/// three fields, line primitives and unknown commands change nothing.
pub open spec fn spec_step(
    files: Map<Seq<u8>, Seq<u8>>,
    fuel: nat,
    inverted: bool,
    st: LoadState,
    line: Seq<u8>,
) -> Result<LoadState, LoadError>
    decreases fuel, 0nat, 0nat,
{
    let t = spec_tokens(line);
    if t.len() < 3 {
        Ok(st)
    } else if t[0] == seq![48u8] {
        if t[1] == spec_kw_bfc() && t[2] == spec_kw_invertnext() {
            Ok(LoadState { cw: st.cw, invert_next: true, polys: st.polys })
        } else if t[1] == spec_kw_bfc() && t.len() == 4 && t[2] == spec_kw_certify() && t[3]
            == spec_kw_cw() {
            Ok(LoadState { cw: true, invert_next: st.invert_next, polys: st.polys })
        } else {
            Ok(st)
        }
    } else if t[0] == seq![49u8] {
        if t.len() < 15 {
            Err(LoadError::MalformedReference)
        } else if fuel == 0 {
            Err(LoadError::CyclicReference)
        } else {
            match spec_ref_transform(t) {
                Err(e) => Err(e),
                Ok(tf) => {
                    let inv_eff = spec_effective(inverted, st.invert_next, spec_det3(tf) < 0);
                    match spec_load(files, spec_normalize(t[14]), inv_eff, (fuel - 1) as nat) {
                        Err(e) => Err(e),
                        Ok(sub) => match spec_place(tf, spec_resolve_color(t[1]), sub) {
                            Err(e) => Err(e),
                            Ok(placed) => Ok(
                                LoadState {
                                    cw: st.cw,
                                    invert_next: false,
                                    polys: st.polys + placed,
                                },
                            ),
                        },
                    }
                },
            }
        }
    } else if t[0] == seq![51u8] {
        if t.len() == 11 {
            match spec_triangle(t, st.cw, inverted, spec_resolve_color(t[1])) {
                Err(e) => Err(e),
                Ok(p) => Ok(
                    LoadState { cw: st.cw, invert_next: st.invert_next, polys: st.polys.push(p) },
                ),
            }
        } else {
            Ok(st)
        }
    } else if t[0] == seq![52u8] {
        if t.len() == 14 {
            match spec_quad(t, st.cw, inverted, spec_resolve_color(t[1])) {
                Err(e) => Err(e),
                Ok(pair) => Ok(
                    LoadState {
                        cw: st.cw,
                        invert_next: st.invert_next,
                        polys: st.polys.push(pair.0).push(pair.1),
                    },
                ),
            }
        } else {
            Ok(st)
        }
    } else {
        Ok(st)
    }
}

/// Folds `spec_step` over the lines of one file.
pub open spec fn spec_run(
    files: Map<Seq<u8>, Seq<u8>>,
    fuel: nat,
    inverted: bool,
    lines: Seq<Seq<u8>>,
    st: LoadState,
) -> Result<LoadState, LoadError>
    decreases fuel, 1nat, lines.len(),
{
    if lines.len() == 0 {
        Ok(st)
    } else {
        match spec_step(files, fuel, inverted, st, lines[0]) {
            Err(e) => Err(e),
            Ok(st2) => spec_run(files, fuel, inverted, lines.skip(1), st2),
        }
    }
}

/// The polygons of one file of the library, under a given inversion.  A
/// name not in the library contributes no geometry; the fuel bounds the
/// reference depth, and runs out only on a reference cycle.
pub open spec fn spec_load(
    files: Map<Seq<u8>, Seq<u8>>,
    name: Seq<u8>,
    inverted: bool,
    fuel: nat,
) -> Result<Seq<Polygon>, LoadError>
    decreases fuel, 2nat, 0nat,
{
    if !files.contains_key(name) {
        Ok(Seq::empty())
    } else if fuel == 0 {
        Err(LoadError::CyclicReference)
    } else {
        match spec_run(
            files,
            fuel,
            inverted,
            spec_split_lines(files[name]),
            LoadState { cw: false, invert_next: false, polys: Seq::empty() },
        ) {
            Err(e) => Err(e),
            Ok(st) => Ok(st.polys),
        }
    }
}

/// What `load_part` returns: the file name is normalized, and the fuel is
/// the number of files in the library, enough for any acyclic hierarchy.
pub open spec fn spec_load_part(
    files: Map<Seq<u8>, Seq<u8>>,
    filename: Seq<u8>,
    inverted: bool,
) -> Result<Seq<Polygon>, LoadError> {
    spec_load(files, spec_normalize(filename), inverted, files.dom().len())
}

/// One file held in memory under its normalized name.
struct PartFile {
    name: Vec<u8>,
    data: Vec<u8>,
}

/// The map a sequence of stored files denotes; the first file under a name
/// wins, though the library never stores a name twice.
spec fn spec_lib_map(files: Seq<PartFile>) -> Map<Seq<u8>, Seq<u8>>
    decreases files.len(),
{
    if files.len() == 0 {
        Map::empty()
    } else {
        let m = spec_lib_map(files.drop_last());
        if m.contains_key(files.last().name@) {
            m
        } else {
            m.insert(files.last().name@, files.last().data@)
        }
    }
}

proof fn lemma_lib_map_contains(files: Seq<PartFile>, k: Seq<u8>)
    ensures
        spec_lib_map(files).contains_key(k) <==> (exists|i: int|
            0 <= i < files.len() && (#[trigger] files[i].name@) == k),
    decreases files.len(),
{
    broadcast use vstd::map::group_map_axioms;

    if files.len() > 0 {
        lemma_lib_map_contains(files.drop_last(), k);
        let prev = spec_lib_map(files.drop_last());
        if exists|i: int| 0 <= i < files.len() && (#[trigger] files[i].name@) == k {
            let i = choose|i: int| 0 <= i < files.len() && (#[trigger] files[i].name@) == k;
            if i < files.len() - 1 {
                assert(files.drop_last()[i].name@ == k);
                assert(prev.contains_key(k));
            }
            assert(spec_lib_map(files).contains_key(k));
        }
        if spec_lib_map(files).contains_key(k) {
            if prev.contains_key(k) {
                let i = choose|i: int|
                    0 <= i < files.drop_last().len() && (#[trigger] files.drop_last()[i].name@)
                        == k;
                assert(files[i].name@ == k);
            } else {
                assert(files.last().name@ == k);
                assert(files[files.len() - 1].name@ == k);
            }
        }
    }
}

proof fn lemma_lib_map_get(files: Seq<PartFile>, i: int)
    requires
        spec_names_distinct(files),
        0 <= i < files.len(),
    ensures
        spec_lib_map(files).contains_key(files[i].name@),
        spec_lib_map(files)[files[i].name@] == files[i].data@,
    decreases files.len(),
{
    broadcast use vstd::map::group_map_axioms;

    let prev = spec_lib_map(files.drop_last());
    let k = files[i].name@;
    assert(spec_names_distinct(files.drop_last())) by {
        assert(forall|a: int, b: int|
            0 <= a < b < files.drop_last().len() ==> files.drop_last()[a] == files[a]
                && files.drop_last()[b] == files[b]);
    }
    if i < files.len() - 1 {
        lemma_lib_map_get(files.drop_last(), i);
        assert(files.drop_last()[i] == files[i]);
        assert(files.last().name@ != k);
    } else {
        lemma_lib_map_contains(files.drop_last(), k);
        assert(!prev.contains_key(k)) by {
            if prev.contains_key(k) {
                let j = choose|j: int|
                    0 <= j < files.drop_last().len() && (#[trigger] files.drop_last()[j].name@)
                        == k;
                assert(files[j].name@ == k);
            }
        }
    }
}

proof fn lemma_lib_map_len(files: Seq<PartFile>)
    requires
        spec_names_distinct(files),
    ensures
        spec_lib_map(files).dom().finite(),
        spec_lib_map(files).dom().len() == files.len(),
    decreases files.len(),
{
    broadcast use vstd::set::group_set_axioms;
    broadcast use vstd::map::group_map_axioms;

    if files.len() > 0 {
        assert(spec_names_distinct(files.drop_last())) by {
            assert(forall|a: int, b: int|
                0 <= a < b < files.drop_last().len() ==> files.drop_last()[a] == files[a]
                    && files.drop_last()[b] == files[b]);
        }
        lemma_lib_map_len(files.drop_last());
        let prev = spec_lib_map(files.drop_last());
        let k = files.last().name@;
        assert(!prev.contains_key(k)) by {
            lemma_lib_map_contains(files.drop_last(), k);
            if prev.contains_key(k) {
                let j = choose|j: int|
                    0 <= j < files.drop_last().len() && (#[trigger] files.drop_last()[j].name@)
                        == k;
                assert(files[j].name@ == k);
                assert(files[files.len() - 1].name@ == k);
            }
        }
        assert(spec_lib_map(files).dom() =~= prev.dom().insert(k));
    }
}

spec fn spec_names_distinct(files: Seq<PartFile>) -> bool {
    forall|i: int, j: int|
        0 <= i < j < files.len() ==> (#[trigger] files[i].name@) != (#[trigger] files[j].name@)
}

/// An in-memory set of part files, keyed by normalized file name.  Its
/// view is the map from names to contents.
pub struct PartLibrary {
    files: Vec<PartFile>,
}

impl View for PartLibrary {
    type V = Map<Seq<u8>, Seq<u8>>;

    closed spec fn view(&self) -> Map<Seq<u8>, Seq<u8>> {
        spec_lib_map(self.files@)
    }
}

impl PartLibrary {
    #[verifier::type_invariant]
    spec fn wf(self) -> bool {
        spec_names_distinct(self.files@)
    }

    /// An empty library.
    pub fn new() -> (r: PartLibrary)
        ensures
            r@ == Map::<Seq<u8>, Seq<u8>>::empty(),
    {
        PartLibrary { files: Vec::new() }
    }

    /// Stores a file under the normalized form of `name`.  A name already
    /// present keeps its first contents.
    pub fn insert_file(&mut self, name: &[u8], data: Vec<u8>)
        ensures
            final(self)@ == (if old(self)@.contains_key(spec_normalize(name@)) {
                old(self)@
            } else {
                old(self)@.insert(spec_normalize(name@), data@)
            }),
    {
        proof {
            use_type_invariant(&*self);
        }
        let key = normalize_name(name);
        if self.contains_name(key.as_slice()) {
            return ;
        }
        let ghost prev = self.files@;
        let mut files = Vec::new();
        core::mem::swap(&mut files, &mut self.files);
        files.push(PartFile { name: key, data: data });
        proof {
            assert(files@.drop_last() =~= prev);
            assert(spec_names_distinct(files@)) by {
                lemma_lib_map_contains(prev, spec_normalize(name@));
                assert(forall|a: int|
                    0 <= a < prev.len() ==> prev[a] == #[trigger] files@[a]);
            }
        }
        core::mem::swap(&mut files, &mut self.files);
    }

    /// Whether a file is stored under this (already normalized) name.
    fn contains_name(&self, key: &[u8]) -> (r: bool)
        ensures
            r == self@.contains_key(key@),
    {
        proof {
            use_type_invariant(&*self);
        }
        let n = self.files.len();
        let mut i: usize = 0;
        while i < n
            invariant
                0 <= i <= n,
                n == self.files@.len(),
                forall|j: int| 0 <= j < i ==> (#[trigger] self.files@[j].name@) != key@,
            decreases n - i,
        {
            if bytes_eq(self.files[i].name.as_slice(), key) {
                proof {
                    lemma_lib_map_contains(self.files@, key@);
                }
                return true;
            }
            i = i + 1;
        }
        proof {
            lemma_lib_map_contains(self.files@, key@);
            if self@.contains_key(key@) {
                let j = choose|j: int|
                    0 <= j < self.files@.len() && (#[trigger] self.files@[j].name@) == key@;
                assert(false);
            }
        }
        false
    }

    /// The contents stored under this (already normalized) name.
    fn get_file(&self, key: &[u8]) -> (r: Option<&Vec<u8>>)
        ensures
            (match r {
                Some(d) => self@.contains_key(key@) && d@ == self@[key@],
                None => !self@.contains_key(key@),
            }),
    {
        proof {
            use_type_invariant(&*self);
        }
        let n = self.files.len();
        let mut i: usize = 0;
        while i < n
            invariant
                0 <= i <= n,
                n == self.files@.len(),
                spec_names_distinct(self.files@),
                self@ == spec_lib_map(self.files@),
                forall|j: int| 0 <= j < i ==> (#[trigger] self.files@[j].name@) != key@,
            decreases n - i,
        {
            if bytes_eq(self.files[i].name.as_slice(), key) {
                proof {
                    lemma_lib_map_get(self.files@, i as int);
                }
                return Some(&self.files[i].data);
            }
            i = i + 1;
        }
        proof {
            lemma_lib_map_contains(self.files@, key@);
            if self@.contains_key(key@) {
                let j = choose|j: int|
                    0 <= j < self.files@.len() && (#[trigger] self.files@[j].name@) == key@;
                assert(false);
            }
        }
        None
    }

    /// How many files the library holds.
    pub fn file_count(&self) -> (n: usize)
        ensures
            n == self@.dom().len(),
    {
        proof {
            use_type_invariant(&*self);
            lemma_lib_map_len(self.files@);
        }
        self.files.len()
    }
}

fn tok_is_byte(t: &[u8], b: u8) -> (r: bool)
    ensures
        r == (t@ == seq![b]),
{
    let r = t.len() == 1 && t[0] == b;
    proof {
        if r {
            assert(t@ =~= seq![b]);
        } else if t@ == seq![b] {
            assert(t@.len() == 1 && t@[0] == b);
        }
    }
    r
}

fn tok_is_bfc(t: &[u8]) -> (r: bool)
    ensures
        r == (t@ == spec_kw_bfc()),
{
    let r = t.len() == 3 && t[0] == 66 && t[1] == 70 && t[2] == 67;
    proof {
        if r {
            assert(t@ =~= spec_kw_bfc());
        } else if t@ == spec_kw_bfc() {
            assert(t@.len() == 3 && t@[0] == 66 && t@[1] == 70 && t@[2] == 67);
        }
    }
    r
}

fn tok_is_invertnext(t: &[u8]) -> (r: bool)
    ensures
        r == (t@ == spec_kw_invertnext()),
{
    let r = t.len() == 10 && t[0] == 73 && t[1] == 78 && t[2] == 86 && t[3] == 69 && t[4] == 82
        && t[5] == 84 && t[6] == 78 && t[7] == 69 && t[8] == 88 && t[9] == 84;
    proof {
        if r {
            assert(t@ =~= spec_kw_invertnext());
        } else if t@ == spec_kw_invertnext() {
            assert(t@.len() == 10 && t@[0] == 73 && t@[1] == 78 && t@[2] == 86 && t@[3] == 69
                && t@[4] == 82 && t@[5] == 84 && t@[6] == 78 && t@[7] == 69 && t@[8] == 88 && t@[9]
                == 84);
        }
    }
    r
}

fn tok_is_certify(t: &[u8]) -> (r: bool)
    ensures
        r == (t@ == spec_kw_certify()),
{
    let r = t.len() == 7 && t[0] == 67 && t[1] == 69 && t[2] == 82 && t[3] == 84 && t[4] == 73
        && t[5] == 70 && t[6] == 89;
    proof {
        if r {
            assert(t@ =~= spec_kw_certify());
        } else if t@ == spec_kw_certify() {
            assert(t@.len() == 7 && t@[0] == 67 && t@[1] == 69 && t@[2] == 82 && t@[3] == 84
                && t@[4] == 73 && t@[5] == 70 && t@[6] == 89);
        }
    }
    r
}

fn tok_is_cw(t: &[u8]) -> (r: bool)
    ensures
        r == (t@ == spec_kw_cw()),
{
    let r = t.len() == 2 && t[0] == 67 && t[1] == 87;
    proof {
        if r {
            assert(t@ =~= spec_kw_cw());
        } else if t@ == spec_kw_cw() {
            assert(t@.len() == 2 && t@[0] == 67 && t@[1] == 87);
        }
    }
    r
}

fn num_field(t: &[u8]) -> (r: Result<i64, LoadError>)
    ensures
        r == spec_num_field(t@),
        (match r {
            Ok(v) => coord_ok(v as int),
            Err(_) => true,
        }),
{
    proof {
        lemma_parse_num_bounded(t@);
    }
    match parse_num(t) {
        NumToken::Bad => Err(LoadError::MalformedNumber),
        NumToken::TooBig => Err(LoadError::NumberTooLarge),
        NumToken::Val(v) => Ok(v),
    }
}

fn read_point(toks: &Vec<Vec<u8>>, base: usize) -> (r: Result<Point3, LoadError>)
    requires
        base + 3 <= toks@.len(),
    ensures
        (match r {
            Ok(p) => spec_read_point(toks.deep_view(), base as int) == Ok::<Point3, LoadError>(p)
                && p.bounded(),
            Err(e) => spec_read_point(toks.deep_view(), base as int) == Err::<Point3, LoadError>(
                e,
            ),
        }),
{
    let ghost td = toks.deep_view();
    let n_toks = toks.len();
    proof {
        assert(base + 3 <= n_toks);
        assert(td[base as int] =~= toks@[base as int]@);
        assert(td[base + 1] =~= toks@[base + 1]@);
        assert(td[base + 2] =~= toks@[base + 2]@);
    }
    let x = match num_field(toks[base].as_slice()) {
        Ok(v) => v,
        Err(e) => {
            return Err(e);
        },
    };
    let y = match num_field(toks[base + 1].as_slice()) {
        Ok(v) => v,
        Err(e) => {
            return Err(e);
        },
    };
    let z = match num_field(toks[base + 2].as_slice()) {
        Ok(v) => v,
        Err(e) => {
            return Err(e);
        },
    };
    Ok(Point3 { x: x, y: y, z: z })
}

fn read_transform(toks: &Vec<Vec<u8>>) -> (r: Result<Transform, LoadError>)
    requires
        toks@.len() >= 15,
    ensures
        (match r {
            Ok(tf) => spec_ref_transform(toks.deep_view()) == Ok::<Transform, LoadError>(tf)
                && tf.bounded(),
            Err(e) => spec_ref_transform(toks.deep_view()) == Err::<Transform, LoadError>(e),
        }),
{
    let tr = match read_point(toks, 2) {
        Ok(v) => v,
        Err(e) => {
            return Err(e);
        },
    };
    let r0 = match read_point(toks, 5) {
        Ok(v) => v,
        Err(e) => {
            return Err(e);
        },
    };
    let r1 = match read_point(toks, 8) {
        Ok(v) => v,
        Err(e) => {
            return Err(e);
        },
    };
    let r2 = match read_point(toks, 11) {
        Ok(v) => v,
        Err(e) => {
            return Err(e);
        },
    };
    Ok(
        Transform {
            a: r0.x,
            b: r0.y,
            c: r0.z,
            d: r1.x,
            e: r1.y,
            f: r1.z,
            g: r2.x,
            h: r2.y,
            i: r2.z,
            tx: tr.x,
            ty: tr.y,
            tz: tr.z,
        },
    )
}

fn place_polys(tf: &Transform, color: &LdrawColor, src: Vec<Polygon>) -> (r: Result<
    Vec<Polygon>,
    LoadError,
>)
    requires
        tf.bounded(),
    ensures
        (match r {
            Ok(v) => spec_place(*tf, *color, src@) == Ok::<Seq<Polygon>, LoadError>(v@),
            Err(e) => spec_place(*tf, *color, src@) == Err::<Seq<Polygon>, LoadError>(e),
        }),
{
    let n = src.len();
    let mut out: Vec<Polygon> = Vec::new();
    proof {
        match spec_place_from(*tf, *color, src@, 0) {
            Ok(rest) => {
                assert(Seq::<Polygon>::empty() + rest =~= rest);
                assert(out@ + rest =~= rest);
            },
            Err(_) => {},
        }
    }
    let mut k: usize = 0;
    while k < n
        invariant
            0 <= k <= n,
            n == src@.len(),
            tf.bounded(),
            (match spec_place_from(*tf, *color, src@, k as int) {
                Ok(rest) => spec_place(*tf, *color, src@) == Ok::<Seq<Polygon>, LoadError>(
                    out@ + rest,
                ),
                Err(e) => spec_place(*tf, *color, src@) == Err::<Seq<Polygon>, LoadError>(e),
            }),
        decreases n - k,
    {
        let p = src[k];
        let a = match transform_point(tf, &p.p0) {
            Some(v) => v,
            None => {
                return Err(LoadError::CoordinateOverflow);
            },
        };
        let b = match transform_point(tf, &p.p1) {
            Some(v) => v,
            None => {
                return Err(LoadError::CoordinateOverflow);
            },
        };
        let c = match transform_point(tf, &p.p2) {
            Some(v) => v,
            None => {
                return Err(LoadError::CoordinateOverflow);
            },
        };
        let nc = match p.color {
            LdrawColor::Main => *color,
            _ => p.color,
        };
        let q = Polygon { p0: a, p1: b, p2: c, color: nc };
        let ghost prev = out@;
        out.push(q);
        proof {
            assert(out@ =~= prev + seq![q]);
            match spec_place_from(*tf, *color, src@, k + 1) {
                Ok(rest2) => {
                    assert((prev + seq![q]) + rest2 =~= prev + (seq![q] + rest2));
                },
                Err(_) => {},
            }
        }
        k = k + 1;
    }
    proof {
        match spec_place_from(*tf, *color, src@, n as int) {
            Ok(rest) => {
                assert(rest =~= Seq::<Polygon>::empty());
                assert(out@ + rest =~= out@);
            },
            Err(_) => {},
        }
    }
    Ok(out)
}

/// The effect of one line on the interpreter state, executably.
#[verifier::rlimit(80)]
fn do_line(
    lib: &PartLibrary,
    fuel: usize,
    inverted: bool,
    cw: bool,
    invert_next: bool,
    polys: Vec<Polygon>,
    line: &[u8],
) -> (r: Result<(bool, bool, Vec<Polygon>), LoadError>)
    ensures
        (match r {
            Ok(t3) => spec_step(
                lib@,
                fuel as nat,
                inverted,
                (LoadState { cw: cw, invert_next: invert_next, polys: polys@ }),
                line@,
            ) == Ok::<LoadState, LoadError>(
                (LoadState { cw: t3.0, invert_next: t3.1, polys: t3.2@ }),
            ),
            Err(e) => spec_step(
                lib@,
                fuel as nat,
                inverted,
                (LoadState { cw: cw, invert_next: invert_next, polys: polys@ }),
                line@,
            ) == Err::<LoadState, LoadError>(e),
        }),
    decreases fuel, 0int,
{
    let toks = tokenize(line);
    let ghost td = spec_tokens(line@);
    proof {
        assert(toks.deep_view() == td);
        assert forall|k: int| 0 <= k < toks@.len() implies #[trigger] toks@[k]@ == td[k] by {
            assert(td[k] == toks.deep_view()[k]);
            assert(toks.deep_view()[k] =~= toks@[k]@);
        }
    }
    if toks.len() < 3 {
        return Ok((cw, invert_next, polys));
    }
    if tok_is_byte(toks[0].as_slice(), 48) {
        if tok_is_bfc(toks[1].as_slice()) && tok_is_invertnext(toks[2].as_slice()) {
            return Ok((cw, true, polys));
        }
        if tok_is_bfc(toks[1].as_slice()) && toks.len() == 4 && tok_is_certify(toks[2].as_slice())
            && tok_is_cw(toks[3].as_slice()) {
            return Ok((true, invert_next, polys));
        }
        return Ok((cw, invert_next, polys));
    }
    if tok_is_byte(toks[0].as_slice(), 49) {
        if toks.len() < 15 {
            return Err(LoadError::MalformedReference);
        }
        if fuel == 0 {
            return Err(LoadError::CyclicReference);
        }
        let tf = match read_transform(&toks) {
            Ok(v) => v,
            Err(e) => {
                return Err(e);
            },
        };
        let det_neg = det_is_negative(&tf);
        let inv0 = if invert_next {
            !inverted
        } else {
            inverted
        };
        let inv_eff = if det_neg {
            !inv0
        } else {
            inv0
        };
        let name = normalize_name(toks[14].as_slice());
        let sub = match load_rec(lib, name.as_slice(), inv_eff, fuel - 1) {
            Ok(v) => v,
            Err(e) => {
                return Err(e);
            },
        };
        let color = resolve_color(toks[1].as_slice());
        let mut placed = match place_polys(&tf, &color, sub) {
            Ok(v) => v,
            Err(e) => {
                return Err(e);
            },
        };
        let mut out = polys;
        out.append(&mut placed);
        return Ok((cw, false, out));
    }
    if tok_is_byte(toks[0].as_slice(), 51) {
        if toks.len() == 11 {
            let q0 = match read_point(&toks, 2) {
                Ok(v) => v,
                Err(e) => {
                    return Err(e);
                },
            };
            let q1 = match read_point(&toks, 5) {
                Ok(v) => v,
                Err(e) => {
                    return Err(e);
                },
            };
            let q2 = match read_point(&toks, 8) {
                Ok(v) => v,
                Err(e) => {
                    return Err(e);
                },
            };
            let color = resolve_color(toks[1].as_slice());
            let poly = if cw != inverted {
                Polygon { p0: q2, p1: q1, p2: q0, color: color }
            } else {
                Polygon { p0: q0, p1: q1, p2: q2, color: color }
            };
            let mut out = polys;
            out.push(poly);
            return Ok((cw, invert_next, out));
        }
        return Ok((cw, invert_next, polys));
    }
    if tok_is_byte(toks[0].as_slice(), 52) {
        if toks.len() == 14 {
            let q0 = match read_point(&toks, 2) {
                Ok(v) => v,
                Err(e) => {
                    return Err(e);
                },
            };
            let q1 = match read_point(&toks, 5) {
                Ok(v) => v,
                Err(e) => {
                    return Err(e);
                },
            };
            let q2 = match read_point(&toks, 8) {
                Ok(v) => v,
                Err(e) => {
                    return Err(e);
                },
            };
            let q3 = match read_point(&toks, 11) {
                Ok(v) => v,
                Err(e) => {
                    return Err(e);
                },
            };
            let color = resolve_color(toks[1].as_slice());
            let (t1, t2) = if cw != inverted {
                (
                    Polygon { p0: q2, p1: q1, p2: q0, color: color },
                    Polygon { p0: q0, p1: q3, p2: q2, color: color },
                )
            } else {
                (
                    Polygon { p0: q0, p1: q1, p2: q2, color: color },
                    Polygon { p0: q2, p1: q3, p2: q0, color: color },
                )
            };
            let mut out = polys;
            out.push(t1);
            out.push(t2);
            return Ok((cw, invert_next, out));
        }
        return Ok((cw, invert_next, polys));
    }
    Ok((cw, invert_next, polys))
}

/// The polygons of one file of the library, executably.
#[verifier::loop_isolation(false)]
fn load_rec(lib: &PartLibrary, name: &[u8], inverted: bool, fuel: usize) -> (r: Result<
    Vec<Polygon>,
    LoadError,
>)
    ensures
        (match r {
            Ok(v) => spec_load(lib@, name@, inverted, fuel as nat) == Ok::<Seq<Polygon>, LoadError>(
                v@,
            ),
            Err(e) => spec_load(lib@, name@, inverted, fuel as nat) == Err::<
                Seq<Polygon>,
                LoadError,
            >(e),
        }),
    decreases fuel, 1int,
{
    let data = match lib.get_file(name) {
        Some(d) => d,
        None => {
            return Ok(Vec::new());
        },
    };
    if fuel == 0 {
        return Err(LoadError::CyclicReference);
    }
    let lines = split_lines(data.as_slice());
    let ghost lds = spec_split_lines(lib@[name@]);
    let ghost init = LoadState { cw: false, invert_next: false, polys: Seq::<Polygon>::empty() };
    proof {
        assert(lines.deep_view() == lds);
        assert(lds.skip(0) =~= lds);
    }
    let mut cw = false;
    let mut invert_next = false;
    let mut polys: Vec<Polygon> = Vec::new();
    let n = lines.len();
    let mut k: usize = 0;
    while k < n
        invariant
            0 <= k <= n,
            spec_run(
                lib@,
                fuel as nat,
                inverted,
                lds.skip(k as int),
                (LoadState { cw: cw, invert_next: invert_next, polys: polys@ }),
            ) == spec_run(lib@, fuel as nat, inverted, lds, init),
        decreases n - k,
    {
        proof {
            assert(lds.skip(k as int)[0] == lds[k as int]);
            assert(lds[k as int] =~= lines@[k as int]@);
            assert(lds.skip(k as int).skip(1) =~= lds.skip(k + 1));
            assert(lds.skip(k as int).len() > 0);
        }
        match do_line(lib, fuel, inverted, cw, invert_next, polys, lines[k].as_slice()) {
            Ok(t3) => {
                cw = t3.0;
                invert_next = t3.1;
                polys = t3.2;
            },
            Err(e) => {
                return Err(e);
            },
        }
        k = k + 1;
    }
    proof {
        assert(lds.skip(n as int) =~= Seq::<Seq<u8>>::empty());
    }
    Ok(polys)
}

/// Resolves `filename` against the library: the flat list of triangles of
/// the named file and, transformed and colored, of everything it
/// references.  A name with no file contributes nothing; errors are fatal
/// and return no geometry.
pub fn load_part(lib: &PartLibrary, filename: &[u8], inverted: bool) -> (r: Result<
    Vec<Polygon>,
    LoadError,
>)
    ensures
        (match r {
            Ok(v) => spec_load_part(lib@, filename@, inverted) == Ok::<Seq<Polygon>, LoadError>(
                v@,
            ),
            Err(e) => spec_load_part(lib@, filename@, inverted) == Err::<Seq<Polygon>, LoadError>(
                e,
            ),
        }),
{
    let key = normalize_name(filename);
    let fuel = lib.file_count();
    load_rec(lib, key.as_slice(), inverted, fuel)
}

/// The normalized names referenced by `lines`, in order of appearance.
pub open spec fn spec_refs_in_lines(lines: Seq<Seq<u8>>) -> Seq<Seq<u8>>
    decreases lines.len(),
{
    if lines.len() == 0 {
        Seq::empty()
    } else {
        let t = spec_tokens(lines[0]);
        let rest = spec_refs_in_lines(lines.skip(1));
        if t.len() >= 15 && t[0] == seq![49u8] {
            seq![spec_normalize(t[14])] + rest
        } else {
            rest
        }
    }
}

/// The normalized names of the sub-files a file's contents reference.
pub open spec fn spec_references(content: Seq<u8>) -> Seq<Seq<u8>> {
    spec_refs_in_lines(spec_split_lines(content))
}

/// Lists the sub-files referenced by one file's contents, so that an
/// embedding application can gather a closed set of files before loading.
#[verifier::loop_isolation(false)]
pub fn references(content: &[u8]) -> (r: Vec<Vec<u8>>)
    ensures
        r.deep_view() == spec_references(content@),
{
    let lines = split_lines(content);
    let ghost lds = spec_split_lines(content@);
    let mut refs: Vec<Vec<u8>> = Vec::new();
    proof {
        assert(lds.skip(0) =~= lds);
        assert(refs.deep_view() =~= Seq::<Seq<u8>>::empty());
        assert(Seq::<Seq<u8>>::empty() + spec_refs_in_lines(lds) =~= spec_refs_in_lines(lds));
    }
    let n = lines.len();
    let mut k: usize = 0;
    while k < n
        invariant
            0 <= k <= n,
            refs.deep_view() + spec_refs_in_lines(lds.skip(k as int)) == spec_refs_in_lines(lds),
        decreases n - k,
    {
        proof {
            assert(lds.skip(k as int)[0] == lds[k as int]);
            assert(lds[k as int] =~= lines@[k as int]@);
            assert(lds.skip(k as int).skip(1) =~= lds.skip(k + 1));
        }
        let toks = tokenize(lines[k].as_slice());
        let ghost t = spec_tokens(lds[k as int]);
        proof {
            assert(toks.deep_view() == t);
        }
        if toks.len() >= 15 && tok_is_byte(toks[0].as_slice(), 49) {
            proof {
                assert(toks@[0]@ =~= toks.deep_view()[0]);
                assert(toks@[14]@ =~= toks.deep_view()[14]);
            }
            let name = normalize_name(toks[14].as_slice());
            let ghost prev = refs.deep_view();
            refs.push(name);
            proof {
                assert(refs.deep_view() =~~= prev + seq![spec_normalize(t[14])]);
                assert((prev + seq![spec_normalize(t[14])]) + spec_refs_in_lines(lds.skip(k + 1))
                    =~= prev + (seq![spec_normalize(t[14])] + spec_refs_in_lines(
                    lds.skip(k + 1),
                )));
            }
        } else {
            proof {
                if toks.len() >= 1 {
                    assert(toks@[0]@ =~= toks.deep_view()[0]);
                }
            }
        }
        k = k + 1;
    }
    proof {
        assert(lds.skip(n as int) =~= Seq::<Seq<u8>>::empty());
        assert(refs.deep_view() + Seq::<Seq<u8>>::empty() =~= refs.deep_view());
    }
    refs
}

/// Byte-for-byte equality of two slices.
fn bytes_eq(a: &[u8], b: &[u8]) -> (r: bool)
    ensures
        r == (a@ == b@),
{
    let n = a.len();
    if n != b.len() {
        return false;
    }
    let mut i: usize = 0;
    while i < n
        invariant
            0 <= i <= n,
            n == a@.len(),
            n == b@.len(),
            forall|j: int| 0 <= j < i ==> a@[j] == b@[j],
        decreases n - i,
    {
        if a[i] != b[i] {
            return false;
        }
        i = i + 1;
    }
    proof {
        assert(a@ =~= b@);
    }
    true
}

} // verus!
