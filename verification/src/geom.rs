//! Fixed-point points, affine transforms and polygons.
//!
//! Coordinates are exact integers in millionths of an LDraw unit, so every
//! computation here — transforming a point, taking a determinant — is exact
//! integer arithmetic.  All coordinates and transform entries are kept
//! within [`COORD_LIMIT`]; a transform whose result would leave that range
//! reports failure instead of wrapping.

use vstd::prelude::*;

verus! {

use vstd::arithmetic::div_mod::lemma_fundamental_div_mod;
use crate::color::LdrawColor;

/// Fixed-point steps per LDraw unit: all coordinates are millionths.
pub const SCALE: i64 = 1000000;

/// Largest coordinate or transform-entry magnitude, one million units.
pub const COORD_LIMIT: i64 = 1000000000000;

pub open spec fn coord_ok(v: int) -> bool {
    -(COORD_LIMIT as int) <= v <= COORD_LIMIT as int
}

/// A point, in millionths of an LDraw unit per axis.
#[derive(Clone, Copy, PartialEq, Eq, Structural, Debug)]
pub struct Point3 {
    pub x: i64,
    pub y: i64,
    pub z: i64,
}

impl Point3 {
    pub open spec fn bounded(self) -> bool {
        coord_ok(self.x as int) && coord_ok(self.y as int) && coord_ok(self.z as int)
    }
}

/// An affine transform in the part-file reference-line convention: a 3x3
/// submatrix in row-major order plus a translation, all in millionths.
/// A point maps to
/// `((a x + b y + c z) / SCALE + tx, (d x + e y + f z) / SCALE + ty,
/// (g x + h y + i z) / SCALE + tz)`.
#[derive(Clone, Copy, PartialEq, Eq, Structural, Debug)]
pub struct Transform {
    pub a: i64,
    pub b: i64,
    pub c: i64,
    pub d: i64,
    pub e: i64,
    pub f: i64,
    pub g: i64,
    pub h: i64,
    pub i: i64,
    pub tx: i64,
    pub ty: i64,
    pub tz: i64,
}

impl Transform {
    pub open spec fn bounded(self) -> bool {
        coord_ok(self.a as int) && coord_ok(self.b as int) && coord_ok(self.c as int)
            && coord_ok(self.d as int) && coord_ok(self.e as int) && coord_ok(self.f as int)
            && coord_ok(self.g as int) && coord_ok(self.h as int) && coord_ok(self.i as int)
            && coord_ok(self.tx as int) && coord_ok(self.ty as int) && coord_ok(self.tz as int)
    }
}

/// Determinant of the 3x3 submatrix, in cubed millionths.  Only its sign is
/// ever used: a negative determinant is a reflection and flips winding.
pub open spec fn spec_det3(t: Transform) -> int {
    t.a * ((t.e * t.i) - (t.f * t.h)) - t.b * ((t.d * t.i) - (t.f * t.g)) + t.c * ((t.d * t.h) - (
    t.e * t.g))
}

/// Division by `SCALE` truncated toward zero, matching the executable
/// sign-split unsigned division.
pub open spec fn spec_scale_div(v: int) -> int {
    if v >= 0 {
        v / (SCALE as int)
    } else {
        -((-v) / (SCALE as int))
    }
}

pub open spec fn spec_transform_coord(m0: int, m1: int, m2: int, tr: int, p: Point3) -> int {
    spec_scale_div(m0 * p.x + m1 * p.y + m2 * p.z) + tr
}

/// Applies the full affine map to a point; `None` when a coordinate of the
/// image leaves the representable range.
pub open spec fn spec_transform_point(t: Transform, p: Point3) -> Option<Point3> {
    let nx = spec_transform_coord(t.a as int, t.b as int, t.c as int, t.tx as int, p);
    let ny = spec_transform_coord(t.d as int, t.e as int, t.f as int, t.ty as int, p);
    let nz = spec_transform_coord(t.g as int, t.h as int, t.i as int, t.tz as int, p);
    if coord_ok(nx) && coord_ok(ny) && coord_ok(nz) {
        Some(Point3 { x: nx as i64, y: ny as i64, z: nz as i64 })
    } else {
        None
    }
}

/// One oriented triangle: the point order encodes the front face.
#[derive(Clone, Copy, PartialEq, Eq, Structural, Debug)]
pub struct Polygon {
    pub p0: Point3,
    pub p1: Point3,
    pub p2: Point3,
    pub color: LdrawColor,
}

impl Polygon {
    pub open spec fn bounded(self) -> bool {
        self.p0.bounded() && self.p1.bounded() && self.p2.bounded()
    }

    /// The three points without their order.
    pub open spec fn point_set(self) -> Set<Point3> {
        set![self.p0, self.p1, self.p2]
    }
}

fn mul_coord(x: i64, y: i64) -> (r: i128)
    requires
        coord_ok(x as int),
        coord_ok(y as int),
    ensures
        r as int == (x as int) * (y as int),
        -1000000000000000000000000 <= r as int <= 1000000000000000000000000,
{
    proof {
        assert((x as int) * (y as int) <= 1000000000000000000000000 && (x as int) * (y as int)
            >= -1000000000000000000000000) by (nonlinear_arith)
            requires
                -1000000000000 <= x as int <= 1000000000000,
                -1000000000000 <= y as int <= 1000000000000,
        ;
    }
    (x as i128) * (y as i128)
}

fn mul_entry_minor(x: i64, m: i128) -> (r: i128)
    requires
        coord_ok(x as int),
        -2000000000000000000000000 <= m as int <= 2000000000000000000000000,
    ensures
        r as int == (x as int) * (m as int),
        -2000000000000000000000000000000000000 <= r as int
            <= 2000000000000000000000000000000000000,
{
    proof {
        assert((x as int) * (m as int) <= 2000000000000000000000000000000000000 && (x as int) * (
        m as int) >= -2000000000000000000000000000000000000) by (nonlinear_arith)
            requires
                -1000000000000 <= x as int <= 1000000000000,
                -2000000000000000000000000 <= m as int <= 2000000000000000000000000,
        ;
    }
    (x as i128) * m
}

/// Whether the 3x3 submatrix has negative determinant (a reflection).
pub fn det_is_negative(t: &Transform) -> (r: bool)
    requires
        t.bounded(),
    ensures
        r == (spec_det3(*t) < 0),
{
    let ei = mul_coord(t.e, t.i);
    let fh = mul_coord(t.f, t.h);
    let di = mul_coord(t.d, t.i);
    let fg = mul_coord(t.f, t.g);
    let dh = mul_coord(t.d, t.h);
    let eg = mul_coord(t.e, t.g);
    let pa = mul_entry_minor(t.a, ei - fh);
    let pb = mul_entry_minor(t.b, di - fg);
    let pc = mul_entry_minor(t.c, dh - eg);
    let det = pa - pb + pc;
    det < 0
}

fn mul_entry(m: i64, v: i64) -> (r: i128)
    requires
        coord_ok(m as int),
    ensures
        r as int == (m as int) * (v as int),
        -10000000000000000000000000000000 <= r as int <= 10000000000000000000000000000000,
{
    proof {
        assert((m as int) * (v as int) <= 10000000000000000000000000000000 && (m as int) * (
        v as int) >= -10000000000000000000000000000000) by (nonlinear_arith)
            requires
                -1000000000000 <= m as int <= 1000000000000,
                -9223372036854775808 <= v as int <= 9223372036854775807,
        ;
    }
    (m as i128) * (v as i128)
}

fn scale_div_i128(v: i128) -> (r: i128)
    requires
        -100000000000000000000000000000000 <= v as int <= 100000000000000000000000000000000,
    ensures
        r as int == spec_scale_div(v as int),
        -100000000000000000000000000 <= r as int <= 100000000000000000000000000,
{
    if v >= 0 {
        let u = v as u128;
        let q = u / 1000000u128;
        proof {
            lemma_fundamental_div_mod(u as int, 1000000);
        }
        q as i128
    } else {
        let u = (-v) as u128;
        let q = u / 1000000u128;
        proof {
            lemma_fundamental_div_mod(u as int, 1000000);
        }
        -(q as i128)
    }
}

fn transform_coord(m0: i64, m1: i64, m2: i64, tr: i64, p: &Point3) -> (r: i128)
    requires
        coord_ok(m0 as int),
        coord_ok(m1 as int),
        coord_ok(m2 as int),
        coord_ok(tr as int),
    ensures
        r as int == spec_transform_coord(m0 as int, m1 as int, m2 as int, tr as int, *p),
        -200000000000000000000000000 <= r as int <= 200000000000000000000000000,
{
    let s = mul_entry(m0, p.x) + mul_entry(m1, p.y) + mul_entry(m2, p.z);
    let q = scale_div_i128(s);
    q + (tr as i128)
}

/// Applies a transform to a point; `None` when the image is out of range.
pub fn transform_point(t: &Transform, p: &Point3) -> (r: Option<Point3>)
    requires
        t.bounded(),
    ensures
        r == spec_transform_point(*t, *p),
{
    let nx = transform_coord(t.a, t.b, t.c, t.tx, p);
    let ny = transform_coord(t.d, t.e, t.f, t.ty, p);
    let nz = transform_coord(t.g, t.h, t.i, t.tz, p);
    let lim = COORD_LIMIT as i128;
    if -lim <= nx && nx <= lim && -lim <= ny && ny <= lim && -lim <= nz && nz <= lim {
        Some(Point3 { x: nx as i64, y: ny as i64, z: nz as i64 })
    } else {
        None
    }
}

} // verus!
