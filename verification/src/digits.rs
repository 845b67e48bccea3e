//! Decimal number text, read exactly into fixed-point values.
//!
//! A numeric field of a part file is a decimal literal: an optional sign,
//! then digits with at most one decimal point (`1`, `-0.25`, `.5`, `2.`).
//! Its value is held in millionths of a unit; fraction digits past the
//! sixth are dropped.  A field that does not have this shape is malformed,
//! and one whose magnitude exceeds [`crate::geom::COORD_LIMIT`] is out of
//! range; both conditions are fatal for a load and are reported apart.

use vstd::prelude::*;

verus! {

use crate::geom::COORD_LIMIT;
use crate::geom::SCALE;

/// Outcome of reading one numeric field.
#[derive(Clone, Copy, PartialEq, Eq, Structural, Debug)]
pub enum NumToken {
    /// The text is not a decimal literal.
    Bad,
    /// The text is a decimal literal whose magnitude is over `COORD_LIMIT`.
    TooBig,
    /// The value, in millionths of a unit.
    Val(i64),
}

pub open spec fn spec_is_digit(b: u8) -> bool {
    48 <= b && b <= 57
}

pub open spec fn spec_all_digits(s: Seq<u8>) -> bool {
    forall|i: int| 0 <= i < s.len() ==> spec_is_digit(#[trigger] s[i])
}

/// The number denoted by a run of decimal digits, most significant first.
pub open spec fn spec_digits_val(s: Seq<u8>) -> int
    decreases s.len(),
{
    if s.len() == 0 {
        0
    } else {
        spec_digits_val(s.drop_last()) * 10 + (s.last() - 48)
    }
}

pub open spec fn spec_ten_pow(n: nat) -> int
    decreases n,
{
    if n == 0 {
        1
    } else {
        10 * spec_ten_pow((n - 1) as nat)
    }
}

/// Index of the first `.` in `s`, or `s.len()` if there is none.
pub open spec fn spec_dot_pos(s: Seq<u8>) -> int
    decreases s.len(),
{
    if s.len() == 0 {
        0
    } else if s[0] == 46 {
        0
    } else {
        1 + spec_dot_pos(s.skip(1))
    }
}

/// Value in millionths contributed by the fraction digits: the first six
/// digits, padded with zeros on the right if there are fewer.
pub open spec fn spec_frac_val(s: Seq<u8>) -> int {
    if s.len() >= 6 {
        spec_digits_val(s.take(6))
    } else {
        spec_digits_val(s) * spec_ten_pow((6 - s.len()) as nat)
    }
}

/// The meaning of one numeric field, in millionths of a unit.
pub open spec fn spec_parse_num(s: Seq<u8>) -> NumToken {
    if s.len() == 0 {
        NumToken::Bad
    } else {
        let neg = s[0] == 45;
        let body = if s[0] == 45 || s[0] == 43 {
            s.skip(1)
        } else {
            s
        };
        let d = spec_dot_pos(body);
        let ip = body.take(d);
        let fp = if d < body.len() {
            body.skip(d + 1)
        } else {
            Seq::<u8>::empty()
        };
        if spec_all_digits(ip) && spec_all_digits(fp) && ip.len() + fp.len() >= 1 {
            let m = spec_digits_val(ip) * (SCALE as int) + spec_frac_val(fp);
            if m > COORD_LIMIT as int {
                NumToken::TooBig
            } else if neg {
                NumToken::Val((-m) as i64)
            } else {
                NumToken::Val(m as i64)
            }
        } else {
            NumToken::Bad
        }
    }
}

pub proof fn lemma_take_succ(s: Seq<u8>, k: int)
    requires
        0 <= k < s.len(),
    ensures
        s.take(k + 1).drop_last() == s.take(k),
        s.take(k + 1).last() == s[k],
{
    assert(s.take(k + 1).drop_last() =~= s.take(k));
}

pub proof fn lemma_digits_val_nonneg(s: Seq<u8>)
    requires
        spec_all_digits(s),
    ensures
        spec_digits_val(s) >= 0,
    decreases s.len(),
{
    if s.len() > 0 {
        assert(spec_all_digits(s.drop_last())) by {
            assert(forall|i: int|
                0 <= i < s.drop_last().len() ==> s.drop_last()[i] == #[trigger] s[i]);
        }
        lemma_digits_val_nonneg(s.drop_last());
    }
}

pub proof fn lemma_digits_val_bound(s: Seq<u8>)
    requires
        spec_all_digits(s),
    ensures
        0 <= spec_digits_val(s) < spec_ten_pow(s.len()),
    decreases s.len(),
{
    if s.len() == 0 {
    } else {
        assert(spec_all_digits(s.drop_last())) by {
            assert(forall|i: int|
                0 <= i < s.drop_last().len() ==> s.drop_last()[i] == #[trigger] s[i]);
        }
        lemma_digits_val_bound(s.drop_last());
        let v = spec_digits_val(s.drop_last());
        let p = spec_ten_pow(s.drop_last().len());
        assert(spec_ten_pow(s.len()) == 10 * p);
        assert(v * 10 <= (p - 1) * 10) by (nonlinear_arith)
            requires
                v <= p - 1,
        ;
    }
}

pub proof fn lemma_ten_pow_pos(n: nat)
    ensures
        spec_ten_pow(n) >= 1,
    decreases n,
{
    if n > 0 {
        lemma_ten_pow_pos((n - 1) as nat);
    }
}

pub proof fn lemma_ten_pow_le(a: nat, b: nat)
    requires
        a <= b,
    ensures
        spec_ten_pow(a) <= spec_ten_pow(b),
    decreases b,
{
    if a < b {
        lemma_ten_pow_le(a, (b - 1) as nat);
        lemma_ten_pow_pos((b - 1) as nat);
    }
}

/// Characterizes `spec_dot_pos`: it is the index of the first `.`.
pub proof fn lemma_dot_pos(s: Seq<u8>)
    ensures
        0 <= spec_dot_pos(s) <= s.len(),
        spec_dot_pos(s) < s.len() ==> s[spec_dot_pos(s)] == 46,
        forall|j: int| 0 <= j < spec_dot_pos(s) ==> s[j] != 46,
    decreases s.len(),
{
    if s.len() > 0 && s[0] != 46 {
        lemma_dot_pos(s.skip(1));
        assert forall|j: int| 0 <= j < spec_dot_pos(s) implies s[j] != 46 by {
            if j >= 1 {
                assert(s[j] == s.skip(1)[j - 1]);
            }
        }
        assert(spec_dot_pos(s) < s.len() ==> s[spec_dot_pos(s)] == 46) by {
            if spec_dot_pos(s) < s.len() {
                assert(s[spec_dot_pos(s)] == s.skip(1)[spec_dot_pos(s.skip(1))]);
            }
        }
    }
}

/// The fraction part of a well-formed literal is at most one less than a
/// whole millionth.
pub proof fn lemma_frac_val_bounds(s: Seq<u8>)
    requires
        spec_all_digits(s),
    ensures
        0 <= spec_frac_val(s) < 1000000,
{
    if s.len() >= 6 {
        assert(spec_all_digits(s.take(6))) by {
            assert(forall|i: int| 0 <= i < 6 ==> s.take(6)[i] == #[trigger] s[i]);
        }
        lemma_digits_val_bound(s.take(6));
        assert(spec_ten_pow(6nat) == 1000000) by {
            reveal_with_fuel(spec_ten_pow, 7);
        }
    } else {
        lemma_digits_val_bound(s);
        lemma_ten_pow_pos((6 - s.len()) as nat);
        let v = spec_digits_val(s);
        let p = spec_ten_pow(s.len());
        let q = spec_ten_pow((6 - s.len()) as nat);
        assert(p * q == spec_ten_pow(6nat)) by {
            lemma_ten_pow_mul(s.len(), (6 - s.len()) as nat);
        }
        assert(spec_ten_pow(6nat) == 1000000) by {
            reveal_with_fuel(spec_ten_pow, 7);
        }
        assert(0 <= v * q <= (p - 1) * q) by (nonlinear_arith)
            requires
                0 <= v <= p - 1,
                q >= 1,
        ;
        assert((p - 1) * q == p * q - q) by (nonlinear_arith);
    }
}

pub proof fn lemma_ten_pow_mul(a: nat, b: nat)
    ensures
        spec_ten_pow(a) * spec_ten_pow(b) == spec_ten_pow((a + b) as nat),
    decreases a,
{
    if a == 0 {
    } else {
        lemma_ten_pow_mul((a - 1) as nat, b);
        let pa1 = spec_ten_pow((a - 1) as nat);
        let pb = spec_ten_pow(b);
        assert((10 * pa1) * pb == 10 * (pa1 * pb)) by (nonlinear_arith);
    }
}

/// A value read back from a well-formed numeric field is within the
/// coordinate range.
pub proof fn lemma_parse_num_bounded(s: Seq<u8>)
    ensures
        forall|v: i64|
            spec_parse_num(s) == NumToken::Val(v) ==> -COORD_LIMIT <= v <= COORD_LIMIT,
{
    if s.len() > 0 {
        let body = if s[0] == 45 || s[0] == 43 {
            s.skip(1)
        } else {
            s
        };
        let d = spec_dot_pos(body);
        let ip = body.take(d);
        let fp = if d < body.len() {
            body.skip(d + 1)
        } else {
            Seq::<u8>::empty()
        };
        if spec_all_digits(ip) && spec_all_digits(fp) && ip.len() + fp.len() >= 1 {
            lemma_digits_val_nonneg(ip);
            lemma_frac_val_bounds(fp);
            assert(spec_digits_val(ip) * (SCALE as int) >= 0) by (nonlinear_arith)
                requires
                    spec_digits_val(ip) >= 0,
            ;
        }
    }
}

/// Converse direction: an index with no `.` before it and a `.` (or the end)
/// at it is `spec_dot_pos`.
pub proof fn lemma_dot_pos_at(s: Seq<u8>, k: int)
    requires
        0 <= k <= s.len(),
        k < s.len() ==> s[k] == 46,
        forall|j: int| 0 <= j < k ==> s[j] != 46,
    ensures
        spec_dot_pos(s) == k,
    decreases s.len(),
{
    if s.len() > 0 && s[0] != 46 {
        assert(forall|j: int| 0 <= j < s.skip(1).len() ==> s.skip(1)[j] == #[trigger] s[j + 1]);
        lemma_dot_pos_at(s.skip(1), k - 1);
    }
}

/// Extends `from` over decimal digits and returns the index of the first
/// non-digit (or the end).
fn digit_run_end(t: &[u8], from: usize) -> (end: usize)
    requires
        from <= t@.len(),
    ensures
        from <= end <= t@.len(),
        forall|j: int| from <= j < end ==> spec_is_digit(#[trigger] t@[j]),
        end < t@.len() ==> !spec_is_digit(t@[end as int]),
{
    let n = t.len();
    let mut i = from;
    while i < n && 48 <= t[i] && t[i] <= 57
        invariant
            from <= i <= n,
            n == t@.len(),
            forall|j: int| from <= j < i ==> spec_is_digit(#[trigger] t@[j]),
        decreases n - i,
    {
        i = i + 1;
    }
    i
}

/// Value of the digit run `t[from..to]`, capped: the flag reports a value
/// over a million instead of the value itself.
#[verifier::loop_isolation(false)]
fn digits_value_capped(t: &[u8], from: usize, to: usize) -> (r: (i64, bool))
    requires
        from <= to <= t@.len(),
        forall|j: int| from <= j < to ==> spec_is_digit(#[trigger] t@[j]),
    ensures
        !r.1 ==> r.0 == spec_digits_val(t@.subrange(from as int, to as int)) && 0 <= r.0
            <= 10000009,
        r.1 ==> spec_digits_val(t@.subrange(from as int, to as int)) > 1000000,
{
    let ghost s = t@.subrange(from as int, to as int);
    proof {
        assert forall|k: int| 0 <= k < s.len() implies #[trigger] s[k] == t@[from + k] by {}
    }
    let mut ival: i64 = 0;
    let mut too_big = false;
    let mut i = from;
    while i < to
        invariant
            from <= i <= to,
            !too_big ==> ival == spec_digits_val(s.take(i - from)) && 0 <= ival <= 10000009,
            too_big ==> spec_digits_val(s.take(i - from)) > 1000000,
        decreases to - i,
    {
        let d = t[i] - 48;
        proof {
            lemma_take_succ(s, i - from);
            assert(s[i - from] == t@[from + (i - from)]);
            if too_big {
                assert(spec_is_digit(s.take(i - from + 1).last()));
            }
        }
        if !too_big {
            if ival <= 1000000 {
                ival = ival * 10 + (d as i64);
            } else {
                too_big = true;
            }
        }
        i = i + 1;
    }
    proof {
        assert(s.take(to - from) =~= s);
    }
    (ival, too_big)
}

/// Millionths contributed by the fraction digits `t[from..to]`: the first
/// six of them, zero-padded on the right.
#[verifier::loop_isolation(false)]
fn frac_value(t: &[u8], from: usize, to: usize) -> (r: i64)
    requires
        from <= to <= t@.len(),
        forall|j: int| from <= j < to ==> spec_is_digit(#[trigger] t@[j]),
    ensures
        r == spec_frac_val(t@.subrange(from as int, to as int)),
        0 <= r < 1000000,
{
    let ghost s = t@.subrange(from as int, to as int);
    proof {
        assert forall|k: int| 0 <= k < s.len() implies #[trigger] s[k] == t@[from + k] by {}
        assert(spec_ten_pow(6nat) == 1000000) by {
            reveal_with_fuel(spec_ten_pow, 7);
        }
        assert(spec_ten_pow(5nat) == 100000) by {
            reveal_with_fuel(spec_ten_pow, 6);
        }
    }
    let mut fval: i64 = 0;
    let mut fcount: usize = 0;
    let mut i = from;
    while i < to && fcount < 6
        invariant
            from <= i <= to,
            fcount == i - from || (fcount == 6 && i - from >= 6),
            fcount <= 6,
            fval == spec_digits_val(s.take(fcount as int)),
            0 <= fval < spec_ten_pow(fcount as nat),
        decreases to - i,
    {
        proof {
            lemma_take_succ(s, fcount as int);
            assert(s[fcount as int] == t@[from + fcount]);
            lemma_ten_pow_le(fcount as nat, 5nat);
        }
        fval = fval * 10 + ((t[i] - 48) as i64);
        fcount = fcount + 1;
        i = i + 1;
    }
    if fcount == 6 {
        proof {
            if s.len() < 6 {
                assert(false);
            }
        }
        fval
    } else {
        proof {
            assert(i == to);
            assert(fcount == s.len());
            assert(s.take(fcount as int) =~= s);
            assert((fcount - s.len()) as nat == 0nat);
            assert(spec_ten_pow(0nat) == 1);
            assert(fval == spec_digits_val(s) * spec_ten_pow((fcount - s.len()) as nat)) by (
            nonlinear_arith)
                requires
                    fval == spec_digits_val(s),
                    spec_ten_pow((fcount - s.len()) as nat) == 1,
            ;
        }
        while fcount < 6
            invariant
                s.len() <= fcount <= 6,
                fval == spec_digits_val(s) * spec_ten_pow((fcount - s.len()) as nat),
                0 <= fval < spec_ten_pow(fcount as nat),
            decreases 6 - fcount,
        {
            proof {
                let v = spec_digits_val(s);
                let p = spec_ten_pow((fcount - s.len()) as nat);
                assert((v * p) * 10 == v * (10 * p)) by (nonlinear_arith);
                lemma_ten_pow_le(fcount as nat, 5nat);
            }
            fval = fval * 10;
            fcount = fcount + 1;
        }
        fval
    }
}

/// Reads one numeric field.  The result is exactly the meaning the
/// specification assigns to the text.
pub fn parse_num(t: &[u8]) -> (r: NumToken)
    ensures
        r == spec_parse_num(t@),
{
    let n = t.len();
    if n == 0 {
        return NumToken::Bad;
    }
    let neg = t[0] == 45;
    let start: usize = if t[0] == 45 || t[0] == 43 {
        1
    } else {
        0
    };
    let ghost body = t@.skip(start as int);
    proof {
        if start == 0 {
            assert(t@.skip(0) =~= t@);
        }
        assert forall|k: int| 0 <= k < body.len() implies #[trigger] body[k] == t@[start + k] by {}
    }
    let d_end = digit_run_end(t, start);
    let int_len = d_end - start;
    let ghost ip = body.take(int_len as int);
    proof {
        assert(ip =~= t@.subrange(start as int, d_end as int));
        assert forall|k: int| 0 <= k < int_len implies spec_is_digit(#[trigger] ip[k]) by {
            assert(ip[k] == t@[start + k]);
        }
    }
    if d_end == n {
        if int_len == 0 {
            return NumToken::Bad;
        }
        proof {
            assert(ip =~= body);
            assert forall|k: int| 0 <= k < body.len() implies body[k] != 46 by {
                assert(spec_is_digit(ip[k]));
            }
            lemma_dot_pos_at(body, body.len() as int);
            assert(spec_frac_val(Seq::<u8>::empty()) == 0);
        }
        let (ival, too_big) = digits_value_capped(t, start, d_end);
        if too_big {
            proof {
                assert(spec_digits_val(body) * (SCALE as int) > 1000000 * 1000000) by (
                nonlinear_arith)
                    requires
                        spec_digits_val(body) > 1000000,
                ;
            }
            return NumToken::TooBig;
        }
        let m = ival * 1000000;
        if m > COORD_LIMIT {
            return NumToken::TooBig;
        }
        if neg {
            return NumToken::Val(-m);
        }
        return NumToken::Val(m);
    }
    if t[d_end] == 46 {
        let ghost fp = body.skip(int_len + 1);
        proof {
            assert forall|j: int| 0 <= j < int_len implies body[j] != 46 by {
                assert(body[j] == ip[j]);
                assert(spec_is_digit(ip[j]));
            }
            assert(body[int_len as int] == t@[start + int_len]);
            lemma_dot_pos_at(body, int_len as int);
            assert forall|k: int| 0 <= k < fp.len() implies #[trigger] fp[k] == t@[(d_end + 1)
                + k] by {
                assert(fp[k] == body[int_len + 1 + k]);
                assert(body[int_len + 1 + k] == t@[start + (int_len + 1 + k)]);
            }
            assert(fp =~= t@.subrange(d_end + 1, n as int));
        }
        let f_end = digit_run_end(t, d_end + 1);
        if f_end < n {
            proof {
                assert(fp[f_end - (d_end + 1)] == t@[(d_end + 1) + (f_end - (d_end + 1))]);
                assert(!spec_all_digits(fp));
            }
            return NumToken::Bad;
        }
        if int_len == 0 && d_end + 1 == n {
            return NumToken::Bad;
        }
        proof {
            assert forall|k: int| 0 <= k < fp.len() implies spec_is_digit(#[trigger] fp[k]) by {
                assert(fp[k] == t@[(d_end + 1) + k]);
            }
        }
        let (ival, too_big) = digits_value_capped(t, start, d_end);
        let fval = frac_value(t, d_end + 1, n);
        if too_big {
            proof {
                lemma_frac_val_bounds(fp);
                assert(spec_digits_val(ip) * (SCALE as int) > 1000000 * 1000000) by (
                nonlinear_arith)
                    requires
                        spec_digits_val(ip) > 1000000,
                ;
            }
            return NumToken::TooBig;
        }
        let m = ival * 1000000 + fval;
        if m > COORD_LIMIT {
            return NumToken::TooBig;
        }
        if neg {
            return NumToken::Val(-m);
        }
        return NumToken::Val(m);
    }
    proof {
        lemma_dot_pos(body);
        let d = spec_dot_pos(body);
        assert(body[int_len as int] == t@[start + int_len]);
        assert(d != int_len);
        assert(d > int_len) by {
            if d < int_len {
                assert(body[d] == ip[d]);
                assert(spec_is_digit(ip[d]));
            }
        }
        assert(body.take(d)[int_len as int] == body[int_len as int]);
        assert(!spec_is_digit(body.take(d)[int_len as int]));
    }
    NumToken::Bad
}

} // verus!
