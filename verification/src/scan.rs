//! Splitting part-file text into lines and whitespace-separated tokens.
//!
//! A part file is interpreted line by line; each line is a sequence of
//! fields separated by runs of ASCII whitespace.  File names are compared
//! case-insensitively with `\` rewritten to `/`, so a normalized form of a
//! name is defined here as well.

use vstd::prelude::*;

verus! {

/// ASCII whitespace: space, tab, line feed, vertical tab, form feed,
/// carriage return.
pub open spec fn spec_is_ws(b: u8) -> bool {
    b == 32 || (9 <= b && b <= 13)
}

/// Index of the first occurrence of `t` in `s`, or `s.len()` if none.
pub open spec fn spec_find(s: Seq<u8>, t: u8) -> int
    decreases s.len(),
{
    if s.len() == 0 {
        0
    } else if s[0] == t {
        0
    } else {
        1 + spec_find(s.skip(1), t)
    }
}

pub proof fn lemma_find(s: Seq<u8>, t: u8)
    ensures
        0 <= spec_find(s, t) <= s.len(),
        spec_find(s, t) < s.len() ==> s[spec_find(s, t)] == t,
        forall|j: int| 0 <= j < spec_find(s, t) ==> s[j] != t,
    decreases s.len(),
{
    if s.len() > 0 && s[0] != t {
        lemma_find(s.skip(1), t);
        assert forall|j: int| 0 <= j < spec_find(s, t) implies s[j] != t by {
            if j >= 1 {
                assert(s[j] == s.skip(1)[j - 1]);
            }
        }
    }
}

/// An index with no `t` before it, holding `t` or being the end, is the
/// first occurrence.
pub proof fn lemma_find_at(s: Seq<u8>, t: u8, k: int)
    requires
        0 <= k <= s.len(),
        k < s.len() ==> s[k] == t,
        forall|j: int| 0 <= j < k ==> s[j] != t,
    ensures
        spec_find(s, t) == k,
    decreases s.len(),
{
    if s.len() > 0 && s[0] != t {
        assert forall|j: int| 0 <= j < k - 1 implies s.skip(1)[j] != t by {
            assert(s.skip(1)[j] == s[j + 1]);
        }
        assert(k - 1 < s.skip(1).len() ==> s.skip(1)[k - 1] == t);
        lemma_find_at(s.skip(1), t, k - 1);
    }
}

/// Length of the maximal whitespace run at the head of `s`.
pub open spec fn spec_ws_run(s: Seq<u8>) -> int
    decreases s.len(),
{
    if s.len() == 0 {
        0
    } else if spec_is_ws(s[0]) {
        1 + spec_ws_run(s.skip(1))
    } else {
        0
    }
}

/// Length of the maximal non-whitespace run at the head of `s`.
pub open spec fn spec_tok_run(s: Seq<u8>) -> int
    decreases s.len(),
{
    if s.len() == 0 {
        0
    } else if !spec_is_ws(s[0]) {
        1 + spec_tok_run(s.skip(1))
    } else {
        0
    }
}

pub proof fn lemma_ws_run(s: Seq<u8>)
    ensures
        0 <= spec_ws_run(s) <= s.len(),
    decreases s.len(),
{
    if s.len() > 0 && spec_is_ws(s[0]) {
        lemma_ws_run(s.skip(1));
    }
}

pub proof fn lemma_tok_run(s: Seq<u8>)
    ensures
        0 <= spec_tok_run(s) <= s.len(),
        forall|j: int| 0 <= j < spec_tok_run(s) ==> !spec_is_ws(s[j]),
        spec_tok_run(s) < s.len() ==> spec_is_ws(s[spec_tok_run(s)]),
    decreases s.len(),
{
    if s.len() > 0 && !spec_is_ws(s[0]) {
        lemma_tok_run(s.skip(1));
        assert forall|j: int| 0 <= j < spec_tok_run(s) implies !spec_is_ws(s[j]) by {
            if j >= 1 {
                assert(s[j] == s.skip(1)[j - 1]);
            }
        }
        assert(spec_tok_run(s) < s.len() ==> spec_is_ws(s[spec_tok_run(s)])) by {
            if spec_tok_run(s) < s.len() {
                assert(s[spec_tok_run(s)] == s.skip(1)[spec_tok_run(s.skip(1))]);
            }
        }
    }
}

/// An index with only non-whitespace before it, holding whitespace or being
/// the end, is the head run length.
pub proof fn lemma_tok_run_at(s: Seq<u8>, k: int)
    requires
        0 <= k <= s.len(),
        k < s.len() ==> spec_is_ws(s[k]),
        forall|j: int| 0 <= j < k ==> !spec_is_ws(s[j]),
    ensures
        spec_tok_run(s) == k,
    decreases s.len(),
{
    if s.len() > 0 && !spec_is_ws(s[0]) {
        assert forall|j: int| 0 <= j < k - 1 implies !spec_is_ws(s.skip(1)[j]) by {
            assert(s.skip(1)[j] == s[j + 1]);
        }
        assert(k - 1 < s.skip(1).len() ==> spec_is_ws(s.skip(1)[k - 1]));
        lemma_tok_run_at(s.skip(1), k - 1);
    }
}

/// The whitespace-separated tokens of a line, in order.
pub open spec fn spec_tokens(s: Seq<u8>) -> Seq<Seq<u8>>
    decreases s.len(),
{
    if s.len() == 0 {
        Seq::empty()
    } else if spec_is_ws(s[0]) {
        proof {
            lemma_ws_run(s);
            lemma_ws_run(s.skip(1));
        }
        spec_tokens(s.skip(spec_ws_run(s)))
    } else {
        proof {
            lemma_tok_run(s);
            lemma_tok_run(s.skip(1));
        }
        seq![s.take(spec_tok_run(s))] + spec_tokens(s.skip(spec_tok_run(s)))
    }
}

/// Skipping one leading whitespace byte does not change the tokens.
pub proof fn lemma_tokens_ws_step(s: Seq<u8>)
    requires
        s.len() > 0,
        spec_is_ws(s[0]),
    ensures
        spec_tokens(s) == spec_tokens(s.skip(1)),
{
    let r = spec_ws_run(s);
    lemma_ws_run(s.skip(1));
    if s.skip(1).len() == 0 {
        assert(s.skip(r) =~= s.skip(1));
    } else if spec_is_ws(s.skip(1)[0]) {
        let r1 = spec_ws_run(s.skip(1));
        assert(s.skip(1).skip(r1) =~= s.skip(r));
    } else {
        assert(s.skip(r) =~= s.skip(1));
    }
}

/// The lines of a file: maximal runs separated by line feeds.  A trailing
/// line feed does not add an empty final line.
pub open spec fn spec_split_lines(s: Seq<u8>) -> Seq<Seq<u8>>
    decreases s.len(),
{
    if s.len() == 0 {
        Seq::empty()
    } else {
        let k = spec_find(s, 10);
        proof {
            lemma_find(s, 10);
        }
        if k < s.len() {
            seq![s.take(k)] + spec_split_lines(s.skip(k + 1))
        } else {
            seq![s]
        }
    }
}

/// Normalized form of one byte of a file name: ASCII letters lowered and
/// backslashes turned into forward slashes.
pub open spec fn spec_norm_byte(b: u8) -> u8 {
    if 65 <= b && b <= 90 {
        (b + 32) as u8
    } else if b == 92 {
        47u8
    } else {
        b
    }
}

/// Normalized form of a file name, under which files are looked up.
pub open spec fn spec_normalize(s: Seq<u8>) -> Seq<u8> {
    Seq::new(s.len(), |i: int| spec_norm_byte(s[i]))
}

fn is_ws(b: u8) -> (r: bool)
    ensures
        r == spec_is_ws(b),
{
    b == 32 || (9 <= b && b <= 13)
}

/// Copies `src[from..to]` into a fresh vector.
fn copy_range(src: &[u8], from: usize, to: usize) -> (r: Vec<u8>)
    requires
        from <= to <= src@.len(),
    ensures
        r@ == src@.subrange(from as int, to as int),
{
    let mut out: Vec<u8> = Vec::new();
    let mut j: usize = from;
    while j < to
        invariant
            from <= j <= to <= src@.len(),
            out@ == src@.subrange(from as int, j as int),
        decreases to - j,
    {
        out.push(src[j]);
        proof {
            assert(src@.subrange(from as int, j + 1) =~= src@.subrange(from as int, j as int)
                + seq![src@[j as int]]);
        }
        j = j + 1;
    }
    out
}

/// The whitespace-separated tokens of one line.
pub fn tokenize(line: &[u8]) -> (r: Vec<Vec<u8>>)
    ensures
        r.deep_view() == spec_tokens(line@),
{
    let n = line.len();
    let mut toks: Vec<Vec<u8>> = Vec::new();
    proof {
        assert(line@.skip(0) =~= line@);
        assert(toks.deep_view() =~= Seq::<Seq<u8>>::empty());
        assert(Seq::<Seq<u8>>::empty() + spec_tokens(line@) =~= spec_tokens(line@));
    }
    let mut i: usize = 0;
    while i < n
        invariant
            0 <= i <= n,
            n == line@.len(),
            toks.deep_view() + spec_tokens(line@.skip(i as int)) == spec_tokens(line@),
        decreases n - i,
    {
        if is_ws(line[i]) {
            proof {
                assert(line@.skip(i as int).skip(1) =~= line@.skip(i + 1));
                lemma_tokens_ws_step(line@.skip(i as int));
            }
            i = i + 1;
        } else {
            let start = i;
            i = i + 1;
            while i < n && !is_ws(line[i])
                invariant
                    start < i <= n,
                    n == line@.len(),
                    forall|j: int| start <= j < i ==> !spec_is_ws(line@[j]),
                decreases n - i,
            {
                i = i + 1;
            }
            let tok = copy_range(line, start, i);
            let ghost prev = toks.deep_view();
            proof {
                let rest = line@.skip(start as int);
                let run = i - start;
                assert forall|j: int| 0 <= j < run implies !spec_is_ws(rest[j]) by {
                    assert(rest[j] == line@[start + j]);
                }
                assert(run < rest.len() ==> spec_is_ws(rest[run as int])) by {
                    if run < rest.len() {
                        assert(rest[run as int] == line@[i as int]);
                    }
                }
                lemma_tok_run_at(rest, run as int);
                assert(rest.take(run as int) =~= line@.subrange(start as int, i as int));
                assert(rest.skip(run as int) =~= line@.skip(i as int));
                assert(spec_tokens(rest) == seq![tok@] + spec_tokens(line@.skip(i as int)));
            }
            toks.push(tok);
            proof {
                assert(toks.deep_view() =~~= prev + seq![tok@]);
                assert((prev + seq![tok@]) + spec_tokens(line@.skip(i as int)) =~= prev + (
                seq![tok@] + spec_tokens(line@.skip(i as int))));
            }
        }
    }
    proof {
        assert(line@.skip(n as int) =~= Seq::<u8>::empty());
        assert(toks.deep_view() + spec_tokens(line@.skip(n as int)) =~= toks.deep_view());
    }
    toks
}

/// Splits file contents into lines on line feeds.
pub fn split_lines(content: &[u8]) -> (r: Vec<Vec<u8>>)
    ensures
        r.deep_view() == spec_split_lines(content@),
{
    let n = content.len();
    let mut lines: Vec<Vec<u8>> = Vec::new();
    proof {
        assert(content@.skip(0) =~= content@);
        assert(lines.deep_view() =~= Seq::<Seq<u8>>::empty());
        assert(Seq::<Seq<u8>>::empty() + spec_split_lines(content@) =~= spec_split_lines(
            content@,
        ));
    }
    let mut start: usize = 0;
    let mut i: usize = 0;
    while i < n
        invariant
            0 <= start <= i <= n,
            n == content@.len(),
            lines.deep_view() + spec_split_lines(content@.skip(start as int)) == spec_split_lines(
                content@,
            ),
            forall|j: int| start <= j < i ==> content@[j] != 10,
        decreases n - i,
    {
        if content[i] == 10 {
            let ln = copy_range(content, start, i);
            let ghost prev = lines.deep_view();
            proof {
                let rest = content@.skip(start as int);
                let k = i - start;
                assert forall|j: int| 0 <= j < k implies rest[j] != 10 by {
                    assert(rest[j] == content@[start + j]);
                }
                assert(rest[k as int] == content@[i as int]);
                lemma_find_at(rest, 10, k as int);
                assert(rest.take(k as int) =~= content@.subrange(start as int, i as int));
                assert(rest.skip(k + 1) =~= content@.skip(i + 1));
                assert(spec_split_lines(rest) == seq![ln@] + spec_split_lines(
                    content@.skip(i + 1),
                ));
            }
            lines.push(ln);
            proof {
                assert(lines.deep_view() =~~= prev + seq![ln@]);
                assert((prev + seq![ln@]) + spec_split_lines(content@.skip(i + 1)) =~= prev + (
                seq![ln@] + spec_split_lines(content@.skip(i + 1))));
            }
            start = i + 1;
        }
        i = i + 1;
    }
    if start < n {
        let ln = copy_range(content, start, n);
        let ghost prev = lines.deep_view();
        proof {
            let rest = content@.skip(start as int);
            assert forall|j: int| 0 <= j < rest.len() implies rest[j] != 10 by {
                assert(rest[j] == content@[start + j]);
            }
            lemma_find_at(rest, 10, rest.len() as int);
            assert(rest =~= content@.subrange(start as int, n as int));
            assert(spec_split_lines(rest) == seq![ln@]);
        }
        lines.push(ln);
        proof {
            assert(lines.deep_view() =~~= prev + seq![ln@]);
        }
    } else {
        proof {
            assert(content@.skip(start as int) =~= Seq::<u8>::empty());
            assert(lines.deep_view() + spec_split_lines(content@.skip(start as int))
                =~= lines.deep_view());
        }
    }
    lines
}

/// Normalizes a file name: letters lowered, backslashes made slashes.
pub fn normalize_name(name: &[u8]) -> (r: Vec<u8>)
    ensures
        r@ == spec_normalize(name@),
{
    let n = name.len();
    let mut out: Vec<u8> = Vec::new();
    let mut i: usize = 0;
    while i < n
        invariant
            0 <= i <= n,
            n == name@.len(),
            out@.len() == i,
            forall|j: int| 0 <= j < i ==> out@[j] == spec_norm_byte(name@[j]),
        decreases n - i,
    {
        let b = name[i];
        if 65 <= b && b <= 90 {
            out.push(b + 32);
        } else if b == 92 {
            out.push(47);
        } else {
            out.push(b);
        }
        i = i + 1;
    }
    proof {
        assert(out@ =~= spec_normalize(name@));
    }
    out
}

} // verus!
