//! Vector arithmetic over bit-pattern scalars: dot product, norm, cosine
//! similarity, numerically stable softmax and weighted sum.
//!
//! Each executable function is verified against a specification that fixes
//! the exact sequence of primitive operations, coordinate by coordinate and
//! left to right, so that results are reproducible across runs.

use vstd::prelude::*;

use crate::scalar::{
    ZERO_BITS, ONE_BITS, NEG_INF_BITS, add_bits, sub_bits, mul_bits, div_bits, sqrt_bits,
    exp_bits, max_bits, is_nan_bits, is_zero_bits, from_u64_bits, f_add, f_sub, f_mul, f_div,
    f_sqrt, f_exp, f_max, f_is_nan, f_is_zero, f_from_u64,
};

verus! {

/// Left fold of `add(acc, mul(a[i], b[i]))` over the first `n` coordinates,
/// starting from zero: the dot product as the executable code computes it.
pub open spec fn dot_prefix(a: Seq<u64>, b: Seq<u64>, n: nat) -> u64
    decreases n,
{
    if n == 0 {
        ZERO_BITS
    } else {
        add_bits(dot_prefix(a, b, (n - 1) as nat), mul_bits(a[n - 1], b[n - 1]))
    }
}

/// Dot product over as many coordinates as both vectors have.
pub open spec fn dot_bits(a: Seq<u64>, b: Seq<u64>) -> u64 {
    dot_prefix(a, b, if a.len() <= b.len() { a.len() } else { b.len() })
}

/// Euclidean norm: the square root of the self dot product.
pub open spec fn norm_bits(a: Seq<u64>) -> u64 {
    sqrt_bits(dot_bits(a, a))
}

/// Whether some coordinate encodes a NaN.
pub open spec fn any_nan(a: Seq<u64>) -> bool {
    exists|i: int| 0 <= i < a.len() && is_nan_bits(a[i])
}

/// Cosine similarity: negative infinity when either vector carries a NaN
/// coordinate, zero when either norm is zero, the normalized dot product
/// otherwise.
pub open spec fn cosine_bits(a: Seq<u64>, b: Seq<u64>) -> u64 {
    if any_nan(a) || any_nan(b) {
        NEG_INF_BITS
    } else {
        let na = norm_bits(a);
        let nb = norm_bits(b);
        if is_zero_bits(na) || is_zero_bits(nb) {
            ZERO_BITS
        } else {
            div_bits(dot_bits(a, b), mul_bits(na, nb))
        }
    }
}

/// Left fold of IEEE maxNum over the first `n` scores, starting from
/// negative infinity.
pub open spec fn max_score_prefix(s: Seq<u64>, n: nat) -> u64
    decreases n,
{
    if n == 0 {
        NEG_INF_BITS
    } else {
        max_bits(max_score_prefix(s, (n - 1) as nat), s[n - 1])
    }
}

/// The largest score, by folding maxNum over the whole sequence.
pub open spec fn max_score(s: Seq<u64>) -> u64 {
    max_score_prefix(s, s.len())
}

/// Each score shifted down by `m` and exponentiated.
pub open spec fn exp_shifted(s: Seq<u64>, m: u64) -> Seq<u64> {
    Seq::new(s.len(), |i: int| exp_bits(sub_bits(s[i], m)))
}

/// Left fold of addition over the first `n` entries, starting from zero.
pub open spec fn sum_prefix(s: Seq<u64>, n: nat) -> u64
    decreases n,
{
    if n == 0 {
        ZERO_BITS
    } else {
        add_bits(sum_prefix(s, (n - 1) as nat), s[n - 1])
    }
}

/// The sum of a sequence of scalars.
pub open spec fn sum_bits(s: Seq<u64>) -> u64 {
    sum_prefix(s, s.len())
}

/// Numerically stable softmax: shift by the maximum score, exponentiate,
/// normalize by the sum; fall back to the uniform distribution when the
/// normalizer is zero or NaN.
pub open spec fn softmax_bits(s: Seq<u64>) -> Seq<u64> {
    let m = max_score(s);
    let e = exp_shifted(s, m);
    let z = sum_bits(e);
    if is_zero_bits(z) || is_nan_bits(z) {
        let n: u64 = if s.len() == 0 { 1u64 } else { s.len() as u64 };
        let u = div_bits(ONE_BITS, from_u64_bits(n));
        Seq::new(s.len(), |i: int| u)
    } else {
        Seq::new(e.len(), |i: int| div_bits(e[i], z))
    }
}

/// Coordinate `j` of the weighted sum after the first `n` vectors:
/// a left fold of `add(out, mul(w[i], vecs[i][j]))` starting from zero.
pub open spec fn wsum_coord_prefix(w: Seq<u64>, vecs: Seq<Seq<u64>>, n: nat, j: int) -> u64
    decreases n,
{
    if n == 0 {
        ZERO_BITS
    } else {
        add_bits(wsum_coord_prefix(w, vecs, (n - 1) as nat, j), mul_bits(w[n - 1], vecs[n - 1][j]))
    }
}

/// Weighted sum of the vectors, over as many pairs as both sequences have;
/// the output has as many coordinates as the first vector.
pub open spec fn wsum_bits(w: Seq<u64>, vecs: Seq<Seq<u64>>) -> Seq<u64> {
    let n = if w.len() <= vecs.len() { w.len() } else { vecs.len() };
    Seq::new(vecs[0].len(), |j: int| wsum_coord_prefix(w, vecs, n as nat, j))
}

/// Dot product, folded left coordinate by coordinate.
pub fn dot(a: &Vec<u64>, b: &Vec<u64>) -> (r: u64)
    ensures
        r == dot_bits(a@, b@),
{
    let n = if a.len() <= b.len() { a.len() } else { b.len() };
    let mut acc: u64 = ZERO_BITS;
    let mut i: usize = 0;
    while i < n
        invariant
            i <= n,
            n == if a@.len() <= b@.len() { a@.len() } else { b@.len() },
            acc == dot_prefix(a@, b@, i as nat),
        decreases n - i,
    {
        acc = f_add(acc, f_mul(a[i], b[i]));
        i += 1;
    }
    acc
}

/// Euclidean norm.
pub fn norm(a: &Vec<u64>) -> (r: u64)
    ensures
        r == norm_bits(a@),
{
    let d = dot(a, a);
    f_sqrt(d)
}

fn has_nan(a: &Vec<u64>) -> (r: bool)
    ensures
        r == any_nan(a@),
{
    let mut i: usize = 0;
    while i < a.len()
        invariant
            i <= a@.len(),
            forall|j: int| 0 <= j < i ==> !is_nan_bits(a@[j]),
        decreases a@.len() - i,
    {
        if f_is_nan(a[i]) {
            return true;
        }
        i += 1;
    }
    false
}

/// Cosine similarity with the NaN and zero-norm fallbacks.
pub fn cosine(a: &Vec<u64>, b: &Vec<u64>) -> (r: u64)
    ensures
        r == cosine_bits(a@, b@),
{
    if has_nan(a) || has_nan(b) {
        return NEG_INF_BITS;
    }
    let na = norm(a);
    let nb = norm(b);
    if f_is_zero(na) || f_is_zero(nb) {
        ZERO_BITS
    } else {
        f_div(dot(a, b), f_mul(na, nb))
    }
}

/// Numerically stable softmax over a score list.
pub fn softmax(scores: &Vec<u64>) -> (r: Vec<u64>)
    ensures
        r@ == softmax_bits(scores@),
{
    let len = scores.len();
    let mut m: u64 = NEG_INF_BITS;
    let mut i: usize = 0;
    while i < len
        invariant
            i <= len,
            len == scores@.len(),
            m == max_score_prefix(scores@, i as nat),
        decreases len - i,
    {
        m = f_max(m, scores[i]);
        i += 1;
    }
    let mut exps: Vec<u64> = Vec::new();
    let mut i: usize = 0;
    while i < len
        invariant
            i <= len,
            len == scores@.len(),
            exps@.len() == i,
            forall|j: int| 0 <= j < i ==> exps@[j] == exp_bits(sub_bits(scores@[j], m)),
        decreases len - i,
    {
        exps.push(f_exp(f_sub(scores[i], m)));
        i += 1;
    }
    proof {
        assert(exps@ =~= exp_shifted(scores@, m));
    }
    let mut z: u64 = ZERO_BITS;
    let mut i: usize = 0;
    while i < len
        invariant
            i <= len,
            len == exps@.len(),
            exps@ == exp_shifted(scores@, m),
            z == sum_prefix(exps@, i as nat),
        decreases len - i,
    {
        z = f_add(z, exps[i]);
        i += 1;
    }
    if f_is_zero(z) || f_is_nan(z) {
        let n: u64 = if len == 0 { 1 } else { len as u64 };
        let u = f_div(ONE_BITS, f_from_u64(n));
        let mut out: Vec<u64> = Vec::new();
        let mut i: usize = 0;
        while i < len
            invariant
                i <= len,
                out@.len() == i,
                forall|j: int| 0 <= j < i ==> out@[j] == u,
            decreases len - i,
        {
            out.push(u);
            i += 1;
        }
        proof {
            assert(out@ =~= softmax_bits(scores@));
        }
        out
    } else {
        let mut out: Vec<u64> = Vec::new();
        let mut i: usize = 0;
        while i < len
            invariant
                i <= len,
                len == exps@.len(),
                exps@ == exp_shifted(scores@, m),
                out@.len() == i,
                forall|j: int| 0 <= j < i ==> out@[j] == div_bits(exps@[j], z),
            decreases len - i,
        {
            out.push(f_div(exps[i], z));
            i += 1;
        }
        proof {
            assert(out@ =~= softmax_bits(scores@));
        }
        out
    }
}

/// Weighted sum of value vectors, accumulating vector by vector and
/// coordinate by coordinate in a fixed order.
pub fn weighted_sum(w: &Vec<u64>, vecs: &Vec<Vec<u64>>) -> (r: Vec<u64>)
    requires
        vecs@.len() > 0,
        forall|i: int| 0 <= i < vecs@.len() ==> (#[trigger] vecs@[i])@.len() == vecs@[0]@.len(),
    ensures
        r@ == wsum_bits(w@, vecs.deep_view()),
{
    let first = &vecs[0];
    let d = first.len();
    let mut out: Vec<u64> = Vec::new();
    let mut j: usize = 0;
    while j < d
        invariant
            j <= d,
            out@.len() == j,
            forall|jj: int| 0 <= jj < j ==> out@[jj] == ZERO_BITS,
        decreases d - j,
    {
        out.push(ZERO_BITS);
        j += 1;
    }
    let n = if w.len() <= vecs.len() { w.len() } else { vecs.len() };
    let mut i: usize = 0;
    while i < n
        invariant
            i <= n,
            n == if w@.len() <= vecs@.len() { w@.len() } else { vecs@.len() },
            d == vecs@[0]@.len(),
            forall|ii: int| 0 <= ii < vecs@.len() ==> (#[trigger] vecs@[ii])@.len() == d,
            out@.len() == d,
            forall|jj: int| 0 <= jj < d ==> out@[jj] == wsum_coord_prefix(
                w@, vecs.deep_view(), i as nat, jj),
        decreases n - i,
    {
        let row = &vecs[i];
        let wi = w[i];
        let mut j: usize = 0;
        while j < d
            invariant
                j <= d,
                i < n,
                n == if w@.len() <= vecs@.len() { w@.len() } else { vecs@.len() },
                d == vecs@[0]@.len(),
                forall|ii: int| 0 <= ii < vecs@.len() ==> (#[trigger] vecs@[ii])@.len() == d,
                row@ == vecs@[i as int]@,
                wi == w@[i as int],
                out@.len() == d,
                forall|jj: int| 0 <= jj < j ==> out@[jj] == wsum_coord_prefix(
                    w@, vecs.deep_view(), (i + 1) as nat, jj),
                forall|jj: int| j <= jj < d ==> out@[jj] == wsum_coord_prefix(
                    w@, vecs.deep_view(), i as nat, jj),
            decreases d - j,
        {
            let t = f_mul(wi, row[j]);
            let s = f_add(out[j], t);
            out.set(j, s);
            proof {
                assert(vecs.deep_view()[i as int] == vecs@[i as int]@);
            }
            j += 1;
        }
        i += 1;
    }
    proof {
        assert(out@ =~= wsum_bits(w@, vecs.deep_view()));
    }
    out
}

} // verus!
