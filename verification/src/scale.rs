//! Piecewise-linear conversion between two numeric scales.
//!
//! A scale is described by a strictly ascending breakpoint table whose entries
//! are given in thousandths of a unit.  `piecewise_linear_lookup` converts a
//! fractional table index into a value on the table's scale by linear
//! interpolation; `piecewise_linear_find_index` is its algorithmic inverse,
//! locating a value's fractional index by binary search plus interpolation.
//! Both are exact: indices and results are rationals, never rounded.

use vstd::prelude::*;
use vstd::arithmetic::div_mod::{
    lemma_div_by_multiple, lemma_div_is_ordered, lemma_div_pos_is_pos, lemma_fundamental_div_mod,
    lemma_fundamental_div_mod_converse_div, lemma_mod_division_less_than_divisor,
};
use vstd::arithmetic::mul::lemma_mul_inequality;
use crate::rational::{rat_eq, rat_int, rat_le, rat_lt, rat_wf, Frac, Ratio};

verus! {

/// Largest breakpoint magnitude a table may hold (in thousandths).
pub const MAX_SCALE_VALUE: i64 = 1_000_000_000;

/// Largest number of breakpoints a table may hold.
pub const MAX_TABLE_LEN: usize = 1024;

/// Largest denominator an index or query rational may have.
pub const MAX_QUERY_DEN: i128 = 1_000_000_000_000;

/// Largest numerator magnitude an index or query rational may have.
pub const MAX_QUERY_NUM: i128 = 1_000_000_000_000_000_000_000;

/// The mathematical contents of a breakpoint table.
pub open spec fn table_model(t: Seq<i64>) -> Seq<int> {
    t.map_values(|v: i64| v as int)
}

/// The table is strictly ascending.
pub open spec fn ascending(t: Seq<int>) -> bool {
    forall|i: int, j: int| 0 <= i && i < j && j < t.len() ==> #[trigger] t[i] < #[trigger] t[j]
}

/// Every entry is within the supported magnitude.
pub open spec fn table_bounded(t: Seq<int>) -> bool {
    forall|i: int|
        0 <= i < t.len() ==> -(MAX_SCALE_VALUE as int) <= #[trigger] t[i]
            <= MAX_SCALE_VALUE as int
}

/// Floor of a well-formed rational.
pub open spec fn rat_floor(r: Ratio) -> int {
    r.num / r.den
}

/// Linear interpolation at fractional index `idx`: with `lo = floor(idx)` and
/// `hi = ceil(idx)`, the value `t[lo] + fract(idx) * (t[hi] - t[lo])`,
/// kept over the common denominator `idx.den`.  Meaningful when
/// `0 <= idx <= t.len() - 1` and `idx` is well formed.
pub open spec fn forward_spec(idx: Ratio, t: Seq<int>) -> Ratio {
    let lo = rat_floor(idx);
    let rem = idx.num - lo * idx.den;
    let hi = if rem == 0 {
        lo
    } else {
        lo + 1
    };
    Ratio { num: t[lo] * idx.den + rem * (t[hi] - t[lo]), den: idx.den }
}

/// First position at or after `i` whose entry is at least `q`
/// (`t.len()` if there is none).
pub open spec fn ins_pt_from(q: Ratio, t: Seq<int>, i: int) -> int
    decreases t.len() - i,
{
    if i < 0 || i >= t.len() {
        t.len() as int
    } else if t[i] * q.den >= q.num {
        i
    } else {
        ins_pt_from(q, t, i + 1)
    }
}

/// The insertion point of `q` in `t`: the first position whose entry is at
/// least `q`, or `t.len()` if every entry is below `q`.
pub open spec fn ins_pt(q: Ratio, t: Seq<int>) -> int {
    ins_pt_from(q, t, 0)
}

/// The fractional index of `q` in `t`.  An insertion point of `0` collapses
/// to index `0` (values below the table's minimum are clamped); otherwise the
/// index interpolates between the two neighbouring breakpoints.  Meaningful
/// when `q` is well formed and at most the table's last entry.
pub open spec fn inverse_spec(q: Ratio, t: Seq<int>) -> Ratio {
    let u = ins_pt(q, t);
    if u == 0 {
        rat_int(0)
    } else {
        let g = t[u] - t[u - 1];
        Ratio { num: (u - 1) * (q.den * g) + (q.num - t[u - 1] * q.den), den: q.den * g }
    }
}

proof fn lemma_ins_pt_from_props(q: Ratio, t: Seq<int>, i: int)
    requires
        0 <= i <= t.len(),
    ensures
        i <= ins_pt_from(q, t, i) <= t.len(),
        forall|j: int| i <= j < ins_pt_from(q, t, i) ==> #[trigger] t[j] * q.den < q.num,
        ins_pt_from(q, t, i) < t.len() ==> t[ins_pt_from(q, t, i)] * q.den >= q.num,
    decreases t.len() - i,
{
    if i < t.len() && t[i] * q.den < q.num {
        lemma_ins_pt_from_props(q, t, i + 1);
    }
}

/// The insertion point is the unique boundary between entries below `q` and
/// entries at or above `q`.
pub proof fn lemma_ins_pt_props(q: Ratio, t: Seq<int>)
    ensures
        0 <= ins_pt(q, t) <= t.len(),
        forall|j: int| 0 <= j < ins_pt(q, t) ==> #[trigger] t[j] * q.den < q.num,
        ins_pt(q, t) < t.len() ==> t[ins_pt(q, t)] * q.den >= q.num,
{
    lemma_ins_pt_from_props(q, t, 0);
}

/// Interpolates between the two breakpoints around the fractional index
/// `index`: `t[floor] + fract(index) * (t[ceil] - t[floor])`.
#[verifier::loop_isolation(false)]
pub fn piecewise_linear_lookup(index: &Frac, mapping: &Vec<i64>) -> (r: Frac)
    requires
        rat_wf(index@),
        index@.num >= 0,
        index@.num <= (mapping@.len() - 1) * index@.den,
        index@.den <= MAX_QUERY_DEN as int,
        1 <= mapping@.len() <= MAX_TABLE_LEN as int,
        table_bounded(table_model(mapping@)),
    ensures
        r@ == forward_spec(index@, table_model(mapping@)),
        r@.den == index@.den,
{
    let n_i: i128 = index.num();
    let d_i: i128 = index.den();
    let un: u128 = n_i as u128;
    let ud: u128 = d_i as u128;
    proof {
        lemma_div_pos_is_pos(n_i as int, d_i as int);
        lemma_div_is_ordered(n_i as int, (mapping@.len() - 1) * (d_i as int), d_i as int);
        lemma_div_by_multiple(mapping@.len() - 1, d_i as int);
        lemma_fundamental_div_mod(n_i as int, d_i as int);
        lemma_mod_division_less_than_divisor(n_i as int, d_i as int);
    }
    let lo: usize = (un / ud) as usize;
    let rem: u128 = un % ud;
    let hi: usize = if rem == 0 {
        lo
    } else {
        proof {
            if lo as int == mapping@.len() - 1 {
                assert((n_i as int) > (mapping@.len() - 1) * (d_i as int)) by (nonlinear_arith)
                    requires
                        n_i as int == (d_i as int) * (lo as int) + (rem as int),
                        lo as int == mapping@.len() - 1,
                        rem as int > 0,
                        d_i as int > 0,
                ;
            }
        }
        lo + 1
    };
    let tl: i64 = mapping[lo];
    let th: i64 = mapping[hi];
    let gap: i128 = th as i128 - tl as i128;
    proof {
        assert(table_model(mapping@)[lo as int] == tl as int);
        assert(table_model(mapping@)[hi as int] == th as int);
        assert((tl as int) * (d_i as int) <= 1_000_000_000 * 1_000_000_000_000 && (tl as int) * (
        d_i as int) >= -(1_000_000_000 * 1_000_000_000_000)) by (nonlinear_arith)
            requires
                -1_000_000_000 <= tl as int <= 1_000_000_000,
                0 < d_i as int <= 1_000_000_000_000,
        ;
        assert((rem as int) * (gap as int) <= 1_000_000_000_000 * 2_000_000_000 && (rem as int) * (
        gap as int) >= -(1_000_000_000_000 * 2_000_000_000)) by (nonlinear_arith)
            requires
                0 <= rem as int <= 1_000_000_000_000,
                -2_000_000_000 <= gap as int <= 2_000_000_000,
        ;
    }
    let num_out: i128 = tl as i128 * d_i + rem as i128 * gap;
    proof {
        let tmv = table_model(mapping@);
        let lo_s = rat_floor(index@);
        assert(lo as int == lo_s);
        assert(rem as int == index@.num - lo_s * index@.den);
        assert(tl as int == tmv[lo_s]);
        assert(th as int == tmv[hi as int]);
        assert(num_out as int == tmv[lo_s] * index@.den + (index@.num - lo_s * index@.den) * (
        tmv[hi as int] - tmv[lo_s]));
    }
    Frac::new(num_out, d_i)
}

/// Locates `query` in the table: an exact breakpoint yields its integer
/// index; a value between two breakpoints yields the interpolated fractional
/// index; a value below the table's minimum yields `0`.  The table must be
/// strictly ascending and `query` must not exceed its last entry.
#[verifier::loop_isolation(false)]
pub fn piecewise_linear_find_index(query: &Frac, mapping: &Vec<i64>) -> (r: Frac)
    requires
        rat_wf(query@),
        0 < query@.den <= MAX_QUERY_DEN as int,
        -(MAX_QUERY_NUM as int) <= query@.num <= MAX_QUERY_NUM as int,
        1 <= mapping@.len() <= MAX_TABLE_LEN as int,
        table_bounded(table_model(mapping@)),
        ascending(table_model(mapping@)),
        rat_le(query@, rat_int(table_model(mapping@)[mapping@.len() - 1])),
    ensures
        r@ == inverse_spec(query@, table_model(mapping@)),
        rat_wf(r@),
        r@.num >= 0,
        r@.den <= 2 * (MAX_SCALE_VALUE as int) * query@.den,
        query@.num >= 0 ==> r@.num <= (MAX_TABLE_LEN as int) * r@.den + query@.num + (
        MAX_SCALE_VALUE as int) * query@.den,
{
    let ghost tm = table_model(mapping@);
    let qn: i128 = query.num();
    let qd: i128 = query.den();
    let mut low: usize = 0;
    let mut high: usize = mapping.len();
    while low < high
        invariant
            0 <= low <= high <= mapping@.len(),
            forall|j: int| 0 <= j < low ==> #[trigger] tm[j] * query@.den < query@.num,
            forall|j: int| high <= j < mapping@.len() ==> #[trigger] tm[j] * query@.den
                >= query@.num,
        decreases high - low,
    {
        let mid: usize = low + (high - low) / 2;
        let v: i64 = mapping[mid];
        proof {
            assert(tm[mid as int] == v as int);
            assert((v as int) * (qd as int) <= 1_000_000_000 * 1_000_000_000_000 && (v as int) * (
            qd as int) >= -(1_000_000_000 * 1_000_000_000_000)) by (nonlinear_arith)
                requires
                    -1_000_000_000 <= v as int <= 1_000_000_000,
                    0 < qd as int <= 1_000_000_000_000,
            ;
        }
        if v as i128 * qd >= qn {
            proof {
                assert forall|j: int| mid <= j < mapping@.len() implies #[trigger] tm[j]
                    * query@.den >= query@.num by {
                    if j > mid {
                        lemma_mul_inequality(tm[mid as int], tm[j], query@.den);
                    }
                }
            }
            high = mid;
        } else {
            proof {
                assert forall|j: int| 0 <= j <= mid implies #[trigger] tm[j] * query@.den
                    < query@.num by {
                    if j < mid {
                        lemma_mul_inequality(tm[j], tm[mid as int], query@.den);
                    }
                }
            }
            low = mid + 1;
        }
    }
    proof {
        lemma_ins_pt_props(query@, tm);
        let ip = ins_pt(query@, tm);
        if low as int != ip {
            if ip < low {
                assert(ip < tm.len());
                assert(tm[ip] * query@.den < query@.num);
            } else {
                assert(tm[low as int] * query@.den >= query@.num);
                assert(tm[low as int] * query@.den < query@.num);
            }
        }
        assert(low as int == ip);
        if low as int == mapping@.len() {
            assert(tm[mapping@.len() - 1] * query@.den < query@.num);
        }
    }
    if low == 0 {
        proof {
            assert(2 * (MAX_SCALE_VALUE as int) * query@.den >= 1 && (MAX_SCALE_VALUE as int)
                * query@.den >= 0) by (nonlinear_arith)
                requires
                    query@.den >= 1,
            ;
        }
        return Frac::new(0, 1);
    }
    let u: usize = low;
    let tl: i64 = mapping[u - 1];
    let tu: i64 = mapping[u];
    let g: i128 = tu as i128 - tl as i128;
    proof {
        assert(tm[u as int - 1] == tl as int);
        assert(tm[u as int] == tu as int);
        assert(tm[u as int - 1] < tm[u as int]);
        assert((qd as int) * (g as int) <= 2_000_000_000 * (qd as int) && (qd as int) * (g as int)
            <= 1_000_000_000_000 * 2_000_000_000 && (qd as int) * (g as int) > 0) by (
        nonlinear_arith)
            requires
                0 < qd as int <= 1_000_000_000_000,
                0 < g as int <= 2_000_000_000,
        ;
        assert((tl as int) * (qd as int) <= 1_000_000_000 * 1_000_000_000_000 && (tl as int) * (
        qd as int) >= -(1_000_000_000 * (qd as int)) && (tl as int) * (qd as int) >= -(
        1_000_000_000 * 1_000_000_000_000)) by (nonlinear_arith)
            requires
                -1_000_000_000 <= tl as int <= 1_000_000_000,
                0 < qd as int <= 1_000_000_000_000,
        ;
    }
    let den_out: i128 = qd * g;
    proof {
        assert((u as int - 1) * (den_out as int) >= 0 && (u as int - 1) * (den_out as int) <= 1024
            * (den_out as int)) by (nonlinear_arith)
            requires
                0 <= u as int - 1 <= 1023,
                den_out as int > 0,
        ;
        assert(tm[u as int - 1] * query@.den < query@.num);
    }
    let num_out: i128 = (u as i128 - 1) * den_out + (qn - tl as i128 * qd);
    Frac::new(num_out, den_out)
}

proof fn lemma_ascending_chain(t: Seq<int>, i: int, j: int)
    requires
        forall|k: int| 0 <= k < t.len() - 1 ==> #[trigger] t[k] < t[k + 1],
        0 <= i < j < t.len(),
    ensures
        t[i] < t[j],
    decreases j - i,
{
    if i + 1 < j {
        lemma_ascending_chain(t, i, j - 1);
    }
    assert(t[j - 1] < t[j - 1 + 1]);
}

/// A table each of whose entries is below its successor is strictly
/// ascending.
pub proof fn lemma_ascending_from_adjacent(t: Seq<int>)
    requires
        forall|k: int| 0 <= k < t.len() - 1 ==> #[trigger] t[k] < t[k + 1],
    ensures
        ascending(t),
{
    assert forall|i: int, j: int| 0 <= i && i < j && j < t.len() implies #[trigger] t[i]
        < #[trigger] t[j] by {
        lemma_ascending_chain(t, i, j);
    }
}

proof fn lemma_mul_zero_left(x: int, y: int)
    requires
        x == 0,
    ensures
        x * y == 0,
{
    vstd::arithmetic::mul::lemma_mul_by_zero_is_zero(y);
}

/// At an integer index no interpolation happens: `forward(i, T)` is `T[i]`
/// exactly.
pub proof fn lemma_forward_at_integer(i: int, t: Seq<int>)
    requires
        0 <= i < t.len(),
    ensures
        rat_eq(forward_spec(rat_int(i), t), rat_int(t[i])),
{
    let idx = rat_int(i);
    lemma_fundamental_div_mod_converse_div(i, 1, i, 0);
    assert(rat_floor(idx) == i);
    lemma_mul_zero_left(idx.num - rat_floor(idx) * idx.den, t[i] - t[i]);
    assert(forward_spec(idx, t).num == t[i]);
}

/// A query below the table's first entry collapses to index `0`.
pub proof fn lemma_inverse_below_table(q: Ratio, t: Seq<int>)
    requires
        rat_wf(q),
        t.len() >= 1,
        rat_lt(q, rat_int(t[0])),
    ensures
        inverse_spec(q, t) == rat_int(0),
{
}

/// On the table's span the interpolated index maps back to the query exactly:
/// `forward(inverse(q, T), T) == q` as rationals.
pub proof fn lemma_forward_inverse_exact(q: Ratio, t: Seq<int>)
    requires
        rat_wf(q),
        ascending(t),
        t.len() >= 1,
        rat_le(rat_int(t[0]), q),
        rat_le(q, rat_int(t[t.len() - 1])),
    ensures
        rat_wf(inverse_spec(q, t)),
        rat_eq(forward_spec(inverse_spec(q, t), t), q),
{
    lemma_ins_pt_props(q, t);
    let u = ins_pt(q, t);
    assert(u < t.len());
    if u == 0 {
        let r = inverse_spec(q, t);
        lemma_fundamental_div_mod_converse_div(0, 1, 0, 0);
        assert(rat_floor(r) == 0);
        lemma_mul_zero_left(r.num - rat_floor(r) * r.den, t[0] - t[0]);
        assert(forward_spec(r, t).num == t[0]);
        assert(t[0] * q.den == q.num);
    } else {
        let g = t[u] - t[u - 1];
        assert(t[u - 1] < t[u]);
        let dr = q.den * g;
        let pos = q.num - t[u - 1] * q.den;
        assert(dr > 0) by (nonlinear_arith)
            requires
                dr == q.den * g,
                q.den > 0,
                g > 0,
        ;
        assert(t[u - 1] * q.den < q.num);
        assert(pos <= dr) by (nonlinear_arith)
            requires
                pos == q.num - t[u - 1] * q.den,
                dr == q.den * g,
                g == t[u] - t[u - 1],
                q.num <= t[u] * q.den,
        ;
        let r = inverse_spec(q, t);
        assert(r == Ratio { num: (u - 1) * dr + pos, den: dr });
        if pos < dr {
            lemma_fundamental_div_mod_converse_div((u - 1) * dr + pos, dr, u - 1, pos);
            assert(rat_floor(r) == u - 1);
            let f = forward_spec(r, t);
            assert(f.num == t[u - 1] * dr + pos * g);
            assert(f.den == dr);
            assert((t[u - 1] * dr + pos * g) * q.den == q.num * dr) by (nonlinear_arith)
                requires
                    dr == q.den * g,
                    pos == q.num - t[u - 1] * q.den,
            ;
            assert(rat_eq(f, q));
        } else {
            assert((u - 1) * dr + pos == u * dr + 0) by (nonlinear_arith)
                requires
                    pos == dr,
            ;
            lemma_fundamental_div_mod_converse_div((u - 1) * dr + pos, dr, u, 0);
            assert(rat_floor(r) == u);
            assert(t[u] * dr * q.den == q.num * dr) by (nonlinear_arith)
                requires
                    dr == q.den * g,
                    g == t[u] - t[u - 1],
                    q.num - t[u - 1] * q.den == dr,
                    q.den > 0,
            ;
        }
    }
}

proof fn lemma_ins_pt_from_respects(a: Ratio, b: Ratio, t: Seq<int>, i: int)
    requires
        rat_wf(a),
        rat_wf(b),
        rat_eq(a, b),
        0 <= i <= t.len(),
    ensures
        ins_pt_from(a, t, i) == ins_pt_from(b, t, i),
    decreases t.len() - i,
{
    if i < t.len() {
        assert((t[i] * a.den >= a.num) == (t[i] * b.den >= b.num)) by (nonlinear_arith)
            requires
                a.den > 0,
                b.den > 0,
                a.num * b.den == b.num * a.den,
        ;
        if t[i] * a.den < a.num {
            lemma_ins_pt_from_respects(a, b, t, i + 1);
        }
    }
}

/// The interpolated index depends only on the query's value, not on the
/// representative chosen for it.
pub proof fn lemma_inverse_respects_rat_eq(a: Ratio, b: Ratio, t: Seq<int>)
    requires
        rat_wf(a),
        rat_wf(b),
        rat_eq(a, b),
    ensures
        rat_eq(inverse_spec(a, t), inverse_spec(b, t)),
{
    lemma_ins_pt_from_respects(a, b, t, 0);
    let u = ins_pt(a, t);
    if u != 0 {
        let g = t[u] - t[u - 1];
        let tl = t[u - 1];
        let na = (u - 1) * (a.den * g) + (a.num - tl * a.den);
        let nb = (u - 1) * (b.den * g) + (b.num - tl * b.den);
        assert((a.den * g) * b.den == (b.den * g) * a.den) by (nonlinear_arith);
        assert((a.num - tl * a.den) * b.den == (b.num - tl * b.den) * a.den) by (nonlinear_arith)
            requires
                a.num * b.den == b.num * a.den,
        ;
        assert(na * b.den == (u - 1) * ((a.den * g) * b.den) + (a.num - tl * a.den) * b.den) by (
        nonlinear_arith)
            requires
                na == (u - 1) * (a.den * g) + (a.num - tl * a.den),
        ;
        assert(nb * a.den == (u - 1) * ((b.den * g) * a.den) + (b.num - tl * b.den) * a.den) by (
        nonlinear_arith)
            requires
                nb == (u - 1) * (b.den * g) + (b.num - tl * b.den),
        ;
        assert(na * b.den == nb * a.den);
        assert(na * (b.den * g) == (na * b.den) * g && nb * (a.den * g) == (nb * a.den) * g) by (
        nonlinear_arith);
        assert(na * (b.den * g) == nb * (a.den * g));
    }
}

/// Round-trip stability: once a query has been carried through `forward` of
/// its interpolated index, looking its index up again changes nothing —
/// `inverse(forward(inverse(q, T), T), T) == inverse(q, T)` as rationals, for
/// any well-formed `q` within the span of a strictly ascending table.
pub proof fn lemma_inverse_forward_roundtrip(q: Ratio, t: Seq<int>)
    requires
        rat_wf(q),
        ascending(t),
        t.len() >= 1,
        rat_le(rat_int(t[0]), q),
        rat_le(q, rat_int(t[t.len() - 1])),
    ensures
        rat_eq(inverse_spec(forward_spec(inverse_spec(q, t), t), t), inverse_spec(q, t)),
{
    lemma_forward_inverse_exact(q, t);
    let f = forward_spec(inverse_spec(q, t), t);
    lemma_inverse_respects_rat_eq(f, q, t);
}

} // verus!
