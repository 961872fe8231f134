//! Dividing an amount among weighted entries in whole units.
//!
//! Every entry first gets the whole part of its proportional part,
//! `amount * weight / total`. The units that rounding down leaves over go,
//! one each, to the first entries in index order that have a weight. The
//! order of the entries therefore decides who gets the odd units, and the
//! parts always add up to the amount.

use vstd::prelude::*;

verus! {

/// The sum of the first `k` entries of `w`.
pub open spec fn sum_to(w: Seq<nat>, k: int) -> nat
    decreases k,
{
    if k <= 0 {
        0
    } else {
        sum_to(w, k - 1) + w[k - 1]
    }
}

/// The sum of all entries of `w`.
pub open spec fn total(w: Seq<nat>) -> nat {
    sum_to(w, w.len() as int)
}

/// The number of entries with a weight among the first `k`.
pub open spec fn rank(w: Seq<nat>, k: int) -> nat
    decreases k,
{
    if k <= 0 {
        0
    } else {
        rank(w, k - 1) + if w[k - 1] > 0 { 1nat } else { 0nat }
    }
}

/// The whole part of entry `i`'s proportional part of `amount`.
pub open spec fn quota(amount: nat, w: Seq<nat>, i: int) -> nat {
    if total(w) == 0 {
        0
    } else {
        (amount * w[i]) / total(w)
    }
}

/// The quotas of all entries.
pub open spec fn quotas(amount: nat, w: Seq<nat>) -> Seq<nat> {
    Seq::new(w.len(), |i: int| quota(amount, w, i))
}

/// What is left of `amount` once every entry has its quota.
pub open spec fn left_over(amount: nat, w: Seq<nat>) -> nat {
    let given = total(quotas(amount, w));
    if total(w) == 0 || given > amount {
        0
    } else {
        (amount - given) as nat
    }
}

/// Entry `i`'s part of `amount`: its quota, and one unit more where it is
/// among the first `left_over` entries that have a weight.
pub open spec fn share(amount: nat, w: Seq<nat>, i: int) -> nat {
    quota(amount, w, i) + if w[i] > 0 && rank(w, i) < left_over(amount, w) {
        1nat
    } else {
        0nat
    }
}

/// The parts of all entries.
pub open spec fn shares(amount: nat, w: Seq<nat>) -> Seq<nat> {
    Seq::new(w.len(), |i: int| share(amount, w, i))
}

/// A sum does not depend on the entries behind it.
pub proof fn lemma_sum_to_prefix(a: Seq<nat>, b: Seq<nat>, k: int)
    requires
        0 <= k <= a.len(),
        k <= b.len(),
        forall|j: int| 0 <= j < k ==> a[j] == b[j],
    ensures
        sum_to(a, k) == sum_to(b, k),
        rank(a, k) == rank(b, k),
    decreases k,
{
    if k > 0 {
        lemma_sum_to_prefix(a, b, k - 1);
    }
}

/// Entries that are no larger sum to no more.
pub proof fn lemma_sum_to_le(a: Seq<nat>, b: Seq<nat>, k: int)
    requires
        0 <= k <= a.len(),
        k <= b.len(),
        forall|j: int| 0 <= j < k ==> a[j] <= b[j],
    ensures
        sum_to(a, k) <= sum_to(b, k),
    decreases k,
{
    if k > 0 {
        lemma_sum_to_le(a, b, k - 1);
    }
}

/// A longer prefix sums to no less, and counts no fewer weights.
pub proof fn lemma_sum_to_grows(w: Seq<nat>, j: int, k: int)
    requires
        0 <= j <= k <= w.len(),
    ensures
        sum_to(w, j) <= sum_to(w, k),
        rank(w, j) <= rank(w, k),
        rank(w, k) <= k,
    decreases k,
{
    if j < k {
        lemma_sum_to_grows(w, j, k - 1);
    } else if k > 0 {
        lemma_sum_to_grows(w, k - 1, k - 1);
    }
}

/// No entry exceeds the sum.
pub proof fn lemma_entry_le_total(w: Seq<nat>, i: int)
    requires
        0 <= i < w.len(),
    ensures
        w[i] <= total(w),
{
    lemma_sum_to_grows(w, i + 1, w.len() as int);
}

/// A prefix with a positive sum holds an entry with a weight.
pub proof fn lemma_weight_present(w: Seq<nat>, k: int)
    requires
        0 <= k <= w.len(),
        sum_to(w, k) > 0,
    ensures
        rank(w, k) > 0,
    decreases k,
{
    if k > 0 && w[k - 1] == 0 {
        lemma_weight_present(w, k - 1);
    }
}

/// A sum of entries that are all at most `bound`.
pub proof fn lemma_sum_to_bounded(w: Seq<nat>, k: int, bound: nat)
    requires
        0 <= k <= w.len(),
        forall|j: int| 0 <= j < k ==> w[j] <= bound,
    ensures
        sum_to(w, k) <= k * bound,
    decreases k,
{
    if k > 0 {
        lemma_sum_to_bounded(w, k - 1, bound);
        assert((k - 1) * bound + bound == k * bound) by (nonlinear_arith);
    }
}

proof fn lemma_div_step(x: nat, d: nat)
    requires
        d > 0,
    ensures
        d * (x / d) <= x,
        x - d * (x / d) <= d - 1,
        x == 0 ==> x / d == 0,
{
    vstd::arithmetic::div_mod::lemma_fundamental_div_mod(x as int, d as int);
    vstd::arithmetic::div_mod::lemma_mod_bound(x as int, d as int);
}

/// Rounding down loses less than one unit for each entry with a weight.
proof fn lemma_quota_gap(amount: nat, w: Seq<nat>, k: int)
    requires
        total(w) > 0,
        0 <= k <= w.len(),
    ensures
        total(w) * sum_to(quotas(amount, w), k) <= amount * sum_to(w, k),
        amount * sum_to(w, k) <= total(w) * sum_to(quotas(amount, w), k) + rank(w, k) * (total(w)
            - 1),
    decreases k,
{
    let t = total(w);
    let q = quotas(amount, w);
    if k > 0 {
        lemma_quota_gap(amount, w, k - 1);
        let s0 = sum_to(w, k - 1);
        let q0 = sum_to(q, k - 1);
        let r0 = rank(w, k - 1);
        let x = amount * w[k - 1];
        assert(q[k - 1] == x / t);
        lemma_div_step(x, t);
        assert(amount * (s0 + w[k - 1]) == amount * s0 + x) by (nonlinear_arith)
            requires
                x == amount * w[k - 1],
        ;
        assert(t * (q0 + x / t) == t * q0 + t * (x / t)) by (nonlinear_arith);
        if w[k - 1] > 0 {
            assert((r0 + 1) * (t - 1) == r0 * (t - 1) + (t - 1)) by (nonlinear_arith);
        } else {
            assert(x == 0) by (nonlinear_arith)
                requires
                    x == amount * w[k - 1],
                    w[k - 1] == 0,
            ;
        }
    } else {
        assert(amount * 0 == 0);
        assert(t * 0 == 0);
        assert(0 * (t - 1) == 0);
    }
}

/// The quotas never exceed the amount, and what they leave over is less
/// than the number of entries with a weight.
pub proof fn lemma_left_over(amount: nat, w: Seq<nat>)
    requires
        total(w) > 0,
    ensures
        total(quotas(amount, w)) + left_over(amount, w) == amount,
        left_over(amount, w) < rank(w, w.len() as int),
{
    let t = total(w);
    let n = w.len() as int;
    let g = sum_to(quotas(amount, w), n);
    let r = rank(w, n);
    lemma_quota_gap(amount, w, n);
    lemma_weight_present(w, n);
    assert(g <= amount) by (nonlinear_arith)
        requires
            t * g <= amount * t,
            t > 0,
    ;
    assert(amount - g < r) by (nonlinear_arith)
        requires
            amount * t <= t * g + r * (t - 1),
            t > 0,
            r > 0,
            g <= amount,
    ;
}

/// The parts of the first `k` entries: their quotas, and one unit for each
/// of the first `left_over` entries with a weight.
proof fn lemma_shares_sum_to(amount: nat, w: Seq<nat>, k: int)
    requires
        0 <= k <= w.len(),
    ensures
        sum_to(shares(amount, w), k) == sum_to(quotas(amount, w), k) + if rank(w, k) < left_over(
            amount,
            w,
        ) {
            rank(w, k)
        } else {
            left_over(amount, w)
        },
    decreases k,
{
    if k > 0 {
        lemma_shares_sum_to(amount, w, k - 1);
    }
}

/// The parts add up to the amount, whenever some entry has a weight.
pub proof fn lemma_shares_total(amount: nat, w: Seq<nat>)
    requires
        total(w) > 0,
    ensures
        total(shares(amount, w)) == amount,
{
    lemma_left_over(amount, w);
    lemma_shares_sum_to(amount, w, w.len() as int);
}

/// Without any weight nobody gets anything.
pub proof fn lemma_share_without_weight(amount: nat, w: Seq<nat>, i: int)
    requires
        0 <= i < w.len(),
        total(w) == 0 || w[i] == 0 || amount == 0,
    ensures
        share(amount, w, i) == 0,
{
    if total(w) > 0 {
        let t = total(w);
        let x = amount * w[i];
        assert(x == 0) by (nonlinear_arith)
            requires
                x == amount * w[i],
                w[i] == 0 || amount == 0,
        ;
        lemma_div_step(x, t);
        if w[i] > 0 {
            assert(amount == 0);
            lemma_left_over(amount, w);
        }
    }
}

/// No part exceeds the amount.
pub proof fn lemma_share_le_amount(amount: nat, w: Seq<nat>, i: int)
    requires
        0 <= i < w.len(),
    ensures
        share(amount, w, i) <= amount,
{
    if total(w) > 0 {
        lemma_shares_total(amount, w);
        lemma_entry_le_total(shares(amount, w), i);
    }
}

/// An amount within the total weight gives no entry more than its weight.
pub proof fn lemma_share_le_weight(amount: nat, w: Seq<nat>, i: int)
    requires
        0 <= i < w.len(),
        amount <= total(w),
    ensures
        share(amount, w, i) <= w[i],
{
    let t = total(w);
    if t > 0 && w[i] > 0 {
        let x = amount * w[i];
        lemma_div_step(x, t);
        lemma_left_over(amount, w);
        if amount < t {
            assert(x / t < w[i]) by (nonlinear_arith)
                requires
                    t * (x / t) <= x,
                    x == amount * w[i],
                    amount < t,
                    w[i] > 0,
            ;
        } else {
            lemma_share_full(w, i);
        }
    } else {
        lemma_share_without_weight(amount, w, i);
    }
}

/// The total weight as amount gives every entry exactly its weight.
pub proof fn lemma_share_full(w: Seq<nat>, i: int)
    requires
        0 <= i < w.len(),
    ensures
        share(total(w), w, i) == w[i],
{
    let t = total(w);
    if t > 0 {
        assert forall|j: int| 0 <= j < w.len() implies #[trigger] quotas(t, w)[j] == w[j] by {
            vstd::arithmetic::div_mod::lemma_div_multiples_vanish(w[j] as int, t as int);
            assert(t * w[j] == w[j] * t) by (nonlinear_arith);
        }
        lemma_sum_to_prefix(quotas(t, w), w, w.len() as int);
        lemma_left_over(t, w);
        assert(quotas(t, w)[i] == w[i]);
        assert(left_over(t, w) == 0);
    } else {
        lemma_entry_le_total(w, i);
    }
}

/// Sums add up entry by entry.
pub proof fn lemma_sum_to_add(a: Seq<nat>, b: Seq<nat>, c: Seq<nat>, k: int)
    requires
        0 <= k <= a.len(),
        k <= b.len(),
        k <= c.len(),
        forall|j: int| 0 <= j < k ==> c[j] == a[j] + b[j],
    ensures
        sum_to(c, k) == sum_to(a, k) + sum_to(b, k),
    decreases k,
{
    if k > 0 {
        lemma_sum_to_add(a, b, c, k - 1);
    }
}

/// The parts add up to the amount, or to nothing where no entry has a
/// weight.
pub proof fn lemma_shares_total_or_none(amount: nat, w: Seq<nat>)
    ensures
        total(shares(amount, w)) == if total(w) > 0 { amount } else { 0 },
{
    if total(w) > 0 {
        lemma_shares_total(amount, w);
    } else {
        assert forall|j: int| 0 <= j < w.len() implies #[trigger] shares(amount, w)[j] <= 0 by {
            lemma_share_without_weight(amount, w, j);
        }
        lemma_sum_to_bounded(shares(amount, w), w.len() as int, 0);
    }
}

/// Raising one entry raises the sum by as much.
pub proof fn lemma_sum_to_raised(w: Seq<nat>, i: int, by: nat, k: int)
    requires
        0 <= i < w.len(),
        0 <= k <= w.len(),
    ensures
        sum_to(w.update(i, w[i] + by), k) == sum_to(w, k) + if i < k { by } else { 0 },
        rank(w.update(i, w[i] + by), k) == rank(w, k) + if i < k && w[i] == 0 && by > 0 {
            1nat
        } else {
            0nat
        },
    decreases k,
{
    if k > 0 {
        lemma_sum_to_raised(w, i, by, k - 1);
    }
}

/// Fractions compare as their cross products do.
proof fn lemma_div_cross(a: nat, b: nat, c: nat, d: nat)
    requires
        b > 0,
        d > 0,
        a * d <= c * b,
    ensures
        a / b <= c / d,
{
    let q = a / b;
    lemma_div_step(a, b);
    assert(q * d <= c) by (nonlinear_arith)
        requires
            b * q <= a,
            a * d <= c * b,
            b > 0,
    ;
    vstd::arithmetic::div_mod::lemma_div_is_ordered((d * q) as int, c as int, d as int);
    vstd::arithmetic::div_mod::lemma_div_multiples_vanish(q as int, d as int);
    assert(q * d == d * q) by (nonlinear_arith);
}

/// An entry whose weight is raised, all else unchanged, gets no smaller part
/// of the same amount.
pub proof fn lemma_share_weight_raised(amount: nat, w: Seq<nat>, i: int, by: nat)
    requires
        0 <= i < w.len(),
    ensures
        share(amount, w.update(i, w[i] + by), i) >= share(amount, w, i),
{
    let n = w.len() as int;
    let t = total(w);
    let v = w.update(i, w[i] + by);
    lemma_sum_to_raised(w, i, by, n);
    if t > 0 {
        lemma_entry_le_total(w, i);
        assert((amount * w[i]) * (t + by) <= (amount * (w[i] + by)) * t) by (nonlinear_arith)
            requires
                w[i] <= t,
        ;
        lemma_div_cross(amount * w[i], t, amount * (w[i] + by), t + by);
        assert(quota(amount, v, i) >= quota(amount, w, i));
        if quota(amount, v, i) == quota(amount, w, i) && w[i] > 0 {
            assert forall|j: int| 0 <= j < n implies #[trigger] quotas(amount, v)[j] <= quotas(
                amount,
                w,
            )[j] by {
                if j != i {
                    assert((amount * w[j]) * t <= (amount * w[j]) * (t + by))
                        by (nonlinear_arith);
                    lemma_div_cross(amount * w[j], t + by, amount * w[j], t);
                }
            }
            lemma_sum_to_le(quotas(amount, v), quotas(amount, w), n);
            lemma_left_over(amount, w);
            lemma_left_over(amount, v);
            lemma_sum_to_raised(w, i, by, i);
        }
    } else {
        lemma_share_without_weight(amount, w, i);
    }
}

/// Every weight is 0 or 1.
pub open spec fn unit_weights(w: Seq<nat>) -> bool {
    forall|j: int| 0 <= j < w.len() ==> #[trigger] w[j] <= 1
}

proof fn lemma_unit_sums(amount: nat, w: Seq<nat>, k: int)
    requires
        unit_weights(w),
        total(w) > 0,
        0 <= k <= w.len(),
    ensures
        sum_to(w, k) == rank(w, k),
        sum_to(quotas(amount, w), k) == rank(w, k) * (amount / total(w)),
    decreases k,
{
    let t = total(w);
    if k > 0 {
        lemma_unit_sums(amount, w, k - 1);
        assert(w[k - 1] <= 1);
        assert(quotas(amount, w)[k - 1] == (amount * w[k - 1]) / t);
        if w[k - 1] == 1 {
            assert(amount * 1 == amount);
            let r = rank(w, k - 1);
            let e = amount / t;
            assert((r + 1) * e == r * e + e) by (nonlinear_arith);
        } else {
            assert(amount * 0 == 0);
            lemma_div_step(0, t);
        }
    } else {
        assert(0 * (amount / t) == 0);
    }
}

/// With weights of 0 and 1 the entries with a weight divide the amount
/// evenly, and the first ones take the remainder.
pub proof fn lemma_share_unit(amount: nat, w: Seq<nat>, i: int)
    requires
        unit_weights(w),
        0 <= i < w.len(),
        w[i] == 1,
    ensures
        total(w) > 0,
        rank(w, i) < total(w),
        share(amount, w, i) == amount / total(w) + if rank(w, i) < amount % total(w) {
            1nat
        } else {
            0nat
        },
{
    let n = w.len() as int;
    let t = total(w);
    lemma_entry_le_total(w, i);
    lemma_unit_sums(amount, w, n);
    lemma_unit_sums(amount, w, i + 1);
    lemma_sum_to_grows(w, i + 1, n);
    lemma_left_over(amount, w);
    vstd::arithmetic::div_mod::lemma_fundamental_div_mod(amount as int, t as int);
    assert(amount * 1 == amount);
    assert(t * (amount / t) == (amount / t) * t) by (nonlinear_arith);
}

proof fn lemma_even_step(amount: nat, t: nat, r: nat)
    requires
        t > 0,
        r < t,
    ensures
        (amount + 1) / t + if r < (amount + 1) % t { 1nat } else { 0nat } <= amount / t + if r
            < amount % t { 1nat } else { 0nat } + 1,
{
    vstd::arithmetic::div_mod::lemma_fundamental_div_mod(amount as int, t as int);
    vstd::arithmetic::div_mod::lemma_mod_bound(amount as int, t as int);
    let q = amount / t;
    let m = amount % t;
    if m + 1 < t {
        assert(amount + 1 == q * t + (m + 1)) by (nonlinear_arith)
            requires
                amount == t * q + m,
        ;
        vstd::arithmetic::div_mod::lemma_fundamental_div_mod_converse(
            amount as int + 1,
            t as int,
            q as int,
            m as int + 1,
        );
    } else {
        assert(amount + 1 == (q + 1) * t + 0) by (nonlinear_arith)
            requires
                amount == t * q + m,
                m + 1 == t,
        ;
        vstd::arithmetic::div_mod::lemma_fundamental_div_mod_converse(
            amount as int + 1,
            t as int,
            q as int + 1,
            0,
        );
    }
}

/// With weights of 0 and 1, an amount that is `more` larger gives no entry
/// more than `more` on top.
pub proof fn lemma_share_unit_step(amount: nat, more: nat, w: Seq<nat>, i: int)
    requires
        unit_weights(w),
        0 <= i < w.len(),
    ensures
        share(amount + more, w, i) <= share(amount, w, i) + more,
    decreases more,
{
    if w[i] == 0 {
        lemma_share_without_weight(amount, w, i);
        lemma_share_without_weight(amount + more, w, i);
    } else if more > 0 {
        assert(w[i] <= 1);
        lemma_share_unit_step(amount, (more - 1) as nat, w, i);
        lemma_share_unit((amount + more - 1) as nat, w, i);
        lemma_share_unit(amount + more, w, i);
        lemma_even_step((amount + more - 1) as nat, total(w), rank(w, i));
    }
}

} // verus!
