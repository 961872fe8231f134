//! The sizes of a sequence of children that share one extent.
//!
//! The extent left once the gaps between the children are taken off is
//! compared with the sum of the minimum sizes and the sum of the ideal sizes:
//!
//! - below the sum of the minimums every child shrinks from its minimum, in
//!   proportion to that minimum;
//! - up to the sum of the ideals every child grows from its minimum, in
//!   proportion to the distance between its minimum and its ideal;
//! - above it every child has its ideal size, and what is left is dealt out
//!   evenly to the children of the highest stretch tier present, unless that
//!   tier is `Fixed`: then it stays unused.
//!
//! Each of the three deals is made in whole pixels as [`share`] says: every
//! child gets its part rounded down, and what rounding leaves over of the
//! amount goes, one pixel each, to the first children in index order. Where
//! children grow these are pixels that the first children gain; where they
//! shrink they are pixels of the deficit, which the first children lose.
//! The result depends on the order of the children and on nothing else.

use crate::layout::share::{
    left_over, lemma_entry_le_total, lemma_left_over, lemma_share_full, lemma_share_le_amount,
    lemma_share_le_weight, lemma_share_unit_step, lemma_share_weight_raised,
    lemma_share_without_weight, lemma_shares_total_or_none, lemma_sum_to_add, lemma_sum_to_bounded,
    lemma_sum_to_grows, lemma_sum_to_raised, quota, quotas, rank, share, shares, sum_to, total,
    unit_weights,
};
use crate::layout::size_rules::{RulesView, SizeRules};
use vstd::prelude::*;

verus! {

/// The views of a sequence of rules.
pub open spec fn views(rules: Seq<SizeRules>) -> Seq<RulesView> {
    Seq::new(rules.len(), |i: int| rules[i]@)
}

/// Every entry is valid.
pub open spec fn all_valid(rules: Seq<RulesView>) -> bool {
    forall|i: int| 0 <= i < rules.len() ==> (#[trigger] rules[i]).valid()
}

/// The minimum sizes.
pub open spec fn mins(rules: Seq<RulesView>) -> Seq<nat> {
    Seq::new(rules.len(), |i: int| rules[i].min)
}

/// The ideal sizes.
pub open spec fn ideals(rules: Seq<RulesView>) -> Seq<nat> {
    Seq::new(rules.len(), |i: int| rules[i].ideal)
}

/// How far each ideal size lies above the minimum.
pub open spec fn headrooms(rules: Seq<RulesView>) -> Seq<nat> {
    Seq::new(rules.len(), |i: int| rules[i].headroom())
}

/// The highest stretch tier among the first `k` entries.
pub open spec fn top_tier(rules: Seq<RulesView>, k: int) -> nat
    decreases k,
{
    if k <= 0 {
        0
    } else {
        let rest = top_tier(rules, k - 1);
        let tier = rules[k - 1].stretch.tier();
        if tier > rest { tier } else { rest }
    }
}

/// Whether an entry takes part in the space beyond the ideal sizes, where
/// `top` is the highest tier present: it does if it is of that tier and the
/// tier is not `Fixed`.
pub open spec fn takes(r: RulesView, top: nat) -> nat {
    if top > 0 && r.stretch.tier() == top { 1 } else { 0 }
}

/// For each entry 1 if it takes part in the space beyond the ideal sizes,
/// else 0.
pub open spec fn takers(rules: Seq<RulesView>) -> Seq<nat> {
    Seq::new(rules.len(), |i: int| takes(rules[i], top_tier(rules, rules.len() as int)))
}

/// The extent that the gaps between `n` children take.
pub open spec fn gaps(n: nat, gap: nat) -> nat {
    if n == 0 { 0 } else { ((n - 1) * gap) as nat }
}

/// The extent left for the children themselves: none where the gaps alone
/// exceed the target.
pub open spec fn available(n: nat, target: nat, gap: nat) -> nat {
    if target >= gaps(n, gap) { (target - gaps(n, gap)) as nat } else { 0 }
}

/// The size of child `i` where `rules` share the extent `target` with `gap`
/// between neighbours.
pub open spec fn solved(rules: Seq<RulesView>, target: nat, gap: nat, i: int) -> nat {
    let room = available(rules.len(), target, gap);
    let least = total(mins(rules));
    let wish = total(ideals(rules));
    if room < least {
        (rules[i].min - share((least - room) as nat, mins(rules), i)) as nat
    } else if room <= wish {
        rules[i].min + share((room - least) as nat, headrooms(rules), i)
    } else {
        rules[i].ideal + share((room - wish) as nat, takers(rules), i)
    }
}

/// The sizes of all children.
pub open spec fn solution(rules: Seq<RulesView>, target: nat, gap: nat) -> Seq<nat> {
    Seq::new(rules.len(), |i: int| solved(rules, target, gap, i))
}

/// `sizes` are the sizes that `rules` get within `target`.
pub open spec fn solves(sizes: Seq<u32>, rules: Seq<RulesView>, target: nat, gap: nat) -> bool {
    &&& sizes.len() == rules.len()
    &&& forall|i: int| 0 <= i < rules.len() ==> sizes[i] == solved(rules, target, gap, i)
}

/// Which of the three deals is made.
#[derive(Clone, Copy)]
enum Phase {
    Shrink,
    Grow,
    Stretch,
}

/// The weight of an entry in a deal.
spec fn weight(r: RulesView, phase: Phase, top: nat) -> nat {
    match phase {
        Phase::Shrink => r.min,
        Phase::Grow => r.headroom(),
        Phase::Stretch => takes(r, top),
    }
}

spec fn weights(rules: Seq<RulesView>, phase: Phase, top: nat) -> Seq<nat> {
    Seq::new(rules.len(), |i: int| weight(rules[i], phase, top))
}

/// The size of an entry that has `part` of a deal.
spec fn settled(r: RulesView, phase: Phase, part: nat) -> int {
    match phase {
        Phase::Shrink => r.min - part,
        Phase::Grow => (r.min + part) as int,
        Phase::Stretch => (r.ideal + part) as int,
    }
}

fn weight_of(r: &SizeRules, phase: Phase, top: u8) -> (w: u32)
    ensures
        w == weight(r@, phase, top as nat),
        r@.valid(),
{
    let min: u32 = r.min_size();
    let ideal: u32 = r.ideal_size();
    match phase {
        Phase::Shrink => min,
        Phase::Grow => ideal - min,
        Phase::Stretch => if top > 0 && r.stretch().level() == top { 1 } else { 0 },
    }
}

/// The largest sum that `usize::MAX` sizes can have.
const SUM_LIMIT: u128 = 0xffff_ffff_ffff_ffff * 0xffff_ffff;

proof fn lemma_product_fits(amount: nat, w: nat)
    requires
        amount <= SUM_LIMIT,
        w <= 0xffff_ffff,
    ensures
        amount * w <= u128::MAX,
{
    assert(amount * w <= SUM_LIMIT * 0xffff_ffff) by (nonlinear_arith)
        requires
            amount <= SUM_LIMIT,
            w <= 0xffff_ffff,
    ;
}

/// The sum of the quotas of a deal.
fn quota_sum(rules: &[SizeRules], phase: Phase, top: u8, amount: u128, all: u128) -> (given: u128)
    requires
        amount <= SUM_LIMIT,
        all == total(weights(views(rules@), phase, top as nat)),
        all > 0,
    ensures
        given == total(quotas(amount as nat, weights(views(rules@), phase, top as nat))),
        given + left_over(amount as nat, weights(views(rules@), phase, top as nat)) == amount,
{
    let n: usize = rules.len();
    let ghost w = weights(views(rules@), phase, top as nat);
    let ghost q = quotas(amount as nat, w);
    let mut given: u128 = 0;
    let mut i: usize = 0;
    proof {
        lemma_left_over(amount as nat, w);
    }
    while i < n
        invariant
            n == rules@.len(),
            i <= n,
            amount <= SUM_LIMIT,
            w == weights(views(rules@), phase, top as nat),
            q == quotas(amount as nat, w),
            all == total(w),
            all > 0,
            given == sum_to(q, i as int),
            total(q) <= amount,
        decreases n - i,
    {
        let wi: u32 = weight_of(&rules[i], phase, top);
        proof {
            lemma_product_fits(amount as nat, wi as nat);
            lemma_sum_to_grows(q, i + 1, n as int);
            assert(q[i as int] == (amount * wi) as nat / all as nat);
        }
        given = given + amount * (wi as u128) / all;
        i += 1;
    }
    given
}

/// Writes the sizes of one deal: every entry settled with its share.
fn deal(out: &mut [u32], rules: &[SizeRules], phase: Phase, top: u8, amount: u128, all: u128)
    requires
        old(out)@.len() == rules@.len(),
        amount <= SUM_LIMIT,
        all == total(weights(views(rules@), phase, top as nat)),
        forall|i: int|
            0 <= i < rules@.len() ==> 0 <= #[trigger] settled(
                views(rules@)[i],
                phase,
                share(amount as nat, weights(views(rules@), phase, top as nat), i),
            ) <= u32::MAX,
    ensures
        final(out)@.len() == rules@.len(),
        forall|i: int|
            0 <= i < rules@.len() ==> final(out)@[i] == #[trigger] settled(
                views(rules@)[i],
                phase,
                share(amount as nat, weights(views(rules@), phase, top as nat), i),
            ),
{
    let n: usize = rules.len();
    let ghost rv = views(rules@);
    let ghost w = weights(rv, phase, top as nat);
    let left: u128 = if all == 0 {
        0
    } else {
        amount - quota_sum(rules, phase, top, amount, all)
    };
    let mut seen: u128 = 0;
    let mut i: usize = 0;
    while i < n
        invariant
            n == rules@.len(),
            out@.len() == n,
            i <= n,
            amount <= SUM_LIMIT,
            rv == views(rules@),
            w == weights(rv, phase, top as nat),
            all == total(w),
            left == left_over(amount as nat, w),
            seen == rank(w, i as int),
            forall|j: int|
                0 <= j < n ==> 0 <= #[trigger] settled(
                    rv[j],
                    phase,
                    share(amount as nat, w, j),
                ) <= u32::MAX,
            forall|j: int|
                0 <= j < i ==> out@[j] == #[trigger] settled(
                    rv[j],
                    phase,
                    share(amount as nat, w, j),
                ),
        decreases n - i,
    {
        let r: SizeRules = rules[i];
        let wi: u32 = weight_of(&r, phase, top);
        proof {
            lemma_product_fits(amount as nat, wi as nat);
            lemma_sum_to_grows(w, i as int, i as int);
            assert(rv[i as int] == r@);
            assert(w[i as int] == wi);
            assert(0 <= settled(rv[i as int], phase, share(amount as nat, w, i as int))
                <= u32::MAX);
        }
        let quota: u128 = if all == 0 {
            0
        } else {
            amount * (wi as u128) / all
        };
        let part: u128 = if wi > 0 && seen < left {
            quota + 1
        } else {
            quota
        };
        assert(part == share(amount as nat, w, i as int));
        let size: u32 = match phase {
            Phase::Shrink => r.min_size() - part as u32,
            Phase::Grow => r.min_size() + part as u32,
            Phase::Stretch => r.ideal_size() + part as u32,
        };
        out[i] = size;
        if wi > 0 {
            seen = seen + 1;
        }
        i += 1;
    }
}

/// The ideal sizes are the minimum sizes and the headrooms together.
pub proof fn lemma_headroom_total(rules: Seq<RulesView>, k: int)
    requires
        all_valid(rules),
        0 <= k <= rules.len(),
    ensures
        sum_to(ideals(rules), k) == sum_to(mins(rules), k) + sum_to(headrooms(rules), k),
    decreases k,
{
    if k > 0 {
        lemma_headroom_total(rules, k - 1);
        assert(rules[k - 1].valid());
    }
}

/// The sums of the minimum and of the ideal sizes, and the highest stretch
/// tier.
fn survey(rules: &[SizeRules]) -> (r: (u128, u128, u8))
    ensures
        all_valid(views(rules@)),
        r.0 == total(mins(views(rules@))),
        r.1 == total(ideals(views(rules@))),
        r.2 == top_tier(views(rules@), rules@.len() as int),
        r.0 <= r.1 <= SUM_LIMIT,
{
    let n: usize = rules.len();
    let ghost rv = views(rules@);
    let mut least: u128 = 0;
    let mut wish: u128 = 0;
    let mut top: u8 = 0;
    let mut i: usize = 0;
    while i < n
        invariant
            n == rules@.len(),
            i <= n,
            rv == views(rules@),
            forall|j: int| 0 <= j < i ==> (#[trigger] rv[j]).valid(),
            least == sum_to(mins(rv), i as int),
            wish == sum_to(ideals(rv), i as int),
            top == top_tier(rv, i as int),
            least <= wish <= i * 0xffff_ffff,
        decreases n - i,
    {
        let r: SizeRules = rules[i];
        let min: u32 = r.min_size();
        let ideal: u32 = r.ideal_size();
        let level: u8 = r.stretch().level();
        proof {
            assert(rv[i as int] == r@);
            assert(i * 0xffff_ffff + 0xffff_ffff == (i + 1) * 0xffff_ffff) by (nonlinear_arith);
            assert(i * 0xffff_ffff <= SUM_LIMIT) by (nonlinear_arith)
                requires
                    i < 0xffff_ffff_ffff_ffff,
                    SUM_LIMIT == 0xffff_ffff_ffff_ffff * 0xffff_ffff,
            ;
        }
        least = least + min as u128;
        wish = wish + ideal as u128;
        if level > top {
            top = level;
        }
        i += 1;
    }
    proof {
        assert(n * 0xffff_ffff <= SUM_LIMIT) by (nonlinear_arith)
            requires
                n <= 0xffff_ffff_ffff_ffff,
                SUM_LIMIT == 0xffff_ffff_ffff_ffff * 0xffff_ffff,
        ;
    }
    (least, wish, top)
}

/// The number of entries that take part in the space beyond the ideal sizes.
fn count_takers(rules: &[SizeRules], top: u8) -> (count: u128)
    ensures
        count == total(weights(views(rules@), Phase::Stretch, top as nat)),
{
    let n: usize = rules.len();
    let ghost w = weights(views(rules@), Phase::Stretch, top as nat);
    let mut count: u128 = 0;
    let mut i: usize = 0;
    while i < n
        invariant
            n == rules@.len(),
            i <= n,
            w == weights(views(rules@), Phase::Stretch, top as nat),
            count == sum_to(w, i as int),
            count <= i,
        decreases n - i,
    {
        let wi: u32 = weight_of(&rules[i], Phase::Stretch, top);
        count = count + wi as u128;
        i += 1;
    }
    count
}

impl SizeRules {
    /// Gives each of the children with `rules` its size within `target`,
    /// where neighbours are `gap` apart, and writes the sizes to `out`.
    ///
    /// There is one size for each entry of `rules`. Where `target` covers the
    /// gaps and the minimum sizes no size is below its minimum, and the sizes
    /// and gaps fill `target` unless all children are at their ideal size and
    /// none of them may stretch. Where it does not cover them, no size is
    /// above its minimum and the sizes fill what the gaps leave of `target`.
    pub fn solve_seq(out: &mut [u32], rules: &[SizeRules], target: u32, gap: u32)
        requires
            old(out)@.len() == rules@.len(),
        ensures
            solves(final(out)@, views(rules@), target as nat, gap as nat),
    {
        let n: usize = rules.len();
        if n == 0 {
            return ;
        }
        let ghost rv = views(rules@);
        let (least, wish, top) = survey(rules);
        proof {
            assert((n - 1) * gap <= 0xffff_ffff_ffff_ffff * 0xffff_ffff) by (nonlinear_arith)
                requires
                    n - 1 <= 0xffff_ffff_ffff_ffff,
                    gap <= 0xffff_ffff,
                    n >= 1,
            ;
        }
        let between: u128 = (n - 1) as u128 * gap as u128;
        let room: u128 = if target as u128 >= between {
            target as u128 - between
        } else {
            0
        };
        assert(room == available(n as nat, target as nat, gap as nat));
        if room < least {
            let amount: u128 = least - room;
            proof {
                assert(weights(rv, Phase::Shrink, top as nat) =~= mins(rv));
                assert forall|i: int| 0 <= i < n implies 0 <= #[trigger] settled(
                    rv[i],
                    Phase::Shrink,
                    share(amount as nat, weights(rv, Phase::Shrink, top as nat), i),
                ) <= u32::MAX by {
                    lemma_share_le_weight(amount as nat, mins(rv), i);
                    assert(rv[i].valid());
                }
            }
            deal(out, rules, Phase::Shrink, top, amount, least);
            assert forall|i: int| 0 <= i < n implies out@[i] == solved(
                rv,
                target as nat,
                gap as nat,
                i,
            ) by {
                assert(out@[i] == settled(
                    rv[i],
                    Phase::Shrink,
                    share(amount as nat, weights(rv, Phase::Shrink, top as nat), i),
                ));
            }
        } else if room <= wish {
            let amount: u128 = room - least;
            proof {
                lemma_headroom_total(rv, n as int);
                assert(weights(rv, Phase::Grow, top as nat) =~= headrooms(rv));
                assert forall|i: int| 0 <= i < n implies 0 <= #[trigger] settled(
                    rv[i],
                    Phase::Grow,
                    share(amount as nat, weights(rv, Phase::Grow, top as nat), i),
                ) <= u32::MAX by {
                    lemma_share_le_weight(amount as nat, headrooms(rv), i);
                    assert(rv[i].valid());
                }
            }
            deal(out, rules, Phase::Grow, top, amount, wish - least);
            assert forall|i: int| 0 <= i < n implies out@[i] == solved(
                rv,
                target as nat,
                gap as nat,
                i,
            ) by {
                assert(out@[i] == settled(
                    rv[i],
                    Phase::Grow,
                    share(amount as nat, weights(rv, Phase::Grow, top as nat), i),
                ));
            }
        } else {
            let amount: u128 = room - wish;
            let count: u128 = count_takers(rules, top);
            proof {
                assert(weights(rv, Phase::Stretch, top as nat) =~= takers(rv));
                assert forall|i: int| 0 <= i < n implies 0 <= #[trigger] settled(
                    rv[i],
                    Phase::Stretch,
                    share(amount as nat, weights(rv, Phase::Stretch, top as nat), i),
                ) <= u32::MAX by {
                    lemma_share_le_amount(amount as nat, takers(rv), i);
                    lemma_entry_le_total(ideals(rv), i);
                }
            }
            deal(out, rules, Phase::Stretch, top, amount, count);
            assert forall|i: int| 0 <= i < n implies out@[i] == solved(
                rv,
                target as nat,
                gap as nat,
                i,
            ) by {
                assert(out@[i] == settled(
                    rv[i],
                    Phase::Stretch,
                    share(amount as nat, weights(rv, Phase::Stretch, top as nat), i),
                ));
            }
        }
    }
}

/// The highest tier among some entries is the tier of one of them.
pub proof fn lemma_top_tier_present(rules: Seq<RulesView>, k: int)
    requires
        0 < k <= rules.len(),
    ensures
        exists|j: int| 0 <= j < k && (#[trigger] rules[j]).stretch.tier() == top_tier(rules, k),
    decreases k,
{
    if k == 1 || rules[k - 1].stretch.tier() > top_tier(rules, k - 1) {
        assert(rules[k - 1].stretch.tier() == top_tier(rules, k));
    } else {
        lemma_top_tier_present(rules, k - 1);
        let j = choose|j: int|
            0 <= j < k - 1 && (#[trigger] rules[j]).stretch.tier() == top_tier(rules, k - 1);
        assert(rules[j].stretch.tier() == top_tier(rules, k));
    }
}

/// Some entry takes part in the space beyond the ideal sizes as soon as one
/// entry is not `Fixed`.
pub proof fn lemma_takers_present(rules: Seq<RulesView>)
    requires
        top_tier(rules, rules.len() as int) > 0,
    ensures
        total(takers(rules)) > 0,
{
    let n = rules.len() as int;
    lemma_top_tier_present(rules, n);
    let j = choose|j: int|
        0 <= j < n && (#[trigger] rules[j]).stretch.tier() == top_tier(rules, n);
    assert(takers(rules)[j] == 1);
    lemma_entry_le_total(takers(rules), j);
}

/// A target that covers the gaps and the minimum sizes is filled exactly by
/// the sizes and the gaps, as long as it does not exceed the ideal sizes and
/// the gaps or some child is not `Fixed`.
pub proof fn lemma_sizes_fill_target(rules: Seq<RulesView>, target: nat, gap: nat)
    requires
        all_valid(rules),
        target >= total(mins(rules)) + gaps(rules.len(), gap),
        target <= total(ideals(rules)) + gaps(rules.len(), gap) || top_tier(
            rules,
            rules.len() as int,
        ) > 0,
    ensures
        total(solution(rules, target, gap)) + gaps(rules.len(), gap) == target,
{
    let n = rules.len() as int;
    let room = available(rules.len(), target, gap);
    let least = total(mins(rules));
    let wish = total(ideals(rules));
    let sizes = solution(rules, target, gap);
    lemma_headroom_total(rules, n);
    if room <= wish {
        let amount = (room - least) as nat;
        let parts = shares(amount, headrooms(rules));
        lemma_shares_total_or_none(amount, headrooms(rules));
        lemma_sum_to_add(mins(rules), parts, sizes, n);
    } else {
        let amount = (room - wish) as nat;
        let parts = shares(amount, takers(rules));
        lemma_takers_present(rules);
        lemma_shares_total_or_none(amount, takers(rules));
        lemma_sum_to_add(ideals(rules), parts, sizes, n);
    }
}

/// No size is below its minimum where the target covers the gaps and the
/// minimum sizes.
pub proof fn lemma_sizes_reach_min(rules: Seq<RulesView>, target: nat, gap: nat, i: int)
    requires
        all_valid(rules),
        target >= total(mins(rules)) + gaps(rules.len(), gap),
        0 <= i < rules.len(),
    ensures
        solved(rules, target, gap, i) >= rules[i].min,
{
    assert(rules[i].valid());
}

/// A target of exactly the ideal sizes and the gaps gives every child its
/// ideal size.
pub proof fn lemma_sizes_ideal(rules: Seq<RulesView>, target: nat, gap: nat, i: int)
    requires
        all_valid(rules),
        target == total(ideals(rules)) + gaps(rules.len(), gap),
        0 <= i < rules.len(),
    ensures
        solved(rules, target, gap, i) == rules[i].ideal,
{
    lemma_headroom_total(rules, rules.len() as int);
    lemma_share_full(headrooms(rules), i);
    assert(rules[i].valid());
}

/// A target that does not cover the gaps and the minimum sizes gives no
/// child more than its minimum, and the sizes fill what the gaps leave of
/// the target.
pub proof fn lemma_sizes_shrink(rules: Seq<RulesView>, target: nat, gap: nat)
    requires
        all_valid(rules),
        target < total(mins(rules)) + gaps(rules.len(), gap),
    ensures
        forall|i: int|
            0 <= i < rules.len() ==> #[trigger] solved(rules, target, gap, i) <= rules[i].min,
        total(solution(rules, target, gap)) == available(rules.len(), target, gap),
{
    let n = rules.len() as int;
    let room = available(rules.len(), target, gap);
    let least = total(mins(rules));
    let sizes = solution(rules, target, gap);
    lemma_headroom_total(rules, n);
    if room < least {
        let amount = (least - room) as nat;
        let parts = shares(amount, mins(rules));
        assert forall|i: int| 0 <= i < n implies sizes[i] + parts[i] == #[trigger] mins(rules)[i]
            && solved(rules, target, gap, i) <= rules[i].min by {
            lemma_share_le_weight(amount, mins(rules), i);
        }
        lemma_shares_total_or_none(amount, mins(rules));
        lemma_sum_to_add(sizes, parts, mins(rules), n);
    } else {
        assert(room == 0 && least == 0);
        let parts = shares(0, headrooms(rules));
        assert forall|i: int| 0 <= i < n implies #[trigger] parts[i] == 0 && solved(
            rules,
            target,
            gap,
            i,
        ) <= rules[i].min by {
            lemma_share_without_weight(0, headrooms(rules), i);
        }
        lemma_sum_to_add(mins(rules), parts, sizes, n);
        lemma_shares_total_or_none(0, headrooms(rules));
    }
}

/// The sizes are a function of the rules, the target and the gap: two
/// results for the same input are the same, entry by entry.
pub proof fn lemma_sizes_unique(
    first: Seq<u32>,
    second: Seq<u32>,
    rules: Seq<RulesView>,
    target: nat,
    gap: nat,
)
    requires
        solves(first, rules, target, gap),
        solves(second, rules, target, gap),
    ensures
        first == second,
{
    assert(first =~= second);
}

/// The highest tier depends on the stretch policies alone.
proof fn lemma_top_tier_same(a: Seq<RulesView>, b: Seq<RulesView>, k: int)
    requires
        0 <= k <= a.len(),
        k <= b.len(),
        forall|j: int| 0 <= j < k ==> a[j].stretch == b[j].stretch,
    ensures
        top_tier(a, k) == top_tier(b, k),
    decreases k,
{
    if k > 0 {
        lemma_top_tier_same(a, b, k - 1);
    }
}

/// An amount beyond the total weight gives an entry whose weight is raised
/// by at least the excess its old weight and the whole excess.
proof fn lemma_quota_past_full(w: Seq<nat>, i: int, by: nat, excess: nat)
    requires
        0 <= i < w.len(),
        0 < excess <= by,
    ensures
        share(total(w) + excess, w.update(i, w[i] + by), i) >= w[i] + excess,
{
    let t = total(w);
    let v = w.update(i, w[i] + by);
    lemma_sum_to_raised(w, i, by, w.len() as int);
    lemma_entry_le_total(w, i);
    let x = (t + excess) * (w[i] + by);
    let y = (w[i] + excess) * (t + by);
    assert(y <= x) by (nonlinear_arith)
        requires
            x == (t + excess) * (w[i] + by),
            y == (w[i] + excess) * (t + by),
            w[i] <= t,
            excess <= by,
    ;
    vstd::arithmetic::div_mod::lemma_div_is_ordered(y as int, x as int, (t + by) as int);
    vstd::arithmetic::div_mod::lemma_div_multiples_vanish((w[i] + excess) as int, (t + by) as int);
    assert(y == (t + by) * (w[i] + excess)) by (nonlinear_arith)
        requires
            y == (w[i] + excess) * (t + by),
    ;
    assert(quota(t + excess, v, i) == x / (t + by));
}

/// Raising one child's ideal size, all else unchanged, never lowers that
/// child's size within the same target.
pub proof fn lemma_ideal_monotone(
    rules: Seq<RulesView>,
    k: int,
    ideal: nat,
    target: nat,
    gap: nat,
)
    requires
        all_valid(rules),
        0 <= k < rules.len(),
        rules[k].ideal <= ideal,
    ensures
        solved(rules.update(k, RulesView { ideal, ..rules[k] }), target, gap, k) >= solved(
            rules,
            target,
            gap,
            k,
        ),
{
    let n = rules.len() as int;
    let raised = rules.update(k, RulesView { ideal, ..rules[k] });
    let by = (ideal - rules[k].ideal) as nat;
    let room = available(rules.len(), target, gap);
    let least = total(mins(rules));
    let wish = total(ideals(rules));
    assert(rules[k].valid());
    assert forall|i: int| 0 <= i < n implies (#[trigger] raised[i]).valid() || i == k by {
        assert(rules[i].valid());
    }
    assert(mins(raised) =~= mins(rules));
    assert(ideals(raised) =~= ideals(rules).update(k, ideals(rules)[k] + by));
    assert(headrooms(raised) =~= headrooms(rules).update(k, headrooms(rules)[k] + by));
    lemma_top_tier_same(raised, rules, n);
    assert(takers(raised) =~= takers(rules));
    lemma_sum_to_raised(ideals(rules), k, by, n);
    lemma_headroom_total(rules, n);
    if room < least {
    } else if room <= wish {
        lemma_share_weight_raised((room - least) as nat, headrooms(rules), k, by);
    } else if room <= wish + by {
        let excess = (room - wish) as nat;
        lemma_quota_past_full(headrooms(rules), k, by, excess);
        lemma_share_le_amount(excess, takers(rules), k);
    } else {
        assert(unit_weights(takers(rules)));
        lemma_share_unit_step((room - wish - by) as nat, by, takers(rules), k);
    }
}

/// The sizes never take more than the gaps leave of the target.
pub proof fn lemma_sizes_within(rules: Seq<RulesView>, target: nat, gap: nat)
    requires
        all_valid(rules),
    ensures
        total(solution(rules, target, gap)) <= available(rules.len(), target, gap),
{
    let n = rules.len() as int;
    let room = available(rules.len(), target, gap);
    let wish = total(ideals(rules));
    if target < total(mins(rules)) + gaps(rules.len(), gap) {
        lemma_sizes_shrink(rules, target, gap);
    } else if room <= wish || top_tier(rules, n) > 0 {
        lemma_sizes_fill_target(rules, target, gap);
    } else {
        let amount = (room - wish) as nat;
        let parts = shares(amount, takers(rules));
        lemma_sum_to_bounded(takers(rules), n, 0);
        lemma_shares_total_or_none(amount, takers(rules));
        lemma_sum_to_add(ideals(rules), parts, solution(rules, target, gap), n);
    }
}

} // verus!
