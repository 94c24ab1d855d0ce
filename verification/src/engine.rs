//! The probability and expectation engine.
//!
//! Both public operations run the same per-attempt recurrence: the
//! probability mass of "first success exactly here" is the survival
//! probability so far times the instantaneous success rate, and survival
//! decays by the complement. All quantities are exact fixed-point integers
//! scaled by [`SCALE`], so every result is pinned to the bit: the mass of a
//! step is defined as the exact loss of survival across that step, which
//! makes the masses telescope and keeps every rounding consistent between
//! the two operations.

use vstd::prelude::*;

use crate::odds::{odds_at, table, Rarity, MAX_ODDS_TENTHS, MIN_ODDS_TENTHS, TABLE_LEN};
use crate::odds::{lemma_odds_at_wf, lemma_table_wf};

verus! {

/// Probabilities and expected attempt counts are integers scaled by this
/// factor: a stored value `v` stands for the real number `v / SCALE`.
pub const SCALE: u64 = 1000000000;

/// Scaled per-attempt success probability for an odds value of `o` tenths:
/// the largest fixed-point number at most `SCALE * (10 / o)`.
pub open spec fn step_prob(o: u32) -> int {
    SCALE as int * 10 / o as int
}

/// Scaled survival probability after one more attempt at odds `o`, starting
/// from scaled survival `cum`.
pub open spec fn next_survival(cum: int, o: u32) -> int {
    cum * (SCALE as int - step_prob(o)) / SCALE as int
}

/// Scaled probability mass of "the first success happens exactly on this
/// attempt": the exact amount of survival lost across the step.
pub open spec fn step_mass(cum: int, o: u32) -> int {
    cum - next_survival(cum, o)
}

/// Scaled probability that every attempt from the 1-based position `start`
/// through `start + k - 1` fails, i.e. the product of the per-attempt
/// failure probabilities over those `k` attempts.
pub open spec fn survival(r: Rarity, start: int, k: nat) -> int
    recommends
        start >= 1,
    decreases k,
{
    if k == 0 {
        SCALE as int
    } else {
        next_survival(survival(r, start, (k - 1) as nat), odds_at(r, start - 2 + k))
    }
}

/// Scaled probability that success occurs within the next `b` attempts
/// starting at the 1-based position `start`: exactly the survival
/// probability lost over those `b` attempts.
pub open spec fn success_within(r: Rarity, start: int, b: nat) -> int
    recommends
        start >= 1,
{
    SCALE as int - survival(r, start, b)
}

/// Scaled sum, over the first `k` attempts starting at `start`, of
/// (attempt number within the remaining sequence) times (mass of "first
/// success exactly here").
pub open spec fn expectation_sum(r: Rarity, start: int, k: nat) -> int
    recommends
        start >= 1,
    decreases k,
{
    if k == 0 {
        0
    } else {
        expectation_sum(r, start, (k - 1) as nat) + k * step_mass(
            survival(r, start, (k - 1) as nat),
            odds_at(r, start - 2 + k),
        )
    }
}

/// The last stored odds value of a tier, scaled: the steady-state expected
/// number of attempts until success beyond the table's range.
pub open spec fn last_odds_scaled(r: Rarity) -> int {
    table(r)[TABLE_LEN - 1] as int * SCALE as int / 10
}

/// Scaled expected number of further attempts until success, the attempt at
/// the 1-based position `start` counting as the first. Within the table the
/// per-attempt masses are summed and the survival mass left after the table
/// is resolved by the steady-state closed form; past the table the answer
/// is the steady-state value itself.
pub open spec fn expectation(r: Rarity, start: int) -> int
    recommends
        start >= 1,
{
    if start > TABLE_LEN {
        last_odds_scaled(r)
    } else {
        let k = (TABLE_LEN + 1 - start) as nat;
        expectation_sum(r, start, k) + survival(r, start, k) * (last_odds_scaled(r) + k * SCALE)
            / SCALE as int
    }
}

/// The scaled per-attempt success probability lies in `[0, SCALE]` for any
/// odds value the tables allow.
pub proof fn lemma_step_prob_bounds(o: u32)
    requires
        MIN_ODDS_TENTHS <= o,
    ensures
        0 <= step_prob(o) <= SCALE,
        o <= MAX_ODDS_TENTHS ==> step_prob(o) >= 1,
{
    assert(0 <= SCALE as int * 10 / o as int <= SCALE) by (nonlinear_arith)
        requires 10 <= o as int;
    if o <= MAX_ODDS_TENTHS {
        vstd::arithmetic::div_mod::lemma_div_is_ordered_by_denominator(
            SCALE as int * 10,
            o as int,
            MAX_ODDS_TENTHS as int,
        );
    }
}

/// One recurrence step keeps survival within `[0, cum]`, so the step's mass
/// lies in `[0, cum]` as well, and mass and new survival sum to `cum`.
pub proof fn lemma_next_survival_bounds(cum: int, o: u32)
    requires
        0 <= cum <= SCALE,
        MIN_ODDS_TENTHS <= o,
    ensures
        0 <= next_survival(cum, o) <= cum,
        0 <= step_mass(cum, o) <= cum,
        step_mass(cum, o) + next_survival(cum, o) == cum,
{
    lemma_step_prob_bounds(o);
    assert(0 <= cum * (SCALE as int - step_prob(o)) / SCALE as int <= cum) by (nonlinear_arith)
        requires
            0 <= cum,
            0 <= step_prob(o) <= SCALE,
            SCALE == 1000000000u64,
    ;
}

/// Survival stays within `[0, SCALE]` and never increases with further
/// attempts.
pub proof fn lemma_survival_bounds(r: Rarity, start: int, k: nat)
    requires
        start >= 1,
    ensures
        0 <= survival(r, start, k) <= SCALE,
        k > 0 ==> survival(r, start, k) <= survival(r, start, (k - 1) as nat),
    decreases k,
{
    if k > 0 {
        lemma_survival_bounds(r, start, (k - 1) as nat);
        lemma_odds_at_wf(r, start - 2 + k);
        lemma_next_survival_bounds(survival(r, start, (k - 1) as nat), odds_at(r, start - 2 + k));
    }
}

/// While any surviving mass is left, each attempt strips off at least one
/// fixed-point unit of it, so survival is either already zero or at most
/// `SCALE - k` after `k` attempts.
proof fn lemma_survival_decrement(r: Rarity, start: int, k: nat)
    requires
        start >= 1,
    ensures
        survival(r, start, k) == 0 || survival(r, start, k) <= SCALE as int - k,
    decreases k,
{
    if k > 0 {
        lemma_survival_decrement(r, start, (k - 1) as nat);
        lemma_survival_bounds(r, start, (k - 1) as nat);
        lemma_odds_at_wf(r, start - 2 + k);
        let c = survival(r, start, (k - 1) as nat);
        let o = odds_at(r, start - 2 + k);
        let p = step_prob(o);
        lemma_step_prob_bounds(o);
        if c == 0 {
            assert(next_survival(0, o) == 0);
        } else {
            assert(c * (SCALE as int - p) <= c * SCALE as int - c && c * SCALE as int - c <= (c - 1)
                * SCALE as int + (SCALE as int - 1)) by (nonlinear_arith)
                requires
                    1 <= c <= SCALE as int,
                    1 <= p,
                    SCALE == 1000000000u64,
            ;
            vstd::arithmetic::div_mod::lemma_div_is_ordered(
                c * (SCALE as int - p),
                (c - 1) * SCALE as int + (SCALE as int - 1),
                SCALE as int,
            );
            vstd::arithmetic::div_mod::lemma_fundamental_div_mod_converse(
                (c - 1) * SCALE as int + (SCALE as int - 1),
                SCALE as int,
                c - 1,
                SCALE as int - 1,
            );
            assert(next_survival(c, o) <= c - 1);
        }
    }
}

/// Law: the success probability converges to one: a budget of `SCALE`
/// attempts or more makes success certain in fixed point, at any starting
/// position and for every tier.
pub proof fn lemma_probability_converges(r: Rarity, start: int, b: nat)
    requires
        start >= 1,
        b >= SCALE,
    ensures
        success_within(r, start, b) == SCALE,
{
    lemma_survival_decrement(r, start, b);
    lemma_survival_bounds(r, start, b);
}

/// The weighted mass sum over `k` attempts is at least the total mass lost
/// over them, since every weight is at least one attempt.
proof fn lemma_expectation_sum_lower(r: Rarity, start: int, k: nat)
    requires
        start >= 1,
    ensures
        expectation_sum(r, start, k) >= SCALE as int - survival(r, start, k),
    decreases k,
{
    if k > 0 {
        lemma_expectation_sum_lower(r, start, (k - 1) as nat);
        lemma_survival_bounds(r, start, (k - 1) as nat);
        lemma_odds_at_wf(r, start - 2 + k);
        let cum = survival(r, start, (k - 1) as nat);
        let m = step_mass(cum, odds_at(r, start - 2 + k));
        lemma_next_survival_bounds(cum, odds_at(r, start - 2 + k));
        assert(k * m >= m) by (nonlinear_arith)
            requires
                k >= 1,
                m >= 0,
        ;
    }
}

/// Law: at any starting position within the table, the expected number of
/// further attempts is at least one whole attempt (`SCALE` in fixed point),
/// since at least the attempt at the starting position itself is needed.
pub proof fn lemma_expectation_at_least_one(r: Rarity, start: int)
    requires
        1 <= start <= TABLE_LEN,
    ensures
        expectation(r, start) >= SCALE,
{
    let k = (TABLE_LEN + 1 - start) as nat;
    lemma_expectation_sum_lower(r, start, k);
    lemma_survival_bounds(r, start, k);
    lemma_table_wf(r);
    let surv = survival(r, start, k);
    let last_sc = last_odds_scaled(r);
    assert(last_sc >= SCALE) by (nonlinear_arith)
        requires
            last_sc == table(r)[TABLE_LEN - 1] as int * SCALE as int / 10,
            table(r)[TABLE_LEN - 1] >= 10,
            SCALE == 1000000000u64,
    ;
    let factor = last_sc + k * SCALE;
    assert(k * SCALE >= SCALE) by (nonlinear_arith)
        requires
            k >= 1,
            SCALE == 1000000000u64,
    ;
    assert(surv * factor >= surv * (SCALE as int)) by (nonlinear_arith)
        requires
            surv >= 0,
            factor >= SCALE as int,
    ;
    vstd::arithmetic::div_mod::lemma_div_is_ordered(
        surv * (SCALE as int),
        surv * factor,
        SCALE as int,
    );
    vstd::arithmetic::div_mod::lemma_div_multiples_vanish(surv, SCALE as int);
    assert(surv * (SCALE as int) == SCALE as int * surv) by (nonlinear_arith);
    assert(surv * factor / SCALE as int >= surv);
}

/// Law: at any starting position past the table's end, the expected number
/// of further attempts is exactly the steady-state value, the last stored
/// odds of the tier.
pub proof fn lemma_expectation_steady_state(r: Rarity, start: int)
    requires
        start > TABLE_LEN,
    ensures
        expectation(r, start) == last_odds_scaled(r),
{
}

/// Law: a budget of zero further attempts gives success probability zero.
pub proof fn lemma_probability_zero_boxes(r: Rarity, start: int)
    ensures
        success_within(r, start, 0) == 0,
{
}

/// Law: success probability is non-decreasing in the attempt budget, and
/// always a probability (between 0 and `SCALE`).
pub proof fn lemma_probability_monotone(r: Rarity, start: int, b1: nat, b2: nat)
    requires
        start >= 1,
        b1 <= b2,
    ensures
        0 <= success_within(r, start, b1),
        success_within(r, start, b1) <= success_within(r, start, b2),
        success_within(r, start, b2) <= SCALE,
    decreases b2 - b1,
{
    lemma_survival_bounds(r, start, b1);
    lemma_survival_bounds(r, start, b2);
    if b2 > b1 {
        lemma_probability_monotone(r, start, b1, (b2 - 1) as nat);
    }
}

/// Law: the success probability within `b` attempts is exactly one minus
/// the cumulative survival probability after those `b` steps — the product
/// of the per-attempt failure probabilities, as `survival` computes it.
pub proof fn lemma_probability_survival_consistency(r: Rarity, start: int, b: nat)
    ensures
        success_within(r, start, b) == SCALE as int - survival(r, start, b),
{
}

/// One step of the shared recurrence: from the current scaled survival
/// probability and the instantaneous odds, the scaled mass of "first
/// success exactly on this attempt" and the updated survival.
pub fn advance(cum: u64, o: u32) -> (r: (u64, u64))
    requires
        cum <= SCALE,
        MIN_ODDS_TENTHS <= o,
    ensures
        r.0 as int == step_mass(cum as int, o),
        r.1 as int == next_survival(cum as int, o),
        r.0 + r.1 == cum,
{
    proof {
        lemma_step_prob_bounds(o);
        lemma_next_survival_bounds(cum as int, o);
        assert(cum * (SCALE as int - step_prob(o)) <= SCALE as int * SCALE as int)
            by (nonlinear_arith)
            requires
                0 <= cum <= SCALE,
                0 <= SCALE as int - step_prob(o) <= SCALE,
        ;
    }
    let p: u64 = SCALE * 10 / (o as u64);
    let next: u64 = cum * (SCALE - p) / SCALE;
    (cum - next, next)
}

/// Instantaneous odds for the `j`-th further attempt (0-based) when the
/// user stands at the 1-based position `start`; written so that the
/// attempt's absolute index never has to be formed where it would not fit.
fn lookup_step(r: &Rarity, start: usize, j: usize) -> (o: u32)
    requires
        start >= 1,
    ensures
        o == odds_at(*r, start - 1 + j),
        MIN_ODDS_TENTHS <= o <= MAX_ODDS_TENTHS,
{
    if j >= TABLE_LEN || start - 1 >= TABLE_LEN - j {
        r.lookup(TABLE_LEN - 1)
    } else {
        r.lookup(start - 1 + j)
    }
}

/// Scaled probability that success occurs within the next `num_boxes`
/// attempts starting at the 1-based position `start`, given no success
/// before `start`. The result equals `SCALE` minus the scaled survival
/// probability after `num_boxes` steps — the two are consistent by
/// construction — and lies in `[0, SCALE]`.
pub fn probability(r: &Rarity, start: usize, num_boxes: usize) -> (p: u64)
    requires
        start >= 1,
    ensures
        p as int == success_within(*r, start as int, num_boxes as nat),
        p <= SCALE,
        num_boxes == 0 ==> p == 0,
{
    let mut cum: u64 = SCALE;
    let mut acc: u64 = 0;
    let mut j: usize = 0;
    while j < num_boxes
        invariant
            start >= 1,
            j <= num_boxes,
            cum as int == survival(*r, start as int, j as nat),
            acc + cum == SCALE,
        decreases num_boxes - j,
    {
        let o = lookup_step(r, start, j);
        let (mass, next) = advance(cum, o);
        proof {
            assert(survival(*r, start as int, (j + 1) as nat) == next_survival(
                survival(*r, start as int, j as nat),
                odds_at(*r, start as int - 2 + (j + 1)),
            ));
        }
        acc = acc + mass;
        cum = next;
        j += 1;
    }
    acc
}

/// Scaled expected number of further attempts until success, the attempt
/// at the 1-based position `start` counting as the first, given no success
/// before `start`. Within the table the per-attempt masses are summed and
/// the survival mass left afterwards is resolved by the steady-state closed
/// form; past the table the answer is the steady-state value itself.
pub fn expected_value(r: &Rarity, start: usize) -> (e: u64)
    requires
        start >= 1,
    ensures
        e as int == expectation(*r, start as int),
        start <= TABLE_LEN ==> e >= SCALE,
        start > TABLE_LEN ==> e as int == last_odds_scaled(*r),
{
    proof {
        if start <= TABLE_LEN {
            lemma_expectation_at_least_one(*r, start as int);
        }
    }
    if start > TABLE_LEN {
        let last = r.lookup(TABLE_LEN - 1);
        proof {
            assert(last as u64 * SCALE <= 1000000000000000u64 && last as u64 * SCALE / 10
                == last_odds_scaled(*r)) by (nonlinear_arith)
                requires
                    last as int == table(*r)[TABLE_LEN - 1] as int,
                    last <= MAX_ODDS_TENTHS,
                    SCALE == 1000000000u64,
                    MAX_ODDS_TENTHS == 1000000u32,
                    last_odds_scaled(*r) == table(*r)[TABLE_LEN - 1] as int * SCALE as int / 10,
            ;
        }
        last as u64 * SCALE / 10
    } else {
        let steps: usize = TABLE_LEN - start + 1;
        let mut cum: u64 = SCALE;
        let mut exp: u64 = 0;
        let mut j: usize = 0;
        while j < steps
            invariant
                start >= 1,
                steps == TABLE_LEN - start + 1,
                start <= TABLE_LEN,
                j <= steps,
                cum as int == survival(*r, start as int, j as nat),
                exp as int == expectation_sum(*r, start as int, j as nat),
                exp + steps * (cum as int) <= steps * (SCALE as int),
            decreases steps - j,
        {
            let o = lookup_step(r, start, j);
            proof {
                lemma_survival_bounds(*r, start as int, j as nat);
            }
            let (mass, next) = advance(cum, o);
            proof {
                assert(survival(*r, start as int, (j + 1) as nat) == next_survival(
                    survival(*r, start as int, j as nat),
                    odds_at(*r, start as int - 2 + (j + 1)),
                ));
                assert(expectation_sum(*r, start as int, (j + 1) as nat) == expectation_sum(
                    *r,
                    start as int,
                    j as nat,
                ) + (j + 1) * step_mass(
                    survival(*r, start as int, j as nat),
                    odds_at(*r, start as int - 2 + (j + 1)),
                ));
                assert((j + 1) * (mass as int) <= steps * (mass as int) && exp + (j + 1) * (
                mass as int) + steps * (next as int) <= steps * (SCALE as int) && exp + (j + 1) * (
                mass as int) <= steps * (SCALE as int)) by (nonlinear_arith)
                    requires
                        0 <= mass,
                        0 <= next,
                        mass + next == cum,
                        0 < j + 1 <= steps,
                        exp + steps * (cum as int) <= steps * (SCALE as int),
                ;
                assert(steps * (SCALE as int) <= 50 * (SCALE as int)) by (nonlinear_arith)
                    requires
                        0 <= steps <= 50,
                        SCALE == 1000000000u64,
                ;
            }
            exp = exp + ((j + 1) as u64) * mass;
            cum = next;
            j += 1;
        }
        let last = r.lookup(TABLE_LEN - 1);
        proof {
            lemma_survival_bounds(*r, start as int, steps as nat);
            assert(last as u64 * SCALE <= 1000000000000000u64) by (nonlinear_arith)
                requires
                    last <= 1000000u32,
                    SCALE == 1000000000u64,
            ;
        }
        let last_scaled: u64 = last as u64 * SCALE / 10;
        let tail_factor: u64 = last_scaled + (steps as u64) * SCALE;
        proof {
            assert((cum as int) * (tail_factor as int) <= (SCALE as int) * (tail_factor as int)
                && (SCALE as int) * (tail_factor as int) / (SCALE as int) == tail_factor as int
                && 0 <= (cum as int) * (tail_factor as int)) by (nonlinear_arith)
                requires
                    0 <= cum <= SCALE,
                    0 <= tail_factor,
                    SCALE == 1000000000u64,
            ;
            vstd::arithmetic::div_mod::lemma_div_is_ordered(
                (cum as int) * (tail_factor as int),
                (SCALE as int) * (tail_factor as int),
                SCALE as int,
            );
        }
        let tail: u64 = ((cum as u128) * (tail_factor as u128) / (SCALE as u128)) as u64;
        proof {
            assert(tail as int == survival(*r, start as int, steps as nat) * (last_odds_scaled(*r)
                + steps * SCALE) / SCALE as int);
        }
        exp + tail
    }
}

} // verus!
