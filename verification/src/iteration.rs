//! Arithmetic on iteration numbers and on the storage interval of the series
//! approximation.
//!
//! Iterations count from 1 (the iteration at which `z = c`). The series
//! coefficients are kept only every `interval` iterations: row `r` of the
//! coefficient table holds the coefficients for iteration `r * interval + 1`.
use vstd::prelude::*;
use vstd::arithmetic::div_mod::{
    lemma_div_is_ordered,
    lemma_fundamental_div_mod,
    lemma_fundamental_div_mod_converse,
    lemma_mod_bound,
};

verus! {

/// Below this many iterations the validity checks never back off.
pub const MINIMUM_BACK_OFF: usize = 1000;

/// A perturbed probe is renormalised every this many iterations.
pub const REDUCTION_PERIOD: usize = 250;

/// Row of the coefficient table that serves `iteration`.
pub open spec fn spec_coefficient_index(iteration: int, interval: int) -> int {
    (iteration - 1) / interval
}

/// The first stored iteration at or below `iteration`.
pub open spec fn spec_aligned_iteration(iteration: int, interval: int) -> int {
    interval * ((iteration - 1) / interval) + 1
}

/// Where a failed check at `level` sends the level back to.
pub open spec fn spec_step_back(level: int, interval: int) -> int {
    if level > interval {
        level - interval + 1
    } else {
        1
    }
}

/// `value` lowered by `amount`, but never below 1.
pub open spec fn spec_back_off(value: int, amount: int) -> int {
    if value > amount {
        value - amount
    } else {
        1
    }
}

/// Number of coefficient rows stored by the loop steps `1..=step`.
pub open spec fn storage_steps_through(step: nat, interval: nat) -> nat
    decreases step,
{
    if step == 0 {
        0
    } else {
        storage_steps_through((step - 1) as nat, interval) + if step % interval == 0 {
            1nat
        } else {
            0nat
        }
    }
}

/// Number of rows in the coefficient table after the series has been
/// generated up to `maximum_iteration`: the initial row, plus one for each
/// storage step among the loop steps `1..maximum_iteration`.
pub open spec fn stored_row_count(maximum_iteration: nat, interval: nat) -> nat {
    if maximum_iteration == 0 {
        1
    } else {
        1 + storage_steps_through((maximum_iteration - 1) as nat, interval)
    }
}

/// Index of the coefficient row used to evaluate the approximation at
/// `iteration`.
pub fn coefficient_index(iteration: usize, interval: usize) -> (row: usize)
    requires
        iteration >= 1,
        interval >= 1,
    ensures
        row == spec_coefficient_index(iteration as int, interval as int),
        row * interval <= iteration - 1 < (row + 1) * interval,
{
    proof {
        lemma_coefficient_index_brackets(iteration as int, interval as int);
    }
    (iteration - 1) / interval
}

/// The largest stored iteration (one of `1, interval + 1, 2 * interval + 1, ...`)
/// that is not above `iteration`.
pub fn aligned_iteration(iteration: usize, interval: usize) -> (aligned: usize)
    requires
        iteration >= 1,
        interval >= 1,
    ensures
        aligned == spec_aligned_iteration(iteration as int, interval as int),
        1 <= aligned <= iteration,
        iteration - aligned < interval,
        (aligned - 1) % (interval as int) == 0,
{
    proof {
        lemma_aligned_iteration(iteration as int, interval as int);
    }
    let row = (iteration - 1) / interval;
    proof {
        lemma_fundamental_div_mod((iteration - 1) as int, interval as int);
        lemma_mod_bound((iteration - 1) as int, interval as int);
    }
    interval * row + 1
}

/// Whether the loop step `step` of the series generation stores its
/// coefficients (and whether a probe at level `step` is checked against the
/// stored coefficients).
pub fn is_storage_step(step: usize, interval: usize) -> (stores: bool)
    requires
        interval >= 1,
    ensures
        stores == (step % interval == 0),
{
    step % interval == 0
}

/// Whether a perturbed probe is renormalised at `level`.
pub fn is_reduction_step(level: usize) -> (reduces: bool)
    ensures
        reduces == (level % REDUCTION_PERIOD == 0),
{
    level % REDUCTION_PERIOD == 0
}

/// The level a probe falls back to when the approximation fails its check
/// at `level`: one storage interval back, and never below 1.
pub fn step_back(level: usize, interval: usize) -> (back: usize)
    requires
        interval >= 1,
    ensures
        back == spec_step_back(level as int, interval as int),
        level > interval ==> back + interval == level + 1,
        level <= interval ==> back == 1,
{
    if level > interval {
        level - interval + 1
    } else {
        1
    }
}

/// `value` lowered by `amount`, and 1 where that would not leave at least 1.
pub fn back_off(value: usize, amount: usize) -> (lowered: usize)
    ensures
        lowered == spec_back_off(value as int, amount as int),
        value > amount ==> lowered + amount == value,
        value <= amount ==> lowered == 1,
{
    if value > amount {
        value - amount
    } else {
        1
    }
}

/// How far the first check of a frame backs off from the previous frame's
/// valid iteration: `scaled` (that iteration times the frame multiplier),
/// but at least `MINIMUM_BACK_OFF`.
pub fn frame_test_value(scaled: usize) -> (amount: usize)
    ensures
        amount == if scaled >= MINIMUM_BACK_OFF { scaled } else { MINIMUM_BACK_OFF },
{
    if scaled >= MINIMUM_BACK_OFF {
        scaled
    } else {
        MINIMUM_BACK_OFF
    }
}

/// How far the probe checks back off: `scaled` (the valid iteration times
/// the probe multiplier) and `MINIMUM_BACK_OFF`, each rounded down to a
/// multiple of `interval`, whichever is larger.
pub fn probe_test_value(scaled: usize, interval: usize) -> (amount: usize)
    requires
        interval >= 1,
    ensures
        amount == if (scaled / interval) * interval >= (MINIMUM_BACK_OFF / interval) * interval {
            (scaled / interval) * interval
        } else {
            (MINIMUM_BACK_OFF / interval) * interval
        },
        amount % interval == 0,
        amount <= if scaled >= MINIMUM_BACK_OFF { scaled } else { MINIMUM_BACK_OFF },
{
    let scaled_row = scaled / interval;
    let minimum_row = MINIMUM_BACK_OFF / interval;
    proof {
        lemma_fundamental_div_mod(scaled as int, interval as int);
        lemma_mod_bound(scaled as int, interval as int);
        lemma_fundamental_div_mod(MINIMUM_BACK_OFF as int, interval as int);
        lemma_mod_bound(MINIMUM_BACK_OFF as int, interval as int);
        assert(scaled_row * interval == interval * scaled_row) by (nonlinear_arith);
        assert(minimum_row * interval == interval * minimum_row) by (nonlinear_arith);
        lemma_fundamental_div_mod_converse(
            (scaled_row * interval) as int,
            interval as int,
            scaled_row as int,
            0,
        );
        lemma_fundamental_div_mod_converse(
            (minimum_row * interval) as int,
            interval as int,
            minimum_row as int,
            0,
        );
    }
    let scaled_rounded = scaled_row * interval;
    let minimum_rounded = minimum_row * interval;
    if scaled_rounded >= minimum_rounded {
        scaled_rounded
    } else {
        minimum_rounded
    }
}

/// The row serving `iteration` is the one whose block of `interval`
/// iterations, counted from iteration 1, contains it.
pub proof fn lemma_coefficient_index_brackets(iteration: int, interval: int)
    requires
        iteration >= 1,
        interval >= 1,
    ensures
        spec_coefficient_index(iteration, interval) >= 0,
        spec_coefficient_index(iteration, interval) * interval <= iteration - 1,
        iteration - 1 < (spec_coefficient_index(iteration, interval) + 1) * interval,
{
    let q = (iteration - 1) / interval;
    lemma_fundamental_div_mod(iteration - 1, interval);
    lemma_mod_bound(iteration - 1, interval);
    lemma_div_is_ordered(0, iteration - 1, interval);
    assert(q * interval <= iteration - 1 < (q + 1) * interval) by (nonlinear_arith)
        requires
            iteration - 1 == interval * q + (iteration - 1) % interval,
            0 <= (iteration - 1) % interval < interval,
    ;
}

/// Stepping back from a failure at `level` lands one storage interval
/// below it, plus one (the stored iteration that was last checked), and at 1
/// when there is no full interval below `level`.
pub proof fn lemma_step_back_lands_one_interval_below(level: int, interval: int)
    requires
        interval >= 1,
    ensures
        level > interval ==> spec_step_back(level, interval) + interval == level + 1,
        level <= interval ==> spec_step_back(level, interval) == 1,
        level >= 1 ==> 1 <= spec_step_back(level, interval) <= level,
{
}

/// Backing off `value` by `amount` lowers it by exactly `amount` when that
/// leaves at least 1, and gives 1 otherwise; it never raises a level.
pub proof fn lemma_back_off_lowers_by_amount(value: int, amount: int)
    requires
        amount >= 0,
    ensures
        value > amount ==> spec_back_off(value, amount) + amount == value,
        value <= amount ==> spec_back_off(value, amount) == 1,
        spec_back_off(value, amount) >= 1,
        value >= 1 ==> spec_back_off(value, amount) <= value,
{
}

/// One more loop step adds a row exactly when it is a multiple of the
/// interval, and then the quotient by the interval goes up by one.
proof fn lemma_quotient_step(step: nat, interval: nat)
    requires
        step >= 1,
        interval >= 1,
    ensures
        step as int / interval as int == (step - 1) as int / interval as int + if step % interval
            == 0 {
            1int
        } else {
            0int
        },
{
    let d = interval as int;
    let prev = (step - 1) as int;
    let q = prev / d;
    let r = prev % d;
    lemma_fundamental_div_mod(prev, d);
    lemma_mod_bound(prev, d);
    assert(d * q == q * d) by (nonlinear_arith);
    if r == d - 1 {
        assert(step as int == (q + 1) * d + 0) by (nonlinear_arith)
            requires
                prev == q * d + r,
                r == d - 1,
                step as int == prev + 1,
        ;
        lemma_fundamental_div_mod_converse(step as int, d, q + 1, 0);
    } else {
        assert(step as int == q * d + (r + 1));
        lemma_fundamental_div_mod_converse(step as int, d, q, r + 1);
    }
}

/// The number of rows stored by the loop steps `1..=step` is
/// `step / interval`.
pub proof fn lemma_storage_steps_closed_form(step: nat, interval: nat)
    requires
        interval >= 1,
    ensures
        storage_steps_through(step, interval) == step / interval,
    decreases step,
{
    if step > 0 {
        lemma_storage_steps_closed_form((step - 1) as nat, interval);
        lemma_quotient_step(step, interval);
    }
}

/// Aligning an iteration to the storage interval gives a stored iteration
/// (one above a multiple of the interval) at most `interval - 1` below it,
/// aligning twice changes nothing, and the aligned iteration is served by the
/// same coefficient row.
pub proof fn lemma_aligned_iteration(iteration: int, interval: int)
    requires
        iteration >= 1,
        interval >= 1,
    ensures
        1 <= spec_aligned_iteration(iteration, interval) <= iteration,
        iteration - spec_aligned_iteration(iteration, interval) < interval,
        (spec_aligned_iteration(iteration, interval) - 1) % interval == 0,
        spec_aligned_iteration(spec_aligned_iteration(iteration, interval), interval)
            == spec_aligned_iteration(iteration, interval),
        spec_coefficient_index(spec_aligned_iteration(iteration, interval), interval)
            == spec_coefficient_index(iteration, interval),
{
    let q = (iteration - 1) / interval;
    lemma_fundamental_div_mod(iteration - 1, interval);
    lemma_mod_bound(iteration - 1, interval);
    assert(q >= 0) by {
        lemma_div_is_ordered(0, iteration - 1, interval);
    }
    assert(interval * q == q * interval) by (nonlinear_arith);
    assert(interval * q >= 0) by (nonlinear_arith)
        requires
            q >= 0,
            interval >= 1,
    ;
    lemma_fundamental_div_mod_converse(interval * q, interval, q, 0);
}

/// The row that the series generation stores at loop step `step` (row 0 is
/// the initial row) is the row that evaluation reads for iteration
/// `step + 1`.
pub proof fn lemma_stored_row_serves_next_iteration(step: nat, interval: nat)
    requires
        interval >= 1,
        step >= 1,
        step % interval == 0,
    ensures
        storage_steps_through(step, interval) == spec_coefficient_index(
            (step + 1) as int,
            interval as int,
        ),
{
    lemma_storage_steps_closed_form(step, interval);
}

/// Every iteration from 1 up to the maximum iteration has a row in the
/// coefficient table that the series generation fills.
pub proof fn lemma_every_iteration_has_row(iteration: nat, maximum_iteration: nat, interval: nat)
    requires
        interval >= 1,
        1 <= iteration <= maximum_iteration,
    ensures
        0 <= spec_coefficient_index(iteration as int, interval as int) < stored_row_count(
            maximum_iteration,
            interval,
        ),
{
    lemma_storage_steps_closed_form((maximum_iteration - 1) as nat, interval);
    lemma_div_is_ordered(0, iteration - 1, interval as int);
    lemma_div_is_ordered(iteration - 1, maximum_iteration - 1, interval as int);
}

} // verus!
