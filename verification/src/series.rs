//! The decisions of the series approximation's validity check.
//!
//! The check steps perturbed probes forward iteration by iteration and, at
//! every stored iteration, compares them with the approximation. The floating
//! point work (stepping a probe, measuring the error) is done by the caller;
//! this module decides, from the outcome of each comparison, where each probe
//! goes next, when the check is done, and which iterations the approximation
//! may skip afterwards.
use vstd::prelude::*;
use crate::iteration::{
    aligned_iteration,
    back_off,
    lemma_aligned_iteration,
    spec_aligned_iteration,
    spec_back_off,
    spec_step_back,
    step_back,
};
use crate::grid::{
    corner_minimum,
    interpolate_levels,
    is_maximum_of,
    is_minimum_of,
    maximum_level,
    minimum_level,
    uniform_levels,
};

verus! {

/// What a probe's scan does after one level.
#[derive(Debug, Clone, Copy, PartialEq, Eq)]
pub enum ScanStep {
    /// The scan goes on at this level.
    Advance(usize),
    /// The approximation failed its check: the probe's level becomes this,
    /// and the scan ends.
    Settle(usize),
}

/// What the first scan of a frame does after `level`.
pub open spec fn spec_frame_scan_step(level: int, interval: int, exceeded: bool) -> ScanStep {
    if level % interval == 0 && exceeded {
        ScanStep::Settle(spec_step_back(level, interval) as usize)
    } else {
        ScanStep::Advance((level + 1) as usize)
    }
}

/// The first scan of a frame, on the top-left probe, after the probe has
/// been stepped at `level`. `exceeded` tells whether the approximation's error
/// went over the pixel spacing; it is looked at only at stored iterations
/// (`level` a multiple of `interval`). On a failure the level goes back one
/// storage interval.
pub fn frame_scan_step(level: usize, interval: usize, exceeded: bool) -> (step: ScanStep)
    requires
        interval >= 1,
        level < usize::MAX,
    ensures
        step == spec_frame_scan_step(level as int, interval as int, exceeded),
        !(level % interval == 0 && exceeded) ==> step == ScanStep::Advance((level + 1) as usize),
        level % interval == 0 && exceeded && level > interval ==> step == ScanStep::Settle(
            (level - interval + 1) as usize,
        ),
        level % interval == 0 && exceeded && level <= interval ==> step == ScanStep::Settle(1),
{
    if level % interval == 0 && exceeded {
        ScanStep::Settle(step_back(level, interval))
    } else {
        ScanStep::Advance(level + 1)
    }
}

/// The state of the probe check between rounds: the probes at
/// `current_check` are scanned in this round; a probe that fails close to
/// where it started drops to `next_check`.
pub struct ProbeRefinement {
    pub current_check: usize,
    pub next_check: usize,
    pub interval: usize,
    pub maximum_iteration: usize,
}

impl ProbeRefinement {
    /// The check values are levels (at least 1), and the next one is not
    /// above the current one.
    pub open spec fn wf(&self) -> bool {
        &&& self.interval >= 1
        &&& 1 <= self.next_check <= self.current_check
    }

    /// Each round moves the check values down, or has reached 1.
    pub open spec fn descending(&self) -> bool {
        self.next_check < self.current_check || self.next_check == 1
    }

    /// What a probe's scan does after `level`.
    pub open spec fn spec_scan_step(&self, level: int, exceeded: bool) -> ScanStep {
        if level % self.interval as int == 0 && exceeded {
            if level <= self.current_check + self.interval + 1 {
                ScanStep::Settle(self.next_check)
            } else {
                ScanStep::Settle(spec_step_back(level, self.interval as int) as usize)
            }
        } else {
            ScanStep::Advance((level + 1) as usize)
        }
    }

    /// A probe's level once its scan ended at `level`.
    pub open spec fn spec_finish_scan(&self, level: int) -> int {
        if level == self.maximum_iteration {
            spec_aligned_iteration(level, self.interval as int)
        } else {
            level
        }
    }

    /// Starts the probe check below `min_valid_iteration` (the iteration
    /// found by the first scan): the current check backs off from it by
    /// `test_value`, and the next check backs off by `test_value` again.
    pub fn new(
        min_valid_iteration: usize,
        test_value: usize,
        interval: usize,
        maximum_iteration: usize,
    ) -> (refinement: Self)
        requires
            interval >= 1,
        ensures
            refinement.wf(),
            refinement.current_check == spec_back_off(
                min_valid_iteration as int,
                test_value as int,
            ),
            refinement.next_check == spec_back_off(
                refinement.current_check as int,
                test_value as int,
            ),
            refinement.interval == interval,
            refinement.maximum_iteration == maximum_iteration,
            test_value >= 1 ==> refinement.descending(),
    {
        let current_check = back_off(min_valid_iteration, test_value);
        let next_check = back_off(current_check, test_value);
        ProbeRefinement { current_check, next_check, interval, maximum_iteration }
    }

    /// The levels of `probe_count` probes before the first round: all at the
    /// current check.
    pub fn initial_levels(&self, probe_count: usize) -> (levels: Vec<usize>)
        ensures
            levels.len() == probe_count,
            forall|k: int| 0 <= k < probe_count ==> levels@[k] == self.current_check,
    {
        uniform_levels(self.current_check, probe_count)
    }

    /// Whether a probe at `level` is scanned in this round: only the probes
    /// still at the current check are.
    pub fn needs_scan(&self, level: usize) -> (scan: bool)
        ensures
            scan == (level == self.current_check),
    {
        level == self.current_check
    }

    /// Whether a probe's scan goes on at `level`: it stops at the maximum
    /// iteration.
    pub fn scan_continues(&self, level: usize) -> (continues: bool)
        ensures
            continues == (level < self.maximum_iteration),
    {
        level < self.maximum_iteration
    }

    /// A probe's scan after the probe has been stepped at `level`.
    /// `exceeded` tells whether the error went over the pixel spacing (or the
    /// error's exponent is positive); it is looked at only at stored
    /// iterations. A probe that fails no more than one interval past the
    /// current check drops to the next check; one that fails later goes back
    /// one storage interval.
    pub fn scan_step(&self, level: usize, exceeded: bool) -> (step: ScanStep)
        requires
            self.wf(),
            level < usize::MAX,
            self.current_check + self.interval + 1 <= usize::MAX,
        ensures
            step == self.spec_scan_step(level as int, exceeded),
            !(level % self.interval == 0 && exceeded) ==> step == ScanStep::Advance(
                (level + 1) as usize,
            ),
            level % self.interval == 0 && exceeded && level <= self.current_check + self.interval
                + 1 ==> step == ScanStep::Settle(self.next_check),
            level % self.interval == 0 && exceeded && level > self.current_check + self.interval
                + 1 ==> step == ScanStep::Settle((level - self.interval + 1) as usize),
    {
        if level % self.interval == 0 && exceeded {
            if level <= self.current_check + self.interval + 1 {
                ScanStep::Settle(self.next_check)
            } else {
                ScanStep::Settle(step_back(level, self.interval))
            }
        } else {
            ScanStep::Advance(level + 1)
        }
    }

    /// A probe's level once its scan is over: a probe that reached the
    /// maximum iteration is put back to the stored iteration below it.
    pub fn finish_scan(&self, level: usize) -> (finished: usize)
        requires
            self.wf(),
            level >= 1,
        ensures
            finished == self.spec_finish_scan(level as int),
            level != self.maximum_iteration ==> finished == level,
            level == self.maximum_iteration ==> {
                &&& 1 <= finished <= level
                &&& level - finished < self.interval
                &&& (finished - 1) % (self.interval as int) == 0
            },
    {
        proof {
            lemma_aligned_iteration(level as int, self.interval as int);
        }
        if level == self.maximum_iteration {
            aligned_iteration(level, self.interval)
        } else {
            level
        }
    }

    /// Whether the check is over after a round whose smallest probe level is
    /// `minimum`: it goes on only while the worst probe dropped to the next
    /// check and that check is above 1.
    pub fn round_settled(&self, minimum: usize) -> (settled: bool)
        ensures
            settled == (minimum != self.next_check || minimum == 1),
    {
        minimum != self.next_check || minimum == 1
    }

    /// Moves to the next round: the next check becomes the current one, and
    /// the new next check backs off from it by `test_value`.
    pub fn advance(&mut self, test_value: usize)
        requires
            old(self).wf(),
        ensures
            final(self).wf(),
            final(self).current_check == old(self).next_check,
            final(self).next_check == spec_back_off(
                old(self).next_check as int,
                test_value as int,
            ),
            final(self).interval == old(self).interval,
            final(self).maximum_iteration == old(self).maximum_iteration,
            test_value >= 1 ==> final(self).descending(),
    {
        self.current_check = self.next_check;
        self.next_check = back_off(self.current_check, test_value);
    }
}

/// The rounds of the probe check end: while a round is not settled, the
/// current check goes strictly down, as long as every back-off was by at
/// least one iteration.
pub proof fn lemma_unsettled_round_descends(
    refinement: ProbeRefinement,
    minimum: usize,
    test_value: usize,
)
    requires
        refinement.wf(),
        refinement.descending(),
        !(minimum != refinement.next_check || minimum == 1),
    ensures
        refinement.next_check < refinement.current_check,
        test_value >= 1 ==> spec_back_off(refinement.next_check as int, test_value as int)
            < refinement.next_check,
{
}

/// The first scan stops only where the approximation failed at a stored
/// iteration, and then one storage interval back (plus one), or at 1 when
/// there is no full interval below; at any other level, and whenever the
/// check passed, it goes on at the next level.
pub proof fn lemma_frame_scan_settles_only_on_failure(level: int, interval: int, exceeded: bool)
    requires
        interval >= 1,
        0 <= level < usize::MAX,
    ensures
        !(level % interval == 0 && exceeded) ==> (spec_frame_scan_step(level, interval, exceeded)
            matches ScanStep::Advance(next) && next == level + 1),
        !exceeded ==> (spec_frame_scan_step(level, interval, exceeded) matches ScanStep::Advance(
            next,
        ) && next == level + 1),
        level % interval == 0 && exceeded && level > interval ==> (spec_frame_scan_step(
            level,
            interval,
            exceeded,
        ) matches ScanStep::Settle(back) && back + interval == level + 1),
        level % interval == 0 && exceeded && level <= interval ==> (spec_frame_scan_step(
            level,
            interval,
            exceeded,
        ) matches ScanStep::Settle(back) && back == 1),
{
}

/// A probe's scan stops only where the approximation failed at a stored
/// iteration. A failure no more than one interval (plus one) above the
/// current check drops the probe to the next check; a later failure puts it
/// one storage interval below the failing level, plus one. At any other
/// level, and whenever the check passed, the scan goes on at the next level.
pub proof fn lemma_probe_scan_settles_only_on_failure(
    refinement: ProbeRefinement,
    level: int,
    exceeded: bool,
)
    requires
        refinement.wf(),
        0 <= level < usize::MAX,
    ensures
        !(level % refinement.interval as int == 0 && exceeded) ==> (refinement.spec_scan_step(
            level,
            exceeded,
        ) matches ScanStep::Advance(next) && next == level + 1),
        level % refinement.interval as int == 0 && exceeded && level
            <= refinement.current_check + refinement.interval + 1 ==> (refinement.spec_scan_step(
            level,
            exceeded,
        ) matches ScanStep::Settle(settled) && settled == refinement.next_check),
        level % refinement.interval as int == 0 && exceeded && level
            > refinement.current_check + refinement.interval + 1 ==> (refinement.spec_scan_step(
            level,
            exceeded,
        ) matches ScanStep::Settle(settled) && settled + refinement.interval == level + 1),
{
}

/// A scanned probe never settles above the level at which it failed, nor
/// below 1; a probe that does not fail moves up by exactly one, and so never
/// past the maximum iteration.
pub proof fn lemma_scan_stays_in_range(refinement: ProbeRefinement, level: int, exceeded: bool)
    requires
        refinement.wf(),
        refinement.current_check <= level < refinement.maximum_iteration,
    ensures
        match refinement.spec_scan_step(level, exceeded) {
            ScanStep::Settle(settled) => 1 <= settled <= level,
            ScanStep::Advance(next) => next == level + 1 && next <= refinement.maximum_iteration,
        },
{
}

/// A finished scan leaves the probe at a level from 1 up to where its scan
/// ended, and a probe that ran to the maximum iteration ends at a stored
/// iteration.
pub proof fn lemma_finished_level_in_range(refinement: ProbeRefinement, level: int)
    requires
        refinement.wf(),
        1 <= level <= refinement.maximum_iteration,
    ensures
        1 <= refinement.spec_finish_scan(level) <= level,
        level != refinement.maximum_iteration ==> refinement.spec_finish_scan(level) == level,
        level == refinement.maximum_iteration ==> level - refinement.spec_finish_scan(level)
            < refinement.interval,
        level == refinement.maximum_iteration ==> (refinement.spec_finish_scan(level) - 1)
            % refinement.interval as int == 0,
{
    lemma_aligned_iteration(level, refinement.interval as int);
}

/// The validity of the approximation over a frame: below
/// `min_valid_iteration` every pixel may skip its iterations, and each cell
/// between four probes may skip up to its entry in `valid_interpolation`.
pub struct IterationBounds {
    pub min_valid_iteration: usize,
    pub max_valid_iteration: usize,
    pub valid_iterations: Vec<usize>,
    pub valid_interpolation: Vec<usize>,
}

impl IterationBounds {
    /// The bounds before any check: iteration 1 (where `z = c`) is valid
    /// everywhere, and no probe has been checked.
    pub fn new() -> (bounds: Self)
        ensures
            bounds.min_valid_iteration == 1,
            bounds.max_valid_iteration == 1,
            bounds.valid_iterations@.len() == 0,
            bounds.valid_interpolation@.len() == 0,
    {
        IterationBounds {
            min_valid_iteration: 1,
            max_valid_iteration: 1,
            valid_iterations: Vec::new(),
            valid_interpolation: Vec::new(),
        }
    }

    /// Records the probe levels at the end of the check, for a grid of
    /// `probe_sampling` probes per side. The valid iteration of the frame is
    /// the smallest probe level. In `experimental` mode each cell keeps the
    /// smallest level of its four probes and the largest of these is the
    /// largest valid iteration; otherwise every cell gets the frame's valid
    /// iteration, which is also the largest.
    pub fn record_probe_levels(&mut self, levels: Vec<usize>, probe_sampling: usize, experimental: bool)
        requires
            probe_sampling >= 1,
            experimental ==> probe_sampling >= 2,
            levels.len() == probe_sampling * probe_sampling,
        ensures
            is_minimum_of(final(self).min_valid_iteration as int, levels@),
            final(self).valid_iterations@ == levels@,
            final(self).valid_interpolation@.len() == (probe_sampling - 1) * (probe_sampling - 1),
            experimental ==> forall|j: int, i: int|
                0 <= j < probe_sampling - 1 && 0 <= i < probe_sampling - 1
                    ==> final(self).valid_interpolation@[j * (probe_sampling - 1) + i]
                    == corner_minimum(levels@, probe_sampling as int, j, i),
            experimental ==> is_maximum_of(
                final(self).max_valid_iteration as int,
                final(self).valid_interpolation@,
            ),
            !experimental ==> final(self).max_valid_iteration == final(self).min_valid_iteration,
            !experimental ==> forall|k: int|
                0 <= k < final(self).valid_interpolation@.len()
                    ==> final(self).valid_interpolation@[k] == final(self).min_valid_iteration,
    {
        assert(probe_sampling * probe_sampling >= 1) by (nonlinear_arith)
            requires
                probe_sampling >= 1,
        ;
        let minimum = minimum_level(&levels);
        let cells = interpolate_levels(&levels, probe_sampling);
        self.min_valid_iteration = minimum;
        if experimental {
            assert((probe_sampling - 1) * (probe_sampling - 1) >= 1) by (nonlinear_arith)
                requires
                    probe_sampling >= 2,
            ;
            self.max_valid_iteration = maximum_level(&cells);
            self.valid_interpolation = cells;
        } else {
            self.max_valid_iteration = minimum;
            let count = cells.len();
            self.valid_interpolation = uniform_levels(minimum, count);
        }
        self.valid_iterations = levels;
    }
}

/// No cell of the frame is valid for fewer iterations than the frame as a
/// whole: every interpolated entry is at least the smallest probe level, and
/// so, in experimental mode, the largest valid iteration is at least the
/// smallest.
pub proof fn lemma_cells_not_below_frame(
    levels: Seq<usize>,
    probe_sampling: int,
    min_valid_iteration: int,
    j: int,
    i: int,
)
    requires
        probe_sampling >= 2,
        levels.len() == probe_sampling * probe_sampling,
        is_minimum_of(min_valid_iteration, levels),
        0 <= j < probe_sampling - 1,
        0 <= i < probe_sampling - 1,
    ensures
        min_valid_iteration <= corner_minimum(levels, probe_sampling, j, i),
{
    let n = probe_sampling;
    assert(0 <= j * n) by (nonlinear_arith)
        requires
            0 <= j,
            n >= 2,
    ;
    assert(j * n + i + n + 1 <= n * n - 1) by (nonlinear_arith)
        requires
            0 <= j <= n - 2,
            0 <= i <= n - 2,
    ;
    let index = j * n + i;
    assert(min_valid_iteration <= levels[index]);
    assert(min_valid_iteration <= levels[index + 1]);
    assert(min_valid_iteration <= levels[index + n]);
    assert(min_valid_iteration <= levels[index + n + 1]);
}

/// In experimental mode the largest valid iteration of the frame is never
/// below its smallest.
pub proof fn lemma_max_valid_not_below_min_valid(bounds: IterationBounds, probe_sampling: int)
    requires
        probe_sampling >= 2,
        bounds.valid_iterations@.len() == probe_sampling * probe_sampling,
        is_minimum_of(bounds.min_valid_iteration as int, bounds.valid_iterations@),
        bounds.valid_interpolation@.len() == (probe_sampling - 1) * (probe_sampling - 1),
        forall|j: int, i: int|
            0 <= j < probe_sampling - 1 && 0 <= i < probe_sampling - 1
                ==> bounds.valid_interpolation@[j * (probe_sampling - 1) + i] == corner_minimum(
                bounds.valid_iterations@,
                probe_sampling,
                j,
                i,
            ),
        is_maximum_of(bounds.max_valid_iteration as int, bounds.valid_interpolation@),
    ensures
        bounds.min_valid_iteration <= bounds.max_valid_iteration,
{
    let side = probe_sampling - 1;
    assert(bounds.valid_interpolation@.len() >= 1) by (nonlinear_arith)
        requires
            bounds.valid_interpolation@.len() == side * side,
            side >= 1,
    ;
    lemma_cells_not_below_frame(
        bounds.valid_iterations@,
        probe_sampling,
        bounds.min_valid_iteration as int,
        0,
        0,
    );
    assert(bounds.valid_interpolation@[0 * side + 0] == corner_minimum(
        bounds.valid_iterations@,
        probe_sampling,
        0,
        0,
    ));
}

} // verus!
