//! The square grid of probe levels and the cells between the probes.
//!
//! Probes are stored in row-first order: the probe in row `j` and column `i`
//! of an `n` by `n` grid has index `j * n + i`. Each cell between four
//! neighbouring probes gets the smallest of their levels.
use vstd::prelude::*;
use vstd::arithmetic::div_mod::{
    lemma_fundamental_div_mod_converse,
};

verus! {

/// The smaller of two levels.
pub open spec fn spec_min(a: int, b: int) -> int {
    if a <= b {
        a
    } else {
        b
    }
}

/// The smallest level among the four probes at the corners of the cell in
/// row `j` and column `i` of a grid with `n` probes per side.
pub open spec fn corner_minimum(levels: Seq<usize>, n: int, j: int, i: int) -> int {
    let index = j * n + i;
    spec_min(
        spec_min(levels[index] as int, levels[index + 1] as int),
        spec_min(levels[index + n] as int, levels[index + n + 1] as int),
    )
}

/// `value` is one of the levels and no level is below it.
pub open spec fn is_minimum_of(value: int, levels: Seq<usize>) -> bool {
    &&& exists|k: int| 0 <= k < levels.len() && levels[k] == value
    &&& forall|k: int| 0 <= k < levels.len() ==> value <= levels[k]
}

/// `value` is one of the levels and no level is above it.
pub open spec fn is_maximum_of(value: int, levels: Seq<usize>) -> bool {
    &&& exists|k: int| 0 <= k < levels.len() && levels[k] == value
    &&& forall|k: int| 0 <= k < levels.len() ==> levels[k] <= value
}

/// The value of a cell is one of its four corner levels, and no corner is
/// below it.
pub proof fn lemma_corner_minimum_is_smallest_corner(levels: Seq<usize>, n: int, j: int, i: int)
    ensures
        ({
            let index = j * n + i;
            let cell = corner_minimum(levels, n, j, i);
            &&& cell <= levels[index]
            &&& cell <= levels[index + 1]
            &&& cell <= levels[index + n]
            &&& cell <= levels[index + n + 1]
            &&& (cell == levels[index] || cell == levels[index + 1] || cell == levels[index + n]
                || cell == levels[index + n + 1])
        }),
{
}

/// The smallest of the levels.
pub fn minimum_level(levels: &Vec<usize>) -> (smallest: usize)
    requires
        levels.len() >= 1,
    ensures
        is_minimum_of(smallest as int, levels@),
{
    let mut smallest = levels[0];
    let mut witness: usize = 0;
    let mut k: usize = 1;
    while k < levels.len()
        invariant
            1 <= k <= levels.len(),
            witness < k,
            levels@[witness as int] == smallest,
            forall|m: int| 0 <= m < k ==> smallest <= levels@[m],
        decreases levels.len() - k,
    {
        if levels[k] < smallest {
            smallest = levels[k];
            witness = k;
        }
        k = k + 1;
    }
    assert(levels@[witness as int] == smallest);
    smallest
}

/// The largest of the levels.
pub fn maximum_level(levels: &Vec<usize>) -> (largest: usize)
    requires
        levels.len() >= 1,
    ensures
        is_maximum_of(largest as int, levels@),
{
    let mut largest = levels[0];
    let mut witness: usize = 0;
    let mut k: usize = 1;
    while k < levels.len()
        invariant
            1 <= k <= levels.len(),
            witness < k,
            levels@[witness as int] == largest,
            forall|m: int| 0 <= m < k ==> levels@[m] <= largest,
        decreases levels.len() - k,
    {
        if levels[k] > largest {
            largest = levels[k];
            witness = k;
        }
        k = k + 1;
    }
    assert(levels@[witness as int] == largest);
    largest
}

/// `count` copies of `value`.
pub fn uniform_levels(value: usize, count: usize) -> (levels: Vec<usize>)
    ensures
        levels.len() == count,
        forall|k: int| 0 <= k < count ==> levels@[k] == value,
{
    let mut levels: Vec<usize> = Vec::new();
    let mut k: usize = 0;
    while k < count
        invariant
            k <= count,
            levels.len() == k,
            forall|m: int| 0 <= m < k ==> levels@[m] == value,
        decreases count - k,
    {
        levels.push(value);
        k = k + 1;
    }
    levels
}

proof fn lemma_cell_indices(n: int, j: int, i: int)
    requires
        n >= 2,
        0 <= j < n - 1,
        0 <= i < n - 1,
    ensures
        0 <= j * n + i,
        j * n + i + n + 1 <= n * n - 1,
        0 <= j * (n - 1) + i < (n - 1) * (n - 1),
        (j + 1) * (n - 1) == j * (n - 1) + (n - 1),
{
    assert(0 <= j * n) by (nonlinear_arith)
        requires
            0 <= j,
            n >= 2,
    ;
    assert(j * n <= (n - 2) * n) by (nonlinear_arith)
        requires
            j <= n - 2,
            n >= 2,
    ;
    assert((n - 2) * n + (n - 2) + n + 1 == n * n - 1) by (nonlinear_arith);
    assert(0 <= j * (n - 1)) by (nonlinear_arith)
        requires
            0 <= j,
            n >= 2,
    ;
    assert(j * (n - 1) <= (n - 2) * (n - 1)) by (nonlinear_arith)
        requires
            j <= n - 2,
            n >= 2,
    ;
    assert((n - 2) * (n - 1) + (n - 1) == (n - 1) * (n - 1)) by (nonlinear_arith);
    assert((j + 1) * (n - 1) == j * (n - 1) + (n - 1)) by (nonlinear_arith);
}

/// For each cell between four neighbouring probes, in row-first order, the
/// smallest of the four probe levels.
pub fn interpolate_levels(levels: &Vec<usize>, probe_sampling: usize) -> (cells: Vec<usize>)
    requires
        probe_sampling >= 1,
        levels.len() >= probe_sampling * probe_sampling,
    ensures
        cells.len() == (probe_sampling - 1) * (probe_sampling - 1),
        forall|j: int, i: int|
            0 <= j < probe_sampling - 1 && 0 <= i < probe_sampling - 1 ==> cells@[j * (
            probe_sampling - 1) + i] == corner_minimum(levels@, probe_sampling as int, j, i),
{
    let n = probe_sampling;
    let side = n - 1;
    let mut cells: Vec<usize> = Vec::new();
    let mut j: usize = 0;
    if side == 0 {
        assert((probe_sampling - 1) * (probe_sampling - 1) == 0) by (nonlinear_arith)
            requires
                probe_sampling == 1,
        ;
        return cells;
    }
    while j < side
        invariant
            n == probe_sampling,
            side == n - 1,
            n >= 2,
            levels.len() >= n * n,
            j <= side,
            cells.len() == j * side,
            forall|k: int|
                0 <= k < cells.len() ==> cells@[k] == corner_minimum(
                    levels@,
                    n as int,
                    k / side as int,
                    k % side as int,
                ),
        decreases side - j,
    {
        let mut i: usize = 0;
        while i < side
            invariant
                n == probe_sampling,
                side == n - 1,
                n >= 2,
                levels.len() >= n * n,
                j < side,
                i <= side,
                cells.len() == j * side + i,
                forall|k: int|
                    0 <= k < cells.len() ==> cells@[k] == corner_minimum(
                        levels@,
                        n as int,
                        k / side as int,
                        k % side as int,
                    ),
            decreases side - i,
        {
            proof {
                lemma_cell_indices(n as int, j as int, i as int);
            }
            let index = j * n + i;
            let top = if levels[index] <= levels[index + 1] {
                levels[index]
            } else {
                levels[index + 1]
            };
            let bottom = if levels[index + n] <= levels[index + n + 1] {
                levels[index + n]
            } else {
                levels[index + n + 1]
            };
            let smallest = if top <= bottom {
                top
            } else {
                bottom
            };
            let ghost position = cells.len() as int;
            proof {
                lemma_fundamental_div_mod_converse(position, side as int, j as int, i as int);
            }
            cells.push(smallest);
            i = i + 1;
        }
        proof {
            lemma_cell_indices(n as int, j as int, 0);
        }
        j = j + 1;
    }
    assert forall|jj: int, ii: int|
        0 <= jj < probe_sampling - 1 && 0 <= ii < probe_sampling - 1 implies cells@[jj * (
        probe_sampling - 1) + ii] == corner_minimum(levels@, probe_sampling as int, jj, ii) by {
        lemma_cell_indices(n as int, jj, ii);
        lemma_fundamental_div_mod_converse(jj * side + ii, side as int, jj, ii);
    }
    cells
}

} // verus!
