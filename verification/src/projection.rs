//! The bin plan that folds an embedding of any width into the 64-dimensional
//! forge: bin `i` averages the contiguous components `[start, end)`, and the
//! 64 averages are then L2-normalised.

use vstd::prelude::*;

use crate::LATENT_DIM_64;
use vstd::arithmetic::div_mod::{
    lemma_div_is_ordered, lemma_div_multiples_vanish, lemma_div_plus_one,
    lemma_fundamental_div_mod, lemma_fundamental_div_mod_converse_div,
};

verus! {

/// First component of bin `i` when `n` components are folded into the forge.
pub open spec fn bin_start(n: int, i: int) -> int {
    i * n / (LATENT_DIM_64 as int)
}

/// End (exclusive) of bin `i`: the next bin's start, widened to hold at least
/// one component and clipped to the input.
pub open spec fn bin_end(n: int, i: int) -> int {
    let next = (i + 1) * n / (LATENT_DIM_64 as int);
    let wide = if next > bin_start(n, i) + 1 { next } else { bin_start(n, i) + 1 };
    if wide < n { wide } else { n }
}

/// What folding `n` components into the forge does.
pub enum ProjectionPlan {
    /// An empty embedding becomes the zero vector of the forge.
    Zeros,
    /// An embedding already of forge width is only normalised.
    Normalize,
    /// Otherwise the forge component `i` is the mean of the input components
    /// `bins[i].0 .. bins[i].1`, and the result is normalised.
    Bins(Vec<(usize, usize)>),
}

/// The bin `i` of an input of `n` components, as `(start, end)`.
pub fn bin_range(n: usize, i: usize) -> (r: (usize, usize))
    requires
        0 < n,
        i < LATENT_DIM_64,
        n <= usize::MAX / LATENT_DIM_64,
    ensures
        r.0 == bin_start(n as int, i as int),
        r.1 == bin_end(n as int, i as int),
        r.0 < r.1 <= n,
{
    assert(i * n <= 63 * n && (i + 1) * n <= 64 * n) by (nonlinear_arith)
        requires
            i < 64,
    ;
    assert(i * n / 64 < n) by (nonlinear_arith)
        requires
            i < 64,
            0 < n,
    ;
    let start = i * n / LATENT_DIM_64;
    let next = (i + 1) * n / LATENT_DIM_64;
    let wide = if next > start + 1 { next } else { start + 1 };
    let end = if wide < n { wide } else { n };
    (start, end)
}

/// How `n` components are folded into the forge: nothing to average for an
/// empty input, only normalisation at forge width, and the 64 bins otherwise.
pub fn projection_plan(n: usize) -> (plan: ProjectionPlan)
    requires
        n <= usize::MAX / LATENT_DIM_64,
    ensures
        plan is Zeros <==> n == 0,
        plan is Normalize <==> n == LATENT_DIM_64,
        plan matches ProjectionPlan::Bins(bins) ==> {
            &&& bins@.len() == LATENT_DIM_64
            &&& forall|i: int|
                0 <= i < LATENT_DIM_64 ==> #[trigger] bins@[i] == (
                    bin_start(n as int, i) as usize,
                    bin_end(n as int, i) as usize,
                )
        },
{
    if n == 0 {
        return ProjectionPlan::Zeros;
    }
    if n == LATENT_DIM_64 {
        return ProjectionPlan::Normalize;
    }
    let mut bins: Vec<(usize, usize)> = Vec::new();
    let mut i: usize = 0;
    while i < LATENT_DIM_64
        invariant
            0 < n <= usize::MAX / LATENT_DIM_64,
            i <= LATENT_DIM_64,
            bins@.len() == i,
            forall|k: int|
                0 <= k < i ==> #[trigger] bins@[k] == (
                    bin_start(n as int, k) as usize,
                    bin_end(n as int, k) as usize,
                ),
        decreases LATENT_DIM_64 - i,
    {
        let r = bin_range(n, i);
        bins.push(r);
        i += 1;
    }
    ProjectionPlan::Bins(bins)
}

/// For an input at least as wide as the forge, the bin after the start of bin
/// `i` begins at least one component later and no later than the input's end.
proof fn lemma_next_start_bounds(n: int, i: int)
    requires
        LATENT_DIM_64 <= n,
        0 <= i < LATENT_DIM_64,
    ensures
        bin_start(n, i) + 1 <= (i + 1) * n / 64 <= n,
{
    let a = i * n;
    assert((i + 1) * n == a + n) by (nonlinear_arith)
        requires
            a == i * n,
    ;
    assert((i + 1) * n <= 64 * n) by (nonlinear_arith)
        requires
            i < 64,
            0 <= n,
    ;
    lemma_div_is_ordered(64 + a, a + n, 64);
    lemma_div_plus_one(a, 64);
    lemma_div_is_ordered((i + 1) * n, 64 * n, 64);
    lemma_div_multiples_vanish(n, 64);
}

/// For an input at least as wide as the forge, bin `i` ends exactly where
/// bin `i + 1` starts.
proof fn lemma_bin_end_is_next_start(n: int, i: int)
    requires
        LATENT_DIM_64 <= n,
        0 <= i < LATENT_DIM_64,
    ensures
        bin_end(n, i) == (i + 1) * n / 64,
{
    lemma_next_start_bounds(n, i);
}

/// Law: an input of at least 64 components is cut into 64 bins that tile it.
/// The first bin starts at component 0, the last one ends at the input's end,
/// and every bin ends exactly where the next one starts, so each component
/// belongs to exactly one bin.
pub proof fn lemma_bins_tile_input(n: int)
    requires
        LATENT_DIM_64 <= n,
    ensures
        bin_start(n, 0) == 0,
        bin_end(n, LATENT_DIM_64 - 1) == n,
        forall|i: int|
            0 <= i < LATENT_DIM_64 - 1 ==> #[trigger] bin_end(n, i) == bin_start(n, i + 1),
{
    assert(0 * n == 0) by (nonlinear_arith);
    lemma_bin_end_is_next_start(n, 63);
    assert(64 * n / 64 == n) by {
        lemma_div_multiples_vanish(n, 64);
    }
    assert forall|i: int| 0 <= i < LATENT_DIM_64 - 1 implies #[trigger] bin_end(n, i)
        == bin_start(n, i + 1) by {
        lemma_bin_end_is_next_start(n, i);
    }
}

/// Law: an input of at least 64 components is cut into bins of nearly equal
/// width; each bin holds `n / 64` or `n / 64 + 1` components.
pub proof fn lemma_bins_balanced(n: int, i: int)
    requires
        LATENT_DIM_64 <= n,
        0 <= i < LATENT_DIM_64,
    ensures
        n / 64 <= bin_end(n, i) - bin_start(n, i) <= n / 64 + 1,
{
    lemma_bin_end_is_next_start(n, i);
    let a = i * n;
    assert((i + 1) * n == a + n) by (nonlinear_arith)
        requires
            a == i * n,
    ;
    lemma_fundamental_div_mod(a, 64);
    lemma_fundamental_div_mod(n, 64);
    let qa = a / 64;
    let ra = a % 64;
    let qn = n / 64;
    let rn = n % 64;
    assert(0 <= ra < 64 && 0 <= rn < 64);
    if ra + rn < 64 {
        assert(a + n == (qa + qn) * 64 + (ra + rn)) by (nonlinear_arith)
            requires
                a == 64 * qa + ra,
                n == 64 * qn + rn,
        ;
        lemma_fundamental_div_mod_converse_div(a + n, 64, qa + qn, ra + rn);
    } else {
        assert(a + n == (qa + qn + 1) * 64 + (ra + rn - 64)) by (nonlinear_arith)
            requires
                a == 64 * qa + ra,
                n == 64 * qn + rn,
        ;
        lemma_fundamental_div_mod_converse_div(a + n, 64, qa + qn + 1, ra + rn - 64);
    }
}

/// Law: when the input width is a multiple of 64 (such as a 4096-wide Qwen
/// embedding), every bin holds exactly `n / 64` components: bin `i` is
/// `[i * (n / 64), (i + 1) * (n / 64))`.
pub proof fn lemma_bins_even_when_divisible(n: int, i: int)
    requires
        LATENT_DIM_64 <= n,
        n % 64 == 0,
        0 <= i < LATENT_DIM_64,
    ensures
        bin_start(n, i) == i * (n / 64),
        bin_end(n, i) == (i + 1) * (n / 64),
{
    lemma_bin_end_is_next_start(n, i);
    lemma_fundamental_div_mod(n, 64);
    let q = n / 64;
    assert(i * n == (i * q) * 64 + 0 && (i + 1) * n == ((i + 1) * q) * 64 + 0) by (nonlinear_arith)
        requires
            n == 64 * q,
    ;
    lemma_fundamental_div_mod_converse_div(i * n, 64, i * q, 0);
    lemma_fundamental_div_mod_converse_div((i + 1) * n, 64, (i + 1) * q, 0);
}

/// Law: an input narrower than the forge (but not empty) gives every bin
/// exactly one component, the one at `i * n / 64`; successive bins take the
/// same or the next component, so short inputs are spread, not cut.
pub proof fn lemma_short_input_bins_are_single(n: int, i: int)
    requires
        0 < n < LATENT_DIM_64,
        0 <= i < LATENT_DIM_64,
    ensures
        bin_start(n, i) == i * n / 64,
        bin_end(n, i) == bin_start(n, i) + 1,
        bin_end(n, i) <= n,
        i + 1 < LATENT_DIM_64 ==> bin_start(n, i) <= bin_start(n, i + 1) <= bin_start(n, i) + 1,
{
    let a = i * n;
    assert((i + 1) * n == a + n) by (nonlinear_arith)
        requires
            a == i * n,
    ;
    assert(i * n < 64 * n) by (nonlinear_arith)
        requires
            i < 64,
            0 < n,
    ;
    lemma_fundamental_div_mod(a, 64);
    let q = a / 64;
    let r = a % 64;
    assert(0 <= r < 64);
    // (a + n) / 64 is q or q + 1, since 0 <= r + n < 128.
    if r + n < 64 {
        assert(a + n == q * 64 + (r + n)) by (nonlinear_arith)
            requires
                a == 64 * q + r,
        ;
        lemma_fundamental_div_mod_converse_div(a + n, 64, q, r + n);
    } else {
        assert(a + n == (q + 1) * 64 + (r + n - 64)) by (nonlinear_arith)
            requires
                a == 64 * q + r,
        ;
        lemma_fundamental_div_mod_converse_div(a + n, 64, q + 1, r + n - 64);
    }
    // q < n, because a < 64 * n.
    assert(q < n) by (nonlinear_arith)
        requires
            a == 64 * q + r,
            0 <= r,
            a < 64 * n,
    ;
}

/// Law: at forge width every bin is the single component of its own index,
/// so averaging changes nothing and the plan's shortcut to plain
/// normalisation gives what the bins would give.
pub proof fn lemma_forge_width_bins_are_single(i: int)
    requires
        0 <= i < LATENT_DIM_64,
    ensures
        bin_start(LATENT_DIM_64 as int, i) == i,
        bin_end(LATENT_DIM_64 as int, i) == i + 1,
{
    lemma_bin_end_is_next_start(64, i);
    assert(i * 64 / 64 == i) by {
        lemma_div_multiples_vanish(i, 64);
        assert(i * 64 == 64 * i) by (nonlinear_arith);
    }
    assert((i + 1) * 64 / 64 == i + 1) by {
        lemma_div_multiples_vanish(i + 1, 64);
        assert((i + 1) * 64 == 64 * (i + 1)) by (nonlinear_arith);
    }
}

} // verus!
