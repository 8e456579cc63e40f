//! The damped least-squares (Levenberg-Marquardt) iteration and the
//! public solve entry points. The whole iteration is pinned to a
//! spec-level mirror, `lm_spec`, so the estimate is a mathematical
//! function of the measurement set and the configuration.

use vstd::prelude::*;

verus! {

use vstd::arithmetic::div_mod::lemma_div_nonincreasing;
use crate::fixed::{fx_add, fx_sub, fx_mul, FX_SCALE};
use crate::fixed::{fx_add_spec, fx_sub_spec, fx_mul_spec, lemma_fx_square_nonneg};
use crate::linalg::{normal_matrix, gradient_vector, solve_linear_system};
use crate::linalg::{matrix_view, normal_of, gradient_of, neg_of, linear_solve_spec};
use crate::model::{
    Point,
    Measurement,
    MultilaterationError,
    MultilaterationFunction,
    validate_measurements,
    valid_measurements,
    anchors_consistent,
    dimension_of,
    centroid_of,
    residuals_of,
    jacobian_of,
};

/// Fixed-point damping factor the iteration starts from (about 1e-3).
pub const LAMBDA_START: i64 = 64;

/// Bound on the squared step length below which the iteration counts as
/// converged, in fixed point (about 3e-5).
pub const STEP_TOL: i64 = 2;

/// Reciprocal of the relative cost-decrease bound below which an accepted
/// step counts as converged.
pub const REL_DECREASE_DENOM: i128 = 8192;

/// Per-call configuration of the iteration: the budget and the bounds the
/// damping factor is clamped into.
pub struct SolverConfig {
    pub max_iterations: usize,
    pub lambda_min: i64,
    pub lambda_max: i64,
}

/// The configuration used when the caller supplies none.
pub open spec fn default_config() -> SolverConfig {
    SolverConfig { max_iterations: 1000, lambda_min: 0, lambda_max: FX_SCALE }
}

impl Default for SolverConfig {
    /// The default budget and damping bounds.
    fn default() -> (r: SolverConfig)
        ensures
            r == default_config(),
            r.max_iterations == 1000,
            r.lambda_min == 0,
            r.lambda_max == FX_SCALE,
    {
        SolverConfig { max_iterations: 1000, lambda_min: 0, lambda_max: FX_SCALE }
    }
}

/// The lower damping bound actually used: the caller's, never negative.
pub open spec fn lambda_lo_spec(c: SolverConfig) -> int {
    if c.lambda_min < 0 {
        0
    } else {
        c.lambda_min as int
    }
}

/// The upper damping bound actually used: the caller's, never below the
/// lower bound. Ill-posed caller bounds are clamped, not trusted.
pub open spec fn lambda_hi_spec(c: SolverConfig) -> int {
    if (c.lambda_max as int) < lambda_lo_spec(c) {
        lambda_lo_spec(c)
    } else {
        c.lambda_max as int
    }
}

/// The damping factor the iteration starts from, pushed into the bounds.
pub open spec fn lambda_start_spec(c: SolverConfig) -> int {
    let lo = lambda_lo_spec(c);
    let hi = lambda_hi_spec(c);
    let l = if (LAMBDA_START as int) < lo {
        lo
    } else {
        LAMBDA_START as int
    };
    if l > hi {
        hi
    } else {
        l
    }
}

/// The damping factor after a rejected step: doubled (from 1 when it was
/// below 1), capped at `hi`, and never below where it was.
pub open spec fn grow_lambda_spec(lambda: int, hi: int) -> int {
    let doubled = if lambda < 1 {
        1int
    } else if lambda <= hi - lambda {
        lambda + lambda
    } else {
        hi
    };
    let capped = if doubled > hi {
        hi
    } else {
        doubled
    };
    if capped < lambda {
        lambda
    } else {
        capped
    }
}

/// The damping factor after an accepted step: halved (truncated), floored
/// at `lo`.
pub open spec fn shrink_lambda_spec(lambda: int, lo: int) -> int {
    let half = lambda / 2;
    if half < lo {
        lo
    } else {
        half
    }
}

/// Saturating sum of the squares of the first `n` entries.
pub open spec fn sum_squares_partial(v: Seq<i64>, n: int) -> int
    decreases n,
{
    if n <= 0 {
        0
    } else {
        fx_add_spec(sum_squares_partial(v, n - 1), fx_mul_spec(v[n - 1] as int, v[n - 1] as int))
    }
}

/// Saturating sum of the squares of a vector's entries: the cost of a
/// candidate when applied to its residual vector, the squared step length
/// when applied to a step.
pub open spec fn sum_squares_spec(v: Seq<i64>) -> int {
    sum_squares_partial(v, v.len() as int)
}

/// A candidate position moved by a step, coordinate by coordinate.
pub open spec fn add_of(x: Seq<i64>, delta: Seq<i64>) -> Seq<i64> {
    Seq::new(x.len(), |j: int| fx_add_spec(x[j] as int, delta[j] as int) as i64)
}

/// One full damped Gauss-Newton run as a mathematical function of the
/// measurement set, the running state (candidate, residuals, cost,
/// damping factor), the damping bounds, and the remaining budget: each
/// recursive call is one iteration of the loop in `solve`.
pub open spec fn lm_spec(
    ms: Seq<Measurement>,
    x: Seq<i64>,
    res: Seq<i64>,
    cost: int,
    lambda: int,
    lo: int,
    hi: int,
    fuel: nat,
) -> Result<Seq<i64>, MultilaterationError>
    decreases fuel,
{
    if fuel == 0 {
        Err(MultilaterationError::MaxIterationsExceeded)
    } else {
        let d = x.len() as int;
        let jac = jacobian_of(ms, x);
        let a = normal_of(jac, d, lambda);
        let rhs = neg_of(gradient_of(jac, res, d));
        match linear_solve_spec(a, rhs, d) {
            None => if lambda >= hi {
                Err(MultilaterationError::SingularSystem)
            } else {
                lm_spec(ms, x, res, cost, grow_lambda_spec(lambda, hi), lo, hi, (fuel - 1) as nat)
            },
            Some(delta) => {
                let candidate = add_of(x, delta);
                if sum_squares_spec(delta) < STEP_TOL {
                    Ok(candidate)
                } else {
                    let cres = residuals_of(ms, candidate);
                    let ccost = sum_squares_spec(cres);
                    if ccost < cost {
                        let dec = fx_sub_spec(cost, ccost);
                        if dec * (REL_DECREASE_DENOM as int) <= cost {
                            Ok(candidate)
                        } else {
                            lm_spec(
                                ms,
                                candidate,
                                cres,
                                ccost,
                                shrink_lambda_spec(lambda, lo),
                                lo,
                                hi,
                                (fuel - 1) as nat,
                            )
                        }
                    } else {
                        lm_spec(
                            ms,
                            x,
                            res,
                            cost,
                            grow_lambda_spec(lambda, hi),
                            lo,
                            hi,
                            (fuel - 1) as nat,
                        )
                    }
                }
            },
        }
    }
}

/// What `solve` returns, as a function of its inputs.
pub open spec fn solve_spec(ms: Seq<Measurement>, initial: Seq<i64>, c: SolverConfig) -> Result<
    Seq<i64>,
    MultilaterationError,
> {
    let res0 = residuals_of(ms, initial);
    lm_spec(
        ms,
        initial,
        res0,
        sum_squares_spec(res0),
        lambda_start_spec(c),
        lambda_lo_spec(c),
        lambda_hi_spec(c),
        c.max_iterations as nat,
    )
}

/// What a full estimation call returns, as a function of the measurement
/// set and the configuration: validation first, then the iteration from
/// the centroid.
pub open spec fn multilaterate_spec(ms: Seq<Measurement>, c: SolverConfig) -> Result<
    Seq<i64>,
    MultilaterationError,
> {
    if ms.len() == 0 || !anchors_consistent(ms) {
        Err(MultilaterationError::DimensionMismatch)
    } else if dimension_of(ms) == 0 {
        Err(MultilaterationError::ZeroDimension)
    } else {
        solve_spec(ms, centroid_of(ms), c)
    }
}

/// Determinism: an estimation call is a mathematical function of the
/// measurement set and the configuration alone — no randomness, clock, or
/// environment enters — so identical inputs give identical outputs. The
/// `ensures` of `multilaterate` and `multilaterate_with` pin their result
/// to exactly this function.
pub proof fn lemma_estimate_deterministic(
    ms1: Seq<Measurement>,
    ms2: Seq<Measurement>,
    c1: SolverConfig,
    c2: SolverConfig,
)
    requires
        ms1 == ms2,
        c1 == c2,
    ensures
        multilaterate_spec(ms1, c1) == multilaterate_spec(ms2, c2),
{
}

/// A sum of squares is a squared norm: never negative.
pub proof fn lemma_sum_squares_nonneg(v: Seq<i64>, n: int)
    ensures
        sum_squares_partial(v, n) >= 0,
    decreases n,
{
    if n > 0 {
        lemma_sum_squares_nonneg(v, n - 1);
        lemma_fx_square_nonneg(v[n - 1] as int);
    }
}

/// Saturating sum of the squares of a vector's entries.
pub fn sum_of_squares(v: &Vec<i64>) -> (c: i64)
    ensures
        c as int == sum_squares_spec(v@),
        c >= 0,
{
    let mut acc: i64 = 0;
    let mut i: usize = 0;
    while i < v.len()
        invariant
            i <= v@.len(),
            acc as int == sum_squares_partial(v@, i as int),
        decreases v@.len() - i,
    {
        acc = fx_add(acc, fx_mul(v[i], v[i]));
        i = i + 1;
    }
    proof {
        lemma_sum_squares_nonneg(v@, v@.len() as int);
    }
    acc
}

/// The damping factor after a rejected step.
fn grow_lambda(lambda: i64, hi: i64) -> (r: i64)
    requires
        0 <= lambda <= hi,
    ensures
        r as int == grow_lambda_spec(lambda as int, hi as int),
        lambda <= r <= hi,
{
    let doubled: i64 = if lambda < 1 {
        1
    } else if lambda <= hi - lambda {
        lambda + lambda
    } else {
        hi
    };
    let capped: i64 = if doubled > hi {
        hi
    } else {
        doubled
    };
    if capped < lambda {
        lambda
    } else {
        capped
    }
}

/// The damping factor after an accepted step.
fn shrink_lambda(lambda: i64, lo: i64) -> (r: i64)
    requires
        0 <= lo <= lambda,
    ensures
        r as int == shrink_lambda_spec(lambda as int, lo as int),
        lo <= r <= lambda,
{
    proof {
        lemma_div_nonincreasing(lambda as int, 2);
    }
    let half: i64 = ((lambda as u64) / 2) as i64;
    if half < lo {
        lo
    } else {
        half
    }
}

/// Damped Gauss-Newton iteration from `initial`: repeatedly solves the
/// damped normal-equation system for a step, accepts steps that lower the
/// cost, and adjusts the damping factor, until the convergence criterion
/// holds or the configuration's bounds are exhausted. The result is
/// exactly `solve_spec` of the inputs: `SingularSystem` when no step can
/// be produced even at the largest allowed damping, `MaxIterationsExceeded`
/// when the budget runs out; no partial position accompanies a failure.
pub fn solve(
    function: &MultilaterationFunction,
    initial: Point,
    config: &SolverConfig,
) -> (r: Result<Point, MultilaterationError>)
    requires
        valid_measurements(function.ms()),
        initial.0@.len() == dimension_of(function.ms()),
    ensures
        r matches Ok(p) ==> p.0@.len() == dimension_of(function.ms()) && solve_spec(
            function.ms(),
            initial.0@,
            *config,
        ) == Ok::<Seq<i64>, MultilaterationError>(p.0@),
        r matches Err(e) ==> (e == MultilaterationError::SingularSystem || e
            == MultilaterationError::MaxIterationsExceeded) && solve_spec(
            function.ms(),
            initial.0@,
            *config,
        ) == Err::<Seq<i64>, MultilaterationError>(e),
{
    let ghost target = solve_spec(function.ms(), initial.0@, *config);
    let d: usize = initial.0.len();
    let lo: i64 = if config.lambda_min < 0 {
        0
    } else {
        config.lambda_min
    };
    let hi: i64 = if config.lambda_max < lo {
        lo
    } else {
        config.lambda_max
    };
    let mut lambda: i64 = LAMBDA_START;
    if lambda < lo {
        lambda = lo;
    }
    if lambda > hi {
        lambda = hi;
    }
    proof {
        assert(lo as int == lambda_lo_spec(*config));
        assert(hi as int == lambda_hi_spec(*config));
        assert(lambda as int == lambda_start_spec(*config));
    }
    let mut x: Point = initial;
    let mut res: Vec<i64> = function.eval(&x);
    let mut cost: i64 = sum_of_squares(&res);
    let mut iter: usize = 0;
    while iter < config.max_iterations
        invariant
            valid_measurements(function.ms()),
            d == dimension_of(function.ms()),
            x.0@.len() == d,
            res@ == residuals_of(function.ms(), x.0@),
            cost as int == sum_squares_spec(res@),
            0 <= lo <= lambda <= hi,
            lo as int == lambda_lo_spec(*config),
            hi as int == lambda_hi_spec(*config),
            iter <= config.max_iterations,
            lm_spec(
                function.ms(),
                x.0@,
                res@,
                cost as int,
                lambda as int,
                lo as int,
                hi as int,
                (config.max_iterations - iter) as nat,
            ) == target,
            target == solve_spec(function.ms(), initial.0@, *config),
        decreases config.max_iterations - iter,
    {
        let ghost sx = x.0@;
        let ghost sres = res@;
        let ghost scost = cost as int;
        let ghost slam = lambda as int;
        let ghost fuel = (config.max_iterations - iter) as nat;
        let jac: Vec<Vec<i64>> = function.jacobian(&x);
        let a: Vec<Vec<i64>> = normal_matrix(&jac, d, lambda);
        let g: Vec<i64> = gradient_vector(&jac, &res, d);
        let mut rhs: Vec<i64> = Vec::new();
        let mut p: usize = 0;
        while p < d
            invariant
                g@.len() == d,
                p <= d,
                rhs@.len() == p,
                forall|pp: int| 0 <= pp < p ==> #[trigger] rhs@[pp] == neg_of(g@)[pp],
            decreases d - p,
        {
            rhs.push(fx_sub(0, g[p]));
            p = p + 1;
        }
        proof {
            assert(rhs@ =~= neg_of(g@));
            assert(matrix_view(a@) == normal_of(jacobian_of(function.ms(), sx), d as int, slam));
            assert(rhs@ == neg_of(gradient_of(jacobian_of(function.ms(), sx), sres, d as int)));
        }
        match solve_linear_system(&a, &rhs, d) {
            None => {
                if lambda >= hi {
                    proof {
                        assert(lm_spec(
                            function.ms(),
                            sx,
                            sres,
                            scost,
                            slam,
                            lo as int,
                            hi as int,
                            fuel,
                        ) == Err::<Seq<i64>, MultilaterationError>(
                            MultilaterationError::SingularSystem,
                        ));
                    }
                    return Err(MultilaterationError::SingularSystem);
                }
                lambda = grow_lambda(lambda, hi);
            },
            Some(delta) => {
                let mut candidate_coords: Vec<i64> = Vec::new();
                let mut j: usize = 0;
                while j < d
                    invariant
                        x.0@.len() == d,
                        delta@.len() == d,
                        j <= d,
                        candidate_coords@.len() == j,
                        forall|jj: int|
                            0 <= jj < j ==> #[trigger] candidate_coords@[jj] == add_of(
                                x.0@,
                                delta@,
                            )[jj],
                    decreases d - j,
                {
                    candidate_coords.push(fx_add(x.0[j], delta[j]));
                    j = j + 1;
                }
                proof {
                    assert(candidate_coords@ =~= add_of(sx, delta@));
                }
                let candidate: Point = Point(candidate_coords);
                let step_sq: i64 = sum_of_squares(&delta);
                if step_sq < STEP_TOL {
                    proof {
                        assert(lm_spec(
                            function.ms(),
                            sx,
                            sres,
                            scost,
                            slam,
                            lo as int,
                            hi as int,
                            fuel,
                        ) == Ok::<Seq<i64>, MultilaterationError>(candidate.0@));
                    }
                    return Ok(candidate);
                }
                let candidate_res: Vec<i64> = function.eval(&candidate);
                let candidate_cost: i64 = sum_of_squares(&candidate_res);
                if candidate_cost < cost {
                    let decrease: i64 = fx_sub(cost, candidate_cost);
                    let cost_before: i64 = cost;
                    x = candidate;
                    res = candidate_res;
                    cost = candidate_cost;
                    lambda = shrink_lambda(lambda, lo);
                    if (decrease as i128) * REL_DECREASE_DENOM <= (cost_before as i128) {
                        proof {
                            assert(lm_spec(
                                function.ms(),
                                sx,
                                sres,
                                scost,
                                slam,
                                lo as int,
                                hi as int,
                                fuel,
                            ) == Ok::<Seq<i64>, MultilaterationError>(x.0@));
                        }
                        return Ok(x);
                    }
                } else {
                    lambda = grow_lambda(lambda, hi);
                }
            },
        }
        iter = iter + 1;
    }
    proof {
        assert(lm_spec(
            function.ms(),
            x.0@,
            res@,
            cost as int,
            lambda as int,
            lo as int,
            hi as int,
            0,
        ) == Err::<Seq<i64>, MultilaterationError>(MultilaterationError::MaxIterationsExceeded));
    }
    Err(MultilaterationError::MaxIterationsExceeded)
}

/// Full estimation with an explicit configuration: validation, the
/// centroid initial guess, then the damped least-squares iteration. The
/// result is exactly `multilaterate_spec` of the set and configuration.
/// Validation failures are returned before any numeric work; a solver
/// failure never carries a partial position.
pub fn multilaterate_with(
    measurements: Vec<Measurement>,
    config: &SolverConfig,
) -> (r: Result<Point, MultilaterationError>)
    ensures
        (r matches Err(e) && e == MultilaterationError::DimensionMismatch) <==> (
        measurements@.len() == 0 || !anchors_consistent(measurements@)),
        (r matches Err(e) && e == MultilaterationError::ZeroDimension) <==> (measurements@.len()
            > 0 && anchors_consistent(measurements@) && dimension_of(measurements@) == 0),
        (r matches Err(e) && (e == MultilaterationError::SingularSystem || e
            == MultilaterationError::MaxIterationsExceeded)) ==> valid_measurements(
            measurements@,
        ),
        r matches Ok(p) ==> valid_measurements(measurements@) && p.0@.len() == dimension_of(
            measurements@,
        ),
        r matches Ok(p) ==> multilaterate_spec(measurements@, *config) == Ok::<
            Seq<i64>,
            MultilaterationError,
        >(p.0@),
        r matches Err(e) ==> multilaterate_spec(measurements@, *config) == Err::<
            Seq<i64>,
            MultilaterationError,
        >(e),
{
    match validate_measurements(&measurements) {
        Err(e) => {
            return Err(e);
        },
        Ok(()) => {},
    }
    let function: MultilaterationFunction = MultilaterationFunction::new(measurements);
    let initial: Point = function.estimate_intial_point();
    solve(&function, initial, config)
}

/// Full estimation with the default configuration: the estimated position
/// that best fits all distance constraints in the least-squares sense, or
/// exactly one terminal error. The result is exactly `multilaterate_spec`
/// of the set and the default configuration.
pub fn multilaterate(measurements: Vec<Measurement>) -> (r: Result<Point, MultilaterationError>)
    ensures
        (r matches Err(e) && e == MultilaterationError::DimensionMismatch) <==> (
        measurements@.len() == 0 || !anchors_consistent(measurements@)),
        (r matches Err(e) && e == MultilaterationError::ZeroDimension) <==> (measurements@.len()
            > 0 && anchors_consistent(measurements@) && dimension_of(measurements@) == 0),
        (r matches Err(e) && (e == MultilaterationError::SingularSystem || e
            == MultilaterationError::MaxIterationsExceeded)) ==> valid_measurements(
            measurements@,
        ),
        r matches Ok(p) ==> valid_measurements(measurements@) && p.0@.len() == dimension_of(
            measurements@,
        ),
        r matches Ok(p) ==> multilaterate_spec(measurements@, default_config()) == Ok::<
            Seq<i64>,
            MultilaterationError,
        >(p.0@),
        r matches Err(e) ==> multilaterate_spec(measurements@, default_config()) == Err::<
            Seq<i64>,
            MultilaterationError,
        >(e),
{
    let config: SolverConfig = Default::default();
    multilaterate_with(measurements, &config)
}

} // verus!
