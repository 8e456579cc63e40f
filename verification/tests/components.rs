// Component-level checks: the fixed-point scalar operations, the
// validator, the centroid estimator, the residual/Jacobian model, the
// dense linear solve, and the configuration surface.

use multilateration::fixed::{fx_abs, fx_add, fx_div, fx_div_int, fx_from_int, fx_mul, fx_sub, FX_SCALE};
use multilateration::linalg::solve_linear_system;
use multilateration::solver::{multilaterate_with, solve, sum_of_squares, SolverConfig};
use multilateration::{validate_measurements, Measurement, MultilaterationError, MultilaterationFunction, Point};

fn fx(v: f64) -> i64 {
    (v * 65536.0).round() as i64
}

fn measurement(coords: &[f64], distance: f64) -> Measurement {
    let fixed: Vec<i64> = coords.iter().map(|&c| fx(c)).collect();
    Measurement::new(Point(fixed), fx(distance))
}

#[test]
fn fixed_ops_on_small_values_are_exact() {
    assert_eq!(fx_add(fx(1.5), fx(2.25)), fx(3.75));
    assert_eq!(fx_sub(fx(1.0), fx(2.5)), fx(-1.5));
    assert_eq!(fx_mul(fx(3.0), fx(-2.0)), fx(-6.0));
    assert_eq!(fx_div(fx(1.0), fx(2.0)), fx(0.5));
    assert_eq!(fx_div_int(fx(7.0), 2), fx(3.5));
    assert_eq!(fx_from_int(2), 2 * FX_SCALE);
    assert_eq!(fx_abs(fx(-4.0)), fx(4.0));
}

#[test]
fn fixed_ops_saturate_instead_of_overflowing() {
    assert_eq!(fx_add(i64::MAX, 1), i64::MAX);
    assert_eq!(fx_sub(i64::MIN, 1), i64::MIN);
    assert_eq!(fx_mul(i64::MAX, i64::MAX), i64::MAX);
    assert_eq!(fx_mul(i64::MAX, i64::MIN), i64::MIN);
    assert_eq!(fx_div(i64::MAX, 1), i64::MAX);
    assert_eq!(fx_abs(i64::MIN), i64::MAX);
}

#[test]
fn fixed_division_truncates_toward_zero() {
    assert_eq!(fx_div_int(7, 2), 3);
    assert_eq!(fx_div_int(-7, 2), -3);
}

#[test]
fn validator_accepts_a_consistent_set() {
    let measurements = vec![measurement(&[1.0, 2.0], 1.0), measurement(&[3.0, 4.0], 2.0)];
    assert_eq!(validate_measurements(&measurements), Ok(()));
}

#[test]
fn validator_rejects_mismatch_and_zero_dimension() {
    let mismatched = vec![measurement(&[1.0], 1.0), measurement(&[1.0, 2.0], 1.0)];
    assert_eq!(
        validate_measurements(&mismatched),
        Err(MultilaterationError::DimensionMismatch)
    );
    let flat = vec![measurement(&[], 1.0)];
    assert_eq!(
        validate_measurements(&flat),
        Err(MultilaterationError::ZeroDimension)
    );
}

#[test]
fn initial_guess_is_the_componentwise_centroid() {
    let function = MultilaterationFunction::new(vec![
        measurement(&[1.0, 1.0], 1.0),
        measurement(&[3.0, 1.0], 1.0),
        measurement(&[2.0, 2.0], 1.0),
    ]);
    let guess = function.estimate_intial_point();
    // First coordinate: (1 + 3 + 2) / 3 = 2 exactly; second: 4/3,
    // truncated toward zero in fixed point.
    assert_eq!(guess.0, vec![fx(2.0), (4 * FX_SCALE) / 3]);
}

#[test]
fn centroid_is_order_independent_at_extremes() {
    // The coordinate sum is accumulated exactly, so no ordering of the
    // same measurements can change the mean.
    let forward = MultilaterationFunction::new(vec![
        Measurement::new(Point(vec![i64::MAX]), 0),
        Measurement::new(Point(vec![i64::MAX]), 0),
        Measurement::new(Point(vec![i64::MIN]), 0),
    ]);
    let interleaved = MultilaterationFunction::new(vec![
        Measurement::new(Point(vec![i64::MAX]), 0),
        Measurement::new(Point(vec![i64::MIN]), 0),
        Measurement::new(Point(vec![i64::MAX]), 0),
    ]);
    assert_eq!(
        forward.estimate_intial_point().0,
        interleaved.estimate_intial_point().0
    );
}

#[test]
fn centroid_stays_between_extreme_anchors() {
    // Two anchors at the top of the scalar range: their mean is that
    // same value, not something below it.
    let function = MultilaterationFunction::new(vec![
        Measurement::new(Point(vec![i64::MAX]), 0),
        Measurement::new(Point(vec![i64::MAX]), 0),
    ]);
    assert_eq!(function.estimate_intial_point().0, vec![i64::MAX]);
}

#[test]
fn residuals_match_the_squared_distance_model() {
    let function = MultilaterationFunction::new(vec![
        measurement(&[1.0, 1.0], 1.0),
        measurement(&[3.0, 1.0], 1.0),
    ]);
    let at = Point(vec![fx(2.0), fx(1.0)]);
    // r_i = (x - p_i)^2 summed, minus d_i^2: here 1 - 1 = 0 for both.
    assert_eq!(function.eval(&at), vec![0, 0]);
    let off = Point(vec![fx(3.0), fx(1.0)]);
    // (3-1)^2 - 1 = 3 and (3-3)^2 - 1 = -1.
    assert_eq!(function.eval(&off), vec![fx(3.0), fx(-1.0)]);
}

#[test]
fn jacobian_holds_the_exact_derivatives() {
    let function = MultilaterationFunction::new(vec![
        measurement(&[1.0, 1.0], 1.0),
        measurement(&[3.0, 1.0], 1.0),
    ]);
    let at = Point(vec![fx(2.0), fx(3.0)]);
    let jac = function.jacobian(&at);
    // J[i][j] = 2 * (x_j - p_ij).
    assert_eq!(jac, vec![vec![fx(2.0), fx(4.0)], vec![fx(-2.0), fx(4.0)]]);
}

#[test]
fn sum_of_squares_is_the_cost_of_a_residual_vector() {
    let v = vec![fx(1.0), fx(-2.0)];
    assert_eq!(sum_of_squares(&v), fx(5.0));
}

#[test]
fn linear_solve_inverts_a_diagonal_system() {
    let a = vec![vec![fx(2.0), 0], vec![0, fx(4.0)]];
    let b = vec![fx(6.0), fx(2.0)];
    let x = solve_linear_system(&a, &b, 2).unwrap();
    assert_eq!(x, vec![fx(3.0), fx(0.5)]);
}

#[test]
fn linear_solve_pivots_on_the_largest_magnitude() {
    // The first diagonal entry is zero, so the rows must be swapped.
    let a = vec![vec![0, fx(1.0)], vec![fx(1.0), 0]];
    let b = vec![fx(5.0), fx(7.0)];
    let x = solve_linear_system(&a, &b, 2).unwrap();
    assert_eq!(x, vec![fx(7.0), fx(5.0)]);
}

#[test]
fn linear_solve_reports_a_singular_system() {
    let a = vec![vec![0, 0], vec![0, 0]];
    let b = vec![fx(1.0), fx(1.0)];
    assert!(solve_linear_system(&a, &b, 2).is_none());
}

#[test]
fn exhausted_iteration_budget_is_reported() {
    let config = SolverConfig { max_iterations: 0, lambda_min: 0, lambda_max: FX_SCALE };
    let measurements = vec![measurement(&[1.0, 1.0], 1.0), measurement(&[3.0, 1.0], 2.0)];
    assert_eq!(
        multilaterate_with(measurements, &config),
        Err(MultilaterationError::MaxIterationsExceeded)
    );
}

#[test]
fn solve_runs_from_a_caller_chosen_start() {
    let function = MultilaterationFunction::new(vec![
        measurement(&[1.0, 1.0], 1.0),
        measurement(&[3.0, 1.0], 1.0),
    ]);
    let start = function.estimate_intial_point();
    let config = SolverConfig { max_iterations: 1000, lambda_min: 0, lambda_max: FX_SCALE };
    let result = solve(&function, start, &config).unwrap().0;
    assert_eq!(result.len(), 2);
    let x = (result[0] as f64) / 65536.0;
    let y = (result[1] as f64) / 65536.0;
    assert!((x - 2.0).abs() <= 0.5);
    assert!((y - 1.0).abs() <= 0.5);
}

#[test]
fn inverted_damping_bounds_are_clamped_not_trusted() {
    // Negative and inverted bounds must not make the step ill-defined.
    let config = SolverConfig { max_iterations: 1000, lambda_min: -5 * FX_SCALE, lambda_max: -FX_SCALE };
    let measurements = vec![
        measurement(&[1.0, 1.0], 1.0),
        measurement(&[3.0, 1.0], 1.0),
        measurement(&[2.0, 2.0], 1.0),
    ];
    let result = multilaterate_with(measurements, &config).unwrap().0;
    assert_eq!(result.len(), 2);
}
