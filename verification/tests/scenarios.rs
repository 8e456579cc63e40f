// End-to-end scenarios: anchor/distance sets with the position the
// estimate must fall near, and the inputs every call must reject.

use multilateration::{multilaterate, Measurement, MultilaterationError, Point};

fn fx(v: f64) -> i64 {
    (v * 65536.0).round() as i64
}

fn to_f64(v: i64) -> f64 {
    (v as f64) / 65536.0
}

fn measurement(coords: &[f64], distance: f64) -> Measurement {
    let fixed: Vec<i64> = coords.iter().map(|&c| fx(c)).collect();
    Measurement::new(Point(fixed), fx(distance))
}

fn is_in_delta(delta: f64, value: f64, comparison: f64) -> bool {
    value >= (comparison - delta) && value <= (comparison + delta)
}

#[test]
fn multilat_1() {
    let measurements = vec![
        measurement(&[5.0, -6.0], 8.06),
        measurement(&[13.0, -15.0], 13.97),
        measurement(&[21.0, -3.0], 23.32),
        measurement(&[12.4, -21.2], 15.31),
    ];

    let result = multilaterate(measurements).unwrap().0;
    assert_eq!(result.len(), 2);
    let delta: f64 = 1.0;
    assert!(is_in_delta(delta, to_f64(result[0]), -0.6));
    assert!(is_in_delta(delta, to_f64(result[1]), -11.8));
}

#[test]
fn multilat_2() {
    let measurements = vec![
        measurement(&[1.0, 1.0], 0.5),
        measurement(&[3.0, 1.0], 0.5),
        measurement(&[2.0, 2.0], 0.5),
    ];

    let result = multilaterate(measurements).unwrap().0;
    assert_eq!(result.len(), 2);
    let delta: f64 = 0.4;
    assert!(is_in_delta(delta, to_f64(result[0]), 2.0));
    assert!(is_in_delta(delta, to_f64(result[1]), 1.0));
}

#[test]
fn multilat_3() {
    let measurements = vec![
        measurement(&[1.0, 1.0], 2.0),
        measurement(&[3.0, 1.0], 2.0),
        measurement(&[2.0, 2.0], 2.0),
    ];

    let result = multilaterate(measurements).unwrap().0;
    assert_eq!(result.len(), 2);
    let delta: f64 = 2.0;
    assert!(is_in_delta(delta, to_f64(result[0]), 2.0));
    assert!(is_in_delta(delta, to_f64(result[1]), 1.0));
}

#[test]
fn multilat_4() {
    let measurements = vec![
        measurement(&[1.0, 1.0], 1.0),
        measurement(&[1.0, 1.0], 1.0),
        measurement(&[3.0, 1.0], 1.0),
    ];

    let result = multilaterate(measurements).unwrap().0;
    assert_eq!(result.len(), 2);
    let delta: f64 = 0.5;
    assert!(is_in_delta(delta, to_f64(result[0]), 2.0));
    assert!(is_in_delta(delta, to_f64(result[1]), 1.0));
}

#[test]
fn multilat_5() {
    let measurements = vec![measurement(&[1.0, 1.0], 1.0), measurement(&[3.0, 1.0], 1.0)];

    let result = multilaterate(measurements).unwrap().0;
    assert_eq!(result.len(), 2);
    let delta: f64 = 0.5;
    assert!(is_in_delta(delta, to_f64(result[0]), 2.0));
    assert!(is_in_delta(delta, to_f64(result[1]), 1.0));
}

#[test]
fn multilat_6() {
    let measurements = vec![
        measurement(&[1.0, 1.0], 0.9),
        measurement(&[3.0, 1.0], 1.0),
        measurement(&[2.0, 2.0], 1.0),
    ];

    let result = multilaterate(measurements).unwrap().0;
    assert_eq!(result.len(), 2);
    let delta: f64 = 0.1;
    assert!(is_in_delta(delta, to_f64(result[0]), 2.0));
    assert!(is_in_delta(delta, to_f64(result[1]), 1.0));
}

#[test]
fn multilat_7() {
    let measurements = vec![
        measurement(&[1.0, 1.0, 1.0], 1.0),
        measurement(&[3.0, 1.0, 1.0], 1.0),
        measurement(&[2.0, 2.0, 1.0], 1.0),
    ];

    let result = multilaterate(measurements).unwrap().0;
    assert_eq!(result.len(), 3);
    let delta: f64 = 0.1;
    assert!(is_in_delta(delta, to_f64(result[0]), 2.0));
    assert!(is_in_delta(delta, to_f64(result[1]), 1.0));
    assert!(is_in_delta(delta, to_f64(result[2]), 1.0));
}

#[test]
fn multilat_fails_on_different_dimension() {
    let measurements = vec![
        measurement(&[1.0, 1.0], 1.0),
        measurement(&[3.0, 1.0, 1.0], 1.0),
        measurement(&[2.0, 1.0], 1.0),
    ];

    let result = multilaterate(measurements);
    assert!(result.is_err());
}

#[test]
fn multilat_fails_on_zero_dimensions() {
    let measurements = vec![
        measurement(&[], 1.0),
        measurement(&[], 1.0),
        measurement(&[], 1.0),
    ];

    let result = multilaterate(measurements);
    assert!(result.is_err());
}

#[test]
fn mismatched_dimensions_report_dimension_mismatch() {
    let measurements = vec![measurement(&[1.0, 1.0], 1.0), measurement(&[3.0, 1.0, 1.0], 1.0)];
    assert_eq!(
        multilaterate(measurements),
        Err(MultilaterationError::DimensionMismatch)
    );
}

#[test]
fn zero_dimensions_report_zero_dimension() {
    let measurements = vec![measurement(&[], 1.0), measurement(&[], 2.0)];
    assert_eq!(
        multilaterate(measurements),
        Err(MultilaterationError::ZeroDimension)
    );
}

#[test]
fn empty_set_reports_dimension_mismatch() {
    let measurements: Vec<Measurement> = Vec::new();
    assert_eq!(
        multilaterate(measurements),
        Err(MultilaterationError::DimensionMismatch)
    );
}

#[test]
fn identical_input_gives_identical_output() {
    let build = || {
        vec![
            measurement(&[5.0, -6.0], 8.06),
            measurement(&[13.0, -15.0], 13.97),
            measurement(&[21.0, -3.0], 23.32),
            measurement(&[12.4, -21.2], 15.31),
        ]
    };
    let first = multilaterate(build()).unwrap().0;
    let second = multilaterate(build()).unwrap().0;
    assert_eq!(first, second);
}

#[test]
fn noise_free_measurements_recover_the_true_point() {
    // Distances generated from the true point (2, 3) with zero error.
    let measurements = vec![
        measurement(&[0.0, 0.0], 13.0_f64.sqrt()),
        measurement(&[4.0, 0.0], 13.0_f64.sqrt()),
        measurement(&[0.0, 6.0], 13.0_f64.sqrt()),
    ];
    let result = multilaterate(measurements).unwrap().0;
    assert_eq!(result.len(), 2);
    assert!(is_in_delta(0.5, to_f64(result[0]), 2.0));
    assert!(is_in_delta(0.5, to_f64(result[1]), 3.0));
}
