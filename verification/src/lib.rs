//! Estimation of an unknown position in D-dimensional space from distance
//! measurements to known anchor points (multilateration).
//!
//! The estimate is the least-squares fit of all distance constraints,
//! computed by a damped Gauss-Newton (Levenberg-Marquardt) iteration over
//! saturating fixed-point scalars.

pub mod fixed;
pub mod linalg;
pub mod model;
pub mod solver;

pub use solver::SolverConfig;
pub use solver::multilaterate;
pub use solver::multilaterate_with;
pub use solver::solve;
pub use model::MultilaterationFunction;
pub use model::Point;
pub use model::Measurement;
pub use model::MultilaterationError;
pub use model::validate_measurements;
pub use fixed::FX_SCALE;
pub use fixed::fx_add;
pub use fixed::fx_sub;
pub use fixed::fx_mul;
pub use fixed::fx_div;
pub use fixed::fx_div_int;
pub use fixed::fx_from_int;
