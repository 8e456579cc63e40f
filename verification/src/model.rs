//! Points, measurements, the error taxonomy, input validation, and the
//! residual/Jacobian model of the multilateration problem.

use vstd::prelude::*;

verus! {

use crate::fixed::{fx_add, fx_sub, fx_mul, fx_div_wide};
use crate::fixed::{fx_add_spec, fx_sub_spec, fx_mul_spec, fx_clamp, div_trunc};
use crate::linalg::matrix_view;

/// An ordered sequence of fixed-point coordinates: one position in
/// D-dimensional space, D fixed at construction.
#[derive(Debug, Clone, PartialEq, Eq)]
pub struct Point(pub Vec<i64>);

/// One distance observation: the unknown position is believed to lie
/// `distance` away from `anchor`.
#[derive(Debug, Clone)]
pub struct Measurement {
    point: Point,
    distance: i64,
}

/// Everything a call can fail with; no partial result accompanies any of
/// these.
#[derive(Debug, Clone, Copy, PartialEq, Eq, Structural)]
pub enum MultilaterationError {
    /// Anchors across the measurement set differ in length (also reported
    /// for an empty set, from which no dimension can be derived).
    DimensionMismatch,
    /// All anchors agree in length, but that length is zero.
    ZeroDimension,
    /// The damped normal-equation system stayed numerically singular even
    /// at the largest allowed damping factor.
    SingularSystem,
    /// The iteration budget ran out before the convergence criterion held.
    MaxIterationsExceeded,
}

impl Measurement {
    /// The anchor's coordinates.
    pub closed spec fn anchor(&self) -> Seq<i64> {
        self.point.0@
    }

    /// The measured distance.
    pub closed spec fn dist(&self) -> i64 {
        self.distance
    }

    pub fn new(point: Point, distance: i64) -> (r: Measurement)
        ensures
            r.anchor() == point.0@,
            r.dist() == distance,
    {
        Measurement { point, distance }
    }

    /// Read access to the anchor for the numeric loops.
    pub fn anchor_coord(&self, j: usize) -> (r: i64)
        requires
            j < self.anchor().len(),
        ensures
            r == self.anchor()[j as int],
    {
        self.point.0[j]
    }

    /// Number of coordinates of the anchor.
    pub fn anchor_len(&self) -> (r: usize)
        ensures
            r == self.anchor().len(),
    {
        self.point.0.len()
    }

    /// Read access to the distance for the numeric loops.
    pub fn distance_value(&self) -> (r: i64)
        ensures
            r == self.dist(),
    {
        self.distance
    }
}

/// All anchors of the set have the length of the first one.
pub open spec fn anchors_consistent(ms: Seq<Measurement>) -> bool {
    forall|i: int| 0 <= i < ms.len() ==> #[trigger] ms[i].anchor().len() == ms[0].anchor().len()
}

/// The shared dimension of the set.
pub open spec fn dimension_of(ms: Seq<Measurement>) -> nat {
    ms[0].anchor().len()
}

/// A set the solver accepts: nonempty, one shared anchor length, and that
/// length positive.
pub open spec fn valid_measurements(ms: Seq<Measurement>) -> bool {
    &&& ms.len() > 0
    &&& anchors_consistent(ms)
    &&& dimension_of(ms) > 0
}

/// Confirms that every anchor has one shared positive length; pure check,
/// run before any numeric work.
pub fn validate_measurements(measurements: &Vec<Measurement>) -> (r: Result<
    (),
    MultilaterationError,
>)
    ensures
        r is Ok <==> valid_measurements(measurements@),
        (r matches Err(e) && e == MultilaterationError::DimensionMismatch) <==> (
        measurements@.len() == 0 || !anchors_consistent(measurements@)),
        (r matches Err(e) && e == MultilaterationError::ZeroDimension) <==> (measurements@.len()
            > 0 && anchors_consistent(measurements@) && dimension_of(measurements@) == 0),
{
    if measurements.len() == 0 {
        return Err(MultilaterationError::DimensionMismatch);
    }
    let dimension: usize = measurements[0].anchor_len();
    let mut i: usize = 1;
    while i < measurements.len()
        invariant
            1 <= i <= measurements@.len(),
            forall|k: int|
                0 <= k < i ==> #[trigger] measurements@[k].anchor().len()
                    == measurements@[0].anchor().len(),
            dimension == measurements@[0].anchor().len(),
        decreases measurements@.len() - i,
    {
        if measurements[i].anchor_len() != dimension {
            return Err(MultilaterationError::DimensionMismatch);
        }
        i = i + 1;
    }
    if dimension == 0 {
        return Err(MultilaterationError::ZeroDimension);
    }
    Ok(())
}

/// Exact sum of coordinate `j` over the first `n` anchors. The sum is
/// kept unbounded so that the mean below is a true mean: order of the
/// measurements cannot change it.
pub open spec fn sum_coord(ms: Seq<Measurement>, j: int, n: int) -> int
    decreases n,
{
    if n <= 0 {
        0
    } else {
        sum_coord(ms, j, n - 1) + ms[n - 1].anchor()[j]
    }
}

/// Coordinate `j` of the componentwise mean of all anchors: the exact
/// coordinate sum divided by the count (truncated toward zero), saturated
/// once at the very end.
pub open spec fn centroid_spec(ms: Seq<Measurement>, j: int) -> int
    recommends
        ms.len() > 0,
{
    fx_clamp(div_trunc(sum_coord(ms, j, ms.len() as int), ms.len() as int))
}

/// The whole centroid as a coordinate vector.
pub open spec fn centroid_of(ms: Seq<Measurement>) -> Seq<i64> {
    Seq::new(dimension_of(ms), |j: int| centroid_spec(ms, j) as i64)
}

/// Saturating sum of the squared coordinate differences of `x` and `p`
/// over the first `j` dimensions: the squared distance once `j` reaches
/// the dimension.
pub open spec fn sq_dist_partial(x: Seq<i64>, p: Seq<i64>, j: int) -> int
    decreases j,
{
    if j <= 0 {
        0
    } else {
        let d = fx_sub_spec(x[j - 1] as int, p[j - 1] as int);
        fx_add_spec(sq_dist_partial(x, p, j - 1), fx_mul_spec(d, d))
    }
}

/// Residual of measurement `i` at candidate position `x`: the squared
/// distance from `x` to the anchor, minus the squared measured distance.
pub open spec fn residual_spec(ms: Seq<Measurement>, x: Seq<i64>, i: int) -> int {
    fx_sub_spec(
        sq_dist_partial(x, ms[i].anchor(), x.len() as int),
        fx_mul_spec(ms[i].dist() as int, ms[i].dist() as int),
    )
}

/// Entry `(i, j)` of the Jacobian of the residual vector: the exact
/// derivative `2 * (x_j - p_ij)` of `residual_spec`, closed form.
pub open spec fn jacobian_entry_spec(ms: Seq<Measurement>, x: Seq<i64>, i: int, j: int) -> int {
    let d = fx_sub_spec(x[j] as int, ms[i].anchor()[j] as int);
    fx_add_spec(d, d)
}

/// The whole residual vector at a candidate position.
pub open spec fn residuals_of(ms: Seq<Measurement>, x: Seq<i64>) -> Seq<i64> {
    Seq::new(ms.len(), |i: int| residual_spec(ms, x, i) as i64)
}

/// The whole Jacobian at a candidate position.
pub open spec fn jacobian_of(ms: Seq<Measurement>, x: Seq<i64>) -> Seq<Seq<i64>> {
    Seq::new(
        ms.len(),
        |i: int| Seq::new(x.len(), |j: int| jacobian_entry_spec(ms, x, i, j) as i64),
    )
}

/// The residual/Jacobian model of one multilateration problem: owns the
/// measurement set and evaluates `residual_spec` and `jacobian_entry_spec`
/// at candidate positions.
pub struct MultilaterationFunction {
    measurements: Vec<Measurement>,
}

impl MultilaterationFunction {
    /// The measurement set of the problem.
    pub closed spec fn ms(&self) -> Seq<Measurement> {
        self.measurements@
    }

    pub fn new(measurements: Vec<Measurement>) -> (r: MultilaterationFunction)
        ensures
            r.ms() == measurements@,
    {
        MultilaterationFunction { measurements }
    }

    /// Number of measurements of the problem.
    pub fn measurement_count(&self) -> (r: usize)
        ensures
            r == self.ms().len(),
    {
        self.measurements.len()
    }

    /// Starting vector for the iteration: the componentwise mean
    /// (centroid) of all anchors. Always succeeds on a validated set.
    pub fn estimate_intial_point(&self) -> (r: Point)
        requires
            valid_measurements(self.ms()),
        ensures
            r.0@.len() == dimension_of(self.ms()),
            forall|j: int|
                0 <= j < r.0@.len() ==> #[trigger] r.0@[j] as int == centroid_spec(self.ms(), j),
            r.0@ == centroid_of(self.ms()),
    {
        let d: usize = self.measurements[0].anchor_len();
        let n: usize = self.measurements.len();
        let mut coords: Vec<i64> = Vec::new();
        let mut j: usize = 0;
        while j < d
            invariant
                valid_measurements(self.ms()),
                d == dimension_of(self.ms()),
                n == self.ms().len(),
                j <= d,
                coords@.len() == j,
                forall|jj: int|
                    0 <= jj < j ==> #[trigger] coords@[jj] as int == centroid_spec(self.ms(), jj),
            decreases d - j,
        {
            // The exact sum of up to usize::MAX scalars stays well inside
            // the i128 range, so no accumulation step can saturate.
            let mut acc: i128 = 0;
            let mut i: usize = 0;
            while i < n
                invariant
                    valid_measurements(self.ms()),
                    d == dimension_of(self.ms()),
                    n == self.ms().len(),
                    j < d,
                    i <= n,
                    acc as int == sum_coord(self.ms(), j as int, i as int),
                    -(i as int) * 0x8000_0000_0000_0000 <= acc as int <= (i as int)
                        * 0x7fff_ffff_ffff_ffff,
                decreases n - i,
            {
                acc = acc + (self.measurements[i].anchor_coord(j) as i128);
                i = i + 1;
            }
            coords.push(fx_div_wide(acc, n));
            j = j + 1;
        }
        proof {
            assert(coords@ =~= centroid_of(self.ms()));
        }
        Point(coords)
    }

    /// The length-N residual vector of the model at `position`.
    pub fn eval(&self, position: &Point) -> (r: Vec<i64>)
        requires
            valid_measurements(self.ms()),
            position.0@.len() == dimension_of(self.ms()),
        ensures
            r@.len() == self.ms().len(),
            forall|i: int|
                0 <= i < r@.len() ==> #[trigger] r@[i] as int == residual_spec(
                    self.ms(),
                    position.0@,
                    i,
                ),
            r@ == residuals_of(self.ms(), position.0@),
    {
        let n: usize = self.measurements.len();
        let d: usize = position.0.len();
        let mut out: Vec<i64> = Vec::new();
        let mut i: usize = 0;
        while i < n
            invariant
                valid_measurements(self.ms()),
                d == dimension_of(self.ms()),
                d == position.0@.len(),
                n == self.ms().len(),
                i <= n,
                out@.len() == i,
                forall|ii: int|
                    0 <= ii < i ==> #[trigger] out@[ii] as int == residual_spec(
                        self.ms(),
                        position.0@,
                        ii,
                    ),
            decreases n - i,
        {
            let mut acc: i64 = 0;
            let mut j: usize = 0;
            while j < d
                invariant
                    valid_measurements(self.ms()),
                    d == dimension_of(self.ms()),
                    d == position.0@.len(),
                    n == self.ms().len(),
                    i < n,
                    j <= d,
                    acc as int == sq_dist_partial(position.0@, self.ms()[i as int].anchor(), j as int),
                decreases d - j,
            {
                let diff: i64 = fx_sub(position.0[j], self.measurements[i].anchor_coord(j));
                acc = fx_add(acc, fx_mul(diff, diff));
                j = j + 1;
            }
            let dist: i64 = self.measurements[i].distance_value();
            out.push(fx_sub(acc, fx_mul(dist, dist)));
            i = i + 1;
        }
        proof {
            assert(out@ =~= residuals_of(self.ms(), position.0@));
        }
        out
    }

    /// The N-by-D Jacobian of the residual vector at `position`, row `i`
    /// holding the derivatives of residual `i`.
    pub fn jacobian(&self, position: &Point) -> (r: Vec<Vec<i64>>)
        requires
            valid_measurements(self.ms()),
            position.0@.len() == dimension_of(self.ms()),
        ensures
            r@.len() == self.ms().len(),
            forall|i: int| 0 <= i < r@.len() ==> #[trigger] r@[i]@.len() == position.0@.len(),
            forall|i: int, j: int|
                0 <= i < r@.len() && 0 <= j < position.0@.len() ==> #[trigger] r@[i]@[j] as int
                    == jacobian_entry_spec(self.ms(), position.0@, i, j),
            matrix_view(r@) == jacobian_of(self.ms(), position.0@),
    {
        let n: usize = self.measurements.len();
        let d: usize = position.0.len();
        let mut out: Vec<Vec<i64>> = Vec::new();
        let mut i: usize = 0;
        while i < n
            invariant
                valid_measurements(self.ms()),
                d == dimension_of(self.ms()),
                d == position.0@.len(),
                n == self.ms().len(),
                i <= n,
                out@.len() == i,
                forall|ii: int| 0 <= ii < i ==> #[trigger] out@[ii]@.len() == d,
                forall|ii: int, jj: int|
                    0 <= ii < i && 0 <= jj < d ==> #[trigger] out@[ii]@[jj] as int
                        == jacobian_entry_spec(self.ms(), position.0@, ii, jj),
            decreases n - i,
        {
            let mut row: Vec<i64> = Vec::new();
            let mut j: usize = 0;
            while j < d
                invariant
                    valid_measurements(self.ms()),
                    d == dimension_of(self.ms()),
                    d == position.0@.len(),
                    n == self.ms().len(),
                    i < n,
                    j <= d,
                    row@.len() == j,
                    forall|jj: int|
                        0 <= jj < j ==> #[trigger] row@[jj] as int == jacobian_entry_spec(
                            self.ms(),
                            position.0@,
                            i as int,
                            jj,
                        ),
                decreases d - j,
            {
                let diff: i64 = fx_sub(position.0[j], self.measurements[i].anchor_coord(j));
                row.push(fx_add(diff, diff));
                j = j + 1;
            }
            out.push(row);
            i = i + 1;
        }
        proof {
            assert(matrix_view(out@) =~~= jacobian_of(self.ms(), position.0@));
        }
        out
    }
}

} // verus!
