//! Piecewise-linear lookup over a table of breakpoints.
//!
//! Breakpoints and values are binary64 numbers held as bit patterns. The
//! library decides, for a query, whether it fails, hits a breakpoint exactly,
//! or falls between two neighbours; the caller then blends the two
//! neighbouring values with the fraction `(x - x_lo) / (x_hi - x_lo)`.
use vstd::prelude::*;
use crate::float_order::{is_nan, is_nan_bits, lemma_total_key_injective, numeric_key, order_key, total_key, value_key};

verus! {

/// Why a query could not be answered.
#[derive(Debug, PartialEq, Clone, Copy)]
pub enum InterpolationError {
    /// The query lies outside the table's first and last breakpoints.
    OutOfBounds { x: u64, x_min: u64, x_max: u64 },
    /// The query is not a number.
    NaN,
    /// The table holds no breakpoint.
    EmptyTable,
    /// The table holds a different number of values than of breakpoints.
    LengthMismatch { x_len: usize, y_len: usize },
    /// The two vector values to blend differ in length.
    DimensionMismatch { lower_len: usize, upper_len: usize },
}

/// Where a query falls in the table.
#[derive(Debug, PartialEq, Clone, Copy)]
pub enum Bracket {
    /// The breakpoint at `index` equals the query.
    Exact { index: usize },
    /// The query lies strictly between the breakpoints at `upper - 1` and `upper`.
    Between { upper: usize },
}

/// The answer to a query: a breakpoint's own value, or the two neighbouring
/// samples that a linear blend is taken between.
#[derive(Debug, PartialEq)]
pub enum Interpolation<T> {
    /// The query hits the stored breakpoint `x`, whose value is `y`: it equals
    /// it, or is a zero lying beyond an end zero of the other sign.
    Exact { x: u64, y: T },
    /// The query `x` lies strictly between the breakpoints `x_lo` and `x_hi`,
    /// whose values are `y_lo` and `y_hi`.
    Blend { x: u64, x_lo: u64, x_hi: u64, y_lo: T, y_hi: T },
}

/// A table of breakpoints `x_vals`, ascending in the total order, each paired
/// with the value at the same position of `y_vals`.
#[derive(Debug, Clone)]
pub struct Interpolator<T> {
    pub x_vals: Vec<u64>,
    pub y_vals: Vec<T>,
}

/// The breakpoints never descend in the total order.
pub open spec fn is_sorted(xs: Seq<u64>) -> bool {
    forall|i: int, j: int|
        0 <= i < j < xs.len() ==> total_key(#[trigger] xs[i]) <= total_key(#[trigger] xs[j])
}

/// The first failure, in the order they are checked, that a query meets on a
/// table with breakpoints `xs` and `y_len` values; `None` when it is answered.
pub open spec fn query_failure(x: u64, xs: Seq<u64>, y_len: nat) -> Option<InterpolationError> {
    if is_nan_bits(x) {
        Some(InterpolationError::NaN)
    } else if xs.len() == 0 {
        Some(InterpolationError::EmptyTable)
    } else if y_len != xs.len() {
        Some(InterpolationError::LengthMismatch { x_len: xs.len() as usize, y_len: y_len as usize })
    } else if numeric_key(x) < numeric_key(xs[0]) || numeric_key(x) > numeric_key(xs.last()) {
        Some(InterpolationError::OutOfBounds { x, x_min: xs[0], x_max: xs.last() })
    } else {
        None
    }
}

/// `b` places the query `x` among the breakpoints `xs` by the total order,
/// and on a sorted table a breakpoint equal to `x` is always found. A zero
/// within the table's bounds by value, but beyond an end zero of the other
/// sign by the total order, hits that end.
pub open spec fn locates(xs: Seq<u64>, x: u64, b: Bracket) -> bool {
    &&& match b {
        Bracket::Exact { index } => {
            &&& index < xs.len()
            &&& {
                ||| xs[index as int] == x
                ||| index == 0 && total_key(x) < total_key(xs[0])
                ||| index == xs.len() - 1 && total_key(x) > total_key(xs.last())
            }
        },
        Bracket::Between { upper } => {
            &&& 0 < upper < xs.len()
            &&& total_key(xs[upper - 1]) < total_key(x) < total_key(xs[upper as int])
        },
    }
    &&& is_sorted(xs) && xs.contains(x) ==> b is Exact
}

/// `out` is what bracket `b` gives for the query `x` on breakpoints `xs` and values `ys`.
pub open spec fn answers<Y>(xs: Seq<u64>, ys: Seq<Y>, x: u64, b: Bracket, out: Interpolation<Y>) -> bool {
    match b {
        Bracket::Exact { index } => out == Interpolation::Exact { x: xs[index as int], y: ys[index as int] },
        Bracket::Between { upper } => out == (Interpolation::Blend {
            x,
            x_lo: xs[upper - 1],
            x_hi: xs[upper as int],
            y_lo: ys[upper - 1],
            y_hi: ys[upper as int],
        }),
    }
}

/// `out` is a correct answer to the query `x` on breakpoints `xs` and values `ys`.
pub open spec fn interpolates<Y>(xs: Seq<u64>, ys: Seq<Y>, x: u64, out: Interpolation<Y>) -> bool {
    exists|b: Bracket| locates(xs, x, b) && #[trigger] answers(xs, ys, x, b, out)
}

/// The breakpoint that an answer reports: the one hit on an exact hit, else
/// the upper neighbour.
pub open spec fn matched_x_of<Y>(out: Interpolation<Y>) -> u64 {
    match out {
        Interpolation::Exact { x, .. } => x,
        Interpolation::Blend { x_hi, .. } => x_hi,
    }
}

/// Binary search, by the total order, for `x` among breakpoints whose ends
/// enclose it by value.
fn search(xs: &Vec<u64>, x: u64) -> (b: Bracket)
    requires
        xs.len() > 0,
        numeric_key(xs[0]) <= numeric_key(x) <= numeric_key(xs@.last()),
    ensures
        locates(xs@, x, b),
{
    let kx = order_key(x);
    let n = xs.len();
    let k_first = order_key(xs[0]);
    let k_last = order_key(xs[n - 1]);
    if kx <= k_first {
        proof { lemma_total_key_injective(xs[0], x); }
        return Bracket::Exact { index: 0 };
    }
    if kx >= k_last {
        proof { lemma_total_key_injective(xs[n - 1], x); }
        return Bracket::Exact { index: n - 1 };
    }
    let mut lo: usize = 0;
    let mut hi: usize = n - 1;
    while hi - lo > 1
        invariant
            n == xs.len(),
            kx as int == total_key(x),
            lo < hi < n,
            total_key(xs[lo as int]) < total_key(x) < total_key(xs[hi as int]),
            is_sorted(xs@) ==> forall|j: int| 0 <= j < n && #[trigger] xs@[j] == x ==> lo < j < hi,
        decreases hi - lo,
    {
        let mid: usize = lo + (hi - lo) / 2;
        let km = order_key(xs[mid]);
        if km == kx {
            proof { lemma_total_key_injective(xs[mid as int], x); }
            return Bracket::Exact { index: mid };
        } else if km < kx {
            lo = mid;
        } else {
            hi = mid;
        }
    }
    assert(is_sorted(xs@) ==> !xs@.contains(x));
    Bracket::Between { upper: hi }
}

impl<T> Interpolator<T> {
    /// Where the query `x` falls in the table, or why it cannot be answered.
    pub fn locate(&self, x: u64) -> (r: Result<Bracket, InterpolationError>)
        ensures
            match query_failure(x, self.x_vals@, self.y_vals@.len()) {
                Some(e) => r == Err::<Bracket, InterpolationError>(e),
                None => r is Ok && locates(self.x_vals@, x, r->Ok_0),
            },
    {
        if is_nan(x) {
            return Err(InterpolationError::NaN);
        }
        let n = self.x_vals.len();
        if n == 0 {
            return Err(InterpolationError::EmptyTable);
        }
        if self.y_vals.len() != n {
            return Err(InterpolationError::LengthMismatch { x_len: n, y_len: self.y_vals.len() });
        }
        let kx = value_key(x);
        if kx < value_key(self.x_vals[0]) || kx > value_key(self.x_vals[n - 1]) {
            return Err(InterpolationError::OutOfBounds { x, x_min: self.x_vals[0], x_max: self.x_vals[n - 1] });
        }
        Ok(search(&self.x_vals, x))
    }
}

impl<T> Interpolation<T> {
    /// The breakpoint that the answer reports: the one hit on an exact hit,
    /// else the upper neighbour.
    pub fn matched_x(&self) -> (r: u64)
        ensures
            r == matched_x_of(*self),
    {
        match self {
            Interpolation::Exact { x, .. } => *x,
            Interpolation::Blend { x_hi, .. } => *x_hi,
        }
    }
}

/// An answer over vector values, seen through the views of its vectors.
pub open spec fn view_nd(out: Interpolation<Vec<u64>>) -> Interpolation<Seq<u64>> {
    match out {
        Interpolation::Exact { x, y } => Interpolation::Exact { x, y: y@ },
        Interpolation::Blend { x, x_lo, x_hi, y_lo, y_hi } => Interpolation::Blend {
            x,
            x_lo,
            x_hi,
            y_lo: y_lo@,
            y_hi: y_hi@,
        },
    }
}

impl<T> Default for Interpolator<T> {
    /// An empty table.
    fn default() -> (r: Self)
        ensures
            r.x_vals@.len() == 0,
            r.y_vals@.len() == 0,
    {
        Interpolator { x_vals: Vec::new(), y_vals: Vec::new() }
    }
}

impl<T: Clone> Interpolator<T> {
    /// An empty table.
    pub fn new() -> (r: Self)
        ensures
            r.x_vals@.len() == 0,
            r.y_vals@.len() == 0,
    {
        Interpolator { x_vals: Vec::new(), y_vals: Vec::new() }
    }

    /// Replaces the table with copies of the given breakpoints and values.
    /// Nothing is checked here: a query reports what is wrong with the table.
    pub fn init(&mut self, x_vals: &[u64], y_vals: &[T])
        ensures
            final(self).x_vals@ == x_vals@,
            final(self).y_vals@.len() == y_vals@.len(),
            forall|i: int| 0 <= i < y_vals@.len() ==> cloned(y_vals@[i], #[trigger] final(self).y_vals@[i]),
    {
        let mut xs: Vec<u64> = Vec::new();
        let mut i: usize = 0;
        while i < x_vals.len()
            invariant
                i <= x_vals@.len(),
                xs@ == x_vals@.subrange(0, i as int),
            decreases x_vals@.len() - i,
        {
            xs.push(x_vals[i]);
            i = i + 1;
        }
        let mut ys: Vec<T> = Vec::new();
        let mut j: usize = 0;
        while j < y_vals.len()
            invariant
                j <= y_vals@.len(),
                ys@.len() == j,
                forall|k: int| 0 <= k < j ==> cloned(y_vals@[k], #[trigger] ys@[k]),
            decreases y_vals@.len() - j,
        {
            ys.push(y_vals[j].clone());
            j = j + 1;
        }
        assert(xs@ == x_vals@);
        self.x_vals = xs;
        self.y_vals = ys;
    }
}

impl Interpolator<u64> {
    /// Answers the query `x` on a table of single values.
    pub fn interpolate(&self, x: u64) -> (r: Result<Interpolation<u64>, InterpolationError>)
        ensures
            match query_failure(x, self.x_vals@, self.y_vals@.len()) {
                Some(e) => r == Err::<Interpolation<u64>, InterpolationError>(e),
                None => r is Ok && interpolates(self.x_vals@, self.y_vals@, x, r->Ok_0),
            },
    {
        let b = self.locate(x)?;
        let out = match b {
            Bracket::Exact { index } => Interpolation::Exact { x: self.x_vals[index], y: self.y_vals[index] },
            Bracket::Between { upper } => Interpolation::Blend {
                x,
                x_lo: self.x_vals[upper - 1],
                x_hi: self.x_vals[upper],
                y_lo: self.y_vals[upper - 1],
                y_hi: self.y_vals[upper],
            },
        };
        assert(answers(self.x_vals@, self.y_vals@, x, b, out));
        Ok(out)
    }
}

/// The views of a table's vector values.
pub open spec fn views(ys: Seq<Vec<u64>>) -> Seq<Seq<u64>> {
    ys.map_values(|v: Vec<u64>| v@)
}

/// A copy of a vector value, element for element.
fn copy_values(v: &Vec<u64>) -> (r: Vec<u64>)
    ensures
        r@ == v@,
{
    let mut r: Vec<u64> = Vec::new();
    let mut i: usize = 0;
    while i < v.len()
        invariant
            i <= v@.len(),
            r@ == v@.subrange(0, i as int),
        decreases v@.len() - i,
    {
        r.push(v[i]);
        i = i + 1;
    }
    assert(r@ == v@);
    r
}

/// The failure that blending over bracket `b` meets on vector values `ys`:
/// neighbours of different lengths.
pub open spec fn dimension_failure(ys: Seq<Seq<u64>>, b: Bracket) -> Option<InterpolationError> {
    match b {
        Bracket::Between { upper } => if ys[upper - 1].len() != ys[upper as int].len() {
            Some(InterpolationError::DimensionMismatch {
                lower_len: ys[upper - 1].len() as usize,
                upper_len: ys[upper as int].len() as usize,
            })
        } else {
            None
        },
        Bracket::Exact { .. } => None,
    }
}

impl Interpolator<Vec<u64>> {
    /// Answers the query `x` on a table of vector values; every component
    /// shares the one bracket. Two neighbours to blend must hold as many
    /// components.
    pub fn interpolate(&self, x: u64) -> (r: Result<Interpolation<Vec<u64>>, InterpolationError>)
        ensures
            match query_failure(x, self.x_vals@, self.y_vals@.len()) {
                Some(e) => r == Err::<Interpolation<Vec<u64>>, InterpolationError>(e),
                None => match r {
                    Ok(out) => exists|b: Bracket| {
                        &&& locates(self.x_vals@, x, b)
                        &&& #[trigger] answers(self.x_vals@, views(self.y_vals@), x, b, view_nd(out))
                        &&& dimension_failure(views(self.y_vals@), b) is None
                    },
                    Err(e) => exists|b: Bracket| {
                        &&& #[trigger] locates(self.x_vals@, x, b)
                        &&& dimension_failure(views(self.y_vals@), b) == Some(e)
                    },
                },
            },
    {
        let b = self.locate(x)?;
        if let Bracket::Between { upper } = b {
            let lower_len = self.y_vals[upper - 1].len();
            let upper_len = self.y_vals[upper].len();
            if lower_len != upper_len {
                assert(dimension_failure(views(self.y_vals@), b) == Some(InterpolationError::DimensionMismatch { lower_len, upper_len }));
                return Err(InterpolationError::DimensionMismatch { lower_len, upper_len });
            }
        }
        let out = match b {
            Bracket::Exact { index } => Interpolation::Exact {
                x: self.x_vals[index],
                y: copy_values(&self.y_vals[index]),
            },
            Bracket::Between { upper } => Interpolation::Blend {
                x,
                x_lo: self.x_vals[upper - 1],
                x_hi: self.x_vals[upper],
                y_lo: copy_values(&self.y_vals[upper - 1]),
                y_hi: copy_values(&self.y_vals[upper]),
            },
        };
        assert(answers(self.x_vals@, views(self.y_vals@), x, b, view_nd(out)));
        assert(dimension_failure(views(self.y_vals@), b) is None);
        Ok(out)
    }
}

/// The breakpoints strictly ascend in the total order.
pub open spec fn is_strictly_sorted(xs: Seq<u64>) -> bool {
    forall|i: int, j: int|
        0 <= i < j < xs.len() ==> total_key(#[trigger] xs[i]) < total_key(#[trigger] xs[j])
}

/// On a sorted table, a query strictly between two consecutive breakpoints in
/// the total order is answered by a blend of exactly those two samples, and
/// the upper breakpoint is the one reported.
pub proof fn lemma_between_consecutive<Y>(xs: Seq<u64>, ys: Seq<Y>, x: u64, i: int, out: Interpolation<Y>)
    requires
        is_sorted(xs),
        0 < i < xs.len(),
        total_key(xs[i - 1]) < total_key(x) < total_key(xs[i]),
        interpolates(xs, ys, x, out),
    ensures
        out == (Interpolation::Blend { x, x_lo: xs[i - 1], x_hi: xs[i], y_lo: ys[i - 1], y_hi: ys[i] }),
        matched_x_of(out) == xs[i],
{
    let b = choose|b: Bracket| locates(xs, x, b) && #[trigger] answers(xs, ys, x, b, out);
    assert(total_key(xs[0]) <= total_key(xs[i - 1]));
    assert(total_key(xs[i]) <= total_key(xs.last()));
    match b {
        Bracket::Exact { index } => {
            if index < i {
                assert(total_key(xs[index as int]) <= total_key(xs[i - 1]));
            } else {
                assert(total_key(xs[i]) <= total_key(xs[index as int]));
            }
        },
        Bracket::Between { upper } => {
            if upper < i {
                assert(total_key(xs[upper as int]) <= total_key(xs[i - 1]));
            } else if upper > i {
                assert(total_key(xs[i]) <= total_key(xs[upper - 1]));
            }
        },
    }
}

/// On a strictly ascending table, a query equal to a breakpoint is answered
/// with that breakpoint and its value, untouched.
pub proof fn lemma_exact_hit<Y>(xs: Seq<u64>, ys: Seq<Y>, i: int, out: Interpolation<Y>)
    requires
        is_strictly_sorted(xs),
        0 <= i < xs.len(),
        interpolates(xs, ys, xs[i], out),
    ensures
        out == (Interpolation::Exact { x: xs[i], y: ys[i] }),
        matched_x_of(out) == xs[i],
{
    let x = xs[i];
    assert(is_sorted(xs));
    assert(xs.contains(x));
    let b = choose|b: Bracket| locates(xs, x, b) && #[trigger] answers(xs, ys, x, b, out);
    if i > 0 {
        assert(total_key(xs[0]) < total_key(xs[i]));
    }
    if i < xs.len() - 1 {
        assert(total_key(xs[i]) < total_key(xs.last()));
    }
    if let Bracket::Exact { index } = b {
        if index < i {
            assert(total_key(xs[index as int]) < total_key(xs[i]));
        } else if index > i {
            assert(total_key(xs[i]) < total_key(xs[index as int]));
        }
    }
}

/// The values of component `k` of every sample.
pub open spec fn column(ys: Seq<Seq<u64>>, k: int) -> Seq<u64> {
    ys.map_values(|v: Seq<u64>| v[k])
}

/// Component `k` of an answer over vector values.
pub open spec fn component(out: Interpolation<Seq<u64>>, k: int) -> Interpolation<u64> {
    match out {
        Interpolation::Exact { x, y } => Interpolation::Exact { x, y: y[k] },
        Interpolation::Blend { x, x_lo, x_hi, y_lo, y_hi } => Interpolation::Blend {
            x,
            x_lo,
            x_hi,
            y_lo: y_lo[k],
            y_hi: y_hi[k],
        },
    }
}

/// A table of vector values is interpolated component by component: each
/// component of an answer is an answer on the table of that component alone,
/// over the same breakpoints and with the same bracket (hence the same fraction).
pub proof fn lemma_by_component(xs: Seq<u64>, ys: Seq<Seq<u64>>, x: u64, out: Interpolation<Seq<u64>>, k: int)
    requires
        xs.len() == ys.len(),
        0 <= k,
        forall|i: int| 0 <= i < ys.len() ==> k < #[trigger] ys[i].len(),
        interpolates(xs, ys, x, out),
    ensures
        interpolates(xs, column(ys, k), x, component(out, k)),
{
    let b = choose|b: Bracket| locates(xs, x, b) && #[trigger] answers(xs, ys, x, b, out);
    assert(answers(xs, column(ys, k), x, b, component(out, k)));
}

} // verus!
