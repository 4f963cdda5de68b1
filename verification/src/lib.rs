//! Reconstruction of data points from compressed time-series segments and
//! buffering of compressed segments before they are persisted.
//!
//! The crate models the write-to-read path of a model-based time-series
//! store: [`buffer::CompressedDataBuffer`] accumulates batches of compressed
//! segments for one table column and prepares them for an atomic flush to a
//! sorted columnar file, while [`grid_exec::GridExec`] and
//! [`grid_stream::GridStream`] describe the query-side plan node and the
//! per-partition stream that turns segments back into sorted batches of
//! `(univariate id, timestamp, value)` data points.

pub mod buffer;
pub mod grid_exec;
pub mod grid_stream;
pub mod segments;

use vstd::prelude::*;

verus! {

/// A data point reconstructed from a compressed segment.
///
/// `value` holds the bit pattern of the reconstructed 32-bit floating-point
/// value; the crate never interprets it, it only carries it through.
#[derive(Clone, Copy, PartialEq, Eq, Structural, Debug)]
pub struct DataPoint {
    /// Identifier of the univariate time series the data point belongs to.
    pub univariate_id: u64,
    /// Timestamp of the data point.
    pub timestamp: i64,
    /// Bit pattern of the reconstructed value.
    pub value: u32,
}

/// Total order on data points: by univariate id, then by timestamp.
pub open spec fn point_le(a: DataPoint, b: DataPoint) -> bool {
    a.univariate_id < b.univariate_id
        || (a.univariate_id == b.univariate_id && a.timestamp <= b.timestamp)
}

/// A sequence of data points is in point-order: non-decreasing in
/// (univariate id, timestamp).
pub open spec fn points_sorted(s: Seq<DataPoint>) -> bool {
    forall|i: int, j: int| 0 <= i <= j < s.len() ==> point_le(s[i], s[j])
}

/// `n`, saturated at the largest value a `usize` can hold.
pub open spec fn saturated(n: nat) -> nat {
    if n > usize::MAX {
        usize::MAX as nat
    } else {
        n
    }
}

/// Saturating addition on `usize`.
pub(crate) fn sat_add(a: usize, b: usize) -> (r: usize)
    ensures
        r == saturated((a + b) as nat),
{
    if a <= usize::MAX - b {
        a + b
    } else {
        usize::MAX
    }
}

} // verus!
