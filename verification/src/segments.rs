//! The fixed columnar schemas for compressed segments and reconstructed data
//! points, and the encoding of univariate series identifiers.

use vstd::prelude::*;

verus! {

/// One compressed segment: a contiguous time range of one univariate series
/// represented by a fitted model, bounds, and residuals.
///
/// The fields mirror the ten columns of the compressed schema in order. The
/// three floating-point columns (`min_value`, `max_value`, `error`) are
/// carried as 32-bit patterns; the crate never interprets them.
#[derive(Clone, PartialEq, Eq, Debug)]
pub struct CompressedSegment {
    /// Identifier of the univariate time series the segment belongs to.
    pub univariate_id: u64,
    /// Identifier of the model that reconstructs the segment's data points.
    pub model_type_id: u8,
    /// Inclusive start time of the segment.
    pub start_time: i64,
    /// Inclusive end time of the segment.
    pub end_time: i64,
    /// Encoded timestamp sequence for the segment.
    pub timestamps: Vec<u8>,
    /// Bit pattern of the lower bound on the reconstructed values.
    pub min_value: u32,
    /// Bit pattern of the upper bound on the reconstructed values.
    pub max_value: u32,
    /// Encoded value model parameters.
    pub values: Vec<u8>,
    /// Encoded residual corrections, possibly empty.
    pub residuals: Vec<u8>,
    /// Bit pattern of the per-segment error bound metadata.
    pub error: u32,
}

/// The data type of one column in a columnar schema.
#[derive(Clone, Copy, PartialEq, Eq, Structural, Debug)]
pub enum ColumnType {
    /// Unsigned 64-bit integer.
    UInt64,
    /// Unsigned 8-bit integer.
    UInt8,
    /// 64-bit timestamp.
    Timestamp,
    /// Variable-length binary data.
    Binary,
    /// 32-bit floating-point value.
    Float32,
}

/// The columns of a compressed-segment batch, in order.
pub open spec fn compressed_schema_spec() -> Seq<ColumnType> {
    seq![
        ColumnType::UInt64,
        ColumnType::UInt8,
        ColumnType::Timestamp,
        ColumnType::Timestamp,
        ColumnType::Binary,
        ColumnType::Float32,
        ColumnType::Float32,
        ColumnType::Binary,
        ColumnType::Binary,
        ColumnType::Float32,
    ]
}

/// The columns of a data-point batch, in order.
pub open spec fn query_schema_spec() -> Seq<ColumnType> {
    seq![ColumnType::UInt64, ColumnType::Timestamp, ColumnType::Float32]
}

/// Return the compressed-segment schema as a vector of column types.
pub fn compressed_schema() -> (r: Vec<ColumnType>)
    ensures
        r@ == compressed_schema_spec(),
{
    let r = vec![
        ColumnType::UInt64,
        ColumnType::UInt8,
        ColumnType::Timestamp,
        ColumnType::Timestamp,
        ColumnType::Binary,
        ColumnType::Float32,
        ColumnType::Float32,
        ColumnType::Binary,
        ColumnType::Binary,
        ColumnType::Float32,
    ];
    proof {
        assert(r@ =~= compressed_schema_spec());
    }
    r
}

/// Return the data-point schema as a vector of column types.
pub fn query_schema() -> (r: Vec<ColumnType>)
    ensures
        r@ == query_schema_spec(),
{
    let r = vec![ColumnType::UInt64, ColumnType::Timestamp, ColumnType::Float32];
    proof {
        assert(r@ =~= query_schema_spec());
    }
    r
}

/// One key of a sort order over a columnar schema: a column index and its
/// direction.
#[derive(Clone, Copy, PartialEq, Eq, Structural, Debug)]
pub struct SortColumn {
    /// Index of the column in the schema the order applies to.
    pub column_index: usize,
    /// Whether the column is sorted descending (all orders in this crate are
    /// ascending, so this is always false).
    pub descending: bool,
    /// Whether nulls are sorted before all other values.
    pub nulls_first: bool,
}

/// The point-order invariant: data-point batches are sorted by
/// (univariate_id, timestamp), both ascending.
pub open spec fn query_order_data_point_spec() -> Seq<SortColumn> {
    seq![
        SortColumn { column_index: 0, descending: false, nulls_first: false },
        SortColumn { column_index: 1, descending: false, nulls_first: false },
    ]
}

/// The segment-order invariant: compressed-segment batches are sorted by
/// (univariate_id, start_time), both ascending.
pub open spec fn query_order_segment_spec() -> Seq<SortColumn> {
    seq![
        SortColumn { column_index: 0, descending: false, nulls_first: false },
        SortColumn { column_index: 2, descending: false, nulls_first: false },
    ]
}

/// Extract the index of the column a univariate series belongs to from its
/// identifier: the ten low bits of the identifier encode the column index.
pub fn univariate_id_to_column_index(univariate_id: u64) -> (r: u16)
    ensures
        r == univariate_id % 1024,
{
    (univariate_id % 1024) as u16
}

} // verus!
