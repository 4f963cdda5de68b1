//! The plan node that reconstructs data points from compressed segments.
//!
//! [`GridExec`] answers, without executing, everything the host query engine
//! asks of a pipeline node: output schema, orderings, required input
//! ordering and distribution, statistics, and a display string; and it
//! spawns one [`GridStream`] per partition. It is generic over the engine's
//! predicate expression type `P` and child plan type `C`, which it only
//! carries: the predicate is evaluated outside this crate and reaches the
//! stream as a boolean mask.

use vstd::prelude::*;
use vstd::string::StringExecFns;

use crate::grid_stream::{GridStream, GridStreamMetrics};
use crate::segments::{
    query_order_data_point_spec, query_order_segment_spec, query_schema, query_schema_spec,
    ColumnType, SortColumn,
};

verus! {

/// A planning error: the node was given a wrong number of children.
#[derive(Clone, Copy, PartialEq, Eq, Structural, Debug)]
pub struct PlanError {
    /// The number of children that was offered instead of exactly one.
    pub child_count: usize,
}

/// Declared statistics of a plan node's output.
#[derive(Clone, Copy, PartialEq, Eq, Structural, Debug)]
pub enum PlanStatistics {
    /// Nothing is known about the output.
    Unknown,
}

/// Required distribution of a plan node's input.
#[derive(Clone, Copy, PartialEq, Eq, Structural, Debug)]
pub enum Distribution {
    /// The input must arrive as a single partition, so that its global sort
    /// order is the sort order the stream sees.
    SinglePartition,
}

/// The character for one decimal digit.
pub open spec fn digit_char(d: nat) -> char {
    if d == 0 {
        '0'
    } else if d == 1 {
        '1'
    } else if d == 2 {
        '2'
    } else if d == 3 {
        '3'
    } else if d == 4 {
        '4'
    } else if d == 5 {
        '5'
    } else if d == 6 {
        '6'
    } else if d == 7 {
        '7'
    } else if d == 8 {
        '8'
    } else {
        '9'
    }
}

/// The decimal digits of `n`, most significant first.
pub open spec fn decimal_spec(n: nat) -> Seq<char>
    decreases n,
{
    if n < 10 {
        seq![digit_char(n)]
    } else {
        decimal_spec(n / 10).push(digit_char(n % 10))
    }
}

/// The display string of a [`GridExec`] with the given limit.
pub open spec fn display_spec(limit: Option<usize>) -> Seq<char> {
    match limit {
        None => "GridExec: limit=None"@,
        Some(l) => "GridExec: limit=Some("@ + decimal_spec(l as nat) + ")"@,
    }
}

/// Append the decimal digits of `n` to `s`, most significant first.
fn append_decimal(s: &mut String, n: u64)
    ensures
        final(s)@ == old(s)@ + decimal_spec(n as nat),
    decreases n,
{
    let ghost prefix = s@;
    if n >= 10 {
        append_decimal(s, n / 10);
    }
    let d = n % 10;
    let digit: &str = if d == 0 {
        "0"
    } else if d == 1 {
        "1"
    } else if d == 2 {
        "2"
    } else if d == 3 {
        "3"
    } else if d == 4 {
        "4"
    } else if d == 5 {
        "5"
    } else if d == 6 {
        "6"
    } else if d == 7 {
        "7"
    } else if d == 8 {
        "8"
    } else {
        "9"
    };
    proof {
        reveal_strlit("0");
        reveal_strlit("1");
        reveal_strlit("2");
        reveal_strlit("3");
        reveal_strlit("4");
        reveal_strlit("5");
        reveal_strlit("6");
        reveal_strlit("7");
        reveal_strlit("8");
        reveal_strlit("9");
        assert(digit@ =~= seq![digit_char((n % 10) as nat)]);
    }
    s.append(digit);
    proof {
        if n >= 10 {
            assert(decimal_spec(n as nat) == decimal_spec((n as nat) / 10).push(
                digit_char((n as nat) % 10),
            ));
            assert((n / 10) as nat == (n as nat) / 10);
            assert((n % 10) as nat == (n as nat) % 10);
            assert(s@ =~= prefix + decimal_spec(n as nat));
        } else {
            assert(decimal_spec(n as nat) == seq![digit_char(n as nat)]);
            assert(s@ =~= prefix + decimal_spec(n as nat));
        }
    }
}

/// The execution-plan node that reconstructs the data points stored as
/// compressed segments containing metadata and models.
///
/// `P` is the engine's predicate expression type and `C` its child plan
/// type; both are opaque payloads here.
#[derive(Clone, Debug)]
pub struct GridExec<P, C> {
    /// Predicate to filter data points by, if one was pushed down.
    pub maybe_predicate: Option<P>,
    /// Number of data points requested by the query, if a limit was pushed
    /// down.
    pub limit: Option<usize>,
    /// The plan that batches of compressed segments are read from.
    pub input: C,
}

impl<P, C> GridExec<P, C> {
    /// Create a plan node over `input` with an optional predicate and an
    /// optional row limit.
    pub fn new(maybe_predicate: Option<P>, limit: Option<usize>, input: C) -> (r: GridExec<P, C>)
        ensures
            r == (GridExec { maybe_predicate, limit, input }),
    {
        GridExec { maybe_predicate, limit, input }
    }

    /// The output schema: the data-point schema.
    pub fn schema(&self) -> (r: Vec<ColumnType>)
        ensures
            r@ == query_schema_spec(),
    {
        query_schema()
    }

    /// The single plan that batches of compressed segments are read from.
    pub fn children(&self) -> (r: &C)
        ensures
            *r == self.input,
    {
        &self.input
    }

    /// Return a new node with the input plan replaced. Fails with a
    /// [`PlanError`] unless exactly one child is provided; the predicate and
    /// the limit are preserved.
    pub fn with_new_children(self, children: Vec<C>) -> (r: Result<GridExec<P, C>, PlanError>)
        ensures
            children@.len() == 1 ==> r == Ok::<GridExec<P, C>, PlanError>(
                GridExec {
                    maybe_predicate: self.maybe_predicate,
                    limit: self.limit,
                    input: children@[0],
                },
            ),
            children@.len() != 1 ==> r == Err::<GridExec<P, C>, PlanError>(
                PlanError { child_count: children@.len() as usize },
            ),
    {
        let mut children = children;
        if children.len() == 1 {
            let child = match children.pop() {
                Some(c) => c,
                None => unreached(),
            };
            Ok(GridExec { maybe_predicate: self.maybe_predicate, limit: self.limit, input: child })
        } else {
            Err(PlanError { child_count: children.len() })
        }
    }

    /// Create the stream that reconstructs this node's partition of data
    /// points, bound to the engine's configured batch size. The stream's
    /// effective batch size is the engine batch size, narrowed by the limit
    /// when one is set.
    pub fn execute(&self, batch_size: usize) -> (r: GridStream)
        ensures
            r.wf(),
            r.batch_size == GridStream::effective_batch_size(self.limit, batch_size),
            r.emitted@ == Seq::<crate::DataPoint>::empty(),
            r.pushed@ == Seq::<crate::DataPoint>::empty(),
            r.unfiltered@ == true,
            r.pending() == Seq::<crate::DataPoint>::empty(),
            r.metrics == (GridStreamMetrics { num_polls: 0, output_rows: 0 }),
    {
        let r = GridStream::new(self.limit, batch_size);
        proof {
            assert(r.pending() =~= Seq::<crate::DataPoint>::empty());
        }
        r
    }

    /// The output ordering: the point-order invariant.
    pub fn output_ordering(&self) -> (r: Vec<SortColumn>)
        ensures
            r@ == query_order_data_point_spec(),
    {
        let r = vec![
            SortColumn { column_index: 0, descending: false, nulls_first: false },
            SortColumn { column_index: 1, descending: false, nulls_first: false },
        ];
        proof {
            assert(r@ =~= query_order_data_point_spec());
        }
        r
    }

    /// The ordering the input must provide: the segment-order invariant.
    pub fn required_input_ordering(&self) -> (r: Vec<SortColumn>)
        ensures
            r@ == query_order_segment_spec(),
    {
        let r = vec![
            SortColumn { column_index: 0, descending: false, nulls_first: false },
            SortColumn { column_index: 2, descending: false, nulls_first: false },
        ];
        proof {
            assert(r@ =~= query_order_segment_spec());
        }
        r
    }

    /// The input must arrive as a single partition: the engine only
    /// guarantees the sort order within each partition, and the stream
    /// depends on the global order.
    pub fn required_input_distribution(&self) -> (r: Distribution)
        ensures
            r == Distribution::SinglePartition,
    {
        Distribution::SinglePartition
    }

    /// The orderings the output is known to satisfy, for optimizer rules
    /// that check that the sort order is preserved: the point-order
    /// invariant.
    pub fn equivalence_properties(&self) -> (r: Vec<SortColumn>)
        ensures
            r@ == query_order_data_point_spec(),
    {
        self.output_ordering()
    }

    /// The node knows nothing about the data it will output.
    pub fn statistics(&self) -> (r: PlanStatistics)
        ensures
            r == PlanStatistics::Unknown,
    {
        PlanStatistics::Unknown
    }

    /// The display string of the node: `GridExec: limit=<value>`.
    pub fn display_as(&self) -> (r: String)
        ensures
            r@ == display_spec(self.limit),
    {
        match self.limit {
            None => String::from_str("GridExec: limit=None"),
            Some(l) => {
                let mut s = String::from_str("GridExec: limit=Some(");
                append_decimal(&mut s, l as u64);
                s.append(")");
                proof {
                    assert((l as u64) as nat == l as nat);
                    assert(s@ =~= display_spec(self.limit));
                }
                s
            },
        }
    }
}

} // verus!
