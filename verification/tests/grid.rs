//! Tests for the plan node and the per-partition grid stream.

use modelardb_grid::grid_exec::{Distribution, GridExec, PlanError, PlanStatistics};
use modelardb_grid::grid_stream::{GridPoll, GridStream, UpstreamPoll};
use modelardb_grid::segments::{ColumnType, SortColumn};
use modelardb_grid::DataPoint;

fn point(univariate_id: u64, timestamp: i64, value: f32) -> DataPoint {
    DataPoint {
        univariate_id,
        timestamp,
        value: value.to_bits(),
    }
}

/// The data points of the shared three-segment example input:
/// `{uid=1, ts=[10,11,12]}`, `{uid=1, ts=[13]}`, `{uid=2, ts=[10,11]}`.
fn example_points() -> Vec<DataPoint> {
    vec![
        point(1, 10, 1.0),
        point(1, 11, 2.0),
        point(1, 12, 3.0),
        point(1, 13, 4.0),
        point(2, 10, 5.0),
        point(2, 11, 6.0),
    ]
}

/// Drive a stream over the given upstream batches (each with an optional
/// predicate) until it finishes, collecting every emitted batch.
fn run_to_end(
    stream: &mut GridStream,
    batches: Vec<Vec<DataPoint>>,
    predicate: Option<fn(u64, i64, f32) -> bool>,
) -> Vec<Vec<DataPoint>> {
    let mut emitted = Vec::new();
    let mut remaining = batches.into_iter();
    loop {
        let poll = if stream.needs_input() {
            match remaining.next() {
                Some(points) => {
                    let mask = predicate.map(|p| {
                        let mut candidate = stream.pending_points();
                        candidate.extend(points.iter().copied());
                        candidate
                            .iter()
                            .map(|d| p(d.univariate_id, d.timestamp, f32::from_bits(d.value)))
                            .collect::<Vec<bool>>()
                    });
                    stream.poll_next::<()>(Some(UpstreamPoll::Batch(points, mask)))
                }
                None => stream.poll_next::<()>(Some(UpstreamPoll::Exhausted)),
            }
        } else {
            stream.poll_next::<()>(None)
        };
        match poll {
            GridPoll::Batch(batch) => emitted.push(batch),
            GridPoll::Finished => return emitted,
            GridPoll::Failed(_) => panic!("unexpected upstream error"),
            GridPoll::NotReady => panic!("unexpected pending poll"),
        }
    }
}

#[test]
fn test_reconstructs_sorted_batches_without_predicate() {
    let exec = GridExec::<(), ()>::new(None, None, ());
    let mut stream = exec.execute(2);
    let emitted = run_to_end(&mut stream, vec![example_points()], None);

    assert_eq!(
        emitted,
        vec![
            vec![point(1, 10, 1.0), point(1, 11, 2.0)],
            vec![point(1, 12, 3.0), point(1, 13, 4.0)],
            vec![point(2, 10, 5.0), point(2, 11, 6.0)],
        ]
    );
}

#[test]
fn test_predicate_filters_data_points() {
    let exec = GridExec::<(), ()>::new(Some(()), None, ());
    let mut stream = exec.execute(4);
    let emitted = run_to_end(
        &mut stream,
        vec![example_points()],
        Some(|_uid, _ts, value| value > 2.5),
    );

    assert_eq!(
        emitted,
        vec![vec![
            point(1, 12, 3.0),
            point(1, 13, 4.0),
            point(2, 10, 5.0),
            point(2, 11, 6.0),
        ]]
    );
}

#[test]
fn test_predicate_reevaluated_over_leftover() {
    let mut stream = GridStream::new(None, 2);
    let batches = vec![
        vec![point(1, 10, 1.0), point(1, 11, 2.0), point(1, 12, 3.0), point(1, 13, 4.0)],
        vec![point(2, 10, 5.0), point(2, 11, 6.0)],
    ];
    // The mask always covers the pending leftover followed by the new
    // points, so the leftover is filtered again; rows that passed once pass
    // again.
    let emitted = run_to_end(
        &mut stream,
        batches,
        Some(|_uid, _ts, value| value != 1.0 && value != 6.0),
    );

    assert_eq!(
        emitted,
        vec![
            vec![point(1, 11, 2.0), point(1, 12, 3.0)],
            vec![point(1, 13, 4.0), point(2, 10, 5.0)],
        ]
    );
}

#[test]
fn test_predicate_dropping_every_row_keeps_stream_live() {
    let mut stream = GridStream::new(None, 4);
    let batches = vec![
        vec![point(1, 10, 1.0), point(1, 11, 2.0)],
        vec![point(2, 10, 3.0)],
    ];
    let emitted = run_to_end(&mut stream, batches, Some(|_uid, _ts, _value| false));

    // One refill attempt per poll: each pulled batch is filtered away and an
    // empty batch is delivered, then the stream finishes cleanly.
    assert_eq!(emitted, vec![Vec::<DataPoint>::new(), Vec::<DataPoint>::new()]);
}

#[test]
fn test_limit_narrows_batch_size() {
    let exec = GridExec::<(), ()>::new(None, Some(3), ());
    let mut stream = exec.execute(10);
    let emitted = run_to_end(&mut stream, vec![example_points()], None);

    // The effective batch size is min(3, 10) = 3.
    assert_eq!(emitted[0], vec![point(1, 10, 1.0), point(1, 11, 2.0), point(1, 12, 3.0)]);
    assert!(emitted.iter().all(|batch| batch.len() <= 3));
    assert_eq!(emitted.iter().map(|batch| batch.len()).sum::<usize>(), 6);
}

#[test]
fn test_upstream_error_is_forwarded() {
    let mut stream = GridStream::new(None, 4);

    match stream.poll_next(Some(UpstreamPoll::<&str>::Batch(example_points(), None))) {
        GridPoll::Batch(batch) => assert_eq!(batch.len(), 4),
        _ => panic!("expected a batch"),
    }
    match stream.poll_next(Some(UpstreamPoll::<&str>::NotReady)) {
        GridPoll::NotReady => {}
        _ => panic!("expected a pending poll to be forwarded"),
    }
    match stream.poll_next(Some(UpstreamPoll::Failed("connection reset"))) {
        GridPoll::Failed(error) => assert_eq!(error, "connection reset"),
        _ => panic!("expected the upstream error to be forwarded"),
    }
}

#[test]
fn test_emitted_concatenation_is_sorted() {
    let mut stream = GridStream::new(None, 2);
    let batches = vec![
        vec![point(1, 10, 1.0), point(1, 11, 2.0), point(1, 12, 3.0)],
        vec![point(1, 13, 4.0)],
        vec![point(2, 10, 5.0), point(2, 11, 6.0)],
    ];
    let emitted = run_to_end(&mut stream, batches, None);

    let all: Vec<DataPoint> = emitted.into_iter().flatten().collect();
    for window in all.windows(2) {
        let (a, b) = (window[0], window[1]);
        assert!(
            a.univariate_id < b.univariate_id
                || (a.univariate_id == b.univariate_id && a.timestamp <= b.timestamp)
        );
    }
}

#[test]
fn test_row_conservation_without_predicate() {
    let mut stream = GridStream::new(None, 2);
    let batches = vec![
        vec![point(1, 10, 1.0), point(1, 11, 2.0), point(1, 12, 3.0)],
        vec![point(1, 13, 4.0)],
        vec![point(2, 10, 5.0), point(2, 11, 6.0)],
    ];
    let emitted = run_to_end(&mut stream, batches, None);

    let total: usize = emitted.iter().map(|batch| batch.len()).sum();
    assert_eq!(total, 6);
    let all: Vec<DataPoint> = emitted.into_iter().flatten().collect();
    assert_eq!(all, example_points());
}

#[test]
fn test_partitionings_yield_same_output() {
    let one_batch = vec![example_points()];
    let many_batches = vec![
        vec![point(1, 10, 1.0)],
        vec![point(1, 11, 2.0), point(1, 12, 3.0)],
        vec![point(1, 13, 4.0), point(2, 10, 5.0)],
        vec![point(2, 11, 6.0)],
    ];

    let mut stream_a = GridStream::new(None, 2);
    let mut stream_b = GridStream::new(None, 2);
    let all_a: Vec<DataPoint> =
        run_to_end(&mut stream_a, one_batch, None).into_iter().flatten().collect();
    let all_b: Vec<DataPoint> =
        run_to_end(&mut stream_b, many_batches, None).into_iter().flatten().collect();

    assert_eq!(all_a, all_b);
}

#[test]
fn test_empty_upstream_finishes_immediately() {
    let mut stream = GridStream::new(None, 8);
    let emitted = run_to_end(&mut stream, vec![], None);
    assert_eq!(emitted, Vec::<Vec<DataPoint>>::new());
}

#[test]
fn test_with_new_children() {
    let exec = GridExec::<u8, u64>::new(Some(7), Some(3), 10);
    match exec.with_new_children(vec![]) {
        Err(PlanError { child_count }) => assert_eq!(child_count, 0),
        Ok(_) => panic!("zero children must be rejected"),
    }

    let exec = GridExec::<u8, u64>::new(Some(7), Some(3), 10);
    match exec.with_new_children(vec![11, 12]) {
        Err(PlanError { child_count }) => assert_eq!(child_count, 2),
        Ok(_) => panic!("two children must be rejected"),
    }

    let exec = GridExec::<u8, u64>::new(Some(7), Some(3), 10);
    match exec.with_new_children(vec![11]) {
        Ok(new_exec) => {
            assert_eq!(new_exec.maybe_predicate, Some(7));
            assert_eq!(new_exec.limit, Some(3));
            assert_eq!(new_exec.input, 11);
        }
        Err(_) => panic!("one child must be accepted"),
    }
}

#[test]
fn test_plan_node_declarations() {
    let exec = GridExec::<(), ()>::new(None, None, ());

    assert_eq!(
        exec.schema(),
        vec![ColumnType::UInt64, ColumnType::Timestamp, ColumnType::Float32]
    );
    assert_eq!(
        exec.output_ordering(),
        vec![
            SortColumn { column_index: 0, descending: false, nulls_first: false },
            SortColumn { column_index: 1, descending: false, nulls_first: false },
        ]
    );
    assert_eq!(
        exec.required_input_ordering(),
        vec![
            SortColumn { column_index: 0, descending: false, nulls_first: false },
            SortColumn { column_index: 2, descending: false, nulls_first: false },
        ]
    );
    assert_eq!(exec.equivalence_properties(), exec.output_ordering());
    assert_eq!(exec.required_input_distribution(), Distribution::SinglePartition);
    assert_eq!(exec.statistics(), PlanStatistics::Unknown);
}

#[test]
fn test_metrics_count_polls_and_rows() {
    let mut stream = GridStream::new(None, 2);
    let emitted = run_to_end(&mut stream, vec![example_points()], None);

    assert_eq!(emitted.len(), 3);
    let metrics = stream.metrics();
    assert_eq!(metrics.output_rows, 6);
    // Three delivering polls plus the final poll that sees the exhausted
    // upstream and the drained leftover.
    assert_eq!(metrics.num_polls, 4);
}

#[test]
fn test_display_string() {
    let unlimited = GridExec::<(), ()>::new(None, None, ());
    assert_eq!(unlimited.display_as().as_str(), "GridExec: limit=None");

    let limited = GridExec::<(), ()>::new(None, Some(1905), ());
    assert_eq!(limited.display_as().as_str(), "GridExec: limit=Some(1905)");

    let zero = GridExec::<(), ()>::new(None, Some(0), ());
    assert_eq!(zero.display_as().as_str(), "GridExec: limit=Some(0)");
}
