//! Tests for the compressed data buffer and the segment schema helpers.

use modelardb_grid::buffer::{
    CompressedDataBuffer, CompressedSegmentBatch, EmptyBufferError, ModelTableMetadata,
};
use modelardb_grid::segments::{
    compressed_schema, query_schema, univariate_id_to_column_index, ColumnType, CompressedSegment,
    SortColumn,
};

fn segment(univariate_id: u64, start_time: i64, end_time: i64) -> CompressedSegment {
    CompressedSegment {
        univariate_id,
        model_type_id: 1,
        start_time,
        end_time,
        timestamps: vec![1, 2, 3],
        min_value: 0.0f32.to_bits(),
        max_value: 10.0f32.to_bits(),
        values: vec![4, 5],
        residuals: vec![],
        error: 0.0f32.to_bits(),
    }
}

fn segment_batch() -> Vec<CompressedSegment> {
    vec![segment(1, 10, 20), segment(1, 21, 30), segment(2, 10, 25)]
}

#[test]
fn test_can_append_valid_compressed_segments() {
    let mut compressed_data_buffer = CompressedDataBuffer::new();
    compressed_data_buffer.append_compressed_segments(segment_batch());

    assert_eq!(compressed_data_buffer.compressed_segments.len(), 1)
}

#[test]
fn test_compressed_data_buffer_size_updated_when_appending() {
    let mut compressed_data_buffer = CompressedDataBuffer::new();
    compressed_data_buffer.append_compressed_segments(segment_batch());

    assert!(compressed_data_buffer.size_in_bytes() > 0);
    assert_eq!(compressed_data_buffer.size_in_bytes(), compressed_data_buffer.size_in_bytes);
}

#[test]
fn test_get_size_of_compressed_data_buffer() {
    // Each example segment occupies 37 fixed bytes plus 3 timestamp bytes,
    // 2 value bytes and 0 residual bytes.
    let expected_per_segment = 37 + 3 + 2;
    let size = CompressedDataBuffer::size_of_compressed_segments(&segment_batch());

    assert_eq!(size, 3 * expected_per_segment);
}

#[test]
fn test_size_in_bytes_is_sum_of_append_returns() {
    let mut compressed_data_buffer = CompressedDataBuffer::new();
    let first = compressed_data_buffer.append_compressed_segments(segment_batch());
    let second =
        compressed_data_buffer.append_compressed_segments(vec![segment(3, 40, 50)]);

    assert_eq!(compressed_data_buffer.size_in_bytes, first + second);
}

#[test]
fn test_can_save_compressed_data_buffer_to_apache_parquet() {
    let mut compressed_data_buffer = CompressedDataBuffer::new();
    compressed_data_buffer.append_compressed_segments(segment_batch());

    let payload = compressed_data_buffer
        .prepare_save_to_apache_parquet("compressed/table/1")
        .unwrap();

    assert_eq!(payload.segments.len(), 3);
    assert!(payload.file_name.ends_with(".parquet"));
    assert_eq!(payload.file_name.len(), 44);
    assert_eq!(
        payload.relative_path,
        format!("compressed/table/1/{}", payload.file_name)
    );

    // Completing the flush consumes the buffer and describes the file.
    let descriptor =
        compressed_data_buffer.complete_save_to_apache_parquet(&payload, 1024, 1_700_000_000);
    assert_eq!(compressed_data_buffer.compressed_segments.len(), 0);
    assert_eq!(compressed_data_buffer.size_in_bytes, 0);
    assert_eq!(descriptor.location, payload.relative_path);
    assert_eq!(descriptor.size, 1024);
    assert_eq!(descriptor.last_modified, 1_700_000_000);
    assert_eq!(descriptor.e_tag, None);
    assert_eq!(descriptor.version, None);
}

#[test]
fn test_error_if_saving_empty_compressed_data_buffer_to_apache_parquet() {
    let empty_compressed_data_buffer = CompressedDataBuffer::new();

    let result = empty_compressed_data_buffer.prepare_save_to_apache_parquet("table");

    assert_eq!(result.unwrap_err(), EmptyBufferError);
}

#[test]
fn test_flush_concatenates_batches_and_declares_sort_keys() {
    let mut compressed_data_buffer = CompressedDataBuffer::new();
    compressed_data_buffer
        .append_compressed_segments(vec![segment(1, 10, 20), segment(1, 21, 30)]);
    compressed_data_buffer.append_compressed_segments(vec![
        segment(2, 10, 25),
        segment(2, 26, 40),
        segment(3, 10, 15),
    ]);

    let payload = compressed_data_buffer
        .prepare_save_to_apache_parquet("compressed")
        .unwrap();

    // The rows of both appends, concatenated in append order.
    assert_eq!(payload.segments.len(), 5);
    assert_eq!(
        payload
            .segments
            .iter()
            .map(|s| (s.univariate_id, s.start_time))
            .collect::<Vec<_>>(),
        vec![(1, 10), (1, 21), (2, 10), (2, 26), (3, 10)]
    );

    // The file declares the two-key ascending sort on (univariate_id,
    // start_time): columns 0 and 2.
    assert_eq!(
        payload.sorting_columns,
        vec![
            SortColumn { column_index: 0, descending: false, nulls_first: false },
            SortColumn { column_index: 2, descending: false, nulls_first: false },
        ]
    );

    let descriptor =
        compressed_data_buffer.complete_save_to_apache_parquet(&payload, 2048, 1_700_000_123);
    assert_eq!(descriptor.min_univariate_id, 1);
    assert_eq!(descriptor.max_univariate_id, 3);
    assert_eq!(descriptor.min_start_time, 10);
    assert_eq!(descriptor.max_start_time, 26);
}

#[test]
fn test_two_flushes_use_different_file_names() {
    let mut buffer_a = CompressedDataBuffer::new();
    buffer_a.append_compressed_segments(segment_batch());
    let mut buffer_b = CompressedDataBuffer::new();
    buffer_b.append_compressed_segments(segment_batch());

    let payload_a = buffer_a.prepare_save_to_apache_parquet("t").unwrap();
    let payload_b = buffer_b.prepare_save_to_apache_parquet("t").unwrap();

    // The file name is a fresh 128-bit identifier per flush; a collision of
    // two independent identifiers is astronomically unlikely.
    assert_ne!(payload_a.file_name, payload_b.file_name);
}

#[test]
fn test_failed_flush_leaves_buffer_unchanged() {
    let mut compressed_data_buffer = CompressedDataBuffer::new();
    compressed_data_buffer.append_compressed_segments(segment_batch());
    let size_before = compressed_data_buffer.size_in_bytes;

    // Preparing a flush does not touch the buffer, so a caller whose file
    // write fails may simply retry.
    let _payload = compressed_data_buffer.prepare_save_to_apache_parquet("t").unwrap();
    assert_eq!(compressed_data_buffer.compressed_segments.len(), 1);
    assert_eq!(compressed_data_buffer.size_in_bytes, size_before);
}

#[test]
fn test_compressed_segment_batch_metadata() {
    let batch = CompressedSegmentBatch::new(
        1026,
        ModelTableMetadata { name: String::from("wind_turbine") },
        segment_batch(),
    );

    assert_eq!(batch.model_table_name(), "wind_turbine");
    assert_eq!(batch.column_index(), 2);
}

#[test]
fn test_univariate_id_to_column_index() {
    assert_eq!(univariate_id_to_column_index(0), 0);
    assert_eq!(univariate_id_to_column_index(1023), 1023);
    assert_eq!(univariate_id_to_column_index(1024), 0);
    assert_eq!(univariate_id_to_column_index(1026), 2);
}

#[test]
fn test_schemas() {
    assert_eq!(
        compressed_schema(),
        vec![
            ColumnType::UInt64,
            ColumnType::UInt8,
            ColumnType::Timestamp,
            ColumnType::Timestamp,
            ColumnType::Binary,
            ColumnType::Float32,
            ColumnType::Float32,
            ColumnType::Binary,
            ColumnType::Binary,
            ColumnType::Float32,
        ]
    );
    assert_eq!(
        query_schema(),
        vec![ColumnType::UInt64, ColumnType::Timestamp, ColumnType::Float32]
    );
}
