//! Buffer for compressed segments from the same table column.
//!
//! A [`CompressedDataBuffer`] accumulates batches of compressed segments in
//! memory, tracks their approximate footprint, and flushes them atomically
//! to a single sorted columnar file. The flush is split around the file
//! write, which is outside this crate: [`CompressedDataBuffer::prepare_save_to_apache_parquet`]
//! concatenates the accumulated batches and fixes the file name and its
//! sort metadata without touching the buffer, so a failed write leaves the
//! buffer unchanged and the caller may retry; after a successful write,
//! [`CompressedDataBuffer::complete_save_to_apache_parquet`] consumes the
//! accumulated batches and returns the descriptor of the persisted file.

use vstd::prelude::*;
use vstd::string::StringExecFns;

use crate::segments::{CompressedSegment, SortColumn};
use crate::{sat_add, saturated};

verus! {

/// Approximate in-memory footprint of one compressed segment: the
/// fixed-width columns (8 + 1 + 8 + 8 + 4 + 4 + 4 bytes) plus the three
/// byte arrays. The footprint is a policy input for deciding when to flush,
/// not a correctness input.
pub open spec fn segment_size_spec(s: CompressedSegment) -> nat {
    37 + s.timestamps@.len() + s.values@.len() + s.residuals@.len()
}

/// Approximate in-memory footprint of one batch of compressed segments.
pub open spec fn batch_size_spec(b: Seq<CompressedSegment>) -> nat
    decreases b.len(),
{
    if b.len() == 0 {
        0
    } else {
        batch_size_spec(b.drop_last()) + segment_size_spec(b.last())
    }
}

/// Approximate in-memory footprint of a sequence of batches.
pub open spec fn buffer_size_spec(bs: Seq<Vec<CompressedSegment>>) -> nat
    decreases bs.len(),
{
    if bs.len() == 0 {
        0
    } else {
        buffer_size_spec(bs.drop_last()) + batch_size_spec(bs.last()@)
    }
}

/// The rows of a sequence of batches, concatenated in order.
pub open spec fn concat_batches_spec(bs: Seq<Vec<CompressedSegment>>) -> Seq<CompressedSegment>
    decreases bs.len(),
{
    if bs.len() == 0 {
        Seq::empty()
    } else {
        concat_batches_spec(bs.drop_last()) + bs.last()@
    }
}

/// Two segments hold the same ten column values.
pub open spec fn seg_matches(a: CompressedSegment, b: CompressedSegment) -> bool {
    &&& a.univariate_id == b.univariate_id
    &&& a.model_type_id == b.model_type_id
    &&& a.start_time == b.start_time
    &&& a.end_time == b.end_time
    &&& a.timestamps@ == b.timestamps@
    &&& a.min_value == b.min_value
    &&& a.max_value == b.max_value
    &&& a.values@ == b.values@
    &&& a.residuals@ == b.residuals@
    &&& a.error == b.error
}

/// Two sequences of segments hold the same rows in the same order.
pub open spec fn seg_seq_matches(a: Seq<CompressedSegment>, b: Seq<CompressedSegment>) -> bool {
    a.len() == b.len() && forall|i: int| 0 <= i < a.len() ==> seg_matches(a[i], b[i])
}

/// The sort metadata every persisted file declares: sorted by
/// univariate_id (column 0) and then by start_time (column 2), both
/// ascending.
pub open spec fn file_sort_metadata_spec() -> Seq<SortColumn> {
    seq![
        SortColumn { column_index: 0, descending: false, nulls_first: false },
        SortColumn { column_index: 2, descending: false, nulls_first: false },
    ]
}

/// Smallest univariate id in a non-empty sequence of segments.
pub open spec fn min_univariate_id_spec(s: Seq<CompressedSegment>) -> u64
    decreases s.len(),
{
    if s.len() <= 1 {
        s[0].univariate_id
    } else {
        let m = min_univariate_id_spec(s.drop_last());
        if s.last().univariate_id < m {
            s.last().univariate_id
        } else {
            m
        }
    }
}

/// Largest univariate id in a non-empty sequence of segments.
pub open spec fn max_univariate_id_spec(s: Seq<CompressedSegment>) -> u64
    decreases s.len(),
{
    if s.len() <= 1 {
        s[0].univariate_id
    } else {
        let m = max_univariate_id_spec(s.drop_last());
        if s.last().univariate_id > m {
            s.last().univariate_id
        } else {
            m
        }
    }
}

/// Earliest start time in a non-empty sequence of segments.
pub open spec fn min_start_time_spec(s: Seq<CompressedSegment>) -> i64
    decreases s.len(),
{
    if s.len() <= 1 {
        s[0].start_time
    } else {
        let m = min_start_time_spec(s.drop_last());
        if s.last().start_time < m {
            s.last().start_time
        } else {
            m
        }
    }
}

/// Latest start time in a non-empty sequence of segments.
pub open spec fn max_start_time_spec(s: Seq<CompressedSegment>) -> i64
    decreases s.len(),
{
    if s.len() <= 1 {
        s[0].start_time
    } else {
        let m = max_start_time_spec(s.drop_last());
        if s.last().start_time > m {
            s.last().start_time
        } else {
            m
        }
    }
}

/// A copy of a byte vector.
fn clone_bytes(v: &Vec<u8>) -> (r: Vec<u8>)
    ensures
        r@ == v@,
{
    let mut r: Vec<u8> = Vec::new();
    let mut i: usize = 0;
    while i < v.len()
        invariant
            i <= v@.len(),
            r@ == v@.take(i as int),
        decreases v@.len() - i,
    {
        r.push(v[i]);
        i = i + 1;
        proof {
            assert(r@ =~= v@.take(i as int));
        }
    }
    proof {
        assert(r@ =~= v@);
    }
    r
}

/// Relies on `uuid::Uuid::new_v4` and `Uuid`'s `Display` form: a freshly
/// generated random 128-bit identifier, formatted as 36 hyphenated
/// characters. Nothing beyond the length can be promised of a random
/// identifier.
#[verifier::external_body]
fn new_uuid_string() -> (r: String)
    ensures
        r@.len() == 36,
{
    uuid::Uuid::new_v4().to_string()
}

impl CompressedSegment {
    /// A row-for-row equal copy of the segment.
    pub fn duplicate(&self) -> (r: CompressedSegment)
        ensures
            seg_matches(r, *self),
    {
        CompressedSegment {
            univariate_id: self.univariate_id,
            model_type_id: self.model_type_id,
            start_time: self.start_time,
            end_time: self.end_time,
            timestamps: clone_bytes(&self.timestamps),
            min_value: self.min_value,
            max_value: self.max_value,
            values: clone_bytes(&self.values),
            residuals: clone_bytes(&self.residuals),
            error: self.error,
        }
    }
}

/// Metadata of the model table a batch of compressed segments belongs to.
#[derive(Clone, Debug)]
pub struct ModelTableMetadata {
    /// Name of the model table.
    pub name: String,
}

/// Compressed segments representing data points from a column in a model
/// table, together with the metadata needed to route them.
#[derive(Clone, Debug)]
pub struct CompressedSegmentBatch {
    /// Univariate id that identifies the univariate time series the
    /// compressed segments represent data points for.
    pub univariate_id: u64,
    /// Metadata of the model table to insert the data points into.
    pub model_table_metadata: ModelTableMetadata,
    /// Compressed segments representing the data points to insert.
    pub compressed_segments: Vec<CompressedSegment>,
}

impl CompressedSegmentBatch {
    /// Bundle compressed segments with the series and table they belong to.
    pub fn new(
        univariate_id: u64,
        model_table_metadata: ModelTableMetadata,
        compressed_segments: Vec<CompressedSegment>,
    ) -> (r: CompressedSegmentBatch)
        ensures
            r.univariate_id == univariate_id,
            r.model_table_metadata.name@ == model_table_metadata.name@,
            r.compressed_segments@ == compressed_segments@,
    {
        CompressedSegmentBatch { univariate_id, model_table_metadata, compressed_segments }
    }

    /// The name of the table the batch stores data for.
    pub fn model_table_name(&self) -> (r: String)
        ensures
            r@ == self.model_table_metadata.name@,
    {
        String::from_str(self.model_table_metadata.name.as_str())
    }

    /// The index of the column the batch stores data for.
    pub fn column_index(&self) -> (r: u16)
        ensures
            r == self.univariate_id % 1024,
    {
        crate::segments::univariate_id_to_column_index(self.univariate_id)
    }
}

/// Descriptor of a persisted file of compressed segments: an object-store
/// style record plus a min/max summary over the sort keys.
#[derive(Clone, Debug)]
pub struct CompressedFile {
    /// Location of the file relative to the local data folder.
    pub location: String,
    /// Last-modified time of the file, as reported by the file system.
    pub last_modified: i64,
    /// Exact size of the file in bytes.
    pub size: u64,
    /// Entity tag; never set for local files.
    pub e_tag: Option<String>,
    /// Version; never set for local files.
    pub version: Option<String>,
    /// Smallest univariate id among the persisted segments.
    pub min_univariate_id: u64,
    /// Largest univariate id among the persisted segments.
    pub max_univariate_id: u64,
    /// Earliest start time among the persisted segments.
    pub min_start_time: i64,
    /// Latest start time among the persisted segments.
    pub max_start_time: i64,
}

/// Everything a caller needs to write one flush to disk: the concatenated
/// rows, the fresh file name, the path of the file relative to the local
/// data folder, and the sort metadata the file must declare.
#[derive(Clone, Debug)]
pub struct FlushPayload {
    /// The accumulated segments, concatenated in append order.
    pub segments: Vec<CompressedSegment>,
    /// The fresh file name: a unique identifier followed by `.parquet`.
    pub file_name: String,
    /// `<folder path>/<file name>`.
    pub relative_path: String,
    /// The sort order the file declares: (univariate_id, start_time), both
    /// ascending.
    pub sorting_columns: Vec<SortColumn>,
}

/// The flush was asked of a buffer with no accumulated batches, which is a
/// programmer error.
#[derive(Clone, Copy, PartialEq, Eq, Structural, Debug)]
pub struct EmptyBufferError;

/// A single compressed buffer, accumulating compressed segments for one
/// column of a model table and tracking their approximate footprint.
pub struct CompressedDataBuffer {
    /// The accumulated batches of compressed segments.
    pub compressed_segments: Vec<Vec<CompressedSegment>>,
    /// Continuously updated total footprint of the accumulated batches.
    pub size_in_bytes: usize,
}

impl CompressedDataBuffer {
    /// The tracked size is exactly the (saturated) footprint of the
    /// accumulated batches, which is the sum of what every append returned.
    pub open spec fn wf(self) -> bool {
        self.size_in_bytes == saturated(buffer_size_spec(self.compressed_segments@))
    }

    /// An empty buffer with zero tracked bytes.
    pub fn new() -> (r: CompressedDataBuffer)
        ensures
            r.wf(),
            r.compressed_segments@.len() == 0,
            r.size_in_bytes == 0,
    {
        CompressedDataBuffer { compressed_segments: Vec::new(), size_in_bytes: 0 }
    }

    /// The observable running total of the accumulated batches' footprint.
    pub fn size_in_bytes(&self) -> (r: usize)
        ensures
            r == self.size_in_bytes,
    {
        self.size_in_bytes
    }

    /// The approximate footprint of one batch of compressed segments,
    /// summing each column's fixed width and byte-array lengths.
    pub fn size_of_compressed_segments(compressed_segments: &Vec<CompressedSegment>) -> (r: usize)
        ensures
            r == saturated(batch_size_spec(compressed_segments@)),
    {
        let mut total: usize = 0;
        let mut i: usize = 0;
        while i < compressed_segments.len()
            invariant
                i <= compressed_segments@.len(),
                total == saturated(batch_size_spec(compressed_segments@.take(i as int))),
            decreases compressed_segments@.len() - i,
        {
            let s = &compressed_segments[i];
            let row = sat_add(
                sat_add(sat_add(37, s.timestamps.len()), s.values.len()),
                s.residuals.len(),
            );
            total = sat_add(total, row);
            i = i + 1;
            proof {
                assert(compressed_segments@.take(i as int).drop_last() =~= compressed_segments@
                    .take(i as int - 1));
                assert(compressed_segments@.take(i as int).last() == compressed_segments@[
                    i as int - 1
                ]);
            }
        }
        proof {
            assert(compressed_segments@.take(compressed_segments@.len() as int)
                =~= compressed_segments@);
        }
        total
    }

    /// Append a batch to the buffer and return its footprint in bytes,
    /// which is added to the running total. The batch is assumed to be
    /// sorted by time; this is not checked.
    pub fn append_compressed_segments(&mut self, compressed_segments: Vec<CompressedSegment>) -> (r:
        usize)
        requires
            old(self).wf(),
        ensures
            final(self).wf(),
            r == saturated(batch_size_spec(compressed_segments@)),
            final(self).size_in_bytes == saturated((old(self).size_in_bytes + r) as nat),
            final(self).compressed_segments@ == old(self).compressed_segments@.push(
                compressed_segments,
            ),
    {
        let segment_size = Self::size_of_compressed_segments(&compressed_segments);
        self.compressed_segments.push(compressed_segments);
        self.size_in_bytes = sat_add(self.size_in_bytes, segment_size);
        proof {
            assert(self.compressed_segments@.drop_last() =~= old(self).compressed_segments@);
        }
        segment_size
    }

    /// Concatenate the accumulated batches, generate the fresh unique file
    /// name, and fix the sort metadata of the file about to be written. The
    /// buffer itself is not modified, so a failed write can be retried.
    /// Returns an [`EmptyBufferError`] exactly when no batch was appended
    /// since the last flush, which is a programmer error.
    pub fn prepare_save_to_apache_parquet(&self, folder_path: &str) -> (r: Result<
        FlushPayload,
        EmptyBufferError,
    >)
        ensures
            r is Err <==> self.compressed_segments@.len() == 0,
            r matches Ok(p) ==> {
                &&& seg_seq_matches(p.segments@, concat_batches_spec(self.compressed_segments@))
                &&& p.sorting_columns@ == file_sort_metadata_spec()
                &&& p.file_name@.len() == 44
                &&& p.file_name@.skip(36) == ".parquet"@
                &&& p.relative_path@ == folder_path@ + "/"@ + p.file_name@
            },
    {
        if self.compressed_segments.len() == 0 {
            return Err(EmptyBufferError);
        }

        // Combine the accumulated batches into a single sequence of rows.
        let mut segments: Vec<CompressedSegment> = Vec::new();
        let mut i: usize = 0;
        while i < self.compressed_segments.len()
            invariant
                i <= self.compressed_segments@.len(),
                seg_seq_matches(
                    segments@,
                    concat_batches_spec(self.compressed_segments@.take(i as int)),
                ),
            decreases self.compressed_segments@.len() - i,
        {
            let batch = &self.compressed_segments[i];
            let ghost prefix = concat_batches_spec(self.compressed_segments@.take(i as int));
            let mut j: usize = 0;
            while j < batch.len()
                invariant
                    j <= batch@.len(),
                    batch@ == self.compressed_segments@[i as int]@,
                    seg_seq_matches(segments@, prefix + batch@.take(j as int)),
                decreases batch@.len() - j,
            {
                segments.push(batch[j].duplicate());
                j = j + 1;
                proof {
                    assert(prefix + batch@.take(j as int) =~= (prefix + batch@.take(j as int - 1))
                        .push(batch@[j as int - 1]));
                }
            }
            i = i + 1;
            proof {
                assert(self.compressed_segments@.take(i as int).drop_last() =~= self
                    .compressed_segments@.take(i as int - 1));
                assert(self.compressed_segments@.take(i as int).last() == self.compressed_segments@[
                    i as int - 1
                ]);
                assert(prefix + batch@.take(batch@.len() as int) =~= concat_batches_spec(
                    self.compressed_segments@.take(i as int),
                ));
            }
        }
        proof {
            assert(self.compressed_segments@.take(self.compressed_segments@.len() as int) =~= self
                .compressed_segments@);
        }

        // A fresh unique identifier names the file, so that concurrent
        // flushes into the same folder cannot collide.
        let uuid = new_uuid_string();
        let mut file_name = uuid;
        file_name.append(".parquet");
        let mut relative_path = String::from_str(folder_path);
        relative_path.append("/");
        relative_path.append(file_name.as_str());

        // The file must declare that it is sorted by univariate_id and then
        // by start_time.
        let sorting_columns = vec![
            SortColumn { column_index: 0, descending: false, nulls_first: false },
            SortColumn { column_index: 2, descending: false, nulls_first: false },
        ];

        proof {
            reveal_strlit(".parquet");
            reveal_strlit("/");
            assert(file_name@.skip(36) =~= ".parquet"@);
            assert(sorting_columns@ =~= file_sort_metadata_spec());
        }

        Ok(FlushPayload { segments, file_name, relative_path, sorting_columns })
    }

    /// Record that the prepared flush was written successfully: consume the
    /// accumulated batches and return the descriptor of the persisted file,
    /// carrying the file's location, last-modified time, exact byte size,
    /// and the min/max summary of the sort keys of the persisted segments.
    pub fn complete_save_to_apache_parquet(
        &mut self,
        payload: &FlushPayload,
        file_size: u64,
        last_modified: i64,
    ) -> (r: CompressedFile)
        requires
            payload.segments@.len() > 0,
        ensures
            final(self).wf(),
            final(self).compressed_segments@.len() == 0,
            final(self).size_in_bytes == 0,
            r.location@ == payload.relative_path@,
            r.last_modified == last_modified,
            r.size == file_size,
            r.e_tag is None,
            r.version is None,
            r.min_univariate_id == min_univariate_id_spec(payload.segments@),
            r.max_univariate_id == max_univariate_id_spec(payload.segments@),
            r.min_start_time == min_start_time_spec(payload.segments@),
            r.max_start_time == max_start_time_spec(payload.segments@),
    {
        let s = &payload.segments;
        let mut min_uid = s[0].univariate_id;
        let mut max_uid = s[0].univariate_id;
        let mut min_start = s[0].start_time;
        let mut max_start = s[0].start_time;
        let mut i: usize = 1;
        while i < s.len()
            invariant
                1 <= i <= s@.len(),
                min_uid == min_univariate_id_spec(s@.take(i as int)),
                max_uid == max_univariate_id_spec(s@.take(i as int)),
                min_start == min_start_time_spec(s@.take(i as int)),
                max_start == max_start_time_spec(s@.take(i as int)),
            decreases s@.len() - i,
        {
            if s[i].univariate_id < min_uid {
                min_uid = s[i].univariate_id;
            }
            if s[i].univariate_id > max_uid {
                max_uid = s[i].univariate_id;
            }
            if s[i].start_time < min_start {
                min_start = s[i].start_time;
            }
            if s[i].start_time > max_start {
                max_start = s[i].start_time;
            }
            i = i + 1;
            proof {
                assert(s@.take(i as int).drop_last() =~= s@.take(i as int - 1));
                assert(s@.take(i as int).last() == s@[i as int - 1]);
            }
        }
        proof {
            assert(s@.take(s@.len() as int) =~= s@);
        }

        self.compressed_segments = Vec::new();
        self.size_in_bytes = 0;

        CompressedFile {
            location: String::from_str(payload.relative_path.as_str()),
            last_modified,
            size: file_size,
            e_tag: None,
            version: None,
            min_univariate_id: min_uid,
            max_univariate_id: max_uid,
            min_start_time: min_start,
            max_start_time: max_start,
        }
    }
}

/// The sum of the values [`CompressedDataBuffer::append_compressed_segments`]
/// returned for a sequence of batches: the saturated footprint of each batch,
/// added up.
pub open spec fn append_returns_sum(bs: Seq<Vec<CompressedSegment>>) -> nat
    decreases bs.len(),
{
    if bs.len() == 0 {
        0
    } else {
        append_returns_sum(bs.drop_last()) + saturated(batch_size_spec(bs.last()@))
    }
}

/// Size accounting: for a well-formed buffer, the tracked size is exactly
/// the sum of the values the appends returned, saturated at `usize::MAX`.
pub proof fn lemma_size_is_append_sum(b: CompressedDataBuffer)
    requires
        b.wf(),
    ensures
        b.size_in_bytes == saturated(append_returns_sum(b.compressed_segments@)),
{
    lemma_saturated_sums_agree(b.compressed_segments@);
}

/// Saturating each batch's footprint before summing does not change the
/// saturated total.
proof fn lemma_saturated_sums_agree(bs: Seq<Vec<CompressedSegment>>)
    ensures
        saturated(buffer_size_spec(bs)) == saturated(append_returns_sum(bs)),
    decreases bs.len(),
{
    if bs.len() > 0 {
        lemma_saturated_sums_agree(bs.drop_last());
    }
}

} // verus!
