//! Per-partition streaming reconstruction of data points from compressed
//! segments, with leftover buffering, predicate filtering, batch-size
//! shaping, and limit handling.
//!
//! A [`GridStream`] is driven by a cooperative pull loop: on each poll the
//! caller first asks [`GridStream::needs_input`]; if more rows are needed it
//! polls its upstream segment source, reconstructs the segments of the
//! yielded batch into data points with the reconstruction kernel, evaluates
//! the optional row predicate over the leftover and the new points, and
//! hands the outcome to [`GridStream::poll_next`]. The kernel and the
//! predicate are external collaborators, so they appear here only through
//! the plain values they produce: the reconstructed points and the boolean
//! mask of the predicate.

use vstd::prelude::*;

use crate::{point_le, points_sorted, sat_add, saturated, DataPoint};

verus! {

/// Keep `s[i]` exactly when `m[i]` is true; positions of `s` at or beyond
/// `m.len()` are dropped.
pub open spec fn mask_filter(s: Seq<DataPoint>, m: Seq<bool>) -> Seq<DataPoint>
    decreases s.len(),
{
    if s.len() == 0 {
        Seq::empty()
    } else {
        let rest = mask_filter(s.drop_last(), m);
        if s.len() - 1 < m.len() && m[s.len() - 1] {
            rest.push(s.last())
        } else {
            rest
        }
    }
}

/// Every element of a mask-filtered sequence is an element of the original.
pub proof fn lemma_mask_filter_elements(s: Seq<DataPoint>, m: Seq<bool>)
    ensures
        forall|j: int|
            0 <= j < mask_filter(s, m).len() ==> s.contains(#[trigger] mask_filter(s, m)[j]),
    decreases s.len(),
{
    if s.len() > 0 {
        lemma_mask_filter_elements(s.drop_last(), m);
        let f = mask_filter(s, m);
        let rest = mask_filter(s.drop_last(), m);
        assert forall|j: int| 0 <= j < f.len() implies s.contains(#[trigger] f[j]) by {
            if j < rest.len() {
                assert(s.drop_last().contains(rest[j]));
                let i = choose|i: int| 0 <= i < s.drop_last().len() && s.drop_last()[i] == rest[j];
                assert(s[i] == rest[j]);
            } else {
                assert(f[j] == s.last());
                assert(s[s.len() - 1] == s.last());
            }
        }
    }
}

/// Filtering preserves point-order.
pub proof fn lemma_mask_filter_sorted(s: Seq<DataPoint>, m: Seq<bool>)
    requires
        points_sorted(s),
    ensures
        points_sorted(mask_filter(s, m)),
    decreases s.len(),
{
    if s.len() > 0 {
        assert(points_sorted(s.drop_last())) by {
            assert(forall|i: int, j: int|
                0 <= i <= j < s.drop_last().len() ==> point_le(
                    s.drop_last()[i],
                    s.drop_last()[j],
                ));
        }
        lemma_mask_filter_sorted(s.drop_last(), m);
        lemma_mask_filter_elements(s.drop_last(), m);
        let f = mask_filter(s, m);
        let rest = mask_filter(s.drop_last(), m);
        assert forall|i: int, j: int| 0 <= i <= j < f.len() implies point_le(f[i], f[j]) by {
            if j < rest.len() {
            } else if j == rest.len() && f.len() > rest.len() {
                // f[j] is s.last(); f[i] for i < j is an element of s.drop_last().
                if i < j {
                    assert(s.drop_last().contains(rest[i]));
                    let k = choose|k: int|
                        0 <= k < s.drop_last().len() && s.drop_last()[k] == rest[i];
                    assert(s[k] == f[i]);
                    assert(point_le(s[k], s[s.len() - 1]));
                }
            }
        }
    }
}

/// When the mask agrees pointwise with a predicate `p` over `s`, filtering by
/// the mask is exactly filtering by `p`: every kept row satisfies `p`, every
/// row that satisfies `p` is kept, and no row is duplicated.
pub proof fn lemma_mask_filter_is_filter(s: Seq<DataPoint>, m: Seq<bool>, p: spec_fn(DataPoint) -> bool)
    requires
        s.len() <= m.len(),
        forall|i: int| 0 <= i < s.len() ==> m[i] == p(#[trigger] s[i]),
    ensures
        mask_filter(s, m) == s.filter(p),
    decreases s.len(),
{
    reveal_with_fuel(Seq::filter, 2);
    if s.len() == 0 {
        assert(mask_filter(s, m) =~= s.filter(p));
    } else {
        assert(forall|i: int|
            0 <= i < s.drop_last().len() ==> m[i] == p(#[trigger] s.drop_last()[i]));
        lemma_mask_filter_is_filter(s.drop_last(), m, p);
        assert(m[s.len() - 1] == p(s[s.len() - 1]));
        assert(s.last() == s[s.len() - 1]);
    }
}

/// Two sorted runs whose boundary is ordered concatenate to a sorted run.
pub proof fn lemma_sorted_concat(a: Seq<DataPoint>, b: Seq<DataPoint>)
    requires
        points_sorted(a),
        points_sorted(b),
        a.len() > 0 && b.len() > 0 ==> point_le(a.last(), b[0]),
    ensures
        points_sorted(a + b),
{
    assert forall|i: int, j: int| 0 <= i <= j < (a + b).len() implies point_le(
        (a + b)[i],
        (a + b)[j],
    ) by {
        if j < a.len() {
            assert((a + b)[i] == a[i] && (a + b)[j] == a[j]);
        } else if i >= a.len() {
            assert((a + b)[i] == b[i - a.len()] && (a + b)[j] == b[j - a.len()]);
        } else {
            assert((a + b)[i] == a[i] && (a + b)[j] == b[j - a.len()]);
            assert(point_le(a[i], a[a.len() - 1]));
            assert(point_le(b[0], b[j - a.len()]));
        }
    }
}

/// Mask-filtering the tail of a sorted concatenation keeps it sorted.
pub proof fn lemma_sorted_concat_mask_filter(a: Seq<DataPoint>, b: Seq<DataPoint>, m: Seq<bool>)
    requires
        points_sorted(a + b),
    ensures
        points_sorted(a + mask_filter(b, m)),
{
    let f = mask_filter(b, m);
    assert forall|i: int, j: int| 0 <= i <= j < a.len() implies point_le(a[i], a[j]) by {
        assert((a + b)[i] == a[i] && (a + b)[j] == a[j]);
        assert(point_le((a + b)[i], (a + b)[j]));
    }
    assert forall|i: int, j: int| 0 <= i <= j < b.len() implies point_le(b[i], b[j]) by {
        assert((a + b)[i + a.len()] == b[i] && (a + b)[j + a.len()] == b[j]);
        assert(point_le((a + b)[i + a.len()], (a + b)[j + a.len()]));
    }
    lemma_mask_filter_sorted(b, m);
    lemma_mask_filter_elements(b, m);
    assert forall|i: int, j: int| 0 <= i <= j < (a + f).len() implies point_le(
        (a + f)[i],
        (a + f)[j],
    ) by {
        if j < a.len() {
        } else if i >= a.len() {
            assert((a + f)[i] == f[i - a.len()] && (a + f)[j] == f[j - a.len()]);
        } else {
            assert((a + f)[j] == f[j - a.len()]);
            assert(b.contains(f[j - a.len()]));
            let k = choose|k: int| 0 <= k < b.len() && b[k] == f[j - a.len()];
            assert(point_le((a + b)[i], (a + b)[k + a.len()]));
        }
    }
}

/// One poll outcome of the upstream segment source, after the reconstruction
/// kernel and the optional predicate ran over the yielded batch.
pub enum UpstreamPoll<E> {
    /// The upstream yielded one batch of compressed segments. The first
    /// payload holds the data points the kernel reconstructed from them, in
    /// segment order; the second holds the predicate's boolean mask over the
    /// stream's pending leftover followed by those points, or `None` when no
    /// predicate was pushed down.
    Batch(Vec<DataPoint>, Option<Vec<bool>>),
    /// The upstream ended with a clean end-of-stream.
    Exhausted,
    /// The upstream ended with an error, to be forwarded verbatim.
    Failed(E),
    /// The upstream's next batch is not ready yet.
    NotReady,
}

/// One poll outcome of a [`GridStream`], handed downstream.
pub enum GridPoll<E> {
    /// A batch of data points, in point-order, possibly empty.
    Batch(Vec<DataPoint>),
    /// The stream is exhausted and its leftover is drained.
    Finished,
    /// The upstream error, forwarded verbatim.
    Failed(E),
    /// The next batch is not ready yet.
    NotReady,
}

/// Cumulative metrics a stream collects while it runs, for the plan node's
/// metrics snapshot.
#[derive(Clone, Copy, PartialEq, Eq, Structural, Debug)]
pub struct GridStreamMetrics {
    /// How often the stream was polled, saturated at `usize::MAX`.
    pub num_polls: usize,
    /// How many data points the stream delivered, saturated at `usize::MAX`.
    pub output_rows: usize,
}

/// Per-partition stream state: the most recently reconstructed and filtered
/// batch of data points, a cursor into it, and the effective batch size.
pub struct GridStream {
    /// Size of the batches returned when the stream is polled: the engine
    /// batch size, narrowed by the query's row limit when one is set.
    pub batch_size: usize,
    /// The current batch of already reconstructed and filtered data points.
    pub current_batch: Vec<DataPoint>,
    /// Rows `[current_batch_offset, current_batch.len())` of the current
    /// batch are yet to be delivered.
    pub current_batch_offset: usize,
    /// All data points delivered so far, in delivery order.
    pub emitted: Ghost<Seq<DataPoint>>,
    /// All reconstructed data points handed to the stream so far, in arrival
    /// order.
    pub pushed: Ghost<Seq<DataPoint>>,
    /// Whether every refill so far came without a predicate mask.
    pub unfiltered: Ghost<bool>,
    /// Cumulative metrics collected while the stream runs.
    pub metrics: GridStreamMetrics,
}

/// Everything but the metrics of `a` and `b` is equal: the polls that only
/// forward an upstream outcome leave the stream's data alone.
pub open spec fn data_unchanged(a: GridStream, b: GridStream) -> bool {
    &&& a.batch_size == b.batch_size
    &&& a.current_batch@ == b.current_batch@
    &&& a.current_batch_offset == b.current_batch_offset
    &&& a.emitted@ == b.emitted@
    &&& a.pushed@ == b.pushed@
    &&& a.unfiltered@ == b.unfiltered@
}

impl GridStream {
    /// The data points that are reconstructed but not yet delivered.
    pub open spec fn pending(self) -> Seq<DataPoint> {
        self.current_batch@.skip(self.current_batch_offset as int)
    }

    /// Number of rows the next delivery will hold: the effective batch size,
    /// or what is pending when that is less.
    pub open spec fn delivery_len(self) -> int {
        if self.batch_size <= self.pending().len() {
            self.batch_size as int
        } else {
            self.pending().len() as int
        }
    }

    /// Well-formedness: the cursor is in bounds, everything delivered
    /// followed by everything pending is in point-order, and as long as no
    /// predicate mask was applied, that concatenation is exactly what was
    /// handed in.
    pub open spec fn wf(self) -> bool {
        &&& self.current_batch_offset <= self.current_batch@.len()
        &&& points_sorted(self.emitted@ + self.pending())
        &&& (self.unfiltered@ ==> self.emitted@ + self.pending() == self.pushed@)
        &&& self.metrics.output_rows == saturated(self.emitted@.len())
    }

    /// The effective batch size: `min(limit, batch_size)` when a limit is
    /// present, else `batch_size`. The limit is deliberately not used as the
    /// batch size itself, to avoid very large allocations when a query
    /// requests many rows.
    pub open spec fn effective_batch_size(limit: Option<usize>, batch_size: usize) -> usize {
        match limit {
            Some(l) => if l <= batch_size {
                l
            } else {
                batch_size
            },
            None => batch_size,
        }
    }

    /// Create an empty stream for one partition.
    pub fn new(limit: Option<usize>, batch_size: usize) -> (r: GridStream)
        ensures
            r.wf(),
            r.batch_size == GridStream::effective_batch_size(limit, batch_size),
            r.current_batch@ == Seq::<DataPoint>::empty(),
            r.current_batch_offset == 0,
            r.emitted@ == Seq::<DataPoint>::empty(),
            r.pushed@ == Seq::<DataPoint>::empty(),
            r.unfiltered@ == true,
            r.metrics == (GridStreamMetrics { num_polls: 0, output_rows: 0 }),
    {
        let effective = match limit {
            Some(l) => if l <= batch_size {
                l
            } else {
                batch_size
            },
            None => batch_size,
        };
        let r = GridStream {
            batch_size: effective,
            current_batch: Vec::new(),
            current_batch_offset: 0,
            emitted: Ghost(Seq::empty()),
            pushed: Ghost(Seq::empty()),
            unfiltered: Ghost(true),
            metrics: GridStreamMetrics { num_polls: 0, output_rows: 0 },
        };
        proof {
            assert(r.pending() =~= Seq::<DataPoint>::empty());
            assert(r.emitted@ + r.pending() =~= Seq::<DataPoint>::empty());
        }
        r
    }

    /// Whether the next poll should first pull one more segment batch from
    /// the upstream: fewer rows are pending than the effective batch size.
    pub fn needs_input(&self) -> (r: bool)
        requires
            self.current_batch_offset <= self.current_batch@.len(),
        ensures
            r == (self.pending().len() < self.batch_size),
    {
        self.current_batch.len() - self.current_batch_offset < self.batch_size
    }

    /// The schema of the batches the stream delivers: the data-point
    /// schema.
    pub fn schema(&self) -> (r: Vec<crate::segments::ColumnType>)
        ensures
            r@ == crate::segments::query_schema_spec(),
    {
        crate::segments::query_schema()
    }

    /// A snapshot of the metrics collected so far.
    pub fn metrics(&self) -> (r: GridStreamMetrics)
        ensures
            r == self.metrics,
    {
        self.metrics
    }

    /// A copy of the pending leftover, for the caller to evaluate the
    /// predicate over (the mask covers the leftover followed by the new
    /// points).
    pub fn pending_points(&self) -> (r: Vec<DataPoint>)
        requires
            self.current_batch_offset <= self.current_batch@.len(),
        ensures
            r@ == self.pending(),
    {
        let mut r: Vec<DataPoint> = Vec::new();
        let mut i: usize = self.current_batch_offset;
        while i < self.current_batch.len()
            invariant
                self.current_batch_offset <= i <= self.current_batch@.len(),
                r@ == self.current_batch@.subrange(self.current_batch_offset as int, i as int),
            decreases self.current_batch@.len() - i,
        {
            r.push(self.current_batch[i]);
            i = i + 1;
            proof {
                assert(r@ =~= self.current_batch@.subrange(
                    self.current_batch_offset as int,
                    i as int,
                ));
            }
        }
        proof {
            assert(r@ =~= self.pending());
        }
        r
    }

    /// Replace the current batch with a sorted batch that holds the pending
    /// leftover as its prefix and the data points reconstructed from the
    /// incoming segment batch as its suffix, filtered by the predicate mask
    /// when one is given, and reset the cursor.
    ///
    /// The leftover is prepended rather than concatenated later because the
    /// segment-order invariant makes every new point at least as large as
    /// every leftover point, so the result stays in point-order.
    pub fn refill_current_batch(&mut self, new_points: Vec<DataPoint>, mask: Option<Vec<bool>>)
        requires
            old(self).wf(),
            points_sorted(new_points@),
            (old(self).emitted@ + old(self).pending()).len() > 0 && new_points@.len() > 0
                ==> point_le((old(self).emitted@ + old(self).pending()).last(), new_points@[0]),
            mask matches Some(m) ==> m@.len() == old(self).pending().len() + new_points@.len(),
        ensures
            final(self).wf(),
            final(self).batch_size == old(self).batch_size,
            final(self).current_batch_offset == 0,
            final(self).emitted@ == old(self).emitted@,
            final(self).pushed@ == old(self).pushed@ + new_points@,
            final(self).unfiltered@ == (old(self).unfiltered@ && mask is None),
            final(self).metrics == old(self).metrics,
            final(self).current_batch@ == (match mask {
                None => old(self).pending() + new_points@,
                Some(m) => mask_filter(old(self).pending() + new_points@, m@),
            }),
    {
        let ghost old_self = *old(self);
        let ghost candidate_spec = old(self).pending() + new_points@;
        let ghost no_mask: bool = (mask is None);

        // Build the candidate batch: the leftover, then the new points.
        let mut candidate = self.pending_points();
        let mut j: usize = 0;
        while j < new_points.len()
            invariant
                j <= new_points@.len(),
                candidate@ == old_self.pending() + new_points@.take(j as int),
            decreases new_points@.len() - j,
        {
            candidate.push(new_points[j]);
            j = j + 1;
            proof {
                assert(candidate@ =~= old_self.pending() + new_points@.take(j as int));
            }
        }
        proof {
            assert(candidate@ =~= candidate_spec);
        }

        proof {
            // The candidate extends the sorted history, so it is sorted too.
            lemma_sorted_concat(old_self.emitted@ + old_self.pending(), new_points@);
            assert((old_self.emitted@ + old_self.pending()) + new_points@ =~= old_self.emitted@
                + candidate_spec);
        }

        // Apply the predicate mask, when one is present.
        let filtered = match mask {
            None => candidate,
            Some(m) => {
                let mut out: Vec<DataPoint> = Vec::new();
                let mut k: usize = 0;
                while k < candidate.len()
                    invariant
                        k <= candidate@.len(),
                        m@.len() == candidate@.len(),
                        out@ == mask_filter(candidate@.take(k as int), m@),
                    decreases candidate@.len() - k,
                {
                    proof {
                        assert(candidate@.take(k as int + 1).drop_last() =~= candidate@.take(
                            k as int,
                        ));
                        assert(candidate@.take(k as int + 1).last() == candidate@[k as int]);
                    }
                    if m[k] {
                        out.push(candidate[k]);
                    }
                    k = k + 1;
                }
                proof {
                    assert(candidate@.take(candidate@.len() as int) =~= candidate@);
                    assert(out@ == mask_filter(candidate_spec, m@));
                    lemma_sorted_concat_mask_filter(old_self.emitted@, candidate_spec, m@);
                }
                out
            },
        };

        self.current_batch = filtered;
        self.current_batch_offset = 0;
        self.pushed = Ghost(self.pushed@ + new_points@);
        let ghost new_unfiltered: bool = self.unfiltered@ && no_mask;
        self.unfiltered = Ghost(new_unfiltered);

        proof {
            assert(self.pending() =~= self.current_batch@);
            if no_mask {
                assert(self.current_batch@ == candidate_spec);
                if old_self.unfiltered@ {
                    assert(old_self.emitted@ + old_self.pending() == old_self.pushed@);
                    assert(self.emitted@ + self.pending() =~= self.pushed@);
                }
            }
        }
    }

    /// Deliver the next slice of the current batch: up to the effective
    /// batch size rows starting at the cursor, advancing the cursor past
    /// them.
    pub fn deliver(&mut self) -> (r: Vec<DataPoint>)
        requires
            old(self).wf(),
        ensures
            final(self).wf(),
            final(self).batch_size == old(self).batch_size,
            final(self).current_batch@ == old(self).current_batch@,
            final(self).pushed@ == old(self).pushed@,
            final(self).unfiltered@ == old(self).unfiltered@,
            r@ == old(self).pending().take(old(self).delivery_len()),
            r@.len() <= old(self).batch_size,
            final(self).pending() == old(self).pending().skip(old(self).delivery_len()),
            final(self).emitted@ == old(self).emitted@ + r@,
            final(self).metrics.num_polls == old(self).metrics.num_polls,
            final(self).metrics.output_rows == saturated(
                (old(self).metrics.output_rows + r@.len()) as nat,
            ),
    {
        let ghost old_self = *old(self);
        let pending_len = self.current_batch.len() - self.current_batch_offset;
        let len = if self.batch_size <= pending_len {
            self.batch_size
        } else {
            pending_len
        };
        let mut r: Vec<DataPoint> = Vec::new();
        let mut i: usize = 0;
        while i < len
            invariant
                i <= len,
                len == old_self.delivery_len(),
                old_self.current_batch_offset + len <= old_self.current_batch@.len(),
                old_self.current_batch@.len() <= usize::MAX,
                *self == old_self,
                r@ == old_self.pending().take(i as int),
            decreases len - i,
        {
            r.push(self.current_batch[self.current_batch_offset + i]);
            i = i + 1;
            proof {
                assert(old_self.pending()[i - 1] == old_self.current_batch@[
                    old_self.current_batch_offset + i - 1
                ]);
                assert(r@ =~= old_self.pending().take(i as int));
            }
        }
        self.current_batch_offset = self.current_batch_offset + len;
        self.emitted = Ghost(self.emitted@ + r@);
        self.metrics.output_rows = sat_add(self.metrics.output_rows, r.len());
        proof {
            assert(self.pending() =~= old_self.pending().skip(old_self.delivery_len()));
            assert(old_self.pending() =~= r@ + self.pending());
            assert(self.emitted@ + self.pending() =~= old_self.emitted@ + old_self.pending());
        }
        r
    }

    /// One step of the poll protocol. The caller passes `None` when no pull
    /// was needed (enough rows are pending), and otherwise the outcome of
    /// polling the upstream once, with the kernel and the predicate already
    /// run over a yielded batch.
    ///
    /// A yielded batch refills the current batch and a slice of it is
    /// delivered; an exhausted upstream drains the leftover and then
    /// finishes the stream; an error and a not-ready poll are forwarded
    /// verbatim. Every delivered batch has at most `batch_size` rows.
    pub fn poll_next<E>(&mut self, upstream: Option<UpstreamPoll<E>>) -> (r: GridPoll<E>)
        requires
            old(self).wf(),
            upstream is Some <==> old(self).pending().len() < old(self).batch_size,
            upstream matches Some(UpstreamPoll::Batch(pts, mask)) ==> {
                &&& points_sorted(pts@)
                &&& (old(self).emitted@ + old(self).pending()).len() > 0 && pts@.len() > 0
                    ==> point_le((old(self).emitted@ + old(self).pending()).last(), pts@[0])
                &&& (mask matches Some(m) ==> m@.len() == old(self).pending().len() + pts@.len())
            },
        ensures
            final(self).wf(),
            final(self).batch_size == old(self).batch_size,
            final(self).metrics.num_polls == saturated((old(self).metrics.num_polls + 1) as nat),
            r matches GridPoll::Batch(b) ==> b@.len() <= old(self).batch_size && final(self).emitted@ == old(self).emitted@ + b@,
            upstream is None ==> (r matches GridPoll::Batch(b) && b@ == old(self).pending().take(
                old(self).delivery_len(),
            ) && final(self).pending() == old(self).pending().skip(old(self).delivery_len())
                && final(self).pushed@ == old(self).pushed@ && final(self).unfiltered@ == old(self).unfiltered@),
            upstream matches Some(UpstreamPoll::Batch(pts, mask)) ==> {
                let filtered = (match mask {
                    None => old(self).pending() + pts@,
                    Some(m) => mask_filter(old(self).pending() + pts@, m@),
                });
                let dlen = if old(self).batch_size <= filtered.len() {
                    old(self).batch_size as int
                } else {
                    filtered.len() as int
                };
                &&& (r matches GridPoll::Batch(b) && b@ == filtered.take(dlen))
                &&& final(self).pending() == filtered.skip(dlen)
                &&& final(self).pushed@ == old(self).pushed@ + pts@
                &&& final(self).unfiltered@ == (old(self).unfiltered@ && mask is None)
            },
            upstream matches Some(UpstreamPoll::Exhausted) ==> (if old(self).pending().len() > 0 {
                r matches GridPoll::Batch(b) && b@ == old(self).pending().take(
                    old(self).delivery_len(),
                ) && final(self).pending() == old(self).pending().skip(old(self).delivery_len())
            } else {
                r == GridPoll::<E>::Finished && data_unchanged(*old(self), *final(self))
            }),
            upstream matches Some(UpstreamPoll::Failed(e)) ==> r == GridPoll::<E>::Failed(e)
                && data_unchanged(*old(self), *final(self)),
            upstream matches Some(UpstreamPoll::NotReady) ==> r == GridPoll::<E>::NotReady
                && data_unchanged(*old(self), *final(self)),
    {
        self.metrics.num_polls = sat_add(self.metrics.num_polls, 1);
        match upstream {
            None => GridPoll::Batch(self.deliver()),
            Some(UpstreamPoll::Batch(pts, mask)) => {
                self.refill_current_batch(pts, mask);
                GridPoll::Batch(self.deliver())
            },
            Some(UpstreamPoll::Exhausted) => {
                if self.current_batch_offset < self.current_batch.len() {
                    GridPoll::Batch(self.deliver())
                } else {
                    GridPoll::Finished
                }
            },
            Some(UpstreamPoll::Failed(e)) => GridPoll::Failed(e),
            Some(UpstreamPoll::NotReady) => GridPoll::NotReady,
        }
    }
}

/// Predicate soundness: when the mask handed to a refill was computed by
/// evaluating a predicate `p` over the candidate rows (the pending leftover
/// followed by the newly reconstructed points), the new current batch the
/// refill installs is exactly the candidate filtered by `p`: each kept row
/// satisfies `p`, each candidate row satisfying `p` is kept once, and the
/// filter distributes over the leftover and the new points.
pub proof fn lemma_predicate_soundness(
    pending: Seq<DataPoint>,
    new_points: Seq<DataPoint>,
    m: Seq<bool>,
    p: spec_fn(DataPoint) -> bool,
)
    requires
        m.len() == pending.len() + new_points.len(),
        forall|i: int|
            0 <= i < m.len() ==> m[i] == p(#[trigger] (pending + new_points)[i]),
    ensures
        mask_filter(pending + new_points, m) == (pending + new_points).filter(p),
        (pending + new_points).filter(p) == pending.filter(p) + new_points.filter(p),
{
    lemma_mask_filter_is_filter(pending + new_points, m, p);
    Seq::filter_distributes_over_add(pending, new_points, p);
}

/// Sortedness: everything a well-formed stream has delivered, concatenated
/// in delivery order, is in point-order.
pub proof fn lemma_emitted_sorted(s: GridStream)
    requires
        s.wf(),
    ensures
        points_sorted(s.emitted@),
{
    assert forall|i: int, j: int| 0 <= i <= j < s.emitted@.len() implies point_le(
        s.emitted@[i],
        s.emitted@[j],
    ) by {
        assert((s.emitted@ + s.pending())[i] == s.emitted@[i]);
        assert((s.emitted@ + s.pending())[j] == s.emitted@[j]);
        assert(point_le((s.emitted@ + s.pending())[i], (s.emitted@ + s.pending())[j]));
    }
}

/// Row conservation: when no predicate mask was ever applied and the
/// leftover is drained, the stream has delivered exactly the data points
/// that were handed to it: the sum of the kernel's per-segment expansion
/// counts.
pub proof fn lemma_row_conservation(s: GridStream)
    requires
        s.wf(),
        s.unfiltered@,
        s.pending().len() == 0,
    ensures
        s.emitted@ == s.pushed@,
        s.emitted@.len() == s.pushed@.len(),
{
    assert(s.emitted@ =~= s.emitted@ + s.pending());
}

/// Leftover correctness: how the reconstructed points were split into
/// upstream batches does not matter. Two drained unfiltered streams that
/// were handed the same points overall have delivered the same rows, however
/// differently those rows were grouped into batches along the way.
pub proof fn lemma_partitioning_independent(a: GridStream, b: GridStream)
    requires
        a.wf(),
        b.wf(),
        a.unfiltered@,
        b.unfiltered@,
        a.pending().len() == 0,
        b.pending().len() == 0,
        a.pushed@ == b.pushed@,
    ensures
        a.emitted@ == b.emitted@,
{
    lemma_row_conservation(a);
    lemma_row_conservation(b);
}

} // verus!

