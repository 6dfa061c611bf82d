use vstd::prelude::*;
use crate::errors::{CopyErrorKind, CopyFailure};

verus! {

/// Number of documents staged in memory before one bulk insert is issued.
pub const BATCH_SIZE: usize = 1000;

/// How many documents a forward cursor delivers from a source collection of
/// `n` documents when retrieval is capped at the query level: `min(l, n)`
/// under a cap of `l`, all `n` without one.
pub open spec fn delivered(n: nat, limit: Option<u64>) -> nat {
    match limit {
        Some(l) => if n <= l as nat { n } else { l as nat },
        None => n,
    }
}

/// Number of bulk inserts a successful copy of `n` documents issues with
/// batch size `b`: one per full batch, plus one for a trailing partial batch.
/// Equal to `n / b` rounded up; see `lemma_batch_count_is_ceil`.
pub open spec fn batch_count(n: nat, b: nat) -> nat
    recommends
        b > 0,
{
    if n % b == 0 {
        n / b
    } else {
        n / b + 1
    }
}

/// The documents of a run of batches, in the order they were inserted.
pub open spec fn inserted<D>(batches: Seq<Vec<D>>) -> Seq<D> {
    batches.map_values(|b: Vec<D>| b@).flatten()
}

/// Law: the number of bulk inserts for `n` documents at batch size `b` is
/// exactly `n / b` rounded up (the ceiling of the division).
pub proof fn lemma_batch_count_is_ceil(n: nat, b: nat)
    requires
        b > 0,
    ensures
        batch_count(n, b) == (n + b - 1) / (b as int),
{
    let q = n / b;
    let r = n % b;
    vstd::arithmetic::div_mod::lemma_fundamental_div_mod(n as int, b as int);
    assert(n == b * q + r);
    if r == 0 {
        assert((n + b - 1) as int == (q as int) * (b as int) + ((b - 1) as int))
            by (nonlinear_arith)
            requires n == b * q + r, r == 0, b > 0;
        vstd::arithmetic::div_mod::lemma_fundamental_div_mod_converse_div(
            (n + b - 1) as int, b as int, q as int, (b - 1) as int);
    } else {
        assert((n + b - 1) as int == ((q + 1) as int) * (b as int) + ((r - 1) as int))
            by (nonlinear_arith)
            requires n == b * q + r, r > 0, b > 0;
        vstd::arithmetic::div_mod::lemma_fundamental_div_mod_converse_div(
            (n + b - 1) as int, b as int, (q + 1) as int, (r - 1) as int);
    }
}

/// Law: splitting `n == full * b + rest` with `rest < b` into batches takes
/// `full` full inserts plus one more exactly when a partial batch remains.
pub proof fn lemma_batch_count_split(full: nat, rest: nat, b: nat)
    requires
        b > 0,
        rest < b,
    ensures
        batch_count(full * b + rest, b) == full + if rest > 0 { 1nat } else { 0nat },
{
    let n = full * b + rest;
    vstd::arithmetic::div_mod::lemma_fundamental_div_mod_converse_div(
        n as int, b as int, full as int, rest as int);
    vstd::arithmetic::div_mod::lemma_fundamental_div_mod_converse_mod(
        n as int, b as int, full as int, rest as int);
}

/// The streaming copy of one collection, seen from its decision points.
///
/// The pipeline owns every decision of the copy loop: staging documents read
/// from the source cursor, deciding when a full batch must be flushed,
/// handing the batch out for one bulk insert, and keeping the running counts.
/// The caller performs the two network operations (cursor read, bulk insert)
/// and reports each outcome back; whatever those operations do, the counts
/// this type reports are correct for the outcomes reported to it.
///
/// `documents_copied` in every failure means confirmed written to the
/// destination: only fully flushed batches count, never the batch whose
/// insert failed.
pub struct CollectionCopy<D> {
    limit: Option<u64>,
    batch: Vec<D>,
    read: u64,
    flushed: u64,
    in_flight: Option<usize>,
}

impl<D> CollectionCopy<D> {
    /// Documents read from the source cursor so far.
    pub closed spec fn read_count(self) -> nat {
        self.read as nat
    }

    /// Documents confirmed written to the destination (fully flushed batches).
    pub closed spec fn flushed_count(self) -> nat {
        self.flushed as nat
    }

    /// The documents staged for the next bulk insert, in read order.
    pub closed spec fn buffered(self) -> Seq<D> {
        self.batch@
    }

    /// Size of a batch handed out and not yet confirmed, if any.
    pub closed spec fn awaiting(self) -> Option<nat> {
        match self.in_flight {
            Some(n) => Some(n as nat),
            None => None,
        }
    }

    /// The optional row cap this copy was started with.
    pub closed spec fn cap(self) -> Option<u64> {
        self.limit
    }

    pub open spec fn awaiting_count(self) -> nat {
        match self.awaiting() {
            Some(n) => n,
            None => 0,
        }
    }

    /// Every document read is accounted for exactly once: confirmed written,
    /// in flight, or still staged; a staged batch never exceeds `BATCH_SIZE`;
    /// nothing is staged while an insert is outstanding; reads never exceed
    /// the cap.
    pub open spec fn wf(self) -> bool {
        &&& self.flushed_count() + self.awaiting_count() + self.buffered().len()
            == self.read_count()
        &&& self.buffered().len() <= BATCH_SIZE
        &&& self.awaiting() is Some ==> self.buffered().len() == 0
        &&& match self.cap() {
            Some(l) => self.read_count() <= l,
            None => true,
        }
    }

    /// Whether the pipeline may accept another document: no insert
    /// outstanding, room in the staged batch, and the cap not yet reached.
    pub open spec fn accepts(self) -> bool {
        &&& self.awaiting() is None
        &&& self.buffered().len() < BATCH_SIZE
        &&& self.read_count() < u64::MAX
        &&& match self.cap() {
            Some(l) => self.read_count() < l,
            None => true,
        }
    }

    /// Start a copy with an optional row cap.
    pub fn new(limit: Option<u64>) -> (p: Self)
        ensures
            p.wf(),
            p.read_count() == 0,
            p.flushed_count() == 0,
            p.buffered().len() == 0,
            p.awaiting() is None,
            p.cap() == limit,
    {
        CollectionCopy { limit, batch: Vec::new(), read: 0, flushed: 0, in_flight: None }
    }

    /// Exec mirror of `accepts`.
    pub fn can_push(&self) -> (r: bool)
        ensures
            r == self.accepts(),
    {
        self.in_flight.is_none() && self.batch.len() < BATCH_SIZE && self.read < u64::MAX
            && match self.limit {
                Some(l) => self.read < l,
                None => true,
            }
    }

    /// Stage one document read from the source cursor.
    pub fn push(&mut self, doc: D)
        requires
            old(self).wf(),
            old(self).accepts(),
        ensures
            final(self).wf(),
            final(self).buffered() == old(self).buffered().push(doc),
            final(self).read_count() == old(self).read_count() + 1,
            final(self).flushed_count() == old(self).flushed_count(),
            final(self).awaiting() == old(self).awaiting(),
            final(self).cap() == old(self).cap(),
    {
        self.batch.push(doc);
        self.read = self.read + 1;
    }

    /// True when a full batch is staged and must be flushed before the next
    /// document can be accepted.
    pub fn batch_ready(&self) -> (r: bool)
        ensures
            r == (self.buffered().len() >= BATCH_SIZE),
    {
        self.batch.len() >= BATCH_SIZE
    }

    /// Documents confirmed written so far.
    pub fn copied(&self) -> (n: u64)
        ensures
            n == self.flushed_count(),
    {
        self.flushed
    }

    /// Number of documents currently staged.
    pub fn staged_len(&self) -> (n: usize)
        ensures
            n == self.buffered().len(),
    {
        self.batch.len()
    }

    /// Hand the staged batch out for one bulk insert. The pipeline accepts
    /// nothing further until the insert's outcome is reported.
    pub fn take_batch(&mut self) -> (b: Vec<D>)
        requires
            old(self).wf(),
            old(self).buffered().len() > 0,
            old(self).awaiting() is None,
        ensures
            final(self).wf(),
            b@ == old(self).buffered(),
            final(self).buffered().len() == 0,
            final(self).awaiting() == Some(b@.len() as nat),
            final(self).read_count() == old(self).read_count(),
            final(self).flushed_count() == old(self).flushed_count(),
            final(self).cap() == old(self).cap(),
    {
        let mut b: Vec<D> = Vec::new();
        core::mem::swap(&mut b, &mut self.batch);
        self.in_flight = Some(b.len());
        b
    }

    /// Record that the bulk insert of the handed-out batch succeeded: its
    /// documents are now confirmed written.
    pub fn batch_inserted(&mut self)
        requires
            old(self).wf(),
            old(self).awaiting() is Some,
        ensures
            final(self).wf(),
            final(self).flushed_count()
                == old(self).flushed_count() + old(self).awaiting_count(),
            final(self).awaiting() is None,
            final(self).buffered() == old(self).buffered(),
            final(self).read_count() == old(self).read_count(),
            final(self).cap() == old(self).cap(),
    {
        if let Some(n) = self.in_flight {
            self.flushed = self.flushed + n as u64;
            self.in_flight = None;
        }
    }

    /// Report a source cursor failure: the copy aborts with the documents
    /// confirmed written so far.
    pub fn cursor_failed(&self) -> (f: CopyFailure)
        ensures
            f.kind == CopyErrorKind::Cursor,
            f.documents_copied == self.flushed_count(),
    {
        CopyFailure { kind: CopyErrorKind::Cursor, documents_copied: self.flushed }
    }

    /// Report a bulk insert failure: the copy aborts immediately, counting
    /// only prior fully flushed batches and nothing from the failed batch.
    pub fn insert_failed(&self) -> (f: CopyFailure)
        ensures
            f.kind == CopyErrorKind::Insert,
            f.documents_copied == self.flushed_count(),
    {
        CopyFailure { kind: CopyErrorKind::Insert, documents_copied: self.flushed }
    }

    /// The cursor is exhausted and every batch is confirmed: the final count,
    /// equal both to what was read and to what was written.
    pub fn finish(&self) -> (count: u64)
        requires
            self.wf(),
            self.buffered().len() == 0,
            self.awaiting() is None,
        ensures
            count == self.flushed_count(),
            count == self.read_count(),
    {
        self.flushed
    }

    /// Law: a well-formed pipeline never reports more documents copied than
    /// it read, and never more than its cap.
    pub proof fn lemma_count_within_cap(self)
        requires
            self.wf(),
        ensures
            self.flushed_count() <= self.read_count(),
            self.cap() matches Some(l) ==> self.flushed_count() <= l,
    {
    }
}

/// Copy a whole source collection through the pipeline, for a run in which
/// every bulk insert succeeds: returns the issued batches in insertion order
/// and the final count.
///
/// This is the copy loop's batching behavior stated as one function over an
/// in-memory source. With `n` documents delivered (`min(limit, source len)`):
/// exactly `batch_count(n, BATCH_SIZE)` bulk inserts are issued, their
/// concatenation is exactly the first `n` source documents in order, every
/// batch but the last is full, the last is never empty and never over-full,
/// and the reported count is `n` — both read from source and written.
pub fn copy_batches<D>(source: Vec<D>, limit: Option<u64>) -> (r: (Vec<Vec<D>>, u64))
    ensures
        r.1 as nat == delivered(source@.len(), limit),
        r.0@.len() == batch_count(delivered(source@.len(), limit), BATCH_SIZE as nat),
        inserted(r.0@) == source@.take(delivered(source@.len(), limit) as int),
        forall|j: int| 0 <= j < r.0@.len() - 1 ==> (#[trigger] r.0@[j])@.len() == BATCH_SIZE,
        forall|j: int| 0 <= j < r.0@.len() ==> 0 < (#[trigger] r.0@[j])@.len() <= BATCH_SIZE,
{
    let ghost all = source@;
    let mut src = source;
    let total: usize = match limit {
        Some(l) => {
            if (src.len() as u64) > l {
                l as usize
            } else {
                src.len()
            }
        },
        None => src.len(),
    };
    assert(total as nat == delivered(all.len(), limit));

    let mut pipe = CollectionCopy::<D>::new(limit);
    let mut batches: Vec<Vec<D>> = Vec::new();
    let mut i: usize = 0;
    while i < total
        invariant
            total <= all.len(),
            total as nat == delivered(all.len(), limit),
            i <= total,
            src@ == all.skip(i as int),
            pipe.wf(),
            pipe.cap() == limit,
            pipe.awaiting() is None,
            pipe.read_count() == i,
            pipe.buffered().len() < BATCH_SIZE,
            pipe.flushed_count() == batches@.len() * (BATCH_SIZE as nat),
            pipe.buffered() == all.subrange(pipe.flushed_count() as int, i as int),
            inserted(batches@) == all.take(pipe.flushed_count() as int),
            forall|j: int|
                0 <= j < batches@.len() ==> (#[trigger] batches@[j])@.len() == BATCH_SIZE,
        decreases total - i,
    {
        let ghost flushed_before = pipe.flushed_count();
        let d = src.remove(0);
        proof {
            assert(d == all[i as int]);
            assert(all.skip(i as int).remove(0) =~= all.skip(i as int + 1));
        }
        pipe.push(d);
        i = i + 1;
        proof {
            assert(pipe.buffered() =~= all.subrange(flushed_before as int, i as int));
        }
        if pipe.batch_ready() {
            let b = pipe.take_batch();
            pipe.batch_inserted();
            let ghost prev = batches@;
            batches.push(b);
            proof {
                let vm = |v: Vec<D>| v@;
                assert(batches@.map_values(vm) =~= prev.map_values(vm).push(b@));
                prev.map_values(vm).lemma_flatten_push(b@);
                assert(inserted(batches@)
                    =~= all.take(flushed_before as int) + all.subrange(flushed_before as int, i as int));
                assert(inserted(batches@) =~= all.take(pipe.flushed_count() as int));
                assert(pipe.buffered() =~= all.subrange(pipe.flushed_count() as int, i as int));
            }
        }
    }

    let ghost full_batches = batches@.len();
    let ghost rest = pipe.buffered().len();
    if pipe.staged_len() > 0 {
        let b = pipe.take_batch();
        pipe.batch_inserted();
        let ghost prev = batches@;
        batches.push(b);
        proof {
            let vm = |v: Vec<D>| v@;
            assert(batches@.map_values(vm) =~= prev.map_values(vm).push(b@));
            prev.map_values(vm).lemma_flatten_push(b@);
            assert(inserted(batches@) =~= all.take(total as int));
        }
    }
    let count = pipe.finish();
    proof {
        lemma_batch_count_split(full_batches, rest, BATCH_SIZE as nat);
        assert(inserted(batches@) =~= all.take(total as int));
    }
    (batches, count)
}

} // verus!
