use vstd::prelude::*;
use crate::errors::CopyFailure;

verus! {

/// What one run of the tool copies: whole databases or chosen collections.
pub enum CopyMode {
    Databases,
    Collections,
}

/// One pipeline invocation: a source and a destination collection locator
/// and an optional row cap. Created per collection, discarded after the
/// pipeline returns.
pub struct CopyJob {
    pub source_db: String,
    pub source_coll: String,
    pub dest_db: String,
    pub dest_coll: String,
    pub limit: Option<u64>,
}

/// A failed database-level copy: the collection whose copy failed, with the
/// partial-progress failure the pipeline reported for it. Collections copied
/// before it remain at the destination; none after it was started.
pub struct DatabaseCopyError {
    pub collection: String,
    pub failure: CopyFailure,
}

/// The database-level copy loop, seen from its decision points.
///
/// Given the catalog's collection names, it hands out one copy job per
/// collection, in catalog order, each with identical source and destination
/// collection name and no row cap. The caller runs the collection pipeline
/// for each job and reports the outcome; the first failure ends the run
/// (only `record_success` advances to the next collection), naming the
/// collection that failed. There is no rollback and no retry.
pub struct DatabaseCopy {
    source_db: String,
    dest_db: String,
    names: Vec<String>,
    done: usize,
    counts: Vec<u64>,
}

impl DatabaseCopy {
    /// The collection names to copy, in catalog enumeration order.
    pub closed spec fn collections(self) -> Seq<Seq<char>> {
        self.names@.map_values(|n: String| n@)
    }

    /// How many collections have been fully copied.
    pub closed spec fn done_count(self) -> nat {
        self.done as nat
    }

    /// The reported document count of each fully copied collection.
    pub closed spec fn counts(self) -> Seq<u64> {
        self.counts@
    }

    pub closed spec fn source_db_name(self) -> Seq<char> {
        self.source_db@
    }

    pub closed spec fn dest_db_name(self) -> Seq<char> {
        self.dest_db@
    }

    /// Exactly the collections before `done_count` are copied, one count
    /// recorded per copied collection.
    pub open spec fn wf(self) -> bool {
        &&& self.done_count() <= self.collections().len()
        &&& self.counts().len() == self.done_count()
    }

    /// Start a database copy over the given collection names.
    pub fn new(source_db: String, dest_db: String, collections: Vec<String>) -> (o: Self)
        ensures
            o.wf(),
            o.source_db_name() == source_db@,
            o.dest_db_name() == dest_db@,
            o.collections() == collections@.map_values(|n: String| n@),
            o.done_count() == 0,
            o.counts().len() == 0,
    {
        DatabaseCopy { source_db, dest_db, names: collections, done: 0, counts: Vec::new() }
    }

    /// True once every collection is copied.
    pub fn finished(&self) -> (r: bool)
        requires
            self.wf(),
        ensures
            r == (self.done_count() == self.collections().len()),
    {
        self.done >= self.names.len()
    }

    /// How many collections there are in all.
    pub fn total(&self) -> (n: usize)
        ensures
            n == self.collections().len(),
    {
        self.names.len()
    }

    /// The job for the next collection: same collection name at source and
    /// destination, no row cap.
    pub fn current_job(&self) -> (j: CopyJob)
        requires
            self.wf(),
            self.done_count() < self.collections().len(),
        ensures
            j.source_db@ == self.source_db_name(),
            j.dest_db@ == self.dest_db_name(),
            j.source_coll@ == self.collections()[self.done_count() as int],
            j.dest_coll@ == self.collections()[self.done_count() as int],
            j.limit is None,
    {
        let name = self.names[self.done].clone();
        let dest_name = self.names[self.done].clone();
        CopyJob {
            source_db: self.source_db.clone(),
            source_coll: name,
            dest_db: self.dest_db.clone(),
            dest_coll: dest_name,
            limit: None,
        }
    }

    /// Record that the current collection copied fully, with its document
    /// count, and move to the next collection.
    pub fn record_success(&mut self, count: u64)
        requires
            old(self).wf(),
            old(self).done_count() < old(self).collections().len(),
        ensures
            final(self).wf(),
            final(self).done_count() == old(self).done_count() + 1,
            final(self).counts() == old(self).counts().push(count),
            final(self).collections() == old(self).collections(),
            final(self).source_db_name() == old(self).source_db_name(),
            final(self).dest_db_name() == old(self).dest_db_name(),
    {
        self.counts.push(count);
        if self.done < self.names.len() {
            self.done = self.done + 1;
        }
    }

    /// Report the current collection's copy as failed. The whole database
    /// copy aborts: the error names the collection that failed, the
    /// collections before it remain fully copied, and no later collection
    /// was started.
    pub fn record_failure(&self, failure: CopyFailure) -> (r: DatabaseCopyError)
        requires
            self.wf(),
            self.done_count() < self.collections().len(),
        ensures
            r.collection@ == self.collections()[self.done_count() as int],
            r.failure == failure,
    {
        DatabaseCopyError { collection: self.names[self.done].clone(), failure }
    }

    /// The per-collection counts recorded so far, in catalog order.
    pub fn into_counts(self) -> (c: Vec<u64>)
        ensures
            c@ == self.counts(),
    {
        self.counts
    }
}

/// How a whole database copy ended: every collection copied with its count,
/// or aborted at the named collection, with the counts of the collections
/// fully copied before it.
pub enum DatabaseCopyOutcome {
    Completed { counts: Vec<u64> },
    Aborted { completed: Vec<u64>, error: DatabaseCopyError },
}

/// Whether every collection copy succeeded.
pub open spec fn all_ok(outcomes: Seq<Result<u64, CopyFailure>>) -> bool {
    forall|j: int| 0 <= j < outcomes.len() ==> (#[trigger] outcomes[j]) is Ok
}

/// Whether `i` is the first failed collection copy.
pub open spec fn first_failure(outcomes: Seq<Result<u64, CopyFailure>>, i: int) -> bool {
    &&& 0 <= i < outcomes.len()
    &&& outcomes[i] is Err
    &&& forall|j: int| 0 <= j < i ==> (#[trigger] outcomes[j]) is Ok
}

/// Law: the database copy is fail-fast with no rollback. Given one outcome
/// per collection, in catalog order: when all succeed, the copy completes
/// with every count; when any fails, the copy aborts at the first failure —
/// exactly the collections before it are copied (their counts reported in
/// order), the error names the failing collection and carries its
/// partial-progress failure, and nothing after it is reached.
pub fn run_database_copy(
    source_db: String,
    dest_db: String,
    collections: Vec<String>,
    outcomes: Vec<Result<u64, CopyFailure>>,
) -> (r: DatabaseCopyOutcome)
    requires
        outcomes@.len() == collections@.len(),
    ensures
        all_ok(outcomes@) ==> (r matches DatabaseCopyOutcome::Completed { counts }
            && counts@.len() == outcomes@.len() && forall|j: int|
            0 <= j < outcomes@.len() ==> ((#[trigger] outcomes@[j]) matches Ok(c)
                && counts@[j] == c)),
        !all_ok(outcomes@) ==> exists|i: int|
            first_failure(outcomes@, i) && (r matches DatabaseCopyOutcome::Aborted {
                completed,
                error,
            } && completed@.len() == i && (forall|j: int|
                0 <= j < i ==> ((#[trigger] outcomes@[j]) matches Ok(c) && completed@[j] == c))
                && error.collection@ == collections@[i]@ && (outcomes@[i] matches Err(f)
                && error.failure == f)),
{
    let n = collections.len();
    let mut db = DatabaseCopy::new(source_db, dest_db, collections);
    let mut i: usize = 0;
    while i < n
        invariant
            db.wf(),
            n == db.collections().len(),
            n == outcomes@.len(),
            i <= n,
            db.done_count() == i,
            forall|j: int| 0 <= j < i ==> (#[trigger] outcomes@[j]) is Ok,
            forall|j: int|
                0 <= j < i ==> ((#[trigger] outcomes@[j]) matches Ok(c) && db.counts()[j] == c),
            forall|j: int| 0 <= j < n ==> db.collections()[j] == collections@[j]@,
        decreases n - i,
    {
        match &outcomes[i] {
            Ok(c) => {
                db.record_success(*c);
            },
            Err(f) => {
                let error = db.record_failure(*f);
                let completed = db.into_counts();
                proof {
                    assert(first_failure(outcomes@, i as int));
                }
                return DatabaseCopyOutcome::Aborted { completed, error };
            },
        }
        i = i + 1;
    }
    DatabaseCopyOutcome::Completed { counts: db.into_counts() }
}

} // verus!
