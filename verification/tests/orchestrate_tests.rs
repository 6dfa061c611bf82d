use mongo_copy::errors::{CopyErrorKind, CopyFailure};
use mongo_copy::orchestrate::{run_database_copy, CopyMode, DatabaseCopy, DatabaseCopyOutcome};
use mongo_copy::pipeline::CollectionCopy;

fn names(list: &[&str]) -> Vec<String> {
    list.iter().map(|s| s.to_string()).collect()
}

#[test]
fn jobs_come_in_catalog_order_with_same_names_and_no_limit() {
    let mut db = DatabaseCopy::new(
        "shop".to_string(),
        "shop_backup".to_string(),
        names(&["alpha", "bravo", "charlie"]),
    );
    assert_eq!(db.total(), 3);
    let mut seen: Vec<String> = Vec::new();
    while !db.finished() {
        let job = db.current_job();
        assert_eq!(job.source_db, "shop");
        assert_eq!(job.dest_db, "shop_backup");
        assert_eq!(job.source_coll, job.dest_coll);
        assert_eq!(job.limit, None);
        seen.push(job.source_coll);
        db.record_success(0);
    }
    assert_eq!(seen, vec!["alpha", "bravo", "charlie"]);
}

#[test]
fn empty_catalog_is_finished_at_once() {
    let db = DatabaseCopy::new("a".to_string(), "b".to_string(), Vec::new());
    assert!(db.finished());
}

#[test]
fn failure_names_the_failing_collection() {
    let mut db = DatabaseCopy::new(
        "src".to_string(),
        "dst".to_string(),
        names(&["alpha", "bravo", "charlie"]),
    );
    db.record_success(42);
    let failure = CopyFailure { kind: CopyErrorKind::Insert, documents_copied: 1000 };
    let err = db.record_failure(failure);
    assert_eq!(err.collection, "bravo");
    assert_eq!(err.failure, failure);
}

/// Database-level copy over three collections where the middle one's insert
/// fails: the first is fully present at the destination, the middle only up
/// to its last fully flushed batch, the last absent, and the reported error
/// names the middle collection.
#[test]
fn database_copy_fail_fast_leaves_prefix_copied() {
    let alpha: Vec<u64> = (0..1200).collect();
    let bravo: Vec<u64> = (10_000..11_500).collect();
    let charlie: Vec<u64> = (20_000..20_010).collect();
    let sources = [("alpha", &alpha), ("bravo", &bravo), ("charlie", &charlie)];

    // Destination per collection; bravo's destination already holds a key
    // from bravo's trailing batch, so its second insert fails.
    let mut dest_alpha: Vec<u64> = Vec::new();
    let mut dest_bravo: Vec<u64> = vec![11_400];
    let mut dest_charlie: Vec<u64> = Vec::new();

    let mut db = DatabaseCopy::new(
        "src".to_string(),
        "dst".to_string(),
        names(&["alpha", "bravo", "charlie"]),
    );

    let mut outcome: Option<mongo_copy::orchestrate::DatabaseCopyError> = None;
    while !db.finished() {
        let job = db.current_job();
        let (source, dest): (&Vec<u64>, &mut Vec<u64>) = match job.source_coll.as_str() {
            "alpha" => (sources[0].1, &mut dest_alpha),
            "bravo" => (sources[1].1, &mut dest_bravo),
            _ => (sources[2].1, &mut dest_charlie),
        };
        match copy_collection_sim(source, job.limit, dest) {
            Ok(count) => db.record_success(count),
            Err(f) => {
                outcome = Some(db.record_failure(f));
                break;
            }
        }
    }

    let err = outcome.expect("the database copy must fail");
    assert_eq!(err.collection, "bravo");
    assert_eq!(err.failure.kind, CopyErrorKind::Insert);
    assert_eq!(err.failure.documents_copied, 1000);

    // alpha fully present, bravo partially (one flushed batch), charlie absent.
    assert_eq!(dest_alpha, alpha);
    assert_eq!(dest_bravo.len(), 1 + 1000);
    assert!(dest_charlie.is_empty());
}

#[test]
fn run_database_copy_completes_with_all_counts() {
    let r = run_database_copy(
        "s".to_string(),
        "d".to_string(),
        names(&["alpha", "bravo"]),
        vec![Ok(10), Ok(20)],
    );
    match r {
        DatabaseCopyOutcome::Completed { counts } => assert_eq!(counts, vec![10, 20]),
        DatabaseCopyOutcome::Aborted { .. } => panic!("copy must complete"),
    }
}

#[test]
fn run_database_copy_aborts_at_first_failure() {
    let failure = CopyFailure { kind: CopyErrorKind::Insert, documents_copied: 1000 };
    let r = run_database_copy(
        "s".to_string(),
        "d".to_string(),
        names(&["alpha", "bravo", "charlie"]),
        vec![Ok(1200), Err(failure), Ok(10)],
    );
    match r {
        DatabaseCopyOutcome::Aborted { completed, error } => {
            assert_eq!(completed, vec![1200]);
            assert_eq!(error.collection, "bravo");
            assert_eq!(error.failure, failure);
        }
        DatabaseCopyOutcome::Completed { .. } => panic!("copy must abort"),
    }
}

#[test]
fn catalog_failure_is_representable() {
    let f = CopyFailure::new(CopyErrorKind::Catalog, 0);
    assert_eq!(f.kind, CopyErrorKind::Catalog);
    assert_eq!(f.documents_copied, 0);
}

#[test]
fn copy_mode_variants_exist() {
    let db_mode = CopyMode::Databases;
    let coll_mode = CopyMode::Collections;
    assert!(matches!(db_mode, CopyMode::Databases));
    assert!(matches!(coll_mode, CopyMode::Collections));
}

fn insert_unique(dest: &mut Vec<u64>, batch: &[u64]) -> bool {
    for d in batch {
        if dest.contains(d) {
            return false;
        }
    }
    dest.extend_from_slice(batch);
    true
}

fn copy_collection_sim(
    source: &[u64],
    limit: Option<u64>,
    dest: &mut Vec<u64>,
) -> Result<u64, CopyFailure> {
    let mut pipe: CollectionCopy<u64> = CollectionCopy::new(limit);
    for &d in source {
        if !pipe.can_push() {
            break;
        }
        pipe.push(d);
        if pipe.batch_ready() {
            let b = pipe.take_batch();
            if insert_unique(dest, &b) {
                pipe.batch_inserted();
            } else {
                return Err(pipe.insert_failed());
            }
        }
    }
    if pipe.staged_len() > 0 {
        let b = pipe.take_batch();
        if insert_unique(dest, &b) {
            pipe.batch_inserted();
        } else {
            return Err(pipe.insert_failed());
        }
    }
    Ok(pipe.finish())
}
