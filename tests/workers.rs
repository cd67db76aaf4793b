use rc::job::{ConflictResolution, JobId, JobManager, JobStatus, JobType, JobUpdate};
use rc::worker::{
    delete_order, finish_update, ConflictStep, DeleteState, FileAction, ScanTotals, TransferState, WalkEntry,
    WorkerError,
};

fn progress_bytes(u: &JobUpdate) -> Option<(u64, u64)> {
    match u {
        JobUpdate::Progress { processed_bytes, files_processed, .. } => Some((*processed_bytes, *files_processed)),
        _ => None,
    }
}

#[test]
fn copy_three_files_end_to_end() {
    let mut m = JobManager::new();
    let id = m.start_job(JobType::Copy, "/A".to_string(), "/B".to_string(), 0);
    let mut scan = ScanTotals::new();
    for size in [1000u64, 1200, 800] {
        assert!(scan.can_add(size));
        scan.add_file(size);
    }
    let mut sent = vec![scan.scan_complete(id)];
    let mut w = TransferState::new(id);
    for (name, size) in [("a", 1000u64), ("b", 1200), ("c", 800)] {
        let mut left = size;
        while left > 0 {
            let n = left.min(512);
            sent.push(w.chunk_copied(n, Some(name.to_string())));
            left -= n;
        }
        sent.push(w.file_copied(Some(name.to_string())));
    }
    sent.push(finish_update(id, Ok(())));

    assert!(matches!(sent[0], JobUpdate::ScanComplete { total_bytes: 3000, total_files: 3, .. }));
    assert_eq!(sent.iter().filter(|u| matches!(u, JobUpdate::ScanComplete { .. })).count(), 1);
    let values: Vec<(u64, u64)> = sent.iter().filter_map(progress_bytes).collect();
    let mut prev = 0u64;
    let mut sum = 0u64;
    for &(b, _) in &values {
        assert!(b >= prev);
        sum += b - prev;
        prev = b;
    }
    assert_eq!(sum, 3000);
    assert_eq!(*values.last().unwrap(), (3000, 3));
    assert!(matches!(sent.last().unwrap(), JobUpdate::Completed { .. }));

    let (dests, sources) = m.process_updates(sent, 1000);
    assert_eq!(dests, vec!["/B".to_string()]);
    assert!(sources.is_empty());
    let job = m.get_job(id).unwrap();
    assert!(matches!(job.status, JobStatus::Completed));
    assert_eq!((job.progress.total_bytes, job.progress.processed_bytes), (3000, 3000));
    assert_eq!((job.progress.files_processed, job.progress.total_files), (3, 3));
}

#[test]
fn conflict_skip_counts_file_without_copying() {
    let mut w = TransferState::new(JobId(1));
    w.file_copied(None);
    assert_eq!(w.destination_exists(), ConflictStep::Ask);
    let prompt = w.conflict_update("/dst/f".to_string());
    assert!(matches!(prompt, JobUpdate::ConflictDetected { job_id: JobId(1), ref file_path } if file_path == "/dst/f"));
    assert!(matches!(w.resolve(Some(ConflictResolution::Skip)), Ok(FileAction::Skip)));
    assert_eq!(w.files_processed, 2);
    assert_eq!(w.processed_bytes, 0);
    assert_eq!(w.destination_exists(), ConflictStep::Ask);
}

#[test]
fn conflict_overwrite_all_stops_prompts() {
    let mut w = TransferState::new(JobId(2));
    assert_eq!(w.destination_exists(), ConflictStep::Ask);
    assert!(matches!(w.resolve(Some(ConflictResolution::OverwriteAll)), Ok(FileAction::Copy)));
    for _ in 0..5 {
        assert_eq!(w.destination_exists(), ConflictStep::Copy);
        w.chunk_copied(10, None);
        w.file_copied(None);
    }
    assert!(w.overwrite_all);
    assert_eq!((w.processed_bytes, w.files_processed), (50, 5));
}

#[test]
fn conflict_skip_all_and_cancel() {
    let mut w = TransferState::new(JobId(3));
    assert!(matches!(w.resolve(Some(ConflictResolution::SkipAll)), Ok(FileAction::Skip)));
    assert_eq!(w.destination_exists(), ConflictStep::Skip);
    assert_eq!(w.files_processed, 2);
    assert!(matches!(w.resolve(Some(ConflictResolution::Overwrite)), Ok(FileAction::Copy)));
    assert!(matches!(w.resolve(Some(ConflictResolution::Cancel)), Err(WorkerError::ConflictCancelled)));
    assert!(matches!(w.resolve(None), Err(WorkerError::ConflictCancelled)));
}

#[test]
fn finishing_updates_by_outcome() {
    let id = JobId(5);
    assert!(matches!(finish_update(id, Ok(())), JobUpdate::Completed { job_id: JobId(5) }));
    assert!(matches!(finish_update(id, Err(WorkerError::Interrupted)), JobUpdate::Cancelled { .. }));
    assert!(matches!(finish_update(id, Err(WorkerError::ConflictCancelled)), JobUpdate::Cancelled { .. }));
    assert!(matches!(finish_update(id, Err(WorkerError::Io("denied".to_string()))), JobUpdate::Failed { ref error, .. } if error == "denied"));
    assert!(matches!(
        finish_update(id, Err(WorkerError::PostCopyDeleteFailed("busy".to_string()))),
        JobUpdate::Failed { ref error, .. } if error == "Copied but failed to delete source: busy"
    ));
}

#[test]
fn conflict_cancel_makes_job_cancelled() {
    let mut m = JobManager::new();
    let id = m.start_job(JobType::Move, "/a/f".to_string(), "/b".to_string(), 0);
    let mut w = TransferState::new(id);
    let answer = m.send_conflict_resolution(id, ConflictResolution::Cancel);
    let r = w.resolve(answer);
    let update = finish_update(id, r.map(|_| ()));
    m.process_updates(vec![update], 10);
    assert!(matches!(m.get_job(id).unwrap().status, JobStatus::Cancelled));
    assert!(!m.has_worker(id));
}

#[test]
fn delete_progress_counts_each_file() {
    let mut d = DeleteState::new(JobId(7));
    let u1 = d.file_removed(100, Some("x".to_string()));
    let u2 = d.file_removed(50, Some("y".to_string()));
    assert_eq!(progress_bytes(&u1), Some((100, 1)));
    assert_eq!(progress_bytes(&u2), Some((150, 2)));
}

fn entry(path: &str, is_dir: bool, depth: usize) -> WalkEntry {
    WalkEntry { path: path.to_string(), is_dir, depth }
}

#[test]
fn delete_order_files_then_deepest_dirs() {
    let entries = vec![
        entry("/t", true, 0),
        entry("/t/a", true, 1),
        entry("/t/a/f1", false, 2),
        entry("/t/a/b", true, 2),
        entry("/t/a/b/f2", false, 3),
        entry("/t/c", true, 1),
        entry("/t/g", false, 1),
    ];
    let order = delete_order(&entries);
    assert_eq!(order, vec![2, 4, 6, 3, 1, 5, 0]);
    let mut removed = vec![false; entries.len()];
    for &i in &order {
        if entries[i].is_dir {
            let prefix = format!("{}/", entries[i].path);
            for (k, e) in entries.iter().enumerate() {
                if e.path.starts_with(&prefix) {
                    assert!(removed[k], "{} still holds {}", entries[i].path, e.path);
                }
            }
        }
        removed[i] = true;
    }
    assert!(removed.iter().all(|&r| r));
    assert!(delete_order(&vec![]).is_empty());
}
