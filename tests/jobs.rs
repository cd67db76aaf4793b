use rc::job::{validate_transfer, ConflictResolution, JobId, JobManager, JobStatus, JobType, JobUpdate, TransferFacts};
use rc::throughput::ThroughputTracker;

fn progress(id: JobId, bytes: u64, files: u64) -> JobUpdate {
    JobUpdate::Progress { job_id: id, processed_bytes: bytes, current_file: Some("f".to_string()), files_processed: files }
}

fn status_of(m: &JobManager, id: JobId) -> JobStatus {
    m.get_job(id).expect("job").status.clone()
}

#[test]
fn all_jobs_newest_first_after_starts_and_dismissals() {
    let mut m = JobManager::new();
    let a = m.start_job(JobType::Copy, "/a/x".to_string(), "/b".to_string(), 0);
    let b = m.start_job(JobType::Move, "/a/y".to_string(), "/b".to_string(), 0);
    let c = m.start_delete_job(&vec!["/a/z".to_string()], "/a".to_string(), 0);
    let d = m.start_rename_job(&"/a/p".to_string(), "/a/q".to_string(), "/a".to_string(), 0);
    assert_eq!((a, b, c, d), (JobId(0), JobId(1), JobId(2), JobId(3)));
    let ids: Vec<JobId> = m.all_jobs().iter().map(|j| j.id).collect();
    assert_eq!(ids, vec![d, c, b, a]);
    m.process_updates(vec![JobUpdate::Completed { job_id: b }], 10);
    m.dismiss_job(b);
    m.dismiss_job(a);
    let e = m.start_job(JobType::Copy, "/a/w".to_string(), "/c".to_string(), 20);
    assert_eq!(e, JobId(4));
    let ids: Vec<JobId> = m.all_jobs().iter().map(|j| j.id).collect();
    assert_eq!(ids, vec![e, d, c, a]);
}

#[test]
fn descriptions_name_the_items() {
    let mut m = JobManager::new();
    let a = m.start_job(JobType::Copy, "/src/report.txt".to_string(), "/dst".to_string(), 0);
    let b = m.start_job(JobType::Move, "/src/dir".to_string(), "/dst".to_string(), 0);
    let c = m.start_delete_job(&vec!["/x/one".to_string()], "/x".to_string(), 0);
    let d = m.start_delete_job(&vec!["/x/1".to_string(), "/x/2".to_string(), "/x/3".to_string()], "/x".to_string(), 0);
    let e = m.start_rename_job(&"/x/old.txt".to_string(), "/x/new.txt".to_string(), "/x".to_string(), 0);
    assert_eq!(m.get_job(a).unwrap().description, "Copying 'report.txt' to /dst");
    assert_eq!(m.get_job(b).unwrap().description, "Moving 'dir' to /dst");
    assert_eq!(m.get_job(c).unwrap().description, "Deleting 'one'");
    assert_eq!(m.get_job(d).unwrap().description, "Deleting 3 items");
    assert_eq!(m.get_job(e).unwrap().description, "Renaming 'old.txt' to 'new.txt'");
    assert!(matches!(m.get_job(a).unwrap().status, JobStatus::Running { started_at: 0 }));
}

#[test]
fn dismiss_only_terminal_jobs() {
    let mut m = JobManager::new();
    let a = m.start_job(JobType::Copy, "/a".to_string(), "/b".to_string(), 0);
    m.dismiss_job(a);
    assert_eq!(m.all_jobs().len(), 1);
    m.process_updates(vec![JobUpdate::Failed { job_id: a, error: "boom".to_string() }], 5);
    assert!(matches!(status_of(&m, a), JobStatus::Failed(ref e) if e == "boom"));
    m.dismiss_job(a);
    assert_eq!(m.all_jobs().len(), 0);
    m.dismiss_job(JobId(99));
}

#[test]
fn cancel_then_updates_stays_cancelled() {
    let mut m = JobManager::new();
    let a = m.start_job(JobType::Copy, "/a".to_string(), "/b".to_string(), 0);
    assert!(m.has_worker(a));
    assert!(m.cancel_job(a));
    assert!(matches!(status_of(&m, a), JobStatus::Cancelled));
    assert!(!m.has_worker(a));
    let (d, s) = m.process_updates(vec![progress(a, 10, 0), JobUpdate::Completed { job_id: a }, JobUpdate::Cancelled { job_id: a }], 100);
    assert!(d.is_empty() && s.is_empty());
    assert!(matches!(status_of(&m, a), JobStatus::Cancelled));
    assert!(!m.has_worker(a));
    assert_eq!(m.get_job(a).unwrap().progress.processed_bytes, 0);
    assert!(!m.cancel_job(a));
    assert!(!m.cancel_job(JobId(42)));
    assert_eq!(m.send_conflict_resolution(a, ConflictResolution::Skip), None);
}

#[test]
fn cancel_on_completed_job_is_a_no_op() {
    let mut m = JobManager::new();
    let a = m.start_job(JobType::Copy, "/a".to_string(), "/b".to_string(), 0);
    m.process_updates(vec![JobUpdate::Completed { job_id: a }], 1);
    assert!(!m.cancel_job(a));
    assert!(matches!(status_of(&m, a), JobStatus::Completed));
}

#[test]
fn pause_toggle_round_trip_keeps_progress() {
    let mut m = JobManager::new();
    let a = m.start_job(JobType::Copy, "/a".to_string(), "/b".to_string(), 0);
    m.process_updates(vec![JobUpdate::ScanComplete { job_id: a, total_bytes: 100, total_files: 2 }, progress(a, 40, 1)], 300);
    assert_eq!(m.toggle_pause_job(a), Some(true));
    assert!(matches!(status_of(&m, a), JobStatus::Paused));
    assert_eq!(m.toggle_pause_job(a), Some(false));
    assert!(matches!(status_of(&m, a), JobStatus::Visible));
    let p = &m.get_job(a).unwrap().progress;
    assert_eq!((p.total_bytes, p.processed_bytes, p.files_processed, p.total_files), (100, 40, 1, 2));
    m.process_updates(vec![JobUpdate::Completed { job_id: a }], 400);
    assert_eq!(m.toggle_pause_job(a), None);
    assert_eq!(m.active_job_count(), 0);
}

#[test]
fn completions_report_panes_to_refresh() {
    let mut m = JobManager::new();
    let c = m.start_job(JobType::Copy, "/s/f".to_string(), "/d1".to_string(), 0);
    let mv = m.start_job(JobType::Move, "/s/sub/g".to_string(), "/d2".to_string(), 0);
    let del = m.start_delete_job(&vec!["/p/x".to_string()], "/p".to_string(), 0);
    let ren = m.start_rename_job(&"/r/a".to_string(), "/r/b".to_string(), "/r".to_string(), 0);
    let (d, s) = m.process_updates(vec![
        JobUpdate::Completed { job_id: c },
        JobUpdate::Completed { job_id: mv },
        JobUpdate::Completed { job_id: del },
        JobUpdate::Completed { job_id: ren },
        JobUpdate::Completed { job_id: JobId(77) },
    ], 10);
    assert_eq!(d, vec!["/d1".to_string(), "/d2".to_string()]);
    assert_eq!(s, vec!["/s/sub".to_string(), "/p".to_string(), "/r".to_string()]);
}

#[test]
fn conflicts_are_queued_in_order() {
    let mut m = JobManager::new();
    let a = m.start_job(JobType::Copy, "/a".to_string(), "/b".to_string(), 0);
    m.process_updates(vec![
        JobUpdate::ConflictDetected { job_id: a, file_path: "/b/a/1".to_string() },
        JobUpdate::ConflictDetected { job_id: JobId(9), file_path: "/nope".to_string() },
        JobUpdate::ConflictDetected { job_id: a, file_path: "/b/a/2".to_string() },
    ], 0);
    assert_eq!(m.take_conflict(), Some((a, "/b/a/1".to_string())));
    assert_eq!(m.send_conflict_resolution(a, ConflictResolution::Overwrite), Some(ConflictResolution::Overwrite));
    assert_eq!(m.take_conflict(), Some((a, "/b/a/2".to_string())));
    assert_eq!(m.take_conflict(), None);
}

#[test]
fn visibility_promotion_after_threshold() {
    let mut m = JobManager::new();
    let a = m.start_job(JobType::Copy, "/a".to_string(), "/b".to_string(), 1000);
    let b = m.start_job(JobType::Copy, "/c".to_string(), "/d".to_string(), 1200);
    m.update_visibility(1499);
    assert!(matches!(status_of(&m, a), JobStatus::Running { .. }));
    m.update_visibility(1500);
    assert!(matches!(status_of(&m, a), JobStatus::Visible));
    assert!(matches!(status_of(&m, b), JobStatus::Running { started_at: 1200 }));
    assert_eq!(m.active_job_count(), 2);
}

#[test]
fn delete_paths_conflict_with_active_transfers() {
    let mut m = JobManager::new();
    let a = m.start_job(JobType::Copy, "/data/src".to_string(), "/data/dst".to_string(), 0);
    assert!(m.paths_conflict_with_active_jobs(&vec!["/data/src/file".to_string()], &vec![]));
    assert!(m.paths_conflict_with_active_jobs(&vec!["/data".to_string()], &vec![]));
    assert!(!m.paths_conflict_with_active_jobs(&vec!["/data/srcx".to_string()], &vec![]));
    assert!(!m.paths_conflict_with_active_jobs(&vec!["/other".to_string()], &vec![]));
    let table = vec![("/link".to_string(), "/data/dst".to_string())];
    assert!(m.paths_conflict_with_active_jobs(&vec!["/link".to_string()], &table));
    m.cancel_job(a);
    assert!(!m.paths_conflict_with_active_jobs(&vec!["/data/src/file".to_string()], &vec![]));
    let _d = m.start_delete_job(&vec!["/data/src".to_string()], "/data".to_string(), 0);
    assert!(!m.paths_conflict_with_active_jobs(&vec!["/data/src".to_string()], &vec![]));
}

#[test]
fn throughput_samples_spaced_updates() {
    let mut t = ThroughputTracker::new(0);
    assert_eq!(t.current_throughput(), 0);
    t.update(1000, 100);
    assert_eq!(t.current_throughput(), 0);
    assert!(t.history.is_empty());
    t.update(1000, 250);
    assert_eq!(t.current_throughput(), 4000);
    t.update(3000, 750);
    assert_eq!(t.current_throughput(), 4000);
    t.update(500, 1000);
    assert_eq!(t.current_throughput(), 0);
    assert_eq!(t.history, vec![4000, 4000, 0]);
}

#[test]
fn throughput_history_keeps_sixty_newest() {
    let mut t = ThroughputTracker::new(0);
    for k in 1..=70u64 {
        t.update(k * 1000, k * 1000);
    }
    assert_eq!(t.history.len(), 60);
    t.update(71_000 + 500, 71_000);
    assert_eq!(t.current_throughput(), 1500);
    assert_eq!(t.history.len(), 60);
    assert_eq!(t.history[58], 1000);
}

#[test]
fn progress_updates_feed_the_tracker() {
    let mut m = JobManager::new();
    let a = m.start_job(JobType::Copy, "/a".to_string(), "/b".to_string(), 0);
    m.process_updates(vec![progress(a, 500, 0)], 250);
    assert_eq!(m.get_job(a).unwrap().throughput.current_throughput(), 2000);
    assert_eq!(m.get_job(a).unwrap().progress.current_file, Some("f".to_string()));
}

fn facts(exists: bool, is_dir: bool, src: &str, dst: &str, readable: bool, writable: bool) -> TransferFacts {
    TransferFacts {
        source_exists: exists,
        source_is_dir: is_dir,
        source_canonical: src.to_string(),
        dest_canonical: dst.to_string(),
        source_readable: readable,
        dest_writable: writable,
    }
}

#[test]
fn transfer_validation_messages() {
    let s = "/a/dir".to_string();
    let ok = facts(true, true, "/a/dir", "/b", true, true);
    assert_eq!(validate_transfer(JobType::Copy, &s, &"/b".to_string(), &ok), Ok(()));
    let missing = facts(false, true, "/a/dir", "/b", true, true);
    assert_eq!(validate_transfer(JobType::Copy, &s, &"/b".to_string(), &missing), Err("Source file not found".to_string()));
    assert_eq!(validate_transfer(JobType::Move, &s, &"/a/".to_string(), &ok), Err("Cannot move to same directory".to_string()));
    let inside = facts(true, true, "/a/dir", "/a/dir/sub", true, true);
    assert_eq!(
        validate_transfer(JobType::Copy, &s, &"/a/dir/sub".to_string(), &inside),
        Err("Cannot copy directory into itself".to_string())
    );
    let unreadable = facts(true, false, "/a/dir", "/b", false, true);
    assert_eq!(
        validate_transfer(JobType::Copy, &s, &"/b".to_string(), &unreadable),
        Err("Permission denied: cannot read source".to_string())
    );
    let readonly = facts(true, false, "/a/dir", "/b", true, false);
    assert_eq!(
        validate_transfer(JobType::Copy, &s, &"/b".to_string(), &readonly),
        Err("Permission denied: cannot write to destination".to_string())
    );
}
