//! The job registry: records of background copy, move, delete and rename
//! jobs, the status state machine, and the application of the updates that
//! workers send. Workers run elsewhere; each command here returns the signal
//! that must reach the job's worker (its cancel flag, pause flag or conflict
//! channel).

use vstd::prelude::*;
use vstd::string::StringExecFns;
use crate::paths::{file_name_of, parent_of, path_file_name, path_has_prefix, path_parent, path_starts_with};
use crate::throughput::{ThroughputTracker, TrackerView, tracker_after};
use crate::util::{decimal, push_decimal, JOB_VISIBILITY_THRESHOLD_MS};

verus! {

/// Opaque handle of a job; ids are handed out in increasing order and never
/// reused, so a larger id is a newer job.
#[derive(Clone, Copy, PartialEq, Eq, Hash, Debug, Structural)]
pub struct JobId(pub u64);

#[derive(Clone, Copy, PartialEq, Eq, Debug, Structural)]
pub enum JobType {
    Copy,
    Move,
    Delete,
    Rename,
}

/// `Running` → `Visible` (after the visibility threshold) ⇄ `Paused`; any of
/// these → `Completed` | `Failed` | `Cancelled`, which are terminal.
/// Times are milliseconds on a monotonic clock.
#[derive(Clone, Debug)]
pub enum JobStatus {
    Running { started_at: u64 },
    Visible,
    Paused,
    Completed,
    Failed(String),
    Cancelled,
}

#[derive(Clone, Debug, Default)]
pub struct JobProgress {
    pub total_bytes: u64,
    pub processed_bytes: u64,
    pub current_file: Option<String>,
    pub files_processed: u64,
    pub total_files: u64,
}

pub struct Job {
    pub id: JobId,
    pub job_type: JobType,
    pub description: String,
    pub source: String,
    pub destination: String,
    pub status: JobStatus,
    pub progress: JobProgress,
    pub throughput: ThroughputTracker,
}

/// A message from a worker, tagged with its job.
#[derive(Debug)]
pub enum JobUpdate {
    ScanComplete { job_id: JobId, total_bytes: u64, total_files: u64 },
    Progress { job_id: JobId, processed_bytes: u64, current_file: Option<String>, files_processed: u64 },
    Completed { job_id: JobId },
    Failed { job_id: JobId, error: String },
    /// The worker stopped on a cancellation (the cancel flag, or `Cancel`
    /// at a conflict prompt).
    Cancelled { job_id: JobId },
    ConflictDetected { job_id: JobId, file_path: String },
}

/// The user's answer to a destination conflict.
#[derive(Clone, Copy, Debug, PartialEq, Eq, Structural)]
pub enum ConflictResolution {
    Overwrite,
    Skip,
    OverwriteAll,
    SkipAll,
    Cancel,
}

/// A job as plain values.
pub struct JobView {
    pub id: JobId,
    pub job_type: JobType,
    pub description: Seq<char>,
    pub source: Seq<char>,
    pub destination: Seq<char>,
    pub status: JobStatus,
    pub progress: JobProgress,
    pub throughput: TrackerView,
}

impl View for Job {
    type V = JobView;

    open spec fn view(&self) -> JobView {
        JobView {
            id: self.id,
            job_type: self.job_type,
            description: self.description@,
            source: self.source@,
            destination: self.destination@,
            status: self.status,
            progress: self.progress,
            throughput: self.throughput@,
        }
    }
}

pub open spec fn is_terminal(s: JobStatus) -> bool {
    s is Completed || s is Failed || s is Cancelled
}

impl JobStatus {
    /// Whether no transition leaves this status.
    pub fn is_terminal(&self) -> (r: bool)
        ensures
            r == is_terminal(*self),
    {
        match self {
            JobStatus::Completed | JobStatus::Failed(_) | JobStatus::Cancelled => true,
            _ => false,
        }
    }
}

impl JobUpdate {
    pub open spec fn spec_job_id(&self) -> JobId {
        match self {
            JobUpdate::ScanComplete { job_id, .. } => *job_id,
            JobUpdate::Progress { job_id, .. } => *job_id,
            JobUpdate::Completed { job_id } => *job_id,
            JobUpdate::Failed { job_id, .. } => *job_id,
            JobUpdate::Cancelled { job_id } => *job_id,
            JobUpdate::ConflictDetected { job_id, .. } => *job_id,
        }
    }

    /// The job this update is about.
    #[verifier::when_used_as_spec(spec_job_id)]
    pub fn job_id(&self) -> (r: JobId)
        ensures
            r == self.spec_job_id(),
    {
        match self {
            JobUpdate::ScanComplete { job_id, .. } => *job_id,
            JobUpdate::Progress { job_id, .. } => *job_id,
            JobUpdate::Completed { job_id } => *job_id,
            JobUpdate::Failed { job_id, .. } => *job_id,
            JobUpdate::Cancelled { job_id } => *job_id,
            JobUpdate::ConflictDetected { job_id, .. } => *job_id,
        }
    }
}

/// Progress of a job that has not reported yet.
pub open spec fn fresh_progress() -> JobProgress {
    JobProgress { total_bytes: 0, processed_bytes: 0, current_file: None, files_processed: 0, total_files: 0 }
}

/// The registry as plain values: jobs by increasing id, conflicts awaiting
/// an answer (oldest first), and the next id to hand out.
pub struct ManagerView {
    pub jobs: Seq<JobView>,
    pub conflicts: Seq<(JobId, Seq<char>)>,
    pub next_id: u64,
}

/// Ids increase along the registry and stay below the next id.
pub open spec fn registry_wf(v: ManagerView) -> bool {
    &&& forall|i: int, j: int| 0 <= i < j < v.jobs.len() ==> v.jobs[i].id.0 < v.jobs[j].id.0
    &&& forall|i: int| 0 <= i < v.jobs.len() ==> v.jobs[i].id.0 < v.next_id
}

/// The first position at or after `start` holding job `id`.
pub open spec fn find_from(jobs: Seq<JobView>, id: JobId, start: int) -> Option<int>
    decreases jobs.len() - start,
{
    if start < 0 || start >= jobs.len() {
        None
    } else if jobs[start].id == id {
        Some(start)
    } else {
        find_from(jobs, id, start + 1)
    }
}

/// The position of job `id` in the registry, if it is there.
pub open spec fn job_index(jobs: Seq<JobView>, id: JobId) -> Option<int> {
    find_from(jobs, id, 0)
}

/// What `find_from` finds: the first position holding the id, or none.
proof fn lemma_find_from(jobs: Seq<JobView>, id: JobId, start: int)
    requires
        0 <= start,
    ensures
        match find_from(jobs, id, start) {
            Some(i) => start <= i < jobs.len() && jobs[i].id == id
                && forall|k: int| start <= k < i ==> jobs[k].id != id,
            None => forall|k: int| start <= k < jobs.len() ==> jobs[k].id != id,
        },
    decreases jobs.len() - start,
{
    if start < jobs.len() && jobs[start].id != id {
        lemma_find_from(jobs, id, start + 1);
    }
}

/// Whether job `id` has a live worker: it is registered and not terminal.
pub open spec fn has_worker(v: ManagerView, id: JobId) -> bool {
    match job_index(v.jobs, id) {
        Some(i) => !is_terminal(v.jobs[i].status),
        None => false,
    }
}

/// Replaces the job at `i`.
pub open spec fn with_job(v: ManagerView, i: int, j: JobView) -> ManagerView {
    ManagerView { jobs: v.jobs.update(i, j), ..v }
}

pub open spec fn with_status(j: JobView, s: JobStatus) -> JobView {
    JobView { status: s, ..j }
}

/// The registry after `cancel_job(id)`.
pub open spec fn cancelled(v: ManagerView, id: JobId) -> ManagerView {
    match job_index(v.jobs, id) {
        Some(i) => if is_terminal(v.jobs[i].status) { v } else { with_job(v, i, with_status(v.jobs[i], JobStatus::Cancelled)) },
        None => v,
    }
}

/// The pause flag value that `toggle_pause_job(id)` sets, if any.
pub open spec fn pause_signal(v: ManagerView, id: JobId) -> Option<bool> {
    match job_index(v.jobs, id) {
        Some(i) => match v.jobs[i].status {
            JobStatus::Running { .. } | JobStatus::Visible => Some(true),
            JobStatus::Paused => Some(false),
            _ => None,
        },
        None => None,
    }
}

/// The registry after `toggle_pause_job(id)`.
pub open spec fn toggled(v: ManagerView, id: JobId) -> ManagerView {
    match job_index(v.jobs, id) {
        Some(i) => match v.jobs[i].status {
            JobStatus::Running { .. } | JobStatus::Visible => with_job(v, i, with_status(v.jobs[i], JobStatus::Paused)),
            JobStatus::Paused => with_job(v, i, with_status(v.jobs[i], JobStatus::Visible)),
            _ => v,
        },
        None => v,
    }
}

/// The registry after `dismiss_job(id)`: a terminal job's record goes.
pub open spec fn dismissed(v: ManagerView, id: JobId) -> ManagerView {
    match job_index(v.jobs, id) {
        Some(i) => if is_terminal(v.jobs[i].status) { ManagerView { jobs: v.jobs.remove(i), ..v } } else { v },
        None => v,
    }
}

/// A job record after update `u` arrives for it at `now`.
pub open spec fn job_after(j: JobView, u: JobUpdate, now: u64) -> JobView {
    match u {
        JobUpdate::ScanComplete { total_bytes, total_files, .. } =>
            JobView { progress: JobProgress { total_bytes, total_files, ..j.progress }, ..j },
        JobUpdate::Progress { processed_bytes, current_file, files_processed, .. } =>
            JobView {
                progress: JobProgress { processed_bytes, current_file, files_processed, ..j.progress },
                throughput: tracker_after(j.throughput, processed_bytes, now),
                ..j
            },
        JobUpdate::Completed { .. } => with_status(j, JobStatus::Completed),
        JobUpdate::Failed { error, .. } => with_status(j, JobStatus::Failed(error)),
        JobUpdate::Cancelled { .. } => with_status(j, JobStatus::Cancelled),
        JobUpdate::ConflictDetected { .. } => j,
    }
}

/// The registry after update `u` at `now`. Updates for unknown or terminal
/// jobs change nothing; a conflict is queued for the user.
pub open spec fn apply_update(v: ManagerView, u: JobUpdate, now: u64) -> ManagerView {
    match job_index(v.jobs, u.job_id()) {
        Some(i) => if is_terminal(v.jobs[i].status) {
            v
        } else {
            match u {
                JobUpdate::ConflictDetected { job_id, file_path } =>
                    ManagerView { conflicts: v.conflicts.push((job_id, file_path@)), ..v },
                _ => with_job(v, i, job_after(v.jobs[i], u, now)),
            }
        },
        None => v,
    }
}

/// Directories to refresh as destinations when `u` completes a job.
pub open spec fn dests_of(v: ManagerView, u: JobUpdate) -> Seq<Seq<char>> {
    match job_index(v.jobs, u.job_id()) {
        Some(i) => if u is Completed && !is_terminal(v.jobs[i].status) {
            match v.jobs[i].job_type {
                JobType::Copy | JobType::Move => seq![v.jobs[i].destination],
                _ => seq![],
            }
        } else {
            seq![]
        },
        None => seq![],
    }
}

/// Directories to refresh on the source side when `u` completes a job: a
/// move's source parent; the parent directory held by a delete or rename.
pub open spec fn sources_of(v: ManagerView, u: JobUpdate) -> Seq<Seq<char>> {
    match job_index(v.jobs, u.job_id()) {
        Some(i) => if u is Completed && !is_terminal(v.jobs[i].status) {
            match v.jobs[i].job_type {
                JobType::Move => match parent_of(v.jobs[i].source) {
                    Some(p) => seq![p],
                    None => seq![],
                },
                JobType::Delete | JobType::Rename => seq![v.jobs[i].source],
                JobType::Copy => seq![],
            }
        } else {
            seq![]
        },
        None => seq![],
    }
}

/// The registry after the updates `ups`, in order, at `now`.
pub open spec fn applied(v: ManagerView, ups: Seq<JobUpdate>, now: u64) -> ManagerView
    decreases ups.len(),
{
    if ups.len() == 0 {
        v
    } else {
        apply_update(applied(v, ups.drop_last(), now), ups.last(), now)
    }
}

pub open spec fn applied_dests(v: ManagerView, ups: Seq<JobUpdate>, now: u64) -> Seq<Seq<char>>
    decreases ups.len(),
{
    if ups.len() == 0 {
        seq![]
    } else {
        applied_dests(v, ups.drop_last(), now) + dests_of(applied(v, ups.drop_last(), now), ups.last())
    }
}

pub open spec fn applied_sources(v: ManagerView, ups: Seq<JobUpdate>, now: u64) -> Seq<Seq<char>>
    decreases ups.len(),
{
    if ups.len() == 0 {
        seq![]
    } else {
        applied_sources(v, ups.drop_last(), now) + sources_of(applied(v, ups.drop_last(), now), ups.last())
    }
}

/// Owns the job records. Mutated only from the interface thread; workers
/// report through `JobUpdate`s that the caller drains and hands to
/// `process_updates`.
pub struct JobManager {
    jobs: Vec<Job>,
    conflicts: Vec<(JobId, String)>,
    next_id: u64,
}

impl View for JobManager {
    type V = ManagerView;

    closed spec fn view(&self) -> ManagerView {
        ManagerView {
            jobs: self.jobs@.map_values(|j: Job| j@),
            conflicts: self.conflicts@.map_values(|c: (JobId, String)| (c.0, c.1@)),
            next_id: self.next_id,
        }
    }
}

/// The last component of `p` ("" when it has none).
pub open spec fn name_part(p: Seq<char>) -> Seq<char> {
    match file_name_of(p) {
        Some(n) => n,
        None => seq![],
    }
}

pub open spec fn action_word(t: JobType) -> Seq<char> {
    match t {
        JobType::Copy => "Copying"@,
        JobType::Move => "Moving"@,
        JobType::Delete => "Deleting"@,
        JobType::Rename => "Renaming"@,
    }
}

/// "Copying 'name' to dest".
pub open spec fn transfer_description(t: JobType, source: Seq<char>, dest_dir: Seq<char>) -> Seq<char> {
    action_word(t) + " '"@ + name_part(source) + "' to "@ + dest_dir
}

/// "Deleting 'name'" for one path, "Deleting n items" otherwise.
pub open spec fn delete_description(paths: Seq<Seq<char>>) -> Seq<char> {
    if paths.len() == 1 {
        "Deleting '"@ + name_part(paths[0]) + "'"@
    } else {
        "Deleting "@ + decimal(paths.len()) + " items"@
    }
}

/// "Renaming 'old' to 'new'".
pub open spec fn rename_description(original: Seq<char>, new_path: Seq<char>) -> Seq<char> {
    "Renaming '"@ + name_part(original) + "' to '"@ + name_part(new_path) + "'"@
}

/// The record of a job just started.
pub open spec fn new_job(id: JobId, t: JobType, description: Seq<char>, source: Seq<char>, destination: Seq<char>, now: u64) -> JobView {
    JobView {
        id,
        job_type: t,
        description,
        source,
        destination,
        status: JobStatus::Running { started_at: now },
        progress: fresh_progress(),
        throughput: TrackerView { history: seq![], last_time: now, last_bytes: 0 },
    }
}

/// The registry after a job is started.
pub open spec fn started(v: ManagerView, j: JobView) -> ManagerView {
    ManagerView { jobs: v.jobs.push(j), next_id: (v.next_id + 1) as u64, ..v }
}

/// A running job old enough to be shown becomes `Visible`.
pub open spec fn promoted(j: JobView, now: u64) -> JobView {
    match j.status {
        JobStatus::Running { started_at } =>
            if now >= started_at + JOB_VISIBILITY_THRESHOLD_MS { with_status(j, JobStatus::Visible) } else { j },
        _ => j,
    }
}

pub open spec fn count_active(jobs: Seq<JobView>) -> nat
    decreases jobs.len(),
{
    if jobs.len() == 0 {
        0
    } else {
        count_active(jobs.drop_last()) + if is_terminal(jobs.last().status) { 0nat } else { 1nat }
    }
}

fn name_of(p: &String) -> (r: String)
    ensures
        r@ == name_part(p@),
{
    match path_file_name(p) {
        Some(n) => n,
        None => String::new(),
    }
}

impl JobManager {
    pub closed spec fn wf(&self) -> bool {
        registry_wf(self@)
    }

    pub fn new() -> (r: Self)
        ensures
            r.wf(),
            r@ == (ManagerView { jobs: seq![], conflicts: seq![], next_id: 0 }),
    {
        let r = JobManager { jobs: Vec::new(), conflicts: Vec::new(), next_id: 0 };
        assert(r@.jobs =~= seq![]);
        assert(r@.conflicts =~= seq![]);
        r
    }

    /// Whether every job id has been handed out.
    pub fn ids_exhausted(&self) -> (r: bool)
        ensures
            r == (self@.next_id == u64::MAX),
    {
        self.next_id == u64::MAX
    }

    fn register(&mut self, job_type: JobType, description: String, source: String, destination: String, now_ms: u64) -> (r: JobId)
        requires
            old(self).wf(),
            old(self)@.next_id < u64::MAX,
        ensures
            final(self).wf(),
            r == JobId(old(self)@.next_id),
            final(self)@ == started(old(self)@, new_job(r, job_type, description@, source@, destination@, now_ms)),
    {
        let id = JobId(self.next_id);
        let job = Job {
            id,
            job_type,
            description,
            source,
            destination,
            status: JobStatus::Running { started_at: now_ms },
            progress: JobProgress { total_bytes: 0, processed_bytes: 0, current_file: None, files_processed: 0, total_files: 0 },
            throughput: ThroughputTracker::new(now_ms),
        };
        let ghost jv = job@;
        self.jobs.push(job);
        self.next_id = self.next_id + 1;
        assert(self@.jobs =~= old(self)@.jobs.push(jv));
        assert(self@.conflicts =~= old(self)@.conflicts);
        id
    }

    /// Registers a copy or move of `source` into `dest_dir` (status
    /// `Running` since `now_ms`); the caller starts its transfer worker.
    pub fn start_job(&mut self, job_type: JobType, source: String, dest_dir: String, now_ms: u64) -> (r: JobId)
        requires
            old(self).wf(),
            old(self)@.next_id < u64::MAX,
        ensures
            final(self).wf(),
            r == JobId(old(self)@.next_id),
            final(self)@ == started(old(self)@, new_job(r, job_type, transfer_description(job_type, source@, dest_dir@), source@, dest_dir@, now_ms)),
    {
        let mut d = String::new();
        match job_type {
            JobType::Copy => d.append("Copying"),
            JobType::Move => d.append("Moving"),
            JobType::Delete => d.append("Deleting"),
            JobType::Rename => d.append("Renaming"),
        }
        d.append(" '");
        let name = name_of(&source);
        d.append(name.as_str());
        d.append("' to ");
        d.append(dest_dir.as_str());
        assert(d@ =~= transfer_description(job_type, source@, dest_dir@));
        self.register(job_type, d, source, dest_dir, now_ms)
    }

    /// Registers the deletion of `paths` (entries of `parent_dir`); the
    /// caller starts its delete worker. The record's source is `parent_dir`
    /// and its destination is empty.
    pub fn start_delete_job(&mut self, paths: &Vec<String>, parent_dir: String, now_ms: u64) -> (r: JobId)
        requires
            old(self).wf(),
            old(self)@.next_id < u64::MAX,
        ensures
            final(self).wf(),
            r == JobId(old(self)@.next_id),
            final(self)@ == started(old(self)@, new_job(r, JobType::Delete,
                delete_description(paths@.map_values(|p: String| p@)), parent_dir@, seq![], now_ms)),
    {
        let mut d = String::new();
        if paths.len() == 1 {
            d.append("Deleting '");
            let name = name_of(&paths[0]);
            d.append(name.as_str());
            d.append("'");
        } else {
            d.append("Deleting ");
            push_decimal(&mut d, paths.len() as u128);
            d.append(" items");
        }
        assert(d@ =~= delete_description(paths@.map_values(|p: String| p@)));
        let empty = String::new();
        assert(empty@ =~= seq![]);
        self.register(JobType::Delete, d, parent_dir, empty, now_ms)
    }

    /// Registers the rename of `original` to `new_path` inside `parent_dir`;
    /// the caller starts its rename worker. The record's source is
    /// `parent_dir`, its destination `new_path`.
    pub fn start_rename_job(&mut self, original: &String, new_path: String, parent_dir: String, now_ms: u64) -> (r: JobId)
        requires
            old(self).wf(),
            old(self)@.next_id < u64::MAX,
        ensures
            final(self).wf(),
            r == JobId(old(self)@.next_id),
            final(self)@ == started(old(self)@, new_job(r, JobType::Rename,
                rename_description(original@, new_path@), parent_dir@, new_path@, now_ms)),
    {
        let mut d = String::new();
        d.append("Renaming '");
        let a = name_of(original);
        d.append(a.as_str());
        d.append("' to '");
        let b = name_of(&new_path);
        d.append(b.as_str());
        d.append("'");
        assert(d@ =~= rename_description(original@, new_path@));
        self.register(JobType::Rename, d, parent_dir, new_path, now_ms)
    }

    fn find(&self, id: JobId) -> (r: Option<usize>)
        ensures
            match r {
                Some(i) => job_index(self@.jobs, id) == Some(i as int) && i < self.jobs@.len()
                    && self.jobs@[i as int].id == id,
                None => job_index(self@.jobs, id) is None,
            },
    {
        let mut i: usize = 0;
        while i < self.jobs.len()
            invariant
                i <= self.jobs@.len(),
                find_from(self@.jobs, id, 0) == find_from(self@.jobs, id, i as int),
            decreases self.jobs@.len() - i,
        {
            if self.jobs[i].id == id {
                return Some(i);
            }
            i = i + 1;
        }
        None
    }

    /// Whether job `id` has a live worker.
    pub fn has_worker(&self, id: JobId) -> (r: bool)
        ensures
            r == has_worker(self@, id),
    {
        match self.find(id) {
            Some(i) => !self.jobs[i].status.is_terminal(),
            None => false,
        }
    }

    /// The record of job `id`.
    pub fn get_job(&self, id: JobId) -> (r: Option<&Job>)
        ensures
            match job_index(self@.jobs, id) {
                Some(i) => r is Some && r.unwrap()@ == self@.jobs[i],
                None => r is None,
            },
    {
        match self.find(id) {
            Some(i) => Some(&self.jobs[i]),
            None => None,
        }
    }

    /// Marks a live job `Cancelled` at once and drops its worker handle.
    /// Returns whether the job's cancel flag must be raised; unknown and
    /// terminal ids change nothing.
    pub fn cancel_job(&mut self, job_id: JobId) -> (r: bool)
        requires
            old(self).wf(),
        ensures
            final(self).wf(),
            r == has_worker(old(self)@, job_id),
            final(self)@ == cancelled(old(self)@, job_id),
    {
        match self.find(job_id) {
            Some(i) => {
                if self.jobs[i].status.is_terminal() {
                    false
                } else {
                    self.jobs[i].status = JobStatus::Cancelled;
                    assert(self@.jobs =~= cancelled(old(self)@, job_id).jobs);
                    true
                }
            }
            None => false,
        }
    }

    /// `Running`/`Visible` → `Paused` (returns `Some(true)`: raise the pause
    /// flag); `Paused` → `Visible` (returns `Some(false)`: clear it);
    /// otherwise nothing changes and `None` is returned.
    pub fn toggle_pause_job(&mut self, job_id: JobId) -> (r: Option<bool>)
        requires
            old(self).wf(),
        ensures
            final(self).wf(),
            r == pause_signal(old(self)@, job_id),
            final(self)@ == toggled(old(self)@, job_id),
    {
        match self.find(job_id) {
            Some(i) => {
                match self.jobs[i].status {
                    JobStatus::Running { .. } | JobStatus::Visible => {
                        self.jobs[i].status = JobStatus::Paused;
                        assert(self@.jobs =~= toggled(old(self)@, job_id).jobs);
                        Some(true)
                    }
                    JobStatus::Paused => {
                        self.jobs[i].status = JobStatus::Visible;
                        assert(self@.jobs =~= toggled(old(self)@, job_id).jobs);
                        Some(false)
                    }
                    _ => None,
                }
            }
            None => None,
        }
    }

    /// The decision to forward on job `job_id`'s conflict channel: `Some`
    /// while its worker lives, `None` once it has exited.
    pub fn send_conflict_resolution(&self, job_id: JobId, resolution: ConflictResolution) -> (r: Option<ConflictResolution>)
        ensures
            r == (if has_worker(self@, job_id) { Some(resolution) } else { None }),
    {
        if self.has_worker(job_id) {
            Some(resolution)
        } else {
            None
        }
    }

    /// The oldest conflict awaiting the user's answer, taken off the queue.
    pub fn take_conflict(&mut self) -> (r: Option<(JobId, String)>)
        requires
            old(self).wf(),
        ensures
            final(self).wf(),
            old(self)@.conflicts.len() == 0 ==> r is None && final(self)@ == old(self)@,
            old(self)@.conflicts.len() > 0 ==> r is Some
                && (r.unwrap().0, r.unwrap().1@) == old(self)@.conflicts[0]
                && final(self)@ == (ManagerView { conflicts: old(self)@.conflicts.subrange(1, old(self)@.conflicts.len() as int), ..old(self)@ }),
    {
        if self.conflicts.len() == 0 {
            None
        } else {
            let c = self.conflicts.remove(0);
            assert(self@.conflicts =~= old(self)@.conflicts.subrange(1, old(self)@.conflicts.len() as int));
            assert(self@.jobs =~= old(self)@.jobs);
            Some(c)
        }
    }
}


/// The canonical form that `table` records for path `p` (its first entry for
/// `p` at or after `start`), or `p` itself when none does.
pub open spec fn canon_from(table: Seq<(Seq<char>, Seq<char>)>, p: Seq<char>, start: int) -> Seq<char>
    decreases table.len() - start,
{
    if start < 0 || start >= table.len() {
        p
    } else if table[start].0 == p {
        table[start].1
    } else {
        canon_from(table, p, start + 1)
    }
}

pub open spec fn canon(table: Seq<(Seq<char>, Seq<char>)>, p: Seq<char>) -> Seq<char> {
    canon_from(table, p, 0)
}

/// One path lies inside the other (or they are the same).
pub open spec fn overlap(a: Seq<char>, b: Seq<char>) -> bool {
    crate::paths::path_starts_with(a, b) || crate::paths::path_starts_with(b, a)
}

/// A copy or move that has not reached a terminal state.
pub open spec fn is_active_transfer(j: JobView) -> bool {
    !is_terminal(j.status) && (j.job_type is Copy || j.job_type is Move)
}

/// Candidate path `p` overlaps the source or destination of job `j`, both
/// taken in canonical form.
pub open spec fn path_conflicts(table: Seq<(Seq<char>, Seq<char>)>, p: Seq<char>, j: JobView) -> bool {
    is_active_transfer(j) && (overlap(canon(table, p), canon(table, j.source))
        || overlap(canon(table, p), canon(table, j.destination)))
}

pub open spec fn table_view(t: Seq<(String, String)>) -> Seq<(Seq<char>, Seq<char>)> {
    t.map_values(|e: (String, String)| (e.0@, e.1@))
}

pub open spec fn strings_view(t: Seq<String>) -> Seq<Seq<char>> {
    t.map_values(|e: String| e@)
}

/// The canonical form of `p` that `table` records, or `p` itself.
fn canonical_of(table: &Vec<(String, String)>, p: &String) -> (r: String)
    ensures
        r@ == canon(table_view(table@), p@),
{
    let mut i: usize = 0;
    while i < table.len()
        invariant
            i <= table@.len(),
            canon(table_view(table@), p@) == canon_from(table_view(table@), p@, i as int),
        decreases table@.len() - i,
    {
        if table[i].0 == *p {
            return table[i].1.clone();
        }
        i = i + 1;
    }
    p.clone()
}

impl JobManager {
    fn apply_one(&mut self, u: JobUpdate, now_ms: u64, dests: &mut Vec<String>, sources: &mut Vec<String>)
        requires
            old(self).wf(),
        ensures
            final(self).wf(),
            final(self)@ == apply_update(old(self)@, u, now_ms),
            strings_view(final(dests)@) == strings_view(old(dests)@) + dests_of(old(self)@, u),
            strings_view(final(sources)@) == strings_view(old(sources)@) + sources_of(old(self)@, u),
    {
        let ghost v0 = self@;
        let id = u.job_id();
        let i = match self.find(id) {
            Some(i) => i,
            None => {
                assert(strings_view(dests@) =~= strings_view(old(dests)@) + dests_of(v0, u));
                assert(strings_view(sources@) =~= strings_view(old(sources)@) + sources_of(v0, u));
                return;
            }
        };
        if self.jobs[i].status.is_terminal() {
            assert(strings_view(dests@) =~= strings_view(old(dests)@) + dests_of(v0, u));
            assert(strings_view(sources@) =~= strings_view(old(sources)@) + sources_of(v0, u));
            return;
        }
        let ghost ju = u;
        match u {
            JobUpdate::ScanComplete { job_id: _, total_bytes, total_files } => {
                self.jobs[i].progress.total_bytes = total_bytes;
                self.jobs[i].progress.total_files = total_files;
            }
            JobUpdate::Progress { job_id: _, processed_bytes, current_file, files_processed } => {
                self.jobs[i].progress.processed_bytes = processed_bytes;
                self.jobs[i].progress.current_file = current_file;
                self.jobs[i].progress.files_processed = files_processed;
                self.jobs[i].throughput.update(processed_bytes, now_ms);
            }
            JobUpdate::Completed { job_id: _ } => {
                match self.jobs[i].job_type {
                    JobType::Copy => {
                        dests.push(self.jobs[i].destination.clone());
                    }
                    JobType::Move => {
                        dests.push(self.jobs[i].destination.clone());
                        match path_parent(&self.jobs[i].source) {
                            Some(p) => sources.push(p),
                            None => {}
                        }
                    }
                    JobType::Delete | JobType::Rename => {
                        sources.push(self.jobs[i].source.clone());
                    }
                }
                self.jobs[i].status = JobStatus::Completed;
            }
            JobUpdate::Failed { job_id: _, error } => {
                self.jobs[i].status = JobStatus::Failed(error);
            }
            JobUpdate::Cancelled { job_id: _ } => {
                self.jobs[i].status = JobStatus::Cancelled;
            }
            JobUpdate::ConflictDetected { job_id, file_path } => {
                self.conflicts.push((job_id, file_path));
                assert(self@.conflicts =~= v0.conflicts.push((job_id, file_path@)));
            }
        }
        assert(self@.jobs =~= apply_update(v0, ju, now_ms).jobs);
        assert(strings_view(dests@) =~= strings_view(old(dests)@) + dests_of(v0, ju));
        assert(strings_view(sources@) =~= strings_view(old(sources)@) + sources_of(v0, ju));
    }

    /// Applies the drained worker updates in order at time `now_ms` and
    /// returns the directories to refresh: destinations of completed copies
    /// and moves, and the source side of completed moves, deletes and renames.
    pub fn process_updates(&mut self, updates: Vec<JobUpdate>, now_ms: u64) -> (r: (Vec<String>, Vec<String>))
        requires
            old(self).wf(),
        ensures
            final(self).wf(),
            final(self)@ == applied(old(self)@, updates@, now_ms),
            strings_view(r.0@) == applied_dests(old(self)@, updates@, now_ms),
            strings_view(r.1@) == applied_sources(old(self)@, updates@, now_ms),
    {
        let ghost ups = updates@;
        let mut rest = updates;
        let mut dests: Vec<String> = Vec::new();
        let mut sources: Vec<String> = Vec::new();
        let ghost mut k: int = 0;
        assert(ups.subrange(0, 0) =~= Seq::<JobUpdate>::empty());
        assert(strings_view(dests@) =~= seq![]);
        assert(strings_view(sources@) =~= seq![]);
        while rest.len() > 0
            invariant
                self.wf(),
                0 <= k <= ups.len(),
                rest@ == ups.subrange(k, ups.len() as int),
                self@ == applied(old(self)@, ups.subrange(0, k), now_ms),
                strings_view(dests@) == applied_dests(old(self)@, ups.subrange(0, k), now_ms),
                strings_view(sources@) == applied_sources(old(self)@, ups.subrange(0, k), now_ms),
            decreases rest@.len(),
        {
            let u = rest.remove(0);
            proof {
                assert(ups.subrange(0, k + 1).drop_last() =~= ups.subrange(0, k));
                assert(ups.subrange(0, k + 1).last() == u);
            }
            self.apply_one(u, now_ms, &mut dests, &mut sources);
            proof {
                k = k + 1;
                assert(rest@ =~= ups.subrange(k, ups.len() as int));
            }
        }
        assert(ups.subrange(0, k) =~= ups);
        (dests, sources)
    }

    /// Promotes every `Running` job started at least 500 ms before `now_ms`
    /// to `Visible`.
    pub fn update_visibility(&mut self, now_ms: u64)
        requires
            old(self).wf(),
        ensures
            final(self).wf(),
            final(self)@ == (ManagerView { jobs: old(self)@.jobs.map_values(|j: JobView| promoted(j, now_ms)), ..old(self)@ }),
    {
        let mut i: usize = 0;
        while i < self.jobs.len()
            invariant
                self.wf(),
                i <= self.jobs@.len(),
                self@.jobs.len() == old(self)@.jobs.len(),
                self@.conflicts == old(self)@.conflicts,
                self@.next_id == old(self)@.next_id,
                forall|k: int| 0 <= k < i ==> self@.jobs[k] == promoted(old(self)@.jobs[k], now_ms),
                forall|k: int| i <= k < self@.jobs.len() ==> self@.jobs[k] == old(self)@.jobs[k],
            decreases self.jobs@.len() - i,
        {
            let ghost prev = self@.jobs;
            match self.jobs[i].status {
                JobStatus::Running { started_at } => {
                    if now_ms >= started_at && now_ms - started_at >= JOB_VISIBILITY_THRESHOLD_MS {
                        self.jobs[i].status = JobStatus::Visible;
                    }
                }
                _ => {}
            }
            assert(self@.jobs =~= prev.update(i as int, promoted(prev[i as int], now_ms)));
            i = i + 1;
        }
        assert(self@.jobs =~= old(self)@.jobs.map_values(|j: JobView| promoted(j, now_ms)));
    }

    /// Number of jobs not in a terminal state.
    pub fn active_job_count(&self) -> (r: usize)
        ensures
            r == count_active(self@.jobs),
    {
        let mut n: usize = 0;
        let mut i: usize = 0;
        while i < self.jobs.len()
            invariant
                i <= self.jobs@.len(),
                n == count_active(self@.jobs.subrange(0, i as int)),
                n <= i,
            decreases self.jobs@.len() - i,
        {
            assert(self@.jobs.subrange(0, i + 1).drop_last() =~= self@.jobs.subrange(0, i as int));
            if !self.jobs[i].status.is_terminal() {
                n = n + 1;
            }
            i = i + 1;
        }
        assert(self@.jobs.subrange(0, i as int) =~= self@.jobs);
        n
    }

    /// All jobs, newest (largest id) first.
    pub fn all_jobs(&self) -> (r: Vec<&Job>)
        requires
            self.wf(),
        ensures
            r@.len() == self@.jobs.len(),
            forall|k: int| 0 <= k < r@.len() ==> r@[k]@ == self@.jobs[self@.jobs.len() - 1 - k],
            forall|a: int, b: int| 0 <= a < b < r@.len() ==> r@[a].id.0 > r@[b].id.0,
    {
        let mut r: Vec<&Job> = Vec::new();
        let mut i: usize = self.jobs.len();
        while i > 0
            invariant
                i <= self.jobs@.len(),
                r@.len() == self.jobs@.len() - i,
                forall|k: int| 0 <= k < r@.len() ==> r@[k]@ == self@.jobs[self@.jobs.len() - 1 - k],
            decreases i,
        {
            i = i - 1;
            r.push(&self.jobs[i]);
        }
        r
    }

    /// Removes the record of job `job_id` if it is terminal; otherwise
    /// nothing changes.
    pub fn dismiss_job(&mut self, job_id: JobId)
        requires
            old(self).wf(),
        ensures
            final(self).wf(),
            final(self)@ == dismissed(old(self)@, job_id),
    {
        match self.find(job_id) {
            Some(i) => {
                if self.jobs[i].status.is_terminal() {
                    let ghost before = self@.jobs;
                    self.jobs.remove(i);
                    assert(self@.jobs =~= before.remove(i as int));
                    assert forall|a: int, b: int| 0 <= a < b < self@.jobs.len() implies self@.jobs[a].id.0 < self@.jobs[b].id.0 by {
                        let a0 = if a < i { a } else { a + 1 };
                        let b0 = if b < i { b } else { b + 1 };
                        assert(self@.jobs[a] == before[a0]);
                        assert(self@.jobs[b] == before[b0]);
                    }
                    assert forall|a: int| 0 <= a < self@.jobs.len() implies self@.jobs[a].id.0 < self@.next_id by {
                        let a0 = if a < i { a } else { a + 1 };
                        assert(self@.jobs[a] == before[a0]);
                    }
                }
            }
            None => {}
        }
    }

    /// Whether deleting any of `paths` could race with a live copy or move:
    /// some path lies inside, or contains, such a job's source or
    /// destination. Paths are compared in the canonical form that
    /// `canonical` records for them (the caller resolves them on disk; a
    /// path without an entry stands for itself).
    pub fn paths_conflict_with_active_jobs(&self, paths: &Vec<String>, canonical: &Vec<(String, String)>) -> (r: bool)
        ensures
            r == exists|i: int, k: int| 0 <= i < paths@.len() && 0 <= k < self@.jobs.len()
                && #[trigger] path_conflicts(table_view(canonical@), paths@[i]@, #[trigger] self@.jobs[k]),
    {
        let ghost t = table_view(canonical@);
        let mut i: usize = 0;
        while i < paths.len()
            invariant
                t == table_view(canonical@),
                i <= paths@.len(),
                forall|a: int, k: int| 0 <= a < i && 0 <= k < self@.jobs.len()
                    ==> !#[trigger] path_conflicts(t, paths@[a]@, #[trigger] self@.jobs[k]),
            decreases paths@.len() - i,
        {
            let p = canonical_of(canonical, &paths[i]);
            let mut k: usize = 0;
            while k < self.jobs.len()
                invariant
                    t == table_view(canonical@),
                    i < paths@.len(),
                    k <= self.jobs@.len(),
                    p@ == canon(t, paths@[i as int]@),
                    forall|a: int, k2: int| 0 <= a < i && 0 <= k2 < self@.jobs.len()
                        ==> !#[trigger] path_conflicts(t, paths@[a]@, #[trigger] self@.jobs[k2]),
                    forall|k2: int| 0 <= k2 < k ==> !#[trigger] path_conflicts(t, paths@[i as int]@, self@.jobs[k2]),
                decreases self.jobs@.len() - k,
            {
                let job = &self.jobs[k];
                let transfer = match job.job_type {
                    JobType::Copy | JobType::Move => true,
                    _ => false,
                };
                if transfer && !job.status.is_terminal() {
                    let s = canonical_of(canonical, &job.source);
                    let d = canonical_of(canonical, &job.destination);
                    if crate::paths::path_has_prefix(&p, &s) || crate::paths::path_has_prefix(&s, &p)
                        || crate::paths::path_has_prefix(&p, &d) || crate::paths::path_has_prefix(&d, &p) {
                        assert(path_conflicts(t, paths@[i as int]@, self@.jobs[k as int]));
                        return true;
                    }
                }
                k = k + 1;
            }
            i = i + 1;
        }
        false
    }
}


proof fn lemma_same_ids_same_index(a: Seq<JobView>, b: Seq<JobView>, id: JobId, start: int)
    requires
        a.len() == b.len(),
        forall|k: int| 0 <= k < a.len() ==> a[k].id == b[k].id,
    ensures
        find_from(a, id, start) == find_from(b, id, start),
    decreases a.len() - start,
{
    if 0 <= start < a.len() && a[start].id != id {
        lemma_same_ids_same_index(a, b, id, start + 1);
    }
}

proof fn lemma_apply_keeps_terminal(v: ManagerView, u: JobUpdate, now: u64, id: JobId, i: int)
    requires
        job_index(v.jobs, id) == Some(i),
        is_terminal(v.jobs[i].status),
    ensures
        apply_update(v, u, now).jobs.len() == v.jobs.len(),
        forall|k: int| 0 <= k < v.jobs.len() ==> apply_update(v, u, now).jobs[k].id == v.jobs[k].id,
        apply_update(v, u, now).jobs[i] == v.jobs[i],
        job_index(apply_update(v, u, now).jobs, id) == Some(i),
{
    lemma_find_from(v.jobs, id, 0);
    lemma_find_from(v.jobs, u.job_id(), 0);
    let w = apply_update(v, u, now);
    lemma_same_ids_same_index(v.jobs, w.jobs, id, 0);
}

proof fn lemma_applied_keeps_terminal(v: ManagerView, ups: Seq<JobUpdate>, now: u64, id: JobId, i: int)
    requires
        job_index(v.jobs, id) == Some(i),
        is_terminal(v.jobs[i].status),
    ensures
        job_index(applied(v, ups, now).jobs, id) == Some(i),
        applied(v, ups, now).jobs[i] == v.jobs[i],
    decreases ups.len(),
{
    if ups.len() > 0 {
        lemma_applied_keeps_terminal(v, ups.drop_last(), now, id, i);
        lemma_apply_keeps_terminal(applied(v, ups.drop_last(), now), ups.last(), now, id, i);
    }
}

/// Cancelling a live job marks it `Cancelled` and drops its worker for good:
/// after any updates that arrive next, in any order, the job is still
/// `Cancelled` and has no worker. On an unknown or terminal id, cancelling
/// changes nothing.
pub proof fn lemma_cancel_sticks(v: ManagerView, id: JobId, ups: Seq<JobUpdate>, now: u64)
    ensures
        !has_worker(v, id) ==> cancelled(v, id) == v,
        has_worker(v, id) ==> {
            let w = applied(cancelled(v, id), ups, now);
            &&& job_index(w.jobs, id) == job_index(v.jobs, id)
            &&& w.jobs[job_index(w.jobs, id).unwrap()].status is Cancelled
            &&& !has_worker(w, id)
        },
{
    if has_worker(v, id) {
        let i = job_index(v.jobs, id).unwrap();
        lemma_find_from(v.jobs, id, 0);
        let c = cancelled(v, id);
        lemma_same_ids_same_index(v.jobs, c.jobs, id, 0);
        lemma_applied_keeps_terminal(c, ups, now, id, i);
    }
}

/// Pausing is reversible: from `Running` or `Visible` one toggle gives
/// `Paused`, a second gives `Visible`; the job's progress and every other
/// record are untouched throughout.
pub proof fn lemma_pause_round_trip(v: ManagerView, id: JobId)
    requires
        job_index(v.jobs, id) is Some,
        v.jobs[job_index(v.jobs, id).unwrap()].status is Running
            || v.jobs[job_index(v.jobs, id).unwrap()].status is Visible,
    ensures
        ({
            let i = job_index(v.jobs, id).unwrap();
            let p = toggled(v, id);
            let q = toggled(p, id);
            &&& pause_signal(v, id) == Some(true)
            &&& p == with_job(v, i, with_status(v.jobs[i], JobStatus::Paused))
            &&& pause_signal(p, id) == Some(false)
            &&& q == with_job(v, i, with_status(v.jobs[i], JobStatus::Visible))
            &&& p.jobs[i].progress == v.jobs[i].progress
            &&& q.jobs[i].progress == v.jobs[i].progress
        }),
{
    let i = job_index(v.jobs, id).unwrap();
    lemma_find_from(v.jobs, id, 0);
    let p = toggled(v, id);
    lemma_same_ids_same_index(v.jobs, p.jobs, id, 0);
    let q = toggled(p, id);
    assert(q.jobs =~= v.jobs.update(i, with_status(v.jobs[i], JobStatus::Visible)));
}


/// What the file system says about a planned copy or move; the caller
/// probes it (canonical forms fall back to the paths as given).
pub struct TransferFacts {
    pub source_exists: bool,
    pub source_is_dir: bool,
    pub source_canonical: String,
    pub dest_canonical: String,
    /// The source's metadata can be read.
    pub source_readable: bool,
    /// A file can be created in the destination directory.
    pub dest_writable: bool,
}

pub open spec fn verb(t: JobType) -> Seq<char> {
    match t {
        JobType::Copy => "copy"@,
        JobType::Move => "move"@,
        JobType::Delete => "delete"@,
        JobType::Rename => "rename"@,
    }
}

/// Two paths with the same components.
pub open spec fn same_path(a: Seq<char>, b: Seq<char>) -> bool {
    path_starts_with(a, b) && path_starts_with(b, a)
}

/// Why a copy or move of `source` into `dest_dir` may not start, checked
/// in this order: a missing source, a source already in `dest_dir`, a
/// directory to be put inside itself, an unreadable source, a destination
/// that cannot be written.
pub open spec fn transfer_refusal(t: JobType, source: Seq<char>, dest_dir: Seq<char>, f: TransferFacts) -> Option<Seq<char>> {
    if !f.source_exists {
        Some("Source file not found"@)
    } else if parent_of(source) is Some && same_path(parent_of(source)->Some_0, dest_dir) {
        Some("Cannot "@ + verb(t) + " to same directory"@)
    } else if f.source_is_dir && path_starts_with(f.dest_canonical@, f.source_canonical@) {
        Some("Cannot "@ + verb(t) + " directory into itself"@)
    } else if !f.source_readable {
        Some("Permission denied: cannot read source"@)
    } else if !f.dest_writable {
        Some("Permission denied: cannot write to destination"@)
    } else {
        None
    }
}

fn verb_str(t: JobType) -> (r: &'static str)
    ensures
        r@ == verb(t),
{
    match t {
        JobType::Copy => "copy",
        JobType::Move => "move",
        JobType::Delete => "delete",
        JobType::Rename => "rename",
    }
}

/// Checks that a copy or move of `source` into `dest_dir` may start (see
/// `transfer_refusal`); the error is the message to show.
pub fn validate_transfer(job_type: JobType, source: &String, dest_dir: &String, facts: &TransferFacts) -> (r: Result<(), String>)
    ensures
        match transfer_refusal(job_type, source@, dest_dir@, *facts) {
            Some(m) => r is Err && r->Err_0@ == m,
            None => r is Ok,
        },
{
    if !facts.source_exists {
        return Err(String::from_str("Source file not found"));
    }
    let same_dir = match path_parent(source) {
        Some(p) => path_has_prefix(&p, dest_dir) && path_has_prefix(dest_dir, &p),
        None => false,
    };
    if same_dir {
        let mut m = String::from_str("Cannot ");
        m.append(verb_str(job_type));
        m.append(" to same directory");
        return Err(m);
    }
    if facts.source_is_dir && path_has_prefix(&facts.dest_canonical, &facts.source_canonical) {
        let mut m = String::from_str("Cannot ");
        m.append(verb_str(job_type));
        m.append(" directory into itself");
        return Err(m);
    }
    if !facts.source_readable {
        return Err(String::from_str("Permission denied: cannot read source"));
    }
    if !facts.dest_writable {
        return Err(String::from_str("Permission denied: cannot write to destination"));
    }
    Ok(())
}


/// The registry as `all_jobs` lists it: newest first.
pub open spec fn listing(v: ManagerView) -> Seq<JobView> {
    Seq::new(v.jobs.len(), |k: int| v.jobs[v.jobs.len() - 1 - k])
}

/// An operation of the registry that adds or removes jobs.
pub enum RegistryOp {
    Start { job_type: JobType, description: Seq<char>, source: Seq<char>, destination: Seq<char>, now: u64 },
    Dismiss { id: JobId },
}

/// The registry after `op`.
pub open spec fn after_op(v: ManagerView, op: RegistryOp) -> ManagerView {
    match op {
        RegistryOp::Start { job_type, description, source, destination, now } =>
            started(v, new_job(JobId(v.next_id), job_type, description, source, destination, now)),
        RegistryOp::Dismiss { id } => dismissed(v, id),
    }
}

/// The registry after the operations `ops`, in order.
pub open spec fn after_ops(v: ManagerView, ops: Seq<RegistryOp>) -> ManagerView
    decreases ops.len(),
{
    if ops.len() == 0 { v } else { after_op(after_ops(v, ops.drop_last()), ops.last()) }
}

/// For any sequence of job starts and dismissals (while ids remain), the
/// list of jobs is sorted by id, newest first.
pub proof fn lemma_listing_sorted(ops: Seq<RegistryOp>)
    requires
        ops.len() < u64::MAX,
    ensures
        registry_wf(after_ops(ManagerView { jobs: seq![], conflicts: seq![], next_id: 0 }, ops)),
        after_ops(ManagerView { jobs: seq![], conflicts: seq![], next_id: 0 }, ops).next_id <= ops.len(),
        ({
            let l = listing(after_ops(ManagerView { jobs: seq![], conflicts: seq![], next_id: 0 }, ops));
            forall|a: int, b: int| 0 <= a < b < l.len() ==> l[a].id.0 > l[b].id.0
        }),
    decreases ops.len(),
{
    let v0 = ManagerView { jobs: seq![], conflicts: seq![], next_id: 0 };
    if ops.len() > 0 {
        lemma_listing_sorted(ops.drop_last());
        let v = after_ops(v0, ops.drop_last());
        match ops.last() {
            RegistryOp::Start { .. } => {}
            RegistryOp::Dismiss { id } => {
                match job_index(v.jobs, id) {
                    Some(i) => {
                        lemma_find_from(v.jobs, id, 0);
                        if is_terminal(v.jobs[i].status) {
                            let w = v.jobs.remove(i);
                            assert forall|a: int, b: int| 0 <= a < b < w.len() implies w[a].id.0 < w[b].id.0 by {
                                let a0 = if a < i { a } else { a + 1 };
                                let b0 = if b < i { b } else { b + 1 };
                                assert(w[a] == v.jobs[a0]);
                                assert(w[b] == v.jobs[b0]);
                            }
                            assert forall|a: int| 0 <= a < w.len() implies w[a].id.0 < v.next_id by {
                                let a0 = if a < i { a } else { a + 1 };
                                assert(w[a] == v.jobs[a0]);
                            }
                        }
                    }
                    None => {}
                }
            }
        }
    }
}

} // verus!
