//! The decisions of the copy, move, delete and rename workers. The caller
//! walks the file system, copies buffers and removes entries; after each
//! such step it asks the state here what follows and which update to send.

use vstd::prelude::*;
use vstd::string::StringExecFns;
use crate::job::{ConflictResolution, JobId, JobUpdate};

verus! {

/// Why a worker stopped short.
#[derive(Debug)]
pub enum WorkerError {
    /// The cancel flag was seen.
    Interrupted,
    /// The user answered `Cancel` at a conflict prompt, or the prompt's
    /// channel closed.
    ConflictCancelled,
    /// A file system operation failed; the message is shown as is.
    Io(String),
    /// A move copied everything but could not remove its source.
    PostCopyDeleteFailed(String),
}

/// Totals gathered by a worker's scan phase.
pub struct ScanTotals {
    pub total_bytes: u64,
    pub total_files: u64,
}

impl ScanTotals {
    pub fn new() -> (r: Self)
        ensures
            r.total_bytes == 0,
            r.total_files == 0,
    {
        ScanTotals { total_bytes: 0, total_files: 0 }
    }

    /// Whether a file of `size` bytes can still be counted.
    pub fn can_add(&self, size: u64) -> (r: bool)
        ensures
            r == (self.total_bytes + size <= u64::MAX && self.total_files < u64::MAX),
    {
        self.total_bytes <= u64::MAX - size && self.total_files < u64::MAX
    }

    /// Counts one regular file of `size` bytes.
    pub fn add_file(&mut self, size: u64)
        requires
            old(self).total_bytes + size <= u64::MAX,
            old(self).total_files < u64::MAX,
        ensures
            final(self).total_bytes == old(self).total_bytes + size,
            final(self).total_files == old(self).total_files + 1,
    {
        self.total_bytes = self.total_bytes + size;
        self.total_files = self.total_files + 1;
    }

    /// The single `ScanComplete` update for job `job_id`.
    pub fn scan_complete(&self, job_id: JobId) -> (r: JobUpdate)
        ensures
            r == (JobUpdate::ScanComplete { job_id, total_bytes: self.total_bytes, total_files: self.total_files }),
    {
        JobUpdate::ScanComplete { job_id, total_bytes: self.total_bytes, total_files: self.total_files }
    }
}

/// What the worker does on finding that a file's destination exists.
#[derive(Clone, Copy, Debug, PartialEq, Eq, Structural)]
pub enum ConflictStep {
    /// Overwrite it without asking (overwrite-all mode).
    Copy,
    /// Leave it and count the file as processed (skip-all mode).
    Skip,
    /// Send `ConflictDetected` and wait for the user's answer.
    Ask,
}

/// What the worker does with one conflicting file after the user's answer.
#[derive(Clone, Copy, Debug, PartialEq, Eq, Structural)]
pub enum FileAction {
    Copy,
    Skip,
}

/// Counters and sticky conflict mode of one copy or move worker.
pub struct TransferState {
    pub job_id: JobId,
    pub processed_bytes: u64,
    pub files_processed: u64,
    pub overwrite_all: bool,
    pub skip_all: bool,
}

/// A transfer worker's state as plain values.
pub struct TransferView {
    pub processed: nat,
    pub files: nat,
    pub overwrite_all: bool,
    pub skip_all: bool,
}

impl View for TransferState {
    type V = TransferView;

    open spec fn view(&self) -> TransferView {
        TransferView {
            processed: self.processed_bytes as nat,
            files: self.files_processed as nat,
            overwrite_all: self.overwrite_all,
            skip_all: self.skip_all,
        }
    }
}

/// One step of a transfer worker, as the caller reports it.
pub enum TransferEvent {
    /// The next file's destination already exists.
    DestinationExists,
    /// The user's answer to a conflict prompt (`None`: the channel closed).
    Answer(Option<ConflictResolution>),
    /// A buffer of `n` bytes was copied.
    Chunk(u64),
    /// The current file was copied completely.
    FileDone,
}

/// The state after one event.
pub open spec fn transfer_step(s: TransferView, e: TransferEvent) -> TransferView {
    match e {
        TransferEvent::DestinationExists =>
            if s.skip_all { TransferView { files: s.files + 1, ..s } } else { s },
        TransferEvent::Answer(a) => match a {
            Some(ConflictResolution::Skip) => TransferView { files: s.files + 1, ..s },
            Some(ConflictResolution::SkipAll) => TransferView { files: s.files + 1, skip_all: true, ..s },
            Some(ConflictResolution::OverwriteAll) => TransferView { overwrite_all: true, ..s },
            _ => s,
        },
        TransferEvent::Chunk(n) => TransferView { processed: s.processed + n as nat, ..s },
        TransferEvent::FileDone => TransferView { files: s.files + 1, ..s },
    }
}

/// The decision on finding an existing destination.
pub open spec fn conflict_step(s: TransferView) -> ConflictStep {
    if s.skip_all {
        ConflictStep::Skip
    } else if s.overwrite_all {
        ConflictStep::Copy
    } else {
        ConflictStep::Ask
    }
}

/// Whether event `e` in state `s` sends a `ConflictDetected`.
pub open spec fn asks(s: TransferView, e: TransferEvent) -> bool {
    e is DestinationExists && conflict_step(s) == ConflictStep::Ask
}

/// Whether event `e` sends a `Progress` update.
pub open spec fn reports(e: TransferEvent) -> bool {
    e is Chunk || e is FileDone
}

/// The state after the events `es`, in order.
pub open spec fn transfer_run(s: TransferView, es: Seq<TransferEvent>) -> TransferView
    decreases es.len(),
{
    if es.len() == 0 { s } else { transfer_step(transfer_run(s, es.drop_last()), es.last()) }
}

/// The `processed_bytes` of each `Progress` update sent during `es`.
pub open spec fn progress_values(s: TransferView, es: Seq<TransferEvent>) -> Seq<nat>
    decreases es.len(),
{
    if es.len() == 0 {
        seq![]
    } else if reports(es.last()) {
        progress_values(s, es.drop_last()).push(transfer_run(s, es).processed)
    } else {
        progress_values(s, es.drop_last())
    }
}

/// Bytes of all chunks among `es`.
pub open spec fn chunk_total(es: Seq<TransferEvent>) -> nat
    decreases es.len(),
{
    if es.len() == 0 {
        0
    } else {
        chunk_total(es.drop_last()) + match es.last() {
            TransferEvent::Chunk(n) => n as nat,
            _ => 0nat,
        }
    }
}

/// Sum of the increments from `start` along `vals`.
pub open spec fn sum_of_deltas(start: nat, vals: Seq<nat>) -> int
    decreases vals.len(),
{
    if vals.len() == 0 {
        0
    } else {
        let prev = if vals.len() == 1 { start } else { vals[vals.len() - 2] };
        sum_of_deltas(start, vals.drop_last()) + (vals.last() - prev)
    }
}

proof fn lemma_deltas_telescope(start: nat, vals: Seq<nat>)
    ensures
        sum_of_deltas(start, vals) == (if vals.len() == 0 { start as int } else { vals.last() as int }) - start,
    decreases vals.len(),
{
    if vals.len() > 0 {
        lemma_deltas_telescope(start, vals.drop_last());
    }
}

proof fn lemma_progress_tracks_run(s: TransferView, es: Seq<TransferEvent>)
    ensures
        transfer_run(s, es).processed == s.processed + chunk_total(es),
        progress_values(s, es).len() > 0 ==> progress_values(s, es).last() == transfer_run(s, es).processed,
        progress_values(s, es).len() == 0 ==> transfer_run(s, es).processed == s.processed,
    decreases es.len(),
{
    if es.len() > 0 {
        lemma_progress_tracks_run(s, es.drop_last());
    }
}

/// Conservation: over any run of a transfer worker whose last event is a
/// chunk or a finished file, the increments of the `processed_bytes` that
/// its `Progress` updates carry add up to exactly the bytes copied, with no
/// double counting and no gap.
pub proof fn lemma_progress_conserves(s: TransferView, es: Seq<TransferEvent>)
    requires
        es.len() > 0,
        reports(es.last()),
    ensures
        sum_of_deltas(s.processed, progress_values(s, es)) == chunk_total(es),
        progress_values(s, es).last() == s.processed + chunk_total(es),
{
    lemma_progress_tracks_run(s, es);
    lemma_deltas_telescope(s.processed, progress_values(s, es));
}

/// Once overwrite-all is chosen it stays chosen, and no later event of the
/// job sends a `ConflictDetected` (unless skip-all was chosen before it,
/// which skips without asking too).
pub proof fn lemma_overwrite_all_sticks(s: TransferView, es: Seq<TransferEvent>)
    requires
        s.overwrite_all,
    ensures
        transfer_run(s, es).overwrite_all,
        forall|k: int| 0 <= k < es.len() ==> !asks(#[trigger] transfer_run(s, es.subrange(0, k)), es[k]),
    decreases es.len(),
{
    if es.len() > 0 {
        let init = es.drop_last();
        lemma_overwrite_all_sticks(s, init);
        assert forall|k: int| 0 <= k < es.len() implies !asks(#[trigger] transfer_run(s, es.subrange(0, k)), es[k]) by {
            if k < es.len() - 1 {
                assert(es.subrange(0, k) =~= init.subrange(0, k));
                assert(es[k] == init[k]);
            } else {
                assert(es.subrange(0, k) =~= init);
            }
        }
    }
}

impl TransferState {
    pub fn new(job_id: JobId) -> (r: Self)
        ensures
            r.job_id == job_id,
            r@ == (TransferView { processed: 0, files: 0, overwrite_all: false, skip_all: false }),
    {
        TransferState { job_id, processed_bytes: 0, files_processed: 0, overwrite_all: false, skip_all: false }
    }

    /// Decides what to do with a file whose destination exists; in skip-all
    /// mode the file is counted as processed.
    pub fn destination_exists(&mut self) -> (r: ConflictStep)
        requires
            old(self).files_processed < u64::MAX,
        ensures
            r == conflict_step(old(self)@),
            final(self)@ == transfer_step(old(self)@, TransferEvent::DestinationExists),
            final(self).job_id == old(self).job_id,
    {
        if self.skip_all {
            self.files_processed = self.files_processed + 1;
            ConflictStep::Skip
        } else if self.overwrite_all {
            ConflictStep::Copy
        } else {
            ConflictStep::Ask
        }
    }

    /// The prompt to send for the existing destination `dest`.
    pub fn conflict_update(&self, dest: String) -> (r: JobUpdate)
        ensures
            r == (JobUpdate::ConflictDetected { job_id: self.job_id, file_path: dest }),
    {
        JobUpdate::ConflictDetected { job_id: self.job_id, file_path: dest }
    }

    /// Applies the user's answer (`None`: the channel closed). A skipped
    /// file is counted as processed and its destination is left as it is;
    /// `Cancel` or a closed channel stops the job.
    pub fn resolve(&mut self, answer: Option<ConflictResolution>) -> (r: Result<FileAction, WorkerError>)
        requires
            old(self).files_processed < u64::MAX,
        ensures
            final(self)@ == transfer_step(old(self)@, TransferEvent::Answer(answer)),
            final(self).job_id == old(self).job_id,
            match answer {
                Some(ConflictResolution::Overwrite) | Some(ConflictResolution::OverwriteAll) => r == Ok::<FileAction, WorkerError>(FileAction::Copy),
                Some(ConflictResolution::Skip) | Some(ConflictResolution::SkipAll) => r == Ok::<FileAction, WorkerError>(FileAction::Skip),
                _ => r is Err && r->Err_0 is ConflictCancelled,
            },
    {
        match answer {
            Some(ConflictResolution::Overwrite) => Ok(FileAction::Copy),
            Some(ConflictResolution::OverwriteAll) => {
                self.overwrite_all = true;
                Ok(FileAction::Copy)
            }
            Some(ConflictResolution::Skip) => {
                self.files_processed = self.files_processed + 1;
                Ok(FileAction::Skip)
            }
            Some(ConflictResolution::SkipAll) => {
                self.skip_all = true;
                self.files_processed = self.files_processed + 1;
                Ok(FileAction::Skip)
            }
            _ => Err(WorkerError::ConflictCancelled),
        }
    }

    /// Counts a buffer of `n` bytes copied from `file_name` and returns the
    /// `Progress` update to send.
    pub fn chunk_copied(&mut self, n: u64, file_name: Option<String>) -> (r: JobUpdate)
        requires
            old(self).processed_bytes + n <= u64::MAX,
        ensures
            final(self)@ == transfer_step(old(self)@, TransferEvent::Chunk(n)),
            final(self).job_id == old(self).job_id,
            r == (JobUpdate::Progress {
                job_id: old(self).job_id,
                processed_bytes: final(self).processed_bytes,
                current_file: file_name,
                files_processed: final(self).files_processed,
            }),
    {
        self.processed_bytes = self.processed_bytes + n;
        JobUpdate::Progress {
            job_id: self.job_id,
            processed_bytes: self.processed_bytes,
            current_file: file_name,
            files_processed: self.files_processed,
        }
    }

    /// Counts a file copied completely and returns the `Progress` update to
    /// send.
    pub fn file_copied(&mut self, file_name: Option<String>) -> (r: JobUpdate)
        requires
            old(self).files_processed < u64::MAX,
        ensures
            final(self)@ == transfer_step(old(self)@, TransferEvent::FileDone),
            final(self).job_id == old(self).job_id,
            r == (JobUpdate::Progress {
                job_id: old(self).job_id,
                processed_bytes: final(self).processed_bytes,
                current_file: file_name,
                files_processed: final(self).files_processed,
            }),
    {
        self.files_processed = self.files_processed + 1;
        JobUpdate::Progress {
            job_id: self.job_id,
            processed_bytes: self.processed_bytes,
            current_file: file_name,
            files_processed: self.files_processed,
        }
    }
}

/// Counters of one delete worker.
pub struct DeleteState {
    pub job_id: JobId,
    pub processed_bytes: u64,
    pub files_processed: u64,
}

impl DeleteState {
    pub fn new(job_id: JobId) -> (r: Self)
        ensures
            r.job_id == job_id,
            r.processed_bytes == 0,
            r.files_processed == 0,
    {
        DeleteState { job_id, processed_bytes: 0, files_processed: 0 }
    }

    /// Counts a removed file of `size` bytes and returns the `Progress`
    /// update to send.
    pub fn file_removed(&mut self, size: u64, file_name: Option<String>) -> (r: JobUpdate)
        requires
            old(self).processed_bytes + size <= u64::MAX,
            old(self).files_processed < u64::MAX,
        ensures
            final(self).job_id == old(self).job_id,
            final(self).processed_bytes == old(self).processed_bytes + size,
            final(self).files_processed == old(self).files_processed + 1,
            r == (JobUpdate::Progress {
                job_id: old(self).job_id,
                processed_bytes: final(self).processed_bytes,
                current_file: file_name,
                files_processed: final(self).files_processed,
            }),
    {
        self.processed_bytes = self.processed_bytes + size;
        self.files_processed = self.files_processed + 1;
        JobUpdate::Progress {
            job_id: self.job_id,
            processed_bytes: self.processed_bytes,
            current_file: file_name,
            files_processed: self.files_processed,
        }
    }
}

pub open spec fn post_copy_message(e: Seq<char>) -> Seq<char> {
    "Copied but failed to delete source: "@ + e
}

/// The final update of a worker for job `job_id` given how it ended: a
/// cancellation (by flag or at a prompt) gives `Cancelled`, an I/O error
/// `Failed` with its message, a move whose source could not be removed
/// `Failed` with a message saying the copy was kept, success `Completed`.
pub fn finish_update(job_id: JobId, result: Result<(), WorkerError>) -> (r: JobUpdate)
    ensures
        match result {
            Ok(()) => r == JobUpdate::Completed { job_id },
            Err(WorkerError::Interrupted) | Err(WorkerError::ConflictCancelled) => r == JobUpdate::Cancelled { job_id },
            Err(WorkerError::Io(e)) => r == JobUpdate::Failed { job_id, error: e },
            Err(WorkerError::PostCopyDeleteFailed(e)) => r is Failed && r->error@ == post_copy_message(e@),
        },
{
    match result {
        Ok(()) => JobUpdate::Completed { job_id },
        Err(WorkerError::Interrupted) | Err(WorkerError::ConflictCancelled) => JobUpdate::Cancelled { job_id },
        Err(WorkerError::Io(e)) => JobUpdate::Failed { job_id, error: e },
        Err(WorkerError::PostCopyDeleteFailed(e)) => {
            let mut m = String::new();
            m.append("Copied but failed to delete source: ");
            m.append(e.as_str());
            JobUpdate::Failed { job_id, error: m }
        }
    }
}


/// An entry found by a delete worker's walk; `depth` counts levels below
/// the walk's root (0 for the root itself).
pub struct WalkEntry {
    pub path: String,
    pub is_dir: bool,
    pub depth: usize,
}

/// `x` may be removed before `y`: files come before directories, and
/// directories go deepest first.
pub open spec fn removal_ordered(x: WalkEntry, y: WalkEntry) -> bool {
    !x.is_dir || (y.is_dir && x.depth >= y.depth)
}

/// `order` lists each index of `entries` exactly once, files first, then
/// directories by decreasing depth.
pub open spec fn is_delete_order(entries: Seq<WalkEntry>, order: Seq<usize>) -> bool {
    &&& forall|k: int| 0 <= k < order.len() ==> order[k] < entries.len()
    &&& forall|i: int| 0 <= i < entries.len() ==> #[trigger] listed(order, i)
    &&& forall|a: int, b: int| 0 <= a < b < order.len() ==> order[a] != order[b]
    &&& forall|a: int, b: int| 0 <= a < b < order.len() ==> removal_ordered(entries[order[a] as int], entries[order[b] as int])
}

/// Index `i` occurs in `order`.
pub open spec fn listed(order: Seq<usize>, i: int) -> bool {
    exists|k: int| 0 <= k < order.len() && order[k] == i
}

/// Same removal group: both files, or directories of one depth.
pub open spec fn same_group(x: WalkEntry, y: WalkEntry) -> bool {
    x.is_dir == y.is_dir && (x.is_dir ==> x.depth == y.depth)
}

/// A delete order under construction: indices in range, removal-ordered,
/// and increasing within each removal group.
spec fn group_invariant(entries: Seq<WalkEntry>, order: Seq<usize>) -> bool {
    &&& forall|k: int| 0 <= k < order.len() ==> order[k] < entries.len()
    &&& forall|a: int, b: int| 0 <= a < b < order.len() ==> removal_ordered(entries[order[a] as int], entries[order[b] as int])
    &&& forall|a: int, b: int| 0 <= a < b < order.len() && same_group(entries[order[a] as int], entries[order[b] as int]) ==> order[a] < order[b]
}

/// The order in which a delete worker removes what its walk found: every
/// file first (in walk order), then the directories, deepest first, so that
/// each directory is empty when it is removed.
pub fn delete_order(entries: &Vec<WalkEntry>) -> (r: Vec<usize>)
    ensures
        is_delete_order(entries@, r@),
{
    let n = entries.len();
    let mut order: Vec<usize> = Vec::new();
    let mut i: usize = 0;
    while i < n
        invariant
            n == entries@.len(),
            i <= n,
            group_invariant(entries@, order@),
            forall|k: int| 0 <= k < order@.len() ==> order@[k] < i && !entries@[order@[k] as int].is_dir,
            forall|j: int| 0 <= j < i && !entries@[j].is_dir ==> #[trigger] listed(order@, j),
        decreases n - i,
    {
        if !entries[i].is_dir {
            let ghost prev = order@;
            order.push(i);
            assert forall|j: int| 0 <= j < i + 1 && !entries@[j].is_dir implies #[trigger] listed(order@, j) by {
                if j < i {
                    assert(listed(prev, j));
                    let k = choose|k: int| 0 <= k < prev.len() && prev[k] == j;
                    assert(order@[k] == j);
                } else {
                    assert(order@[prev.len() as int] == j);
                }
            }
        }
        i = i + 1;
    }
    let mut maxd: usize = 0;
    i = 0;
    while i < n
        invariant
            n == entries@.len(),
            i <= n,
            forall|j: int| 0 <= j < i && entries@[j].is_dir ==> entries@[j].depth <= maxd,
        decreases n - i,
    {
        if entries[i].is_dir && entries[i].depth > maxd {
            maxd = entries[i].depth;
        }
        i = i + 1;
    }
    let mut d: usize = maxd;
    let mut finished = false;
    while !finished
        invariant
            n == entries@.len(),
            d <= maxd,
            finished ==> d == 0,
            forall|j: int| 0 <= j < n && entries@[j].is_dir ==> entries@[j].depth <= maxd,
            group_invariant(entries@, order@),
            forall|k: int| 0 <= k < order@.len() ==> !entries@[order@[k] as int].is_dir || entries@[order@[k] as int].depth > d || finished,
            forall|j: int| 0 <= j < n && (!entries@[j].is_dir || entries@[j].depth > d || finished)
                ==> #[trigger] listed(order@, j),
        decreases d + (if finished { 0int } else { 1int }),
    {
        i = 0;
        while i < n
            invariant
                n == entries@.len(),
                i <= n,
                group_invariant(entries@, order@),
                forall|k: int| 0 <= k < order@.len() ==> !entries@[order@[k] as int].is_dir || entries@[order@[k] as int].depth > d
                    || (entries@[order@[k] as int].depth == d && order@[k] < i),
                forall|j: int| 0 <= j < n && (!entries@[j].is_dir || entries@[j].depth > d || (entries@[j].depth == d && j < i))
                    ==> #[trigger] listed(order@, j),
            decreases n - i,
        {
            if entries[i].is_dir && entries[i].depth == d {
                let ghost prev = order@;
                order.push(i);
                assert forall|j: int| 0 <= j < n && (!entries@[j].is_dir || entries@[j].depth > d || (entries@[j].depth == d && j < i + 1))
                    implies #[trigger] listed(order@, j) by {
                    if j == i {
                        assert(order@[prev.len() as int] == j);
                    } else {
                        assert(listed(prev, j));
                        let k = choose|k: int| 0 <= k < prev.len() && prev[k] == j;
                        assert(order@[k] == j);
                    }
                }
            }
            i = i + 1;
        }
        if d == 0 {
            finished = true;
        } else {
            let ghost od = d;
            d = d - 1;
            assert forall|j: int| 0 <= j < n && (!entries@[j].is_dir || entries@[j].depth > d || finished)
                implies #[trigger] listed(order@, j) by {
                assert(!entries@[j].is_dir || entries@[j].depth > od || (entries@[j].depth == od && j < n));
            }
        }
    }
    assert forall|a: int, b: int| 0 <= a < b < order@.len() implies order@[a] != order@[b] by {
        if order@[a] == order@[b] {
            assert(same_group(entries@[order@[a] as int], entries@[order@[b] as int]));
        }
    }
    assert forall|j: int| 0 <= j < entries@.len() implies #[trigger] listed(order@, j) by {
        assert(!entries@[j].is_dir || entries@[j].depth > d || finished);
    }
    order
}

/// Removing entries in a delete order, every entry inside a directory (a
/// file, or a directory that the walk found deeper) is removed before that
/// directory: each directory is empty when it is removed.
pub proof fn lemma_directory_empty_at_removal(entries: Seq<WalkEntry>, order: Seq<usize>, inside: spec_fn(int, int) -> bool)
    requires
        is_delete_order(entries, order),
        forall|x: int, y: int| 0 <= x < entries.len() && 0 <= y < entries.len() && #[trigger] inside(x, y)
            ==> entries[y].is_dir && (!entries[x].is_dir || entries[x].depth > entries[y].depth),
    ensures
        forall|a: int, b: int| 0 <= a < order.len() && 0 <= b < order.len() && #[trigger] inside(order[a] as int, order[b] as int) ==> a < b,
{
    assert forall|a: int, b: int| 0 <= a < order.len() && 0 <= b < order.len() && #[trigger] inside(order[a] as int, order[b] as int) implies a < b by {
        if b < a {
            assert(removal_ordered(entries[order[b] as int], entries[order[a] as int]));
        }
    }
}

} // verus!
