//! The several-files workflow: review the list, type the hashes that no
//! checksum file gives, verify, and show the results.

use vstd::prelude::*;
use crate::hasher::Algorithm;
use crate::verify::{parse_manual_hash, spec_manual_hash, compare_hashes};
use crate::text::unicode_lower;
use crate::checksum::{path_key, same_path};

verus! {

/// Where the expected hash of a file comes from.
pub enum HashSource {
    /// A checksum file found next to the file.
    AutoFound(String),
    /// A checksum file chosen by the user.
    ManualFile(String),
    /// A hash typed by the user, with its algorithm.
    ManualHash(String, Algorithm),
    /// No checksum file: the user has to type the hash.
    NeedsInput,
    /// The user chose to skip the file.
    Skipped,
}

/// Verification status of one file.
pub enum EntryStatus {
    Pending,
    Computing,
    /// Expected and computed hash, equal.
    Success(String, String),
    /// Expected and computed hash, different.
    Failure(String, String),
    Error(String),
    Skipped,
}

/// One file of the list.
pub struct FileEntry {
    pub path: String,
    /// Checked: the file will be verified.
    pub selected: bool,
    pub source: HashSource,
    pub status: EntryStatus,
}

/// Phase of the workflow.
#[derive(Debug, Clone, Copy, PartialEq, Eq, Structural)]
pub enum MultiPhase {
    /// The user reviews the list and checks or unchecks files.
    Review,
    /// Hashes are typed, one file at a time, for files without a checksum file.
    ManualInput,
    /// Digests are being computed.
    Verifying,
    /// All done: the summary is shown.
    Results,
}

/// How one selected file is to be verified.
pub enum JobKind {
    /// Against the entry for it in a checksum file; entries without an
    /// algorithm are checked with the given one.
    FromChecksum(String, Algorithm),
    /// Against a typed hash, with its algorithm.
    Direct(String, Algorithm),
}

/// A verification to run for the file at `index` in the list.
pub struct VerifyJob {
    pub index: usize,
    pub kind: JobKind,
}

/// Summary counts: files verified (success + failure + error), successes,
/// failures, errors, skipped files.
pub struct Stats {
    pub total: usize,
    pub success: usize,
    pub failure: usize,
    pub error: usize,
    pub skipped: usize,
}

/// State of the several-files workflow.
pub struct MultiFileState {
    pub entries: Vec<FileEntry>,
    pub phase: MultiPhase,
    /// Indices (into `entries`) of the files whose hash must be typed.
    pub manual_queue: Vec<usize>,
    /// Position in `manual_queue` of the file asked for now.
    pub manual_pos: usize,
    /// Text typed for the current file.
    pub input_hash: String,
    /// Algorithm chosen for the current file.
    pub input_algo: Algorithm,
}

/// No file occurs twice in the list: no two paths have the same components
/// (`windows` selecting the path rules; see `path_key`).
pub open spec fn paths_distinct(es: Seq<FileEntry>, windows: bool) -> bool {
    forall|i: int, j: int|
        0 <= i < j < es.len() ==> path_key((#[trigger] es[i]).path@, windows) != path_key(
            (#[trigger] es[j]).path@,
            windows,
        )
}

/// A selected file that has no checksum file and waits for a typed hash.
pub open spec fn awaiting(e: FileEntry) -> bool {
    e.selected && e.source is NeedsInput
}

/// Indices below `n` of the files waiting for a typed hash, ascending.
pub open spec fn awaiting_indices(es: Seq<FileEntry>, n: int) -> Seq<usize>
    decreases n,
{
    if n <= 0 {
        Seq::empty()
    } else {
        awaiting_indices(es, n - 1) + if awaiting(es[n - 1]) {
            seq![(n - 1) as usize]
        } else {
            Seq::empty()
        }
    }
}

proof fn lemma_awaiting_indices(es: Seq<FileEntry>, n: int)
    requires
        0 <= n <= es.len(),
        es.len() <= usize::MAX,
    ensures
        forall|k: int|
            0 <= k < awaiting_indices(es, n).len() ==> awaiting_indices(es, n)[k] < n && awaiting(
                es[awaiting_indices(es, n)[k] as int],
            ),
        forall|i: int|
            0 <= i < n && awaiting(es[i]) ==> exists|k: int|
                0 <= k < awaiting_indices(es, n).len() && awaiting_indices(es, n)[k] == i,
    decreases n,
{
    if n > 0 {
        lemma_awaiting_indices(es, n - 1);
        let prev = awaiting_indices(es, n - 1);
        let cur = awaiting_indices(es, n);
        assert forall|i: int| 0 <= i < n && awaiting(es[i]) implies exists|k: int|
            0 <= k < cur.len() && cur[k] == i by {
            if i < n - 1 {
                let k = choose|k: int| 0 <= k < prev.len() && prev[k] == i;
                assert(cur[k] == prev[k]);
            } else {
                assert(cur[prev.len() as int] == i);
            }
        }
    }
}

/// A file that will be verified (and not skipped) when verification starts.
pub open spec fn verifiable(e: FileEntry) -> bool {
    e.selected && !(e.source is Skipped || e.source is NeedsInput)
}

/// The job for a verifiable file, as its source says.
pub open spec fn job_matches(kind: JobKind, source: HashSource) -> bool {
    match source {
        HashSource::AutoFound(cs) => kind == JobKind::FromChecksum(cs, Algorithm::Sha256),
        HashSource::ManualFile(cs) => kind == JobKind::FromChecksum(cs, Algorithm::Sha256),
        HashSource::ManualHash(h, a) => kind == JobKind::Direct(h, a),
        _ => false,
    }
}

/// Indices below `n` of the files that will be verified, ascending.
pub open spec fn verifiable_indices(es: Seq<FileEntry>, n: int) -> Seq<usize>
    decreases n,
{
    if n <= 0 {
        Seq::empty()
    } else {
        verifiable_indices(es, n - 1) + if verifiable(es[n - 1]) {
            seq![(n - 1) as usize]
        } else {
            Seq::empty()
        }
    }
}

/// Counts of the statuses in `es`: (successes, failures, errors, skipped).
pub open spec fn status_counts(es: Seq<FileEntry>) -> (nat, nat, nat, nat)
    decreases es.len(),
{
    if es.len() == 0 {
        (0, 0, 0, 0)
    } else {
        let (s, f, e, k) = status_counts(es.drop_last());
        match es.last().status {
            EntryStatus::Success(_, _) => (s + 1, f, e, k),
            EntryStatus::Failure(_, _) => (s, f + 1, e, k),
            EntryStatus::Error(_) => (s, f, e + 1, k),
            EntryStatus::Skipped => (s, f, e, k + 1),
            _ => (s, f, e, k),
        }
    }
}

proof fn lemma_status_counts_bound(es: Seq<FileEntry>)
    ensures
        status_counts(es).0 + status_counts(es).1 + status_counts(es).2 + status_counts(es).3
            <= es.len(),
    decreases es.len(),
{
    if es.len() > 0 {
        lemma_status_counts_bound(es.drop_last());
    }
}

/// A status that will not change any more.
pub open spec fn is_finished(s: EntryStatus) -> bool {
    !(s is Pending || s is Computing)
}

/// The source a file gets from the checksum file found for it, if any.
pub open spec fn source_for(found: Option<String>) -> HashSource {
    match found {
        Some(cs) => HashSource::AutoFound(cs),
        None => HashSource::NeedsInput,
    }
}

fn source_of(found: &Option<String>) -> (r: HashSource)
    ensures
        r == source_for(*found),
{
    match found {
        Some(cs) => HashSource::AutoFound(cs.clone()),
        None => HashSource::NeedsInput,
    }
}

impl MultiFileState {
    /// The manual queue only points into the list.
    pub open spec fn wf(&self) -> bool {
        forall|k: int|
            0 <= k < self.manual_queue@.len() ==> #[trigger] self.manual_queue@[k]
                < self.entries@.len()
    }

    /// Every file still waiting for a typed hash is queued at or after the
    /// current position.
    pub open spec fn inputs_queued(&self) -> bool {
        forall|i: int|
            0 <= i < self.entries@.len() && awaiting(#[trigger] self.entries@[i]) ==> exists|k: int|
                self.manual_pos <= k < self.manual_queue@.len() && self.manual_queue@[k] == i
    }

    /// Starts the workflow for `paths`; `found[i]` is the checksum file found
    /// next to `paths[i]`, if any (a missing item counts as none). Every file
    /// is selected; files with no checksum file wait for a typed hash.
    pub fn from_paths(paths: Vec<String>, found: Vec<Option<String>>) -> (r: Self)
        ensures
            r.entries@.len() == paths@.len(),
            forall|i: int|
                0 <= i < paths@.len() ==> {
                    let e = #[trigger] r.entries@[i];
                    &&& e.path == paths@[i]
                    &&& e.selected
                    &&& e.status is Pending
                    &&& e.source == source_for(if i < found@.len() {
                        found@[i]
                    } else {
                        None
                    })
                },
            r.phase == MultiPhase::Review,
            r.manual_queue@.len() == 0,
            r.manual_pos == 0,
            r.input_hash@.len() == 0,
            r.input_algo == Algorithm::Sha256,
            r.wf(),
    {
        let mut entries: Vec<FileEntry> = Vec::new();
        let mut i: usize = 0;
        while i < paths.len()
            invariant
                i <= paths.len(),
                entries@.len() == i,
                forall|j: int|
                    0 <= j < i ==> {
                        let e = #[trigger] entries@[j];
                        &&& e.path == paths@[j]
                        &&& e.selected
                        &&& e.status is Pending
                        &&& e.source == source_for(if j < found@.len() {
                            found@[j]
                        } else {
                            None
                        })
                    },
            decreases paths.len() - i,
        {
            let source = if i < found.len() {
                source_of(&found[i])
            } else {
                HashSource::NeedsInput
            };
            entries.push(
                FileEntry {
                    path: paths[i].clone(),
                    selected: true,
                    source,
                    status: EntryStatus::Pending,
                },
            );
            i += 1;
        }
        MultiFileState {
            entries,
            phase: MultiPhase::Review,
            manual_queue: Vec::new(),
            manual_pos: 0,
            input_hash: String::new(),
            input_algo: Algorithm::Sha256,
        }
    }

    /// Leaves the review: queues, in list order, the selected files that wait
    /// for a typed hash, and goes to manual input; with none, goes straight to
    /// verification. Returns whether verification starts now.
    pub fn advance_from_review(&mut self) -> (r: bool)
        ensures
            final(self).entries@ == old(self).entries@,
            final(self).manual_queue@ == awaiting_indices(
                old(self).entries@,
                old(self).entries@.len() as int,
            ),
            final(self).manual_pos == 0,
            final(self).input_hash@.len() == 0,
            final(self).input_algo == old(self).input_algo,
            r == (final(self).manual_queue@.len() == 0),
            final(self).phase == (if r {
                MultiPhase::Verifying
            } else {
                MultiPhase::ManualInput
            }),
            final(self).wf(),
            final(self).inputs_queued(),
    {
        let mut queue: Vec<usize> = Vec::new();
        let mut i: usize = 0;
        while i < self.entries.len()
            invariant
                i <= self.entries@.len(),
                self.entries@ == old(self).entries@,
                queue@ == awaiting_indices(self.entries@, i as int),
            decreases self.entries.len() - i,
        {
            let e = &self.entries[i];
            if e.selected && matches!(e.source, HashSource::NeedsInput) {
                queue.push(i);
            }
            assert(queue@ =~= awaiting_indices(self.entries@, i + 1));
            i += 1;
        }
        proof {
            lemma_awaiting_indices(self.entries@, self.entries@.len() as int);
        }
        self.manual_queue = queue;
        self.manual_pos = 0;
        self.input_hash = String::new();
        if self.manual_queue.len() == 0 {
            self.phase = MultiPhase::Verifying;
            true
        } else {
            self.phase = MultiPhase::ManualInput;
            false
        }
    }

    /// Moves to the next queued file; when the queue is exhausted, verification
    /// starts. Returns whether it starts now.
    pub fn next_manual(&mut self) -> (r: bool)
        requires
            old(self).manual_pos < usize::MAX,
        ensures
            final(self).entries@ == old(self).entries@,
            final(self).manual_queue@ == old(self).manual_queue@,
            final(self).manual_pos == old(self).manual_pos + 1,
            final(self).input_hash@.len() == 0,
            final(self).input_algo == old(self).input_algo,
            r == (final(self).manual_pos >= final(self).manual_queue@.len()),
            final(self).phase == (if r {
                MultiPhase::Verifying
            } else {
                old(self).phase
            }),
    {
        self.manual_pos = self.manual_pos + 1;
        self.input_hash = String::new();
        if self.manual_pos >= self.manual_queue.len() {
            self.phase = MultiPhase::Verifying;
            true
        } else {
            false
        }
    }

    /// Takes the typed hash for the current file (see `parse_manual_hash`,
    /// with the chosen algorithm as default) and moves to the next file.
    /// Returns whether verification starts now.
    pub fn validate_manual(&mut self) -> (r: bool)
        requires
            old(self).wf(),
            old(self).manual_pos < usize::MAX,
        ensures
            final(self).wf(),
            final(self).entries@.len() == old(self).entries@.len(),
            old(self).manual_pos < old(self).manual_queue@.len() ==> {
                let q = old(self).manual_queue@[old(self).manual_pos as int] as int;
                let (h, a) = spec_manual_hash(old(self).input_hash@, old(self).input_algo);
                &&& final(self).entries@[q].source matches HashSource::ManualHash(fh, fa) && fh@
                    == h && fa == a
                &&& final(self).entries@[q].path == old(self).entries@[q].path
                &&& final(self).entries@[q].selected == old(self).entries@[q].selected
                &&& final(self).entries@[q].status == old(self).entries@[q].status
                &&& forall|j: int|
                    0 <= j < old(self).entries@.len() && j != q ==> final(self).entries@[j]
                        == old(self).entries@[j]
            },
            old(self).manual_pos >= old(self).manual_queue@.len() ==> final(self).entries@ == old(
                self,
            ).entries@,
            final(self).manual_queue@ == old(self).manual_queue@,
            final(self).manual_pos == old(self).manual_pos + 1,
            final(self).input_hash@.len() == 0,
            final(self).input_algo == old(self).input_algo,
            r == (final(self).manual_pos >= final(self).manual_queue@.len()),
            final(self).phase == (if r {
                MultiPhase::Verifying
            } else {
                old(self).phase
            }),
            answer_step(*old(self), *final(self), r),
            old(self).inputs_queued() ==> final(self).inputs_queued(),
    {
        if self.manual_pos < self.manual_queue.len() {
            let idx = self.manual_queue[self.manual_pos];
            let (hash, algo) = parse_manual_hash(self.input_hash.as_str(), self.input_algo);
            self.entries[idx].source = HashSource::ManualHash(hash, algo);
        }
        let ghost mid = *self;
        let r = self.next_manual();
        proof {
            if old(self).inputs_queued() {
                assert forall|i: int|
                    0 <= i < self.entries@.len() && awaiting(
                        #[trigger] self.entries@[i],
                    ) implies exists|k: int|
                    self.manual_pos <= k < self.manual_queue@.len() && self.manual_queue@[k] == i by {
                    assert(awaiting(old(self).entries@[i]));
                    let k = choose|k: int|
                        old(self).manual_pos <= k < old(self).manual_queue@.len()
                            && old(self).manual_queue@[k] == i;
                    assert(k != old(self).manual_pos);
                }
            }
        }
        r
    }

    /// Skips the current file and moves to the next one. Returns whether
    /// verification starts now.
    pub fn skip_manual(&mut self) -> (r: bool)
        requires
            old(self).wf(),
            old(self).manual_pos < usize::MAX,
        ensures
            final(self).wf(),
            final(self).entries@.len() == old(self).entries@.len(),
            old(self).manual_pos < old(self).manual_queue@.len() ==> {
                let q = old(self).manual_queue@[old(self).manual_pos as int] as int;
                &&& final(self).entries@[q].source is Skipped
                &&& final(self).entries@[q].path == old(self).entries@[q].path
                &&& final(self).entries@[q].selected == old(self).entries@[q].selected
                &&& final(self).entries@[q].status == old(self).entries@[q].status
                &&& forall|j: int|
                    0 <= j < old(self).entries@.len() && j != q ==> final(self).entries@[j]
                        == old(self).entries@[j]
            },
            old(self).manual_pos >= old(self).manual_queue@.len() ==> final(self).entries@ == old(
                self,
            ).entries@,
            final(self).manual_queue@ == old(self).manual_queue@,
            final(self).manual_pos == old(self).manual_pos + 1,
            final(self).input_hash@.len() == 0,
            final(self).input_algo == old(self).input_algo,
            r == (final(self).manual_pos >= final(self).manual_queue@.len()),
            final(self).phase == (if r {
                MultiPhase::Verifying
            } else {
                old(self).phase
            }),
            answer_step(*old(self), *final(self), r),
            old(self).inputs_queued() ==> final(self).inputs_queued(),
    {
        if self.manual_pos < self.manual_queue.len() {
            let idx = self.manual_queue[self.manual_pos];
            self.entries[idx].source = HashSource::Skipped;
        }
        let r = self.next_manual();
        proof {
            if old(self).inputs_queued() {
                assert forall|i: int|
                    0 <= i < self.entries@.len() && awaiting(
                        #[trigger] self.entries@[i],
                    ) implies exists|k: int|
                    self.manual_pos <= k < self.manual_queue@.len() && self.manual_queue@[k] == i by {
                    assert(awaiting(old(self).entries@[i]));
                    let k = choose|k: int|
                        old(self).manual_pos <= k < old(self).manual_queue@.len()
                            && old(self).manual_queue@[k] == i;
                    assert(k != old(self).manual_pos);
                }
            }
        }
        r
    }
}

/// One answer in the manual input (a typed hash or a skip): only the file at
/// the current position of the queue may change, and only in where its hash
/// comes from; the position moves on by one; the answer starts verification
/// exactly when it passes the end of the queue.
pub open spec fn answer_step(a: MultiFileState, b: MultiFileState, r: bool) -> bool {
    &&& b.entries@.len() == a.entries@.len()
    &&& forall|j: int|
        0 <= j < a.entries@.len() && !(a.manual_pos < a.manual_queue@.len() && j
            == a.manual_queue@[a.manual_pos as int]) ==> #[trigger] b.entries@[j] == a.entries@[j]
    &&& forall|j: int|
        0 <= j < a.entries@.len() ==> (#[trigger] b.entries@[j]).path == a.entries@[j].path
            && b.entries@[j].selected == a.entries@[j].selected && b.entries@[j].status
            == a.entries@[j].status
    &&& b.manual_queue@ == a.manual_queue@
    &&& b.manual_pos == a.manual_pos + 1
    &&& r == (b.manual_pos >= b.manual_queue@.len())
    &&& b.phase == (if r {
        MultiPhase::Verifying
    } else {
        a.phase
    })
}

proof fn lemma_run_prefix(states: Seq<MultiFileState>, results: Seq<bool>, k: int)
    requires
        states.len() == results.len() + 1,
        results.len() == states[0].manual_queue@.len(),
        states[0].phase == MultiPhase::ManualInput,
        states[0].manual_pos == 0,
        forall|t: int| 0 <= t < results.len() ==> answer_step(#[trigger] states[t], states[t + 1], results[t]),
        0 <= k <= results.len(),
    ensures
        states[k].manual_pos == k,
        states[k].manual_queue@ == states[0].manual_queue@,
        k < results.len() ==> states[k].phase == MultiPhase::ManualInput,
    decreases k,
{
    if k > 0 {
        lemma_run_prefix(states, results, k - 1);
        assert(answer_step(states[k - 1], states[k], results[k - 1]));
    }
}

/// Answering the queued files one call after another, each call typing a
/// hash or skipping: with `n` files queued when the review ended, the first
/// `n - 1` answers return false and stay in the manual input, the `n`-th
/// returns true and starts verification, and the `k`-th answer changes only
/// the `k`-th queued file, and only in where its hash comes from.
pub proof fn lemma_manual_run(states: Seq<MultiFileState>, results: Seq<bool>)
    requires
        states.len() == results.len() + 1,
        results.len() == states[0].manual_queue@.len(),
        states[0].phase == MultiPhase::ManualInput,
        states[0].manual_pos == 0,
        forall|t: int| 0 <= t < results.len() ==> answer_step(#[trigger] states[t], states[t + 1], results[t]),
    ensures
        forall|k: int| 0 <= k < results.len() - 1 ==> !(#[trigger] results[k]) && states[k + 1].phase
            == MultiPhase::ManualInput,
        results.len() > 0 ==> results[results.len() - 1] && states[results.len() as int].phase
            == MultiPhase::Verifying,
        forall|k: int, j: int|
            0 <= k < results.len() && 0 <= j < states[k].entries@.len() && j
                != states[0].manual_queue@[k] ==> #[trigger] states[k + 1].entries@[j]
                == states[k].entries@[j],
{
    let n = results.len() as int;
    assert forall|k: int| 0 <= k < n - 1 implies !(#[trigger] results[k]) && states[k + 1].phase
        == MultiPhase::ManualInput by {
        lemma_run_prefix(states, results, k + 1);
        assert(answer_step(states[k], states[k + 1], results[k]));
    }
    if n > 0 {
        lemma_run_prefix(states, results, n - 1);
        assert(answer_step(states[n - 1], states[n], results[n - 1]));
    }
    assert forall|k: int, j: int|
        0 <= k < n && 0 <= j < states[k].entries@.len() && j != states[0].manual_queue@[k] implies
        #[trigger] states[k + 1].entries@[j] == states[k].entries@[j] by {
        lemma_run_prefix(states, results, k);
        assert(answer_step(states[k], states[k + 1], results[k]));
    }
}

/// Once every queued file has been answered, no selected file is still
/// waiting for a typed hash: each got a hash or was skipped.
pub proof fn lemma_manual_input_complete(s: MultiFileState)
    requires
        s.inputs_queued(),
        s.manual_pos >= s.manual_queue@.len(),
    ensures
        forall|i: int| 0 <= i < s.entries@.len() ==> !awaiting(#[trigger] s.entries@[i]),
{
}

impl MultiFileState {
    /// Whether every file has a final status (neither pending nor computing).
    pub fn all_done(&self) -> (r: bool)
        ensures
            r == forall|i: int| 0 <= i < self.entries@.len() ==> is_finished(#[trigger] self.entries@[i].status),
    {
        let mut i: usize = 0;
        while i < self.entries.len()
            invariant
                i <= self.entries@.len(),
                forall|j: int| 0 <= j < i ==> is_finished(#[trigger] self.entries@[j].status),
            decreases self.entries.len() - i,
        {
            match self.entries[i].status {
                EntryStatus::Pending | EntryStatus::Computing => {
                    return false;
                },
                _ => {},
            }
            i += 1;
        }
        true
    }

    /// Goes to the results once every file has a final status. Returns whether
    /// it did.
    pub fn complete_if_done(&mut self) -> (r: bool)
        ensures
            final(self).entries@ == old(self).entries@,
            final(self).manual_queue@ == old(self).manual_queue@,
            final(self).manual_pos == old(self).manual_pos,
            r == forall|i: int| 0 <= i < old(self).entries@.len() ==> is_finished(#[trigger] old(self).entries@[i].status),
            final(self).phase == (if r { MultiPhase::Results } else { old(self).phase }),
    {
        if self.all_done() {
            self.phase = MultiPhase::Results;
            true
        } else {
            false
        }
    }

    /// Counts the results for the summary.
    pub fn stats(&self) -> (r: Stats)
        ensures
            r.success == status_counts(self.entries@).0,
            r.failure == status_counts(self.entries@).1,
            r.error == status_counts(self.entries@).2,
            r.skipped == status_counts(self.entries@).3,
            r.total == r.success + r.failure + r.error,
    {
        let mut success: usize = 0;
        let mut failure: usize = 0;
        let mut error: usize = 0;
        let mut skipped: usize = 0;
        let mut i: usize = 0;
        while i < self.entries.len()
            invariant
                i <= self.entries@.len(),
                (success as nat, failure as nat, error as nat, skipped as nat) == status_counts(self.entries@.take(i as int)),
                success + failure + error + skipped <= i,
            decreases self.entries.len() - i,
        {
            assert(self.entries@.take(i + 1).drop_last() =~= self.entries@.take(i as int));
            proof {
                lemma_status_counts_bound(self.entries@.take(i as int));
            }
            match self.entries[i].status {
                EntryStatus::Success(_, _) => success += 1,
                EntryStatus::Failure(_, _) => failure += 1,
                EntryStatus::Error(_) => error += 1,
                EntryStatus::Skipped => skipped += 1,
                _ => {},
            }
            i += 1;
        }
        assert(self.entries@.take(self.entries@.len() as int) =~= self.entries@);
        Stats { total: success + failure + error, success, failure, error, skipped }
    }

    /// Adds a file received while the list is open: only during the review, and
    /// only if no file of the list is the same file (same path components,
    /// `windows` selecting the path rules). `found` is the checksum file found
    /// next to it, if any. Returns whether it was added.
    pub fn add_if_new(&mut self, path: String, found: Option<String>, windows: bool) -> (r: bool)
        ensures
            r == (old(self).phase == MultiPhase::Review && forall|i: int|
                0 <= i < old(self).entries@.len() ==> path_key(#[trigger] old(self).entries@[i].path@, windows)
                    != path_key(path@, windows)),
            r ==> final(self).entries@ == old(self).entries@.push(
                FileEntry { path, selected: true, source: source_for(found), status: EntryStatus::Pending },
            ),
            !r ==> final(self).entries@ == old(self).entries@,
            paths_distinct(old(self).entries@, windows) ==> paths_distinct(final(self).entries@, windows),
            final(self).phase == old(self).phase,
            final(self).manual_queue@ == old(self).manual_queue@,
            final(self).manual_pos == old(self).manual_pos,
            final(self).input_hash == old(self).input_hash,
            final(self).input_algo == old(self).input_algo,
    {
        if self.phase != MultiPhase::Review {
            return false;
        }
        let mut i: usize = 0;
        while i < self.entries.len()
            invariant
                i <= self.entries@.len(),
                forall|j: int| 0 <= j < i ==> path_key(#[trigger] self.entries@[j].path@, windows) != path_key(path@, windows),
            decreases self.entries.len() - i,
        {
            if same_path(self.entries[i].path.as_str(), path.as_str(), windows) {
                return false;
            }
            i += 1;
        }
        let source = source_of(&found);
        self.entries.push(FileEntry { path, selected: true, source, status: EntryStatus::Pending });
        true
    }

    /// Starts verification: every file that is unchecked, skipped or still
    /// without a hash is marked skipped; every other file is marked computing
    /// and gets a job (checksum files with SHA-256 as the fallback algorithm,
    /// typed hashes with their algorithm). Jobs come in list order.
    pub fn start_verification(&mut self) -> (jobs: Vec<VerifyJob>)
        ensures
            final(self).entries@.len() == old(self).entries@.len(),
            forall|i: int| 0 <= i < old(self).entries@.len() ==> {
                let o = old(self).entries@[i];
                let n = #[trigger] final(self).entries@[i];
                &&& n.path == o.path
                &&& n.selected == o.selected
                &&& n.source == o.source
                &&& n.status == (if verifiable(o) { EntryStatus::Computing } else { EntryStatus::Skipped })
            },
            jobs@.map_values(|j: VerifyJob| j.index) == verifiable_indices(old(self).entries@, old(self).entries@.len() as int),
            forall|k: int| 0 <= k < jobs@.len() ==> {
                let j = #[trigger] jobs@[k];
                j.index < old(self).entries@.len() && job_matches(j.kind, old(self).entries@[j.index as int].source)
            },
            final(self).phase == old(self).phase,
            final(self).manual_queue@ == old(self).manual_queue@,
            final(self).manual_pos == old(self).manual_pos,
    {
        let ghost orig = self.entries@;
        let mut jobs: Vec<VerifyJob> = Vec::new();
        let mut i: usize = 0;
        while i < self.entries.len()
            invariant
                i <= self.entries@.len(),
                self.entries@.len() == orig.len(),
                self.phase == old(self).phase,
                self.manual_queue@ == old(self).manual_queue@,
                self.manual_pos == old(self).manual_pos,
                orig == old(self).entries@,
                forall|j: int| i <= j < orig.len() ==> #[trigger] self.entries@[j] == orig[j],
                forall|j: int| 0 <= j < i ==> {
                    let o = orig[j];
                    let n = #[trigger] self.entries@[j];
                    &&& n.path == o.path
                    &&& n.selected == o.selected
                    &&& n.source == o.source
                    &&& n.status == (if verifiable(o) { EntryStatus::Computing } else { EntryStatus::Skipped })
                },
                jobs@.map_values(|j: VerifyJob| j.index) == verifiable_indices(orig, i as int),
                forall|k: int| 0 <= k < jobs@.len() ==> {
                    let j = #[trigger] jobs@[k];
                    j.index < i && job_matches(j.kind, orig[j.index as int].source)
                },
            decreases self.entries.len() - i,
        {
            let ghost before = jobs@;
            let kind = if !self.entries[i].selected {
                None
            } else {
                match &self.entries[i].source {
                    HashSource::AutoFound(cs) => Some(JobKind::FromChecksum(cs.clone(), Algorithm::Sha256)),
                    HashSource::ManualFile(cs) => Some(JobKind::FromChecksum(cs.clone(), Algorithm::Sha256)),
                    HashSource::ManualHash(h, a) => Some(JobKind::Direct(h.clone(), *a)),
                    HashSource::NeedsInput => None,
                    HashSource::Skipped => None,
                }
            };
            match kind {
                Some(k) => {
                    self.entries[i].status = EntryStatus::Computing;
                    jobs.push(VerifyJob { index: i, kind: k });
                },
                None => {
                    self.entries[i].status = EntryStatus::Skipped;
                },
            }
            assert(jobs@.map_values(|j: VerifyJob| j.index) =~= verifiable_indices(orig, i + 1));
            i += 1;
        }
        jobs
    }

    /// Records the status of the file at `index`.
    pub fn set_status(&mut self, index: usize, status: EntryStatus)
        requires
            index < old(self).entries@.len(),
        ensures
            final(self).entries@.len() == old(self).entries@.len(),
            final(self).entries@[index as int].status == status,
            final(self).entries@[index as int].path == old(self).entries@[index as int].path,
            final(self).entries@[index as int].selected == old(self).entries@[index as int].selected,
            final(self).entries@[index as int].source == old(self).entries@[index as int].source,
            forall|j: int| 0 <= j < old(self).entries@.len() && j != index ==> final(self).entries@[j] == old(self).entries@[j],
            final(self).phase == old(self).phase,
            final(self).manual_queue@ == old(self).manual_queue@,
            final(self).manual_pos == old(self).manual_pos,
    {
        self.entries[index].status = status;
    }
}

impl MultiFileState {
    /// Checks or unchecks every file of the list.
    pub fn set_all_selected(&mut self, selected: bool)
        ensures
            final(self).entries@.len() == old(self).entries@.len(),
            forall|i: int| 0 <= i < old(self).entries@.len() ==> {
                let o = old(self).entries@[i];
                let n = #[trigger] final(self).entries@[i];
                &&& n.path == o.path
                &&& n.selected == selected
                &&& n.source == o.source
                &&& n.status == o.status
            },
            final(self).phase == old(self).phase,
            final(self).manual_queue@ == old(self).manual_queue@,
            final(self).manual_pos == old(self).manual_pos,
    {
        let mut i: usize = 0;
        while i < self.entries.len()
            invariant
                i <= self.entries@.len(),
                self.entries@.len() == old(self).entries@.len(),
                self.phase == old(self).phase,
                self.manual_queue@ == old(self).manual_queue@,
                self.manual_pos == old(self).manual_pos,
                forall|j: int| 0 <= j < old(self).entries@.len() ==> {
                    let o = old(self).entries@[j];
                    let n = #[trigger] self.entries@[j];
                    &&& n.path == o.path
                    &&& n.selected == (if j < i { selected } else { o.selected })
                    &&& n.source == o.source
                    &&& n.status == o.status
                },
            decreases self.entries.len() - i,
        {
            self.entries[i].selected = selected;
            i += 1;
        }
    }

    /// Whether at least one file is checked, so that the review can go on.
    pub fn any_selected(&self) -> (r: bool)
        ensures
            r == exists|i: int| 0 <= i < self.entries@.len() && (#[trigger] self.entries@[i]).selected,
    {
        let mut i: usize = 0;
        while i < self.entries.len()
            invariant
                i <= self.entries@.len(),
                forall|j: int| 0 <= j < i ==> !(#[trigger] self.entries@[j]).selected,
            decreases self.entries.len() - i,
        {
            if self.entries[i].selected {
                return true;
            }
            i += 1;
        }
        false
    }
}

/// The headline of the results.
#[derive(Debug, Clone, Copy, PartialEq, Eq, Structural)]
pub enum Summary {
    /// At least one file verified, none failed, no error.
    AllIntact,
    /// At least one file does not match.
    SomeFailed,
    /// No mismatch, but at least one error.
    SomeErrors,
    /// Nothing was verified.
    Finished,
}

impl Stats {
    /// The headline for these counts: all intact when something succeeded and
    /// nothing failed or went wrong; else failures first, then errors.
    pub fn summary(&self) -> (r: Summary)
        ensures
            r == (if self.failure == 0 && self.error == 0 && self.success > 0 {
                Summary::AllIntact
            } else if self.failure > 0 {
                Summary::SomeFailed
            } else if self.error > 0 {
                Summary::SomeErrors
            } else {
                Summary::Finished
            }),
    {
        if self.failure == 0 && self.error == 0 && self.success > 0 {
            Summary::AllIntact
        } else if self.failure > 0 {
            Summary::SomeFailed
        } else if self.error > 0 {
            Summary::SomeErrors
        } else {
            Summary::Finished
        }
    }
}

/// The status of a file once its digest is computed: success when it agrees
/// with the expected hash without regard to case, failure otherwise; both
/// hashes are kept in lowercase.
pub fn entry_outcome(expected: &str, computed: &str) -> (r: EntryStatus)
    ensures
        match r {
            EntryStatus::Success(e, c) => e@ == unicode_lower(expected@) && c@ == unicode_lower(
                computed@,
            ) && unicode_lower(expected@) == unicode_lower(computed@),
            EntryStatus::Failure(e, c) => e@ == unicode_lower(expected@) && c@ == unicode_lower(
                computed@,
            ) && unicode_lower(expected@) != unicode_lower(computed@),
            _ => false,
        },
{
    let cmp = compare_hashes(expected, computed);
    if cmp.matched {
        EntryStatus::Success(cmp.expected, cmp.computed)
    } else {
        EntryStatus::Failure(cmp.expected, cmp.computed)
    }
}

/// The files whose status may still change (pending or computing).
pub open spec fn unfinished_count(es: Seq<FileEntry>) -> nat
    decreases es.len(),
{
    if es.len() == 0 {
        0
    } else {
        unfinished_count(es.drop_last()) + (if is_finished(es.last().status) {
            0nat
        } else {
            1nat
        })
    }
}

/// The summary adds up: successes, failures, errors and skipped files,
/// together with the files still pending or computing, are exactly the list;
/// so once every file is finished, the four counts cover the whole list.
pub proof fn lemma_stats_add_up(es: Seq<FileEntry>)
    ensures
        status_counts(es).0 + status_counts(es).1 + status_counts(es).2 + status_counts(es).3
            + unfinished_count(es) == es.len(),
        (forall|i: int| 0 <= i < es.len() ==> is_finished(#[trigger] es[i].status)) ==> status_counts(es).0
            + status_counts(es).1 + status_counts(es).2 + status_counts(es).3 == es.len(),
    decreases es.len(),
{
    if es.len() > 0 {
        lemma_stats_add_up(es.drop_last());
        if forall|i: int| 0 <= i < es.len() ==> is_finished(#[trigger] es[i].status) {
            assert forall|i: int| 0 <= i < es.drop_last().len() implies is_finished(
                #[trigger] es.drop_last()[i].status,
            ) by {
                assert(es.drop_last()[i] == es[i]);
            }
            assert(is_finished(es[es.len() - 1].status));
        }
    }
}

} // verus!
