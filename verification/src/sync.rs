use vstd::prelude::*;
use crate::error::Error;
use crate::gate::AdmissionGate;
use crate::reporter::Status;
use crate::resources::{
    downloadable_of, has_source, lemma_total_size_bounds, retain_downloadable, sum_sizes,
    total_size, FileResource,
};

verus! {

/// Where a started worker stands.
#[derive(Debug, Clone, PartialEq, Eq)]
pub enum Slot {
    /// Started, and its ending not yet delivered. It holds an admission slot.
    Running,
    /// Ended without an error: downloaded, skipped or cancelled.
    Done,
    /// Ended with this error.
    Failed(Error),
}

/// How a worker ended, as the caller observed it.
#[derive(Debug, PartialEq, Eq)]
pub enum Ending {
    /// The cancellation signal was seen before the fetch had finished.
    CancelWon,
    /// The fetch finished first, with this result.
    Fetched(Result<Status, Error>),
    /// The worker stopped without a result; the message says how.
    Crashed(String),
}

/// One call owed to the reporter.
#[derive(Debug, Clone, PartialEq, Eq)]
pub struct Report {
    pub file: FileResource,
    pub status: Status,
    pub total_files: usize,
    pub total_bytes: usize,
}

/// What the caller owes after a worker's ending was delivered.
#[derive(Debug, Clone, PartialEq, Eq)]
pub struct Verdict {
    /// Raise the cancellation signal for the workers still running.
    pub cancel: bool,
    /// Hand this to the reporter.
    pub report: Option<Report>,
}

/// What the caller does next.
#[derive(Debug, PartialEq, Eq)]
pub enum Action {
    /// Start a worker for `file`, the descriptor at `index` of the working set.
    Start { index: usize, file: FileResource },
    /// Nothing can start or end the run now: deliver the next worker's ending.
    Wait,
    /// Every worker ended well: write these bytes to the snapshot file and
    /// deliver the result of the write.
    WriteSnapshot(Vec<u8>),
    /// The run is over, with this result.
    Finish(Result<(), Error>),
}

/// An [`Action`] as a mathematical value.
pub enum ActionView {
    Start { index: int, file: FileResource },
    Wait,
    WriteSnapshot(Seq<u8>),
    Finish(Result<(), Error>),
}

impl View for Action {
    type V = ActionView;

    open spec fn view(&self) -> ActionView {
        match *self {
            Action::Start { index, file } => ActionView::Start { index: index as int, file },
            Action::Wait => ActionView::Wait,
            Action::WriteSnapshot(bytes) => ActionView::WriteSnapshot(bytes@),
            Action::Finish(result) => ActionView::Finish(result),
        }
    }
}

/// The stage of a run.
#[derive(Debug, PartialEq, Eq)]
pub enum Phase {
    /// Workers are being admitted or awaited.
    Active,
    /// Every worker ended well and the snapshot is being written.
    Snapshot,
    /// Over, with this result.
    Finished(Result<(), Error>),
}

/// The number of workers of `slots` that are running.
pub open spec fn running(slots: Seq<Slot>) -> nat
    decreases slots.len(),
{
    if slots.len() == 0 {
        0
    } else {
        running(slots.drop_last()) + if slots.last() is Running { 1nat } else { 0nat }
    }
}

/// Every worker of `slots` ended without an error.
pub open spec fn all_done(slots: Seq<Slot>) -> bool {
    forall|i: int| 0 <= i < slots.len() ==> slots[i] is Done
}

/// Some worker of `slots` ended with an error.
pub open spec fn any_failed(slots: Seq<Slot>) -> bool {
    exists|i: int| 0 <= i < slots.len() && slots[i] is Failed
}

/// `k` is where awaiting the workers in start order stops: every worker
/// before `k` ended without an error, and `k` is past the last worker or the
/// worker at `k` did not.
pub open spec fn is_join_point(slots: Seq<Slot>, k: int) -> bool {
    &&& 0 <= k <= slots.len()
    &&& forall|i: int| 0 <= i < k ==> slots[i] is Done
    &&& k < slots.len() ==> !(slots[k] is Done)
}

/// The first index at or after `from` whose worker did not end well, or the
/// number of workers where there is none.
pub open spec fn join_point_from(slots: Seq<Slot>, from: int) -> int
    decreases slots.len() - from,
{
    if 0 <= from < slots.len() && slots[from] is Done {
        join_point_from(slots, from + 1)
    } else {
        from
    }
}

/// Where awaiting the workers in start order stops.
pub open spec fn join_point(slots: Seq<Slot>) -> int {
    join_point_from(slots, 0)
}

/// A run as a mathematical value.
#[verifier::ext_equal]
pub struct RunState {
    /// The working set: the downloadable descriptors, in manifest order.
    pub files: Seq<FileResource>,
    /// The byte total handed to every report.
    pub total_bytes: usize,
    /// The concurrency limit.
    pub limit: usize,
    /// Whether the cancellation signal was raised.
    pub cancelled: bool,
    /// One slot for each worker started, in start order: the worker of
    /// `slots[i]` fetches `files[i]`.
    pub slots: Seq<Slot>,
    /// The bytes to write after a run in which every worker ended well.
    pub snapshot: Option<Seq<u8>>,
    pub phase: Phase,
}

impl RunState {
    /// The run before anything started.
    pub open spec fn initial(
        files: Seq<FileResource>,
        limit: usize,
        snapshot: Option<Seq<u8>>,
    ) -> RunState {
        RunState {
            files,
            total_bytes: total_size(files) as usize,
            limit,
            cancelled: false,
            slots: Seq::empty(),
            snapshot,
            phase: Phase::Active,
        }
    }

    /// The workers that hold an admission slot.
    pub open spec fn in_flight(self) -> nat {
        running(self.slots)
    }

    /// Descriptors are still to be admitted: some are left and the
    /// cancellation signal was not raised.
    pub open spec fn admitting(self) -> bool {
        !self.cancelled && self.slots.len() < self.files.len()
    }

    /// What holds of every run that [`RunState::initial`] and the three
    /// transitions can reach.
    pub open spec fn inv(self) -> bool {
        &&& self.files.len() <= usize::MAX
        &&& self.slots.len() <= self.files.len()
        &&& self.in_flight() <= self.limit
        &&& self.total_bytes == total_size(self.files)
        &&& forall|i: int| 0 <= i < self.files.len() ==> (#[trigger] self.files[i]).downloadable()
        &&& self.cancelled ==> any_failed(self.slots)
        &&& self.phase is Snapshot ==> self.snapshot is Some
        &&& self.phase is Snapshot || self.phase == Phase::Finished(Ok(())) ==> all_done(self.slots)
            && self.slots.len() == self.files.len()
        &&& self.phase matches Phase::Finished(Err(_)) ==> any_failed(self.slots) || (all_done(
            self.slots,
        ) && self.slots.len() == self.files.len() && self.snapshot is Some)
    }

    /// The report owed for the worker at `index` when it ended with `status`.
    pub open spec fn report_for(self, index: int, status: Status) -> Report {
        Report {
            file: self.files[index],
            status,
            total_files: self.files.len() as usize,
            total_bytes: self.total_bytes,
        }
    }

    /// The next action and the run after it.
    ///
    /// While descriptors are to be admitted, the next one starts if a slot is
    /// free, and the run waits if none is. After that the workers are awaited
    /// in start order: the first error found is the result of the run; if all
    /// ended well the snapshot, where there is one, is written and the result
    /// is `Ok`.
    pub open spec fn poll(self) -> (RunState, ActionView) {
        match self.phase {
            Phase::Finished(result) => (self, ActionView::Finish(result)),
            Phase::Snapshot => match self.snapshot {
                Some(raw) => (self, ActionView::WriteSnapshot(raw)),
                None => (self, ActionView::Wait),
            },
            Phase::Active => if self.admitting() {
                if self.in_flight() < self.limit {
                    (
                        RunState { slots: self.slots.push(Slot::Running), ..self },
                        ActionView::Start {
                            index: self.slots.len() as int,
                            file: self.files[self.slots.len() as int],
                        },
                    )
                } else {
                    (self, ActionView::Wait)
                }
            } else {
                let k = join_point(self.slots);
                if k < self.slots.len() {
                    match self.slots[k] {
                        Slot::Failed(e) => (
                            RunState { phase: Phase::Finished(Err(e)), ..self },
                            ActionView::Finish(Err(e)),
                        ),
                        _ => (self, ActionView::Wait),
                    }
                } else {
                    match self.snapshot {
                        Some(raw) => (
                            RunState { phase: Phase::Snapshot, ..self },
                            ActionView::WriteSnapshot(raw),
                        ),
                        None => (
                            RunState { phase: Phase::Finished(Ok(())), ..self },
                            ActionView::Finish(Ok(())),
                        ),
                    }
                }
            },
        }
    }

    /// The run after the worker at `index` ended with `ending`, and what the
    /// caller owes for it.
    ///
    /// Only a running worker can end. It gives its slot back. A failed fetch
    /// raises the cancellation signal and is not reported; a worker that
    /// stopped without a result fails with an internal error and is not
    /// reported; every other ending is reported with its status.
    pub open spec fn worker_ended(self, index: int, ending: Ending) -> (RunState, Verdict) {
        if 0 <= index < self.slots.len() && self.slots[index] is Running {
            match ending {
                Ending::CancelWon => (
                    RunState { slots: self.slots.update(index, Slot::Done), ..self },
                    Verdict {
                        cancel: false,
                        report: Some(self.report_for(index, Status::Cancelled)),
                    },
                ),
                Ending::Fetched(Ok(status)) => (
                    RunState { slots: self.slots.update(index, Slot::Done), ..self },
                    Verdict { cancel: false, report: Some(self.report_for(index, status)) },
                ),
                Ending::Fetched(Err(e)) => (
                    RunState {
                        slots: self.slots.update(index, Slot::Failed(e)),
                        cancelled: true,
                        ..self
                    },
                    Verdict { cancel: true, report: None },
                ),
                Ending::Crashed(message) => (
                    RunState {
                        slots: self.slots.update(index, Slot::Failed(Error::InternalError(message))),
                        ..self
                    },
                    Verdict { cancel: false, report: None },
                ),
            }
        } else {
            (self, Verdict { cancel: false, report: None })
        }
    }

    /// The run after the snapshot write ended with `result`: over, with that
    /// result. Outside the snapshot stage nothing changes.
    pub open spec fn snapshot_written(self, result: Result<(), Error>) -> RunState {
        if self.phase is Snapshot {
            RunState { phase: Phase::Finished(result), ..self }
        } else {
            self
        }
    }
}


/// Appending a worker adds it to the running ones exactly if it is running.
pub proof fn lemma_running_push(slots: Seq<Slot>, slot: Slot)
    ensures
        running(slots.push(slot)) == running(slots) + if slot is Running { 1nat } else { 0nat },
{
    assert(slots.push(slot).drop_last() =~= slots);
}

/// Replacing one worker's slot changes the running count by that worker alone.
pub proof fn lemma_running_update(slots: Seq<Slot>, index: int, slot: Slot)
    requires
        0 <= index < slots.len(),
    ensures
        running(slots.update(index, slot)) + (if slots[index] is Running { 1nat } else { 0nat })
            == running(slots) + if slot is Running { 1nat } else { 0nat },
    decreases slots.len(),
{
    let updated = slots.update(index, slot);
    if index == slots.len() - 1 {
        assert(updated.drop_last() =~= slots.drop_last());
    } else {
        assert(updated.drop_last() =~= slots.drop_last().update(index, slot));
        lemma_running_update(slots.drop_last(), index, slot);
    }
}

/// A running worker is counted.
pub proof fn lemma_running_positive(slots: Seq<Slot>, index: int)
    requires
        0 <= index < slots.len(),
        slots[index] is Running,
    ensures
        running(slots) > 0,
    decreases slots.len(),
{
    if index < slots.len() - 1 {
        lemma_running_positive(slots.drop_last(), index);
    }
}

/// The scan from `from` stops at or after `from`, passes only workers that
/// ended well, and stops at one that did not or past the last.
pub proof fn lemma_join_point_from(slots: Seq<Slot>, from: int)
    requires
        0 <= from <= slots.len(),
    ensures
        from <= join_point_from(slots, from) <= slots.len(),
        forall|i: int| from <= i < join_point_from(slots, from) ==> slots[i] is Done,
        join_point_from(slots, from) < slots.len() ==> !(slots[join_point_from(slots, from)] is Done),
    decreases slots.len() - from,
{
    if from < slots.len() && slots[from] is Done {
        lemma_join_point_from(slots, from + 1);
    }
}

/// The join point is the one index that [`is_join_point`] describes.
pub proof fn lemma_join_point_unique(slots: Seq<Slot>, k: int)
    requires
        is_join_point(slots, k),
    ensures
        join_point(slots) == k,
        is_join_point(slots, join_point(slots)),
{
    lemma_join_point_from(slots, 0);
    let j = join_point(slots);
    if j < k {
        assert(slots[j] is Done);
    } else if k < j {
        assert(slots[k] is Done);
    }
}

/// A failed worker stays among the slots when another worker's slot changes.
pub proof fn lemma_failure_stays(slots: Seq<Slot>, index: int, slot: Slot)
    requires
        0 <= index < slots.len(),
        any_failed(slots),
        !(slots[index] is Failed),
    ensures
        any_failed(slots.update(index, slot)),
{
    let j = choose|j: int| 0 <= j < slots.len() && slots[j] is Failed;
    assert(slots.update(index, slot)[j] is Failed);
}

impl RunState {
    /// The first run satisfies the invariant.
    pub proof fn lemma_initial_inv(files: Seq<FileResource>, limit: usize, snapshot: Option<Seq<u8>>)
        requires
            files.len() <= usize::MAX,
        ensures
            RunState::initial(downloadable_of(files), limit, snapshot).inv(),
    {
        broadcast use vstd::seq_lib::group_filter_ensures;

        let kept = downloadable_of(files);
        lemma_total_size_bounds(kept);
        assert forall|i: int| 0 <= i < kept.len() implies (#[trigger] kept[i]).downloadable() by {
            assert(has_source()(kept[i]));
        }
    }

    /// Polling keeps the invariant.
    pub proof fn lemma_poll_inv(self)
        requires
            self.inv(),
        ensures
            self.poll().0.inv(),
    {
        if self.phase is Active {
            if self.admitting() {
                lemma_running_push(self.slots, Slot::Running);
            } else {
                lemma_join_point_from(self.slots, 0);
                let k = join_point(self.slots);
                if k < self.slots.len() {
                    if self.slots[k] is Failed {
                        assert(any_failed(self.slots));
                    }
                } else {
                    if self.cancelled {
                        let j = choose|j: int| 0 <= j < self.slots.len() && self.slots[j] is Failed;
                        assert(self.slots[j] is Done);
                    }
                }
            }
        }
    }

    /// Delivering a worker's ending keeps the invariant.
    pub proof fn lemma_worker_ended_inv(self, index: int, ending: Ending)
        requires
            self.inv(),
        ensures
            self.worker_ended(index, ending).0.inv(),
    {
        if 0 <= index < self.slots.len() && self.slots[index] is Running {
            let next = self.worker_ended(index, ending).0;
            lemma_running_update(self.slots, index, next.slots[index]);
            assert(next.slots =~= self.slots.update(index, next.slots[index]));
            if any_failed(self.slots) {
                lemma_failure_stays(self.slots, index, next.slots[index]);
            }
            if next.slots[index] is Failed {
                assert(any_failed(next.slots));
            }
        }
    }

    /// Delivering the result of the snapshot write keeps the invariant.
    pub proof fn lemma_snapshot_written_inv(self, result: Result<(), Error>)
        requires
            self.inv(),
        ensures
            self.snapshot_written(result).inv(),
    {
    }
}

fn copy_result(result: &Result<(), Error>) -> (copy: Result<(), Error>)
    ensures
        copy == *result,
{
    match result {
        Ok(unit) => Ok(*unit),
        Err(e) => Err(e.duplicate()),
    }
}

fn copy_bytes(bytes: &Vec<u8>) -> (copy: Vec<u8>)
    ensures
        copy@ == bytes@,
{
    let mut copy: Vec<u8> = Vec::new();
    let mut i: usize = 0;
    while i < bytes.len()
        invariant
            i <= bytes.len(),
            copy@ == bytes@.take(i as int),
        decreases bytes.len() - i,
    {
        copy.push(bytes[i]);
        proof {
            assert(bytes@.take(i + 1) =~= bytes@.take(i as int).push(bytes@[i as int]));
        }
        i = i + 1;
    }
    proof {
        assert(bytes@.take(bytes.len() as int) =~= bytes@);
    }
    copy
}

/// The bytes of an optional buffer.
pub open spec fn bytes_of(buffer: Option<Vec<u8>>) -> Option<Seq<u8>> {
    match buffer {
        Some(bytes) => Some(bytes@),
        None => None,
    }
}

/// A synchronisation run: the working set, the admission gate, the
/// cancellation signal and the state of every worker started.
///
/// The caller asks [`SyncRun::poll`] what to do, does it, and delivers what
/// happened with [`SyncRun::worker_ended`] and [`SyncRun::snapshot_written`].
#[derive(Debug)]
pub struct SyncRun {
    files: Vec<FileResource>,
    total_bytes: usize,
    gate: AdmissionGate,
    cancelled: bool,
    slots: Vec<Slot>,
    /// Workers before this index are known to have ended well.
    joined: usize,
    snapshot: Option<Vec<u8>>,
    phase: Phase,
}

impl View for SyncRun {
    type V = RunState;

    closed spec fn view(&self) -> RunState {
        RunState {
            files: self.files@,
            total_bytes: self.total_bytes,
            limit: self.gate.limit(),
            cancelled: self.cancelled,
            slots: self.slots@,
            snapshot: bytes_of(self.snapshot),
            phase: self.phase,
        }
    }
}

impl SyncRun {
    /// The run is one that [`SyncRun::plan`] and its methods can produce.
    pub closed spec fn wf(&self) -> bool {
        &&& self@.inv()
        &&& self.gate.held() == running(self.slots@)
        &&& self.joined <= self.slots@.len()
        &&& forall|i: int| 0 <= i < self.joined ==> self.slots@[i] is Done
    }

    /// A well-formed run satisfies the invariant of its model.
    pub proof fn lemma_wf_inv(&self)
        requires
            self.wf(),
        ensures
            self@.inv(),
    {
    }

    /// Plans a run over the downloadable descriptors of `files`, with at most
    /// `concurrency` workers at a time, and `snapshot` to write if all of
    /// them end well.
    pub fn plan(files: &Vec<FileResource>, concurrency: usize, snapshot: Option<Vec<u8>>) -> (run:
        SyncRun)
        ensures
            run.wf(),
            run@ == RunState::initial(downloadable_of(files@), concurrency, bytes_of(snapshot)),
    {
        let kept = retain_downloadable(files);
        let total_bytes: usize = sum_sizes(&kept);
        let run = SyncRun {
            files: kept,
            total_bytes,
            gate: AdmissionGate::new(concurrency),
            cancelled: false,
            slots: Vec::new(),
            joined: 0,
            snapshot,
            phase: Phase::Active,
        };
        proof {
            assert(files.len() <= usize::MAX);
            RunState::lemma_initial_inv(files@, concurrency, bytes_of(snapshot));
            assert(run@ =~= RunState::initial(
                downloadable_of(files@),
                concurrency,
                bytes_of(snapshot),
            ));
        }
        run
    }

    /// The number of descriptors in the working set.
    pub fn total_files(&self) -> (n: usize)
        ensures
            n == self@.files.len(),
    {
        self.files.len()
    }

    /// The byte total of the working set.
    pub fn total_bytes(&self) -> (n: usize)
        ensures
            n == self@.total_bytes,
    {
        self.total_bytes
    }

    /// Whether the cancellation signal was raised.
    pub fn is_cancelled(&self) -> (b: bool)
        ensures
            b == self@.cancelled,
    {
        self.cancelled
    }

    /// The number of workers that hold an admission slot.
    pub fn in_flight(&self) -> (n: usize)
        requires
            self.wf(),
        ensures
            n == self@.in_flight(),
            n <= self@.limit,
    {
        self.gate.in_use()
    }

    /// Decides the next action. See [`RunState::poll`].
    pub fn poll(&mut self) -> (action: Action)
        requires
            old(self).wf(),
        ensures
            final(self).wf(),
            final(self)@ == old(self)@.poll().0,
            action@ == old(self)@.poll().1,
    {
        proof {
            self@.lemma_poll_inv();
        }
        match &self.phase {
            Phase::Finished(result) => {
                return Action::Finish(copy_result(result));
            },
            Phase::Snapshot => {
                match &self.snapshot {
                    Some(raw) => {
                        return Action::WriteSnapshot(copy_bytes(raw));
                    },
                    None => {
                        return Action::Wait;
                    },
                }
            },
            Phase::Active => {},
        }
        if !self.cancelled && self.slots.len() < self.files.len() {
            if self.gate.try_acquire() {
                let index: usize = self.slots.len();
                proof {
                    lemma_running_push(self.slots@, Slot::Running);
                }
                self.slots.push(Slot::Running);
                let file = self.files[index].duplicate();
                proof {
                    assert(final(self)@ =~= old(self)@.poll().0);
                }
                return Action::Start { index, file };
            }
            return Action::Wait;
        }
        proof {
            lemma_join_point_from(self.slots@, self.joined as int);
        }
        while self.joined < self.slots.len() && matches!(self.slots[self.joined], Slot::Done)
            invariant
                self.joined <= self.slots@.len(),
                forall|i: int| 0 <= i < self.joined ==> self.slots@[i] is Done,
                self.slots == old(self).slots,
                self.files == old(self).files,
                self.total_bytes == old(self).total_bytes,
                self.gate == old(self).gate,
                self.cancelled == old(self).cancelled,
                self.snapshot == old(self).snapshot,
                self.phase == old(self).phase,
            decreases self.slots@.len() - self.joined,
        {
            self.joined = self.joined + 1;
        }
        proof {
            lemma_join_point_unique(self.slots@, self.joined as int);
        }
        if self.joined < self.slots.len() {
            match &self.slots[self.joined] {
                Slot::Failed(e) => {
                    let error = e.duplicate();
                    self.phase = Phase::Finished(Err(error.duplicate()));
                    proof {
                        assert(final(self)@ =~= old(self)@.poll().0);
                    }
                    Action::Finish(Err(error))
                },
                _ => Action::Wait,
            }
        } else {
            match &self.snapshot {
                Some(raw) => {
                    let bytes = copy_bytes(raw);
                    self.phase = Phase::Snapshot;
                    proof {
                        assert(final(self)@ =~= old(self)@.poll().0);
                    }
                    Action::WriteSnapshot(bytes)
                },
                None => {
                    self.phase = Phase::Finished(Ok(()));
                    proof {
                        assert(final(self)@ =~= old(self)@.poll().0);
                    }
                    Action::Finish(Ok(()))
                },
            }
        }
    }

    /// Delivers the ending of the worker at `index`. See
    /// [`RunState::worker_ended`].
    pub fn worker_ended(&mut self, index: usize, ending: Ending) -> (verdict: Verdict)
        requires
            old(self).wf(),
        ensures
            final(self).wf(),
            final(self)@ == old(self)@.worker_ended(index as int, ending).0,
            verdict == old(self)@.worker_ended(index as int, ending).1,
    {
        if index >= self.slots.len() || !matches!(self.slots[index], Slot::Running) {
            return Verdict { cancel: false, report: None };
        }
        proof {
            lemma_running_positive(self.slots@, index as int);
            self@.lemma_worker_ended_inv(index as int, ending);
        }
        self.gate.release();
        match ending {
            Ending::CancelWon => {
                proof {
                    lemma_running_update(self.slots@, index as int, Slot::Done);
                }
                self.slots.set(index, Slot::Done);
                let report = Report {
                    file: self.files[index].duplicate(),
                    status: Status::Cancelled,
                    total_files: self.files.len(),
                    total_bytes: self.total_bytes,
                };
                proof {
                    assert(final(self)@ =~= old(self)@.worker_ended(index as int, ending).0);
                }
                Verdict { cancel: false, report: Some(report) }
            },
            Ending::Fetched(Ok(status)) => {
                proof {
                    lemma_running_update(self.slots@, index as int, Slot::Done);
                }
                self.slots.set(index, Slot::Done);
                let report = Report {
                    file: self.files[index].duplicate(),
                    status,
                    total_files: self.files.len(),
                    total_bytes: self.total_bytes,
                };
                proof {
                    assert(final(self)@ =~= old(self)@.worker_ended(index as int, ending).0);
                }
                Verdict { cancel: false, report: Some(report) }
            },
            Ending::Fetched(Err(e)) => {
                proof {
                    lemma_running_update(self.slots@, index as int, Slot::Failed(e));
                }
                self.slots.set(index, Slot::Failed(e));
                self.cancelled = true;
                proof {
                    assert(final(self)@ =~= old(self)@.worker_ended(index as int, ending).0);
                    assert(final(self).slots@[index as int] is Failed);
                }
                Verdict { cancel: true, report: None }
            },
            Ending::Crashed(message) => {
                proof {
                    lemma_running_update(
                        self.slots@,
                        index as int,
                        Slot::Failed(Error::InternalError(message)),
                    );
                }
                self.slots.set(index, Slot::Failed(Error::InternalError(message)));
                proof {
                    assert(final(self)@ =~= old(self)@.worker_ended(index as int, ending).0);
                    assert(final(self).slots@[index as int] is Failed);
                }
                Verdict { cancel: false, report: None }
            },
        }
    }

    /// Delivers the result of the snapshot write. See
    /// [`RunState::snapshot_written`].
    pub fn snapshot_written(&mut self, result: Result<(), Error>)
        requires
            old(self).wf(),
        ensures
            final(self).wf(),
            final(self)@ == old(self)@.snapshot_written(result),
    {
        if matches!(self.phase, Phase::Snapshot) {
            self.phase = Phase::Finished(result);
            proof {
                assert(final(self)@ =~= old(self)@.snapshot_written(result));
            }
        }
    }
}

} // verus!
