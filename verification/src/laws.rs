use vstd::prelude::*;
use crate::digest::content_checksum;
use crate::error::Error;
use crate::fetch::{cache_hit, fetch_step, FetchAction, FetchEvent, FetchPhase};
use crate::manifest::{BinaryAttempt, ManifestSource};
use crate::reporter::Status;
use crate::resources::{downloadable_of, size_sum, total_size, word_modulus, FileResource};
use crate::sync::{
    all_done, any_failed, bytes_of, is_join_point, join_point, lemma_join_point_from,
    lemma_running_positive, ActionView, Ending, Phase, RunState, Slot, Verdict,
};

verus! {

/// The positions in `files` of the descriptors that name a source, ascending.
spec fn source_positions(files: Seq<FileResource>) -> Seq<int>
    decreases files.len(),
{
    if files.len() == 0 {
        Seq::empty()
    } else {
        let before = source_positions(files.drop_last());
        if files.last().downloadable() {
            before.push(files.len() - 1)
        } else {
            before
        }
    }
}

/// `kept` is `files` at the positions `at`, and those are the positions of
/// the descriptors that name a source, in ascending order.
pub open spec fn keeps_sources_in_order(
    files: Seq<FileResource>,
    kept: Seq<FileResource>,
    at: Seq<int>,
) -> bool {
    &&& at.len() == kept.len()
    &&& forall|i: int|
        0 <= i < kept.len() ==> 0 <= #[trigger] at[i] < files.len() && kept[i] == files[at[i]]
    &&& forall|i: int, j: int| 0 <= i < j < at.len() ==> at[i] < at[j]
    &&& forall|p: int|
        0 <= p < files.len() && (#[trigger] files[p]).downloadable() ==> at.contains(p)
}

proof fn lemma_source_positions(files: Seq<FileResource>)
    ensures
        keeps_sources_in_order(files, downloadable_of(files), source_positions(files)),
        forall|i: int|
            0 <= i < downloadable_of(files).len() ==> (#[trigger] downloadable_of(
                files,
            )[i]).downloadable(),
    decreases files.len(),
{
    reveal(Seq::filter);
    let at = source_positions(files);
    if files.len() > 0 {
        let shorter = files.drop_last();
        lemma_source_positions(shorter);
        let at_before = source_positions(shorter);
        assert forall|p: int| 0 <= p < files.len() && (#[trigger] files[p]).downloadable() implies at.contains(
            p,
        ) by {
            if p < files.len() - 1 {
                assert(shorter[p].downloadable());
                let i = choose|i: int| 0 <= i < at_before.len() && at_before[i] == p;
                assert(at[i] == p);
            } else {
                assert(at[at.len() - 1] == p);
            }
        }
    }
}

/// Filtering keeps the descriptors that name a source, all of them and no
/// other, in the order in which the manifest lists them.
pub proof fn lemma_filter_keeps_sources_in_order(files: Seq<FileResource>)
    ensures
        forall|i: int|
            0 <= i < downloadable_of(files).len() ==> (#[trigger] downloadable_of(
                files,
            )[i]).downloadable(),
        exists|at: Seq<int>| keeps_sources_in_order(files, downloadable_of(files), at),
{
    lemma_source_positions(files);
}

/// Where no size is negative and the sum of the sizes fits a machine word,
/// the byte total of a run is that sum.
pub proof fn lemma_total_is_plain_sum(files: Seq<FileResource>)
    requires
        forall|i: int| 0 <= i < files.len() ==> (#[trigger] files[i]).size >= 0,
        size_sum(files) <= usize::MAX,
    ensures
        total_size(files) == size_sum(files),
{
    lemma_sizes_are_not_negative(files);
    vstd::arithmetic::div_mod::lemma_small_mod(size_sum(files) as nat, word_modulus() as nat);
}

proof fn lemma_sizes_are_not_negative(files: Seq<FileResource>)
    requires
        forall|i: int| 0 <= i < files.len() ==> (#[trigger] files[i]).size >= 0,
    ensures
        size_sum(files) >= 0,
    decreases files.len(),
{
    if files.len() > 0 {
        let shorter = files.drop_last();
        assert forall|i: int| 0 <= i < shorter.len() implies (#[trigger] shorter[i]).size >= 0 by {
            assert(shorter[i] == files[i]);
        }
        lemma_sizes_are_not_negative(shorter);
    }
}

/// The actions that a worker for `file` answers `events` with, one for each
/// event, starting in `phase`.
pub open spec fn fetch_actions(file: FileResource, phase: FetchPhase, events: Seq<FetchEvent>) -> Seq<
    FetchAction,
>
    decreases events.len(),
{
    if events.len() == 0 {
        Seq::empty()
    } else {
        let step = fetch_step(file, phase, events.first());
        seq![step.1] + fetch_actions(file, step.0, events.drop_first())
    }
}

/// A worker that ended answers every event with its result.
pub proof fn lemma_ended_worker_repeats(
    file: FileResource,
    result: Result<Status, Error>,
    events: Seq<FetchEvent>,
)
    ensures
        fetch_actions(file, FetchPhase::Ended(result), events).len() == events.len(),
        forall|i: int|
            0 <= i < events.len() ==> #[trigger] fetch_actions(
                file,
                FetchPhase::Ended(result),
                events,
            )[i] == FetchAction::Finish(result),
    decreases events.len(),
{
    if events.len() > 0 {
        lemma_ended_worker_repeats(file, result, events.drop_first());
    }
}

/// A local file whose checksum is the descriptor's is skipped: whatever is
/// delivered after its content, the worker asks for nothing, so no request is
/// made, and its result is `Skipped`. This holds of a second run over files
/// that a first run left current.
pub proof fn lemma_current_file_is_skipped(
    file: FileResource,
    content: Vec<u8>,
    later: Seq<FetchEvent>,
)
    requires
        content_checksum(content@) == file.sum@,
    ensures
        fetch_step(file, FetchPhase::Checking, FetchEvent::LocalRead(Some(content))) == (
            FetchPhase::Ended(Ok(Status::Skipped)),
            FetchAction::Finish(Ok(Status::Skipped)),
        ),
        forall|i: int|
            0 <= i <= later.len() ==> #[trigger] fetch_actions(
                file,
                FetchPhase::Checking,
                seq![FetchEvent::LocalRead(Some(content))] + later,
            )[i] == FetchAction::Finish(Ok(Status::Skipped)),
{
    let events = seq![FetchEvent::LocalRead(Some(content))] + later;
    assert(events.first() == FetchEvent::LocalRead(Some(content)));
    assert(events.drop_first() =~= later);
    assert(cache_hit(file, Some(content)));
    lemma_ended_worker_repeats(file, Ok(Status::Skipped), later);
}

/// A worker that ended as skipped is reported as skipped, with the
/// descriptor it was started for, and raises no signal.
pub proof fn lemma_skipped_file_is_reported(run: RunState, index: int)
    requires
        run.inv(),
        0 <= index < run.slots.len(),
        run.slots[index] is Running,
    ensures
        run.worker_ended(index, Ending::Fetched(Ok(Status::Skipped))).1 == (Verdict {
            cancel: false,
            report: Some(run.report_for(index, Status::Skipped)),
        }),
        run.worker_ended(index, Ending::Fetched(Ok(Status::Skipped))).0.slots[index] is Done,
{
}

/// A local file that is missing, unreadable, or of another checksum than the
/// descriptor's is fetched again: the worker asks for the descriptor's URL.
pub proof fn lemma_stale_file_is_refetched(file: FileResource, local: Option<Vec<u8>>)
    requires
        local matches Some(content) ==> content_checksum(content@) != file.sum@,
    ensures
        fetch_step(file, FetchPhase::Checking, FetchEvent::LocalRead(local)) == (
            FetchPhase::Fetching,
            FetchAction::Get { url: file.url },
        ),
{
}

/// A worker that has left the checking phase makes no request, whatever is
/// delivered to it.
pub proof fn lemma_no_request_after_checking(
    file: FileResource,
    phase: FetchPhase,
    events: Seq<FetchEvent>,
)
    requires
        !(phase is Checking),
    ensures
        fetch_actions(file, phase, events).len() == events.len(),
        forall|i: int|
            0 <= i < events.len() ==> !(#[trigger] fetch_actions(file, phase, events)[i] is Get),
    decreases events.len(),
{
    if events.len() > 0 {
        let step = fetch_step(file, phase, events.first());
        lemma_no_request_after_checking(file, step.0, events.drop_first());
    }
}

/// Nothing is retried: whatever is delivered to a worker, it asks for its
/// URL at most once.
pub proof fn lemma_at_most_one_request(file: FileResource, events: Seq<FetchEvent>)
    ensures
        fetch_actions(file, FetchPhase::Checking, events).len() == events.len(),
        forall|i: int, j: int|
            0 <= i < j < events.len() ==> !(fetch_actions(file, FetchPhase::Checking, events)[i]
                is Get && fetch_actions(file, FetchPhase::Checking, events)[j] is Get),
    decreases events.len(),
{
    if events.len() > 0 {
        let step = fetch_step(file, FetchPhase::Checking, events.first());
        let rest = events.drop_first();
        if step.0 is Checking {
            lemma_at_most_one_request(file, rest);
        } else {
            lemma_no_request_after_checking(file, step.0, rest);
        }
    }
}

/// What can happen to a run.
pub enum RunEvent {
    /// The caller asked for the next action.
    Polled,
    /// The worker at `index` ended.
    WorkerEnded { index: int, ending: Ending },
    /// The snapshot write ended.
    SnapshotWritten(Result<(), Error>),
}

/// The run after `event`.
pub open spec fn after(run: RunState, event: RunEvent) -> RunState {
    match event {
        RunEvent::Polled => run.poll().0,
        RunEvent::WorkerEnded { index, ending } => run.worker_ended(index, ending).0,
        RunEvent::SnapshotWritten(result) => run.snapshot_written(result),
    }
}

/// The run after `events`, in their order.
pub open spec fn after_all(run: RunState, events: Seq<RunEvent>) -> RunState
    decreases events.len(),
{
    if events.len() == 0 {
        run
    } else {
        after(after_all(run, events.drop_last()), events.last())
    }
}

/// `later` is `run` some events on: the invariant holds, the working set,
/// the totals, the limit and the snapshot are the same, no worker has been
/// forgotten, a raised signal is still raised, and a worker that had ended
/// has the same slot.
pub open spec fn continues(run: RunState, later: RunState) -> bool {
    &&& later.inv()
    &&& later.files == run.files
    &&& later.total_bytes == run.total_bytes
    &&& later.limit == run.limit
    &&& later.snapshot == run.snapshot
    &&& later.slots.len() >= run.slots.len()
    &&& run.cancelled ==> later.cancelled && later.slots.len() == run.slots.len()
    &&& forall|i: int|
        0 <= i < run.slots.len() && !(run.slots[i] is Running) ==> #[trigger] later.slots[i]
            == run.slots[i]
}

proof fn lemma_step_continues(run: RunState, event: RunEvent)
    requires
        run.inv(),
    ensures
        continues(run, after(run, event)),
{
    match event {
        RunEvent::Polled => {
            run.lemma_poll_inv();
        },
        RunEvent::WorkerEnded { index, ending } => {
            run.lemma_worker_ended_inv(index, ending);
        },
        RunEvent::SnapshotWritten(result) => {
            run.lemma_snapshot_written_inv(result);
        },
    }
}

/// Whatever happens to a run that satisfies the invariant, it stays one:
/// see [`continues`].
pub proof fn lemma_run_continues(run: RunState, events: Seq<RunEvent>)
    requires
        run.inv(),
    ensures
        continues(run, after_all(run, events)),
    decreases events.len(),
{
    if events.len() > 0 {
        let before = after_all(run, events.drop_last());
        lemma_run_continues(run, events.drop_last());
        lemma_step_continues(before, events.last());
    }
}

/// Every report of a run carries the totals that were computed when the run
/// was planned: the number of descriptors in the working set and their byte
/// total, whatever happened since.
pub proof fn lemma_reports_carry_the_totals(
    files: Seq<FileResource>,
    limit: usize,
    snapshot: Option<Seq<u8>>,
    events: Seq<RunEvent>,
    index: int,
    ending: Ending,
)
    requires
        files.len() <= usize::MAX,
    ensures
        after_all(
            RunState::initial(downloadable_of(files), limit, snapshot),
            events,
        ).worker_ended(index, ending).1.report matches Some(report) ==> {
            &&& report.total_files == downloadable_of(files).len()
            &&& report.total_bytes == total_size(downloadable_of(files))
            &&& 0 <= index < downloadable_of(files).len()
            &&& report.file == downloadable_of(files)[index]
        },
{
    RunState::lemma_initial_inv(files, limit, snapshot);
    lemma_run_continues(RunState::initial(downloadable_of(files), limit, snapshot), events);
}

/// Every worker that ended in `events` was skipped.
pub open spec fn all_skipped(events: Seq<RunEvent>) -> bool {
    forall|k: int|
        0 <= k < events.len() ==> (#[trigger] events[k] matches RunEvent::WorkerEnded {
            ending,
            ..
        } ==> ending == Ending::Fetched(Ok(Status::Skipped)))
}

/// A run over files that are all current, so that every worker is skipped,
/// never raises the cancellation signal and has no failed worker; each
/// worker that ends is reported as skipped.
pub proof fn lemma_run_over_current_files(
    files: Seq<FileResource>,
    limit: usize,
    snapshot: Option<Seq<u8>>,
    events: Seq<RunEvent>,
)
    requires
        files.len() <= usize::MAX,
        all_skipped(events),
    ensures
        ({
            let later = after_all(
                RunState::initial(downloadable_of(files), limit, snapshot),
                events,
            );
            &&& later.inv()
            &&& !later.cancelled
            &&& !any_failed(later.slots)
            &&& forall|index: int|
                0 <= index < later.slots.len() && later.slots[index] is Running
                    ==> #[trigger] later.worker_ended(
                    index,
                    Ending::Fetched(Ok(Status::Skipped)),
                ).1 == (Verdict {
                    cancel: false,
                    report: Some(later.report_for(index, Status::Skipped)),
                })
        }),
    decreases events.len(),
{
    let run = RunState::initial(downloadable_of(files), limit, snapshot);
    RunState::lemma_initial_inv(files, limit, snapshot);
    lemma_run_continues(run, events);
    if events.len() > 0 {
        let earlier = events.drop_last();
        assert forall|k: int| 0 <= k < earlier.len() implies (#[trigger] earlier[k] matches RunEvent::WorkerEnded {
            ending,
            ..
        } ==> ending == Ending::Fetched(Ok(Status::Skipped))) by {
            assert(earlier[k] == events[k]);
        }
        lemma_run_over_current_files(files, limit, snapshot, earlier);
        let before = after_all(run, earlier);
        let later = after(before, events.last());
        assert(events[events.len() - 1] == events.last());
        if any_failed(later.slots) {
            let j = choose|j: int| 0 <= j < later.slots.len() && later.slots[j] is Failed;
            if j < before.slots.len() {
                assert(!(before.slots[j] is Failed));
            }
        }
    }
}

/// At no point of a run do more workers hold an admission slot than the
/// concurrency limit allows.
pub proof fn lemma_concurrency_bound(
    files: Seq<FileResource>,
    limit: usize,
    snapshot: Option<Seq<u8>>,
    events: Seq<RunEvent>,
)
    requires
        files.len() <= usize::MAX,
    ensures
        after_all(RunState::initial(downloadable_of(files), limit, snapshot), events).in_flight()
            <= limit,
{
    RunState::lemma_initial_inv(files, limit, snapshot);
    lemma_run_continues(RunState::initial(downloadable_of(files), limit, snapshot), events);
}

/// Once the cancellation signal is raised it stays raised, and no further
/// descriptor is admitted: no worker is started, whatever happens.
pub proof fn lemma_cancelled_admits_nothing(run: RunState, events: Seq<RunEvent>)
    requires
        run.inv(),
        run.cancelled,
    ensures
        after_all(run, events).cancelled,
        after_all(run, events).slots.len() == run.slots.len(),
        !(after_all(run, events).poll().1 is Start),
{
    lemma_run_continues(run, events);
}

/// A failed fetch raises the cancellation signal and is not reported. From
/// then on the worker stays failed, and the run cannot end well: it neither
/// writes the snapshot nor finishes with `Ok`.
pub proof fn lemma_failed_fetch_fails_run(
    run: RunState,
    index: int,
    error: Error,
    events: Seq<RunEvent>,
)
    requires
        run.inv(),
        0 <= index < run.slots.len(),
        run.slots[index] is Running,
    ensures
        run.worker_ended(index, Ending::Fetched(Err(error))).1 == (Verdict {
            cancel: true,
            report: None,
        }),
        run.worker_ended(index, Ending::Fetched(Err(error))).0.cancelled,
        ({
            let later = after_all(
                run.worker_ended(index, Ending::Fetched(Err(error))).0,
                events,
            );
            &&& later.cancelled
            &&& later.slots[index] == Slot::Failed(error)
            &&& later.phase != Phase::Finished(Ok(()))
            &&& !(later.poll().1 is Start)
            &&& !(later.poll().1 is WriteSnapshot)
            &&& later.poll().1 != ActionView::Finish(Ok(()))
        }),
{
    let failed = run.worker_ended(index, Ending::Fetched(Err(error))).0;
    run.lemma_worker_ended_inv(index, Ending::Fetched(Err(error)));
    lemma_run_continues(failed, events);
    let later = after_all(failed, events);
    assert(failed.slots[index] == Slot::Failed(error));
    assert(later.slots[index] == Slot::Failed(error));
    lemma_failed_run_cannot_end_well(later, index);
}

/// A run with a failed worker cannot end well.
pub proof fn lemma_failed_run_cannot_end_well(run: RunState, index: int)
    requires
        run.inv(),
        0 <= index < run.slots.len(),
        run.slots[index] is Failed,
    ensures
        run.phase != Phase::Finished(Ok(())),
        !(run.phase is Snapshot),
        !(run.poll().1 is WriteSnapshot),
        run.poll().1 != ActionView::Finish(Ok(())),
{
    lemma_join_point_from(run.slots, 0);
    let k = join_point(run.slots);
    if k > index {
        assert(run.slots[index] is Done);
    }
}

/// The result of a run is the error of the first worker, in start order,
/// that failed; it is `Ok` only if every descriptor of the working set was
/// started and every worker ended without an error.
pub proof fn lemma_result_is_first_failure(run: RunState)
    requires
        run.inv(),
        run.phase is Active,
    ensures
        run.poll().1 matches ActionView::Finish(Err(e)) ==> is_join_point(
            run.slots,
            join_point(run.slots),
        ) && join_point(run.slots) < run.slots.len() && run.slots[join_point(run.slots)]
            == Slot::Failed(e),
        run.poll().1 == ActionView::Finish(Ok(())) || run.poll().1 is WriteSnapshot ==> all_done(
            run.slots,
        ) && run.slots.len() == run.files.len() && !run.cancelled,
{
    lemma_join_point_from(run.slots, 0);
    run.lemma_poll_inv();
    if run.cancelled {
        let j = choose|j: int| 0 <= j < run.slots.len() && run.slots[j] is Failed;
        lemma_failed_run_cannot_end_well(run, j);
    }
}

/// Where exactly one worker failed, the error that the run finishes with is
/// that worker's.
pub proof fn lemma_single_failure_is_the_result(run: RunState, index: int, error: Error)
    requires
        run.inv(),
        run.phase is Active,
        0 <= index < run.slots.len(),
        run.slots[index] == Slot::Failed(error),
        forall|other: int|
            0 <= other < run.slots.len() && other != index ==> !(run.slots[other] is Failed),
    ensures
        run.poll().1 matches ActionView::Finish(result) ==> result == Err::<(), Error>(error),
{
    lemma_result_is_first_failure(run);
    lemma_failed_run_cannot_end_well(run, index);
}

/// Once a worker has failed, admission is over and no worker is running, the
/// run finishes with an error at the next poll.
pub proof fn lemma_failed_run_finishes(run: RunState)
    requires
        run.inv(),
        run.phase is Active,
        !run.admitting(),
        any_failed(run.slots),
        run.in_flight() == 0,
    ensures
        run.poll().1 matches ActionView::Finish(Err(_)),
{
    lemma_join_point_from(run.slots, 0);
    let k = join_point(run.slots);
    let j = choose|j: int| 0 <= j < run.slots.len() && run.slots[j] is Failed;
    if k > j {
        assert(run.slots[j] is Done);
    }
    if run.slots[k] is Running {
        lemma_running_positive(run.slots, k);
    }
}

/// With a limit above zero a run never waits for nothing: when the next
/// action is to wait, some worker is running and its ending will come.
pub proof fn lemma_wait_has_worker(run: RunState)
    requires
        run.inv(),
        run.limit > 0,
        run.poll().1 == ActionView::Wait,
    ensures
        run.in_flight() > 0,
{
    if run.phase is Active && !run.admitting() {
        lemma_join_point_from(run.slots, 0);
        lemma_running_positive(run.slots, join_point(run.slots));
    }
}

/// The snapshot of a manifest that came as a binary document is the body as
/// it was received, byte for byte: that is what the source keeps, what the
/// run planned from it holds throughout, and what it hands out to be
/// written; and it hands it out only after every descriptor was started and
/// every worker ended without an error.
pub proof fn lemma_snapshot_is_the_body(
    body: Vec<u8>,
    text: Vec<u8>,
    files: Seq<FileResource>,
    limit: usize,
    events: Seq<RunEvent>,
)
    requires
        files.len() <= usize::MAX,
    ensures
        ({
            let source = ManifestSource::Binary { canonical: text, raw: body };
            let later = after_all(
                RunState::initial(downloadable_of(files), limit, bytes_of(source.retained())),
                events,
            );
            &&& ManifestSource::resolved(body, BinaryAttempt::Rendered(text)) == Ok::<
                ManifestSource,
                Error,
            >(source)
            &&& later.snapshot == Some(body@)
            &&& later.poll().1 matches ActionView::WriteSnapshot(bytes) ==> bytes == body@
                && all_done(later.slots) && later.slots.len() == later.files.len()
        }),
{
    let run = RunState::initial(downloadable_of(files), limit, Some(body@));
    RunState::lemma_initial_inv(files, limit, Some(body@));
    lemma_run_continues(run, events);
    let later = after_all(run, events);
    later.lemma_poll_inv();
    if later.phase is Active {
        lemma_result_is_first_failure(later);
    }
}

/// A manifest that came as text leaves no snapshot: the source keeps
/// nothing and the run planned from it never asks for a write.
pub proof fn lemma_text_manifest_leaves_no_snapshot(
    body: Vec<u8>,
    files: Seq<FileResource>,
    limit: usize,
    events: Seq<RunEvent>,
)
    requires
        files.len() <= usize::MAX,
    ensures
        ({
            let source = ManifestSource::Text { canonical: body };
            let later = after_all(
                RunState::initial(downloadable_of(files), limit, bytes_of(source.retained())),
                events,
            );
            &&& ManifestSource::resolved(body, BinaryAttempt::NotBinary) == Ok::<
                ManifestSource,
                Error,
            >(source)
            &&& !(later.poll().1 is WriteSnapshot)
        }),
{
    let run = RunState::initial(downloadable_of(files), limit, None);
    RunState::lemma_initial_inv(files, limit, None);
    lemma_run_continues(run, events);
}

} // verus!
