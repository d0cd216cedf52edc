//! A batch of changes to the paths of a watcher comes to the same as the same changes made one by
//! one, whatever the platform says of each path.

use vstd::prelude::*;

use crate::protocol::{Call, Startup};
use crate::watcher::Then;

verus! {

use crate::error::{ErrorKindView, ErrorView};
use crate::laws::answers_left;
use crate::path::components;
use crate::protocol::{AnswerView, StepView};
use crate::watcher::{no_report, no_such_path, pending_calls, start_failure};
use crate::watcher::{stop_calls, unequal, PhaseView, WatcherView};

/// A path to be added or taken away, and what the platform says to each question about it.
pub enum Change {
    Add {
        path: Seq<u8>,
        recursive: bool,
        exists: bool,
        canonical: Result<Seq<u8>, std::io::Error>,
        encoded: Result<usize, usize>,
    },
    Remove {
        path: Seq<u8>,
        encoded: Result<usize, usize>,
        equal: Seq<bool>,
        canonical: Result<Seq<u8>, std::io::Error>,
    },
}

impl Change {
    /// What the platform says in the given phase.
    pub open spec fn answer(self, phase: PhaseView) -> AnswerView {
        match self {
            Change::Add { exists, canonical, encoded, .. } => match phase {
                PhaseView::Exists { .. } => AnswerView::Exists(exists),
                PhaseView::Canonical { .. } => AnswerView::Canonical(canonical),
                _ => AnswerView::Encoded(encoded),
            },
            Change::Remove { encoded, equal, canonical, .. } => match phase {
                PhaseView::Lookup { .. } => AnswerView::Encoded(encoded),
                PhaseView::Compare { .. } => AnswerView::Compared(equal),
                _ => AnswerView::Canonical(canonical),
            },
        }
    }

    /// The watcher with the path added or taken away, as far as what the platform says allows it.
    pub open spec fn applied(self, watcher: WatcherView) -> WatcherView {
        match self {
            Change::Add { recursive, exists, canonical, encoded, .. } => {
                if exists && canonical is Ok && encoded is Ok {
                    WatcherView {
                        paths: watcher.paths.push(encoded->Ok_0),
                        recursive_info: watcher.recursive_info.insert(
                            components(canonical->Ok_0),
                            recursive,
                        ),
                        ..watcher
                    }
                } else {
                    watcher
                }
            },
            Change::Remove { path, encoded, equal, canonical } => {
                if encoded is Ok {
                    WatcherView {
                        paths: unequal(watcher.paths, equal, 0),
                        recursive_info: watcher.recursive_info.remove(
                            match canonical {
                                Ok(place) => components(place),
                                Err(_) => components(path),
                            },
                        ),
                        ..watcher
                    }
                } else {
                    watcher
                }
            },
        }
    }

    /// What became of the path.
    pub open spec fn outcome(self, watcher: WatcherView) -> Result<(), ErrorView> {
        match self {
            Change::Add { path, exists, canonical, encoded, .. } => {
                if !exists {
                    Err(no_such_path(path))
                } else {
                    match canonical {
                        Err(error) => Err(ErrorView::of(ErrorKindView::Io(error))),
                        Ok(_) => if encoded is Ok {
                            Ok(())
                        } else {
                            Err(no_such_path(path))
                        },
                    }
                }
            },
            Change::Remove { path, encoded, canonical, .. } => {
                if encoded is Err {
                    Err(ErrorView::of(ErrorKindView::WatchNotFound).with_path(path))
                } else if watcher.recursive_info.dom().contains(
                    match canonical {
                        Ok(place) => components(place),
                        Err(_) => components(path),
                    },
                ) {
                    Ok(())
                } else {
                    Err(ErrorView::of(ErrorKindView::WatchNotFound))
                }
            },
        }
    }
}

/// Where an operation stands once every question about its path is answered, with what it does
/// next.
pub open spec fn path_settled(watcher: WatcherView, step: StepView, change: Change) -> (
    WatcherView,
    StepView,
)
    decreases answers_left(watcher.phase),
{
    if watcher.phase is Idle || watcher.phase is Startup {
        (watcher, step)
    } else {
        let (after, next) = watcher.resume(change.answer(watcher.phase));
        path_settled(after, next, change)
    }
}

/// What an operation returned.
pub open spec fn returned(step: StepView) -> Result<(), ErrorView>
    recommends
        step.next is Return,
{
    step.next->Return_0
}

/// What an operation returns whose stream does not run.
pub open spec fn startup_error(startup: Startup) -> ErrorView
    recommends
        startup !is Running,
{
    match startup {
        Startup::NoThread(error) => ErrorView::of(ErrorKindView::Io(error)),
        Startup::Disconnected => no_report(),
        _ => start_failure(),
    }
}

/// What an operation returns that ends by starting a stream on `paths`, if `result` is what it
/// returns otherwise. Without a path there is no stream to start.
pub open spec fn unless_start_fails(
    paths: Seq<usize>,
    startup: Startup,
    result: Result<(), ErrorView>,
) -> Result<(), ErrorView> {
    if paths.len() > 0 && startup !is Running {
        Err(startup_error(startup))
    } else {
        result
    }
}

/// The watcher after the platform said what became of the stream that it may ask for, and what the
/// operation returned.
pub open spec fn stream_settled(watcher: WatcherView, step: StepView, startup: Startup) -> (
    WatcherView,
    Result<(), ErrorView>,
) {
    if watcher.phase is Startup {
        let (after, last) = watcher.resume(AnswerView::Startup(startup));
        (after, returned(last))
    } else {
        (watcher, returned(step))
    }
}

/// One change in a batch: the watcher after it, and what it returned.
pub open spec fn batched(watcher: WatcherView, change: Change) -> (
    WatcherView,
    Result<(), ErrorView>,
) {
    let (begun, first) = match change {
        Change::Add { path, recursive, .. } => watcher.add_to_batch(path, recursive),
        Change::Remove { path, .. } => watcher.remove_in_batch(path),
    };
    let (after, last) = path_settled(begun, first, change);
    (after, returned(last))
}

/// One change by an operation of its own, with what becomes of its stream, if it asks for one: the
/// watcher after it, and what it returned.
pub open spec fn alone(watcher: WatcherView, change: Change, startup: Startup) -> (
    WatcherView,
    Result<(), ErrorView>,
) {
    let (begun, first) = match change {
        Change::Add { path, recursive, .. } => watcher.watch(path, recursive),
        Change::Remove { path, .. } => watcher.unwatch(path),
    };
    let (settled, next) = path_settled(begun, first, change);
    stream_settled(settled, next, startup)
}

/// The commit of a batch, with what becomes of its stream, if it asks for one.
pub open spec fn committed(watcher: WatcherView, startup: Startup) -> (
    WatcherView,
    Result<(), ErrorView>,
) {
    let (begun, first) = watcher.commit();
    stream_settled(begun, first, startup)
}

/// Several changes in a batch: the watcher after them, and what each returned.
pub open spec fn all_batched(watcher: WatcherView, changes: Seq<Change>) -> (
    WatcherView,
    Seq<Result<(), ErrorView>>,
)
    decreases changes.len(),
{
    if changes.len() == 0 {
        (watcher, Seq::<Result<(), ErrorView>>::empty())
    } else {
        let (before, results) = all_batched(watcher, changes.drop_last());
        let (after, result) = batched(before, changes.last());
        (after, results.push(result))
    }
}

/// Several changes by operations of their own, each with what becomes of its stream: the watcher
/// after them, and what each returned.
pub open spec fn all_alone(
    watcher: WatcherView,
    changes: Seq<Change>,
    startups: Seq<Startup>,
) -> (WatcherView, Seq<Result<(), ErrorView>>)
    decreases changes.len(),
{
    if changes.len() == 0 {
        (watcher, Seq::<Result<(), ErrorView>>::empty())
    } else {
        let (before, results) = all_alone(watcher, changes.drop_last(), startups);
        let (after, result) = alone(before, changes.last(), startups[changes.len() - 1]);
        (after, results.push(result))
    }
}

/// Once its questions are answered, adding a path has done what `applied` and `outcome` say.
proof fn lemma_add_settled(watcher: WatcherView, calls: Seq<Call>, change: Change, then_do: Then)
    requires
        change is Add,
    ensures
        ({
            let begun = watcher.append_path(
                calls,
                change->Add_path,
                change->recursive,
                then_do,
            );
            let settled = path_settled(begun.0, begun.1, change);
            let expected = change.applied(watcher).finish(
                Seq::<Call>::empty(),
                change.outcome(watcher),
                then_do,
            );
            &&& settled.0 == expected.0
            &&& settled.1.next == expected.1.next
        }),
{
    reveal_with_fuel(path_settled, 5);
}

/// Once its questions are answered, taking a path away has done what `applied` and `outcome` say.
proof fn lemma_remove_settled(watcher: WatcherView, calls: Seq<Call>, change: Change, then_do: Then)
    requires
        change is Remove,
    ensures
        ({
            let begun = watcher.remove_path(calls, change->Remove_path, then_do);
            let settled = path_settled(begun.0, begun.1, change);
            let expected = change.applied(watcher).finish(
                Seq::<Call>::empty(),
                change.outcome(watcher),
                then_do,
            );
            &&& settled.0 == expected.0
            &&& settled.1.next == expected.1.next
        }),
{
    reveal_with_fuel(path_settled, 5);
}

/// What a change does to the paths of a watcher depends only on what the platform says of its path:
/// it is the same in a batch as in an operation of its own. So is what it returns, unless a stream
/// of its own fails to start. In a batch the watcher stays stopped; otherwise a stream runs
/// afterwards exactly when there is a path for it and it starts.
pub proof fn law_change(watcher: WatcherView, change: Change, startup: Startup)
    ensures
        watcher.runloop is None ==> batched(watcher, change) == (
            change.applied(watcher).with_phase(PhaseView::Idle),
            change.outcome(watcher),
        ),
        alone(watcher, change, startup) == (
            WatcherView {
                runloop: if change.applied(watcher).paths.len() > 0 && startup is Running {
                    Some(startup->Running_0)
                } else {
                    None
                },
                ..change.applied(watcher).with_phase(PhaseView::Idle)
            },
            unless_start_fails(
                change.applied(watcher).paths,
                startup,
                change.outcome(watcher),
            ),
        ),
{
    let stopped = watcher.stopped();
    let calls = pending_calls(watcher.phase);
    let all_calls = calls + stop_calls(watcher.runloop);
    match change {
        Change::Add { .. } => {
            lemma_add_settled(watcher, calls, change, Then::Return);
            lemma_add_settled(stopped, all_calls, change, Then::Run);
        },
        Change::Remove { .. } => {
            lemma_remove_settled(watcher, calls, change, Then::Return);
            lemma_remove_settled(stopped, all_calls, change, Then::Run);
        },
    }
    assert(change.outcome(stopped) == change.outcome(watcher));
    assert(change.applied(stopped) == change.applied(watcher).stopped());
}

/// What the platform says is of the kind that the operation waits for, whichever question about
/// the path it has come to, if there is one verdict on each string of the list.
pub proof fn law_answers_fit(watcher: WatcherView, change: Change)
    requires
        match change {
            Change::Add { .. } => watcher.phase is Exists || watcher.phase is Canonical
                || watcher.phase is Encode,
            Change::Remove { equal, .. } => watcher.phase is Lookup || watcher.phase is Resolve || (
            watcher.phase is Compare && equal.len() == watcher.paths.len()),
        },
    ensures
        watcher.awaits(change.answer(watcher.phase)),
{
}

/// Two watchers that watch the same.
pub open spec fn same_paths(a: WatcherView, b: WatcherView) -> bool {
    a.paths == b.paths && a.recursive_info == b.recursive_info
}

proof fn lemma_side_by_side(watcher: WatcherView, changes: Seq<Change>, startups: Seq<Startup>)
    ensures
        ({
            let (in_batch, batch_results) = all_batched(watcher.stopped(), changes);
            let (by_one, results) = all_alone(watcher, changes, startups);
            &&& in_batch.runloop is None
            &&& same_paths(in_batch, by_one)
            &&& batch_results.len() == changes.len()
            &&& results.len() == changes.len()
            &&& forall|i: int|
                0 <= i < changes.len() ==> #[trigger] results[i] == unless_start_fails(
                    all_batched(watcher.stopped(), changes.take(i + 1)).0.paths,
                    startups[i],
                    batch_results[i],
                )
            &&& changes.len() > 0 ==> (by_one.runloop is Some <==> by_one.paths.len() > 0
                && startups[changes.len() - 1] is Running)
        }),
    decreases changes.len(),
{
    if changes.len() > 0 {
        let before = changes.drop_last();
        let change = changes.last();
        let startup = startups[changes.len() - 1];
        lemma_side_by_side(watcher, before, startups);
        let (in_batch, batch_results) = all_batched(watcher.stopped(), before);
        let (by_one, results) = all_alone(watcher, before, startups);
        law_change(in_batch, change, startup);
        law_change(by_one, change, startup);
        assert(same_paths(change.applied(in_batch), change.applied(by_one)));
        assert(change.outcome(in_batch) == change.outcome(by_one));
        assert forall|i: int| 0 <= i < changes.len() implies #[trigger] all_alone(
            watcher,
            changes,
            startups,
        ).1[i] == unless_start_fails(
            all_batched(watcher.stopped(), changes.take(i + 1)).0.paths,
            startups[i],
            all_batched(watcher.stopped(), changes).1[i],
        ) by {
            if i < changes.len() - 1 {
                assert(results[i] == unless_start_fails(
                    all_batched(watcher.stopped(), before.take(i + 1)).0.paths,
                    startups[i],
                    batch_results[i],
                ));
                assert(before.take(i + 1) == changes.take(i + 1));
            } else {
                assert(changes.take(i + 1) == changes);
            }
        }
    }
}

/// Any list of changes made in a batch and committed comes to the same as the same changes made by
/// watching and forgetting in the same order, on an equal watcher, whatever the platform says of
/// each path and whatever becomes of each stream: the same strings are in the list, and the same
/// places are watched. A change returns the same, unless a stream of its own failed to start, which
/// it returns instead; the commit returns the like of its own stream. Until the commit the watcher
/// is stopped. After it, a stream runs exactly when there is a path for it and it starts. So if the
/// last stream starts in both cases, or in none, one runs in both or in none.
///
/// That last is said of at least one change. Where there is none, the commit starts the stream that
/// is owed to a watcher whose last one failed to start, and nothing else would.
pub proof fn law_batch(
    watcher: WatcherView,
    changes: Seq<Change>,
    startups: Seq<Startup>,
    last: Startup,
)
    ensures
        ({
            let (in_batch, batch_results) = all_batched(watcher.stopped(), changes);
            let (after, result) = committed(in_batch, last);
            let (by_one, results) = all_alone(watcher, changes, startups);
            &&& same_paths(after, by_one)
            &&& batch_results.len() == changes.len()
            &&& results.len() == changes.len()
            &&& forall|i: int|
                0 <= i < changes.len() ==> #[trigger] results[i] == unless_start_fails(
                    all_batched(watcher.stopped(), changes.take(i + 1)).0.paths,
                    startups[i],
                    batch_results[i],
                )
            &&& result == unless_start_fails(after.paths, last, Ok(()))
            &&& in_batch.runloop is None
            &&& after.runloop is Some <==> after.paths.len() > 0 && last is Running
            &&& changes.len() > 0 && (startups[changes.len() - 1] is Running <==> last is Running)
                ==> (after.runloop is Some <==> by_one.runloop is Some)
        }),
{
    lemma_side_by_side(watcher, changes, startups);
}

/// Where every stream starts, a batch and the same changes one by one cannot be told apart: each
/// change returns the same, the commit succeeds, the same is watched, and a stream runs after the
/// one exactly when one runs after the other.
///
/// Left out is the empty batch on a watcher whose last stream failed to start, as in `law_batch`.
pub proof fn law_batch_whose_streams_start(
    watcher: WatcherView,
    changes: Seq<Change>,
    startups: Seq<Startup>,
    last: Startup,
)
    requires
        forall|i: int| 0 <= i < changes.len() ==> #[trigger] startups[i] is Running,
        last is Running,
        changes.len() > 0 || (watcher.runloop is Some <==> watcher.paths.len() > 0),
    ensures
        ({
            let (in_batch, batch_results) = all_batched(watcher.stopped(), changes);
            let (after, result) = committed(in_batch, last);
            let (by_one, results) = all_alone(watcher, changes, startups);
            &&& batch_results == results
            &&& result == Ok::<(), ErrorView>(())
            &&& same_paths(after, by_one)
            &&& after.runloop is Some <==> by_one.runloop is Some
        }),
{
    law_batch(watcher, changes, startups, last);
    let batch_results = all_batched(watcher.stopped(), changes).1;
    let results = all_alone(watcher, changes, startups).1;
    assert forall|i: int| 0 <= i < changes.len() implies batch_results[i] == results[i] by {
        assert(startups[i] is Running);
    }
    assert(batch_results =~= results);
}

/// Any list of changes leaves a watcher that is stopped for a batch stopped, at each point of the
/// list, and so for good if the batch is never committed.
pub proof fn law_uncommitted_batch(watcher: WatcherView, changes: Seq<Change>, done: int)
    requires
        0 <= done <= changes.len(),
    ensures
        all_batched(watcher.stopped(), changes.take(done)).0.runloop is None,
{
    let startups = Seq::new(changes.len(), |i: int| Startup::Refused);
    lemma_side_by_side(watcher, changes.take(done), startups);
}

} // verus!
