//! What holds of a watcher over the whole of an operation, and of a watcher, its stream's thread
//! and the platform together.

use vstd::prelude::*;

use crate::flags::StreamFlags;
use crate::protocol::{Call, JoinReason, RunLoop, Startup};
use crate::stream_thread::{StreamThread, ThreadAnswer, ThreadCall, ThreadNext, ThreadPhase};

verus! {

use crate::callback::{reported, RawEventView};
use crate::error::{ErrorKindView, ErrorView};
use crate::event::EventView;
use crate::path::{components, is_under, parent, Components};
use crate::protocol::{AnswerView, NextView, QuestionView, StepView};
use crate::recursive_info::{covers, law_fewer_watches, law_flat_scope};
use crate::translate::translation;
use crate::watcher::{forgotten_place, no_report, no_such_path, pending_calls, removal_calls};
use crate::watcher::{start_failure, stop_calls, unequal};
use crate::watcher::{PhaseView, WatcherView};

/// A stream runs only while no operation is under way, and only over at least one path.
pub open spec fn consistent(watcher: WatcherView) -> bool {
    &&& watcher.runloop is Some ==> watcher.phase is Idle
    &&& watcher.runloop is Some ==> watcher.paths.len() > 0
    &&& watcher.phase is Startup ==> watcher.paths.len() > 0
}

/// A new watcher is consistent, and every operation keeps a watcher so.
pub proof fn law_consistent(
    watcher: WatcherView,
    path: Seq<u8>,
    recursive: bool,
    answer: AnswerView,
)
    requires
        consistent(watcher),
    ensures
        consistent(WatcherView::fresh()),
        consistent(watcher.stopped()),
        consistent(watcher.watch(path, recursive).0),
        consistent(watcher.unwatch(path).0),
        watcher.awaits(answer) ==> consistent(watcher.resume(answer).0),
{
}

/// A batch keeps a stopped watcher consistent, and it keeps it stopped until the stream that the
/// commit asks for runs. So a watcher whose batch is never committed stays stopped.
pub proof fn law_batch_stays_stopped(
    watcher: WatcherView,
    path: Seq<u8>,
    recursive: bool,
    answer: AnswerView,
)
    requires
        consistent(watcher),
        watcher.runloop is None,
    ensures
        ({
            let added = watcher.add_to_batch(path, recursive).0;
            let removed = watcher.remove_in_batch(path).0;
            let committed = watcher.commit().0;
            let resumed = watcher.resume(answer).0;
            &&& consistent(added) && added.runloop is None
            &&& consistent(removed) && removed.runloop is None
            &&& consistent(committed) && committed.runloop is None
            &&& watcher.awaits(answer) && watcher.phase !is Startup ==> consistent(resumed)
                && resumed.runloop is None
        }),
{
}

/// How many answers an operation can still wait for.
pub open spec fn answers_left(phase: PhaseView) -> nat {
    match phase {
        PhaseView::Idle => 0,
        PhaseView::Startup { .. } => 1,
        PhaseView::Encode { .. } => 2,
        PhaseView::Resolve { .. } => 2,
        PhaseView::Canonical { .. } => 3,
        PhaseView::Compare { .. } => 3,
        PhaseView::Exists { .. } => 4,
        PhaseView::Lookup { .. } => 4,
    }
}

/// Every operation comes to an end: each answer brings it closer, and it returns exactly when it
/// waits for none.
pub proof fn law_operations_end(watcher: WatcherView, answer: AnswerView)
    requires
        watcher.awaits(answer),
    ensures
        answers_left(watcher.resume(answer).0.phase) < answers_left(watcher.phase),
        watcher.resume(answer).1.next is Return <==> watcher.resume(answer).0.phase is Idle,
{
}

/// A question is asked exactly when the operation waits for its answer, and it is about the path
/// that the operation is about.
pub proof fn law_questions_fit(watcher: WatcherView, answer: AnswerView)
    requires
        watcher.awaits(answer),
    ensures
        ({
            let (after, step) = watcher.resume(answer);
            match after.phase {
                PhaseView::Idle => step.next is Return,
                PhaseView::Exists { path, .. } => step.next == NextView::Ask(
                    QuestionView::Exists(path),
                ),
                PhaseView::Canonical { path, .. } => step.next == NextView::Ask(
                    QuestionView::Canonicalize(path),
                ),
                PhaseView::Encode { path, .. } => step.next == NextView::Ask(
                    QuestionView::Encode(path),
                ),
                PhaseView::Lookup { path, .. } => step.next == NextView::Ask(
                    QuestionView::Encode(path),
                ),
                PhaseView::Compare { string, .. } => step.next == NextView::Ask(
                    QuestionView::Compare(string),
                ),
                PhaseView::Resolve { path, .. } => step.next == NextView::Ask(
                    QuestionView::Canonicalize(path),
                ),
                PhaseView::Startup { .. } => step.next == NextView::Ask(
                    QuestionView::StartStream(after.setup()),
                ),
            }
        }),
{
}

/// The platform's list of strings after one call.
pub open spec fn after_call(list: Seq<usize>, call: Call) -> Seq<usize> {
    match call {
        Call::AppendPath(string) => list.push(string),
        Call::RemovePathAt(place) => list.remove(place as int),
        _ => list,
    }
}

/// The platform's list of strings after some calls.
pub open spec fn after_calls(list: Seq<usize>, calls: Seq<Call>) -> Seq<usize>
    decreases calls.len(),
{
    if calls.len() == 0 {
        list
    } else {
        after_call(after_calls(list, calls.drop_last()), calls.last())
    }
}

proof fn lemma_removals(paths: Seq<usize>, string: usize, equal: Seq<bool>, from: int)
    requires
        equal.len() == paths.len(),
        paths.len() <= usize::MAX,
        0 <= from <= paths.len(),
    ensures
        after_calls(paths, seq![Call::Release(string)] + removal_calls(equal, from)) == paths.take(
            from,
        ) + unequal(paths, equal, from),
    decreases paths.len() - from,
{
    let head = seq![Call::Release(string)];
    let calls = head + removal_calls(equal, from);
    if from == paths.len() {
        assert(calls =~= head);
        assert(head.drop_last() =~= Seq::<Call>::empty());
        reveal_with_fuel(after_calls, 2);
        assert(paths.take(from) + unequal(paths, equal, from) =~= paths);
    } else {
        lemma_removals(paths, string, equal, from + 1);
        let later = unequal(paths, equal, from + 1);
        let before = head + removal_calls(equal, from + 1);
        if equal[from] {
            assert(calls.drop_last() =~= before);
            assert(calls.last() == Call::RemovePathAt(from as usize));
            assert((paths.take(from + 1) + later).remove(from) =~= paths.take(from) + later);
        } else {
            assert(calls =~= before);
            assert(paths.take(from + 1) + later =~= paths.take(from) + (seq![paths[from]] + later));
        }
    }
}

proof fn lemma_ends_leave_list(list: Seq<usize>, phase: PhaseView, running: Option<RunLoop>)
    ensures
        after_calls(list, pending_calls(phase)) == list,
        after_calls(list, pending_calls(phase) + stop_calls(running)) == list,
{
    reveal_with_fuel(after_calls, 7);
}

/// The platform's list of strings is at all times the one that the watcher knows: whatever a step
/// adds or takes away, its calls add and take away. So the count that decides whether a stream is
/// started is the count of the strings that the stream would be given, and each place that is
/// cleared is the place that was meant.
pub proof fn law_list_in_step(
    watcher: WatcherView,
    path: Seq<u8>,
    recursive: bool,
    answer: AnswerView,
)
    requires
        watcher.paths.len() <= usize::MAX,
    ensures
        ({
            let list = watcher.paths;
            let (w1, watch) = watcher.watch(path, recursive);
            let (w2, unwatch) = watcher.unwatch(path);
            let (w3, added) = watcher.add_to_batch(path, recursive);
            let (w4, removed) = watcher.remove_in_batch(path);
            let (w5, committed) = watcher.commit();
            let (w6, resumed) = watcher.resume(answer);
            &&& after_calls(list, watch.calls) == w1.paths
            &&& after_calls(list, unwatch.calls) == w2.paths
            &&& after_calls(list, added.calls) == w3.paths
            &&& after_calls(list, removed.calls) == w4.paths
            &&& after_calls(list, committed.calls) == w5.paths
            &&& watcher.awaits(answer) ==> after_calls(list, resumed.calls) == w6.paths
        }),
{
    lemma_ends_leave_list(watcher.paths, watcher.phase, watcher.runloop);
    if watcher.awaits(answer) {
        reveal_with_fuel(after_calls, 3);
        match watcher.phase {
            PhaseView::Compare { path, string, then_do } => {
                let equal = answer->Compared_0;
                lemma_removals(watcher.paths, string, equal, 0);
                assert(watcher.paths.take(0) + unequal(watcher.paths, equal, 0) =~= unequal(
                    watcher.paths,
                    equal,
                    0,
                ));
            },
            _ => {},
        }
    }
}

/// The places from `from` on, in order.
pub open spec fn places(from: int, end: int) -> Seq<int> {
    Seq::new((end - from) as nat, |k: int| from + k)
}

proof fn lemma_filter_places(from: int, end: int, wanted: spec_fn(int) -> bool)
    requires
        from < end,
    ensures
        places(from, end).filter(wanted) == (if wanted(from) {
            seq![from] + places(from + 1, end).filter(wanted)
        } else {
            places(from + 1, end).filter(wanted)
        }),
{
    let one = seq![from];
    let rest = places(from + 1, end);
    assert(places(from, end) =~= one + rest);
    Seq::filter_distributes_over_add(one, rest, wanted);
    assert(one.drop_last() =~= Seq::<int>::empty());
    reveal_with_fuel(Seq::filter, 2);
    if wanted(from) {
        assert(one.filter(wanted) =~= one);
    } else {
        assert(one.filter(wanted) =~= Seq::<int>::empty());
        assert(Seq::<int>::empty() + rest.filter(wanted) =~= rest.filter(wanted));
    }
}

proof fn lemma_kept_from(paths: Seq<usize>, equal: Seq<bool>, from: int)
    requires
        equal.len() == paths.len(),
        0 <= from <= paths.len(),
    ensures
        unequal(paths, equal, from) == places(from, paths.len() as int).filter(
            |i: int| !equal[i],
        ).map_values(|i: int| paths[i]),
    decreases paths.len() - from,
{
    let end = paths.len() as int;
    let kept = |i: int| !equal[i];
    let at = |i: int| paths[i];
    if from == end {
        assert(places(from, end) =~= Seq::<int>::empty());
        assert(places(from, end).filter(kept) =~= Seq::<int>::empty()) by {
            reveal(Seq::filter);
        }
        assert(unequal(paths, equal, from) =~= places(from, end).filter(kept).map_values(at));
    } else {
        lemma_kept_from(paths, equal, from + 1);
        lemma_filter_places(from, end, kept);
        assert(unequal(paths, equal, from) =~= places(from, end).filter(kept).map_values(at));
    }
}

proof fn lemma_cleared_from(equal: Seq<bool>, from: int)
    requires
        0 <= from <= equal.len(),
    ensures
        removal_calls(equal, from) == places(from, equal.len() as int).filter(
            |i: int| equal[i],
        ).reverse().map_values(|i: int| Call::RemovePathAt(i as usize)),
    decreases equal.len() - from,
{
    let end = equal.len() as int;
    let cleared = |i: int| equal[i];
    let call = |i: int| Call::RemovePathAt(i as usize);
    if from == end {
        assert(places(from, end) =~= Seq::<int>::empty());
        assert(places(from, end).filter(cleared) =~= Seq::<int>::empty()) by {
            reveal(Seq::filter);
        }
        assert(removal_calls(equal, from) =~= places(from, end).filter(
            cleared,
        ).reverse().map_values(call));
    } else {
        lemma_cleared_from(equal, from + 1);
        lemma_filter_places(from, end, cleared);
        assert(removal_calls(equal, from) =~= places(from, end).filter(
            cleared,
        ).reverse().map_values(call));
    }
}

/// The strings that stay are those at the places that are not equal, in order, and the places
/// that are equal are cleared from the last to the first.
pub proof fn law_kept_strings(paths: Seq<usize>, equal: Seq<bool>)
    requires
        equal.len() == paths.len(),
    ensures
        unequal(paths, equal, 0) == places(0, paths.len() as int).filter(
            |i: int| !equal[i],
        ).map_values(|i: int| paths[i]),
        removal_calls(equal, 0) == places(0, paths.len() as int).filter(
            |i: int| equal[i],
        ).reverse().map_values(|i: int| Call::RemovePathAt(i as usize)),
{
    lemma_kept_from(paths, equal, 0);
    lemma_cleared_from(equal, 0);
}

/// From which event on a stream reports, and the flags that it is made with, never change.
pub proof fn law_settings_stay(
    watcher: WatcherView,
    path: Seq<u8>,
    recursive: bool,
    answer: AnswerView,
)
    ensures
        watcher.watch(path, recursive).0.since_when == watcher.since_when,
        watcher.watch(path, recursive).0.flags == watcher.flags,
        watcher.unwatch(path).0.since_when == watcher.since_when,
        watcher.unwatch(path).0.flags == watcher.flags,
        watcher.resume(answer).0.since_when == watcher.since_when,
        watcher.resume(answer).0.flags == watcher.flags,
{
}

/// What a stream is told to watch is what the watcher watches, for as long as the stream runs:
/// the stream is made from the paths as they are, and none of the answers that decide whether it
/// runs changes them.
pub proof fn law_stream_is_current(
    watcher: WatcherView,
    calls: Seq<Call>,
    result: Result<(), ErrorView>,
    startup: Startup,
)
    requires
        watcher.paths.len() > 0,
    ensures
        ({
            let (waiting, step) = watcher.run(calls, result);
            let (after, _) = waiting.resume(AnswerView::Startup(startup));
            &&& step.next == NextView::Ask(QuestionView::StartStream(watcher.setup()))
            &&& watcher.setup().context == watcher.recursive_info
            &&& after.paths == watcher.paths
            &&& after.recursive_info == watcher.recursive_info
        }),
{
}

/// Paths change only while no stream runs.
pub proof fn law_changes_only_while_stopped(watcher: WatcherView, answer: AnswerView)
    requires
        consistent(watcher),
        watcher.awaits(answer),
    ensures
        watcher.runloop is None,
        watcher.resume(answer).0.runloop is Some ==> watcher.resume(answer).0.paths
            == watcher.paths && watcher.resume(answer).0.recursive_info == watcher.recursive_info,
{
}

/// A path that exists is watched: it comes behind the paths of the stream, the place that it leads
/// to is watched in the given way, and a stream runs.
pub proof fn law_watch(
    watcher: WatcherView,
    path: Seq<u8>,
    recursive: bool,
    canonical: Seq<u8>,
    string: usize,
    running: RunLoop,
)
    ensures
        ({
            let (w1, s1) = watcher.watch(path, recursive);
            let (w2, s2) = w1.resume(AnswerView::Exists(true));
            let (w3, s3) = w2.resume(AnswerView::Canonical(Ok(canonical)));
            let (w4, s4) = w3.resume(AnswerView::Encoded(Ok(string)));
            let (w5, s5) = w4.resume(AnswerView::Startup(Startup::Running(running)));
            &&& s1.next == NextView::Ask(QuestionView::Exists(path))
            &&& s2.next == NextView::Ask(QuestionView::Canonicalize(path))
            &&& s3.next == NextView::Ask(QuestionView::Encode(path))
            &&& s4.next == NextView::Ask(QuestionView::StartStream(w4.setup()))
            &&& s5.next == NextView::Return(Ok(()))
            &&& w5 == WatcherView {
                paths: watcher.paths.push(string),
                recursive_info: watcher.recursive_info.insert(components(canonical), recursive),
                runloop: Some(running),
                phase: PhaseView::Idle,
                ..watcher
            }
        }),
{
}

/// Once a path is watched, its stream passes on what happens at the place that the path leads to
/// and to what that holds directly, and, if the watch is recursive, to everything below.
pub proof fn law_watch_is_heard(
    watcher: WatcherView,
    path: Seq<u8>,
    recursive: bool,
    canonical: Seq<u8>,
    string: usize,
    event: RawEventView,
    process_id: u32,
)
    requires
        ({
            let place = components(event.path);
            let base = components(canonical);
            place == base || parent(place) == Some(base) || (recursive && is_under(place, base))
        }),
    ensures
        ({
            let w1 = watcher.watch(path, recursive).0;
            let w2 = w1.resume(AnswerView::Exists(true)).0;
            let w3 = w2.resume(AnswerView::Canonical(Ok(canonical))).0;
            let (w4, s4) = w3.resume(AnswerView::Encoded(Ok(string)));
            let told = translation(StreamFlags { bits: event.flags }, true, process_id);
            &&& s4.next matches NextView::Ask(QuestionView::StartStream(setup))
            &&& reported(setup.context, event, process_id) == told.map_values(
                |one: EventView| one.with_path(event.path),
            )
        }),
{
    let base = components(canonical);
    let info = watcher.recursive_info.insert(base, recursive);
    let place = components(event.path);
    law_flat_scope(base, place);
    assert(info.dom().contains(base) && covers(base, info[base], place));
}

/// Once a path is forgotten, the next stream passes on nothing of the place that the path leads
/// to, nor of what lies below, unless another watch takes it in. A path that leads nowhere any more
/// stands for itself.
pub proof fn law_unwatch_is_silent(
    watcher: WatcherView,
    path: Seq<u8>,
    string: usize,
    equal: Seq<bool>,
    canonical: Result<Seq<u8>, std::io::Error>,
    event: RawEventView,
    process_id: u32,
)
    requires
        equal.len() == watcher.paths.len(),
        forall|other: Components|
            #![trigger watcher.recursive_info.dom().contains(other)]
            other != forgotten_place(path, canonical) && watcher.recursive_info.dom().contains(
                other,
            ) ==> !covers(other, watcher.recursive_info[other], components(event.path)),
    ensures
        ({
            let w1 = watcher.unwatch(path).0;
            let w2 = w1.resume(AnswerView::Encoded(Ok(string))).0;
            let w3 = w2.resume(AnswerView::Compared(equal)).0;
            let w4 = w3.resume(AnswerView::Canonical(canonical)).0;
            reported(w4.setup().context, event, process_id).len() == 0
        }),
{
    law_fewer_watches(
        watcher.recursive_info,
        forgotten_place(path, canonical),
        components(event.path),
    );
}

/// A path that does not exist, that leads nowhere or that has no string is not watched. The paths
/// that were watched before are watched again, and the operation returns what was wrong.
pub proof fn law_watch_refused(
    watcher: WatcherView,
    path: Seq<u8>,
    recursive: bool,
    canonical: Seq<u8>,
    failure: std::io::Error,
    error: usize,
)
    ensures
        ({
            let (w1, _) = watcher.watch(path, recursive);
            let (w2, _) = w1.resume(AnswerView::Exists(true));
            let (w3, _) = w2.resume(AnswerView::Canonical(Ok(canonical)));
            let idle = watcher.stopped().with_phase(PhaseView::Idle);
            let none = Seq::<Call>::empty();
            &&& w1.resume(AnswerView::Exists(false)) == idle.run(none, Err(no_such_path(path)))
            &&& w2.resume(AnswerView::Canonical(Err(failure))) == idle.run(
                none,
                Err(ErrorView::of(ErrorKindView::Io(failure))),
            )
            &&& w3.resume(AnswerView::Encoded(Err(error))) == idle.run(
                seq![Call::Release(error)],
                Err(no_such_path(path)),
            )
        }),
{
}

/// Whether a path could be added or taken away matters to what an operation returns only if the
/// stream runs. If it does not, the operation returns why, and the watcher is left stopped:
/// stopping it again makes no call, so it waits for no thread.
pub proof fn law_start_failure(
    watcher: WatcherView,
    calls: Seq<Call>,
    result: Result<(), ErrorView>,
    running: RunLoop,
    failure: std::io::Error,
)
    requires
        watcher.paths.len() > 0,
        watcher.runloop is None,
    ensures
        ({
            let waiting = watcher.run(calls, result).0;
            let (w1, s1) = waiting.resume(AnswerView::Startup(Startup::Running(running)));
            let (w2, s2) = waiting.resume(AnswerView::Startup(Startup::Refused));
            let (w3, s3) = waiting.resume(AnswerView::Startup(Startup::Disconnected));
            let (w4, s4) = waiting.resume(AnswerView::Startup(Startup::NoThread(failure)));
            &&& s1.next == NextView::Return(result) && w1.runloop == Some(running)
            &&& s2.next == NextView::Return(Err(start_failure())) && w2.runloop is None
            &&& s3.next == NextView::Return(Err(no_report())) && w3.runloop is None
            &&& s4.next == NextView::Return(Err(ErrorView::of(ErrorKindView::Io(failure))))
                && w4.runloop is None
            &&& w2.paths == watcher.paths && w2.recursive_info == watcher.recursive_info
            &&& stop_calls(w2.runloop).len() == 0
            &&& stop_calls(w3.runloop).len() == 0
            &&& stop_calls(w4.runloop).len() == 0
        }),
{
}

/// A watched path is forgotten: no string that equals its own stays, the place that it leads to is
/// watched no more, and a stream is started if any path is left.
pub proof fn law_unwatch(
    watcher: WatcherView,
    path: Seq<u8>,
    string: usize,
    equal: Seq<bool>,
    canonical: Result<Seq<u8>, std::io::Error>,
)
    requires
        equal.len() == watcher.paths.len(),
    ensures
        ({
            let key = forgotten_place(path, canonical);
            let (w1, s1) = watcher.unwatch(path);
            let (w2, s2) = w1.resume(AnswerView::Encoded(Ok(string)));
            let (w3, s3) = w2.resume(AnswerView::Compared(equal));
            let (w4, s4) = w3.resume(AnswerView::Canonical(canonical));
            &&& s1.next == NextView::Ask(QuestionView::Encode(path))
            &&& s2.next == NextView::Ask(QuestionView::Compare(string))
            &&& s3.next == NextView::Ask(QuestionView::Canonicalize(path))
            &&& (w4, s4) == (WatcherView {
                paths: unequal(watcher.paths, equal, 0),
                recursive_info: watcher.recursive_info.remove(key),
                runloop: None,
                phase: w3.phase,
                ..watcher
            }).run(
                Seq::<Call>::empty(),
                if watcher.recursive_info.dom().contains(key) {
                    Ok(())
                } else {
                    Err(ErrorView::of(ErrorKindView::WatchNotFound))
                },
            )
        }),
{
}

/// A watcher that is left with no path stays stopped, and that is no error.
pub proof fn law_no_path_left(watcher: WatcherView, calls: Seq<Call>, result: Result<(), ErrorView>)
    requires
        watcher.paths.len() == 0,
    ensures
        watcher.run(calls, result) == (
            watcher.with_phase(PhaseView::Idle),
            StepView { calls, next: NextView::Return(result) },
        ),
{
}

/// Watching a path that leads to a place that was not watched, and then forgetting it, gives back
/// the paths that were watched before, if the platform finds the path's own string, and no other,
/// equal to it.
pub proof fn law_watch_then_unwatch(
    watcher: WatcherView,
    path: Seq<u8>,
    recursive: bool,
    canonical: Seq<u8>,
    string: usize,
    again: usize,
    running: RunLoop,
)
    requires
        !watcher.recursive_info.dom().contains(components(canonical)),
    ensures
        ({
            let equal = Seq::new(watcher.paths.len() + 1, |i: int| i == watcher.paths.len());
            let w1 = watcher.watch(path, recursive).0;
            let w2 = w1.resume(AnswerView::Exists(true)).0;
            let w3 = w2.resume(AnswerView::Canonical(Ok(canonical))).0;
            let w4 = w3.resume(AnswerView::Encoded(Ok(string))).0;
            let w5 = w4.resume(AnswerView::Startup(Startup::Running(running))).0;
            let w6 = w5.unwatch(path).0;
            let w7 = w6.resume(AnswerView::Encoded(Ok(again))).0;
            let w8 = w7.resume(AnswerView::Compared(equal)).0;
            let (w9, s9) = w8.resume(AnswerView::Canonical(Ok(canonical)));
            &&& w7.awaits(AnswerView::Compared(equal))
            &&& w9.paths == watcher.paths
            &&& w9.recursive_info == watcher.recursive_info
            &&& watcher.paths.len() == 0 ==> s9.next == NextView::Return(Ok(()))
            &&& watcher.paths.len() > 0 ==> w9.phase == PhaseView::Startup { result: Ok(()) }
        }),
{
    let equal = Seq::new(watcher.paths.len() + 1, |i: int| i == watcher.paths.len());
    lemma_all_but_last(watcher.paths, string, equal, 0);
    assert(watcher.paths.skip(0) =~= watcher.paths);
    let key = components(canonical);
    assert(watcher.recursive_info.insert(key, recursive).remove(key) =~= watcher.recursive_info);
}

proof fn lemma_all_but_last(paths: Seq<usize>, last: usize, equal: Seq<bool>, from: int)
    requires
        equal == Seq::new(paths.len() + 1, |i: int| i == paths.len()),
        0 <= from <= paths.len(),
    ensures
        unequal(paths.push(last), equal, from) == paths.skip(from),
    decreases paths.len() - from,
{
    let all = paths.push(last);
    if from == paths.len() {
        assert(unequal(all, equal, from + 1) =~= Seq::<usize>::empty());
        assert(paths.skip(from) =~= Seq::<usize>::empty());
    } else {
        lemma_all_but_last(paths, last, equal, from + 1);
        assert(seq![paths[from]] + paths.skip(from + 1) =~= paths.skip(from));
    }
}

/// How many references to `object` a call of the watcher gives up.
pub open spec fn given_up(call: Call, object: usize) -> int {
    if call == Call::Release(object) {
        1
    } else {
        0
    }
}

/// How many references to `object` the calls of a step give up.
pub open spec fn all_given_up(calls: Seq<Call>, object: usize) -> int
    decreases calls.len(),
{
    if calls.len() == 0 {
        0
    } else {
        all_given_up(calls.drop_last(), object) + given_up(calls.last(), object)
    }
}

proof fn lemma_removals_give_up_nothing(string: usize, equal: Seq<bool>, from: int, object: usize)
    requires
        0 <= from <= equal.len(),
    ensures
        all_given_up(seq![Call::Release(string)] + removal_calls(equal, from), object) == (if string
            == object {
            1int
        } else {
            0int
        }),
    decreases equal.len() - from,
{
    let head = seq![Call::Release(string)];
    let calls = head + removal_calls(equal, from);
    if from == equal.len() {
        assert(calls =~= head);
        assert(head.drop_last() =~= Seq::<Call>::empty());
        reveal_with_fuel(all_given_up, 2);
    } else {
        lemma_removals_give_up_nothing(string, equal, from + 1, object);
        let before = head + removal_calls(equal, from + 1);
        if equal[from] {
            assert(calls.drop_last() =~= before);
        } else {
            assert(calls =~= before);
        }
    }
}

/// Every reference that the platform hands out with a string, or with the error in its place, is
/// given up exactly once. A string that is to be compared is given up with the answer of the
/// comparison, and not before; what becomes of it if the answer never comes is the subject of
/// [`law_unfinished_operations`].
pub proof fn law_strings_are_given_up(watcher: WatcherView, answer: AnswerView, object: usize)
    requires
        watcher.awaits(answer),
    ensures
        ({
            let calls = watcher.resume(answer).1.calls;
            match (watcher.phase, answer) {
                (PhaseView::Encode { .. }, AnswerView::Encoded(Ok(string))) => all_given_up(
                    calls,
                    string,
                ) == 1,
                (PhaseView::Encode { .. }, AnswerView::Encoded(Err(error))) => all_given_up(
                    calls,
                    error,
                ) == 1,
                (PhaseView::Lookup { .. }, AnswerView::Encoded(Ok(string))) => all_given_up(
                    calls,
                    string,
                ) == 0 && (watcher.resume(answer).0.phase matches PhaseView::Compare {
                    string: kept,
                    ..
                } && kept == string),
                (PhaseView::Lookup { .. }, AnswerView::Encoded(Err(error))) => all_given_up(
                    calls,
                    error,
                ) == 1,
                (PhaseView::Compare { string, .. }, _) => all_given_up(calls, object) == (if string
                    == object {
                    1int
                } else {
                    0int
                }),
                _ => all_given_up(calls, object) == 0,
            }
        }),
{
    reveal_with_fuel(all_given_up, 3);
    match watcher.phase {
        PhaseView::Compare { string, .. } => {
            lemma_removals_give_up_nothing(string, answer->Compared_0, 0, object);
        },
        _ => {},
    }
}

/// An operation that is not gone on with leaves nothing behind: whatever comes next, be it another
/// operation or the end of the watcher, gives up the string that was to be compared, once, and
/// waits for no comparison of it any more. Besides that it gives up only what belongs to the stream
/// that it ends.
pub proof fn law_unfinished_operations(
    watcher: WatcherView,
    path: Seq<u8>,
    recursive: bool,
    object: usize,
)
    requires
        consistent(watcher),
    ensures
        ({
            let held: int = match watcher.phase {
                PhaseView::Compare { string, .. } if string == object => 1,
                _ => 0,
            };
            let ended = all_given_up(stop_calls(watcher.runloop), object);
            let (w1, watch) = watcher.watch(path, recursive);
            let (w2, unwatch) = watcher.unwatch(path);
            let (w3, added) = watcher.add_to_batch(path, recursive);
            let (w4, removed) = watcher.remove_in_batch(path);
            let (w5, committed) = watcher.commit();
            &&& all_given_up(watch.calls, object) == held + ended && w1.phase !is Compare
            &&& all_given_up(unwatch.calls, object) == held + ended && w2.phase !is Compare
            &&& all_given_up(added.calls, object) == held && w3.phase !is Compare
            &&& all_given_up(removed.calls, object) == held && w4.phase !is Compare
            &&& all_given_up(committed.calls, object) == held && w5.phase !is Compare
            &&& all_given_up(watcher.closing_calls(), object) == held + ended
        }),
{
    reveal_with_fuel(all_given_up, 8);
    let pending = pending_calls(watcher.phase);
    let stop = stop_calls(watcher.runloop);
    if watcher.runloop is Some {
        assert(pending + stop =~= stop);
    } else {
        assert(pending + stop =~= pending);
    }
    assert((pending + stop).push(Call::ReleasePaths).drop_last() =~= pending + stop);
}

/// How many references to `object` a call of a stream's thread takes or gives up.
pub open spec fn taken(call: ThreadCall, object: usize) -> int {
    if call == ThreadCall::Retain(object) {
        1
    } else if call == ThreadCall::Release(object) {
        -1
    } else {
        0
    }
}

/// How many references to `object` the calls of a stream's thread leave taken.
pub open spec fn all_taken(calls: Seq<ThreadCall>, object: usize) -> int
    decreases calls.len(),
{
    if calls.len() == 0 {
        0
    } else {
        all_taken(calls.drop_last(), object) + taken(calls.last(), object)
    }
}

/// How often the calls of a stream's thread give the stream up.
pub open spec fn streams_released(calls: Seq<ThreadCall>, stream: usize) -> int
    decreases calls.len(),
{
    if calls.len() == 0 {
        0
    } else {
        streams_released(calls.drop_last(), stream) + if calls.last() == ThreadCall::ReleaseStream(
            stream,
        ) {
            1int
        } else {
            0int
        }
    }
}

/// All calls of a thread whose stream started, and what it published, from its first step to its
/// end.
pub open spec fn whole_run(stream: usize, runloop: usize, source: usize) -> (
    StreamThread,
    Seq<ThreadCall>,
) {
    let (t1, s1) = StreamThread::first(stream, runloop);
    let (t2, s2) = t1.next(ThreadAnswer::Started(true));
    let (t3, s3) = t2.next(ThreadAnswer::Source(source));
    let (t4, s4) = t3.next(ThreadAnswer::Published(true));
    let (t5, s5) = t4.next(ThreadAnswer::Stopped);
    (t5, s1.calls + s2.calls + s3.calls + s4.calls + s5.calls)
}

/// All calls of a thread whose stream did not start.
pub open spec fn refused_run(stream: usize, runloop: usize) -> (StreamThread, Seq<ThreadCall>) {
    let (t1, s1) = StreamThread::first(stream, runloop);
    let (t2, s2) = t1.next(ThreadAnswer::Started(false));
    (t2, s1.calls + s2.calls)
}

/// All calls of a thread whose watcher did not take what it published.
pub open spec fn orphaned_run(stream: usize, runloop: usize, source: usize) -> (
    StreamThread,
    Seq<ThreadCall>,
) {
    let (t1, s1) = StreamThread::first(stream, runloop);
    let (t2, s2) = t1.next(ThreadAnswer::Started(true));
    let (t3, s3) = t2.next(ThreadAnswer::Source(source));
    let (t4, s4) = t3.next(ThreadAnswer::Published(false));
    (t4, s1.calls + s2.calls + s3.calls + s4.calls)
}

/// The watcher gets to know a run loop and its source only when the stream has started, after the
/// source was added to the run loop and the run loop retained. So a stop that comes at any time
/// finds a source that is listened to and a run loop that is still there.
pub proof fn law_published_when_ready(thread: StreamThread, answer: ThreadAnswer, handles: RunLoop)
    requires
        thread.awaits(answer),
        thread.next(answer).1.next == ThreadNext::Publish(handles),
    ensures
        thread.phase == (ThreadPhase::MakingSource { runloop: handles.runloop }),
        thread.next(answer).1.calls == seq![
            ThreadCall::AddSource { runloop: handles.runloop, source: handles.stop_source },
            ThreadCall::Retain(handles.runloop),
        ],
{
}

/// How many answers a thread can still wait for.
pub open spec fn thread_answers_left(phase: ThreadPhase) -> nat {
    match phase {
        ThreadPhase::Done => 0,
        ThreadPhase::Running(_) => 1,
        ThreadPhase::Publishing(_) => 2,
        ThreadPhase::MakingSource { .. } => 3,
        ThreadPhase::Starting { .. } => 4,
    }
}

/// Every thread comes to its end: each answer brings it closer, and it ends exactly when it waits
/// for none.
pub proof fn law_threads_end(thread: StreamThread, answer: ThreadAnswer)
    requires
        thread.awaits(answer),
    ensures
        thread_answers_left(thread.next(answer).0.phase) < thread_answers_left(thread.phase),
        (thread.next(answer).1.next is End || thread.next(answer).1.next is Panic) <==> thread.next(
            answer,
        ).0.phase is Done,
{
}

/// What a thread does from its first step to its end, when its stream does not start, when its
/// watcher is gone, and when it runs until it is stopped.
pub proof fn law_thread_calls(stream: usize, runloop: usize, source: usize)
    ensures
        refused_run(stream, runloop).0.phase == ThreadPhase::Done,
        orphaned_run(stream, runloop, source).0.phase == ThreadPhase::Done,
        whole_run(stream, runloop, source).0.phase == ThreadPhase::Done,
        refused_run(stream, runloop).1 == seq![
            ThreadCall::Schedule { stream, runloop },
            ThreadCall::InvalidateStream(stream),
            ThreadCall::ReleaseStream(stream),
            ThreadCall::ReportRefusal,
        ],
        orphaned_run(stream, runloop, source).1 == seq![
            ThreadCall::Schedule { stream, runloop },
            ThreadCall::AddSource { runloop, source },
            ThreadCall::Retain(runloop),
            ThreadCall::Release(runloop),
            ThreadCall::InvalidateSource(source),
            ThreadCall::Release(source),
        ],
        whole_run(stream, runloop, source).1 == seq![
            ThreadCall::Schedule { stream, runloop },
            ThreadCall::AddSource { runloop, source },
            ThreadCall::Retain(runloop),
            ThreadCall::InvalidateSource(source),
            ThreadCall::StopStream(stream),
            ThreadCall::PurgeEvents(stream),
            ThreadCall::InvalidateStream(stream),
            ThreadCall::ReleaseStream(stream),
        ],
{
    assert(refused_run(stream, runloop).1 =~= seq![
        ThreadCall::Schedule { stream, runloop },
        ThreadCall::InvalidateStream(stream),
        ThreadCall::ReleaseStream(stream),
        ThreadCall::ReportRefusal,
    ]);
    assert(orphaned_run(stream, runloop, source).1 =~= seq![
        ThreadCall::Schedule { stream, runloop },
        ThreadCall::AddSource { runloop, source },
        ThreadCall::Retain(runloop),
        ThreadCall::Release(runloop),
        ThreadCall::InvalidateSource(source),
        ThreadCall::Release(source),
    ]);
    assert(whole_run(stream, runloop, source).1 =~= seq![
        ThreadCall::Schedule { stream, runloop },
        ThreadCall::AddSource { runloop, source },
        ThreadCall::Retain(runloop),
        ThreadCall::InvalidateSource(source),
        ThreadCall::StopStream(stream),
        ThreadCall::PurgeEvents(stream),
        ThreadCall::InvalidateStream(stream),
        ThreadCall::ReleaseStream(stream),
    ]);
}

/// Nothing is left behind and nothing is given up twice. The thread leaves the watcher the one
/// reference to the run loop that it took, and the one to the source that came with making it;
/// stopping the watcher gives up just these, after the thread has ended. A thread that the watcher
/// hears no run loop from leaves none. A stream that was started or refused is given up once.
pub proof fn law_references_balance(stream: usize, runloop: usize, source: usize)
    requires
        runloop != source,
    ensures
        ({
            let handles = RunLoop { runloop, stop_source: source };
            let whole = whole_run(stream, runloop, source).1;
            let stop = stop_calls(Some(handles));
            &&& all_taken(whole, runloop) - all_given_up(stop, runloop) == 0
            &&& 1 + all_taken(whole, source) - all_given_up(stop, source) == 0
            &&& stop[2] == Call::Join(JoinReason::Stop)
            &&& all_given_up(stop.take(2), runloop) == 0
            &&& all_given_up(stop.take(2), source) == 0
            &&& streams_released(whole, stream) == 1
            &&& streams_released(refused_run(stream, runloop).1, stream) == 1
            &&& all_taken(refused_run(stream, runloop).1, runloop) == 0
            &&& all_taken(orphaned_run(stream, runloop, source).1, runloop) == 0
            &&& 1 + all_taken(orphaned_run(stream, runloop, source).1, source) == 0
        }),
{
    law_thread_calls(stream, runloop, source);
    reveal_with_fuel(all_taken, 9);
    reveal_with_fuel(streams_released, 9);
    reveal_with_fuel(all_given_up, 6);
}

} // verus!
