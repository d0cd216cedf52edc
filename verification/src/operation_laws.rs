//! What each operation on a watcher does from its first step to its last, for every answer of the
//! platform: what it asks, which calls it has made, what is watched in the end, which stream is
//! asked for, and what it returns.

use vstd::prelude::*;

use crate::flags::StreamFlags;
use crate::protocol::{Call, JoinReason, RunLoop, Startup};
use crate::stream_thread::{StreamThread, ThreadAnswer, ThreadCall, ThreadNext};

verus! {

use crate::callback::{all_reported, law_single_event, RawEventView};
use crate::error::{ErrorKindView, ErrorView};
use crate::event::EventView;
use crate::laws::{law_kept_strings, places};
use crate::path::{components, Components};
use crate::protocol::{AnswerView, NextView, QuestionView, StreamSetupView};
use crate::recursive_info::law_watched;
use crate::translate::translation;
use crate::watcher::{no_such_path, stop_calls, PhaseView, WatcherView};

/// A new watcher watches nothing, and its streams are to report single files, at once, along with
/// changes on the way to a watched path, from now on.
pub proof fn law_fresh_watcher()
    ensures
        ({
            let fresh = WatcherView::fresh();
            &&& fresh.paths.len() == 0
            &&& fresh.recursive_info.dom() == Set::<Components>::empty()
            &&& fresh.since_when == u64::MAX
            &&& fresh.flags == 0x16
            &&& fresh.runloop is None
            &&& fresh.phase is Idle
        }),
{
    assert(0x10u32 | 0x02u32 | 0x04u32 == 0x16u32) by (bit_vector);
}

/// A watcher that has nothing under way takes no answer.
pub proof fn law_idle_takes_no_answer(watcher: WatcherView, answer: AnswerView)
    requires
        watcher.phase is Idle,
    ensures
        !watcher.awaits(answer),
{
}

/// To stop a watcher signals and wakes the thread of its stream, waits for it, and only behind that
/// gives its two references up. Everything else stays as it is. To close a watcher gives up what an
/// operation holds, ends the stream in the same way, and gives up the list, in this order.
pub proof fn law_stop_and_close(watcher: WatcherView)
    ensures
        ({
            let stopped = watcher.stopped();
            let held = match watcher.phase {
                PhaseView::Compare { string: waiting, .. } => seq![Call::Release(waiting)],
                _ => Seq::<Call>::empty(),
            };
            let ending = match watcher.runloop {
                Some(handles) => seq![
                    Call::SignalSource(handles.stop_source),
                    Call::WakeUp(handles.runloop),
                    Call::Join(JoinReason::Stop),
                    Call::Release(handles.stop_source),
                    Call::Release(handles.runloop),
                ],
                None => Seq::<Call>::empty(),
            };
            &&& stop_calls(watcher.runloop) == ending
            &&& watcher.closing_calls() == held + ending + seq![Call::ReleasePaths]
            &&& stopped.paths == watcher.paths
            &&& stopped.recursive_info == watcher.recursive_info
            &&& stopped.since_when == watcher.since_when
            &&& stopped.flags == watcher.flags
            &&& stopped.runloop is None
            &&& stopped.phase == watcher.phase
        }),
{
    assert(watcher.closing_calls() =~= crate::watcher::pending_calls(watcher.phase) + stop_calls(
        watcher.runloop,
    ) + seq![Call::ReleasePaths]);
}

/// What follows when the platform says what became of the stream that an operation asked for: a
/// stream that runs is known by its handles, and the operation returns what it would have returned
/// without one. Otherwise the thread is waited for, if there is one, no stream runs, and the
/// operation returns why. What is watched does not change.
pub proof fn law_startup(
    watcher: WatcherView,
    result: Result<(), ErrorView>,
    handles: RunLoop,
    failure: std::io::Error,
    answer: AnswerView,
)
    requires
        watcher.phase == (PhaseView::Startup { result }),
        watcher.runloop is None,
    ensures
        ({
            let nothing = Seq::<Seq<u8>>::empty();
            let (running, s_running) = watcher.resume(
                AnswerView::Startup(Startup::Running(handles)),
            );
            let (refused, s_refused) = watcher.resume(AnswerView::Startup(Startup::Refused));
            let (silent, s_silent) = watcher.resume(AnswerView::Startup(Startup::Disconnected));
            let (without, s_without) = watcher.resume(
                AnswerView::Startup(Startup::NoThread(failure)),
            );
            &&& watcher.awaits(answer) <==> answer is Startup
            &&& running.paths == watcher.paths
            &&& running.recursive_info == watcher.recursive_info
            &&& running.since_when == watcher.since_when
            &&& running.flags == watcher.flags
            &&& running.runloop == Some(handles)
            &&& running.phase is Idle
            &&& s_running.calls.len() == 0
            &&& s_running.next == NextView::Return(result)
            &&& refused.paths == watcher.paths
            &&& refused.recursive_info == watcher.recursive_info
            &&& refused.since_when == watcher.since_when
            &&& refused.flags == watcher.flags
            &&& refused.runloop is None
            &&& refused.phase is Idle
            &&& s_refused.calls == seq![Call::Join(JoinReason::StartFailure)]
            &&& s_refused.next == NextView::Return(
                Err(
                    ErrorView {
                        kind: ErrorKindView::Generic("unable to start FSEvent stream"@),
                        paths: nothing,
                    },
                ),
            )
            &&& silent.paths == watcher.paths
            &&& silent.recursive_info == watcher.recursive_info
            &&& silent.since_when == watcher.since_when
            &&& silent.flags == watcher.flags
            &&& silent.runloop is None
            &&& silent.phase is Idle
            &&& s_silent.calls == seq![Call::Join(JoinReason::ChannelClosed)]
            &&& s_silent.next == NextView::Return(
                Err(
                    ErrorView {
                        kind: ErrorKindView::Generic(
                            "unable to receive FSEvent stream startup result"@,
                        ),
                        paths: nothing,
                    },
                ),
            )
            &&& without.paths == watcher.paths
            &&& without.recursive_info == watcher.recursive_info
            &&& without.since_when == watcher.since_when
            &&& without.flags == watcher.flags
            &&& without.runloop is None
            &&& without.phase is Idle
            &&& s_without.calls.len() == 0
            &&& s_without.next == NextView::Return(
                Err(ErrorView { kind: ErrorKindView::Io(failure), paths: nothing }),
            )
        }),
{
}

/// Every stream that is ever asked for covers just what is watched at that time, with the settings
/// of the watcher, and there is a path for it.
pub proof fn law_every_stream_is_current(watcher: WatcherView, answer: AnswerView)
    requires
        watcher.awaits(answer),
    ensures
        ({
            let (after, step) = watcher.resume(answer);
            let (committed, commit) = watcher.commit();
            &&& step.next matches NextView::Ask(QuestionView::StartStream(setup)) ==> {
                &&& setup.context == after.recursive_info
                &&& setup.since_when == watcher.since_when
                &&& setup.flags == watcher.flags
                &&& after.paths.len() > 0
            }
            &&& commit.next matches NextView::Ask(QuestionView::StartStream(setup)) ==> {
                &&& setup.context == watcher.recursive_info
                &&& setup.since_when == watcher.since_when
                &&& setup.flags == watcher.flags
                &&& watcher.paths.len() > 0
            }
        }),
{
}

/// To watch a path, or to add it to a batch, step by step: what the operation that was under way
/// holds is given up first, and, but for a batch, the stream is ended. Then it is asked whether the
/// path exists, where it leads, and for its string. Until all three are known, nothing that is
/// watched changes.
pub proof fn law_adding_asks(
    batch: bool,
    watcher: WatcherView,
    path: Seq<u8>,
    recursive: bool,
    canonical: Seq<u8>,
)
    requires
        batch ==> watcher.runloop is None,
    ensures
        ({
            let held = match watcher.phase {
                PhaseView::Compare { string: waiting, .. } => seq![Call::Release(waiting)],
                _ => Seq::<Call>::empty(),
            };
            let ending = match watcher.runloop {
                Some(handles) => seq![
                    Call::SignalSource(handles.stop_source),
                    Call::WakeUp(handles.runloop),
                    Call::Join(JoinReason::Stop),
                    Call::Release(handles.stop_source),
                    Call::Release(handles.runloop),
                ],
                None => Seq::<Call>::empty(),
            };
            let (w1, s1) = if batch {
                watcher.add_to_batch(path, recursive)
            } else {
                watcher.watch(path, recursive)
            };
            let (w2, s2) = w1.resume(AnswerView::Exists(true));
            let (w3, s3) = w2.resume(AnswerView::Canonical(Ok(canonical)));
            &&& s1.calls == held + ending
            &&& s1.next == NextView::Ask(QuestionView::Exists(path))
            &&& w1.paths == watcher.paths
            &&& w1.recursive_info == watcher.recursive_info
            &&& w1.since_when == watcher.since_when
            &&& w1.flags == watcher.flags
            &&& w1.runloop is None
            &&& forall|answer: AnswerView| #[trigger] w1.awaits(answer) <==> answer is Exists
            &&& s2.calls.len() == 0
            &&& s2.next == NextView::Ask(QuestionView::Canonicalize(path))
            &&& w2.paths == watcher.paths
            &&& w2.recursive_info == watcher.recursive_info
            &&& w2.since_when == watcher.since_when
            &&& w2.flags == watcher.flags
            &&& w2.runloop is None
            &&& forall|answer: AnswerView| #[trigger] w2.awaits(answer) <==> answer is Canonical
            &&& s3.calls.len() == 0
            &&& s3.next == NextView::Ask(QuestionView::Encode(path))
            &&& w3.paths == watcher.paths
            &&& w3.recursive_info == watcher.recursive_info
            &&& w3.since_when == watcher.since_when
            &&& w3.flags == watcher.flags
            &&& w3.runloop is None
            &&& forall|answer: AnswerView| #[trigger] w3.awaits(answer) <==> answer is Encoded
        }),
{
    let calls = crate::watcher::pending_calls(watcher.phase);
    assert(calls + Seq::<Call>::empty() =~= calls);
}

/// How adding a path ends. It is watched, at the place that it leads to and in the way that was
/// asked for, exactly if it exists, leads somewhere and has a string; nothing else that is watched
/// changes. Otherwise what the operation returns says which of these failed, and every reference is
/// given up. But for a batch, a stream is asked for that covers what is watched then, if anything
/// is.
pub proof fn law_adding_ends(
    batch: bool,
    watcher: WatcherView,
    path: Seq<u8>,
    recursive: bool,
    canonical: Seq<u8>,
    failure: std::io::Error,
    string: usize,
    encoding_error: usize,
)
    requires
        batch ==> watcher.runloop is None,
    ensures
        ({
            let (w1, s1) = if batch {
                watcher.add_to_batch(path, recursive)
            } else {
                watcher.watch(path, recursive)
            };
            let w2 = w1.resume(AnswerView::Exists(true)).0;
            let w3 = w2.resume(AnswerView::Canonical(Ok(canonical))).0;
            let (absent, s_absent) = w1.resume(AnswerView::Exists(false));
            let (lost, s_lost) = w2.resume(AnswerView::Canonical(Err(failure)));
            let (nameless, s_nameless) = w3.resume(AnswerView::Encoded(Err(encoding_error)));
            let (added, s_added) = w3.resume(AnswerView::Encoded(Ok(string)));
            let more = watcher.recursive_info.insert(components(canonical), recursive);
            let longer = watcher.paths + seq![string];
            let not_found = Err(
                ErrorView { kind: ErrorKindView::PathNotFound, paths: seq![path] },
            );
            let unresolved = Err(
                ErrorView {
                    kind: ErrorKindView::Io(failure),
                    paths: Seq::<Seq<u8>>::empty(),
                },
            );
            &&& s_absent.calls.len() == 0
            &&& absent.paths == watcher.paths
            &&& absent.recursive_info == watcher.recursive_info
            &&& absent.since_when == watcher.since_when
            &&& absent.flags == watcher.flags
            &&& absent.runloop is None
            &&& batch || watcher.paths.len() == 0 ==> absent.phase is Idle
                && s_absent.next == NextView::Return(not_found)
            &&& !batch && watcher.paths.len() > 0 ==> {
                &&& absent.phase == (PhaseView::Startup { result: not_found })
                &&& s_absent.next == NextView::Ask(
                    QuestionView::StartStream(
                        StreamSetupView {
                            since_when: watcher.since_when,
                            flags: watcher.flags,
                            context: watcher.recursive_info,
                        },
                    ),
                )
            }
            &&& s_lost.calls.len() == 0
            &&& lost.paths == watcher.paths
            &&& lost.recursive_info == watcher.recursive_info
            &&& lost.since_when == watcher.since_when
            &&& lost.flags == watcher.flags
            &&& lost.runloop is None
            &&& batch || watcher.paths.len() == 0 ==> lost.phase is Idle
                && s_lost.next == NextView::Return(unresolved)
            &&& !batch && watcher.paths.len() > 0 ==> {
                &&& lost.phase == (PhaseView::Startup { result: unresolved })
                &&& s_lost.next == NextView::Ask(
                    QuestionView::StartStream(
                        StreamSetupView {
                            since_when: watcher.since_when,
                            flags: watcher.flags,
                            context: watcher.recursive_info,
                        },
                    ),
                )
            }
            &&& s_nameless.calls == seq![Call::Release(encoding_error)]
            &&& nameless.paths == watcher.paths
            &&& nameless.recursive_info == watcher.recursive_info
            &&& nameless.since_when == watcher.since_when
            &&& nameless.flags == watcher.flags
            &&& nameless.runloop is None
            &&& batch || watcher.paths.len() == 0 ==> nameless.phase is Idle
                && s_nameless.next == NextView::Return(not_found)
            &&& !batch && watcher.paths.len() > 0 ==> {
                &&& nameless.phase == (PhaseView::Startup { result: not_found })
                &&& s_nameless.next == NextView::Ask(
                    QuestionView::StartStream(
                        StreamSetupView {
                            since_when: watcher.since_when,
                            flags: watcher.flags,
                            context: watcher.recursive_info,
                        },
                    ),
                )
            }
            &&& s_added.calls == seq![Call::AppendPath(string), Call::Release(string)]
            &&& added.paths == longer
            &&& added.recursive_info == more
            &&& added.since_when == watcher.since_when
            &&& added.flags == watcher.flags
            &&& added.runloop is None
            &&& batch || longer.len() == 0 ==> added.phase is Idle
                && s_added.next == NextView::Return(Ok(()))
            &&& !batch && longer.len() > 0 ==> {
                &&& added.phase == (PhaseView::Startup { result: Ok(()) })
                &&& s_added.next == NextView::Ask(
                    QuestionView::StartStream(
                        StreamSetupView {
                            since_when: watcher.since_when,
                            flags: watcher.flags,
                            context: more,
                        },
                    ),
                )
            }
        }),
{
    let not_found = ErrorView { kind: ErrorKindView::PathNotFound, paths: seq![path] };
    assert(no_such_path(path) =~= not_found);
    assert(watcher.paths.push(string) =~= watcher.paths + seq![string]);
}

/// To forget a path, or to take it away in a batch, step by step: what the operation that was under
/// way holds is given up first, and, but for a batch, the stream is ended. Then it is asked for the
/// string of the path, which strings of the list equal it, and where the path leads. The strings
/// that are equal leave the list, the last first, and the others stay in order.
pub proof fn law_removing_asks(
    batch: bool,
    watcher: WatcherView,
    path: Seq<u8>,
    string: usize,
    equal: Seq<bool>,
)
    requires
        batch ==> watcher.runloop is None,
        equal.len() == watcher.paths.len(),
    ensures
        ({
            let held = match watcher.phase {
                PhaseView::Compare { string: waiting, .. } => seq![Call::Release(waiting)],
                _ => Seq::<Call>::empty(),
            };
            let ending = match watcher.runloop {
                Some(handles) => seq![
                    Call::SignalSource(handles.stop_source),
                    Call::WakeUp(handles.runloop),
                    Call::Join(JoinReason::Stop),
                    Call::Release(handles.stop_source),
                    Call::Release(handles.runloop),
                ],
                None => Seq::<Call>::empty(),
            };
            let all = Seq::new(watcher.paths.len(), |i: int| i);
            let kept = all.filter(|i: int| !equal[i]).map_values(|i: int| watcher.paths[i]);
            let cleared = all.filter(|i: int| equal[i]).reverse().map_values(
                |i: int| Call::RemovePathAt(i as usize),
            );
            let (w1, s1) = if batch {
                watcher.remove_in_batch(path)
            } else {
                watcher.unwatch(path)
            };
            let (w2, s2) = w1.resume(AnswerView::Encoded(Ok(string)));
            let (w3, s3) = w2.resume(AnswerView::Compared(equal));
            &&& s1.calls == held + ending
            &&& s1.next == NextView::Ask(QuestionView::Encode(path))
            &&& w1.paths == watcher.paths
            &&& w1.recursive_info == watcher.recursive_info
            &&& w1.since_when == watcher.since_when
            &&& w1.flags == watcher.flags
            &&& w1.runloop is None
            &&& forall|answer: AnswerView| #[trigger] w1.awaits(answer) <==> answer is Encoded
            &&& s2.calls.len() == 0
            &&& s2.next == NextView::Ask(QuestionView::Compare(string))
            &&& w2.paths == watcher.paths
            &&& w2.recursive_info == watcher.recursive_info
            &&& w2.since_when == watcher.since_when
            &&& w2.flags == watcher.flags
            &&& w2.runloop is None
            &&& w2.phase matches PhaseView::Compare { string: waiting, .. } && waiting == string
            &&& forall|answer: AnswerView| #[trigger]
                w2.awaits(answer) <==> (answer matches AnswerView::Compared(found) && found.len()
                    == watcher.paths.len())
            &&& s3.calls == seq![Call::Release(string)] + cleared
            &&& s3.next == NextView::Ask(QuestionView::Canonicalize(path))
            &&& w3.paths == kept
            &&& w3.recursive_info == watcher.recursive_info
            &&& w3.since_when == watcher.since_when
            &&& w3.flags == watcher.flags
            &&& w3.runloop is None
            &&& forall|answer: AnswerView| #[trigger] w3.awaits(answer) <==> answer is Canonical
        }),
{
    let calls = crate::watcher::pending_calls(watcher.phase);
    assert(calls + Seq::<Call>::empty() =~= calls);
    law_kept_strings(watcher.paths, equal);
    assert(places(0, watcher.paths.len() as int) =~= Seq::new(watcher.paths.len(), |i: int| i));
}

/// How forgetting a path ends. A path without a string is not forgotten. Otherwise the place that
/// the path leads to is watched no more, or, if it leads nowhere, the place that it spells; nothing
/// else that is watched changes. The operation succeeds exactly if that place was watched. But for
/// a batch, a stream is asked for that covers what is watched then, if any path is left.
pub proof fn law_removing_ends(
    batch: bool,
    watcher: WatcherView,
    path: Seq<u8>,
    canonical: Seq<u8>,
    failure: std::io::Error,
    string: usize,
    encoding_error: usize,
    equal: Seq<bool>,
)
    requires
        batch ==> watcher.runloop is None,
        equal.len() == watcher.paths.len(),
    ensures
        ({
            let all = Seq::new(watcher.paths.len(), |i: int| i);
            let kept = all.filter(|i: int| !equal[i]).map_values(|i: int| watcher.paths[i]);
            let (w1, s1) = if batch {
                watcher.remove_in_batch(path)
            } else {
                watcher.unwatch(path)
            };
            let (nameless, s_nameless) = w1.resume(AnswerView::Encoded(Err(encoding_error)));
            let w2 = w1.resume(AnswerView::Encoded(Ok(string))).0;
            let w3 = w2.resume(AnswerView::Compared(equal)).0;
            let (gone, s_gone) = w3.resume(AnswerView::Canonical(Err(failure)));
            let (there, s_there) = w3.resume(AnswerView::Canonical(Ok(canonical)));
            let without_spelled = watcher.recursive_info.remove(components(path));
            let without_place = watcher.recursive_info.remove(components(canonical));
            let no_string = Err(
                ErrorView { kind: ErrorKindView::WatchNotFound, paths: seq![path] },
            );
            let not_watched = Err(
                ErrorView {
                    kind: ErrorKindView::WatchNotFound,
                    paths: Seq::<Seq<u8>>::empty(),
                },
            );
            let spelled_result = if watcher.recursive_info.dom().contains(components(path)) {
                Ok(())
            } else {
                not_watched
            };
            let place_result = if watcher.recursive_info.dom().contains(components(canonical)) {
                Ok(())
            } else {
                not_watched
            };
            &&& s_nameless.calls == seq![Call::Release(encoding_error)]
            &&& nameless.paths == watcher.paths
            &&& nameless.recursive_info == watcher.recursive_info
            &&& nameless.since_when == watcher.since_when
            &&& nameless.flags == watcher.flags
            &&& nameless.runloop is None
            &&& batch || watcher.paths.len() == 0 ==> nameless.phase is Idle
                && s_nameless.next == NextView::Return(no_string)
            &&& !batch && watcher.paths.len() > 0 ==> {
                &&& nameless.phase == (PhaseView::Startup { result: no_string })
                &&& s_nameless.next == NextView::Ask(
                    QuestionView::StartStream(
                        StreamSetupView {
                            since_when: watcher.since_when,
                            flags: watcher.flags,
                            context: watcher.recursive_info,
                        },
                    ),
                )
            }
            &&& s_gone.calls.len() == 0
            &&& gone.paths == kept
            &&& gone.recursive_info == without_spelled
            &&& gone.since_when == watcher.since_when
            &&& gone.flags == watcher.flags
            &&& gone.runloop is None
            &&& batch || kept.len() == 0 ==> gone.phase is Idle
                && s_gone.next == NextView::Return(spelled_result)
            &&& !batch && kept.len() > 0 ==> {
                &&& gone.phase == (PhaseView::Startup { result: spelled_result })
                &&& s_gone.next == NextView::Ask(
                    QuestionView::StartStream(
                        StreamSetupView {
                            since_when: watcher.since_when,
                            flags: watcher.flags,
                            context: without_spelled,
                        },
                    ),
                )
            }
            &&& s_there.calls.len() == 0
            &&& there.paths == kept
            &&& there.recursive_info == without_place
            &&& there.since_when == watcher.since_when
            &&& there.flags == watcher.flags
            &&& there.runloop is None
            &&& batch || kept.len() == 0 ==> there.phase is Idle
                && s_there.next == NextView::Return(place_result)
            &&& !batch && kept.len() > 0 ==> {
                &&& there.phase == (PhaseView::Startup { result: place_result })
                &&& s_there.next == NextView::Ask(
                    QuestionView::StartStream(
                        StreamSetupView {
                            since_when: watcher.since_when,
                            flags: watcher.flags,
                            context: without_place,
                        },
                    ),
                )
            }
        }),
{
    law_kept_strings(watcher.paths, equal);
    assert(places(0, watcher.paths.len() as int) =~= Seq::new(watcher.paths.len(), |i: int| i));
    let no_string = ErrorView { kind: ErrorKindView::WatchNotFound, paths: seq![path] };
    assert(ErrorView::of(ErrorKindView::WatchNotFound).with_path(path) =~= no_string);
}

/// A path that leads nowhere any more can still be forgotten: the place that it spells is watched
/// no more, every other place is watched as before, and the operation succeeds exactly if the place
/// was watched, once the stream on what is left runs.
pub proof fn law_forgetting_what_is_gone(
    watcher: WatcherView,
    path: Seq<u8>,
    string: usize,
    equal: Seq<bool>,
    failure: std::io::Error,
    running: RunLoop,
    other: Components,
)
    requires
        equal.len() == watcher.paths.len(),
    ensures
        ({
            let w1 = watcher.unwatch(path).0;
            let w2 = w1.resume(AnswerView::Encoded(Ok(string))).0;
            let w3 = w2.resume(AnswerView::Compared(equal)).0;
            let (after, step) = w3.resume(AnswerView::Canonical(Err(failure)));
            let returned = if after.paths.len() == 0 {
                step.next
            } else {
                after.resume(AnswerView::Startup(Startup::Running(running))).1.next
            };
            &&& !after.recursive_info.dom().contains(components(path))
            &&& other != components(path) ==> (after.recursive_info.dom().contains(other)
                <==> watcher.recursive_info.dom().contains(other))
            &&& other != components(path) && watcher.recursive_info.dom().contains(other)
                ==> after.recursive_info[other] == watcher.recursive_info[other]
            &&& returned == NextView::Return(Ok(())) <==> watcher.recursive_info.dom().contains(
                components(path),
            )
        }),
{
    law_removing_ends(false, watcher, path, path, failure, string, 0, equal);
}

/// A commit gives up what the operation that was under way holds, and asks for a stream that covers
/// just what is watched, with the settings of the watcher. Without a path it asks for none, and
/// that is no error.
pub proof fn law_commit(watcher: WatcherView)
    requires
        watcher.runloop is None,
    ensures
        ({
            let held = match watcher.phase {
                PhaseView::Compare { string: waiting, .. } => seq![Call::Release(waiting)],
                _ => Seq::<Call>::empty(),
            };
            let (after, step) = watcher.commit();
            &&& step.calls == held
            &&& after.paths == watcher.paths
            &&& after.recursive_info == watcher.recursive_info
            &&& after.since_when == watcher.since_when
            &&& after.flags == watcher.flags
            &&& after.runloop is None
            &&& watcher.paths.len() == 0 ==> after.phase is Idle
                && step.next == NextView::Return(Ok(()))
            &&& watcher.paths.len() > 0 ==> {
                &&& after.phase == (PhaseView::Startup { result: Ok(()) })
                &&& step.next == NextView::Ask(
                    QuestionView::StartStream(
                        StreamSetupView {
                            since_when: watcher.since_when,
                            flags: watcher.flags,
                            context: watcher.recursive_info,
                        },
                    ),
                )
            }
        }),
{
}

/// Whatever is watched when a batch is committed is heard by the stream that the commit asks for:
/// all that happens at a watched place and to what it holds directly, and, if it is watched with
/// everything below, to all that lies there, is passed on in full.
pub proof fn law_committed_is_heard(
    watcher: WatcherView,
    base: Components,
    event: RawEventView,
    process_id: u32,
)
    requires
        watcher.runloop is None,
        watcher.paths.len() > 0,
        watcher.recursive_info.dom().contains(base),
        ({
            let place = components(event.path);
            &&& base.len() <= place.len()
            &&& forall|i: int| 0 <= i < base.len() ==> place[i] == #[trigger] base[i]
            &&& watcher.recursive_info[base] || place.len() == base.len() || (place.len()
                == base.len() + 1 && place[place.len() - 1] != seq![0x2fu8])
        }),
    ensures
        ({
            let told = translation(StreamFlags { bits: event.flags }, true, process_id);
            &&& watcher.commit().1.next matches NextView::Ask(QuestionView::StartStream(setup))
            &&& all_reported(setup.context, seq![event], process_id).len() == told.len()
            &&& forall|i: int|
                0 <= i < told.len() ==> all_reported(setup.context, seq![event], process_id)[i] == (
                EventView { paths: seq![event.path], ..#[trigger] told[i] })
        }),
{
    law_commit(watcher);
    law_watched(watcher.recursive_info, components(event.path));
    law_single_event(watcher.recursive_info, event, process_id);
}

/// A path that was added to a batch is heard once the batch is committed, whatever else the batch
/// adds before.
pub proof fn law_batch_is_heard(
    watcher: WatcherView,
    path: Seq<u8>,
    recursive: bool,
    canonical: Seq<u8>,
    string: usize,
    event: RawEventView,
    process_id: u32,
)
    requires
        watcher.runloop is None,
        ({
            let place = components(event.path);
            let base = components(canonical);
            &&& base.len() <= place.len()
            &&& forall|i: int| 0 <= i < base.len() ==> place[i] == #[trigger] base[i]
            &&& recursive || place.len() == base.len() || (place.len() == base.len() + 1
                && place[place.len() - 1] != seq![0x2fu8])
        }),
    ensures
        ({
            let w1 = watcher.add_to_batch(path, recursive).0;
            let w2 = w1.resume(AnswerView::Exists(true)).0;
            let w3 = w2.resume(AnswerView::Canonical(Ok(canonical))).0;
            let w4 = w3.resume(AnswerView::Encoded(Ok(string))).0;
            let told = translation(StreamFlags { bits: event.flags }, true, process_id);
            &&& w4.commit().1.next matches NextView::Ask(QuestionView::StartStream(setup))
            &&& all_reported(setup.context, seq![event], process_id).len() == told.len()
            &&& forall|i: int|
                0 <= i < told.len() ==> all_reported(setup.context, seq![event], process_id)[i] == (
                EventView { paths: seq![event.path], ..#[trigger] told[i] })
        }),
{
    let w1 = watcher.add_to_batch(path, recursive).0;
    let w2 = w1.resume(AnswerView::Exists(true)).0;
    let w3 = w2.resume(AnswerView::Canonical(Ok(canonical))).0;
    let w4 = w3.resume(AnswerView::Encoded(Ok(string))).0;
    law_committed_is_heard(w4, components(canonical), event, process_id);
}

/// What the thread of a stream waits for, from its first step to its last: that the stream starts,
/// that there is a source for its own run loop, that the watcher takes over both, and that the run
/// loop is stopped. It takes no other answer, and it ends when there is nothing to wait for. A
/// stream that was started is stopped before it is given up, and the source is listened to and the
/// run loop kept alive before the watcher gets to know of either.
pub proof fn law_thread_waits(stream: usize, runloop: usize, source: usize)
    ensures
        ({
            let (t1, s1) = StreamThread::first(stream, runloop);
            let (refused, s_refused) = t1.next(ThreadAnswer::Started(false));
            let (t2, s2) = t1.next(ThreadAnswer::Started(true));
            let (t3, s3) = t2.next(ThreadAnswer::Source(source));
            let (orphan, s_orphan) = t3.next(ThreadAnswer::Published(false));
            let (t4, s4) = t3.next(ThreadAnswer::Published(true));
            let (done, s_done) = t4.next(ThreadAnswer::Stopped);
            &&& s1.next == ThreadNext::Start(stream)
            &&& s1.calls == seq![ThreadCall::Schedule { stream, runloop }]
            &&& forall|answer: ThreadAnswer| #[trigger] t1.awaits(answer) <==> answer is Started
            &&& s_refused.next == ThreadNext::End
            &&& s_refused.calls == seq![
                ThreadCall::InvalidateStream(stream),
                ThreadCall::ReleaseStream(stream),
                ThreadCall::ReportRefusal,
            ]
            &&& forall|answer: ThreadAnswer| !#[trigger] refused.awaits(answer)
            &&& s2.next == ThreadNext::MakeSource
            &&& s2.calls.len() == 0
            &&& forall|answer: ThreadAnswer| #[trigger] t2.awaits(answer) <==> answer is Source
            &&& s3.next == ThreadNext::Publish(RunLoop { runloop, stop_source: source })
            &&& s3.calls == seq![
                ThreadCall::AddSource { runloop, source },
                ThreadCall::Retain(runloop),
            ]
            &&& forall|answer: ThreadAnswer| #[trigger] t3.awaits(answer) <==> answer is Published
            &&& s_orphan.next == ThreadNext::Panic
            &&& s_orphan.calls == seq![
                ThreadCall::Release(runloop),
                ThreadCall::InvalidateSource(source),
                ThreadCall::Release(source),
            ]
            &&& forall|answer: ThreadAnswer| !#[trigger] orphan.awaits(answer)
            &&& s4.next == ThreadNext::Run
            &&& s4.calls.len() == 0
            &&& forall|answer: ThreadAnswer| #[trigger] t4.awaits(answer) <==> answer is Stopped
            &&& s_done.next == ThreadNext::End
            &&& s_done.calls == seq![
                ThreadCall::InvalidateSource(source),
                ThreadCall::StopStream(stream),
                ThreadCall::PurgeEvents(stream),
                ThreadCall::InvalidateStream(stream),
                ThreadCall::ReleaseStream(stream),
            ]
            &&& forall|answer: ThreadAnswer| !#[trigger] done.awaits(answer)
        }),
{
}

} // verus!
