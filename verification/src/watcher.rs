//! The watcher: which paths its next stream covers, and whether a stream runs.

use vstd::prelude::*;

use crate::callback::StreamContextInfo;
use crate::error::Error;
use crate::flags::{CREATE_FLAG_FILE_EVENTS, CREATE_FLAG_NO_DEFER, CREATE_FLAG_WATCH_ROOT};
use crate::flags::EVENT_ID_SINCE_NOW;
use crate::path::FsPath;
use crate::protocol::{Answer, Call, JoinReason, Next, Question, RecursiveMode, RunLoop, Startup};
use crate::protocol::{Step, StreamSetup};
use crate::recursive_info::RecursiveInfo;

verus! {

use crate::error::{view_result, ErrorKindView, ErrorView};
use crate::path::{components, Components};
use crate::protocol::{AnswerView, NextView, QuestionView, StepView, StreamSetupView};

/// The watchers that there are.
#[derive(Clone, Copy, Debug, PartialEq, Eq, Structural)]
pub enum WatcherKind {
    Fsevent,
}

/// What follows once a path was added or taken away.
#[derive(Clone, Copy, Debug, PartialEq, Eq, Structural)]
pub enum Then {
    /// The operation is over.
    Return,
    /// A stream is started on the paths as they are now.
    Run,
}

/// What an operation waits for.
#[derive(Debug)]
enum Phase {
    Idle,
    Exists { path: FsPath, recursive: bool, then_do: Then },
    Canonical { path: FsPath, recursive: bool, then_do: Then },
    Encode { path: FsPath, recursive: bool, canonical: FsPath, then_do: Then },
    Lookup { path: FsPath, then_do: Then },
    Compare { path: FsPath, string: usize, then_do: Then },
    Resolve { path: FsPath, then_do: Then },
    Startup { result: Result<(), Error> },
}

/// What an operation waits for.
pub enum PhaseView {
    /// There is no operation.
    Idle,
    /// Adding `path`: whether there is anything there.
    Exists { path: Seq<u8>, recursive: bool, then_do: Then },
    /// Adding `path`: where it leads.
    Canonical { path: Seq<u8>, recursive: bool, then_do: Then },
    /// Adding `path`: the string for it.
    Encode { path: Seq<u8>, recursive: bool, canonical: Seq<u8>, then_do: Then },
    /// Taking `path` away: the string for it.
    Lookup { path: Seq<u8>, then_do: Then },
    /// Taking `path` away: which strings equal `string`.
    Compare { path: Seq<u8>, string: usize, then_do: Then },
    /// Taking `path` away: where it leads.
    Resolve { path: Seq<u8>, then_do: Then },
    /// What became of a stream. If it runs, the operation returns `result`.
    Startup { result: Result<(), ErrorView> },
}

impl View for Phase {
    type V = PhaseView;

    closed spec fn view(&self) -> PhaseView {
        match self {
            Phase::Idle => PhaseView::Idle,
            Phase::Exists { path, recursive, then_do } => PhaseView::Exists {
                path: path@,
                recursive: *recursive,
                then_do: *then_do,
            },
            Phase::Canonical { path, recursive, then_do } => PhaseView::Canonical {
                path: path@,
                recursive: *recursive,
                then_do: *then_do,
            },
            Phase::Encode { path, recursive, canonical, then_do } => PhaseView::Encode {
                path: path@,
                recursive: *recursive,
                canonical: canonical@,
                then_do: *then_do,
            },
            Phase::Lookup { path, then_do } => PhaseView::Lookup { path: path@, then_do: *then_do },
            Phase::Compare { path, string, then_do } => PhaseView::Compare {
                path: path@,
                string: *string,
                then_do: *then_do,
            },
            Phase::Resolve { path, then_do } => PhaseView::Resolve {
                path: path@,
                then_do: *then_do,
            },
            Phase::Startup { result } => PhaseView::Startup { result: view_result(*result) },
        }
    }
}

/// A watcher on top of FSEvents.
#[derive(Debug)]
pub struct FsEventWatcher {
    paths: Vec<usize>,
    since_when: u64,
    flags: u32,
    runloop: Option<RunLoop>,
    recursive_info: RecursiveInfo,
    phase: Phase,
}

/// The state of a [`FsEventWatcher`].
pub struct WatcherView {
    /// The strings for the paths of the next stream, by their addresses.
    pub paths: Seq<usize>,
    /// The event id from which a stream reports.
    pub since_when: u64,
    /// The flags that a stream is made with.
    pub flags: u32,
    /// The run loop of the stream that runs.
    pub runloop: Option<RunLoop>,
    /// The watched paths, with all links followed, and whether each is watched with everything
    /// below.
    pub recursive_info: Map<Components, bool>,
    /// What the operation that is under way waits for.
    pub phase: PhaseView,
}

impl View for FsEventWatcher {
    type V = WatcherView;

    closed spec fn view(&self) -> WatcherView {
        WatcherView {
            paths: self.paths@,
            since_when: self.since_when,
            flags: self.flags,
            runloop: self.runloop,
            recursive_info: self.recursive_info@,
            phase: self.phase@,
        }
    }
}

/// The calls that end a stream: its thread is told to stop, waited for, and only then are the
/// references given up that it left behind.
pub open spec fn stop_calls(running: Option<RunLoop>) -> Seq<Call> {
    match running {
        Some(running) => seq![
            Call::SignalSource(running.stop_source),
            Call::WakeUp(running.runloop),
            Call::Join(JoinReason::Stop),
            Call::Release(running.stop_source),
            Call::Release(running.runloop),
        ],
        None => Seq::<Call>::empty(),
    }
}

/// The calls that give up what an operation holds that is not gone on with.
pub open spec fn pending_calls(phase: PhaseView) -> Seq<Call> {
    match phase {
        PhaseView::Compare { string, .. } => seq![Call::Release(string)],
        _ => Seq::<Call>::empty(),
    }
}

/// The calls that take the strings out of the list which are found `equal`, from the place `from`
/// on. The last comes first, so that none moves before its turn.
pub open spec fn removal_calls(equal: Seq<bool>, from: int) -> Seq<Call>
    decreases equal.len() - from,
{
    if from >= equal.len() {
        Seq::<Call>::empty()
    } else {
        let later = removal_calls(equal, from + 1);
        if equal[from] {
            later.push(Call::RemovePathAt(from as usize))
        } else {
            later
        }
    }
}

/// The strings from the place `from` on that are not found `equal`, in order.
pub open spec fn unequal(paths: Seq<usize>, equal: Seq<bool>, from: int) -> Seq<usize>
    decreases paths.len() - from,
{
    if from >= paths.len() {
        Seq::<usize>::empty()
    } else {
        let later = unequal(paths, equal, from + 1);
        if equal[from] {
            later
        } else {
            seq![paths[from]] + later
        }
    }
}

/// The place that is watched no more when `path` is taken away: the one that it leads to, or, if it
/// leads nowhere any more, the one that it spells.
pub open spec fn forgotten_place(
    path: Seq<u8>,
    canonical: Result<Seq<u8>, std::io::Error>,
) -> Components {
    match canonical {
        Ok(canonical) => components(canonical),
        Err(_) => components(path),
    }
}

/// There is nothing at the path that was to be watched.
pub open spec fn no_such_path(path: Seq<u8>) -> ErrorView {
    ErrorView::of(ErrorKindView::PathNotFound).with_path(path)
}

/// The stream did not start.
pub open spec fn start_failure() -> ErrorView {
    ErrorView::of(ErrorKindView::Generic("unable to start FSEvent stream"@))
}

/// The stream's thread ended without a report.
pub open spec fn no_report() -> ErrorView {
    ErrorView::of(ErrorKindView::Generic("unable to receive FSEvent stream startup result"@))
}

impl WatcherView {
    /// A watcher of no path.
    pub open spec fn fresh() -> WatcherView {
        WatcherView {
            paths: Seq::<usize>::empty(),
            since_when: EVENT_ID_SINCE_NOW,
            flags: CREATE_FLAG_FILE_EVENTS | CREATE_FLAG_NO_DEFER | CREATE_FLAG_WATCH_ROOT,
            runloop: None,
            recursive_info: Map::<Components, bool>::empty(),
            phase: PhaseView::Idle,
        }
    }

    pub open spec fn with_phase(self, phase: PhaseView) -> WatcherView {
        WatcherView { phase, ..self }
    }

    /// The watcher without its stream.
    pub open spec fn stopped(self) -> WatcherView {
        WatcherView { runloop: None, ..self }
    }

    /// What a stream is made from now.
    pub open spec fn setup(self) -> StreamSetupView {
        StreamSetupView {
            since_when: self.since_when,
            flags: self.flags,
            context: self.recursive_info,
        }
    }

    /// A stream is started, unless there is no path for it. After that the operation returns
    /// `result`.
    pub open spec fn run(self, calls: Seq<Call>, result: Result<(), ErrorView>) -> (
        WatcherView,
        StepView,
    ) {
        if self.paths.len() == 0 {
            (
                self.with_phase(PhaseView::Idle),
                StepView { calls, next: NextView::Return(result) },
            )
        } else {
            (
                self.with_phase(PhaseView::Startup { result }),
                StepView { calls, next: NextView::Ask(QuestionView::StartStream(self.setup())) },
            )
        }
    }

    /// The path was added or taken away, or it was not, as `result` tells.
    pub open spec fn finish(
        self,
        calls: Seq<Call>,
        result: Result<(), ErrorView>,
        then_do: Then,
    ) -> (WatcherView, StepView) {
        match then_do {
            Then::Return => (
                self.with_phase(PhaseView::Idle),
                StepView { calls, next: NextView::Return(result) },
            ),
            Then::Run => self.run(calls, result),
        }
    }

    /// A path is to be added.
    pub open spec fn append_path(
        self,
        calls: Seq<Call>,
        path: Seq<u8>,
        recursive: bool,
        then_do: Then,
    ) -> (WatcherView, StepView) {
        (
            self.with_phase(PhaseView::Exists { path, recursive, then_do }),
            StepView { calls, next: NextView::Ask(QuestionView::Exists(path)) },
        )
    }

    /// A path is to be taken away.
    pub open spec fn remove_path(self, calls: Seq<Call>, path: Seq<u8>, then_do: Then) -> (
        WatcherView,
        StepView,
    ) {
        (
            self.with_phase(PhaseView::Lookup { path, then_do }),
            StepView { calls, next: NextView::Ask(QuestionView::Encode(path)) },
        )
    }

    /// The stream is stopped, and a path is to be added before the next.
    pub open spec fn watch(self, path: Seq<u8>, recursive: bool) -> (WatcherView, StepView) {
        self.stopped().append_path(
            pending_calls(self.phase) + stop_calls(self.runloop),
            path,
            recursive,
            Then::Run,
        )
    }

    /// The stream is stopped, and a path is to be taken away before the next.
    pub open spec fn unwatch(self, path: Seq<u8>) -> (WatcherView, StepView) {
        self.stopped().remove_path(
            pending_calls(self.phase) + stop_calls(self.runloop),
            path,
            Then::Run,
        )
    }

    /// A path is to be added, and no stream is started yet.
    pub open spec fn add_to_batch(self, path: Seq<u8>, recursive: bool) -> (WatcherView, StepView) {
        self.append_path(pending_calls(self.phase), path, recursive, Then::Return)
    }

    /// A path is to be taken away, and no stream is started yet.
    pub open spec fn remove_in_batch(self, path: Seq<u8>) -> (WatcherView, StepView) {
        self.remove_path(pending_calls(self.phase), path, Then::Return)
    }

    /// A stream is started on the paths as they are now.
    pub open spec fn commit(self) -> (WatcherView, StepView) {
        self.run(pending_calls(self.phase), Ok(()))
    }

    /// The calls that leave nothing of the watcher behind.
    pub open spec fn closing_calls(self) -> Seq<Call> {
        (pending_calls(self.phase) + stop_calls(self.runloop)).push(Call::ReleasePaths)
    }

    /// Whether `answer` is of the kind that the operation waits for.
    pub open spec fn awaits(self, answer: AnswerView) -> bool {
        match self.phase {
            PhaseView::Idle => false,
            PhaseView::Exists { .. } => answer is Exists,
            PhaseView::Canonical { .. } => answer is Canonical,
            PhaseView::Encode { .. } => answer is Encoded,
            PhaseView::Lookup { .. } => answer is Encoded,
            PhaseView::Compare { .. } => answer matches AnswerView::Compared(equal) && equal.len()
                == self.paths.len(),
            PhaseView::Resolve { .. } => answer is Canonical,
            PhaseView::Startup { .. } => answer is Startup,
        }
    }

    /// Adding `path`: whether there is anything there.
    pub open spec fn after_exists(
        self,
        path: Seq<u8>,
        recursive: bool,
        then_do: Then,
        exists: bool,
    ) -> (WatcherView, StepView) {
        if exists {
            (
                self.with_phase(PhaseView::Canonical { path, recursive, then_do }),
                StepView {
                    calls: Seq::<Call>::empty(),
                    next: NextView::Ask(QuestionView::Canonicalize(path)),
                },
            )
        } else {
            self.finish(Seq::<Call>::empty(), Err(no_such_path(path)), then_do)
        }
    }

    /// Adding `path`: where it leads.
    pub open spec fn after_canonical(
        self,
        path: Seq<u8>,
        recursive: bool,
        then_do: Then,
        canonical: Result<Seq<u8>, std::io::Error>,
    ) -> (WatcherView, StepView) {
        match canonical {
            Ok(canonical) => (
                self.with_phase(PhaseView::Encode { path, recursive, canonical, then_do }),
                StepView {
                    calls: Seq::<Call>::empty(),
                    next: NextView::Ask(QuestionView::Encode(path)),
                },
            ),
            Err(error) => self.finish(
                Seq::<Call>::empty(),
                Err(ErrorView::of(ErrorKindView::Io(error))),
                then_do,
            ),
        }
    }

    /// Adding `path`: the string for it. Only now is anything added.
    pub open spec fn after_encode(
        self,
        path: Seq<u8>,
        recursive: bool,
        canonical: Seq<u8>,
        then_do: Then,
        encoded: Result<usize, usize>,
    ) -> (WatcherView, StepView) {
        match encoded {
            Ok(string) => (WatcherView {
                paths: self.paths.push(string),
                recursive_info: self.recursive_info.insert(components(canonical), recursive),
                ..self
            }).finish(seq![Call::AppendPath(string), Call::Release(string)], Ok(()), then_do),
            Err(error) => self.finish(
                seq![Call::Release(error)],
                Err(no_such_path(path)),
                then_do,
            ),
        }
    }

    /// Taking `path` away: the string for it.
    pub open spec fn after_lookup(
        self,
        path: Seq<u8>,
        then_do: Then,
        encoded: Result<usize, usize>,
    ) -> (WatcherView, StepView) {
        match encoded {
            Ok(string) => (
                self.with_phase(PhaseView::Compare { path, string, then_do }),
                StepView {
                    calls: Seq::<Call>::empty(),
                    next: NextView::Ask(QuestionView::Compare(string)),
                },
            ),
            Err(error) => self.finish(
                seq![Call::Release(error)],
                Err(ErrorView::of(ErrorKindView::WatchNotFound).with_path(path)),
                then_do,
            ),
        }
    }

    /// Taking `path` away: which strings equal `string`. They go.
    pub open spec fn after_compare(
        self,
        path: Seq<u8>,
        string: usize,
        then_do: Then,
        equal: Seq<bool>,
    ) -> (WatcherView, StepView) {
        (
            WatcherView {
                paths: unequal(self.paths, equal, 0),
                phase: PhaseView::Resolve { path, then_do },
                ..self
            },
            StepView {
                calls: seq![Call::Release(string)] + removal_calls(equal, 0),
                next: NextView::Ask(QuestionView::Canonicalize(path)),
            },
        )
    }

    /// Taking `path` away: where it leads.
    pub open spec fn after_resolve(
        self,
        path: Seq<u8>,
        then_do: Then,
        canonical: Result<Seq<u8>, std::io::Error>,
    ) -> (WatcherView, StepView) {
        let key = forgotten_place(path, canonical);
        let result = if self.recursive_info.dom().contains(key) {
            Ok(())
        } else {
            Err(ErrorView::of(ErrorKindView::WatchNotFound))
        };
        (WatcherView { recursive_info: self.recursive_info.remove(key), ..self }).finish(
            Seq::<Call>::empty(),
            result,
            then_do,
        )
    }

    /// What became of a stream. A stream that does not run is what the operation returns, whatever
    /// became of the path, and the watcher holds no run loop.
    pub open spec fn after_startup(self, result: Result<(), ErrorView>, startup: Startup) -> (
        WatcherView,
        StepView,
    ) {
        let idle = self.with_phase(PhaseView::Idle);
        match startup {
            Startup::Running(running) => (
                WatcherView { runloop: Some(running), ..idle },
                StepView { calls: Seq::<Call>::empty(), next: NextView::Return(result) },
            ),
            Startup::Refused => (
                idle,
                StepView {
                    calls: seq![Call::Join(JoinReason::StartFailure)],
                    next: NextView::Return(Err(start_failure())),
                },
            ),
            Startup::Disconnected => (
                idle,
                StepView {
                    calls: seq![Call::Join(JoinReason::ChannelClosed)],
                    next: NextView::Return(Err(no_report())),
                },
            ),
            Startup::NoThread(error) => (
                idle,
                StepView {
                    calls: Seq::<Call>::empty(),
                    next: NextView::Return(Err(ErrorView::of(ErrorKindView::Io(error)))),
                },
            ),
        }
    }

    /// The operation goes on with an answer of the kind that it waits for.
    pub open spec fn resume(self, answer: AnswerView) -> (WatcherView, StepView)
        recommends
            self.awaits(answer),
    {
        match self.phase {
            PhaseView::Idle => (
                self,
                StepView { calls: Seq::<Call>::empty(), next: NextView::Return(Ok(())) },
            ),
            PhaseView::Exists { path, recursive, then_do } => self.after_exists(
                path,
                recursive,
                then_do,
                answer->Exists_0,
            ),
            PhaseView::Canonical { path, recursive, then_do } => self.after_canonical(
                path,
                recursive,
                then_do,
                answer->Canonical_0,
            ),
            PhaseView::Encode { path, recursive, canonical, then_do } => self.after_encode(
                path,
                recursive,
                canonical,
                then_do,
                answer->Encoded_0,
            ),
            PhaseView::Lookup { path, then_do } => self.after_lookup(
                path,
                then_do,
                answer->Encoded_0,
            ),
            PhaseView::Compare { path, string, then_do } => self.after_compare(
                path,
                string,
                then_do,
                answer->Compared_0,
            ),
            PhaseView::Resolve { path, then_do } => self.after_resolve(
                path,
                then_do,
                answer->Canonical_0,
            ),
            PhaseView::Startup { result } => self.after_startup(result, answer->Startup_0),
        }
    }
}

impl FsEventWatcher {
    /// A watcher of no path.
    fn from_event_handler() -> (watcher: FsEventWatcher)
        ensures
            watcher@ == WatcherView::fresh(),
    {
        FsEventWatcher {
            paths: Vec::new(),
            since_when: EVENT_ID_SINCE_NOW,
            flags: CREATE_FLAG_FILE_EVENTS | CREATE_FLAG_NO_DEFER | CREATE_FLAG_WATCH_ROOT,
            runloop: None,
            recursive_info: RecursiveInfo::new(),
            phase: Phase::Idle,
        }
    }

    /// A watcher of no path.
    pub fn new() -> (watcher: FsEventWatcher)
        ensures
            watcher@ == WatcherView::fresh(),
    {
        FsEventWatcher::from_event_handler()
    }

    /// Whether a stream runs.
    pub fn is_running(&self) -> (running: bool)
        ensures
            running == (self@.runloop is Some),
    {
        self.runloop.is_some()
    }

    /// Ends the stream, if one runs, with these calls.
    pub fn stop(&mut self) -> (calls: Vec<Call>)
        ensures
            calls@ == stop_calls(old(self)@.runloop),
            final(self)@ == old(self)@.stopped(),
    {
        let mut calls: Vec<Call> = Vec::new();
        if let Some(running) = self.runloop.take() {
            calls.push(Call::SignalSource(running.stop_source));
            calls.push(Call::WakeUp(running.runloop));
            calls.push(Call::Join(JoinReason::Stop));
            calls.push(Call::Release(running.stop_source));
            calls.push(Call::Release(running.runloop));
        }
        assert(calls@ =~= stop_calls(old(self)@.runloop));
        calls
    }

    /// Starts a stream, unless there is no path for it.
    fn run(&mut self, calls: Vec<Call>, result: Result<(), Error>) -> (step: Step)
        ensures
            (final(self)@, step@) == old(self)@.run(calls@, view_result(result)),
    {
        if self.paths.len() == 0 {
            // A watcher may be left with no path; it then stays stopped.
            self.phase = Phase::Idle;
            return Step { calls, next: Next::Return(result) };
        }
        self.phase = Phase::Startup { result };
        let context = StreamContextInfo { recursive_info: self.recursive_info.clone() };
        let setup = StreamSetup { since_when: self.since_when, flags: self.flags, context };
        Step { calls, next: Next::Ask(Question::StartStream(setup)) }
    }

    /// Goes on after a path was added or taken away, or was not.
    fn finish(&mut self, calls: Vec<Call>, result: Result<(), Error>, then_do: Then) -> (step: Step)
        ensures
            (final(self)@, step@) == old(self)@.finish(calls@, view_result(result), then_do),
    {
        match then_do {
            Then::Return => {
                self.phase = Phase::Idle;
                Step { calls, next: Next::Return(result) }
            },
            Then::Run => self.run(calls, result),
        }
    }

    /// Starts to add a path.
    fn append_path(
        &mut self,
        calls: Vec<Call>,
        path: FsPath,
        recursive_mode: RecursiveMode,
        then_do: Then,
    ) -> (step: Step)
        ensures
            (final(self)@, step@) == old(self)@.append_path(
                calls@,
                path@,
                recursive_mode == RecursiveMode::Recursive,
                then_do,
            ),
    {
        let question = Question::Exists(path.clone());
        self.phase = Phase::Exists { path, recursive: recursive_mode.is_recursive(), then_do };
        Step { calls, next: Next::Ask(question) }
    }

    /// Starts to take a path away.
    fn remove_path(&mut self, calls: Vec<Call>, path: FsPath, then_do: Then) -> (step: Step)
        ensures
            (final(self)@, step@) == old(self)@.remove_path(calls@, path@, then_do),
    {
        let question = Question::Encode(path.clone());
        self.phase = Phase::Lookup { path, then_do };
        Step { calls, next: Next::Ask(question) }
    }

    /// Gives up the operation that is under way, with these calls.
    fn give_up(&mut self) -> (calls: Vec<Call>)
        ensures
            calls@ == pending_calls(old(self)@.phase),
            final(self)@ == old(self)@.with_phase(PhaseView::Idle),
    {
        let mut calls: Vec<Call> = Vec::new();
        if let Phase::Compare { string, .. } = &self.phase {
            calls.push(Call::Release(*string));
        }
        assert(calls@ =~= pending_calls(old(self)@.phase));
        self.phase = Phase::Idle;
        calls
    }

    /// Gives up the operation that is under way and ends the stream, if one runs, with these calls.
    fn clear(&mut self) -> (calls: Vec<Call>)
        ensures
            calls@ == pending_calls(old(self)@.phase) + stop_calls(old(self)@.runloop),
            final(self)@ == old(self)@.stopped().with_phase(PhaseView::Idle),
    {
        let mut calls: Vec<Call> = self.give_up();
        let mut ending: Vec<Call> = self.stop();
        calls.append(&mut ending);
        calls
    }

    /// Starts to watch `path`. An operation that was under way is given up.
    pub fn watch(&mut self, path: FsPath, recursive_mode: RecursiveMode) -> (step: Step)
        ensures
            (final(self)@, step@) == old(self)@.watch(
                path@,
                recursive_mode == RecursiveMode::Recursive,
            ),
    {
        let calls: Vec<Call> = self.clear();
        self.append_path(calls, path, recursive_mode, Then::Run)
    }

    /// Starts to forget `path`. An operation that was under way is given up.
    pub fn unwatch(&mut self, path: FsPath) -> (step: Step)
        ensures
            (final(self)@, step@) == old(self)@.unwatch(path@),
    {
        let calls: Vec<Call> = self.clear();
        self.remove_path(calls, path, Then::Run)
    }

    fn on_exists(
        &mut self,
        path: FsPath,
        recursive: bool,
        then_do: Then,
        exists: bool,
    ) -> (step: Step)
        ensures
            (final(self)@, step@) == old(self)@.after_exists(path@, recursive, then_do, exists),
    {
        let calls: Vec<Call> = Vec::new();
        if !exists {
            return self.finish(calls, Err(Error::path_not_found().add_path(path)), then_do);
        }
        let question = Question::Canonicalize(path.clone());
        self.phase = Phase::Canonical { path, recursive, then_do };
        Step { calls, next: Next::Ask(question) }
    }

    fn on_canonical(
        &mut self,
        path: FsPath,
        recursive: bool,
        then_do: Then,
        canonical: Result<FsPath, std::io::Error>,
    ) -> (step: Step)
        ensures
            (final(self)@, step@) == old(self)@.after_canonical(
                path@,
                recursive,
                then_do,
                (Answer::Canonical(canonical))@->Canonical_0,
            ),
    {
        let calls: Vec<Call> = Vec::new();
        match canonical {
            Ok(canonical) => {
                let question = Question::Encode(path.clone());
                self.phase = Phase::Encode { path, recursive, canonical, then_do };
                Step { calls, next: Next::Ask(question) }
            },
            Err(error) => self.finish(calls, Err(Error::io(error)), then_do),
        }
    }

    fn on_encode(
        &mut self,
        path: FsPath,
        recursive: bool,
        canonical: FsPath,
        then_do: Then,
        encoded: Result<usize, usize>,
    ) -> (step: Step)
        ensures
            (final(self)@, step@) == old(self)@.after_encode(
                path@,
                recursive,
                canonical@,
                then_do,
                encoded,
            ),
    {
        let mut calls: Vec<Call> = Vec::new();
        match encoded {
            Ok(string) => {
                calls.push(Call::AppendPath(string));
                calls.push(Call::Release(string));
                assert(calls@ =~= seq![Call::AppendPath(string), Call::Release(string)]);
                self.paths.push(string);
                self.recursive_info.insert(&canonical, recursive);
                self.finish(calls, Ok(()), then_do)
            },
            Err(error) => {
                // Most likely what was there went away, or cannot be seen any more.
                calls.push(Call::Release(error));
                assert(calls@ =~= seq![Call::Release(error)]);
                self.finish(calls, Err(Error::path_not_found().add_path(path)), then_do)
            },
        }
    }

    fn on_lookup(&mut self, path: FsPath, then_do: Then, encoded: Result<usize, usize>) -> (step:
        Step)
        ensures
            (final(self)@, step@) == old(self)@.after_lookup(path@, then_do, encoded),
    {
        let mut calls: Vec<Call> = Vec::new();
        match encoded {
            Ok(string) => {
                self.phase = Phase::Compare { path, string, then_do };
                Step { calls, next: Next::Ask(Question::Compare(string)) }
            },
            Err(error) => {
                calls.push(Call::Release(error));
                assert(calls@ =~= seq![Call::Release(error)]);
                self.finish(calls, Err(Error::watch_not_found().add_path(path)), then_do)
            },
        }
    }

    fn on_compare(&mut self, path: FsPath, string: usize, then_do: Then, equal: Vec<bool>) -> (step:
        Step)
        requires
            equal@.len() == old(self)@.paths.len(),
        ensures
            (final(self)@, step@) == old(self)@.after_compare(path@, string, then_do, equal@),
    {
        let mut calls: Vec<Call> = Vec::new();
        calls.push(Call::Release(string));
        let ghost all = self.paths@;
        let mut idx: usize = equal.len();
        assert(all.take(all.len() as int) =~= all);
        assert(self.paths@ =~= all.take(idx as int) + unequal(all, equal@, idx as int));
        assert(calls@ =~= seq![Call::Release(string)] + removal_calls(equal@, idx as int));
        while idx > 0
            invariant
                idx <= equal@.len() == all.len(),
                self.paths@ == all.take(idx as int) + unequal(all, equal@, idx as int),
                calls@ == seq![Call::Release(string)] + removal_calls(equal@, idx as int),
                self.since_when == old(self).since_when,
                self.flags == old(self).flags,
                self.runloop == old(self).runloop,
                self.recursive_info == old(self).recursive_info,
            decreases idx,
        {
            let ghost later = unequal(all, equal@, idx as int);
            idx = idx - 1;
            if equal[idx] {
                self.paths.remove(idx);
                calls.push(Call::RemovePathAt(idx));
                assert(self.paths@ =~= all.take(idx as int) + later);
                assert(calls@ =~= seq![Call::Release(string)] + removal_calls(equal@, idx as int));
            } else {
                assert(all.take(idx + 1) + later =~= all.take(idx as int) + (seq![all[idx as int]]
                    + later));
            }
        }
        assert(self.paths@ =~= unequal(all, equal@, 0));
        let question = Question::Canonicalize(path.clone());
        self.phase = Phase::Resolve { path, then_do };
        Step { calls, next: Next::Ask(question) }
    }

    fn on_resolve(
        &mut self,
        path: FsPath,
        then_do: Then,
        canonical: Result<FsPath, std::io::Error>,
    ) -> (step: Step)
        ensures
            (final(self)@, step@) == old(self)@.after_resolve(
                path@,
                then_do,
                (Answer::Canonical(canonical))@->Canonical_0,
            ),
    {
        let key: FsPath = match canonical {
            Ok(canonical) => canonical,
            Err(_) => path,
        };
        let result = match self.recursive_info.remove(&key) {
            Some(_) => Ok(()),
            None => Err(Error::watch_not_found()),
        };
        self.finish(Vec::new(), result, then_do)
    }

    fn on_startup(&mut self, result: Result<(), Error>, startup: Startup) -> (step: Step)
        ensures
            (final(self)@, step@) == old(self)@.after_startup(view_result(result), startup),
    {
        self.phase = Phase::Idle;
        let mut calls: Vec<Call> = Vec::new();
        match startup {
            Startup::Running(running) => {
                self.runloop = Some(running);
                Step { calls, next: Next::Return(result) }
            },
            Startup::Refused => {
                calls.push(Call::Join(JoinReason::StartFailure));
                assert(calls@ =~= seq![Call::Join(JoinReason::StartFailure)]);
                Step {
                    calls,
                    next: Next::Return(Err(Error::generic("unable to start FSEvent stream"))),
                }
            },
            Startup::Disconnected => {
                calls.push(Call::Join(JoinReason::ChannelClosed));
                assert(calls@ =~= seq![Call::Join(JoinReason::ChannelClosed)]);
                Step {
                    calls,
                    next: Next::Return(
                        Err(Error::generic("unable to receive FSEvent stream startup result")),
                    ),
                }
            },
            Startup::NoThread(error) => Step { calls, next: Next::Return(Err(Error::io(error))) },
        }
    }

    /// Whether `answer` is of the kind that the operation under way waits for.
    pub fn expects(&self, answer: &Answer) -> (expected: bool)
        ensures
            expected == self@.awaits(answer@),
    {
        match (&self.phase, answer) {
            (Phase::Exists { .. }, Answer::Exists(_)) => true,
            (Phase::Canonical { .. }, Answer::Canonical(_)) => true,
            (Phase::Encode { .. }, Answer::Encoded(_)) => true,
            (Phase::Lookup { .. }, Answer::Encoded(_)) => true,
            (Phase::Compare { .. }, Answer::Compared(equal)) => equal.len() == self.paths.len(),
            (Phase::Resolve { .. }, Answer::Canonical(_)) => true,
            (Phase::Startup { .. }, Answer::Startup(_)) => true,
            _ => false,
        }
    }

    /// Goes on with the operation that is under way, with an answer of the kind that it waits for.
    pub fn resume(&mut self, answer: Answer) -> (step: Step)
        requires
            old(self)@.awaits(answer@),
        ensures
            (final(self)@, step@) == old(self)@.resume(answer@),
    {
        let mut phase = Phase::Idle;
        std::mem::swap(&mut phase, &mut self.phase);
        match (phase, answer) {
            (Phase::Exists { path, recursive, then_do }, Answer::Exists(exists)) => self.on_exists(
                path,
                recursive,
                then_do,
                exists,
            ),
            (
                Phase::Canonical { path, recursive, then_do },
                Answer::Canonical(canonical),
            ) => self.on_canonical(path, recursive, then_do, canonical),
            (
                Phase::Encode { path, recursive, canonical, then_do },
                Answer::Encoded(encoded),
            ) => self.on_encode(path, recursive, canonical, then_do, encoded),
            (Phase::Lookup { path, then_do }, Answer::Encoded(encoded)) => self.on_lookup(
                path,
                then_do,
                encoded,
            ),
            (
                Phase::Compare { path, string, then_do },
                Answer::Compared(equal),
            ) => self.on_compare(path, string, then_do, equal),
            (Phase::Resolve { path, then_do }, Answer::Canonical(canonical)) => self.on_resolve(
                path,
                then_do,
                canonical,
            ),
            (Phase::Startup { result }, Answer::Startup(startup)) => self.on_startup(
                result,
                startup,
            ),
            _ => {
                assert(false);
                Step { calls: Vec::new(), next: Next::Return(Ok(())) }
            },
        }
    }

    /// Ends the watcher: gives up the operation that is under way, ends the stream, if one runs,
    /// and gives up the list of the paths, with these calls.
    pub fn close(self) -> (calls: Vec<Call>)
        ensures
            calls@ == self@.closing_calls(),
    {
        let mut watcher = self;
        let mut calls: Vec<Call> = watcher.clear();
        calls.push(Call::ReleasePaths);
        calls
    }

    /// The event id from which a stream reports.
    pub fn since_when(&self) -> (event_id: u64)
        ensures
            event_id == self@.since_when,
    {
        self.since_when
    }

    /// The flags that a stream is made with.
    pub fn flags(&self) -> (flags: u32)
        ensures
            flags == self@.flags,
    {
        self.flags
    }

    /// The run loop of the stream that runs.
    pub fn runloop(&self) -> (runloop: Option<RunLoop>)
        ensures
            runloop == self@.runloop,
    {
        self.runloop
    }

    /// The watched paths.
    pub fn recursive_info(&self) -> (info: &RecursiveInfo)
        ensures
            info@ == self@.recursive_info,
    {
        &self.recursive_info
    }

    /// Ends the stream, if one runs, with these calls, so that several paths can be added and taken
    /// away before the next is started.
    pub fn paths_mut(&mut self) -> (r: (Vec<Call>, FsEventPathsMut<'_>))
        ensures
            r.0@ == stop_calls(old(self)@.runloop),
            r.1.now() == old(self)@.stopped(),
            r.1.0@ == old(self)@.stopped(),
            *final(r.1.0) == *final(self),
    {
        FsEventPathsMut::new(self)
    }

    /// There is nothing to configure.
    pub fn configure(&mut self) -> (changed: Result<bool, Error>)
        ensures
            changed == Ok::<bool, Error>(false),
            final(self)@ == old(self)@,
    {
        Ok(false)
    }

    /// Which watcher this is.
    pub fn kind() -> (kind: WatcherKind)
        ensures
            kind == WatcherKind::Fsevent,
    {
        WatcherKind::Fsevent
    }
}

/// A watcher whose stream is stopped, so that several paths can be added and taken away before
/// the next is started.
pub struct FsEventPathsMut<'a>(pub &'a mut FsEventWatcher);

impl<'a> FsEventPathsMut<'a> {
    /// The watcher as it is now.
    pub open spec fn now(self) -> WatcherView {
        self.0@
    }

    /// Ends the stream, if one runs, with these calls.
    pub fn new(watcher: &'a mut FsEventWatcher) -> (r: (Vec<Call>, FsEventPathsMut<'a>))
        ensures
            r.0@ == stop_calls(old(watcher)@.runloop),
            r.1.now() == old(watcher)@.stopped(),
            r.1.0@ == old(watcher)@.stopped(),
            *final(r.1.0) == *final(watcher),
    {
        let calls: Vec<Call> = watcher.stop();
        (calls, FsEventPathsMut(watcher))
    }

    /// Starts to add a path. An operation that was under way is given up.
    pub fn add(&mut self, path: FsPath, recursive_mode: RecursiveMode) -> (step: Step)
        requires
            old(self).now().runloop is None,
        ensures
            (final(self).now(), step@) == old(self).now().add_to_batch(
                path@,
                recursive_mode == RecursiveMode::Recursive,
            ),
            final(self).now() == final(self).0@,
            *final(final(self).0) == *final(old(self).0),
    {
        let calls: Vec<Call> = self.0.give_up();
        self.0.append_path(calls, path, recursive_mode, Then::Return)
    }

    /// Starts to take a path away. An operation that was under way is given up.
    pub fn remove(&mut self, path: FsPath) -> (step: Step)
        requires
            old(self).now().runloop is None,
        ensures
            (final(self).now(), step@) == old(self).now().remove_in_batch(path@),
            final(self).now() == final(self).0@,
            *final(final(self).0) == *final(old(self).0),
    {
        let calls: Vec<Call> = self.0.give_up();
        self.0.remove_path(calls, path, Then::Return)
    }

    /// Starts a stream, unless there is no path for it. An operation that was under way is given
    /// up.
    pub fn commit(&mut self) -> (step: Step)
        requires
            old(self).now().runloop is None,
        ensures
            (final(self).now(), step@) == old(self).now().commit(),
            final(self).now() == final(self).0@,
            *final(final(self).0) == *final(old(self).0),
    {
        let calls: Vec<Call> = self.0.give_up();
        self.0.run(calls, Ok(()))
    }

    /// Goes on with the operation that is under way, with an answer of the kind that it waits for.
    pub fn resume(&mut self, answer: Answer) -> (step: Step)
        requires
            old(self).now().awaits(answer@),
        ensures
            (final(self).now(), step@) == old(self).now().resume(answer@),
            final(self).now() == final(self).0@,
            *final(final(self).0) == *final(old(self).0),
    {
        self.0.resume(answer)
    }
}

} // verus!
