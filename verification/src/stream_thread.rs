//! The thread that a stream runs on.
//!
//! Like the watcher, the thread is a list of steps: calls for the platform to make, in order, and
//! then either the end or something to do whose outcome decides what comes next.

use vstd::prelude::*;

use crate::protocol::RunLoop;

verus! {

/// Something for the platform to do that has no outcome.
#[derive(Clone, Copy, Debug, PartialEq, Eq, Structural)]
pub enum ThreadCall {
    /// Have a stream report through a run loop.
    Schedule { stream: usize, runloop: usize },
    /// Tell the watcher that the stream did not start.
    ReportRefusal,
    /// Let a run loop listen to a source.
    AddSource { runloop: usize, source: usize },
    /// Take a reference to an object.
    Retain(usize),
    /// Give up a reference to an object.
    Release(usize),
    /// Take a source out of every run loop.
    InvalidateSource(usize),
    StopStream(usize),
    /// Forget what the stream has not reported yet: a stopped stream may still report it.
    PurgeEvents(usize),
    /// Take a stream out of every run loop.
    InvalidateStream(usize),
    /// Give up a stream, and with it what its callback knows.
    ReleaseStream(usize),
}

/// What follows the calls of a step.
#[derive(Clone, Copy, Debug, PartialEq, Eq, Structural)]
pub enum ThreadNext {
    /// Start a stream, and tell whether it started.
    Start(usize),
    /// Make a source that stops the run loop it is heard in.
    MakeSource,
    /// Hand these over to the watcher, and tell whether it took them.
    Publish(RunLoop),
    /// Run the run loop until it is stopped.
    Run,
    /// The thread is done.
    End,
    /// The watcher is gone, which cannot be.
    Panic,
}

/// The outcome of what a [`ThreadNext`] asks for.
#[derive(Clone, Copy, Debug, PartialEq, Eq, Structural)]
pub enum ThreadAnswer {
    Started(bool),
    Source(usize),
    Published(bool),
    Stopped,
}

/// Where a thread stands.
#[derive(Clone, Copy, Debug, PartialEq, Eq, Structural)]
pub enum ThreadPhase {
    Starting { runloop: usize },
    MakingSource { runloop: usize },
    Publishing(RunLoop),
    Running(RunLoop),
    Done,
}

/// The thread of a stream.
#[derive(Clone, Copy, Debug, PartialEq, Eq, Structural)]
pub struct StreamThread {
    pub stream: usize,
    pub phase: ThreadPhase,
}

/// A stretch of a thread's work.
#[derive(Debug)]
pub struct ThreadStep {
    pub calls: Vec<ThreadCall>,
    pub next: ThreadNext,
}

/// The contents of a [`ThreadStep`].
#[verifier::ext_equal]
pub struct ThreadStepView {
    pub calls: Seq<ThreadCall>,
    pub next: ThreadNext,
}

impl View for ThreadStep {
    type V = ThreadStepView;

    open spec fn view(&self) -> ThreadStepView {
        ThreadStepView { calls: self.calls@, next: self.next }
    }
}

impl StreamThread {
    pub open spec fn at(self, phase: ThreadPhase) -> StreamThread {
        StreamThread { stream: self.stream, phase }
    }

    /// The first step of a thread whose run loop is `runloop`.
    pub open spec fn first(stream: usize, runloop: usize) -> (StreamThread, ThreadStepView) {
        (
            StreamThread { stream, phase: ThreadPhase::Starting { runloop } },
            ThreadStepView {
                calls: seq![ThreadCall::Schedule { stream, runloop }],
                next: ThreadNext::Start(stream),
            },
        )
    }

    /// Whether `answer` is of the kind that the thread waits for.
    pub open spec fn awaits(self, answer: ThreadAnswer) -> bool {
        match self.phase {
            ThreadPhase::Starting { .. } => answer is Started,
            ThreadPhase::MakingSource { .. } => answer is Source,
            ThreadPhase::Publishing(_) => answer is Published,
            ThreadPhase::Running(_) => answer is Stopped,
            ThreadPhase::Done => false,
        }
    }

    /// The stream started, or it did not: then it is given up, the watcher is told, and there is
    /// no run loop to be stopped.
    pub open spec fn after_start(self, runloop: usize, started: bool) -> (
        StreamThread,
        ThreadStepView,
    ) {
        if started {
            (
                self.at(ThreadPhase::MakingSource { runloop }),
                ThreadStepView {
                    calls: Seq::<ThreadCall>::empty(),
                    next: ThreadNext::MakeSource,
                },
            )
        } else {
            (
                self.at(ThreadPhase::Done),
                ThreadStepView {
                    calls: seq![
                        ThreadCall::InvalidateStream(self.stream),
                        ThreadCall::ReleaseStream(self.stream),
                        ThreadCall::ReportRefusal,
                    ],
                    next: ThreadNext::End,
                },
            )
        }
    }

    /// The source is there. It is listened to, and the run loop is kept alive for the watcher,
    /// before the watcher gets to know either.
    pub open spec fn after_source(self, runloop: usize, source: usize) -> (
        StreamThread,
        ThreadStepView,
    ) {
        let handles = RunLoop { runloop, stop_source: source };
        (
            self.at(ThreadPhase::Publishing(handles)),
            ThreadStepView {
                calls: seq![
                    ThreadCall::AddSource { runloop, source },
                    ThreadCall::Retain(runloop),
                ],
                next: ThreadNext::Publish(handles),
            },
        )
    }

    /// The watcher took over the two references, or it did not.
    pub open spec fn after_publish(self, handles: RunLoop, published: bool) -> (
        StreamThread,
        ThreadStepView,
    ) {
        if published {
            (
                self.at(ThreadPhase::Running(handles)),
                ThreadStepView { calls: Seq::<ThreadCall>::empty(), next: ThreadNext::Run },
            )
        } else {
            (
                self.at(ThreadPhase::Done),
                ThreadStepView {
                    calls: seq![
                        ThreadCall::Release(handles.runloop),
                        ThreadCall::InvalidateSource(handles.stop_source),
                        ThreadCall::Release(handles.stop_source),
                    ],
                    next: ThreadNext::Panic,
                },
            )
        }
    }

    /// The run loop was stopped. The references that the watcher holds are left to it.
    pub open spec fn after_run(self, handles: RunLoop) -> (StreamThread, ThreadStepView) {
        (
            self.at(ThreadPhase::Done),
            ThreadStepView {
                calls: seq![
                    ThreadCall::InvalidateSource(handles.stop_source),
                    ThreadCall::StopStream(self.stream),
                    ThreadCall::PurgeEvents(self.stream),
                    ThreadCall::InvalidateStream(self.stream),
                    ThreadCall::ReleaseStream(self.stream),
                ],
                next: ThreadNext::End,
            },
        )
    }

    /// The thread goes on with an answer of the kind that it waits for.
    pub open spec fn next(self, answer: ThreadAnswer) -> (StreamThread, ThreadStepView)
        recommends
            self.awaits(answer),
    {
        match self.phase {
            ThreadPhase::Starting { runloop } => self.after_start(runloop, answer->Started_0),
            ThreadPhase::MakingSource { runloop } => self.after_source(runloop, answer->Source_0),
            ThreadPhase::Publishing(handles) => self.after_publish(handles, answer->Published_0),
            ThreadPhase::Running(handles) => self.after_run(handles),
            ThreadPhase::Done => (
                self,
                ThreadStepView { calls: Seq::<ThreadCall>::empty(), next: ThreadNext::End },
            ),
        }
    }

    /// Sets out to start `stream` on the thread whose run loop is `runloop`.
    pub fn begin(stream: usize, runloop: usize) -> (r: (StreamThread, ThreadStep))
        ensures
            (r.0, r.1@) == StreamThread::first(stream, runloop),
    {
        let mut calls: Vec<ThreadCall> = Vec::new();
        calls.push(ThreadCall::Schedule { stream, runloop });
        assert(calls@ =~= seq![ThreadCall::Schedule { stream, runloop }]);
        (
            StreamThread { stream, phase: ThreadPhase::Starting { runloop } },
            ThreadStep { calls, next: ThreadNext::Start(stream) },
        )
    }

    /// Whether `answer` is of the kind that the thread waits for.
    pub fn expects(&self, answer: &ThreadAnswer) -> (expected: bool)
        ensures
            expected == self.awaits(*answer),
    {
        match (self.phase, answer) {
            (ThreadPhase::Starting { .. }, ThreadAnswer::Started(_)) => true,
            (ThreadPhase::MakingSource { .. }, ThreadAnswer::Source(_)) => true,
            (ThreadPhase::Publishing(_), ThreadAnswer::Published(_)) => true,
            (ThreadPhase::Running(_), ThreadAnswer::Stopped) => true,
            _ => false,
        }
    }

    /// Goes on with an answer of the kind that the thread waits for.
    pub fn resume(&mut self, answer: ThreadAnswer) -> (step: ThreadStep)
        requires
            old(self).awaits(answer),
        ensures
            (*final(self), step@) == old(self).next(answer),
    {
        let mut calls: Vec<ThreadCall> = Vec::new();
        let stream: usize = self.stream;
        match (self.phase, answer) {
            (ThreadPhase::Starting { runloop }, ThreadAnswer::Started(true)) => {
                self.phase = ThreadPhase::MakingSource { runloop };
                ThreadStep { calls, next: ThreadNext::MakeSource }
            },
            (ThreadPhase::Starting { .. }, ThreadAnswer::Started(false)) => {
                calls.push(ThreadCall::InvalidateStream(stream));
                calls.push(ThreadCall::ReleaseStream(stream));
                calls.push(ThreadCall::ReportRefusal);
                self.phase = ThreadPhase::Done;
                ThreadStep { calls, next: ThreadNext::End }
            },
            (ThreadPhase::MakingSource { runloop }, ThreadAnswer::Source(source)) => {
                calls.push(ThreadCall::AddSource { runloop, source });
                calls.push(ThreadCall::Retain(runloop));
                let handles = RunLoop { runloop, stop_source: source };
                self.phase = ThreadPhase::Publishing(handles);
                ThreadStep { calls, next: ThreadNext::Publish(handles) }
            },
            (ThreadPhase::Publishing(handles), ThreadAnswer::Published(true)) => {
                self.phase = ThreadPhase::Running(handles);
                ThreadStep { calls, next: ThreadNext::Run }
            },
            (ThreadPhase::Publishing(handles), ThreadAnswer::Published(false)) => {
                calls.push(ThreadCall::Release(handles.runloop));
                calls.push(ThreadCall::InvalidateSource(handles.stop_source));
                calls.push(ThreadCall::Release(handles.stop_source));
                self.phase = ThreadPhase::Done;
                ThreadStep { calls, next: ThreadNext::Panic }
            },
            (ThreadPhase::Running(handles), ThreadAnswer::Stopped) => {
                calls.push(ThreadCall::InvalidateSource(handles.stop_source));
                calls.push(ThreadCall::StopStream(stream));
                calls.push(ThreadCall::PurgeEvents(stream));
                calls.push(ThreadCall::InvalidateStream(stream));
                calls.push(ThreadCall::ReleaseStream(stream));
                self.phase = ThreadPhase::Done;
                ThreadStep { calls, next: ThreadNext::End }
            },
            _ => {
                assert(false);
                ThreadStep { calls, next: ThreadNext::End }
            },
        }
    }
}

} // verus!
