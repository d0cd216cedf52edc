//! What a watcher and the platform it runs on say to each other.
//!
//! A watcher does no work outside itself. It hands out [`Step`]s: calls for the platform to make,
//! in order, and then either what the operation returns or a question. The platform hands the
//! answer back, which gives the next step.
//!
//! Core Foundation objects are named by their addresses.

use vstd::prelude::*;

use crate::callback::StreamContextInfo;
use crate::error::Error;
use crate::path::FsPath;

verus! {

use crate::error::{view_result, ErrorView};
use crate::path::Components;

/// Whether a watch takes in everything below its path.
#[derive(Clone, Copy, Debug, PartialEq, Eq, Structural)]
pub enum RecursiveMode {
    Recursive,
    NonRecursive,
}

impl RecursiveMode {
    pub fn is_recursive(&self) -> (recursive: bool)
        ensures
            recursive == (*self == RecursiveMode::Recursive),
    {
        match self {
            RecursiveMode::Recursive => true,
            RecursiveMode::NonRecursive => false,
        }
    }
}

/// The run loop of a stream's thread, and the source through which it is told to stop. Whoever
/// holds this owns a reference to each.
#[derive(Clone, Copy, Debug, PartialEq, Eq, Structural)]
pub struct RunLoop {
    pub runloop: usize,
    pub stop_source: usize,
}

/// Why a stream's thread is waited for.
#[derive(Clone, Copy, Debug, PartialEq, Eq, Structural)]
pub enum JoinReason {
    /// It was told to stop.
    Stop,
    /// It reported that the stream did not start.
    StartFailure,
    /// It ended without a report.
    ChannelClosed,
}

impl JoinReason {
    /// What is expected of the thread.
    pub open spec fn text(self) -> Seq<char> {
        match self {
            JoinReason::Stop => "thread to shut down"@,
            JoinReason::StartFailure => "thread to shut down after FSEvent stream start failure"@,
            JoinReason::ChannelClosed =>
                "thread to shut down after FSEvent stream startup channel close"@,
        }
    }

    /// What is expected of the thread.
    pub fn expectation(&self) -> (text: &'static str)
        ensures
            text@ == self.text(),
    {
        match self {
            JoinReason::Stop => "thread to shut down",
            JoinReason::StartFailure => "thread to shut down after FSEvent stream start failure",
            JoinReason::ChannelClosed =>
                "thread to shut down after FSEvent stream startup channel close",
        }
    }
}

/// Something for the platform to do that has no answer.
#[derive(Clone, Copy, Debug, PartialEq, Eq, Structural)]
pub enum Call {
    /// Signal a run loop source. The signal stays pending until the loop runs.
    SignalSource(usize),
    /// Wake a run loop up, should it be asleep.
    WakeUp(usize),
    /// Wait for the stream's thread to end.
    Join(JoinReason),
    /// Give up a reference to an object.
    Release(usize),
    /// Put a string behind the paths of the next stream. The list takes a reference of its own.
    AppendPath(usize),
    /// Take the string at a place out of the paths of the next stream.
    RemovePathAt(usize),
    /// Give up the list of the paths, and with it every string in it.
    ReleasePaths,
}

/// What a new stream is made from, besides the list of the paths.
#[derive(Debug)]
pub struct StreamSetup {
    pub since_when: u64,
    pub flags: u32,
    pub context: StreamContextInfo,
}

/// Something that only the platform knows or can do.
#[derive(Debug)]
pub enum Question {
    /// Is there anything at the path?
    Exists(FsPath),
    /// Where does the path lead, with all links followed?
    Canonicalize(FsPath),
    /// Which string does Core Foundation make of the path?
    Encode(FsPath),
    /// Which of the strings in the list of the paths equal this one, upper and lower case aside?
    Compare(usize),
    /// How did it go to make a stream, and to start it on a thread of its own?
    StartStream(StreamSetup),
}

/// What became of a stream that was to be started.
#[derive(Debug)]
pub enum Startup {
    /// It runs.
    Running(RunLoop),
    /// Its thread reported that it did not start.
    Refused,
    /// Its thread ended without a report.
    Disconnected,
    /// There is no thread for it.
    NoThread(std::io::Error),
}

/// The answer to a [`Question`].
#[derive(Debug)]
pub enum Answer {
    Exists(bool),
    Canonical(Result<FsPath, std::io::Error>),
    /// The string, or else the error that Core Foundation made. Either is a reference to be
    /// given up.
    Encoded(Result<usize, usize>),
    /// For each string in the list, whether it is equal.
    Compared(Vec<bool>),
    Startup(Startup),
}

/// What follows the calls of a step.
#[derive(Debug)]
pub enum Next {
    Ask(Question),
    Return(Result<(), Error>),
}

/// A stretch of an operation.
#[derive(Debug)]
pub struct Step {
    pub calls: Vec<Call>,
    pub next: Next,
}

/// The contents of a [`StreamSetup`].
pub struct StreamSetupView {
    pub since_when: u64,
    pub flags: u32,
    pub context: Map<Components, bool>,
}

/// The contents of a [`Question`].
pub enum QuestionView {
    Exists(Seq<u8>),
    Canonicalize(Seq<u8>),
    Encode(Seq<u8>),
    Compare(usize),
    StartStream(StreamSetupView),
}

/// The contents of an [`Answer`].
pub enum AnswerView {
    Exists(bool),
    Canonical(Result<Seq<u8>, std::io::Error>),
    Encoded(Result<usize, usize>),
    Compared(Seq<bool>),
    Startup(Startup),
}

/// The contents of a [`Next`].
pub enum NextView {
    Ask(QuestionView),
    Return(Result<(), ErrorView>),
}

/// The contents of a [`Step`].
pub struct StepView {
    pub calls: Seq<Call>,
    pub next: NextView,
}

impl View for StreamSetup {
    type V = StreamSetupView;

    open spec fn view(&self) -> StreamSetupView {
        StreamSetupView {
            since_when: self.since_when,
            flags: self.flags,
            context: self.context@,
        }
    }
}

impl View for Question {
    type V = QuestionView;

    open spec fn view(&self) -> QuestionView {
        match self {
            Question::Exists(path) => QuestionView::Exists(path@),
            Question::Canonicalize(path) => QuestionView::Canonicalize(path@),
            Question::Encode(path) => QuestionView::Encode(path@),
            Question::Compare(string) => QuestionView::Compare(*string),
            Question::StartStream(setup) => QuestionView::StartStream(setup@),
        }
    }
}

impl View for Answer {
    type V = AnswerView;

    open spec fn view(&self) -> AnswerView {
        match self {
            Answer::Exists(exists) => AnswerView::Exists(*exists),
            Answer::Canonical(Ok(path)) => AnswerView::Canonical(Ok(path@)),
            Answer::Canonical(Err(error)) => AnswerView::Canonical(Err(*error)),
            Answer::Encoded(encoded) => AnswerView::Encoded(*encoded),
            Answer::Compared(equal) => AnswerView::Compared(equal@),
            Answer::Startup(startup) => AnswerView::Startup(*startup),
        }
    }
}

impl View for Next {
    type V = NextView;

    open spec fn view(&self) -> NextView {
        match self {
            Next::Ask(question) => NextView::Ask(question@),
            Next::Return(result) => NextView::Return(view_result(*result)),
        }
    }
}

impl View for Step {
    type V = StepView;

    open spec fn view(&self) -> StepView {
        StepView { calls: self.calls@, next: self.next@ }
    }
}

/// Nothing of what a watcher and its platform say to each other is left out of its contents, and
/// nothing is added to it.
pub proof fn law_message_contents(step: Step, answer: Answer, setup: StreamSetup)
    ensures
        step@.calls == step.calls@,
        match step.next {
            Next::Return(Ok(_)) => step@.next == NextView::Return(Ok(())),
            Next::Return(Err(error)) => step@.next == NextView::Return(Err(error@)),
            Next::Ask(Question::Exists(path)) => step@.next == NextView::Ask(
                QuestionView::Exists(path.bytes@),
            ),
            Next::Ask(Question::Canonicalize(path)) => step@.next == NextView::Ask(
                QuestionView::Canonicalize(path.bytes@),
            ),
            Next::Ask(Question::Encode(path)) => step@.next == NextView::Ask(
                QuestionView::Encode(path.bytes@),
            ),
            Next::Ask(Question::Compare(string)) => step@.next == NextView::Ask(
                QuestionView::Compare(string),
            ),
            Next::Ask(Question::StartStream(asked)) => step@.next == NextView::Ask(
                QuestionView::StartStream(asked@),
            ),
        },
        match answer {
            Answer::Exists(exists) => answer@ == AnswerView::Exists(exists),
            Answer::Canonical(Ok(path)) => answer@ == AnswerView::Canonical(Ok(path.bytes@)),
            Answer::Canonical(Err(error)) => answer@ == AnswerView::Canonical(Err(error)),
            Answer::Encoded(encoded) => answer@ == AnswerView::Encoded(encoded),
            Answer::Compared(equal) => answer@ == AnswerView::Compared(equal@),
            Answer::Startup(startup) => answer@ == AnswerView::Startup(startup),
        },
        setup@.since_when == setup.since_when,
        setup@.flags == setup.flags,
        setup@.context == setup.context.recursive_info@,
{
}

/// What is expected of a thread that is waited for.
pub proof fn law_expectations()
    ensures
        JoinReason::Stop.text() == "thread to shut down"@,
        JoinReason::StartFailure.text()
            == "thread to shut down after FSEvent stream start failure"@,
        JoinReason::ChannelClosed.text()
            == "thread to shut down after FSEvent stream startup channel close"@,
{
}

} // verus!
