use notify_fsevent::protocol::RunLoop;
use notify_fsevent::stream_thread::{StreamThread, ThreadAnswer, ThreadCall, ThreadNext};

const STREAM: usize = 1;
const RUNLOOP: usize = 2;
const SOURCE: usize = 3;

#[test]
fn a_thread_runs_until_it_is_stopped() {
    let (mut thread, step) = StreamThread::begin(STREAM, RUNLOOP);
    assert_eq!(step.calls, vec![ThreadCall::Schedule { stream: STREAM, runloop: RUNLOOP }]);
    assert_eq!(step.next, ThreadNext::Start(STREAM));

    let step = thread.resume(ThreadAnswer::Started(true));
    assert_eq!(step.calls, vec![]);
    assert_eq!(step.next, ThreadNext::MakeSource);

    let step = thread.resume(ThreadAnswer::Source(SOURCE));
    assert_eq!(
        step.calls,
        vec![
            ThreadCall::AddSource { runloop: RUNLOOP, source: SOURCE },
            ThreadCall::Retain(RUNLOOP),
        ]
    );
    assert_eq!(
        step.next,
        ThreadNext::Publish(RunLoop { runloop: RUNLOOP, stop_source: SOURCE })
    );

    let step = thread.resume(ThreadAnswer::Published(true));
    assert_eq!(step.calls, vec![]);
    assert_eq!(step.next, ThreadNext::Run);

    let step = thread.resume(ThreadAnswer::Stopped);
    assert_eq!(
        step.calls,
        vec![
            ThreadCall::InvalidateSource(SOURCE),
            ThreadCall::StopStream(STREAM),
            ThreadCall::PurgeEvents(STREAM),
            ThreadCall::InvalidateStream(STREAM),
            ThreadCall::ReleaseStream(STREAM),
        ]
    );
    assert_eq!(step.next, ThreadNext::End);
    assert!(!thread.expects(&ThreadAnswer::Stopped));
}

#[test]
fn a_stream_that_does_not_start_is_reported_and_given_up() {
    let (mut thread, _) = StreamThread::begin(STREAM, RUNLOOP);
    let step = thread.resume(ThreadAnswer::Started(false));
    assert_eq!(
        step.calls,
        vec![
            ThreadCall::InvalidateStream(STREAM),
            ThreadCall::ReleaseStream(STREAM),
            ThreadCall::ReportRefusal,
        ]
    );
    assert_eq!(step.next, ThreadNext::End);
}

#[test]
fn a_thread_without_a_watcher_gives_up_what_it_would_have_handed_over() {
    let (mut thread, _) = StreamThread::begin(STREAM, RUNLOOP);
    thread.resume(ThreadAnswer::Started(true));
    thread.resume(ThreadAnswer::Source(SOURCE));
    let step = thread.resume(ThreadAnswer::Published(false));
    assert_eq!(
        step.calls,
        vec![
            ThreadCall::Release(RUNLOOP),
            ThreadCall::InvalidateSource(SOURCE),
            ThreadCall::Release(SOURCE),
        ]
    );
    assert_eq!(step.next, ThreadNext::Panic);
}

#[test]
fn a_thread_expects_one_kind_of_answer() {
    let (mut thread, _) = StreamThread::begin(STREAM, RUNLOOP);
    assert!(thread.expects(&ThreadAnswer::Started(true)));
    assert!(!thread.expects(&ThreadAnswer::Source(SOURCE)));
    thread.resume(ThreadAnswer::Started(true));
    assert!(thread.expects(&ThreadAnswer::Source(SOURCE)));
    assert!(!thread.expects(&ThreadAnswer::Published(true)));
}
