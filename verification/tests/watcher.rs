use std::collections::HashMap;

use notify_fsevent::callback::{callback_impl, RawEvent, StreamContextInfo};
use notify_fsevent::error::{Error, ErrorKind};
use notify_fsevent::flags::StreamFlags;
use notify_fsevent::path::FsPath;
use notify_fsevent::protocol::{
    Answer, Call, JoinReason, Next, Question, RecursiveMode, RunLoop, Startup, Step, StreamSetup,
};
use notify_fsevent::recursive_info::RecursiveInfo;
use notify_fsevent::stream_thread::{StreamThread, ThreadAnswer, ThreadCall, ThreadNext};
use notify_fsevent::watcher::{FsEventPathsMut, WatcherKind};
use notify_fsevent::FsEventWatcher;

/// More paths than this in one stream, and the stream does not start.
const MAX_PATHS: usize = 4096;

/// What the thread of a stream is to find.
#[derive(Clone, Copy, PartialEq)]
enum Mood {
    Willing,
    /// The thread ends before it reports.
    Silent,
    /// There is no thread.
    Threadless,
}

/// A platform that remembers every reference it handed out.
struct Platform {
    /// Where each existing path leads, or why it cannot be told.
    files: HashMap<String, Result<String, i32>>,
    /// The paths that exist but have no string.
    unnameable: Vec<String>,
    strings: HashMap<usize, String>,
    references: HashMap<usize, i64>,
    list: Vec<usize>,
    list_released: bool,
    last_address: usize,
    mood: Mood,
    thread: Option<(StreamThread, RunLoop)>,
    signaled: Vec<usize>,
    woken: Vec<usize>,
    live_streams: i64,
    context: Option<StreamContextInfo>,
    asked: Vec<String>,
    joins: Vec<&'static str>,
}

impl Platform {
    fn new(files: &[&str]) -> Platform {
        let mut all = HashMap::new();
        for file in files {
            all.insert(file.to_string(), Ok(file.to_string()));
        }
        Platform {
            files: all,
            unnameable: Vec::new(),
            strings: HashMap::new(),
            references: HashMap::new(),
            list: Vec::new(),
            list_released: false,
            last_address: 0,
            mood: Mood::Willing,
            thread: None,
            signaled: Vec::new(),
            woken: Vec::new(),
            live_streams: 0,
            context: None,
            asked: Vec::new(),
            joins: Vec::new(),
        }
    }

    fn make(&mut self) -> usize {
        self.last_address += 16;
        self.references.insert(self.last_address, 1);
        self.last_address
    }

    fn retain(&mut self, object: usize) {
        *self.references.get_mut(&object).expect("an object") += 1;
    }

    fn release(&mut self, object: usize) {
        let count = self.references.get_mut(&object).expect("an object");
        assert!(*count > 0, "released too often");
        *count -= 1;
    }

    fn perform(&mut self, call: Call) {
        match call {
            Call::SignalSource(source) => {
                assert!(self.references[&source] > 0);
                self.signaled.push(source);
            }
            Call::WakeUp(runloop) => {
                assert!(self.references[&runloop] > 0);
                self.woken.push(runloop);
            }
            Call::Join(reason) => {
                self.joins.push(reason.expectation());
                if reason == JoinReason::Stop {
                    let (mut thread, handles) = self.thread.take().expect("a thread that runs");
                    assert!(self.signaled.contains(&handles.stop_source), "would wait forever");
                    assert!(self.woken.contains(&handles.runloop), "would wait forever");
                    let step = thread.resume(ThreadAnswer::Stopped);
                    for call in step.calls {
                        self.perform_in_thread(call);
                    }
                    assert_eq!(step.next, ThreadNext::End);
                } else {
                    assert!(self.thread.is_none(), "would wait forever");
                }
            }
            Call::Release(object) => self.release(object),
            Call::AppendPath(string) => {
                self.retain(string);
                self.list.push(string);
            }
            Call::RemovePathAt(place) => {
                let string = self.list.remove(place);
                self.release(string);
            }
            Call::ReleasePaths => {
                assert!(!self.list_released);
                self.list_released = true;
                for string in std::mem::take(&mut self.list) {
                    self.release(string);
                }
            }
        }
    }

    fn perform_in_thread(&mut self, call: ThreadCall) {
        match call {
            ThreadCall::Retain(object) => self.retain(object),
            ThreadCall::Release(object) => self.release(object),
            ThreadCall::ReleaseStream(_) => {
                self.live_streams -= 1;
                self.context = None;
            }
            _ => {}
        }
    }

    fn start(&mut self, setup: StreamSetup) -> Startup {
        assert!(self.thread.is_none(), "two streams at once");
        assert_eq!(setup.since_when, u64::MAX);
        assert_eq!(setup.flags, 0x16);
        let stream = 8;
        self.live_streams += 1;
        self.context = Some(setup.context);
        match self.mood {
            Mood::Willing => {}
            Mood::Silent => {
                self.live_streams = 0;
                return Startup::Disconnected;
            }
            Mood::Threadless => {
                self.live_streams = 0;
                return Startup::NoThread(std::io::Error::from_raw_os_error(35));
            }
        }
        let runloop = self.make();
        let (mut thread, mut step) = StreamThread::begin(stream, runloop);
        let mut source = 0;
        let mut startup = None;
        loop {
            for call in step.calls {
                if call == ThreadCall::ReportRefusal {
                    startup = Some(Startup::Refused);
                }
                self.perform_in_thread(call);
            }
            let answer = match step.next {
                ThreadNext::Start(started) => {
                    assert_eq!(started, stream);
                    ThreadAnswer::Started(self.list.len() <= MAX_PATHS)
                }
                ThreadNext::MakeSource => {
                    source = self.make();
                    ThreadAnswer::Source(source)
                }
                ThreadNext::Publish(handles) => {
                    assert_eq!(handles, RunLoop { runloop, stop_source: source });
                    startup = Some(Startup::Running(handles));
                    ThreadAnswer::Published(true)
                }
                ThreadNext::Run => {
                    self.thread = Some((thread, RunLoop { runloop, stop_source: source }));
                    break;
                }
                ThreadNext::End => break,
                ThreadNext::Panic => panic!("the watcher is there"),
            };
            assert!(thread.expects(&answer));
            step = thread.resume(answer);
        }
        // The thread's own reference to its run loop goes with the thread.
        self.release(runloop);
        startup.expect("a report")
    }

    fn answer(&mut self, question: Question) -> Answer {
        match question {
            Question::Exists(path) => {
                let path = text(&path);
                self.asked.push(format!("exists {path}"));
                Answer::Exists(self.files.contains_key(&path))
            }
            Question::Canonicalize(path) => {
                let path = text(&path);
                self.asked.push(format!("canonicalize {path}"));
                Answer::Canonical(match self.files.get(&path) {
                    Some(Ok(canonical)) => Ok(FsPath::from_text(canonical)),
                    Some(Err(code)) => Err(std::io::Error::from_raw_os_error(*code)),
                    None => Err(std::io::Error::from_raw_os_error(2)),
                })
            }
            Question::Encode(path) => {
                let path = text(&path);
                self.asked.push(format!("encode {path}"));
                let object = self.make();
                if self.unnameable.contains(&path) {
                    Answer::Encoded(Err(object))
                } else {
                    self.strings.insert(object, path);
                    Answer::Encoded(Ok(object))
                }
            }
            Question::Compare(string) => {
                let wanted = self.strings[&string].to_lowercase();
                self.asked.push(format!("compare {wanted}"));
                let equals = |item: &usize| self.strings[item].to_lowercase() == wanted;
                Answer::Compared(self.list.iter().map(equals).collect())
            }
            Question::StartStream(setup) => {
                self.asked.push("start".to_string());
                Answer::Startup(self.start(setup))
            }
        }
    }

    /// Every reference but those to the strings in the list and to the run loop and the source of
    /// a stream that runs was given up.
    fn assert_nothing_leaked(&self) {
        let mut expected: HashMap<usize, i64> = HashMap::new();
        for string in &self.list {
            *expected.entry(*string).or_insert(0) += 1;
        }
        if let Some((_, handles)) = &self.thread {
            expected.insert(handles.runloop, 1);
            expected.insert(handles.stop_source, 1);
        }
        for (object, count) in &self.references {
            assert_eq!(*count, expected.get(object).copied().unwrap_or(0), "object {object}");
        }
        assert_eq!(self.live_streams, i64::from(self.thread.is_some()));
    }

    fn listed(&self) -> Vec<String> {
        self.list.iter().map(|string| self.strings[string].clone()).collect()
    }

    fn hears(&self, path: &str) -> bool {
        let batch = vec![RawEvent {
            path: path.as_bytes().to_vec(),
            flags: StreamFlags::ITEM_CREATED,
        }];
        match &self.context {
            Some(info) => callback_impl(info, &batch, 1).events.len() == 1,
            None => false,
        }
    }
}

fn text(path: &FsPath) -> String {
    String::from_utf8(path.bytes.clone()).unwrap()
}

fn drive(watcher: &mut FsEventWatcher, platform: &mut Platform, first: Step) -> Result<(), Error> {
    let mut step = first;
    loop {
        for call in step.calls {
            platform.perform(call);
        }
        match step.next {
            Next::Return(result) => return result,
            Next::Ask(question) => {
                let answer = platform.answer(question);
                assert!(watcher.expects(&answer));
                step = watcher.resume(answer);
            }
        }
    }
}

fn watch(
    watcher: &mut FsEventWatcher,
    platform: &mut Platform,
    path: &str,
    mode: RecursiveMode,
) -> Result<(), Error> {
    let step = watcher.watch(FsPath::from_text(path), mode);
    drive(watcher, platform, step)
}

fn unwatch(
    watcher: &mut FsEventWatcher,
    platform: &mut Platform,
    path: &str,
) -> Result<(), Error> {
    let step = watcher.unwatch(FsPath::from_text(path));
    drive(watcher, platform, step)
}

fn assert_generic(result: Result<(), Error>, expected: &str) {
    match result {
        Err(Error { kind: ErrorKind::Generic(found), paths }) => {
            assert_eq!(found, expected);
            assert!(paths.is_empty());
        }
        other => panic!("{other:?}"),
    }
}

#[test]
fn a_new_watcher_is_stopped() {
    let mut watcher = FsEventWatcher::new();
    assert!(!watcher.is_running());
    assert_eq!(watcher.stop(), vec![]);
    assert!(matches!(watcher.configure(), Ok(false)));
    assert_eq!(FsEventWatcher::kind(), WatcherKind::Fsevent);
    assert_eq!(watcher.close(), vec![Call::ReleasePaths]);
}

#[test]
fn a_path_is_watched_and_forgotten() {
    let mut platform = Platform::new(&["/a"]);
    let mut watcher = FsEventWatcher::new();
    watch(&mut watcher, &mut platform, "/a", RecursiveMode::Recursive).unwrap();
    assert!(watcher.is_running());
    assert_eq!(platform.listed(), vec!["/a"]);
    assert!(platform.hears("/a/x/y"));
    assert_eq!(platform.asked, vec!["exists /a", "canonicalize /a", "encode /a", "start"]);
    platform.assert_nothing_leaked();

    platform.asked.clear();
    unwatch(&mut watcher, &mut platform, "/a").unwrap();
    assert!(!watcher.is_running());
    assert_eq!(platform.asked, vec!["encode /a", "compare /a", "canonicalize /a"]);
    assert!(platform.listed().is_empty());
    assert!(!platform.hears("/a"));
    platform.assert_nothing_leaked();
    for call in watcher.close() {
        platform.perform(call);
    }
    platform.assert_nothing_leaked();
}

#[test]
fn a_stream_is_stopped_by_its_source_and_released_after_its_end() {
    let mut watcher = FsEventWatcher::new();
    let mut platform = Platform::new(&["/a"]);
    watch(&mut watcher, &mut platform, "/a", RecursiveMode::Recursive).unwrap();
    let (_, handles) = platform.thread.expect("a thread");
    assert_eq!(
        watcher.close(),
        vec![
            Call::SignalSource(handles.stop_source),
            Call::WakeUp(handles.runloop),
            Call::Join(JoinReason::Stop),
            Call::Release(handles.stop_source),
            Call::Release(handles.runloop),
            Call::ReleasePaths,
        ]
    );

    let mut watcher = FsEventWatcher::new();
    let mut platform = Platform::new(&["/a"]);
    watch(&mut watcher, &mut platform, "/a", RecursiveMode::Recursive).unwrap();
    assert_eq!(watcher.stop().len(), 5);
    assert!(!watcher.is_running());
    assert_eq!(watcher.stop(), vec![]);
}

#[test]
fn the_place_that_a_path_leads_to_is_watched() {
    let mut platform = Platform::new(&["/real"]);
    platform.files.insert("/link".to_string(), Ok("/real".to_string()));
    let mut watcher = FsEventWatcher::new();
    watch(&mut watcher, &mut platform, "/link", RecursiveMode::NonRecursive).unwrap();
    assert!(platform.hears("/real"));
    assert!(platform.hears("/real/x"));
    assert!(!platform.hears("/real/x/y"));
    assert!(!platform.hears("/link/x"));
    assert_eq!(platform.listed(), vec!["/link"]);

    // By another name the place is forgotten, but not the string.
    unwatch(&mut watcher, &mut platform, "/real").unwrap();
    assert_eq!(platform.listed(), vec!["/link"]);
    assert!(watcher.is_running());
    assert!(!platform.hears("/real/x"));
    platform.assert_nothing_leaked();
}

#[test]
fn a_path_that_does_not_exist_is_not_watched() {
    let mut platform = Platform::new(&["/a"]);
    let mut watcher = FsEventWatcher::new();
    match watch(&mut watcher, &mut platform, "/gone", RecursiveMode::Recursive) {
        Err(Error { kind: ErrorKind::PathNotFound, paths }) => {
            assert_eq!(paths, vec![FsPath::from_text("/gone")]);
        }
        other => panic!("{other:?}"),
    }
    assert!(!watcher.is_running());

    watch(&mut watcher, &mut platform, "/a", RecursiveMode::Recursive).unwrap();
    watch(&mut watcher, &mut platform, "/gone", RecursiveMode::Recursive).unwrap_err();
    assert!(watcher.is_running());
    assert_eq!(platform.listed(), vec!["/a"]);
    assert!(platform.hears("/a/x"));
    platform.assert_nothing_leaked();
}

#[test]
fn a_path_that_leads_nowhere_is_not_watched() {
    let mut platform = Platform::new(&[]);
    platform.files.insert("/loop".to_string(), Err(62));
    let mut watcher = FsEventWatcher::new();
    match watch(&mut watcher, &mut platform, "/loop", RecursiveMode::Recursive) {
        Err(Error { kind: ErrorKind::Io(error), paths }) => {
            assert_eq!(error.raw_os_error(), Some(62));
            assert!(paths.is_empty());
        }
        other => panic!("{other:?}"),
    }
    assert_eq!(platform.asked, vec!["exists /loop", "canonicalize /loop"]);
    assert!(platform.listed().is_empty());
}

#[test]
fn a_path_without_a_string_is_neither_watched_nor_forgotten() {
    let mut platform = Platform::new(&["/odd"]);
    platform.unnameable.push("/odd".to_string());
    let mut watcher = FsEventWatcher::new();
    match watch(&mut watcher, &mut platform, "/odd", RecursiveMode::Recursive) {
        Err(Error { kind: ErrorKind::PathNotFound, paths }) => {
            assert_eq!(paths, vec![FsPath::from_text("/odd")]);
        }
        other => panic!("{other:?}"),
    }
    match unwatch(&mut watcher, &mut platform, "/odd") {
        Err(Error { kind: ErrorKind::WatchNotFound, paths }) => {
            assert_eq!(paths, vec![FsPath::from_text("/odd")]);
        }
        other => panic!("{other:?}"),
    }
    platform.assert_nothing_leaked();
}

#[test]
fn a_path_that_was_not_watched_is_not_forgotten() {
    let mut platform = Platform::new(&["/a", "/b"]);
    let mut watcher = FsEventWatcher::new();
    watch(&mut watcher, &mut platform, "/a", RecursiveMode::Recursive).unwrap();
    match unwatch(&mut watcher, &mut platform, "/b") {
        Err(Error { kind: ErrorKind::WatchNotFound, paths }) => assert!(paths.is_empty()),
        other => panic!("{other:?}"),
    }
    assert!(watcher.is_running());
    assert!(platform.hears("/a/x"));
    platform.assert_nothing_leaked();
}

#[test]
fn a_path_that_is_gone_can_be_forgotten() {
    let mut platform = Platform::new(&["/a"]);
    let mut watcher = FsEventWatcher::new();
    watch(&mut watcher, &mut platform, "/a", RecursiveMode::Recursive).unwrap();
    platform.files.clear();
    unwatch(&mut watcher, &mut platform, "/a").unwrap();
    assert!(!watcher.is_running());
    platform.assert_nothing_leaked();
}

#[test]
fn every_equal_string_goes_and_the_others_stay_in_order() {
    let mut platform = Platform::new(&["/a", "/b", "/A", "/c"]);
    let mut watcher = FsEventWatcher::new();
    for path in ["/a", "/b", "/A", "/c", "/a"] {
        watch(&mut watcher, &mut platform, path, RecursiveMode::NonRecursive).unwrap();
    }
    assert_eq!(platform.listed(), vec!["/a", "/b", "/A", "/c", "/a"]);
    platform.assert_nothing_leaked();
    unwatch(&mut watcher, &mut platform, "/a").unwrap();
    assert_eq!(platform.listed(), vec!["/b", "/c"]);
    assert!(platform.hears("/b/x"));
    assert!(platform.hears("/A/x"));
    assert!(!platform.hears("/a/x"));
    platform.assert_nothing_leaked();
}

#[test]
fn places_are_cleared_from_the_last_to_the_first() {
    let mut watcher = FsEventWatcher::new();
    let mut platform = Platform::new(&["/a", "/b"]);
    for path in ["/a", "/b", "/a", "/a"] {
        watch(&mut watcher, &mut platform, path, RecursiveMode::NonRecursive).unwrap();
    }
    let step = watcher.unwatch(FsPath::from_text("/a"));
    for call in step.calls {
        platform.perform(call);
    }
    watcher.resume(Answer::Encoded(Ok(1)));
    let step = watcher.resume(Answer::Compared(vec![true, false, true, true]));
    assert_eq!(
        step.calls,
        vec![Call::Release(1), Call::RemovePathAt(3), Call::RemovePathAt(2), Call::RemovePathAt(0)]
    );
}

#[test]
fn watching_again_changes_the_way_of_watching() {
    let mut platform = Platform::new(&["/a"]);
    let mut watcher = FsEventWatcher::new();
    watch(&mut watcher, &mut platform, "/a", RecursiveMode::NonRecursive).unwrap();
    assert!(!platform.hears("/a/x/y"));
    watch(&mut watcher, &mut platform, "/a", RecursiveMode::Recursive).unwrap();
    assert!(platform.hears("/a/x/y"));
    watch(&mut watcher, &mut platform, "/a", RecursiveMode::NonRecursive).unwrap();
    assert!(!platform.hears("/a/x/y"));
    unwatch(&mut watcher, &mut platform, "/a").unwrap();
    assert!(!watcher.is_running());
}

#[test]
fn watching_and_forgetting_gives_back_what_was_watched() {
    let mut platform = Platform::new(&["/a", "/b"]);
    let mut watcher = FsEventWatcher::new();
    watch(&mut watcher, &mut platform, "/a", RecursiveMode::Recursive).unwrap();
    watch(&mut watcher, &mut platform, "/b", RecursiveMode::Recursive).unwrap();
    assert!(platform.hears("/b/x"));
    unwatch(&mut watcher, &mut platform, "/b").unwrap();
    assert_eq!(platform.listed(), vec!["/a"]);
    assert!(platform.hears("/a/x"));
    assert!(!platform.hears("/b/x"));
    assert!(watcher.is_running());
}

/// The stream does not start with that many paths. The error comes out, and the watcher is left
/// stopped, so that nothing that follows waits for a thread that has ended.
#[test]
fn a_stream_that_does_not_start_leaves_the_watcher_stopped() {
    let names: Vec<String> = (0..=MAX_PATHS).map(|i| format!("/tmp/dir_{i}")).collect();
    let mut files: Vec<&str> = names.iter().map(|name| name.as_str()).collect();
    files.push("/tmp/extra");
    let mut platform = Platform::new(&files);
    let mut watcher = FsEventWatcher::new();

    let (calls, mut batch) = watcher.paths_mut();
    assert_eq!(calls, vec![]);
    for name in &names {
        let mut step = batch.add(FsPath::from_text(name), RecursiveMode::NonRecursive);
        loop {
            for call in step.calls {
                platform.perform(call);
            }
            match step.next {
                Next::Ask(question) => step = batch.resume(platform.answer(question)),
                Next::Return(result) => {
                    result.expect("add path");
                    break;
                }
            }
        }
    }
    let step = batch.commit();
    let result = drive(&mut watcher, &mut platform, step);
    assert_generic(result, "unable to start FSEvent stream");
    assert!(!watcher.is_running());
    assert_eq!(platform.joins, vec!["thread to shut down after FSEvent stream start failure"]);
    platform.assert_nothing_leaked();

    let result = watch(&mut watcher, &mut platform, "/tmp/extra", RecursiveMode::NonRecursive);
    assert_generic(result, "unable to start FSEvent stream");
    assert!(!watcher.is_running());
    assert_eq!(platform.listed().len(), MAX_PATHS + 2);
    for call in watcher.close() {
        platform.perform(call);
    }
    platform.assert_nothing_leaked();
}

#[test]
fn a_failed_start_outweighs_what_became_of_the_path() {
    let mut platform = Platform::new(&["/a"]);
    let mut watcher = FsEventWatcher::new();
    watch(&mut watcher, &mut platform, "/a", RecursiveMode::Recursive).unwrap();
    platform.mood = Mood::Silent;
    let result = watch(&mut watcher, &mut platform, "/gone", RecursiveMode::Recursive);
    assert_generic(result, "unable to receive FSEvent stream startup result");
    assert!(!watcher.is_running());
    assert_eq!(
        platform.joins.last(),
        Some(&"thread to shut down after FSEvent stream startup channel close")
    );
    platform.mood = Mood::Threadless;
    match unwatch(&mut watcher, &mut platform, "/b") {
        Err(Error { kind: ErrorKind::Io(error), .. }) => {
            assert_eq!(error.raw_os_error(), Some(35));
        }
        other => panic!("{other:?}"),
    }
    assert!(!watcher.is_running());
    platform.mood = Mood::Willing;
    unwatch(&mut watcher, &mut platform, "/b").unwrap_err();
    assert!(watcher.is_running());
    platform.assert_nothing_leaked();
}

#[test]
fn many_rounds_leave_nothing_behind() {
    let mut platform = Platform::new(&["/a", "/b"]);
    let mut watcher = FsEventWatcher::new();
    for _ in 0..500 {
        watch(&mut watcher, &mut platform, "/a", RecursiveMode::NonRecursive).unwrap();
        watch(&mut watcher, &mut platform, "/b", RecursiveMode::NonRecursive).unwrap();
        unwatch(&mut watcher, &mut platform, "/a").unwrap();
        unwatch(&mut watcher, &mut platform, "/b").unwrap();
        assert!(!watcher.is_running());
    }
    platform.assert_nothing_leaked();
}

#[test]
fn a_batch_starts_one_stream() {
    let mut platform = Platform::new(&["/a", "/b", "/c"]);
    let mut watcher = FsEventWatcher::new();
    watch(&mut watcher, &mut platform, "/a", RecursiveMode::Recursive).unwrap();
    platform.asked.clear();

    let (calls, mut batch) = watcher.paths_mut();
    assert_eq!(calls.len(), 5);
    for call in calls {
        platform.perform(call);
    }
    let step = batch.add(FsPath::from_text("/b"), RecursiveMode::Recursive);
    in_batch(&mut batch, &mut platform, step).unwrap();
    let step = batch.remove(FsPath::from_text("/a"));
    in_batch(&mut batch, &mut platform, step).unwrap();
    let step = batch.commit();
    in_batch(&mut batch, &mut platform, step).unwrap();
    assert!(watcher.is_running());
    assert_eq!(platform.listed(), vec!["/b"]);
    assert!(platform.hears("/b/x"));
    assert!(!platform.hears("/a/x"));
    assert_eq!(platform.asked.iter().filter(|asked| *asked == "start").count(), 1);
    platform.assert_nothing_leaked();
}

/// A change to the paths of a watcher.
#[derive(Clone, Copy)]
enum Change {
    Add(&'static str, RecursiveMode),
    Remove(&'static str),
}

fn in_batch(
    batch: &mut FsEventPathsMut<'_>,
    platform: &mut Platform,
    first: Step,
) -> Result<(), Error> {
    let mut step = first;
    loop {
        for call in step.calls {
            platform.perform(call);
        }
        match step.next {
            Next::Return(result) => return result,
            Next::Ask(question) => {
                let answer = platform.answer(question);
                assert!(batch.0.expects(&answer));
                step = batch.resume(answer);
            }
        }
    }
}

fn world() -> Platform {
    let mut platform = Platform::new(&["/a", "/A", "/b", "/odd"]);
    platform.files.insert("/link".to_string(), Ok("/b".to_string()));
    platform.files.insert("/loop".to_string(), Err(62));
    platform.unnameable.push("/odd".to_string());
    platform
}

#[test]
fn a_batch_comes_to_the_same_as_its_changes_one_by_one() {
    let recursive = RecursiveMode::Recursive;
    let flat = RecursiveMode::NonRecursive;
    let pool = [
        Change::Add("/a", recursive),
        Change::Add("/A", flat),
        Change::Add("/b", flat),
        Change::Add("/link", recursive),
        Change::Add("/gone", flat),
        Change::Add("/loop", flat),
        Change::Add("/odd", flat),
        Change::Remove("/a"),
        Change::Remove("/b"),
        Change::Remove("/link"),
        Change::Remove("/odd"),
        Change::Remove("/gone"),
    ];
    let mut seed: u32 = 7;
    for round in 0..300 {
        let mut changes = Vec::new();
        for _ in 0..=(round % 9) {
            seed = seed.wrapping_mul(1_664_525).wrapping_add(1_013_904_223);
            changes.push(pool[(seed >> 16) as usize % pool.len()]);
        }

        let mut alone = FsEventWatcher::new();
        let mut first = world();
        let mut results = Vec::new();
        for change in &changes {
            let result = match change {
                Change::Add(path, mode) => watch(&mut alone, &mut first, path, *mode),
                Change::Remove(path) => unwatch(&mut alone, &mut first, path),
            };
            results.push(format!("{result:?}"));
        }

        let mut batched = FsEventWatcher::new();
        let mut second = world();
        let (calls, mut batch) = batched.paths_mut();
        assert_eq!(calls, vec![]);
        let mut batch_results = Vec::new();
        for change in &changes {
            let step = match change {
                Change::Add(path, mode) => batch.add(FsPath::from_text(path), *mode),
                Change::Remove(path) => batch.remove(FsPath::from_text(path)),
            };
            let result = in_batch(&mut batch, &mut second, step);
            batch_results.push(format!("{result:?}"));
            assert!(!batch.0.is_running());
        }
        let step = batch.commit();
        in_batch(&mut batch, &mut second, step).unwrap();

        assert_eq!(batch_results, results);
        assert_eq!(second.listed(), first.listed());
        assert_eq!(batched.recursive_info(), alone.recursive_info());
        assert_eq!(batched.is_running(), alone.is_running());
        assert_eq!(batched.is_running(), !second.listed().is_empty());
        first.assert_nothing_leaked();
        second.assert_nothing_leaked();
    }
}

#[test]
fn a_batch_lists_the_same_where_streams_fail_to_start() {
    let no_report = "unable to receive FSEvent stream startup result";
    let recursive = RecursiveMode::Recursive;
    let mut first = world();
    first.mood = Mood::Silent;
    let mut alone = FsEventWatcher::new();
    let gone = watch(&mut alone, &mut first, "/gone", recursive);
    assert!(matches!(gone.unwrap_err().kind, ErrorKind::PathNotFound));
    assert_generic(watch(&mut alone, &mut first, "/a", recursive), no_report);
    assert_generic(watch(&mut alone, &mut first, "/gone", recursive), no_report);

    let mut second = world();
    second.mood = Mood::Silent;
    let mut batched = FsEventWatcher::new();
    let (_, mut batch) = batched.paths_mut();
    let step = batch.add(FsPath::from_text("/gone"), recursive);
    let gone = in_batch(&mut batch, &mut second, step);
    assert!(matches!(gone.unwrap_err().kind, ErrorKind::PathNotFound));
    let step = batch.add(FsPath::from_text("/a"), recursive);
    in_batch(&mut batch, &mut second, step).unwrap();
    let step = batch.add(FsPath::from_text("/gone"), recursive);
    let gone = in_batch(&mut batch, &mut second, step);
    assert!(matches!(gone.unwrap_err().kind, ErrorKind::PathNotFound));
    let step = batch.commit();
    assert_generic(in_batch(&mut batch, &mut second, step), no_report);

    assert_eq!(second.listed(), first.listed());
    assert_eq!(batched.recursive_info(), alone.recursive_info());
    assert!(!batched.is_running());
    assert!(!alone.is_running());
}

#[test]
fn a_batch_that_is_not_committed_leaves_the_watcher_stopped() {
    let mut platform = Platform::new(&["/a", "/b"]);
    let mut watcher = FsEventWatcher::new();
    watch(&mut watcher, &mut platform, "/a", RecursiveMode::Recursive).unwrap();
    let (calls, mut batch) = watcher.paths_mut();
    for call in calls {
        platform.perform(call);
    }
    let step = batch.add(FsPath::from_text("/b"), RecursiveMode::Recursive);
    in_batch(&mut batch, &mut platform, step).unwrap();
    assert!(!watcher.is_running());
    assert_eq!(platform.listed(), vec!["/a", "/b"]);
    platform.assert_nothing_leaked();
}

#[test]
fn a_string_that_is_never_compared_is_given_up() {
    let waiting = |platform: &mut Platform| {
        let mut watcher = FsEventWatcher::new();
        watch(&mut watcher, platform, "/a", RecursiveMode::Recursive).unwrap();
        let step = watcher.unwatch(FsPath::from_text("/a"));
        for call in step.calls {
            platform.perform(call);
        }
        let answer = platform.answer(Question::Encode(FsPath::from_text("/a")));
        let step = watcher.resume(answer);
        assert!(matches!(step.next, Next::Ask(Question::Compare(_))));
        watcher
    };

    let mut platform = Platform::new(&["/a", "/b"]);
    let mut watcher = waiting(&mut platform);
    watch(&mut watcher, &mut platform, "/b", RecursiveMode::Recursive).unwrap();
    platform.assert_nothing_leaked();

    let mut platform = Platform::new(&["/a"]);
    let mut watcher = waiting(&mut platform);
    unwatch(&mut watcher, &mut platform, "/a").unwrap();
    platform.assert_nothing_leaked();

    let mut platform = Platform::new(&["/a"]);
    let mut watcher = waiting(&mut platform);
    let (calls, mut batch) = watcher.paths_mut();
    assert_eq!(calls, vec![]);
    let step = batch.commit();
    in_batch(&mut batch, &mut platform, step).unwrap();
    platform.assert_nothing_leaked();

    let mut platform = Platform::new(&["/a"]);
    let watcher = waiting(&mut platform);
    for call in watcher.close() {
        platform.perform(call);
    }
    platform.assert_nothing_leaked();
}

#[test]
fn the_settings_of_a_stream() {
    let watcher = FsEventWatcher::new();
    assert_eq!(watcher.since_when(), u64::MAX);
    assert_eq!(watcher.flags(), 0x16);
    assert_eq!(watcher.runloop(), None);
    assert_eq!(watcher.recursive_info(), &RecursiveInfo::new());
}

#[test]
fn an_operation_that_is_given_up_leaves_the_watcher_usable() {
    let mut platform = Platform::new(&["/a"]);
    let mut watcher = FsEventWatcher::new();
    let step = watcher.watch(FsPath::from_text("/a"), RecursiveMode::Recursive);
    assert!(matches!(step.next, Next::Ask(Question::Exists(_))));
    assert!(!watcher.expects(&Answer::Compared(vec![])));
    watch(&mut watcher, &mut platform, "/a", RecursiveMode::Recursive).unwrap();
    assert!(watcher.is_running());
    assert_eq!(platform.listed(), vec!["/a"]);
}

#[test]
fn modes() {
    assert!(RecursiveMode::Recursive.is_recursive());
    assert!(!RecursiveMode::NonRecursive.is_recursive());
}
