use notify_fsevent::callback::{
    callback_impl, judge, Delivery, Fault, RawEvent, StreamContextInfo, Verdict,
};
use notify_fsevent::event::{CreateKind, DataChange, Event, EventKind, ModifyKind};
use notify_fsevent::flags::StreamFlags;
use notify_fsevent::path::FsPath;
use notify_fsevent::recursive_info::RecursiveInfo;

fn context(watched: &[(&str, bool)]) -> StreamContextInfo {
    let mut recursive_info = RecursiveInfo::new();
    for (path, recursive) in watched {
        recursive_info.insert(&FsPath::from_text(path), *recursive);
    }
    StreamContextInfo { recursive_info }
}

fn raw(path: &str, flags: u32) -> RawEvent {
    RawEvent { path: path.as_bytes().to_vec(), flags }
}

fn heard(info: &StreamContextInfo, path: &str) -> bool {
    let delivery = callback_impl(info, &vec![raw(path, StreamFlags::ITEM_MODIFIED)], 1);
    assert_eq!(delivery.fault, None);
    match delivery.events.len() {
        0 => false,
        1 => {
            assert_eq!(delivery.events[0].paths, vec![FsPath::from_text(path)]);
            true
        }
        more => panic!("{more} events"),
    }
}

fn file_created(path: &str) -> Event {
    Event::new(EventKind::Create(CreateKind::File)).add_path(FsPath::from_text(path))
}

fn content_changed(path: &str) -> Event {
    let kind = EventKind::Modify(ModifyKind::Data(DataChange::Content));
    Event::new(kind).add_path(FsPath::from_text(path))
}

const FILE: u32 = StreamFlags::IS_FILE;
const CREATED: u32 = StreamFlags::ITEM_CREATED;
const MODIFIED: u32 = StreamFlags::ITEM_MODIFIED;

#[test]
fn a_recursive_watch_hears_everything_below() {
    let info = context(&[("/w", true)]);
    assert!(heard(&info, "/w"));
    assert!(heard(&info, "/w/"));
    assert!(heard(&info, "/w/a"));
    assert!(heard(&info, "/w/a/b/c"));
    assert!(!heard(&info, "/"));
    assert!(!heard(&info, "/wa"));
    assert!(!heard(&info, "/x/w/a"));
}

#[test]
fn a_flat_watch_hears_the_path_and_its_entries() {
    let info = context(&[("/w", false)]);
    assert!(heard(&info, "/w"));
    assert!(heard(&info, "/w/a"));
    assert!(heard(&info, "/w//a/"));
    assert!(!heard(&info, "/w/a/b"));
    assert!(!heard(&info, "/"));
    assert!(!heard(&info, "/wa"));
}

#[test]
fn a_watch_on_the_root() {
    assert!(heard(&context(&[("/", true)]), "/a/b"));
    assert!(heard(&context(&[("/", false)]), "/a"));
    assert!(!heard(&context(&[("/", false)]), "/a/b"));
    assert!(heard(&context(&[("/", false)]), "/"));
}

#[test]
fn an_empty_path_is_above_everything_but_holds_no_root() {
    assert!(heard(&context(&[("", true)]), "/a/b"));
    assert!(!heard(&context(&[("", false)]), "/"));
    assert!(heard(&context(&[("", false)]), "a"));
    assert!(heard(&context(&[("", false)]), ""));
}

#[test]
fn one_of_several_watches_is_enough() {
    let info = context(&[("/a", false), ("/a/b", true), ("/c", false)]);
    assert!(heard(&info, "/a/x"));
    assert!(!heard(&info, "/a/x/y"));
    assert!(heard(&info, "/a/b/y/z"));
    assert!(heard(&info, "/c/x"));
    assert!(!heard(&context(&[]), "/c/x"));
}

#[test]
fn each_event_names_its_path() {
    let info = context(&[("/w", true)]);
    let batch = vec![raw("/w/a", CREATED | MODIFIED | FILE)];
    let delivery = callback_impl(&info, &batch, 1);
    let expected =
        Delivery { events: vec![file_created("/w/a"), content_changed("/w/a")], fault: None };
    assert_eq!(delivery, expected);
}

#[test]
fn a_batch_is_passed_on_in_order() {
    let info = context(&[("/w", false)]);
    let batch = vec![
        raw("/w/b", CREATED | FILE),
        raw("/elsewhere", CREATED | FILE),
        raw("/w/a", MODIFIED | FILE),
        raw("/w/a/deep", MODIFIED | FILE),
        raw("/w/c", StreamFlags::HISTORY_DONE),
        raw("/w/c", CREATED | FILE),
    ];
    let delivery = callback_impl(&info, &batch, 1);
    assert_eq!(delivery.fault, None);
    assert_eq!(
        delivery.events,
        vec![file_created("/w/b"), content_changed("/w/a"), file_created("/w/c")]
    );
}

#[test]
fn own_events_carry_the_given_process_id() {
    let info = context(&[("/w", true)]);
    let batch = vec![raw("/w/a", CREATED | FILE | StreamFlags::OWN_EVENT)];
    assert_eq!(
        callback_impl(&info, &batch, 99).events,
        vec![file_created("/w/a").set_process_id(99)]
    );
}

#[test]
fn unknown_flags_end_a_batch() {
    let info = context(&[("/w", true)]);
    let batch = vec![
        raw("/w/a", CREATED | FILE),
        raw("/elsewhere", 0x0100_0000),
        raw("/w/b", CREATED | FILE),
    ];
    let delivery = callback_impl(&info, &batch, 1);
    assert_eq!(delivery.events, vec![file_created("/w/a")]);
    assert_eq!(delivery.fault, Some(Fault::UnknownFlags(0x0100_0000)));
}

#[test]
fn a_path_that_is_not_text_ends_a_batch() {
    let info = context(&[("/w", true)]);
    let batch = vec![
        raw("/w/a", CREATED | FILE),
        RawEvent { path: vec![0x2f, 0x77, 0x2f, 0xff], flags: 0x0100_0000 },
        raw("/w/b", CREATED | FILE),
    ];
    let delivery = callback_impl(&info, &batch, 1);
    assert_eq!(delivery.events, vec![file_created("/w/a")]);
    assert_eq!(delivery.fault, Some(Fault::InvalidUtf8));
}

#[test]
fn utf8_is_what_the_standard_library_takes_for_it() {
    let info = context(&[("/", true)]);
    let good: Vec<Vec<u8>> = vec![
        b"/plain".to_vec(),
        "/\u{e9}".as_bytes().to_vec(),
        "/\u{20ac}".as_bytes().to_vec(),
        "/\u{10ffff}".as_bytes().to_vec(),
    ];
    let bad: Vec<Vec<u8>> = vec![
        vec![0x80],
        vec![0xc0, 0x80],
        vec![0xed, 0xa0, 0x80],
        vec![0xf4, 0x90, 0x80, 0x80],
        vec![0xe2, 0x82],
    ];
    for path in good {
        assert!(std::str::from_utf8(&path).is_ok());
        let delivery = callback_impl(&info, &vec![RawEvent { path, flags: CREATED }], 1);
        assert_eq!(delivery.fault, None);
        assert_eq!(delivery.events.len(), 1);
    }
    for path in bad {
        assert!(std::str::from_utf8(&path).is_err());
        let delivery = callback_impl(&info, &vec![RawEvent { path, flags: CREATED }], 1);
        assert_eq!(delivery.fault, Some(Fault::InvalidUtf8));
        assert!(delivery.events.is_empty());
    }
}

#[test]
fn it_makes_no_difference_how_events_are_grouped() {
    let info = context(&[("/w", true)]);
    let all = || {
        vec![
            raw("/w/a", CREATED | FILE),
            raw("/w/b", MODIFIED),
            raw("/x", MODIFIED),
            raw("/w/c", CREATED | MODIFIED | FILE),
            raw("/w/d", 0x8000_0000),
            raw("/w/e", CREATED),
        ]
    };
    let whole = callback_impl(&info, &all(), 1);
    assert_eq!(whole.fault, Some(Fault::UnknownFlags(0x8000_0000)));
    for cut in 0..4 {
        let mut first = all();
        let second = first.split_off(cut);
        let mut events = callback_impl(&info, &first, 1).events;
        let rest = callback_impl(&info, &second, 1);
        events.extend(rest.events);
        assert_eq!(events, whole.events);
        assert_eq!(rest.fault, whole.fault);
    }
}

#[test]
fn more_watches_only_add_to_what_is_passed_on() {
    let batch = || {
        vec![
            raw("/w/a", CREATED | FILE),
            raw("/w/a/b", MODIFIED),
            raw("/x", MODIFIED),
            raw("/w/c", CREATED | MODIFIED | FILE),
            raw("/x/y", CREATED | FILE),
        ]
    };
    let less = callback_impl(&context(&[("/w", false)]), &batch(), 1).events;
    let more = callback_impl(&context(&[("/w", true), ("/x", false)]), &batch(), 1).events;
    assert_eq!(less.len(), 3);
    assert_eq!(more.len(), 6);
    let mut rest = more.iter();
    for event in &less {
        assert!(rest.any(|other| other == event));
    }
}

#[test]
fn each_event_is_judged_by_itself() {
    let info = context(&[("/w", false)]);
    let flags = CREATED | FILE;
    assert_eq!(judge(&info, &raw("/w/a", flags)), Verdict::Heard(StreamFlags { bits: flags }));
    assert_eq!(judge(&info, &raw("/w/a/b", flags)), Verdict::PassedOver);
    assert_eq!(
        judge(&info, &raw("/x", 0x0080_0000)),
        Verdict::Faulty(Fault::UnknownFlags(0x0080_0000))
    );
    let odd = RawEvent { path: vec![0xff], flags: 0x0080_0000 };
    assert_eq!(judge(&info, &odd), Verdict::Faulty(Fault::InvalidUtf8));
}

fn check_send<T: Send + Sync>() {}

#[test]
fn test_steam_context_info_send_and_sync() {
    check_send::<StreamContextInfo>();
}
