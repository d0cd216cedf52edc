//! The events that a watcher reports.

use vstd::prelude::*;

use crate::path::FsPath;

verus! {

/// How an entry came to be.
#[derive(Clone, Copy, Debug, PartialEq, Eq, Structural)]
pub enum CreateKind {
    /// Nothing is known of the entry.
    Any,
    File,
    Folder,
    /// Neither a file nor a folder.
    Other,
}

/// What entry went away.
#[derive(Clone, Copy, Debug, PartialEq, Eq, Structural)]
pub enum RemoveKind {
    /// Nothing is known of the entry.
    Any,
    File,
    Folder,
    /// Neither a file nor a folder.
    Other,
}

/// What part of an entry's data changed.
#[derive(Clone, Copy, Debug, PartialEq, Eq, Structural)]
pub enum DataChange {
    Content,
}

/// What part of an entry's metadata changed.
#[derive(Clone, Copy, Debug, PartialEq, Eq, Structural)]
pub enum MetadataKind {
    /// Nothing is known of the part.
    Any,
    Ownership,
    /// Extended attributes.
    Extended,
    Other,
}

/// Which side of a rename an event is about.
#[derive(Clone, Copy, Debug, PartialEq, Eq, Structural)]
pub enum RenameMode {
    /// Either side.
    Any,
    /// The old name.
    From,
}

/// How an entry changed.
#[derive(Clone, Copy, Debug, PartialEq, Eq, Structural)]
pub enum ModifyKind {
    Data(DataChange),
    Metadata(MetadataKind),
    Name(RenameMode),
}

/// What happened.
#[derive(Clone, Copy, Debug, PartialEq, Eq, Structural)]
pub enum EventKind {
    /// Something happened, and nothing more is known.
    Any,
    Create(CreateKind),
    Modify(ModifyKind),
    Remove(RemoveKind),
    /// Something about the watch itself.
    Other,
}

/// What the receiver of an event ought to do.
#[derive(Clone, Copy, Debug, PartialEq, Eq, Structural)]
pub enum Flag {
    /// Events were lost: look at the file system again.
    Rescan,
}

/// What may be known of an event besides its kind.
#[derive(Debug, PartialEq, Eq)]
pub struct EventAttributes {
    pub flag: Option<Flag>,
    pub info: Option<String>,
    pub process_id: Option<u32>,
}

/// One change, reported to the receiver of a watcher's events.
#[derive(Debug, PartialEq, Eq)]
pub struct Event {
    pub kind: EventKind,
    pub paths: Vec<FsPath>,
    pub attrs: EventAttributes,
}

/// The contents of an [`Event`].
#[verifier::ext_equal]
pub struct EventView {
    pub kind: EventKind,
    pub paths: Seq<Seq<u8>>,
    pub flag: Option<Flag>,
    pub info: Option<Seq<char>>,
    pub process_id: Option<u32>,
}

/// The text in an optional string.
pub open spec fn view_text(text: Option<String>) -> Option<Seq<char>> {
    match text {
        Some(text) => Some(text@),
        None => None,
    }
}

/// The bytes of each path in a list.
pub open spec fn view_paths(paths: Seq<FsPath>) -> Seq<Seq<u8>> {
    paths.map_values(|path: FsPath| path@)
}

/// The contents of each event in a list.
pub open spec fn view_events(events: Seq<Event>) -> Seq<EventView> {
    events.map_values(|event: Event| event@)
}

impl View for Event {
    type V = EventView;

    open spec fn view(&self) -> EventView {
        EventView {
            kind: self.kind,
            paths: view_paths(self.paths@),
            flag: self.attrs.flag,
            info: view_text(self.attrs.info),
            process_id: self.attrs.process_id,
        }
    }
}

impl EventView {
    /// An event of which only the kind is known.
    pub open spec fn of(kind: EventKind) -> EventView {
        EventView {
            kind,
            paths: Seq::<Seq<u8>>::empty(),
            flag: None,
            info: None,
            process_id: None,
        }
    }

    pub open spec fn with_flag(self, flag: Flag) -> EventView {
        EventView { flag: Some(flag), ..self }
    }

    pub open spec fn with_info(self, info: Seq<char>) -> EventView {
        EventView { info: Some(info), ..self }
    }

    pub open spec fn with_process_id(self, process_id: u32) -> EventView {
        EventView { process_id: Some(process_id), ..self }
    }

    pub open spec fn with_path(self, path: Seq<u8>) -> EventView {
        EventView { paths: self.paths.push(path), ..self }
    }
}

impl Event {
    /// An event of which only the kind is known.
    pub fn new(kind: EventKind) -> (event: Event)
        ensures
            event@ == EventView::of(kind),
    {
        let paths: Vec<FsPath> = Vec::new();
        assert(view_paths(paths@) =~= Seq::<Seq<u8>>::empty());
        Event { kind, paths, attrs: EventAttributes { flag: None, info: None, process_id: None } }
    }

    /// The event with `flag` in place of its flag.
    pub fn set_flag(self, flag: Flag) -> (event: Event)
        ensures
            event@ == self@.with_flag(flag),
    {
        let mut event = self;
        event.attrs.flag = Some(flag);
        event
    }

    /// The event with `info` in place of its info.
    pub fn set_info(self, info: &str) -> (event: Event)
        ensures
            event@ == self@.with_info(info@),
    {
        let mut event = self;
        event.attrs.info = Some(info.to_owned());
        event
    }

    /// The event with `process_id` in place of its process id.
    pub fn set_process_id(self, process_id: u32) -> (event: Event)
        ensures
            event@ == self@.with_process_id(process_id),
    {
        let mut event = self;
        event.attrs.process_id = Some(process_id);
        event
    }

    /// The event with `path` behind its paths.
    pub fn add_path(self, path: FsPath) -> (event: Event)
        ensures
            event@ == self@.with_path(path@),
    {
        let mut event = self;
        event.paths.push(path);
        assert(view_paths(event.paths@) =~= self@.paths.push(path@));
        event
    }
}

impl Default for Event {
    fn default() -> (event: Event)
        ensures
            event@ == EventView::of(EventKind::Any),
    {
        Event::new(EventKind::Any)
    }
}

/// Nothing of an event is left out of its contents, and nothing is added to it.
pub proof fn law_event_contents(event: Event, i: int)
    ensures
        event@.kind == event.kind,
        event@.flag == event.attrs.flag,
        event@.process_id == event.attrs.process_id,
        event@.info is Some <==> event.attrs.info is Some,
        event.attrs.info is Some ==> event@.info->Some_0 == event.attrs.info->Some_0@,
        event@.paths.len() == event.paths@.len(),
        0 <= i < event.paths@.len() ==> event@.paths[i] == event.paths@[i].bytes@,
{
}

/// The contents of a list are those of its events, one by one.
pub proof fn law_list_contents(events: Seq<Event>, i: int)
    ensures
        view_events(events).len() == events.len(),
        0 <= i < events.len() ==> view_events(events)[i] == events[i]@,
{
}

/// A new event tells its kind alone, and what is set in an event later changes nothing else.
pub proof fn law_built_events(
    kind: EventKind,
    event: EventView,
    flag: Flag,
    info: Seq<char>,
    process_id: u32,
    path: Seq<u8>,
)
    ensures
        EventView::of(kind) == (EventView {
            kind,
            paths: Seq::<Seq<u8>>::empty(),
            flag: None,
            info: None,
            process_id: None,
        }),
        event.with_flag(flag) == (EventView { flag: Some(flag), ..event }),
        event.with_info(info) == (EventView { info: Some(info), ..event }),
        event.with_process_id(process_id) == (EventView {
            process_id: Some(process_id),
            ..event
        }),
        event.with_path(path) == (EventView { paths: event.paths + seq![path], ..event }),
{
    assert(event.with_path(path).paths =~= event.paths + seq![path]);
}

} // verus!
