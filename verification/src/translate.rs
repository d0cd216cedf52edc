//! What the flags of one FSEvents event mean, as a list of [`Event`]s.

use vstd::prelude::*;

use crate::event::{CreateKind, DataChange, Event, EventKind, Flag, MetadataKind, ModifyKind};
use crate::event::{RemoveKind, RenameMode};
use crate::flags::StreamFlags;

verus! {

use crate::event::{view_events, EventView};
use crate::flags::law_disjoint_flags;

/// The event alone if `holds`, and no event otherwise.
pub open spec fn when(holds: bool, event: EventView) -> Seq<EventView> {
    if holds {
        seq![event]
    } else {
        Seq::<EventView>::empty()
    }
}

/// The call to look again, with the reason why events were dropped as far as it is known.
pub open spec fn rescan_event(flags: StreamFlags) -> EventView {
    let rescan = EventView::of(EventKind::Other).with_flag(Flag::Rescan);
    if flags.has(StreamFlags::USER_DROPPED) {
        rescan.with_info("rescan: user dropped"@)
    } else if flags.has(StreamFlags::KERNEL_DROPPED) {
        rescan.with_info("rescan: kernel dropped"@)
    } else {
        rescan
    }
}

/// What is known of an entry that is neither a file nor a folder.
pub open spec fn special_entry(flags: StreamFlags) -> Option<Seq<char>> {
    if flags.has(StreamFlags::IS_SYMLINK) {
        Some("is: symlink"@)
    } else if flags.has(StreamFlags::IS_HARDLINK) {
        Some("is: hardlink"@)
    } else if flags.has(StreamFlags::ITEM_CLONED) {
        Some("is: clone"@)
    } else {
        None
    }
}

/// The creation of an entry.
pub open spec fn created_event(flags: StreamFlags) -> EventView {
    if flags.has(StreamFlags::IS_DIR) {
        EventView::of(EventKind::Create(CreateKind::Folder))
    } else if flags.has(StreamFlags::IS_FILE) {
        EventView::of(EventKind::Create(CreateKind::File))
    } else {
        match special_entry(flags) {
            Some(info) => EventView::of(EventKind::Create(CreateKind::Other)).with_info(info),
            None => EventView::of(EventKind::Create(CreateKind::Any)),
        }
    }
}

/// The removal of an entry.
pub open spec fn removed_event(flags: StreamFlags) -> EventView {
    if flags.has(StreamFlags::IS_DIR) {
        EventView::of(EventKind::Remove(RemoveKind::Folder))
    } else if flags.has(StreamFlags::IS_FILE) {
        EventView::of(EventKind::Remove(RemoveKind::File))
    } else {
        match special_entry(flags) {
            Some(info) => EventView::of(EventKind::Remove(RemoveKind::Other)).with_info(info),
            None => EventView::of(EventKind::Remove(RemoveKind::Any)),
        }
    }
}

pub open spec fn metadata_event(kind: MetadataKind) -> EventView {
    EventView::of(EventKind::Modify(ModifyKind::Metadata(kind)))
}

pub open spec fn renamed_event(mode: RenameMode) -> EventView {
    EventView::of(EventKind::Modify(ModifyKind::Name(mode)))
}

/// The call to look again, if the flags ask for one.
pub open spec fn rescans(flags: StreamFlags) -> Seq<EventView> {
    when(flags.has(StreamFlags::MUST_SCAN_SUBDIRS), rescan_event(flags))
}

/// The events `told`, then what happened to the watched directory and to what is mounted there.
pub open spec fn with_root_events(told: Seq<EventView>, flags: StreamFlags) -> Seq<EventView> {
    told + when(
        flags.has(StreamFlags::ROOT_CHANGED),
        renamed_event(RenameMode::From).with_info("root changed"@),
    ) + when(
        flags.has(StreamFlags::MOUNT),
        EventView::of(EventKind::Create(CreateKind::Other)).with_info("mount"@),
    ) + when(
        flags.has(StreamFlags::UNMOUNT),
        EventView::of(EventKind::Remove(RemoveKind::Other)).with_info("mount"@),
    )
}

/// The events `told`, then what happened to the entry as a whole.
pub open spec fn with_entry_events(told: Seq<EventView>, flags: StreamFlags) -> Seq<EventView> {
    told + when(
        flags.has(StreamFlags::ITEM_CREATED),
        created_event(flags),
    ) + when(
        flags.has(StreamFlags::ITEM_REMOVED),
        removed_event(flags),
    ) + when(
        flags.has(StreamFlags::ITEM_RENAMED),
        renamed_event(RenameMode::Any),
    )
}

/// The events `told`, then what changed in the entry.
pub open spec fn with_modification_events(
    told: Seq<EventView>,
    flags: StreamFlags,
) -> Seq<EventView> {
    told + when(
        flags.has(StreamFlags::INODE_META_MOD),
        metadata_event(MetadataKind::Any),
    ) + when(
        flags.has(StreamFlags::FINDER_INFO_MOD),
        metadata_event(MetadataKind::Other).with_info("meta: finder info"@),
    ) + when(
        flags.has(StreamFlags::ITEM_CHANGE_OWNER),
        metadata_event(MetadataKind::Ownership),
    ) + when(
        flags.has(StreamFlags::ITEM_XATTR_MOD),
        metadata_event(MetadataKind::Extended),
    ) + when(
        flags.has(StreamFlags::ITEM_MODIFIED),
        EventView::of(EventKind::Modify(ModifyKind::Data(DataChange::Content))),
    )
}

/// What the flags tell of, one event for each of the flags that stands for one: first the call
/// to look again, then the changes.
pub open spec fn precise_events(flags: StreamFlags) -> Seq<EventView> {
    with_modification_events(
        with_entry_events(with_root_events(rescans(flags), flags), flags),
        flags,
    )
}

/// The events with `process_id` in each of them.
pub open spec fn claimed(events: Seq<EventView>, process_id: u32) -> Seq<EventView> {
    events.map_values(|event: EventView| event.with_process_id(process_id))
}

/// The events that `flags` stand for.
///
/// The end of the historical events stands for none, whatever else is flagged. Without
/// `precise`, everything but a call to look again comes down to a single event of any kind.
/// What this process did itself carries its id.
pub open spec fn translation(flags: StreamFlags, precise: bool, process_id: u32) -> Seq<EventView> {
    if flags.has(StreamFlags::HISTORY_DONE) {
        Seq::<EventView>::empty()
    } else if !precise {
        rescans(flags).push(EventView::of(EventKind::Any))
    } else if flags.has(StreamFlags::OWN_EVENT) {
        claimed(precise_events(flags), process_id)
    } else {
        precise_events(flags)
    }
}

proof fn lemma_no_event(events: Seq<EventView>, event: EventView)
    ensures
        events + when(false, event) == events,
{
    assert(events + when(false, event) =~= events);
}

/// Adds `event` to `events`.
fn report(events: &mut Vec<Event>, event: Event)
    ensures
        view_events(final(events)@) == view_events(old(events)@) + when(true, event@),
{
    events.push(event);
    assert(view_events(events@) =~= view_events(old(events)@) + when(true, event@));
}

/// The call to look again for events that were dropped.
fn rescan(flags: StreamFlags) -> (event: Event)
    ensures
        event@ == rescan_event(flags),
{
    let event = Event::new(EventKind::Other).set_flag(Flag::Rescan);
    if flags.contains(StreamFlags::USER_DROPPED) {
        event.set_info("rescan: user dropped")
    } else if flags.contains(StreamFlags::KERNEL_DROPPED) {
        event.set_info("rescan: kernel dropped")
    } else {
        event
    }
}

/// The creation of the entry that the flags describe.
fn created(flags: StreamFlags) -> (event: Event)
    ensures
        event@ == created_event(flags),
{
    if flags.contains(StreamFlags::IS_DIR) {
        Event::new(EventKind::Create(CreateKind::Folder))
    } else if flags.contains(StreamFlags::IS_FILE) {
        Event::new(EventKind::Create(CreateKind::File))
    } else {
        let event = Event::new(EventKind::Create(CreateKind::Other));
        if flags.contains(StreamFlags::IS_SYMLINK) {
            event.set_info("is: symlink")
        } else if flags.contains(StreamFlags::IS_HARDLINK) {
            event.set_info("is: hardlink")
        } else if flags.contains(StreamFlags::ITEM_CLONED) {
            event.set_info("is: clone")
        } else {
            Event::new(EventKind::Create(CreateKind::Any))
        }
    }
}

/// The removal of the entry that the flags describe.
fn removed(flags: StreamFlags) -> (event: Event)
    ensures
        event@ == removed_event(flags),
{
    if flags.contains(StreamFlags::IS_DIR) {
        Event::new(EventKind::Remove(RemoveKind::Folder))
    } else if flags.contains(StreamFlags::IS_FILE) {
        Event::new(EventKind::Remove(RemoveKind::File))
    } else {
        let event = Event::new(EventKind::Remove(RemoveKind::Other));
        if flags.contains(StreamFlags::IS_SYMLINK) {
            event.set_info("is: symlink")
        } else if flags.contains(StreamFlags::IS_HARDLINK) {
            event.set_info("is: hardlink")
        } else if flags.contains(StreamFlags::ITEM_CLONED) {
            event.set_info("is: clone")
        } else {
            Event::new(EventKind::Remove(RemoveKind::Any))
        }
    }
}

/// The events with `process_id` in each of them.
fn claim(events: Vec<Event>, process_id: u32) -> (own: Vec<Event>)
    ensures
        view_events(own@) == claimed(view_events(events@), process_id),
{
    let mut own: Vec<Event> = Vec::new();
    let ghost all = view_events(events@);
    for event in rest: events
        invariant
            rest.seq() == events@,
            all == view_events(events@),
            view_events(own@) == claimed(all.take(rest.index() as int), process_id),
    {
        let ghost before = own@;
        let ghost done = rest.index() as int;
        assert(event@ == all[done]);
        own.push(event.set_process_id(process_id));
        assert(view_events(own@) =~= view_events(before).push(
            all[done].with_process_id(process_id),
        ));
        assert(all.take(done + 1) =~= all.take(done).push(all[done]));
        assert(view_events(own@) =~= claimed(all.take(done + 1), process_id));
    }
    assert(all.take(all.len() as int) =~= all);
    own
}

/// Adds what happened to the watched directories and to file systems mounted below them.
fn report_roots(events: &mut Vec<Event>, flags: StreamFlags)
    ensures
        view_events(final(events)@) == with_root_events(view_events(old(events)@), flags),
{
    // Most likely a rename, possibly a removal.
    if flags.contains(StreamFlags::ROOT_CHANGED) {
        report(
            events,
            Event::new(EventKind::Modify(ModifyKind::Name(RenameMode::From))).set_info(
                "root changed",
            ),
        );
    } else {
        proof {
            lemma_no_event(
                view_events(events@),
                renamed_event(RenameMode::From).with_info("root changed"@),
            );
        }
    }

    // Something was mounted at the path: a creation.
    if flags.contains(StreamFlags::MOUNT) {
        report(events, Event::new(EventKind::Create(CreateKind::Other)).set_info("mount"));
    } else {
        proof {
            lemma_no_event(
                view_events(events@),
                EventView::of(EventKind::Create(CreateKind::Other)).with_info("mount"@),
            );
        }
    }

    // Something was unmounted at the path: a removal.
    if flags.contains(StreamFlags::UNMOUNT) {
        report(events, Event::new(EventKind::Remove(RemoveKind::Other)).set_info("mount"));
    } else {
        proof {
            lemma_no_event(
                view_events(events@),
                EventView::of(EventKind::Remove(RemoveKind::Other)).with_info("mount"@),
            );
        }
    }
}

/// Adds what happened to the entry as a whole.
fn report_entries(events: &mut Vec<Event>, flags: StreamFlags)
    ensures
        view_events(final(events)@) == with_entry_events(view_events(old(events)@), flags),
{
    if flags.contains(StreamFlags::ITEM_CREATED) {
        report(events, created(flags));
    } else {
        proof {
            lemma_no_event(
                view_events(events@),
                created_event(flags),
            );
        }
    }

    if flags.contains(StreamFlags::ITEM_REMOVED) {
        report(events, removed(flags));
    } else {
        proof {
            lemma_no_event(
                view_events(events@),
                removed_event(flags),
            );
        }
    }

    // FSEvents does not tell which two names belong to one rename.
    if flags.contains(StreamFlags::ITEM_RENAMED) {
        report(events, Event::new(EventKind::Modify(ModifyKind::Name(RenameMode::Any))));
    } else {
        proof {
            lemma_no_event(
                view_events(events@),
                renamed_event(RenameMode::Any),
            );
        }
    }
}

/// Adds what changed in the entry.
fn report_modifications(events: &mut Vec<Event>, flags: StreamFlags)
    ensures
        view_events(final(events)@) == with_modification_events(view_events(old(events)@), flags),
{
    if flags.contains(StreamFlags::INODE_META_MOD) {
        report(events, Event::new(EventKind::Modify(ModifyKind::Metadata(MetadataKind::Any))));
    } else {
        proof {
            lemma_no_event(
                view_events(events@),
                metadata_event(MetadataKind::Any),
            );
        }
    }

    if flags.contains(StreamFlags::FINDER_INFO_MOD) {
        report(
            events,
            Event::new(EventKind::Modify(ModifyKind::Metadata(MetadataKind::Other))).set_info(
                "meta: finder info",
            ),
        );
    } else {
        proof {
            lemma_no_event(
                view_events(events@),
                metadata_event(MetadataKind::Other).with_info("meta: finder info"@),
            );
        }
    }

    if flags.contains(StreamFlags::ITEM_CHANGE_OWNER) {
        report(
            events,
            Event::new(EventKind::Modify(ModifyKind::Metadata(MetadataKind::Ownership))),
        );
    } else {
        proof {
            lemma_no_event(
                view_events(events@),
                metadata_event(MetadataKind::Ownership),
            );
        }
    }

    if flags.contains(StreamFlags::ITEM_XATTR_MOD) {
        report(
            events,
            Event::new(EventKind::Modify(ModifyKind::Metadata(MetadataKind::Extended))),
        );
    } else {
        proof {
            lemma_no_event(
                view_events(events@),
                metadata_event(MetadataKind::Extended),
            );
        }
    }

    // Described as a change of the data, which is a change of the content.
    if flags.contains(StreamFlags::ITEM_MODIFIED) {
        report(events, Event::new(EventKind::Modify(ModifyKind::Data(DataChange::Content))));
    } else {
        proof {
            lemma_no_event(
                view_events(events@),
                EventView::of(EventKind::Modify(ModifyKind::Data(DataChange::Content))),
            );
        }
    }
}

/// The events that `flags` stand for, in the process `process_id`.
pub fn translate_flags(flags: StreamFlags, precise: bool, process_id: u32) -> (events: Vec<Event>)
    ensures
        view_events(events@) == translation(flags, precise, process_id),
{
    let mut evs: Vec<Event> = Vec::new();
    assert(view_events(evs@) =~= Seq::<EventView>::empty());

    // The sentinel behind the historical events: its path says nothing, so it is no event at all.
    if flags.contains(StreamFlags::HISTORY_DONE) {
        return evs;
    }

    // FSEvents hints at who dropped events, but does not document it well: the hint is passed
    // on as it is.
    if flags.contains(StreamFlags::MUST_SCAN_SUBDIRS) {
        report(&mut evs, rescan(flags));
    }
    assert(view_events(evs@) =~= rescans(flags));

    if !precise {
        report(&mut evs, Event::new(EventKind::Any));
        assert(view_events(evs@) =~= rescans(flags).push(EventView::of(EventKind::Any)));
        return evs;
    }

    report_roots(&mut evs, flags);
    report_entries(&mut evs, flags);
    report_modifications(&mut evs, flags);

    if flags.contains(StreamFlags::OWN_EVENT) {
        evs = claim(evs, process_id);
    }
    evs
}

/// One event for a flag that is set, none for one that is not.
pub open spec fn count(flags: StreamFlags, flag: u32) -> nat {
    if flags.has(flag) {
        1
    } else {
        0
    }
}

/// An event about a change: it names no path yet, claims no process and calls for no rescan.
pub open spec fn is_bare_change(event: EventView) -> bool {
    &&& event.paths.len() == 0
    &&& event.process_id is None
    &&& event.flag is None
    &&& event.kind != EventKind::Any
    &&& event.kind != EventKind::Other
}

/// Every event from the place `start` on is a bare change.
pub open spec fn changes_from(events: Seq<EventView>, start: int) -> bool {
    forall|i: int| start <= i < events.len() ==> is_bare_change(#[trigger] events[i])
}

proof fn lemma_when_keeps_changes(told: Seq<EventView>, holds: bool, event: EventView, start: int)
    requires
        changes_from(told, start),
        0 <= start <= told.len(),
        is_bare_change(event),
    ensures
        changes_from(told + when(holds, event), start),
        told.is_prefix_of(told + when(holds, event)),
        (told + when(holds, event)).len() == told.len() + (if holds {
            1nat
        } else {
            0nat
        }),
{
    assert(told =~= (told + when(holds, event)).subrange(0, told.len() as int));
}

proof fn lemma_prefix_trans(a: Seq<EventView>, b: Seq<EventView>, c: Seq<EventView>)
    requires
        a.is_prefix_of(b),
        b.is_prefix_of(c),
    ensures
        a.is_prefix_of(c),
{
    assert(a =~= c.subrange(0, a.len() as int)) by {
        assert forall|i: int| 0 <= i < a.len() implies a[i] == c[i] by {
            assert(a[i] == b.subrange(0, a.len() as int)[i]);
            assert(b[i] == c.subrange(0, b.len() as int)[i]);
        }
    }
}

proof fn lemma_root_events(told: Seq<EventView>, flags: StreamFlags, start: int)
    requires
        changes_from(told, start),
        0 <= start <= told.len(),
    ensures
        changes_from(with_root_events(told, flags), start),
        told.is_prefix_of(with_root_events(told, flags)),
        with_root_events(told, flags).len() == told.len() + count(flags, StreamFlags::ROOT_CHANGED)
            + count(flags, StreamFlags::MOUNT) + count(flags, StreamFlags::UNMOUNT),
{
    let root = renamed_event(RenameMode::From).with_info("root changed"@);
    let mount = EventView::of(EventKind::Create(CreateKind::Other)).with_info("mount"@);
    let unmount = EventView::of(EventKind::Remove(RemoveKind::Other)).with_info("mount"@);
    let a = told + when(flags.has(StreamFlags::ROOT_CHANGED), root);
    let b = a + when(flags.has(StreamFlags::MOUNT), mount);
    let c = b + when(flags.has(StreamFlags::UNMOUNT), unmount);
    lemma_when_keeps_changes(told, flags.has(StreamFlags::ROOT_CHANGED), root, start);
    lemma_when_keeps_changes(a, flags.has(StreamFlags::MOUNT), mount, start);
    lemma_when_keeps_changes(b, flags.has(StreamFlags::UNMOUNT), unmount, start);
    lemma_prefix_trans(told, a, b);
    lemma_prefix_trans(told, b, c);
}

proof fn lemma_entry_events(told: Seq<EventView>, flags: StreamFlags, start: int)
    requires
        changes_from(told, start),
        0 <= start <= told.len(),
    ensures
        changes_from(with_entry_events(told, flags), start),
        told.is_prefix_of(with_entry_events(told, flags)),
        with_entry_events(told, flags).len() == told.len() + count(flags, StreamFlags::ITEM_CREATED)
            + count(flags, StreamFlags::ITEM_REMOVED) + count(flags, StreamFlags::ITEM_RENAMED),
{
    let created = created_event(flags);
    let removed = removed_event(flags);
    let renamed = renamed_event(RenameMode::Any);
    let a = told + when(flags.has(StreamFlags::ITEM_CREATED), created);
    let b = a + when(flags.has(StreamFlags::ITEM_REMOVED), removed);
    let c = b + when(flags.has(StreamFlags::ITEM_RENAMED), renamed);
    lemma_when_keeps_changes(told, flags.has(StreamFlags::ITEM_CREATED), created, start);
    lemma_when_keeps_changes(a, flags.has(StreamFlags::ITEM_REMOVED), removed, start);
    lemma_when_keeps_changes(b, flags.has(StreamFlags::ITEM_RENAMED), renamed, start);
    lemma_prefix_trans(told, a, b);
    lemma_prefix_trans(told, b, c);
}

proof fn lemma_modification_events(told: Seq<EventView>, flags: StreamFlags, start: int)
    requires
        changes_from(told, start),
        0 <= start <= told.len(),
    ensures
        changes_from(with_modification_events(told, flags), start),
        told.is_prefix_of(with_modification_events(told, flags)),
        with_modification_events(told, flags).len() == told.len() + count(
            flags,
            StreamFlags::INODE_META_MOD,
        ) + count(flags, StreamFlags::FINDER_INFO_MOD) + count(
            flags,
            StreamFlags::ITEM_CHANGE_OWNER,
        ) + count(flags, StreamFlags::ITEM_XATTR_MOD) + count(flags, StreamFlags::ITEM_MODIFIED),
{
    let inode = metadata_event(MetadataKind::Any);
    let finder = metadata_event(MetadataKind::Other).with_info("meta: finder info"@);
    let owner = metadata_event(MetadataKind::Ownership);
    let xattr = metadata_event(MetadataKind::Extended);
    let content = EventView::of(EventKind::Modify(ModifyKind::Data(DataChange::Content)));
    let a = told + when(flags.has(StreamFlags::INODE_META_MOD), inode);
    let b = a + when(flags.has(StreamFlags::FINDER_INFO_MOD), finder);
    let c = b + when(flags.has(StreamFlags::ITEM_CHANGE_OWNER), owner);
    let d = c + when(flags.has(StreamFlags::ITEM_XATTR_MOD), xattr);
    let e = d + when(flags.has(StreamFlags::ITEM_MODIFIED), content);
    lemma_when_keeps_changes(told, flags.has(StreamFlags::INODE_META_MOD), inode, start);
    lemma_when_keeps_changes(a, flags.has(StreamFlags::FINDER_INFO_MOD), finder, start);
    lemma_when_keeps_changes(b, flags.has(StreamFlags::ITEM_CHANGE_OWNER), owner, start);
    lemma_when_keeps_changes(c, flags.has(StreamFlags::ITEM_XATTR_MOD), xattr, start);
    lemma_when_keeps_changes(d, flags.has(StreamFlags::ITEM_MODIFIED), content, start);
    lemma_prefix_trans(told, a, b);
    lemma_prefix_trans(told, b, c);
    lemma_prefix_trans(told, c, d);
    lemma_prefix_trans(told, d, e);
}

proof fn lemma_precise_events(flags: StreamFlags)
    ensures
        rescans(flags).is_prefix_of(precise_events(flags)),
        changes_from(precise_events(flags), rescans(flags).len() as int),
        precise_events(flags).len() == count(flags, StreamFlags::MUST_SCAN_SUBDIRS) + count(
            flags,
            StreamFlags::ROOT_CHANGED,
        ) + count(flags, StreamFlags::MOUNT) + count(flags, StreamFlags::UNMOUNT) + count(
            flags,
            StreamFlags::ITEM_CREATED,
        ) + count(flags, StreamFlags::ITEM_REMOVED) + count(flags, StreamFlags::ITEM_RENAMED)
            + count(flags, StreamFlags::INODE_META_MOD) + count(flags, StreamFlags::FINDER_INFO_MOD)
            + count(flags, StreamFlags::ITEM_CHANGE_OWNER) + count(
            flags,
            StreamFlags::ITEM_XATTR_MOD,
        ) + count(flags, StreamFlags::ITEM_MODIFIED),
{
    let start = rescans(flags).len() as int;
    let a = with_root_events(rescans(flags), flags);
    let b = with_entry_events(a, flags);
    lemma_root_events(rescans(flags), flags, start);
    lemma_entry_events(a, flags, start);
    lemma_modification_events(b, flags, start);
    lemma_prefix_trans(rescans(flags), a, b);
    lemma_prefix_trans(rescans(flags), b, precise_events(flags));
}

/// What holds of each event of a list that starts with `first` and goes on with changes.
proof fn lemma_event_at(first: Seq<EventView>, events: Seq<EventView>, i: int)
    requires
        first.is_prefix_of(events),
        changes_from(events, first.len() as int),
        forall|j: int|
            0 <= j < first.len() ==> (#[trigger] first[j]).paths.len() == 0
                && first[j].process_id is None,
        0 <= i < events.len(),
    ensures
        events[i].paths.len() == 0,
        events[i].process_id is None,
{
    if i < first.len() {
        assert(first[i] == events.subrange(0, first.len() as int)[i]);
    } else {
        assert(is_bare_change(events[i]));
    }
}

proof fn lemma_bare_events(flags: StreamFlags)
    ensures
        forall|i: int|
            0 <= i < precise_events(flags).len() ==> (#[trigger] precise_events(
                flags,
            )[i]).paths.len() == 0 && precise_events(flags)[i].process_id is None,
{
    lemma_precise_events(flags);
    let events = precise_events(flags);
    assert forall|i: int| 0 <= i < events.len() implies (#[trigger] events[i]).paths.len() == 0
        && events[i].process_id is None by {
        lemma_event_at(rescans(flags), events, i);
    }
}

/// The end of the historical events is never an event, whatever other flags come with it.
pub proof fn law_history_done_is_silent(flags: StreamFlags, precise: bool, process_id: u32)
    requires
        flags.has(StreamFlags::HISTORY_DONE),
    ensures
        translation(flags, precise, process_id).len() == 0,
{
}

/// In precise mode there is one event for each flag that stands for one, and no other: flags
/// that only describe the entry add none.
pub proof fn law_one_event_per_flag(flags: StreamFlags, process_id: u32)
    requires
        !flags.has(StreamFlags::HISTORY_DONE),
    ensures
        translation(flags, true, process_id).len() == count(flags, StreamFlags::MUST_SCAN_SUBDIRS)
            + count(flags, StreamFlags::ROOT_CHANGED) + count(flags, StreamFlags::MOUNT) + count(
            flags,
            StreamFlags::UNMOUNT,
        ) + count(flags, StreamFlags::ITEM_CREATED) + count(flags, StreamFlags::ITEM_REMOVED)
            + count(flags, StreamFlags::ITEM_RENAMED) + count(flags, StreamFlags::INODE_META_MOD)
            + count(flags, StreamFlags::FINDER_INFO_MOD) + count(
            flags,
            StreamFlags::ITEM_CHANGE_OWNER,
        ) + count(flags, StreamFlags::ITEM_XATTR_MOD) + count(flags, StreamFlags::ITEM_MODIFIED),
{
    lemma_precise_events(flags);
}

/// A call to look again comes before everything else, in either mode, exactly when the flags
/// ask for one. No other event is of its kind or carries its flag.
pub proof fn law_rescan_comes_first(flags: StreamFlags, precise: bool, process_id: u32, i: int)
    requires
        0 <= i < translation(flags, precise, process_id).len(),
    ensures
        (i == 0 && flags.has(StreamFlags::MUST_SCAN_SUBDIRS)) <==> translation(
            flags,
            precise,
            process_id,
        )[i].flag == Some(Flag::Rescan),
        (i == 0 && flags.has(StreamFlags::MUST_SCAN_SUBDIRS)) <==> translation(
            flags,
            precise,
            process_id,
        )[i].kind == EventKind::Other,
{
    lemma_precise_events(flags);
    let precise_list = precise_events(flags);
    if i == 0 && flags.has(StreamFlags::MUST_SCAN_SUBDIRS) {
        assert(rescans(flags)[0] == precise_list.subrange(0, rescans(flags).len() as int)[0]);
    } else if precise {
        assert(is_bare_change(precise_list[i]));
    }
}

/// Without `precise`, the flags tell no more than that something happened.
pub proof fn law_imprecise_mode(flags: StreamFlags, process_id: u32)
    requires
        !flags.has(StreamFlags::HISTORY_DONE),
    ensures
        translation(flags, false, process_id).last() == EventView::of(EventKind::Any),
        translation(flags, false, process_id).len() == 1 + count(
            flags,
            StreamFlags::MUST_SCAN_SUBDIRS,
        ),
{
}

/// In precise mode every event of a word carries this process's id if the word says that this
/// process caused it, and none does otherwise. Without `precise` none ever does.
pub proof fn law_process_id(flags: StreamFlags, precise: bool, process_id: u32, i: int)
    requires
        0 <= i < translation(flags, precise, process_id).len(),
    ensures
        translation(flags, precise, process_id)[i].process_id == (if precise && flags.has(
            StreamFlags::OWN_EVENT,
        ) {
            Some(process_id)
        } else {
            None
        }),
{
    lemma_bare_events(flags);
}

/// Flags alone name no path.
pub proof fn law_no_path(flags: StreamFlags, precise: bool, process_id: u32, i: int)
    requires
        0 <= i < translation(flags, precise, process_id).len(),
    ensures
        translation(flags, precise, process_id)[i].paths.len() == 0,
{
    lemma_bare_events(flags);
}

/// A wrapped event id and the removal of the last hard link change nothing: a word with these
/// flags stands for the same events as the word without them.
pub proof fn law_ignored_flags(flags: StreamFlags, precise: bool, process_id: u32)
    ensures
        translation(
            StreamFlags {
                bits: flags.bits | (StreamFlags::IDS_WRAPPED | StreamFlags::IS_LAST_HARDLINK),
            },
            precise,
            process_id,
        ) == translation(flags, precise, process_id),
{
    let ignored = StreamFlags::IDS_WRAPPED | StreamFlags::IS_LAST_HARDLINK;
    let more = StreamFlags { bits: flags.bits | ignored };
    assert forall|flag: u32| ignored & flag == 0 implies more.has(flag) == #[trigger] flags.has(
        flag,
    ) by {
        law_disjoint_flags(flags, ignored, flag);
    }
    lemma_ignored_apart();
    assert(special_entry(more) == special_entry(flags));
    assert(created_event(more) == created_event(flags));
    assert(removed_event(more) == removed_event(flags));
    assert(rescans(more) == rescans(flags));
    assert(precise_events(more) == precise_events(flags));
}

/// The ignored flags share no bit with the flags that a translation asks for.
proof fn lemma_ignored_apart()
    by (bit_vector)
    ensures
        ({
            let ignored = StreamFlags::IDS_WRAPPED | StreamFlags::IS_LAST_HARDLINK;
            &&& ignored & StreamFlags::HISTORY_DONE == 0
            &&& ignored & StreamFlags::MUST_SCAN_SUBDIRS == 0
            &&& ignored & StreamFlags::USER_DROPPED == 0
            &&& ignored & StreamFlags::KERNEL_DROPPED == 0
            &&& ignored & StreamFlags::ROOT_CHANGED == 0
            &&& ignored & StreamFlags::MOUNT == 0
            &&& ignored & StreamFlags::UNMOUNT == 0
            &&& ignored & StreamFlags::ITEM_CREATED == 0
            &&& ignored & StreamFlags::ITEM_REMOVED == 0
            &&& ignored & StreamFlags::INODE_META_MOD == 0
            &&& ignored & StreamFlags::ITEM_RENAMED == 0
            &&& ignored & StreamFlags::ITEM_MODIFIED == 0
            &&& ignored & StreamFlags::FINDER_INFO_MOD == 0
            &&& ignored & StreamFlags::ITEM_CHANGE_OWNER == 0
            &&& ignored & StreamFlags::ITEM_XATTR_MOD == 0
            &&& ignored & StreamFlags::IS_FILE == 0
            &&& ignored & StreamFlags::IS_DIR == 0
            &&& ignored & StreamFlags::IS_SYMLINK == 0
            &&& ignored & StreamFlags::OWN_EVENT == 0
            &&& ignored & StreamFlags::IS_HARDLINK == 0
            &&& ignored & StreamFlags::ITEM_CLONED == 0
        }),
{
}

/// The event at `place`, which is there, has this kind and this info. It names no path and calls
/// for no rescan, and `owner` is the process that it claims.
spec fn tells(
    events: Seq<EventView>,
    place: nat,
    kind: EventKind,
    info: Option<Seq<char>>,
    owner: Option<u32>,
) -> bool {
    &&& place < events.len()
    &&& events[place as int] == EventView {
        kind,
        paths: Seq::<Seq<u8>>::empty(),
        flag: None,
        info,
        process_id: owner,
    }
}

/// What each flag stands for, and where: the event for a flag that is set comes behind the events
/// for those of the flags named before it that are set too, whatever other flags come with it. What
/// a created or removed entry is, the flags that describe it tell, a folder before a file, and
/// either before the rest. `owner` is the process that all of them claim.
spec fn told_in_order(
    flags: StreamFlags,
    events: Seq<EventView>,
    owner: Option<u32>,
) -> bool {
    let root = count(flags, StreamFlags::MUST_SCAN_SUBDIRS);
    let mount = root + count(flags, StreamFlags::ROOT_CHANGED);
    let unmount = mount + count(flags, StreamFlags::MOUNT);
    let created = unmount + count(flags, StreamFlags::UNMOUNT);
    let removed = created + count(flags, StreamFlags::ITEM_CREATED);
    let renamed = removed + count(flags, StreamFlags::ITEM_REMOVED);
    let inode = renamed + count(flags, StreamFlags::ITEM_RENAMED);
    let finder = inode + count(flags, StreamFlags::INODE_META_MOD);
    let ownership = finder + count(flags, StreamFlags::FINDER_INFO_MOD);
    let extended = ownership + count(flags, StreamFlags::ITEM_CHANGE_OWNER);
    let content = extended + count(flags, StreamFlags::ITEM_XATTR_MOD);
    let is_dir = flags.has(StreamFlags::IS_DIR);
    let is_file = flags.has(StreamFlags::IS_FILE);
    let is_symlink = flags.has(StreamFlags::IS_SYMLINK);
    let is_hardlink = flags.has(StreamFlags::IS_HARDLINK);
    let is_clone = flags.has(StreamFlags::ITEM_CLONED);
    &&& events.len() == content + count(flags, StreamFlags::ITEM_MODIFIED)
    &&& flags.has(StreamFlags::ROOT_CHANGED) ==> tells(
        events,
        root,
        EventKind::Modify(ModifyKind::Name(RenameMode::From)),
        Some("root changed"@),
        owner,
    )
    &&& flags.has(StreamFlags::MOUNT) ==> tells(
        events,
        mount,
        EventKind::Create(CreateKind::Other),
        Some("mount"@),
        owner,
    )
    &&& flags.has(StreamFlags::UNMOUNT) ==> tells(
        events,
        unmount,
        EventKind::Remove(RemoveKind::Other),
        Some("mount"@),
        owner,
    )
    &&& flags.has(StreamFlags::ITEM_CREATED) ==> {
        &&& is_dir ==> tells(
            events,
            created,
            EventKind::Create(CreateKind::Folder),
            None,
            owner,
        )
        &&& !is_dir && is_file ==> tells(
            events,
            created,
            EventKind::Create(CreateKind::File),
            None,
            owner,
        )
        &&& !is_dir && !is_file && is_symlink ==> tells(
            events,
            created,
            EventKind::Create(CreateKind::Other),
            Some("is: symlink"@),
            owner,
        )
        &&& !is_dir && !is_file && !is_symlink && is_hardlink ==> tells(
            events,
            created,
            EventKind::Create(CreateKind::Other),
            Some("is: hardlink"@),
            owner,
        )
        &&& !is_dir && !is_file && !is_symlink && !is_hardlink && is_clone ==> tells(
            events,
            created,
            EventKind::Create(CreateKind::Other),
            Some("is: clone"@),
            owner,
        )
        &&& !is_dir && !is_file && !is_symlink && !is_hardlink && !is_clone ==> tells(
            events,
            created,
            EventKind::Create(CreateKind::Any),
            None,
            owner,
        )
    }
    &&& flags.has(StreamFlags::ITEM_REMOVED) ==> {
        &&& is_dir ==> tells(
            events,
            removed,
            EventKind::Remove(RemoveKind::Folder),
            None,
            owner,
        )
        &&& !is_dir && is_file ==> tells(
            events,
            removed,
            EventKind::Remove(RemoveKind::File),
            None,
            owner,
        )
        &&& !is_dir && !is_file && is_symlink ==> tells(
            events,
            removed,
            EventKind::Remove(RemoveKind::Other),
            Some("is: symlink"@),
            owner,
        )
        &&& !is_dir && !is_file && !is_symlink && is_hardlink ==> tells(
            events,
            removed,
            EventKind::Remove(RemoveKind::Other),
            Some("is: hardlink"@),
            owner,
        )
        &&& !is_dir && !is_file && !is_symlink && !is_hardlink && is_clone ==> tells(
            events,
            removed,
            EventKind::Remove(RemoveKind::Other),
            Some("is: clone"@),
            owner,
        )
        &&& !is_dir && !is_file && !is_symlink && !is_hardlink && !is_clone ==> tells(
            events,
            removed,
            EventKind::Remove(RemoveKind::Any),
            None,
            owner,
        )
    }
    &&& flags.has(StreamFlags::ITEM_RENAMED) ==> tells(
        events,
        renamed,
        EventKind::Modify(ModifyKind::Name(RenameMode::Any)),
        None,
        owner,
    )
    &&& flags.has(StreamFlags::INODE_META_MOD) ==> tells(
        events,
        inode,
        EventKind::Modify(ModifyKind::Metadata(MetadataKind::Any)),
        None,
        owner,
    )
    &&& flags.has(StreamFlags::FINDER_INFO_MOD) ==> tells(
        events,
        finder,
        EventKind::Modify(ModifyKind::Metadata(MetadataKind::Other)),
        Some("meta: finder info"@),
        owner,
    )
    &&& flags.has(StreamFlags::ITEM_CHANGE_OWNER) ==> tells(
        events,
        ownership,
        EventKind::Modify(ModifyKind::Metadata(MetadataKind::Ownership)),
        None,
        owner,
    )
    &&& flags.has(StreamFlags::ITEM_XATTR_MOD) ==> tells(
        events,
        extended,
        EventKind::Modify(ModifyKind::Metadata(MetadataKind::Extended)),
        None,
        owner,
    )
    &&& flags.has(StreamFlags::ITEM_MODIFIED) ==> tells(
        events,
        content,
        EventKind::Modify(ModifyKind::Data(DataChange::Content)),
        None,
        owner,
    )
    &&& flags.has(StreamFlags::MUST_SCAN_SUBDIRS) ==> {
        let user = flags.has(StreamFlags::USER_DROPPED);
        let kernel = flags.has(StreamFlags::KERNEL_DROPPED);
        &&& events[0].kind == EventKind::Other
        &&& events[0].flag == Some(Flag::Rescan)
        &&& events[0].paths.len() == 0
        &&& events[0].process_id == owner
        &&& user ==> events[0].info == Some("rescan: user dropped"@)
        &&& !user && kernel ==> events[0].info == Some("rescan: kernel dropped"@)
        &&& !user && !kernel ==> events[0].info is None
    }
}

/// Where `events`, which are those of `told` and then more, tell what [`with_root_events`]
/// adds.
spec fn root_places(
    flags: StreamFlags,
    told: Seq<EventView>,
    events: Seq<EventView>,
) -> bool {
    let root = told.len();
    let mount = root + count(flags, StreamFlags::ROOT_CHANGED);
    let unmount = mount + count(flags, StreamFlags::MOUNT);
    &&& events.len() == unmount + count(flags, StreamFlags::UNMOUNT)
    &&& forall|i: int| 0 <= i < told.len() ==> #[trigger] events[i] == told[i]
    &&& flags.has(StreamFlags::ROOT_CHANGED) ==> events[root as int] == renamed_event(
        RenameMode::From,
    ).with_info("root changed"@)
    &&& flags.has(StreamFlags::MOUNT) ==> events[mount as int] == EventView::of(
        EventKind::Create(CreateKind::Other),
    ).with_info("mount"@)
    &&& flags.has(StreamFlags::UNMOUNT) ==> events[unmount as int] == EventView::of(
        EventKind::Remove(RemoveKind::Other),
    ).with_info("mount"@)
}

proof fn lemma_root_places(told: Seq<EventView>, flags: StreamFlags)
    ensures
        root_places(flags, told, with_root_events(told, flags)),
{
}

/// Where `events`, which are those of `told` and then more, tell what [`with_entry_events`]
/// adds.
spec fn entry_places(
    flags: StreamFlags,
    told: Seq<EventView>,
    events: Seq<EventView>,
) -> bool {
    let created = told.len();
    let removed = created + count(flags, StreamFlags::ITEM_CREATED);
    let renamed = removed + count(flags, StreamFlags::ITEM_REMOVED);
    &&& events.len() == renamed + count(flags, StreamFlags::ITEM_RENAMED)
    &&& forall|i: int| 0 <= i < told.len() ==> #[trigger] events[i] == told[i]
    &&& flags.has(StreamFlags::ITEM_CREATED) ==> events[created as int] == created_event(
        flags,
    )
    &&& flags.has(StreamFlags::ITEM_REMOVED) ==> events[removed as int] == removed_event(
        flags,
    )
    &&& flags.has(StreamFlags::ITEM_RENAMED) ==> events[renamed as int] == renamed_event(
        RenameMode::Any,
    )
}

proof fn lemma_entry_places(told: Seq<EventView>, flags: StreamFlags)
    ensures
        entry_places(flags, told, with_entry_events(told, flags)),
{
}

/// Where `events`, which are those of `told` and then more, tell what [`with_modification_events`]
/// adds.
spec fn modification_places(
    flags: StreamFlags,
    told: Seq<EventView>,
    events: Seq<EventView>,
) -> bool {
    let inode = told.len();
    let finder = inode + count(flags, StreamFlags::INODE_META_MOD);
    let ownership = finder + count(flags, StreamFlags::FINDER_INFO_MOD);
    let extended = ownership + count(flags, StreamFlags::ITEM_CHANGE_OWNER);
    let content = extended + count(flags, StreamFlags::ITEM_XATTR_MOD);
    &&& events.len() == content + count(flags, StreamFlags::ITEM_MODIFIED)
    &&& forall|i: int| 0 <= i < told.len() ==> #[trigger] events[i] == told[i]
    &&& flags.has(StreamFlags::INODE_META_MOD) ==> events[inode as int] == metadata_event(
        MetadataKind::Any,
    )
    &&& flags.has(StreamFlags::FINDER_INFO_MOD) ==> events[finder as int]
        == metadata_event(MetadataKind::Other).with_info("meta: finder info"@)
    &&& flags.has(StreamFlags::ITEM_CHANGE_OWNER) ==> events[ownership as int]
        == metadata_event(MetadataKind::Ownership)
    &&& flags.has(StreamFlags::ITEM_XATTR_MOD) ==> events[extended as int]
        == metadata_event(MetadataKind::Extended)
    &&& flags.has(StreamFlags::ITEM_MODIFIED) ==> events[content as int] == EventView::of(
        EventKind::Modify(ModifyKind::Data(DataChange::Content)),
    )
}

proof fn lemma_modification_places(told: Seq<EventView>, flags: StreamFlags)
    ensures
        modification_places(flags, told, with_modification_events(told, flags)),
{
}

proof fn lemma_places_in_order(
    flags: StreamFlags,
    first: Seq<EventView>,
    a: Seq<EventView>,
    b: Seq<EventView>,
    events: Seq<EventView>,
)
    requires
        first.len() == count(flags, StreamFlags::MUST_SCAN_SUBDIRS),
        flags.has(StreamFlags::MUST_SCAN_SUBDIRS) ==> first[0] == rescan_event(flags),
        root_places(flags, first, a),
        entry_places(flags, a, b),
        modification_places(flags, b, events),
    ensures
        told_in_order(flags, events, None),
{
    assert(forall|i: int| 0 <= i < a.len() ==> #[trigger] events[i] == b[i] && b[i] == a[i]);
    assert(forall|i: int| 0 <= i < first.len() ==> #[trigger] events[i] == first[i]);
}

proof fn lemma_precise_in_order(flags: StreamFlags)
    ensures
        told_in_order(flags, precise_events(flags), None),
{
    let first = rescans(flags);
    let a = with_root_events(first, flags);
    let b = with_entry_events(a, flags);
    lemma_root_places(first, flags);
    lemma_entry_places(a, flags);
    lemma_modification_places(b, flags);
    lemma_places_in_order(flags, first, a, b, precise_events(flags));
}

proof fn lemma_claimed_in_order(flags: StreamFlags, events: Seq<EventView>, process_id: u32)
    requires
        told_in_order(flags, events, None),
    ensures
        told_in_order(flags, claimed(events, process_id), Some(process_id)),
{
}

/// In precise mode each flag is told by its own event, in its own place: the event for a flag that
/// is set comes behind the events for those of the flags named before it that are set too, whatever
/// other flags come with it. What a created or removed entry is, the flags that describe it tell, a
/// folder before a file, and either before the rest.
pub proof fn law_event_of_each_flag(flags: StreamFlags, process_id: u32)
    requires
        !flags.has(StreamFlags::HISTORY_DONE),
    ensures
        ({
            let events = translation(flags, true, process_id);
            let owner = if flags.has(StreamFlags::OWN_EVENT) {
                Some(process_id)
            } else {
                None
            };
            let one = |flag: u32|
                if flags.bits & flag == flag {
                    1int
                } else {
                    0int
                };
            let told = |kind: EventKind, info: Option<Seq<char>>|
                EventView {
                    kind,
                    paths: Seq::<Seq<u8>>::empty(),
                    flag: None,
                    info,
                    process_id: owner,
                };
            let root = one(StreamFlags::MUST_SCAN_SUBDIRS);
            let mount = root + one(StreamFlags::ROOT_CHANGED);
            let unmount = mount + one(StreamFlags::MOUNT);
            let created = unmount + one(StreamFlags::UNMOUNT);
            let removed = created + one(StreamFlags::ITEM_CREATED);
            let renamed = removed + one(StreamFlags::ITEM_REMOVED);
            let inode = renamed + one(StreamFlags::ITEM_RENAMED);
            let finder = inode + one(StreamFlags::INODE_META_MOD);
            let ownership = finder + one(StreamFlags::FINDER_INFO_MOD);
            let extended = ownership + one(StreamFlags::ITEM_CHANGE_OWNER);
            let content = extended + one(StreamFlags::ITEM_XATTR_MOD);
            let end = content + one(StreamFlags::ITEM_MODIFIED);
            let is_dir = flags.has(StreamFlags::IS_DIR);
            let is_file = flags.has(StreamFlags::IS_FILE);
            let is_symlink = flags.has(StreamFlags::IS_SYMLINK);
            let is_hardlink = flags.has(StreamFlags::IS_HARDLINK);
            let is_clone = flags.has(StreamFlags::ITEM_CLONED);
            &&& events.len() == end
            &&& flags.has(StreamFlags::ROOT_CHANGED) ==> events[root] == told(
                EventKind::Modify(ModifyKind::Name(RenameMode::From)),
                Some("root changed"@),
            )
            &&& flags.has(StreamFlags::MOUNT) ==> events[mount] == told(
                EventKind::Create(CreateKind::Other),
                Some("mount"@),
            )
            &&& flags.has(StreamFlags::UNMOUNT) ==> events[unmount] == told(
                EventKind::Remove(RemoveKind::Other),
                Some("mount"@),
            )
            &&& flags.has(StreamFlags::ITEM_CREATED) ==> {
                &&& is_dir ==> events[created] == told(
                    EventKind::Create(CreateKind::Folder),
                    None,
                )
                &&& !is_dir && is_file ==> events[created] == told(
                    EventKind::Create(CreateKind::File),
                    None,
                )
                &&& !is_dir && !is_file && is_symlink ==> events[created] == told(
                    EventKind::Create(CreateKind::Other),
                    Some("is: symlink"@),
                )
                &&& !is_dir && !is_file && !is_symlink && is_hardlink ==> events[created] == told(
                    EventKind::Create(CreateKind::Other),
                    Some("is: hardlink"@),
                )
                &&& !is_dir && !is_file && !is_symlink && !is_hardlink && is_clone
                    ==> events[created] == told(
                    EventKind::Create(CreateKind::Other),
                    Some("is: clone"@),
                )
                &&& !is_dir && !is_file && !is_symlink && !is_hardlink && !is_clone
                    ==> events[created] == told(
                    EventKind::Create(CreateKind::Any),
                    None,
                )
            }
            &&& flags.has(StreamFlags::ITEM_REMOVED) ==> {
                &&& is_dir ==> events[removed] == told(
                    EventKind::Remove(RemoveKind::Folder),
                    None,
                )
                &&& !is_dir && is_file ==> events[removed] == told(
                    EventKind::Remove(RemoveKind::File),
                    None,
                )
                &&& !is_dir && !is_file && is_symlink ==> events[removed] == told(
                    EventKind::Remove(RemoveKind::Other),
                    Some("is: symlink"@),
                )
                &&& !is_dir && !is_file && !is_symlink && is_hardlink ==> events[removed] == told(
                    EventKind::Remove(RemoveKind::Other),
                    Some("is: hardlink"@),
                )
                &&& !is_dir && !is_file && !is_symlink && !is_hardlink && is_clone
                    ==> events[removed] == told(
                    EventKind::Remove(RemoveKind::Other),
                    Some("is: clone"@),
                )
                &&& !is_dir && !is_file && !is_symlink && !is_hardlink && !is_clone
                    ==> events[removed] == told(
                    EventKind::Remove(RemoveKind::Any),
                    None,
                )
            }
            &&& flags.has(StreamFlags::ITEM_RENAMED) ==> events[renamed] == told(
                EventKind::Modify(ModifyKind::Name(RenameMode::Any)),
                None,
            )
            &&& flags.has(StreamFlags::INODE_META_MOD) ==> events[inode] == told(
                EventKind::Modify(ModifyKind::Metadata(MetadataKind::Any)),
                None,
            )
            &&& flags.has(StreamFlags::FINDER_INFO_MOD) ==> events[finder] == told(
                EventKind::Modify(ModifyKind::Metadata(MetadataKind::Other)),
                Some("meta: finder info"@),
            )
            &&& flags.has(StreamFlags::ITEM_CHANGE_OWNER) ==> events[ownership] == told(
                EventKind::Modify(ModifyKind::Metadata(MetadataKind::Ownership)),
                None,
            )
            &&& flags.has(StreamFlags::ITEM_XATTR_MOD) ==> events[extended] == told(
                EventKind::Modify(ModifyKind::Metadata(MetadataKind::Extended)),
                None,
            )
            &&& flags.has(StreamFlags::ITEM_MODIFIED) ==> events[content] == told(
                EventKind::Modify(ModifyKind::Data(DataChange::Content)),
                None,
            )
        }),
{
    lemma_translation_in_order(flags, process_id);
}

proof fn lemma_translation_in_order(flags: StreamFlags, process_id: u32)
    requires
        !flags.has(StreamFlags::HISTORY_DONE),
    ensures
        told_in_order(
            flags,
            translation(flags, true, process_id),
            if flags.has(StreamFlags::OWN_EVENT) {
                Some(process_id)
            } else {
                None
            },
        ),
{
    lemma_precise_in_order(flags);
    lemma_claimed_in_order(flags, precise_events(flags), process_id);
}

/// A call to look again is the first event, in either mode, and it passes on who dropped the
/// events: the user's side before the kernel, and no one if no one is named.
pub proof fn law_rescan_reason(flags: StreamFlags, precise: bool, process_id: u32)
    requires
        !flags.has(StreamFlags::HISTORY_DONE),
        flags.has(StreamFlags::MUST_SCAN_SUBDIRS),
    ensures
        ({
            let events = translation(flags, precise, process_id);
            let user = flags.has(StreamFlags::USER_DROPPED);
            let kernel = flags.has(StreamFlags::KERNEL_DROPPED);
            &&& events.len() > 0
            &&& events[0].kind == EventKind::Other
            &&& events[0].flag == Some(Flag::Rescan)
            &&& events[0].paths.len() == 0
            &&& user ==> events[0].info == Some("rescan: user dropped"@)
            &&& !user && kernel ==> events[0].info == Some("rescan: kernel dropped"@)
            &&& !user && !kernel ==> events[0].info is None
        }),
{
    lemma_precise_events(flags);
    let first = rescans(flags);
    assert(first[0] == precise_events(flags).subrange(0, first.len() as int)[0]);
}

/// No event without the flag that it stands for: what kind an event is of tells which flags are
/// set. A rename is told exactly for a rename and a removal for a removal, whatever the entry is.
pub proof fn law_kind_tells_flags(flags: StreamFlags, process_id: u32, i: int)
    requires
        0 <= i < translation(flags, true, process_id).len(),
    ensures
        ({
            let event = translation(flags, true, process_id)[i];
            let mounted = event.info == Some("mount"@);
            &&& !flags.has(StreamFlags::HISTORY_DONE)
            &&& match event.kind {
                EventKind::Any => false,
                EventKind::Other => i == 0 && flags.has(StreamFlags::MUST_SCAN_SUBDIRS),
                EventKind::Create(kind) => if mounted {
                    kind == CreateKind::Other && flags.has(StreamFlags::MOUNT)
                } else {
                    flags.has(StreamFlags::ITEM_CREATED)
                },
                EventKind::Remove(kind) => if mounted {
                    kind == RemoveKind::Other && flags.has(StreamFlags::UNMOUNT)
                } else {
                    flags.has(StreamFlags::ITEM_REMOVED)
                },
                EventKind::Modify(ModifyKind::Name(RenameMode::From)) => flags.has(
                    StreamFlags::ROOT_CHANGED,
                ),
                EventKind::Modify(ModifyKind::Name(RenameMode::Any)) => flags.has(
                    StreamFlags::ITEM_RENAMED,
                ),
                EventKind::Modify(ModifyKind::Metadata(MetadataKind::Any)) => flags.has(
                    StreamFlags::INODE_META_MOD,
                ),
                EventKind::Modify(ModifyKind::Metadata(MetadataKind::Other)) => flags.has(
                    StreamFlags::FINDER_INFO_MOD,
                ),
                EventKind::Modify(ModifyKind::Metadata(MetadataKind::Ownership)) => flags.has(
                    StreamFlags::ITEM_CHANGE_OWNER,
                ),
                EventKind::Modify(ModifyKind::Metadata(MetadataKind::Extended)) => flags.has(
                    StreamFlags::ITEM_XATTR_MOD,
                ),
                EventKind::Modify(ModifyKind::Data(_)) => flags.has(StreamFlags::ITEM_MODIFIED),
            }
        }),
{
    lemma_translation_in_order(flags, process_id);
    let events = translation(flags, true, process_id);
    let owner = if flags.has(StreamFlags::OWN_EVENT) {
        Some(process_id)
    } else {
        None
    };
    lemma_flag_at(flags, events, owner, i);
}

/// What stands for one flag stands for it once: no two events of a word are alike in kind and info.
pub proof fn law_no_event_twice(flags: StreamFlags, process_id: u32, i: int, j: int)
    requires
        0 <= i < j < translation(flags, true, process_id).len(),
    ensures
        ({
            let events = translation(flags, true, process_id);
            events[i].kind != events[j].kind || events[i].info != events[j].info
        }),
{
    lemma_translation_in_order(flags, process_id);
    let events = translation(flags, true, process_id);
    let owner = if flags.has(StreamFlags::OWN_EVENT) {
        Some(process_id)
    } else {
        None
    };
    lemma_places_differ(flags, events, owner, i, j);
}

/// The place of the event for the flag that `event` stands for.
spec fn place_of(flags: StreamFlags, event: EventView) -> nat {
    let root = count(flags, StreamFlags::MUST_SCAN_SUBDIRS);
    let mount = root + count(flags, StreamFlags::ROOT_CHANGED);
    let unmount = mount + count(flags, StreamFlags::MOUNT);
    let created = unmount + count(flags, StreamFlags::UNMOUNT);
    let removed = created + count(flags, StreamFlags::ITEM_CREATED);
    let renamed = removed + count(flags, StreamFlags::ITEM_REMOVED);
    let inode = renamed + count(flags, StreamFlags::ITEM_RENAMED);
    let finder = inode + count(flags, StreamFlags::INODE_META_MOD);
    let ownership = finder + count(flags, StreamFlags::FINDER_INFO_MOD);
    let extended = ownership + count(flags, StreamFlags::ITEM_CHANGE_OWNER);
    let content = extended + count(flags, StreamFlags::ITEM_XATTR_MOD);
    let mounted = event.info == Some("mount"@);
    match event.kind {
        EventKind::Create(_) => if mounted {
            mount
        } else {
            created
        },
        EventKind::Remove(_) => if mounted {
            unmount
        } else {
            removed
        },
        EventKind::Modify(ModifyKind::Name(RenameMode::From)) => root,
        EventKind::Modify(ModifyKind::Name(RenameMode::Any)) => renamed,
        EventKind::Modify(ModifyKind::Metadata(MetadataKind::Any)) => inode,
        EventKind::Modify(ModifyKind::Metadata(MetadataKind::Other)) => finder,
        EventKind::Modify(ModifyKind::Metadata(MetadataKind::Ownership)) => ownership,
        EventKind::Modify(ModifyKind::Metadata(MetadataKind::Extended)) => extended,
        EventKind::Modify(ModifyKind::Data(_)) => content,
        _ => 0,
    }
}

/// The flag that `event` stands for.
spec fn flag_of(event: EventView) -> u32 {
    let mounted = event.info == Some("mount"@);
    match event.kind {
        EventKind::Create(_) => if mounted {
            StreamFlags::MOUNT
        } else {
            StreamFlags::ITEM_CREATED
        },
        EventKind::Remove(_) => if mounted {
            StreamFlags::UNMOUNT
        } else {
            StreamFlags::ITEM_REMOVED
        },
        EventKind::Modify(ModifyKind::Name(RenameMode::From)) => StreamFlags::ROOT_CHANGED,
        EventKind::Modify(ModifyKind::Name(RenameMode::Any)) => StreamFlags::ITEM_RENAMED,
        EventKind::Modify(ModifyKind::Metadata(MetadataKind::Any)) => StreamFlags::INODE_META_MOD,
        EventKind::Modify(ModifyKind::Metadata(MetadataKind::Other)) => {
            StreamFlags::FINDER_INFO_MOD
        },
        EventKind::Modify(ModifyKind::Metadata(MetadataKind::Ownership)) => {
            StreamFlags::ITEM_CHANGE_OWNER
        },
        EventKind::Modify(ModifyKind::Metadata(MetadataKind::Extended)) => {
            StreamFlags::ITEM_XATTR_MOD
        },
        EventKind::Modify(ModifyKind::Data(_)) => StreamFlags::ITEM_MODIFIED,
        _ => StreamFlags::MUST_SCAN_SUBDIRS,
    }
}

proof fn lemma_places_differ(
    flags: StreamFlags,
    events: Seq<EventView>,
    owner: Option<u32>,
    i: int,
    j: int,
)
    requires
        told_in_order(flags, events, owner),
        0 <= i < j < events.len(),
    ensures
        events[i].kind != events[j].kind || events[i].info != events[j].info,
{
    lemma_flag_at(flags, events, owner, i);
    lemma_flag_at(flags, events, owner, j);
    if events[i].kind == events[j].kind && events[i].info == events[j].info {
        assert(place_of(flags, events[i]) == place_of(flags, events[j]));
    }
}

proof fn lemma_flag_at(
    flags: StreamFlags,
    events: Seq<EventView>,
    owner: Option<u32>,
    i: int,
)
    requires
        told_in_order(flags, events, owner),
        0 <= i < events.len(),
    ensures
        flags.has(flag_of(events[i])),
        i == place_of(flags, events[i]),
        events[i].kind != EventKind::Any,
        events[i].info == Some("mount"@) ==> events[i].kind == EventKind::Create(CreateKind::Other)
            || events[i].kind == EventKind::Remove(RemoveKind::Other),
{
    reveal_strlit("mount");
    reveal_strlit("root changed");
    reveal_strlit("is: symlink");
    reveal_strlit("is: hardlink");
    reveal_strlit("is: clone");
    reveal_strlit("meta: finder info");
    reveal_strlit("rescan: user dropped");
    reveal_strlit("rescan: kernel dropped");
    assert("root changed"@.len() == 12 && "meta: finder info"@.len() == 17);
    assert("is: symlink"@.len() == 11 && "is: hardlink"@.len() == 12 && "is: clone"@.len() == 9);
    assert("rescan: user dropped"@.len() == 20 && "rescan: kernel dropped"@.len() == 22);
    assert("mount"@.len() == 5);
    let root = count(flags, StreamFlags::MUST_SCAN_SUBDIRS);
    let mount = root + count(flags, StreamFlags::ROOT_CHANGED);
    let unmount = mount + count(flags, StreamFlags::MOUNT);
    let created = unmount + count(flags, StreamFlags::UNMOUNT);
    let removed = created + count(flags, StreamFlags::ITEM_CREATED);
    let renamed = removed + count(flags, StreamFlags::ITEM_REMOVED);
    let inode = renamed + count(flags, StreamFlags::ITEM_RENAMED);
    let finder = inode + count(flags, StreamFlags::INODE_META_MOD);
    let ownership = finder + count(flags, StreamFlags::FINDER_INFO_MOD);
    let extended = ownership + count(flags, StreamFlags::ITEM_CHANGE_OWNER);
    let content = extended + count(flags, StreamFlags::ITEM_XATTR_MOD);
    if i < root {
        assert(i == 0);
    } else if i < mount {
        assert(i == root);
    } else if i < unmount {
        assert(i == mount);
    } else if i < created {
        assert(i == unmount);
    } else if i < removed {
        assert(i == created);
    } else if i < renamed {
        assert(i == removed);
    } else if i < inode {
        assert(i == renamed);
    } else if i < finder {
        assert(i == inode);
    } else if i < ownership {
        assert(i == finder);
    } else if i < extended {
        assert(i == ownership);
    } else if i < content {
        assert(i == extended);
    } else {
        assert(i == content);
    }
}

/// A rename is told exactly for a word with the flag for it, and then once, whatever the entry is.
/// A removal is told only for an entry that was removed or for something that was unmounted.
pub proof fn law_renames_and_removals(flags: StreamFlags, process_id: u32)
    requires
        !flags.has(StreamFlags::HISTORY_DONE),
    ensures
        ({
            let events = translation(flags, true, process_id);
            let rename = EventKind::Modify(ModifyKind::Name(RenameMode::Any));
            &&& flags.has(StreamFlags::ITEM_RENAMED) <==> exists|i: int|
                0 <= i < events.len() && (#[trigger] events[i]).kind == rename
            &&& forall|i: int, j: int|
                0 <= i < events.len() && 0 <= j < events.len() && (#[trigger] events[i]).kind
                    == rename && (#[trigger] events[j]).kind == rename ==> i == j
            &&& forall|i: int|
                0 <= i < events.len() && (#[trigger] events[i]).kind is Remove ==> flags.has(
                    StreamFlags::ITEM_REMOVED,
                ) || flags.has(StreamFlags::UNMOUNT)
        }),
{
    lemma_translation_in_order(flags, process_id);
    lemma_renames_and_removals(
        flags,
        translation(flags, true, process_id),
        if flags.has(StreamFlags::OWN_EVENT) {
            Some(process_id)
        } else {
            None
        },
    );
}

proof fn lemma_renames_and_removals(
    flags: StreamFlags,
    events: Seq<EventView>,
    owner: Option<u32>,
)
    requires
        told_in_order(flags, events, owner),
    ensures
        ({
            let rename = EventKind::Modify(ModifyKind::Name(RenameMode::Any));
            &&& flags.has(StreamFlags::ITEM_RENAMED) <==> exists|i: int|
                0 <= i < events.len() && (#[trigger] events[i]).kind == rename
            &&& forall|i: int, j: int|
                0 <= i < events.len() && 0 <= j < events.len() && (#[trigger] events[i]).kind
                    == rename && (#[trigger] events[j]).kind == rename ==> i == j
            &&& forall|i: int|
                0 <= i < events.len() && (#[trigger] events[i]).kind is Remove ==> flags.has(
                    StreamFlags::ITEM_REMOVED,
                ) || flags.has(StreamFlags::UNMOUNT)
        }),
{
    let rename = EventKind::Modify(ModifyKind::Name(RenameMode::Any));
    assert forall|i: int| 0 <= i < events.len() implies flags.has(
        flag_of(#[trigger] events[i]),
    ) && i == place_of(flags, events[i]) by {
        lemma_flag_at(flags, events, owner, i);
    }
    if flags.has(StreamFlags::ITEM_RENAMED) {
        let place = count(flags, StreamFlags::MUST_SCAN_SUBDIRS) + count(
            flags,
            StreamFlags::ROOT_CHANGED,
        ) + count(flags, StreamFlags::MOUNT) + count(flags, StreamFlags::UNMOUNT) + count(
            flags,
            StreamFlags::ITEM_CREATED,
        ) + count(flags, StreamFlags::ITEM_REMOVED);
        assert(events[place as int].kind == rename);
    }
}

/// Without `precise` there is one event of any kind, with nothing else known of it, and before it
/// only the call to look again, if the flags ask for one.
pub proof fn law_imprecise_events(flags: StreamFlags, process_id: u32)
    requires
        !flags.has(StreamFlags::HISTORY_DONE),
    ensures
        ({
            let events = translation(flags, false, process_id);
            let last = if flags.has(StreamFlags::MUST_SCAN_SUBDIRS) {
                1int
            } else {
                0int
            };
            &&& events.len() == last + 1
            &&& events[last] == EventView {
                kind: EventKind::Any,
                paths: Seq::<Seq<u8>>::empty(),
                flag: None,
                info: None,
                process_id: None,
            }
        }),
{
}

} // verus!
