use notify_fsevent::event::{
    CreateKind, DataChange, Event, EventKind, Flag, MetadataKind, ModifyKind, RemoveKind, RenameMode,
};
use notify_fsevent::flags::StreamFlags;
use notify_fsevent::translate::translate_flags;

fn precise(bits: u32) -> Vec<Event> {
    translate_flags(StreamFlags { bits }, true, 4711)
}

fn imprecise(bits: u32) -> Vec<Event> {
    translate_flags(StreamFlags { bits }, false, 4711)
}

fn event(kind: EventKind) -> Event {
    Event::new(kind)
}

fn informed(kind: EventKind, info: &str) -> Event {
    Event::new(kind).set_info(info)
}

fn create(kind: CreateKind) -> EventKind {
    EventKind::Create(kind)
}

fn remove(kind: RemoveKind) -> EventKind {
    EventKind::Remove(kind)
}

fn name(mode: RenameMode) -> EventKind {
    EventKind::Modify(ModifyKind::Name(mode))
}

fn metadata(kind: MetadataKind) -> EventKind {
    EventKind::Modify(ModifyKind::Metadata(kind))
}

fn content() -> EventKind {
    EventKind::Modify(ModifyKind::Data(DataChange::Content))
}

#[test]
fn no_flag_is_no_event() {
    assert_eq!(precise(StreamFlags::NONE), vec![]);
    assert_eq!(imprecise(StreamFlags::NONE), vec![event(EventKind::Any)]);
}

#[test]
fn the_end_of_history_is_no_event() {
    for bits in [StreamFlags::HISTORY_DONE, StreamFlags::ALL] {
        assert_eq!(precise(bits), vec![]);
        assert_eq!(imprecise(bits), vec![]);
    }
}

#[test]
fn dropped_events_call_for_a_rescan() {
    let rescan = || event(EventKind::Other).set_flag(Flag::Rescan);
    let must = StreamFlags::MUST_SCAN_SUBDIRS;
    let user = StreamFlags::USER_DROPPED;
    let kernel = StreamFlags::KERNEL_DROPPED;
    assert_eq!(precise(must), vec![rescan()]);
    assert_eq!(precise(must | user), vec![rescan().set_info("rescan: user dropped")]);
    assert_eq!(precise(must | kernel), vec![rescan().set_info("rescan: kernel dropped")]);
    assert_eq!(precise(must | user | kernel), vec![rescan().set_info("rescan: user dropped")]);
    assert_eq!(precise(user | kernel), vec![]);
}

#[test]
fn a_rescan_comes_first_in_either_mode() {
    let rescan = event(EventKind::Other).set_flag(Flag::Rescan);
    let bits = StreamFlags::MUST_SCAN_SUBDIRS | StreamFlags::ITEM_MODIFIED;
    assert_eq!(precise(bits)[0], rescan);
    assert_eq!(precise(bits)[1], event(content()));
    assert_eq!(imprecise(bits)[0], rescan);
    assert_eq!(imprecise(bits)[1], event(EventKind::Any));
    assert_eq!(imprecise(bits).len(), 2);
}

#[test]
fn roots_and_mounts() {
    assert_eq!(
        precise(StreamFlags::ROOT_CHANGED),
        vec![informed(name(RenameMode::From), "root changed")]
    );
    assert_eq!(precise(StreamFlags::MOUNT), vec![informed(create(CreateKind::Other), "mount")]);
    assert_eq!(precise(StreamFlags::UNMOUNT), vec![informed(remove(RemoveKind::Other), "mount")]);
}

#[test]
fn created_entries() {
    let made = StreamFlags::ITEM_CREATED;
    let dir = StreamFlags::IS_DIR;
    let file = StreamFlags::IS_FILE;
    let symlink = StreamFlags::IS_SYMLINK;
    let hardlink = StreamFlags::IS_HARDLINK;
    let cloned = StreamFlags::ITEM_CLONED;
    assert_eq!(precise(made), vec![event(create(CreateKind::Any))]);
    assert_eq!(precise(made | dir), vec![event(create(CreateKind::Folder))]);
    assert_eq!(precise(made | file), vec![event(create(CreateKind::File))]);
    assert_eq!(precise(made | dir | file), vec![event(create(CreateKind::Folder))]);
    assert_eq!(precise(made | file | symlink), vec![event(create(CreateKind::File))]);
    assert_eq!(precise(made | symlink), vec![informed(create(CreateKind::Other), "is: symlink")]);
    assert_eq!(precise(made | hardlink), vec![informed(create(CreateKind::Other), "is: hardlink")]);
    assert_eq!(precise(made | cloned), vec![informed(create(CreateKind::Other), "is: clone")]);
    assert_eq!(
        precise(made | cloned | hardlink | symlink),
        vec![informed(create(CreateKind::Other), "is: symlink")]
    );
}

#[test]
fn removed_entries() {
    let gone = StreamFlags::ITEM_REMOVED;
    let dir = StreamFlags::IS_DIR;
    let file = StreamFlags::IS_FILE;
    let symlink = StreamFlags::IS_SYMLINK;
    let hardlink = StreamFlags::IS_HARDLINK;
    let cloned = StreamFlags::ITEM_CLONED;
    assert_eq!(precise(gone), vec![event(remove(RemoveKind::Any))]);
    assert_eq!(precise(gone | dir), vec![event(remove(RemoveKind::Folder))]);
    assert_eq!(precise(gone | file), vec![event(remove(RemoveKind::File))]);
    assert_eq!(precise(gone | dir | file), vec![event(remove(RemoveKind::Folder))]);
    assert_eq!(precise(gone | symlink), vec![informed(remove(RemoveKind::Other), "is: symlink")]);
    assert_eq!(precise(gone | hardlink), vec![informed(remove(RemoveKind::Other), "is: hardlink")]);
    assert_eq!(precise(gone | cloned), vec![informed(remove(RemoveKind::Other), "is: clone")]);
}

#[test]
fn modified_entries() {
    assert_eq!(precise(StreamFlags::ITEM_RENAMED), vec![event(name(RenameMode::Any))]);
    assert_eq!(precise(StreamFlags::INODE_META_MOD), vec![event(metadata(MetadataKind::Any))]);
    assert_eq!(
        precise(StreamFlags::FINDER_INFO_MOD),
        vec![informed(metadata(MetadataKind::Other), "meta: finder info")]
    );
    assert_eq!(
        precise(StreamFlags::ITEM_CHANGE_OWNER),
        vec![event(metadata(MetadataKind::Ownership))]
    );
    assert_eq!(precise(StreamFlags::ITEM_XATTR_MOD), vec![event(metadata(MetadataKind::Extended))]);
    assert_eq!(precise(StreamFlags::ITEM_MODIFIED), vec![event(content())]);
}

#[test]
fn everything_at_once_comes_in_order() {
    let own = |event: Event| event.set_process_id(4711);
    let all = precise(StreamFlags::ALL & !StreamFlags::HISTORY_DONE);
    assert_eq!(
        all,
        vec![
            own(event(EventKind::Other).set_flag(Flag::Rescan).set_info("rescan: user dropped")),
            own(informed(name(RenameMode::From), "root changed")),
            own(informed(create(CreateKind::Other), "mount")),
            own(informed(remove(RemoveKind::Other), "mount")),
            own(event(create(CreateKind::Folder))),
            own(event(remove(RemoveKind::Folder))),
            own(event(name(RenameMode::Any))),
            own(event(metadata(MetadataKind::Any))),
            own(informed(metadata(MetadataKind::Other), "meta: finder info")),
            own(event(metadata(MetadataKind::Ownership))),
            own(event(metadata(MetadataKind::Extended))),
            own(event(content())),
        ]
    );
}

#[test]
fn own_events_carry_the_process_id_in_precise_mode_only() {
    let bits = StreamFlags::OWN_EVENT | StreamFlags::ITEM_CREATED | StreamFlags::MUST_SCAN_SUBDIRS;
    for event in precise(bits) {
        assert_eq!(event.attrs.process_id, Some(4711));
    }
    for event in imprecise(bits) {
        assert_eq!(event.attrs.process_id, None);
    }
    for event in precise(bits & !StreamFlags::OWN_EVENT) {
        assert_eq!(event.attrs.process_id, None);
    }
    assert_eq!(precise(StreamFlags::OWN_EVENT), vec![]);
}

#[test]
fn there_is_one_event_per_flag_that_stands_for_one() {
    let told = StreamFlags::MUST_SCAN_SUBDIRS
        | StreamFlags::ROOT_CHANGED
        | StreamFlags::MOUNT
        | StreamFlags::UNMOUNT
        | StreamFlags::ITEM_CREATED
        | StreamFlags::ITEM_REMOVED
        | StreamFlags::ITEM_RENAMED
        | StreamFlags::INODE_META_MOD
        | StreamFlags::FINDER_INFO_MOD
        | StreamFlags::ITEM_CHANGE_OWNER
        | StreamFlags::ITEM_XATTR_MOD
        | StreamFlags::ITEM_MODIFIED;
    let mut bits: u32 = 1;
    for _ in 0..2000 {
        bits = bits.wrapping_mul(1_664_525).wrapping_add(1_013_904_223);
        let word = (bits >> 9) & !StreamFlags::HISTORY_DONE;
        assert_eq!(precise(word).len() as u32, (word & told).count_ones());
        for event in precise(word) {
            assert!(event.paths.is_empty());
        }
    }
}

#[test]
fn wrapped_ids_and_last_hard_links_change_nothing() {
    let ignored = StreamFlags::IDS_WRAPPED | StreamFlags::IS_LAST_HARDLINK;
    assert_eq!(precise(ignored), vec![]);
    let bits = StreamFlags::ITEM_REMOVED | StreamFlags::IS_HARDLINK;
    assert_eq!(precise(bits | ignored), precise(bits));
    assert_eq!(imprecise(bits | ignored), imprecise(bits));
}

#[test]
fn an_event_starts_out_bare() {
    let event = Event::default();
    assert_eq!(event.kind, EventKind::Any);
    assert!(event.paths.is_empty());
    assert_eq!(event.attrs.flag, None);
    assert_eq!(event.attrs.info, None);
    assert_eq!(event.attrs.process_id, None);
}
