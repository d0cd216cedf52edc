//! The flag words of the FSEvents API.

use vstd::prelude::*;

verus! {

/// The event id that asks a stream for events from now on
/// (`kFSEventStreamEventIdSinceNow`).
pub const EVENT_ID_SINCE_NOW: u64 = 0xffff_ffff_ffff_ffff;

/// Deliver the first event of a burst at once (`kFSEventStreamCreateFlagNoDefer`).
pub const CREATE_FLAG_NO_DEFER: u32 = 0x0000_0002;

/// Report changes along the path to a watched directory (`kFSEventStreamCreateFlagWatchRoot`).
pub const CREATE_FLAG_WATCH_ROOT: u32 = 0x0000_0004;

/// Report single files, not only their directories (`kFSEventStreamCreateFlagFileEvents`).
pub const CREATE_FLAG_FILE_EVENTS: u32 = 0x0000_0010;

/// The flags that FSEvents attaches to one event (`FSEventStreamEventFlags`).
///
/// A value decoded by [`StreamFlags::from_bits`] holds only bits that have a name here.
#[derive(Clone, Copy, Debug, PartialEq, Eq, Structural)]
pub struct StreamFlags {
    pub bits: u32,
}

impl StreamFlags {
    pub const NONE: u32 = 0x0000_0000;

    pub const MUST_SCAN_SUBDIRS: u32 = 0x0000_0001;

    pub const USER_DROPPED: u32 = 0x0000_0002;

    pub const KERNEL_DROPPED: u32 = 0x0000_0004;

    pub const IDS_WRAPPED: u32 = 0x0000_0008;

    pub const HISTORY_DONE: u32 = 0x0000_0010;

    pub const ROOT_CHANGED: u32 = 0x0000_0020;

    pub const MOUNT: u32 = 0x0000_0040;

    pub const UNMOUNT: u32 = 0x0000_0080;

    pub const ITEM_CREATED: u32 = 0x0000_0100;

    pub const ITEM_REMOVED: u32 = 0x0000_0200;

    pub const INODE_META_MOD: u32 = 0x0000_0400;

    pub const ITEM_RENAMED: u32 = 0x0000_0800;

    pub const ITEM_MODIFIED: u32 = 0x0000_1000;

    pub const FINDER_INFO_MOD: u32 = 0x0000_2000;

    pub const ITEM_CHANGE_OWNER: u32 = 0x0000_4000;

    pub const ITEM_XATTR_MOD: u32 = 0x0000_8000;

    pub const IS_FILE: u32 = 0x0001_0000;

    pub const IS_DIR: u32 = 0x0002_0000;

    pub const IS_SYMLINK: u32 = 0x0004_0000;

    pub const OWN_EVENT: u32 = 0x0008_0000;

    pub const IS_HARDLINK: u32 = 0x0010_0000;

    pub const IS_LAST_HARDLINK: u32 = 0x0020_0000;

    pub const ITEM_CLONED: u32 = 0x0040_0000;

    /// Every bit that has a name above.
    pub const ALL: u32 = 0x007f_ffff;

    /// Every bit of `flag` is set in this word.
    pub open spec fn has(self, flag: u32) -> bool {
        self.bits & flag == flag
    }

    /// Every bit of `bits` has a name.
    pub open spec fn is_known(bits: u32) -> bool {
        bits & StreamFlags::ALL == bits
    }

    /// Whether every bit of `flag` is set in this word.
    pub fn contains(&self, flag: u32) -> (found: bool)
        ensures
            found == self.has(flag),
    {
        self.bits & flag == flag
    }

    /// The flags in `bits`, unless some bit of it has no name.
    pub fn from_bits(bits: u32) -> (flags: Option<StreamFlags>)
        ensures
            flags == (if StreamFlags::is_known(bits) {
                Some(StreamFlags { bits })
            } else {
                None
            }),
    {
        if bits & StreamFlags::ALL == bits {
            Some(StreamFlags { bits })
        } else {
            None
        }
    }
}

/// A word decodes exactly when it sets no bit above that of [`StreamFlags::ITEM_CLONED`], and
/// [`StreamFlags::ALL`] is the union of the named flags.
pub proof fn law_known_bits(bits: u32)
    ensures
        StreamFlags::is_known(bits) <==> bits < 0x0080_0000,
        StreamFlags::ALL == StreamFlags::NONE | StreamFlags::MUST_SCAN_SUBDIRS
            | StreamFlags::USER_DROPPED | StreamFlags::KERNEL_DROPPED | StreamFlags::IDS_WRAPPED
            | StreamFlags::HISTORY_DONE | StreamFlags::ROOT_CHANGED | StreamFlags::MOUNT
            | StreamFlags::UNMOUNT | StreamFlags::ITEM_CREATED | StreamFlags::ITEM_REMOVED
            | StreamFlags::INODE_META_MOD | StreamFlags::ITEM_RENAMED | StreamFlags::ITEM_MODIFIED
            | StreamFlags::FINDER_INFO_MOD | StreamFlags::ITEM_CHANGE_OWNER
            | StreamFlags::ITEM_XATTR_MOD | StreamFlags::IS_FILE | StreamFlags::IS_DIR
            | StreamFlags::IS_SYMLINK | StreamFlags::OWN_EVENT | StreamFlags::IS_HARDLINK
            | StreamFlags::IS_LAST_HARDLINK | StreamFlags::ITEM_CLONED,
{
    assert(bits & StreamFlags::ALL == bits <==> bits < 0x0080_0000) by (bit_vector);
    assert(StreamFlags::ALL == StreamFlags::NONE | StreamFlags::MUST_SCAN_SUBDIRS
        | StreamFlags::USER_DROPPED | StreamFlags::KERNEL_DROPPED | StreamFlags::IDS_WRAPPED
        | StreamFlags::HISTORY_DONE | StreamFlags::ROOT_CHANGED | StreamFlags::MOUNT
        | StreamFlags::UNMOUNT | StreamFlags::ITEM_CREATED | StreamFlags::ITEM_REMOVED
        | StreamFlags::INODE_META_MOD | StreamFlags::ITEM_RENAMED | StreamFlags::ITEM_MODIFIED
        | StreamFlags::FINDER_INFO_MOD | StreamFlags::ITEM_CHANGE_OWNER
        | StreamFlags::ITEM_XATTR_MOD | StreamFlags::IS_FILE | StreamFlags::IS_DIR
        | StreamFlags::IS_SYMLINK | StreamFlags::OWN_EVENT | StreamFlags::IS_HARDLINK
        | StreamFlags::IS_LAST_HARDLINK | StreamFlags::ITEM_CLONED) by (bit_vector);
}

/// Adding flags to a word changes no answer about a flag that shares no bit with them.
pub proof fn law_disjoint_flags(flags: StreamFlags, added: u32, asked: u32)
    requires
        added & asked == 0,
    ensures
        (StreamFlags { bits: flags.bits | added }).has(asked) == flags.has(asked),
{
    let bits = flags.bits;
    assert((bits | added) & asked == bits & asked) by (bit_vector)
        requires
            added & asked == 0,
    ;
}

/// Where the flags of FSEvents lie in a word, each with the bit that Apple gives it.
pub proof fn law_flag_bits()
    ensures
        StreamFlags::NONE == 0,
        StreamFlags::MUST_SCAN_SUBDIRS == 1,
        StreamFlags::USER_DROPPED == 2,
        StreamFlags::KERNEL_DROPPED == 4,
        StreamFlags::IDS_WRAPPED == 8,
        StreamFlags::HISTORY_DONE == 16,
        StreamFlags::ROOT_CHANGED == 32,
        StreamFlags::MOUNT == 64,
        StreamFlags::UNMOUNT == 128,
        StreamFlags::ITEM_CREATED == 256,
        StreamFlags::ITEM_REMOVED == 512,
        StreamFlags::INODE_META_MOD == 1024,
        StreamFlags::ITEM_RENAMED == 2048,
        StreamFlags::ITEM_MODIFIED == 4096,
        StreamFlags::FINDER_INFO_MOD == 8192,
        StreamFlags::ITEM_CHANGE_OWNER == 16384,
        StreamFlags::ITEM_XATTR_MOD == 32768,
        StreamFlags::IS_FILE == 65536,
        StreamFlags::IS_DIR == 131072,
        StreamFlags::IS_SYMLINK == 262144,
        StreamFlags::OWN_EVENT == 524288,
        StreamFlags::IS_HARDLINK == 1048576,
        StreamFlags::IS_LAST_HARDLINK == 2097152,
        StreamFlags::ITEM_CLONED == 4194304,
        EVENT_ID_SINCE_NOW == u64::MAX,
        CREATE_FLAG_NO_DEFER == 2,
        CREATE_FLAG_WATCH_ROOT == 4,
        CREATE_FLAG_FILE_EVENTS == 16,
{
}

/// A word holds a single bit exactly when that bit is set in it, and several flags exactly when it
/// holds each of them.
pub proof fn law_holding_flags(flags: StreamFlags, place: u32, a: u32, b: u32)
    requires
        place < 32,
    ensures
        flags.has(1u32 << place) <==> (flags.bits >> place) & 1 == 1,
        flags.has(a | b) <==> flags.has(a) && flags.has(b),
        flags.has(0),
{
    let bits = flags.bits;
    assert(bits & (1u32 << place) == (1u32 << place) <==> (bits >> place) & 1 == 1) by (bit_vector)
        requires
            place < 32,
    ;
    assert(bits & (a | b) == (a | b) <==> bits & a == a && bits & b == b) by (bit_vector);
    assert(bits & 0 == 0) by (bit_vector);
}

} // verus!
