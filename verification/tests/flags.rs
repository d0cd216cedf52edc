use bitflags::Flags;
use notify_fsevent::flags::StreamFlags;
use notify_fsevent::flags::{
    CREATE_FLAG_FILE_EVENTS, CREATE_FLAG_NO_DEFER, CREATE_FLAG_WATCH_ROOT, EVENT_ID_SINCE_NOW,
};

/// The same flags as a flags type of the `bitflags` crate.
#[derive(Clone, Copy, Debug, PartialEq, Eq)]
struct Named(u32);

impl bitflags::Flags for Named {
    const FLAGS: &'static [bitflags::Flag<Named>] = &[
        bitflags::Flag::new("NONE", Named(StreamFlags::NONE)),
        bitflags::Flag::new("MUST_SCAN_SUBDIRS", Named(StreamFlags::MUST_SCAN_SUBDIRS)),
        bitflags::Flag::new("USER_DROPPED", Named(StreamFlags::USER_DROPPED)),
        bitflags::Flag::new("KERNEL_DROPPED", Named(StreamFlags::KERNEL_DROPPED)),
        bitflags::Flag::new("IDS_WRAPPED", Named(StreamFlags::IDS_WRAPPED)),
        bitflags::Flag::new("HISTORY_DONE", Named(StreamFlags::HISTORY_DONE)),
        bitflags::Flag::new("ROOT_CHANGED", Named(StreamFlags::ROOT_CHANGED)),
        bitflags::Flag::new("MOUNT", Named(StreamFlags::MOUNT)),
        bitflags::Flag::new("UNMOUNT", Named(StreamFlags::UNMOUNT)),
        bitflags::Flag::new("ITEM_CREATED", Named(StreamFlags::ITEM_CREATED)),
        bitflags::Flag::new("ITEM_REMOVED", Named(StreamFlags::ITEM_REMOVED)),
        bitflags::Flag::new("INODE_META_MOD", Named(StreamFlags::INODE_META_MOD)),
        bitflags::Flag::new("ITEM_RENAMED", Named(StreamFlags::ITEM_RENAMED)),
        bitflags::Flag::new("ITEM_MODIFIED", Named(StreamFlags::ITEM_MODIFIED)),
        bitflags::Flag::new("FINDER_INFO_MOD", Named(StreamFlags::FINDER_INFO_MOD)),
        bitflags::Flag::new("ITEM_CHANGE_OWNER", Named(StreamFlags::ITEM_CHANGE_OWNER)),
        bitflags::Flag::new("ITEM_XATTR_MOD", Named(StreamFlags::ITEM_XATTR_MOD)),
        bitflags::Flag::new("IS_FILE", Named(StreamFlags::IS_FILE)),
        bitflags::Flag::new("IS_DIR", Named(StreamFlags::IS_DIR)),
        bitflags::Flag::new("IS_SYMLINK", Named(StreamFlags::IS_SYMLINK)),
        bitflags::Flag::new("OWN_EVENT", Named(StreamFlags::OWN_EVENT)),
        bitflags::Flag::new("IS_HARDLINK", Named(StreamFlags::IS_HARDLINK)),
        bitflags::Flag::new("IS_LAST_HARDLINK", Named(StreamFlags::IS_LAST_HARDLINK)),
        bitflags::Flag::new("ITEM_CLONED", Named(StreamFlags::ITEM_CLONED)),
    ];

    type Bits = u32;

    fn bits(&self) -> u32 {
        self.0
    }

    fn from_bits_retain(bits: u32) -> Named {
        Named(bits)
    }
}

/// Words of all sorts: each bit alone, each bit missing, and some mixtures.
fn words() -> Vec<u32> {
    let mut words: Vec<u32> = vec![0, u32::MAX, 0x007f_ffff, 0x0080_0000, 0x00ff_ffff];
    for bit in 0..32 {
        words.push(1 << bit);
        words.push(!(1 << bit));
    }
    let mut word: u32 = 12345;
    for _ in 0..500 {
        word = word.wrapping_mul(1_664_525).wrapping_add(1_013_904_223);
        words.push(word);
        words.push(word >> 9);
    }
    words
}

#[test]
fn words_decode_as_bitflags_does() {
    for word in words() {
        let expected = Named::from_bits(word).map(|flags| flags.0);
        assert_eq!(StreamFlags::from_bits(word).map(|flags| flags.bits), expected);
    }
}

#[test]
fn flags_are_found_as_bitflags_does() {
    for word in words() {
        for flag in Named::FLAGS {
            let asked = flag.value().0;
            assert_eq!(
                StreamFlags { bits: word }.contains(asked),
                Named(word).contains(Named(asked)),
                "{} in {word:#x}",
                flag.name()
            );
        }
    }
}

#[test]
fn all_is_what_bitflags_takes_for_all() {
    assert_eq!(StreamFlags::ALL, Named::all().0);
}

#[test]
fn a_word_with_an_unknown_bit_does_not_decode() {
    assert_eq!(StreamFlags::from_bits(0x0080_0000), None);
    assert_eq!(StreamFlags::from_bits(0x0080_0001), None);
    assert_eq!(StreamFlags::from_bits(0x007f_ffff), Some(StreamFlags { bits: 0x007f_ffff }));
    assert_eq!(StreamFlags::from_bits(0), Some(StreamFlags { bits: 0 }));
}

#[test]
fn a_flag_of_several_bits_is_found_only_whole() {
    let both = StreamFlags::IS_FILE | StreamFlags::IS_DIR;
    assert!(!StreamFlags { bits: StreamFlags::IS_FILE }.contains(both));
    assert!(StreamFlags { bits: both }.contains(both));
    assert!(StreamFlags { bits: 0 }.contains(StreamFlags::NONE));
}

#[test]
fn flags_apart_do_not_disturb_each_other() {
    for word in words() {
        let plain = StreamFlags { bits: word };
        let more = StreamFlags { bits: word | StreamFlags::IDS_WRAPPED };
        assert_eq!(plain.contains(StreamFlags::MOUNT), more.contains(StreamFlags::MOUNT));
    }
}

#[test]
fn stream_constants() {
    assert_eq!(EVENT_ID_SINCE_NOW, u64::MAX);
    assert_eq!(CREATE_FLAG_FILE_EVENTS | CREATE_FLAG_NO_DEFER | CREATE_FLAG_WATCH_ROOT, 0x16);
}
