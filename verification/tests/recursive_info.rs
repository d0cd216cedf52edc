use notify_fsevent::path::FsPath;
use notify_fsevent::recursive_info::RecursiveInfo;

fn path(text: &str) -> FsPath {
    FsPath::from_text(text)
}

fn watches(info: &RecursiveInfo, text: &str) -> bool {
    info.watches(&path(text).components())
}

#[test]
fn paths_are_told_apart_by_their_components() {
    let mut info = RecursiveInfo::new();
    info.insert(&path("/a/b"), true);
    info.insert(&path("/a//b/"), false);
    assert_eq!(info.remove(&path("/a/./b")), Some(false));
    assert_eq!(info.remove(&path("/a/b")), None);
    assert_eq!(info, RecursiveInfo::new());
}

#[test]
fn a_path_that_is_not_there_is_not_removed() {
    let mut info = RecursiveInfo::new();
    assert_eq!(info.remove(&path("/a")), None);
    info.insert(&path("/a"), true);
    assert_eq!(info.remove(&path("/a/b")), None);
    assert_eq!(info.remove(&path("/")), None);
    assert!(watches(&info, "/a/b"));
    assert_eq!(info.remove(&path("/a")), Some(true));
    assert!(!watches(&info, "/a/b"));
}

#[test]
fn one_more_watch_loses_nothing() {
    let mut info = RecursiveInfo::new();
    info.insert(&path("/a"), false);
    info.insert(&path("/b"), true);
    let before: Vec<bool> = ["/a", "/a/x", "/b/x/y"].iter().map(|p| watches(&info, p)).collect();
    assert_eq!(before, vec![true, true, true]);
    assert!(!watches(&info, "/a/x/y"));
    info.insert(&path("/a"), true);
    info.insert(&path("/c"), false);
    for p in ["/a", "/a/x", "/b/x/y", "/a/x/y", "/c/x"] {
        assert!(watches(&info, p));
    }
}

#[test]
fn what_another_watch_takes_in_stays_watched() {
    let mut info = RecursiveInfo::new();
    info.insert(&path("/a"), true);
    info.insert(&path("/a/b"), true);
    info.insert(&path("/c"), false);
    assert_eq!(info.remove(&path("/a")), Some(true));
    assert!(watches(&info, "/a/b/x"));
    assert!(!watches(&info, "/a/x"));
    assert!(watches(&info, "/c/x"));
}

#[test]
fn a_copy_goes_its_own_way() {
    let mut info = RecursiveInfo::new();
    info.insert(&path("/a"), true);
    let copy = info.clone();
    assert_eq!(copy, info);
    info.remove(&path("/a"));
    assert!(watches(&copy, "/a/x"));
    assert!(!watches(&info, "/a/x"));
}
