use std::path::{Component, Path};

use notify_fsevent::path::{has_parent, same_components, starts_with, FsPath};

const SAMPLES: &[&str] = &[
    "", "/", "//", "///", ".", "./", "./.", "..", "../", "/.", "/..", "/./", "a", "a/", "/a", "//a",
    "/a/", "/a//", "/a/.", "/a/./", "/a/..", "./a", ".//a", "././a", "a/b", "a//b", "a/./b", "a/b/",
    "a/b/.", "/a/b", "/a/b/", "/a//b", "/a/./b", "/a/b/c", "/a/bc", "/ab", "/ab/c", ".a", "..a", "a.",
    "/.a", "/a/.b", "/a/...", "...", "/tmp/x", "/tmp/x/y/z", "/TMP/x", "/\u{e9}t\u{e9}/x", "/a b/c d",
];

fn path(text: &str) -> FsPath {
    FsPath::from_text(text)
}

fn components(text: &str) -> Vec<Vec<u8>> {
    Path::new(text)
        .components()
        .map(|component| match component {
            Component::RootDir => b"/".to_vec(),
            other => other.as_os_str().to_str().unwrap().as_bytes().to_vec(),
        })
        .collect()
}

#[test]
fn components_are_those_of_the_standard_library() {
    for text in SAMPLES {
        assert_eq!(path(text).components(), components(text), "{text:?}");
    }
}

#[test]
fn paths_compare_as_in_the_standard_library() {
    for a in SAMPLES {
        for b in SAMPLES {
            let (pa, pb) = (path(a).components(), path(b).components());
            let (sa, sb) = (Path::new(a), Path::new(b));
            assert_eq!(starts_with(&pa, &pb), sa.starts_with(sb), "{a:?} below {b:?}");
            assert_eq!(same_components(&pa, &pb), sa == sb, "{a:?} is {b:?}");
            assert_eq!(has_parent(&pa, &pb), sa.parent() == Some(sb), "{a:?} in {b:?}");
        }
    }
}

#[test]
fn only_whole_components_count() {
    let (a, ab) = (path("/a").components(), path("/ab").components());
    assert!(!starts_with(&ab, &a));
    assert!(starts_with(&path("/a/b").components(), &a));
    assert!(starts_with(&a, &a));
}

#[test]
fn an_entry_has_one_component_more_than_its_directory() {
    let mut expected = path("/srv/data").components();
    expected.push(b"file".to_vec());
    assert_eq!(path("/srv/data/file").components(), expected);
    assert_eq!(path("/srv//data/./file/").components(), expected);
    assert!(has_parent(&path("/srv/data/file").components(), &path("/srv/data").components()));
}

#[test]
fn the_root_has_no_parent() {
    assert!(!has_parent(&path("/").components(), &path("/").components()));
    assert!(!has_parent(&path("/").components(), &path("").components()));
    assert!(!has_parent(&path("").components(), &path("").components()));
    assert!(has_parent(&path("a").components(), &path("").components()));
}

#[test]
fn a_path_need_not_be_text() {
    let odd = FsPath::new(vec![0x2f, 0xff, 0x2f, 0xfe]);
    assert_eq!(odd.components(), vec![vec![0x2f], vec![0xff], vec![0xfe]]);
    assert_eq!(odd.clone(), odd);
}
