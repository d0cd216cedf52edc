//! Which paths are watched, and which of them with everything below.

use vstd::prelude::*;

use crate::path::{copy_components, has_parent, same_components, starts_with, FsPath};

verus! {

use crate::path::{components, is_entry_name, join, law_entry_of_directory, law_parent};
use crate::path::{is_under, law_siblings_apart, law_under_means_every_component, parent};
use crate::path::{view_components, Components};

/// A watched path.
#[derive(Debug, PartialEq, Eq)]
struct WatchedPath {
    parts: Vec<Vec<u8>>,
    recursive: bool,
}

impl WatchedPath {
    spec fn key(self) -> Components {
        view_components(self.parts@)
    }
}

/// The watched paths and whether each of them is watched with everything below it. Paths are
/// told apart by their components, and none is held twice.
#[derive(Debug, PartialEq, Eq)]
pub struct RecursiveInfo {
    entries: Vec<WatchedPath>,
}

/// The map that a list of watched paths stands for.
spec fn map_of(entries: Seq<WatchedPath>) -> Map<Components, bool>
    decreases entries.len(),
{
    if entries.len() == 0 {
        Map::<Components, bool>::empty()
    } else {
        map_of(entries.drop_last()).insert(entries.last().key(), entries.last().recursive)
    }
}

/// No path is held twice.
spec fn all_distinct(entries: Seq<WatchedPath>) -> bool {
    forall|i: int, j: int|
        0 <= i < j < entries.len() ==> (#[trigger] entries[i]).key() != (
        #[trigger] entries[j]).key()
}

/// Whether a watch on `base` takes in `path`: a recursive one everything from `base` down, any
/// other only `base` itself and what it holds directly.
pub open spec fn covers(base: Components, recursive: bool, path: Components) -> bool {
    is_under(path, base) && (recursive || path == base || parent(path) == Some(base))
}

/// Whether some watch takes in `path`.
pub open spec fn is_watched(info: Map<Components, bool>, path: Components) -> bool {
    exists|base: Components| #[trigger]
        info.dom().contains(base) && covers(base, info[base], path)
}

proof fn lemma_map_has(entries: Seq<WatchedPath>, key: Components)
    ensures
        map_of(entries).dom().contains(key) <==> exists|i: int|
            0 <= i < entries.len() && (#[trigger] entries[i]).key() == key,
    decreases entries.len(),
{
    if entries.len() > 0 {
        let before = entries.drop_last();
        lemma_map_has(before, key);
        if exists|i: int| 0 <= i < before.len() && (#[trigger] before[i]).key() == key {
            let i = choose|i: int| 0 <= i < before.len() && (#[trigger] before[i]).key() == key;
            assert(entries[i].key() == key);
        }
        if exists|i: int| 0 <= i < entries.len() && (#[trigger] entries[i]).key() == key {
            let i = choose|i: int| 0 <= i < entries.len() && (#[trigger] entries[i]).key() == key;
            if i < before.len() {
                assert(before[i].key() == key);
            }
        }
    }
}

proof fn lemma_map_at(entries: Seq<WatchedPath>, i: int)
    requires
        all_distinct(entries),
        0 <= i < entries.len(),
    ensures
        map_of(entries).dom().contains(entries[i].key()),
        map_of(entries)[entries[i].key()] == entries[i].recursive,
    decreases entries.len(),
{
    let before = entries.drop_last();
    if i < before.len() {
        assert forall|a: int, b: int| 0 <= a < b < before.len() implies (
        #[trigger] before[a]).key() != (#[trigger] before[b]).key() by {
            assert(entries[a].key() != entries[b].key());
        }
        lemma_map_at(before, i);
        assert(before[i] == entries[i]);
        assert(entries[i].key() != entries[entries.len() - 1].key());
    }
}

impl View for RecursiveInfo {
    type V = Map<Components, bool>;

    closed spec fn view(&self) -> Map<Components, bool> {
        map_of(self.entries@)
    }
}

/// Where the path with the components `parts` stands in a list.
fn position(entries: &Vec<WatchedPath>, parts: &Vec<Vec<u8>>) -> (place: Option<usize>)
    ensures
        match place {
            Some(i) => i < entries@.len() && entries@[i as int].key() == view_components(parts@),
            None => !map_of(entries@).dom().contains(view_components(parts@)),
        },
{
    for i in 0..entries.len()
        invariant
            forall|j: int| 0 <= j < i ==> (#[trigger] entries@[j]).key() != view_components(parts@),
    {
        if same_components(&entries[i].parts, parts) {
            return Some(i);
        }
    }
    proof {
        lemma_map_has(entries@, view_components(parts@));
    }
    None
}

impl Clone for RecursiveInfo {
    fn clone(&self) -> (copy: RecursiveInfo)
        ensures
            copy@ == self@,
    {
        proof {
            use_type_invariant(self);
        }
        let mut entries: Vec<WatchedPath> = Vec::new();
        for i in 0..self.entries.len()
            invariant
                entries.len() == i,
                map_of(entries@) == map_of(self.entries@.take(i as int)),
                forall|j: int|
                    0 <= j < i ==> (#[trigger] entries@[j]).key() == self.entries@[j].key(),
        {
            let entry: &WatchedPath = &self.entries[i];
            let ghost before = entries@;
            entries.push(
                WatchedPath { parts: copy_components(&entry.parts), recursive: entry.recursive },
            );
            assert(entries@.drop_last() =~= before);
            assert(self.entries@.take(i + 1).drop_last() =~= self.entries@.take(i as int));
        }
        assert(self.entries@.take(self.entries@.len() as int) =~= self.entries@);
        assert forall|a: int, b: int| 0 <= a < b < entries@.len() implies (
        #[trigger] entries@[a]).key() != (#[trigger] entries@[b]).key() by {
            assert(self.entries@[a].key() != self.entries@[b].key());
        }
        RecursiveInfo { entries }
    }
}

impl RecursiveInfo {
    /// No path is held twice.
    #[verifier::type_invariant]
    spec fn wf(&self) -> bool {
        all_distinct(self.entries@)
    }

    /// No watched path.
    pub fn new() -> (info: RecursiveInfo)
        ensures
            info@ == Map::<Components, bool>::empty(),
    {
        RecursiveInfo { entries: Vec::new() }
    }

    /// Watches `path`, from now on in the way that `recursive` says.
    pub fn insert(&mut self, path: &FsPath, recursive: bool)
        ensures
            final(self)@ == old(self)@.insert(path.parts(), recursive),
    {
        let parts: Vec<Vec<u8>> = path.components();
        let ghost key = path.parts();
        proof {
            use_type_invariant(&*self);
        }
        let ghost before = self.entries@;
        let mut entries: Vec<WatchedPath> = Vec::new();
        std::mem::swap(&mut entries, &mut self.entries);
        match position(&entries, &parts) {
            Some(i) => {
                entries.set(i, WatchedPath { parts, recursive });
                proof {
                    let after = entries@;
                    assert(after[i as int].key() == key);
                    assert forall|a: int, b: int| 0 <= a < b < after.len() implies (
                    #[trigger] after[a]).key() != (#[trigger] after[b]).key() by {
                        assert(before[a].key() != before[b].key());
                    }
                    lemma_same_map_but(before, after, key, i as int);
                    assert(map_of(after) =~= map_of(before).insert(key, recursive));
                }
            },
            None => {
                proof {
                    lemma_map_has(before, key);
                }
                entries.push(WatchedPath { parts, recursive });
                proof {
                    let after = entries@;
                    assert(after.drop_last() =~= before);
                    assert forall|a: int, b: int| 0 <= a < b < after.len() implies (
                    #[trigger] after[a]).key() != (#[trigger] after[b]).key() by {
                        assert(after[a] == before[a]);
                        if b < before.len() {
                            assert(after[b] == before[b]);
                        }
                    }
                }
            },
        }
        self.entries = entries;
    }

    /// Stops watching `path`, and gives back in which way it was watched.
    pub fn remove(&mut self, path: &FsPath) -> (removed: Option<bool>)
        ensures
            final(self)@ == old(self)@.remove(path.parts()),
            removed == (if old(self)@.dom().contains(path.parts()) {
                Some(old(self)@[path.parts()])
            } else {
                None
            }),
    {
        let parts: Vec<Vec<u8>> = path.components();
        let ghost key = path.parts();
        proof {
            use_type_invariant(&*self);
        }
        let ghost before = self.entries@;
        let mut entries: Vec<WatchedPath> = Vec::new();
        std::mem::swap(&mut entries, &mut self.entries);
        let removed: Option<bool> = match position(&entries, &parts) {
            Some(i) => {
                let entry: WatchedPath = entries.remove(i);
                proof {
                    let after = entries@;
                    assert(after == before.remove(i as int));
                    lemma_map_at(before, i as int);
                    assert forall|a: int, b: int| 0 <= a < b < after.len() implies (
                    #[trigger] after[a]).key() != (#[trigger] after[b]).key() by {
                        let c = if a < i {
                            a
                        } else {
                            a + 1
                        };
                        let d = if b < i {
                            b
                        } else {
                            b + 1
                        };
                        assert(before[c].key() != before[d].key());
                    }
                    lemma_map_without(before, i as int);
                }
                Some(entry.recursive)
            },
            None => {
                assert(map_of(before).remove(key) =~= map_of(before));
                None
            },
        };
        self.entries = entries;
        removed
    }

    /// Whether some watch takes in the path with the components `parts`.
    pub fn watches(&self, parts: &Vec<Vec<u8>>) -> (watched: bool)
        ensures
            watched == is_watched(self@, view_components(parts@)),
    {
        proof {
            use_type_invariant(self);
        }
        let ghost path = view_components(parts@);
        for i in 0..self.entries.len()
            invariant
                self.wf(),
                path == view_components(parts@),
                forall|j: int|
                    0 <= j < i ==> !covers(
                        (#[trigger] self.entries@[j]).key(),
                        self.entries@[j].recursive,
                        path,
                    ),
        {
            let entry: &WatchedPath = &self.entries[i];
            if starts_with(parts, &entry.parts) && (entry.recursive || same_components(
                parts,
                &entry.parts,
            ) || has_parent(parts, &entry.parts)) {
                proof {
                    lemma_map_at(self.entries@, i as int);
                    assert(self@.dom().contains(entry.key()));
                }
                return true;
            }
        }
        proof {
            assert forall|base: Components| #[trigger] self@.dom().contains(base) implies !covers(
                base,
                self@[base],
                path,
            ) by {
                lemma_map_has(self.entries@, base);
                let j = choose|j: int|
                    0 <= j < self.entries@.len() && (#[trigger] self.entries@[j]).key() == base;
                lemma_map_at(self.entries@, j);
            }
        }
        false
    }
}

/// Two lists that differ in one place, where both hold `key`, stand for the same map but for
/// what `key` is mapped to.
proof fn lemma_same_map_but(
    before: Seq<WatchedPath>,
    after: Seq<WatchedPath>,
    key: Components,
    place: int,
)
    requires
        all_distinct(before),
        all_distinct(after),
        0 <= place < before.len(),
        after == before.update(place, after[place]),
        before[place].key() == key,
        after[place].key() == key,
    ensures
        map_of(after) == map_of(before).insert(key, after[place].recursive),
{
    let expected = map_of(before).insert(key, after[place].recursive);
    lemma_map_at(after, place);
    assert forall|k: Components|
        #![trigger map_of(after).dom().contains(k)]
        #![trigger expected.dom().contains(k)]
        map_of(after).dom().contains(k) == expected.dom().contains(k) && (expected.dom().contains(k)
            ==> map_of(after)[k] == expected[k]) by {
        lemma_map_has(before, k);
        lemma_map_has(after, k);
        if k != key {
            if map_of(after).dom().contains(k) {
                let j = choose|j: int| 0 <= j < after.len() && (#[trigger] after[j]).key() == k;
                assert(before[j] == after[j]);
                lemma_map_at(before, j);
                lemma_map_at(after, j);
            }
            if map_of(before).dom().contains(k) {
                let j = choose|j: int| 0 <= j < before.len() && (#[trigger] before[j]).key() == k;
                assert(before[j] == after[j]);
            }
        }
    }
    assert(map_of(after) =~= expected);
}

/// Taking an entry out of a list takes its path out of the map.
proof fn lemma_map_without(entries: Seq<WatchedPath>, place: int)
    requires
        all_distinct(entries),
        0 <= place < entries.len(),
        all_distinct(entries.remove(place)),
    ensures
        map_of(entries.remove(place)) == map_of(entries).remove(entries[place].key()),
{
    let after = entries.remove(place);
    let key = entries[place].key();
    let expected = map_of(entries).remove(key);
    assert forall|k: Components|
        #![trigger map_of(after).dom().contains(k)]
        #![trigger expected.dom().contains(k)]
        map_of(after).dom().contains(k) == expected.dom().contains(k) && (expected.dom().contains(k)
            ==> map_of(after)[k] == expected[k]) by {
        lemma_map_has(entries, k);
        lemma_map_has(after, k);
        if map_of(after).dom().contains(k) {
            let j = choose|j: int| 0 <= j < after.len() && (#[trigger] after[j]).key() == k;
            let i = if j < place {
                j
            } else {
                j + 1
            };
            assert(entries[i] == after[j]);
            if i < place {
                assert(entries[i].key() != entries[place].key());
            } else {
                assert(entries[place].key() != entries[i].key());
            }
            lemma_map_at(entries, i);
            lemma_map_at(after, j);
        }
        if expected.dom().contains(k) {
            let i = choose|i: int| 0 <= i < entries.len() && (#[trigger] entries[i]).key() == k;
            let j = if i < place {
                i
            } else {
                i - 1
            };
            assert(entries[i] == after[j]);
        }
    }
    assert(map_of(after) =~= expected);
}

/// Nothing is watched until a path is.
pub proof fn law_nothing_watched(path: Components)
    ensures
        !is_watched(Map::<Components, bool>::empty(), path),
{
}

/// A recursive watch takes in everything from its path down, and nothing else.
pub proof fn law_recursive_scope(base: Components, path: Components)
    ensures
        covers(base, true, path) <==> is_under(path, base),
{
}

/// Any other watch takes in its path and what that holds directly, and nothing else.
pub proof fn law_flat_scope(base: Components, path: Components)
    ensures
        covers(base, false, path) <==> (path == base || parent(path) == Some(base)),
{
    assert(path =~= path.subrange(0, path.len() as int));
    if parent(path) == Some(base) {
        assert(base =~= path.subrange(0, base.len() as int));
    }
}

/// A flat watch on a directory takes in the directory and its entries, but not what lies deeper;
/// a recursive one takes in that too. All of it holds however the paths are spelled.
pub proof fn law_watched_directory(dir: Seq<u8>, entry: Seq<u8>, deeper: Seq<u8>)
    requires
        dir.len() > 0,
        is_entry_name(entry),
        is_entry_name(deeper),
    ensures
        covers(components(dir), false, components(dir)),
        covers(components(dir), false, components(join(dir, entry))),
        !covers(components(dir), false, components(join(join(dir, entry), deeper))),
        covers(components(dir), true, components(join(join(dir, entry), deeper))),
{
    let base = components(dir);
    law_entry_of_directory(dir, entry);
    law_entry_of_directory(join(dir, entry), deeper);
    law_flat_scope(base, base);
    law_flat_scope(base, components(join(dir, entry)));
    let far = components(join(join(dir, entry), deeper));
    assert(base =~= far.subrange(0, base.len() as int));
    assert(far.drop_last().len() != base.len());
}

/// Every watch of `less` is one of `more` too, and there it takes in no less.
pub open spec fn within(less: Map<Components, bool>, more: Map<Components, bool>) -> bool {
    forall|base: Components| #[trigger]
        less.dom().contains(base) ==> more.dom().contains(base) && (less[base] ==> more[base])
}

/// More watches, and watches made recursive, lose nothing that was watched before.
pub proof fn law_more_watches(
    less: Map<Components, bool>,
    more: Map<Components, bool>,
    path: Components,
)
    requires
        within(less, more),
        is_watched(less, path),
    ensures
        is_watched(more, path),
{
    let base = choose|base: Components| #[trigger]
        less.dom().contains(base) && covers(base, less[base], path);
    assert(more.dom().contains(base) && covers(base, more[base], path));
}

/// To watch one path more, or to watch one recursively that was watched flat, takes no watch away;
/// to forget a path adds none.
pub proof fn law_one_watch_more(info: Map<Components, bool>, base: Components, recursive: bool)
    ensures
        (info.dom().contains(base) ==> recursive || !info[base]) ==> within(
            info,
            info.insert(base, recursive),
        ),
        within(info.remove(base), info),
{
}

/// After a watch is taken away, a path is watched exactly when another watch takes it in.
pub proof fn law_fewer_watches(info: Map<Components, bool>, base: Components, path: Components)
    ensures
        is_watched(info.remove(base), path) <==> exists|other: Components|
            other != base && #[trigger] info.dom().contains(other) && covers(
                other,
                info[other],
                path,
            ),
{
    let rest = info.remove(base);
    if is_watched(rest, path) {
        let other = choose|other: Components| #[trigger]
            rest.dom().contains(other) && covers(other, rest[other], path);
        assert(info.dom().contains(other));
    }
    if exists|other: Components|
        other != base && #[trigger] info.dom().contains(other) && covers(other, info[other], path) {
        let other = choose|other: Components|
            other != base && #[trigger] info.dom().contains(other) && covers(
                other,
                info[other],
                path,
            );
        assert(rest.dom().contains(other));
    }
}

/// A path is watched exactly when it starts with all the components of a watched path, and that
/// one is watched with everything below, or is the path itself, or holds it directly.
pub proof fn law_watched(info: Map<Components, bool>, path: Components)
    ensures
        is_watched(info, path) <==> exists|base: Components| #[trigger]
            info.dom().contains(base) && base.len() <= path.len() && (forall|i: int|
                0 <= i < base.len() ==> path[i] == #[trigger] base[i]) && (info[base]
                || path.len() == base.len() || (path.len() == base.len() + 1
                && path[path.len() - 1] != seq![0x2fu8])),
{
    assert forall|base: Components| #[trigger] info.dom().contains(base) implies covers(
        base,
        info[base],
        path,
    ) == (base.len() <= path.len() && (forall|i: int|
        0 <= i < base.len() ==> path[i] == #[trigger] base[i]) && (info[base] || path.len()
        == base.len() || (path.len() == base.len() + 1 && path[path.len() - 1]
        != seq![0x2fu8]))) by {
        law_under_means_every_component(path, base);
        law_parent(path, 0);
        if base.len() <= path.len() && (forall|i: int|
            0 <= i < base.len() ==> path[i] == #[trigger] base[i]) {
            if path.len() == base.len() {
                assert(path =~= base);
            }
            if path.len() == base.len() + 1 {
                assert(path.drop_last() =~= base);
            }
        }
    }
    if is_watched(info, path) {
        let base = choose|base: Components| #[trigger]
            info.dom().contains(base) && covers(base, info[base], path);
        assert(info.dom().contains(base));
    }
    if exists|base: Components| #[trigger]
        info.dom().contains(base) && base.len() <= path.len() && (forall|i: int|
            0 <= i < base.len() ==> path[i] == #[trigger] base[i]) && (info[base] || path.len()
            == base.len() || (path.len() == base.len() + 1 && path[path.len() - 1]
            != seq![0x2fu8])) {
        let base = choose|base: Components| #[trigger]
            info.dom().contains(base) && base.len() <= path.len() && (forall|i: int|
                0 <= i < base.len() ==> path[i] == #[trigger] base[i]) && (info[base]
                || path.len() == base.len() || (path.len() == base.len() + 1
                && path[path.len() - 1] != seq![0x2fu8]));
        assert(covers(base, info[base], path));
    }
}

/// A watch on one entry of a directory, recursive or not, takes in no other entry, nor anything
/// below another.
pub proof fn law_siblings_unwatched(
    dir: Seq<u8>,
    watched: Seq<u8>,
    other: Seq<u8>,
    rest: Seq<u8>,
    recursive: bool,
)
    requires
        dir.len() > 0,
        is_entry_name(watched),
        is_entry_name(other),
        watched != other,
    ensures
        ({
            let info = map![components(join(dir, watched)) => recursive];
            &&& !is_watched(info, components(join(dir, other)))
            &&& !is_watched(info, components(join(join(dir, other), rest)))
        }),
{
    law_siblings_apart(dir, other, watched, rest);
}

} // verus!
