//! Paths of a Unix file system, compared component by component.

use vstd::prelude::*;

verus! {

/// The byte that separates the components of a path.
pub const SEPARATOR: u8 = 0x2f;

/// The byte of the component that stands for the directory itself.
pub const DOT: u8 = 0x2e;

/// The components of a path. The root directory counts as a component of its own,
/// [`root_dir`], which no name can be mistaken for: a name holds no separator.
pub type Components = Seq<Seq<u8>>;

/// The component that an absolute path starts with.
pub open spec fn root_dir() -> Seq<u8> {
    seq![SEPARATOR]
}

/// The component that names the directory it stands in.
pub open spec fn cur_dir() -> Seq<u8> {
    seq![DOT]
}

/// The stretches of `bytes` between separators, empty ones too.
pub open spec fn pieces(bytes: Seq<u8>) -> Seq<Seq<u8>>
    decreases bytes.len(),
{
    if bytes.len() == 0 {
        seq![Seq::<u8>::empty()]
    } else {
        let before = pieces(bytes.drop_last());
        if bytes.last() == SEPARATOR {
            before.push(Seq::<u8>::empty())
        } else {
            before.drop_last().push(before.last().push(bytes.last()))
        }
    }
}

/// Whether the piece at `index` is a component: it is not empty, and it is not `.` unless the
/// path starts with it.
pub open spec fn is_component(piece: Seq<u8>, index: int) -> bool {
    piece.len() > 0 && (piece != cur_dir() || index == 0)
}

/// The pieces that are components, in order.
pub open spec fn names(pieces: Seq<Seq<u8>>) -> Components
    decreases pieces.len(),
{
    if pieces.len() == 0 {
        Seq::<Seq<u8>>::empty()
    } else {
        let before = names(pieces.drop_last());
        if is_component(pieces.last(), pieces.len() - 1) {
            before.push(pieces.last())
        } else {
            before
        }
    }
}

pub open spec fn is_absolute(bytes: Seq<u8>) -> bool {
    bytes.len() > 0 && bytes[0] == SEPARATOR
}

/// The components of the path that `bytes` spells. Repeated and trailing separators leave no
/// trace, nor does a `.` that is not the start of the path.
pub open spec fn components(bytes: Seq<u8>) -> Components {
    if is_absolute(bytes) {
        seq![root_dir()] + names(pieces(bytes))
    } else {
        names(pieces(bytes))
    }
}

/// The components of the directory that holds a path, if it is held by one: neither the root
/// directory nor the empty path is.
pub open spec fn parent(path: Components) -> Option<Components> {
    if path.len() == 0 || path.last() == root_dir() {
        None
    } else {
        Some(path.drop_last())
    }
}

/// Whether `path` is `base` or lies below it.
pub open spec fn is_under(path: Components, base: Components) -> bool {
    base.is_prefix_of(path)
}

/// Whether two byte strings are the same.
fn same_bytes(a: &Vec<u8>, b: &Vec<u8>) -> (same: bool)
    ensures
        same == (a@ == b@),
{
    if a.len() != b.len() {
        return false;
    }
    for i in 0..a.len()
        invariant
            a.len() == b.len(),
            forall|j: int| 0 <= j < i ==> a@[j] == b@[j],
    {
        if a[i] != b[i] {
            return false;
        }
    }
    assert(a@ =~= b@);
    true
}

/// The view of a list of components.
pub open spec fn view_components(list: Seq<Vec<u8>>) -> Components {
    list.map_values(|name: Vec<u8>| name@)
}

/// Whether the first components of `path` are those of `base`.
pub fn starts_with(path: &Vec<Vec<u8>>, base: &Vec<Vec<u8>>) -> (under: bool)
    ensures
        under == is_under(view_components(path@), view_components(base@)),
{
    let ghost whole = view_components(path@);
    let ghost start = view_components(base@);
    if path.len() < base.len() {
        return false;
    }
    for i in 0..base.len()
        invariant
            base.len() <= path.len(),
            whole == view_components(path@),
            start == view_components(base@),
            forall|j: int| 0 <= j < i ==> whole[j] == start[j],
    {
        if !same_bytes(&path[i], &base[i]) {
            assert(whole[i as int] != start[i as int]);
            assert(whole.subrange(0, start.len() as int)[i as int] == whole[i as int]);
            return false;
        }
    }
    assert(start =~= whole.subrange(0, start.len() as int));
    true
}

/// Whether two lists hold the same components.
pub fn same_components(a: &Vec<Vec<u8>>, b: &Vec<Vec<u8>>) -> (same: bool)
    ensures
        same == (view_components(a@) == view_components(b@)),
{
    if a.len() != b.len() {
        assert(view_components(a@).len() == a.len());
        assert(view_components(b@).len() == b.len());
        return false;
    }
    let same: bool = starts_with(a, b);
    assert(view_components(a@).subrange(0, b.len() as int) =~= view_components(a@));
    same
}

/// Whether `base` holds the components of the directory that holds `path`.
pub fn has_parent(path: &Vec<Vec<u8>>, base: &Vec<Vec<u8>>) -> (found: bool)
    ensures
        found == (parent(view_components(path@)) == Some(view_components(base@))),
{
    let ghost whole = view_components(path@);
    let ghost start = view_components(base@);
    if path.len() == 0 {
        return false;
    }
    let last: &Vec<u8> = &path[path.len() - 1];
    let is_root: bool = last.len() == 1 && last[0] == SEPARATOR;
    assert(last@ == whole.last());
    proof {
        if is_root {
            assert(last@ =~= root_dir());
        } else {
            assert(last@ != root_dir());
        }
    }
    if is_root {
        return false;
    }
    if base.len() != path.len() - 1 {
        assert(whole.drop_last().len() != start.len());
        return false;
    }
    let found: bool = starts_with(path, base);
    assert(whole.subrange(0, start.len() as int) =~= whole.drop_last());
    found
}

/// A list of the same components.
pub(crate) fn copy_components(list: &Vec<Vec<u8>>) -> (copy: Vec<Vec<u8>>)
    ensures
        view_components(copy@) == view_components(list@),
{
    let mut copy: Vec<Vec<u8>> = Vec::new();
    for i in 0..list.len()
        invariant
            copy.len() == i,
            forall|j: int| 0 <= j < i ==> (#[trigger] copy@[j])@ == list@[j]@,
    {
        copy.push(copy_bytes(list[i].as_slice()));
    }
    assert(view_components(copy@) =~= view_components(list@));
    copy
}

/// A path, as the bytes that the operating system knows it by.
#[derive(Debug, PartialEq, Eq)]
pub struct FsPath {
    pub bytes: Vec<u8>,
}

impl View for FsPath {
    type V = Seq<u8>;

    open spec fn view(&self) -> Seq<u8> {
        self.bytes@
    }
}

impl Clone for FsPath {
    fn clone(&self) -> (path: FsPath)
        ensures
            path@ == self@,
    {
        FsPath { bytes: copy_bytes(self.bytes.as_slice()) }
    }
}

impl FsPath {
    /// The components of this path.
    pub open spec fn parts(self) -> Components {
        components(self@)
    }

    /// The path that `bytes` spells.
    pub fn new(bytes: Vec<u8>) -> (path: FsPath)
        ensures
            path@ == bytes@,
    {
        FsPath { bytes }
    }

    /// The path that `text` spells.
    pub fn from_text(text: &str) -> (path: FsPath)
        ensures
            path@ == vstd::utf8::encode_utf8(text@),
    {
        FsPath { bytes: copy_bytes(text.as_bytes()) }
    }

    /// The components of this path.
    pub fn components(&self) -> (list: Vec<Vec<u8>>)
        ensures
            view_components(list@) == self.parts(),
    {
        let mut list: Vec<Vec<u8>> = Vec::new();
        let ghost root: Components = if is_absolute(self@) {
            seq![root_dir()]
        } else {
            Seq::<Seq<u8>>::empty()
        };
        if self.bytes.len() > 0 && self.bytes[0] == SEPARATOR {
            let mut root: Vec<u8> = Vec::new();
            root.push(SEPARATOR);
            assert(root@ =~= root_dir());
            list.push(root);
        }
        assert(view_components(list@) =~= root);
        let mut piece: Vec<u8> = Vec::new();
        let mut first: bool = true;
        assert(self@.take(0) =~= Seq::<u8>::empty());
        for i in 0..self.bytes.len()
            invariant
                pieces(self@.take(i as int)).len() >= 1,
                piece@ == pieces(self@.take(i as int)).last(),
                first == (pieces(self@.take(i as int)).len() == 1),
                view_components(list@) == root + names(
                    pieces(self@.take(i as int)).drop_last(),
                ),
        {
            let ghost before = pieces(self@.take(i as int));
            let ghost after = pieces(self@.take(i + 1));
            assert(self@.take(i + 1).drop_last() =~= self@.take(i as int));
            let byte: u8 = self.bytes[i];
            if byte == SEPARATOR {
                assert(after.drop_last() =~= before);
                keep_component(&mut list, piece, first, Ghost(before), Ghost(root));
                piece = Vec::new();
                first = false;
            } else {
                piece.push(byte);
                assert(after.drop_last() =~= before.drop_last());
            }
        }
        assert(self@.take(self@.len() as int) =~= self@);
        keep_component(&mut list, piece, first, Ghost(pieces(self@)), Ghost(root));
        assert(root + names(pieces(self@)) =~= self.parts());
        list
    }
}

/// Adds the last of `pieces` to `list`, which holds the components among those before it after
/// `root`, if it is a component too.
fn keep_component(
    list: &mut Vec<Vec<u8>>,
    piece: Vec<u8>,
    first: bool,
    Ghost(pieces): Ghost<Seq<Seq<u8>>>,
    Ghost(root): Ghost<Components>,
)
    requires
        pieces.len() >= 1,
        piece@ == pieces.last(),
        first == (pieces.len() == 1),
        view_components(old(list)@) == root + names(pieces.drop_last()),
    ensures
        view_components(final(list)@) == root + names(pieces),
{
    let is_dot: bool = piece.len() == 1 && piece[0] == DOT;
    proof {
        if is_dot {
            assert(piece@ =~= cur_dir());
        } else {
            assert(piece@ != cur_dir());
        }
    }
    if piece.len() > 0 && (!is_dot || first) {
        list.push(piece);
        assert(view_components(list@) =~= view_components(old(list)@).push(pieces.last()));
        assert(view_components(list@) =~= root + names(pieces));
    }
}

fn copy_bytes(bytes: &[u8]) -> (copy: Vec<u8>)
    ensures
        copy@ == bytes@,
{
    let mut copy: Vec<u8> = Vec::new();
    for i in 0..bytes.len()
        invariant
            copy@ == bytes@.take(i as int),
    {
        copy.push(bytes[i]);
        assert(bytes@.take(i + 1) =~= bytes@.take(i as int).push(bytes@[i as int]));
    }
    assert(bytes@.take(bytes@.len() as int) =~= bytes@);
    copy
}

/// A name that a directory can hold: it is not empty, holds no separator, and is not `.`.
pub open spec fn is_entry_name(name: Seq<u8>) -> bool {
    name.len() > 0 && !name.contains(SEPARATOR) && name != cur_dir()
}

/// What `name` is called below the directory `dir`.
pub open spec fn join(dir: Seq<u8>, name: Seq<u8>) -> Seq<u8> {
    dir.push(SEPARATOR) + name
}

proof fn lemma_pieces_not_empty(bytes: Seq<u8>)
    ensures
        pieces(bytes).len() >= 1,
    decreases bytes.len(),
{
    if bytes.len() > 0 {
        lemma_pieces_not_empty(bytes.drop_last());
    }
}

proof fn lemma_pieces_of_join(dir: Seq<u8>, rest: Seq<u8>)
    ensures
        pieces(join(dir, rest)) == pieces(dir) + pieces(rest),
    decreases rest.len(),
{
    lemma_pieces_not_empty(rest);
    let whole = join(dir, rest);
    if rest.len() == 0 {
        assert(whole.drop_last() =~= dir);
        assert(pieces(whole) =~= pieces(dir) + pieces(rest));
    } else {
        assert(whole.drop_last() =~= join(dir, rest.drop_last()));
        lemma_pieces_not_empty(rest.drop_last());
        lemma_pieces_of_join(dir, rest.drop_last());
        assert(pieces(whole) =~= pieces(dir) + pieces(rest));
    }
}

proof fn lemma_pieces_of_name(name: Seq<u8>)
    requires
        !name.contains(SEPARATOR),
    ensures
        pieces(name) == seq![name],
    decreases name.len(),
{
    if name.len() > 0 {
        assert(name.last() == name[name.len() - 1]);
        assert forall|i: int| 0 <= i < name.drop_last().len() implies name.drop_last()[i]
            != SEPARATOR by {
            assert(name[i] == name.drop_last()[i]);
        }
        lemma_pieces_of_name(name.drop_last());
        assert(name.drop_last().push(name.last()) =~= name);
        assert(pieces(name) =~= seq![name]);
    } else {
        assert(name =~= Seq::<u8>::empty());
    }
}

proof fn lemma_names_grow(a: Seq<Seq<u8>>, b: Seq<Seq<u8>>)
    ensures
        names(a).is_prefix_of(names(a + b)),
    decreases b.len(),
{
    if b.len() == 0 {
        assert(a + b =~= a);
    } else {
        assert((a + b).drop_last() =~= a + b.drop_last());
        lemma_names_grow(a, b.drop_last());
        let shorter = names(a + b.drop_last());
        assert(names(a) =~= shorter.subrange(0, names(a).len() as int));
        assert(names(a) =~= names(a + b).subrange(0, names(a).len() as int));
    }
}

/// Whatever is spelled after a directory and a separator lies below that directory.
pub proof fn law_join_is_under(dir: Seq<u8>, rest: Seq<u8>)
    requires
        dir.len() > 0,
    ensures
        is_under(components(join(dir, rest)), components(dir)),
{
    lemma_pieces_of_join(dir, rest);
    lemma_names_grow(pieces(dir), pieces(rest));
    let whole = components(join(dir, rest));
    let base = components(dir);
    let below = names(pieces(dir) + pieces(rest));
    assert(names(pieces(dir)) =~= below.subrange(0, names(pieces(dir)).len() as int));
    assert(join(dir, rest)[0] == dir[0]);
    assert(base =~= whole.subrange(0, base.len() as int));
}

/// An entry of a directory has one component more than the directory, its name, and the
/// directory is its parent.
pub proof fn law_entry_of_directory(dir: Seq<u8>, name: Seq<u8>)
    requires
        dir.len() > 0,
        is_entry_name(name),
    ensures
        components(join(dir, name)) == components(dir).push(name),
        parent(components(join(dir, name))) == Some(components(dir)),
{
    lemma_pieces_of_join(dir, name);
    lemma_pieces_of_name(name);
    lemma_pieces_not_empty(dir);
    assert((pieces(dir) + seq![name]).drop_last() =~= pieces(dir));
    assert(join(dir, name)[0] == dir[0]);
    assert(components(join(dir, name)) =~= components(dir).push(name));
    assert(components(dir).push(name).drop_last() =~= components(dir));
    if name == root_dir() {
        assert(name[0] == SEPARATOR);
    }
}

/// A trailing separator, or a trailing separator and a `.`, does not change where a path leads.
pub proof fn law_trailing_separator(dir: Seq<u8>)
    requires
        dir.len() > 0,
    ensures
        components(dir.push(SEPARATOR)) == components(dir),
        components(join(dir, cur_dir())) == components(dir),
{
    lemma_pieces_not_empty(dir);
    assert(dir.push(SEPARATOR).drop_last() =~= dir);
    assert(pieces(dir.push(SEPARATOR)).drop_last() =~= pieces(dir));
    assert(dir.push(SEPARATOR)[0] == dir[0]);
    lemma_pieces_of_join(dir, cur_dir());
    assert(!cur_dir().contains(SEPARATOR));
    lemma_pieces_of_name(cur_dir());
    assert((pieces(dir) + seq![cur_dir()]).drop_last() =~= pieces(dir));
    assert(join(dir, cur_dir())[0] == dir[0]);
}

/// How the components of any path come about, byte by byte. What has no separator in it is one
/// component, unless it is empty. Behind a separator comes one more component than before it,
/// unless what comes is empty or a `.`. Before a separator that nothing precedes is the root.
pub proof fn law_components(dir: Seq<u8>, name: Seq<u8>)
    requires
        forall|i: int| 0 <= i < name.len() ==> name[i] != 0x2f,
    ensures
        ({
            let spelled = dir + seq![0x2fu8] + name;
            let own = if name.len() == 0 || name == seq![0x2eu8] {
                Seq::<Seq<u8>>::empty()
            } else {
                seq![name]
            };
            &&& dir.len() > 0 ==> components(spelled) == components(dir) + own
            &&& dir.len() == 0 ==> components(spelled) == seq![seq![0x2fu8]] + own
            &&& name.len() > 0 ==> components(name) == seq![name]
            &&& name.len() == 0 ==> components(name).len() == 0
        }),
{
    let spelled = dir + seq![0x2fu8] + name;
    assert(spelled =~= join(dir, name));
    assert(!name.contains(SEPARATOR));
    lemma_pieces_of_name(name);
    lemma_pieces_of_join(dir, name);
    lemma_pieces_not_empty(dir);
    assert((pieces(dir) + seq![name]).drop_last() =~= pieces(dir));
    reveal_with_fuel(names, 3);
    assert(seq![name].drop_last() =~= Seq::<Seq<u8>>::empty());
    if name.len() > 0 {
        assert(components(name) =~= seq![name]);
    }
    if dir.len() == 0 {
        assert(dir =~= Seq::<u8>::empty());
        assert(pieces(dir) =~= seq![Seq::<u8>::empty()]);
        assert(pieces(dir).drop_last() =~= Seq::<Seq<u8>>::empty());
        assert(spelled[0] == SEPARATOR);
        assert(root_dir() =~= seq![0x2fu8]);
        let own = if name.len() == 0 || name == seq![0x2eu8] {
            Seq::<Seq<u8>>::empty()
        } else {
            seq![name]
        };
        assert(names(pieces(dir) + seq![name]) =~= own);
        assert(components(spelled) =~= seq![seq![0x2fu8]] + own);
    } else {
        assert(spelled[0] == dir[0]);
        let own = if name.len() == 0 || name == seq![0x2eu8] {
            Seq::<Seq<u8>>::empty()
        } else {
            seq![name]
        };
        assert(names(pieces(dir) + seq![name]) =~= names(pieces(dir)) + own);
        assert(components(spelled) =~= components(dir) + own);
    }
}

/// A path lies under another exactly when it has, at each place where the other has a component,
/// the same one.
pub proof fn law_under_means_every_component(path: Components, base: Components)
    ensures
        is_under(path, base) <==> base.len() <= path.len() && forall|i: int|
            0 <= i < base.len() ==> path[i] == #[trigger] base[i],
{
    if is_under(path, base) {
        assert forall|i: int| 0 <= i < base.len() implies path[i] == #[trigger] base[i] by {
            assert(base[i] == path.subrange(0, base.len() as int)[i]);
        }
    }
    if base.len() <= path.len() && (forall|i: int|
        0 <= i < base.len() ==> path[i] == #[trigger] base[i]) {
        assert(base =~= path.subrange(0, base.len() as int));
    }
}

/// Only the empty path and the root are held by no directory. The directory that holds any other
/// path has all of its components but the last.
pub proof fn law_parent(path: Components, i: int)
    ensures
        parent(path) is None <==> path.len() == 0 || path[path.len() - 1] == seq![0x2fu8],
        parent(path) is Some ==> parent(path)->Some_0.len() == path.len() - 1,
        parent(path) is Some && 0 <= i < path.len() - 1 ==> parent(path)->Some_0[i] == path[i],
{
    assert(root_dir() =~= seq![0x2fu8]);
}

/// Two entries of one directory lie apart: nothing that is spelled as the one, or as anything
/// below it, is under the other.
pub proof fn law_siblings_apart(dir: Seq<u8>, a: Seq<u8>, b: Seq<u8>, rest: Seq<u8>)
    requires
        dir.len() > 0,
        is_entry_name(a),
        is_entry_name(b),
        a != b,
    ensures
        !is_under(components(join(dir, a)), components(join(dir, b))),
        !is_under(components(join(join(dir, a), rest)), components(join(dir, b))),
{
    law_entry_of_directory(dir, a);
    law_entry_of_directory(dir, b);
    law_join_is_under(join(dir, a), rest);
    let last = components(dir).len() as int;
    let other = components(join(dir, b));
    let one = components(join(dir, a));
    let below = components(join(join(dir, a), rest));
    law_under_means_every_component(below, one);
    law_under_means_every_component(one, other);
    law_under_means_every_component(below, other);
    assert(one[last] == a && other[last] == b);
    assert(below[last] == one[last]);
}

/// The contents of a list of components, and of a path, are its bytes.
pub proof fn law_path_contents(list: Seq<Vec<u8>>, path: FsPath, i: int)
    ensures
        view_components(list).len() == list.len(),
        0 <= i < list.len() ==> view_components(list)[i] == list[i]@,
        path@ == path.bytes@,
        path.parts() == components(path.bytes@),
{
}

} // verus!
