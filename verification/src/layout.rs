//! Where mods lie on disk. Active mods are the children of the mods root;
//! switched-off mods are the children of its `disabled` folder. Paths are
//! strings whose parts are joined by the platform's separator.

use vstd::prelude::*;
use crate::text::{chars_of, ends_with, has_prefix, has_suffix, owned, push_char, starts_with, str_eq};

verus! {

/// The two places in which a mod can lie.
#[derive(Debug, Clone, Copy, PartialEq, Eq, Structural)]
pub enum Location {
    /// Directly under the mods root.
    Active,
    /// Under the `disabled` folder of the mods root.
    Disabled,
}

/// The name of the folder that holds switched-off mods.
pub open spec fn disabled_folder() -> Seq<char> {
    "disabled"@
}

/// The marker that a switched-off archive carries at the end of its name.
pub open spec fn disabled_marker() -> Seq<char> {
    ".disabled"@
}

/// The ending of an archive's name.
pub open spec fn archive_ending() -> Seq<char> {
    ".zip"@
}

/// The folder `dir` as a prefix of the paths below it.
pub open spec fn dir_prefix(dir: Seq<char>, separator: char) -> Seq<char> {
    if dir.len() == 0 || dir.last() == separator {
        dir
    } else {
        dir.push(separator)
    }
}

/// The path of the child `name` of the folder `dir`.
pub open spec fn joined_path(dir: Seq<char>, separator: char, name: Seq<char>) -> Seq<char> {
    dir_prefix(dir, separator) + name
}

/// What `path` is called below the folder `dir`, where it lies below it.
pub open spec fn name_under(dir: Seq<char>, separator: char, path: Seq<char>) -> Option<
    Seq<char>,
> {
    if has_prefix(path, dir_prefix(dir, separator)) {
        Some(path.skip(dir_prefix(dir, separator).len() as int))
    } else {
        None
    }
}

/// A path below a folder has exactly one name there.
pub proof fn lemma_name_under_joined(dir: Seq<char>, separator: char, name: Seq<char>)
    ensures
        name_under(dir, separator, joined_path(dir, separator, name)) == Some(name),
{
    let prefix = dir_prefix(dir, separator);
    let path = joined_path(dir, separator, name);
    assert(path.take(prefix.len() as int) =~= prefix);
    assert(path.skip(prefix.len() as int) =~= name);
}

/// A name below a folder is the name of exactly one path.
pub proof fn lemma_joined_name_under(dir: Seq<char>, separator: char, path: Seq<char>)
    requires
        name_under(dir, separator, path) is Some,
    ensures
        joined_path(dir, separator, name_under(dir, separator, path)->0) == path,
{
    let prefix = dir_prefix(dir, separator);
    assert(path.take(prefix.len() as int) + path.skip(prefix.len() as int) =~= path);
}

/// The part of `path` after its last separator.
pub open spec fn last_part(path: Seq<char>, separator: char) -> Seq<char>
    decreases path.len(),
{
    if path.len() == 0 || path.last() == separator {
        Seq::empty()
    } else {
        last_part(path.drop_last(), separator).push(path.last())
    }
}

/// The file name that a path ends in; a path that ends in a separator, or
/// is empty, has none.
pub open spec fn file_name_of(path: Seq<char>, separator: char) -> Option<Seq<char>> {
    if last_part(path, separator).len() == 0 {
        None
    } else {
        Some(last_part(path, separator))
    }
}

/// `name` has the extension `extension`: it ends in a dot and the
/// extension, and something stands before the dot.
pub open spec fn has_extension(name: Seq<char>, extension: Seq<char>) -> bool {
    has_suffix(name, seq!['.'] + extension) && name.len() > extension.len() + 1
}

/// Joins a folder and the name of a child.
pub fn join_path(dir: &str, separator: char, name: &str) -> (path: String)
    ensures
        path@ == joined_path(dir@, separator, name@),
{
    let chars = chars_of(dir);
    let mut path = owned(dir);
    if chars.len() > 0 && chars[chars.len() - 1] != separator {
        push_char(&mut path, separator);
    }
    path.append(name);
    path
}

/// The name of `path` below `dir`, where it lies below it.
pub fn relative_name(dir: &str, separator: char, path: &str) -> (name: Option<String>)
    ensures
        name.deep_view() == name_under(dir@, separator, path@),
{
    let prefix = join_path(dir, separator, "");
    proof {
        reveal_strlit("");
        assert(prefix@ =~= dir_prefix(dir@, separator));
    }
    if starts_with(path, prefix.as_str()) {
        let from: usize = prefix.as_str().unicode_len();
        let to: usize = path.unicode_len();
        let rest = path.substring_char(from, to);
        assert(path@.subrange(from as int, to as int) =~= path@.skip(from as int));
        Some(owned(rest))
    } else {
        None
    }
}

/// The file name that `path` ends in.
pub fn file_name(path: &str, separator: char) -> (name: Option<String>)
    ensures
        name.deep_view() == file_name_of(path@, separator),
{
    let chars = chars_of(path);
    let mut start: usize = chars.len();
    assert(chars@.subrange(start as int, chars.len() as int) =~= Seq::<char>::empty());
    while start > 0 && chars[start - 1] != separator
        invariant
            start <= chars.len(),
            chars@ == path@,
            forall|k: int| start <= k < chars.len() ==> chars@[k] != separator,
        decreases start,
    {
        start -= 1;
    }
    proof {
        lemma_last_part(path@, separator, start as int);
    }
    if start == chars.len() {
        None
    } else {
        let rest = path.substring_char(start, chars.len());
        assert(path@.subrange(start as int, chars.len() as int) =~= path@.skip(start as int));
        Some(owned(rest))
    }
}

/// The last part of a path starts after the last separator.
proof fn lemma_last_part(path: Seq<char>, separator: char, start: int)
    requires
        0 <= start <= path.len(),
        forall|k: int| start <= k < path.len() ==> path[k] != separator,
        start > 0 ==> path[start - 1] == separator,
    ensures
        last_part(path, separator) == path.skip(start),
    decreases path.len(),
{
    if path.len() == 0 || start == path.len() {
        assert(path.skip(start) =~= Seq::<char>::empty());
    } else {
        lemma_last_part(path.drop_last(), separator, start);
        assert(path.drop_last().skip(start).push(path.last()) =~= path.skip(start));
    }
}

/// Whether `name` has the extension `extension`.
pub fn name_has_extension(name: &str, extension: &str) -> (r: bool)
    ensures
        r == has_extension(name@, extension@),
{
    let mut ending = owned("");
    proof {
        reveal_strlit("");
    }
    push_char(&mut ending, '.');
    ending.append(extension);
    assert(ending@ =~= seq!['.'] + extension@);
    let name_len: usize = name.unicode_len();
    let extension_len: usize = extension.unicode_len();
    let long_enough = name_len > extension_len && name_len - extension_len > 1;
    ends_with(name, ending.as_str()) && long_enough
}

/// The mods root of an installation and the separator of its paths.
#[derive(Debug)]
pub struct ModsLayout {
    pub root: String,
    pub separator: char,
}

impl ModsLayout {
    /// The path of the folder that holds switched-off mods.
    pub open spec fn disabled_dir(&self) -> Seq<char> {
        joined_path(self.root@, self.separator, disabled_folder())
    }

    /// The folder that stands for a location.
    pub open spec fn dir_of(&self, location: Location) -> Seq<char> {
        match location {
            Location::Active => self.root@,
            Location::Disabled => self.disabled_dir(),
        }
    }

    /// The path of the child `name` at a location.
    pub open spec fn path_of(&self, location: Location, name: Seq<char>) -> Seq<char> {
        joined_path(self.dir_of(location), self.separator, name)
    }

    /// What `path` is called at a location, where it lies there.
    pub open spec fn name_at(&self, location: Location, path: Seq<char>) -> Option<Seq<char>> {
        name_under(self.dir_of(location), self.separator, path)
    }

    /// A layout for the mods root `root`.
    pub fn new(root: &str, separator: char) -> (layout: ModsLayout)
        ensures
            layout.root@ == root@,
            layout.separator == separator,
    {
        ModsLayout { root: owned(root), separator }
    }

    /// The folder of a location.
    pub fn dir(&self, location: Location) -> (dir: String)
        ensures
            dir@ == self.dir_of(location),
    {
        match location {
            Location::Active => self.root.clone(),
            Location::Disabled => join_path(self.root.as_str(), self.separator, "disabled"),
        }
    }

    /// The path of the child `name` at a location.
    pub fn path(&self, location: Location, name: &str) -> (path: String)
        ensures
            path@ == self.path_of(location, name@),
    {
        let dir = self.dir(location);
        join_path(dir.as_str(), self.separator, name)
    }

    /// The name of `path` at a location, where it lies there.
    pub fn name_in(&self, location: Location, path: &str) -> (name: Option<String>)
        ensures
            name.deep_view() == self.name_at(location, path@),
    {
        let dir = self.dir(location);
        relative_name(dir.as_str(), self.separator, path)
    }
}

/// A child of a folder: its name, and whether it is a folder itself.
#[derive(Debug)]
pub struct DirEntry {
    pub name: String,
    pub is_dir: bool,
}

/// What a folder holds: for the name of each child, whether the child is
/// a folder itself.
pub type Children = Map<Seq<char>, bool>;

/// What a list of entries says a folder holds. Where a name comes twice
/// the later entry counts.
pub open spec fn children_of(entries: Seq<DirEntry>) -> Children
    decreases entries.len(),
{
    if entries.len() == 0 {
        Map::empty()
    } else {
        children_of(entries.drop_last()).insert(entries.last().name@, entries.last().is_dir)
    }
}

/// The kind of the child `name`, if the folder holds it.
pub open spec fn kind_in(children: Children, name: Seq<char>) -> Option<bool> {
    if children.contains_key(name) {
        Some(children[name])
    } else {
        None
    }
}

/// Looks a child up by name.
pub fn find_child(entries: &Vec<DirEntry>, name: &str) -> (r: Option<bool>)
    ensures
        r == kind_in(children_of(entries@), name@),
{
    let mut i: usize = entries.len();
    assert(entries@.take(i as int) =~= entries@);
    while i > 0
        invariant
            i <= entries.len(),
            kind_in(children_of(entries@), name@) == kind_in(
                children_of(entries@.take(i as int)),
                name@,
            ),
        decreases i,
    {
        proof {
            assert(entries@.take(i as int).drop_last() =~= entries@.take(i - 1));
        }
        i -= 1;
        if str_eq(entries[i].name.as_str(), name) {
            return Some(entries[i].is_dir);
        }
    }
    None
}

/// Takes the child `name` out of the list.
pub fn remove_child(entries: &mut Vec<DirEntry>, name: &str)
    ensures
        children_of(final(entries)@) == children_of(old(entries)@).remove(name@),
{
    let mut kept: Vec<DirEntry> = Vec::new();
    let mut i: usize = 0;
    assert(children_of(kept@) =~= children_of(entries@.take(0)).remove(name@));
    while i < entries.len()
        invariant
            i <= entries.len(),
            children_of(kept@) == children_of(entries@.take(i as int)).remove(name@),
        decreases entries.len() - i,
    {
        proof {
            assert(entries@.take(i + 1).drop_last() =~= entries@.take(i as int));
        }
        let ghost before = kept@;
        if !str_eq(entries[i].name.as_str(), name) {
            kept.push(DirEntry { name: entries[i].name.clone(), is_dir: entries[i].is_dir });
            proof {
                assert(kept@.drop_last() =~= before);
                assert(children_of(kept@) =~= children_of(entries@.take(i + 1)).remove(name@));
            }
        } else {
            proof {
                assert(children_of(kept@) =~= children_of(entries@.take(i + 1)).remove(name@));
            }
        }
        i += 1;
    }
    assert(entries@.take(entries.len() as int) =~= entries@);
    *entries = kept;
}

/// Puts the child `name` into the list, in place of a child of that name.
pub fn put_child(entries: &mut Vec<DirEntry>, name: &str, is_dir: bool)
    ensures
        children_of(final(entries)@) == children_of(old(entries)@).insert(name@, is_dir),
{
    let ghost before = entries@;
    entries.push(DirEntry { name: owned(name), is_dir });
    assert(entries@.drop_last() =~= before);
}

/// What the mods root and its `disabled` folder hold.
#[derive(Debug)]
pub struct ModsTree {
    pub active: Vec<DirEntry>,
    pub disabled: Vec<DirEntry>,
}

/// The contents of a [`ModsTree`].
pub struct TreeView {
    pub active: Children,
    pub disabled: Children,
}

impl TreeView {
    /// What lies at a location.
    pub open spec fn at(self, location: Location) -> Children {
        match location {
            Location::Active => self.active,
            Location::Disabled => self.disabled,
        }
    }

    /// The kind of the child `name` at a location, if it is there.
    pub open spec fn kind_at(self, location: Location, name: Seq<char>) -> Option<bool> {
        kind_in(self.at(location), name)
    }
}

impl View for ModsTree {
    type V = TreeView;

    open spec fn view(&self) -> TreeView {
        TreeView { active: children_of(self.active@), disabled: children_of(self.disabled@) }
    }
}

impl Location {
    /// The other location.
    pub open spec fn opposite(self) -> Location {
        match self {
            Location::Active => Location::Disabled,
            Location::Disabled => Location::Active,
        }
    }

    /// The other location.
    pub fn other(&self) -> (r: Location)
        ensures
            r == self.opposite(),
    {
        match self {
            Location::Active => Location::Disabled,
            Location::Disabled => Location::Active,
        }
    }
}

impl ModsTree {
    /// A tree with nothing in it.
    pub fn new() -> (tree: ModsTree)
        ensures
            tree@.active == Children::empty(),
            tree@.disabled == Children::empty(),
    {
        ModsTree { active: Vec::new(), disabled: Vec::new() }
    }

    /// The kind of the child `name` at a location, if it is there.
    pub fn kind(&self, location: Location, name: &str) -> (r: Option<bool>)
        ensures
            r == self@.kind_at(location, name@),
    {
        match location {
            Location::Active => find_child(&self.active, name),
            Location::Disabled => find_child(&self.disabled, name),
        }
    }

    /// Notes a child at a location.
    pub fn put(&mut self, location: Location, name: &str, is_dir: bool)
        ensures
            final(self)@.at(location) == old(self)@.at(location).insert(name@, is_dir),
            final(self)@.at(location.opposite()) == old(self)@.at(location.opposite()),
    {
        match location {
            Location::Active => put_child(&mut self.active, name, is_dir),
            Location::Disabled => put_child(&mut self.disabled, name, is_dir),
        }
    }

    /// Forgets a child at a location.
    pub fn remove(&mut self, location: Location, name: &str)
        ensures
            final(self)@.at(location) == old(self)@.at(location).remove(name@),
            final(self)@.at(location.opposite()) == old(self)@.at(location.opposite()),
    {
        match location {
            Location::Active => remove_child(&mut self.active, name),
            Location::Disabled => remove_child(&mut self.disabled, name),
        }
    }
}

} // verus!
