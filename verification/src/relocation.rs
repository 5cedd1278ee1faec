//! Switching mods on and off. A mod is switched off by moving it into the
//! `disabled` folder and on by moving it back; an archive gets the
//! `.disabled` marker at the end of its name on the way out and loses it on
//! the way back. The content index follows an archive to its new place.
//!
//! Nothing here touches the disk. A plan says which move to make; the
//! caller makes it and, where it went well, commits the plan to the
//! snapshot of the folders and to the index. A mod that is already where
//! it is wanted gives no plan.

use vstd::prelude::*;
use crate::index::{
    indexed, keys_distinct, lemma_distinct_slot, moved_entry, relocated, IndexView, ModIndex,
};
use crate::layout::{
    archive_ending, disabled_marker, lemma_joined_name_under, lemma_name_under_joined,
    Location, ModsLayout, ModsTree, TreeView,
};
use crate::text::{catenate, ends_with, has_suffix, owned, str_eq, strip_trailing, without_trailing};

verus! {

/// One move of a mod between the mods root and the `disabled` folder.
#[derive(Debug)]
pub struct Relocation {
    /// The path that the mod lies at.
    pub source: String,
    /// The path that the mod is to lie at.
    pub target: String,
    /// The location that the mod leaves.
    pub from: Location,
    /// What the mod is called where it lies.
    pub source_name: String,
    /// What the mod is to be called where it goes.
    pub target_name: String,
    /// Whether the mod is a folder.
    pub is_dir: bool,
    /// The content hash under which the index remembers the mod, where the
    /// mod was found through the index.
    pub index_key: Option<String>,
    /// Whether the moved file is an archive that was found by its name
    /// alone, so that only its content hash can tell whether the index
    /// remembers it.
    pub rehash: bool,
}

/// The contents of a [`Relocation`].
pub struct RelocationView {
    pub source: Seq<char>,
    pub target: Seq<char>,
    pub from: Location,
    pub source_name: Seq<char>,
    pub target_name: Seq<char>,
    pub is_dir: bool,
    pub index_key: Option<Seq<char>>,
    pub rehash: bool,
}

impl DeepView for Relocation {
    type V = RelocationView;

    open spec fn deep_view(&self) -> RelocationView {
        RelocationView {
            source: self.source@,
            target: self.target@,
            from: self.from,
            source_name: self.source_name@,
            target_name: self.target_name@,
            is_dir: self.is_dir,
            index_key: self.index_key.deep_view(),
            rehash: self.rehash,
        }
    }
}

/// The move of the child `source_name` at `from` to the other location,
/// where it is to be called `target_name`.
pub open spec fn move_of(
    layout: ModsLayout,
    from: Location,
    source_name: Seq<char>,
    target_name: Seq<char>,
    is_dir: bool,
    index_key: Option<Seq<char>>,
    rehash: bool,
) -> RelocationView {
    RelocationView {
        source: layout.path_of(from, source_name),
        target: layout.path_of(from.opposite(), target_name),
        from,
        source_name,
        target_name,
        is_dir,
        index_key,
        rehash,
    }
}

/// What a switched-off archive called `name` is called when it is switched
/// on: the name without its markers; a name that bears neither a marker
/// nor the ending of an archive gets that ending.
pub open spec fn enabled_name(name: Seq<char>) -> Seq<char> {
    if has_suffix(name, disabled_marker()) {
        without_trailing(name, disabled_marker())
    } else if !has_suffix(name, archive_ending()) {
        name + archive_ending()
    } else {
        name
    }
}

/// What an archive called `name` is called when it is switched off: the
/// name with the marker at its end.
pub open spec fn disabled_name(name: Seq<char>) -> Seq<char> {
    name + disabled_marker()
}

/// The file at `path` is a child at `location` that the tree knows.
pub open spec fn lies_at(layout: ModsLayout, tree: TreeView, location: Location, path: Seq<char>) -> bool {
    match layout.name_at(location, path) {
        Some(name) => tree.kind_at(location, name) is Some,
        None => false,
    }
}

/// Slot `i` of the index remembers an archive of the mod `id` that lies at
/// `location`.
pub open spec fn is_candidate(
    layout: ModsLayout,
    index: IndexView,
    tree: TreeView,
    location: Location,
    id: Seq<char>,
    i: int,
) -> bool {
    0 <= i < index.len() && index[i].1.modid == id && lies_at(
        layout,
        tree,
        location,
        index[i].1.file_path,
    )
}

/// The first slot from `from` on that remembers an archive of the mod `id`
/// lying at `location`.
pub open spec fn first_slot(
    layout: ModsLayout,
    index: IndexView,
    tree: TreeView,
    location: Location,
    id: Seq<char>,
    from: int,
) -> Option<int>
    decreases index.len() - from,
{
    if from < 0 || from >= index.len() {
        None
    } else if is_candidate(layout, index, tree, location, id, from) {
        Some(from)
    } else {
        first_slot(layout, index, tree, location, id, from + 1)
    }
}

/// What an archive called `name` is called after it has left `location`.
pub open spec fn renamed(location: Location, name: Seq<char>) -> Seq<char> {
    match location {
        Location::Active => disabled_name(name),
        Location::Disabled => enabled_name(name),
    }
}

/// The move that switches the archive in slot `i` over from `location`.
pub open spec fn slot_move(
    layout: ModsLayout,
    index: IndexView,
    tree: TreeView,
    location: Location,
    i: int,
) -> RelocationView {
    let name = layout.name_at(location, index[i].1.file_path)->0;
    move_of(
        layout,
        location,
        name,
        renamed(location, name),
        tree.kind_at(location, name)->0,
        Some(index[i].0),
        false,
    )
}

/// The move that switches on a mod which the index does not know to be
/// switched off, by the names under which such a mod can lie in the
/// `disabled` folder: a folder called like the mod, or a file called like
/// the mod with the ending of an archive, with ending and marker, or with
/// the marker alone.
pub open spec fn enable_by_name(layout: ModsLayout, tree: TreeView, id: Seq<char>) -> Option<
    RelocationView,
> {
    let from = Location::Disabled;
    let archive = id + archive_ending();
    if tree.kind_at(from, id) == Some(true) {
        Some(move_of(layout, from, id, id, true, None, false))
    } else if tree.kind_at(from, archive) is Some {
        Some(move_of(layout, from, archive, archive, tree.kind_at(from, archive)->0, None, true))
    } else if tree.kind_at(from, disabled_name(archive)) is Some {
        Some(
            move_of(
                layout,
                from,
                disabled_name(archive),
                archive,
                tree.kind_at(from, disabled_name(archive))->0,
                None,
                true,
            ),
        )
    } else if tree.kind_at(from, disabled_name(id)) is Some {
        Some(
            move_of(
                layout,
                from,
                disabled_name(id),
                archive,
                tree.kind_at(from, disabled_name(id))->0,
                None,
                true,
            ),
        )
    } else {
        None
    }
}

/// The move that switches off a mod which the index does not know to be
/// switched on: a folder called like the mod, or a file called like the
/// mod with the ending of an archive.
pub open spec fn disable_by_name(layout: ModsLayout, tree: TreeView, id: Seq<char>) -> Option<
    RelocationView,
> {
    let from = Location::Active;
    let archive = id + archive_ending();
    if tree.kind_at(from, id) == Some(true) {
        Some(move_of(layout, from, id, id, true, None, false))
    } else if tree.kind_at(from, archive) is Some {
        Some(
            move_of(
                layout,
                from,
                archive,
                disabled_name(archive),
                tree.kind_at(from, archive)->0,
                None,
                true,
            ),
        )
    } else {
        None
    }
}

/// The move that takes the mod `id` out of `location`, if the mod lies
/// there: the archive that the index remembers first for the mod, and
/// else what lies there under the mod's name.
pub open spec fn plan_from(
    layout: ModsLayout,
    index: IndexView,
    tree: TreeView,
    location: Location,
    id: Seq<char>,
) -> Option<RelocationView> {
    match first_slot(layout, index, tree, location, id, 0) {
        Some(i) => Some(slot_move(layout, index, tree, location, i)),
        None => match location {
            Location::Active => disable_by_name(layout, tree, id),
            Location::Disabled => enable_by_name(layout, tree, id),
        },
    }
}

/// The move that switches the mod `id` on; none where the mod is not
/// switched off.
pub open spec fn enable_plan(layout: ModsLayout, index: IndexView, tree: TreeView, id: Seq<char>) -> Option<
    RelocationView,
> {
    plan_from(layout, index, tree, Location::Disabled, id)
}

/// The move that switches the mod `id` off; none where the mod is not
/// switched on.
pub open spec fn disable_plan(layout: ModsLayout, index: IndexView, tree: TreeView, id: Seq<char>) -> Option<
    RelocationView,
> {
    plan_from(layout, index, tree, Location::Active, id)
}

/// The folders after a move was made.
pub open spec fn tree_after(tree: TreeView, plan: RelocationView) -> TreeView {
    match plan.from {
        Location::Active => TreeView {
            active: tree.active.remove(plan.source_name),
            disabled: tree.disabled.insert(plan.target_name, plan.is_dir),
        },
        Location::Disabled => TreeView {
            active: tree.active.insert(plan.target_name, plan.is_dir),
            disabled: tree.disabled.remove(plan.source_name),
        },
    }
}

/// The index after a move was made. Where the mod was found through the
/// index, its entry follows it. Where an archive was found by its name,
/// the entry under the content hash of the moved file follows it, if the
/// file was hashed and the index has such an entry.
pub open spec fn index_after(index: IndexView, plan: RelocationView, moved_hash: Option<Seq<char>>) -> IndexView {
    match plan.index_key {
        Some(key) => relocated(index, key, plan.target, plan.target_name),
        None => match moved_hash {
            Some(hash) => if plan.rehash {
                relocated(index, hash, plan.target, plan.target_name)
            } else {
                index
            },
            None => index,
        },
    }
}

/// What a switched-off archive is called when it is switched on.
pub fn name_when_enabled(name: &str) -> (r: String)
    ensures
        r@ == enabled_name(name@),
{
    if ends_with(name, ".disabled") {
        strip_trailing(name, ".disabled")
    } else if !ends_with(name, ".zip") {
        catenate(name, ".zip")
    } else {
        owned(name)
    }
}

/// What an archive is called when it is switched off.
pub fn name_when_disabled(name: &str) -> (r: String)
    ensures
        r@ == disabled_name(name@),
{
    catenate(name, ".disabled")
}

fn make_move(
    layout: &ModsLayout,
    from: Location,
    source_name: String,
    target_name: String,
    is_dir: bool,
    index_key: Option<String>,
    rehash: bool,
) -> (plan: Relocation)
    ensures
        plan.deep_view() == move_of(
            *layout,
            from,
            source_name@,
            target_name@,
            is_dir,
            index_key.deep_view(),
            rehash,
        ),
{
    Relocation {
        source: layout.path(from, source_name.as_str()),
        target: layout.path(from.other(), target_name.as_str()),
        from,
        source_name,
        target_name,
        is_dir,
        index_key,
        rehash,
    }
}

fn plan_by_slot(layout: &ModsLayout, index: &ModIndex, tree: &ModsTree, from: Location, mod_id: &str) -> (r:
    Option<Relocation>)
    ensures
        match first_slot(*layout, index@, tree@, from, mod_id@, 0) {
            Some(i) => r.deep_view() == Some(slot_move(*layout, index@, tree@, from, i)),
            None => r is None,
        },
{
    let slots: usize = index.len();
    let mut i: usize = 0;
    loop
        invariant
            slots == index@.len(),
            i <= slots,
            first_slot(*layout, index@, tree@, from, mod_id@, 0) == first_slot(
                *layout,
                index@,
                tree@,
                from,
                mod_id@,
                i as int,
            ),
        decreases slots - i,
    {
        let (key, entry) = match index.slot(i) {
            Some(slot) => slot,
            None => {
                return None;
            },
        };
        if str_eq(entry.modid.as_str(), mod_id) {
            match layout.name_in(from, entry.file_path.as_str()) {
                Some(name) => match tree.kind(from, name.as_str()) {
                    Some(is_dir) => {
                        let target_name = match from {
                            Location::Active => name_when_disabled(name.as_str()),
                            Location::Disabled => name_when_enabled(name.as_str()),
                        };
                        return Some(
                            make_move(
                                layout,
                                from,
                                name,
                                target_name,
                                is_dir,
                                Some(key.clone()),
                                false,
                            ),
                        );
                    },
                    None => {},
                },
                None => {},
            }
        }
        i += 1;
    }
}

fn plan_enable_by_name(layout: &ModsLayout, tree: &ModsTree, mod_id: &str) -> (r: Option<Relocation>)
    ensures
        r.deep_view() == enable_by_name(*layout, tree@, mod_id@),
{
    let from = Location::Disabled;
    let archive = catenate(mod_id, ".zip");
    match tree.kind(from, mod_id) {
        Some(true) => {
            return Some(make_move(layout, from, owned(mod_id), owned(mod_id), true, None, false));
        },
        _ => {},
    }
    match tree.kind(from, archive.as_str()) {
        Some(is_dir) => {
            let target = archive.clone();
            return Some(make_move(layout, from, archive, target, is_dir, None, true));
        },
        None => {},
    }
    let marked_archive = name_when_disabled(archive.as_str());
    match tree.kind(from, marked_archive.as_str()) {
        Some(is_dir) => {
            return Some(make_move(layout, from, marked_archive, archive, is_dir, None, true));
        },
        None => {},
    }
    let marked = name_when_disabled(mod_id);
    match tree.kind(from, marked.as_str()) {
        Some(is_dir) => Some(make_move(layout, from, marked, archive, is_dir, None, true)),
        None => None,
    }
}

fn plan_disable_by_name(layout: &ModsLayout, tree: &ModsTree, mod_id: &str) -> (r: Option<Relocation>)
    ensures
        r.deep_view() == disable_by_name(*layout, tree@, mod_id@),
{
    let from = Location::Active;
    match tree.kind(from, mod_id) {
        Some(true) => {
            return Some(make_move(layout, from, owned(mod_id), owned(mod_id), true, None, false));
        },
        _ => {},
    }
    let archive = catenate(mod_id, ".zip");
    match tree.kind(from, archive.as_str()) {
        Some(is_dir) => {
            let target = name_when_disabled(archive.as_str());
            Some(make_move(layout, from, archive, target, is_dir, None, true))
        },
        None => None,
    }
}

/// Plans the move that switches the mod `mod_id` on. There is none where
/// the mod is not switched off: switching on a mod that is on does
/// nothing.
pub fn plan_enable(layout: &ModsLayout, index: &ModIndex, tree: &ModsTree, mod_id: &str) -> (r: Option<
    Relocation,
>)
    ensures
        r.deep_view() == enable_plan(*layout, index@, tree@, mod_id@),
{
    match plan_by_slot(layout, index, tree, Location::Disabled, mod_id) {
        Some(plan) => Some(plan),
        None => plan_enable_by_name(layout, tree, mod_id),
    }
}

/// Plans the move that switches the mod `mod_id` off. There is none where
/// the mod is not switched on: switching off a mod that is off does
/// nothing.
pub fn plan_disable(layout: &ModsLayout, index: &ModIndex, tree: &ModsTree, mod_id: &str) -> (r: Option<
    Relocation,
>)
    ensures
        r.deep_view() == disable_plan(*layout, index@, tree@, mod_id@),
{
    match plan_by_slot(layout, index, tree, Location::Active, mod_id) {
        Some(plan) => Some(plan),
        None => plan_disable_by_name(layout, tree, mod_id),
    }
}

/// Takes a move that was made into the snapshot of the folders and into
/// the index. `moved_hash` is the content hash of the moved file where
/// the plan asked for it and the file could be hashed.
pub fn commit_relocation(
    index: &mut ModIndex,
    tree: &mut ModsTree,
    plan: &Relocation,
    moved_hash: Option<String>,
)
    ensures
        final(index)@ == index_after(old(index)@, plan.deep_view(), moved_hash.deep_view()),
        final(tree)@ == tree_after(old(tree)@, plan.deep_view()),
{
    let ghost before = tree@;
    tree.remove(plan.from, plan.source_name.as_str());
    tree.put(plan.from.other(), plan.target_name.as_str(), plan.is_dir);
    proof {
        let after = tree_after(before, plan.deep_view());
        assert(tree@.active == after.active);
        assert(tree@.disabled == after.disabled);
    }
    match &plan.index_key {
        Some(key) => {
            index.relocate(key.as_str(), plan.target.clone(), plan.target_name.clone());
        },
        None => {
            match moved_hash {
                Some(hash) => {
                    if plan.rehash {
                        index.relocate(
                            hash.as_str(),
                            plan.target.clone(),
                            plan.target_name.clone(),
                        );
                    }
                },
                None => {},
            }
        },
    }
}


/// The first slot found is a slot that remembers the mod at the location,
/// and no slot before it does; where none is found, no slot does.
pub proof fn lemma_first_slot(
    layout: ModsLayout,
    index: IndexView,
    tree: TreeView,
    location: Location,
    id: Seq<char>,
    from: int,
)
    requires
        0 <= from,
    ensures
        match first_slot(layout, index, tree, location, id, from) {
            Some(k) => from <= k && is_candidate(layout, index, tree, location, id, k) && forall|
                j: int,
            |
                from <= j < k ==> !is_candidate(layout, index, tree, location, id, j),
            None => forall|j: int|
                from <= j < index.len() ==> !is_candidate(layout, index, tree, location, id, j),
        },
    decreases index.len() - from,
{
    if from < index.len() && !is_candidate(layout, index, tree, location, id, from) {
        lemma_first_slot(layout, index, tree, location, id, from + 1);
    }
}

/// A slot that remembers the mod at the location, with no such slot
/// before it, is the first slot found.
pub proof fn lemma_first_slot_is(
    layout: ModsLayout,
    index: IndexView,
    tree: TreeView,
    location: Location,
    id: Seq<char>,
    from: int,
    k: int,
)
    requires
        0 <= from <= k,
        is_candidate(layout, index, tree, location, id, k),
        forall|j: int| from <= j < k ==> !is_candidate(layout, index, tree, location, id, j),
    ensures
        first_slot(layout, index, tree, location, id, from) == Some(k),
    decreases k - from,
{
    if from < k {
        lemma_first_slot_is(layout, index, tree, location, id, from + 1, k);
    }
}

/// The mod `id` lies at `location` under its own name, in one of the
/// forms that are looked for there.
pub open spec fn lies_by_name(layout: ModsLayout, tree: TreeView, location: Location, id: Seq<char>) -> bool {
    match location {
        Location::Active => disable_by_name(layout, tree, id) is Some,
        Location::Disabled => enable_by_name(layout, tree, id) is Some,
    }
}

/// A move is planned exactly when the mod lies at the location it is to
/// leave: when the index remembers an archive of it there, or it lies
/// there under its own name. For a mod that is already in the wanted state
/// nothing is planned, so that asking again changes nothing.
pub proof fn lemma_planned_iff_there(
    layout: ModsLayout,
    index: IndexView,
    tree: TreeView,
    location: Location,
    id: Seq<char>,
)
    ensures
        plan_from(layout, index, tree, location, id) is Some <==> ((exists|i: int|
            is_candidate(layout, index, tree, location, id, i)) || lies_by_name(
            layout,
            tree,
            location,
            id,
        )),
{
    lemma_first_slot(layout, index, tree, location, id, 0);
}

/// The marker has nine characters.
proof fn lemma_marker()
    ensures
        disabled_marker().len() == 9,
{
    reveal_strlit(".disabled");
}

/// A name that bears no marker gets one when its archive is switched off
/// and is itself again when the archive is switched back on.
pub proof fn lemma_name_off_and_on(name: Seq<char>)
    requires
        !has_suffix(name, disabled_marker()),
    ensures
        enabled_name(disabled_name(name)) == name,
{
    lemma_marker();
    let marker = disabled_marker();
    let marked = name + marker;
    assert(marked.skip(marked.len() - marker.len()) =~= marker);
    assert(marked.take(marked.len() - marker.len()) =~= name);
    assert(without_trailing(marked, marker) == without_trailing(name, marker));
}

/// A name that consists of a marked name's stem and one marker is itself
/// again after its archive was switched on and off.
pub proof fn lemma_name_on_and_off(name: Seq<char>)
    requires
        has_suffix(name, disabled_marker()),
        name == without_trailing(name, disabled_marker()) + disabled_marker(),
    ensures
        disabled_name(enabled_name(name)) == name,
{
}

/// The state after a mod was switched over and back, as far as the mod's
/// archive in slot `k` is concerned.
pub open spec fn there_and_back(
    layout: ModsLayout,
    index: IndexView,
    tree: TreeView,
    location: Location,
    id: Seq<char>,
    k: int,
) -> bool {
    let name = layout.name_at(location, index[k].1.file_path)->0;
    let there = plan_from(layout, index, tree, location, id);
    let index1 = index_after(index, there->0, None);
    let tree1 = tree_after(tree, there->0);
    let back = plan_from(layout, index1, tree1, location.opposite(), id);
    let index2 = index_after(index1, back->0, None);
    let tree2 = tree_after(tree1, back->0);
    &&& there is Some
    &&& back is Some
    &&& there->0.source == index[k].1.file_path
    &&& there->0.index_key == Some(index[k].0)
    &&& back->0.index_key == Some(index[k].0)
    &&& back->0.source == there->0.target
    &&& back->0.target == index[k].1.file_path
    &&& index2 == index.update(
        k,
        (index[k].0, moved_entry(index[k].1, index[k].1.file_path, name)),
    )
    &&& indexed(index2, index[k].0) == Some(
        moved_entry(index[k].1, index[k].1.file_path, name),
    )
    &&& tree2.at(location) == tree.at(location)
    &&& tree2.at(location.opposite()) == tree.at(location.opposite()).remove(
        renamed(location, name),
    )
}

proof fn lemma_there_and_back(
    layout: ModsLayout,
    index: IndexView,
    tree: TreeView,
    location: Location,
    id: Seq<char>,
    k: int,
)
    requires
        keys_distinct(index),
        first_slot(layout, index, tree, location, id, 0) == Some(k),
        forall|j: int| 0 <= j < index.len() && j != k ==> index[j].1.modid != id,
        renamed(
            location.opposite(),
            renamed(location, layout.name_at(location, index[k].1.file_path)->0),
        ) == layout.name_at(location, index[k].1.file_path)->0,
    ensures
        there_and_back(layout, index, tree, location, id, k),
{
    let other = location.opposite();
    lemma_first_slot(layout, index, tree, location, id, 0);
    let key = index[k].0;
    let entry = index[k].1;
    let name = layout.name_at(location, entry.file_path)->0;
    let kind = tree.kind_at(location, name)->0;
    let there = slot_move(layout, index, tree, location, k);
    assert(plan_from(layout, index, tree, location, id) == Some(there));
    lemma_joined_name_under(layout.dir_of(location), layout.separator, entry.file_path);
    assert(there.source == entry.file_path);

    let away = renamed(location, name);
    let entry1 = moved_entry(entry, there.target, away);
    lemma_distinct_slot(index, k, entry1);
    let index1 = index_after(index, there, None);
    assert(index1 == index.update(k, (key, entry1)));
    let tree1 = tree_after(tree, there);
    assert(tree1.at(other) == tree.at(other).insert(away, kind));
    assert(tree1.at(location) == tree.at(location).remove(name));

    lemma_name_under_joined(layout.dir_of(other), layout.separator, away);
    assert(layout.name_at(other, entry1.file_path) == Some(away));
    assert(tree1.kind_at(other, away) == Some(kind));
    assert(is_candidate(layout, index1, tree1, other, id, k));
    assert forall|j: int| 0 <= j < k implies !is_candidate(layout, index1, tree1, other, id, j) by {
        assert(index1[j] == index[j]);
    }
    lemma_first_slot_is(layout, index1, tree1, other, id, 0, k);
    let back = slot_move(layout, index1, tree1, other, k);
    assert(plan_from(layout, index1, tree1, other, id) == Some(back));
    assert(back.source_name == away);
    assert(back.target_name == name);
    assert(back.target == layout.path_of(location, name));
    assert(back.target == entry.file_path);

    let entry2 = moved_entry(entry1, back.target, name);
    lemma_distinct_slot(index1, k, entry2);
    let index2 = index_after(index1, back, None);
    assert(index2 == index1.update(k, (key, entry2)));
    assert(entry2 == moved_entry(entry, entry.file_path, name));
    assert(index2 =~= index.update(k, (key, entry2)));
    lemma_distinct_slot(index, k, entry2);
    lemma_distinct_slot(index.update(k, (key, entry2)), k, entry2);

    let tree2 = tree_after(tree1, back);
    assert(tree2.at(location) =~= tree.at(location));
    assert(tree2.at(other) =~= tree.at(other).remove(away));
}

/// Switching an archive off and on again brings it back to where it lay,
/// with the same content hash in the index: the second move undoes the
/// first, and the index entry points at the old path again.
///
/// This is stated for an archive of a mod that the index remembers once,
/// in an index without repeated hashes, and whose name does not already
/// end in the marker.
pub proof fn lemma_disable_then_enable(
    layout: ModsLayout,
    index: IndexView,
    tree: TreeView,
    id: Seq<char>,
    k: int,
)
    requires
        keys_distinct(index),
        first_slot(layout, index, tree, Location::Active, id, 0) == Some(k),
        forall|j: int| 0 <= j < index.len() && j != k ==> index[j].1.modid != id,
        !has_suffix(
            layout.name_at(Location::Active, index[k].1.file_path)->0,
            disabled_marker(),
        ),
    ensures
        there_and_back(layout, index, tree, Location::Active, id, k),
{
    lemma_name_off_and_on(layout.name_at(Location::Active, index[k].1.file_path)->0);
    lemma_there_and_back(layout, index, tree, Location::Active, id, k);
}

/// Switching a switched-off archive on and off again brings it back to
/// where it lay, with the same content hash in the index.
///
/// This is stated for an archive of a mod that the index remembers once,
/// in an index without repeated hashes, and whose name ends in exactly one
/// marker.
pub proof fn lemma_enable_then_disable(
    layout: ModsLayout,
    index: IndexView,
    tree: TreeView,
    id: Seq<char>,
    k: int,
)
    requires
        keys_distinct(index),
        first_slot(layout, index, tree, Location::Disabled, id, 0) == Some(k),
        forall|j: int| 0 <= j < index.len() && j != k ==> index[j].1.modid != id,
        has_suffix(
            layout.name_at(Location::Disabled, index[k].1.file_path)->0,
            disabled_marker(),
        ),
        layout.name_at(Location::Disabled, index[k].1.file_path)->0 == without_trailing(
            layout.name_at(Location::Disabled, index[k].1.file_path)->0,
            disabled_marker(),
        ) + disabled_marker(),
    ensures
        there_and_back(layout, index, tree, Location::Disabled, id, k),
{
    lemma_name_on_and_off(layout.name_at(Location::Disabled, index[k].1.file_path)->0);
    lemma_there_and_back(layout, index, tree, Location::Disabled, id, k);
}

/// Switching a mod that lies in a folder over and back brings the folder
/// back to where it lay and leaves the index alone.
///
/// This is stated for a mod of which the index remembers no archive.
pub proof fn lemma_folder_there_and_back(
    layout: ModsLayout,
    index: IndexView,
    tree: TreeView,
    location: Location,
    id: Seq<char>,
)
    requires
        forall|j: int| 0 <= j < index.len() ==> index[j].1.modid != id,
        tree.kind_at(location, id) == Some(true),
    ensures
        ({
            let there = plan_from(layout, index, tree, location, id);
            let tree1 = tree_after(tree, there->0);
            let back = plan_from(layout, index, tree1, location.opposite(), id);
            let tree2 = tree_after(tree1, back->0);
            &&& there is Some
            &&& back is Some
            &&& index_after(index, there->0, None) == index
            &&& index_after(index, back->0, None) == index
            &&& there->0.source == layout.path_of(location, id)
            &&& back->0.source == there->0.target
            &&& back->0.target == there->0.source
            &&& tree2.at(location) == tree.at(location)
            &&& tree2.at(location.opposite()) == tree.at(location.opposite()).remove(id)
        }),
{
    let other = location.opposite();
    lemma_first_slot(layout, index, tree, location, id, 0);
    let there = move_of(layout, location, id, id, true, None, false);
    assert(plan_from(layout, index, tree, location, id) == Some(there));
    let tree1 = tree_after(tree, there);
    assert(tree1.kind_at(other, id) == Some(true));
    lemma_first_slot(layout, index, tree1, other, id, 0);
    let back = move_of(layout, other, id, id, true, None, false);
    assert(plan_from(layout, index, tree1, other, id) == Some(back));
    let tree2 = tree_after(tree1, back);
    assert(tree2.at(location) =~= tree.at(location));
    assert(tree2.at(other) =~= tree.at(other).remove(id));
}


/// Once an archive was switched over, asking for the same switch again
/// plans nothing: the second call changes neither the folders nor the
/// index.
///
/// This is stated for an archive of a mod that the index remembers once,
/// in an index without repeated hashes, where the archive's new place is
/// not at the same time a child of the place it left, and nothing else
/// lies at that place under the mod's name.
pub proof fn lemma_switched_archive_stays(
    layout: ModsLayout,
    index: IndexView,
    tree: TreeView,
    location: Location,
    id: Seq<char>,
    k: int,
)
    requires
        keys_distinct(index),
        first_slot(layout, index, tree, location, id, 0) == Some(k),
        forall|j: int| 0 <= j < index.len() && j != k ==> index[j].1.modid != id,
        !lies_at(
            layout,
            tree_after(tree, slot_move(layout, index, tree, location, k)),
            location,
            slot_move(layout, index, tree, location, k).target,
        ),
        !lies_by_name(
            layout,
            tree_after(tree, slot_move(layout, index, tree, location, k)),
            location,
            id,
        ),
    ensures
        plan_from(layout, index, tree, location, id) == Some(
            slot_move(layout, index, tree, location, k),
        ),
        plan_from(
            layout,
            index_after(index, slot_move(layout, index, tree, location, k), None),
            tree_after(tree, slot_move(layout, index, tree, location, k)),
            location,
            id,
        ) is None,
{
    lemma_first_slot(layout, index, tree, location, id, 0);
    let there = slot_move(layout, index, tree, location, k);
    let entry1 = moved_entry(index[k].1, there.target, there.target_name);
    lemma_distinct_slot(index, k, entry1);
    let index1 = index_after(index, there, None);
    let tree1 = tree_after(tree, there);
    assert(index1 == index.update(k, (index[k].0, entry1)));
    assert forall|j: int| 0 <= j < index1.len() implies !is_candidate(
        layout,
        index1,
        tree1,
        location,
        id,
        j,
    ) by {
        if j != k {
            assert(index1[j] == index[j]);
        }
    }
    lemma_first_slot(layout, index1, tree1, location, id, 0);
}

/// Once a mod that lies in a folder was switched over, asking for the
/// same switch again plans nothing.
///
/// This is stated for a mod of which the index remembers no archive, and
/// of which nothing else lies at the place it left.
pub proof fn lemma_switched_folder_stays(
    layout: ModsLayout,
    index: IndexView,
    tree: TreeView,
    location: Location,
    id: Seq<char>,
)
    requires
        forall|j: int| 0 <= j < index.len() ==> index[j].1.modid != id,
        tree.kind_at(location, id) == Some(true),
        !lies_by_name(
            layout,
            tree_after(tree, move_of(layout, location, id, id, true, None, false)),
            location,
            id,
        ),
    ensures
        plan_from(layout, index, tree, location, id) == Some(
            move_of(layout, location, id, id, true, None, false),
        ),
        plan_from(
            layout,
            index_after(index, move_of(layout, location, id, id, true, None, false), None),
            tree_after(tree, move_of(layout, location, id, id, true, None, false)),
            location,
            id,
        ) is None,
{
    lemma_first_slot(layout, index, tree, location, id, 0);
    let there = move_of(layout, location, id, id, true, None, false);
    lemma_first_slot(layout, index, tree_after(tree, there), location, id, 0);
}

} // verus!
