//! Listing installed mods. A listing walks the children of the mods root
//! and of its `disabled` folder: folders are mods by their name, archives
//! are mods by their descriptor. An archive is hashed on every pass, and is
//! opened only where the content index has no entry for its hash that
//! still points at the file.

use vstd::prelude::*;
use crate::index::{indexed, upserted, IndexView, ModIndex};
use crate::layout::{
    disabled_folder, disabled_marker, has_extension, name_has_extension, DirEntry, Location,
    ModsLayout,
};
use crate::content_hash::{content_hash, hash_bytes};
use crate::mod_manager::{
    descriptor_in, index_zip_mod, indexed_archive, manifest_in, read_modinfo, Mod, ModIndexEntry,
    ModIndexEntryView, ModInfo, ModInfoView, ModView,
};
use crate::text::{ends_with, has_suffix, owned, str_eq};

verus! {

/// What a child of the mods root or of the `disabled` folder is to a
/// listing.
#[derive(Debug, Clone, Copy, PartialEq, Eq, Structural)]
pub enum ChildKind {
    /// Not a mod.
    Skipped,
    /// A mod that lies unpacked in a folder.
    Directory,
    /// A mod that lies packed in an archive.
    Archive,
}

/// What a child is to a listing. The `disabled` folder itself is no mod;
/// a file is an archive by its extension, which is `zip`, or, among the
/// switched-off mods, also `disabled`.
pub open spec fn child_class(location: Location, name: Seq<char>, is_dir: bool) -> ChildKind {
    if location == Location::Active && name == disabled_folder() {
        ChildKind::Skipped
    } else if is_dir {
        ChildKind::Directory
    } else if has_extension(name, "zip"@) || (location == Location::Disabled && has_extension(
        name,
        "disabled"@,
    )) {
        ChildKind::Archive
    } else {
        ChildKind::Skipped
    }
}

/// A mod is enabled when it lies directly under the mods root and its name
/// does not end in the marker of a switched-off mod.
pub open spec fn is_enabled(location: Location, name: Seq<char>) -> bool {
    location == Location::Active && !has_suffix(name, disabled_marker())
}

/// The version shown for a mod that does not say which it has.
pub open spec fn unknown_version() -> Seq<char> {
    "unknown"@
}

/// The record of a mod that lies in the folder `name`. Its identifier is
/// the folder's name; name and version come from the descriptor where
/// there is one.
pub open spec fn directory_record(
    layout: ModsLayout,
    location: Location,
    name: Seq<char>,
    manifest: Option<ModInfoView>,
) -> ModView {
    ModView {
        id: name,
        name: match manifest {
            Some(info) => info.name,
            None => name,
        },
        version: match manifest {
            Some(info) => info.version,
            None => unknown_version(),
        },
        path: layout.path_of(location, name),
        enabled: is_enabled(location, name),
        info: manifest,
        is_zip: false,
        status: None,
    }
}

/// The record of a mod that lies in the archive `name`, by what the
/// content index remembers of the archive.
pub open spec fn archive_record(
    layout: ModsLayout,
    location: Location,
    name: Seq<char>,
    entry: ModIndexEntryView,
) -> ModView {
    ModView {
        id: entry.modid,
        name: entry.name,
        version: entry.version,
        path: layout.path_of(location, name),
        enabled: is_enabled(location, name),
        info: Some(manifest_in(entry)),
        is_zip: true,
        status: None,
    }
}

/// The entry that can stand for the archive at `path` with content hash
/// `hash` without the archive being opened: the one remembered under the
/// hash, where it still points at the path. A forced refresh trusts no
/// entry.
pub open spec fn reusable_entry(
    index: IndexView,
    force_refresh: bool,
    hash: Seq<char>,
    path: Seq<char>,
) -> Option<ModIndexEntryView> {
    match indexed(index, hash) {
        Some(entry) => if !force_refresh && entry.file_path == path {
            Some(entry)
        } else {
            None
        },
        None => None,
    }
}

/// Says what a child is to a listing.
pub fn classify(location: Location, entry: &DirEntry) -> (kind: ChildKind)
    ensures
        kind == child_class(location, entry.name@, entry.is_dir),
{
    let in_root = match location {
        Location::Active => true,
        Location::Disabled => false,
    };
    if in_root && str_eq(entry.name.as_str(), "disabled") {
        ChildKind::Skipped
    } else if entry.is_dir {
        ChildKind::Directory
    } else if name_has_extension(entry.name.as_str(), "zip") || (!in_root && name_has_extension(
        entry.name.as_str(),
        "disabled",
    )) {
        ChildKind::Archive
    } else {
        ChildKind::Skipped
    }
}

/// Whether a mod with this name at this location is enabled.
pub fn enabled_at(location: Location, name: &str) -> (r: bool)
    ensures
        r == is_enabled(location, name@),
{
    match location {
        Location::Active => !ends_with(name, ".disabled"),
        Location::Disabled => false,
    }
}

/// What a listing has come to when it is done.
#[derive(Debug)]
pub struct Listing {
    /// The mods found, in the order in which they were added.
    pub mods: Vec<Mod>,
    /// The content index after the pass.
    pub index: ModIndex,
    /// Whether the index has changed and wants to be written back.
    pub persist: bool,
}

/// A listing in the making. The caller walks the folders and feeds each
/// child; the lister decides what the child comes to.
#[derive(Debug)]
pub struct ModLister {
    pub layout: ModsLayout,
    pub index: ModIndex,
    pub force_refresh: bool,
    pub mods: Vec<Mod>,
    pub changed: bool,
}

impl ModLister {
    /// A listing that has found nothing yet.
    pub fn new(layout: ModsLayout, index: ModIndex, force_refresh: bool) -> (lister: ModLister)
        ensures
            lister.layout == layout,
            lister.index == index,
            lister.force_refresh == force_refresh,
            lister.mods.deep_view() == Seq::<ModView>::empty(),
            !lister.changed,
    {
        let mods: Vec<Mod> = Vec::new();
        assert(mods.deep_view() =~= Seq::<ModView>::empty());
        ModLister { layout, index, force_refresh, mods, changed: false }
    }

    /// Adds the mod that lies in the folder `name`. `manifest` is its
    /// descriptor, where the folder has one that can be read.
    pub fn add_directory(&mut self, location: Location, name: &str, manifest: Option<ModInfo>)
        ensures
            final(self).layout == old(self).layout,
            final(self).index == old(self).index,
            final(self).force_refresh == old(self).force_refresh,
            final(self).changed == old(self).changed,
            final(self).mods.deep_view() == old(self).mods.deep_view().push(
                directory_record(old(self).layout, location, name@, manifest.deep_view()),
            ),
    {
        let ghost before = self.mods.deep_view();
        let shown_name = match &manifest {
            Some(info) => info.name.clone(),
            None => owned(name),
        };
        let version = match &manifest {
            Some(info) => info.version.clone(),
            None => owned("unknown"),
        };
        let record = Mod {
            id: owned(name),
            name: shown_name,
            version,
            path: self.layout.path(location, name),
            enabled: enabled_at(location, name),
            info: manifest,
            is_zip: false,
            status: None,
        };
        let ghost shown = record.deep_view();
        self.mods.push(record);
        assert(self.mods.deep_view() =~= before.push(shown));
    }

    /// Whether the archive `name` with content hash `hash` has to be
    /// opened: it has to unless the index holds an entry that can stand
    /// for it.
    pub fn needs_indexing(&self, location: Location, name: &str, hash: &str) -> (r: bool)
        ensures
            r == reusable_entry(
                self.index@,
                self.force_refresh,
                hash@,
                self.layout.path_of(location, name@),
            ) is None,
    {
        match self.index.lookup(hash) {
            Some(entry) => {
                let path = self.layout.path(location, name);
                self.force_refresh || !(entry.file_path == path)
            },
            None => true,
        }
    }

    /// Adds the mod that lies in the archive `name` with content hash
    /// `hash`. Where the index holds an entry that can stand for the
    /// archive, the mod is listed by that entry and `indexed` is of no
    /// account. Else `indexed` is what opening the archive has given: the
    /// index takes it in under the hash and the mod is listed by it; an
    /// archive that could not be opened is passed over.
    pub fn add_archive(
        &mut self,
        location: Location,
        name: &str,
        hash: &str,
        indexed: Option<ModIndexEntry>,
    )
        ensures
            final(self).layout == old(self).layout,
            final(self).force_refresh == old(self).force_refresh,
            match reusable_entry(
                old(self).index@,
                old(self).force_refresh,
                hash@,
                old(self).layout.path_of(location, name@),
            ) {
                Some(entry) => {
                    &&& final(self).index@ == old(self).index@
                    &&& final(self).changed == old(self).changed
                    &&& final(self).mods.deep_view() == old(self).mods.deep_view().push(
                        archive_record(old(self).layout, location, name@, entry),
                    )
                },
                None => match indexed {
                    Some(entry) => {
                        &&& final(self).index@ == upserted(
                            old(self).index@,
                            hash@,
                            entry.deep_view(),
                        )
                        &&& final(self).changed
                        &&& final(self).mods.deep_view() == old(self).mods.deep_view().push(
                            archive_record(old(self).layout, location, name@, entry.deep_view()),
                        )
                    },
                    None => {
                        &&& final(self).index@ == old(self).index@
                        &&& final(self).changed == old(self).changed
                        &&& final(self).mods.deep_view() == old(self).mods.deep_view()
                    },
                },
            },
    {
        let ghost before = self.mods.deep_view();
        let path = self.layout.path(location, name);
        let enabled = enabled_at(location, name);
        let cached = match self.index.lookup(hash) {
            Some(entry) => {
                if !self.force_refresh && entry.file_path == path {
                    Some(entry.clone())
                } else {
                    None
                }
            },
            None => None,
        };
        let entry = match cached {
            Some(entry) => entry,
            None => match indexed {
                Some(entry) => {
                    self.index.upsert(owned(hash), entry.clone());
                    self.changed = true;
                    entry
                },
                None => {
                    return ;
                },
            },
        };
        let record = Mod {
            id: entry.modid.clone(),
            name: entry.name.clone(),
            version: entry.version.clone(),
            path,
            enabled,
            info: Some(entry.manifest()),
            is_zip: true,
            status: None,
        };
        let ghost shown = record.deep_view();
        self.mods.push(record);
        assert(self.mods.deep_view() =~= before.push(shown));
    }

    /// Adds the mod that lies in the folder `name`, given the text of the
    /// descriptor file in the folder, where there is one. A descriptor
    /// that cannot be read counts as not there.
    pub fn add_directory_with(&mut self, location: Location, name: &str, descriptor: Option<&str>)
        ensures
            final(self).layout == old(self).layout,
            final(self).index == old(self).index,
            final(self).force_refresh == old(self).force_refresh,
            final(self).changed == old(self).changed,
            final(self).mods.deep_view() == old(self).mods.deep_view().push(
                directory_record(
                    old(self).layout,
                    location,
                    name@,
                    match descriptor {
                        Some(content) => match descriptor_in(content@) {
                            Ok(info) => Some(info),
                            Err(_) => None,
                        },
                        None => None,
                    },
                ),
            ),
    {
        let manifest = match descriptor {
            Some(content) => match read_modinfo(content) {
                Ok(info) => Some(info),
                Err(_) => None,
            },
            None => None,
        };
        self.add_directory(location, name, manifest);
    }

    /// Adds the mod that lies in the archive `name` with these bytes. The
    /// bytes are hashed; the archive is looked into only where the index
    /// holds no entry that can stand for it, and one that cannot be
    /// indexed is passed over.
    pub fn add_archive_bytes(&mut self, location: Location, name: &str, bytes: Vec<u8>)
        ensures
            final(self).layout == old(self).layout,
            final(self).force_refresh == old(self).force_refresh,
            match reusable_entry(
                old(self).index@,
                old(self).force_refresh,
                content_hash(bytes@),
                old(self).layout.path_of(location, name@),
            ) {
                Some(entry) => {
                    &&& final(self).index@ == old(self).index@
                    &&& final(self).changed == old(self).changed
                    &&& final(self).mods.deep_view() == old(self).mods.deep_view().push(
                        archive_record(old(self).layout, location, name@, entry),
                    )
                },
                None => match indexed_archive(
                    old(self).layout.path_of(location, name@),
                    old(self).layout.separator,
                    bytes@,
                ) {
                    Ok(entry) => {
                        &&& final(self).index@ == upserted(
                            old(self).index@,
                            content_hash(bytes@),
                            entry,
                        )
                        &&& final(self).changed
                        &&& final(self).mods.deep_view() == old(self).mods.deep_view().push(
                            archive_record(old(self).layout, location, name@, entry),
                        )
                    },
                    Err(_) => {
                        &&& final(self).index@ == old(self).index@
                        &&& final(self).changed == old(self).changed
                        &&& final(self).mods.deep_view() == old(self).mods.deep_view()
                    },
                },
            },
    {
        let hash = hash_bytes(bytes.as_slice());
        let indexed = if self.needs_indexing(location, name, hash.as_str()) {
            let path = self.layout.path(location, name);
            match index_zip_mod(path.as_str(), self.layout.separator, bytes) {
                Ok(entry) => Some(entry),
                Err(_) => None,
            }
        } else {
            None
        };
        self.add_archive(location, name, hash.as_str(), indexed);
    }

    /// Ends the listing. The index wants to be written back exactly when
    /// the pass has put an entry into it.
    pub fn finish(self) -> (listing: Listing)
        ensures
            listing.mods == self.mods,
            listing.index == self.index,
            listing.persist == self.changed,
    {
        Listing { mods: self.mods, index: self.index, persist: self.changed }
    }
}

/// The listing of a mods root that is not there: no mods, the index as it
/// was, and nothing to write back.
pub fn empty_listing(index: ModIndex) -> (listing: Listing)
    ensures
        listing.mods.deep_view() == Seq::<ModView>::empty(),
        listing.index == index,
        !listing.persist,
{
    let mods: Vec<Mod> = Vec::new();
    assert(mods.deep_view() =~= Seq::<ModView>::empty());
    Listing { mods, index, persist: false }
}

} // verus!
