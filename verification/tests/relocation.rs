use vintage_story_mod_loader::index::ModIndex;
use vintage_story_mod_loader::layout::{DirEntry, Location, ModsLayout, ModsTree};
use vintage_story_mod_loader::mod_manager::ModIndexEntry;
use vintage_story_mod_loader::relocation::{
    commit_relocation, name_when_disabled, name_when_enabled, plan_disable, plan_enable,
};

fn entry(hash: &str, modid: &str, path: &str) -> ModIndexEntry {
    ModIndexEntry {
        hash: hash.to_string(),
        modid: modid.to_string(),
        name: modid.to_string(),
        version: "1.0".to_string(),
        description: None,
        authors: vec![],
        website: None,
        side: None,
        download_url: None,
        thumbnail_url: None,
        category: None,
        tags: vec![],
        file_name: path.rsplit('/').next().unwrap().to_string(),
        file_path: path.to_string(),
    }
}

fn child(name: &str, is_dir: bool) -> DirEntry {
    DirEntry { name: name.to_string(), is_dir }
}

fn layout() -> ModsLayout {
    ModsLayout::new("/mods", '/')
}

#[test]
fn names_gain_and_lose_the_marker() {
    assert_eq!(name_when_disabled("Foo-1.0.zip"), "Foo-1.0.zip.disabled");
    assert_eq!(name_when_enabled("Foo-1.0.zip.disabled"), "Foo-1.0.zip");
    assert_eq!(name_when_enabled("foo.disabled"), "foo");
    assert_eq!(name_when_enabled("foo.disabled.disabled"), "foo");
    assert_eq!(name_when_enabled("foo"), "foo.zip");
    assert_eq!(name_when_enabled("foo.zip"), "foo.zip");
}

#[test]
fn disabling_and_enabling_an_indexed_archive_returns_it() {
    let layout = layout();
    let mut index = ModIndex::new();
    index.upsert("h1".to_string(), entry("h1", "foo", "/mods/Foo-1.0.zip"));
    let mut tree = ModsTree { active: vec![child("Foo-1.0.zip", false)], disabled: vec![] };

    let off = plan_disable(&layout, &index, &tree, "foo").expect("the mod is on");
    assert_eq!(off.source, "/mods/Foo-1.0.zip");
    assert_eq!(off.target, "/mods/disabled/Foo-1.0.zip.disabled");
    assert_eq!(off.from, Location::Active);
    assert_eq!(off.index_key, Some("h1".to_string()));
    assert!(!off.rehash);
    assert!(!off.is_dir);
    commit_relocation(&mut index, &mut tree, &off, None);
    assert_eq!(tree.kind(Location::Active, "Foo-1.0.zip"), None);
    assert_eq!(tree.kind(Location::Disabled, "Foo-1.0.zip.disabled"), Some(false));
    let moved = index.lookup("h1").unwrap();
    assert_eq!(moved.file_path, "/mods/disabled/Foo-1.0.zip.disabled");
    assert_eq!(moved.file_name, "Foo-1.0.zip.disabled");
    assert_eq!(moved.hash, "h1");

    assert!(plan_disable(&layout, &index, &tree, "foo").is_none());

    let on = plan_enable(&layout, &index, &tree, "foo").expect("the mod is off");
    assert_eq!(on.source, "/mods/disabled/Foo-1.0.zip.disabled");
    assert_eq!(on.target, "/mods/Foo-1.0.zip");
    assert_eq!(on.index_key, Some("h1".to_string()));
    commit_relocation(&mut index, &mut tree, &on, None);
    assert_eq!(tree.kind(Location::Active, "Foo-1.0.zip"), Some(false));
    assert_eq!(tree.kind(Location::Disabled, "Foo-1.0.zip.disabled"), None);
    let back = index.lookup("h1").unwrap();
    assert_eq!(back.file_path, "/mods/Foo-1.0.zip");
    assert_eq!(back.file_name, "Foo-1.0.zip");
    assert_eq!(back.hash, "h1");

    assert!(plan_enable(&layout, &index, &tree, "foo").is_none());
}

#[test]
fn enabling_and_disabling_an_indexed_archive_returns_it() {
    let layout = layout();
    let mut index = ModIndex::new();
    index.upsert("h1".to_string(), entry("h1", "foo", "/mods/disabled/foo.zip.disabled"));
    let mut tree = ModsTree { active: vec![], disabled: vec![child("foo.zip.disabled", false)] };
    let on = plan_enable(&layout, &index, &tree, "foo").unwrap();
    assert_eq!(on.target, "/mods/foo.zip");
    commit_relocation(&mut index, &mut tree, &on, None);
    let off = plan_disable(&layout, &index, &tree, "foo").unwrap();
    assert_eq!(off.source, "/mods/foo.zip");
    assert_eq!(off.target, "/mods/disabled/foo.zip.disabled");
    commit_relocation(&mut index, &mut tree, &off, None);
    assert_eq!(index.lookup("h1").unwrap().file_path, "/mods/disabled/foo.zip.disabled");
    assert_eq!(tree.kind(Location::Disabled, "foo.zip.disabled"), Some(false));
    assert_eq!(tree.kind(Location::Active, "foo.zip"), None);
}

#[test]
fn a_mod_in_the_wanted_state_gives_no_plan() {
    let layout = layout();
    let mut index = ModIndex::new();
    index.upsert("h1".to_string(), entry("h1", "foo", "/mods/foo.zip"));
    let tree = ModsTree { active: vec![child("foo.zip", false), child("bar", true)], disabled: vec![] };
    assert!(plan_enable(&layout, &index, &tree, "foo").is_none());
    assert!(plan_enable(&layout, &index, &tree, "bar").is_none());
    assert!(plan_enable(&layout, &index, &tree, "unknown").is_none());
    assert!(plan_disable(&layout, &index, &tree, "unknown").is_none());
}

#[test]
fn folders_move_without_a_marker() {
    let layout = layout();
    let mut index = ModIndex::new();
    let mut tree = ModsTree { active: vec![child("bar", true)], disabled: vec![] };
    let off = plan_disable(&layout, &index, &tree, "bar").unwrap();
    assert_eq!(off.source, "/mods/bar");
    assert_eq!(off.target, "/mods/disabled/bar");
    assert!(off.is_dir);
    assert_eq!(off.index_key, None);
    assert!(!off.rehash);
    commit_relocation(&mut index, &mut tree, &off, None);
    assert_eq!(tree.kind(Location::Disabled, "bar"), Some(true));
    let on = plan_enable(&layout, &index, &tree, "bar").unwrap();
    assert_eq!(on.source, "/mods/disabled/bar");
    assert_eq!(on.target, "/mods/bar");
    commit_relocation(&mut index, &mut tree, &on, None);
    assert_eq!(tree.kind(Location::Active, "bar"), Some(true));
    assert_eq!(tree.kind(Location::Disabled, "bar"), None);
    assert_eq!(index.len(), 0);
}

#[test]
fn archives_found_by_name_are_followed_by_their_hash() {
    let layout = layout();
    let mut index = ModIndex::new();
    index.upsert("h7".to_string(), entry("h7", "other-id", "/somewhere/else.zip"));
    let mut tree = ModsTree { active: vec![child("baz.zip", false)], disabled: vec![] };
    let off = plan_disable(&layout, &index, &tree, "baz").unwrap();
    assert_eq!(off.source, "/mods/baz.zip");
    assert_eq!(off.target, "/mods/disabled/baz.zip.disabled");
    assert_eq!(off.index_key, None);
    assert!(off.rehash);
    commit_relocation(&mut index, &mut tree, &off, Some("h7".to_string()));
    assert_eq!(index.lookup("h7").unwrap().file_path, "/mods/disabled/baz.zip.disabled");
    assert_eq!(index.lookup("h7").unwrap().file_name, "baz.zip.disabled");

    let on = plan_enable(&layout, &index, &tree, "baz").unwrap();
    assert_eq!(on.source, "/mods/disabled/baz.zip.disabled");
    assert_eq!(on.target, "/mods/baz.zip");
    assert!(on.rehash);
    commit_relocation(&mut index, &mut tree, &on, None);
    assert_eq!(index.lookup("h7").unwrap().file_path, "/mods/disabled/baz.zip.disabled");
    assert_eq!(tree.kind(Location::Active, "baz.zip"), Some(false));
}

#[test]
fn switched_off_archives_are_found_under_every_customary_name() {
    let layout = layout();
    let index = ModIndex::new();
    let plain = ModsTree { active: vec![], disabled: vec![child("q.zip", false)] };
    let on = plan_enable(&layout, &index, &plain, "q").unwrap();
    assert_eq!((on.source.as_str(), on.target.as_str()), ("/mods/disabled/q.zip", "/mods/q.zip"));
    let marked = ModsTree { active: vec![], disabled: vec![child("q.disabled", false)] };
    let on = plan_enable(&layout, &index, &marked, "q").unwrap();
    assert_eq!(
        (on.source.as_str(), on.target.as_str()),
        ("/mods/disabled/q.disabled", "/mods/q.zip")
    );
    let folder_first = ModsTree {
        active: vec![],
        disabled: vec![child("q.zip", false), child("q", true)],
    };
    let on = plan_enable(&layout, &index, &folder_first, "q").unwrap();
    assert_eq!(on.source, "/mods/disabled/q");
    assert!(on.is_dir);
}

#[test]
fn the_index_is_asked_before_the_names() {
    let layout = layout();
    let mut index = ModIndex::new();
    index.upsert("h1".to_string(), entry("h1", "foo", "/mods/Foo-release.zip"));
    let tree = ModsTree {
        active: vec![child("foo", true), child("Foo-release.zip", false)],
        disabled: vec![],
    };
    let off = plan_disable(&layout, &index, &tree, "foo").unwrap();
    assert_eq!(off.source, "/mods/Foo-release.zip");
    assert_eq!(off.index_key, Some("h1".to_string()));
}

#[test]
fn an_index_entry_whose_file_is_gone_does_not_count() {
    let layout = layout();
    let mut index = ModIndex::new();
    index.upsert("h1".to_string(), entry("h1", "foo", "/mods/foo-old.zip"));
    let tree = ModsTree { active: vec![], disabled: vec![] };
    assert!(plan_disable(&layout, &index, &tree, "foo").is_none());
}
