use std::io::Write;
use vintage_story_mod_loader::content_hash::hash_bytes;
use vintage_story_mod_loader::index::ModIndex;
use vintage_story_mod_loader::layout::{DirEntry, Location, ModsLayout};
use vintage_story_mod_loader::listing::{classify, empty_listing, enabled_at, ChildKind, ModLister};
use vintage_story_mod_loader::mod_manager::{read_modinfo, ModIndexEntry};

fn entry(hash: &str, modid: &str, path: &str) -> ModIndexEntry {
    let info = read_modinfo(&format!(
        "{{\"modid\":\"{}\",\"name\":\"Name of {}\",\"version\":\"3.1\",\"authors\":[\"me\"]}}",
        modid, modid
    ))
    .unwrap();
    let name = path.rsplit('/').next().unwrap().to_string();
    ModIndexEntry::from_manifest(hash.to_string(), &info, name, path.to_string())
}

fn child(name: &str, is_dir: bool) -> DirEntry {
    DirEntry { name: name.to_string(), is_dir }
}

#[test]
fn nonexistent_root_lists_nothing() {
    let listing = empty_listing(ModIndex::new());
    assert!(listing.mods.is_empty());
    assert!(!listing.persist);
    assert_eq!(listing.index.len(), 0);
    let fed_nothing = ModLister::new(ModsLayout::new("/mods", '/'), ModIndex::new(), false).finish();
    assert!(fed_nothing.mods.is_empty());
    assert!(!fed_nothing.persist);
}

#[test]
fn children_are_classified() {
    assert_eq!(classify(Location::Active, &child("disabled", true)), ChildKind::Skipped);
    assert_eq!(classify(Location::Active, &child("disabled", false)), ChildKind::Skipped);
    assert_eq!(classify(Location::Disabled, &child("disabled", true)), ChildKind::Directory);
    assert_eq!(classify(Location::Active, &child("mymod", true)), ChildKind::Directory);
    assert_eq!(classify(Location::Active, &child("a.zip", false)), ChildKind::Archive);
    assert_eq!(classify(Location::Active, &child("a.zip.disabled", false)), ChildKind::Skipped);
    assert_eq!(classify(Location::Disabled, &child("a.zip.disabled", false)), ChildKind::Archive);
    assert_eq!(classify(Location::Disabled, &child("a.zip", false)), ChildKind::Archive);
    assert_eq!(classify(Location::Active, &child(".zip", false)), ChildKind::Skipped);
    assert_eq!(classify(Location::Active, &child("notes.txt", false)), ChildKind::Skipped);
}

#[test]
fn enabled_goes_by_place_and_marker() {
    assert!(enabled_at(Location::Active, "mymod"));
    assert!(!enabled_at(Location::Active, "mymod.disabled"));
    assert!(!enabled_at(Location::Disabled, "mymod"));
}

#[test]
fn folders_are_mods_by_their_name() {
    let mut lister = ModLister::new(ModsLayout::new("/mods", '/'), ModIndex::new(), false);
    lister.add_directory(Location::Active, "plain", None);
    let info = read_modinfo(r#"{"modid":"x","name":"Fancy","version":"2.0","authors":[]}"#).unwrap();
    lister.add_directory(Location::Disabled, "fancy", Some(info));
    let listing = lister.finish();
    assert_eq!(listing.mods.len(), 2);
    let plain = &listing.mods[0];
    assert_eq!(plain.id, "plain");
    assert_eq!(plain.name, "plain");
    assert_eq!(plain.version, "unknown");
    assert_eq!(plain.path, "/mods/plain");
    assert!(plain.enabled);
    assert!(plain.info.is_none());
    assert!(!plain.is_zip);
    assert!(plain.status.is_none());
    let fancy = &listing.mods[1];
    assert_eq!(fancy.id, "fancy");
    assert_eq!(fancy.name, "Fancy");
    assert_eq!(fancy.version, "2.0");
    assert_eq!(fancy.path, "/mods/disabled/fancy");
    assert!(!fancy.enabled);
    assert_eq!(fancy.info.as_ref().unwrap().modid, "x");
    assert!(!listing.persist);
}

#[test]
fn new_archive_is_indexed_and_the_index_wants_writing() {
    let mut lister = ModLister::new(ModsLayout::new("/mods", '/'), ModIndex::new(), false);
    assert!(lister.needs_indexing(Location::Active, "a.zip", "h1"));
    lister.add_archive(Location::Active, "a.zip", "h1", Some(entry("h1", "alpha", "/mods/a.zip")));
    let listing = lister.finish();
    assert!(listing.persist);
    assert_eq!(listing.index.lookup("h1").unwrap().modid, "alpha");
    assert_eq!(listing.mods.len(), 1);
    let record = &listing.mods[0];
    assert_eq!(record.id, "alpha");
    assert_eq!(record.name, "Name of alpha");
    assert_eq!(record.version, "3.1");
    assert_eq!(record.path, "/mods/a.zip");
    assert!(record.enabled);
    assert!(record.is_zip);
    let info = record.info.as_ref().unwrap();
    assert_eq!(info.modid, "alpha");
    assert_eq!(info.authors, vec!["me".to_string()]);
    assert!(info.dependencies.is_none());
}

#[test]
fn fresh_entry_is_reused_without_writing() {
    let mut index = ModIndex::new();
    index.upsert("h1".to_string(), entry("h1", "alpha", "/mods/a.zip"));
    let mut lister = ModLister::new(ModsLayout::new("/mods", '/'), index, false);
    assert!(!lister.needs_indexing(Location::Active, "a.zip", "h1"));
    lister.add_archive(Location::Active, "a.zip", "h1", None);
    let listing = lister.finish();
    assert!(!listing.persist);
    assert_eq!(listing.mods.len(), 1);
    assert_eq!(listing.mods[0].id, "alpha");
}

#[test]
fn stale_path_or_forced_refresh_asks_for_the_archive() {
    let mut index = ModIndex::new();
    index.upsert("h1".to_string(), entry("h1", "alpha", "/mods/old-name.zip"));
    let lister = ModLister::new(ModsLayout::new("/mods", '/'), index, false);
    assert!(lister.needs_indexing(Location::Active, "a.zip", "h1"));
    assert!(!lister.needs_indexing(Location::Active, "old-name.zip", "h1"));
    assert!(lister.needs_indexing(Location::Disabled, "old-name.zip", "h1"));
    assert!(lister.needs_indexing(Location::Active, "old-name.zip", "other-hash"));

    let mut index = ModIndex::new();
    index.upsert("h1".to_string(), entry("h1", "alpha", "/mods/a.zip"));
    let mut forced = ModLister::new(ModsLayout::new("/mods", '/'), index, true);
    assert!(forced.needs_indexing(Location::Active, "a.zip", "h1"));
    forced.add_archive(Location::Active, "a.zip", "h1", Some(entry("h1", "beta", "/mods/a.zip")));
    let listing = forced.finish();
    assert!(listing.persist);
    assert_eq!(listing.mods[0].id, "beta");
    assert_eq!(listing.index.lookup("h1").unwrap().modid, "beta");
    assert_eq!(listing.index.len(), 1);
}

#[test]
fn archive_that_cannot_be_opened_is_passed_over() {
    let mut lister = ModLister::new(ModsLayout::new("/mods", '/'), ModIndex::new(), false);
    lister.add_directory(Location::Active, "first", None);
    lister.add_archive(Location::Active, "broken.zip", "h9", None);
    lister.add_archive(
        Location::Disabled,
        "b.zip.disabled",
        "h2",
        Some(entry("h2", "beta", "/mods/disabled/b.zip.disabled")),
    );
    let listing = lister.finish();
    assert_eq!(listing.mods.len(), 2);
    assert_eq!(listing.mods[0].id, "first");
    assert_eq!(listing.mods[1].id, "beta");
    assert!(!listing.mods[1].enabled);
    assert_eq!(listing.mods[1].path, "/mods/disabled/b.zip.disabled");
    assert!(listing.index.lookup("h9").is_none());
}

fn archive_of(descriptor: &str) -> Vec<u8> {
    let mut writer = zip::ZipWriter::new(std::io::Cursor::new(Vec::new()));
    writer.start_file("modinfo.json", zip::write::FileOptions::default()).unwrap();
    writer.write_all(descriptor.as_bytes()).unwrap();
    writer.finish().unwrap().into_inner()
}

#[test]
fn archives_are_listed_from_their_bytes() {
    let bytes = archive_of(r#"{"modid":"gamma","name":"Gamma","version":"0.5","authors":[]}"#);
    let hash = hash_bytes(&bytes);
    let mut lister = ModLister::new(ModsLayout::new("/mods", '/'), ModIndex::new(), false);
    lister.add_archive_bytes(Location::Active, "Gamma_0.5.zip", bytes.clone());
    lister.add_archive_bytes(Location::Active, "broken.zip", b"not an archive".to_vec());
    let first = lister.finish();
    assert!(first.persist);
    assert_eq!(first.mods.len(), 1);
    assert_eq!(first.mods[0].id, "gamma");
    assert_eq!(first.mods[0].path, "/mods/Gamma_0.5.zip");
    let remembered = first.index.lookup(&hash).unwrap();
    assert_eq!(remembered.file_name, "Gamma_0.5.zip");
    assert_eq!(remembered.file_path, "/mods/Gamma_0.5.zip");
    assert_eq!(remembered.hash, hash);

    let mut again = ModLister::new(ModsLayout::new("/mods", '/'), first.index, false);
    again.add_archive_bytes(Location::Active, "Gamma_0.5.zip", bytes.clone());
    let second = again.finish();
    assert!(!second.persist);
    assert_eq!(second.mods.len(), 1);

    let mut moved = ModLister::new(ModsLayout::new("/mods", '/'), second.index, false);
    moved.add_archive_bytes(Location::Disabled, "Gamma_0.5.zip.disabled", bytes);
    let third = moved.finish();
    assert!(third.persist);
    assert!(!third.mods[0].enabled);
    assert_eq!(third.index.len(), 1);
    assert_eq!(third.index.lookup(&hash).unwrap().file_path, "/mods/disabled/Gamma_0.5.zip.disabled");
}

#[test]
fn folders_are_listed_from_their_descriptor_text() {
    let mut lister = ModLister::new(ModsLayout::new("/mods", '/'), ModIndex::new(), false);
    lister.add_directory_with(
        Location::Active,
        "one",
        Some(r#"{"modid":"one","name":"The One","version":"1.1","authors":["a"]}"#),
    );
    lister.add_directory_with(Location::Active, "two", Some("{ broken"));
    lister.add_directory_with(Location::Active, "three", None);
    let listing = lister.finish();
    assert_eq!(listing.mods.len(), 3);
    assert_eq!(listing.mods[0].name, "The One");
    assert_eq!(listing.mods[0].version, "1.1");
    assert!(listing.mods[1].info.is_none());
    assert_eq!(listing.mods[1].name, "two");
    assert_eq!(listing.mods[1].version, "unknown");
    assert!(listing.mods[2].info.is_none());
}
