use vintage_story_mod_loader::index::ModIndex;
use vintage_story_mod_loader::layout::{DirEntry, Location, ModsLayout, ModsTree};
use vintage_story_mod_loader::mod_pack::{ModPack, ModPackMetadata, ModPackMod};
use vintage_story_mod_loader::mod_pack_manager::{
    contains_text, mods_to_disable, mods_to_enable, pack_file_name, pack_holds, pack_info,
    packs_hold, ModPackState,
};
use vintage_story_mod_loader::relocation::{commit_relocation, plan_disable, plan_enable};

fn pack(name: &str, mods: &[&str]) -> ModPack {
    ModPack {
        name: name.to_string(),
        version: "1.0".to_string(),
        description: "d".to_string(),
        mods: mods
            .iter()
            .map(|id| ModPackMod {
                id: id.to_string(),
                version: "1.0".to_string(),
                url: None,
                hash: None,
            })
            .collect(),
        metadata: ModPackMetadata::empty(),
    }
}

fn switch_on(layout: &ModsLayout, index: &mut ModIndex, tree: &mut ModsTree, ids: &[String]) -> usize {
    let mut moved = 0;
    for id in ids {
        if let Some(plan) = plan_enable(layout, index, tree, id) {
            commit_relocation(index, tree, &plan, None);
            moved += 1;
        }
    }
    moved
}

fn switch_off(layout: &ModsLayout, index: &mut ModIndex, tree: &mut ModsTree, ids: &[String]) -> usize {
    let mut moved = 0;
    for id in ids {
        if let Some(plan) = plan_disable(layout, index, tree, id) {
            commit_relocation(index, tree, &plan, None);
            moved += 1;
        }
    }
    moved
}

fn sorted(mut ids: Vec<String>) -> Vec<String> {
    ids.sort();
    ids
}

fn all_off() -> ModsTree {
    ModsTree {
        active: vec![],
        disabled: vec![
            DirEntry { name: "X".to_string(), is_dir: true },
            DirEntry { name: "Y".to_string(), is_dir: true },
            DirEntry { name: "Z".to_string(), is_dir: true },
        ],
    }
}

#[test]
fn packs_that_share_a_mod() {
    let layout = ModsLayout::new("/mods", '/');
    let mut index = ModIndex::new();
    let mut tree = all_off();
    let mut state = ModPackState::new();
    let a = pack("A", &["X", "Y"]);
    let b = pack("B", &["Y", "Z"]);

    let ids = mods_to_enable(&vec![], &a);
    assert_eq!(sorted(ids.clone()), vec!["X".to_string(), "Y".to_string()]);
    switch_on(&layout, &mut index, &mut tree, &ids);
    state.insert("/packs/A.json");

    let ids = mods_to_enable(&vec![a.clone()], &b);
    assert_eq!(sorted(ids.clone()), vec!["X".to_string(), "Y".to_string(), "Z".to_string()]);
    switch_on(&layout, &mut index, &mut tree, &ids);
    state.insert("/packs/B.json");
    for id in ["X", "Y", "Z"] {
        assert_eq!(tree.kind(Location::Active, id), Some(true));
        assert_eq!(tree.kind(Location::Disabled, id), None);
    }

    state.remove("/packs/A.json");
    assert!(!state.is_enabled("/packs/A.json"));
    assert!(state.is_enabled("/packs/B.json"));
    let ids = mods_to_disable(&vec![b.clone()], &a);
    assert_eq!(ids, vec!["X".to_string()]);
    switch_off(&layout, &mut index, &mut tree, &ids);
    assert_eq!(tree.kind(Location::Active, "X"), None);
    assert_eq!(tree.kind(Location::Disabled, "X"), Some(true));
    assert_eq!(tree.kind(Location::Active, "Y"), Some(true));
    assert_eq!(tree.kind(Location::Active, "Z"), Some(true));

    state.remove("/packs/B.json");
    let ids = mods_to_disable(&vec![], &b);
    assert_eq!(ids, vec!["Y".to_string(), "Z".to_string()]);
    switch_off(&layout, &mut index, &mut tree, &ids);
    for id in ["X", "Y", "Z"] {
        assert_eq!(tree.kind(Location::Active, id), None);
    }
}

#[test]
fn switching_a_pack_twice_changes_nothing_the_second_time() {
    let layout = ModsLayout::new("/mods", '/');
    let mut index = ModIndex::new();
    let mut tree = all_off();
    let mut state = ModPackState::new();
    let a = pack("A", &["X", "Y"]);

    let ids = mods_to_enable(&vec![], &a);
    assert_eq!(switch_on(&layout, &mut index, &mut tree, &ids), 2);
    state.insert("/packs/A.json");
    let again = mods_to_enable(&vec![a.clone()], &a);
    assert_eq!(sorted(again.clone()), sorted(ids));
    assert_eq!(switch_on(&layout, &mut index, &mut tree, &again), 0);
    state.insert("/packs/A.json");
    assert_eq!(state.enabled_packs, vec!["/packs/A.json".to_string()]);

    state.remove("/packs/A.json");
    let ids = mods_to_disable(&vec![], &a);
    assert_eq!(switch_off(&layout, &mut index, &mut tree, &ids), 2);
    state.remove("/packs/A.json");
    let again = mods_to_disable(&vec![], &a);
    assert_eq!(again, ids);
    assert_eq!(switch_off(&layout, &mut index, &mut tree, &again), 0);
    assert!(state.enabled_packs.is_empty());
    assert_eq!(tree.kind(Location::Disabled, "X"), Some(true));
    assert_eq!(tree.kind(Location::Disabled, "Y"), Some(true));
    assert_eq!(tree.kind(Location::Disabled, "Z"), Some(true));
}

#[test]
fn union_lists_each_mod_once() {
    let a = pack("A", &["X", "Y", "X"]);
    let b = pack("B", &["Y", "Z"]);
    let ids = mods_to_enable(&vec![a, b], &pack("C", &["Z", "W"]));
    assert_eq!(ids.len(), 4);
    assert_eq!(sorted(ids), vec!["W".to_string(), "X".to_string(), "Y".to_string(), "Z".to_string()]);
    assert!(mods_to_enable(&vec![], &pack("E", &[])).is_empty());
}

#[test]
fn membership() {
    let a = pack("A", &["X", "Y"]);
    assert!(pack_holds(&a, "X"));
    assert!(!pack_holds(&a, "x"));
    assert!(packs_hold(&vec![pack("B", &[]), a], "Y"));
    assert!(!packs_hold(&vec![], "Y"));
    assert!(contains_text(&vec!["a".to_string()], "a"));
    assert!(!contains_text(&vec!["a".to_string()], "b"));
}

#[test]
fn state_is_a_set_of_paths() {
    let mut state = ModPackState::new();
    assert!(!state.is_enabled("p"));
    state.insert("p");
    state.insert("q");
    state.insert("p");
    assert_eq!(state.enabled_packs.len(), 2);
    state.remove("p");
    assert!(!state.is_enabled("p"));
    assert!(state.is_enabled("q"));
    state.remove("missing");
    assert_eq!(state.enabled_packs, vec!["q".to_string()]);
}

#[test]
fn pack_as_listed() {
    let mut state = ModPackState::new();
    state.insert("/packs/A.json");
    let info = pack_info(&pack("A", &["X", "Y"]), "/packs/A.json", &state);
    assert_eq!(info.name, "A");
    assert_eq!(info.version, "1.0");
    assert_eq!(info.description, "d");
    assert_eq!(info.mod_count, 2);
    assert_eq!(info.path, "/packs/A.json");
    assert!(info.enabled);
    assert_eq!(info.mod_ids, vec!["X".to_string(), "Y".to_string()]);
    assert!(!pack_info(&pack("B", &[]), "/packs/B.json", &state).enabled);
}

#[test]
fn pack_file_names_are_safe() {
    assert_eq!(pack_file_name("My Pack!"), "My_Pack_.json");
    assert_eq!(pack_file_name("a-b_c9"), "a-b_c9.json");
    assert_eq!(pack_file_name("../etc/passwd"), "___etc_passwd.json");
    assert_eq!(pack_file_name("Größe"), "Größe.json");
    assert_eq!(pack_file_name(""), ".json");
}
