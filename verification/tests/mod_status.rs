use vintage_story_mod_loader::json::parse_json;
use vintage_story_mod_loader::mod_manager::{read_modinfo, Mod, ModInfo};
use vintage_story_mod_loader::mod_status::{
    catalog_latest_version, check_all_mods_status, check_mod_status_internal, compare_versions,
    find_mod, install_failure, install_plan, is_base_game_mod, latest_version, mod_api_url,
    parse_dependencies, update_wanted, InstallReason, InstallStage, InstallStep, ModDependency,
    ModStatus, OutdatedDependency, StatusError, UpdateError,
};

fn manifest(modid: &str, version: &str, dependencies: &str) -> ModInfo {
    read_modinfo(&format!(
        "{{\"modid\":\"{}\",\"name\":\"{}\",\"version\":\"{}\",\"authors\":[],\"dependencies\":{}}}",
        modid, modid, version, dependencies
    ))
    .unwrap()
}

fn installed(id: &str, info: Option<ModInfo>) -> Mod {
    Mod {
        id: id.to_string(),
        name: id.to_string(),
        version: info.as_ref().map(|i| i.version.clone()).unwrap_or("unknown".to_string()),
        path: format!("/mods/{}", id),
        enabled: true,
        info,
        is_zip: false,
        status: None,
    }
}

fn pairs(deps: &[ModDependency]) -> Vec<(String, Option<String>)> {
    deps.iter().map(|d| (d.modid.clone(), d.version.clone())).collect()
}

fn triples(deps: &[OutdatedDependency]) -> Vec<(String, String, String)> {
    deps.iter().map(|d| (d.modid.clone(), d.required.clone(), d.installed.clone())).collect()
}

#[test]
fn test_check_mod_status_with_invalid_mod_id() {
    let result = check_mod_status_internal("nonexistent-mod-id", &vec![], None);
    assert!(result.is_err());
    let error_msg = result.unwrap_err().message();
    assert!(error_msg.contains("not found") || error_msg.contains("Failed"));
}

#[test]
fn test_check_mod_status_when_modinfo_missing() {
    let mods = vec![installed("test-mod", None)];
    let result = check_mod_status_internal("test-mod", &mods, None);
    assert!(result.is_err());
    match result.unwrap_err() {
        StatusError::NoManifest(id) => assert_eq!(id, "test-mod"),
        other => panic!("unexpected: {:?}", other),
    }
}

#[test]
fn test_check_mod_status_with_malformed_dependencies() {
    let mods = vec![installed("test-mod", Some(manifest("test-mod", "1.0", "\"not a list\"")))];
    let result = check_mod_status_internal("test-mod", &mods, None);
    assert!(result.is_ok() || result.is_err());
    let status = result.unwrap();
    assert!(status.missing_dependencies.is_empty());
    assert!(status.outdated_dependencies.is_empty());
}

#[test]
fn status_errors_in_words() {
    assert_eq!(StatusError::NotFound("x".to_string()).message(), "Mod x not found");
    assert_eq!(StatusError::NoManifest("x".to_string()).message(), "Mod x has no modinfo");
    assert_eq!(UpdateError::AlreadyUpToDate.message(), "Mod is already up to date");
}

#[test]
fn one_missing_dependency_from_a_table() {
    let mods = vec![installed("main", Some(manifest("main", "1.0", r#"{"foo":"1.2.0"}"#)))];
    let status = check_mod_status_internal("main", &mods, None).unwrap();
    assert_eq!(
        pairs(&status.missing_dependencies),
        vec![("foo".to_string(), Some("1.2.0".to_string()))]
    );
    assert!(status.outdated_dependencies.is_empty());
    assert!(!status.has_update);
    assert_eq!(status.latest_version, None);
}

#[test]
fn base_game_is_never_reported() {
    let listed = r#"["game", "Survival", {"modid": "CREATIVE", "version": "9.9"}, "real"]"#;
    let mods = vec![installed("main", Some(manifest("main", "1.0", listed)))];
    let status = check_mod_status_internal("main", &mods, None).unwrap();
    assert_eq!(pairs(&status.missing_dependencies), vec![("real".to_string(), None)]);
    assert!(status.outdated_dependencies.is_empty());

    let table = r#"{"game": "1.19.0", "survival": "*", "creative": ""}"#;
    let mods = vec![
        installed("main", Some(manifest("main", "1.0", table))),
        installed("game", Some(manifest("game", "0.1", "null"))),
    ];
    let status = check_mod_status_internal("main", &mods, None).unwrap();
    assert!(status.missing_dependencies.is_empty());
    assert!(status.outdated_dependencies.is_empty());
}

#[test]
fn base_game_names() {
    assert!(is_base_game_mod("game"));
    assert!(is_base_game_mod("Survival"));
    assert!(is_base_game_mod("CREATIVE"));
    assert!(!is_base_game_mod("games"));
    assert!(!is_base_game_mod(""));
    assert!(!is_base_game_mod("mygame"));
}

#[test]
fn versions_compare_as_text() {
    assert!(compare_versions("1.2.0", "1.2.0"));
    assert!(compare_versions("1.3.0", "1.2.0"));
    assert!(!compare_versions("1.1.9", "1.2.0"));
    assert!(compare_versions("2.0", "10.0"));
    assert!(!compare_versions("10.0", "2.0"));
    assert!(!compare_versions("1.2", "1.2.0"));
    assert!(compare_versions("1.2.0", "1.2"));
}

#[test]
fn dependency_shapes() {
    let ids = parse_dependencies(&parse_json(r#"["a", "b"]"#).unwrap());
    assert_eq!(pairs(&ids), vec![("a".to_string(), None), ("b".to_string(), None)]);
    let objects = parse_dependencies(
        &parse_json(
            r#"[{"modid":"a","version":"1.0"}, {"modid":"b"}, {"version":"2"}, {"modid":7},
                {"modid":"c","version":3}, 12, null, ["nested"]]"#,
        )
        .unwrap(),
    );
    assert_eq!(
        pairs(&objects),
        vec![
            ("a".to_string(), Some("1.0".to_string())),
            ("b".to_string(), None),
            ("c".to_string(), None)
        ]
    );
    let table = parse_dependencies(&parse_json(r#"{"a":"1.0","b":2,"c":null}"#).unwrap());
    assert_eq!(
        pairs(&table),
        vec![
            ("a".to_string(), Some("1.0".to_string())),
            ("b".to_string(), None),
            ("c".to_string(), None)
        ]
    );
    for odd in ["null", "true", "12", "\"text\""] {
        assert!(parse_dependencies(&parse_json(odd).unwrap()).is_empty());
    }
}

#[test]
fn outdated_and_missing_are_told_apart() {
    let declared = r#"{"old":"2.0.0","fine":"1.0.0","gone":"1.0.0","bare":"1.0.0","any":null}"#;
    let mods = vec![
        installed("main", Some(manifest("main", "1.0", declared))),
        installed("old", Some(manifest("old", "1.9.9", "null"))),
        installed("fine", Some(manifest("fine", "1.0.0", "null"))),
        installed("bare", None),
        installed("any", Some(manifest("any", "0.0.1", "null"))),
    ];
    let status = check_mod_status_internal("main", &mods, None).unwrap();
    assert_eq!(
        pairs(&status.missing_dependencies),
        vec![("gone".to_string(), Some("1.0.0".to_string()))]
    );
    assert_eq!(
        triples(&status.outdated_dependencies),
        vec![("old".to_string(), "2.0.0".to_string(), "1.9.9".to_string())]
    );
}

#[test]
fn update_is_on_offer_when_versions_differ() {
    let mods = vec![installed("main", Some(manifest("main", "1.0.0", "null")))];
    let same = check_mod_status_internal("main", &mods, Some("1.0.0".to_string())).unwrap();
    assert!(!same.has_update);
    assert_eq!(same.latest_version, Some("1.0.0".to_string()));
    let newer = check_mod_status_internal("main", &mods, Some("1.1.0".to_string())).unwrap();
    assert!(newer.has_update);
    assert_eq!(newer.latest_version, Some("1.1.0".to_string()));
    let older = check_mod_status_internal("main", &mods, Some("0.9".to_string())).unwrap();
    assert!(older.has_update);
    let unknown = check_mod_status_internal("main", &mods, None).unwrap();
    assert!(!unknown.has_update);
    assert!(update_wanted(&newer).is_ok());
    assert_eq!(update_wanted(&same), Err(UpdateError::AlreadyUpToDate));
}

#[test]
fn the_first_record_of_an_identifier_counts() {
    let mods = vec![installed("a", None), installed("a", Some(manifest("a", "1", "null")))];
    assert!(find_mod(&mods, "a").unwrap().info.is_none());
    assert!(find_mod(&mods, "b").is_none());
    assert!(matches!(check_mod_status_internal("a", &mods, None), Err(StatusError::NoManifest(_))));
}

#[test]
fn catalog_answers() {
    let answer = r#"{"statuscode":"200","mod":{"releases":[{"version":"1.4.2"},{"version":"1.4.1"}]}}"#;
    assert_eq!(catalog_latest_version(answer), Some("1.4.2".to_string()));
    assert_eq!(latest_version(&parse_json(answer).unwrap()), Some("1.4.2".to_string()));
    assert_eq!(catalog_latest_version(r#"{"mod":{"releases":[]}}"#), None);
    assert_eq!(catalog_latest_version(r#"{"mod":null}"#), None);
    assert_eq!(catalog_latest_version(r#"{"statuscode":"404"}"#), None);
    assert_eq!(catalog_latest_version(r#"{"mod":{"releases":[{}]}}"#), None);
    assert_eq!(catalog_latest_version(r#"{"mod":{"releases":[{"version":null},{"version":"1"}]}}"#), None);
    assert_eq!(catalog_latest_version(r#"{"mod":{"releases":[{"version":"1"},{"version":2}]}}"#), None);
    assert_eq!(catalog_latest_version(r#"{"mod":{"releases":[{"version":"1"},"x"]}}"#), None);
    assert_eq!(catalog_latest_version(r#"{"mod":{}}"#), None);
    assert_eq!(catalog_latest_version("<html>"), None);
    assert_eq!(mod_api_url("carry on"), "http://mods.vintagestory.at/api/mod/carry on");
}

#[test]
fn all_mods_with_a_descriptor_are_checked() {
    let mods = vec![
        installed("a", Some(manifest("a", "1.0", r#"["b", "zzz"]"#))),
        installed("bare", None),
        installed("b", Some(manifest("b", "2.0", "null"))),
    ];
    let latest = vec![Some("1.1".to_string()), None];
    let table = check_all_mods_status(&mods, &latest);
    assert_eq!(table.len(), 2);
    assert_eq!(table[0].0, "a");
    assert!(table[0].1.has_update);
    assert_eq!(pairs(&table[0].1.missing_dependencies), vec![("zzz".to_string(), None)]);
    assert_eq!(table[1].0, "b");
    assert!(!table[1].1.has_update);
    assert_eq!(table[1].1.latest_version, None);
    assert!(check_all_mods_status(&vec![], &vec![]).is_empty());
}

#[test]
fn a_later_record_of_the_same_identifier_replaces_the_report() {
    let mods = vec![
        installed("a", Some(manifest("a", "1.0", "null"))),
        installed("b", Some(manifest("b", "1.0", "null"))),
        installed("a", Some(manifest("a", "9.0", "null"))),
    ];
    let latest = vec![Some("1.0".to_string()), None, Some("2.0".to_string())];
    let table = check_all_mods_status(&mods, &latest);
    assert_eq!(table.len(), 2);
    assert_eq!(table[0].0, "a");
    assert_eq!(table[0].1.latest_version, Some("2.0".to_string()));
    assert!(table[0].1.has_update);
    assert_eq!(table[1].0, "b");
}

#[test]
fn mending_goes_through_missing_then_outdated() {
    let status = ModStatus {
        has_update: false,
        latest_version: None,
        missing_dependencies: vec![
            ModDependency { modid: "m1".to_string(), version: None },
            ModDependency { modid: "m2".to_string(), version: Some("1".to_string()) },
        ],
        outdated_dependencies: vec![OutdatedDependency {
            modid: "o1".to_string(),
            required: "2".to_string(),
            installed: "1".to_string(),
        }],
    };
    let steps = install_plan(&status);
    let shown: Vec<(String, InstallReason)> =
        steps.iter().map(|s| (s.modid.clone(), s.reason)).collect();
    assert_eq!(
        shown,
        vec![
            ("m1".to_string(), InstallReason::Missing),
            ("m2".to_string(), InstallReason::Missing),
            ("o1".to_string(), InstallReason::Outdated)
        ]
    );
    let copy = status.clone();
    assert_eq!(copy.missing_dependencies.len(), 2);
    assert_eq!(copy.outdated_dependencies[0].clone().required, "2");
    assert_eq!(copy.missing_dependencies[1].clone().version, Some("1".to_string()));
}

#[test]
fn failures_name_the_dependency() {
    let missing = InstallStep { modid: "dep".to_string(), reason: InstallReason::Missing };
    let outdated = InstallStep { modid: "dep".to_string(), reason: InstallReason::Outdated };
    assert_eq!(
        install_failure(&missing, InstallStage::ResolveUrl, "timeout"),
        "Failed to get download URL for dependency dep: timeout"
    );
    assert_eq!(
        install_failure(&outdated, InstallStage::ResolveUrl, "timeout"),
        "Failed to get download URL for dependency dep: timeout"
    );
    assert_eq!(
        install_failure(&missing, InstallStage::Download, "404"),
        "Failed to download dependency dep: 404"
    );
    assert_eq!(
        install_failure(&outdated, InstallStage::Download, "404"),
        "Failed to update dependency dep: 404"
    );
}
