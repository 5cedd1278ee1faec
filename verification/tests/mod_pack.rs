use vintage_story_mod_loader::json::parse_json;
use vintage_story_mod_loader::mod_pack::{
    create_mod_pack, import_mod_pack, ImportError, ModPack, ModPackError, ModPackLinks,
    ModPackMetadata, ModPackMod, PackDecodeError, PackPart, PackRule,
};

fn pack(name: &str, version: &str, mods: &[&str]) -> ModPack {
    ModPack {
        name: name.to_string(),
        version: version.to_string(),
        description: String::new(),
        mods: mods
            .iter()
            .map(|id| ModPackMod {
                id: id.to_string(),
                version: "1.0".to_string(),
                url: None,
                hash: None,
            })
            .collect(),
        metadata: ModPackMetadata::empty(),
    }
}

fn validation_text(result: Result<(), ModPackError>) -> String {
    match result {
        Err(ModPackError::Validation(text)) => text,
        other => panic!("expected a validation error, got {:?}", other),
    }
}

#[test]
fn import_is_lenient_and_export_is_strict() {
    let imported = import_mod_pack(r#"{"name": "Work in progress", "mods": []}"#)
        .expect("a pack in the making is taken in");
    assert_eq!(imported.name, "Work in progress");
    assert_eq!(imported.version, "");
    assert!(imported.mods.is_empty());
    assert!(imported.validate(false).is_ok());
    assert_eq!(validation_text(imported.validate(true)), "Mod pack version cannot be empty");

    let mut populated = imported.clone();
    populated.version = "1.0.0".to_string();
    assert_eq!(
        validation_text(populated.validate(true)),
        "Mod pack must contain at least one mod"
    );
    populated.mods.push(ModPackMod {
        id: "x".to_string(),
        version: "1".to_string(),
        url: None,
        hash: None,
    });
    assert!(populated.validate(true).is_ok());
    assert!(create_mod_pack(populated).is_ok());
}

#[test]
fn every_rule_has_its_words() {
    assert_eq!(validation_text(pack("", "1", &["a"]).validate(false)), "Mod pack name cannot be empty");
    assert_eq!(validation_text(pack("", "", &[]).validate(true)), "Mod pack name cannot be empty");
    assert_eq!(pack("p", "", &["a"]).check(true), Some(PackRule::VersionGiven));
    assert_eq!(pack("p", "1", &[]).check(true), Some(PackRule::ModsGiven));
    assert_eq!(pack("p", "", &[]).check(false), None);
    assert_eq!(pack("p", "1", &["a"]).check(true), None);
    assert_eq!(PackRule::SummaryFits.text(), "Summary must be 100 characters or less");
}

#[test]
fn summary_limit_counts_bytes_and_binds_only_exports() {
    let mut p = pack("p", "1", &["a"]);
    p.metadata.summary = Some("x".repeat(100));
    assert!(p.validate(true).is_ok());
    p.metadata.summary = Some("x".repeat(101));
    assert_eq!(validation_text(p.validate(true)), "Summary must be 100 characters or less");
    assert!(p.validate(false).is_ok());
    p.metadata.summary = Some("é".repeat(51));
    assert_eq!(p.check(true), Some(PackRule::SummaryFits));
    p.metadata.summary = Some("é".repeat(50));
    assert_eq!(p.check(true), None);
}

#[test]
fn create_hands_back_the_pack_or_the_rule() {
    let accepted = create_mod_pack(pack("p", "1", &["a", "b"])).unwrap();
    assert_eq!(accepted.name, "p");
    assert_eq!(accepted.mods.len(), 2);
    match create_mod_pack(pack("p", "", &["a"])) {
        Err(ModPackError::Validation(text)) => assert_eq!(text, "Mod pack version cannot be empty"),
        other => panic!("unexpected: {:?}", other),
    }
}

#[test]
fn pack_errors_in_words() {
    assert_eq!(ModPackError::Io("gone".to_string()).message(), "IO error: gone");
    assert_eq!(ModPackError::Json("eof".to_string()).message(), "JSON error: eof");
    assert_eq!(
        ModPackError::Validation("Mod pack name cannot be empty".to_string()).message(),
        "Validation error: Mod pack name cannot be empty"
    );
}

#[test]
fn a_full_pack_file_is_read() {
    let text = r#"{
        "name": "Starter",
        "version": "2.1",
        "description": "All you need",
        "mods": [
            {"id": "a", "version": "1.0", "url": "http://x/a.zip", "hash": "abc"},
            {"id": "b", "version": "2.0"}
        ],
        "metadata": {
            "category": "misc",
            "tags": ["one", "two"],
            "screenshots": null,
            "summary": "short",
            "links": {"homepage": "http://home", "wiki": null},
            "side": "both"
        }
    }"#;
    let p = import_mod_pack(text).unwrap();
    assert_eq!(p.name, "Starter");
    assert_eq!(p.version, "2.1");
    assert_eq!(p.description, "All you need");
    assert_eq!(p.mods.len(), 2);
    assert_eq!(p.mods[0].id, "a");
    assert_eq!(p.mods[0].url, Some("http://x/a.zip".to_string()));
    assert_eq!(p.mods[0].hash, Some("abc".to_string()));
    assert_eq!(p.mods[1].version, "2.0");
    assert_eq!(p.mods[1].url, None);
    assert_eq!(p.metadata.category, Some("misc".to_string()));
    assert_eq!(p.metadata.tags, Some(vec!["one".to_string(), "two".to_string()]));
    assert_eq!(p.metadata.screenshots, None);
    assert_eq!(p.metadata.summary, Some("short".to_string()));
    assert_eq!(p.metadata.side, Some("both".to_string()));
    let links = p.metadata.links.as_ref().unwrap();
    assert_eq!(links.homepage, Some("http://home".to_string()));
    assert_eq!(links.wiki, None);
    assert_eq!(links.donate, None);
    assert!(p.validate(true).is_ok());
}

#[test]
fn import_faults() {
    assert_eq!(import_mod_pack("nope").unwrap_err(), ImportError::NotJson);
    assert_eq!(
        import_mod_pack("[]").unwrap_err(),
        ImportError::Decode(PackDecodeError::NotAnObject)
    );
    assert_eq!(
        import_mod_pack(r#"{"version":"1"}"#).unwrap_err(),
        ImportError::Decode(PackDecodeError::NameMissing)
    );
    assert_eq!(
        import_mod_pack(r#"{"name":null}"#).unwrap_err(),
        ImportError::Decode(PackDecodeError::Malformed(PackPart::Name))
    );
    assert_eq!(
        import_mod_pack(r#"{"name":"p","version":3}"#).unwrap_err(),
        ImportError::Decode(PackDecodeError::Malformed(PackPart::Version))
    );
    assert_eq!(
        import_mod_pack(r#"{"name":"p","description":[]}"#).unwrap_err(),
        ImportError::Decode(PackDecodeError::Malformed(PackPart::Description))
    );
    assert_eq!(
        import_mod_pack(r#"{"name":"p","mods":[{"id":"a"}]}"#).unwrap_err(),
        ImportError::Decode(PackDecodeError::Malformed(PackPart::Mods))
    );
    assert_eq!(
        import_mod_pack(r#"{"name":"p","mods":{}}"#).unwrap_err(),
        ImportError::Decode(PackDecodeError::Malformed(PackPart::Mods))
    );
    assert_eq!(
        import_mod_pack(r#"{"name":"p","metadata":{"tags":"one"}}"#).unwrap_err(),
        ImportError::Decode(PackDecodeError::Malformed(PackPart::Metadata))
    );
    assert_eq!(
        import_mod_pack(r#"{"name":"p","metadata":{"links":{"wiki":1}}}"#).unwrap_err(),
        ImportError::Decode(PackDecodeError::Malformed(PackPart::Metadata))
    );
    assert_eq!(
        import_mod_pack(r#"{"name":""}"#).unwrap_err(),
        ImportError::Rule(PackRule::NameGiven)
    );
}

#[test]
fn parts_are_read_on_their_own() {
    let links = ModPackLinks::from_json(&parse_json(r#"{"source":"git"}"#).unwrap()).unwrap();
    assert_eq!(links.source, Some("git".to_string()));
    assert!(ModPackLinks::from_json(&parse_json("[]").unwrap()).is_none());
    let metadata = ModPackMetadata::from_json(&parse_json("{}").unwrap()).unwrap();
    assert!(metadata.category.is_none() && metadata.links.is_none() && metadata.tags.is_none());
    let one = ModPackMod::from_json(&parse_json(r#"{"id":"a","version":"1"}"#).unwrap()).unwrap();
    assert_eq!(one.id, "a");
    assert!(ModPackMod::from_json(&parse_json(r#"{"id":"a","version":"1","url":5}"#).unwrap())
        .is_none());
    let p = ModPack::from_json(&parse_json(r#"{"name":"n","metadata":null,"mods":null}"#).unwrap())
        .unwrap();
    assert!(p.mods.is_empty());
    assert!(p.metadata.summary.is_none());
}
