//! Mod packs: named collections of mods that can be passed around as one
//! file. A pack that is read in may still be in the making and is held to
//! little; a pack that is handed out is held to every rule.

use vstd::prelude::*;
use vstd::utf8::encode_utf8;
use crate::json::{
    field_of, items_view, lemma_array_view, lenient_text, lenient_texts, parse_json,
    parsed_document, read_lenient_text, read_lenient_texts, Json, JsonValue,
};
use crate::text::{catenate, owned};

verus! {

/// A shareable collection of mods.
#[derive(Debug)]
pub struct ModPack {
    pub name: String,
    pub version: String,
    pub description: String,
    pub mods: Vec<ModPackMod>,
    pub metadata: ModPackMetadata,
}

/// One mod of a pack.
#[derive(Debug)]
pub struct ModPackMod {
    pub id: String,
    pub version: String,
    /// Where the mod can be downloaded directly.
    pub url: Option<String>,
    /// The content hash of the mod's archive.
    pub hash: Option<String>,
}

/// What a pack says about itself for the catalog.
#[derive(Debug)]
pub struct ModPackMetadata {
    pub category: Option<String>,
    pub tags: Option<Vec<String>>,
    pub screenshots: Option<Vec<String>>,
    pub status: Option<String>,
    pub url_alias: Option<String>,
    pub summary: Option<String>,
    pub text: Option<String>,
    pub links: Option<ModPackLinks>,
    pub side: Option<String>,
    pub moddb_logo: Option<String>,
    pub external_logo: Option<String>,
    pub thumbnail: Option<String>,
}

/// The links of a pack's catalog page.
#[derive(Debug)]
pub struct ModPackLinks {
    pub homepage: Option<String>,
    pub trailer: Option<String>,
    pub source: Option<String>,
    pub issues: Option<String>,
    pub wiki: Option<String>,
    pub donate: Option<String>,
}

/// The contents of a [`ModPackLinks`].
pub struct ModPackLinksView {
    pub homepage: Option<Seq<char>>,
    pub trailer: Option<Seq<char>>,
    pub source: Option<Seq<char>>,
    pub issues: Option<Seq<char>>,
    pub wiki: Option<Seq<char>>,
    pub donate: Option<Seq<char>>,
}

/// The contents of a [`ModPackMetadata`].
pub struct ModPackMetadataView {
    pub category: Option<Seq<char>>,
    pub tags: Option<Seq<Seq<char>>>,
    pub screenshots: Option<Seq<Seq<char>>>,
    pub status: Option<Seq<char>>,
    pub url_alias: Option<Seq<char>>,
    pub summary: Option<Seq<char>>,
    pub text: Option<Seq<char>>,
    pub links: Option<ModPackLinksView>,
    pub side: Option<Seq<char>>,
    pub moddb_logo: Option<Seq<char>>,
    pub external_logo: Option<Seq<char>>,
    pub thumbnail: Option<Seq<char>>,
}

/// The contents of a [`ModPackMod`].
pub struct ModPackModView {
    pub id: Seq<char>,
    pub version: Seq<char>,
    pub url: Option<Seq<char>>,
    pub hash: Option<Seq<char>>,
}

/// The contents of a [`ModPack`].
pub struct ModPackView {
    pub name: Seq<char>,
    pub version: Seq<char>,
    pub description: Seq<char>,
    pub mods: Seq<ModPackModView>,
    pub metadata: ModPackMetadataView,
}

impl DeepView for ModPackLinks {
    type V = ModPackLinksView;

    open spec fn deep_view(&self) -> ModPackLinksView {
        ModPackLinksView {
            homepage: self.homepage.deep_view(),
            trailer: self.trailer.deep_view(),
            source: self.source.deep_view(),
            issues: self.issues.deep_view(),
            wiki: self.wiki.deep_view(),
            donate: self.donate.deep_view(),
        }
    }
}

impl DeepView for ModPackMetadata {
    type V = ModPackMetadataView;

    open spec fn deep_view(&self) -> ModPackMetadataView {
        ModPackMetadataView {
            category: self.category.deep_view(),
            tags: self.tags.deep_view(),
            screenshots: self.screenshots.deep_view(),
            status: self.status.deep_view(),
            url_alias: self.url_alias.deep_view(),
            summary: self.summary.deep_view(),
            text: self.text.deep_view(),
            links: self.links.deep_view(),
            side: self.side.deep_view(),
            moddb_logo: self.moddb_logo.deep_view(),
            external_logo: self.external_logo.deep_view(),
            thumbnail: self.thumbnail.deep_view(),
        }
    }
}

impl DeepView for ModPackMod {
    type V = ModPackModView;

    open spec fn deep_view(&self) -> ModPackModView {
        ModPackModView {
            id: self.id@,
            version: self.version@,
            url: self.url.deep_view(),
            hash: self.hash.deep_view(),
        }
    }
}

impl DeepView for ModPack {
    type V = ModPackView;

    open spec fn deep_view(&self) -> ModPackView {
        ModPackView {
            name: self.name@,
            version: self.version@,
            description: self.description@,
            mods: self.mods.deep_view(),
            metadata: self.metadata.deep_view(),
        }
    }
}

impl Clone for ModPackLinks {
    fn clone(&self) -> (r: Self)
        ensures
            r.deep_view() == self.deep_view(),
    {
        ModPackLinks {
            homepage: self.homepage.clone(),
            trailer: self.trailer.clone(),
            source: self.source.clone(),
            issues: self.issues.clone(),
            wiki: self.wiki.clone(),
            donate: self.donate.clone(),
        }
    }
}

fn clone_texts(texts: &Option<Vec<String>>) -> (r: Option<Vec<String>>)
    ensures
        r.deep_view() == texts.deep_view(),
{
    match texts {
        Some(list) => Some(list.clone()),
        None => None,
    }
}

impl Clone for ModPackMetadata {
    fn clone(&self) -> (r: Self)
        ensures
            r.deep_view() == self.deep_view(),
    {
        let links = match &self.links {
            Some(links) => Some(links.clone()),
            None => None,
        };
        ModPackMetadata {
            category: self.category.clone(),
            tags: clone_texts(&self.tags),
            screenshots: clone_texts(&self.screenshots),
            status: self.status.clone(),
            url_alias: self.url_alias.clone(),
            summary: self.summary.clone(),
            text: self.text.clone(),
            links,
            side: self.side.clone(),
            moddb_logo: self.moddb_logo.clone(),
            external_logo: self.external_logo.clone(),
            thumbnail: self.thumbnail.clone(),
        }
    }
}

impl Clone for ModPackMod {
    fn clone(&self) -> (r: Self)
        ensures
            r.deep_view() == self.deep_view(),
    {
        ModPackMod {
            id: self.id.clone(),
            version: self.version.clone(),
            url: self.url.clone(),
            hash: self.hash.clone(),
        }
    }
}

impl Clone for ModPack {
    fn clone(&self) -> (r: Self)
        ensures
            r.deep_view() == self.deep_view(),
    {
        ModPack {
            name: self.name.clone(),
            version: self.version.clone(),
            description: self.description.clone(),
            mods: self.mods.clone(),
            metadata: self.metadata.clone(),
        }
    }
}

/// Why a pack could not be read, written or accepted.
#[derive(Debug)]
pub enum ModPackError {
    /// The pack file could not be read or written.
    Io(String),
    /// The pack file does not hold a pack.
    Json(String),
    /// The pack breaks a rule; the text says which.
    Validation(String),
}

impl ModPackError {
    /// The failure in words.
    pub fn message(&self) -> (r: String)
        ensures
            match *self {
                ModPackError::Io(detail) => r@ == "IO error: "@ + detail@,
                ModPackError::Json(detail) => r@ == "JSON error: "@ + detail@,
                ModPackError::Validation(detail) => r@ == "Validation error: "@ + detail@,
            },
    {
        match self {
            ModPackError::Io(detail) => catenate("IO error: ", detail.as_str()),
            ModPackError::Json(detail) => catenate("JSON error: ", detail.as_str()),
            ModPackError::Validation(detail) => catenate("Validation error: ", detail.as_str()),
        }
    }
}

/// A rule that a pack can break.
#[derive(Debug, Clone, Copy, PartialEq, Eq, Structural)]
pub enum PackRule {
    /// Every pack has a name.
    NameGiven,
    /// A pack that is handed out has a version.
    VersionGiven,
    /// A pack that is handed out holds at least one mod.
    ModsGiven,
    /// The summary of a pack that is handed out fits the catalog's limit.
    SummaryFits,
}

/// The longest summary, in bytes of UTF-8, that the catalog takes.
pub const SUMMARY_LIMIT: usize = 100;

/// The length of the summary in bytes of UTF-8; zero without a summary.
pub open spec fn summary_length(pack: ModPackView) -> nat {
    match pack.metadata.summary {
        Some(summary) => encode_utf8(summary).len(),
        None => 0,
    }
}

/// The first rule that the pack breaks, if it breaks one. A pack that is
/// read in may still be in the making: only its name is asked for. A pack
/// that is handed out is held to every rule (`strict`).
pub open spec fn broken_rule(pack: ModPackView, strict: bool) -> Option<PackRule> {
    if pack.name.len() == 0 {
        Some(PackRule::NameGiven)
    } else if strict && pack.version.len() == 0 {
        Some(PackRule::VersionGiven)
    } else if strict && pack.mods.len() == 0 {
        Some(PackRule::ModsGiven)
    } else if strict && summary_length(pack) > SUMMARY_LIMIT {
        Some(PackRule::SummaryFits)
    } else {
        None
    }
}

/// What is said of a broken rule.
pub open spec fn rule_text(rule: PackRule) -> Seq<char> {
    match rule {
        PackRule::NameGiven => "Mod pack name cannot be empty"@,
        PackRule::VersionGiven => "Mod pack version cannot be empty"@,
        PackRule::ModsGiven => "Mod pack must contain at least one mod"@,
        PackRule::SummaryFits => "Summary must be 100 characters or less"@,
    }
}

impl PackRule {
    /// What is said of the rule when it is broken.
    pub fn text(&self) -> (r: String)
        ensures
            r@ == rule_text(*self),
    {
        match self {
            PackRule::NameGiven => owned("Mod pack name cannot be empty"),
            PackRule::VersionGiven => owned("Mod pack version cannot be empty"),
            PackRule::ModsGiven => owned("Mod pack must contain at least one mod"),
            PackRule::SummaryFits => owned("Summary must be 100 characters or less"),
        }
    }
}

impl ModPack {
    /// The first rule that the pack breaks, if any.
    pub fn check(&self, strict: bool) -> (r: Option<PackRule>)
        ensures
            r == broken_rule(self.deep_view(), strict),
    {
        if self.name.as_str().unicode_len() == 0 {
            return Some(PackRule::NameGiven);
        }
        if strict && self.version.as_str().unicode_len() == 0 {
            return Some(PackRule::VersionGiven);
        }
        if strict && self.mods.len() == 0 {
            return Some(PackRule::ModsGiven);
        }
        match &self.metadata.summary {
            Some(summary) => {
                if strict && summary.as_str().as_bytes().len() > SUMMARY_LIMIT {
                    return Some(PackRule::SummaryFits);
                }
            },
            None => {},
        }
        None
    }

    /// Accepts the pack or says which rule it breaks first. With `strict`
    /// unset only the name is asked for.
    pub fn validate(&self, strict: bool) -> (r: Result<(), ModPackError>)
        ensures
            r is Ok <==> broken_rule(self.deep_view(), strict) is None,
            r matches Err(e) ==> (e matches ModPackError::Validation(text) && text@ == rule_text(
                broken_rule(self.deep_view(), strict)->0,
            )),
    {
        match self.check(strict) {
            Some(rule) => Err(ModPackError::Validation(rule.text())),
            None => Ok(()),
        }
    }
}

/// Accepts a pack that is about to be handed out: the pack itself where it
/// keeps every rule, and else the first rule it breaks.
pub fn create_mod_pack(pack: ModPack) -> (r: Result<ModPack, ModPackError>)
    ensures
        match r {
            Ok(accepted) => broken_rule(pack.deep_view(), true) is None && accepted == pack,
            Err(e) => broken_rule(pack.deep_view(), true) is Some && (e matches ModPackError::Validation(
                text,
            ) && text@ == rule_text(broken_rule(pack.deep_view(), true)->0)),
        },
{
    match pack.validate(true) {
        Ok(()) => Ok(pack),
        Err(e) => Err(e),
    }
}

/// A pack that can be read in can be handed out exactly when it also has a
/// version, at least one mod and a summary within the limit.
pub proof fn lemma_lenient_then_strict(pack: ModPackView)
    requires
        broken_rule(pack, false) is None,
    ensures
        broken_rule(pack, true) is None <==> (pack.version.len() > 0 && pack.mods.len() > 0
            && summary_length(pack) <= SUMMARY_LIMIT),
{
}

/// A pack that may be handed out may also be read in.
pub proof fn lemma_strict_implies_lenient(pack: ModPackView)
    requires
        broken_rule(pack, true) is None,
    ensures
        broken_rule(pack, false) is None,
{
}

/// A part of a pack file.
#[derive(Debug, Clone, Copy, PartialEq, Eq, Structural)]
pub enum PackPart {
    Name,
    Version,
    Description,
    Mods,
    Metadata,
}

/// Why a document is no pack.
#[derive(Debug, Clone, Copy, PartialEq, Eq, Structural)]
pub enum PackDecodeError {
    /// The document is not a JSON object.
    NotAnObject,
    /// The pack has no name.
    NameMissing,
    /// A part holds a value of the wrong kind.
    Malformed(PackPart),
}

/// The links that a document holds: an object whose members, as far as
/// they are links, are strings, null or left out.
pub open spec fn links_of(doc: JsonValue) -> Option<ModPackLinksView> {
    if doc is Object && lenient_text(doc, "homepage"@) is Some && lenient_text(doc, "trailer"@) is Some
        && lenient_text(doc, "source"@) is Some && lenient_text(doc, "issues"@) is Some
        && lenient_text(doc, "wiki"@) is Some && lenient_text(doc, "donate"@) is Some {
        Some(
            ModPackLinksView {
                homepage: lenient_text(doc, "homepage"@)->0,
                trailer: lenient_text(doc, "trailer"@)->0,
                source: lenient_text(doc, "source"@)->0,
                issues: lenient_text(doc, "issues"@)->0,
                wiki: lenient_text(doc, "wiki"@)->0,
                donate: lenient_text(doc, "donate"@)->0,
            },
        )
    } else {
        None
    }
}

/// The links member of a pack's metadata: left out or null, or links.
pub open spec fn lenient_links(doc: JsonValue) -> Option<Option<ModPackLinksView>> {
    match field_of(doc, "links"@) {
        None => Some(None),
        Some(JsonValue::Null) => Some(None),
        Some(value) => match links_of(value) {
            Some(links) => Some(Some(links)),
            None => None,
        },
    }
}

/// Metadata that says nothing.
pub open spec fn empty_metadata() -> ModPackMetadataView {
    ModPackMetadataView {
        category: None,
        tags: None,
        screenshots: None,
        status: None,
        url_alias: None,
        summary: None,
        text: None,
        links: None,
        side: None,
        moddb_logo: None,
        external_logo: None,
        thumbnail: None,
    }
}

/// The metadata that a document holds: an object whose members, as far as
/// metadata knows them, are of their kind, null or left out.
pub open spec fn metadata_of(doc: JsonValue) -> Option<ModPackMetadataView> {
    if doc is Object && lenient_text(doc, "category"@) is Some && lenient_texts(doc, "tags"@) is Some
        && lenient_texts(doc, "screenshots"@) is Some && lenient_text(doc, "status"@) is Some
        && lenient_text(doc, "url_alias"@) is Some && lenient_text(doc, "summary"@) is Some
        && lenient_text(doc, "text"@) is Some && lenient_links(doc) is Some && lenient_text(
        doc,
        "side"@,
    ) is Some && lenient_text(doc, "moddb_logo"@) is Some && lenient_text(doc, "external_logo"@) is Some
        && lenient_text(doc, "thumbnail"@) is Some {
        Some(
            ModPackMetadataView {
                category: lenient_text(doc, "category"@)->0,
                tags: lenient_texts(doc, "tags"@)->0,
                screenshots: lenient_texts(doc, "screenshots"@)->0,
                status: lenient_text(doc, "status"@)->0,
                url_alias: lenient_text(doc, "url_alias"@)->0,
                summary: lenient_text(doc, "summary"@)->0,
                text: lenient_text(doc, "text"@)->0,
                links: lenient_links(doc)->0,
                side: lenient_text(doc, "side"@)->0,
                moddb_logo: lenient_text(doc, "moddb_logo"@)->0,
                external_logo: lenient_text(doc, "external_logo"@)->0,
                thumbnail: lenient_text(doc, "thumbnail"@)->0,
            },
        )
    } else {
        None
    }
}

/// The mod of a pack that a document holds: an object with an identifier
/// and a version, and perhaps an address and a content hash.
pub open spec fn pack_mod_of(doc: JsonValue) -> Option<ModPackModView> {
    match (field_of(doc, "id"@), field_of(doc, "version"@)) {
        (Some(JsonValue::Text(id)), Some(JsonValue::Text(version))) => if lenient_text(
            doc,
            "url"@,
        ) is Some && lenient_text(doc, "hash"@) is Some {
            Some(
                ModPackModView {
                    id,
                    version,
                    url: lenient_text(doc, "url"@)->0,
                    hash: lenient_text(doc, "hash"@)->0,
                },
            )
        } else {
            None
        },
        _ => None,
    }
}

/// The mods that a list holds, where each of its elements holds one.
pub open spec fn pack_mods_of(items: Seq<JsonValue>) -> Option<Seq<ModPackModView>>
    decreases items.len(),
{
    if items.len() == 0 {
        Some(Seq::empty())
    } else {
        match (pack_mods_of(items.drop_last()), pack_mod_of(items.last())) {
            (Some(mods), Some(last)) => Some(mods.push(last)),
            _ => None,
        }
    }
}

/// A text of a pack that may be left out: it is then empty.
pub open spec fn defaulted_text(doc: JsonValue, key: Seq<char>) -> Option<Seq<char>> {
    match lenient_text(doc, key) {
        Some(Some(text)) => Some(text),
        Some(None) => Some(Seq::empty()),
        None => None,
    }
}

/// The mods of a pack; a pack that lists none has none.
pub open spec fn defaulted_mods(doc: JsonValue) -> Option<Seq<ModPackModView>> {
    match field_of(doc, "mods"@) {
        None => Some(Seq::empty()),
        Some(JsonValue::Null) => Some(Seq::empty()),
        Some(JsonValue::Array(items)) => pack_mods_of(items),
        Some(_) => None,
    }
}

/// The metadata of a pack; a pack that gives none says nothing.
pub open spec fn defaulted_metadata(doc: JsonValue) -> Option<ModPackMetadataView> {
    match field_of(doc, "metadata"@) {
        None => Some(empty_metadata()),
        Some(JsonValue::Null) => Some(empty_metadata()),
        Some(value) => metadata_of(value),
    }
}

/// The pack that a document holds. Only the name must be there; a version
/// or description that is left out is empty, mods that are left out are
/// none. The parts are looked at in the order name, version, description,
/// mods, metadata, and the first fault is the one reported.
pub open spec fn pack_of(doc: JsonValue) -> Result<ModPackView, PackDecodeError> {
    if !(doc is Object) {
        Err(PackDecodeError::NotAnObject)
    } else {
        match field_of(doc, "name"@) {
            None => Err(PackDecodeError::NameMissing),
            Some(JsonValue::Text(name)) => match defaulted_text(doc, "version"@) {
                None => Err(PackDecodeError::Malformed(PackPart::Version)),
                Some(version) => match defaulted_text(doc, "description"@) {
                    None => Err(PackDecodeError::Malformed(PackPart::Description)),
                    Some(description) => match defaulted_mods(doc) {
                        None => Err(PackDecodeError::Malformed(PackPart::Mods)),
                        Some(mods) => match defaulted_metadata(doc) {
                            None => Err(PackDecodeError::Malformed(PackPart::Metadata)),
                            Some(metadata) => Ok(
                                ModPackView { name, version, description, mods, metadata },
                            ),
                        },
                    },
                },
            },
            Some(_) => Err(PackDecodeError::Malformed(PackPart::Name)),
        }
    }
}

impl ModPackLinks {
    /// Reads links out of a JSON document.
    pub fn from_json(doc: &Json) -> (r: Option<ModPackLinks>)
        ensures
            r.deep_view() == links_of(doc.deep_view()),
    {
        match doc {
            Json::Object(_) => {},
            _ => {
                return None;
            },
        }
        let homepage = read_lenient_text(doc, "homepage")?;
        let trailer = read_lenient_text(doc, "trailer")?;
        let source = read_lenient_text(doc, "source")?;
        let issues = read_lenient_text(doc, "issues")?;
        let wiki = read_lenient_text(doc, "wiki")?;
        let donate = read_lenient_text(doc, "donate")?;
        Some(ModPackLinks { homepage, trailer, source, issues, wiki, donate })
    }
}

fn read_lenient_links(doc: &Json) -> (r: Option<Option<ModPackLinks>>)
    ensures
        r.deep_view() == lenient_links(doc.deep_view()),
{
    match doc.field("links") {
        None => Some(None),
        Some(Json::Null) => Some(None),
        Some(value) => match ModPackLinks::from_json(value) {
            Some(links) => Some(Some(links)),
            None => None,
        },
    }
}

impl ModPackMetadata {
    /// Metadata that says nothing.
    pub fn empty() -> (r: ModPackMetadata)
        ensures
            r.deep_view() == empty_metadata(),
    {
        ModPackMetadata {
            category: None,
            tags: None,
            screenshots: None,
            status: None,
            url_alias: None,
            summary: None,
            text: None,
            links: None,
            side: None,
            moddb_logo: None,
            external_logo: None,
            thumbnail: None,
        }
    }

    /// Reads metadata out of a JSON document.
    pub fn from_json(doc: &Json) -> (r: Option<ModPackMetadata>)
        ensures
            r.deep_view() == metadata_of(doc.deep_view()),
    {
        match doc {
            Json::Object(_) => {},
            _ => {
                return None;
            },
        }
        let category = read_lenient_text(doc, "category")?;
        let tags = read_lenient_texts(doc, "tags")?;
        let screenshots = read_lenient_texts(doc, "screenshots")?;
        let status = read_lenient_text(doc, "status")?;
        let url_alias = read_lenient_text(doc, "url_alias")?;
        let summary = read_lenient_text(doc, "summary")?;
        let text = read_lenient_text(doc, "text")?;
        let links = read_lenient_links(doc)?;
        let side = read_lenient_text(doc, "side")?;
        let moddb_logo = read_lenient_text(doc, "moddb_logo")?;
        let external_logo = read_lenient_text(doc, "external_logo")?;
        let thumbnail = read_lenient_text(doc, "thumbnail")?;
        Some(
            ModPackMetadata {
                category,
                tags,
                screenshots,
                status,
                url_alias,
                summary,
                text,
                links,
                side,
                moddb_logo,
                external_logo,
                thumbnail,
            },
        )
    }
}

impl ModPackMod {
    /// Reads one mod of a pack out of a JSON document.
    pub fn from_json(doc: &Json) -> (r: Option<ModPackMod>)
        ensures
            r.deep_view() == pack_mod_of(doc.deep_view()),
    {
        let id = match doc.field("id") {
            Some(Json::Text(id)) => id.clone(),
            _ => {
                return None;
            },
        };
        let version = match doc.field("version") {
            Some(Json::Text(version)) => version.clone(),
            _ => {
                return None;
            },
        };
        let url = read_lenient_text(doc, "url")?;
        let hash = read_lenient_text(doc, "hash")?;
        Some(ModPackMod { id, version, url, hash })
    }
}

/// A list with an element that holds no mod holds no mods.
proof fn lemma_pack_mods_prefix(items: Seq<JsonValue>, n: int)
    requires
        0 <= n <= items.len(),
        pack_mods_of(items.take(n)) is None,
    ensures
        pack_mods_of(items) is None,
    decreases items.len() - n,
{
    if n < items.len() {
        assert(items.take(n + 1).drop_last() =~= items.take(n));
        lemma_pack_mods_prefix(items, n + 1);
    } else {
        assert(items.take(n) =~= items);
    }
}

fn read_pack_mods(items: &Vec<Json>) -> (r: Option<Vec<ModPackMod>>)
    ensures
        r.deep_view() == pack_mods_of(items_view(items@)),
{
    let ghost all = items_view(items@);
    let mut mods: Vec<ModPackMod> = Vec::new();
    let mut i: usize = 0;
    assert(mods.deep_view() =~= Seq::<ModPackModView>::empty());
    while i < items.len()
        invariant
            i <= items.len(),
            all == items_view(items@),
            pack_mods_of(all.take(i as int)) == Some(mods.deep_view()),
        decreases items.len() - i,
    {
        let ghost before = mods.deep_view();
        proof {
            assert(all.take(i + 1).drop_last() =~= all.take(i as int));
            assert(all.take(i + 1).last() == items@[i as int].deep_view());
        }
        match ModPackMod::from_json(&items[i]) {
            Some(one) => {
                let ghost shown = one.deep_view();
                mods.push(one);
                assert(mods.deep_view() =~= before.push(shown));
            },
            None => {
                proof {
                    assert(pack_mods_of(all.take(i + 1)) is None);
                    lemma_pack_mods_prefix(all, i + 1);
                }
                return None;
            },
        }
        i += 1;
    }
    assert(all.take(items.len() as int) =~= all);
    Some(mods)
}

fn read_defaulted_text(doc: &Json, key: &str) -> (r: Option<String>)
    ensures
        r.deep_view() == defaulted_text(doc.deep_view(), key@),
{
    match read_lenient_text(doc, key) {
        Some(Some(text)) => Some(text),
        Some(None) => {
            proof {
                reveal_strlit("");
            }
            let empty = owned("");
            assert(empty@ =~= Seq::<char>::empty());
            Some(empty)
        },
        None => None,
    }
}

/// The contents of the outcome of reading a pack.
pub open spec fn decode_outcome(r: Result<ModPack, PackDecodeError>) -> Result<
    ModPackView,
    PackDecodeError,
> {
    match r {
        Ok(pack) => Ok(pack.deep_view()),
        Err(e) => Err(e),
    }
}

impl ModPack {
    /// Reads a pack out of a JSON document.
    pub fn from_json(doc: &Json) -> (r: Result<ModPack, PackDecodeError>)
        ensures
            decode_outcome(r) == pack_of(doc.deep_view()),
    {
        match doc {
            Json::Object(_) => {},
            _ => {
                return Err(PackDecodeError::NotAnObject);
            },
        }
        let name = match doc.field("name") {
            None => {
                return Err(PackDecodeError::NameMissing);
            },
            Some(Json::Text(name)) => name.clone(),
            Some(_) => {
                return Err(PackDecodeError::Malformed(PackPart::Name));
            },
        };
        let version = match read_defaulted_text(doc, "version") {
            Some(version) => version,
            None => {
                return Err(PackDecodeError::Malformed(PackPart::Version));
            },
        };
        let description = match read_defaulted_text(doc, "description") {
            Some(description) => description,
            None => {
                return Err(PackDecodeError::Malformed(PackPart::Description));
            },
        };
        let mods = match doc.field("mods") {
            None => Some(Vec::new()),
            Some(Json::Null) => Some(Vec::new()),
            Some(Json::Array(items)) => {
                proof {
                    lemma_array_view(*items);
                }
                read_pack_mods(items)
            },
            Some(_) => None,
        };
        let mods = match mods {
            Some(mods) => mods,
            None => {
                return Err(PackDecodeError::Malformed(PackPart::Mods));
            },
        };
        assert(mods.deep_view() =~= defaulted_mods(doc.deep_view())->0);
        let metadata = match doc.field("metadata") {
            None => Some(ModPackMetadata::empty()),
            Some(Json::Null) => Some(ModPackMetadata::empty()),
            Some(value) => ModPackMetadata::from_json(value),
        };
        let metadata = match metadata {
            Some(metadata) => metadata,
            None => {
                return Err(PackDecodeError::Malformed(PackPart::Metadata));
            },
        };
        Ok(ModPack { name, version, description, mods, metadata })
    }
}

/// Why the text of a pack file was not taken in.
#[derive(Debug, Clone, Copy, PartialEq, Eq, Structural)]
pub enum ImportError {
    /// The text is not JSON.
    NotJson,
    /// The text is JSON but holds no pack.
    Decode(PackDecodeError),
    /// The pack breaks a rule that holds even for a pack in the making.
    Rule(PackRule),
}

/// What reading in the text of a pack file comes to. Reading in is
/// lenient: a pack without version and without mods is taken in.
pub open spec fn imported(content: Seq<char>) -> Result<ModPackView, ImportError> {
    match parsed_document(content) {
        None => Err(ImportError::NotJson),
        Some(doc) => match pack_of(doc) {
            Err(e) => Err(ImportError::Decode(e)),
            Ok(pack) => match broken_rule(pack, false) {
                Some(rule) => Err(ImportError::Rule(rule)),
                None => Ok(pack),
            },
        },
    }
}

/// The contents of the outcome of reading in a pack file.
pub open spec fn import_outcome(r: Result<ModPack, ImportError>) -> Result<ModPackView, ImportError> {
    match r {
        Ok(pack) => Ok(pack.deep_view()),
        Err(e) => Err(e),
    }
}

/// Reads in the text of a pack file.
pub fn import_mod_pack(content: &str) -> (r: Result<ModPack, ImportError>)
    ensures
        import_outcome(r) == imported(content@),
{
    let doc = match parse_json(content) {
        Some(doc) => doc,
        None => {
            return Err(ImportError::NotJson);
        },
    };
    let pack = match ModPack::from_json(&doc) {
        Ok(pack) => pack,
        Err(e) => {
            return Err(ImportError::Decode(e));
        },
    };
    match pack.check(false) {
        Some(rule) => Err(ImportError::Rule(rule)),
        None => Ok(pack),
    }
}

/// A document that names its pack holds a pack that is taken in, whatever
/// it says of version and mods; the pack can be handed out only once it
/// has a version and a mod.
pub proof fn lemma_import_is_lenient(doc: JsonValue)
    requires
        pack_of(doc) is Ok,
        pack_of(doc)->Ok_0.name.len() > 0,
    ensures
        broken_rule(pack_of(doc)->Ok_0, false) is None,
        (pack_of(doc)->Ok_0.version.len() == 0 || pack_of(doc)->Ok_0.mods.len() == 0)
            ==> broken_rule(pack_of(doc)->Ok_0, true) is Some,
{
}

} // verus!
