//! Installed mods: what a descriptor declares, what the content index
//! remembers of an archive, and the record that a listing produces.

use vstd::prelude::*;
use crate::archive::{descriptor_of, find_descriptor, ArchiveError};
use crate::content_hash::{content_hash, hash_bytes};
use crate::json::{
    all_text, field_of, parse_json, parsed_document, read_all_text, Json, JsonValue,
};
use crate::index::{indexed, lemma_lookup_after_upsert, upserted, IndexView, ModIndex};
use crate::layout::{
    archive_ending, file_name, file_name_of, has_extension, name_has_extension, DirEntry, Location,
    ModsLayout,
};
use crate::mod_status::{ModStatus, ModStatusView};
use crate::text::{catenate, owned};

verus! {

/// What a mod declares about itself in its descriptor.
#[derive(Debug)]
pub struct ModInfo {
    pub modid: String,
    pub name: String,
    pub version: String,
    pub description: Option<String>,
    pub authors: Vec<String>,
    pub website: Option<String>,
    pub side: Option<String>,
    pub requiredonclient: Option<bool>,
    pub requiredonserver: Option<bool>,
    pub dependencies: Option<Json>,
}

/// The contents of a [`ModInfo`].
pub struct ModInfoView {
    pub modid: Seq<char>,
    pub name: Seq<char>,
    pub version: Seq<char>,
    pub description: Option<Seq<char>>,
    pub authors: Seq<Seq<char>>,
    pub website: Option<Seq<char>>,
    pub side: Option<Seq<char>>,
    pub requiredonclient: Option<bool>,
    pub requiredonserver: Option<bool>,
    pub dependencies: Option<JsonValue>,
}

impl DeepView for ModInfo {
    type V = ModInfoView;

    open spec fn deep_view(&self) -> ModInfoView {
        ModInfoView {
            modid: self.modid@,
            name: self.name@,
            version: self.version@,
            description: self.description.deep_view(),
            authors: self.authors.deep_view(),
            website: self.website.deep_view(),
            side: self.side.deep_view(),
            requiredonclient: self.requiredonclient,
            requiredonserver: self.requiredonserver,
            dependencies: self.dependencies.deep_view(),
        }
    }
}

impl Clone for ModInfo {
    fn clone(&self) -> (r: Self)
        ensures
            r.deep_view() == self.deep_view(),
    {
        let dependencies = match &self.dependencies {
            Some(d) => Some(d.duplicate()),
            None => None,
        };
        ModInfo {
            modid: self.modid.clone(),
            name: self.name.clone(),
            version: self.version.clone(),
            description: self.description.clone(),
            authors: self.authors.clone(),
            website: self.website.clone(),
            side: self.side.clone(),
            requiredonclient: self.requiredonclient,
            requiredonserver: self.requiredonserver,
            dependencies,
        }
    }
}

/// One installed mod as a listing reports it. A record is rebuilt on every
/// listing and never stored.
#[derive(Debug)]
pub struct Mod {
    pub id: String,
    pub name: String,
    pub version: String,
    pub path: String,
    pub enabled: bool,
    pub info: Option<ModInfo>,
    pub is_zip: bool,
    pub status: Option<ModStatus>,
}

/// The contents of a [`Mod`].
pub struct ModView {
    pub id: Seq<char>,
    pub name: Seq<char>,
    pub version: Seq<char>,
    pub path: Seq<char>,
    pub enabled: bool,
    pub info: Option<ModInfoView>,
    pub is_zip: bool,
    pub status: Option<ModStatusView>,
}

impl DeepView for Mod {
    type V = ModView;

    open spec fn deep_view(&self) -> ModView {
        ModView {
            id: self.id@,
            name: self.name@,
            version: self.version@,
            path: self.path@,
            enabled: self.enabled,
            info: self.info.deep_view(),
            is_zip: self.is_zip,
            status: self.status.deep_view(),
        }
    }
}

impl Clone for Mod {
    fn clone(&self) -> (r: Self)
        ensures
            r.deep_view() == self.deep_view(),
    {
        let info = match &self.info {
            Some(i) => Some(i.clone()),
            None => None,
        };
        let status = match &self.status {
            Some(s) => Some(s.clone()),
            None => None,
        };
        Mod {
            id: self.id.clone(),
            name: self.name.clone(),
            version: self.version.clone(),
            path: self.path.clone(),
            enabled: self.enabled,
            info,
            is_zip: self.is_zip,
            status,
        }
    }
}

/// What the content index remembers of one archive: the digest of its
/// bytes, the descriptor fields read from it, and where the file lies now.
#[derive(Debug)]
pub struct ModIndexEntry {
    pub hash: String,
    pub modid: String,
    pub name: String,
    pub version: String,
    pub description: Option<String>,
    pub authors: Vec<String>,
    pub website: Option<String>,
    pub side: Option<String>,
    pub download_url: Option<String>,
    pub thumbnail_url: Option<String>,
    pub category: Option<String>,
    pub tags: Vec<String>,
    pub file_name: String,
    pub file_path: String,
}

/// The contents of a [`ModIndexEntry`].
pub struct ModIndexEntryView {
    pub hash: Seq<char>,
    pub modid: Seq<char>,
    pub name: Seq<char>,
    pub version: Seq<char>,
    pub description: Option<Seq<char>>,
    pub authors: Seq<Seq<char>>,
    pub website: Option<Seq<char>>,
    pub side: Option<Seq<char>>,
    pub download_url: Option<Seq<char>>,
    pub thumbnail_url: Option<Seq<char>>,
    pub category: Option<Seq<char>>,
    pub tags: Seq<Seq<char>>,
    pub file_name: Seq<char>,
    pub file_path: Seq<char>,
}

impl DeepView for ModIndexEntry {
    type V = ModIndexEntryView;

    open spec fn deep_view(&self) -> ModIndexEntryView {
        ModIndexEntryView {
            hash: self.hash@,
            modid: self.modid@,
            name: self.name@,
            version: self.version@,
            description: self.description.deep_view(),
            authors: self.authors.deep_view(),
            website: self.website.deep_view(),
            side: self.side.deep_view(),
            download_url: self.download_url.deep_view(),
            thumbnail_url: self.thumbnail_url.deep_view(),
            category: self.category.deep_view(),
            tags: self.tags.deep_view(),
            file_name: self.file_name@,
            file_path: self.file_path@,
        }
    }
}

impl Clone for ModIndexEntry {
    fn clone(&self) -> (r: Self)
        ensures
            r.deep_view() == self.deep_view(),
    {
        ModIndexEntry {
            hash: self.hash.clone(),
            modid: self.modid.clone(),
            name: self.name.clone(),
            version: self.version.clone(),
            description: self.description.clone(),
            authors: self.authors.clone(),
            website: self.website.clone(),
            side: self.side.clone(),
            download_url: self.download_url.clone(),
            thumbnail_url: self.thumbnail_url.clone(),
            category: self.category.clone(),
            tags: self.tags.clone(),
            file_name: self.file_name.clone(),
            file_path: self.file_path.clone(),
        }
    }
}


/// A field of a mod descriptor.
#[derive(Debug, Clone, Copy, PartialEq, Eq, Structural)]
pub enum ManifestField {
    Modid,
    Name,
    Version,
    Description,
    Authors,
    Website,
    Side,
    RequiredOnClient,
    RequiredOnServer,
}

/// Why a document is no mod descriptor.
#[derive(Debug, Clone, Copy, PartialEq, Eq, Structural)]
pub enum ManifestError {
    /// The document is not a JSON object.
    NotAnObject,
    /// A field that every descriptor has is not there.
    Missing(ManifestField),
    /// A field holds a value of the wrong kind.
    Malformed(ManifestField),
}

/// The name of a field in the descriptor.
pub open spec fn field_name(field: ManifestField) -> Seq<char> {
    match field {
        ManifestField::Modid => "modid"@,
        ManifestField::Name => "name"@,
        ManifestField::Version => "version"@,
        ManifestField::Description => "description"@,
        ManifestField::Authors => "authors"@,
        ManifestField::Website => "website"@,
        ManifestField::Side => "side"@,
        ManifestField::RequiredOnClient => "requiredonclient"@,
        ManifestField::RequiredOnServer => "requiredonserver"@,
    }
}

/// A field that must be there and hold a string.
pub open spec fn required_text(doc: JsonValue, field: ManifestField) -> Result<
    Seq<char>,
    ManifestError,
> {
    match field_of(doc, field_name(field)) {
        None => Err(ManifestError::Missing(field)),
        Some(JsonValue::Text(s)) => Ok(s),
        Some(_) => Err(ManifestError::Malformed(field)),
    }
}

/// A field that may be left out or null, and else holds a string.
pub open spec fn optional_text(doc: JsonValue, field: ManifestField) -> Result<
    Option<Seq<char>>,
    ManifestError,
> {
    match field_of(doc, field_name(field)) {
        None => Ok(None),
        Some(JsonValue::Null) => Ok(None),
        Some(JsonValue::Text(s)) => Ok(Some(s)),
        Some(_) => Err(ManifestError::Malformed(field)),
    }
}

/// A field that may be left out or null, and else holds a truth value.
pub open spec fn optional_flag(doc: JsonValue, field: ManifestField) -> Result<
    Option<bool>,
    ManifestError,
> {
    match field_of(doc, field_name(field)) {
        None => Ok(None),
        Some(JsonValue::Null) => Ok(None),
        Some(JsonValue::Bool(b)) => Ok(Some(b)),
        Some(_) => Err(ManifestError::Malformed(field)),
    }
}

/// A field that must be there and hold a list of strings.
pub open spec fn required_texts(doc: JsonValue, field: ManifestField) -> Result<
    Seq<Seq<char>>,
    ManifestError,
> {
    match field_of(doc, field_name(field)) {
        None => Err(ManifestError::Missing(field)),
        Some(JsonValue::Array(items)) => match all_text(items) {
            Some(texts) => Ok(texts),
            None => Err(ManifestError::Malformed(field)),
        },
        Some(_) => Err(ManifestError::Malformed(field)),
    }
}

/// The dependency field as it stands; one that is left out or null counts
/// as not there. Its shape is not looked at here: a descriptor with an odd
/// dependency field is still a descriptor.
pub open spec fn dependency_field(doc: JsonValue) -> Option<JsonValue> {
    match field_of(doc, "dependencies"@) {
        None => None,
        Some(JsonValue::Null) => None,
        Some(value) => Some(value),
    }
}

/// The descriptor that a document holds. The identifier, the name, the
/// version and the authors must be there. Fields are looked at in the order
/// identifier, name, version, description, authors, website, side, the two
/// requirement flags, and the first fault is the one reported. Fields that
/// a descriptor does not know are of no account.
pub open spec fn manifest_of(doc: JsonValue) -> Result<ModInfoView, ManifestError> {
    if !(doc is Object) {
        Err(ManifestError::NotAnObject)
    } else {
        match required_text(doc, ManifestField::Modid) {
            Err(e) => Err(e),
            Ok(modid) => match required_text(doc, ManifestField::Name) {
                Err(e) => Err(e),
                Ok(name) => match required_text(doc, ManifestField::Version) {
                    Err(e) => Err(e),
                    Ok(version) => match optional_text(doc, ManifestField::Description) {
                        Err(e) => Err(e),
                        Ok(description) => match required_texts(doc, ManifestField::Authors) {
                            Err(e) => Err(e),
                            Ok(authors) => match optional_text(doc, ManifestField::Website) {
                                Err(e) => Err(e),
                                Ok(website) => match optional_text(doc, ManifestField::Side) {
                                    Err(e) => Err(e),
                                    Ok(side) => match optional_flag(
                                        doc,
                                        ManifestField::RequiredOnClient,
                                    ) {
                                        Err(e) => Err(e),
                                        Ok(requiredonclient) => match optional_flag(
                                            doc,
                                            ManifestField::RequiredOnServer,
                                        ) {
                                            Err(e) => Err(e),
                                            Ok(requiredonserver) => Ok(
                                                ModInfoView {
                                                    modid,
                                                    name,
                                                    version,
                                                    description,
                                                    authors,
                                                    website,
                                                    side,
                                                    requiredonclient,
                                                    requiredonserver,
                                                    dependencies: dependency_field(doc),
                                                },
                                            ),
                                        },
                                    },
                                },
                            },
                        },
                    },
                },
            },
        }
    }
}

fn read_text(doc: &Json, key: &str, field: ManifestField) -> (r: Result<String, ManifestError>)
    requires
        key@ == field_name(field),
    ensures
        match r {
            Ok(s) => required_text(doc.deep_view(), field) == Ok::<Seq<char>, ManifestError>(s@),
            Err(e) => required_text(doc.deep_view(), field) == Err::<Seq<char>, ManifestError>(e),
        },
{
    match doc.field(key) {
        None => Err(ManifestError::Missing(field)),
        Some(Json::Text(s)) => Ok(s.clone()),
        Some(_) => Err(ManifestError::Malformed(field)),
    }
}

fn read_optional_text(doc: &Json, key: &str, field: ManifestField) -> (r: Result<
    Option<String>,
    ManifestError,
>)
    requires
        key@ == field_name(field),
    ensures
        match r {
            Ok(s) => optional_text(doc.deep_view(), field) == Ok::<
                Option<Seq<char>>,
                ManifestError,
            >(s.deep_view()),
            Err(e) => optional_text(doc.deep_view(), field) == Err::<
                Option<Seq<char>>,
                ManifestError,
            >(e),
        },
{
    match doc.field(key) {
        None => Ok(None),
        Some(Json::Null) => Ok(None),
        Some(Json::Text(s)) => Ok(Some(s.clone())),
        Some(_) => Err(ManifestError::Malformed(field)),
    }
}

fn read_optional_flag(doc: &Json, key: &str, field: ManifestField) -> (r: Result<
    Option<bool>,
    ManifestError,
>)
    requires
        key@ == field_name(field),
    ensures
        match r {
            Ok(b) => optional_flag(doc.deep_view(), field) == Ok::<Option<bool>, ManifestError>(b),
            Err(e) => optional_flag(doc.deep_view(), field) == Err::<Option<bool>, ManifestError>(
                e,
            ),
        },
{
    match doc.field(key) {
        None => Ok(None),
        Some(Json::Null) => Ok(None),
        Some(Json::Bool(b)) => Ok(Some(*b)),
        Some(_) => Err(ManifestError::Malformed(field)),
    }
}

fn read_texts(doc: &Json, key: &str, field: ManifestField) -> (r: Result<Vec<String>, ManifestError>)
    requires
        key@ == field_name(field),
    ensures
        match r {
            Ok(texts) => required_texts(doc.deep_view(), field) == Ok::<
                Seq<Seq<char>>,
                ManifestError,
            >(texts.deep_view()),
            Err(e) => required_texts(doc.deep_view(), field) == Err::<
                Seq<Seq<char>>,
                ManifestError,
            >(e),
        },
{
    match doc.field(key) {
        None => Err(ManifestError::Missing(field)),
        Some(Json::Array(items)) => {
            proof {
                crate::json::lemma_array_view(*items);
            }
            match read_all_text(items) {
                Some(texts) => Ok(texts),
                None => Err(ManifestError::Malformed(field)),
            }
        },
        Some(_) => Err(ManifestError::Malformed(field)),
    }
}

/// The contents of the outcome of reading a descriptor.
pub open spec fn manifest_outcome(r: Result<ModInfo, ManifestError>) -> Result<
    ModInfoView,
    ManifestError,
> {
    match r {
        Ok(info) => Ok(info.deep_view()),
        Err(e) => Err(e),
    }
}

impl ModInfo {
    /// Reads a descriptor out of a JSON document.
    pub fn from_json(doc: &Json) -> (r: Result<ModInfo, ManifestError>)
        ensures
            manifest_outcome(r) == manifest_of(doc.deep_view()),
    {
        match doc {
            Json::Object(_) => {},
            _ => {
                return Err(ManifestError::NotAnObject);
            },
        }
        let modid = match read_text(doc, "modid", ManifestField::Modid) {
            Ok(v) => v,
            Err(e) => {
                return Err(e);
            },
        };
        let name = match read_text(doc, "name", ManifestField::Name) {
            Ok(v) => v,
            Err(e) => {
                return Err(e);
            },
        };
        let version = match read_text(doc, "version", ManifestField::Version) {
            Ok(v) => v,
            Err(e) => {
                return Err(e);
            },
        };
        let description = match read_optional_text(doc, "description", ManifestField::Description) {
            Ok(v) => v,
            Err(e) => {
                return Err(e);
            },
        };
        let authors = match read_texts(doc, "authors", ManifestField::Authors) {
            Ok(v) => v,
            Err(e) => {
                return Err(e);
            },
        };
        let website = match read_optional_text(doc, "website", ManifestField::Website) {
            Ok(v) => v,
            Err(e) => {
                return Err(e);
            },
        };
        let side = match read_optional_text(doc, "side", ManifestField::Side) {
            Ok(v) => v,
            Err(e) => {
                return Err(e);
            },
        };
        let requiredonclient = match read_optional_flag(
            doc,
            "requiredonclient",
            ManifestField::RequiredOnClient,
        ) {
            Ok(v) => v,
            Err(e) => {
                return Err(e);
            },
        };
        let requiredonserver = match read_optional_flag(
            doc,
            "requiredonserver",
            ManifestField::RequiredOnServer,
        ) {
            Ok(v) => v,
            Err(e) => {
                return Err(e);
            },
        };
        let dependencies = match doc.field("dependencies") {
            None => None,
            Some(Json::Null) => None,
            Some(value) => Some(value.duplicate()),
        };
        Ok(
            ModInfo {
                modid,
                name,
                version,
                description,
                authors,
                website,
                side,
                requiredonclient,
                requiredonserver,
                dependencies,
            },
        )
    }
}

/// Why a text is no mod descriptor.
#[derive(Debug, Clone, Copy, PartialEq, Eq, Structural)]
pub enum DescriptorError {
    /// The text is not JSON.
    NotJson,
    /// The text is JSON but holds no descriptor.
    Manifest(ManifestError),
}

/// The descriptor that a text holds.
pub open spec fn descriptor_in(content: Seq<char>) -> Result<ModInfoView, DescriptorError> {
    match parsed_document(content) {
        None => Err(DescriptorError::NotJson),
        Some(doc) => match manifest_of(doc) {
            Ok(info) => Ok(info),
            Err(e) => Err(DescriptorError::Manifest(e)),
        },
    }
}

/// The contents of the outcome of reading a descriptor text.
pub open spec fn descriptor_outcome(r: Result<ModInfo, DescriptorError>) -> Result<
    ModInfoView,
    DescriptorError,
> {
    match r {
        Ok(info) => Ok(info.deep_view()),
        Err(e) => Err(e),
    }
}

/// Reads the text of a descriptor file.
pub fn read_modinfo(content: &str) -> (r: Result<ModInfo, DescriptorError>)
    ensures
        descriptor_outcome(r) == descriptor_in(content@),
{
    match parse_json(content) {
        None => Err(DescriptorError::NotJson),
        Some(doc) => match ModInfo::from_json(&doc) {
            Ok(info) => Ok(info),
            Err(e) => Err(DescriptorError::Manifest(e)),
        },
    }
}

/// What is remembered of an archive with content hash `hash` and
/// descriptor `info` that lies at `file_path` under the name `file_name`.
/// The catalog fields stay empty: nothing but the archive was asked.
pub open spec fn entry_for(
    hash: Seq<char>,
    info: ModInfoView,
    file_name: Seq<char>,
    file_path: Seq<char>,
) -> ModIndexEntryView {
    ModIndexEntryView {
        hash,
        modid: info.modid,
        name: info.name,
        version: info.version,
        description: info.description,
        authors: info.authors,
        website: info.website,
        side: info.side,
        download_url: None,
        thumbnail_url: None,
        category: None,
        tags: Seq::empty(),
        file_name,
        file_path,
    }
}

/// The descriptor fields that an index entry carries, as a descriptor. An
/// entry keeps neither the requirement flags nor the dependencies.
pub open spec fn manifest_in(entry: ModIndexEntryView) -> ModInfoView {
    ModInfoView {
        modid: entry.modid,
        name: entry.name,
        version: entry.version,
        description: entry.description,
        authors: entry.authors,
        website: entry.website,
        side: entry.side,
        requiredonclient: None,
        requiredonserver: None,
        dependencies: None,
    }
}

impl ModIndexEntry {
    /// The entry for an archive whose hash and descriptor are known.
    pub fn from_manifest(hash: String, info: &ModInfo, file_name: String, file_path: String) -> (entry:
        ModIndexEntry)
        ensures
            entry.deep_view() == entry_for(hash@, info.deep_view(), file_name@, file_path@),
    {
        let tags: Vec<String> = Vec::new();
        assert(tags.deep_view() =~= Seq::<Seq<char>>::empty());
        ModIndexEntry {
            hash,
            modid: info.modid.clone(),
            name: info.name.clone(),
            version: info.version.clone(),
            description: info.description.clone(),
            authors: info.authors.clone(),
            website: info.website.clone(),
            side: info.side.clone(),
            download_url: None,
            thumbnail_url: None,
            category: None,
            tags,
            file_name,
            file_path,
        }
    }

    /// The descriptor fields of the entry as a descriptor.
    pub fn manifest(&self) -> (info: ModInfo)
        ensures
            info.deep_view() == manifest_in(self.deep_view()),
    {
        ModInfo {
            modid: self.modid.clone(),
            name: self.name.clone(),
            version: self.version.clone(),
            description: self.description.clone(),
            authors: self.authors.clone(),
            website: self.website.clone(),
            side: self.side.clone(),
            requiredonclient: None,
            requiredonserver: None,
            dependencies: None,
        }
    }
}

/// Why an archive could not be indexed.
#[derive(Debug, Clone, Copy, PartialEq, Eq, Structural)]
pub enum IndexError {
    /// No descriptor could be read out of the archive.
    Archive(ArchiveError),
    /// The descriptor in the archive is no descriptor.
    Descriptor(DescriptorError),
    /// The path of the archive ends in no file name.
    InvalidFileName,
}

/// What indexing the archive at `file_path` with these bytes comes to.
pub open spec fn indexed_archive(file_path: Seq<char>, separator: char, bytes: Seq<u8>) -> Result<
    ModIndexEntryView,
    IndexError,
> {
    match descriptor_of(bytes) {
        Err(e) => Err(IndexError::Archive(e)),
        Ok(content) => match descriptor_in(content) {
            Err(e) => Err(IndexError::Descriptor(e)),
            Ok(info) => match file_name_of(file_path, separator) {
                None => Err(IndexError::InvalidFileName),
                Some(name) => Ok(entry_for(content_hash(bytes), info, name, file_path)),
            },
        },
    }
}

/// The contents of the outcome of indexing an archive.
pub open spec fn index_outcome(r: Result<ModIndexEntry, IndexError>) -> Result<
    ModIndexEntryView,
    IndexError,
> {
    match r {
        Ok(entry) => Ok(entry.deep_view()),
        Err(e) => Err(e),
    }
}

/// Looks into the archive that lies at `file_path`: hashes its bytes, reads
/// the descriptor out of it, and makes the index entry.
pub fn index_zip_mod(file_path: &str, separator: char, archive: Vec<u8>) -> (r: Result<
    ModIndexEntry,
    IndexError,
>)
    ensures
        index_outcome(r) == indexed_archive(file_path@, separator, archive@),
{
    let hash = hash_bytes(archive.as_slice());
    let content = match find_descriptor(archive) {
        Ok(content) => content,
        Err(e) => {
            return Err(IndexError::Archive(e));
        },
    };
    let info = match read_modinfo(content.as_str()) {
        Ok(info) => info,
        Err(e) => {
            return Err(IndexError::Descriptor(e));
        },
    };
    let name = match file_name(file_path, separator) {
        Some(name) => name,
        None => {
            return Err(IndexError::InvalidFileName);
        },
    };
    Ok(ModIndexEntry::from_manifest(hash, &info, name, owned(file_path)))
}


/// Two files with the same bytes are one archive to the content index,
/// whatever they are called and wherever they lie: indexing either gives
/// the same content hash and the same descriptor fields, and after either
/// entry is taken into an index, a lookup of the hash yields those
/// fields.
pub proof fn lemma_same_bytes_same_entry(
    path_a: Seq<char>,
    path_b: Seq<char>,
    separator: char,
    bytes: Seq<u8>,
    index: IndexView,
)
    ensures
        (indexed_archive(path_a, separator, bytes) is Ok && indexed_archive(
            path_b,
            separator,
            bytes,
        ) is Ok) ==> ({
            let a = indexed_archive(path_a, separator, bytes)->Ok_0;
            let b = indexed_archive(path_b, separator, bytes)->Ok_0;
            &&& a.hash == content_hash(bytes)
            &&& b.hash == a.hash
            &&& manifest_in(b) == manifest_in(a)
            &&& indexed(upserted(index, a.hash, a), a.hash) == Some(a)
            &&& indexed(upserted(index, b.hash, b), a.hash) == Some(b)
        }),
{
    if indexed_archive(path_a, separator, bytes) is Ok && indexed_archive(
        path_b,
        separator,
        bytes,
    ) is Ok {
        let a = indexed_archive(path_a, separator, bytes)->Ok_0;
        let b = indexed_archive(path_b, separator, bytes)->Ok_0;
        lemma_lookup_after_upsert(index, a.hash, a);
        lemma_lookup_after_upsert(index, b.hash, b);
    }
}

/// The name of the archive in which the mod `mod_id` is stored when it is
/// fetched from the catalog.
pub open spec fn archive_name_of(mod_id: Seq<char>) -> Seq<char> {
    mod_id + archive_ending()
}

/// The name of the archive in which a fetched mod is stored.
pub fn archive_name(mod_id: &str) -> (name: String)
    ensures
        name@ == archive_name_of(mod_id@),
{
    catenate(mod_id, ".zip")
}

/// Why a mod could not be indexed anew.
#[derive(Debug)]
pub enum ReindexError {
    /// The mod's archive is not there; the path is the one looked at.
    NotFound(String),
    /// The archive is there but could not be indexed.
    Index(IndexError),
}

/// The contents of a [`ReindexError`].
pub enum ReindexErrorView {
    NotFound(Seq<char>),
    Index(IndexError),
}

impl DeepView for ReindexError {
    type V = ReindexErrorView;

    open spec fn deep_view(&self) -> ReindexErrorView {
        match self {
            ReindexError::NotFound(path) => ReindexErrorView::NotFound(path@),
            ReindexError::Index(e) => ReindexErrorView::Index(*e),
        }
    }
}

impl ReindexError {
    /// The failure in words.
    pub fn message(&self) -> (r: String)
        ensures
            self matches ReindexError::NotFound(path) ==> r@ == "Mod file not found: "@ + path@,
            self is Index ==> r@ == "Failed to index mod"@,
    {
        match self {
            ReindexError::NotFound(path) => catenate("Mod file not found: ", path.as_str()),
            ReindexError::Index(_) => owned("Failed to index mod"),
        }
    }
}

/// What indexing the mod `mod_id` anew comes to: the index afterwards, or
/// why it stays as it is. `archive` holds the bytes of the mod's archive
/// under the mods root, where that file is there.
pub open spec fn reindexed(
    index: IndexView,
    layout: ModsLayout,
    mod_id: Seq<char>,
    archive: Option<Seq<u8>>,
) -> Result<IndexView, ReindexErrorView> {
    let path = layout.path_of(Location::Active, archive_name_of(mod_id));
    match archive {
        None => Err(ReindexErrorView::NotFound(path)),
        Some(bytes) => match indexed_archive(path, layout.separator, bytes) {
            Ok(entry) => Ok(upserted(index, content_hash(bytes), entry)),
            Err(e) => Err(ReindexErrorView::Index(e)),
        },
    }
}

/// Indexes the archive of the mod `mod_id` anew, after it was fetched or
/// replaced. On failure the index stays as it is.
pub fn reindex_mod(
    index: &mut ModIndex,
    layout: &ModsLayout,
    mod_id: &str,
    archive: Option<Vec<u8>>,
) -> (r: Result<(), ReindexError>)
    ensures
        match reindexed(old(index)@, *layout, mod_id@, archive.deep_view()) {
            Ok(after) => r is Ok && final(index)@ == after,
            Err(e) => r is Err && r->Err_0.deep_view() == e && final(index)@ == old(index)@,
        },
{
    let name = archive_name(mod_id);
    let path = layout.path(Location::Active, name.as_str());
    let bytes = match archive {
        Some(bytes) => bytes,
        None => {
            return Err(ReindexError::NotFound(path));
        },
    };
    assert(bytes.deep_view() =~= bytes@);
    match index_zip_mod(path.as_str(), layout.separator, bytes) {
        Ok(entry) => {
            let hash = entry.hash.clone();
            index.upsert(hash, entry);
            Ok(())
        },
        Err(e) => Err(ReindexError::Index(e)),
    }
}

/// The files of a folder that hold settings: the files with the
/// extension `json`, in the order of the folder.
pub open spec fn config_files_of(entries: Seq<DirEntry>) -> Seq<Seq<char>>
    decreases entries.len(),
{
    if entries.len() == 0 {
        Seq::empty()
    } else if !entries.last().is_dir && has_extension(entries.last().name@, "json"@) {
        config_files_of(entries.drop_last()).push(entries.last().name@)
    } else {
        config_files_of(entries.drop_last())
    }
}

/// Picks the settings files among the children of a mod's folder.
pub fn list_config_files(entries: &Vec<DirEntry>) -> (names: Vec<String>)
    ensures
        names.deep_view() == config_files_of(entries@),
{
    let mut names: Vec<String> = Vec::new();
    let mut i: usize = 0;
    assert(names.deep_view() =~= config_files_of(entries@.take(0)));
    while i < entries.len()
        invariant
            i <= entries.len(),
            names.deep_view() == config_files_of(entries@.take(i as int)),
        decreases entries.len() - i,
    {
        let ghost before = names.deep_view();
        proof {
            assert(entries@.take(i + 1).drop_last() =~= entries@.take(i as int));
        }
        if !entries[i].is_dir && name_has_extension(entries[i].name.as_str(), "json") {
            names.push(entries[i].name.clone());
            assert(names.deep_view() =~= before.push(entries@[i as int].name@));
        }
        i += 1;
    }
    assert(entries@.take(entries.len() as int) =~= entries@);
    names
}

/// Why an operation on the installed mods failed.
#[derive(Debug)]
pub enum ModManagerError {
    /// A file or folder could not be read or written.
    Io(String),
    /// A file does not hold what it should.
    Json(String),
    /// No mod has the identifier.
    ModNotFound(String),
    /// A descriptor is no descriptor.
    InvalidModInfo(String),
}

impl ModManagerError {
    /// The failure in words.
    pub fn message(&self) -> (r: String)
        ensures
            match *self {
                ModManagerError::Io(detail) => r@ == "IO error: "@ + detail@,
                ModManagerError::Json(detail) => r@ == "JSON error: "@ + detail@,
                ModManagerError::ModNotFound(id) => r@ == "Mod not found: "@ + id@,
                ModManagerError::InvalidModInfo(detail) => r@ == "Invalid modinfo.json: "@
                    + detail@,
            },
    {
        match self {
            ModManagerError::Io(detail) => catenate("IO error: ", detail.as_str()),
            ModManagerError::Json(detail) => catenate("JSON error: ", detail.as_str()),
            ModManagerError::ModNotFound(id) => catenate("Mod not found: ", id.as_str()),
            ModManagerError::InvalidModInfo(detail) => catenate(
                "Invalid modinfo.json: ",
                detail.as_str(),
            ),
        }
    }
}

} // verus!
