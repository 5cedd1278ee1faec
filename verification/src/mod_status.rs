//! Dependency and version health of an installed mod.

use vstd::prelude::*;
use crate::json::{
    field_of, find_member, items_view, lemma_array_view, lemma_object_view, member, members_view,
    optional_text, parse_json, parsed_document, text_of, Json, JsonValue,
};
use crate::mod_manager::{Mod, ModInfoView, ModView};
use crate::text::{catenate, lex_at_most, lex_le, lowercase, owned, str_eq, to_lowercase};

verus! {

/// A dependency that a descriptor declares: a mod identifier and, where the
/// descriptor names one, the version asked for.
#[derive(Debug)]
pub struct ModDependency {
    pub modid: String,
    pub version: Option<String>,
}

/// The contents of a [`ModDependency`].
pub struct ModDependencyView {
    pub modid: Seq<char>,
    pub version: Option<Seq<char>>,
}

impl DeepView for ModDependency {
    type V = ModDependencyView;

    open spec fn deep_view(&self) -> ModDependencyView {
        ModDependencyView { modid: self.modid@, version: self.version.deep_view() }
    }
}

impl Clone for ModDependency {
    fn clone(&self) -> (r: Self)
        ensures
            r.deep_view() == self.deep_view(),
    {
        ModDependency { modid: self.modid.clone(), version: self.version.clone() }
    }
}

/// An installed dependency whose version does not meet the one asked for.
#[derive(Debug)]
pub struct OutdatedDependency {
    pub modid: String,
    pub required: String,
    pub installed: String,
}

/// The contents of an [`OutdatedDependency`].
pub struct OutdatedDependencyView {
    pub modid: Seq<char>,
    pub required: Seq<char>,
    pub installed: Seq<char>,
}

impl DeepView for OutdatedDependency {
    type V = OutdatedDependencyView;

    open spec fn deep_view(&self) -> OutdatedDependencyView {
        OutdatedDependencyView {
            modid: self.modid@,
            required: self.required@,
            installed: self.installed@,
        }
    }
}

impl Clone for OutdatedDependency {
    fn clone(&self) -> (r: Self)
        ensures
            r.deep_view() == self.deep_view(),
    {
        OutdatedDependency {
            modid: self.modid.clone(),
            required: self.required.clone(),
            installed: self.installed.clone(),
        }
    }
}

/// The health report of one mod. It is derived on demand and never stored.
#[derive(Debug)]
pub struct ModStatus {
    pub has_update: bool,
    pub latest_version: Option<String>,
    pub missing_dependencies: Vec<ModDependency>,
    pub outdated_dependencies: Vec<OutdatedDependency>,
}

/// The contents of a [`ModStatus`].
pub struct ModStatusView {
    pub has_update: bool,
    pub latest_version: Option<Seq<char>>,
    pub missing_dependencies: Seq<ModDependencyView>,
    pub outdated_dependencies: Seq<OutdatedDependencyView>,
}

impl DeepView for ModStatus {
    type V = ModStatusView;

    open spec fn deep_view(&self) -> ModStatusView {
        ModStatusView {
            has_update: self.has_update,
            latest_version: self.latest_version.deep_view(),
            missing_dependencies: self.missing_dependencies.deep_view(),
            outdated_dependencies: self.outdated_dependencies.deep_view(),
        }
    }
}

impl Clone for ModStatus {
    fn clone(&self) -> (r: Self)
        ensures
            r.deep_view() == self.deep_view(),
    {
        ModStatus {
            has_update: self.has_update,
            latest_version: self.latest_version.clone(),
            missing_dependencies: self.missing_dependencies.clone(),
            outdated_dependencies: self.outdated_dependencies.clone(),
        }
    }
}


/// Why a status check could not be made.
#[derive(Debug)]
pub enum StatusError {
    /// No installed mod has the identifier asked for.
    NotFound(String),
    /// The mod is installed, but its record carries no descriptor.
    NoManifest(String),
}

impl StatusError {
    /// The failure in words.
    pub fn message(&self) -> (r: String)
        ensures
            match *self {
                StatusError::NotFound(id) => r@ == "Mod "@ + id@ + " not found"@,
                StatusError::NoManifest(id) => r@ == "Mod "@ + id@ + " has no modinfo"@,
            },
    {
        match self {
            StatusError::NotFound(id) => {
                let head = catenate("Mod ", id.as_str());
                catenate(head.as_str(), " not found")
            },
            StatusError::NoManifest(id) => {
                let head = catenate("Mod ", id.as_str());
                catenate(head.as_str(), " has no modinfo")
            },
        }
    }
}

/// The base game registers under these identifiers, whatever their case.
/// A dependency on one of them is met by the game itself.
pub open spec fn is_base_game(modid: Seq<char>) -> bool {
    let lower = lowercase(modid);
    lower == "game"@ || lower == "survival"@ || lower == "creative"@
}

/// Whether `modid` names a part of the base game.
pub fn is_base_game_mod(modid: &str) -> (r: bool)
    ensures
        r == is_base_game(modid@),
{
    let lower = to_lowercase(modid);
    str_eq(lower.as_str(), "game") || str_eq(lower.as_str(), "survival") || str_eq(
        lower.as_str(),
        "creative",
    )
}

/// An installed version meets a required one when it equals it or comes
/// after it in lexicographic order.
pub open spec fn version_satisfies(installed: Seq<char>, required: Seq<char>) -> bool {
    lex_le(required, installed)
}

/// Whether the installed version meets the required one. The comparison is
/// lexicographic on the characters and knows nothing of version numbers.
pub fn compare_versions(installed: &str, required: &str) -> (r: bool)
    ensures
        r == version_satisfies(installed@, required@),
{
    lex_at_most(required, installed)
}

/// The dependency that one element of a dependency list declares.
pub open spec fn item_dependency(item: JsonValue) -> Option<ModDependencyView> {
    match item {
        JsonValue::Text(id) => if is_base_game(id) {
            None
        } else {
            Some(ModDependencyView { modid: id, version: None })
        },
        JsonValue::Object(members) => match member(members, "modid"@) {
            Some(JsonValue::Text(id)) => if is_base_game(id) {
                None
            } else {
                Some(
                    ModDependencyView {
                        modid: id,
                        version: optional_text(member(members, "version"@)),
                    },
                )
            },
            _ => None,
        },
        _ => None,
    }
}

/// The dependency that one entry of a dependency table declares.
pub open spec fn entry_dependency(name: Seq<char>, value: JsonValue) -> Option<ModDependencyView> {
    if is_base_game(name) {
        None
    } else {
        Some(ModDependencyView { modid: name, version: text_of(value) })
    }
}

/// `all` followed by `extra` where there is one.
pub open spec fn with_optional<T>(all: Seq<T>, extra: Option<T>) -> Seq<T> {
    match extra {
        Some(x) => all.push(x),
        None => all,
    }
}

/// The dependencies that a list declares, in the order of the list.
pub open spec fn list_dependencies(items: Seq<JsonValue>) -> Seq<ModDependencyView>
    decreases items.len(),
{
    if items.len() == 0 {
        Seq::empty()
    } else {
        with_optional(list_dependencies(items.drop_last()), item_dependency(items.last()))
    }
}

/// The dependencies that a table declares, in the order of the table.
pub open spec fn table_dependencies(members: Seq<(Seq<char>, JsonValue)>) -> Seq<
    ModDependencyView,
>
    decreases members.len(),
{
    if members.len() == 0 {
        Seq::empty()
    } else {
        with_optional(
            table_dependencies(members.drop_last()),
            entry_dependency(members.last().0, members.last().1),
        )
    }
}

/// The dependencies that a descriptor's dependency field declares. The field
/// may be a list of identifiers, a list of objects with `modid` and
/// `version`, or a table from identifier to version; any other shape
/// declares nothing. Parts of the base game are left out.
pub open spec fn declared_dependencies(deps: JsonValue) -> Seq<ModDependencyView> {
    match deps {
        JsonValue::Array(items) => list_dependencies(items),
        JsonValue::Object(members) => table_dependencies(members),
        _ => Seq::empty(),
    }
}

/// No declared dependency names a part of the base game.
pub proof fn lemma_declared_dependencies_skip_base_game(deps: JsonValue)
    ensures
        forall|i: int|
            0 <= i < declared_dependencies(deps).len() ==> !is_base_game(
                #[trigger] declared_dependencies(deps)[i].modid,
            ),
{
    match deps {
        JsonValue::Array(items) => lemma_list_skips_base_game(items),
        JsonValue::Object(members) => lemma_table_skips_base_game(members),
        _ => {},
    }
}

proof fn lemma_list_skips_base_game(items: Seq<JsonValue>)
    ensures
        forall|i: int|
            0 <= i < list_dependencies(items).len() ==> !is_base_game(
                #[trigger] list_dependencies(items)[i].modid,
            ),
    decreases items.len(),
{
    if items.len() > 0 {
        lemma_list_skips_base_game(items.drop_last());
    }
}

proof fn lemma_table_skips_base_game(members: Seq<(Seq<char>, JsonValue)>)
    ensures
        forall|i: int|
            0 <= i < table_dependencies(members).len() ==> !is_base_game(
                #[trigger] table_dependencies(members)[i].modid,
            ),
    decreases members.len(),
{
    if members.len() > 0 {
        lemma_table_skips_base_game(members.drop_last());
    }
}

/// Reads the dependencies out of a descriptor's dependency field.
pub fn parse_dependencies(deps: &Json) -> (r: Vec<ModDependency>)
    ensures
        r.deep_view() == declared_dependencies(deps.deep_view()),
{
    let mut result: Vec<ModDependency> = Vec::new();
    match deps {
        Json::Array(items) => {
            proof {
                lemma_array_view(*items);
            }
            let ghost all = items_view(items@);
            let mut i: usize = 0;
            assert(result.deep_view() =~= list_dependencies(all.take(0)));
            while i < items.len()
                invariant
                    i <= items.len(),
                    all == items_view(items@),
                    result.deep_view() == list_dependencies(all.take(i as int)),
                decreases items.len() - i,
            {
                let ghost before = result.deep_view();
                proof {
                    assert(all.take(i + 1).drop_last() =~= all.take(i as int));
                    assert(all.take(i + 1).last() == items@[i as int].deep_view());
                }
                match &items[i] {
                    Json::Text(modid) => {
                        if !is_base_game_mod(modid.as_str()) {
                            result.push(ModDependency { modid: modid.clone(), version: None });
                            assert(result.deep_view() =~= before.push(
                                ModDependencyView { modid: modid@, version: None },
                            ));
                        }
                    },
                    Json::Object(members) => {
                        proof {
                            lemma_object_view(*members);
                        }
                        match find_member(members, "modid") {
                            Some(Json::Text(modid)) => {
                                if !is_base_game_mod(modid.as_str()) {
                                    let version = match find_member(members, "version") {
                                        Some(Json::Text(v)) => Some(v.clone()),
                                        _ => None,
                                    };
                                    let ghost shown = ModDependencyView {
                                        modid: modid@,
                                        version: version.deep_view(),
                                    };
                                    result.push(ModDependency { modid: modid.clone(), version });
                                    assert(result.deep_view() =~= before.push(shown));
                                }
                            },
                            _ => {},
                        }
                    },
                    _ => {},
                }
                i += 1;
            }
            assert(all.take(items.len() as int) =~= all);
        },
        Json::Object(members) => {
            proof {
                lemma_object_view(*members);
            }
            let ghost all = members_view(members@);
            let mut i: usize = 0;
            assert(result.deep_view() =~= table_dependencies(all.take(0)));
            while i < members.len()
                invariant
                    i <= members.len(),
                    all == members_view(members@),
                    result.deep_view() == table_dependencies(all.take(i as int)),
                decreases members.len() - i,
            {
                let ghost before = result.deep_view();
                proof {
                    assert(all.take(i + 1).drop_last() =~= all.take(i as int));
                    assert(all.take(i + 1).last() == all[i as int]);
                }
                let name = &members[i].0;
                if !is_base_game_mod(name.as_str()) {
                    let version = match &members[i].1 {
                        Json::Text(v) => Some(v.clone()),
                        _ => None,
                    };
                    let ghost shown = ModDependencyView {
                        modid: name@,
                        version: version.deep_view(),
                    };
                    result.push(ModDependency { modid: name.clone(), version });
                    assert(result.deep_view() =~= before.push(shown));
                }
                i += 1;
            }
            assert(all.take(members.len() as int) =~= all);
        },
        _ => {
            assert(result.deep_view() =~= Seq::<ModDependencyView>::empty());
        },
    }
    result
}


/// The first record of the list whose identifier is `id`.
pub open spec fn installed_mod(mods: Seq<ModView>, id: Seq<char>) -> Option<ModView>
    decreases mods.len(),
{
    if mods.len() == 0 {
        None
    } else if mods[0].id == id {
        Some(mods[0])
    } else {
        installed_mod(mods.skip(1), id)
    }
}

/// Finds the first record of the list whose identifier is `id`.
pub fn find_mod<'a>(mods: &'a Vec<Mod>, id: &str) -> (r: Option<&'a Mod>)
    ensures
        r.deep_view() == installed_mod(mods.deep_view(), id@),
{
    let ghost all = mods.deep_view();
    let mut i: usize = 0;
    assert(all.skip(0) =~= all);
    while i < mods.len()
        invariant
            i <= mods.len(),
            all == mods.deep_view(),
            installed_mod(all, id@) == installed_mod(all.skip(i as int), id@),
        decreases mods.len() - i,
    {
        proof {
            assert(all.skip(i as int).skip(1) =~= all.skip(i + 1));
        }
        if str_eq(mods[i].id.as_str(), id) {
            return Some(&mods[i]);
        }
        i += 1;
    }
    None
}

/// The dependency itself where no installed mod has its identifier.
pub open spec fn missing_entry(dep: ModDependencyView, mods: Seq<ModView>) -> Option<
    ModDependencyView,
> {
    if installed_mod(mods, dep.modid) is None {
        Some(dep)
    } else {
        None
    }
}

/// What is to be reported where the dependency is installed in a version
/// that does not meet the one asked for. A dependency that asks for no
/// version, or whose installed record has no descriptor, is never outdated.
pub open spec fn outdated_entry(dep: ModDependencyView, mods: Seq<ModView>) -> Option<
    OutdatedDependencyView,
> {
    match installed_mod(mods, dep.modid) {
        Some(found) => match (dep.version, found.info) {
            (Some(required), Some(info)) => if version_satisfies(info.version, required) {
                None
            } else {
                Some(
                    OutdatedDependencyView {
                        modid: dep.modid,
                        required,
                        installed: info.version,
                    },
                )
            },
            _ => None,
        },
        None => None,
    }
}

/// The dependencies that are not installed, in the order declared.
pub open spec fn missing_of(deps: Seq<ModDependencyView>, mods: Seq<ModView>) -> Seq<
    ModDependencyView,
>
    decreases deps.len(),
{
    if deps.len() == 0 {
        Seq::empty()
    } else {
        with_optional(missing_of(deps.drop_last(), mods), missing_entry(deps.last(), mods))
    }
}

/// The dependencies that are installed in too old a version, in the order
/// declared.
pub open spec fn outdated_of(deps: Seq<ModDependencyView>, mods: Seq<ModView>) -> Seq<
    OutdatedDependencyView,
>
    decreases deps.len(),
{
    if deps.len() == 0 {
        Seq::empty()
    } else {
        with_optional(outdated_of(deps.drop_last(), mods), outdated_entry(deps.last(), mods))
    }
}

/// The dependencies that a descriptor declares; none where it has no
/// dependency field.
pub open spec fn dependencies_of(info: ModInfoView) -> Seq<ModDependencyView> {
    match info.dependencies {
        Some(deps) => declared_dependencies(deps),
        None => Seq::empty(),
    }
}

/// The report for a mod with descriptor `info` among the installed `mods`,
/// where the catalog's latest version is `latest` as far as it is known. An
/// update is on offer exactly when the latest version is known and differs
/// from the installed one.
pub open spec fn expected_status(
    info: ModInfoView,
    mods: Seq<ModView>,
    latest: Option<Seq<char>>,
) -> ModStatusView {
    ModStatusView {
        has_update: latest is Some && latest->0 != info.version,
        latest_version: latest,
        missing_dependencies: missing_of(dependencies_of(info), mods),
        outdated_dependencies: outdated_of(dependencies_of(info), mods),
    }
}

/// Every reported dependency is a declared one that is not installed.
pub proof fn lemma_missing_are_declared(deps: Seq<ModDependencyView>, mods: Seq<ModView>)
    ensures
        forall|i: int|
            0 <= i < missing_of(deps, mods).len() ==> deps.contains(
                #[trigger] missing_of(deps, mods)[i],
            ) && installed_mod(mods, missing_of(deps, mods)[i].modid) is None,
    decreases deps.len(),
{
    if deps.len() > 0 {
        lemma_missing_are_declared(deps.drop_last(), mods);
        let rest = missing_of(deps.drop_last(), mods);
        assert forall|i: int| 0 <= i < missing_of(deps, mods).len() implies deps.contains(
            #[trigger] missing_of(deps, mods)[i],
        ) by {
            if i < rest.len() {
                let k = choose|k: int|
                    0 <= k < deps.drop_last().len() && deps.drop_last()[k] == rest[i];
                assert(deps[k] == rest[i]);
            } else {
                assert(deps[deps.len() - 1] == deps.last());
            }
        }
    }
}

/// Every dependency reported as outdated carries the identifier of a
/// declared one.
pub proof fn lemma_outdated_are_declared(deps: Seq<ModDependencyView>, mods: Seq<ModView>)
    ensures
        forall|i: int|
            0 <= i < outdated_of(deps, mods).len() ==> exists|k: int|
                0 <= k < deps.len() && deps[k].modid == (#[trigger] outdated_of(
                    deps,
                    mods,
                )[i]).modid,
    decreases deps.len(),
{
    if deps.len() > 0 {
        lemma_outdated_are_declared(deps.drop_last(), mods);
        let rest = outdated_of(deps.drop_last(), mods);
        assert forall|i: int| 0 <= i < outdated_of(deps, mods).len() implies exists|k: int|
            0 <= k < deps.len() && deps[k].modid == (#[trigger] outdated_of(deps, mods)[i]).modid by {
            if i < rest.len() {
                let k = choose|k: int|
                    0 <= k < deps.drop_last().len() && deps.drop_last()[k].modid == rest[i].modid;
                assert(deps[k].modid == rest[i].modid);
            } else {
                assert(deps[deps.len() - 1].modid == outdated_of(deps, mods)[i].modid);
            }
        }
    }
}

/// A report never lists a part of the base game, neither as missing nor as
/// outdated, whatever the descriptor declares.
pub proof fn lemma_status_skips_base_game(
    info: ModInfoView,
    mods: Seq<ModView>,
    latest: Option<Seq<char>>,
)
    ensures
        forall|i: int|
            0 <= i < expected_status(info, mods, latest).missing_dependencies.len()
                ==> !is_base_game(
                #[trigger] expected_status(info, mods, latest).missing_dependencies[i].modid,
            ),
        forall|i: int|
            0 <= i < expected_status(info, mods, latest).outdated_dependencies.len()
                ==> !is_base_game(
                #[trigger] expected_status(info, mods, latest).outdated_dependencies[i].modid,
            ),
{
    let deps = dependencies_of(info);
    if info.dependencies is Some {
        lemma_declared_dependencies_skip_base_game(info.dependencies->0);
    }
    lemma_missing_are_declared(deps, mods);
    lemma_outdated_are_declared(deps, mods);
    let status = expected_status(info, mods, latest);
    assert forall|i: int| 0 <= i < status.missing_dependencies.len() implies !is_base_game(
        #[trigger] status.missing_dependencies[i].modid,
    ) by {
        let d = status.missing_dependencies[i];
        let k = choose|k: int| 0 <= k < deps.len() && deps[k] == d;
        assert(!is_base_game(deps[k].modid));
    }
    assert forall|i: int| 0 <= i < status.outdated_dependencies.len() implies !is_base_game(
        #[trigger] status.outdated_dependencies[i].modid,
    ) by {
        let d = status.outdated_dependencies[i];
        let k = choose|k: int| 0 <= k < deps.len() && deps[k].modid == d.modid;
        assert(!is_base_game(deps[k].modid));
    }
}

/// What a status check of `mod_id` among `mods` comes to: the report, or
/// the reason why none can be made.
pub open spec fn status_of(mod_id: Seq<char>, mods: Seq<ModView>, latest: Option<Seq<char>>) -> Result<
    ModStatusView,
    StatusErrorView,
> {
    match installed_mod(mods, mod_id) {
        None => Err(StatusErrorView::NotFound(mod_id)),
        Some(found) => match found.info {
            None => Err(StatusErrorView::NoManifest(mod_id)),
            Some(info) => Ok(expected_status(info, mods, latest)),
        },
    }
}

/// The contents of a [`StatusError`].
pub enum StatusErrorView {
    NotFound(Seq<char>),
    NoManifest(Seq<char>),
}

impl DeepView for StatusError {
    type V = StatusErrorView;

    open spec fn deep_view(&self) -> StatusErrorView {
        match self {
            StatusError::NotFound(id) => StatusErrorView::NotFound(id@),
            StatusError::NoManifest(id) => StatusErrorView::NoManifest(id@),
        }
    }
}

/// The contents of the outcome of a status check.
pub open spec fn outcome_view(r: Result<ModStatus, StatusError>) -> Result<
    ModStatusView,
    StatusErrorView,
> {
    match r {
        Ok(s) => Ok(s.deep_view()),
        Err(e) => Err(e.deep_view()),
    }
}

/// Checks one mod against the installed list. `latest` is the newest
/// version that the catalog offers for the mod, where the catalog could be
/// asked; a catalog that did not answer leaves the update fields empty and
/// fails nothing.
///
/// The check fails when no installed mod has the identifier, and when the
/// mod's record has no descriptor.
pub fn check_mod_status_internal(mod_id: &str, mod_list: &Vec<Mod>, latest: Option<String>) -> (r:
    Result<ModStatus, StatusError>)
    ensures
        outcome_view(r) == status_of(mod_id@, mod_list.deep_view(), latest.deep_view()),
{
    let ghost mods = mod_list.deep_view();
    let info = match find_mod(mod_list, mod_id) {
        None => {
            return Err(StatusError::NotFound(owned(mod_id)));
        },
        Some(found) => match &found.info {
            None => {
                return Err(StatusError::NoManifest(owned(mod_id)));
            },
            Some(info) => info,
        },
    };
    let has_update = match &latest {
        Some(version) => !(*version == info.version),
        None => false,
    };
    let mut missing: Vec<ModDependency> = Vec::new();
    let mut outdated: Vec<OutdatedDependency> = Vec::new();
    let ghost deps = dependencies_of(info.deep_view());
    match &info.dependencies {
        Some(declared) => {
            let required = parse_dependencies(declared);
            let mut i: usize = 0;
            assert(missing.deep_view() =~= missing_of(deps.take(0), mods));
            assert(outdated.deep_view() =~= outdated_of(deps.take(0), mods));
            while i < required.len()
                invariant
                    i <= required.len(),
                    mods == mod_list.deep_view(),
                    deps == required.deep_view(),
                    missing.deep_view() == missing_of(deps.take(i as int), mods),
                    outdated.deep_view() == outdated_of(deps.take(i as int), mods),
                decreases required.len() - i,
            {
                let ghost missing_before = missing.deep_view();
                let ghost outdated_before = outdated.deep_view();
                proof {
                    assert(deps.take(i + 1).drop_last() =~= deps.take(i as int));
                    assert(deps.take(i + 1).last() == required@[i as int].deep_view());
                }
                let dep = &required[i];
                match find_mod(mod_list, dep.modid.as_str()) {
                    None => {
                        missing.push(dep.clone());
                        assert(missing.deep_view() =~= missing_before.push(dep.deep_view()));
                    },
                    Some(found) => {
                        match (&dep.version, &found.info) {
                            (Some(wanted), Some(found_info)) => {
                                if !compare_versions(found_info.version.as_str(), wanted.as_str()) {
                                    let entry = OutdatedDependency {
                                        modid: dep.modid.clone(),
                                        required: wanted.clone(),
                                        installed: found_info.version.clone(),
                                    };
                                    let ghost shown = entry.deep_view();
                                    outdated.push(entry);
                                    assert(outdated.deep_view() =~= outdated_before.push(shown));
                                }
                            },
                            _ => {},
                        }
                    },
                }
                i += 1;
            }
            assert(deps.take(required.len() as int) =~= deps);
        },
        None => {
            assert(missing.deep_view() =~= Seq::<ModDependencyView>::empty());
            assert(outdated.deep_view() =~= Seq::<OutdatedDependencyView>::empty());
        },
    }
    Ok(
        ModStatus {
            has_update,
            latest_version: latest,
            missing_dependencies: missing,
            outdated_dependencies: outdated,
        },
    )
}


/// The address under which the catalog answers.
pub open spec fn catalog_address() -> Seq<char> {
    "http://mods.vintagestory.at/api"@
}

/// The address that answers for the mod `mod_id`.
pub fn mod_api_url(mod_id: &str) -> (url: String)
    ensures
        url@ == catalog_address() + "/mod/"@ + mod_id@,
{
    let base = catenate("http://mods.vintagestory.at/api", "/mod/");
    catenate(base.as_str(), mod_id)
}

/// A release of a catalog answer is an object whose version, where it has
/// one, is a string.
pub open spec fn release_ok(release: JsonValue) -> bool {
    release is Object && match field_of(release, "version"@) {
        None => true,
        Some(JsonValue::Null) => true,
        Some(JsonValue::Text(_)) => true,
        Some(_) => false,
    }
}

/// The releases that a catalog answer lists for its mod, where the answer
/// is in order: an object whose `mod` member, if it is there and not null,
/// is an object with a list of releases, each of them in order.
pub open spec fn listed_releases(answer: JsonValue) -> Option<Seq<JsonValue>> {
    match field_of(answer, "mod"@) {
        Some(JsonValue::Object(data)) => match member(data, "releases"@) {
            Some(JsonValue::Array(releases)) => if forall|i: int|
                0 <= i < releases.len() ==> release_ok(#[trigger] releases[i]) {
                Some(releases)
            } else {
                None
            },
            _ => None,
        },
        _ => None,
    }
}

/// The newest version that a catalog answer offers: the version of the
/// release listed first. An answer that is out of order, lists no release,
/// or gives its first release no version offers none.
pub open spec fn latest_version_in(answer: JsonValue) -> Option<Seq<char>> {
    match listed_releases(answer) {
        Some(releases) => if releases.len() > 0 {
            optional_text(field_of(releases[0], "version"@))
        } else {
            None
        },
        None => None,
    }
}

fn release_in_order(release: &Json) -> (r: bool)
    ensures
        r == release_ok(release.deep_view()),
{
    match release {
        Json::Object(members) => {
            proof {
                lemma_object_view(*members);
            }
            match find_member(members, "version") {
                None => true,
                Some(Json::Null) => true,
                Some(Json::Text(_)) => true,
                Some(_) => false,
            }
        },
        _ => false,
    }
}

/// Reads the newest version out of a catalog answer.
#[verifier::loop_isolation(false)]
pub fn latest_version(answer: &Json) -> (r: Option<String>)
    ensures
        r.deep_view() == latest_version_in(answer.deep_view()),
{
    let data = match answer.field("mod") {
        Some(Json::Object(data)) => data,
        _ => {
            return None;
        },
    };
    proof {
        lemma_object_view(*data);
    }
    let releases = match find_member(data, "releases") {
        Some(Json::Array(releases)) => releases,
        _ => {
            return None;
        },
    };
    proof {
        lemma_array_view(*releases);
    }
    let ghost all = items_view(releases@);
    let mut i: usize = 0;
    while i < releases.len()
        invariant
            i <= releases.len(),
            all == items_view(releases@),
            forall|k: int| 0 <= k < i ==> release_ok(#[trigger] all[k]),
        decreases releases.len() - i,
    {
        if !release_in_order(&releases[i]) {
            assert(!release_ok(all[i as int]));
            return None;
        }
        i += 1;
    }
    if releases.len() == 0 {
        return None;
    }
    match releases[0].field("version") {
        Some(Json::Text(version)) => Some(version.clone()),
        _ => None,
    }
}

/// The newest version that the text of a catalog answer offers; none where
/// the text is not JSON.
pub open spec fn latest_version_of(body: Seq<char>) -> Option<Seq<char>> {
    match parsed_document(body) {
        Some(answer) => latest_version_in(answer),
        None => None,
    }
}

/// Reads the newest version out of the text of a catalog answer. A text
/// that cannot be read yields none: the catalog then counts as not
/// having answered.
pub fn catalog_latest_version(body: &str) -> (r: Option<String>)
    ensures
        r.deep_view() == latest_version_of(body@),
{
    match parse_json(body) {
        Some(answer) => latest_version(&answer),
        None => None,
    }
}

/// Reports by mod identifier.
pub type StatusTable = Seq<(Seq<char>, ModStatusView)>;

/// The table after `status` is entered for `id`, in place of an earlier
/// report for that identifier.
pub open spec fn with_status(table: StatusTable, id: Seq<char>, status: ModStatusView) -> StatusTable
    decreases table.len(),
{
    if table.len() == 0 {
        seq![(id, status)]
    } else if table[0].0 == id {
        seq![(id, status)] + table.skip(1)
    } else {
        seq![table[0]] + with_status(table.skip(1), id, status)
    }
}

/// What the catalog said of the mod at position `i`, as far as answers
/// were handed over.
pub open spec fn latest_at(latest: Seq<Option<Seq<char>>>, i: int) -> Option<Seq<char>> {
    if 0 <= i < latest.len() {
        latest[i]
    } else {
        None
    }
}

/// The reports for the first `n` mods of the list. A mod without a
/// descriptor gets none, and neither does one whose check fails.
pub open spec fn statuses_of(mods: Seq<ModView>, latest: Seq<Option<Seq<char>>>, n: int) -> StatusTable
    decreases n,
{
    if n <= 0 {
        Seq::empty()
    } else {
        let before = statuses_of(mods, latest, n - 1);
        let subject = mods[n - 1];
        if subject.info is Some {
            match status_of(subject.id, mods, latest_at(latest, n - 1)) {
                Ok(status) => with_status(before, subject.id, status),
                Err(_) => before,
            }
        } else {
            before
        }
    }
}

/// The contents of a list of reports.
pub open spec fn table_view(table: Seq<(String, ModStatus)>) -> StatusTable {
    Seq::new(table.len(), |i: int| (table[i].0@, table[i].1.deep_view()))
}

fn enter_status(table: &mut Vec<(String, ModStatus)>, id: String, status: ModStatus)
    ensures
        table_view(final(table)@) == with_status(table_view(old(table)@), id@, status.deep_view()),
{
    let ghost before = table_view(table@);
    let mut i: usize = 0;
    while i < table.len()
        invariant
            i <= table.len(),
            before == table_view(table@),
            before == table_view(old(table)@),
            forall|k: int| 0 <= k < i ==> before[k].0 != id@,
        decreases table.len() - i,
    {
        if str_eq(table[i].0.as_str(), id.as_str()) {
            proof {
                lemma_with_status_at(before, id@, status.deep_view(), i as int);
            }
            table.set(i, (id, status));
            assert(table_view(table@) =~= before.update(i as int, (id@, status.deep_view())));
            return ;
        }
        i += 1;
    }
    proof {
        lemma_with_status_new(before, id@, status.deep_view());
    }
    table.push((id, status));
    assert(table_view(table@) =~= before.push((id@, status.deep_view())));
}

proof fn lemma_with_status_at(table: StatusTable, id: Seq<char>, status: ModStatusView, at: int)
    requires
        0 <= at < table.len(),
        table[at].0 == id,
        forall|k: int| 0 <= k < at ==> table[k].0 != id,
    ensures
        with_status(table, id, status) == table.update(at, (id, status)),
    decreases at,
{
    if at == 0 {
        assert(with_status(table, id, status) =~= table.update(0, (id, status)));
    } else {
        lemma_with_status_at(table.skip(1), id, status, at - 1);
        assert(with_status(table, id, status) =~= table.update(at, (id, status)));
    }
}

proof fn lemma_with_status_new(table: StatusTable, id: Seq<char>, status: ModStatusView)
    requires
        forall|k: int| 0 <= k < table.len() ==> table[k].0 != id,
    ensures
        with_status(table, id, status) == table.push((id, status)),
    decreases table.len(),
{
    if table.len() == 0 {
        assert(with_status(table, id, status) =~= table.push((id, status)));
    } else {
        lemma_with_status_new(table.skip(1), id, status);
        assert(with_status(table, id, status) =~= table.push((id, status)));
    }
}

/// Checks every mod of the list that has a descriptor. `latest` holds, in
/// the order of the list, what the catalog said of each mod; a mod for
/// which nothing was handed over counts as not answered for. A mod whose
/// check fails is passed over.
pub fn check_all_mods_status(mod_list: &Vec<Mod>, latest: &Vec<Option<String>>) -> (table: Vec<
    (String, ModStatus),
>)
    ensures
        table_view(table@) == statuses_of(
            mod_list.deep_view(),
            latest.deep_view(),
            mod_list.len() as int,
        ),
{
    let mut table: Vec<(String, ModStatus)> = Vec::new();
    let mut i: usize = 0;
    assert(table_view(table@) =~= StatusTable::empty());
    while i < mod_list.len()
        invariant
            i <= mod_list.len(),
            table_view(table@) == statuses_of(mod_list.deep_view(), latest.deep_view(), i as int),
        decreases mod_list.len() - i,
    {
        let subject = &mod_list[i];
        if subject.info.is_some() {
            let answer = if i < latest.len() {
                latest[i].clone()
            } else {
                None
            };
            assert(answer.deep_view() == latest_at(latest.deep_view(), i as int));
            match check_mod_status_internal(subject.id.as_str(), mod_list, answer) {
                Ok(status) => {
                    enter_status(&mut table, subject.id.clone(), status);
                },
                Err(_) => {},
            }
        }
        i += 1;
    }
    table
}

/// Why a dependency is to be installed.
#[derive(Debug, Clone, Copy, PartialEq, Eq, Structural)]
pub enum InstallReason {
    /// It is not installed.
    Missing,
    /// It is installed in too old a version.
    Outdated,
}

/// One dependency to install.
#[derive(Debug)]
pub struct InstallStep {
    pub modid: String,
    pub reason: InstallReason,
}

/// The contents of an [`InstallStep`].
pub struct InstallStepView {
    pub modid: Seq<char>,
    pub reason: InstallReason,
}

impl DeepView for InstallStep {
    type V = InstallStepView;

    open spec fn deep_view(&self) -> InstallStepView {
        InstallStepView { modid: self.modid@, reason: self.reason }
    }
}

/// The dependencies to install for a report: the missing ones in their
/// order, then the outdated ones in theirs.
pub open spec fn steps_for(status: ModStatusView) -> Seq<InstallStepView> {
    Seq::new(
        status.missing_dependencies.len(),
        |i: int|
            InstallStepView {
                modid: status.missing_dependencies[i].modid,
                reason: InstallReason::Missing,
            },
    ) + Seq::new(
        status.outdated_dependencies.len(),
        |i: int|
            InstallStepView {
                modid: status.outdated_dependencies[i].modid,
                reason: InstallReason::Outdated,
            },
    )
}

/// Lays out what is to be installed to mend the dependencies of a mod.
pub fn install_plan(status: &ModStatus) -> (steps: Vec<InstallStep>)
    ensures
        steps.deep_view() == steps_for(status.deep_view()),
{
    let mut steps: Vec<InstallStep> = Vec::new();
    let ghost shown = status.deep_view();
    let mut i: usize = 0;
    while i < status.missing_dependencies.len()
        invariant
            i <= status.missing_dependencies.len(),
            shown == status.deep_view(),
            steps.len() == i,
            forall|k: int|
                0 <= k < i ==> steps@[k].deep_view() == (InstallStepView {
                    modid: shown.missing_dependencies[k].modid,
                    reason: InstallReason::Missing,
                }),
        decreases status.missing_dependencies.len() - i,
    {
        steps.push(
            InstallStep {
                modid: status.missing_dependencies[i].modid.clone(),
                reason: InstallReason::Missing,
            },
        );
        i += 1;
    }
    let missing: usize = status.missing_dependencies.len();
    let mut j: usize = 0;
    while j < status.outdated_dependencies.len()
        invariant
            j <= status.outdated_dependencies.len(),
            shown == status.deep_view(),
            missing == status.missing_dependencies.len(),
            steps.len() == missing + j,
            forall|k: int|
                0 <= k < missing ==> steps@[k].deep_view() == (InstallStepView {
                    modid: shown.missing_dependencies[k].modid,
                    reason: InstallReason::Missing,
                }),
            forall|k: int|
                0 <= k < j ==> steps@[missing + k].deep_view() == (InstallStepView {
                    modid: shown.outdated_dependencies[k].modid,
                    reason: InstallReason::Outdated,
                }),
        decreases status.outdated_dependencies.len() - j,
    {
        steps.push(
            InstallStep {
                modid: status.outdated_dependencies[j].modid.clone(),
                reason: InstallReason::Outdated,
            },
        );
        j += 1;
    }
    assert(steps.deep_view() =~= steps_for(shown));
    steps
}

/// The part of an installation at which it can fail.
#[derive(Debug, Clone, Copy, PartialEq, Eq, Structural)]
pub enum InstallStage {
    /// Asking the catalog where the dependency can be had.
    ResolveUrl,
    /// Fetching the dependency.
    Download,
}

/// What is said when a step fails. The whole mending stops there, and the
/// text names the dependency.
pub open spec fn failure_text(
    modid: Seq<char>,
    reason: InstallReason,
    stage: InstallStage,
    cause: Seq<char>,
) -> Seq<char> {
    (match stage {
        InstallStage::ResolveUrl => "Failed to get download URL for dependency "@,
        InstallStage::Download => match reason {
            InstallReason::Missing => "Failed to download dependency "@,
            InstallReason::Outdated => "Failed to update dependency "@,
        },
    }) + modid + ": "@ + cause
}

/// Words the failure of a step.
pub fn install_failure(step: &InstallStep, stage: InstallStage, cause: &str) -> (text: String)
    ensures
        text@ == failure_text(step.modid@, step.reason, stage, cause@),
{
    let head = match stage {
        InstallStage::ResolveUrl => "Failed to get download URL for dependency ",
        InstallStage::Download => match step.reason {
            InstallReason::Missing => "Failed to download dependency ",
            InstallReason::Outdated => "Failed to update dependency ",
        },
    };
    let named = catenate(head, step.modid.as_str());
    let opened = catenate(named.as_str(), ": ");
    catenate(opened.as_str(), cause)
}

/// Why a mod is not updated.
#[derive(Debug, Clone, Copy, PartialEq, Eq, Structural)]
pub enum UpdateError {
    /// The catalog offers no other version than the installed one, or did
    /// not answer.
    AlreadyUpToDate,
}

impl UpdateError {
    /// The failure in words.
    pub fn message(&self) -> (r: String)
        ensures
            r@ == "Mod is already up to date"@,
    {
        owned("Mod is already up to date")
    }
}

/// Whether a mod with this report is to be updated: it is exactly when an
/// update is on offer.
pub fn update_wanted(status: &ModStatus) -> (r: Result<(), UpdateError>)
    ensures
        r is Ok <==> status.has_update,
{
    if status.has_update {
        Ok(())
    } else {
        Err(UpdateError::AlreadyUpToDate)
    }
}

} // verus!
