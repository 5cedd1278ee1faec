//! Talking to the mod catalog: which addresses to ask, and how its answers
//! and pages are read. Fetching is left to the caller; everything here
//! works on texts.

use vstd::prelude::*;
use vstd::utf8::encode_utf8;
use crate::json::{
    field_of, find_member, items_view, lemma_array_view, lemma_object_view, member, parse_json,
    parsed_document, Json, JsonValue,
};
use crate::text::{
    after_last, catenate, contains, decimal, ends_with, has_infix, has_prefix, has_suffix,
    last_after, lowercase, owned, replace_all, replaced, starts_with, str_eq, to_decimal,
    to_lowercase, trim, trimmed,
};

verus! {

/// One release of a mod in the catalog.
#[derive(Debug)]
pub struct ModRelease {
    /// The full address of the release's file.
    pub mainfile: String,
}

impl DeepView for ModRelease {
    type V = Seq<char>;

    open spec fn deep_view(&self) -> Seq<char> {
        self.mainfile@
    }
}

impl Clone for ModRelease {
    fn clone(&self) -> (r: Self)
        ensures
            r.deep_view() == self.deep_view(),
    {
        ModRelease { mainfile: self.mainfile.clone() }
    }
}

/// One mod of a search answer.
#[derive(Debug)]
pub struct ModSearchItem {
    pub id: Option<u64>,
    pub modid: Option<String>,
    pub name: Option<String>,
    pub description: Option<String>,
    pub author: Option<String>,
    pub thumbnail: Option<String>,
    pub category: Option<String>,
    pub tags: Option<Vec<String>>,
    pub releases: Option<Vec<ModRelease>>,
}

/// The contents of a [`ModSearchItem`].
pub struct ModSearchItemView {
    pub id: Option<u64>,
    pub modid: Option<Seq<char>>,
    pub name: Option<Seq<char>>,
    pub description: Option<Seq<char>>,
    pub author: Option<Seq<char>>,
    pub thumbnail: Option<Seq<char>>,
    pub category: Option<Seq<char>>,
    pub tags: Option<Seq<Seq<char>>>,
    pub releases: Option<Seq<Seq<char>>>,
}

impl DeepView for ModSearchItem {
    type V = ModSearchItemView;

    open spec fn deep_view(&self) -> ModSearchItemView {
        ModSearchItemView {
            id: self.id,
            modid: self.modid.deep_view(),
            name: self.name.deep_view(),
            description: self.description.deep_view(),
            author: self.author.deep_view(),
            thumbnail: self.thumbnail.deep_view(),
            category: self.category.deep_view(),
            tags: self.tags.deep_view(),
            releases: self.releases.deep_view(),
        }
    }
}

impl Clone for ModSearchItem {
    fn clone(&self) -> (r: Self)
        ensures
            r.deep_view() == self.deep_view(),
    {
        let tags = match &self.tags {
            Some(tags) => Some(tags.clone()),
            None => None,
        };
        let releases = match &self.releases {
            Some(releases) => Some(releases.clone()),
            None => None,
        };
        ModSearchItem {
            id: self.id,
            modid: self.modid.clone(),
            name: self.name.clone(),
            description: self.description.clone(),
            author: self.author.clone(),
            thumbnail: self.thumbnail.clone(),
            category: self.category.clone(),
            tags,
            releases,
        }
    }
}

/// The catalog's answer to a search.
#[derive(Debug)]
pub struct ModSearchResult {
    pub status_code: Option<u16>,
    pub mods: Vec<ModSearchItem>,
}

impl Clone for ModSearchResult {
    fn clone(&self) -> (r: Self)
        ensures
            r.status_code == self.status_code,
            r.mods.deep_view() == self.mods.deep_view(),
    {
        ModSearchResult { status_code: self.status_code, mods: self.mods.clone() }
    }
}

/// The answer that stands for a search that did not go through: no mods,
/// and the status of a failure on the other side.
pub fn failed_search() -> (r: ModSearchResult)
    ensures
        r.status_code == Some(500u16),
        r.mods@.len() == 0,
{
    ModSearchResult { status_code: Some(500), mods: Vec::new() }
}

/// The address under which the catalog answers for one mod; the mod's
/// identifier follows.
pub open spec fn mod_endpoint() -> Seq<char> {
    "http://mods.vintagestory.at/api/mod/"@
}

/// The same address as the catalog's pages sometimes give it.
pub open spec fn secure_mod_endpoint() -> Seq<char> {
    "https://mods.vintagestory.at/api/mod/"@
}

/// The catalog's host, as the prefix of the addresses of its files.
pub open spec fn catalog_host() -> Seq<char> {
    "https://mods.vintagestory.at"@
}

/// The address to ask for the mod `mod_id`, given an address at which the
/// mod was seen, if any. An address of the catalog's interface is taken as
/// it is, but over plain HTTP; an address of the older interface or of the
/// mod's page gives the identifier that follows its marker; any other
/// address is of no account.
pub open spec fn api_url_of(mod_id: Seq<char>, mod_url: Option<Seq<char>>) -> Seq<char> {
    match mod_url {
        Some(url) => if has_infix(url, "/api/mod/"@) {
            replaced(url, secure_mod_endpoint(), mod_endpoint())
        } else if has_infix(url, "/api/mods/"@) {
            mod_endpoint() + after_last(url, "/api/mods/"@)
        } else if has_infix(url, "/show/mod/"@) {
            mod_endpoint() + after_last(url, "/show/mod/"@)
        } else {
            mod_endpoint() + mod_id
        },
        None => mod_endpoint() + mod_id,
    }
}

/// The address to ask for the mod `mod_id`.
pub fn api_url_for(mod_id: &str, mod_url: Option<&str>) -> (url: String)
    ensures
        url@ == api_url_of(
            mod_id@,
            match mod_url {
                Some(u) => Some(u@),
                None => None,
            },
        ),
{
    let endpoint = "http://mods.vintagestory.at/api/mod/";
    match mod_url {
        Some(seen) => {
            if contains(seen, "/api/mod/") {
                replace_all(seen, "https://mods.vintagestory.at/api/mod/", endpoint)
            } else if contains(seen, "/api/mods/") {
                let id = last_after(seen, "/api/mods/");
                catenate(endpoint, id.as_str())
            } else if contains(seen, "/show/mod/") {
                let id = last_after(seen, "/show/mod/");
                catenate(endpoint, id.as_str())
            } else {
                catenate(endpoint, mod_id)
            }
        },
        None => catenate(endpoint, mod_id),
    }
}

/// The address of the catalog's page for the mod `mod_id`.
pub fn mod_page_url(mod_id: &str) -> (url: String)
    ensures
        url@ == catalog_host() + "/show/mod/"@ + mod_id@,
{
    let base = catenate("https://mods.vintagestory.at", "/show/mod/");
    catenate(base.as_str(), mod_id)
}

/// A release of a catalog answer is in order when it is an object that
/// names its file.
pub open spec fn release_names_file(release: JsonValue) -> bool {
    field_of(release, "mainfile"@) matches Some(JsonValue::Text(_))
}

/// The address of the newest file that a catalog answer offers: the file
/// of the release listed first. An answer whose `mod` member is no
/// object, or whose releases are no list of releases that each name their
/// file, offers none.
pub open spec fn download_url_in(answer: JsonValue) -> Option<Seq<char>> {
    match field_of(answer, "mod"@) {
        Some(JsonValue::Object(data)) => match member(data, "releases"@) {
            Some(JsonValue::Array(releases)) => if releases.len() > 0 && forall|i: int|
                0 <= i < releases.len() ==> release_names_file(#[trigger] releases[i]) {
                match field_of(releases[0], "mainfile"@) {
                    Some(JsonValue::Text(file)) => Some(file),
                    _ => None,
                }
            } else {
                None
            },
            _ => None,
        },
        _ => None,
    }
}

fn names_file(release: &Json) -> (r: bool)
    ensures
        r == release_names_file(release.deep_view()),
{
    match release.field("mainfile") {
        Some(Json::Text(_)) => true,
        _ => false,
    }
}

/// Reads the address of the newest file out of a catalog answer.
#[verifier::loop_isolation(false)]
pub fn download_url(answer: &Json) -> (r: Option<String>)
    ensures
        r.deep_view() == download_url_in(answer.deep_view()),
{
    let data = match answer.field("mod") {
        Some(Json::Object(data)) => data,
        _ => {
            return None;
        },
    };
    proof {
        lemma_object_view(*data);
    }
    let releases = match find_member(data, "releases") {
        Some(Json::Array(releases)) => releases,
        _ => {
            return None;
        },
    };
    proof {
        lemma_array_view(*releases);
    }
    let ghost all = items_view(releases@);
    let mut i: usize = 0;
    while i < releases.len()
        invariant
            i <= releases.len(),
            forall|k: int| 0 <= k < i ==> release_names_file(#[trigger] all[k]),
        decreases releases.len() - i,
    {
        if !names_file(&releases[i]) {
            assert(!release_names_file(all[i as int]));
            return None;
        }
        i += 1;
    }
    if releases.len() == 0 {
        return None;
    }
    match releases[0].field("mainfile") {
        Some(Json::Text(file)) => Some(file.clone()),
        _ => None,
    }
}

/// The address of the newest file that the text of a catalog answer
/// offers; none where the text is not JSON.
pub open spec fn download_url_of(body: Seq<char>) -> Option<Seq<char>> {
    match parsed_document(body) {
        Some(answer) => download_url_in(answer),
        None => None,
    }
}

/// Reads the address of the newest file out of the text of a catalog
/// answer.
pub fn download_url_from_answer(body: &str) -> (r: Option<String>)
    ensures
        r.deep_view() == download_url_of(body@),
{
    match parse_json(body) {
        Some(answer) => download_url(&answer),
        None => None,
    }
}

/// What the `regex` crate finds of `pattern` in `text`: for each match,
/// in order, the text of capture group `group`, or nothing where the
/// group took no part in the match. There is no answer at all where the
/// crate does not accept the pattern.
pub uninterp spec fn captured(pattern: Seq<char>, text: Seq<char>, group: usize) -> Option<
    Seq<Option<Seq<char>>>,
>;

/// Calls `regex::Regex::new` and, where the pattern is accepted,
/// `Regex::captures_iter` on the text, and takes of each match the group
/// asked for with `Captures::get`. The contract only names the result.
#[verifier::external_body]
fn capture_groups(pattern: &str, text: &str, group: usize) -> (r: Option<Vec<Option<String>>>)
    ensures
        r.deep_view() == captured(pattern@, text@, group),
{
    match regex::Regex::new(pattern) {
        Ok(re) => Some(
            re.captures_iter(text).map(|c| c.get(group).map(|m| m.as_str().to_owned())).collect(),
        ),
        Err(_) => None,
    }
}

/// What a link to a file on a catalog page looks like.
pub open spec fn direct_link_pattern() -> Seq<char> {
    "/download/(\\d+)/[^\"'\\s<>]+\\.(zip|tar|tar\\.gz)"@
}

/// What a reference to a file on a catalog page looks like.
pub open spec fn href_pattern() -> Seq<char> {
    "href=[\"']([^\"']*download[^\"']*\\.(zip|tar|tar\\.gz))"@
}

/// A link as a full address: what starts like an address stays, and what
/// is a path on the catalog's host gets the host in front.
pub open spec fn direct_address(link: Seq<char>) -> Seq<char> {
    if has_prefix(link, "http"@) {
        link
    } else if has_prefix(link, "/"@) {
        catalog_host() + link
    } else {
        catalog_host() + "/"@ + link
    }
}

/// A reference as a full address.
pub open spec fn href_address(link: Seq<char>) -> Seq<char> {
    if has_prefix(link, "/"@) {
        catalog_host() + link
    } else if !has_prefix(link, "http"@) {
        catalog_host() + "/"@ + link
    } else {
        link
    }
}

/// The address of the first link found.
pub open spec fn first_direct(found: Seq<Option<Seq<char>>>) -> Option<Seq<char>>
    decreases found.len(),
{
    if found.len() == 0 {
        None
    } else {
        match found[0] {
            Some(link) => Some(direct_address(link)),
            None => first_direct(found.skip(1)),
        }
    }
}

/// The first reference found whose address leads to a download.
pub open spec fn first_href(found: Seq<Option<Seq<char>>>) -> Option<Seq<char>>
    decreases found.len(),
{
    if found.len() == 0 {
        None
    } else {
        match found[0] {
            Some(link) => if has_infix(href_address(link), "/download/"@) {
                Some(href_address(link))
            } else {
                first_href(found.skip(1))
            },
            None => first_href(found.skip(1)),
        }
    }
}

/// Makes a full address of a link.
pub fn full_direct_address(link: &str) -> (r: String)
    ensures
        r@ == direct_address(link@),
{
    if starts_with(link, "http") {
        owned(link)
    } else if starts_with(link, "/") {
        catenate("https://mods.vintagestory.at", link)
    } else {
        let base = catenate("https://mods.vintagestory.at", "/");
        catenate(base.as_str(), link)
    }
}

/// Makes a full address of a reference.
pub fn full_href_address(link: &str) -> (r: String)
    ensures
        r@ == href_address(link@),
{
    if starts_with(link, "/") {
        catenate("https://mods.vintagestory.at", link)
    } else if !starts_with(link, "http") {
        let base = catenate("https://mods.vintagestory.at", "/");
        catenate(base.as_str(), link)
    } else {
        owned(link)
    }
}

/// Picks the address of the first link among what was found of links.
pub fn pick_direct_link(found: &Vec<Option<String>>) -> (r: Option<String>)
    ensures
        r.deep_view() == first_direct(found.deep_view()),
{
    let ghost all = found.deep_view();
    let mut i: usize = 0;
    assert(all.skip(0) =~= all);
    while i < found.len()
        invariant
            i <= found.len(),
            all == found.deep_view(),
            first_direct(all) == first_direct(all.skip(i as int)),
        decreases found.len() - i,
    {
        proof {
            assert(all.skip(i as int).skip(1) =~= all.skip(i + 1));
            assert(all.skip(i as int)[0] == found@[i as int].deep_view());
        }
        match &found[i] {
            Some(link) => {
                return Some(full_direct_address(link.as_str()));
            },
            None => {},
        }
        i += 1;
    }
    None
}

/// Picks the first reference that leads to a download among what was
/// found of references.
pub fn pick_href_link(found: &Vec<Option<String>>) -> (r: Option<String>)
    ensures
        r.deep_view() == first_href(found.deep_view()),
{
    let ghost all = found.deep_view();
    let mut i: usize = 0;
    assert(all.skip(0) =~= all);
    while i < found.len()
        invariant
            i <= found.len(),
            all == found.deep_view(),
            first_href(all) == first_href(all.skip(i as int)),
        decreases found.len() - i,
    {
        proof {
            assert(all.skip(i as int).skip(1) =~= all.skip(i + 1));
            assert(all.skip(i as int)[0] == found@[i as int].deep_view());
        }
        match &found[i] {
            Some(link) => {
                let address = full_href_address(link.as_str());
                if contains(address.as_str(), "/download/") {
                    return Some(address);
                }
            },
            None => {},
        }
        i += 1;
    }
    None
}

/// Why a catalog page could not be searched.
#[derive(Debug, Clone, Copy, PartialEq, Eq, Structural)]
pub enum ScrapeError {
    /// The pattern for links was not accepted.
    LinkPattern,
    /// The pattern for references was not accepted.
    HrefPattern,
}

/// The address of a mod's file as its catalog page gives it: the first
/// link to a file, and else the first reference that leads to a download.
pub open spec fn scraped_url(html: Seq<char>) -> Result<Option<Seq<char>>, ScrapeError> {
    match captured(direct_link_pattern(), html, 0) {
        None => Err(ScrapeError::LinkPattern),
        Some(links) => match first_direct(links) {
            Some(address) => Ok(Some(address)),
            None => match captured(href_pattern(), html, 1) {
                None => Err(ScrapeError::HrefPattern),
                Some(references) => Ok(first_href(references)),
            },
        },
    }
}

/// The contents of the outcome of searching a page.
pub open spec fn scrape_outcome(r: Result<Option<String>, ScrapeError>) -> Result<
    Option<Seq<char>>,
    ScrapeError,
> {
    match r {
        Ok(address) => Ok(address.deep_view()),
        Err(e) => Err(e),
    }
}

/// Searches the text of a mod's catalog page for the address of its file.
pub fn scrape_download_url(html: &str) -> (r: Result<Option<String>, ScrapeError>)
    ensures
        scrape_outcome(r) == scraped_url(html@),
{
    let links = match capture_groups("/download/(\\d+)/[^\"'\\s<>]+\\.(zip|tar|tar\\.gz)", html, 0) {
        Some(links) => links,
        None => {
            return Err(ScrapeError::LinkPattern);
        },
    };
    match pick_direct_link(&links) {
        Some(address) => {
            return Ok(Some(address));
        },
        None => {},
    }
    let references = match capture_groups(
        "href=[\"']([^\"']*download[^\"']*\\.(zip|tar|tar\\.gz))",
        html,
        1,
    ) {
        Some(references) => references,
        None => {
            return Err(ScrapeError::HrefPattern);
        },
    };
    Ok(pick_href_link(&references))
}

/// What is said when neither the catalog nor its page gives an address.
pub fn no_download_url_message(mod_id: &str) -> (r: String)
    ensures
        r@ == "Could not find download URL for "@ + mod_id@,
{
    catenate("Could not find download URL for ", mod_id)
}

/// A byte that needs no escaping in an address: a letter or digit of
/// ASCII, or one of `-`, `.`, `_`, `~`.
pub open spec fn unreserved(b: u8) -> bool {
    (0x30 <= b <= 0x39) || (0x41 <= b <= 0x5a) || (0x61 <= b <= 0x7a) || b == 0x2d || b == 0x2e
        || b == 0x5f || b == 0x7e
}

/// The sixteen hexadecimal digits, uppercase.
pub open spec fn upper_hex_digits() -> Seq<char> {
    seq!['0', '1', '2', '3', '4', '5', '6', '7', '8', '9', 'A', 'B', 'C', 'D', 'E', 'F']
}

/// A byte as it stands in an address: itself where it needs no escaping,
/// and else `%` and its two hexadecimal digits.
pub open spec fn escaped_byte(b: u8) -> Seq<char> {
    if unreserved(b) {
        seq![b as char]
    } else {
        seq!['%', upper_hex_digits()[b as int / 16], upper_hex_digits()[b as int % 16]]
    }
}

/// Bytes as they stand in an address.
pub open spec fn escaped_bytes(bytes: Seq<u8>) -> Seq<char>
    decreases bytes.len(),
{
    if bytes.len() == 0 {
        Seq::empty()
    } else {
        escaped_bytes(bytes.drop_last()) + escaped_byte(bytes.last())
    }
}

/// A text as it stands in an address: its UTF-8 bytes, escaped.
pub open spec fn url_encoded(text: Seq<char>) -> Seq<char> {
    escaped_bytes(encode_utf8(text))
}

/// Calls `urlencoding::encode`, which percent-encodes every byte of the
/// text's UTF-8 form except ASCII letters and digits and `-`, `_`, `.`,
/// `~`, with uppercase hexadecimal digits.
#[verifier::external_body]
fn url_encode(text: &str) -> (r: String)
    ensures
        r@ == url_encoded(text@),
{
    urlencoding::encode(text).into_owned()
}

/// The address under which the catalog answers searches.
pub open spec fn search_endpoint() -> Seq<char> {
    "http://mods.vintagestory.at/api/mods"@
}

/// The part of a search address that carries the words searched for;
/// empty where there are none or only white space.
pub open spec fn text_parameter(query: Option<Seq<char>>) -> Seq<char> {
    match query {
        Some(q) => if trimmed(q).len() == 0 {
            Seq::empty()
        } else {
            "text="@ + url_encoded(q)
        },
        None => Seq::empty(),
    }
}

/// The part of a search address that carries the page; empty for the
/// first page.
pub open spec fn page_parameter(page: Option<usize>) -> Seq<char> {
    match page {
        Some(p) => if p > 1 {
            "page="@ + decimal(p as nat)
        } else {
            Seq::empty()
        },
        None => Seq::empty(),
    }
}

/// The address of a search: the endpoint, and after a `?` the parameters
/// that are not empty, with `&` between them.
pub open spec fn search_url_of(query: Option<Seq<char>>, page: Option<usize>) -> Seq<char> {
    let text = text_parameter(query);
    let paged = page_parameter(page);
    if text.len() == 0 && paged.len() == 0 {
        search_endpoint()
    } else if paged.len() == 0 {
        search_endpoint() + "?"@ + text
    } else if text.len() == 0 {
        search_endpoint() + "?"@ + paged
    } else {
        search_endpoint() + "?"@ + text + "&"@ + paged
    }
}

/// The address that searches the catalog for `query` and shows `page`.
pub fn search_url(query: Option<&str>, page: Option<usize>) -> (url: String)
    ensures
        url@ == search_url_of(
            match query {
                Some(q) => Some(q@),
                None => None,
            },
            page,
        ),
{
    proof {
        reveal_strlit("text=");
        reveal_strlit("page=");
        reveal_strlit("");
    }
    let text = match query {
        Some(q) => {
            if trim(q).as_str().unicode_len() == 0 {
                owned("")
            } else {
                let encoded = url_encode(q);
                catenate("text=", encoded.as_str())
            }
        },
        None => owned(""),
    };
    let paged = match page {
        Some(p) => {
            if p > 1 {
                let number = to_decimal(p);
                catenate("page=", number.as_str())
            } else {
                owned("")
            }
        },
        None => owned(""),
    };
    let endpoint = "http://mods.vintagestory.at/api/mods";
    let has_text = text.as_str().unicode_len() > 0;
    let has_page = paged.as_str().unicode_len() > 0;
    if !has_text && !has_page {
        owned(endpoint)
    } else {
        let mut url = catenate(endpoint, "?");
        if has_text {
            url.append(text.as_str());
            if has_page {
                url.append("&");
            }
        }
        if has_page {
            url.append(paged.as_str());
        }
        url
    }
}

/// The name of an entry says that the entry is a mod descriptor: it is
/// called `modinfo.json`, at the root of the archive or in a folder.
pub open spec fn names_descriptor(name: Seq<char>) -> bool {
    name == "modinfo.json"@ || has_suffix(name, "/modinfo.json"@)
}

/// The name of an entry has the descriptor's name somewhere in it,
/// whatever the case.
pub open spec fn mentions_descriptor(name: Seq<char>) -> bool {
    has_infix(lowercase(name), "modinfo.json"@)
}

/// Whether an archive with these entries looks like a mod: one of its
/// entries is a descriptor by its name, or at least has the descriptor's
/// name in it.
pub open spec fn looks_like_mod(names: Seq<Seq<char>>) -> bool {
    exists|i: int|
        0 <= i < names.len() && (names_descriptor(#[trigger] names[i]) || mentions_descriptor(
            names[i],
        ))
}

/// Whether an archive with these entries looks like a mod.
pub fn has_descriptor_entry(names: &Vec<String>) -> (r: bool)
    ensures
        r == looks_like_mod(names.deep_view()),
{
    let ghost all = names.deep_view();
    let mut i: usize = 0;
    while i < names.len()
        invariant
            i <= names.len(),
            all == names.deep_view(),
            forall|k: int|
                0 <= k < i ==> !(names_descriptor(#[trigger] all[k]) || mentions_descriptor(
                    all[k],
                )),
        decreases names.len() - i,
    {
        let name = names[i].as_str();
        if str_eq(name, "modinfo.json") || ends_with(name, "/modinfo.json") {
            assert(names_descriptor(all[i as int]));
            return true;
        }
        let lower = to_lowercase(name);
        if contains(lower.as_str(), "modinfo.json") {
            assert(mentions_descriptor(all[i as int]));
            return true;
        }
        i += 1;
    }
    false
}

} // verus!
