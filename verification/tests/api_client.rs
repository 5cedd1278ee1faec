use vintage_story_mod_loader::api_client::{
    api_url_for, download_url_from_answer, failed_search, full_direct_address, full_href_address,
    has_descriptor_entry, mod_page_url, no_download_url_message, pick_direct_link, pick_href_link,
    scrape_download_url, search_url,
};

#[test]
fn catalog_address_for_a_mod() {
    assert_eq!(api_url_for("foo", None), "http://mods.vintagestory.at/api/mod/foo");
    assert_eq!(
        api_url_for("foo", Some("https://mods.vintagestory.at/api/mod/123")),
        "http://mods.vintagestory.at/api/mod/123"
    );
    assert_eq!(
        api_url_for("foo", Some("http://mods.vintagestory.at/api/mod/123")),
        "http://mods.vintagestory.at/api/mod/123"
    );
    assert_eq!(
        api_url_for("foo", Some("https://mods.vintagestory.at/api/mods/77")),
        "http://mods.vintagestory.at/api/mod/77"
    );
    assert_eq!(
        api_url_for("foo", Some("https://mods.vintagestory.at/show/mod/4242")),
        "http://mods.vintagestory.at/api/mod/4242"
    );
    assert_eq!(
        api_url_for("foo", Some("https://mods.vintagestory.at/carryon")),
        "http://mods.vintagestory.at/api/mod/foo"
    );
    assert_eq!(
        api_url_for("foo", Some("https://example.org/elsewhere")),
        "http://mods.vintagestory.at/api/mod/foo"
    );
    assert_eq!(mod_page_url("foo"), "https://mods.vintagestory.at/show/mod/foo");
    assert_eq!(no_download_url_message("foo"), "Could not find download URL for foo");
}

#[test]
fn download_address_from_an_answer() {
    let answer = r#"{"statuscode":"200","mod":{"releases":[
        {"mainfile":"https://mods.vintagestory.at/download/9/new.zip"},
        {"mainfile":"https://mods.vintagestory.at/download/8/old.zip"}]}}"#;
    assert_eq!(
        download_url_from_answer(answer),
        Some("https://mods.vintagestory.at/download/9/new.zip".to_string())
    );
    assert_eq!(download_url_from_answer(r#"{"mod":{"releases":[]}}"#), None);
    assert_eq!(download_url_from_answer(r#"{"mod":{"releases":[{"mainfile":"a"},{}]}}"#), None);
    assert_eq!(download_url_from_answer(r#"{"mod":{"releases":[{"mainfile":1}]}}"#), None);
    assert_eq!(download_url_from_answer(r#"{"statuscode":"404","mod":null}"#), None);
    assert_eq!(download_url_from_answer("not json"), None);
}

#[test]
fn links_become_full_addresses() {
    assert_eq!(full_direct_address("http://x/y.zip"), "http://x/y.zip");
    assert_eq!(
        full_direct_address("/download/1/a.zip"),
        "https://mods.vintagestory.at/download/1/a.zip"
    );
    assert_eq!(
        full_direct_address("download/1/a.zip"),
        "https://mods.vintagestory.at/download/1/a.zip"
    );
    assert_eq!(
        full_href_address("/download/1/a.zip"),
        "https://mods.vintagestory.at/download/1/a.zip"
    );
    assert_eq!(full_href_address("files/a.zip"), "https://mods.vintagestory.at/files/a.zip");
    assert_eq!(full_href_address("https://cdn/download/a.zip"), "https://cdn/download/a.zip");
}

#[test]
fn picking_among_what_was_found() {
    assert_eq!(pick_direct_link(&vec![]), None);
    assert_eq!(
        pick_direct_link(&vec![None, Some("/download/1/a.zip".to_string())]),
        Some("https://mods.vintagestory.at/download/1/a.zip".to_string())
    );
    assert_eq!(
        pick_href_link(&vec![
            Some("mydownloads.zip".to_string()),
            None,
            Some("/download/2/b.zip".to_string()),
            Some("/download/3/c.zip".to_string())
        ]),
        Some("https://mods.vintagestory.at/download/2/b.zip".to_string())
    );
    assert_eq!(pick_href_link(&vec![Some("downloadable.zip".to_string())]), None);
}

#[test]
fn scraping_a_page() {
    let page = r#"<html><a class="x" href="/download/123/CarryOn_v1.2.zip">get</a>
        <a href="/download/124/Other.zip">other</a></html>"#;
    assert_eq!(
        scrape_download_url(page),
        Ok(Some("https://mods.vintagestory.at/download/123/CarryOn_v1.2.zip".to_string()))
    );
    let by_reference = r#"<a href='https://cdn.example/download/latest/mod.tar.gz'>file</a>"#;
    assert_eq!(
        scrape_download_url(by_reference),
        Ok(Some("https://cdn.example/download/latest/mod.tar".to_string()))
    );
    let no_download_path = r#"<a href="files/downloadable.zip">file</a>"#;
    assert_eq!(scrape_download_url(no_download_path), Ok(None));
    assert_eq!(scrape_download_url("<html>nothing here</html>"), Ok(None));
    assert_eq!(scrape_download_url(""), Ok(None));
}

#[test]
fn search_addresses() {
    let base = "http://mods.vintagestory.at/api/mods";
    assert_eq!(search_url(None, None), base);
    assert_eq!(search_url(Some(""), Some(1)), base);
    assert_eq!(search_url(Some("  \t "), Some(0)), base);
    assert_eq!(search_url(Some("carry"), None), format!("{}?text=carry", base));
    assert_eq!(
        search_url(Some("carry on & more"), Some(3)),
        format!("{}?text=carry%20on%20%26%20more&page=3", base)
    );
    assert_eq!(search_url(Some("größe~1_a-b.c"), None), format!("{}?text=gr%C3%B6%C3%9Fe~1_a-b.c", base));
    assert_eq!(search_url(None, Some(12)), format!("{}?page=12", base));
    assert_eq!(search_url(Some(" padded "), Some(2)), format!("{}?text=%20padded%20&page=2", base));
}

#[test]
fn failed_search_is_an_empty_answer() {
    let answer = failed_search();
    assert_eq!(answer.status_code, Some(500));
    assert!(answer.mods.is_empty());
}

#[test]
fn archives_that_look_like_mods() {
    let names = |list: &[&str]| list.iter().map(|n| n.to_string()).collect::<Vec<String>>();
    assert!(has_descriptor_entry(&names(&["a.txt", "modinfo.json"])));
    assert!(has_descriptor_entry(&names(&["sub/dir/modinfo.json"])));
    assert!(has_descriptor_entry(&names(&["ModInfo.JSON"])));
    assert!(has_descriptor_entry(&names(&["old-modinfo.json.bak"])));
    assert!(!has_descriptor_entry(&names(&["modinfo.txt", "info.json"])));
    assert!(!has_descriptor_entry(&names(&[])));
}
