use std::io::Write;
use vintage_story_mod_loader::archive::{find_descriptor, select_descriptor, ArchiveError, EntryText};

fn zip_with(entries: &[(&str, &[u8])]) -> Vec<u8> {
    let mut writer = zip::ZipWriter::new(std::io::Cursor::new(Vec::new()));
    for (name, bytes) in entries {
        writer.start_file(*name, zip::write::FileOptions::default()).unwrap();
        writer.write_all(bytes).unwrap();
    }
    writer.finish().unwrap().into_inner()
}

#[test]
fn descriptor_at_the_root() {
    let bytes = zip_with(&[("readme.txt", b"hi"), ("modinfo.json", b"{\"modid\":\"a\"}")]);
    assert_eq!(find_descriptor(bytes), Ok("{\"modid\":\"a\"}".to_string()));
}

#[test]
fn descriptor_in_a_customary_folder() {
    let in_mod = zip_with(&[("mod/modinfo.json", b"in mod")]);
    assert_eq!(find_descriptor(in_mod), Ok("in mod".to_string()));
    let in_assets = zip_with(&[("assets/modinfo.json", b"in assets")]);
    assert_eq!(find_descriptor(in_assets), Ok("in assets".to_string()));
}

#[test]
fn the_first_place_wins() {
    let bytes = zip_with(&[
        ("assets/modinfo.json", b"third"),
        ("mod/modinfo.json", b"second"),
        ("modinfo.json", b"first"),
    ]);
    assert_eq!(find_descriptor(bytes), Ok("first".to_string()));
}

#[test]
fn archive_without_descriptor() {
    let bytes = zip_with(&[("other/modinfo.json", b"elsewhere"), ("a.txt", b"x")]);
    assert_eq!(find_descriptor(bytes), Err(ArchiveError::NoDescriptor));
    assert_eq!(find_descriptor(zip_with(&[])), Err(ArchiveError::NoDescriptor));
}

#[test]
fn bytes_that_are_no_archive() {
    assert_eq!(find_descriptor(b"not a zip file".to_vec()), Err(ArchiveError::NotAnArchive));
    assert_eq!(find_descriptor(Vec::new()), Err(ArchiveError::NotAnArchive));
}

#[test]
fn descriptor_that_is_no_text() {
    let bytes = zip_with(&[("modinfo.json", &[0xff, 0xfe, 0x00]), ("mod/modinfo.json", b"fine")]);
    assert_eq!(find_descriptor(bytes), Err(ArchiveError::UnreadableDescriptor));
}

#[test]
fn selection_among_outcomes() {
    assert_eq!(select_descriptor(&vec![]), Err(ArchiveError::NoDescriptor));
    assert_eq!(
        select_descriptor(&vec![EntryText::Missing, EntryText::Text("x".to_string())]),
        Ok("x".to_string())
    );
    assert_eq!(
        select_descriptor(&vec![
            EntryText::Missing,
            EntryText::Unreadable,
            EntryText::Text("x".to_string())
        ]),
        Err(ArchiveError::UnreadableDescriptor)
    );
    assert_eq!(
        select_descriptor(&vec![EntryText::Missing, EntryText::Missing, EntryText::Missing]),
        Err(ArchiveError::NoDescriptor)
    );
}
