//! Reading the descriptor out of a packaged mod. A packaged mod is a zip
//! archive; its descriptor lies at the root of the archive or in one of two
//! customary folders.

use vstd::prelude::*;

verus! {

/// `zip::ZipArchive`, an opened archive. Nothing is known of its inside.
#[verifier::external_type_specification]
#[verifier::external_body]
#[verifier::reject_recursive_types(R)]
pub struct ExZipArchive<R>(zip::ZipArchive<R>);

/// `std::io::Cursor`, which lets an archive be read from bytes in memory.
/// Nothing is known of its inside.
#[verifier::external_type_specification]
#[verifier::external_body]
#[verifier::reject_recursive_types(T)]
pub struct ExCursor<T>(std::io::Cursor<T>);

/// `zip::result::ZipError`, the failure of an archive operation. Nothing
/// is known of its inside.
#[verifier::external_type_specification]
#[verifier::external_body]
pub struct ExZipError(zip::result::ZipError);

/// Whether the `zip` crate accepts `bytes` as an archive.
pub uninterp spec fn archive_opens(bytes: Seq<u8>) -> bool;

/// The bytes that an opened archive was read from.
pub uninterp spec fn archive_source(archive: zip::ZipArchive<std::io::Cursor<Vec<u8>>>) -> Seq<u8>;

/// What the archive with these bytes yields for the entry called `name`:
/// nothing where no such entry can be opened, an empty answer where the
/// entry opens but does not decode as text, and else the text.
pub uninterp spec fn archive_entry(bytes: Seq<u8>, name: Seq<char>) -> Option<Option<Seq<char>>>;

/// The outcome of asking an archive for one entry as text.
#[derive(Debug)]
pub enum EntryText {
    /// The archive has no entry of that name, or cannot open it.
    Missing,
    /// The entry opens but its contents cannot be read as text.
    Unreadable,
    /// The text of the entry.
    Text(String),
}

impl EntryText {
    /// The outcome as a plain value.
    pub open spec fn outcome(self) -> Option<Option<Seq<char>>> {
        match self {
            EntryText::Missing => None,
            EntryText::Unreadable => Some(None),
            EntryText::Text(text) => Some(Some(text@)),
        }
    }
}

/// Calls `zip::ZipArchive::new` on the bytes, which reads the central
/// directory. The contract names whether that succeeds and records which
/// bytes the archive stands on.
#[verifier::external_body]
fn open_archive(bytes: Vec<u8>) -> (r: Result<
    zip::ZipArchive<std::io::Cursor<Vec<u8>>>,
    zip::result::ZipError,
>)
    ensures
        r is Ok == archive_opens(bytes@),
        r matches Ok(archive) ==> archive_source(archive) == bytes@,
{
    zip::ZipArchive::new(std::io::Cursor::new(bytes))
}

/// Calls `zip::ZipArchive::by_name_decrypt` with an empty password, which
/// hands every failure back as a value, and reads the entry to its end as
/// UTF-8. The archive stands on the same bytes afterwards; the outcome is
/// named by the bytes and the entry's name.
#[verifier::external_body]
fn read_entry(archive: &mut zip::ZipArchive<std::io::Cursor<Vec<u8>>>, name: &str) -> (r: EntryText)
    ensures
        archive_source(*final(archive)) == archive_source(*old(archive)),
        r.outcome() == archive_entry(archive_source(*old(archive)), name@),
{
    match archive.by_name_decrypt(name, &[]) {
        Ok(Ok(mut file)) => {
            let mut text = String::new();
            match std::io::Read::read_to_string(&mut file, &mut text) {
                Ok(_) => EntryText::Text(text),
                Err(_) => EntryText::Unreadable,
            }
        },
        _ => EntryText::Missing,
    }
}

/// Why no descriptor could be read out of an archive.
#[derive(Debug, Clone, Copy, PartialEq, Eq, Structural)]
pub enum ArchiveError {
    /// The bytes are not a zip archive that can be read.
    NotAnArchive,
    /// A descriptor entry is there but cannot be read as text.
    UnreadableDescriptor,
    /// None of the customary places holds a descriptor.
    NoDescriptor,
}

/// The first outcome that is not `Missing` decides: its text is the
/// descriptor, and an unreadable entry is an error. Where every outcome is
/// `Missing` there is no descriptor.
pub open spec fn first_present(outcomes: Seq<Option<Option<Seq<char>>>>) -> Result<
    Seq<char>,
    ArchiveError,
>
    decreases outcomes.len(),
{
    if outcomes.len() == 0 {
        Err(ArchiveError::NoDescriptor)
    } else {
        match outcomes[0] {
            None => first_present(outcomes.skip(1)),
            Some(None) => Err(ArchiveError::UnreadableDescriptor),
            Some(Some(text)) => Ok(text),
        }
    }
}

/// The outcomes as plain values.
pub open spec fn outcomes_of(entries: Seq<EntryText>) -> Seq<Option<Option<Seq<char>>>> {
    Seq::new(entries.len(), |i: int| entries[i].outcome())
}

/// The contents of the result of a descriptor search.
pub open spec fn found_view(r: Result<String, ArchiveError>) -> Result<Seq<char>, ArchiveError> {
    match r {
        Ok(text) => Ok(text@),
        Err(e) => Err(e),
    }
}

/// Picks the descriptor among the outcomes for the customary places, taken
/// in order.
pub fn select_descriptor(entries: &Vec<EntryText>) -> (r: Result<String, ArchiveError>)
    ensures
        found_view(r) == first_present(outcomes_of(entries@)),
{
    let ghost all = outcomes_of(entries@);
    let mut i: usize = 0;
    assert(all.skip(0) =~= all);
    while i < entries.len()
        invariant
            i <= entries.len(),
            all == outcomes_of(entries@),
            first_present(all) == first_present(all.skip(i as int)),
        decreases entries.len() - i,
    {
        proof {
            assert(all.skip(i as int).skip(1) =~= all.skip(i + 1));
            assert(all.skip(i as int)[0] == entries@[i as int].outcome());
        }
        match &entries[i] {
            EntryText::Missing => {},
            EntryText::Unreadable => {
                return Err(ArchiveError::UnreadableDescriptor);
            },
            EntryText::Text(text) => {
                return Ok(text.clone());
            },
        }
        i += 1;
    }
    Err(ArchiveError::NoDescriptor)
}

/// The places in an archive where a descriptor may lie, in the order in
/// which they are tried.
pub open spec fn descriptor_places() -> Seq<Seq<char>> {
    seq!["modinfo.json"@, "mod/modinfo.json"@, "assets/modinfo.json"@]
}

/// What each place yields in the archive with these bytes.
pub open spec fn place_outcomes(bytes: Seq<u8>) -> Seq<Option<Option<Seq<char>>>> {
    Seq::new(descriptor_places().len(), |i: int| archive_entry(bytes, descriptor_places()[i]))
}

/// The descriptor text of the archive with these bytes.
pub open spec fn descriptor_of(bytes: Seq<u8>) -> Result<Seq<char>, ArchiveError> {
    if archive_opens(bytes) {
        first_present(place_outcomes(bytes))
    } else {
        Err(ArchiveError::NotAnArchive)
    }
}

/// `first_present` looks no further than the first outcome that is not
/// `None`.
proof fn lemma_first_present_prefix(
    outcomes: Seq<Option<Option<Seq<char>>>>,
    n: int,
)
    requires
        0 < n <= outcomes.len(),
        outcomes[n - 1] is Some,
        forall|k: int| 0 <= k < n - 1 ==> outcomes[k] is None,
    ensures
        first_present(outcomes) == first_present(outcomes.take(n)),
    decreases n,
{
    if n > 1 {
        assert(outcomes.take(n).skip(1) =~= outcomes.skip(1).take(n - 1));
        lemma_first_present_prefix(outcomes.skip(1), n - 1);
    }
}

/// Reads the descriptor text out of a packaged mod. The places are tried
/// in order and the first one that the archive can open decides.
pub fn find_descriptor(bytes: Vec<u8>) -> (r: Result<String, ArchiveError>)
    ensures
        found_view(r) == descriptor_of(bytes@),
{
    let mut archive = match open_archive(bytes) {
        Ok(archive) => archive,
        Err(_) => {
            return Err(ArchiveError::NotAnArchive);
        },
    };
    let places: [&str; 3] = ["modinfo.json", "mod/modinfo.json", "assets/modinfo.json"];
    let ghost all = place_outcomes(bytes@);
    let mut entries: Vec<EntryText> = Vec::new();
    let mut i: usize = 0;
    while i < 3
        invariant
            i <= 3,
            entries.len() == i,
            places@ == seq!["modinfo.json", "mod/modinfo.json", "assets/modinfo.json"],
            archive_opens(bytes@),
            archive_source(archive) == bytes@,
            all == place_outcomes(bytes@),
            forall|k: int| 0 <= k < i ==> (#[trigger] entries@[k]).outcome() == all[k],
            forall|k: int| 0 <= k < i ==> (#[trigger] entries@[k]).outcome() is None,
        decreases 3 - i,
    {
        let entry = read_entry(&mut archive, places[i]);
        let decided = match entry {
            EntryText::Missing => false,
            _ => true,
        };
        entries.push(entry);
        if decided {
            proof {
                assert forall|k: int| 0 <= k < i implies all[k] is None by {
                    assert(entries@[k].outcome() is None);
                }
                assert(all[i as int] is Some);
                assert(outcomes_of(entries@) =~= all.take(i + 1));
                lemma_first_present_prefix(all, i + 1);
            }
            return select_descriptor(&entries);
        }
        i += 1;
    }
    assert(outcomes_of(entries@) =~= all);
    select_descriptor(&entries)
}

} // verus!
