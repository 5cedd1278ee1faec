//! The content index: for every archive that was looked into, its digest,
//! the descriptor fields read from it, and where the file lay when it was
//! last seen. It spares opening an archive whose bytes have not changed.

use vstd::prelude::*;
use crate::mod_manager::{ModIndexEntry, ModIndexEntryView};
use crate::text::str_eq;

verus! {

/// The contents of an index: content hashes and what is remembered under
/// them, in the order in which the hashes first came in.
pub type IndexView = Seq<(Seq<char>, ModIndexEntryView)>;

/// What is remembered under `hash`.
pub open spec fn indexed(slots: IndexView, hash: Seq<char>) -> Option<ModIndexEntryView>
    decreases slots.len(),
{
    if slots.len() == 0 {
        None
    } else if slots[0].0 == hash {
        Some(slots[0].1)
    } else {
        indexed(slots.skip(1), hash)
    }
}

/// The index after `entry` is remembered under `hash`: it takes the place
/// of what was remembered there, or comes last.
pub open spec fn upserted(slots: IndexView, hash: Seq<char>, entry: ModIndexEntryView) -> IndexView
    decreases slots.len(),
{
    if slots.len() == 0 {
        seq![(hash, entry)]
    } else if slots[0].0 == hash {
        seq![(hash, entry)] + slots.skip(1)
    } else {
        seq![slots[0]] + upserted(slots.skip(1), hash, entry)
    }
}

/// `entry` at another place on disk.
pub open spec fn moved_entry(
    entry: ModIndexEntryView,
    file_path: Seq<char>,
    file_name: Seq<char>,
) -> ModIndexEntryView {
    ModIndexEntryView { file_path, file_name, ..entry }
}

/// The index after the file remembered under `hash` has moved. An index
/// that remembers nothing under `hash` stays as it is.
pub open spec fn relocated(
    slots: IndexView,
    hash: Seq<char>,
    file_path: Seq<char>,
    file_name: Seq<char>,
) -> IndexView {
    match indexed(slots, hash) {
        Some(entry) => upserted(slots, hash, moved_entry(entry, file_path, file_name)),
        None => slots,
    }
}

/// No hash occurs twice.
pub open spec fn keys_distinct(slots: IndexView) -> bool {
    forall|i: int, j: int| 0 <= i < j < slots.len() ==> slots[i].0 != slots[j].0
}

/// What was just remembered under a hash is what a lookup of it yields.
pub proof fn lemma_lookup_after_upsert(slots: IndexView, hash: Seq<char>, entry: ModIndexEntryView)
    ensures
        indexed(upserted(slots, hash, entry), hash) == Some(entry),
    decreases slots.len(),
{
    if slots.len() > 0 && slots[0].0 != hash {
        lemma_lookup_after_upsert(slots.skip(1), hash, entry);
        let after = upserted(slots, hash, entry);
        assert(after.skip(1) =~= upserted(slots.skip(1), hash, entry));
    }
}

/// Remembering something under one hash leaves every other hash alone.
pub proof fn lemma_lookup_other_after_upsert(
    slots: IndexView,
    hash: Seq<char>,
    entry: ModIndexEntryView,
    other: Seq<char>,
)
    requires
        other != hash,
    ensures
        indexed(upserted(slots, hash, entry), other) == indexed(slots, other),
    decreases slots.len(),
{
    let after = upserted(slots, hash, entry);
    if slots.len() == 0 {
        assert(after.skip(1) =~= slots);
    } else if slots[0].0 == hash {
        assert(after.skip(1) =~= slots.skip(1));
    } else {
        lemma_lookup_other_after_upsert(slots.skip(1), hash, entry, other);
        assert(after.skip(1) =~= upserted(slots.skip(1), hash, entry));
    }
}

/// The hashes of an index after an upsert are those before it and the one
/// upserted, each at its old place.
pub proof fn lemma_upsert_keys(slots: IndexView, hash: Seq<char>, entry: ModIndexEntryView)
    ensures
        indexed(slots, hash) is Some ==> upserted(slots, hash, entry).len() == slots.len(),
        indexed(slots, hash) is None ==> upserted(slots, hash, entry) == slots.push((hash, entry)),
        forall|i: int|
            0 <= i < slots.len() ==> (#[trigger] upserted(slots, hash, entry)[i]).0 == slots[i].0,
        forall|i: int|
            0 <= i < slots.len() && slots[i].0 != hash ==> #[trigger] upserted(
                slots,
                hash,
                entry,
            )[i] == slots[i],
    decreases slots.len(),
{
    let after = upserted(slots, hash, entry);
    if slots.len() == 0 {
        assert(after =~= slots.push((hash, entry)));
    } else if slots[0].0 == hash {
    } else {
        let rest = upserted(slots.skip(1), hash, entry);
        lemma_upsert_keys(slots.skip(1), hash, entry);
        assert(after.skip(1) =~= rest);
        assert forall|i: int| 0 <= i < slots.len() implies (#[trigger] after[i]).0
            == slots[i].0 by {
            if i > 0 {
                assert(after[i] == rest[i - 1]);
                assert(slots.skip(1)[i - 1] == slots[i]);
            }
        }
        assert forall|i: int| 0 <= i < slots.len() && slots[i].0 != hash implies #[trigger] after[i]
            == slots[i] by {
            if i > 0 {
                assert(after[i] == rest[i - 1]);
                assert(slots.skip(1)[i - 1] == slots[i]);
            }
        }
        if indexed(slots, hash) is None {
            assert(after =~= slots.push((hash, entry)));
        }
    }
}

/// A hash that is remembered stands in some slot, and the other way round.
pub proof fn lemma_indexed_is_a_slot(slots: IndexView, hash: Seq<char>)
    ensures
        indexed(slots, hash) is Some <==> exists|i: int| 0 <= i < slots.len() && slots[i].0 == hash,
        indexed(slots, hash) matches Some(entry) ==> exists|i: int|
            0 <= i < slots.len() && slots[i] == (hash, entry),
    decreases slots.len(),
{
    if slots.len() > 0 {
        if slots[0].0 == hash {
            assert(slots[0] == (hash, slots[0].1));
        } else {
            lemma_indexed_is_a_slot(slots.skip(1), hash);
            if indexed(slots.skip(1), hash) is Some {
                let entry = indexed(slots.skip(1), hash)->0;
                let i = choose|i: int|
                    0 <= i < slots.skip(1).len() && slots.skip(1)[i] == (hash, entry);
                assert(slots[i + 1] == (hash, entry));
            }
            if exists|i: int| 0 <= i < slots.len() && slots[i].0 == hash {
                let i = choose|i: int| 0 <= i < slots.len() && slots[i].0 == hash;
                assert(slots.skip(1)[i - 1].0 == hash);
            }
        }
    }
}

/// An index in which no hash occurs twice stays so through an upsert.
pub proof fn lemma_upsert_keeps_distinct(slots: IndexView, hash: Seq<char>, entry: ModIndexEntryView)
    requires
        keys_distinct(slots),
    ensures
        keys_distinct(upserted(slots, hash, entry)),
{
    let after = upserted(slots, hash, entry);
    lemma_upsert_keys(slots, hash, entry);
    lemma_indexed_is_a_slot(slots, hash);
    assert forall|i: int, j: int| 0 <= i < j < after.len() implies after[i].0 != after[j].0 by {
        if j < slots.len() {
            assert(after[i].0 == slots[i].0 && after[j].0 == slots[j].0);
        } else {
            assert(after[j].0 == hash);
            assert(after[i].0 == slots[i].0);
        }
    }
}

/// The content index.
#[derive(Debug)]
pub struct ModIndex {
    slots: Vec<(String, ModIndexEntry)>,
}

impl View for ModIndex {
    type V = IndexView;

    closed spec fn view(&self) -> IndexView {
        Seq::new(self.slots@.len(), |i: int| (self.slots@[i].0@, self.slots@[i].1.deep_view()))
    }
}

impl ModIndex {
    /// An index that remembers nothing. This is also what an index file
    /// that is missing or cannot be read stands for.
    pub fn new() -> (index: ModIndex)
        ensures
            index@ == IndexView::empty(),
    {
        let index = ModIndex { slots: Vec::new() };
        assert(index@ =~= IndexView::empty());
        index
    }

    /// How many hashes are remembered.
    pub fn len(&self) -> (n: usize)
        ensures
            n == self@.len(),
    {
        self.slots.len()
    }

    /// The hash in slot `i` and what is remembered under it; nothing where
    /// the index has no such slot.
    pub fn slot(&self, i: usize) -> (r: Option<(&String, &ModIndexEntry)>)
        ensures
            match r {
                Some((hash, entry)) => i < self@.len() && hash@ == self@[i as int].0
                    && entry.deep_view() == self@[i as int].1,
                None => i >= self@.len(),
            },
    {
        if i < self.slots.len() {
            Some((&self.slots[i].0, &self.slots[i].1))
        } else {
            None
        }
    }

    /// The slot that holds `hash`.
    fn position(&self, hash: &str) -> (r: Option<usize>)
        ensures
            match r {
                Some(i) => i < self@.len() && self@[i as int].0 == hash@ && indexed(self@, hash@)
                    == Some(self@[i as int].1) && forall|k: int|
                    0 <= k < i ==> self@[k].0 != hash@,
                None => indexed(self@, hash@) is None,
            },
    {
        let ghost all = self@;
        let mut i: usize = 0;
        assert(all.skip(0) =~= all);
        while i < self.slots.len()
            invariant
                i <= self.slots.len(),
                all == self@,
                all.len() == self.slots@.len(),
                indexed(all, hash@) == indexed(all.skip(i as int), hash@),
                forall|k: int| 0 <= k < i ==> all[k].0 != hash@,
            decreases self.slots.len() - i,
        {
            proof {
                assert(all.skip(i as int).skip(1) =~= all.skip(i + 1));
                assert(all.skip(i as int)[0] == all[i as int]);
            }
            if str_eq(self.slots[i].0.as_str(), hash) {
                return Some(i);
            }
            i += 1;
        }
        None
    }

    /// What is remembered under `hash`.
    pub fn lookup(&self, hash: &str) -> (r: Option<&ModIndexEntry>)
        ensures
            r.deep_view() == indexed(self@, hash@),
    {
        match self.position(hash) {
            Some(i) => Some(&self.slots[i].1),
            None => None,
        }
    }

    /// Remembers `entry` under `hash`, in place of what was remembered
    /// there.
    pub fn upsert(&mut self, hash: String, entry: ModIndexEntry)
        ensures
            final(self)@ == upserted(old(self)@, hash@, entry.deep_view()),
    {
        let ghost before = self@;
        proof {
            lemma_upsert_keys(before, hash@, entry.deep_view());
        }
        match self.position(hash.as_str()) {
            Some(i) => {
                self.slots.set(i, (hash, entry));
                proof {
                    lemma_replace_first(before, hash@, entry.deep_view(), i as int);
                    assert(self@ =~= before.update(i as int, (hash@, entry.deep_view())));
                }
            },
            None => {
                self.slots.push((hash, entry));
                assert(self@ =~= before.push((hash@, entry.deep_view())));
            },
        }
    }

    /// Records that the file remembered under `hash` now lies at
    /// `file_path` and is called `file_name`. Says whether anything was
    /// remembered under `hash`.
    pub fn relocate(&mut self, hash: &str, file_path: String, file_name: String) -> (known: bool)
        ensures
            final(self)@ == relocated(old(self)@, hash@, file_path@, file_name@),
            known == indexed(old(self)@, hash@) is Some,
    {
        let ghost before = self@;
        match self.position(hash) {
            Some(i) => {
                let ghost entry = before[i as int].1;
                let key = self.slots[i].0.clone();
                let mut moved = self.slots[i].1.clone();
                moved.file_path = file_path;
                moved.file_name = file_name;
                assert(moved.deep_view() == moved_entry(entry, file_path@, file_name@));
                self.slots.set(i, (key, moved));
                proof {
                    let shown = moved_entry(entry, file_path@, file_name@);
                    lemma_replace_first(before, hash@, shown, i as int);
                    assert(self@ =~= before.update(i as int, (hash@, shown)));
                }
                true
            },
            None => false,
        }
    }
}

/// In an index in which no hash occurs twice, a slot holds what is
/// remembered under its hash, and an upsert of that hash changes that slot
/// and no other.
pub proof fn lemma_distinct_slot(slots: IndexView, at: int, entry: ModIndexEntryView)
    requires
        keys_distinct(slots),
        0 <= at < slots.len(),
    ensures
        indexed(slots, slots[at].0) == Some(slots[at].1),
        upserted(slots, slots[at].0, entry) == slots.update(at, (slots[at].0, entry)),
        keys_distinct(slots.update(at, (slots[at].0, entry))),
{
    lemma_replace_first(slots, slots[at].0, entry, at);
    lemma_first_is_indexed(slots, slots[at].0, at);
}

proof fn lemma_first_is_indexed(slots: IndexView, hash: Seq<char>, at: int)
    requires
        0 <= at < slots.len(),
        slots[at].0 == hash,
        forall|k: int| 0 <= k < at ==> slots[k].0 != hash,
    ensures
        indexed(slots, hash) == Some(slots[at].1),
    decreases at,
{
    if at > 0 {
        lemma_first_is_indexed(slots.skip(1), hash, at - 1);
    }
}

/// An upsert of a hash that is remembered changes its first slot and no
/// other.
proof fn lemma_replace_first(slots: IndexView, hash: Seq<char>, entry: ModIndexEntryView, at: int)
    requires
        0 <= at < slots.len(),
        slots[at].0 == hash,
        forall|k: int| 0 <= k < at ==> slots[k].0 != hash,
    ensures
        upserted(slots, hash, entry) == slots.update(at, (hash, entry)),
    decreases at,
{
    if at == 0 {
        assert(upserted(slots, hash, entry) =~= slots.update(0, (hash, entry)));
    } else {
        lemma_replace_first(slots.skip(1), hash, entry, at - 1);
        assert(upserted(slots, hash, entry) =~= slots.update(at, (hash, entry)));
    }
}

} // verus!
