//! Which packs are switched on, and what switching one on or off means for
//! the mods they share. A mod stays on as long as one pack that is on
//! holds it: switching a pack off switches off only the mods that no other
//! pack that is on holds.

use vstd::prelude::*;
use crate::mod_pack::{ModPack, ModPackMod};
use crate::text::{alphanumeric, chars_of, is_alphanumeric, owned, push_char, str_eq};

verus! {

/// A stored pack as a listing shows it.
#[derive(Debug)]
pub struct ModPackInfo {
    pub name: String,
    pub version: String,
    pub description: String,
    pub mod_count: usize,
    pub path: String,
    pub enabled: bool,
    pub mod_ids: Vec<String>,
}

impl Clone for ModPackInfo {
    fn clone(&self) -> (r: Self)
        ensures
            r.name@ == self.name@,
            r.version@ == self.version@,
            r.description@ == self.description@,
            r.mod_count == self.mod_count,
            r.path@ == self.path@,
            r.enabled == self.enabled,
            r.mod_ids.deep_view() == self.mod_ids.deep_view(),
    {
        ModPackInfo {
            name: self.name.clone(),
            version: self.version.clone(),
            description: self.description.clone(),
            mod_count: self.mod_count,
            path: self.path.clone(),
            enabled: self.enabled,
            mod_ids: self.mod_ids.clone(),
        }
    }
}

/// The strings of a list, as a set.
pub open spec fn text_set(texts: Seq<String>) -> Set<Seq<char>> {
    Set::new(|t: Seq<char>| exists|i: int| 0 <= i < texts.len() && texts[i]@ == t)
}

/// No string comes twice.
pub open spec fn all_different(texts: Seq<String>) -> bool {
    forall|i: int, j: int| 0 <= i < j < texts.len() ==> texts[i]@ != texts[j]@
}

/// Whether `text` is among `texts`.
pub fn contains_text(texts: &Vec<String>, text: &str) -> (r: bool)
    ensures
        r == text_set(texts@).contains(text@),
{
    let mut i: usize = 0;
    while i < texts.len()
        invariant
            i <= texts.len(),
            forall|k: int| 0 <= k < i ==> texts@[k]@ != text@,
        decreases texts.len() - i,
    {
        if str_eq(texts[i].as_str(), text) {
            return true;
        }
        i += 1;
    }
    false
}

/// The packs that are switched on, each known by the path of its file. A
/// state file that is missing or cannot be read stands for no pack being
/// on.
#[derive(Debug)]
pub struct ModPackState {
    pub enabled_packs: Vec<String>,
}

impl View for ModPackState {
    type V = Set<Seq<char>>;

    open spec fn view(&self) -> Set<Seq<char>> {
        text_set(self.enabled_packs@)
    }
}

impl ModPackState {
    /// The state in which no pack is on.
    pub fn new() -> (state: ModPackState)
        ensures
            state@ == Set::<Seq<char>>::empty(),
    {
        let state = ModPackState { enabled_packs: Vec::new() };
        assert(state@ =~= Set::<Seq<char>>::empty());
        state
    }

    /// Whether the pack stored at `pack_path` is on.
    pub fn is_enabled(&self, pack_path: &str) -> (r: bool)
        ensures
            r == self@.contains(pack_path@),
    {
        contains_text(&self.enabled_packs, pack_path)
    }

    /// Notes that the pack stored at `pack_path` is on.
    pub fn insert(&mut self, pack_path: &str)
        ensures
            final(self)@ == old(self)@.insert(pack_path@),
            all_different(old(self).enabled_packs@) ==> all_different(final(self).enabled_packs@),
    {
        let ghost before = self.enabled_packs@;
        if !contains_text(&self.enabled_packs, pack_path) {
            self.enabled_packs.push(owned(pack_path));
            proof {
                let after = self.enabled_packs@;
                assert forall|t: Seq<char>| text_set(after).contains(t) == text_set(before).insert(
                    pack_path@,
                ).contains(t) by {
                    if text_set(after).contains(t) {
                        let i = choose|i: int| 0 <= i < after.len() && after[i]@ == t;
                        if i < before.len() {
                            assert(before[i]@ == t);
                        }
                    }
                    if text_set(before).contains(t) {
                        let i = choose|i: int| 0 <= i < before.len() && before[i]@ == t;
                        assert(after[i]@ == t);
                    }
                    if t == pack_path@ {
                        assert(after[before.len() as int]@ == t);
                    }
                }
                assert(text_set(after) =~= text_set(before).insert(pack_path@));
            }
        } else {
            assert(self@ =~= old(self)@.insert(pack_path@));
        }
    }

    /// Notes that the pack stored at `pack_path` is off.
    pub fn remove(&mut self, pack_path: &str)
        ensures
            final(self)@ == old(self)@.remove(pack_path@),
            all_different(old(self).enabled_packs@) ==> all_different(final(self).enabled_packs@),
    {
        let ghost before = self.enabled_packs@;
        let mut kept: Vec<String> = Vec::new();
        let ghost mut origin: Seq<int> = Seq::empty();
        let mut i: usize = 0;
        while i < self.enabled_packs.len()
            invariant
                i <= self.enabled_packs.len(),
                self.enabled_packs@ == before,
                origin.len() == kept.len(),
                forall|k: int|
                    0 <= k < kept.len() ==> 0 <= #[trigger] origin[k] < i && kept@[k]@
                        == before[origin[k]]@ && kept@[k]@ != pack_path@,
                forall|k: int, l: int| 0 <= k < l < kept.len() ==> origin[k] < origin[l],
                forall|j: int|
                    0 <= j < i && before[j]@ != pack_path@ ==> exists|k: int|
                        0 <= k < kept.len() && kept@[k]@ == #[trigger] before[j]@,
            decreases self.enabled_packs.len() - i,
        {
            if !str_eq(self.enabled_packs[i].as_str(), pack_path) {
                let ghost kept_before = kept@;
                kept.push(self.enabled_packs[i].clone());
                proof {
                    origin = origin.push(i as int);
                    assert forall|j: int|
                        0 <= j < i + 1 && before[j]@ != pack_path@ implies exists|k: int|
                        0 <= k < kept.len() && kept@[k]@ == #[trigger] before[j]@ by {
                        if j < i {
                            let k = choose|k: int|
                                0 <= k < kept_before.len() && kept_before[k]@ == before[j]@;
                            assert(kept@[k]@ == before[j]@);
                        } else {
                            assert(kept@[kept.len() - 1]@ == before[j]@);
                        }
                    }
                }
            }
            i += 1;
        }
        proof {
            assert forall|t: Seq<char>| text_set(kept@).contains(t) == text_set(before).remove(
                pack_path@,
            ).contains(t) by {
                if text_set(kept@).contains(t) {
                    let k = choose|k: int| 0 <= k < kept@.len() && kept@[k]@ == t;
                    assert(before[origin[k]]@ == t);
                }
                if text_set(before).remove(pack_path@).contains(t) {
                    let j = choose|j: int| 0 <= j < before.len() && before[j]@ == t;
                    let k = choose|k: int| 0 <= k < kept.len() && kept@[k]@ == before[j]@;
                    assert(kept@[k]@ == t);
                }
            }
            assert(text_set(kept@) =~= text_set(before).remove(pack_path@));
            if all_different(before) {
                assert forall|k: int, l: int| 0 <= k < l < kept@.len() implies kept@[k]@
                    != kept@[l]@ by {
                    assert(origin[k] < origin[l]);
                }
            }
        }
        self.enabled_packs = kept;
    }
}

/// The identifiers of the mods that a pack holds.
pub open spec fn pack_ids(pack: ModPack) -> Set<Seq<char>> {
    Set::new(|id: Seq<char>| exists|i: int| 0 <= i < pack.mods@.len() && pack.mods@[i].id@ == id)
}

/// The identifiers of the mods that some pack of the list holds.
pub open spec fn packs_ids(packs: Seq<ModPack>) -> Set<Seq<char>> {
    Set::new(|id: Seq<char>| exists|p: int| 0 <= p < packs.len() && pack_ids(packs[p]).contains(id))
}

/// Whether the pack holds the mod `id`.
pub fn pack_holds(pack: &ModPack, id: &str) -> (r: bool)
    ensures
        r == pack_ids(*pack).contains(id@),
{
    let mut i: usize = 0;
    while i < pack.mods.len()
        invariant
            i <= pack.mods.len(),
            forall|k: int| 0 <= k < i ==> pack.mods@[k].id@ != id@,
        decreases pack.mods.len() - i,
    {
        if str_eq(pack.mods[i].id.as_str(), id) {
            return true;
        }
        i += 1;
    }
    false
}

/// Whether some pack of the list holds the mod `id`.
pub fn packs_hold(packs: &Vec<ModPack>, id: &str) -> (r: bool)
    ensures
        r == packs_ids(packs@).contains(id@),
{
    let mut p: usize = 0;
    while p < packs.len()
        invariant
            p <= packs.len(),
            forall|k: int| 0 <= k < p ==> !pack_ids(packs@[k]).contains(id@),
        decreases packs.len() - p,
    {
        if pack_holds(&packs[p], id) {
            return true;
        }
        p += 1;
    }
    false
}

/// Adds the identifiers of the pack's mods to `ids`, each once.
fn add_pack_ids(ids: &mut Vec<String>, pack: &ModPack)
    requires
        all_different(old(ids)@),
    ensures
        all_different(final(ids)@),
        text_set(final(ids)@) == text_set(old(ids)@).union(pack_ids(*pack)),
{
    let ghost start = text_set(ids@);
    let mut i: usize = 0;
    while i < pack.mods.len()
        invariant
            i <= pack.mods.len(),
            all_different(ids@),
            forall|t: Seq<char>| #[trigger]
                text_set(ids@).contains(t) <==> (start.contains(t) || exists|k: int|
                    0 <= k < i && pack.mods@[k].id@ == t),
        decreases pack.mods.len() - i,
    {
        let ghost before = ids@;
        let id = &pack.mods[i].id;
        if !contains_text(ids, id.as_str()) {
            ids.push(id.clone());
            proof {
                let after = ids@;
                assert forall|t: Seq<char>| #[trigger]
                    text_set(after).contains(t) <==> (start.contains(t) || exists|k: int|
                        0 <= k < i + 1 && pack.mods@[k].id@ == t) by {
                    if text_set(after).contains(t) {
                        let m = choose|m: int| 0 <= m < after.len() && after[m]@ == t;
                        if m < before.len() {
                            assert(before[m]@ == t);
                            assert(text_set(before).contains(t));
                        } else {
                            assert(pack.mods@[i as int].id@ == t);
                        }
                    }
                    if start.contains(t) || exists|k: int| 0 <= k < i && pack.mods@[k].id@ == t {
                        assert(text_set(before).contains(t));
                        let m = choose|m: int| 0 <= m < before.len() && before[m]@ == t;
                        assert(after[m]@ == t);
                    }
                    if pack.mods@[i as int].id@ == t {
                        assert(after[before.len() as int]@ == t);
                    }
                }
                assert forall|a: int, b: int| 0 <= a < b < after.len() implies after[a]@
                    != after[b]@ by {
                    if b == before.len() {
                        assert(before[a]@ == after[a]@);
                        if after[a]@ == after[b]@ {
                            assert(text_set(before).contains(id@));
                        }
                    } else {
                        assert(before[a]@ == after[a]@ && before[b]@ == after[b]@);
                    }
                }
            }
        } else {
            proof {
                assert forall|t: Seq<char>| #[trigger]
                    text_set(ids@).contains(t) <==> (start.contains(t) || exists|k: int|
                        0 <= k < i + 1 && pack.mods@[k].id@ == t) by {
                    if pack.mods@[i as int].id@ == t {
                        assert(text_set(ids@).contains(t));
                    }
                }
            }
        }
        i += 1;
    }
    assert(text_set(ids@) =~= start.union(pack_ids(*pack)));
}

/// The mods to switch on when `pack` is switched on while the packs
/// `enabled` are on: every mod that `pack` or one of the others holds,
/// each once. The mods of the other packs are among them so that none of
/// them is left off.
pub fn mods_to_enable(enabled: &Vec<ModPack>, pack: &ModPack) -> (ids: Vec<String>)
    ensures
        all_different(ids@),
        text_set(ids@) == packs_ids(enabled@).union(pack_ids(*pack)),
{
    let mut ids: Vec<String> = Vec::new();
    let mut p: usize = 0;
    assert(text_set(ids@) =~= packs_ids(enabled@.take(0)));
    while p < enabled.len()
        invariant
            p <= enabled.len(),
            all_different(ids@),
            text_set(ids@) == packs_ids(enabled@.take(p as int)),
        decreases enabled.len() - p,
    {
        add_pack_ids(&mut ids, &enabled[p]);
        proof {
            let sofar = enabled@.take(p as int);
            let next = enabled@.take(p + 1);
            assert forall|t: Seq<char>| packs_ids(next).contains(t) == packs_ids(sofar).union(
                pack_ids(enabled@[p as int]),
            ).contains(t) by {
                if packs_ids(next).contains(t) {
                    let q = choose|q: int| 0 <= q < next.len() && pack_ids(next[q]).contains(t);
                    if q < p {
                        assert(pack_ids(sofar[q]).contains(t));
                    }
                }
                if packs_ids(sofar).contains(t) {
                    let q = choose|q: int| 0 <= q < sofar.len() && pack_ids(sofar[q]).contains(t);
                    assert(pack_ids(next[q]).contains(t));
                }
                if pack_ids(enabled@[p as int]).contains(t) {
                    assert(pack_ids(next[p as int]).contains(t));
                }
            }
            assert(packs_ids(next) =~= packs_ids(sofar).union(pack_ids(enabled@[p as int])));
        }
        p += 1;
    }
    assert(enabled@.take(enabled.len() as int) =~= enabled@);
    add_pack_ids(&mut ids, pack);
    ids
}

/// The identifiers of `mods` that are not in `keep`, in the order of
/// `mods`.
pub open spec fn dropped_ids(mods: Seq<ModPackMod>, keep: Set<Seq<char>>) -> Seq<Seq<char>>
    decreases mods.len(),
{
    if mods.len() == 0 {
        Seq::empty()
    } else if keep.contains(mods.last().id@) {
        dropped_ids(mods.drop_last(), keep)
    } else {
        dropped_ids(mods.drop_last(), keep).push(mods.last().id@)
    }
}

/// The mods to switch off when `pack` is switched off while the packs
/// `remaining` stay on: the mods of `pack` that none of the others holds.
pub fn mods_to_disable(remaining: &Vec<ModPack>, pack: &ModPack) -> (ids: Vec<String>)
    ensures
        ids.deep_view() == dropped_ids(pack.mods@, packs_ids(remaining@)),
{
    let ghost keep = packs_ids(remaining@);
    let mut ids: Vec<String> = Vec::new();
    let mut i: usize = 0;
    assert(ids.deep_view() =~= dropped_ids(pack.mods@.take(0), keep));
    while i < pack.mods.len()
        invariant
            i <= pack.mods.len(),
            keep == packs_ids(remaining@),
            ids.deep_view() == dropped_ids(pack.mods@.take(i as int), keep),
        decreases pack.mods.len() - i,
    {
        let ghost before = ids.deep_view();
        proof {
            assert(pack.mods@.take(i + 1).drop_last() =~= pack.mods@.take(i as int));
        }
        if !packs_hold(remaining, pack.mods[i].id.as_str()) {
            ids.push(pack.mods[i].id.clone());
            assert(ids.deep_view() =~= before.push(pack.mods@[i as int].id@));
        }
        i += 1;
    }
    assert(pack.mods@.take(pack.mods.len() as int) =~= pack.mods@);
    ids
}

/// The mods that are switched off with a pack are its own, and none of
/// them is held by a pack that stays on; every mod of the pack that no
/// such pack holds is among them.
pub proof fn lemma_dropped_ids(mods: Seq<ModPackMod>, keep: Set<Seq<char>>)
    ensures
        forall|k: int|
            0 <= k < dropped_ids(mods, keep).len() ==> !keep.contains(
                #[trigger] dropped_ids(mods, keep)[k],
            ) && exists|i: int| 0 <= i < mods.len() && mods[i].id@ == dropped_ids(mods, keep)[k],
        forall|i: int|
            0 <= i < mods.len() && !keep.contains(#[trigger] mods[i].id@) ==> dropped_ids(
                mods,
                keep,
            ).contains(mods[i].id@),
    decreases mods.len(),
{
    if mods.len() > 0 {
        let rest = dropped_ids(mods.drop_last(), keep);
        let all = dropped_ids(mods, keep);
        lemma_dropped_ids(mods.drop_last(), keep);
        assert forall|k: int| 0 <= k < all.len() implies !keep.contains(#[trigger] all[k])
            && exists|i: int| 0 <= i < mods.len() && mods[i].id@ == all[k] by {
            if k < rest.len() {
                let i = choose|i: int|
                    0 <= i < mods.drop_last().len() && mods.drop_last()[i].id@ == rest[k];
                assert(mods[i].id@ == all[k]);
            } else {
                assert(mods[mods.len() - 1].id@ == all[k]);
            }
        }
        assert forall|i: int|
            0 <= i < mods.len() && !keep.contains(#[trigger] mods[i].id@) implies all.contains(
            mods[i].id@,
        ) by {
            if i < mods.len() - 1 {
                assert(mods.drop_last()[i].id@ == mods[i].id@);
                let k = choose|k: int| 0 <= k < rest.len() && rest[k] == mods[i].id@;
                assert(all[k] == mods[i].id@);
            } else {
                assert(all[all.len() - 1] == mods[i].id@);
            }
        }
    }
}

/// Switching a pack on twice is the same as switching it on once, and so
/// for switching it off: the set of packs that are on is the same after
/// the second call as after the first.
pub proof fn lemma_switching_twice(enabled: Set<Seq<char>>, pack_path: Seq<char>)
    ensures
        enabled.insert(pack_path).insert(pack_path) == enabled.insert(pack_path),
        enabled.remove(pack_path).remove(pack_path) == enabled.remove(pack_path),
{
    assert(enabled.insert(pack_path).insert(pack_path) =~= enabled.insert(pack_path));
    assert(enabled.remove(pack_path).remove(pack_path) =~= enabled.remove(pack_path));
}

/// A mod that two packs share stays on when one of them is switched off:
/// no mod of a pack that stays on is among the mods to switch off.
pub proof fn lemma_shared_mods_stay(remaining: Seq<ModPack>, pack: ModPack, id: Seq<char>)
    requires
        packs_ids(remaining).contains(id),
    ensures
        !dropped_ids(pack.mods@, packs_ids(remaining)).contains(id),
{
    lemma_dropped_ids(pack.mods@, packs_ids(remaining));
}

/// What a listing shows of the pack stored at `path`.
pub fn pack_info(pack: &ModPack, path: &str, state: &ModPackState) -> (info: ModPackInfo)
    ensures
        info.name@ == pack.name@,
        info.version@ == pack.version@,
        info.description@ == pack.description@,
        info.mod_count == pack.mods@.len(),
        info.path@ == path@,
        info.enabled == state@.contains(path@),
        info.mod_ids@.len() == pack.mods@.len(),
        forall|i: int| 0 <= i < pack.mods@.len() ==> info.mod_ids@[i]@ == pack.mods@[i].id@,
{
    let mut mod_ids: Vec<String> = Vec::new();
    let mut i: usize = 0;
    while i < pack.mods.len()
        invariant
            i <= pack.mods.len(),
            mod_ids@.len() == i,
            forall|k: int| 0 <= k < i ==> mod_ids@[k]@ == pack.mods@[k].id@,
        decreases pack.mods.len() - i,
    {
        mod_ids.push(pack.mods[i].id.clone());
        i += 1;
    }
    ModPackInfo {
        name: pack.name.clone(),
        version: pack.version.clone(),
        description: pack.description.clone(),
        mod_count: pack.mods.len(),
        path: owned(path),
        enabled: state.is_enabled(path),
        mod_ids,
    }
}

/// A character as it may stand in a file name: letters, digits, `-` and
/// `_` stand for themselves, every other character becomes `_`.
pub open spec fn safe_char(c: char) -> char {
    if alphanumeric(c) || c == '-' || c == '_' {
        c
    } else {
        '_'
    }
}

/// The name of the file that a pack called `name` is stored in.
pub open spec fn pack_file_name_of(name: Seq<char>) -> Seq<char> {
    name.map_values(|c: char| safe_char(c)) + ".json"@
}

/// The name of the file that a pack called `name` is stored in.
pub fn pack_file_name(name: &str) -> (file_name: String)
    ensures
        file_name@ == pack_file_name_of(name@),
{
    let chars = chars_of(name);
    let mut safe = owned("");
    proof {
        reveal_strlit("");
    }
    let mut i: usize = 0;
    assert(safe@ =~= name@.take(0).map_values(|c: char| safe_char(c)));
    while i < chars.len()
        invariant
            i <= chars.len(),
            chars@ == name@,
            safe@ == name@.take(i as int).map_values(|c: char| safe_char(c)),
        decreases chars.len() - i,
    {
        let c = chars[i];
        let kept = if is_alphanumeric(c) || c == '-' || c == '_' {
            c
        } else {
            '_'
        };
        push_char(&mut safe, kept);
        assert(safe@ =~= name@.take(i + 1).map_values(|c: char| safe_char(c)));
        i += 1;
    }
    assert(name@.take(chars.len() as int) =~= name@);
    safe.append(".json");
    safe
}

} // verus!
