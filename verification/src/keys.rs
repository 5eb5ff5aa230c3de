//! The session keys that a decoder starts from.
//!
//! The keys come as a JSON object that maps a key id to the base64 text of
//! the key. They are read once and then only looked up.

use vstd::prelude::*;
use crate::error::ExportError;
use crate::game::Game;
use crate::outside::{base64_decoded, bundle_entries, decode_base64, parse_bundle};

verus! {

/// A table from key id to key bytes.
pub struct SessionKeyTable {
    entries: Vec<(u32, Vec<u8>)>,
}

/// The ids rise strictly.
pub open spec fn rising(entries: Seq<(u32, Vec<u8>)>) -> bool {
    forall|i: int, j: int| 0 <= i < j < entries.len() ==> entries[i].0 < entries[j].0
}

/// `id` stands at index `at`.
pub open spec fn stands_at(entries: Seq<(u32, Vec<u8>)>, id: u32, at: int) -> bool {
    0 <= at < entries.len() && entries[at].0 == id
}

/// The table that a list of entries with rising ids stands for.
pub open spec fn table_of_entries(entries: Seq<(u32, Vec<u8>)>) -> Map<u32, Seq<u8>> {
    Map::new(
        |id: u32| exists|at: int| stands_at(entries, id, at),
        |id: u32| entries[choose|at: int| stands_at(entries, id, at)].1@,
    )
}

impl View for SessionKeyTable {
    type V = Map<u32, Seq<u8>>;

    closed spec fn view(&self) -> Map<u32, Seq<u8>> {
        table_of_entries(self.entries@)
    }
}

impl SessionKeyTable {
    /// The entries are kept in rising order of their ids.
    pub closed spec fn wf(&self) -> bool {
        rising(self.entries@)
    }

    /// The number of keys.
    pub closed spec fn count(&self) -> nat {
        self.entries@.len()
    }

    /// A table without keys.
    pub fn new() -> (table: SessionKeyTable)
        ensures
            table.wf(),
            table@ == Map::<u32, Seq<u8>>::empty(),
            table.count() == 0,
    {
        let table = SessionKeyTable { entries: Vec::new() };
        table
    }

    /// The number of keys.
    pub fn len(&self) -> (n: usize)
        ensures
            n == self.count(),
    {
        self.entries.len()
    }

    /// The index of the first entry whose id is not below `id`.
    fn position(&self, id: u32) -> (at: usize)
        requires
            self.wf(),
        ensures
            at <= self.entries.len(),
            forall|i: int| 0 <= i < at ==> self.entries[i].0 < id,
            forall|i: int| at <= i < self.entries.len() ==> self.entries[i].0 >= id,
    {
        let mut low: usize = 0;
        let mut high: usize = self.entries.len();
        while low < high
            invariant
                low <= high <= self.entries.len(),
                self.wf(),
                forall|i: int| 0 <= i < low ==> self.entries[i].0 < id,
                forall|i: int| high <= i < self.entries.len() ==> self.entries[i].0 >= id,
            decreases high - low,
        {
            let mid = low + (high - low) / 2;
            if self.entries[mid].0 < id {
                low = mid + 1;
            } else {
                high = mid;
            }
        }
        low
    }

    /// The key with this id.
    pub fn get(&self, id: u32) -> (key: Option<&Vec<u8>>)
        requires
            self.wf(),
        ensures
            key is Some <==> self@.contains_key(id),
            key matches Some(k) ==> k@ == self@[id],
    {
        let at = self.position(id);
        if at < self.entries.len() && self.entries[at].0 == id {
            proof {
                assert(stands_at(self.entries@, id, at as int));
                lemma_table(self.entries@);
            }
            Some(&self.entries[at].1)
        } else {
            assert(forall|i: int| !stands_at(self.entries@, id, i));
            None
        }
    }

    /// Puts `key` under `id`, in place of what stood there.
    pub fn insert(&mut self, id: u32, key: Vec<u8>)
        requires
            old(self).wf(),
        ensures
            final(self).wf(),
            final(self)@ == old(self)@.insert(id, key@),
    {
        let at = self.position(id);
        if at < self.entries.len() && self.entries[at].0 == id {
            proof {
                lemma_replaced(self.entries@, at as int, id, key);
            }
            self.entries[at] = (id, key);
        } else {
            proof {
                lemma_inserted(self.entries@, at as int, id, key);
            }
            self.entries.insert(at, (id, key));
        }
    }

    /// The ids and keys, in rising order of the ids.
    pub fn entries(&self) -> (entries: &Vec<(u32, Vec<u8>)>)
        requires
            self.wf(),
        ensures
            rising(entries@),
            table_of_entries(entries@) == self@,
    {
        &self.entries
    }
}

/// In a list with rising ids an id stands at one index only, and the table
/// holds under each id what the list holds there.
proof fn lemma_table(entries: Seq<(u32, Vec<u8>)>)
    requires
        rising(entries),
    ensures
        forall|id: u32, i: int, j: int| stands_at(entries, id, i) && stands_at(entries, id, j) ==> i == j,
        forall|id: u32, i: int| #[trigger]
            stands_at(entries, id, i) ==> table_of_entries(entries).contains_key(id) && table_of_entries(
                entries,
            )[id] == entries[i].1@,
{
    assert forall|id: u32, i: int, j: int| stands_at(entries, id, i) && stands_at(entries, id, j) implies i
        == j by {
        if i != j {
            assert(entries[i].0 != entries[j].0);
        }
    }
    assert forall|id: u32, i: int| #[trigger] stands_at(entries, id, i) implies table_of_entries(
        entries,
    ).contains_key(id) && table_of_entries(entries)[id] == entries[i].1@ by {
        let chosen = choose|at: int| stands_at(entries, id, at);
        assert(chosen == i);
    }
}

/// Putting a key in the place of the entry with the same id changes the
/// table under that id and nowhere else.
proof fn lemma_replaced(before: Seq<(u32, Vec<u8>)>, at: int, id: u32, key: Vec<u8>)
    requires
        rising(before),
        stands_at(before, id, at),
    ensures
        rising(before.update(at, (id, key))),
        table_of_entries(before.update(at, (id, key))) == table_of_entries(before).insert(id, key@),
{
    let after = before.update(at, (id, key));
    assert(forall|other: u32, i: int| stands_at(after, other, i) <==> stands_at(before, other, i));
    assert(stands_at(after, id, at));
    lemma_table(before);
    lemma_table(after);
    assert(table_of_entries(after) =~= table_of_entries(before).insert(id, key@));
}

/// Putting an entry with a new id where its id belongs adds it to the table
/// and changes nothing else.
proof fn lemma_inserted(before: Seq<(u32, Vec<u8>)>, at: int, id: u32, key: Vec<u8>)
    requires
        rising(before),
        0 <= at <= before.len(),
        forall|i: int| 0 <= i < at ==> before[i].0 < id,
        forall|i: int| at <= i < before.len() ==> before[i].0 > id,
    ensures
        rising(before.insert(at, (id, key))),
        table_of_entries(before.insert(at, (id, key))) == table_of_entries(before).insert(id, key@),
{
    let after = before.insert(at, (id, key));
    let table = table_of_entries(before).insert(id, key@);
    assert(rising(after));
    assert(stands_at(after, id, at));
    assert forall|other: u32, i: int| stands_at(before, other, i) implies stands_at(
        after,
        other,
        if i < at {
            i
        } else {
            i + 1
        },
    ) by {}
    assert forall|other: u32, i: int| stands_at(after, other, i) && other != id implies stands_at(
        before,
        other,
        if i < at {
            i
        } else {
            i - 1
        },
    ) by {}
    lemma_table(before);
    lemma_table(after);
    assert forall|other: u32| table_of_entries(after).contains_key(other) <==> table.contains_key(other) by {
        if table_of_entries(after).contains_key(other) && other != id {
            let i = choose|i: int| stands_at(after, other, i);
            assert(stands_at(before, other, if i < at { i } else { i - 1 }));
        }
        if table_of_entries(before).contains_key(other) {
            let i = choose|i: int| stands_at(before, other, i);
            assert(stands_at(after, other, if i < at { i } else { i + 1 }));
        }
    }
    assert forall|other: u32| table_of_entries(after).contains_key(other) implies table_of_entries(after)[other]
        == table[other] by {
        let i = choose|i: int| stands_at(after, other, i);
        if other != id {
            assert(stands_at(before, other, if i < at { i } else { i - 1 }));
        }
    }
    assert(table_of_entries(after) =~= table);
}

/// Every id is within `limit`, and every text is accepted as base64.
pub open spec fn acceptable(listed: Seq<(u32, Seq<char>)>, limit: u32) -> bool {
    forall|i: int|
        0 <= i < listed.len() ==> (#[trigger] listed[i]).0 <= limit && base64_decoded(listed[i].1) is Some
}

/// The table that a list of ids and base64 texts stands for. Where an id
/// comes twice, its last entry counts.
pub open spec fn table_of(listed: Seq<(u32, Seq<char>)>) -> Map<u32, Seq<u8>>
    decreases listed.len(),
{
    if listed.len() == 0 {
        Map::empty()
    } else {
        table_of(listed.drop_last()).insert(listed.last().0, base64_decoded(listed.last().1).unwrap())
    }
}

/// The greatest key id that the decoder of `game` takes: ids of Genshin
/// Impact have 16 bits, the others 32.
pub open spec fn key_id_limit(game: Game) -> u32 {
    match game {
        Game::Gi => 0xffff,
        _ => 0xffff_ffff,
    }
}

/// `loaded` is what reading the key bundle of `game` comes to: the table of
/// its entries, where the bundle is a JSON object from key ids to base64
/// texts with every id within what the game's decoder takes, and
/// `KeyBundleInvalid` otherwise.
pub open spec fn loaded_from(game: Game, bundle: Seq<u8>, loaded: Result<SessionKeyTable, ExportError>) -> bool {
    match bundle_entries(bundle) {
        Some(listed) => if acceptable(listed, key_id_limit(game)) {
            loaded matches Ok(table) && table.wf() && table@ == table_of(listed)
        } else {
            loaded matches Err(e) && e == ExportError::KeyBundleInvalid
        },
        None => loaded matches Err(e) && e == ExportError::KeyBundleInvalid,
    }
}

/// Reads the key bundle of `game`.
///
/// The bundle must be a JSON object from key ids to base64 texts, with every
/// id within what the game's decoder takes. Anything else gives
/// `KeyBundleInvalid`.
pub fn load_keys(game: Game, bundle: &[u8]) -> (loaded: Result<SessionKeyTable, ExportError>)
    ensures
        loaded_from(game, bundle@, loaded),
{
    let limit: u32 = match game {
        Game::Gi => 0xffff,
        _ => 0xffff_ffff,
    };
    let listed = match parse_bundle(bundle) {
        Ok(listed) => listed,
        Err(_) => {
            return Err(ExportError::KeyBundleInvalid);
        },
    };
    let ghost texts = listed.deep_view();
    let mut table = SessionKeyTable::new();
    let mut i: usize = 0;
    while i < listed.len()
        invariant
            i <= listed.len(),
            texts == listed.deep_view(),
            bundle_entries(bundle@) == Some(texts),
            limit == key_id_limit(game),
            table.wf(),
            table@ == table_of(texts.take(i as int)),
            acceptable(texts.take(i as int), limit),
        decreases listed.len() - i,
    {
        let id = listed[i].0;
        assert(texts[i as int] == (listed[i as int].0, listed[i as int].1@));
        if id > limit {
            return Err(ExportError::KeyBundleInvalid);
        }
        let key = match decode_base64(listed[i].1.as_str()) {
            Ok(key) => key,
            Err(_) => {
                return Err(ExportError::KeyBundleInvalid);
            },
        };
        proof {
            let next = texts.take(i + 1);
            assert(next.drop_last() == texts.take(i as int));
            assert forall|k: int| 0 <= k < next.len() implies (#[trigger] next[k]).0 <= limit && base64_decoded(
                next[k].1,
            ) is Some by {
                if k < i {
                    assert(next[k] == texts.take(i as int)[k]);
                }
            }
        }
        table.insert(id, key);
        i += 1;
    }
    assert(texts.take(listed.len() as int) == texts);
    Ok(table)
}

} // verus!
