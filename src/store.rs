//! The ordered storage map that holds the registry's records.
//!
//! The map's contents are modelled as a sequence of (key, record) pairs in its
//! iteration order: a new key goes to the end, an existing key keeps its place,
//! and a removal moves the last pair into the removed pair's place.
use near_sdk::store::IterableMap;
use vstd::prelude::*;

verus! {

/// A stored record: name, url, timestamp and owner.
pub type StoredRecord = (String, String, u64, String);

/// The storage map of the registry, from content key to record. Its entries live in
/// contract storage under the prefix it was made with, so each map must be the only
/// collection on its prefix: the library never makes one, and takes it from the
/// contract around it, which keeps the map in its state.
#[verifier::external_body]
pub struct FileMap {
    pub map: IterableMap<String, StoredRecord>,
}

/// What a stored record holds.
pub type RecordView = (Seq<char>, Seq<char>, u64, Seq<char>);

/// The contents of a storage map, in iteration order.
pub uninterp spec fn map_entries(m: FileMap) -> Seq<(Seq<char>, RecordView)>;

/// The place of `k` in `s`: the last index whose key is `k`, or -1.
pub open spec fn position(s: Seq<(Seq<char>, RecordView)>, k: Seq<char>) -> int
    decreases s.len(),
{
    if s.len() == 0 {
        -1
    } else if s.last().0 == k {
        s.len() - 1
    } else {
        position(s.drop_last(), k)
    }
}

/// No key occurs twice.
pub open spec fn keys_unique(s: Seq<(Seq<char>, RecordView)>) -> bool {
    forall|i: int, j: int| 0 <= i < s.len() && 0 <= j < s.len() && s[i].0 == s[j].0 ==> i == j
}

/// The record at key `k`, if any.
pub open spec fn lookup(s: Seq<(Seq<char>, RecordView)>, k: Seq<char>) -> Option<RecordView> {
    if position(s, k) >= 0 {
        Some(s[position(s, k)].1)
    } else {
        None
    }
}

/// The contents after inserting `v` at `k`: replaced in place, or appended.
pub open spec fn inserted(s: Seq<(Seq<char>, RecordView)>, k: Seq<char>, v: RecordView) -> Seq<
    (Seq<char>, RecordView),
> {
    if position(s, k) >= 0 {
        s.update(position(s, k), (k, v))
    } else {
        s.push((k, v))
    }
}

/// The contents after removing `k`: the last pair takes the removed pair's place.
pub open spec fn removed(s: Seq<(Seq<char>, RecordView)>, k: Seq<char>) -> Seq<
    (Seq<char>, RecordView),
> {
    if position(s, k) >= 0 {
        s.update(position(s, k), s.last()).drop_last()
    } else {
        s
    }
}

/// What a stored record holds, as plain values.
pub open spec fn view_of(r: StoredRecord) -> RecordView {
    (r.0@, r.1@, r.2, r.3@)
}

/// What `position` finds.
pub proof fn lemma_position(s: Seq<(Seq<char>, RecordView)>, k: Seq<char>)
    ensures
        -1 <= position(s, k) < s.len(),
        position(s, k) >= 0 ==> s[position(s, k)].0 == k,
        position(s, k) == -1 ==> forall|i: int| 0 <= i < s.len() ==> s[i].0 != k,
        keys_unique(s) ==> forall|i: int| 0 <= i < s.len() && s[i].0 == k ==> position(s, k) == i,
    decreases s.len(),
{
    if s.len() > 0 && s.last().0 != k {
        let t = s.drop_last();
        lemma_position(t, k);
        assert(position(s, k) == position(t, k));
        assert forall|i: int| 0 <= i < t.len() implies t[i] == s[i] by {}
    }
}

/// Relies on near_sdk::store::IterableMap::len: the number of entries.
#[verifier::external_body]
pub(crate) fn map_len(m: &FileMap) -> (r: u32)
    ensures
        r == map_entries(*m).len(),
{
    m.map.len()
}

/// Relies on near_sdk::store::IterableMap::get: the value stored at `k`, cloned.
#[verifier::external_body]
pub(crate) fn map_get(m: &FileMap, k: &String) -> (r: Option<StoredRecord>)
    ensures
        match r {
            Some(v) => lookup(map_entries(*m), k@) == Some(view_of(v)),
            None => lookup(map_entries(*m), k@) is None,
        },
{
    m.map.get(k).cloned()
}

/// Relies on near_sdk::store::IterableMap::insert: an existing key gets the new value
/// in its place; a new key is pushed to the end of the key vector, which panics when
/// the length would pass `u32::MAX`.
#[verifier::external_body]
pub(crate) fn map_insert(m: &mut FileMap, k: String, v: StoredRecord)
    requires
        position(map_entries(*old(m)), k@) >= 0 || map_entries(*old(m)).len() < u32::MAX,
    ensures
        map_entries(*final(m)) == inserted(map_entries(*old(m)), k@, view_of(v)),
{
    m.map.insert(k, v);
}

/// Relies on near_sdk::store::IterableMap::remove: the key's entry is swapped with the
/// last one and the last is dropped.
#[verifier::external_body]
pub(crate) fn map_remove(m: &mut FileMap, k: &String)
    ensures
        map_entries(*final(m)) == removed(map_entries(*old(m)), k@),
{
    m.map.remove(k);
}

/// Relies on near_sdk::store::IterableMap::iter: the entry at place `i` of the
/// iteration order, cloned.
#[verifier::external_body]
pub(crate) fn map_entry_at(m: &FileMap, i: u32) -> (r: Option<(String, StoredRecord)>)
    requires
        i < map_entries(*m).len(),
    ensures
        match r {
            Some(e) => map_entries(*m)[i as int] == (e.0@, view_of(e.1)),
            None => false,
        },
{
    m.map.iter().nth(i as usize).map(|(k, v)| (k.clone(), v.clone()))
}

} // verus!
