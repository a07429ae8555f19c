//! Properties of the registry that relate several of its operations, stated over the
//! models that the operations' contracts use.
use crate::hasher::key_of;
use crate::registry::{delete_outcome, owned, user_files, RegistryError, USER_FILES_LIMIT};
use crate::store::{keys_unique, lemma_position, lookup, inserted, position, removed, RecordView};
use vstd::prelude::*;

verus! {

/// After `k` is inserted, looking `k` up gives the inserted record, and keys stay unique.
proof fn lemma_lookup_inserted(s: Seq<(Seq<char>, RecordView)>, k: Seq<char>, v: RecordView)
    requires
        keys_unique(s),
    ensures
        keys_unique(inserted(s, k, v)),
        lookup(inserted(s, k, v), k) == Some(v),
        position(s, k) >= 0 ==> inserted(s, k, v).len() == s.len(),
        position(s, k) < 0 ==> inserted(s, k, v).len() == s.len() + 1,
{
    lemma_position(s, k);
    let t = inserted(s, k, v);
    crate::registry::lemma_inserted_unique(s, k, v);
    lemma_position(t, k);
    if position(s, k) >= 0 {
        assert(t[position(s, k)].0 == k);
    } else {
        assert(t[s.len() as int].0 == k);
    }
}

/// Round trip: once a file is added, looking up the key of its name gives a record
/// with that name, that url, that time and the adding caller as owner.
pub proof fn lemma_add_then_get(
    s: Seq<(Seq<char>, RecordView)>,
    name: Seq<char>,
    url: Seq<char>,
    timestamp: u64,
    caller: Seq<char>,
)
    requires
        keys_unique(s),
    ensures
        lookup(inserted(s, key_of(name), (name, url, timestamp, caller)), key_of(name)) == Some(
            (name, url, timestamp, caller),
        ),
{
    lemma_lookup_inserted(s, key_of(name), (name, url, timestamp, caller));
}

/// Overwrite: adding a name a second time replaces the first record; the key then
/// holds the second record and occurs in exactly one entry.
pub proof fn lemma_add_overwrites(
    s: Seq<(Seq<char>, RecordView)>,
    name: Seq<char>,
    first: RecordView,
    second: RecordView,
)
    requires
        keys_unique(s),
        first.0 == name,
        second.0 == name,
    ensures
        ({
            let k = key_of(name);
            let t = inserted(inserted(s, k, first), k, second);
            &&& lookup(t, k) == Some(second)
            &&& t.len() == inserted(s, k, first).len()
            &&& exists|i: int| 0 <= i < t.len() && t[i].0 == k
            &&& forall|i: int, j: int|
                0 <= i < t.len() && 0 <= j < t.len() && t[i].0 == k && t[j].0 == k ==> i == j
        }),
{
    let k = key_of(name);
    let u = inserted(s, k, first);
    lemma_lookup_inserted(s, k, first);
    lemma_lookup_inserted(u, k, second);
    lemma_position(u, k);
    let t = inserted(u, k, second);
    lemma_position(t, k);
    assert(t[position(t, k)].0 == k);
}

/// Ownership: when a file added by `owner` is deleted by another caller, the delete
/// fails and the registry, and so the record, stay as they were.
pub proof fn lemma_delete_by_other_refused(
    s: Seq<(Seq<char>, RecordView)>,
    name: Seq<char>,
    url: Seq<char>,
    timestamp: u64,
    owner: Seq<char>,
    other: Seq<char>,
)
    requires
        keys_unique(s),
        owner != other,
    ensures
        ({
            let k = key_of(name);
            let t = inserted(s, k, (name, url, timestamp, owner));
            &&& delete_outcome(t, k, other) == (t, Err::<(), RegistryError>(
                RegistryError::OwnershipViolation,
            ))
            &&& lookup(delete_outcome(t, k, other).0, k) == Some((name, url, timestamp, owner))
        }),
{
    lemma_lookup_inserted(s, key_of(name), (name, url, timestamp, owner));
}

/// Deleting a key that holds no record succeeds and changes nothing, for any caller.
pub proof fn lemma_delete_missing(s: Seq<(Seq<char>, RecordView)>, k: Seq<char>, caller: Seq<char>)
    requires
        lookup(s, k) is None,
    ensures
        delete_outcome(s, k, caller) == (s, Ok::<(), RegistryError>(())),
{
}

/// The owner's delete succeeds and leaves no record under the key.
pub proof fn lemma_delete_by_owner(s: Seq<(Seq<char>, RecordView)>, k: Seq<char>, caller: Seq<char>)
    requires
        keys_unique(s),
        lookup(s, k) matches Some(r) && r.3 == caller,
    ensures
        delete_outcome(s, k, caller).1 is Ok,
        lookup(delete_outcome(s, k, caller).0, k) is None,
{
    lemma_position(s, k);
    let p = position(s, k);
    let t = removed(s, k);
    assert forall|i: int| 0 <= i < t.len() implies t[i].0 != k by {
        if i == p {
            assert(t[i] == s[s.len() - 1]);
        } else {
            assert(t[i] == s[i]);
        }
    }
    lemma_position(t, k);
}

/// Where every record belongs to `a`, `owned` lists them all, in order.
proof fn lemma_owned_all(s: Seq<(Seq<char>, RecordView)>, a: Seq<char>)
    requires
        forall|i: int| 0 <= i < s.len() ==> s[i].1.3 == a,
    ensures
        owned(s, a).len() == s.len(),
        forall|i: int| 0 <= i < s.len() ==> owned(s, a)[i] == s[i].1,
    decreases s.len(),
{
    if s.len() > 0 {
        let t = s.drop_last();
        assert forall|i: int| 0 <= i < t.len() implies t[i].1.3 == a by {
            assert(t[i] == s[i]);
        }
        lemma_owned_all(t, a);
    }
}

/// Where no record belongs to `a`, `owned` is empty.
proof fn lemma_owned_none(s: Seq<(Seq<char>, RecordView)>, a: Seq<char>)
    requires
        forall|i: int| 0 <= i < s.len() ==> s[i].1.3 != a,
    ensures
        owned(s, a).len() == 0,
    decreases s.len(),
{
    if s.len() > 0 {
        let t = s.drop_last();
        assert forall|i: int| 0 <= i < t.len() implies t[i].1.3 != a by {
            assert(t[i] == s[i]);
        }
        lemma_owned_none(t, a);
    }
}

/// Pagination: where every record belongs to `a`, the listing of `a`'s files is the
/// first `USER_FILES_LIMIT` records (or all, where there are fewer), in iteration
/// order.
pub proof fn lemma_user_files_bounded(s: Seq<(Seq<char>, RecordView)>, a: Seq<char>)
    requires
        forall|i: int| 0 <= i < s.len() ==> s[i].1.3 == a,
    ensures
        user_files(s, a).len() == if s.len() <= USER_FILES_LIMIT {
            s.len()
        } else {
            USER_FILES_LIMIT as nat
        },
        forall|i: int| 0 <= i < user_files(s, a).len() ==> user_files(s, a)[i] == s[i].1,
{
    lemma_owned_all(s, a);
}

/// An account that owns no record gets an empty listing.
pub proof fn lemma_user_files_empty(s: Seq<(Seq<char>, RecordView)>, a: Seq<char>)
    requires
        forall|i: int| 0 <= i < s.len() ==> s[i].1.3 != a,
    ensures
        user_files(s, a).len() == 0,
{
    lemma_owned_none(s, a);
}

} // verus!
