//! The file registry: records keyed by the content key of their name.
use crate::hasher::{file_key, key_of};
use crate::store::{
    keys_unique, lemma_position, lookup, inserted, map_entries, map_entry_at, map_get,
    map_insert, map_len, map_remove, position, removed, view_of, FileMap, RecordView,
};
use vstd::prelude::*;

verus! {

/// The most records that one listing of an account's files returns.
pub const USER_FILES_LIMIT: usize = 100;

/// The metadata of one registered file.
pub struct FileInfo {
    pub name: String,
    pub url: String,
    /// When the record was made, as the environment's block time.
    pub timestamp: u64,
    /// The account that made the record, the only one that may delete it.
    pub owner: String,
}

impl View for FileInfo {
    type V = RecordView;

    open spec fn view(&self) -> RecordView {
        (self.name@, self.url@, self.timestamp, self.owner@)
    }
}

/// Why an operation on the registry was refused.
#[derive(Debug, Clone, Copy, PartialEq, Eq, Structural)]
pub enum RegistryError {
    /// The caller does not own the record it tried to delete.
    OwnershipViolation,
}

/// The registry: an ordered map from content key to file record.
pub struct Contract {
    pub files: FileMap,
}

/// The records of `s` owned by `a`, in order.
pub open spec fn owned(s: Seq<(Seq<char>, RecordView)>, a: Seq<char>) -> Seq<RecordView>
    decreases s.len(),
{
    if s.len() == 0 {
        Seq::empty()
    } else if s.last().1.3 == a {
        owned(s.drop_last(), a).push(s.last().1)
    } else {
        owned(s.drop_last(), a)
    }
}

/// The first `USER_FILES_LIMIT` records of `s` owned by `a`, in order.
pub open spec fn user_files(s: Seq<(Seq<char>, RecordView)>, a: Seq<char>) -> Seq<RecordView> {
    let o = owned(s, a);
    if o.len() <= USER_FILES_LIMIT {
        o
    } else {
        o.take(USER_FILES_LIMIT as int)
    }
}

/// The contents and the result after `caller` deletes the record at `k` in `s`.
pub open spec fn delete_outcome(s: Seq<(Seq<char>, RecordView)>, k: Seq<char>, caller: Seq<char>) -> (
    Seq<(Seq<char>, RecordView)>,
    Result<(), RegistryError>,
) {
    match lookup(s, k) {
        None => (s, Ok(())),
        Some(r) => if r.3 == caller {
            (removed(s, k), Ok(()))
        } else {
            (s, Err(RegistryError::OwnershipViolation))
        },
    }
}

/// Inserting keeps keys unique.
pub proof fn lemma_inserted_unique(s: Seq<(Seq<char>, RecordView)>, k: Seq<char>, v: RecordView)
    requires
        keys_unique(s),
    ensures
        keys_unique(inserted(s, k, v)),
{
    lemma_position(s, k);
}

/// Removing keeps keys unique.
pub proof fn lemma_removed_unique(s: Seq<(Seq<char>, RecordView)>, k: Seq<char>)
    requires
        keys_unique(s),
    ensures
        keys_unique(removed(s, k)),
{
    lemma_position(s, k);
    let t = removed(s, k);
    let p = position(s, k);
    if p >= 0 {
        assert forall|i: int, j: int|
            0 <= i < t.len() && 0 <= j < t.len() && t[i].0 == t[j].0 implies i == j by {
            let si = if i == p { s.len() - 1 } else { i };
            let sj = if j == p { s.len() - 1 } else { j };
            assert(t[i] == s[si]);
            assert(t[j] == s[sj]);
        }
    }
}

/// `owned` of a prefix is a prefix of `owned`.
proof fn lemma_owned_prefix(s: Seq<(Seq<char>, RecordView)>, a: Seq<char>, j: int)
    requires
        0 <= j <= s.len(),
    ensures
        owned(s.take(j), a).len() <= owned(s, a).len(),
        owned(s, a).take(owned(s.take(j), a).len() as int) == owned(s.take(j), a),
    decreases s.len(),
{
    if j == s.len() {
        assert(s.take(j) == s);
        assert(owned(s, a).take(owned(s, a).len() as int) == owned(s, a));
    } else {
        let t = s.drop_last();
        lemma_owned_prefix(t, a, j);
        assert(t.take(j) == s.take(j));
        let o = owned(s.take(j), a);
        assert(owned(s, a).take(o.len() as int) == owned(t, a).take(o.len() as int));
    }
}

/// One step of `owned` over the first `i + 1` entries.
proof fn lemma_owned_step(s: Seq<(Seq<char>, RecordView)>, a: Seq<char>, i: int)
    requires
        0 <= i < s.len(),
    ensures
        owned(s.take(i + 1), a) == (if s[i].1.3 == a {
            owned(s.take(i), a).push(s[i].1)
        } else {
            owned(s.take(i), a)
        }),
{
    assert(s.take(i + 1).drop_last() == s.take(i));
    assert(s.take(i + 1).last() == s[i]);
}

impl Contract {
    /// The registry's contents, in iteration order.
    pub closed spec fn entries(&self) -> Seq<(Seq<char>, RecordView)> {
        map_entries(self.files)
    }

    /// No two entries share a key.
    pub open spec fn wf(&self) -> bool {
        keys_unique(self.entries())
    }

    /// Makes a registry on an empty storage map; fails where the map has entries.
    pub fn new(files: FileMap) -> (r: Option<Self>)
        ensures
            r is Some <==> map_entries(files).len() == 0,
            r matches Some(c) ==> c.wf() && c.entries().len() == 0 && c.files == files,
    {
        if map_len(&files) == 0 {
            Some(Contract { files })
        } else {
            None
        }
    }

    /// The number of records.
    pub fn len(&self) -> (r: u32)
        ensures
            r == self.entries().len(),
    {
        map_len(&self.files)
    }

    /// Stores `info` under `key`, replacing any record there.
    pub fn insert_file(&mut self, key: String, info: FileInfo)
        requires
            old(self).wf(),
            lookup(old(self).entries(), key@) is Some || old(self).entries().len() < u32::MAX,
        ensures
            final(self).wf(),
            final(self).entries() == inserted(old(self).entries(), key@, info@),
    {
        proof {
            lemma_inserted_unique(self.entries(), key@, info@);
            lemma_position(self.entries(), key@);
        }
        let record = (info.name, info.url, info.timestamp, info.owner);
        map_insert(&mut self.files, key, record);
    }

    /// Registers a file made by `caller` at time `timestamp`, under the content key of
    /// its name, and returns that key. A record already under that key is replaced,
    /// whoever owned it.
    pub fn add_file(&mut self, name: String, url: String, caller: String, timestamp: u64) -> (key:
        String)
        requires
            old(self).wf(),
            old(self).entries().len() < u32::MAX,
        ensures
            final(self).wf(),
            key@ == key_of(name@),
            final(self).entries() == inserted(
                old(self).entries(),
                key@,
                (name@, url@, timestamp, caller@),
            ),
    {
        let key = file_key(name.as_str());
        let info = FileInfo { name, url, timestamp, owner: caller };
        self.insert_file(key.clone(), info);
        key
    }

    /// Returns a copy of the record under `file_hash`, if there is one.
    pub fn get_file(&self, file_hash: String) -> (r: Option<FileInfo>)
        ensures
            match r {
                Some(f) => lookup(self.entries(), file_hash@) == Some(f@),
                None => lookup(self.entries(), file_hash@) is None,
            },
    {
        match map_get(&self.files, &file_hash) {
            Some(v) => Some(FileInfo { name: v.0, url: v.1, timestamp: v.2, owner: v.3 }),
            None => None,
        }
    }

    /// Returns the first `USER_FILES_LIMIT` records owned by `account_id`, in the
    /// registry's iteration order.
    pub fn get_user_files(&self, account_id: String) -> (r: Vec<FileInfo>)
        ensures
            r@.map_values(|f: FileInfo| f@) == user_files(self.entries(), account_id@),
    {
        let ghost s = self.entries();
        let n = map_len(&self.files);
        let mut out: Vec<FileInfo> = Vec::new();
        let mut i: u32 = 0;
        while i < n && out.len() < USER_FILES_LIMIT
            invariant
                s == self.entries(),
                n == s.len(),
                0 <= i <= n,
                out.len() <= USER_FILES_LIMIT,
                out@.map_values(|f: FileInfo| f@) == owned(s.take(i as int), account_id@),
            decreases n - i,
        {
            proof {
                lemma_owned_step(s, account_id@, i as int);
            }
            match map_entry_at(&self.files, i) {
                Some(e) => {
                    let v = e.1;
                    if v.3 == account_id {
                        let info = FileInfo { name: v.0, url: v.1, timestamp: v.2, owner: v.3 };
                        let ghost prev = out@;
                        out.push(info);
                        assert(out@.map_values(|f: FileInfo| f@) == prev.map_values(
                            |f: FileInfo| f@,
                        ).push(view_of(v)));
                    }
                },
                None => {},
            }
            i = i + 1;
        }
        proof {
            lemma_owned_prefix(s, account_id@, i as int);
            if i == n {
                assert(s.take(i as int) == s);
            }
            let o = owned(s, account_id@);
            if out.len() == USER_FILES_LIMIT && o.len() <= USER_FILES_LIMIT {
                assert(o.take(o.len() as int) == o);
            }
        }
        out
    }

    /// Deletes the record under `file_hash` on behalf of `caller`. Nothing happens
    /// where there is no such record; where `caller` does not own it, the registry is
    /// left as it was and the call fails.
    pub fn delete_file(&mut self, caller: String, file_hash: String) -> (r: Result<
        (),
        RegistryError,
    >)
        requires
            old(self).wf(),
        ensures
            final(self).wf(),
            (final(self).entries(), r) == delete_outcome(old(self).entries(), file_hash@, caller@),
    {
        match map_get(&self.files, &file_hash) {
            Some(v) => {
                if v.3 != caller {
                    return Err(RegistryError::OwnershipViolation);
                }
                proof {
                    lemma_removed_unique(self.entries(), file_hash@);
                }
                map_remove(&mut self.files, &file_hash);
                Ok(())
            },
            None => Ok(()),
        }
    }
}

} // verus!
