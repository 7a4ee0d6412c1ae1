//! The content cache.
//!
//! One entry per resolved path: the file's bytes and the modification
//! timestamp they were read at. The table behaves like a map from path
//! bytes to `(content bytes, timestamp)`; every request revalidates an
//! entry against a fresh stat before it is served, evicting it when the
//! file has disappeared, and falling through to a reload when the
//! timestamp no longer matches.

use vstd::prelude::*;
use vstd::slice::slice_to_vec;
use crate::errors::IoErrorKind;
use crate::errors::ServeError;
use crate::errors::spec_classify_fs_error;
use crate::errors::classify_fs_error;
use crate::errors::not_found;
use crate::text::bytes_eq;

verus! {

/// A cached page: the bytes served for a path and the modification
/// timestamp of the file they were read from.
pub struct Cache {
    pub content: Vec<u8>,
    pub modified_timestamp: u64,
}

impl View for Cache {
    type V = (Seq<u8>, u64);

    open spec fn view(&self) -> (Seq<u8>, u64) {
        (self.content@, self.modified_timestamp)
    }
}

/// True when no two entries share a key.
spec fn distinct_keys(s: Seq<(Vec<u8>, Cache)>) -> bool {
    forall|i: int, j: int| 0 <= i < j < s.len() ==> s[i].0@ != s[j].0@
}

/// The map an entry list stands for; later entries win, though the
/// table never keeps two entries for one key.
spec fn kv_map(s: Seq<(Vec<u8>, Cache)>) -> Map<Seq<u8>, (Seq<u8>, u64)>
    decreases s.len(),
{
    if s.len() == 0 {
        Map::empty()
    } else {
        kv_map(s.drop_last()).insert(s.last().0@, s.last().1@)
    }
}

proof fn lemma_kv_contains(s: Seq<(Vec<u8>, Cache)>, k: Seq<u8>)
    ensures
        kv_map(s).contains_key(k) <==> (exists|i: int| 0 <= i < s.len() && s[i].0@ == k),
    decreases s.len(),
{
    if s.len() > 0 {
        lemma_kv_contains(s.drop_last(), k);
        let last = s.len() - 1;
        if s[last].0@ == k {
            assert(s.last().0@ == k);
        } else {
            if kv_map(s).contains_key(k) {
                let i = choose|i: int| 0 <= i < s.drop_last().len() && s.drop_last()[i].0@ == k;
                assert(s[i].0@ == k);
            }
            if exists|i: int| 0 <= i < s.len() && s[i].0@ == k {
                let i = choose|i: int| 0 <= i < s.len() && s[i].0@ == k;
                assert(s.drop_last()[i].0@ == k);
            }
        }
    }
}

proof fn lemma_distinct_prefix(s: Seq<(Vec<u8>, Cache)>)
    requires
        distinct_keys(s),
        s.len() > 0,
    ensures
        distinct_keys(s.drop_last()),
{
    assert forall|i: int, j: int|
        0 <= i < j < s.drop_last().len() implies s.drop_last()[i].0@ != s.drop_last()[j].0@ by {
        assert(s[i].0@ != s[j].0@);
    }
}

proof fn lemma_kv_index(s: Seq<(Vec<u8>, Cache)>, k: Seq<u8>, i: int)
    requires
        distinct_keys(s),
        0 <= i < s.len(),
        s[i].0@ == k,
    ensures
        kv_map(s).contains_key(k),
        kv_map(s)[k] == s[i].1@,
    decreases s.len(),
{
    let last = s.len() - 1;
    if i == last {
    } else {
        assert(s[last].0@ != k);
        lemma_distinct_prefix(s);
        assert(s.drop_last()[i].0@ == k);
        lemma_kv_index(s.drop_last(), k, i);
    }
}

proof fn lemma_kv_update(s: Seq<(Vec<u8>, Cache)>, i: int, p: (Vec<u8>, Cache))
    requires
        distinct_keys(s),
        0 <= i < s.len(),
        p.0@ == s[i].0@,
    ensures
        kv_map(s.update(i, p)) == kv_map(s).insert(p.0@, p.1@),
    decreases s.len(),
{
    let last = s.len() - 1;
    let t = s.update(i, p);
    if i == last {
        assert(t.drop_last() =~= s.drop_last());
        assert(t.last() == p);
        assert(kv_map(t) =~= kv_map(s).insert(p.0@, p.1@));
    } else {
        assert(t.drop_last() =~= s.drop_last().update(i, p));
        assert(t.last() == s.last());
        lemma_distinct_prefix(s);
        assert(s.drop_last()[i].0@ == s[i].0@);
        lemma_kv_update(s.drop_last(), i, p);
        assert(s[last].0@ != p.0@);
        assert(kv_map(t) =~= kv_map(s).insert(p.0@, p.1@));
    }
}

proof fn lemma_kv_push(s: Seq<(Vec<u8>, Cache)>, p: (Vec<u8>, Cache))
    ensures
        kv_map(s.push(p)) == kv_map(s).insert(p.0@, p.1@),
{
    assert(s.push(p).drop_last() =~= s);
    assert(s.push(p).last() == p);
}

proof fn lemma_kv_remove(s: Seq<(Vec<u8>, Cache)>, k: Seq<u8>, i: int)
    requires
        distinct_keys(s),
        0 <= i < s.len(),
        s[i].0@ == k,
    ensures
        kv_map(s.remove(i)) == kv_map(s).remove(k),
    decreases s.len(),
{
    let last = s.len() - 1;
    if i == last {
        assert(s.remove(i) =~= s.drop_last());
        lemma_kv_contains(s.drop_last(), k);
        if kv_map(s.drop_last()).contains_key(k) {
            let j = choose|j: int| 0 <= j < s.drop_last().len() && s.drop_last()[j].0@ == k;
            assert(s[j].0@ != s[last].0@);
            assert(false);
        }
        assert(kv_map(s.remove(i)) =~= kv_map(s).remove(k));
    } else {
        assert forall|j: int| 0 <= j < s.remove(i).drop_last().len() implies s.remove(
            i,
        ).drop_last()[j] == s.drop_last().remove(i)[j] by {
            if j < i {
                assert(s.remove(i)[j] == s[j]);
            } else {
                assert(s.remove(i)[j] == s[j + 1]);
            }
        }
        assert(s.remove(i).drop_last() =~= s.drop_last().remove(i));
        assert(s.remove(i).last() == s.last());
        lemma_distinct_prefix(s);
        assert(s.drop_last()[i].0@ == k);
        lemma_kv_remove(s.drop_last(), k, i);
        assert(s[last].0@ != k);
        assert(kv_map(s.remove(i)) =~= kv_map(s).remove(k));
    }
}

/// The content cache: an associative store from resolved path bytes to
/// cached pages, with at most one entry per path.
pub struct CacheTable {
    entries: Vec<(Vec<u8>, Cache)>,
}

impl View for CacheTable {
    type V = Map<Seq<u8>, (Seq<u8>, u64)>;

    closed spec fn view(&self) -> Map<Seq<u8>, (Seq<u8>, u64)> {
        kv_map(self.entries@)
    }
}

impl CacheTable {
    #[verifier::type_invariant]
    closed spec fn wf(self) -> bool {
        distinct_keys(self.entries@)
    }

    /// An empty cache.
    pub fn new() -> (r: Self)
        ensures
            r@ == Map::<Seq<u8>, (Seq<u8>, u64)>::empty(),
    {
        CacheTable { entries: Vec::new() }
    }

    /// The index of the entry for `path`, if one exists.
    fn find_index(&self, path: &Vec<u8>) -> (r: Option<usize>)
        ensures
            match r {
                Some(i) => i < self.entries@.len() && self.entries@[i as int].0@ == path@,
                None => forall|j: int|
                    0 <= j < self.entries@.len() ==> self.entries@[j].0@ != path@,
            },
    {
        let mut i: usize = 0;
        while i < self.entries.len()
            invariant
                i <= self.entries@.len(),
                forall|j: int| 0 <= j < i ==> self.entries@[j].0@ != path@,
            decreases self.entries@.len() - i,
        {
            if bytes_eq(&self.entries[i].0, path) {
                return Some(i);
            }
            i = i + 1;
        }
        None
    }

    /// True when the cache holds an entry for `path`.
    pub fn contains(&self, path: &Vec<u8>) -> (r: bool)
        ensures
            r == self@.contains_key(path@),
    {
        proof {
            use_type_invariant(&*self);
            lemma_kv_contains(self.entries@, path@);
        }
        self.find_index(path).is_some()
    }

    /// The entry for `path`, if one exists.
    pub fn get(&self, path: &Vec<u8>) -> (r: Option<&Cache>)
        ensures
            match r {
                Some(c) => self@.contains_key(path@) && c@ == self@[path@],
                None => !self@.contains_key(path@),
            },
    {
        proof {
            use_type_invariant(&*self);
            lemma_kv_contains(self.entries@, path@);
        }
        match self.find_index(path) {
            Some(i) => {
                proof {
                    lemma_kv_index(self.entries@, path@, i as int);
                }
                Some(&self.entries[i].1)
            },
            None => None,
        }
    }

    /// Stores `entry` under `path`, replacing any previous entry.
    pub fn insert(&mut self, path: Vec<u8>, entry: Cache)
        ensures
            final(self)@ == old(self)@.insert(path@, entry@),
    {
        proof {
            use_type_invariant(&*self);
        }
        let index = self.find_index(&path);
        let mut entries: Vec<(Vec<u8>, Cache)> = Vec::new();
        core::mem::swap(&mut entries, &mut self.entries);
        let ghost s = entries@;
        match index {
            Some(i) => {
                proof {
                    lemma_kv_update(s, i as int, (path, entry));
                    assert forall|x: int, y: int|
                        0 <= x < y < s.update(i as int, (path, entry)).len() implies s.update(
                        i as int,
                        (path, entry),
                    )[x].0@ != s.update(i as int, (path, entry))[y].0@ by {
                        assert(s[x].0@ != s[y].0@);
                    }
                }
                entries[i] = (path, entry);
            },
            None => {
                proof {
                    lemma_kv_push(s, (path, entry));
                    assert forall|x: int, y: int|
                        0 <= x < y < s.push((path, entry)).len() implies s.push(
                        (path, entry),
                    )[x].0@ != s.push((path, entry))[y].0@ by {
                        if y < s.len() {
                            assert(s[x].0@ != s[y].0@);
                        }
                    }
                }
                entries.push((path, entry));
            },
        }
        self.entries = entries;
    }

    /// Drops the entry for `path`, if one exists.
    pub fn remove(&mut self, path: &Vec<u8>)
        ensures
            final(self)@ == old(self)@.remove(path@),
    {
        proof {
            use_type_invariant(&*self);
        }
        let index = self.find_index(path);
        let mut entries: Vec<(Vec<u8>, Cache)> = Vec::new();
        core::mem::swap(&mut entries, &mut self.entries);
        let ghost s = entries@;
        match index {
            Some(i) => {
                proof {
                    lemma_kv_remove(s, path@, i as int);
                    assert forall|x: int, y: int|
                        0 <= x < y < s.remove(i as int).len() implies s.remove(i as int)[x].0@
                        != s.remove(i as int)[y].0@ by {
                        let x0 = if x < i { x } else { x + 1 };
                        let y0 = if y < i { y } else { y + 1 };
                        assert(s.remove(i as int)[x] == s[x0]);
                        assert(s.remove(i as int)[y] == s[y0]);
                        assert(s[x0].0@ != s[y0].0@);
                    }
                }
                entries.remove(i);
            },
            None => {
                proof {
                    lemma_kv_contains(s, path@);
                    assert(kv_map(s).remove(path@) =~= kv_map(s));
                }
            },
        }
        self.entries = entries;
    }
}

/// What a cache consultation does: a missing entry is a miss; a present
/// entry is served when the fresh timestamp matches the stored one and
/// is a miss otherwise; a failed stat of a present entry propagates as
/// an error, evicting the entry when the file is gone.
pub open spec fn spec_cache_lookup(
    m: Map<Seq<u8>, (Seq<u8>, u64)>,
    path: Seq<u8>,
    current: Result<u64, IoErrorKind>,
) -> (Result<Option<Seq<u8>>, ServeError>, Map<Seq<u8>, (Seq<u8>, u64)>) {
    if !m.contains_key(path) {
        (Ok(None), m)
    } else {
        match current {
            Ok(ts) => if m[path].1 == ts {
                (Ok(Some(m[path].0)), m)
            } else {
                (Ok(None), m)
            },
            Err(kind) => (
                Err(spec_classify_fs_error(kind)),
                if kind is NotFound {
                    m.remove(path)
                } else {
                    m
                },
            ),
        }
    }
}

/// True when the executable lookup result carries exactly the bytes of
/// the specified one.
pub open spec fn spec_body_result_matches(
    r: Result<Option<Vec<u8>>, ServeError>,
    s: Result<Option<Seq<u8>>, ServeError>,
) -> bool {
    match r {
        Ok(None) => s matches Ok(o) && o is None,
        Ok(Some(v)) => s matches Ok(o) && o matches Some(b) && v@ == b,
        Err(e) => s matches Err(e2) && e == e2,
    }
}

/// Consults the cache for `full_path`, given the outcome of a fresh
/// stat of that path: `Ok(Some(bytes))` is a hit served as-is,
/// `Ok(None)` a miss to be answered by loading the file, and `Err` the
/// response class of a failed stat. A vanished file evicts its entry;
/// nothing else changes the cache.
pub fn get_content_from_cache(
    caches: &mut CacheTable,
    full_path: &Vec<u8>,
    current_timestamp: Result<u64, IoErrorKind>,
) -> (r: Result<Option<Vec<u8>>, ServeError>)
    ensures
        final(caches)@ == spec_cache_lookup(old(caches)@, full_path@, current_timestamp).1,
        spec_body_result_matches(
            r,
            spec_cache_lookup(old(caches)@, full_path@, current_timestamp).0,
        ),
{
    if !caches.contains(full_path) {
        return Ok(None);
    }
    match current_timestamp {
        Ok(ts) => {
            match caches.get(full_path) {
                Some(entry) => {
                    if entry.modified_timestamp == ts {
                        Ok(Some(slice_to_vec(entry.content.as_slice())))
                    } else {
                        Ok(None)
                    }
                },
                None => {
                    proof {
                        assert(false);
                    }
                    Ok(None)
                },
            }
        },
        Err(kind) => {
            let e = classify_fs_error(&kind);
            if not_found(&kind) {
                caches.remove(full_path);
            }
            Err(e)
        },
    }
}

} // verus!
