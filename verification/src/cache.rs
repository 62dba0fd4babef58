//! A size-bounded key→artifact store with least-recently-used eviction.
//!
//! Entries are held in recency order: the front of the record list is the
//! least recently used entry, the back the most recently used. A read
//! refreshes recency; an insertion evicts from the front until the new entry
//! fits under the configured maximum total size. The bound is an invariant:
//! after any sequence of operations the total stored size never exceeds the
//! maximum.

use vstd::prelude::*;

use crate::bytes::clone_bytes;
use crate::compiler::{key_matches, key_eq, CacheKey};

verus! {

/// The stored artifact for one cache key: the compiled object bytes and the
/// console output captured when it was produced. Only successful
/// compilations are ever stored.
pub struct CacheEntry {
    pub object: Vec<u8>,
    pub stdout: Vec<u8>,
    pub stderr: Vec<u8>,
}

/// Two entries hold byte-identical object, stdout and stderr.
pub open spec fn entry_like(a: CacheEntry, b: CacheEntry) -> bool {
    &&& a.object@ == b.object@
    &&& a.stdout@ == b.stdout@
    &&& a.stderr@ == b.stderr@
}

/// A fresh entry with exactly the contents of `e`.
pub fn clone_entry(e: &CacheEntry) -> (r: CacheEntry)
    ensures
        entry_like(r, *e),
{
    CacheEntry {
        object: clone_bytes(&e.object),
        stdout: clone_bytes(&e.stdout),
        stderr: clone_bytes(&e.stderr),
    }
}

/// How much of the size budget an entry occupies: the bytes of its object
/// and captured output.
pub open spec fn entry_size(e: CacheEntry) -> int {
    e.object@.len() + e.stdout@.len() + e.stderr@.len() as int
}

/// One stored record: its key, its artifact, and its size, kept alongside
/// so the budget arithmetic never recomputes it.
pub struct CacheRecord {
    pub key: CacheKey,
    pub entry: CacheEntry,
    pub size: usize,
}

/// Total budget the records occupy.
pub open spec fn total_size(s: Seq<CacheRecord>) -> int
    decreases s.len(),
{
    if s.len() == 0 {
        0
    } else {
        entry_size(s[0].entry) + total_size(s.drop_first())
    }
}

/// No two records answer to the same key.
pub open spec fn keys_unique(s: Seq<CacheRecord>) -> bool {
    forall|i: int, j: int| 0 <= i < j < s.len() ==> !key_matches(s[i].key, s[j].key)
}

/// Every record's cached size is correct.
pub open spec fn sizes_ok(s: Seq<CacheRecord>) -> bool {
    forall|i: int| 0 <= i < s.len() ==> #[trigger] (s[i].size as int) == entry_size(s[i].entry)
}

/// Some record answers to `k`.
pub open spec fn has_key(s: Seq<CacheRecord>, k: CacheKey) -> bool {
    exists|i: int| 0 <= i < s.len() && key_matches(s[i].key, k)
}

/// Index of the record answering to `k` (unique when keys are unique).
pub open spec fn idx_of(s: Seq<CacheRecord>, k: CacheKey) -> int {
    choose|i: int| 0 <= i < s.len() && key_matches(s[i].key, k)
}

/// The artifact stored under `k`.
pub open spec fn stored_entry(s: Seq<CacheRecord>, k: CacheKey) -> CacheEntry {
    s[idx_of(s, k)].entry
}

/// The record list without the record answering to `k`, if any.
pub open spec fn remove_key(s: Seq<CacheRecord>, k: CacheKey) -> Seq<CacheRecord> {
    if has_key(s, k) {
        s.remove(idx_of(s, k))
    } else {
        s
    }
}

/// With unique keys, two records answering to the same key stand at the
/// same index.
proof fn lemma_unique_idx(s: Seq<CacheRecord>, k: CacheKey, a: int, b: int)
    requires
        keys_unique(s),
        0 <= a < s.len(),
        0 <= b < s.len(),
        key_matches(s[a].key, k),
        key_matches(s[b].key, k),
    ensures
        a == b,
{
    if a < b {
        assert(key_matches(s[a].key, s[b].key));
    }
    if b < a {
        assert(key_matches(s[b].key, s[a].key));
    }
}

proof fn lemma_total_size_nonneg(s: Seq<CacheRecord>)
    ensures
        total_size(s) >= 0,
    decreases s.len(),
{
    if s.len() > 0 {
        lemma_total_size_nonneg(s.drop_first());
    }
}

proof fn lemma_total_size_push(s: Seq<CacheRecord>, r: CacheRecord)
    ensures
        total_size(s.push(r)) == total_size(s) + entry_size(r.entry),
    decreases s.len(),
{
    if s.len() == 0 {
        assert(s.push(r)[0] == r);
        assert(s.push(r).drop_first() =~= Seq::<CacheRecord>::empty());
        assert(total_size(Seq::<CacheRecord>::empty()) == 0);
    } else {
        assert(s.push(r)[0] == s[0]);
        assert(s.push(r).drop_first() =~= s.drop_first().push(r));
        lemma_total_size_push(s.drop_first(), r);
    }
}

proof fn lemma_total_size_remove(s: Seq<CacheRecord>, i: int)
    requires
        0 <= i < s.len(),
    ensures
        total_size(s.remove(i)) == total_size(s) - entry_size(s[i].entry),
    decreases s.len(),
{
    if i == 0 {
        assert(s.remove(0) =~= s.drop_first());
    } else {
        assert(s.remove(i).drop_first() =~= s.drop_first().remove(i - 1));
        lemma_total_size_remove(s.drop_first(), i - 1);
    }
}

/// Removing the unique record of `k` leaves every other key in place, with
/// its artifact, and frees exactly that record's budget.
proof fn lemma_remove_key(s: Seq<CacheRecord>, k: CacheKey)
    requires
        keys_unique(s),
    ensures
        keys_unique(remove_key(s, k)),
        sizes_ok(s) ==> sizes_ok(remove_key(s, k)),
        !has_key(remove_key(s, k), k),
        total_size(remove_key(s, k)) == total_size(s) - (if has_key(s, k) {
            entry_size(stored_entry(s, k))
        } else {
            0
        }),
        forall|k2: CacheKey|
            !key_matches(k2, k) ==> #[trigger] has_key(remove_key(s, k), k2) == has_key(s, k2),
        forall|k2: CacheKey|
            !key_matches(k2, k) && has_key(s, k2) ==> stored_entry(remove_key(s, k), k2)
                == stored_entry(s, k2),
{
    if has_key(s, k) {
        let i = idx_of(s, k);
        let t = s.remove(i);
        lemma_total_size_remove(s, i);
        assert forall|a: int| 0 <= a < t.len() implies t[a] == s[if a < i {
            a
        } else {
            a + 1
        }] by {}
        assert forall|a: int, b: int| 0 <= a < b < t.len() implies !key_matches(
            t[a].key,
            t[b].key,
        ) by {}
        assert(0 <= i < s.len() && key_matches(s[i].key, k));
        assert forall|a: int| 0 <= a < t.len() implies !key_matches(t[a].key, k) by {
            let a0 = if a < i {
                a
            } else {
                a + 1
            };
            assert(t[a] == s[a0]);
            assert(a0 != i);
            if key_matches(s[a0].key, k) {
                lemma_unique_idx(s, k, a0, i);
            }
        }
        assert forall|k2: CacheKey| !key_matches(k2, k) implies #[trigger] has_key(t, k2)
            == has_key(s, k2) by {
            if has_key(t, k2) {
                let a = choose|a: int| 0 <= a < t.len() && key_matches(t[a].key, k2);
                let a0 = if a < i {
                    a
                } else {
                    a + 1
                };
                assert(s[a0] == t[a]);
                assert(has_key(s, k2));
            }
            if has_key(s, k2) {
                let a0 = choose|a: int| 0 <= a < s.len() && key_matches(s[a].key, k2);
                assert(a0 != i);
                let a = if a0 < i {
                    a0
                } else {
                    a0 - 1
                };
                assert(t[a] == s[a0]);
                assert(has_key(t, k2));
            }
        }
        assert forall|k2: CacheKey| !key_matches(k2, k) && has_key(s, k2) implies stored_entry(
            t,
            k2,
        ) == stored_entry(s, k2) by {
            let a0 = choose|a: int| 0 <= a < s.len() && key_matches(s[a].key, k2);
            if a0 == i {
                assert(key_matches(s[i].key, k2));
                assert(key_matches(k2, k));
            }
            assert(a0 != i);
            let a = if a0 < i {
                a0
            } else {
                a0 - 1
            };
            assert(t[a] == s[a0]);
            assert(key_matches(t[a].key, k2));
            assert(has_key(t, k2));
            let w = idx_of(t, k2);
            assert(0 <= w < t.len() && key_matches(t[w].key, k2));
            lemma_unique_idx(t, k2, w, a);
            let w0 = idx_of(s, k2);
            assert(0 <= w0 < s.len() && key_matches(s[w0].key, k2));
            lemma_unique_idx(s, k2, w0, a0);
        }
    }
}

/// Dropping a prefix keeps uniqueness, and every key that survives keeps its
/// artifact.
proof fn lemma_skip(s: Seq<CacheRecord>, j: int)
    requires
        keys_unique(s),
        0 <= j <= s.len(),
    ensures
        keys_unique(s.skip(j)),
        sizes_ok(s) ==> sizes_ok(s.skip(j)),
        forall|k2: CacheKey| #[trigger] has_key(s.skip(j), k2) ==> has_key(s, k2),
        forall|k2: CacheKey|
            #[trigger] has_key(s.skip(j), k2) ==> stored_entry(s.skip(j), k2) == stored_entry(
                s,
                k2,
            ),
        forall|k2: CacheKey| has_key(s, k2) && !has_key(s.skip(j), k2) ==> idx_of(s, k2) < j,
{
    let t = s.skip(j);
    assert forall|a: int| 0 <= a < t.len() implies t[a] == s[a + j] by {}
    assert forall|k2: CacheKey| #[trigger] has_key(t, k2) implies has_key(s, k2) && stored_entry(
        t,
        k2,
    ) == stored_entry(s, k2) by {
        let a = choose|a: int| 0 <= a < t.len() && key_matches(t[a].key, k2);
        assert(s[a + j] == t[a]);
        assert(has_key(s, k2));
        let w = idx_of(t, k2);
        assert(0 <= w < t.len() && key_matches(t[w].key, k2));
        lemma_unique_idx(t, k2, w, a);
        let w0 = idx_of(s, k2);
        assert(0 <= w0 < s.len() && key_matches(s[w0].key, k2));
        lemma_unique_idx(s, k2, w0, a + j);
    }
    assert forall|k2: CacheKey| has_key(s, k2) && !has_key(t, k2) implies idx_of(s, k2) < j by {
        let w0 = idx_of(s, k2);
        assert(0 <= w0 < s.len() && key_matches(s[w0].key, k2));
        if w0 >= j {
            assert(t[w0 - j] == s[w0]);
            assert(has_key(t, k2));
        }
    }
}

/// Appending a record for a fresh key stores its artifact under that key and
/// disturbs no other.
proof fn lemma_push_new(s: Seq<CacheRecord>, r: CacheRecord)
    requires
        keys_unique(s),
        forall|i: int| 0 <= i < s.len() ==> !key_matches(s[i].key, r.key),
    ensures
        keys_unique(s.push(r)),
        has_key(s.push(r), r.key),
        stored_entry(s.push(r), r.key) == r.entry,
        forall|k2: CacheKey|
            !key_matches(k2, r.key) ==> #[trigger] has_key(s.push(r), k2) == has_key(s, k2),
        forall|k2: CacheKey|
            !key_matches(k2, r.key) && has_key(s, k2) ==> stored_entry(s.push(r), k2)
                == stored_entry(s, k2),
{
    let t = s.push(r);
    assert(t[t.len() - 1] == r);
    assert forall|a: int, b: int| 0 <= a < b < t.len() implies !key_matches(t[a].key, t[b].key) by {
        if b < t.len() - 1 {
            assert(t[a] == s[a] && t[b] == s[b]);
        } else {
            assert(t[a] == s[a]);
        }
    }
    assert(key_matches(r.key, r.key));
    assert(has_key(t, r.key));
    let w = idx_of(t, r.key);
    assert(0 <= w < t.len() && key_matches(t[w].key, r.key));
    if w < t.len() - 1 {
        assert(t[w] == s[w]);
    }
    assert(w == t.len() - 1);
    assert forall|k2: CacheKey| !key_matches(k2, r.key) implies #[trigger] has_key(t, k2)
        == has_key(s, k2) by {
        if has_key(t, k2) {
            let a = choose|a: int| 0 <= a < t.len() && key_matches(t[a].key, k2);
            if a == t.len() - 1 {
                assert(key_matches(r.key, k2));
            } else {
                assert(t[a] == s[a]);
                assert(has_key(s, k2));
            }
        }
        if has_key(s, k2) {
            let a = choose|a: int| 0 <= a < s.len() && key_matches(s[a].key, k2);
            assert(t[a] == s[a]);
            assert(has_key(t, k2));
        }
    }
    assert forall|k2: CacheKey| !key_matches(k2, r.key) && has_key(s, k2) implies stored_entry(
        t,
        k2,
    ) == stored_entry(s, k2) by {
        let a = choose|a: int| 0 <= a < s.len() && key_matches(s[a].key, k2);
        assert(t[a] == s[a]);
        let w2 = idx_of(t, k2);
        assert(0 <= w2 < t.len() && key_matches(t[w2].key, k2));
        if w2 == t.len() - 1 {
            assert(key_matches(r.key, k2));
        }
        assert(t[w2] == s[w2]);
        lemma_unique_idx(s, k2, w2, a);
        let w0 = idx_of(s, k2);
        assert(0 <= w0 < s.len() && key_matches(s[w0].key, k2));
        lemma_unique_idx(s, k2, w0, a);
    }
}

/// Moving the record at `i` to the back changes no key, no artifact and no
/// total.
proof fn lemma_touch(s: Seq<CacheRecord>, i: int)
    requires
        keys_unique(s),
        0 <= i < s.len(),
    ensures
        keys_unique(s.remove(i).push(s[i])),
        sizes_ok(s) ==> sizes_ok(s.remove(i).push(s[i])),
        total_size(s.remove(i).push(s[i])) == total_size(s),
        forall|k2: CacheKey| #[trigger] has_key(s.remove(i).push(s[i]), k2) == has_key(s, k2),
        forall|k2: CacheKey|
            has_key(s, k2) ==> stored_entry(s.remove(i).push(s[i]), k2) == stored_entry(s, k2),
{
    let t0 = s.remove(i);
    let r = s[i];
    let t = t0.push(r);
    lemma_total_size_remove(s, i);
    lemma_total_size_push(t0, r);
    assert forall|a: int| 0 <= a < t0.len() implies t0[a] == s[if a < i {
        a
    } else {
        a + 1
    }] by {}
    assert forall|a: int| 0 <= a < t0.len() implies !key_matches(t0[a].key, r.key) by {
        let a0 = if a < i {
            a
        } else {
            a + 1
        };
        assert(t0[a] == s[a0]);
        assert(a0 != i);
        if key_matches(s[a0].key, s[i].key) {
            if a0 < i {
                assert(!key_matches(s[a0].key, s[i].key));
            } else {
                assert(key_matches(s[i].key, s[a0].key));
                assert(!key_matches(s[i].key, s[a0].key));
            }
        }
    }
    assert forall|a: int, b: int| 0 <= a < b < t0.len() implies !key_matches(
        t0[a].key,
        t0[b].key,
    ) by {}
    lemma_push_new(t0, r);
    assert forall|k2: CacheKey| #[trigger] has_key(t, k2) == has_key(s, k2) by {
        if key_matches(k2, r.key) {
            assert(has_key(t, r.key));
            assert(key_matches(s[i].key, k2));
            assert(has_key(s, k2));
            let a = choose|a: int| 0 <= a < t.len() && key_matches(t[a].key, r.key);
            assert(key_matches(t[a].key, k2));
            assert(has_key(t, k2));
        } else {
            lemma_remove_key_has(s, k2, i);
        }
    }
    assert forall|k2: CacheKey| has_key(s, k2) implies stored_entry(t, k2) == stored_entry(
        s,
        k2,
    ) by {
        if key_matches(k2, r.key) {
            let w0 = idx_of(s, k2);
            assert(0 <= w0 < s.len() && key_matches(s[w0].key, k2));
            assert(key_matches(s[i].key, k2));
            lemma_unique_idx(s, k2, w0, i);
            let w = idx_of(t, k2);
            assert(0 <= w < t.len() && key_matches(t[w].key, k2));
            if w < t.len() - 1 {
                assert(!key_matches(t0[w].key, r.key));
                assert(key_matches(t0[w].key, k2));
                assert(key_matches(k2, r.key));
                assert(key_matches(t0[w].key, r.key)) by {
                    lemma_key_matches_trans(t0[w].key, k2, r.key);
                }
            }
            assert(w == t.len() - 1);
            assert(stored_entry(t, k2) == r.entry);
            assert(stored_entry(s, k2) == s[i].entry);
        } else {
            lemma_remove_key_has(s, k2, i);
        }
    }
}

/// `key_matches` runs through equality of views, so it carries across.
pub proof fn lemma_key_matches_trans(a: CacheKey, b: CacheKey, c: CacheKey)
    requires
        key_matches(a, b),
        key_matches(b, c),
    ensures
        key_matches(a, c),
{
}

/// Helper: removing index `i` and pushing `s[i]` preserves lookup for keys
/// that do not answer to `s[i].key`.
proof fn lemma_remove_key_has(s: Seq<CacheRecord>, k2: CacheKey, i: int)
    requires
        keys_unique(s),
        keys_unique(s.remove(i).push(s[i])),
        0 <= i < s.len(),
        !key_matches(k2, s[i].key),
    ensures
        has_key(s.remove(i).push(s[i]), k2) == has_key(s, k2),
        has_key(s, k2) ==> stored_entry(s.remove(i).push(s[i]), k2) == stored_entry(s, k2),
{
    let t0 = s.remove(i);
    let r = s[i];
    let t = t0.push(r);
    assert forall|a: int| 0 <= a < t0.len() implies t0[a] == s[if a < i {
        a
    } else {
        a + 1
    }] by {}
    if has_key(s, k2) {
        let a0 = choose|a: int| 0 <= a < s.len() && key_matches(s[a].key, k2);
        assert(a0 != i) by {
            if a0 == i {
                assert(key_matches(s[i].key, k2));
            }
        }
        let a = if a0 < i {
            a0
        } else {
            a0 - 1
        };
        assert(t0[a] == s[a0]);
        assert(t[a] == t0[a]);
        assert(has_key(t, k2));
        let w = idx_of(t, k2);
        assert(0 <= w < t.len() && key_matches(t[w].key, k2));
        lemma_unique_idx(t, k2, w, a);
        let w0 = idx_of(s, k2);
        assert(0 <= w0 < s.len() && key_matches(s[w0].key, k2));
        lemma_unique_idx(s, k2, w0, a0);
    }
    if has_key(t, k2) {
        let a = choose|a: int| 0 <= a < t.len() && key_matches(t[a].key, k2);
        if a == t.len() - 1 {
            assert(key_matches(r.key, k2));
        }
        let a0 = if a < i {
            a
        } else {
            a + 1
        };
        assert(t[a] == t0[a] && t0[a] == s[a0]);
        assert(has_key(s, k2));
    }
}

/// The persistent, size-bounded store, keyed by cache key, recency ordered.
pub struct DiskCache {
    /// The configured root directory of the store.
    root: String,
    /// The maximum total size the records may occupy.
    max_size: usize,
    /// Cached total of the stored record sizes.
    total: usize,
    /// The records, least recently used first.
    records: Vec<CacheRecord>,
}

impl DiskCache {
    /// The stored records, least recently used first.
    pub closed spec fn contents(&self) -> Seq<CacheRecord> {
        self.records@
    }

    /// The configured maximum total size.
    pub closed spec fn capacity(&self) -> int {
        self.max_size as int
    }

    /// The configured root directory.
    pub closed spec fn root_path(&self) -> Seq<char> {
        self.root@
    }

    /// The store's invariant: unique keys, correct size accounting, and the
    /// eviction bound — the total stored size never exceeds the maximum.
    pub closed spec fn wf(&self) -> bool {
        &&& keys_unique(self.records@)
        &&& sizes_ok(self.records@)
        &&& self.total as int == total_size(self.records@)
        &&& total_size(self.records@) <= self.max_size as int
    }

    /// An empty store under `root`, bounded by `max_size` bytes in total.
    pub fn new(root: &String, max_size: usize) -> (r: DiskCache)
        ensures
            r.wf(),
            r.contents() == Seq::<CacheRecord>::empty(),
            r.capacity() == max_size as int,
            r.root_path() == root@,
    {
        let r = DiskCache { root: root.clone(), max_size, total: 0, records: Vec::new() };
        proof {
            assert(r.records@ =~= Seq::<CacheRecord>::empty());
        }
        r
    }

    /// Index of the record answering to `key`, if any.
    fn find(&self, key: &CacheKey) -> (r: Option<usize>)
        ensures
            match r {
                Some(i) => i < self.contents().len() && key_matches(
                    self.contents()[i as int].key,
                    *key,
                ),
                None => !has_key(self.contents(), *key),
            },
    {
        let mut i: usize = 0;
        let n = self.records.len();
        while i < n
            invariant
                i <= n,
                n == self.records.len(),
                forall|j: int| 0 <= j < i ==> !key_matches(self.records@[j].key, *key),
            decreases n - i,
        {
            if key_eq(&self.records[i].key, key) {
                return Some(i);
            }
            i = i + 1;
        }
        proof {
            assert forall|j: int| 0 <= j < self.records@.len() implies !key_matches(
                self.records@[j].key,
                *key,
            ) by {}
        }
        None
    }

    /// Retrieves the artifact stored under `key`, refreshing its recency; a
    /// missing key is a miss, and the store is unchanged. No key appears or
    /// disappears, and no stored artifact changes.
    pub fn get(&mut self, key: &CacheKey) -> (r: Option<CacheEntry>)
        requires
            old(self).wf(),
        ensures
            final(self).wf(),
            final(self).capacity() == old(self).capacity(),
            final(self).root_path() == old(self).root_path(),
            match r {
                Some(e) => {
                    &&& has_key(old(self).contents(), *key)
                    &&& entry_like(e, stored_entry(old(self).contents(), *key))
                    &&& exists|i: int|
                        0 <= i < old(self).contents().len() && key_matches(
                            old(self).contents()[i].key,
                            *key,
                        ) && final(self).contents() == old(self).contents().remove(i).push(
                            old(self).contents()[i],
                        )
                },
                None => {
                    &&& !has_key(old(self).contents(), *key)
                    &&& final(self).contents() == old(self).contents()
                },
            },
            forall|k2: CacheKey|
                #[trigger] has_key(final(self).contents(), k2) == has_key(old(self).contents(), k2),
            forall|k2: CacheKey|
                has_key(old(self).contents(), k2) ==> stored_entry(final(self).contents(), k2)
                    == stored_entry(old(self).contents(), k2),
            total_size(final(self).contents()) == total_size(old(self).contents()),
    {
        let found = self.find(key);
        match found {
            Some(i) => {
                let ghost s0 = self.records@;
                proof {
                    assert(has_key(s0, *key));
                    let w = idx_of(s0, *key);
                    assert(0 <= w < s0.len() && key_matches(s0[w].key, *key));
                    lemma_unique_idx(s0, *key, w, i as int);
                    lemma_touch(s0, i as int);
                }
                let rec = self.records.remove(i);
                let result = clone_entry(&rec.entry);
                self.records.push(rec);
                proof {
                    assert(self.records@ =~= s0.remove(i as int).push(s0[i as int]));
                }
                Some(result)
            },
            None => None,
        }
    }

    /// Stores `entry` under `key`, replacing any previous artifact for that
    /// key. If the entry cannot fit under the maximum even alone, the write
    /// is dropped and the store unchanged; otherwise the least recently used
    /// records are evicted, in order from the front, until it fits. Every
    /// surviving key keeps its artifact.
    pub fn put(&mut self, key: CacheKey, entry: CacheEntry)
        requires
            old(self).wf(),
        ensures
            final(self).wf(),
            final(self).capacity() == old(self).capacity(),
            final(self).root_path() == old(self).root_path(),
            entry_size(entry) > old(self).capacity() ==> final(self).contents() == old(
                self,
            ).contents(),
            entry_size(entry) <= old(self).capacity() ==> {
                &&& has_key(final(self).contents(), key)
                &&& stored_entry(final(self).contents(), key) == entry
                &&& final(self).contents().len() >= 1
                &&& final(self).contents().last().key == key
                &&& final(self).contents().last().entry == entry
                &&& exists|j: int|
                    0 <= j <= remove_key(old(self).contents(), key).len() && final(self).contents()
                        == remove_key(old(self).contents(), key).skip(j).push(
                        final(self).contents().last(),
                    )
            },
            forall|k2: CacheKey|
                !key_matches(k2, key) && #[trigger] has_key(final(self).contents(), k2) ==> has_key(
                    old(self).contents(),
                    k2,
                ) && stored_entry(final(self).contents(), k2) == stored_entry(
                    old(self).contents(),
                    k2,
                ),
    {
        proof {
            lemma_total_size_nonneg(self.records@);
        }
        let size = match entry_size_checked(&entry) {
            Some(s) => s,
            None => {
                // Larger than any possible budget: the write is dropped.
                return ;
            },
        };
        if size > self.max_size {
            return ;
        }
        // Drop the previous record for this key, if any.
        let ghost s_orig = self.records@;
        proof {
            lemma_remove_key(s_orig, key);
        }
        match self.find(&key) {
            Some(i) => {
                proof {
                    assert(has_key(s_orig, key));
                    let w = idx_of(s_orig, key);
                    assert(0 <= w < s_orig.len() && key_matches(s_orig[w].key, key));
                    lemma_unique_idx(s_orig, key, w, i as int);
                    lemma_total_size_remove(s_orig, i as int);
                    lemma_total_size_nonneg(s_orig.remove(i as int));
                    assert((s_orig[i as int].size as int) == entry_size(s_orig[i as int].entry));
                }
                let removed = self.records.remove(i);
                proof {
                    assert(removed == s_orig[i as int]);
                }
                self.total = self.total - removed.size;
            },
            None => {},
        }
        let ghost base = self.records@;
        proof {
            assert(base == remove_key(s_orig, key));
            assert(base.skip(0) =~= base);
        }
        // Evict least recently used records until the new entry fits.
        let ghost mut j: int = 0;
        while self.total > self.max_size - size
            invariant
                keys_unique(self.records@),
                sizes_ok(self.records@),
                self.total as int == total_size(self.records@),
                0 <= j <= base.len(),
                self.records@ == base.skip(j),
                size <= self.max_size,
                self.max_size == old(self).max_size,
                self.root@ == old(self).root@,
            decreases self.records@.len(),
        {
            let ghost cur = self.records@;
            proof {
                if cur.len() == 0 {
                    assert(total_size(cur) == 0);
                }
                assert(cur.len() > 0);
                lemma_total_size_nonneg(cur.drop_first());
                assert((cur[0].size as int) == entry_size(cur[0].entry));
                assert(total_size(cur) == entry_size(cur[0].entry) + total_size(cur.drop_first()));
            }
            let evicted = self.records.remove(0);
            self.total = self.total - evicted.size;
            proof {
                assert(evicted == cur[0]);
                assert(self.records@ =~= cur.drop_first());
                assert(base.skip(j).drop_first() =~= base.skip(j + 1));
                j = j + 1;
            }
        }
        proof {
            lemma_skip(base, j);
            assert forall|a: int| 0 <= a < self.records@.len() implies !key_matches(
                self.records@[a].key,
                key,
            ) by {
                assert(self.records@[a] == base[a + j]);
                if key_matches(base[a + j].key, key) {
                    assert(has_key(base, key));
                }
            }
            lemma_push_new(self.records@, (CacheRecord { key, entry, size }));
            lemma_total_size_push(self.records@, (CacheRecord { key, entry, size }));
        }
        self.records.push(CacheRecord { key, entry, size });
        self.total = self.total + size;
    }
}

/// The size an entry would occupy, or `None` when it cannot be represented.
fn entry_size_checked(e: &CacheEntry) -> (r: Option<usize>)
    ensures
        match r {
            Some(n) => n as int == entry_size(*e),
            None => entry_size(*e) > usize::MAX as int,
        },
{
    let a = e.object.len();
    let b = e.stdout.len();
    let c = e.stderr.len();
    if b > usize::MAX - a {
        return None;
    }
    let ab = a + b;
    if c > usize::MAX - ab {
        return None;
    }
    Some(ab + c)
}

/// Idempotent storage: a store that holds `e` under `k` yields, on
/// retrieval of `k`, byte-identical object, stdout and stderr to what was
/// stored. Together with the contract of `put`, which leaves exactly the
/// stored artifact under `k`, and of `get`, which returns the stored
/// artifact, this is the round trip law.
pub proof fn lemma_store_then_retrieve(s: Seq<CacheRecord>, k: CacheKey, e: CacheEntry)
    requires
        keys_unique(s),
        has_key(s, k),
        stored_entry(s, k) == e,
    ensures
        forall|r: CacheEntry| entry_like(r, stored_entry(s, k)) ==> entry_like(r, e),
{
}

/// A well-formed store has unique keys.
pub proof fn lemma_wf_keys_unique(c: &DiskCache)
    requires
        c.wf(),
    ensures
        keys_unique(c.contents()),
{
}

/// Matching keys are interchangeable for lookup: they find the same record
/// and the same artifact.
pub proof fn lemma_key_equiv(s: Seq<CacheRecord>, k1: CacheKey, k2: CacheKey)
    requires
        keys_unique(s),
        key_matches(k1, k2),
    ensures
        has_key(s, k1) == has_key(s, k2),
        has_key(s, k1) ==> stored_entry(s, k1) == stored_entry(s, k2),
{
    if has_key(s, k1) {
        let a = choose|a: int| 0 <= a < s.len() && key_matches(s[a].key, k1);
        lemma_key_matches_trans(s[a].key, k1, k2);
        assert(has_key(s, k2));
    }
    if has_key(s, k2) {
        let a = choose|a: int| 0 <= a < s.len() && key_matches(s[a].key, k2);
        assert(key_matches(k2, k1));
        lemma_key_matches_trans(s[a].key, k2, k1);
        assert(has_key(s, k1));
    }
    if has_key(s, k1) {
        let w1 = idx_of(s, k1);
        assert(0 <= w1 < s.len() && key_matches(s[w1].key, k1));
        let w2 = idx_of(s, k2);
        assert(0 <= w2 < s.len() && key_matches(s[w2].key, k2));
        lemma_key_matches_trans(s[w1].key, k1, k2);
        lemma_unique_idx(s, k2, w1, w2);
    }
}

/// The eviction invariant: a well-formed store never holds more than its
/// configured maximum, whatever sequence of operations produced it.
pub proof fn lemma_size_bounded(c: DiskCache)
    requires
        c.wf(),
    ensures
        total_size(c.contents()) <= c.capacity(),
{
}

} // verus!
