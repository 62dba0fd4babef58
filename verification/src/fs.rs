//! An in-memory file store, viewed as a map from path to contents.
//!
//! The compile pipeline reads produced object files and writes cached ones
//! back; modelling those files as plain values keeps every step of the
//! pipeline provable. The layer that talks to a real disk mirrors this
//! interface.

use vstd::prelude::*;

use crate::bytes::clone_bytes;

verus! {

/// One stored file: its path and its contents.
pub struct FsFile {
    pub path: String,
    pub data: Vec<u8>,
}

/// No two stored files share a path.
pub open spec fn fs_paths_unique(s: Seq<FsFile>) -> bool {
    forall|i: int, j: int| 0 <= i < j < s.len() ==> s[i].path@ != s[j].path@
}

/// The map a list of files denotes: each path to its contents.
pub open spec fn fs_map(s: Seq<FsFile>) -> Map<Seq<char>, Seq<u8>> {
    Map::new(
        |p: Seq<char>| exists|i: int| 0 <= i < s.len() && s[i].path@ == p,
        |p: Seq<char>| s[choose|i: int| 0 <= i < s.len() && s[i].path@ == p].data@,
    )
}

/// A file store held entirely in memory.
pub struct InMemoryFs {
    files: Vec<FsFile>,
}

impl InMemoryFs {
    /// The abstract contents of the store.
    pub closed spec fn view(&self) -> Map<Seq<char>, Seq<u8>> {
        fs_map(self.files@)
    }

    /// Internal shape: no path occurs twice.
    pub closed spec fn wf(&self) -> bool {
        fs_paths_unique(self.files@)
    }

    /// An empty store.
    pub fn new() -> (r: InMemoryFs)
        ensures
            r.wf(),
            r@ == Map::<Seq<char>, Seq<u8>>::empty(),
    {
        let r = InMemoryFs { files: Vec::new() };
        proof {
            assert(r@ =~= Map::<Seq<char>, Seq<u8>>::empty());
        }
        r
    }

    /// The index of the record stored under `path`, if any.
    fn find_path(&self, path: &String) -> (r: Option<usize>)
        ensures
            match r {
                Some(i) => i < self.files@.len() && self.files@[i as int].path@ == path@,
                None => forall|j: int| 0 <= j < self.files@.len() ==> self.files@[j].path@ != path@,
            },
    {
        let mut i: usize = 0;
        let n = self.files.len();
        while i < n
            invariant
                i <= n,
                n == self.files.len(),
                forall|j: int| 0 <= j < i ==> self.files@[j].path@ != path@,
            decreases n - i,
        {
            if self.files[i].path == *path {
                return Some(i);
            }
            i = i + 1;
        }
        None
    }

    /// Stores `data` under `path`, replacing any previous contents.
    pub fn write(&mut self, path: &String, data: Vec<u8>)
        requires
            old(self).wf(),
        ensures
            final(self).wf(),
            final(self)@ == old(self)@.insert(path@, data@),
    {
        let ghost s0 = self.files@;
        match self.find_path(path) {
            Some(i) => {
                // `path` is present at index `i`; replace that record.
                self.files.remove(i);
                self.files.push(FsFile { path: path.clone(), data });
                proof {
                    lemma_fs_replace(s0, self.files@, i as int, path@);
                    assert(self@ =~= old(self)@.insert(path@, self.files@.last().data@));
                }
            },
            None => {
                self.files.push(FsFile { path: path.clone(), data });
                proof {
                    lemma_fs_append(s0, self.files@, path@);
                    assert(self@ =~= old(self)@.insert(path@, self.files@.last().data@));
                }
            },
        }
    }

    /// The contents stored under `path`, or `None` if the path is absent.
    pub fn read(&self, path: &String) -> (r: Option<Vec<u8>>)
        requires
            self.wf(),
        ensures
            match r {
                Some(d) => self@.contains_key(path@) && d@ == self@[path@],
                None => !self@.contains_key(path@),
            },
    {
        match self.find_path(path) {
            Some(i) => {
                proof {
                    let w = choose|k: int|
                        0 <= k < self.files@.len() && self.files@[k].path@ == path@;
                    assert(self.files@[i as int].path@ == path@);
                    assert(w == i as int);
                }
                Some(clone_bytes(&self.files[i].data))
            },
            None => {
                proof {
                    assert(!self@.contains_key(path@));
                }
                None
            },
        }
    }

    /// Whether any contents are stored under `path`.
    pub fn contains(&self, path: &String) -> (r: bool)
        requires
            self.wf(),
        ensures
            r == self@.contains_key(path@),
    {
        match self.read(path) {
            Some(_) => true,
            None => false,
        }
    }
}

/// Replacing the record of `p` (at index `i`) by a fresh record for `p` at the
/// back denotes inserting `p` into the old map.
proof fn lemma_fs_replace(s0: Seq<FsFile>, s1: Seq<FsFile>, i: int, p: Seq<char>)
    requires
        fs_paths_unique(s0),
        0 <= i < s0.len(),
        s0[i].path@ == p,
        s1.len() == s0.len(),
        s1 == s0.remove(i).push(s1.last()),
        s1.last().path@ == p,
    ensures
        fs_paths_unique(s1),
        fs_map(s1) == fs_map(s0).insert(p, s1.last().data@),
{
    let t = s0.remove(i);
    assert forall|a: int, b: int| 0 <= a < b < s1.len() implies s1[a].path@ != s1[b].path@ by {
        if b < s1.len() - 1 {
            // both from t; t keeps distinct entries of s0
            assert(s1[a] == t[a] && s1[b] == t[b]);
        } else {
            // b is the new record for p; a comes from t, which lost p's record
            assert(s1[a] == t[a]);
            if a < i {
                assert(t[a] == s0[a]);
            } else {
                assert(t[a] == s0[a + 1]);
            }
        }
    }
    assert(fs_map(s1) =~= fs_map(s0).insert(p, s1.last().data@)) by {
        assert forall|q: Seq<char>| #[trigger] fs_map(s1).contains_key(q) implies fs_map(
            s0,
        ).insert(p, s1.last().data@).contains_key(q) by {
            let k = choose|k: int| 0 <= k < s1.len() && s1[k].path@ == q;
            if k < s1.len() - 1 {
                if k < i {
                    assert(s0[k].path@ == q);
                } else {
                    assert(s0[k + 1].path@ == q);
                }
            }
        }
        assert forall|q: Seq<char>|
            fs_map(s0).insert(p, s1.last().data@).contains_key(q) implies #[trigger] fs_map(
            s1,
        ).contains_key(q) by {
            if q == p {
                assert(s1[s1.len() - 1].path@ == q);
            } else {
                let k = choose|k: int| 0 <= k < s0.len() && s0[k].path@ == q;
                assert(k != i);
                if k < i {
                    assert(s1[k].path@ == q);
                } else {
                    assert(s1[k - 1] == t[k - 1]);
                    assert(t[k - 1] == s0[k]);
                    assert(s1[k - 1].path@ == q);
                }
            }
        }
        assert forall|q: Seq<char>|
            #[trigger] fs_map(s1).contains_key(q) && fs_map(s0).insert(
                p,
                s1.last().data@,
            ).contains_key(q) implies fs_map(s1)[q] == fs_map(s0).insert(
            p,
            s1.last().data@,
        )[q] by {
            let k = choose|k: int| 0 <= k < s1.len() && s1[k].path@ == q;
            if q == p {
                assert(s1[s1.len() - 1].path@ == q);
                assert(k == s1.len() - 1);
                assert(fs_map(s1)[q] == s1.last().data@);
            } else {
                assert(k < s1.len() - 1);
                let k0 = if k < i {
                    k
                } else {
                    k + 1
                };
                assert(s0[k0].path@ == q && s0[k0].data@ == s1[k].data@);
                let w0 = choose|w: int| 0 <= w < s0.len() && s0[w].path@ == q;
                assert(w0 == k0);
                assert(fs_map(s0)[q] == s1[k].data@);
                assert(fs_map(s1)[q] == s1[k].data@);
            }
        }
    }
}

/// Appending a record for an absent path denotes inserting it into the map.
proof fn lemma_fs_append(s0: Seq<FsFile>, s1: Seq<FsFile>, p: Seq<char>)
    requires
        fs_paths_unique(s0),
        forall|j: int| 0 <= j < s0.len() ==> s0[j].path@ != p,
        s1 == s0.push(s1.last()),
        s1.len() == s0.len() + 1,
        s1.last().path@ == p,
    ensures
        fs_paths_unique(s1),
        fs_map(s1) == fs_map(s0).insert(p, s1.last().data@),
{
    assert forall|a: int, b: int| 0 <= a < b < s1.len() implies s1[a].path@ != s1[b].path@ by {
        if b < s1.len() - 1 {
            assert(s1[a] == s0[a] && s1[b] == s0[b]);
        } else {
            assert(s1[a] == s0[a]);
        }
    }
    assert(fs_map(s1) =~= fs_map(s0).insert(p, s1.last().data@)) by {
        assert forall|q: Seq<char>| #[trigger] fs_map(s1).contains_key(q) implies fs_map(
            s0,
        ).insert(p, s1.last().data@).contains_key(q) by {
            let k = choose|k: int| 0 <= k < s1.len() && s1[k].path@ == q;
            if k < s1.len() - 1 {
                assert(s0[k].path@ == q);
            }
        }
        assert forall|q: Seq<char>|
            fs_map(s0).insert(p, s1.last().data@).contains_key(q) implies #[trigger] fs_map(
            s1,
        ).contains_key(q) by {
            if q == p {
                assert(s1[s1.len() - 1].path@ == q);
            } else {
                let k = choose|k: int| 0 <= k < s0.len() && s0[k].path@ == q;
                assert(s1[k].path@ == q);
            }
        }
        assert forall|q: Seq<char>|
            #[trigger] fs_map(s1).contains_key(q) && fs_map(s0).insert(
                p,
                s1.last().data@,
            ).contains_key(q) implies fs_map(s1)[q] == fs_map(s0).insert(
            p,
            s1.last().data@,
        )[q] by {
            let k = choose|k: int| 0 <= k < s1.len() && s1[k].path@ == q;
            if q == p {
                assert(k == s1.len() - 1);
                assert(fs_map(s1)[q] == s1.last().data@);
            } else {
                assert(k < s1.len() - 1);
                assert(s0[k].path@ == q && s0[k].data@ == s1[k].data@);
                let w0 = choose|w: int| 0 <= w < s0.len() && s0[w].path@ == q;
                assert(w0 == k);
                assert(fs_map(s0)[q] == s1[k].data@);
                assert(fs_map(s1)[q] == s1[k].data@);
            }
        }
    }
}

} // verus!
