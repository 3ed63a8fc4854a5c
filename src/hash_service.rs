use vstd::prelude::*;

use crate::class::{files_view, EptFileNode, FileModel, ListedFile, ListedModel};

verus! {

/// No two records share a path.
pub open spec fn paths_unique(c: Seq<FileModel>) -> bool {
    forall|i: int, j: int|
        0 <= i < c.len() && 0 <= j < c.len() && i != j ==> #[trigger] c[i].path != #[trigger] c[j].path
}

/// Some record is for path `p`.
pub open spec fn has_path(c: Seq<FileModel>, p: Seq<char>) -> bool {
    exists|i: int| 0 <= i < c.len() && #[trigger] c[i].path == p
}

/// The position of the record for path `p`.
pub open spec fn index_of(c: Seq<FileModel>, p: Seq<char>) -> int {
    choose|i: int| 0 <= i < c.len() && #[trigger] c[i].path == p
}

/// The hash recorded for path `p`.
pub open spec fn hash_for(c: Seq<FileModel>, p: Seq<char>) -> Seq<char> {
    c[index_of(c, p)].hash
}

/// Some record is for path `p` under key `k`.
pub open spec fn has_record(c: Seq<FileModel>, p: Seq<char>, k: Seq<char>) -> bool {
    has_path(c, p) && c[index_of(c, p)].key == k
}

/// The records after `remove(p, k)`: the record for `p` goes if its key is `k`.
pub open spec fn removed(c: Seq<FileModel>, p: Seq<char>, k: Seq<char>) -> Seq<FileModel> {
    if has_record(c, p, k) {
        c.remove(index_of(c, p))
    } else {
        c
    }
}

/// The records after loading `f` into `c`: a record for a path already present is ignored.
pub open spec fn absorbed(c: Seq<FileModel>, f: FileModel) -> Seq<FileModel> {
    if has_path(c, f.path) {
        c
    } else {
        c.push(f)
    }
}

/// The records of a cache loaded from `s`, first record for a path winning.
pub open spec fn loaded(s: Seq<FileModel>) -> Seq<FileModel>
    decreases s.len(),
{
    if s.len() == 0 {
        Seq::empty()
    } else {
        absorbed(loaded(s.drop_last()), s.last())
    }
}

/// A listed file can be resolved: the cache knows it, or its digest was computed.
pub open spec fn resolvable(c: Seq<FileModel>, l: ListedModel) -> bool {
    has_path(c, l.path) || l.digest is Some
}

/// The hash that resolving `l` yields: the cached one on a hit, else the digest.
pub open spec fn resolved_hash(c: Seq<FileModel>, l: ListedModel) -> Seq<char> {
    if has_path(c, l.path) {
        hash_for(c, l.path)
    } else {
        l.digest.unwrap()
    }
}

/// The records after resolving `l`: a miss records the digest, a hit changes nothing.
pub open spec fn after_resolve(c: Seq<FileModel>, l: ListedModel) -> Seq<FileModel> {
    if has_path(c, l.path) {
        c
    } else {
        c.push(FileModel { path: l.path, hash: l.digest.unwrap(), key: l.key })
    }
}

/// Appending a record for a new path keeps paths unique and every earlier answer.
pub proof fn lemma_push_fresh(c: Seq<FileModel>, f: FileModel)
    requires
        paths_unique(c),
        !has_path(c, f.path),
    ensures
        paths_unique(c.push(f)),
        has_path(c.push(f), f.path),
        hash_for(c.push(f), f.path) == f.hash,
        forall|p: Seq<char>| #[trigger]
            has_path(c.push(f), p) == (has_path(c, p) || p == f.path),
        forall|p: Seq<char>|
            has_path(c, p) ==> #[trigger] hash_for(c.push(f), p) == hash_for(c, p),
{
    let d = c.push(f);
    assert(d[c.len() as int].path == f.path);
    assert forall|p: Seq<char>| #[trigger] has_path(d, p) == (has_path(c, p) || p == f.path) by {
        if has_path(d, p) {
            let i = choose|i: int| 0 <= i < d.len() && #[trigger] d[i].path == p;
            if i < c.len() {
                assert(c[i].path == p);
            }
        }
        if has_path(c, p) {
            let i = choose|i: int| 0 <= i < c.len() && #[trigger] c[i].path == p;
            assert(d[i].path == p);
        }
    }
    assert forall|p: Seq<char>| has_path(c, p) implies #[trigger] hash_for(d, p) == hash_for(c, p) by {
        let i = index_of(c, p);
        let j = index_of(d, p);
        assert(d[i].path == p);
        assert(j == i);
    }
}

/// The cache of content hashes, one record per path.
pub struct HashService {
    entries: Vec<EptFileNode>,
}

impl View for HashService {
    type V = Seq<FileModel>;

    closed spec fn view(&self) -> Seq<FileModel> {
        files_view(self.entries@)
    }
}

impl HashService {
    pub open spec fn wf(&self) -> bool {
        paths_unique(self@)
    }

    /// A cache loaded from persisted records; of two records for one path the first is kept.
    pub fn new(hash_map: Vec<EptFileNode>) -> (r: Self)
        ensures
            r.wf(),
            r@ == loaded(files_view(hash_map@)),
    {
        let mut r = HashService { entries: Vec::new() };
        let ghost s = files_view(hash_map@);
        let n = hash_map.len();
        let mut i: usize = 0;
        proof {
            assert(s.take(0) =~= Seq::<FileModel>::empty());
        }
        while i < n
            invariant
                n == hash_map@.len(),
                s == files_view(hash_map@),
                0 <= i <= n,
                r.wf(),
                r@ == loaded(s.take(i as int)),
            decreases n - i,
        {
            let f = &hash_map[i];
            proof {
                assert(s.take(i + 1).drop_last() =~= s.take(i as int));
                assert(s.take(i + 1).last() == f@);
            }
            if r.lookup(&f.path).is_none() {
                let ghost before = r@;
                proof {
                    lemma_push_fresh(before, f@);
                }
                r.entries.push(f.duplicate());
                proof {
                    assert(r@ =~= before.push(f@));
                }
            }
            i = i + 1;
        }
        proof {
            assert(s.take(n as int) =~= s);
        }
        r
    }

    /// The position of the record for `path`, if there is one.
    fn lookup(&self, path: &String) -> (r: Option<usize>)
        requires
            self.wf(),
        ensures
            match r {
                Some(i) => i < self@.len() && i == index_of(self@, path@) && has_path(self@, path@),
                None => !has_path(self@, path@),
            },
    {
        let mut i: usize = 0;
        while i < self.entries.len()
            invariant
                self.wf(),
                0 <= i <= self@.len(),
                self@.len() == self.entries@.len(),
                forall|j: int| 0 <= j < i ==> #[trigger] self@[j].path != path@,
            decreases self.entries@.len() - i,
        {
            if self.entries[i].path == *path {
                proof {
                    assert(self@[i as int].path == path@);
                    assert(has_path(self@, path@));
                    let j = index_of(self@, path@);
                    assert(self@[j].path == path@);
                }
                return Some(i);
            }
            i = i + 1;
        }
        None
    }

    /// Whether the cache holds a record for `path`.
    pub fn contains(&self, path: &String) -> (r: bool)
        requires
            self.wf(),
        ensures
            r == has_path(self@, path@),
    {
        self.lookup(path).is_some()
    }

    /// The hash recorded for `path`, if any.
    pub fn get(&self, path: &String) -> (r: Option<String>)
        requires
            self.wf(),
        ensures
            match r {
                Some(h) => has_path(self@, path@) && h@ == hash_for(self@, path@),
                None => !has_path(self@, path@),
            },
    {
        match self.lookup(path) {
            Some(i) => Some(self.entries[i].hash.clone()),
            None => None,
        }
    }

    /// The hash of a listed file: the cached one when the cache knows the path
    /// (nothing is recomputed), else its digest, which is then recorded.
    /// `None` when the path is unknown and no digest was computed.
    pub fn resolve(&mut self, file: &ListedFile) -> (r: Option<String>)
        requires
            old(self).wf(),
        ensures
            final(self).wf(),
            r is Some == resolvable(old(self)@, file@),
            resolvable(old(self)@, file@) ==> r.unwrap()@ == resolved_hash(old(self)@, file@)
                && final(self)@ == after_resolve(old(self)@, file@),
            !resolvable(old(self)@, file@) ==> final(self)@ == old(self)@,
    {
        match self.get(&file.path) {
            Some(h) => Some(h),
            None => match &file.digest {
                Some(d) => {
                    let node = EptFileNode::new(file.path.clone(), d.clone(), file.key.clone());
                    let ghost before = self@;
                    proof {
                        lemma_push_fresh(before, node@);
                    }
                    self.entries.push(node);
                    proof {
                        assert(self@ =~= before.push(node@));
                    }
                    Some(d.clone())
                },
                None => None,
            },
        }
    }

    /// Deletes the record for `path` when it is filed under `key`.
    pub fn remove(&mut self, path: &String, key: &String)
        requires
            old(self).wf(),
        ensures
            final(self).wf(),
            final(self)@ == removed(old(self)@, path@, key@),
    {
        if let Some(i) = self.lookup(path) {
            if self.entries[i].key == *key {
                let ghost before = self@;
                self.entries.remove(i);
                proof {
                    assert(self@ =~= before.remove(i as int));
                    assert forall|a: int, b: int|
                        0 <= a < self@.len() && 0 <= b < self@.len() && a != b
                        implies #[trigger] self@[a].path != #[trigger] self@[b].path by {
                        let a0 = if a < i { a } else { a + 1 };
                        let b0 = if b < i { b } else { b + 1 };
                        assert(self@[a] == before[a0]);
                        assert(self@[b] == before[b0]);
                    }
                }
            }
        }
    }

    /// Every record, for persistence.
    pub fn snapshot(&self) -> (r: Vec<EptFileNode>)
        ensures
            files_view(r@) == self@,
    {
        let mut r: Vec<EptFileNode> = Vec::new();
        let mut i: usize = 0;
        while i < self.entries.len()
            invariant
                0 <= i <= self.entries@.len(),
                files_view(r@) =~= files_view(self.entries@).take(i as int),
            decreases self.entries@.len() - i,
        {
            let ghost before = r@;
            r.push(self.entries[i].duplicate());
            proof {
                assert(files_view(r@) =~= files_view(before).push(self.entries@[i as int]@));
            }
            i = i + 1;
        }
        proof {
            assert(files_view(self.entries@).take(i as int) =~= self@);
        }
        r
    }
}

} // verus!
