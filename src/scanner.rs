use vstd::prelude::*;

use crate::class::{
    candidates_view, files_view, groups_view, listed_view, CandidateModel, EptFileNode, FileModel,
    GroupModel, LazyDeleteNode, ListedFile, ListedModel, PackageGroup,
};
use crate::hash_service::{
    after_resolve, has_path, lemma_push_fresh, removed, resolvable, resolved_hash, HashService,
};

verus! {

/// Every listed file can be resolved against the records `c`.
pub open spec fn scan_ok(c: Seq<FileModel>, ls: Seq<ListedModel>) -> bool {
    forall|i: int| 0 <= i < ls.len() ==> #[trigger] resolvable(c, ls[i])
}

/// The records and the discovered files after resolving the listed files in order.
pub open spec fn scan_model(c: Seq<FileModel>, ls: Seq<ListedModel>) -> (Seq<FileModel>, Seq<FileModel>)
    decreases ls.len(),
{
    if ls.len() == 0 {
        (c, Seq::empty())
    } else {
        let prev = scan_model(c, ls.drop_last());
        let l = ls.last();
        (
            after_resolve(prev.0, l),
            prev.1.push(FileModel { path: l.path, hash: resolved_hash(prev.0, l), key: l.key }),
        )
    }
}

/// The keys of `nodes`, each once, in order of first appearance.
pub open spec fn key_order(nodes: Seq<FileModel>) -> Seq<Seq<char>>
    decreases nodes.len(),
{
    if nodes.len() == 0 {
        Seq::empty()
    } else {
        let prev = key_order(nodes.drop_last());
        if prev.contains(nodes.last().key) {
            prev
        } else {
            prev.push(nodes.last().key)
        }
    }
}

/// Whether a file belongs to the group of key `k`.
pub open spec fn in_group(k: Seq<char>) -> spec_fn(FileModel) -> bool {
    |f: FileModel| f.key == k
}

/// The grouping of `nodes`: one group per key, in order of first appearance,
/// holding the files of that key in their order.
pub open spec fn group_model(nodes: Seq<FileModel>) -> Seq<GroupModel> {
    key_order(nodes).map_values(|k: Seq<char>| GroupModel { key: k, files: nodes.filter(in_group(k)) })
}

/// Some listed file has path `p`.
pub open spec fn listed(ls: Seq<ListedModel>, p: Seq<char>) -> bool {
    exists|i: int| 0 <= i < ls.len() && #[trigger] ls[i].path == p
}

/// The delete candidate for record `f`, unless a listed file has its path.
pub open spec fn stale_pick(ls: Seq<ListedModel>) -> spec_fn(FileModel) -> Option<CandidateModel> {
    |f: FileModel|
        if listed(ls, f.path) {
            None
        } else {
            Some(CandidateModel { path: f.path, key: f.key })
        }
}

/// The records of `c`, in order, whose path was not listed.
pub open spec fn stale_model(c: Seq<FileModel>, ls: Seq<ListedModel>) -> Seq<CandidateModel> {
    c.filter_map(stale_pick(ls))
}

/// A listed file was neither known to the cache nor hashed.
pub enum ScanError {
    MissingDigest,
}

/// Resolves discovered files through the hash cache and groups them.
pub struct Scanner {
    hash_service: HashService,
}

impl Scanner {
    pub closed spec fn wf(&self) -> bool {
        self.hash_service.wf()
    }

    /// The records of the cache.
    pub closed spec fn cache(&self) -> Seq<FileModel> {
        self.hash_service@
    }

    pub fn new(hash_service: HashService) -> (r: Self)
        requires
            hash_service.wf(),
        ensures
            r.wf(),
            r.cache() == hash_service@,
    {
        Scanner { hash_service }
    }

    /// Whether the cache holds a record for `path`.
    pub fn is_cached(&self, path: &String) -> (r: bool)
        requires
            self.wf(),
        ensures
            r == has_path(self.cache(), path@),
    {
        self.hash_service.contains(path)
    }

    /// Every record of the cache, for persistence.
    pub fn export(&self) -> (r: Vec<EptFileNode>)
        ensures
            files_view(r@) == self.cache(),
    {
        self.hash_service.snapshot()
    }

    /// The cache records, in order, whose path no listed file has.
    pub fn stale_records(&self, listing: &Vec<ListedFile>) -> (r: Vec<LazyDeleteNode>)
        ensures
            candidates_view(r@) == stale_model(self.cache(), listed_view(listing@)),
    {
        let ghost c = self.hash_service@;
        let ghost ls = listed_view(listing@);
        let entries = self.hash_service.snapshot();
        let mut r: Vec<LazyDeleteNode> = Vec::new();
        let mut i: usize = 0;
        proof {
            assert(c.take(0) =~= Seq::<FileModel>::empty());
            assert(candidates_view(r@) =~= Seq::<CandidateModel>::empty());
        }
        while i < entries.len()
            invariant
                c == files_view(entries@),
                ls == listed_view(listing@),
                0 <= i <= entries@.len(),
                candidates_view(r@) == c.take(i as int).filter_map(stale_pick(ls)),
            decreases entries@.len() - i,
        {
            proof {
                c.lemma_filter_map_take_succ(stale_pick(ls), i as int);
            }
            let e = &entries[i];
            if !is_listed(listing, &e.path) {
                let ghost before = r@;
                r.push(LazyDeleteNode::new(e.path.clone(), e.key.clone()));
                proof {
                    assert(candidates_view(r@) =~= candidates_view(before) + seq![
                        CandidateModel { path: e.path@, key: e.key@ },
                    ]);
                }
            }
            i = i + 1;
        }
        proof {
            assert(c.take(i as int) =~= c);
        }
        r
    }

    /// Whether every listed file can be resolved: known to the cache, or hashed.
    pub fn listing_complete(&self, listing: &Vec<ListedFile>) -> (r: bool)
        requires
            self.wf(),
        ensures
            r == scan_ok(self.cache(), listed_view(listing@)),
    {
        let ghost ls = listed_view(listing@);
        let mut i: usize = 0;
        while i < listing.len()
            invariant
                self.wf(),
                ls == listed_view(listing@),
                0 <= i <= listing@.len(),
                forall|j: int| 0 <= j < i ==> #[trigger] resolvable(self.cache(), ls[j]),
            decreases listing@.len() - i,
        {
            if listing[i].digest.is_none() && !self.hash_service.contains(&listing[i].path) {
                proof {
                    assert(!resolvable(self.cache(), ls[i as int]));
                }
                return false;
            }
            i = i + 1;
        }
        true
    }

    /// Resolves every listed file through the cache, groups the files by key,
    /// and lists the cache records whose path was not listed. Fails, leaving
    /// the cache as it was, when a listed file is neither cached nor hashed.
    pub fn scan_packages(&mut self, listing: &Vec<ListedFile>) -> (r: Result<
        (Vec<PackageGroup>, Vec<LazyDeleteNode>),
        ScanError,
    >)
        requires
            old(self).wf(),
        ensures
            final(self).wf(),
            r is Ok == scan_ok(old(self).cache(), listed_view(listing@)),
            r is Err ==> final(self).cache() == old(self).cache(),
            r is Ok ==> ({
                let (c, nodes) = scan_model(old(self).cache(), listed_view(listing@));
                &&& final(self).cache() == c
                &&& groups_view(r->Ok_0.0@) == group_model(nodes)
                &&& candidates_view(r->Ok_0.1@) == stale_model(c, listed_view(listing@))
            }),
    {
        if !self.listing_complete(listing) {
            return Err(ScanError::MissingDigest);
        }
        let ghost c0 = self.cache();
        let ghost ls = listed_view(listing@);
        let mut nodes: Vec<EptFileNode> = Vec::new();
        let mut i: usize = 0;
        proof {
            assert(ls.take(0) =~= Seq::<ListedModel>::empty());
            assert(files_view(nodes@) =~= Seq::<FileModel>::empty());
        }
        while i < listing.len()
            invariant
                self.wf(),
                ls == listed_view(listing@),
                0 <= i <= listing@.len(),
                self.cache() == scan_model(c0, ls.take(i as int)).0,
                files_view(nodes@) == scan_model(c0, ls.take(i as int)).1,
                forall|j: int| 0 <= j < ls.len() ==> #[trigger] resolvable(self.cache(), ls[j]),
            decreases listing@.len() - i,
        {
            proof {
                assert(ls.take(i + 1).drop_last() =~= ls.take(i as int));
                assert(ls.take(i + 1).last() == ls[i as int]);
            }
            let file = &listing[i];
            let ghost before = self.cache();
            assert(resolvable(before, ls[i as int]));
            let hash = match self.hash_service.resolve(file) {
                Some(h) => h,
                None => {
                    return Err(ScanError::MissingDigest);
                },
            };
            proof {
                if !has_path(before, file@.path) {
                    lemma_push_fresh(
                        before,
                        FileModel { path: file@.path, hash: file@.digest.unwrap(), key: file@.key },
                    );
                }
                assert forall|j: int| 0 <= j < ls.len() implies #[trigger] resolvable(
                    self.cache(),
                    ls[j],
                ) by {
                    assert(resolvable(before, ls[j]));
                }
            }
            let ghost prev_nodes = nodes@;
            nodes.push(EptFileNode::new(file.path.clone(), hash, file.key.clone()));
            proof {
                assert(files_view(nodes@) =~= files_view(prev_nodes).push(nodes@.last()@));
            }
            i = i + 1;
        }
        proof {
            assert(ls.take(i as int) =~= ls);
        }
        let groups = group_files(&nodes);
        let stale = self.stale_records(listing);
        Ok((groups, stale))
    }

    /// Evicts the cache record for `path` filed under `key`.
    pub fn delete_file(&mut self, path: String, key: String)
        requires
            old(self).wf(),
        ensures
            final(self).wf(),
            final(self).cache() == removed(old(self).cache(), path@, key@),
    {
        self.hash_service.remove(&path, &key);
    }
}

/// Whether some listed file has path `path`.
pub fn is_listed(listing: &Vec<ListedFile>, path: &String) -> (r: bool)
    ensures
        r == listed(listed_view(listing@), path@),
{
    let ghost ls = listed_view(listing@);
    let mut i: usize = 0;
    while i < listing.len()
        invariant
            ls == listed_view(listing@),
            0 <= i <= listing@.len(),
            forall|j: int| 0 <= j < i ==> #[trigger] ls[j].path != path@,
        decreases listing@.len() - i,
    {
        if listing[i].path == *path {
            proof {
                assert(ls[i as int].path == path@);
            }
            return true;
        }
        i = i + 1;
    }
    false
}

/// Whether `keys` holds `key`.
fn has_key(keys: &Vec<String>, key: &String) -> (r: bool)
    ensures
        r == keys@.map_values(|s: String| s@).contains(key@),
{
    let ghost ks = keys@.map_values(|s: String| s@);
    let mut i: usize = 0;
    while i < keys.len()
        invariant
            ks == keys@.map_values(|s: String| s@),
            0 <= i <= keys@.len(),
            forall|j: int| 0 <= j < i ==> #[trigger] ks[j] != key@,
        decreases keys@.len() - i,
    {
        if keys[i] == *key {
            proof {
                assert(ks[i as int] == key@);
            }
            return true;
        }
        i = i + 1;
    }
    false
}

/// The keys of `nodes`, each once, in order of first appearance.
pub fn distinct_keys(nodes: &Vec<EptFileNode>) -> (r: Vec<String>)
    ensures
        r@.map_values(|s: String| s@) == key_order(files_view(nodes@)),
{
    let ghost fs = files_view(nodes@);
    let mut r: Vec<String> = Vec::new();
    let mut i: usize = 0;
    proof {
        assert(fs.take(0) =~= Seq::<FileModel>::empty());
        assert(r@.map_values(|s: String| s@) =~= Seq::<Seq<char>>::empty());
    }
    while i < nodes.len()
        invariant
            fs == files_view(nodes@),
            0 <= i <= nodes@.len(),
            r@.map_values(|s: String| s@) == key_order(fs.take(i as int)),
        decreases nodes@.len() - i,
    {
        proof {
            assert(fs.take(i + 1).drop_last() =~= fs.take(i as int));
            assert(fs.take(i + 1).last() == fs[i as int]);
        }
        let key = &nodes[i].key;
        if !has_key(&r, key) {
            let ghost before = r@;
            r.push(key.clone());
            proof {
                assert(r@.map_values(|s: String| s@) =~= before.map_values(|s: String| s@).push(
                    key@,
                ));
            }
        }
        i = i + 1;
    }
    proof {
        assert(fs.take(i as int) =~= fs);
    }
    r
}

/// The files of `nodes` filed under `key`, in order.
pub fn files_under(nodes: &Vec<EptFileNode>, key: &String) -> (r: Vec<EptFileNode>)
    ensures
        files_view(r@) == files_view(nodes@).filter(in_group(key@)),
{
    let ghost fs = files_view(nodes@);
    let mut r: Vec<EptFileNode> = Vec::new();
    let mut i: usize = 0;
    proof {
        assert(fs.take(0) =~= Seq::<FileModel>::empty());
        assert(files_view(r@) =~= Seq::<FileModel>::empty());
        reveal_with_fuel(Seq::filter, 1);
    }
    while i < nodes.len()
        invariant
            fs == files_view(nodes@),
            0 <= i <= nodes@.len(),
            files_view(r@) == fs.take(i as int).filter(in_group(key@)),
        decreases nodes@.len() - i,
    {
        proof {
            assert(fs.take(i + 1).drop_last() =~= fs.take(i as int));
            assert(fs.take(i + 1).last() == fs[i as int]);
            reveal_with_fuel(Seq::filter, 2);
        }
        if nodes[i].key == *key {
            let ghost before = r@;
            r.push(nodes[i].duplicate());
            proof {
                assert(files_view(r@) =~= files_view(before).push(fs[i as int]));
            }
        }
        i = i + 1;
    }
    proof {
        assert(fs.take(i as int) =~= fs);
    }
    r
}

/// Groups `nodes` by key: one group per key, in order of first appearance.
pub fn group_files(nodes: &Vec<EptFileNode>) -> (r: Vec<PackageGroup>)
    ensures
        groups_view(r@) == group_model(files_view(nodes@)),
{
    let ghost fs = files_view(nodes@);
    let keys = distinct_keys(nodes);
    let ghost ks = keys@.map_values(|s: String| s@);
    let mut r: Vec<PackageGroup> = Vec::new();
    let mut i: usize = 0;
    while i < keys.len()
        invariant
            fs == files_view(nodes@),
            ks == keys@.map_values(|s: String| s@),
            ks == key_order(fs),
            0 <= i <= keys@.len(),
            groups_view(r@) =~= group_model(fs).take(i as int),
        decreases keys@.len() - i,
    {
        let files = files_under(nodes, &keys[i]);
        let ghost before = r@;
        r.push(PackageGroup { key: keys[i].clone(), files });
        proof {
            assert(groups_view(r@) =~= groups_view(before).push(group_model(fs)[i as int]));
        }
        i = i + 1;
    }
    r
}

} // verus!
