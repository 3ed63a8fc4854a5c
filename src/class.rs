use vstd::prelude::*;

verus! {

/// A file seen by a scan, or a record of the hash cache: its path, the hash
/// of its content and the package key it is grouped under.
pub struct EptFileNode {
    pub path: String,
    pub hash: String,
    pub key: String,
}

/// Mathematical value of an `EptFileNode`.
pub ghost struct FileModel {
    pub path: Seq<char>,
    pub hash: Seq<char>,
    pub key: Seq<char>,
}

impl View for EptFileNode {
    type V = FileModel;

    open spec fn view(&self) -> FileModel {
        FileModel { path: self.path@, hash: self.hash@, key: self.key@ }
    }
}

impl EptFileNode {
    pub fn new(path: String, hash: String, key: String) -> (r: Self)
        ensures
            r.path == path,
            r.hash == hash,
            r.key == key,
    {
        EptFileNode { path, hash, key }
    }

    /// A field-by-field copy.
    pub fn duplicate(&self) -> (r: Self)
        ensures
            r@ == self@,
    {
        EptFileNode { path: self.path.clone(), hash: self.hash.clone(), key: self.key.clone() }
    }
}

/// A cache record that was not seen by the last scan, to be evicted at the
/// start of the next cycle.
pub struct LazyDeleteNode {
    pub path: String,
    pub key: String,
}

/// Mathematical value of a `LazyDeleteNode`.
pub ghost struct CandidateModel {
    pub path: Seq<char>,
    pub key: Seq<char>,
}

impl View for LazyDeleteNode {
    type V = CandidateModel;

    open spec fn view(&self) -> CandidateModel {
        CandidateModel { path: self.path@, key: self.key@ }
    }
}

impl LazyDeleteNode {
    pub fn new(path: String, key: String) -> (r: Self)
        ensures
            r.path == path,
            r.key == key,
    {
        LazyDeleteNode { path, key }
    }

    /// A field-by-field copy.
    pub fn duplicate(&self) -> (r: Self)
        ensures
            r@ == self@,
    {
        LazyDeleteNode { path: self.path.clone(), key: self.key.clone() }
    }
}

/// A file found under the packages directory. `digest` holds the hash of its
/// content when the caller computed it; it is needed only for files that the
/// cache does not know yet.
pub struct ListedFile {
    pub path: String,
    pub key: String,
    pub digest: Option<String>,
}

/// Mathematical value of a `ListedFile`.
pub ghost struct ListedModel {
    pub path: Seq<char>,
    pub key: Seq<char>,
    pub digest: Option<Seq<char>>,
}

impl View for ListedFile {
    type V = ListedModel;

    open spec fn view(&self) -> ListedModel {
        ListedModel {
            path: self.path@,
            key: self.key@,
            digest: match self.digest {
                Some(d) => Some(d@),
                None => None,
            },
        }
    }
}

impl ListedFile {
    pub fn new(path: String, key: String, digest: Option<String>) -> (r: Self)
        ensures
            r.path == path,
            r.key == key,
            r.digest == digest,
    {
        ListedFile { path, key, digest }
    }
}

/// The files of one package key, in the order the scan met them.
pub struct PackageGroup {
    pub key: String,
    pub files: Vec<EptFileNode>,
}

/// Mathematical value of a `PackageGroup`.
pub ghost struct GroupModel {
    pub key: Seq<char>,
    pub files: Seq<FileModel>,
}

pub open spec fn files_view(v: Seq<EptFileNode>) -> Seq<FileModel> {
    v.map_values(|f: EptFileNode| f@)
}

pub open spec fn candidates_view(v: Seq<LazyDeleteNode>) -> Seq<CandidateModel> {
    v.map_values(|c: LazyDeleteNode| c@)
}

pub open spec fn listed_view(v: Seq<ListedFile>) -> Seq<ListedModel> {
    v.map_values(|l: ListedFile| l@)
}

impl View for PackageGroup {
    type V = GroupModel;

    open spec fn view(&self) -> GroupModel {
        GroupModel { key: self.key@, files: files_view(self.files@) }
    }
}

pub open spec fn groups_view(v: Seq<PackageGroup>) -> Seq<GroupModel> {
    v.map_values(|g: PackageGroup| g@)
}

} // verus!
