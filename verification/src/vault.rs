//! The vault: the in-process registry that replaces whole-file
//! read-append-rewrite of the catalog documents. It holds the global tenant
//! list and, per tenant, the tenant descriptor, the asset list and the named
//! byte blobs. Callers serialize writers behind a lock and persist the state
//! through an adapter; the operations here are the decision logic.

use vstd::prelude::*;
use crate::image_data::{ImageData, ImageDataView};
use crate::project_info::{views_of_projects, ProjectInfo, ProjectInfoView};

verus! {

/// A stored byte blob under its file name.
pub struct Blob {
    pub name: String,
    pub bytes: Vec<u8>,
}

/// The mathematical image of a [`Blob`].
pub ghost struct BlobView {
    pub name: Seq<char>,
    pub bytes: Seq<u8>,
}

impl View for Blob {
    type V = BlobView;

    open spec fn view(&self) -> BlobView {
        BlobView { name: self.name@, bytes: self.bytes@ }
    }
}

/// One tenant's directory: its descriptor document, its asset-list document
/// and its blob files.
pub struct ProjectDir {
    pub info: ProjectInfo,
    pub images: Vec<ImageData>,
    pub blobs: Vec<Blob>,
}

/// The mathematical image of a [`ProjectDir`].
pub ghost struct ProjectDirView {
    pub info: ProjectInfoView,
    pub images: Seq<ImageDataView>,
    pub blobs: Seq<BlobView>,
}

impl View for ProjectDir {
    type V = ProjectDirView;

    open spec fn view(&self) -> ProjectDirView {
        ProjectDirView {
            info: self.info@,
            images: self.images@.map_values(|x: ImageData| x@),
            blobs: self.blobs@.map_values(|b: Blob| b@),
        }
    }
}

/// The whole store: the global tenant list and one directory per tenant.
pub struct Vault {
    pub projects: Vec<ProjectInfo>,
    pub dirs: Vec<ProjectDir>,
}

/// The mathematical image of a [`Vault`].
pub ghost struct VaultView {
    pub projects: Seq<ProjectInfoView>,
    pub dirs: Seq<ProjectDirView>,
}

impl View for Vault {
    type V = VaultView;

    open spec fn view(&self) -> VaultView {
        VaultView {
            projects: views_of_projects(self.projects@),
            dirs: self.dirs@.map_values(|d: ProjectDir| d@),
        }
    }
}

impl Vault {
    /// An empty vault: the first-run state before any tenant registers.
    pub fn new() -> (r: Self)
        ensures
            r@.projects.len() == 0,
            r@.dirs.len() == 0,
            vault_wf(r@),
    {
        let r = Vault { projects: Vec::new(), dirs: Vec::new() };
        proof {
            assert(r@.projects =~= Seq::<ProjectInfoView>::empty());
            assert(r@.dirs =~= Seq::<ProjectDirView>::empty());
        }
        r
    }
}

/// The blob file name an asset's bytes live under.
pub open spec fn blob_name_of(img: ImageDataView) -> Seq<char> {
    img.image_name + seq!['.'] + img.mime
}

/// Some blob of the directory carries the blob name of the directory's
/// `j`-th asset.
pub open spec fn image_has_blob(d: ProjectDirView, j: int) -> bool {
    exists|k: int| 0 <= k < d.blobs.len() && d.blobs[k].name == blob_name_of(d.images[j])
}

/// A well-formed tenant directory: blob names are unique and every asset in
/// the catalog has its blob, so a catalog entry never points at a missing
/// file.
pub open spec fn dir_wf(d: ProjectDirView) -> bool {
    &&& forall|j: int, k: int|
        0 <= j < k < d.blobs.len() ==> d.blobs[j].name != d.blobs[k].name
    &&& forall|j: int| 0 <= j < d.images.len() ==> #[trigger] image_has_blob(d, j)
}

/// A well-formed vault: one directory per tenant carrying the same
/// descriptor, unique tenant names, unique tenant identities, and every
/// directory well formed.
pub open spec fn vault_wf(v: VaultView) -> bool {
    &&& v.dirs.len() == v.projects.len()
    &&& forall|i: int| 0 <= i < v.dirs.len() ==> (#[trigger] v.dirs[i]).info == v.projects[i]
    &&& forall|i: int, j: int|
        0 <= i < j < v.projects.len() ==> v.projects[i].project_name != v.projects[j].project_name
    &&& forall|i: int, j: int|
        0 <= i < j < v.projects.len() ==> v.projects[i].project_id != v.projects[j].project_id
    &&& forall|i: int| 0 <= i < v.dirs.len() ==> dir_wf(#[trigger] v.dirs[i])
}

/// The index of the first directory owned by the given tenant identity, or
/// -1 when no directory is.
pub open spec fn dir_index(dirs: Seq<ProjectDirView>, project_id: Seq<char>) -> int
    decreases dirs.len(),
{
    if dirs.len() == 0 {
        -1
    } else if dirs[0].info.project_id == project_id {
        0
    } else {
        let rest = dir_index(dirs.drop_first(), project_id);
        if rest == -1 {
            -1
        } else {
            1 + rest
        }
    }
}

/// `dir_index` is -1 or a position inside the sequence.
pub proof fn lemma_dir_index_bounds(dirs: Seq<ProjectDirView>, project_id: Seq<char>)
    ensures
        dir_index(dirs, project_id) == -1 || 0 <= dir_index(dirs, project_id) < dirs.len(),
    decreases dirs.len(),
{
    if dirs.len() == 0 {
    } else if dirs[0].info.project_id == project_id {
    } else {
        lemma_dir_index_bounds(dirs.drop_first(), project_id);
    }
}

/// `dir_index` is -1 exactly when no directory carries the identity, and
/// otherwise points at the first directory that does.
pub proof fn lemma_dir_index_characterized(dirs: Seq<ProjectDirView>, project_id: Seq<char>)
    ensures
        dir_index(dirs, project_id) == -1 <==> (forall|i: int|
            0 <= i < dirs.len() ==> (#[trigger] dirs[i]).info.project_id != project_id),
        dir_index(dirs, project_id) != -1 ==> {
            let di = dir_index(dirs, project_id);
            &&& 0 <= di < dirs.len()
            &&& dirs[di].info.project_id == project_id
            &&& forall|i: int| 0 <= i < di ==> (#[trigger] dirs[i]).info.project_id != project_id
        },
    decreases dirs.len(),
{
    if dirs.len() == 0 {
    } else if dirs[0].info.project_id == project_id {
    } else {
        lemma_dir_index_characterized(dirs.drop_first(), project_id);
        assert(forall|i: int|
            1 <= i < dirs.len() ==> #[trigger] dirs[i] == dirs.drop_first()[i - 1]);
    }
}

/// Replacing a directory without changing its owner leaves every identity's
/// index unchanged.
pub proof fn lemma_dir_index_update(
    dirs: Seq<ProjectDirView>,
    at: int,
    d: ProjectDirView,
    project_id: Seq<char>,
)
    requires
        0 <= at < dirs.len(),
        d.info.project_id == dirs[at].info.project_id,
    ensures
        dir_index(dirs.update(at, d), project_id) == dir_index(dirs, project_id),
    decreases dirs.len(),
{
    if dirs.len() == 0 {
    } else if at == 0 {
        assert(dirs.update(at, d)[0] == d);
        assert(dirs.update(at, d).drop_first() =~= dirs.drop_first());
    } else {
        assert(dirs.update(at, d)[0] == dirs[0]);
        assert(dirs.update(at, d).drop_first() =~= dirs.drop_first().update(at - 1, d));
        lemma_dir_index_update(dirs.drop_first(), at - 1, d, project_id);
    }
}

/// Finds the directory owned by a tenant identity, as [`dir_index`] sees it.
pub fn find_dir_index(dirs: &Vec<ProjectDir>, project_id: &str) -> (r: Option<usize>)
    ensures
        match r {
            Some(i) => i < dirs@.len() && dir_index(
                dirs@.map_values(|d: ProjectDir| d@),
                project_id@,
            ) == i as int,
            None => dir_index(dirs@.map_values(|d: ProjectDir| d@), project_id@) == -1,
        },
{
    let ghost dviews = dirs@.map_values(|d: ProjectDir| d@);
    let len = dirs.len();
    let mut i: usize = 0;
    proof {
        assert(dviews.skip(0) =~= dviews);
    }
    while i < len
        invariant
            i <= len,
            len == dirs@.len(),
            dviews == dirs@.map_values(|d: ProjectDir| d@),
            dviews.len() == len,
            dir_index(dviews, project_id@) == if dir_index(dviews.skip(i as int), project_id@)
                == -1 {
                -1int
            } else {
                i + dir_index(dviews.skip(i as int), project_id@)
            },
        decreases len - i,
    {
        proof {
            assert(dviews.skip(i as int)[0] == dviews[i as int]);
            assert(dviews.skip(i as int).drop_first() =~= dviews.skip(i + 1));
            lemma_dir_index_bounds(dviews.skip(i as int), project_id@);
            lemma_dir_index_bounds(dviews.skip(i + 1), project_id@);
        }
        if crate::strings::str_eq(dirs[i].info.project_id.as_str(), project_id) {
            return Some(i);
        }
        i = i + 1;
    }
    proof {
        assert(dviews.skip(len as int) =~= Seq::<ProjectDirView>::empty());
    }
    None
}

} // verus!
