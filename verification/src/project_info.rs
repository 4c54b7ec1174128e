//! Tenants ("projects"): the registry entry type, the catalog operations
//! over the vault — listing, registration, login — and their transition
//! specifications.

use vstd::prelude::*;
use vstd::utf8::encode_utf8;
use crate::digest::sha256_of;
use crate::image_data::ImageDataView;
use crate::strings::str_eq;
use crate::system::{current_timestamp, new_uuid};
use crate::utility::{credential_matches, hash_password, is_salt, stored_credential,
    verify_password, lemma_credential_round_trip};
use crate::vault::{dir_index, find_dir_index, vault_wf, BlobView, ProjectDir, ProjectDirView,
    Vault, VaultView, lemma_dir_index_characterized};

verus! {

/// A registered tenant: identity, unique name, stored credential, creation
/// time in seconds since the Unix epoch.
pub struct ProjectInfo {
    pub project_id: String,
    pub project_name: String,
    pub password_hash: String,
    pub created_date: u64,
}

/// The mathematical image of a [`ProjectInfo`].
pub ghost struct ProjectInfoView {
    pub project_id: Seq<char>,
    pub project_name: Seq<char>,
    pub password_hash: Seq<char>,
    pub created_date: u64,
}

impl View for ProjectInfo {
    type V = ProjectInfoView;

    open spec fn view(&self) -> ProjectInfoView {
        ProjectInfoView {
            project_id: self.project_id@,
            project_name: self.project_name@,
            password_hash: self.password_hash@,
            created_date: self.created_date,
        }
    }
}

impl Clone for ProjectInfo {
    fn clone(&self) -> (r: Self)
        ensures
            r@ == self@,
    {
        ProjectInfo {
            project_id: self.project_id.clone(),
            project_name: self.project_name.clone(),
            password_hash: self.password_hash.clone(),
            created_date: self.created_date,
        }
    }
}

/// A tenant name and raw password, as registration and login take them.
pub struct ProjectLoginInfo {
    pub project_name: String,
    pub password: String,
}

/// What the tenant catalog can fail with.
#[derive(Debug)]
pub enum ProjectInfoErrors {
    FailedToCreateProjectFolder,
    ProjectAllreadyExists,
    ProjectDosentExist,
    WrongPassword,
}

impl ProjectInfo {
    /// A fresh tenant record under a new random identity, stamped with the
    /// current time.
    pub fn new(project_name: &str, password_hash: &str) -> (r: Self)
        ensures
            r@.project_name == project_name@,
            r@.password_hash == password_hash@,
            r@.project_id.len() == 36,
    {
        ProjectInfo {
            project_id: new_uuid(),
            project_name: project_name.to_owned(),
            password_hash: password_hash.to_owned(),
            created_date: current_timestamp(),
        }
    }
}

/// The first project with the given name, scanning left to right.
pub open spec fn find_project(projects: Seq<ProjectInfoView>, name: Seq<char>) -> Option<
    ProjectInfoView,
>
    decreases projects.len(),
{
    if projects.len() == 0 {
        None
    } else if projects[0].project_name == name {
        Some(projects[0])
    } else {
        find_project(projects.drop_first(), name)
    }
}

/// A name misses the catalog exactly when no entry carries it; a hit returns
/// an entry that carries it.
pub proof fn lemma_find_project_characterized(projects: Seq<ProjectInfoView>, name: Seq<char>)
    ensures
        find_project(projects, name) is None <==> (forall|i: int|
            0 <= i < projects.len() ==> #[trigger] projects[i].project_name != name),
        find_project(projects, name) matches Some(p) ==> p.project_name == name && exists|i: int|
            0 <= i < projects.len() && projects[i] == p,
    decreases projects.len(),
{
    if projects.len() == 0 {
    } else if projects[0].project_name == name {
    } else {
        lemma_find_project_characterized(projects.drop_first(), name);
        assert(forall|i: int|
            1 <= i < projects.len() ==> #[trigger] projects[i]
                == projects.drop_first()[i - 1]);
    }
}

/// Appending a project whose name was absent makes it the one `find` hit for
/// that name, and leaves every other name's outcome unchanged.
pub proof fn lemma_find_project_push(
    projects: Seq<ProjectInfoView>,
    p: ProjectInfoView,
    name: Seq<char>,
)
    requires
        find_project(projects, p.project_name) is None,
    ensures
        name == p.project_name ==> find_project(projects.push(p), name) == Some(p),
        name != p.project_name ==> find_project(projects.push(p), name) == find_project(
            projects,
            name,
        ),
    decreases projects.len(),
{
    if projects.len() == 0 {
        assert(projects.push(p)[0] == p);
        assert(projects.push(p).drop_first() =~= Seq::<ProjectInfoView>::empty());
    } else {
        assert(projects.push(p).drop_first() =~= projects.drop_first().push(p));
        lemma_find_project_push(projects.drop_first(), p, name);
    }
}

/// Linear scan for a tenant by exact, case-sensitive name.
pub fn search_project(projects: &Vec<ProjectInfo>, project_name: &str) -> (r: Option<ProjectInfo>)
    ensures
        match r {
            Some(p) => find_project(views_of_projects(projects@), project_name@) == Some(p@),
            None => find_project(views_of_projects(projects@), project_name@) is None,
        },
{
    let ghost pviews = views_of_projects(projects@);
    let len = projects.len();
    let mut i: usize = 0;
    proof {
        assert(pviews.skip(0) =~= pviews);
    }
    while i < len
        invariant
            i <= len,
            len == projects@.len(),
            pviews == views_of_projects(projects@),
            pviews.len() == len,
            find_project(pviews.skip(i as int), project_name@) == find_project(
                pviews,
                project_name@,
            ),
        decreases len - i,
    {
        proof {
            assert(pviews.skip(i as int)[0] == pviews[i as int]);
            assert(pviews.skip(i as int).drop_first() =~= pviews.skip(i + 1));
        }
        if str_eq(projects[i].project_name.as_str(), project_name) {
            assert(projects@[i as int]@ == pviews[i as int]);
            return Some(projects[i].clone());
        }
        i = i + 1;
    }
    proof {
        assert(pviews.skip(len as int) =~= Seq::<ProjectInfoView>::empty());
    }
    None
}

/// The views of a sequence of projects.
pub open spec fn views_of_projects(s: Seq<ProjectInfo>) -> Seq<ProjectInfoView> {
    s.map_values(|p: ProjectInfo| p@)
}

/// The global tenant list, in registration order.
pub fn get_all_project_infos(vault: &Vault) -> (r: Vec<ProjectInfo>)
    ensures
        views_of_projects(r@) == vault@.projects,
{
    let len = vault.projects.len();
    let mut r: Vec<ProjectInfo> = Vec::new();
    let mut i: usize = 0;
    while i < len
        invariant
            i <= len,
            len == vault.projects@.len(),
            r@.len() == i,
            forall|k: int| 0 <= k < i ==> r@[k]@ == vault.projects@[k]@,
        decreases len - i,
    {
        r.push(vault.projects[i].clone());
        i = i + 1;
    }
    proof {
        assert(views_of_projects(r@) =~= vault@.projects);
    }
    r
}

/// Listing the catalog twice with no intervening writes yields identical,
/// identically ordered results: what a listing returns is a function of the
/// vault alone.
pub proof fn lemma_listing_idempotent(
    v: VaultView,
    r1: Seq<ProjectInfoView>,
    r2: Seq<ProjectInfoView>,
)
    requires
        r1 == v.projects,
        r2 == v.projects,
    ensures
        r1 == r2,
{
}

/// What registration does: a taken name is a conflict; a taken identity is a
/// directory-creation failure and changes nothing; otherwise the new tenant,
/// hashed under `salt` and stamped `now`, is appended together with its
/// seeded directory.
pub open spec fn register_result(
    v: VaultView,
    name: Seq<char>,
    password: Seq<char>,
    salt: Seq<char>,
    id: Seq<char>,
    now: u64,
) -> Result<(VaultView, ProjectInfoView), ProjectInfoErrors> {
    if find_project(v.projects, name) is Some {
        Err(ProjectInfoErrors::ProjectAllreadyExists)
    } else if dir_index(v.dirs, id) != -1 {
        Err(ProjectInfoErrors::FailedToCreateProjectFolder)
    } else {
        let p = ProjectInfoView {
            project_id: id,
            project_name: name,
            password_hash: stored_credential(password, salt),
            created_date: now,
        };
        let d = ProjectDirView {
            info: p,
            images: Seq::<ImageDataView>::empty(),
            blobs: Seq::<BlobView>::empty(),
        };
        Ok((VaultView { projects: v.projects.push(p), dirs: v.dirs.push(d) }, p))
    }
}

/// What login does: an unknown name misses, a failed credential check is a
/// wrong password, and otherwise the first tenant under that name returns.
pub open spec fn login_result(v: VaultView, name: Seq<char>, password: Seq<char>) -> Result<
    ProjectInfoView,
    ProjectInfoErrors,
> {
    match find_project(v.projects, name) {
        Option::None => Err(ProjectInfoErrors::ProjectDosentExist),
        Option::Some(p) => if credential_matches(password, p.password_hash) {
            Ok(p)
        } else {
            Err(ProjectInfoErrors::WrongPassword)
        },
    }
}

/// Registers a tenant: refuses a taken name, hashes the password under a
/// fresh salt, mints an identity, seeds the tenant's directory and appends
/// the tenant to the catalog — all or nothing.
pub fn create_project_info(vault: &mut Vault, project_creation: &ProjectLoginInfo) -> (r: Result<
    ProjectInfo,
    ProjectInfoErrors,
>)
    requires
        vault_wf(old(vault)@),
    ensures
        vault_wf(final(vault)@),
        match r {
            Ok(p) => exists|salt: Seq<char>, id: Seq<char>, now: u64|
                is_salt(salt, 64) && #[trigger] register_result(
                    old(vault)@,
                    project_creation.project_name@,
                    project_creation.password@,
                    salt,
                    id,
                    now,
                ) == Ok::<_, ProjectInfoErrors>((final(vault)@, p@)),
            Err(ProjectInfoErrors::ProjectAllreadyExists) => find_project(
                old(vault)@.projects,
                project_creation.project_name@,
            ) is Some && final(vault)@ == old(vault)@,
            Err(ProjectInfoErrors::FailedToCreateProjectFolder) => find_project(
                old(vault)@.projects,
                project_creation.project_name@,
            ) is None && final(vault)@ == old(vault)@ && exists|id: Seq<char>|
                id.len() == 36 && (#[trigger] dir_index(old(vault)@.dirs, id)) != -1,
            Err(_) => false,
        },
{
    let ghost v0 = vault@;
    let existing = search_project(&vault.projects, project_creation.project_name.as_str());
    if existing.is_some() {
        return Err(ProjectInfoErrors::ProjectAllreadyExists);
    }
    let hash = hash_password(project_creation.password.as_str());
    let project = ProjectInfo::new(project_creation.project_name.as_str(), hash.as_str());
    if find_dir_index(&vault.dirs, project.project_id.as_str()).is_some() {
        proof {
            assert(project@.project_id.len() == 36 && dir_index(
                old(vault)@.dirs,
                project@.project_id,
            ) != -1);
        }
        return Err(ProjectInfoErrors::FailedToCreateProjectFolder);
    }
    let dir = ProjectDir {
        info: project.clone(),
        images: crate::image_data::ImageData::new_vec(),
        blobs: Vec::new(),
    };
    let ghost salt = choose|salt: Seq<char>|
        is_salt(salt, 64) && hash@ == stored_credential(project_creation.password@, salt);
    let ghost p = project@;
    proof {
        assert(dir@.images =~= Seq::<ImageDataView>::empty());
        assert(dir@.blobs =~= Seq::<BlobView>::empty());
        assert(dir@ == ProjectDirView {
            info: p,
            images: Seq::<ImageDataView>::empty(),
            blobs: Seq::<BlobView>::empty(),
        });
    }
    vault.projects.push(project.clone());
    vault.dirs.push(dir);
    proof {
        let name = project_creation.project_name@;
        let password = project_creation.password@;
        assert(p == ProjectInfoView {
            project_id: p.project_id,
            project_name: name,
            password_hash: stored_credential(password, salt),
            created_date: p.created_date,
        });
        assert(vault@.projects =~= v0.projects.push(p));
        assert(vault@.dirs =~= v0.dirs.push(ProjectDirView {
            info: p,
            images: Seq::<ImageDataView>::empty(),
            blobs: Seq::<BlobView>::empty(),
        }));
        assert(register_result(v0, name, password, salt, p.project_id, p.created_date)
            == Ok::<_, ProjectInfoErrors>((vault@, p)));
        lemma_find_project_characterized(v0.projects, name);
        lemma_dir_index_characterized(v0.dirs, p.project_id);
        assert forall|i: int, j: int|
            0 <= i < j < vault@.projects.len() implies vault@.projects[i].project_name
            != vault@.projects[j].project_name by {
            if j < v0.projects.len() {
            } else {
                assert(vault@.projects[i] == v0.projects[i]);
                assert(vault@.projects[j] == p);
            }
        }
        assert forall|i: int, j: int|
            0 <= i < j < vault@.projects.len() implies vault@.projects[i].project_id
            != vault@.projects[j].project_id by {
            if j < v0.projects.len() {
            } else {
                assert(vault@.projects[i] == v0.projects[i]);
                assert(v0.dirs[i].info == v0.projects[i]);
                assert(vault@.projects[j] == p);
            }
        }
        assert(vault_wf(vault@));
    }
    Ok(project)
}

/// Authenticates a tenant by name and password: unknown names miss, failed
/// credential checks are refused, and the matching tenant returns.
pub fn project_login(vault: &Vault, project_login_info: &ProjectLoginInfo) -> (r: Result<
    ProjectInfo,
    ProjectInfoErrors,
>)
    ensures
        match r {
            Ok(p) => login_result(
                vault@,
                project_login_info.project_name@,
                project_login_info.password@,
            ) == Ok::<_, ProjectInfoErrors>(p@),
            Err(e) => login_result(
                vault@,
                project_login_info.project_name@,
                project_login_info.password@,
            ) == Err::<ProjectInfoView, _>(e),
        },
{
    let project = search_project(&vault.projects, project_login_info.project_name.as_str());
    match project {
        Option::None => Err(ProjectInfoErrors::ProjectDosentExist),
        Option::Some(p) => {
            if !verify_password(project_login_info.password.as_str(), p.password_hash.as_str()) {
                Err(ProjectInfoErrors::WrongPassword)
            } else {
                Ok(p)
            }
        },
    }
}

/// Authentication after registration succeeds exactly when the candidate
/// password's digest under the stored salt equals the registered password's
/// digest; with the registered password itself it always succeeds.
pub proof fn lemma_register_then_authenticate(
    v0: VaultView,
    v1: VaultView,
    p: ProjectInfoView,
    name: Seq<char>,
    password: Seq<char>,
    candidate: Seq<char>,
    salt: Seq<char>,
    id: Seq<char>,
    now: u64,
)
    requires
        is_salt(salt, 64),
        register_result(v0, name, password, salt, id, now) == Ok::<_, ProjectInfoErrors>((v1, p)),
    ensures
        login_result(v1, name, candidate) == if sha256_of(encode_utf8(candidate + salt))
            == sha256_of(encode_utf8(password + salt)) {
            Ok::<ProjectInfoView, ProjectInfoErrors>(p)
        } else {
            Err::<ProjectInfoView, ProjectInfoErrors>(ProjectInfoErrors::WrongPassword)
        },
        login_result(v1, name, password) == Ok::<_, ProjectInfoErrors>(p),
{
    lemma_find_project_push(v0.projects, p, name);
    lemma_credential_round_trip(candidate, password, salt);
    lemma_credential_round_trip(password, password, salt);
}

/// Registering a second tenant under a taken name fails with a conflict,
/// whatever its password, salt, identity or time; the first registration is
/// unaffected and still authenticates.
pub proof fn lemma_duplicate_name_conflicts(
    v0: VaultView,
    v1: VaultView,
    p: ProjectInfoView,
    name: Seq<char>,
    password: Seq<char>,
    salt: Seq<char>,
    id: Seq<char>,
    now: u64,
    password2: Seq<char>,
    salt2: Seq<char>,
    id2: Seq<char>,
    now2: u64,
)
    requires
        is_salt(salt, 64),
        register_result(v0, name, password, salt, id, now) == Ok::<_, ProjectInfoErrors>((v1, p)),
    ensures
        register_result(v1, name, password2, salt2, id2, now2) == Err::<
            (VaultView, ProjectInfoView),
            ProjectInfoErrors,
        >(ProjectInfoErrors::ProjectAllreadyExists),
        login_result(v1, name, password) == Ok::<_, ProjectInfoErrors>(p),
{
    lemma_find_project_push(v0.projects, p, name);
    lemma_register_then_authenticate(v0, v1, p, name, password, password, salt, id, now);
}

} // verus!
