//! Assets ("images"): the metadata record, upload staging, and the asset
//! operations over the vault — upload and download — with their
//! specifications.

use vstd::prelude::*;
use vstd::slice::slice_to_vec;
use crate::encryption::{dec_spec, decrypt_bytes, encrypt_bytes, key_bytes};
use crate::file_utilities::{extension_of_file_name, file_extension, file_name_of_path,
    path_file_name};
use crate::project_info::ProjectInfo;
use crate::strings::{clone_string_vec, push_char, split_on_char, split_string, str_eq,
    views_of_strings};
use crate::system::{current_timestamp, new_uuid};
use crate::utility::{genarate_salt, is_salt, salt_of_credential};
use crate::vault::{blob_name_of, dir_index, dir_wf, find_dir_index, image_has_blob, vault_wf,
    Blob, BlobView, ProjectDir, ProjectDirView, Vault, VaultView, lemma_dir_index_characterized,
    lemma_dir_index_update};
use vstd::string::StringExecFns;

verus! {

/// A stored asset's metadata; the bytes live in the tenant's blob store
/// under `{image_name}.{mime}`.
pub struct ImageData {
    pub image_id: String,
    pub image_name: String,
    pub mime: String,
    pub original_image_name: String,
    pub image_size: u64,
    pub created_date: u64,
    pub is_encrypted: bool,
    pub tags: Vec<String>,
}

/// The mathematical image of an [`ImageData`].
pub ghost struct ImageDataView {
    pub image_id: Seq<char>,
    pub image_name: Seq<char>,
    pub mime: Seq<char>,
    pub original_image_name: Seq<char>,
    pub image_size: u64,
    pub created_date: u64,
    pub is_encrypted: bool,
    pub tags: Seq<Seq<char>>,
}

impl View for ImageData {
    type V = ImageDataView;

    open spec fn view(&self) -> ImageDataView {
        ImageDataView {
            image_id: self.image_id@,
            image_name: self.image_name@,
            mime: self.mime@,
            original_image_name: self.original_image_name@,
            image_size: self.image_size,
            created_date: self.created_date,
            is_encrypted: self.is_encrypted,
            tags: views_of_strings(self.tags@),
        }
    }
}

impl Clone for ImageData {
    fn clone(&self) -> (r: Self)
        ensures
            r@ == self@,
    {
        ImageData {
            image_id: self.image_id.clone(),
            image_name: self.image_name.clone(),
            mime: self.mime.clone(),
            original_image_name: self.original_image_name.clone(),
            image_size: self.image_size,
            created_date: self.created_date,
            is_encrypted: self.is_encrypted,
            tags: clone_string_vec(&self.tags),
        }
    }
}

/// An asset lookup request: the asset's identity.
pub struct ReqImageData {
    pub image_id: String,
}

/// A downloaded asset: its bytes and its metadata together.
pub struct ResponseImageData {
    pub data: Vec<u8>,
    pub metadata: ImageData,
}

/// The mathematical image of a [`ResponseImageData`].
pub ghost struct ResponseImageDataView {
    pub data: Seq<u8>,
    pub metadata: ImageDataView,
}

impl View for ResponseImageData {
    type V = ResponseImageDataView;

    open spec fn view(&self) -> ResponseImageDataView {
        ResponseImageDataView { data: self.data@, metadata: self.metadata@ }
    }
}

/// An upload request: source path, optional display name, `;`-separated
/// tags, and whether to encrypt at rest.
pub struct UploadImage {
    pub image_path: String,
    pub image_name: Option<String>,
    pub image_tags: String,
    pub encrypt: bool,
}

/// Upload staging: the source file resolved to a path, size, original name
/// and extension, plus the chosen display name, split tags and encrypt flag.
pub struct TempImage {
    pub temp_file_path: String,
    pub temp_file_size: u64,
    pub temp_image_name: String,
    pub temp_image_mime: String,
    pub image_name: String,
    pub image_tags: Vec<String>,
    pub encrypt: bool,
}

/// What asset operations can fail with.
#[derive(Debug)]
pub enum ImageDataError {
    ProjectDosentExists,
    FailedToSaveImage,
    ImageNotFound,
    DecryptionError(String),
}

impl ImageData {
    /// A fresh asset record from staged upload data, under a new random
    /// identity, stamped with the current time.
    pub fn new(temp_image: TempImage) -> (r: Self)
        ensures
            r@.image_name == temp_image.image_name@,
            r@.mime == temp_image.temp_image_mime@,
            r@.original_image_name == temp_image.temp_image_name@,
            r@.image_size == temp_image.temp_file_size,
            r@.is_encrypted == temp_image.encrypt,
            r@.tags == views_of_strings(temp_image.image_tags@),
    {
        ImageData {
            image_id: new_uuid(),
            image_name: temp_image.image_name,
            mime: temp_image.temp_image_mime,
            original_image_name: temp_image.temp_image_name,
            image_size: temp_image.temp_file_size,
            created_date: current_timestamp(),
            is_encrypted: temp_image.encrypt,
            tags: temp_image.image_tags,
        }
    }

    /// The empty asset list a fresh tenant directory is seeded with.
    pub fn new_vec() -> (r: Vec<Self>)
        ensures
            r@.len() == 0,
    {
        Vec::new()
    }
}

impl TempImage {
    /// Stages an upload: joins the input directory and the request's path,
    /// takes the file name and extension from it, picks the given display
    /// name or a random 7-character one, and splits the tag text on `;`.
    /// The source file's size is handed in by the caller that read the file.
    pub fn from_upload_image(upload_image: UploadImage, input_path: &str, temp_file_size: u64) -> (r:
        Self)
        ensures
            r.temp_file_path@ == input_path@ + seq!['/'] + upload_image.image_path@,
            r.temp_file_size == temp_file_size,
            r.encrypt == upload_image.encrypt,
            r.temp_image_name@ == path_file_name(r.temp_file_path@),
            r.temp_image_mime@ == file_extension(path_file_name(r.temp_file_path@)),
            match upload_image.image_name {
                Some(name) => r.image_name@ == name@,
                None => is_salt(r.image_name@, 7),
            },
            views_of_strings(r.image_tags@) == split_on_char(upload_image.image_tags@, ';'),
    {
        let mut joined = input_path.to_owned();
        proof {
            reveal_strlit("/");
            assert("/"@ =~= seq!['/']);
        }
        joined.append("/");
        joined.append(upload_image.image_path.as_str());
        let temp_image_name = file_name_of_path(joined.as_str());
        let temp_image_mime = extension_of_file_name(temp_image_name.as_str());
        let image_name = match upload_image.image_name {
            Some(name) => name,
            None => genarate_salt(7),
        };
        let image_tags = split_string(upload_image.image_tags.as_str(), ';');
        TempImage {
            temp_file_path: joined,
            temp_file_size,
            temp_image_name,
            temp_image_mime,
            image_name,
            image_tags,
            encrypt: upload_image.encrypt,
        }
    }
}

/// The first asset with the given identity, scanning left to right.
pub open spec fn find_image(images: Seq<ImageDataView>, image_id: Seq<char>) -> Option<
    ImageDataView,
>
    decreases images.len(),
{
    if images.len() == 0 {
        None
    } else if images[0].image_id == image_id {
        Some(images[0])
    } else {
        find_image(images.drop_first(), image_id)
    }
}

/// The first blob with the given name, scanning left to right.
pub open spec fn find_blob(blobs: Seq<BlobView>, name: Seq<char>) -> Option<BlobView>
    decreases blobs.len(),
{
    if blobs.len() == 0 {
        None
    } else if blobs[0].name == name {
        Some(blobs[0])
    } else {
        find_blob(blobs.drop_first(), name)
    }
}

/// A name misses the blobs exactly when none carries it; a hit carries it.
pub proof fn lemma_find_blob_characterized(blobs: Seq<BlobView>, name: Seq<char>)
    ensures
        find_blob(blobs, name) is None <==> (forall|i: int|
            0 <= i < blobs.len() ==> (#[trigger] blobs[i]).name != name),
        find_blob(blobs, name) matches Some(b) ==> b.name == name,
    decreases blobs.len(),
{
    if blobs.len() == 0 {
    } else if blobs[0].name == name {
    } else {
        lemma_find_blob_characterized(blobs.drop_first(), name);
        assert(forall|i: int| 1 <= i < blobs.len() ==> #[trigger] blobs[i]
            == blobs.drop_first()[i - 1]);
    }
}

/// Appending a blob changes no other name's lookup, and makes a fresh name
/// find the new blob.
pub proof fn lemma_find_blob_push(blobs: Seq<BlobView>, b: BlobView, name: Seq<char>)
    ensures
        name != b.name ==> find_blob(blobs.push(b), name) == find_blob(blobs, name),
        name == b.name && find_blob(blobs, name) is None ==> find_blob(blobs.push(b), name)
            == Some(b),
    decreases blobs.len(),
{
    if blobs.len() == 0 {
        assert(blobs.push(b)[0] == b);
        assert(blobs.push(b).drop_first() =~= Seq::<BlobView>::empty());
    } else {
        assert(blobs.push(b)[0] == blobs[0]);
        assert(blobs.push(b).drop_first() =~= blobs.drop_first().push(b));
        lemma_find_blob_push(blobs.drop_first(), b, name);
    }
}

/// Appending an asset changes no other identity's lookup, and makes a fresh
/// identity find the new asset.
pub proof fn lemma_find_image_push(images: Seq<ImageDataView>, img: ImageDataView, id: Seq<char>)
    ensures
        id != img.image_id ==> find_image(images.push(img), id) == find_image(images, id),
        id == img.image_id && find_image(images, id) is None ==> find_image(images.push(img), id)
            == Some(img),
    decreases images.len(),
{
    if images.len() == 0 {
        assert(images.push(img)[0] == img);
        assert(images.push(img).drop_first() =~= Seq::<ImageDataView>::empty());
    } else {
        assert(images.push(img)[0] == images[0]);
        assert(images.push(img).drop_first() =~= images.drop_first().push(img));
        lemma_find_image_push(images.drop_first(), img, id);
    }
}

/// The views of a sequence of images.
pub open spec fn views_of_images(s: Seq<ImageData>) -> Seq<ImageDataView> {
    s.map_values(|x: ImageData| x@)
}

/// The views of a sequence of blobs.
pub open spec fn views_of_blobs(s: Seq<Blob>) -> Seq<BlobView> {
    s.map_values(|b: Blob| b@)
}

/// Linear scan for an asset by identity.
fn find_image_in(images: &Vec<ImageData>, image_id: &str) -> (r: Option<ImageData>)
    ensures
        match r {
            Some(img) => find_image(views_of_images(images@), image_id@) == Some(img@),
            None => find_image(views_of_images(images@), image_id@) is None,
        },
{
    let ghost iviews = views_of_images(images@);
    let len = images.len();
    let mut i: usize = 0;
    proof {
        assert(iviews.skip(0) =~= iviews);
    }
    while i < len
        invariant
            i <= len,
            len == images@.len(),
            iviews == views_of_images(images@),
            iviews.len() == len,
            find_image(iviews.skip(i as int), image_id@) == find_image(iviews, image_id@),
        decreases len - i,
    {
        proof {
            assert(iviews.skip(i as int)[0] == iviews[i as int]);
            assert(iviews.skip(i as int).drop_first() =~= iviews.skip(i + 1));
        }
        if str_eq(images[i].image_id.as_str(), image_id) {
            return Some(images[i].clone());
        }
        i = i + 1;
    }
    proof {
        assert(iviews.skip(len as int) =~= Seq::<ImageDataView>::empty());
    }
    None
}

/// Linear scan for a blob by name.
fn find_blob_index(blobs: &Vec<Blob>, name: &str) -> (r: Option<usize>)
    ensures
        match r {
            Some(i) => i < blobs@.len() && find_blob(views_of_blobs(blobs@), name@) == Some(
                blobs@[i as int]@,
            ),
            None => find_blob(views_of_blobs(blobs@), name@) is None,
        },
{
    let ghost bviews = views_of_blobs(blobs@);
    let len = blobs.len();
    let mut i: usize = 0;
    proof {
        assert(bviews.skip(0) =~= bviews);
    }
    while i < len
        invariant
            i <= len,
            len == blobs@.len(),
            bviews == views_of_blobs(blobs@),
            bviews.len() == len,
            find_blob(bviews.skip(i as int), name@) == find_blob(bviews, name@),
        decreases len - i,
    {
        proof {
            assert(bviews.skip(i as int)[0] == bviews[i as int]);
            assert(bviews.skip(i as int).drop_first() =~= bviews.skip(i + 1));
        }
        if str_eq(blobs[i].name.as_str(), name) {
            return Some(i);
        }
        i = i + 1;
    }
    proof {
        assert(bviews.skip(len as int) =~= Seq::<BlobView>::empty());
    }
    None
}

/// The per-tenant encryption key: the salt component of the tenant's stored
/// credential, so the key is stable as long as the credential is.
pub fn get_encryption_key(project_info: &ProjectInfo) -> (r: String)
    ensures
        r@ == salt_of_credential(project_info@.password_hash),
{
    let parts = split_string(project_info.password_hash.as_str(), ':');
    if parts.len() >= 2 {
        let r = parts[1].clone();
        proof {
            assert(views_of_strings(parts@)[1] == parts@[1]@);
        }
        r
    } else {
        String::new()
    }
}

/// A well-formed directory stays well formed when an asset and its blob,
/// under a name no blob carries yet, are appended together.
pub proof fn lemma_dir_wf_after_commit(dir0: ProjectDirView, img: ImageDataView, stored: Seq<u8>)
    requires
        dir_wf(dir0),
        find_blob(dir0.blobs, blob_name_of(img)) is None,
    ensures
        dir_wf(
            ProjectDirView {
                info: dir0.info,
                images: dir0.images.push(img),
                blobs: dir0.blobs.push(BlobView { name: blob_name_of(img), bytes: stored }),
            },
        ),
{
    let dir1 = ProjectDirView {
        info: dir0.info,
        images: dir0.images.push(img),
        blobs: dir0.blobs.push(BlobView { name: blob_name_of(img), bytes: stored }),
    };
    lemma_find_blob_characterized(dir0.blobs, blob_name_of(img));
    assert forall|j: int, k: int|
        0 <= j < k < dir1.blobs.len() implies dir1.blobs[j].name != dir1.blobs[k].name by {
        assert(dir1.blobs[j] == dir0.blobs[j]);
        if k < dir0.blobs.len() {
            assert(dir1.blobs[k] == dir0.blobs[k]);
        } else {
            assert(dir1.blobs[k].name == blob_name_of(img));
            assert(dir0.blobs[j].name != blob_name_of(img));
        }
    }
    assert forall|j: int| 0 <= j < dir1.images.len() implies #[trigger] image_has_blob(
        dir1,
        j,
    ) by {
        if j < dir0.images.len() {
            assert(image_has_blob(dir0, j));
            assert(dir1.images[j] == dir0.images[j]);
            let k = choose|k: int|
                0 <= k < dir0.blobs.len() && dir0.blobs[k].name == blob_name_of(dir0.images[j]);
            assert(dir1.blobs[k] == dir0.blobs[k]);
            assert(0 <= k < dir1.blobs.len() && dir1.blobs[k].name == blob_name_of(
                dir1.images[j],
            ));
        } else {
            let k = dir0.blobs.len() as int;
            assert(dir1.images[j] == img);
            assert(0 <= k < dir1.blobs.len() && dir1.blobs[k].name == blob_name_of(
                dir1.images[j],
            ));
        }
    }
}

/// What committing an upload does to the vault: the target directory gains
/// the asset record and, under the asset's blob name, the stored bytes;
/// nothing else moves.
pub open spec fn commit_upload(
    v: VaultView,
    di: int,
    img: ImageDataView,
    stored: Seq<u8>,
) -> VaultView {
    let dir = v.dirs[di];
    let new_dir = ProjectDirView {
        info: dir.info,
        images: dir.images.push(img),
        blobs: dir.blobs.push(BlobView { name: blob_name_of(img), bytes: stored }),
    };
    VaultView { projects: v.projects, dirs: v.dirs.update(di, new_dir) }
}

/// Relies on `image::load_from_memory`, `DynamicImage::into_rgb8` and
/// `DynamicImage::write_to`, with the format that
/// `image::ImageFormat::from_extension` picks: decodes the bytes, flattens
/// them to an RGB8 raster and re-encodes them in the extension's format.
/// Fails when the extension names no format or the bytes do not decode. The
/// result depends on the bytes and the extension alone.
#[verifier::external_body]
fn normalize_raster(data: &[u8], format_ext: &str) -> (r: Option<Vec<u8>>)
    ensures
        r matches Some(v) ==> normalized_raster(data@, format_ext@) == Some(v@),
        r is None ==> normalized_raster(data@, format_ext@) is None,
{
    let fmt = image::ImageFormat::from_extension(format_ext)?;
    let img = image::load_from_memory(data).ok()?;
    let rgb = image::DynamicImage::ImageRgb8(img.into_rgb8());
    let mut cur = std::io::Cursor::new(Vec::new());
    match rgb.write_to(&mut cur, fmt) {
        Ok(_) => Some(cur.into_inner()),
        Err(_) => None,
    }
}

/// What re-encoding bytes as a normalized raster of a given format yields;
/// what it is on given inputs is known only to the `image` crate.
pub uninterp spec fn normalized_raster(data: Seq<u8>, format_ext: Seq<char>) -> Option<Seq<u8>>;

/// Everything a successful upload guarantees: the record carries the staged
/// names, size, tags and encrypt flag; its blob name was free; and the new
/// registry is exactly the old one with the record and its stored bytes
/// committed — ciphertext that decrypts back to the source when encryption
/// was asked for, the named normalized raster otherwise.
pub open spec fn upload_accepted(
    v0: VaultView,
    v1: VaultView,
    img: ImageDataView,
    temp_img: UploadImage,
    input_path: Seq<char>,
    project_id: Seq<char>,
    source_bytes: Seq<u8>,
) -> bool {
    let di = dir_index(v0.dirs, project_id);
    let key = salt_of_credential(v0.dirs[di].info.password_hash);
    let staged = input_path + seq!['/'] + temp_img.image_path@;
    &&& di != -1
    &&& img.is_encrypted == temp_img.encrypt
    &&& img.image_size == source_bytes.len()
    &&& (temp_img.image_name matches Some(n) ==> img.image_name == n@)
    &&& (temp_img.image_name is None ==> is_salt(img.image_name, 7))
    &&& img.tags == split_on_char(temp_img.image_tags@, ';')
    &&& img.mime == file_extension(path_file_name(staged))
    &&& img.original_image_name == path_file_name(staged)
    &&& find_blob(v0.dirs[di].blobs, blob_name_of(img)) is None
    &&& exists|stored: Seq<u8>|
        #![trigger commit_upload(v0, di, img, stored)]
        {
            &&& commit_upload(v0, di, img, stored) == v1
            &&& (img.is_encrypted ==> dec_spec(stored, key_bytes(key)) == Some(source_bytes))
            &&& (!img.is_encrypted ==> normalized_raster(source_bytes, img.mime) == Some(stored))
        }
}

/// Uploads an asset into a tenant's directory: stages the source, builds the
/// record, refuses a taken blob name, stores the bytes — encrypted under the
/// tenant's key when asked — and only then commits the record to the
/// catalog. An unknown tenant misses, if and only if; for a caller-chosen
/// display name the outcome is a function of the registry and the arguments;
/// for a generated name a failure still names a colliding candidate.
pub fn upload_image(
    vault: &mut Vault,
    input_path: &str,
    temp_img: UploadImage,
    project_id: &str,
    source_bytes: Vec<u8>,
) -> (r: Result<ImageData, ImageDataError>)
    requires
        vault_wf(old(vault)@),
    ensures
        vault_wf(final(vault)@),
        ({
            let di = dir_index(old(vault)@.dirs, project_id@);
            let staged = input_path@ + seq!['/'] + temp_img.image_path@;
            let ext = file_extension(path_file_name(staged));
            let raster_ok = temp_img.encrypt || normalized_raster(source_bytes@, ext) is Some;
            &&& (di == -1 <==> r == Err::<ImageData, ImageDataError>(
                ImageDataError::ProjectDosentExists,
            ))
            &&& (temp_img.image_name matches Some(n) ==> (di != -1 ==> ((find_blob(
                old(vault)@.dirs[di].blobs,
                n@ + seq!['.'] + ext,
            ) is Some || !raster_ok) <==> r == Err::<ImageData, ImageDataError>(
                ImageDataError::FailedToSaveImage,
            ))))
            &&& match r {
                Ok(img) => upload_accepted(
                    old(vault)@,
                    final(vault)@,
                    img@,
                    temp_img,
                    input_path@,
                    project_id@,
                    source_bytes@,
                ),
                Err(ImageDataError::ProjectDosentExists) => final(vault)@ == old(vault)@,
                Err(ImageDataError::FailedToSaveImage) => {
                    &&& final(vault)@ == old(vault)@
                    &&& di != -1
                    &&& match temp_img.image_name {
                        Some(n) => find_blob(
                            old(vault)@.dirs[di].blobs,
                            n@ + seq!['.'] + ext,
                        ) is Some || !raster_ok,
                        None => (exists|name: Seq<char>|
                            is_salt(name, 7) && (#[trigger] find_blob(
                                old(vault)@.dirs[di].blobs,
                                name + seq!['.'] + ext,
                            )) is Some) || !raster_ok,
                    }
                },
                Err(_) => false,
            }
        }),
{
    let ghost v0 = vault@;
    let ghost ti = temp_img;
    let ghost staged = input_path@ + seq!['/'] + temp_img.image_path@;
    let ghost ext = file_extension(path_file_name(staged));
    let dir_idx = match find_dir_index(&vault.dirs, project_id) {
        Option::Some(i) => i,
        Option::None => {
            return Err(ImageDataError::ProjectDosentExists);
        },
    };
    let ghost di = dir_idx as int;
    let size = source_bytes.len() as u64;
    let temp = TempImage::from_upload_image(temp_img, input_path, size);
    let img_data = ImageData::new(temp);
    let mut target = img_data.image_name.clone();
    push_char(&mut target, '.');
    target.append(img_data.mime.as_str());
    proof {
        assert(target@ =~= blob_name_of(img_data@));
        assert(img_data@.mime == ext);
        assert(views_of_blobs(vault.dirs@[di].blobs@) =~= v0.dirs[di].blobs);
        assert(ti.image_name matches Some(n) ==> blob_name_of(img_data@) == n@ + seq!['.'] + ext);
    }
    if find_blob_index(&vault.dirs[dir_idx].blobs, target.as_str()).is_some() {
        proof {
            assert(find_blob(v0.dirs[di].blobs, blob_name_of(img_data@)) is Some);
            if ti.image_name is None {
                assert(is_salt(img_data@.image_name, 7) && find_blob(
                    v0.dirs[di].blobs,
                    img_data@.image_name + seq!['.'] + ext,
                ) is Some);
            }
        }
        return Err(ImageDataError::FailedToSaveImage);
    }
    proof {
        assert(find_blob(v0.dirs[di].blobs, blob_name_of(img_data@)) is None);
    }
    let stored: Vec<u8> = if img_data.is_encrypted {
        let key = get_encryption_key(&vault.dirs[dir_idx].info);
        encrypt_bytes(source_bytes, key.as_str())
    } else {
        match normalize_raster(source_bytes.as_slice(), img_data.mime.as_str()) {
            Option::Some(v) => v,
            Option::None => {
                proof {
                    assert(normalized_raster(source_bytes@, ext) is None);
                    assert(!ti.encrypt);
                }
                return Err(ImageDataError::FailedToSaveImage);
            },
        }
    };
    let ghost stored_view = stored@;
    let blob = Blob { name: target, bytes: stored };
    let mut dir = vault.dirs.remove(dir_idx);
    let ghost dir0 = dir@;
    dir.images.push(img_data.clone());
    dir.blobs.push(blob);
    let ghost dir1 = dir@;
    vault.dirs.insert(dir_idx, dir);
    proof {
        let di = dir_idx as int;
        assert(dir0 == v0.dirs[di]);
        assert(dir1.images =~= dir0.images.push(img_data@));
        assert(dir1.blobs =~= dir0.blobs.push(BlobView {
            name: blob_name_of(img_data@),
            bytes: stored_view,
        }));
        assert(vault@.dirs =~= v0.dirs.update(di, dir1));
        assert(vault@.projects =~= v0.projects);
        assert(commit_upload(v0, di, img_data@, stored_view) == vault@);
        assert(dir_wf(dir0));
        lemma_dir_wf_after_commit(dir0, img_data@, stored_view);
        assert(dir_wf(dir1));
        assert(vault_wf(vault@));
    }
    Ok(img_data)
}

/// Downloads an asset: looks its record up in the tenant's catalog, reads
/// the blob under the record's name, and decrypts it when the record says
/// so. The bytes and the metadata return together.
pub fn get_saved_image(vault: &Vault, project_id: &str, image_id: &str) -> (r: Result<
    ResponseImageData,
    ImageDataError,
>)
    ensures
        ({
            let di = dir_index(vault@.dirs, project_id@);
            if di == -1 {
                r == Err::<ResponseImageData, ImageDataError>(ImageDataError::ProjectDosentExists)
            } else {
                let dir = vault@.dirs[di];
                match find_image(dir.images, image_id@) {
                    Option::None => r == Err::<ResponseImageData, ImageDataError>(
                        ImageDataError::ImageNotFound,
                    ),
                    Option::Some(img) => match find_blob(dir.blobs, blob_name_of(img)) {
                        Option::None => r == Err::<ResponseImageData, ImageDataError>(
                            ImageDataError::ImageNotFound,
                        ),
                        Option::Some(blob) => if !img.is_encrypted {
                            r matches Ok(resp) && resp@.data == blob.bytes && resp@.metadata == img
                        } else {
                            match dec_spec(
                                blob.bytes,
                                key_bytes(salt_of_credential(dir.info.password_hash)),
                            ) {
                                Option::Some(p) => r matches Ok(resp) && resp@.data == p
                                    && resp@.metadata == img,
                                Option::None => r matches Err(e) && e matches
                                    ImageDataError::DecryptionError(_),
                            }
                        },
                    },
                }
            }
        }),
        r matches Ok(resp) ==> download_data(vault@, project_id@, image_id@) == Some(
            (resp@.data, resp@.metadata),
        ),
{
    let dir_idx = match find_dir_index(&vault.dirs, project_id) {
        Option::Some(i) => i,
        Option::None => {
            return Err(ImageDataError::ProjectDosentExists);
        },
    };
    let dir = &vault.dirs[dir_idx];
    let img = match find_image_in(&dir.images, image_id) {
        Option::Some(img) => img,
        Option::None => {
            return Err(ImageDataError::ImageNotFound);
        },
    };
    let mut target = img.image_name.clone();
    push_char(&mut target, '.');
    target.append(img.mime.as_str());
    proof {
        assert(target@ =~= blob_name_of(img@));
    }
    let blob_idx = match find_blob_index(&dir.blobs, target.as_str()) {
        Option::Some(i) => i,
        Option::None => {
            return Err(ImageDataError::ImageNotFound);
        },
    };
    let raw = slice_to_vec(dir.blobs[blob_idx].bytes.as_slice());
    if !img.is_encrypted {
        Ok(ResponseImageData { data: raw, metadata: img })
    } else {
        let key = get_encryption_key(&dir.info);
        match decrypt_bytes(raw.as_slice(), key.as_str()) {
            Option::Some(plain) => Ok(ResponseImageData { data: plain, metadata: img }),
            Option::None => Err(
                ImageDataError::DecryptionError("failed to decrypt image data".to_owned()),
            ),
        }
    }
}

/// What a download yields when it succeeds: the asset's metadata and its
/// bytes, decrypted when the asset is marked encrypted.
pub open spec fn download_data(v: VaultView, project_id: Seq<char>, image_id: Seq<char>) -> Option<
    (Seq<u8>, ImageDataView),
> {
    let di = dir_index(v.dirs, project_id);
    if di == -1 {
        None
    } else {
        let dir = v.dirs[di];
        match find_image(dir.images, image_id) {
            Option::None => None,
            Option::Some(img) => match find_blob(dir.blobs, blob_name_of(img)) {
                Option::None => None,
                Option::Some(blob) => if !img.is_encrypted {
                    Some((blob.bytes, img))
                } else {
                    match dec_spec(
                        blob.bytes,
                        key_bytes(salt_of_credential(dir.info.password_hash)),
                    ) {
                        Option::Some(p) => Some((p, img)),
                        Option::None => None,
                    }
                },
            },
        }
    }
}

/// Uploading an encrypted asset and then downloading it by its identity
/// returns exactly the bytes that were uploaded, together with its record:
/// storing and loading under the same tenant credential round-trips.
pub proof fn lemma_upload_then_download(
    v0: VaultView,
    project_id: Seq<char>,
    img: ImageDataView,
    stored: Seq<u8>,
    source: Seq<u8>,
)
    requires
        vault_wf(v0),
        dir_index(v0.dirs, project_id) != -1,
        find_blob(v0.dirs[dir_index(v0.dirs, project_id)].blobs, blob_name_of(img)) is None,
        find_image(v0.dirs[dir_index(v0.dirs, project_id)].images, img.image_id) is None,
        img.is_encrypted,
        dec_spec(
            stored,
            key_bytes(
                salt_of_credential(
                    v0.dirs[dir_index(v0.dirs, project_id)].info.password_hash,
                ),
            ),
        ) == Some(source),
    ensures
        download_data(
            commit_upload(v0, dir_index(v0.dirs, project_id), img, stored),
            project_id,
            img.image_id,
        ) == Some((source, img)),
{
    let di = dir_index(v0.dirs, project_id);
    lemma_dir_index_characterized(v0.dirs, project_id);
    let v1 = commit_upload(v0, di, img, stored);
    let dir0 = v0.dirs[di];
    let dir1 = v1.dirs[di];
    lemma_dir_index_update(v0.dirs, di, dir1, project_id);
    assert(dir_index(v1.dirs, project_id) == di);
    lemma_find_image_push(dir0.images, img, img.image_id);
    assert(find_image(dir1.images, img.image_id) == Some(img));
    lemma_find_blob_push(
        dir0.blobs,
        BlobView { name: blob_name_of(img), bytes: stored },
        blob_name_of(img),
    );
    assert(find_blob(dir1.blobs, blob_name_of(img)) == Some(
        BlobView { name: blob_name_of(img), bytes: stored },
    ));
}

/// Two uploads to the same tenant under distinct, fresh display names both
/// succeed in sequence, and the catalog afterwards holds both records in
/// order: serializing the writers loses no update.
pub proof fn lemma_sequential_uploads_keep_all(
    v0: VaultView,
    project_id: Seq<char>,
    img1: ImageDataView,
    stored1: Seq<u8>,
    img2: ImageDataView,
    stored2: Seq<u8>,
)
    requires
        dir_index(v0.dirs, project_id) != -1,
        blob_name_of(img1) != blob_name_of(img2),
        find_blob(v0.dirs[dir_index(v0.dirs, project_id)].blobs, blob_name_of(img1)) is None,
        find_blob(v0.dirs[dir_index(v0.dirs, project_id)].blobs, blob_name_of(img2)) is None,
    ensures
        ({
            let di = dir_index(v0.dirs, project_id);
            let v1 = commit_upload(v0, di, img1, stored1);
            &&& dir_index(v1.dirs, project_id) == di
            &&& find_blob(v1.dirs[di].blobs, blob_name_of(img2)) is None
            &&& commit_upload(v1, di, img2, stored2).dirs[di].images == v0.dirs[di].images.push(
                img1,
            ).push(img2)
        }),
{
    let di = dir_index(v0.dirs, project_id);
    lemma_dir_index_characterized(v0.dirs, project_id);
    let v1 = commit_upload(v0, di, img1, stored1);
    let dir0 = v0.dirs[di];
    let dir1 = v1.dirs[di];
    lemma_dir_index_update(v0.dirs, di, dir1, project_id);
    lemma_find_blob_push(
        dir0.blobs,
        BlobView { name: blob_name_of(img1), bytes: stored1 },
        blob_name_of(img2),
    );
    assert(find_blob(dir1.blobs, blob_name_of(img2)) is None);
    assert(commit_upload(v1, di, img2, stored2).dirs[di].images =~= dir0.images.push(img1).push(
        img2,
    ));
}

} // verus!
