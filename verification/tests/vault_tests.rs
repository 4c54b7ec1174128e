use file_vault::image_data::{
    get_saved_image, upload_image, ImageData, ImageDataError, TempImage, UploadImage,
};
use file_vault::jwt_token::{generate_token, validate_token, JwtError};
use file_vault::project_info::{
    create_project_info, get_all_project_infos, project_login, ProjectInfo, ProjectInfoErrors,
    ProjectLoginInfo,
};
use file_vault::vault::{Blob, ProjectDir, Vault};

fn login(name: &str, password: &str) -> ProjectLoginInfo {
    ProjectLoginInfo { project_name: name.to_owned(), password: password.to_owned() }
}

fn upload_request(name: Option<&str>, path: &str, tags: &str, encrypt: bool) -> UploadImage {
    UploadImage {
        image_path: path.to_owned(),
        image_name: name.map(|n| n.to_owned()),
        image_tags: tags.to_owned(),
        encrypt,
    }
}

#[test]
fn register_then_authenticate() {
    let mut vault = Vault::new();
    let created = create_project_info(&mut vault, &login("alice", "secret123")).unwrap();
    assert_eq!(created.project_name, "alice");
    assert_eq!(created.project_id.len(), 36);

    let back = project_login(&vault, &login("alice", "secret123")).unwrap();
    assert_eq!(back.project_id, created.project_id);

    assert!(matches!(
        project_login(&vault, &login("alice", "wrong")),
        Err(ProjectInfoErrors::WrongPassword)
    ));
    assert!(matches!(
        project_login(&vault, &login("bob", "secret123")),
        Err(ProjectInfoErrors::ProjectDosentExist)
    ));
}

#[test]
fn duplicate_name_conflicts_and_first_is_unaffected() {
    let mut vault = Vault::new();
    create_project_info(&mut vault, &login("alice", "secret123")).unwrap();
    assert!(matches!(
        create_project_info(&mut vault, &login("alice", "another")),
        Err(ProjectInfoErrors::ProjectAllreadyExists)
    ));
    assert_eq!(get_all_project_infos(&vault).len(), 1);
    assert!(project_login(&vault, &login("alice", "secret123")).is_ok());
}

#[test]
fn listing_is_idempotent() {
    let mut vault = Vault::new();
    create_project_info(&mut vault, &login("a", "pa")).unwrap();
    create_project_info(&mut vault, &login("b", "pb")).unwrap();
    let first = get_all_project_infos(&vault);
    let second = get_all_project_infos(&vault);
    assert_eq!(first.len(), 2);
    assert_eq!(first.len(), second.len());
    for (x, y) in first.iter().zip(second.iter()) {
        assert_eq!(x.project_id, y.project_id);
        assert_eq!(x.project_name, y.project_name);
        assert_eq!(x.password_hash, y.password_hash);
        assert_eq!(x.created_date, y.created_date);
    }
    assert_eq!(first[0].project_name, "a");
    assert_eq!(first[1].project_name, "b");
}

#[test]
fn token_round_trip_and_tampering() {
    let mut vault = Vault::new();
    let project = create_project_info(&mut vault, &login("alice", "secret123")).unwrap();
    let token = generate_token(&project, "server secret", "vault", "clients");

    let claims = validate_token(&token, "server secret", "vault", "clients").unwrap();
    assert_eq!(claims.project_id, project.project_id);
    assert_eq!(claims.exp, claims.iat + 10800);
    assert_eq!(claims.nbf, claims.iat);
    assert_eq!(claims.iss, "vault");
    assert_eq!(claims.aud, "clients");

    let mut tampered = token.clone();
    tampered.pop();
    tampered.push('A');
    let verdict = validate_token(&tampered, "server secret", "vault", "clients");
    if tampered != token {
        assert!(matches!(verdict, Err(JwtError::InvalidToken)));
    }
    assert!(matches!(
        validate_token(&token, "other secret", "vault", "clients"),
        Err(JwtError::InvalidToken)
    ));
    assert!(matches!(
        validate_token(&token, "server secret", "vault", "somebody else"),
        Err(JwtError::InvalidToken)
    ));
    assert!(matches!(
        validate_token("not a token", "server secret", "vault", "clients"),
        Err(JwtError::InvalidToken)
    ));
}

#[test]
fn end_to_end_upload_and_download() {
    let mut vault = Vault::new();
    let project = create_project_info(&mut vault, &login("alice", "secret123")).unwrap();
    let token = generate_token(&project, "s3cr3t", "vault", "clients");
    let claims = validate_token(&token, "s3cr3t", "vault", "clients").unwrap();
    assert_eq!(claims.project_id, project.project_id);

    let source = vec![0xDE, 0xAD, 0xBE, 0xEF];
    let request = upload_request(Some("photo"), "pic.png", "x;y", true);
    let img = upload_image(&mut vault, "input", request, &claims.project_id, source.clone())
        .unwrap();
    assert!(img.is_encrypted);
    assert_eq!(img.tags, vec!["x".to_owned(), "y".to_owned()]);
    assert_eq!(img.image_name, "photo");
    assert_eq!(img.mime, "png");
    assert_eq!(img.original_image_name, "pic.png");
    assert_eq!(img.image_size, 4);

    let response = get_saved_image(&vault, &claims.project_id, &img.image_id).unwrap();
    assert_eq!(response.data, source);
    assert_eq!(response.metadata.image_id, img.image_id);
    assert!(response.metadata.is_encrypted);

    // the stored blob is ciphertext, not the source bytes
    assert_ne!(vault.dirs[0].blobs[0].bytes, source);
}

#[test]
fn unknown_asset_and_unknown_tenant_fail_cleanly() {
    let mut vault = Vault::new();
    let project = create_project_info(&mut vault, &login("alice", "secret123")).unwrap();
    assert!(matches!(
        get_saved_image(&vault, &project.project_id, "1cfb013e-0000-0000-0000-7d2e8e04a1df"),
        Err(ImageDataError::ImageNotFound)
    ));
    assert!(matches!(
        get_saved_image(&vault, "not a tenant", "any id"),
        Err(ImageDataError::ProjectDosentExists)
    ));
    assert!(matches!(
        upload_image(
            &mut vault,
            "input",
            upload_request(Some("x"), "a.png", "", true),
            "not a tenant",
            vec![1, 2, 3],
        ),
        Err(ImageDataError::ProjectDosentExists)
    ));
}

#[test]
fn concurrent_style_uploads_keep_every_entry() {
    let mut vault = Vault::new();
    let project = create_project_info(&mut vault, &login("alice", "secret123")).unwrap();
    let n = 8;
    for i in 0..n {
        let name = format!("asset{}", i);
        let request = upload_request(Some(&name), "pic.png", "", true);
        let bytes = vec![i as u8; 16];
        upload_image(&mut vault, "input", request, &project.project_id, bytes).unwrap();
    }
    assert_eq!(vault.dirs[0].images.len(), n);
    assert_eq!(vault.dirs[0].blobs.len(), n);
    for i in 0..n {
        assert_eq!(vault.dirs[0].images[i].image_name, format!("asset{}", i));
    }
}

#[test]
fn duplicate_display_name_is_refused() {
    let mut vault = Vault::new();
    let project = create_project_info(&mut vault, &login("alice", "secret123")).unwrap();
    upload_image(
        &mut vault,
        "input",
        upload_request(Some("photo"), "pic.png", "", true),
        &project.project_id,
        vec![1, 2, 3],
    )
    .unwrap();
    assert!(matches!(
        upload_image(
            &mut vault,
            "input",
            upload_request(Some("photo"), "pic.png", "", true),
            &project.project_id,
            vec![4, 5, 6],
        ),
        Err(ImageDataError::FailedToSaveImage)
    ));
    assert_eq!(vault.dirs[0].images.len(), 1);
}

#[test]
fn generated_display_name_when_none_given() {
    let request = upload_request(None, "pic.png", "", true);
    let staged = TempImage::from_upload_image(request, "input", 3);
    assert_eq!(staged.image_name.chars().count(), 7);
    assert!(staged.image_name.chars().all(|c| c.is_ascii_alphanumeric()));
    assert_eq!(staged.temp_file_path, "input/pic.png");
    assert_eq!(staged.temp_image_name, "pic.png");
    assert_eq!(staged.temp_image_mime, "png");
    assert_eq!(staged.temp_file_size, 3);
}

#[test]
fn tag_text_splits_with_empty_segments_kept() {
    let request = upload_request(Some("n"), "p.png", "x;;y", false);
    let staged = TempImage::from_upload_image(request, "in", 0);
    assert_eq!(
        staged.image_tags,
        vec!["x".to_owned(), "".to_owned(), "y".to_owned()]
    );
    let request = upload_request(Some("n"), "p.png", "", false);
    let staged = TempImage::from_upload_image(request, "in", 0);
    assert_eq!(staged.image_tags, vec!["".to_owned()]);
}

#[test]
fn corrupt_blob_reports_decryption_error() {
    let mut vault = Vault::new();
    let project = create_project_info(&mut vault, &login("alice", "secret123")).unwrap();
    let img = upload_image(
        &mut vault,
        "input",
        upload_request(Some("photo"), "pic.png", "", true),
        &project.project_id,
        vec![9, 9, 9],
    )
    .unwrap();
    // corrupt the stored blob
    let stored = &mut vault.dirs[0].blobs[0].bytes;
    let last = stored.len() - 1;
    stored[last] ^= 0xFF;
    assert!(matches!(
        get_saved_image(&vault, &project.project_id, &img.image_id),
        Err(ImageDataError::DecryptionError(_))
    ));
}

#[test]
fn plain_upload_normalizes_the_raster() {
    let mut vault = Vault::new();
    let project = create_project_info(&mut vault, &login("alice", "secret123")).unwrap();
    // a 2x2 RGBA png: normalization to RGB8 must change the stored bytes
    let rgba = image::DynamicImage::ImageRgba8(image::RgbaImage::from_fn(2, 2, |x, y| {
        image::Rgba([x as u8 * 100, y as u8 * 100, 40, 128])
    }));
    let mut cursor = std::io::Cursor::new(Vec::new());
    rgba.write_to(&mut cursor, image::ImageFormat::Png).unwrap();
    let source = cursor.into_inner();

    let img = upload_image(
        &mut vault,
        "input",
        upload_request(Some("flat"), "pic.png", "", false),
        &project.project_id,
        source.clone(),
    )
    .unwrap();
    assert!(!img.is_encrypted);
    assert_ne!(vault.dirs[0].blobs[0].bytes, source);

    let response = get_saved_image(&vault, &project.project_id, &img.image_id).unwrap();
    assert_eq!(response.data, vault.dirs[0].blobs[0].bytes);
    let decoded = image::load_from_memory(&response.data).unwrap();
    assert_eq!(decoded.color(), image::ColorType::Rgb8);
}

#[test]
fn undecodable_plain_upload_is_refused() {
    let mut vault = Vault::new();
    let project = create_project_info(&mut vault, &login("alice", "secret123")).unwrap();
    assert!(matches!(
        upload_image(
            &mut vault,
            "input",
            upload_request(Some("junk"), "pic.png", "", false),
            &project.project_id,
            vec![0, 1, 2, 3],
        ),
        Err(ImageDataError::FailedToSaveImage)
    ));
    assert_eq!(vault.dirs[0].images.len(), 0);
}

#[test]
fn hand_built_vault_with_missing_delimiter_still_downloads_plain() {
    // a directory written by hand, with a plaintext blob
    let info = ProjectInfo {
        project_id: "tid".to_owned(),
        project_name: "t".to_owned(),
        password_hash: "nodigest".to_owned(),
        created_date: 0,
    };
    let img = ImageData {
        image_id: "iid".to_owned(),
        image_name: "file".to_owned(),
        mime: "bin".to_owned(),
        original_image_name: "file.bin".to_owned(),
        image_size: 3,
        created_date: 0,
        is_encrypted: false,
        tags: Vec::new(),
    };
    let dir = ProjectDir {
        info: info.clone(),
        images: vec![img],
        blobs: vec![Blob { name: "file.bin".to_owned(), bytes: vec![7, 8, 9] }],
    };
    let vault = Vault { projects: vec![info], dirs: vec![dir] };
    let response = get_saved_image(&vault, "tid", "iid").unwrap();
    assert_eq!(response.data, vec![7, 8, 9]);
}

#[test]
fn regenerate_token_placeholder_is_empty() {
    assert_eq!(file_vault::jwt_token::_regenerate_token("abc".to_owned()), "");
    let v: Vec<ImageData> = ImageData::new_vec();
    assert!(v.is_empty());
}
