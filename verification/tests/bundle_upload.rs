use maypop::bundle_upload::{
    build_manifest, check_entry, check_thumbnail, file_for, is_local_only_path, relative_path,
    BundleError, FoundFile,
};

#[test]
fn local_control_directories_are_not_part_of_static_bundles() {
    let root = "/tmp/app";
    assert!(is_local_only_path(root, "/tmp/app/.git"));
    assert!(is_local_only_path(root, "/tmp/app/node_modules"));
    assert!(is_local_only_path(root, "/tmp/app/.env.local"));
    assert!(is_local_only_path(root, "/tmp/app/maypop.toml"));
    assert!(!is_local_only_path(root, "/tmp/app/assets"));
}

#[test]
fn relative_paths_use_bundle_separators() {
    assert_eq!(relative_path("assets/app.js").unwrap(), "assets/app.js");
    assert!(relative_path("../secret").is_err());
}

#[test]
fn paths_outside_the_root_are_local_only() {
    assert!(is_local_only_path("/tmp/app", "/tmp/other/index.html"));
    assert!(!is_local_only_path("/tmp/app", "/tmp/app"));
    assert!(is_local_only_path("/tmp/app", "/tmp/app/.maypop/dev.json"));
    assert!(is_local_only_path("/tmp/app", "/tmp/app/.env"));
    assert!(!is_local_only_path("/tmp/app", "/tmp/app/.envrc"));
}

#[test]
fn content_types_come_from_the_extension() {
    let files = build_manifest(&vec![
        found("index.html", 1),
        found("assets/app.js", 1),
        found("README", 1),
        found("logo.png", 1),
    ])
    .unwrap();
    let types: Vec<(&str, &str)> = files
        .iter()
        .map(|f| (f.manifest.path.as_str(), f.manifest.content_type.as_str()))
        .collect();
    assert_eq!(
        types,
        vec![
            ("README", "application/octet-stream"),
            ("assets/app.js", "text/javascript"),
            ("index.html", "text/html"),
            ("logo.png", "image/png"),
        ]
    );
}

fn found(relative: &str, size: u64) -> FoundFile {
    FoundFile {
        relative: relative.to_string(),
        local_path: format!("/tmp/out/{relative}"),
        size,
    }
}

#[test]
fn manifests_are_sorted_by_path() {
    let files = build_manifest(&vec![
        found("index.html", 10),
        found("assets/app.js", 20),
        found("about.html", 5),
    ])
    .unwrap();
    let paths: Vec<&str> = files.iter().map(|f| f.manifest.path.as_str()).collect();
    assert_eq!(paths, vec!["about.html", "assets/app.js", "index.html"]);
    assert_eq!(files[1].manifest.size, 20);
    assert_eq!(files[1].manifest.content_type, "text/javascript");
    assert_eq!(files[1].local_path, "/tmp/out/assets/app.js");
    assert_eq!(
        file_for(&files, "index.html").map(|f| f.local_path.as_str()),
        Some("/tmp/out/index.html")
    );
    assert_eq!(file_for(&files, "missing.html"), None);
    assert!(check_entry(&files, "index.html").is_ok());
    assert!(matches!(
        check_entry(&files, "main.html"),
        Err(BundleError::MissingEntry { .. })
    ));
}

#[test]
fn empty_and_unsafe_outputs_are_refused() {
    assert!(matches!(build_manifest(&Vec::new()), Err(BundleError::NoFiles)));
    assert!(matches!(
        build_manifest(&vec![found("../index.html", 1)]),
        Err(BundleError::UnsafePath { .. })
    ));
}

#[test]
fn thumbnails_must_be_image_files() {
    assert_eq!(check_thumbnail("assets/thumbnail.png", true).unwrap(), "image/png");
    assert!(matches!(
        check_thumbnail("assets/thumbnail.png", false),
        Err(BundleError::NotAFile)
    ));
    assert!(matches!(
        check_thumbnail("assets/notes.txt", true),
        Err(BundleError::NotAnImage)
    ));
}

#[test]
fn bundle_paths_name_the_same_components() {
    assert!(relative_path("./assets/logo.png").is_err());
    let path = relative_path("assets//img/./logo.png").unwrap();
    assert_eq!(path, "assets/img/logo.png");
    assert_eq!(relative_path(&path).unwrap(), path);
    assert_eq!(
        maypop::paths::path_components(&path),
        vec!["assets", "img", "logo.png"]
    );
}

#[test]
fn only_image_types_are_accepted_for_thumbnails() {
    assert_eq!(
        maypop::bundle_upload::accept_image_type("image/webp".to_string()).unwrap(),
        "image/webp"
    );
    assert!(matches!(
        maypop::bundle_upload::accept_image_type("text/plain".to_string()),
        Err(BundleError::NotAnImage)
    ));
}

#[test]
fn distinct_files_appear_once_in_strict_path_order() {
    let files = build_manifest(&vec![
        found("b.js", 1),
        found("a/z.css", 2),
        found("a/b.css", 3),
        found("index.html", 4),
    ])
    .unwrap();
    let paths: Vec<&str> = files.iter().map(|f| f.manifest.path.as_str()).collect();
    assert_eq!(paths, vec!["a/b.css", "a/z.css", "b.js", "index.html"]);
    assert!(paths.windows(2).all(|w| w[0] < w[1]));
}
