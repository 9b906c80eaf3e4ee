use std::path::{Component, Path};

use statement_pdf::paths::{
    is_download_name_accepted, join_path, resolve_asset_path, resolve_download_path, static_root,
};

/// What the original route did, with `std::path`.
fn std_download_path(file_name: &str) -> Option<String> {
    let path = Path::new(file_name);
    if path.extension().and_then(|ext| ext.to_str()) != Some("pdf") {
        return None;
    }
    if path.components().any(|c| !matches!(c, Component::Normal(_))) {
        return None;
    }
    Some(Path::new("tmp").join(path).to_str().unwrap().to_string())
}

const NAMES: &[&str] = &[
    "a.pdf", "report_20260420120000.pdf", ".pdf", "a.PDF", "a.pdf.", "a..pdf", "pdf", "",
    "/a.pdf", "../a.pdf", "a/../b.pdf", "./a.pdf", "a/./b.pdf", "a//b.pdf", "a/b.pdf/",
    "a/b.pdf/.", "..", ".", "a/..", "x.pdf/..", "dir/.pdf", "a.pdf/b", "..pdf", "...pdf",
    "é.pdf", "a b.pdf", "a.txt", "a/", "//", "a.pd",
];

#[test]
fn download_paths_agree_with_std_path() {
    for name in NAMES {
        assert_eq!(resolve_download_path(name), std_download_path(name), "{name:?}");
        assert_eq!(is_download_name_accepted(name), std_download_path(name).is_some(), "{name:?}");
    }
}

#[test]
fn download_path_examples() {
    assert_eq!(resolve_download_path("a.pdf"), Some("tmp/a.pdf".to_string()));
    assert_eq!(resolve_download_path("../etc/passwd.pdf"), None);
    assert_eq!(resolve_download_path("/etc/x.pdf"), None);
    assert_eq!(resolve_download_path("a.txt"), None);
}

#[test]
fn joins_agree_with_std_path() {
    let pairs = [
        ("dir", "stamp.png"), ("dir/", "stamp.png"), ("", "stamp.png"), ("dir", "/abs.png"),
        ("/", "x"), ("a/b", "c/d.png"), ("dir", ""),
    ];
    for (base, path) in pairs {
        let expected = Path::new(base).join(path).to_str().unwrap().to_string();
        assert_eq!(join_path(base, path), expected, "{base:?} {path:?}");
        assert_eq!(resolve_asset_path(base, path), expected, "{base:?} {path:?}");
    }
}

#[test]
fn static_root_is_under_manifest_dir() {
    assert_eq!(static_root("/srv/app"), "/srv/app/static");
    assert_eq!(static_root("/srv/app/"), "/srv/app/static");
}
