//! The source archive.

use sha2::{Digest, Sha256};
use stellar_contract_verify::digest::hex_digest;
use stellar_contract_verify::engine::TextOutput;
use stellar_contract_verify::error::Error;
use stellar_contract_verify::meta::ExtractedMetadata;
use stellar_contract_verify::source::{
    basename_of, check_digest, data_local_dir, fetch_source_bytes, format_of,
    locate_extracted_source_root, materialize_source, remote, resolve_source_format,
    source_basename, verify_source_sha256, ArchiveFormat, SOURCE_TEMPDIR_PREFIX,
};
use stellar_contract_verify::tree::{enforce_hardened_tree, TreeEntry, TreeWalk};

#[test]
fn archive_format_from_filename() {
    assert_eq!(
        ArchiveFormat::from_filename("src.tar.gz"),
        Some(ArchiveFormat::TarGz)
    );
    assert_eq!(
        ArchiveFormat::from_filename("SRC.TGZ"),
        Some(ArchiveFormat::TarGz)
    );
    assert_eq!(
        ArchiveFormat::from_filename("src.zip"),
        Some(ArchiveFormat::Zip)
    );
    assert_eq!(ArchiveFormat::from_filename("src.rar"), None);
    assert_eq!(ArchiveFormat::from_filename("src"), None);
    assert_eq!(
        ArchiveFormat::recognized_extensions(),
        ".tar.gz, .tgz, .zip"
    );
}

#[test]
fn verify_source_sha256_matches() {
    let bytes = b"hello, sep-58";
    let digest = format!("{:x}", Sha256::digest(bytes));
    verify_source_sha256(bytes, &digest).unwrap();
    verify_source_sha256(bytes, &digest.to_ascii_uppercase()).unwrap();
}

#[test]
fn verify_source_sha256_mismatch_errors() {
    let bytes = b"hello, sep-58";
    let bogus = "0".repeat(64);
    let err = verify_source_sha256(bytes, &bogus).unwrap_err();
    assert!(matches!(err, Error::SourceHashMismatch { .. }));
}

#[test]
fn materialize_source_errors_when_only_source_sha256() {
    let meta = ExtractedMetadata {
        bldimg: format!("docker.io/stellar/stellar-cli@sha256:{}", "a".repeat(64)),
        source_uri: None,
        source_sha256: Some("f".repeat(64)),
        bldopts: Vec::new(),
        meta_entries: Vec::new(),
    };
    match materialize_source(&meta, None) {
        Ok(_) => panic!("there is no source"),
        Err(err) => assert!(matches!(err, Error::SourceUriRequired)),
    }
}

#[test]
fn source_basename_strips_url_query_and_fragment() {
    assert_eq!(
        source_basename("https://example.com/path/src.tar.gz?token=abc#frag"),
        "src.tar.gz"
    );
    assert_eq!(source_basename("https://example.com/a/b/x.tgz"), "x.tgz");
}

#[test]
fn source_basename_handles_local_paths() {
    assert_eq!(source_basename("/tmp/foo/src.tar.gz"), "src.tar.gz");
    assert_eq!(source_basename("./relative/src.tgz"), "src.tgz");
    assert_eq!(source_basename("src.tar.gz"), "src.tar.gz");
}

#[test]
fn resolve_source_format_accepts_recognized_extensions() {
    assert_eq!(
        resolve_source_format("https://example.com/src.tar.gz").unwrap(),
        ArchiveFormat::TarGz
    );
    assert_eq!(
        resolve_source_format("/tmp/src.tgz").unwrap(),
        ArchiveFormat::TarGz
    );
    assert_eq!(
        resolve_source_format("https://example.com/src.zip?token=abc").unwrap(),
        ArchiveFormat::Zip
    );
    assert_eq!(
        resolve_source_format("SRC.TAR.GZ").unwrap(),
        ArchiveFormat::TarGz
    );
}

#[test]
fn resolve_source_format_rejects_unknown_formats() {
    for source in [
        "https://example.com/src.rar",
        "/tmp/src.7z",
        "src",
        "src.gz",
    ] {
        let err = resolve_source_format(source).unwrap_err();
        assert!(matches!(err, Error::UnsupportedSourceFormat { .. }));
    }
}

#[test]
fn unsupported_format_names_the_accepted_ones() {
    let err = format_of("x/src.rar", "src.rar").unwrap_err();
    assert!(
        matches!(err, Error::UnsupportedSourceFormat { uri, formats } if uri == "x/src.rar" && formats == ".tar.gz, .tgz, .zip")
    );
}

#[test]
fn basenames_of_odd_sources() {
    assert_eq!(source_basename("https://example.com/dir/"), "");
    assert_eq!(source_basename("https://example.com"), "");
    assert_eq!(source_basename("mailto:src.zip"), "");
    assert_eq!(source_basename("a/b/.."), "");
    assert_eq!(source_basename("a/b/."), "b");
    assert_eq!(source_basename("dir/src?x#y.zip"), "src?x#y.zip");
    assert_eq!(source_basename(""), "");
}

#[test]
fn basename_follows_the_segments() {
    let list = vec!["a".to_string(), "b.zip".to_string()];
    assert_eq!(basename_of("x", Some(Some(list))), "b.zip");
    assert_eq!(basename_of("x", Some(Some(Vec::new()))), "");
    assert_eq!(basename_of("x", Some(None)), "");
    assert_eq!(basename_of("y/x", None), "x");
}

#[test]
fn digests_are_known_values() {
    assert_eq!(
        hex_digest(b""),
        "e3b0c44298fc1c149afbf4c8996fb92427ae41e4649b934ca495991b7852b855"
    );
    assert_eq!(
        hex_digest(b"abc"),
        "ba7816bf8f01cfea414140de5dae2223b00361a396177a9cb410ff61f20015ad"
    );
}

#[test]
fn digest_mismatch_holds_both_digests() {
    assert!(check_digest("AbC".to_string(), "aBc").is_ok());
    let err = check_digest("abc".to_string(), "abd").unwrap_err();
    assert!(
        matches!(err, Error::SourceHashMismatch { expected, actual } if expected == "abd" && actual == "abc")
    );
}

#[test]
fn given_source_wins() {
    let meta = ExtractedMetadata {
        bldimg: String::new(),
        source_uri: Some("https://example.com/recorded.tgz".to_string()),
        source_sha256: Some("f".repeat(64)),
        bldopts: Vec::new(),
        meta_entries: Vec::new(),
    };
    let plan = materialize_source(&meta, Some("/tmp/given.zip")).unwrap();
    assert_eq!(plan.source, "/tmp/given.zip");
    assert_eq!(plan.format, ArchiveFormat::Zip);
    let plan = materialize_source(&meta, None).unwrap();
    assert_eq!(plan.source, "https://example.com/recorded.tgz");
    assert_eq!(plan.format, ArchiveFormat::TarGz);
    assert!(materialize_source(&meta, Some("given.rar")).is_err());
}

#[test]
fn format_ignores_case() {
    for name in ["a.TAR.gz", "a.Tgz", "a.ZIP", "a.RAR", ".tgz", "tgz"] {
        assert_eq!(
            ArchiveFormat::from_filename(name),
            ArchiveFormat::from_filename(&name.to_ascii_lowercase())
        );
    }
    assert_eq!(
        ArchiveFormat::from_filename(".tgz"),
        Some(ArchiveFormat::TarGz)
    );
    assert_eq!(ArchiveFormat::from_filename("tgz"), None);
}

#[test]
fn failed_retrieval_names_the_source() {
    assert_eq!(fetch_source_bytes("x", Ok(vec![1, 2])).unwrap(), [1, 2]);
    assert!(matches!(
        fetch_source_bytes("https://h/s.zip", Err("404".to_string())),
        Err(Error::SourceDownload { url, source }) if url == "https://h/s.zip" && source == "404"
    ));
    assert!(matches!(
        fetch_source_bytes("s.zip", Err("gone".to_string())),
        Err(Error::SourceRead { path, source }) if path == "s.zip" && source == "gone"
    ));
    assert!(remote("http://x"));
    assert!(!remote("HTTP://x"));
    assert!(!remote("file:///x"));
}

#[test]
fn data_directory_is_trimmed() {
    let output = |success: bool, stdout: &str| {
        data_local_dir(Ok(TextOutput {
            success,
            stdout: stdout.to_string(),
        }))
    };
    assert_eq!(output(true, " /home/u/.local \n").unwrap(), "/home/u/.local");
    assert!(matches!(output(true, "\n"), Err(Error::DataDir)));
    assert!(matches!(output(false, "/x"), Err(Error::DataDir)));
    assert!(matches!(
        data_local_dir(Err("gone".to_string())),
        Err(Error::StellarInvoke(reason)) if reason == "gone"
    ));
    assert_eq!(SOURCE_TEMPDIR_PREFIX, "verify-src-");
}

#[test]
fn source_is_wrapped_in_one_directory() {
    assert_eq!(
        locate_extracted_source_root("/w", Ok(vec!["/w/source".to_string()])).unwrap(),
        "/w/source"
    );
    assert!(matches!(
        locate_extracted_source_root("/w", Ok(Vec::new())),
        Err(Error::SourceArchiveLayout { path, count: 0 }) if path == "/w"
    ));
    assert!(matches!(
        locate_extracted_source_root("/w", Ok(vec!["a".to_string(), "b".to_string()])),
        Err(Error::SourceArchiveLayout { count: 2, .. })
    ));
    assert!(matches!(
        locate_extracted_source_root("/w", Err("gone".to_string())),
        Err(Error::SourceExtract { path, source }) if path == "/w" && source == "gone"
    ));
}

#[test]
fn tree_is_closed_to_others() {
    let entry = |is_symlink: bool, is_dir: bool, mode: u32| {
        let r = enforce_hardened_tree(&TreeEntry {
            is_symlink,
            is_dir,
            mode,
        });
        (r.set_mode, r.descend)
    };
    assert_eq!(entry(false, true, 0o40755), (Some(0o700), true));
    assert_eq!(entry(false, true, 0o40700), (None, true));
    assert_eq!(entry(false, false, 0o100644), (Some(0o600), false));
    assert_eq!(entry(false, false, 0o100600), (None, false));
    assert_eq!(entry(false, false, 0o100700), (Some(0o600), false));
    assert_eq!(entry(true, false, 0o120777), (None, false));
    assert_eq!(entry(false, false, 0o104600), (Some(0o600), false));
    assert_eq!(entry(false, false, 0o102600), (Some(0o600), false));
    assert_eq!(entry(false, true, 0o41700), (Some(0o700), true));
    assert_eq!(entry(true, false, 0o124777), (None, false));
}

#[test]
fn walk_visits_everything_but_what_links_lead_to() {
    let disk = |path: &str| -> (TreeEntry, Vec<String>) {
        let entry = |is_symlink: bool, is_dir: bool| TreeEntry {
            is_symlink,
            is_dir,
            mode: 0o777,
        };
        let children = |list: &[&str]| list.iter().map(|s| s.to_string()).collect();
        match path {
            "r" => (entry(false, true), children(&["r/a", "r/l", "r/f"])),
            "r/a" => (entry(false, true), children(&["r/a/b"])),
            "r/l" => (entry(true, true), children(&["elsewhere"])),
            _ => (entry(false, false), Vec::new()),
        }
    };
    let mut walk = TreeWalk::new("r".to_string());
    let mut seen: Vec<(String, Option<u32>)> = Vec::new();
    while let Some(path) = walk.next() {
        let (entry, children) = disk(&path);
        let todo = enforce_hardened_tree(&entry);
        walk.enter(&todo, children);
        seen.push((path, todo.set_mode));
    }
    assert_eq!(
        seen,
        [
            ("r".to_string(), Some(0o700)),
            ("r/f".to_string(), Some(0o600)),
            ("r/l".to_string(), None),
            ("r/a".to_string(), Some(0o700)),
            ("r/a/b".to_string(), Some(0o600)),
        ]
    );
}
