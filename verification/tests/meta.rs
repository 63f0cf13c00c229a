//! The metadata that a WASM records.

use std::io::Cursor;

use stellar_contract_verify::error::Error;
use stellar_contract_verify::meta::{
    bldimg_regex, extract_from_sections, extract_metadata, gather_sections, parse_meta_entries,
    read_meta_sections, select_meta_data, source_sha256_regex, source_uri_regex,
};
use stellar_xdr::{Limited, Limits, ScMetaEntry, ScMetaV0, WriteXdr};

fn make_wasm_with_meta(entries: &[(&str, &str)]) -> Vec<u8> {
    make_wasm_with_sections(&[entries])
}

fn make_wasm_with_sections(sections: &[&[(&str, &str)]]) -> Vec<u8> {
    let mut wasm = empty_wasm_module();
    for entries in sections {
        let xdr = encode_meta(entries);
        wasm_gen::write_custom_section(&mut wasm, "contractmetav0", &xdr);
    }
    wasm
}

fn empty_wasm_module() -> Vec<u8> {
    vec![0x00, 0x61, 0x73, 0x6d, 0x01, 0x00, 0x00, 0x00]
}

fn encode_meta(entries: &[(&str, &str)]) -> Vec<u8> {
    let mut buf: Vec<u8> = Vec::new();
    let mut writer = Limited::new(Cursor::new(&mut buf), Limits::none());
    for (k, v) in entries {
        ScMetaEntry::ScMetaV0(ScMetaV0 {
            key: (*k).to_string().try_into().unwrap(),
            val: (*v).to_string().try_into().unwrap(),
        })
        .write_xdr(&mut writer)
        .unwrap();
    }
    buf
}

fn good_bldimg() -> String {
    format!("docker.io/stellar/stellar-cli@sha256:{}", "a".repeat(64))
}

fn section(entries: &[(&str, &str)]) -> Vec<(String, String)> {
    entries
        .iter()
        .map(|(k, v)| (k.to_string(), v.to_string()))
        .collect()
}

#[test]
fn extract_metadata_happy_path_source_pair() {
    let wasm = make_wasm_with_meta(&[
        ("bldimg", &good_bldimg()),
        ("source_uri", "https://example.com/src.tar.gz"),
        ("source_sha256", &"f".repeat(64)),
        ("bldopt", "--locked"),
    ]);
    let meta = extract_metadata(&wasm).unwrap();
    assert_eq!(
        meta.source_uri.as_deref(),
        Some("https://example.com/src.tar.gz")
    );
    assert_eq!(meta.source_sha256.as_deref(), Some("f".repeat(64).as_str()));
}

#[test]
fn extract_metadata_missing_bldimg_errors() {
    let wasm = make_wasm_with_meta(&[("source_sha256", &"b".repeat(64))]);
    let err = extract_metadata(&wasm).unwrap_err();
    assert!(matches!(err, Error::MissingBldimg));
}

#[test]
fn extract_metadata_duplicate_bldimg_errors() {
    let other = format!("docker.io/attacker/evil@sha256:{}", "b".repeat(64));
    let wasm = make_wasm_with_meta(&[
        ("bldimg", &good_bldimg()),
        ("bldimg", &other),
        ("source_sha256", &"f".repeat(64)),
    ]);
    let err = extract_metadata(&wasm).unwrap_err();
    assert!(matches!(err, Error::DuplicateMeta { field: "bldimg" }));
}

#[test]
fn extract_metadata_duplicate_source_ids_error() {
    for field in ["source_uri", "source_sha256"] {
        let wasm = make_wasm_with_meta(&[
            ("bldimg", &good_bldimg()),
            ("source_sha256", &"f".repeat(64)),
            (field, "https://example.com/a.tar.gz"),
            (field, "https://example.com/b.tar.gz"),
        ]);
        let err = extract_metadata(&wasm).unwrap_err();
        assert!(
            matches!(err, Error::DuplicateMeta { field: f } if f == field),
            "expected DuplicateMeta for {field}, got {err:?}"
        );
    }
}

#[test]
fn extract_metadata_missing_source_id_errors() {
    let wasm = make_wasm_with_meta(&[("bldimg", &good_bldimg())]);
    let err = extract_metadata(&wasm).unwrap_err();
    assert!(matches!(err, Error::MissingSourceSha256));
}

#[test]
fn extract_metadata_bad_bldimg_format_errors() {
    let wasm = make_wasm_with_meta(&[
        ("bldimg", "stellar/stellar-cli@sha256:abc"),
        ("source_sha256", &"b".repeat(64)),
    ]);
    let err = extract_metadata(&wasm).unwrap_err();
    assert!(matches!(
        err,
        Error::MetaFormat {
            field: "bldimg",
            ..
        }
    ));
}

#[test]
fn extract_metadata_bad_source_sha256_format_errors() {
    let wasm = make_wasm_with_meta(&[("bldimg", &good_bldimg()), ("source_sha256", "abc")]);
    let err = extract_metadata(&wasm).unwrap_err();
    assert!(matches!(
        err,
        Error::MetaFormat {
            field: "source_sha256",
            ..
        }
    ));
}

#[test]
fn extract_metadata_bad_source_uri_format_errors() {
    let wasm = make_wasm_with_meta(&[
        ("bldimg", &good_bldimg()),
        ("source_uri", "not a uri"),
        ("source_sha256", &"b".repeat(64)),
    ]);
    let err = extract_metadata(&wasm).unwrap_err();
    assert!(matches!(
        err,
        Error::MetaFormat { field: "source_uri", value, regex } if value == "not a uri" && regex == source_uri_regex()
    ));
}

#[test]
fn extract_metadata_replays_only_cli_section() {
    let wasm = make_wasm_with_sections(&[
        &[
            ("Description", "A hello world contract"),
            ("key1", "val1"),
            ("key2", "val2"),
            ("rsver", "1.96.0"),
            ("rssdkver", "26.1.0#abcdef"),
        ],
        &[
            ("cliver", "27.0.0#abcdef"),
            ("bldimg", &good_bldimg()),
            ("source_sha256", &"b".repeat(64)),
            ("bldopt", "--locked"),
            ("home_domain", "fnando.com"),
        ],
    ]);
    let meta = extract_metadata(&wasm).unwrap();
    assert_eq!(meta.bldopts, vec!["--locked".to_string()]);
    assert_eq!(
        meta.meta_entries,
        vec![
            ("bldimg".to_string(), good_bldimg()),
            ("source_sha256".to_string(), "b".repeat(64)),
            ("bldopt".to_string(), "--locked".to_string()),
            ("home_domain".to_string(), "fnando.com".to_string()),
        ]
    );
}

#[test]
fn extract_metadata_fallback_picks_last_section_without_cliver() {
    let wasm = make_wasm_with_sections(&[
        &[
            ("key1", "val1"),
            ("key2", "val2"),
            ("rsver", "1.97.0"),
            ("rssdkver", "22.0.11#abcdef"),
        ],
        &[
            ("bldimg", &good_bldimg()),
            ("source_sha256", &"b".repeat(64)),
            ("bldopt", "--locked"),
        ],
    ]);
    let meta = extract_metadata(&wasm).unwrap();
    assert_eq!(
        meta.meta_entries,
        vec![
            ("bldimg".to_string(), good_bldimg()),
            ("source_sha256".to_string(), "b".repeat(64)),
            ("bldopt".to_string(), "--locked".to_string()),
        ]
    );
}

#[test]
fn extract_metadata_single_section_fallback_drops_regenerated_keys() {
    let wasm = make_wasm_with_meta(&[
        ("bldimg", &good_bldimg()),
        ("source_sha256", &"b".repeat(64)),
        ("rsver", "1.97.0"),
        ("rssdkver", "22.0.11#abcdef"),
        ("home_domain", "fnando.com"),
    ]);
    let meta = extract_metadata(&wasm).unwrap();
    assert_eq!(
        meta.meta_entries,
        vec![
            ("bldimg".to_string(), good_bldimg()),
            ("source_sha256".to_string(), "b".repeat(64)),
            ("home_domain".to_string(), "fnando.com".to_string()),
        ]
    );
}

#[test]
fn extract_metadata_ignores_duplicate_key_in_source_embedded_section() {
    let evil = format!("docker.io/attacker/evil@sha256:{}", "e".repeat(64));
    let wasm = make_wasm_with_sections(&[
        &[("bldimg", &evil), ("rsver", "1.96.0")],
        &[
            ("cliver", "27.0.0#abcdef"),
            ("bldimg", &good_bldimg()),
            ("source_sha256", &"b".repeat(64)),
        ],
    ]);
    let meta = extract_metadata(&wasm).unwrap();
    assert_eq!(meta.bldimg, good_bldimg());
}

#[test]
fn extract_metadata_empty_meta_errors() {
    let wasm = empty_wasm_module();
    let err = extract_metadata(&wasm).unwrap_err();
    assert!(matches!(err, Error::NoMeta));
}

#[test]
fn marked_section_counts_although_another_follows() {
    let wasm = make_wasm_with_sections(&[
        &[
            ("cliver", "27.0.0"),
            ("bldimg", &good_bldimg()),
            ("source_sha256", &"b".repeat(64)),
        ],
        &[("bldimg", "evil"), ("bldimg", "evil")],
        &[("cliver", "1.0.0")],
    ]);
    let meta = extract_metadata(&wasm).unwrap();
    assert_eq!(meta.bldimg, good_bldimg());
    assert_eq!(meta.meta_entries.len(), 2);
}

#[test]
fn last_section_counts_although_an_empty_one_follows() {
    let wasm = make_wasm_with_sections(&[
        &[
            ("bldimg", &good_bldimg()),
            ("source_sha256", &"b".repeat(64)),
        ],
        &[],
    ]);
    let meta = extract_metadata(&wasm).unwrap();
    assert_eq!(meta.bldimg, good_bldimg());
    assert_eq!(meta.source_uri, None);
}

#[test]
fn sections_are_read_in_order_and_others_are_skipped() {
    let mut wasm = empty_wasm_module();
    wasm_gen::write_custom_section(&mut wasm, "contractmetav0", &encode_meta(&[("a", "1")]));
    wasm_gen::write_custom_section(&mut wasm, "contractspecv0", &[1, 2, 3]);
    wasm_gen::write_custom_section(
        &mut wasm,
        "contractmetav0",
        &encode_meta(&[("b", "2"), ("c", "3")]),
    );
    assert_eq!(
        read_meta_sections(&wasm).unwrap(),
        vec![section(&[("a", "1")]), section(&[("b", "2"), ("c", "3")])]
    );
}

#[test]
fn malformed_wasm_is_refused() {
    let err = extract_metadata(b"this is no wasm").unwrap_err();
    assert!(matches!(err, Error::MetaParse(_)));
    assert!(matches!(
        read_meta_sections(&[]).unwrap_err(),
        Error::MetaParse(_)
    ));
}

#[test]
fn malformed_section_is_refused() {
    let mut data = encode_meta(&[("key", "value")]);
    assert_eq!(
        parse_meta_entries(&data).unwrap(),
        section(&[("key", "value")])
    );
    data.pop();
    assert!(matches!(
        parse_meta_entries(&data).unwrap_err(),
        Error::MetaParse(_)
    ));
    let mut wasm = empty_wasm_module();
    wasm_gen::write_custom_section(&mut wasm, "contractmetav0", &data);
    assert!(matches!(
        extract_metadata(&wasm).unwrap_err(),
        Error::MetaParse(_)
    ));
}

#[test]
fn payloads_are_selected_up_to_the_first_error() {
    let list = vec![
        Ok(None),
        Ok(Some(("contractmetav0".to_string(), vec![1, 2]))),
        Ok(Some(("name".to_string(), vec![3]))),
        Ok(Some(("contractmetav0".to_string(), vec![]))),
        Err("broken".to_string()),
        Ok(Some(("contractmetav0".to_string(), vec![4]))),
        Err("worse".to_string()),
    ];
    let (data, fault) = select_meta_data(list);
    assert_eq!(data, vec![vec![1, 2], vec![]]);
    assert_eq!(fault.as_deref(), Some("broken"));
}

#[test]
fn first_fault_of_the_sections_is_reported() {
    let sections = vec![
        Ok(section(&[("a", "1")])),
        Err(Error::MetaParse("first".to_string())),
        Err(Error::MetaParse("second".to_string())),
    ];
    let err = gather_sections(sections, Some("third".to_string())).unwrap_err();
    assert!(matches!(err, Error::MetaParse(reason) if reason == "first"));

    let err = gather_sections(vec![Ok(section(&[]))], Some("late".to_string())).unwrap_err();
    assert!(matches!(err, Error::MetaParse(reason) if reason == "late"));

    let all = gather_sections(vec![Ok(section(&[("a", "1")])), Ok(section(&[]))], None).unwrap();
    assert_eq!(all, vec![section(&[("a", "1")]), section(&[])]);
}

#[test]
fn first_repeated_field_is_reported() {
    let digest = "b".repeat(64);
    let sections = vec![section(&[
        ("source_sha256", &digest),
        ("bldimg", "x"),
        ("source_sha256", &digest),
        ("bldimg", "y"),
    ])];
    let err = extract_from_sections(&sections).unwrap_err();
    assert!(matches!(
        err,
        Error::DuplicateMeta {
            field: "source_sha256"
        }
    ));
}

#[test]
fn options_keep_their_order() {
    let image = good_bldimg();
    let digest = "b".repeat(64);
    let sections = vec![section(&[
        ("bldopt", "--b"),
        ("bldimg", &image),
        ("bldopt", "--a"),
        ("source_sha256", &digest),
        ("bldopt", "--b"),
    ])];
    let meta = extract_from_sections(&sections).unwrap();
    assert_eq!(meta.bldopts, ["--b", "--a", "--b"]);
}

#[test]
fn images_must_be_pinned() {
    let hex = "0123456789abcdef".repeat(4);
    let digest = "b".repeat(64);
    let accepted = [
        format!("docker.io/stellar/stellar-cli@sha256:{hex}"),
        format!("localhost/img@sha256:{hex}"),
        format!("localhost:5000/img@sha256:{hex}"),
        format!("host:x/img@sha256:{hex}"),
        format!("ghcr.io/a/b/c:tag@sha256:{hex}"),
        format!("./x@sha256:{hex}"),
    ];
    for image in accepted {
        let sections = vec![section(&[("bldimg", &image), ("source_sha256", &digest)])];
        assert_eq!(extract_from_sections(&sections).unwrap().bldimg, image);
    }
    let refused = [
        format!("stellar/stellar-cli@sha256:{hex}"),
        format!("docker.io/@sha256:{hex}"),
        format!("docker.io/a b@sha256:{hex}"),
        format!("docker.io/a@b@sha256:{hex}"),
        format!("docker.io/a@sha256:{}", hex.to_uppercase()),
        format!("docker.io/a@sha256:{hex}0"),
        format!("docker.io/a@sha256:{}", &hex[1..]),
        format!("docker.io/a@sha256:{hex}\n"),
        format!("\u{a0}.io/a@sha256:{hex}"),
        "docker.io/a:latest".to_string(),
        String::new(),
    ];
    for image in refused {
        let sections = vec![section(&[("bldimg", &image), ("source_sha256", &digest)])];
        let err = extract_from_sections(&sections).unwrap_err();
        assert!(
            matches!(err, Error::MetaFormat { field: "bldimg", value, regex } if value == image && regex == bldimg_regex())
        );
    }
}

#[test]
fn uris_need_a_scheme() {
    let image = good_bldimg();
    let digest = "b".repeat(64);
    for uri in ["https://x", "a:b", "git+ssh://h/p", "x1.y-z:q"] {
        let sections = vec![section(&[
            ("bldimg", &image),
            ("source_uri", uri),
            ("source_sha256", &digest),
        ])];
        let meta = extract_from_sections(&sections).unwrap();
        assert_eq!(meta.source_uri.as_deref(), Some(uri));
    }
    for uri in ["", "a:", ":b", "1a:b", "a_b:c", "a:b c", "/tmp/src.tgz", "a:b\n"] {
        let sections = vec![section(&[
            ("bldimg", &image),
            ("source_uri", uri),
            ("source_sha256", &digest),
        ])];
        let err = extract_from_sections(&sections).unwrap_err();
        assert!(matches!(
            err,
            Error::MetaFormat {
                field: "source_uri",
                ..
            }
        ));
    }
}

#[test]
fn digests_are_lower_case_and_complete() {
    let image = good_bldimg();
    for digest in ["B".repeat(64), "b".repeat(63), "b".repeat(65), "g".repeat(64)] {
        let sections = vec![section(&[("bldimg", &image), ("source_sha256", &digest)])];
        let err = extract_from_sections(&sections).unwrap_err();
        assert!(
            matches!(err, Error::MetaFormat { field: "source_sha256", value, regex } if value == digest && regex == source_sha256_regex())
        );
    }
}

#[test]
fn sections_are_read_from_their_bytes() {
    // One entry in XDR: its kind, and two texts with their lengths and padding.
    let mut data: Vec<u8> = vec![0, 0, 0, 0];
    data.extend([0, 0, 0, 3]);
    data.extend(b"key\0");
    data.extend([0, 0, 0, 200]);
    data.extend([b'v'; 200]);
    let mut wasm = empty_wasm_module();
    // The id, the size and the length of the name, each a number of seven-bit groups.
    let body: usize = 1 + 14 + data.len();
    assert!(body > 127);
    wasm.extend([0, 0x80 | (body % 128) as u8, (body / 128) as u8, 14]);
    wasm.extend(b"contractmetav0");
    wasm.extend(&data);
    wasm.extend([0, 5, 4, b'n', b'a', b'm', b'e']);
    wasm.extend([0, 15, 14]);
    wasm.extend(b"contractmetav0");
    assert_eq!(
        read_meta_sections(&wasm).unwrap(),
        vec![section(&[("key", &"v".repeat(200))]), section(&[])]
    );
}
