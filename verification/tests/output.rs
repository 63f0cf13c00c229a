//! Lines, questions, shell words, and what an interrupt cleans up.

use stellar_contract_verify::cleanup::{
    clear_container, run, set_container, set_tempdir, State,
};
use stellar_contract_verify::engine::{ContainerArgs, RunArgs};
use stellar_contract_verify::error::Error;
use stellar_contract_verify::meta::ExtractedMetadata;
use stellar_contract_verify::net::{fetch_wasm, fetched_wasm, FetchOutput};
use stellar_contract_verify::print::{failure_line, sanitize, sanitize_lines, Print};
use stellar_contract_verify::shell::{only_word_of, shell_escape, unescape};
use stellar_contract_verify::trust::{require_trust, settle_trust, TrustKind};
use stellar_contract_verify::verify::{compare, judge, Cmd};

fn cli_image() -> String {
    format!("docker.io/stellar/stellar-cli@sha256:{}", "a".repeat(64))
}

fn cmd(quiet: bool, source_uri: Option<&str>) -> Cmd {
    Cmd {
        wasm: None,
        contract_id: None,
        wasm_hash: None,
        network: None,
        source_uri: source_uri.map(String::from),
        trust: false,
        keep: false,
        quiet,
        verbose: false,
        container_args: ContainerArgs::default(),
        run_args: RunArgs::default(),
    }
}

fn meta(source_uri: Option<&str>, bldopts: &[&str]) -> ExtractedMetadata {
    ExtractedMetadata {
        bldimg: "img\u{1b}[0m".to_string(),
        source_uri: source_uri.map(String::from),
        source_sha256: Some("f0".to_string()),
        bldopts: bldopts.iter().map(|s| s.to_string()).collect(),
        meta_entries: Vec::new(),
    }
}

#[test]
fn lines_have_icons() {
    let print = Print::new(false);
    assert_eq!(print.infoln("a").as_deref(), Some("ℹ️ a"));
    assert_eq!(print.checkln("b").as_deref(), Some("✅ b"));
    assert_eq!(print.warnln("c").as_deref(), Some("⚠️ c"));
    assert_eq!(print.blankln("d").as_deref(), Some("   d"));
    assert_eq!(print.question("e").as_deref(), Some("❓ e"));
    let quiet = Print::new(true);
    assert!(quiet.infoln("a").is_none());
    assert!(quiet.checkln("a").is_none());
    assert!(quiet.warnln("a").is_none());
    assert!(quiet.blankln("a").is_none());
    assert!(quiet.question("a").is_none());
}

#[test]
fn control_characters_are_dropped() {
    assert_eq!(sanitize("a\u{1b}[31mb\nc\td\u{7f}\u{9b}é"), "a[31mbcdé");
    assert_eq!(sanitize_lines("a\u{1b}\nb\r\n"), "a\nb\n");
    assert_eq!(sanitize("plain text"), "plain text");
    let once = sanitize("x\u{0}y\u{8}");
    assert_eq!(sanitize(&once), once);
    assert_eq!(
        failure_line("two\nlines\u{1b}]"),
        "❌ two\nlines]"
    );
}

#[test]
fn only_the_cli_image_is_trusted_by_default() {
    assert!(matches!(
        require_trust(false, TrustKind::Bldimg, &cli_image(), false),
        Ok(None)
    ));
    let other = format!("docker.io/other/stellar-cli@sha256:{}", "a".repeat(64));
    assert!(matches!(
        require_trust(false, TrustKind::Bldimg, &other, false),
        Err(Error::TrustRequired { kind: TrustKind::Bldimg, value }) if value == other
    ));
    assert!(matches!(
        require_trust(false, TrustKind::SourceArchive, &cli_image(), false),
        Err(Error::TrustRequired { kind: TrustKind::SourceArchive, .. })
    ));
    assert!(matches!(
        require_trust(true, TrustKind::SourceArchive, "x", false),
        Ok(None)
    ));
    assert!(matches!(
        require_trust(true, TrustKind::Bldimg, &other, true),
        Ok(None)
    ));
}

#[test]
fn trust_is_asked_for_where_somebody_can_answer() {
    let question = require_trust(false, TrustKind::SourceArchive, "https://h/s\u{7}.zip", true)
        .unwrap()
        .unwrap();
    assert_eq!(
        question,
        "❓ Trust the source archive https://h/s.zip? [y/N] "
    );
    for answer in ["y", "Y\n", " yes ", "YES\r\n"] {
        assert!(settle_trust(TrustKind::Bldimg, answer).is_ok());
    }
    for answer in ["", "n", "no", "yep", "y y"] {
        assert!(matches!(
            settle_trust(TrustKind::Bldimg, answer),
            Err(Error::TrustDeclined { kind: TrustKind::Bldimg })
        ));
    }
    assert_eq!(TrustKind::Bldimg.label(), "build image");
}

#[test]
fn words_are_escaped_for_the_shell() {
    assert_eq!(shell_escape("a@%+=:,./-_Z9"), "a@%+=:,./-_Z9");
    assert_eq!(shell_escape(""), "''");
    assert_eq!(shell_escape("a b"), "'a b'");
    assert_eq!(shell_escape("it's"), "'it'\\''s'");
    assert_eq!(shell_escape("é"), "'é'");
}

#[test]
fn escaped_words_read_back() {
    for word in ["", "plain", "a b", "it's", "''", "\\", "\"q\"", "$x `y`", "a\nb", "é#"] {
        assert_eq!(unescape(&shell_escape(word)), word);
        assert_eq!(
            unescape(&format!("--env=X={}", shell_escape(word))),
            format!("--env=X={word}")
        );
    }
    assert_eq!(unescape("--env=B=\"a b\""), "--env=B=a b");
    assert_eq!(unescape("a b"), "a b");
    assert_eq!(unescape("'open"), "'open");
}

#[test]
fn plain_words_are_written_as_they_are() {
    for word in ["a", "--env=X", "a@%+=:,./-_Z9"] {
        assert_eq!(shell_escape(word), word);
    }
    for word in ["", " ", "a b", "it's", "$x", "é", "a\n", "#"] {
        assert_ne!(shell_escape(word), word);
        assert_eq!(shlex::split(&shell_escape(word)).unwrap(), [word]);
    }
}

#[test]
fn only_word_follows_the_split() {
    assert_eq!(only_word_of("t", Some(vec!["w".to_string()])), "w");
    assert_eq!(only_word_of("t", Some(Vec::new())), "t");
    let two = vec!["a".to_string(), "b".to_string()];
    assert_eq!(only_word_of("t", Some(two)), "t");
    assert_eq!(only_word_of("t", None), "t");
}

#[test]
fn wasm_is_fetched_by_the_cli() {
    assert_eq!(
        fetch_wasm(Some("C1"), None, Some("testnet")),
        ["stellar", "contract", "fetch", "--id", "C1", "--network", "testnet"]
    );
    assert_eq!(
        fetch_wasm(None, Some("ab"), None),
        ["stellar", "contract", "fetch", "--wasm-hash", "ab"]
    );
    let output = |success: bool| {
        fetched_wasm(Ok(FetchOutput {
            success,
            stdout: vec![1, 2, 3],
            stderr: " not found\n".to_string(),
        }))
    };
    assert_eq!(output(true).unwrap(), [1, 2, 3]);
    assert!(matches!(
        output(false),
        Err(Error::FetchFailed { stderr }) if stderr == "not found"
    ));
    assert!(matches!(
        fetched_wasm(Err("gone".to_string())),
        Err(Error::StellarInvoke(reason)) if reason == "gone"
    ));
}

#[test]
fn interrupt_kills_and_removes() {
    let mut state = State::default();
    let nothing = run(&state);
    assert!(nothing.kill.is_none() && nothing.remove.is_none());

    set_tempdir(&mut state, "/tmp/x".to_string(), false);
    set_container(&mut state, vec!["docker".to_string(), "kill".to_string()]);
    let both = run(&state);
    assert_eq!(both.kill.unwrap(), ["docker", "kill"]);
    assert_eq!(both.remove.as_deref(), Some("/tmp/x"));

    clear_container(&mut state);
    let ended = run(&state);
    assert!(ended.kill.is_none());
    assert_eq!(ended.remove.as_deref(), Some("/tmp/x"));

    set_tempdir(&mut state, "/tmp/y".to_string(), true);
    set_container(&mut state, Vec::new());
    let kept = run(&state);
    assert!(kept.kill.is_none() && kept.remove.is_none());
}

#[test]
fn ended_container_is_forgotten() {
    let argv = |name: &str| vec!["docker".to_string(), "kill".to_string(), name.to_string()];
    for tempdir_first in [true, false] {
        for keep in [true, false] {
            let mut state = State::default();
            if tempdir_first {
                set_tempdir(&mut state, "/tmp/x".to_string(), keep);
            }
            set_container(&mut state, argv("a"));
            if !tempdir_first {
                set_tempdir(&mut state, "/tmp/x".to_string(), keep);
            }
            for _ in 0..2 {
                clear_container(&mut state);
                let ended = run(&state);
                assert!(ended.kill.is_none());
                assert_eq!(ended.remove.is_some(), !keep);
                assert_eq!(state.tempdir.as_deref(), Some("/tmp/x"));
                assert_eq!(state.keep, keep);
            }
            set_container(&mut state, argv("b"));
            assert_eq!(run(&state).kill.unwrap(), argv("b"));
        }
    }
}

#[test]
fn announcement_tells_where_the_source_comes_from() {
    let uri = Some("https://h/s.tgz");
    assert_eq!(
        cmd(false, None).announce(&meta(uri, &["--locked", "--a\u{7}"])),
        [
            "ℹ️ Build image: img[0m",
            "ℹ️ Source URI: https://h/s.tgz",
            "ℹ️ Source SHA-256: f0",
            "ℹ️ Build options (2):",
            "     • --locked",
            "     • --a"
        ]
    );
    assert_eq!(
        cmd(false, Some("x.zip")).announce(&meta(uri, &[]))[1],
        "ℹ️ Source URI: x.zip (overrides recorded https://h/s.tgz)"
    );
    assert_eq!(
        cmd(false, Some("x.zip")).announce(&meta(None, &[]))[1],
        "ℹ️ Source URI: x.zip (override)"
    );
    assert_eq!(
        cmd(false, None).announce(&meta(None, &[]))[1],
        "ℹ️ Source SHA-256: f0"
    );
    assert!(cmd(true, None).announce(&meta(uri, &["--a"])).is_empty());
}

#[test]
fn given_source_is_effective() {
    let recorded = meta(Some("r"), &[]);
    assert_eq!(
        cmd(false, Some("g")).effective_source_uri(&recorded).as_deref(),
        Some("g")
    );
    assert_eq!(
        cmd(false, None).effective_source_uri(&recorded).as_deref(),
        Some("r")
    );
    assert_eq!(
        cmd(false, None).effective_source_uri(&meta(None, &[])),
        None
    );
}

#[test]
fn verdict_compares_digests_and_sizes() {
    assert_eq!(
        compare(b"abc", b"abc").unwrap(),
        "Verified: 3 bytes, \
         sha256=ba7816bf8f01cfea414140de5dae2223b00361a396177a9cb410ff61f20015ad"
    );
    let empty = "e3b0c44298fc1c149afbf4c8996fb92427ae41e4649b934ca495991b7852b855";
    assert!(matches!(
        compare(b"abc", b""),
        Err(Error::VerificationMismatch {
            original_size: 3,
            rebuilt_hash,
            rebuilt_size: 0,
            ..
        }) if rebuilt_hash == empty
    ));
    assert!(judge("h".to_string(), 1, "h".to_string(), 2).is_err());
    assert!(judge("h".to_string(), 1, "g".to_string(), 1).is_err());
    assert_eq!(
        judge("h".to_string(), 1, "h".to_string(), 1).unwrap(),
        "Verified: 1 bytes, sha256=h"
    );
}
