//! Whole runs, from the command to the verdict.

use std::io::Cursor;

use stellar_contract_verify::cleanup;
use stellar_contract_verify::container::ExitStatus;
use stellar_contract_verify::digest::hex_digest;
use stellar_contract_verify::engine::{ContainerArgs, Engine, RunArgs, TextOutput};
use stellar_contract_verify::error::Error;
use stellar_contract_verify::net::FetchOutput;
use stellar_contract_verify::session::{Action, Event, Progress, Session, UnpackFault};
use stellar_contract_verify::source::ArchiveFormat;
use stellar_contract_verify::trust::TrustKind;
use stellar_contract_verify::verify::Cmd;
use stellar_xdr::{Limited, Limits, ScMetaEntry, ScMetaV0, WriteXdr};

const ARCHIVE: &[u8] = b"the source";
const SOURCE: &str = "/data/tmp/verify-src-1/source";
const NAME: &str = "stellar-contract-verify-box-1-verify-src-1";

fn image() -> String {
    format!("docker.io/stellar/stellar-cli@sha256:{}", "a".repeat(64))
}

fn wasm_with(entries: &[(&str, &str)]) -> Vec<u8> {
    let mut buf: Vec<u8> = Vec::new();
    let mut writer = Limited::new(Cursor::new(&mut buf), Limits::none());
    for (k, v) in entries {
        ScMetaEntry::ScMetaV0(ScMetaV0 {
            key: (*k).to_string().try_into().unwrap(),
            val: (*v).to_string().try_into().unwrap(),
        })
        .write_xdr(&mut writer)
        .unwrap();
    }
    let mut wasm: Vec<u8> = vec![0x00, 0x61, 0x73, 0x6d, 0x01, 0x00, 0x00, 0x00];
    wasm_gen::write_custom_section(&mut wasm, "contractmetav0", &buf);
    wasm
}

fn contract() -> Vec<u8> {
    wasm_with(&[
        ("cliver", "27.0.0"),
        ("bldimg", &image()),
        ("source_uri", "https://example.com/src.tar.gz"),
        ("source_sha256", &hex_digest(ARCHIVE)),
        ("bldopt", "--optimize"),
    ])
}

fn cmd() -> Cmd {
    Cmd {
        wasm: Some("c.wasm".to_string()),
        contract_id: None,
        wasm_hash: None,
        network: None,
        source_uri: None,
        trust: true,
        keep: false,
        quiet: false,
        verbose: false,
        container_args: ContainerArgs {
            docker_host: None,
            engine: Some(Engine::Docker),
        },
        run_args: RunArgs::default(),
    }
}

fn text(stdout: &str) -> Event {
    Event::Output(Ok(TextOutput {
        success: true,
        stdout: stdout.to_string(),
    }))
}

fn bytes(contents: &[u8]) -> Event {
    Event::Bytes(Ok(contents.to_vec()))
}

fn exit(success: bool, code: i32) -> Event {
    Event::Exit(Ok(ExitStatus {
        success,
        code: Some(code),
    }))
}

fn walked(paths: &[&str]) -> Event {
    Event::Walked(paths.iter().map(|p| p.to_string()).collect())
}

fn failure(progress: Progress) -> Error {
    match progress.action {
        Action::Finish {
            result: Err(e),
            kept: _,
        } => e,
        _ => panic!("the run goes on"),
    }
}

/// Hands over the events one after the other; the last turn is returned.
fn play(session: &mut Session, events: Vec<Event>) -> Progress {
    let mut last: Progress = Progress {
        lines: Vec::new(),
        action: Action::Ignore,
    };
    for event in events {
        last = session.advance(event, "box-1");
        assert!(!matches!(last.action, Action::Ignore));
    }
    last
}

/// The events up to the unpacked source.
fn unpacked() -> Vec<Event> {
    vec![
        bytes(&contract()),
        bytes(ARCHIVE),
        text("/data\n"),
        Event::Unpacked(Ok("/data/tmp/verify-src-1".to_string())),
    ]
}

/// The events up to the running build.
fn built() -> Vec<Event> {
    let mut events = unpacked();
    events.push(exit(true, 0));
    events.push(text("--locked"));
    events.push(Event::Listed(Ok(vec![SOURCE.to_string()])));
    events.push(walked(&["/data/tmp/verify-src-1/source/Cargo.toml"]));
    events.push(text("1.81.0 (default)\n"));
    events
}

/// The events up to the rebuilt WASM.
fn collected() -> Vec<Event> {
    let mut events = built();
    events.push(exit(true, 0));
    events.push(walked(&["/data/tmp/verify-src-1/source/target/wasm32v1-none/release/c.wasm"]));
    events
}

#[test]
fn verified_run_from_start_to_end() {
    let (mut session, start) = cmd().run(false);
    assert!(start.lines.is_empty());
    assert!(matches!(start.action, Action::Read { path } if path == "c.wasm"));

    let turn = session.advance(bytes(&contract()), "");
    assert_eq!(turn.lines.len(), 6);
    assert_eq!(turn.lines[0], format!("ℹ️ Build image: {}", image()));
    assert_eq!(
        turn.lines[5],
        "ℹ️ Fetching source code from https://example.com/src.tar.gz"
    );
    assert!(
        matches!(turn.action, Action::Download { url } if url == "https://example.com/src.tar.gz")
    );

    let turn = session.advance(bytes(ARCHIVE), "");
    assert_eq!(turn.lines, ["✅ Source SHA-256 matches"]);
    assert!(
        matches!(turn.action, Action::Capture { argv } if argv == ["stellar", "cache", "path"])
    );

    let turn = session.advance(text("/data\n"), "");
    match turn.action {
        Action::Unpack {
            data_dir,
            prefix,
            format,
            archive,
        } => {
            assert_eq!(data_dir, "/data");
            assert_eq!(prefix, "verify-src-");
            assert_eq!(format, ArchiveFormat::TarGz);
            assert_eq!(archive, ARCHIVE);
        }
        _ => panic!("the archive is unpacked"),
    }
    assert!(cleanup::run(session.cleanup()).remove.is_none());

    let turn = session.advance(Event::Unpacked(Ok("/data/tmp/verify-src-1".to_string())), "");
    assert_eq!(
        turn.lines,
        [
            "✅ Source materialized at /data/tmp/verify-src-1".to_string(),
            format!("ℹ️ Pulling image {}", image())
        ]
    );
    assert!(
        matches!(turn.action, Action::Run { argv, show: true } if argv == ["docker".to_string(), "pull".to_string(), image()])
    );
    assert_eq!(
        cleanup::run(session.cleanup()).remove.as_deref(),
        Some("/data/tmp/verify-src-1")
    );

    let turn = session.advance(exit(true, 0), "");
    assert!(matches!(turn.action, Action::Capture { argv } if argv.ends_with(&["--help".to_string()])));

    let turn = session.advance(text("Usage: --locked"), "");
    assert!(turn.lines.is_empty());
    assert!(matches!(turn.action, Action::List { path } if path == "/data/tmp/verify-src-1"));

    let turn = session.advance(Event::Listed(Ok(vec![SOURCE.to_string()])), "");
    assert!(matches!(turn.action, Action::Walk { path } if path == "/data/tmp/verify-src-1/source"));

    let turn = session.advance(walked(&["/data/tmp/verify-src-1/source/old/wasm32v1-none/release/c.wasm"]), "");
    assert_eq!(
        turn.lines,
        [
            "⚠️ Ignoring 1 pre-existing WASM artifact(s) in the source; only freshly rebuilt \
             output is trusted"
        ]
    );
    assert!(
        matches!(turn.action, Action::Capture { argv } if argv.ends_with(&["active-toolchain".to_string()]))
    );

    let turn = session.advance(text("1.81.0 (default)\n"), "box-1");
    assert_eq!(
        turn.lines,
        [format!(
            "ℹ️ Running verifiable build in {} (mount /data/tmp/verify-src-1/source:/source)",
            image()
        )]
    );
    match turn.action {
        Action::Run { argv, show } => {
            assert!(!show);
            assert_eq!(
                argv[..11],
                [
                    "docker",
                    "run",
                    "--rm",
                    "--name",
                    NAME,
                    "-v",
                    "/data/tmp/verify-src-1/source:/source",
                    "-w",
                    "/source",
                    "-e",
                    "RUSTUP_TOOLCHAIN=1.81.0"
                ]
            );
            assert_eq!(argv[11], image());
            assert_eq!(argv[12..16], ["contract", "build", "--locked", "--optimize"]);
            assert_eq!(argv.len(), 16 + 2 * 4);
        }
        _ => panic!("the build runs"),
    }
    assert_eq!(
        cleanup::run(session.cleanup()).kill.unwrap(),
        ["docker", "kill", NAME]
    );

    let turn = session.advance(exit(true, 0), "");
    assert!(matches!(turn.action, Action::Walk { path } if path == "/data/tmp/verify-src-1/source"));
    assert!(cleanup::run(session.cleanup()).kill.is_none());

    let turn = session.advance(
        walked(&[
            "/data/tmp/verify-src-1/source/old/wasm32v1-none/release/c.wasm",
            "/data/tmp/verify-src-1/source/target/wasm32v1-none/release/c.wasm",
        ]),
        "",
    );
    assert!(
        matches!(turn.action, Action::Read { path } if path == "/data/tmp/verify-src-1/source/target/wasm32v1-none/release/c.wasm")
    );

    let turn = session.advance(bytes(&contract()), "");
    assert_eq!(
        turn.lines,
        [format!(
            "✅ Verified: {} bytes, sha256={}",
            contract().len(),
            hex_digest(&contract())
        )]
    );
    assert!(matches!(
        turn.action,
        Action::Finish {
            result: Ok(()),
            kept: None
        }
    ));

    let turn = session.advance(bytes(&contract()), "");
    assert!(turn.lines.is_empty());
    assert!(matches!(turn.action, Action::Ignore));
}

#[test]
fn container_of_a_step_gets_a_random_name() {
    let mut names: Vec<String> = Vec::new();
    for _ in 0..2 {
        let (mut session, _) = cmd().run(false);
        let mut turn: Progress = Progress {
            lines: Vec::new(),
            action: Action::Ignore,
        };
        for event in built() {
            turn = session.step(event);
        }
        match turn.action {
            Action::Run { argv, .. } => {
                let uuid = argv[4]
                    .strip_prefix("stellar-contract-verify-")
                    .and_then(|rest| rest.strip_suffix("-verify-src-1"))
                    .unwrap();
                assert_eq!(uuid.len(), 36);
                for (i, c) in uuid.chars().enumerate() {
                    match i {
                        8 | 13 | 18 | 23 => assert_eq!(c, '-'),
                        14 => assert_eq!(c, '4'),
                        19 => assert!("89ab".contains(c)),
                        _ => assert!("0123456789abcdef".contains(c)),
                    }
                }
                names.push(argv[4].clone());
                assert_eq!(
                    cleanup::run(session.cleanup()).kill.unwrap(),
                    ["docker".to_string(), "kill".to_string(), argv[4].clone()]
                );
            }
            _ => panic!("the build runs"),
        }
    }
    assert_ne!(names[0], names[1]);
}

#[test]
fn rebuilt_wasm_that_differs_is_reported() {
    let (mut session, _) = cmd().run(false);
    play(&mut session, collected());
    let e = failure(session.advance(bytes(b"other"), ""));
    assert!(matches!(
        e,
        Error::VerificationMismatch { original_size, rebuilt_size: 5, original_hash, rebuilt_hash }
            if original_size == contract().len()
                && original_hash == hex_digest(&contract())
                && rebuilt_hash == hex_digest(b"other")
    ));
}

#[test]
fn quiet_run_tells_the_verdict_only() {
    let mut quiet = cmd();
    quiet.quiet = true;
    quiet.verbose = true;
    let (mut session, start) = quiet.run(false);
    assert!(start.lines.is_empty());
    for event in collected() {
        let turn = session.advance(event, "box-1");
        assert!(turn.lines.is_empty());
        if let Action::Run { show, .. } = turn.action {
            assert!(!show);
        }
    }
    let turn = session.advance(bytes(&contract()), "");
    assert_eq!(turn.lines.len(), 1);
    assert!(turn.lines[0].starts_with("✅ Verified: "));
}

#[test]
fn verbose_run_tells_the_command() {
    let mut verbose = cmd();
    verbose.verbose = true;
    let (mut session, _) = verbose.run(false);
    let turn = play(&mut session, built());
    assert_eq!(turn.lines.len(), 2);
    assert!(turn.lines[1].starts_with("ℹ️ Running: docker run --rm -e RUSTUP_TOOLCHAIN=1.81.0 "));
    assert!(matches!(turn.action, Action::Run { show: true, .. }));
}

#[test]
fn kept_directory_is_reported_whatever_the_outcome() {
    let mut keep = cmd();
    keep.keep = true;
    keep.quiet = true;
    let (mut session, _) = keep.run(false);
    play(&mut session, unpacked());
    assert!(cleanup::run(session.cleanup()).remove.is_none());
    let turn = session.advance(exit(false, 1), "");
    assert_eq!(
        turn.lines,
        ["ℹ️ Kept build directory at /data/tmp/verify-src-1"]
    );
    assert!(matches!(
        turn.action,
        Action::Finish { result: Err(Error::PullFailed { .. }), kept: Some(path) } if path == "/data/tmp/verify-src-1"
    ));
}

#[test]
fn kept_run_tells_where_the_wasm_is() {
    let mut keep = cmd();
    keep.keep = true;
    let (mut session, _) = keep.run(false);
    play(&mut session, collected());
    let turn = session.advance(bytes(&contract()), "");
    assert_eq!(turn.lines.len(), 3);
    assert_eq!(
        turn.lines[0],
        "ℹ️ Rebuilt WASM at /data/tmp/verify-src-1/source/target/wasm32v1-none/release/c.wasm"
    );
    assert_eq!(
        turn.lines[2],
        "ℹ️ Kept build directory at /data/tmp/verify-src-1"
    );
}

#[test]
fn default_engine_is_asked_for_first() {
    let mut undecided = cmd();
    undecided.container_args.engine = None;
    undecided.container_args.docker_host = Some("ssh://h".to_string());
    let (mut session, start) = undecided.run(false);
    assert!(
        matches!(start.action, Action::Capture { argv } if argv == ["stellar", "env", "STELLAR_CONTAINER_ENGINE"])
    );
    let turn = session.advance(text("apple-container\n"), "");
    assert!(matches!(turn.action, Action::Read { .. }));
    let turn = play(&mut session, unpacked());
    assert_eq!(turn.lines.len(), 3);
    assert!(turn.lines[1].starts_with("⚠️ `--docker-host`"));
    assert!(
        matches!(turn.action, Action::Run { argv, .. } if argv[..3] == ["container", "image", "pull"])
    );
}

#[test]
fn input_is_needed() {
    let mut none = cmd();
    none.wasm = None;
    let (_, start) = none.run(false);
    assert!(matches!(failure(start), Error::MissingInput));
}

#[test]
fn wasm_comes_from_the_network() {
    let mut by_id = cmd();
    by_id.wasm = None;
    by_id.contract_id = Some("C1".to_string());
    by_id.network = Some("testnet".to_string());
    let (mut session, start) = by_id.run(false);
    assert_eq!(
        start.lines,
        ["ℹ️ Fetching WASM from the network via `stellar contract fetch`"]
    );
    assert!(
        matches!(start.action, Action::Fetch { argv } if argv == ["stellar", "contract", "fetch", "--id", "C1", "--network", "testnet"])
    );
    let turn = session.advance(
        Event::Fetched(Ok(FetchOutput {
            success: true,
            stdout: contract(),
            stderr: String::new(),
        })),
        "",
    );
    assert!(matches!(turn.action, Action::Download { .. }));
}

#[test]
fn fetch_can_fail() {
    let by_hash = || {
        let mut by_hash = cmd();
        by_hash.wasm = None;
        by_hash.wasm_hash = Some("ab".to_string());
        by_hash
    };
    let (mut session, _) = by_hash().run(false);
    let e = failure(session.advance(Event::Fetched(Err("gone".to_string())), ""));
    assert!(matches!(e, Error::StellarInvoke(reason) if reason == "gone"));
    let (mut session, _) = by_hash().run(false);
    let e = failure(session.advance(
        Event::Fetched(Ok(FetchOutput {
            success: false,
            stdout: Vec::new(),
            stderr: "no\n".to_string(),
        })),
        "",
    ));
    assert!(matches!(e, Error::FetchFailed { stderr } if stderr == "no"));
}

#[test]
fn local_wasm_can_be_unreadable() {
    let (mut session, _) = cmd().run(false);
    let e = failure(session.advance(Event::Bytes(Err("gone".to_string())), ""));
    assert!(matches!(e, Error::ReadWasm(path, reason) if path == "c.wasm" && reason == "gone"));
    let (mut session, _) = cmd().run(false);
    let e = failure(session.advance(bytes(b"no wasm"), ""));
    assert!(matches!(e, Error::MetaParse(_)));
}

#[test]
fn missing_source_ends_the_run_before_any_question() {
    let mut asked = cmd();
    asked.trust = false;
    let (mut session, _) = asked.run(true);
    let wasm = wasm_with(&[
        ("bldimg", &format!("ghcr.io/x@sha256:{}", "b".repeat(64))),
        ("source_sha256", &"c".repeat(64)),
    ]);
    let turn = session.advance(bytes(&wasm), "");
    assert_eq!(turn.lines.len(), 2);
    assert!(matches!(failure(turn), Error::SourceUriRequired));
}

#[test]
fn both_the_image_and_the_source_are_asked_for() {
    let wasm = wasm_with(&[
        ("bldimg", &format!("ghcr.io/x@sha256:{}", "b".repeat(64))),
        ("source_uri", "https://example.com/src.zip"),
        ("source_sha256", &"c".repeat(64)),
    ]);
    let asked = || {
        let mut asked = cmd();
        asked.trust = false;
        asked
    };
    let (mut session, _) = asked().run(true);
    let turn = session.advance(bytes(&wasm), "");
    assert!(
        matches!(turn.action, Action::Ask { question } if question.starts_with("❓ Trust the build image ghcr.io/x@"))
    );
    let turn = session.advance(Event::Answer(Ok("y\n".to_string())), "");
    assert!(
        matches!(turn.action, Action::Ask { question } if question == "❓ Trust the source archive https://example.com/src.zip? [y/N] ")
    );
    let turn = session.advance(Event::Answer(Ok("yes".to_string())), "");
    assert!(matches!(turn.action, Action::Download { .. }));

    let (mut session, _) = asked().run(true);
    session.advance(bytes(&wasm), "");
    let e = failure(session.advance(Event::Answer(Ok("n".to_string())), ""));
    assert!(matches!(
        e,
        Error::TrustDeclined {
            kind: TrustKind::Bldimg
        }
    ));

    let (mut session, _) = asked().run(true);
    session.advance(bytes(&wasm), "");
    session.advance(Event::Answer(Ok("y".to_string())), "");
    let e = failure(session.advance(Event::Answer(Ok(String::new())), ""));
    assert!(matches!(
        e,
        Error::TrustDeclined {
            kind: TrustKind::SourceArchive
        }
    ));

    let (mut session, _) = asked().run(true);
    session.advance(bytes(&wasm), "");
    let e = failure(session.advance(Event::Answer(Err("closed".to_string())), ""));
    assert!(matches!(e, Error::Stdin(reason) if reason == "closed"));
}

#[test]
fn unattended_run_needs_trust() {
    let mut untrusting = cmd();
    untrusting.trust = false;
    let (mut session, _) = untrusting.run(false);
    let e = failure(session.advance(bytes(&contract()), ""));
    assert!(matches!(
        e,
        Error::TrustRequired { kind: TrustKind::SourceArchive, value } if value == "https://example.com/src.tar.gz"
    ));
}

#[test]
fn given_source_is_read_from_its_file() {
    let mut local = cmd();
    local.source_uri = Some("/tmp/my.zip".to_string());
    let (mut session, _) = local.run(false);
    let turn = session.advance(bytes(&contract()), "");
    assert!(matches!(turn.action, Action::Read { path } if path == "/tmp/my.zip"));
    let e = failure(session.advance(Event::Bytes(Err("gone".to_string())), ""));
    assert!(matches!(e, Error::SourceRead { path, .. } if path == "/tmp/my.zip"));

    let mut odd = cmd();
    odd.source_uri = Some("/tmp/my.rar".to_string());
    let (mut session, _) = odd.run(false);
    let e = failure(session.advance(bytes(&contract()), ""));
    assert!(matches!(e, Error::UnsupportedSourceFormat { uri, .. } if uri == "/tmp/my.rar"));
}

#[test]
fn archive_that_is_not_the_recorded_one_is_not_unpacked() {
    let (mut session, _) = cmd().run(false);
    session.advance(bytes(&contract()), "");
    let e = failure(session.advance(bytes(b"another source"), ""));
    assert!(matches!(
        e,
        Error::SourceHashMismatch { expected, actual } if expected == hex_digest(ARCHIVE) && actual == hex_digest(b"another source")
    ));
    let (mut session, _) = cmd().run(false);
    session.advance(bytes(&contract()), "");
    let e = failure(session.advance(Event::Bytes(Err("404".to_string())), ""));
    assert!(matches!(e, Error::SourceDownload { source, .. } if source == "404"));
}

#[test]
fn unpacking_can_fail() {
    let start = || {
        let (mut session, _) = cmd().run(false);
        play(&mut session, vec![bytes(&contract()), bytes(ARCHIVE)]);
        session
    };
    let mut session = start();
    assert!(matches!(
        failure(session.advance(text("\n"), "")),
        Error::DataDir
    ));
    let mut session = start();
    session.advance(text("/data"), "");
    let fault = UnpackFault::Zip("bad zip".to_string());
    let e = failure(session.advance(Event::Unpacked(Err(fault)), ""));
    assert!(matches!(e, Error::ZipExtract(reason) if reason == "bad zip"));
    let mut session = start();
    session.advance(text("/data"), "");
    let fault = UnpackFault::Archive("full".to_string());
    let e = failure(session.advance(Event::Unpacked(Err(fault)), ""));
    assert!(matches!(e, Error::ArchiveExtract(reason) if reason == "full"));
}

#[test]
fn engine_can_be_missing() {
    let (mut session, _) = cmd().run(false);
    play(&mut session, unpacked());
    let e = failure(session.advance(Event::Exit(Err("gone".to_string())), ""));
    assert!(matches!(e, Error::EngineInvoke { program, .. } if program == "docker"));

    let (mut session, _) = cmd().run(false);
    play(&mut session, built());
    let e = failure(session.advance(Event::Exit(Err("gone".to_string())), ""));
    assert!(matches!(e, Error::EngineInvoke { .. }));
    assert!(cleanup::run(session.cleanup()).kill.is_some());
}

#[test]
fn unknown_options_are_warned_about() {
    let (mut session, _) = cmd().run(false);
    play(&mut session, unpacked());
    session.advance(exit(true, 0), "");
    let turn = session.advance(Event::Output(Err("gone".to_string())), "");
    assert_eq!(turn.lines.len(), 1);
    assert!(turn.lines[0].starts_with("⚠️ Could not probe whether"));
    session.advance(Event::Listed(Ok(vec!["/w".to_string()])), "");
    session.advance(walked(&[]), "");
    let turn = session.advance(Event::Output(Err("gone".to_string())), "n");
    assert!(
        matches!(turn.action, Action::Run { argv, .. } if !argv.contains(&"--locked".to_string()) && !argv.contains(&"-e".to_string()))
    );
}

#[test]
fn source_must_be_one_directory() {
    let (mut session, _) = cmd().run(false);
    play(&mut session, unpacked());
    play(&mut session, vec![exit(true, 0), text("")]);
    let e = failure(session.advance(Event::Listed(Ok(Vec::new())), ""));
    assert!(matches!(
        e,
        Error::SourceArchiveLayout { path, count: 0 } if path == "/data/tmp/verify-src-1"
    ));
    let (mut session, _) = cmd().run(false);
    play(&mut session, unpacked());
    play(&mut session, vec![exit(true, 0), text("")]);
    let e = failure(session.advance(Event::Listed(Err("gone".to_string())), ""));
    assert!(matches!(e, Error::SourceExtract { .. }));
}

#[test]
fn pinned_toolchain_is_not_asked_for() {
    let (mut session, _) = cmd().run(false);
    let wasm = wasm_with(&[
        ("bldimg", &image()),
        ("source_uri", "https://example.com/src.tar.gz"),
        ("source_sha256", &hex_digest(ARCHIVE)),
        ("bldopt", "--env=RUSTUP_TOOLCHAIN=1.79"),
    ]);
    let mut events = vec![bytes(&wasm)];
    events.extend(unpacked().into_iter().skip(1));
    play(&mut session, events);
    play(
        &mut session,
        vec![
            exit(true, 0),
            text(""),
            Event::Listed(Ok(vec!["/w".to_string()])),
        ],
    );
    let turn = session.advance(walked(&[]), "n");
    assert!(
        matches!(turn.action, Action::Run { argv, .. } if argv.contains(&"RUSTUP_TOOLCHAIN=1.79".to_string()))
    );
}

#[test]
fn failed_build_tells_how_to_reproduce_it() {
    let (mut session, _) = cmd().run(false);
    play(&mut session, built());
    let e = failure(session.advance(exit(false, 101), ""));
    assert!(
        matches!(e, Error::ContainerExit { status: 101, command } if command.starts_with("docker run --rm -e RUSTUP_TOOLCHAIN=1.81.0 -v /data/tmp/verify-src-1/source:/source "))
    );
    assert!(cleanup::run(session.cleanup()).kill.is_none());
}

#[test]
fn build_must_leave_one_wasm() {
    let end = |paths: &[&str]| {
        let (mut session, _) = cmd().run(false);
        play(&mut session, built());
        session.advance(exit(true, 0), "");
        failure(session.advance(walked(paths), ""))
    };
    assert!(matches!(
        end(&["/data/tmp/verify-src-1/source/Cargo.toml"]),
        Error::NoRebuiltWasm { target } if target == "/data/tmp/verify-src-1/source"
    ));
    assert!(matches!(
        end(&[
            "/data/tmp/verify-src-1/source/t/wasm32v1-none/release/a.wasm",
            "/data/tmp/verify-src-1/source/t/wasm32v1-none/release/b.wasm"
        ]),
        Error::AmbiguousRebuiltWasm { .. }
    ));
}

#[test]
fn rebuilt_wasm_can_be_unreadable() {
    let (mut session, _) = cmd().run(false);
    play(&mut session, collected());
    let e = failure(session.advance(Event::Bytes(Err("gone".to_string())), ""));
    assert!(
        matches!(e, Error::ReadRebuilt { path, source } if path.ends_with("c.wasm") && source == "gone")
    );
}

#[test]
fn events_that_are_not_awaited_change_nothing() {
    let (mut session, _) = cmd().run(false);
    for event in [
        text("x"),
        exit(true, 0),
        walked(&[]),
        Event::Answer(Ok("y".to_string())),
        Event::Listed(Ok(Vec::new())),
        Event::Unpacked(Ok("/x".to_string())),
        Event::Fetched(Err("x".to_string())),
    ] {
        let turn = session.advance(event, "");
        assert!(turn.lines.is_empty());
        assert!(matches!(turn.action, Action::Ignore));
    }
    let turn = session.advance(bytes(&contract()), "");
    assert!(matches!(turn.action, Action::Download { .. }));
}

#[test]
fn control_characters_are_not_written() {
    let (mut session, _) = {
        let mut loud = cmd();
        loud.verbose = true;
        loud.keep = true;
        loud.source_uri = Some("https://h/\u{1b}[2Jx.tar.gz".to_string());
        loud.run(false)
    };
    let wasm = wasm_with(&[
        ("bldimg", &image()),
        ("source_sha256", &hex_digest(ARCHIVE)),
        ("bldopt", "--env=A=\u{1b}"),
    ]);
    let turn = session.advance(bytes(&wasm), "");
    assert_eq!(
        turn.lines.last().unwrap(),
        "ℹ️ Fetching source code from https://h/[2Jx.tar.gz"
    );
    assert!(
        matches!(turn.action, Action::Download { url } if url == "https://h/\u{1b}[2Jx.tar.gz")
    );
    let events = vec![
        bytes(ARCHIVE),
        text("/data"),
        Event::Unpacked(Ok("/data/tmp/x".to_string())),
        exit(true, 0),
        text("--locked\u{1b}"),
        Event::Listed(Ok(vec!["/w/\u{1b}s".to_string()])),
        walked(&["/w/\u{1b}s/old/wasm32v1-none/release/c.wasm"]),
        text("1.81\u{1b}"),
        exit(true, 0),
        walked(&["/w/\u{1b}s/t/wasm32v1-none/release/\u{7}c.wasm"]),
        bytes(&wasm),
    ];
    let mut written: Vec<String> = Vec::new();
    for event in events {
        written.extend(session.advance(event, "box-1").lines);
    }
    assert!(written.iter().any(|l| l.ends_with("(mount /w/s:/source)")));
    assert!(written
        .iter()
        .any(|l| l == "ℹ️ Rebuilt WASM at /w/s/t/wasm32v1-none/release/c.wasm"));
    assert!(written.iter().any(|l| l.starts_with("✅ Verified: ")));
    assert!(!written
        .iter()
        .any(|l| l.chars().any(|c| c.is_control())));
}
