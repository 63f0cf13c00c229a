//! The rebuild in a container.

use stellar_contract_verify::container::{
    build_container_command, build_result, collect_release_wasms, compose_build,
    find_rebuilt_wasm, locked_probe_command, name_container, pin_toolchain,
    probe_active_toolchain, probe_supports_locked, pull_image, run_in_container,
    snapshot_preexisting_wasms, toolchain_pinned, toolchain_probe_command, ExitStatus,
};
use stellar_contract_verify::engine::{ContainerArgs, Engine, RunArgs};
use stellar_contract_verify::error::Error;
use stellar_contract_verify::meta::ExtractedMetadata;
use stellar_contract_verify::print::Print;

const ROOT: &str = "/work/src";

fn good_bldimg() -> String {
    format!("docker.io/stellar/stellar-cli@sha256:{}", "a".repeat(64))
}

fn meta_with_bldopts(bldopts: Vec<String>) -> ExtractedMetadata {
    ExtractedMetadata {
        bldimg: good_bldimg(),
        source_uri: Some("https://github.com/foo/bar".to_string()),
        source_sha256: Some("b".repeat(64)),
        bldopts,
        meta_entries: Vec::new(),
    }
}

fn tree(paths: &[&str]) -> Vec<String> {
    let mut all: Vec<String> = vec![ROOT.to_string()];
    for path in paths {
        all.push(format!("{ROOT}/{path}"));
    }
    all
}

fn strings(list: &[&str]) -> Vec<String> {
    list.iter().map(|s| s.to_string()).collect()
}

#[test]
fn build_container_command_replays_meta_in_order_and_forwards_build_flags() {
    let meta_entries = vec![
        ("bldimg".to_string(), good_bldimg()),
        (
            "source_uri".to_string(),
            "https://github.com/foo/bar".to_string(),
        ),
        ("source_sha256".to_string(), "b".repeat(64)),
        ("home_domain".to_string(), "fnando.com".to_string()),
        ("bldopt".to_string(), "--locked".to_string()),
        (
            "bldopt".to_string(),
            "--meta=home_domain=fnando.com".to_string(),
        ),
        ("bldopt".to_string(), "--optimize".to_string()),
        ("bldopt".to_string(), "--env=A=1".to_string()),
        (
            "bldopt".to_string(),
            "--env=B='this is very nice'".to_string(),
        ),
    ];
    let meta = ExtractedMetadata {
        bldimg: good_bldimg(),
        source_uri: Some("https://github.com/foo/bar".to_string()),
        source_sha256: Some("b".repeat(64)),
        bldopts: vec![
            "--locked".to_string(),
            "--meta=home_domain=fnando.com".to_string(),
            "--optimize".to_string(),
            "--env=A=1".to_string(),
            "--env=B='this is very nice'".to_string(),
        ],
        meta_entries: meta_entries.clone(),
    };
    let (cmd, env) = build_container_command(&meta, true);

    assert_eq!(&cmd[..2], &["contract".to_string(), "build".to_string()]);
    assert!(cmd.contains(&"--locked".to_string()));
    assert!(cmd.contains(&"--optimize".to_string()));
    assert!(!cmd.iter().any(|a| a.starts_with("--meta=")));
    assert!(!cmd.iter().any(|a| a.starts_with("--env=")));
    assert_eq!(
        env,
        vec!["A=1".to_string(), "B=this is very nice".to_string()]
    );

    let replayed: Vec<(String, String)> = cmd
        .windows(2)
        .filter(|w| w[0] == "--meta")
        .map(|w| {
            let (k, v) = w[1].split_once('=').unwrap();
            (k.to_string(), v.to_string())
        })
        .collect();
    assert_eq!(replayed, meta_entries);
}

#[test]
fn build_container_command_replays_meta_bldopt_verbatim_without_forwarding() {
    let meta = ExtractedMetadata {
        bldimg: good_bldimg(),
        source_uri: Some("https://github.com/foo/bar".to_string()),
        source_sha256: Some("b".repeat(64)),
        bldopts: vec!["--meta=source_repo='github:LayerZero-Labs/monorepo-external'".to_string()],
        meta_entries: vec![
            (
                "source_repo".to_string(),
                "github:LayerZero-Labs/monorepo-external".to_string(),
            ),
            (
                "bldopt".to_string(),
                "--meta=source_repo='github:LayerZero-Labs/monorepo-external'".to_string(),
            ),
        ],
    };
    let (cmd, _env) = build_container_command(&meta, true);

    assert!(
        !cmd.iter().any(|a| a.starts_with("--meta=")),
        "--meta bldopts must not be forwarded, got {cmd:?}"
    );
    assert!(
        cmd.windows(2).any(|w| w[0] == "--meta"
            && w[1] == "source_repo=github:LayerZero-Labs/monorepo-external"),
        "the standalone meta entry must be replayed, got {cmd:?}"
    );
    assert!(
        cmd.windows(2).any(|w| w[0] == "--meta"
            && w[1] == "bldopt=--meta=source_repo='github:LayerZero-Labs/monorepo-external'"),
        "the bldopt meta must round-trip the escaped original, got {cmd:?}"
    );
}

#[test]
fn build_container_command_injects_locked_when_missing() {
    let meta = ExtractedMetadata {
        bldimg: good_bldimg(),
        source_uri: Some("https://github.com/foo/bar".to_string()),
        source_sha256: Some("b".repeat(64)),
        bldopts: vec!["--meta=author=alice".to_string()],
        meta_entries: vec![
            ("author".to_string(), "alice".to_string()),
            ("bldopt".to_string(), "--meta=author=alice".to_string()),
        ],
    };
    let (cmd, _env) = build_container_command(&meta, true);
    let locked_count: usize = cmd.iter().filter(|s| *s == "--locked").count();
    assert_eq!(
        locked_count, 1,
        "expected exactly one --locked, got {locked_count} in {cmd:?}"
    );
}

#[test]
fn build_container_command_omits_locked_when_unsupported() {
    let meta = ExtractedMetadata {
        bldimg: good_bldimg(),
        source_uri: Some("https://github.com/foo/bar".to_string()),
        source_sha256: Some("b".repeat(64)),
        bldopts: vec!["--optimize".to_string()],
        meta_entries: vec![("bldopt".to_string(), "--optimize".to_string())],
    };
    let (cmd, _env) = build_container_command(&meta, false);
    assert!(
        !cmd.iter().any(|a| a == "--locked"),
        "expected no forwarded --locked in {cmd:?}"
    );
}

#[test]
fn composed_command_is_exact() {
    let (cmd, env) = compose_build(
        &strings(&["--env=A=1", "--optimize", "--meta=k=v", "--env=B=x y", "--package=p"]),
        &vec![
            ("k".to_string(), "v".to_string()),
            ("empty".to_string(), String::new()),
        ],
        true,
    );
    assert_eq!(
        cmd,
        [
            "contract",
            "build",
            "--locked",
            "--optimize",
            "--package=p",
            "--meta",
            "k=v",
            "--meta",
            "empty="
        ]
    );
    assert_eq!(env, ["A=1", "B=x y"]);
}

#[test]
fn options_that_are_not_one_word_stay_as_they_are() {
    let meta = meta_with_bldopts(strings(&["two words", "--open='quote", "", "--env=C='it'\\''s'"]));
    let (cmd, env) = build_container_command(&meta, false);
    assert_eq!(cmd, ["contract", "build", "two words", "--open='quote", ""]);
    assert_eq!(env, ["C=it's"]);
}

#[test]
fn locked_stays_where_it_was() {
    let (cmd, _env) = compose_build(&strings(&["--a", "--locked", "--b"]), &Vec::new(), true);
    assert_eq!(cmd, ["contract", "build", "--a", "--locked", "--b"]);
}

#[test]
fn find_rebuilt_wasm_picks_single() {
    let paths = tree(&["target/wasm32v1-none/release/hello.wasm"]);
    let meta = meta_with_bldopts(vec![]);
    let p = find_rebuilt_wasm(ROOT, &paths, &meta, &Vec::new()).unwrap();
    assert!(p.ends_with("hello.wasm"));
}

#[test]
fn find_rebuilt_wasm_disambiguates_by_package() {
    let paths = tree(&[
        "target/wasm32v1-none/release/hello.wasm",
        "target/wasm32v1-none/release/other_thing.wasm",
    ]);
    let meta = meta_with_bldopts(vec!["--package=other-thing".to_string()]);
    let p = find_rebuilt_wasm(ROOT, &paths, &meta, &Vec::new()).unwrap();
    assert!(p.ends_with("other_thing.wasm"));
}

#[test]
fn find_rebuilt_wasm_errors_when_ambiguous_without_package() {
    let paths = tree(&[
        "target/wasm32v1-none/release/hello.wasm",
        "target/wasm32v1-none/release/other.wasm",
    ]);
    let meta = meta_with_bldopts(vec![]);
    let err = find_rebuilt_wasm(ROOT, &paths, &meta, &Vec::new()).unwrap_err();
    assert!(matches!(err, Error::AmbiguousRebuiltWasm { .. }));
}

#[test]
fn ambiguous_wasms_are_listed() {
    let paths = strings(&[
        "x/wasm32v1-none/release/b.wasm",
        "x/wasm32v1-none/release/a.wasm",
    ]);
    let meta = meta_with_bldopts(vec!["--package=c".to_string()]);
    let err = find_rebuilt_wasm("x", &paths, &meta, &Vec::new()).unwrap_err();
    assert!(
        matches!(err, Error::AmbiguousRebuiltWasm { target, found } if target == "x" && found == "x/wasm32v1-none/release/b.wasm, x/wasm32v1-none/release/a.wasm")
    );
}

#[test]
fn find_rebuilt_wasm_errors_when_none() {
    let paths = tree(&[]);
    let meta = meta_with_bldopts(vec![]);
    let err = find_rebuilt_wasm(ROOT, &paths, &meta, &Vec::new()).unwrap_err();
    assert!(matches!(err, Error::NoRebuiltWasm { .. }));
}

#[test]
fn find_rebuilt_wasm_finds_target_at_workspace_root() {
    let paths = tree(&[
        "target/wasm32v1-none/release/blocked_message_lib.wasm",
        "contracts/message-libs/blocked-message-lib/src",
    ]);
    let meta = meta_with_bldopts(vec![
        "--manifest-path=contracts/message-libs/blocked-message-lib/Cargo.toml".to_string(),
        "--package=blocked-message-lib".to_string(),
    ]);
    let p = find_rebuilt_wasm(ROOT, &paths, &meta, &Vec::new()).unwrap();
    assert!(p.ends_with("blocked_message_lib.wasm"));
}

#[test]
fn find_rebuilt_wasm_finds_relocated_target_dir() {
    let paths = tree(&["custom-out/wasm32-unknown-unknown/release/hello.wasm"]);
    let meta = meta_with_bldopts(vec![]);
    let p = find_rebuilt_wasm(ROOT, &paths, &meta, &Vec::new()).unwrap();
    assert!(p.ends_with("hello.wasm"));
}

#[test]
fn find_rebuilt_wasm_ignores_release_deps_artifacts() {
    let paths = tree(&[
        "target/wasm32v1-none/release/hello.wasm",
        "target/wasm32v1-none/release/deps",
        "target/wasm32v1-none/release/deps/hello-abc123.wasm",
    ]);
    let meta = meta_with_bldopts(vec![]);
    let p = find_rebuilt_wasm(ROOT, &paths, &meta, &Vec::new()).unwrap();
    assert!(p.ends_with("hello.wasm"));
}

#[test]
fn find_rebuilt_wasm_excludes_preexisting_injected_wasm() {
    let paths = tree(&["target/wasm32v1-none/release/hello.wasm"]);
    let injected = format!("{ROOT}/target/wasm32v1-none/release/hello.wasm");

    let preexisting = snapshot_preexisting_wasms(&paths);
    assert!(preexisting.contains(&injected));

    let meta = meta_with_bldopts(vec![]);
    let err = find_rebuilt_wasm(ROOT, &paths, &meta, &preexisting).unwrap_err();
    assert!(matches!(err, Error::NoRebuiltWasm { .. }));
}

#[test]
fn find_rebuilt_wasm_keeps_freshly_built_alongside_preexisting() {
    let preexisting =
        snapshot_preexisting_wasms(&tree(&["target/wasm32v1-none/release/stale.wasm"]));
    let paths = tree(&[
        "target/wasm32v1-none/release/stale.wasm",
        "target/wasm32v1-none/release/hello.wasm",
    ]);
    let meta = meta_with_bldopts(vec![]);
    let p = find_rebuilt_wasm(ROOT, &paths, &meta, &preexisting).unwrap();
    assert!(p.ends_with("hello.wasm"));
}

#[test]
fn planted_wasm_of_the_package_is_not_chosen() {
    let preexisting = snapshot_preexisting_wasms(&tree(&["a/wasm32v1-none/release/my_pkg.wasm"]));
    let paths = tree(&[
        "a/wasm32v1-none/release/my_pkg.wasm",
        "b/wasm32v1-none/release/my_pkg.wasm",
        "b/wasm32v1-none/release/other.wasm",
    ]);
    let meta = meta_with_bldopts(vec!["--package=my-pkg".to_string()]);
    let p = find_rebuilt_wasm(ROOT, &paths, &meta, &preexisting).unwrap();
    assert_eq!(p, format!("{ROOT}/b/wasm32v1-none/release/my_pkg.wasm"));
}

#[test]
fn only_release_wasms_are_collected() {
    let all = strings(&[
        "t/wasm32v1-none/release/a.wasm",
        "t/wasm32v1-none/debug/a.wasm",
        "t/wasm32v1-none/release/a.WASM",
        "t/wasm32v1-none/release/.wasm",
        "t/wasm32v1-none/release/a.wasm.d",
        "t/x86_64-unknown-linux-gnu/release/a.wasm",
        "wasm32-unknown-unknown//release/./b.wasm",
        "release/c.wasm",
    ]);
    assert_eq!(
        collect_release_wasms(&all),
        [
            "t/wasm32v1-none/release/a.wasm",
            "wasm32-unknown-unknown//release/./b.wasm"
        ]
    );
}

fn docker() -> ContainerArgs {
    ContainerArgs {
        docker_host: Some("ssh://host".to_string()),
        engine: None,
    }
}

#[test]
fn probes_run_in_throw_away_containers() {
    assert_eq!(
        locked_probe_command("img", &docker()),
        ["docker", "-H", "ssh://host", "run", "--rm", "img", "contract", "build", "--help"]
    );
    assert_eq!(
        toolchain_probe_command("img", &docker()),
        [
            "docker",
            "-H",
            "ssh://host",
            "run",
            "--rm",
            "--entrypoint",
            "rustup",
            "img",
            "show",
            "active-toolchain"
        ]
    );
}

#[test]
fn help_tells_whether_locked_is_known() {
    let print = Print::new(false);
    let args = docker();
    let help = Ok("Options:\n  --locked  Assert that".to_string());
    assert_eq!(probe_supports_locked(&args, &help, &print), (true, None));
    let help = Ok("error: unknown".to_string());
    assert_eq!(probe_supports_locked(&args, &help, &print), (false, None));
    let (known, warning) = probe_supports_locked(&args, &Err("gone".to_string()), &print);
    assert!(!known);
    assert_eq!(
        warning.unwrap(),
        "⚠️ Could not probe whether the container's `contract build` supports --locked \
         (could not run `docker` (is it installed and on PATH?): gone); building without it"
    );
    let quiet = Print::new(true);
    assert_eq!(
        probe_supports_locked(&args, &Err("gone".to_string()), &quiet),
        (false, None)
    );
}

#[test]
fn toolchain_is_the_first_word() {
    let output = Ok("  1.81.0-x86_64-unknown-linux-gnu (default)\n".to_string());
    assert_eq!(
        probe_active_toolchain(&output).as_deref(),
        Some("1.81.0-x86_64-unknown-linux-gnu")
    );
    assert_eq!(probe_active_toolchain(&Ok(" \n".to_string())), None);
    assert_eq!(probe_active_toolchain(&Err("gone".to_string())), None);
}

#[test]
fn toolchain_is_pinned_once() {
    let mut env = strings(&["A=1"]);
    assert!(!toolchain_pinned(&env));
    pin_toolchain(&mut env, None);
    assert_eq!(env, ["A=1"]);
    pin_toolchain(&mut env, Some("1.81".to_string()));
    assert_eq!(env, ["A=1", "RUSTUP_TOOLCHAIN=1.81"]);
    assert!(toolchain_pinned(&env));
    pin_toolchain(&mut env, Some("1.80".to_string()));
    assert_eq!(env, ["A=1", "RUSTUP_TOOLCHAIN=1.81"]);
}

#[test]
fn run_is_planned_with_a_line_for_the_shell() {
    let plan = run_in_container(
        "img@sha256:0",
        "/src dir",
        &strings(&["contract", "build", "--meta", "k=it's"]),
        &strings(&["A=1", "B=x y"]),
        &docker(),
        &RunArgs {
            cpus: Some(2),
            memory: Some("2g".to_string()),
        },
        "name-1",
    );
    assert_eq!(
        plan.argv,
        [
            "docker",
            "-H",
            "ssh://host",
            "run",
            "--rm",
            "--name",
            "stellar-contract-verify-name-1",
            "--cpus",
            "2",
            "--memory",
            "2g",
            "-v",
            "/src dir:/source",
            "-w",
            "/source",
            "-e",
            "A=1",
            "-e",
            "B=x y",
            "img@sha256:0",
            "contract",
            "build",
            "--meta",
            "k=it's"
        ]
    );
    assert_eq!(
        plan.kill,
        [
            "docker",
            "-H",
            "ssh://host",
            "kill",
            "stellar-contract-verify-name-1"
        ]
    );
    assert_eq!(
        plan.reproduce,
        "docker -H ssh://host run --rm --cpus 2 --memory 2g -e A=1 -e 'B=x y' \
         -v '/src dir:/source' img@sha256:0 contract build --meta 'k=it'\\''s'"
    );
}

#[test]
fn line_for_the_shell_is_harmless() {
    let plan = run_in_container(
        "img\u{1b}[31m",
        "/src",
        &strings(&["a\u{7}b"]),
        &Vec::new(),
        &ContainerArgs {
            docker_host: None,
            engine: Some(Engine::AppleContainer),
        },
        &RunArgs::default(),
        "n",
    );
    assert_eq!(
        plan.reproduce,
        "container run --rm -v /src:/source 'img[31m' 'ab'"
    );
    assert_eq!(plan.argv[0], "container");
}

#[test]
fn line_for_the_shell_can_be_pasted() {
    let plan = run_in_container(
        "ghcr.io/x;`id`$(id)@sha256:0",
        "/w/it's here",
        &strings(&["contract", "build", ""]),
        &strings(&["A=1 2"]),
        &ContainerArgs {
            docker_host: Some("ssh://my host".to_string()),
            engine: None,
        },
        &RunArgs::default(),
        "n",
    );
    assert_eq!(
        plan.reproduce,
        "docker -H 'ssh://my host' run --rm -e 'A=1 2' -v '/w/it'\\''s here:/source' \
         'ghcr.io/x;`id`$(id)@sha256:0' contract build ''"
    );
    assert_eq!(
        shlex::split(&plan.reproduce).unwrap(),
        [
            "docker",
            "-H",
            "ssh://my host",
            "run",
            "--rm",
            "-e",
            "A=1 2",
            "-v",
            "/w/it's here:/source",
            "ghcr.io/x;`id`$(id)@sha256:0",
            "contract",
            "build",
            ""
        ]
    );
}

#[test]
fn pull_is_judged_by_its_status() {
    assert!(pull_image("img", &docker(), Ok(true)).is_ok());
    assert!(matches!(
        pull_image("img", &docker(), Ok(false)),
        Err(Error::PullFailed { image }) if image == "img"
    ));
    assert!(matches!(
        pull_image("img", &docker(), Err("gone".to_string())),
        Err(Error::EngineInvoke { program, source }) if program == "docker" && source == "gone"
    ));
}

#[test]
fn build_is_judged_by_its_status() {
    let end = |success: bool, code: Option<i32>| {
        build_result(
            &docker(),
            "line".to_string(),
            Ok(ExitStatus { success, code }),
        )
    };
    assert!(end(true, Some(0)).is_ok());
    assert!(matches!(
        end(false, Some(101)),
        Err(Error::ContainerExit { status: 101, command }) if command == "line"
    ));
    assert!(matches!(
        end(false, None),
        Err(Error::ContainerExit { status: -1, .. })
    ));
    assert!(matches!(
        build_result(&docker(), "line".to_string(), Err("gone".to_string())),
        Err(Error::EngineInvoke { .. })
    ));
}

#[test]
fn container_is_named_after_the_source() {
    assert_eq!(
        name_container("u", "/d/tmp/verify-src-Ab12/source"),
        "stellar-contract-verify-u-verify-src-Ab12"
    );
    assert_eq!(name_container("u", "source"), "stellar-contract-verify-u");
    assert_eq!(name_container("u", "../source"), "stellar-contract-verify-u");
    let plan = run_in_container(
        "img",
        "/d/tmp/verify-src-Ab12/source",
        &Vec::new(),
        &Vec::new(),
        &docker(),
        &RunArgs::default(),
        "u",
    );
    assert_eq!(plan.argv[5], "--name");
    assert!(plan.argv[6].ends_with("verify-src-Ab12"));
    assert_eq!(plan.kill.last(), plan.argv.get(6));
    assert!(!plan.reproduce.contains("stellar-contract-verify"));
}

#[test]
fn unchanged_tree_has_no_result() {
    let paths = tree(&[
        "a/wasm32v1-none/release/my_pkg.wasm",
        "b/wasm32v1-none/release/other.wasm",
    ]);
    let planted = snapshot_preexisting_wasms(&paths);
    for bldopts in [vec![], vec!["--package=my-pkg".to_string()]] {
        let meta = meta_with_bldopts(bldopts);
        let err = find_rebuilt_wasm(ROOT, &paths, &meta, &planted).unwrap_err();
        assert!(matches!(err, Error::NoRebuiltWasm { target } if target == ROOT));
        let mut more = paths.clone();
        more.push(format!("{ROOT}/c/wasm32v1-none/release/new.wasm"));
        assert_eq!(
            find_rebuilt_wasm(ROOT, &more, &meta, &planted).unwrap(),
            format!("{ROOT}/c/wasm32v1-none/release/new.wasm")
        );
    }
}
