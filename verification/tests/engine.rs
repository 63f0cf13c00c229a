//! The choice of an engine and the commands that it takes.

use stellar_contract_verify::engine::{ContainerArgs, Engine, RunArgs, TextOutput};
use stellar_contract_verify::error::Error;
use stellar_contract_verify::print::Print;

fn args(docker_host: Option<&str>, engine: Option<Engine>) -> ContainerArgs {
    ContainerArgs {
        docker_host: docker_host.map(String::from),
        engine,
    }
}

fn answer(stdout: &str) -> Result<TextOutput, String> {
    Ok(TextOutput {
        success: true,
        stdout: stdout.to_string(),
    })
}

#[test]
fn engine_defaults_to_docker() {
    assert_eq!(args(None, None).engine(), Engine::Docker);
    assert_eq!(
        args(None, Some(Engine::AppleContainer)).engine(),
        Engine::AppleContainer
    );
}

#[test]
fn docker_pull_uses_bare_pull() {
    let argv = args(None, None).pull_command("img:tag");
    assert_eq!(argv[0], "docker");
    assert_eq!(argv[1..], ["pull", "img:tag"]);
}

#[test]
fn apple_pull_uses_image_pull_and_ignores_host() {
    let argv = args(Some("ssh://host"), Some(Engine::AppleContainer)).pull_command("img:tag");
    assert_eq!(argv[0], "container");
    assert_eq!(argv[1..], ["image", "pull", "img:tag"]);
}

#[test]
fn docker_base_command_passes_host_as_h_flag() {
    let argv = args(Some("ssh://host"), None).base_command();
    assert_eq!(argv[0], "docker");
    assert_eq!(argv[1..], ["-H", "ssh://host"]);
}

#[test]
fn apple_base_command_omits_host() {
    let argv = args(Some("ssh://host"), Some(Engine::AppleContainer)).base_command();
    assert_eq!(argv[0], "container");
    assert!(argv[1..].is_empty());
}

#[test]
fn reproduce_prefix_reflects_engine_and_host() {
    assert_eq!(args(None, None).reproduce_prefix(), "docker");
    assert_eq!(
        args(Some("ssh://host"), None).reproduce_prefix(),
        "docker -H ssh://host"
    );
    assert_eq!(
        args(Some("ssh://host"), Some(Engine::AppleContainer)).reproduce_prefix(),
        "container"
    );
}

#[test]
fn reproduce_prefix_is_escaped() {
    assert_eq!(
        args(Some("ssh://a b"), None).reproduce_prefix(),
        "docker -H 'ssh://a b'"
    );
}

#[test]
fn host_ignored_warning_only_for_non_docker() {
    let quiet = Print::new(true);
    assert!(
        args(Some("ssh://host"), Some(Engine::AppleContainer))
            .warn_if_host_ignored(&quiet)
            .is_none()
    );
    assert!(
        args(Some("ssh://host"), None)
            .warn_if_host_ignored(&quiet)
            .is_none()
    );
}

#[test]
fn host_ignored_warning_names_the_engine() {
    let print = Print::new(false);
    assert_eq!(
        args(Some("ssh://host"), Some(Engine::AppleContainer)).warn_if_host_ignored(&print),
        Some(
            "⚠️ `--docker-host`/`DOCKER_HOST` is ignored because the `apple-container` engine \
             does not support it"
                .to_string()
        )
    );
    assert_eq!(
        args(Some("ssh://host"), None).warn_if_host_ignored(&print),
        None
    );
    assert_eq!(
        args(None, Some(Engine::AppleContainer)).warn_if_host_ignored(&print),
        None
    );
}

#[test]
fn kill_argv_includes_host_for_docker_and_omits_for_apple() {
    assert_eq!(
        args(Some("ssh://host"), None).kill_argv("build-1"),
        ["docker", "-H", "ssh://host", "kill", "build-1"]
    );
    assert_eq!(
        args(Some("ssh://host"), Some(Engine::AppleContainer)).kill_argv("build-1"),
        ["container", "kill", "build-1"]
    );
}

#[test]
fn run_args_flags_emit_only_set_limits() {
    assert!(RunArgs::default().flags().is_empty());
    assert_eq!(
        RunArgs {
            cpus: Some(1),
            memory: None,
        }
        .flags(),
        ["--cpus", "1"]
    );
    assert_eq!(
        RunArgs {
            cpus: Some(2),
            memory: Some("2g".to_string()),
        }
        .flags(),
        ["--cpus", "2", "--memory", "2g"]
    );
}

#[test]
fn run_args_flags_write_large_limits_in_full() {
    assert_eq!(
        RunArgs {
            cpus: Some(4294967295),
            memory: Some("512m".to_string()),
        }
        .flags(),
        ["--cpus", "4294967295", "--memory", "512m"]
    );
}

#[test]
fn default_engine_is_adopted_from_the_cli() {
    let mut chosen = args(Some("ssh://host"), None);
    chosen.resolve_default_from_cli(answer("apple-container\n"));
    assert_eq!(chosen.engine, Some(Engine::AppleContainer));
    assert_eq!(chosen.docker_host.as_deref(), Some("ssh://host"));

    let mut chosen = args(None, None);
    chosen.resolve_default_from_cli(answer("  Docker  "));
    assert_eq!(chosen.engine, Some(Engine::Docker));
}

#[test]
fn default_engine_is_left_alone_on_failure() {
    let mut chosen = args(None, None);
    chosen.resolve_default_from_cli(answer("podman\n"));
    assert_eq!(chosen.engine, None);
    chosen.resolve_default_from_cli(answer(""));
    assert_eq!(chosen.engine, None);
    chosen.resolve_default_from_cli(Ok(TextOutput {
        success: false,
        stdout: "apple-container".to_string(),
    }));
    assert_eq!(chosen.engine, None);
    chosen.resolve_default_from_cli(Err("no such file".to_string()));
    assert_eq!(chosen.engine, None);
    assert_eq!(chosen.engine(), Engine::Docker);
}

#[test]
fn chosen_engine_is_not_overridden_by_the_cli() {
    let mut chosen = args(None, Some(Engine::Docker));
    chosen.resolve_default_from_cli(answer("apple-container"));
    assert_eq!(chosen.engine, Some(Engine::Docker));
}

#[test]
fn engine_values_are_read_in_any_case() {
    assert_eq!(Engine::from_flag_value("docker"), Some(Engine::Docker));
    assert_eq!(
        Engine::from_flag_value("APPLE-Container"),
        Some(Engine::AppleContainer)
    );
    assert_eq!(Engine::from_flag_value("container"), None);
    assert_eq!(Engine::default(), Engine::Docker);
    for engine in [Engine::Docker, Engine::AppleContainer] {
        assert_eq!(Engine::from_flag_value(engine.flag_value()), Some(engine));
    }
    assert!(Engine::Docker.supports_docker_host());
    assert!(!Engine::AppleContainer.supports_docker_host());
}

#[test]
fn invoke_error_names_the_program() {
    let e = args(None, Some(Engine::AppleContainer)).invoke_error("not found");
    assert!(
        matches!(e, Error::EngineInvoke { program, source } if program == "container" && source == "not found")
    );
}
