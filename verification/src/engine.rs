//! The container engine that a build runs in.

use vstd::prelude::*;

use crate::error::Error;
use crate::net::flag;
use crate::print::{shown, warn, Print};
use crate::shell::{
    escape_all, escaped_all, is_plain_text, law_escaped_words_read_back, read_words,
};
use crate::text::{
    concat3, decimal, is_space, join, joined, law_trimming, lowercase, opt_text, render_decimal,
    same_ignoring_case, texts, trim, trimmed,
};

verus! {

/// A container engine.
#[derive(Debug, Clone, Copy, PartialEq, Eq, Structural)]
pub enum Engine {
    /// Docker, or a CLI that is compatible with it.
    Docker,
    /// Apple's `container` CLI.
    AppleContainer,
}

impl Default for Engine {
    fn default() -> (engine: Engine)
        ensures
            engine == Engine::Docker,
    {
        Engine::Docker
    }
}

impl Engine {
    /// The name of the engine's program.
    pub open spec fn program_text(self) -> Seq<char> {
        match self {
            Engine::Docker => "docker"@,
            Engine::AppleContainer => "container"@,
        }
    }

    /// The value that selects the engine.
    pub open spec fn flag_text(self) -> Seq<char> {
        match self {
            Engine::Docker => "docker"@,
            Engine::AppleContainer => "apple-container"@,
        }
    }

    /// The name of the engine's program.
    pub fn program(self) -> (s: &'static str)
        ensures
            s@ == self.program_text(),
    {
        match self {
            Engine::Docker => "docker",
            Engine::AppleContainer => "container",
        }
    }

    /// Whether the engine can be told a docker host: only docker can.
    pub fn supports_docker_host(self) -> (r: bool)
        ensures
            r == (self == Engine::Docker),
    {
        matches!(self, Engine::Docker)
    }

    /// The value of `--engine` that selects the engine.
    pub fn flag_value(self) -> (s: &'static str)
        ensures
            s@ == self.flag_text(),
    {
        match self {
            Engine::Docker => "docker",
            Engine::AppleContainer => "apple-container",
        }
    }

    /// The engine that a value of `--engine` selects, in any case.
    pub fn from_flag_value(value: &str) -> (r: Option<Engine>)
        ensures
            r == engine_named(value@),
    {
        if same_ignoring_case(value, "docker") {
            Some(Engine::Docker)
        } else if same_ignoring_case(value, "apple-container") {
            Some(Engine::AppleContainer)
        } else {
            None
        }
    }
}

/// The engine that a value of `--engine` selects, in any case.
pub open spec fn engine_named(value: Seq<char>) -> Option<Engine> {
    if lowercase(value) == lowercase(Engine::Docker.flag_text()) {
        Some(Engine::Docker)
    } else if lowercase(value) == lowercase(Engine::AppleContainer.flag_text()) {
        Some(Engine::AppleContainer)
    } else {
        None
    }
}

/// What a program that was run for its output left behind: whether it
/// succeeded, and its standard output as text.
pub struct TextOutput {
    pub success: bool,
    pub stdout: String,
}

/// The choice of an engine.
#[derive(Debug, Clone)]
pub struct ContainerArgs {
    /// The docker host to use in place of the default one.
    pub docker_host: Option<String>,
    /// The engine; docker where there is none.
    pub engine: Option<Engine>,
}

/// The contents of a [`ContainerArgs`].
#[verifier::ext_equal]
pub struct EngineChoice {
    pub docker_host: Option<Seq<char>>,
    pub engine: Option<Engine>,
}

impl View for ContainerArgs {
    type V = EngineChoice;

    open spec fn view(&self) -> EngineChoice {
        EngineChoice { docker_host: opt_text(self.docker_host), engine: self.engine }
    }
}

impl EngineChoice {
    /// The engine that is used.
    pub open spec fn used(self) -> Engine {
        match self.engine {
            Some(engine) => engine,
            None => Engine::Docker,
        }
    }

    /// The words that every command of the engine starts with.
    pub open spec fn prefix(self) -> Seq<Seq<char>> {
        seq![self.used().program_text()] + if self.used() == Engine::Docker {
            flag("-H"@, self.docker_host)
        } else {
            Seq::empty()
        }
    }

    /// The command that pulls an image.
    pub open spec fn pull(self, image: Seq<char>) -> Seq<Seq<char>> {
        self.prefix() + match self.used() {
            Engine::Docker => seq!["pull"@, image],
            Engine::AppleContainer => seq!["image"@, "pull"@, image],
        }
    }

    /// The command that kills a container.
    pub open spec fn kill(self, name: Seq<char>) -> Seq<Seq<char>> {
        self.prefix() + seq!["kill"@, name]
    }

    /// Whether a docker host was given that the engine does not use.
    pub open spec fn ignores_host(self) -> bool {
        self.docker_host is Some && self.used() != Engine::Docker
    }

    /// The choice after the CLI was asked for its default engine: an engine
    /// that was chosen before stays, and so does docker where the answer names
    /// no engine.
    pub open spec fn with_default(self, answer: Option<Seq<char>>) -> EngineChoice {
        if self.engine is None && answer is Some && engine_named(trimmed(answer->0)) is Some {
            EngineChoice { engine: engine_named(trimmed(answer->0)), ..self }
        } else {
            self
        }
    }
}

/// The output of a program that ran and succeeded.
pub open spec fn answered(output: Result<TextOutput, String>) -> Option<Seq<char>> {
    match output {
        Ok(o) => if o.success {
            Some(o.stdout@)
        } else {
            None
        },
        Err(_) => None,
    }
}

/// The warning that a docker host is ignored.
pub open spec fn host_ignored(engine: Engine) -> Seq<char> {
    "`--docker-host`/`DOCKER_HOST` is ignored because the `"@ + engine.flag_text()
        + "` engine does not support it"@
}

impl Default for ContainerArgs {
    fn default() -> (args: ContainerArgs)
        ensures
            args@ == (EngineChoice { docker_host: None, engine: None }),
    {
        ContainerArgs { docker_host: None, engine: None }
    }
}

impl ContainerArgs {
    /// The engine that is used: docker where none is chosen.
    pub fn engine(&self) -> (engine: Engine)
        ensures
            engine == self@.used(),
    {
        match self.engine {
            Some(engine) => engine,
            None => Engine::Docker,
        }
    }

    /// Adopts the default engine of the `stellar` program, where no engine is
    /// chosen. `output` is what `stellar env STELLAR_CONTAINER_ENGINE` left
    /// behind, or why it could not be run. An answer that names no engine
    /// leaves the choice as it is.
    pub fn resolve_default_from_cli(&mut self, output: Result<TextOutput, String>)
        ensures
            final(self)@ == old(self)@.with_default(answered(output)),
    {
        if self.engine.is_some() {
            return;
        }
        if let Ok(output) = output {
            if output.success {
                let value: String = trim(output.stdout.as_str());
                if let Some(engine) = Engine::from_flag_value(value.as_str()) {
                    self.engine = Some(engine);
                }
            }
        }
    }

    /// The name of the engine's program.
    pub fn program(&self) -> (s: &'static str)
        ensures
            s@ == self@.used().program_text(),
    {
        self.engine().program()
    }

    /// The error that the engine could not be run, for the reason `source`.
    pub fn invoke_error(&self, source: &str) -> (e: Error)
        ensures
            e@ == (Error::EngineInvoke {
                program: self@.used().program_text(),
                source: source@,
            }),
    {
        Error::EngineInvoke { program: self.program().to_string(), source: source.to_string() }
    }

    /// The words that every command of the engine starts with: the program
    /// and, for docker, the host to use.
    pub fn prefix_tokens(&self) -> (tokens: Vec<String>)
        ensures
            texts(tokens@) == self@.prefix(),
    {
        let mut tokens: Vec<String> = Vec::new();
        tokens.push(self.program().to_string());
        if self.engine().supports_docker_host() {
            if let Some(host) = &self.docker_host {
                tokens.push("-H".to_string());
                tokens.push(host.clone());
            }
        }
        assert(texts(tokens@) =~= self@.prefix());
        tokens
    }

    /// The start of a command of the engine.
    pub fn base_command(&self) -> (argv: Vec<String>)
        ensures
            texts(argv@) == self@.prefix(),
    {
        self.prefix_tokens()
    }

    /// The command that pulls an image.
    pub fn pull_command(&self, image: &str) -> (argv: Vec<String>)
        ensures
            texts(argv@) == self@.pull(image@),
    {
        let mut argv: Vec<String> = self.base_command();
        let ghost before = texts(argv@);
        match self.engine() {
            Engine::Docker => {
                argv.push("pull".to_string());
                argv.push(image.to_string());
                assert(texts(argv@) =~= before + seq!["pull"@, image@]);
            },
            Engine::AppleContainer => {
                argv.push("image".to_string());
                argv.push("pull".to_string());
                argv.push(image.to_string());
                assert(texts(argv@) =~= before + seq!["image"@, "pull"@, image@]);
            },
        }
        argv
    }

    /// The start of a command of the engine, as it is written in a shell.
    pub fn reproduce_prefix(&self) -> (s: String)
        ensures
            s@ == joined(escaped_all(self@.prefix()), " "@),
    {
        join(&escape_all(&self.prefix_tokens()), " ")
    }

    /// The command that kills a container.
    pub fn kill_argv(&self, name: &str) -> (argv: Vec<String>)
        ensures
            texts(argv@) == self@.kill(name@),
    {
        let mut argv: Vec<String> = self.prefix_tokens();
        let ghost before = texts(argv@);
        argv.push("kill".to_string());
        argv.push(name.to_string());
        assert(texts(argv@) =~= before + seq!["kill"@, name@]);
        argv
    }

    /// A warning, where a docker host was given that the engine does not use.
    pub fn warn_if_host_ignored(&self, print: &Print) -> (r: Option<String>)
        ensures
            opt_text(r) == if self@.ignores_host() {
                shown(print.quiet, warn(host_ignored(self@.used())))
            } else {
                None
            },
    {
        if self.docker_host.is_some() && !self.engine().supports_docker_host() {
            let message: String = concat3(
                "`--docker-host`/`DOCKER_HOST` is ignored because the `",
                self.engine().flag_value(),
                "` engine does not support it",
            );
            print.warnln(message.as_str())
        } else {
            None
        }
    }
}

/// The limits on a build's resources.
#[derive(Debug, Clone)]
pub struct RunArgs {
    /// How many CPUs the build may use.
    pub cpus: Option<u32>,
    /// How much memory the build may use, e.g. `2g` or `512m`.
    pub memory: Option<String>,
}

impl Default for RunArgs {
    fn default() -> (args: RunArgs)
        ensures
            args.cpus is None,
            args.memory is None,
    {
        RunArgs { cpus: None, memory: None }
    }
}

/// The words that set the limits on a build's resources.
pub open spec fn limit_flags(cpus: Option<u32>, memory: Option<Seq<char>>) -> Seq<Seq<char>> {
    flag(
        "--cpus"@,
        match cpus {
            Some(n) => Some(decimal(n as nat)),
            None => None,
        },
    ) + flag("--memory"@, memory)
}

impl RunArgs {
    /// The words that set the limits; none for a limit that is not set.
    pub fn flags(&self) -> (out: Vec<String>)
        ensures
            texts(out@) == limit_flags(self.cpus, opt_text(self.memory)),
    {
        let mut out: Vec<String> = Vec::new();
        if let Some(cpus) = self.cpus {
            out.push("--cpus".to_string());
            out.push(render_decimal(cpus as u64));
        }
        if let Some(memory) = &self.memory {
            out.push("--memory".to_string());
            out.push(memory.clone());
        }
        assert(texts(out@) =~= limit_flags(self.cpus, opt_text(self.memory)));
        out
    }
}

/// Only docker is told the docker host: the commands of any other engine start
/// with its program alone.
pub proof fn law_host_is_for_docker_only(choice: EngineChoice)
    ensures
        choice.used() != Engine::Docker ==> choice.prefix() == seq![choice.used().program_text()],
        choice.used() == Engine::Docker ==> choice.prefix() == seq!["docker"@] + flag(
            "-H"@,
            choice.docker_host,
        ),
        choice.ignores_host() <==> choice.docker_host is Some && choice.used() != Engine::Docker,
{
    if choice.used() != Engine::Docker {
        assert(choice.prefix() =~= seq![choice.used().program_text()]);
    }
}

/// The commands of an engine start alike: with its program and, for docker, with
/// the host. A shell reads the start of the line to reproduce a build as the same
/// words. Where these are plain, they stand there as they are.
pub proof fn law_commands_share_their_start(choice: EngineChoice, name: Seq<char>)
    ensures
        choice.kill(name) == choice.prefix() + seq!["kill"@, name],
        choice.prefix().len() > 0,
        choice.prefix()[0] == choice.used().program_text(),
        choice.prefix() == if choice.used() == Engine::Docker && choice.docker_host is Some {
            seq![choice.used().program_text(), "-H"@, choice.docker_host->0]
        } else {
            seq![choice.used().program_text()]
        },
        read_words(joined(escaped_all(choice.prefix()), " "@)) == Some(choice.prefix()),
        (choice.docker_host is Some ==> choice.docker_host->0.len() > 0 && is_plain_text(
            choice.docker_host->0,
        )) ==> joined(escaped_all(choice.prefix()), " "@) == joined(choice.prefix(), " "@),
{
    let words = choice.prefix();
    assert(words =~= if choice.used() == Engine::Docker && choice.docker_host is Some {
        seq![choice.used().program_text(), "-H"@, choice.docker_host->0]
    } else {
        seq![choice.used().program_text()]
    });
    law_escaped_words_read_back(words);
    reveal_strlit("docker");
    reveal_strlit("container");
    reveal_strlit("-H");
    if choice.docker_host is None || choice.docker_host->0.len() > 0 && is_plain_text(
        choice.docker_host->0,
    ) {
        assert(escaped_all(words) =~= words);
    }
}

/// An engine that the user has chosen stays, whatever the CLI's default is.
/// Where none is chosen, the default is adopted if it is an engine's name, and
/// docker is used otherwise. The docker host stays in any case.
pub proof fn law_chosen_engine_stays(choice: EngineChoice, answer: Option<Seq<char>>)
    ensures
        choice.engine is Some ==> choice.with_default(answer) == choice,
        choice.with_default(answer).docker_host == choice.docker_host,
        choice.engine is None ==> choice.with_default(answer).used() == match answer {
            Some(text) => match engine_named(trimmed(text)) {
                Some(engine) => engine,
                None => Engine::Docker,
            },
            None => Engine::Docker,
        },
{
}

/// The value that selects an engine is read as that engine.
pub proof fn law_flag_value_selects_the_engine(engine: Engine)
    ensures
        engine_named(engine.flag_text()) == Some(engine),
{
    reveal_strlit("docker");
    reveal_strlit("apple-container");
    assert(lowercase("docker"@).len() != lowercase("apple-container"@).len());
}

/// The words of the commands that pull an image and kill a container, for each
/// engine, with a docker host and without one.
pub proof fn law_words_of_the_commands(
    host: Option<Seq<char>>,
    given: Seq<char>,
    image: Seq<char>,
    name: Seq<char>,
)
    ensures
        ({
            let docker = EngineChoice { docker_host: None, engine: Some(Engine::Docker) };
            &&& docker.pull(image) == seq!["docker"@, "pull"@, image]
            &&& docker.kill(name) == seq!["docker"@, "kill"@, name]
        }),
        ({
            let remote = EngineChoice { docker_host: Some(given), engine: Some(Engine::Docker) };
            &&& remote.pull(image) == seq!["docker"@, "-H"@, given, "pull"@, image]
            &&& remote.kill(name) == seq!["docker"@, "-H"@, given, "kill"@, name]
        }),
        ({
            let apple = EngineChoice { docker_host: host, engine: Some(Engine::AppleContainer) };
            &&& apple.pull(image) == seq!["container"@, "image"@, "pull"@, image]
            &&& apple.kill(name) == seq!["container"@, "kill"@, name]
        }),
        ({
            let default = EngineChoice { docker_host: host, engine: None };
            let docker = EngineChoice { docker_host: host, engine: Some(Engine::Docker) };
            &&& default.prefix() == docker.prefix()
            &&& default.pull(image) == docker.pull(image)
            &&& default.kill(name) == docker.kill(name)
        }),
{
    let docker = EngineChoice { docker_host: None, engine: Some(Engine::Docker) };
    assert(docker.pull(image) =~= seq!["docker"@, "pull"@, image]);
    assert(docker.kill(name) =~= seq!["docker"@, "kill"@, name]);
    let remote = EngineChoice { docker_host: Some(given), engine: Some(Engine::Docker) };
    assert(remote.pull(image) =~= seq!["docker"@, "-H"@, given, "pull"@, image]);
    assert(remote.kill(name) =~= seq!["docker"@, "-H"@, given, "kill"@, name]);
    let apple = EngineChoice { docker_host: host, engine: Some(Engine::AppleContainer) };
    assert(apple.pull(image) =~= seq!["container"@, "image"@, "pull"@, image]);
    assert(apple.kill(name) =~= seq!["container"@, "kill"@, name]);
}

/// The engine's names are `docker` and `apple-container` in any case, and no other
/// text names an engine.
pub proof fn law_names_of_the_engines(value: Seq<char>)
    ensures
        engine_named(value) == Some(Engine::Docker) <==> lowercase(value) == "docker"@,
        engine_named(value) == Some(Engine::AppleContainer) <==> lowercase(value)
            == "apple-container"@,
{
    reveal_strlit("docker");
    reveal_strlit("apple-container");
    assert(lowercase("docker"@) =~= "docker"@);
    assert(lowercase("apple-container"@) =~= "apple-container"@);
    assert("docker"@.len() != "apple-container"@.len());
}

/// The white space around the CLI's answer does not count for the engine that it
/// names.
pub proof fn law_default_engine_is_trimmed(
    choice: EngineChoice,
    before: Seq<char>,
    name: Seq<char>,
    after: Seq<char>,
)
    requires
        choice.engine is None,
        forall|i: int| 0 <= i < before.len() ==> is_space(#[trigger] before[i]),
        forall|i: int| 0 <= i < after.len() ==> is_space(#[trigger] after[i]),
        name.len() > 0 ==> !is_space(name[0]) && !is_space(name[name.len() - 1]),
    ensures
        ({
            let settled = choice.with_default(Some(before + name + after));
            &&& settled.docker_host == choice.docker_host
            &&& settled.engine == Some(Engine::Docker) <==> lowercase(name) == "docker"@
            &&& settled.engine == Some(Engine::AppleContainer) <==> lowercase(name)
                == "apple-container"@
        }),
        choice.with_default(None) == choice,
{
    law_trimming(before, name, after);
    law_names_of_the_engines(name);
}

/// A limit that is set has its flag and its value, and the one limit does not
/// depend on the other. The number of CPUs is in decimal digits.
pub proof fn law_limits(cpus: Option<u32>, memory: Option<Seq<char>>, n: u32, size: Seq<char>)
    ensures
        limit_flags(None, None) == Seq::<Seq<char>>::empty(),
        limit_flags(Some(n), None) == seq!["--cpus"@, decimal(n as nat)],
        limit_flags(None, Some(size)) == seq!["--memory"@, size],
        limit_flags(cpus, memory) == limit_flags(cpus, None) + limit_flags(None, memory),
{
    assert(limit_flags(None, None) =~= Seq::<Seq<char>>::empty());
    assert(limit_flags(Some(n), None) =~= seq!["--cpus"@, decimal(n as nat)]);
    assert(limit_flags(None, Some(size)) =~= seq!["--memory"@, size]);
    assert(limit_flags(cpus, memory) =~= limit_flags(cpus, None) + limit_flags(None, memory));
}

/// A docker host is ignored if and only if one is given and the engine is Apple's;
/// the warning names that engine.
pub proof fn law_ignored_host(choice: EngineChoice)
    ensures
        choice.ignores_host() <==> choice.docker_host is Some && choice.engine == Some(
            Engine::AppleContainer,
        ),
        host_ignored(Engine::AppleContainer)
            == "`--docker-host`/`DOCKER_HOST` is ignored because the `apple-container` engine does not support it"@,
{
    reveal_strlit("`--docker-host`/`DOCKER_HOST` is ignored because the `");
    reveal_strlit("apple-container");
    reveal_strlit("` engine does not support it");
    reveal_strlit(
        "`--docker-host`/`DOCKER_HOST` is ignored because the `apple-container` engine does not support it",
    );
    assert(host_ignored(Engine::AppleContainer)
        =~= "`--docker-host`/`DOCKER_HOST` is ignored because the `apple-container` engine does not support it"@);
}

/// A program answers with its whole output if and only if it ran and succeeded.
pub proof fn law_answers(output: Result<TextOutput, String>)
    ensures
        output matches Ok(o) ==> o.success ==> answered(output) == Some(o.stdout@),
        output matches Ok(o) ==> !o.success ==> answered(output) is None,
        output is Err ==> answered(output) is None,
{
}

/// The engines' programs, and the values that select them.
pub proof fn law_programs_of_the_engines()
    ensures
        Engine::Docker.program_text() == "docker"@,
        Engine::AppleContainer.program_text() == "container"@,
        Engine::Docker.flag_text() == "docker"@,
        Engine::AppleContainer.flag_text() == "apple-container"@,
{
}

} // verus!
