//! A run of the verification, from the command to the verdict.
//!
//! A [`Session`] does nothing to the outside world by itself. It says what is
//! to be done next, an [`Action`], and is told what came of it, an [`Event`].
//! Which action follows which event is decided here, and so is everything that
//! is computed on the way.

use vstd::prelude::*;
use vstd::string::StringExecFns;

use crate::cleanup::{clean, clear_container, set_container, set_tempdir, State};
use crate::container::{
    build_command, build_container_command, build_result, chosen_wasm, container_name, environment,
    find_rebuilt_wasm, fresh_wasms, is_random_uuid, is_release_wasm, locked_probe,
    locked_probe_command, mount, option_words, pin_toolchain, pins_toolchain,
    probe_active_toolchain, probe_failed, probe_supports_locked, pull_image, random_uuid,
    reproduce_line, run_command, run_in_container, selected_package, snapshot_preexisting_wasms,
    toolchain_pinned, toolchain_probe, toolchain_probe_command, with_toolchain, ExitStatus,
    RunPlan,
};
use crate::digest::sha256_text;
use crate::engine::{answered, host_ignored, limit_flags, TextOutput};
use crate::error::Error;
use crate::meta::{extract_metadata, extracted, meta_sections, ExtractedMetadata, Metadata};
use crate::net::{fetch_command, fetch_wasm, fetched_wasm, opt_str, FetchOutput};
use crate::print::{check, info, said, sanitize, sanitized, say, shown, warn, Print};
use crate::source::{
    data_local_dir, digest_matches, effective_source, fetch_source_bytes, is_remote,
    locate_extracted_source_root, materialize_source, remote, source_plan, verify_source_sha256,
    ArchiveFormat, SOURCE_TEMPDIR_PREFIX,
};
use crate::text::{
    concat2, concat3, decimal, first_word, has_part, opt_text, push_text, render_decimal, texts,
    trimmed,
};
use crate::trust::{grants, require_trust, settle_trust, trust_demand, TrustKind};
use crate::verify::{announcement, compare, verdict, Cmd, Request};

verus! {

/// What a run waits for.
#[derive(Debug, Clone, Copy, PartialEq, Eq, Structural)]
pub enum Stage {
    /// The default engine of the `stellar` program.
    Engine,
    /// The local WASM file.
    ReadWasm,
    /// The WASM from the network.
    FetchWasm,
    /// The answer whether to trust the image.
    TrustImage,
    /// The answer whether to trust the source.
    TrustSource,
    /// The source archive.
    Source,
    /// The data directory of the `stellar` program.
    DataDir,
    /// The unpacked source.
    Unpack,
    /// The image.
    Pull,
    /// The options of the image's `contract build`.
    Options,
    /// The directories at the top of the unpacked source.
    Layout,
    /// What the source tree holds before the build.
    Snapshot,
    /// The toolchain of the image.
    Toolchain,
    /// The build.
    Build,
    /// What the source tree holds after the build.
    Collect,
    /// The rebuilt WASM.
    Rebuilt,
    /// Nothing: the run is over.
    Done,
}

/// Why an archive could not be unpacked.
pub enum UnpackFault {
    /// The reason, for a zip archive that is malformed.
    Zip(String),
    /// The reason, for anything else.
    Archive(String),
}

/// What came of an action. A text in place of a result says why there is none.
pub enum Event {
    /// The output of a program.
    Output(Result<TextOutput, String>),
    /// The output of the program that fetches a WASM.
    Fetched(Result<FetchOutput, String>),
    /// The contents of a file or of a download.
    Bytes(Result<Vec<u8>, String>),
    /// The user's answer.
    Answer(Result<String, String>),
    /// The directory that the source was unpacked into.
    Unpacked(Result<String, UnpackFault>),
    /// How a program ended.
    Exit(Result<ExitStatus, String>),
    /// The directories in a directory.
    Listed(Result<Vec<String>, String>),
    /// Everything in a tree.
    Walked(Vec<String>),
}

/// What is to be done next. `Text`, `Words` and `Bytes` are `String`,
/// `Vec<String>` and `Vec<u8>` at run time; in contracts they are the
/// sequences that these hold.
#[verifier::ext_equal]
pub enum Action<Text = String, Words = Vec<String>, Bytes = Vec<u8>> {
    /// Run a program for its output; an [`Event::Output`] follows.
    Capture { argv: Words },
    /// Run the program that fetches a WASM; an [`Event::Fetched`] follows.
    Fetch { argv: Words },
    /// Read a file; an [`Event::Bytes`] follows.
    Read { path: Text },
    /// Download a file; an [`Event::Bytes`] follows.
    Download { url: Text },
    /// Ask the user; an [`Event::Answer`] follows.
    Ask { question: Text },
    /// Unpack an archive into a fresh directory under `tmp` in the data
    /// directory, and close it to everybody but its owner; an
    /// [`Event::Unpacked`] follows.
    Unpack { data_dir: Text, prefix: &'static str, format: ArchiveFormat, archive: Bytes },
    /// Run a program for its effect, and show its output or not; an
    /// [`Event::Exit`] follows.
    Run { argv: Words, show: bool },
    /// List the directories in a directory; an [`Event::Listed`] follows.
    List { path: Text },
    /// List everything in a tree; an [`Event::Walked`] follows.
    Walk { path: Text },
    /// End the run: with the verdict that the WASM is verified, or with the
    /// error. A directory that is to be kept is not removed.
    Finish { result: Result<(), Error<Text>>, kept: Option<Text> },
    /// Nothing: the event was not the one that the run waits for.
    Ignore,
}

impl View for Action {
    type V = Action<Seq<char>, Seq<Seq<char>>, Seq<u8>>;

    open spec fn view(&self) -> Action<Seq<char>, Seq<Seq<char>>, Seq<u8>> {
        match *self {
            Action::Capture { argv } => Action::Capture { argv: texts(argv@) },
            Action::Fetch { argv } => Action::Fetch { argv: texts(argv@) },
            Action::Read { path } => Action::Read { path: path@ },
            Action::Download { url } => Action::Download { url: url@ },
            Action::Ask { question } => Action::Ask { question: question@ },
            Action::Unpack { data_dir, prefix, format, archive } => Action::Unpack {
                data_dir: data_dir@,
                prefix,
                format,
                archive: archive@,
            },
            Action::Run { argv, show } => Action::Run { argv: texts(argv@), show },
            Action::List { path } => Action::List { path: path@ },
            Action::Walk { path } => Action::Walk { path: path@ },
            Action::Finish { result, kept } => Action::Finish {
                result: match result {
                    Ok(()) => Ok(()),
                    Err(e) => Err(e@),
                },
                kept: opt_text(kept),
            },
            Action::Ignore => Action::Ignore,
        }
    }
}

/// The lines to write, and what is to be done after that.
pub struct Progress {
    pub lines: Vec<String>,
    pub action: Action,
}

/// The contents of a [`Session`].
#[verifier::ext_equal]
pub struct Run {
    pub request: Request,
    pub interactive: bool,
    pub stage: Stage,
    pub wasm: Seq<u8>,
    pub meta: Metadata,
    pub source: Seq<char>,
    pub format: ArchiveFormat,
    pub archive: Seq<u8>,
    pub workdir: Option<Seq<char>>,
    pub container_cmd: Seq<Seq<char>>,
    pub env: Seq<Seq<char>>,
    pub root: Seq<char>,
    pub preexisting: Seq<Seq<char>>,
    pub reproduce: Seq<char>,
    pub rebuilt: Seq<char>,
    pub cleanup: State<Seq<char>, Seq<Seq<char>>>,
}

/// A run, the lines to write, and what is to be done after that.
#[verifier::ext_equal]
pub struct Turn {
    pub run: Run,
    pub lines: Seq<Seq<char>>,
    pub action: Action<Seq<char>, Seq<Seq<char>>, Seq<u8>>,
}

/// The text, or the empty one where there is none.
pub open spec fn or_empty(s: Option<Seq<char>>) -> Seq<char> {
    match s {
        Some(s) => s,
        None => Seq::empty(),
    }
}

/// The metadata of a run that has not read any yet.
pub open spec fn no_metadata() -> Metadata {
    Metadata {
        bldimg: Seq::empty(),
        source_uri: None,
        source_sha256: None,
        bldopts: Seq::empty(),
        meta_entries: Seq::empty(),
    }
}

/// A run that has not started yet.
pub open spec fn new_run(request: Request, interactive: bool) -> Run {
    Run {
        request,
        interactive,
        stage: Stage::Done,
        wasm: Seq::empty(),
        meta: no_metadata(),
        source: Seq::empty(),
        format: ArchiveFormat::TarGz,
        archive: Seq::empty(),
        workdir: None,
        container_cmd: Seq::empty(),
        env: Seq::empty(),
        root: Seq::empty(),
        preexisting: Seq::empty(),
        reproduce: Seq::empty(),
        rebuilt: Seq::empty(),
        cleanup: clean(),
    }
}

impl Run {
    /// The run waits for what comes of an action.
    pub open spec fn wait(
        self,
        stage: Stage,
        lines: Seq<Seq<char>>,
        action: Action<Seq<char>, Seq<Seq<char>>, Seq<u8>>,
    ) -> Turn {
        Turn { run: Run { stage, ..self }, lines, action }
    }

    /// The run ends. A directory that is to be kept is reported.
    pub open spec fn finish(
        self,
        lines: Seq<Seq<char>>,
        result: Result<(), Error<Seq<char>>>,
    ) -> Turn {
        let kept = if self.request.keep {
            self.workdir
        } else {
            None
        };
        let lines = match kept {
            Some(path) => lines.push(info("Kept build directory at "@ + path)),
            None => lines,
        };
        self.wait(Stage::Done, lines, Action::Finish { result, kept })
    }

    /// The lines, and one more that informs.
    pub open spec fn informed(self, lines: Seq<Seq<char>>, message: Seq<char>) -> Seq<Seq<char>> {
        said(lines, shown(self.request.quiet, info(message)))
    }

    /// The first action: to ask for the default engine, where none is chosen.
    pub open spec fn start(self) -> Turn {
        if self.request.engine.engine is None {
            self.wait(
                Stage::Engine,
                Seq::empty(),
                Action::Capture { argv: seq!["stellar"@, "env"@, "STELLAR_CONTAINER_ENGINE"@] },
            )
        } else {
            self.want_wasm()
        }
    }

    /// The engine is known, and the WASM is wanted.
    #[verifier::opaque]
    pub open spec fn want_wasm(self) -> Turn {
        if self.request.wasm is Some {
            self.wait(
                Stage::ReadWasm,
                Seq::empty(),
                Action::Read { path: or_empty(self.request.wasm) },
            )
        } else if self.request.contract_id is Some || self.request.wasm_hash is Some {
            self.wait(
                Stage::FetchWasm,
                self.informed(
                    Seq::empty(),
                    "Fetching WASM from the network via `stellar contract fetch`"@,
                ),
                Action::Fetch {
                    argv: fetch_command(
                        self.request.contract_id,
                        self.request.wasm_hash,
                        self.request.network,
                    ),
                },
            )
        } else {
            self.finish(Seq::empty(), Err(Error::MissingInput))
        }
    }

    /// The WASM is there, and its metadata is read. Where no source is known,
    /// the run ends before anybody is asked for trust.
    #[verifier::opaque]
    pub open spec fn got_wasm(self, wasm: Seq<u8>) -> Turn {
        let read = match meta_sections(wasm) {
            Ok(sections) => extracted(sections),
            Err(e) => Err(e),
        };
        match read {
            Ok(meta) => {
                let run = Run { wasm, meta, ..self };
                let lines = announcement(self.request.quiet, self.request.source_uri, meta);
                match effective_source(self.request.source_uri, meta.source_uri) {
                    Some(source) => Run { source, ..run }.want_image_trust(lines),
                    None => run.finish(lines, Err(Error::SourceUriRequired)),
                }
            },
            Err(e) => self.finish(Seq::empty(), Err(e)),
        }
    }

    /// The image must be trusted.
    #[verifier::opaque]
    pub open spec fn want_image_trust(self, lines: Seq<Seq<char>>) -> Turn {
        match trust_demand(
            self.request.trust,
            TrustKind::Bldimg,
            self.meta.bldimg,
            self.interactive,
        ) {
            Ok(Some(question)) => self.wait(Stage::TrustImage, lines, Action::Ask { question }),
            Ok(None) => self.want_source_trust(lines),
            Err(e) => self.finish(lines, Err(e)),
        }
    }

    /// The source must be trusted.
    #[verifier::opaque]
    pub open spec fn want_source_trust(self, lines: Seq<Seq<char>>) -> Turn {
        match trust_demand(
            self.request.trust,
            TrustKind::SourceArchive,
            self.source,
            self.interactive,
        ) {
            Ok(Some(question)) => self.wait(Stage::TrustSource, lines, Action::Ask { question }),
            Ok(None) => self.want_source(lines),
            Err(e) => self.finish(lines, Err(e)),
        }
    }

    /// The image and the source are trusted, and the source is wanted.
    #[verifier::opaque]
    pub open spec fn want_source(self, lines: Seq<Seq<char>>) -> Turn {
        match source_plan(self.request.source_uri, self.meta) {
            Ok((source, format)) => Run { source, format, ..self }.wait(
                Stage::Source,
                self.informed(lines, "Fetching source code from "@ + sanitized(source)),
                if is_remote(source) {
                    Action::Download { url: source }
                } else {
                    Action::Read { path: source }
                },
            ),
            Err(e) => self.finish(lines, Err(e)),
        }
    }

    /// The source archive is there, and it must be the recorded one.
    #[verifier::opaque]
    pub open spec fn got_source(self, archive: Seq<u8>) -> Turn {
        match self.meta.source_sha256 {
            Some(expected) => if digest_matches(archive, expected) {
                self.want_data_dir(
                    archive,
                    said(
                        Seq::empty(),
                        shown(self.request.quiet, check("Source SHA-256 matches"@)),
                    ),
                )
            } else {
                self.finish(
                    Seq::empty(),
                    Err(Error::SourceHashMismatch { expected, actual: sha256_text(archive) }),
                )
            },
            None => self.want_data_dir(archive, Seq::empty()),
        }
    }

    /// The source archive is accepted, and a place to unpack it is wanted.
    #[verifier::opaque]
    pub open spec fn want_data_dir(self, archive: Seq<u8>, lines: Seq<Seq<char>>) -> Turn {
        Run { archive, ..self }.wait(
            Stage::DataDir,
            lines,
            Action::Capture { argv: seq!["stellar"@, "cache"@, "path"@] },
        )
    }

    /// The place is known, and the source archive is unpacked there.
    #[verifier::opaque]
    pub open spec fn got_data_dir(self, data_dir: Seq<char>) -> Turn {
        Run { archive: Seq::empty(), ..self }.wait(
            Stage::Unpack,
            Seq::empty(),
            Action::Unpack {
                data_dir,
                prefix: SOURCE_TEMPDIR_PREFIX,
                format: self.format,
                archive: self.archive,
            },
        )
    }

    /// The source is unpacked, and the image is pulled.
    #[verifier::opaque]
    pub open spec fn got_workdir(self, workdir: Seq<char>) -> Turn {
        let quiet = self.request.quiet;
        let run = Run {
            workdir: Some(workdir),
            cleanup: self.cleanup.with_tempdir(workdir, self.request.keep),
            ..self
        };
        let unpacked = said(
            Seq::empty(),
            shown(quiet, check("Source materialized at "@ + workdir)),
        );
        let warned = if self.request.engine.ignores_host() {
            said(unpacked, shown(quiet, warn(host_ignored(self.request.engine.used()))))
        } else {
            unpacked
        };
        run.wait(
            Stage::Pull,
            self.informed(warned, "Pulling image "@ + sanitized(self.meta.bldimg)),
            Action::Run { argv: self.request.engine.pull(self.meta.bldimg), show: !quiet },
        )
    }

    /// The image is there, and the options of its build are wanted.
    #[verifier::opaque]
    pub open spec fn got_image(self) -> Turn {
        self.wait(
            Stage::Options,
            Seq::empty(),
            Action::Capture { argv: locked_probe(self.request.engine, self.meta.bldimg) },
        )
    }

    /// The options of the image's build are known, or not; the build's command
    /// is composed, and the source's layout is wanted.
    #[verifier::opaque]
    pub open spec fn got_options(self, help: Result<Seq<char>, Seq<char>>) -> Turn {
        let supports_locked = match help {
            Ok(help) => has_part(help, "--locked"@),
            Err(_) => false,
        };
        let lines = match help {
            Ok(_) => Seq::empty(),
            Err(reason) => said(
                Seq::empty(),
                shown(
                    self.request.quiet,
                    warn(probe_failed(self.request.engine.used().program_text(), reason)),
                ),
            ),
        };
        let options = option_words(self.meta.bldopts);
        let run = Run {
            container_cmd: build_command(options, self.meta.meta_entries, supports_locked),
            env: environment(options),
            ..self
        };
        run.wait(Stage::Layout, lines, Action::List { path: or_empty(self.workdir) })
    }

    /// The directory that is built in is known, and what it holds is wanted.
    #[verifier::opaque]
    pub open spec fn got_root(self, root: Seq<char>) -> Turn {
        Run { root, ..self }.wait(Stage::Snapshot, Seq::empty(), Action::Walk { path: root })
    }

    /// The source tree before the build is known. What it holds is no result
    /// of the build. Then the build starts, once the toolchain is known.
    #[verifier::opaque]
    pub open spec fn got_snapshot(self, paths: Seq<Seq<char>>, uuid: Seq<char>) -> Turn {
        let preexisting = paths.filter(is_release_wasm());
        let run = Run { preexisting, ..self };
        let lines = if preexisting.len() > 0 {
            said(
                Seq::empty(),
                shown(
                    self.request.quiet,
                    warn(
                        "Ignoring "@ + decimal(preexisting.len())
                            + " pre-existing WASM artifact(s) in the source; only freshly rebuilt output is trusted"@,
                    ),
                ),
            )
        } else {
            Seq::empty()
        };
        if pins_toolchain(self.env) {
            run.want_build(lines, None, uuid)
        } else {
            run.wait(
                Stage::Toolchain,
                lines,
                Action::Capture { argv: toolchain_probe(self.request.engine, self.meta.bldimg) },
            )
        }
    }

    /// The build starts.
    #[verifier::opaque]
    pub open spec fn want_build(
        self,
        lines: Seq<Seq<char>>,
        toolchain: Option<Seq<char>>,
        uuid: Seq<char>,
    ) -> Turn {
        let name = container_name(uuid, self.root);
        let limits = limit_flags(self.request.cpus, self.request.memory);
        let env = with_toolchain(self.env, toolchain);
        let reproduce = reproduce_line(
            self.request.engine,
            limits,
            self.root,
            env,
            self.meta.bldimg,
            self.container_cmd,
        );
        let announced = self.informed(
            lines,
            "Running verifiable build in "@ + sanitized(self.meta.bldimg) + " (mount "@
                + sanitized(mount(self.root)) + ")"@,
        );
        let detailed = if self.request.verbose {
            self.informed(announced, "Running: "@ + reproduce)
        } else {
            announced
        };
        let run = Run {
            env,
            reproduce,
            cleanup: self.cleanup.with_container(self.request.engine.kill(name)),
            ..self
        };
        run.wait(
            Stage::Build,
            detailed,
            Action::Run {
                argv: run_command(
                    self.request.engine,
                    name,
                    limits,
                    self.root,
                    env,
                    self.meta.bldimg,
                    self.container_cmd,
                ),
                show: self.request.verbose && !self.request.quiet,
            },
        )
    }

    /// The build has ended, or could not be run.
    #[verifier::opaque]
    pub open spec fn got_build(self, status: Result<ExitStatus, String>) -> Turn {
        match status {
            Ok(s) => {
                let run = Run { cleanup: self.cleanup.without_container(), ..self };
                if s.success {
                    run.wait(Stage::Collect, Seq::empty(), Action::Walk { path: self.root })
                } else {
                    run.finish(
                        Seq::empty(),
                        Err(
                            Error::ContainerExit {
                                status: match s.code {
                                    Some(code) => code as i64,
                                    None => (-1) as i64,
                                },
                                command: self.reproduce,
                            },
                        ),
                    )
                }
            },
            Err(reason) => self.finish(Seq::empty(), Err(self.invoke_error(reason@))),
        }
    }

    /// The source tree after the build is known, and the rebuilt WASM is
    /// wanted.
    #[verifier::opaque]
    pub open spec fn got_tree(self, paths: Seq<Seq<char>>) -> Turn {
        match chosen_wasm(
            self.root,
            fresh_wasms(paths, self.preexisting),
            selected_package(self.meta.bldopts),
        ) {
            Ok(path) => Run { rebuilt: path, ..self }.wait(
                Stage::Rebuilt,
                Seq::empty(),
                Action::Read { path },
            ),
            Err(e) => self.finish(Seq::empty(), Err(e)),
        }
    }

    /// The rebuilt WASM is there, and the verdict is due. It is shown even
    /// where the output is quiet.
    #[verifier::opaque]
    pub open spec fn got_rebuilt(self, rebuilt: Seq<u8>) -> Turn {
        let lines = if self.request.keep {
            self.informed(Seq::empty(), "Rebuilt WASM at "@ + sanitized(self.rebuilt))
        } else {
            Seq::empty()
        };
        match verdict(self.wasm, rebuilt) {
            Ok(note) => self.finish(lines.push(check(note)), Ok(())),
            Err(e) => self.finish(lines, Err(e)),
        }
    }

    /// What follows an event that is not the awaited one: nothing.
    pub open spec fn ignored(self) -> Turn {
        Turn { run: self, lines: Seq::empty(), action: Action::Ignore }
    }

    /// What follows once a program has left its output.
    #[verifier::opaque]
    pub open spec fn on_output(self, output: Result<TextOutput, String>, uuid: Seq<char>) -> Turn {
        match self.stage {
            Stage::Engine => Run {
                request: Request {
                    engine: self.request.engine.with_default(answered(output)),
                    ..self.request
                },
                ..self
            }.want_wasm(),
            Stage::DataDir => match output {
                Ok(o) => if o.success && trimmed(o.stdout@).len() > 0 {
                    self.got_data_dir(trimmed(o.stdout@))
                } else {
                    self.finish(Seq::empty(), Err(Error::DataDir))
                },
                Err(reason) => self.finish(Seq::empty(), Err(Error::StellarInvoke(reason@))),
            },
            Stage::Options => self.got_options(
                match output {
                    Ok(o) => Ok(o.stdout@),
                    Err(reason) => Err(reason@),
                },
            ),
            Stage::Toolchain => self.want_build(
                Seq::empty(),
                match output {
                    Ok(o) => first_word(o.stdout@),
                    Err(_) => None,
                },
                uuid,
            ),
            _ => self.ignored(),
        }
    }

    /// What follows once the program that fetches a WASM has left its output.
    #[verifier::opaque]
    pub open spec fn on_fetched(self, output: Result<FetchOutput, String>) -> Turn {
        match self.stage {
            Stage::FetchWasm => match output {
                Ok(o) => if o.success {
                    self.got_wasm(o.stdout@)
                } else {
                    self.finish(
                        Seq::empty(),
                        Err(Error::FetchFailed { stderr: trimmed(o.stderr@) }),
                    )
                },
                Err(reason) => self.finish(Seq::empty(), Err(Error::StellarInvoke(reason@))),
            },
            _ => self.ignored(),
        }
    }

    /// What follows once a file was read or downloaded.
    #[verifier::opaque]
    pub open spec fn on_bytes(self, bytes: Result<Vec<u8>, String>) -> Turn {
        match self.stage {
            Stage::ReadWasm => match bytes {
                Ok(wasm) => self.got_wasm(wasm@),
                Err(reason) => self.finish(
                    Seq::empty(),
                    Err(Error::ReadWasm(or_empty(self.request.wasm), reason@)),
                ),
            },
            Stage::Source => match bytes {
                Ok(archive) => self.got_source(archive@),
                Err(reason) => self.finish(
                    Seq::empty(),
                    Err(
                        if is_remote(self.source) {
                            Error::SourceDownload { url: self.source, source: reason@ }
                        } else {
                            Error::SourceRead { path: self.source, source: reason@ }
                        },
                    ),
                ),
            },
            Stage::Rebuilt => match bytes {
                Ok(rebuilt) => self.got_rebuilt(rebuilt@),
                Err(reason) => self.finish(
                    Seq::empty(),
                    Err(Error::ReadRebuilt { path: self.rebuilt, source: reason@ }),
                ),
            },
            _ => self.ignored(),
        }
    }

    /// What follows once the user has answered.
    #[verifier::opaque]
    pub open spec fn on_answer(self, answer: Result<String, String>) -> Turn {
        match self.stage {
            Stage::TrustImage => match answer {
                Ok(text) => if grants(text@) {
                    self.want_source_trust(Seq::empty())
                } else {
                    self.finish(
                        Seq::empty(),
                        Err(Error::TrustDeclined { kind: TrustKind::Bldimg }),
                    )
                },
                Err(reason) => self.finish(Seq::empty(), Err(Error::Stdin(reason@))),
            },
            Stage::TrustSource => match answer {
                Ok(text) => if grants(text@) {
                    self.want_source(Seq::empty())
                } else {
                    self.finish(
                        Seq::empty(),
                        Err(Error::TrustDeclined { kind: TrustKind::SourceArchive }),
                    )
                },
                Err(reason) => self.finish(Seq::empty(), Err(Error::Stdin(reason@))),
            },
            _ => self.ignored(),
        }
    }

    /// What follows once the source was unpacked.
    #[verifier::opaque]
    pub open spec fn on_unpacked(self, unpacked: Result<String, UnpackFault>) -> Turn {
        match self.stage {
            Stage::Unpack => match unpacked {
                Ok(workdir) => self.got_workdir(workdir@),
                Err(UnpackFault::Zip(reason)) => self.finish(
                    Seq::empty(),
                    Err(Error::ZipExtract(reason@)),
                ),
                Err(UnpackFault::Archive(reason)) => self.finish(
                    Seq::empty(),
                    Err(Error::ArchiveExtract(reason@)),
                ),
            },
            _ => self.ignored(),
        }
    }

    /// What follows once a program has ended.
    #[verifier::opaque]
    pub open spec fn on_exit(self, status: Result<ExitStatus, String>) -> Turn {
        match self.stage {
            Stage::Pull => match status {
                Ok(s) => if s.success {
                    self.got_image()
                } else {
                    self.finish(
                        Seq::empty(),
                        Err(Error::PullFailed { image: self.meta.bldimg }),
                    )
                },
                Err(reason) => self.finish(Seq::empty(), Err(self.invoke_error(reason@))),
            },
            Stage::Build => self.got_build(status),
            _ => self.ignored(),
        }
    }

    /// What follows once a directory was listed.
    #[verifier::opaque]
    pub open spec fn on_listed(self, dirs: Result<Vec<String>, String>) -> Turn {
        match self.stage {
            Stage::Layout => match dirs {
                Ok(list) => if list@.len() == 1 {
                    self.got_root(list@[0]@)
                } else {
                    self.finish(
                        Seq::empty(),
                        Err(
                            Error::SourceArchiveLayout {
                                path: or_empty(self.workdir),
                                count: list@.len() as usize,
                            },
                        ),
                    )
                },
                Err(reason) => self.finish(
                    Seq::empty(),
                    Err(
                        Error::SourceExtract { path: or_empty(self.workdir), source: reason@ },
                    ),
                ),
            },
            _ => self.ignored(),
        }
    }

    /// What follows once a tree was listed.
    #[verifier::opaque]
    pub open spec fn on_walked(self, paths: Vec<String>, uuid: Seq<char>) -> Turn {
        match self.stage {
            Stage::Snapshot => self.got_snapshot(texts(paths@), uuid),
            Stage::Collect => self.got_tree(texts(paths@)),
            _ => self.ignored(),
        }
    }

    /// What follows an event. `uuid` goes into the name of the build's container,
    /// if the build starts.
    pub open spec fn next(self, event: Event, uuid: Seq<char>) -> Turn {
        match event {
            Event::Output(output) => self.on_output(output, uuid),
            Event::Fetched(output) => self.on_fetched(output),
            Event::Bytes(bytes) => self.on_bytes(bytes),
            Event::Answer(answer) => self.on_answer(answer),
            Event::Unpacked(unpacked) => self.on_unpacked(unpacked),
            Event::Exit(status) => self.on_exit(status),
            Event::Listed(dirs) => self.on_listed(dirs),
            Event::Walked(paths) => self.on_walked(paths, uuid),
        }
    }

    /// The error that the engine could not be run.
    pub open spec fn invoke_error(self, reason: Seq<char>) -> Error<Seq<char>> {
        Error::EngineInvoke {
            program: self.request.engine.used().program_text(),
            source: reason,
        }
    }
}

/// A run of the verification.
///
/// It starts with [`Cmd::run`]. Then every action is performed, and what came
/// of it is handed to [`Session::step`], until the run ends with
/// [`Action::Finish`].
pub struct Session {
    pub cmd: Cmd,
    pub interactive: bool,
    pub stage: Stage,
    pub wasm: Vec<u8>,
    pub meta: ExtractedMetadata,
    pub source: String,
    pub format: ArchiveFormat,
    pub archive: Vec<u8>,
    pub workdir: Option<String>,
    pub container_cmd: Vec<String>,
    pub env: Vec<String>,
    pub root: String,
    pub preexisting: Vec<String>,
    pub reproduce: String,
    pub rebuilt: String,
    pub cleanup: State,
}

impl View for Session {
    type V = Run;

    open spec fn view(&self) -> Run {
        Run {
            request: self.cmd@,
            interactive: self.interactive,
            stage: self.stage,
            wasm: self.wasm@,
            meta: self.meta@,
            source: self.source@,
            format: self.format,
            archive: self.archive@,
            workdir: opt_text(self.workdir),
            container_cmd: texts(self.container_cmd@),
            env: texts(self.env@),
            root: self.root@,
            preexisting: texts(self.preexisting@),
            reproduce: self.reproduce@,
            rebuilt: self.rebuilt@,
            cleanup: self.cleanup@,
        }
    }
}

/// A session after a step, together with what the step has made.
pub open spec fn turn(run: Run, progress: Progress) -> Turn {
    Turn { run, lines: texts(progress.lines@), action: progress.action@ }
}

/// Whether the build may start in this stage.
pub open spec fn starts_build(stage: Stage) -> bool {
    stage == Stage::Snapshot || stage == Stage::Toolchain
}

/// Whether a UUID may go into the container's name: a random one, where the build
/// may start.
pub open spec fn is_uuid_in(stage: Stage, uuid: Seq<char>) -> bool {
    starts_build(stage) ==> is_random_uuid(uuid)
}

/// No lines, so far.
fn no_lines() -> (lines: Vec<String>)
    ensures
        texts(lines@) == Seq::<Seq<char>>::empty(),
{
    let lines: Vec<String> = Vec::new();
    assert(texts(lines@) =~= Seq::empty());
    lines
}

/// A list of three texts.
fn three(a: &str, b: &str, c: &str) -> (list: Vec<String>)
    ensures
        texts(list@) == seq![a@, b@, c@],
{
    let mut list: Vec<String> = no_lines();
    push_text(&mut list, a);
    push_text(&mut list, b);
    push_text(&mut list, c);
    assert(texts(list@) =~= seq![a@, b@, c@]);
    list
}

/// A copy of the text, or the empty one where there is none.
fn copied_or_empty(s: &Option<String>) -> (t: String)
    ensures
        t@ == or_empty(opt_text(*s)),
{
    match s {
        Some(s) => s.clone(),
        None => String::new(),
    }
}

impl Cmd {
    /// Starts a run. `interactive` tells whether the user can be asked.
    pub fn run(self, interactive: bool) -> (r: (Session, Progress))
        ensures
            turn(r.0@, r.1) == new_run(self@, interactive).start(),
    {
        let meta: ExtractedMetadata = ExtractedMetadata {
            bldimg: String::new(),
            source_uri: None,
            source_sha256: None,
            bldopts: Vec::new(),
            meta_entries: Vec::new(),
        };
        assert(meta@ =~= no_metadata());
        let mut session: Session = Session {
            cmd: self,
            interactive,
            stage: Stage::Done,
            wasm: Vec::new(),
            meta,
            source: String::new(),
            format: ArchiveFormat::TarGz,
            archive: Vec::new(),
            workdir: None,
            container_cmd: Vec::new(),
            env: Vec::new(),
            root: String::new(),
            preexisting: Vec::new(),
            reproduce: String::new(),
            rebuilt: String::new(),
            cleanup: State::default(),
        };
        assert(session@ =~= new_run(self@, interactive));
        let progress: Progress = session.start();
        (session, progress)
    }
}

impl Session {
    /// What an interrupt has to clean up now.
    pub fn cleanup(&self) -> (state: &State)
        ensures
            state@ == self@.cleanup,
    {
        &self.cleanup
    }

    fn print(&self) -> (print: Print)
        ensures
            print.quiet == self@.request.quiet,
    {
        Print::new(self.cmd.quiet)
    }

    fn wait(&mut self, stage: Stage, lines: Vec<String>, action: Action) -> (r: Progress)
        ensures
            turn(final(self)@, r) == old(self)@.wait(stage, texts(lines@), action@),
    {
        self.stage = stage;
        Progress { lines, action }
    }

    fn finish(&mut self, lines: Vec<String>, result: Result<(), Error>) -> (r: Progress)
        ensures
            turn(final(self)@, r) == old(self)@.finish(
                texts(lines@),
                match result {
                    Ok(()) => Ok(()),
                    Err(e) => Err(e@),
                },
            ),
    {
        let mut lines: Vec<String> = lines;
        let kept: Option<String> = if self.cmd.keep {
            self.workdir.clone()
        } else {
            None
        };
        if let Some(path) = &kept {
            let note: String = concat2("Kept build directory at ", path.as_str());
            say(&mut lines, Print::new(false).infoln(note.as_str()));
        }
        self.wait(Stage::Done, lines, Action::Finish { result, kept })
    }

    fn fail(&mut self, e: Error) -> (r: Progress)
        ensures
            turn(final(self)@, r) == old(self)@.finish(Seq::empty(), Err(e@)),
    {
        self.finish(no_lines(), Err(e))
    }

    fn start(&mut self) -> (r: Progress)
        ensures
            turn(final(self)@, r) == old(self)@.start(),
    {
        if self.cmd.container_args.engine.is_none() {
            self.wait(
                Stage::Engine,
                no_lines(),
                Action::Capture { argv: three("stellar", "env", "STELLAR_CONTAINER_ENGINE") },
            )
        } else {
            self.want_wasm()
        }
    }

    fn want_wasm(&mut self) -> (r: Progress)
        ensures
            turn(final(self)@, r) == old(self)@.want_wasm(),
    {
        proof {
            reveal(Run::want_wasm);
        }
        if self.cmd.wasm.is_some() {
            let path: String = copied_or_empty(&self.cmd.wasm);
            self.wait(Stage::ReadWasm, no_lines(), Action::Read { path })
        } else if self.cmd.contract_id.is_some() || self.cmd.wasm_hash.is_some() {
            let mut lines: Vec<String> = no_lines();
            say(
                &mut lines,
                self.print().infoln("Fetching WASM from the network via `stellar contract fetch`"),
            );
            let argv: Vec<String> = fetch_wasm(
                borrowed(&self.cmd.contract_id),
                borrowed(&self.cmd.wasm_hash),
                borrowed(&self.cmd.network),
            );
            self.wait(Stage::FetchWasm, lines, Action::Fetch { argv })
        } else {
            self.fail(Error::MissingInput)
        }
    }

    fn got_wasm(&mut self, wasm: Vec<u8>) -> (r: Progress)
        ensures
            turn(final(self)@, r) == old(self)@.got_wasm(wasm@),
    {
        proof {
            reveal(Run::got_wasm);
        }
        match extract_metadata(wasm.as_slice()) {
            Ok(meta) => {
                let lines: Vec<String> = self.cmd.announce(&meta);
                let source: Option<String> = self.cmd.effective_source_uri(&meta);
                self.wasm = wasm;
                self.meta = meta;
                match source {
                    Some(source) => {
                        self.source = source;
                        self.want_image_trust(lines)
                    },
                    None => self.finish(lines, Err(Error::SourceUriRequired)),
                }
            },
            Err(e) => self.fail(e),
        }
    }

    fn want_image_trust(&mut self, lines: Vec<String>) -> (r: Progress)
        ensures
            turn(final(self)@, r) == old(self)@.want_image_trust(texts(lines@)),
    {
        proof {
            reveal(Run::want_image_trust);
        }
        match require_trust(
            self.cmd.trust,
            TrustKind::Bldimg,
            self.meta.bldimg.as_str(),
            self.interactive,
        ) {
            Ok(Some(question)) => self.wait(Stage::TrustImage, lines, Action::Ask { question }),
            Ok(None) => self.want_source_trust(lines),
            Err(e) => self.finish(lines, Err(e)),
        }
    }

    fn want_source_trust(&mut self, lines: Vec<String>) -> (r: Progress)
        ensures
            turn(final(self)@, r) == old(self)@.want_source_trust(texts(lines@)),
    {
        proof {
            reveal(Run::want_source_trust);
        }
        match require_trust(
            self.cmd.trust,
            TrustKind::SourceArchive,
            self.source.as_str(),
            self.interactive,
        ) {
            Ok(Some(question)) => self.wait(Stage::TrustSource, lines, Action::Ask { question }),
            Ok(None) => self.want_source(lines),
            Err(e) => self.finish(lines, Err(e)),
        }
    }

    fn want_source(&mut self, lines: Vec<String>) -> (r: Progress)
        ensures
            turn(final(self)@, r) == old(self)@.want_source(texts(lines@)),
    {
        proof {
            reveal(Run::want_source);
        }
        match materialize_source(&self.meta, borrowed(&self.cmd.source_uri)) {
            Ok(plan) => {
                let mut lines: Vec<String> = lines;
                let note: String = concat2(
                    "Fetching source code from ",
                    sanitize(plan.source.as_str()).as_str(),
                );
                say(&mut lines, self.print().infoln(note.as_str()));
                let copy: String = plan.source.clone();
                self.source = plan.source;
                self.format = plan.format;
                let action: Action = if remote(copy.as_str()) {
                    Action::Download { url: copy }
                } else {
                    Action::Read { path: copy }
                };
                self.wait(Stage::Source, lines, action)
            },
            Err(e) => self.finish(lines, Err(e)),
        }
    }

    fn got_source(&mut self, archive: Vec<u8>) -> (r: Progress)
        ensures
            turn(final(self)@, r) == old(self)@.got_source(archive@),
    {
        proof {
            reveal(Run::got_source);
            reveal(Run::want_data_dir);
        }
        let mut lines: Vec<String> = no_lines();
        if let Some(expected) = &self.meta.source_sha256 {
            if let Err(e) = verify_source_sha256(archive.as_slice(), expected.as_str()) {
                return self.fail(e);
            }
            say(&mut lines, self.print().checkln("Source SHA-256 matches"));
        }
        self.archive = archive;
        self.wait(
            Stage::DataDir,
            lines,
            Action::Capture { argv: three("stellar", "cache", "path") },
        )
    }

    fn got_data_dir(&mut self, data_dir: String) -> (r: Progress)
        ensures
            turn(final(self)@, r) == old(self)@.got_data_dir(data_dir@),
    {
        proof {
            reveal(Run::got_data_dir);
        }
        let mut archive: Vec<u8> = Vec::new();
        std::mem::swap(&mut archive, &mut self.archive);
        let format: ArchiveFormat = self.format;
        self.wait(
            Stage::Unpack,
            no_lines(),
            Action::Unpack { data_dir, prefix: SOURCE_TEMPDIR_PREFIX, format, archive },
        )
    }

    fn got_workdir(&mut self, workdir: String) -> (r: Progress)
        ensures
            turn(final(self)@, r) == old(self)@.got_workdir(workdir@),
    {
        proof {
            reveal(Run::got_workdir);
        }
        let print: Print = self.print();
        let mut lines: Vec<String> = no_lines();
        let note: String = concat2("Source materialized at ", workdir.as_str());
        say(&mut lines, print.checkln(note.as_str()));
        set_tempdir(&mut self.cleanup, workdir.clone(), self.cmd.keep);
        self.workdir = Some(workdir);
        say(&mut lines, self.cmd.container_args.warn_if_host_ignored(&print));
        let note: String = concat2("Pulling image ", sanitize(self.meta.bldimg.as_str()).as_str());
        say(&mut lines, print.infoln(note.as_str()));
        let argv: Vec<String> = self.cmd.container_args.pull_command(self.meta.bldimg.as_str());
        let show: bool = !self.cmd.quiet;
        self.wait(Stage::Pull, lines, Action::Run { argv, show })
    }

    fn got_image(&mut self) -> (r: Progress)
        ensures
            turn(final(self)@, r) == old(self)@.got_image(),
    {
        proof {
            reveal(Run::got_image);
        }
        let argv: Vec<String> = locked_probe_command(
            self.meta.bldimg.as_str(),
            &self.cmd.container_args,
        );
        self.wait(Stage::Options, no_lines(), Action::Capture { argv })
    }

    fn got_options(&mut self, help: Result<String, String>) -> (r: Progress)
        ensures
            turn(final(self)@, r) == old(self)@.got_options(
                match help {
                    Ok(help) => Ok(help@),
                    Err(reason) => Err(reason@),
                },
            ),
    {
        proof {
            reveal(Run::got_options);
        }
        let mut lines: Vec<String> = no_lines();
        let (supports_locked, warning) = probe_supports_locked(
            &self.cmd.container_args,
            &help,
            &self.print(),
        );
        say(&mut lines, warning);
        let (container_cmd, env) = build_container_command(&self.meta, supports_locked);
        self.container_cmd = container_cmd;
        self.env = env;
        let path: String = copied_or_empty(&self.workdir);
        self.wait(Stage::Layout, lines, Action::List { path })
    }

    fn got_root(&mut self, root: String) -> (r: Progress)
        ensures
            turn(final(self)@, r) == old(self)@.got_root(root@),
    {
        proof {
            reveal(Run::got_root);
        }
        let path: String = root.clone();
        self.root = root;
        self.wait(Stage::Snapshot, no_lines(), Action::Walk { path })
    }

    fn got_snapshot(&mut self, paths: Vec<String>, uuid: &str) -> (r: Progress)
        ensures
            turn(final(self)@, r) == old(self)@.got_snapshot(texts(paths@), uuid@),
    {
        proof {
            reveal(Run::got_snapshot);
        }
        let mut lines: Vec<String> = no_lines();
        self.preexisting = snapshot_preexisting_wasms(&paths);
        let count: usize = self.preexisting.len();
        if count > 0 {
            let note: String = concat3(
                "Ignoring ",
                render_decimal(count as u64).as_str(),
                " pre-existing WASM artifact(s) in the source; only freshly rebuilt output is trusted",
            );
            say(&mut lines, self.print().warnln(note.as_str()));
        }
        if toolchain_pinned(&self.env) {
            self.want_build(lines, None, uuid)
        } else {
            let argv: Vec<String> = toolchain_probe_command(
                self.meta.bldimg.as_str(),
                &self.cmd.container_args,
            );
            self.wait(Stage::Toolchain, lines, Action::Capture { argv })
        }
    }

    fn want_build(&mut self, lines: Vec<String>, toolchain: Option<String>, uuid: &str) -> (r:
        Progress)
        ensures
            turn(final(self)@, r) == old(self)@.want_build(
                texts(lines@),
                opt_text(toolchain),
                uuid@,
            ),
    {
        proof {
            reveal(Run::want_build);
        }
        pin_toolchain(&mut self.env, toolchain);
        let plan: RunPlan = run_in_container(
            self.meta.bldimg.as_str(),
            self.root.as_str(),
            &self.container_cmd,
            &self.env,
            &self.cmd.container_args,
            &self.cmd.run_args,
            uuid,
        );
        let mut lines: Vec<String> = lines;
        let mut note: String = concat3(
            "Running verifiable build in ",
            sanitize(self.meta.bldimg.as_str()).as_str(),
            " (mount ",
        );
        let bind: String = concat2(self.root.as_str(), ":/source");
        note.append(sanitize(bind.as_str()).as_str());
        note.append(")");
        say(&mut lines, self.print().infoln(note.as_str()));
        if self.cmd.verbose {
            let note: String = concat2("Running: ", plan.reproduce.as_str());
            say(&mut lines, self.print().infoln(note.as_str()));
        }
        set_container(&mut self.cleanup, plan.kill);
        self.reproduce = plan.reproduce;
        let show: bool = self.cmd.verbose && !self.cmd.quiet;
        self.wait(Stage::Build, lines, Action::Run { argv: plan.argv, show })
    }

    fn got_build(&mut self, status: Result<ExitStatus, String>) -> (r: Progress)
        ensures
            turn(final(self)@, r) == old(self)@.got_build(status),
    {
        proof {
            reveal(Run::got_build);
        }
        if status.is_ok() {
            clear_container(&mut self.cleanup);
        }
        match build_result(&self.cmd.container_args, self.reproduce.clone(), status) {
            Ok(()) => {
                let path: String = self.root.clone();
                self.wait(Stage::Collect, no_lines(), Action::Walk { path })
            },
            Err(e) => self.fail(e),
        }
    }

    fn got_tree(&mut self, paths: Vec<String>) -> (r: Progress)
        ensures
            turn(final(self)@, r) == old(self)@.got_tree(texts(paths@)),
    {
        proof {
            reveal(Run::got_tree);
        }
        match find_rebuilt_wasm(self.root.as_str(), &paths, &self.meta, &self.preexisting) {
            Ok(path) => {
                self.rebuilt = path.clone();
                self.wait(Stage::Rebuilt, no_lines(), Action::Read { path })
            },
            Err(e) => self.fail(e),
        }
    }

    fn got_rebuilt(&mut self, rebuilt: Vec<u8>) -> (r: Progress)
        ensures
            turn(final(self)@, r) == old(self)@.got_rebuilt(rebuilt@),
    {
        proof {
            reveal(Run::got_rebuilt);
        }
        let mut lines: Vec<String> = no_lines();
        if self.cmd.keep {
            let note: String = concat2(
                "Rebuilt WASM at ",
                sanitize(self.rebuilt.as_str()).as_str(),
            );
            say(&mut lines, self.print().infoln(note.as_str()));
        }
        match compare(self.wasm.as_slice(), rebuilt.as_slice()) {
            Ok(note) => {
                say(&mut lines, Print::new(false).checkln(note.as_str()));
                self.finish(lines, Ok(()))
            },
            Err(e) => self.finish(lines, Err(e)),
        }
    }

    fn ignore(&mut self) -> (r: Progress)
        ensures
            turn(final(self)@, r) == old(self)@.ignored(),
    {
        Progress { lines: no_lines(), action: Action::Ignore }
    }

    fn on_output(&mut self, output: Result<TextOutput, String>, uuid: &str) -> (r: Progress)
        ensures
            turn(final(self)@, r) == old(self)@.on_output(output, uuid@),
    {
        proof {
            reveal(Run::on_output);
        }
        match self.stage {
            Stage::Engine => {
                self.cmd.container_args.resolve_default_from_cli(output);
                self.want_wasm()
            },
            Stage::DataDir => match data_local_dir(output) {
                Ok(data_dir) => self.got_data_dir(data_dir),
                Err(e) => self.fail(e),
            },
            Stage::Options => self.got_options(stdout_of(output)),
            Stage::Toolchain => {
                let toolchain: Option<String> = probe_active_toolchain(&stdout_of(output));
                self.want_build(no_lines(), toolchain, uuid)
            },
            _ => self.ignore(),
        }
    }

    fn on_fetched(&mut self, output: Result<FetchOutput, String>) -> (r: Progress)
        ensures
            turn(final(self)@, r) == old(self)@.on_fetched(output),
    {
        proof {
            reveal(Run::on_fetched);
        }
        match self.stage {
            Stage::FetchWasm => match fetched_wasm(output) {
                Ok(wasm) => self.got_wasm(wasm),
                Err(e) => self.fail(e),
            },
            _ => self.ignore(),
        }
    }

    fn on_bytes(&mut self, bytes: Result<Vec<u8>, String>) -> (r: Progress)
        ensures
            turn(final(self)@, r) == old(self)@.on_bytes(bytes),
    {
        proof {
            reveal(Run::on_bytes);
        }
        match self.stage {
            Stage::ReadWasm => match bytes {
                Ok(wasm) => self.got_wasm(wasm),
                Err(reason) => {
                    let path: String = copied_or_empty(&self.cmd.wasm);
                    self.fail(Error::ReadWasm(path, reason))
                },
            },
            Stage::Source => match fetch_source_bytes(
                self.source.as_str(),
                bytes,
            ) {
                Ok(archive) => self.got_source(archive),
                Err(e) => self.fail(e),
            },
            Stage::Rebuilt => match bytes {
                Ok(rebuilt) => self.got_rebuilt(rebuilt),
                Err(reason) => {
                    let path: String = self.rebuilt.clone();
                    self.fail(Error::ReadRebuilt { path, source: reason })
                },
            },
            _ => self.ignore(),
        }
    }

    fn on_answer(&mut self, answer: Result<String, String>) -> (r: Progress)
        ensures
            turn(final(self)@, r) == old(self)@.on_answer(answer),
    {
        proof {
            reveal(Run::on_answer);
        }
        match self.stage {
            Stage::TrustImage => match answer {
                Ok(text) => match settle_trust(TrustKind::Bldimg, text.as_str()) {
                    Ok(()) => self.want_source_trust(no_lines()),
                    Err(e) => self.fail(e),
                },
                Err(reason) => self.fail(Error::Stdin(reason)),
            },
            Stage::TrustSource => match answer {
                Ok(text) => match settle_trust(TrustKind::SourceArchive, text.as_str()) {
                    Ok(()) => self.want_source(no_lines()),
                    Err(e) => self.fail(e),
                },
                Err(reason) => self.fail(Error::Stdin(reason)),
            },
            _ => self.ignore(),
        }
    }

    fn on_unpacked(&mut self, unpacked: Result<String, UnpackFault>) -> (r: Progress)
        ensures
            turn(final(self)@, r) == old(self)@.on_unpacked(unpacked),
    {
        proof {
            reveal(Run::on_unpacked);
        }
        match self.stage {
            Stage::Unpack => match unpacked {
                Ok(workdir) => self.got_workdir(workdir),
                Err(UnpackFault::Zip(reason)) => self.fail(Error::ZipExtract(reason)),
                Err(UnpackFault::Archive(reason)) => self.fail(Error::ArchiveExtract(reason)),
            },
            _ => self.ignore(),
        }
    }

    fn on_exit(&mut self, status: Result<ExitStatus, String>) -> (r: Progress)
        ensures
            turn(final(self)@, r) == old(self)@.on_exit(status),
    {
        proof {
            reveal(Run::on_exit);
        }
        match self.stage {
            Stage::Pull => {
                let success: Result<bool, String> = match status {
                    Ok(status) => Ok(status.success),
                    Err(reason) => Err(reason),
                };
                match pull_image(self.meta.bldimg.as_str(), &self.cmd.container_args, success) {
                    Ok(()) => self.got_image(),
                    Err(e) => self.fail(e),
                }
            },
            Stage::Build => self.got_build(status),
            _ => self.ignore(),
        }
    }

    fn on_listed(&mut self, dirs: Result<Vec<String>, String>) -> (r: Progress)
        ensures
            turn(final(self)@, r) == old(self)@.on_listed(dirs),
    {
        proof {
            reveal(Run::on_listed);
        }
        match self.stage {
            Stage::Layout => {
                let workdir: String = copied_or_empty(&self.workdir);
                match locate_extracted_source_root(workdir.as_str(), dirs) {
                    Ok(root) => self.got_root(root),
                    Err(e) => self.fail(e),
                }
            },
            _ => self.ignore(),
        }
    }

    fn on_walked(&mut self, paths: Vec<String>, uuid: &str) -> (r: Progress)
        ensures
            turn(final(self)@, r) == old(self)@.on_walked(paths, uuid@),
    {
        proof {
            reveal(Run::on_walked);
        }
        match self.stage {
            Stage::Snapshot => self.got_snapshot(paths, uuid),
            Stage::Collect => self.got_tree(paths),
            _ => self.ignore(),
        }
    }

    /// Takes what came of the last action, and decides what follows. `uuid` goes
    /// into the name of the build's container, if the build starts.
    pub fn advance(&mut self, event: Event, uuid: &str) -> (r: Progress)
        ensures
            turn(final(self)@, r) == old(self)@.next(event, uuid@),
    {
        match event {
            Event::Output(output) => self.on_output(output, uuid),
            Event::Fetched(output) => self.on_fetched(output),
            Event::Bytes(bytes) => self.on_bytes(bytes),
            Event::Answer(answer) => self.on_answer(answer),
            Event::Unpacked(unpacked) => self.on_unpacked(unpacked),
            Event::Exit(status) => self.on_exit(status),
            Event::Listed(dirs) => self.on_listed(dirs),
            Event::Walked(paths) => self.on_walked(paths, uuid),
        }
    }

    /// Takes what came of the last action, and decides what follows. The
    /// build's container gets a random UUID into its name.
    pub fn step(&mut self, event: Event) -> (r: Progress)
        ensures
            exists|uuid: Seq<char>| #[trigger]
                is_uuid_in(old(self)@.stage, uuid) && turn(final(self)@, r) == old(self)@.next(
                    event,
                    uuid,
                ),
    {
        let uuid: String = match self.stage {
            Stage::Snapshot | Stage::Toolchain => random_uuid(),
            _ => String::new(),
        };
        assert(is_uuid_in(self@.stage, uuid@));
        self.advance(event, uuid.as_str())
    }
}

/// The standard output of a program, whether it succeeded or not.
fn stdout_of(output: Result<TextOutput, String>) -> (r: Result<String, String>)
    ensures
        match output {
            Ok(o) => r == Ok::<String, String>(o.stdout),
            Err(reason) => r == Err::<String, String>(reason),
        },
{
    match output {
        Ok(output) => Ok(output.stdout),
        Err(reason) => Err(reason),
    }
}

/// The text, borrowed.
fn borrowed(s: &Option<String>) -> (r: Option<&str>)
    ensures
        opt_str(r) == opt_text(*s),
{
    match s {
        Some(s) => Some(s.as_str()),
        None => None,
    }
}

/// The contents of an action are those of its texts, words and bytes, each in its
/// place, and its flags and names.
pub proof fn law_contents_of_an_action(action: Action)
    ensures
        ({
            let model = action@;
            match action {
                Action::Capture { argv } => model is Capture && model->Capture_argv == texts(argv@),
                Action::Fetch { argv } => model is Fetch && model->Fetch_argv == texts(argv@),
                Action::Read { path } => model is Read && model->Read_path == path@,
                Action::Download { url } => model is Download && model->Download_url == url@,
                Action::Ask { question } => model is Ask && model->Ask_question == question@,
                Action::Unpack { data_dir, prefix, format, archive } => {
                    &&& model is Unpack
                    &&& model->Unpack_data_dir == data_dir@
                    &&& model->Unpack_prefix == prefix
                    &&& model->Unpack_format == format
                    &&& model->Unpack_archive == archive@
                },
                Action::Run { argv, show } => {
                    &&& model is Run
                    &&& model->Run_argv == texts(argv@)
                    &&& model->Run_show == show
                },
                Action::List { path } => model is List && model->List_path == path@,
                Action::Walk { path } => model is Walk && model->Walk_path == path@,
                Action::Finish { result, kept } => {
                    &&& model is Finish
                    &&& model->Finish_kept == opt_text(kept)
                    &&& model->Finish_result is Ok <==> result is Ok
                    &&& result is Err ==> model->Finish_result->Err_0 == result->Err_0@
                },
                Action::Ignore => model is Ignore,
            }
        }),
{
}

/// The contents of a session and of its progress are those of each part, in its
/// place.
pub proof fn law_contents_of_a_session(session: Session, progress: Progress)
    ensures
        session@.request == session.cmd@,
        session@.interactive == session.interactive,
        session@.stage == session.stage,
        session@.wasm == session.wasm@,
        session@.meta == session.meta@,
        session@.source == session.source@,
        session@.format == session.format,
        session@.archive == session.archive@,
        session@.workdir == opt_text(session.workdir),
        session@.container_cmd == texts(session.container_cmd@),
        session@.env == texts(session.env@),
        session@.root == session.root@,
        session@.preexisting == texts(session.preexisting@),
        session@.reproduce == session.reproduce@,
        session@.rebuilt == session.rebuilt@,
        session@.cleanup == session.cleanup@,
        turn(session@, progress).run == session@,
        turn(session@, progress).lines == texts(progress.lines@),
        turn(session@, progress).action == progress.action@,
{
}

/// A build that starts gets a random UUID: 36 characters, of which four are hyphens
/// and the others hexadecimal digits, with the digit for its version and one of four
/// for its variant.
pub proof fn law_build_gets_a_random_uuid(stage: Stage, uuid: Seq<char>, i: int)
    requires
        stage == Stage::Snapshot || stage == Stage::Toolchain,
        is_uuid_in(stage, uuid),
    ensures
        uuid.len() == 36,
        uuid[8] == '-' && uuid[13] == '-' && uuid[18] == '-' && uuid[23] == '-',
        uuid[14] == '4',
        uuid[19] == '8' || uuid[19] == '9' || uuid[19] == 'a' || uuid[19] == 'b',
        0 <= i < 36 && i != 8 && i != 13 && i != 18 && i != 23 ==> '0' <= uuid[i] <= '9' || 'a'
            <= uuid[i] <= 'f',
{
}

} // verus!
