//! What a run writes is harmless to a terminal.
//!
//! What comes from the WASM, from the user or from the source archive is
//! sanitized wherever it is written. The rest is the library's own text, the name
//! of the directory that the source was unpacked into, and the reason why an
//! engine could not be run.

use vstd::prelude::*;

use crate::container::{
    is_release_wasm, law_reproduce_line_is_harmless, mount, probe_failed, reproduce_line,
    with_toolchain,
};
use crate::digest::{law_hex_length, sha256, sha256_text};
use crate::engine::{answered, host_ignored, limit_flags};
use crate::error::Error;
use crate::history::{reached, Step};
use crate::meta::{extracted, meta_sections};
use crate::print::{check, info, is_harmless, law_sanitized_is_harmless, line, sanitized, warn};
use crate::session::{new_run, Action, Event, Run, Stage, Turn};
use crate::source::{effective_source, source_plan};
use crate::text::{decimal, first_word, texts};
use crate::trust::{trust_question, TrustKind};
use crate::verify::{
    all_harmless, announcement, law_announcement_is_harmless, lemma_decimal_is_harmless, verdict,
    verified_note, Request,
};

verus! {

/// Whether what an event tells of the machine is harmless: the directory that the
/// source was unpacked into, and why a program could not be run for its output.
pub open spec fn is_tame(event: Event) -> bool {
    match event {
        Event::Unpacked(Ok(path)) => is_harmless(path@),
        Event::Output(Err(reason)) => is_harmless(reason@),
        _ => true,
    }
}

/// Whether the directory that the source was unpacked into has a harmless name.
pub open spec fn is_tame_run(run: Run) -> bool {
    run.workdir is Some ==> is_harmless(run.workdir->0)
}

/// Whether a turn writes and asks nothing that makes a terminal act, and leaves a
/// run of which the same can be said.
pub open spec fn is_tame_turn(turn: Turn) -> bool {
    &&& all_harmless(turn.lines)
    &&& turn.action matches Action::Ask { question } ==> is_harmless(question)
    &&& is_tame_run(turn.run)
}

/// The icons are harmless, and so is a line with a harmless message.
proof fn lemma_line_is_harmless(message: Seq<char>)
    requires
        is_harmless(message),
    ensures
        is_harmless(info(message)),
        is_harmless(check(message)),
        is_harmless(warn(message)),
        is_harmless(line("❓"@, message)),
{
    reveal_strlit(" ");
    reveal_strlit("ℹ️");
    reveal_strlit("✅");
    reveal_strlit("⚠️");
    reveal_strlit("❓");
}

/// A question for trust is harmless, whatever the value is.
proof fn lemma_question_is_harmless(kind: TrustKind, value: Seq<char>)
    ensures
        is_harmless(trust_question(kind, value)),
{
    reveal_strlit("Trust the ");
    reveal_strlit("build image");
    reveal_strlit("source archive");
    reveal_strlit(" ");
    reveal_strlit("? [y/N] ");
    law_sanitized_is_harmless(value);
    lemma_line_is_harmless(
        "Trust the "@ + kind.label_text() + " "@ + sanitized(value) + "? [y/N] "@,
    );
}

/// The end of a run is harmless.
proof fn lemma_tame_finish(
    run: Run,
    lines: Seq<Seq<char>>,
    result: Result<(), Error<Seq<char>>>,
)
    requires
        is_tame_run(run),
        all_harmless(lines),
    ensures
        is_tame_turn(run.finish(lines, result)),
{
    reveal_strlit("Kept build directory at ");
    if run.request.keep && run.workdir is Some {
        lemma_line_is_harmless("Kept build directory at "@ + run.workdir->0);
    }
}

/// Asking for the WASM is harmless.
proof fn lemma_tame_want_wasm(run: Run)
    requires
        is_tame_run(run),
    ensures
        is_tame_turn(run.want_wasm()),
{
    reveal(Run::want_wasm);
    reveal_strlit("Fetching WASM from the network via `stellar contract fetch`");
    lemma_line_is_harmless("Fetching WASM from the network via `stellar contract fetch`"@);
    lemma_tame_finish(run, Seq::empty(), Err(Error::MissingInput));
}

/// Asking for the source is harmless.
proof fn lemma_tame_want_source(run: Run, lines: Seq<Seq<char>>)
    requires
        is_tame_run(run),
        all_harmless(lines),
    ensures
        is_tame_turn(run.want_source(lines)),
{
    reveal(Run::want_source);
    reveal_strlit("Fetching source code from ");
    match source_plan(run.request.source_uri, run.meta) {
        Ok((source, _)) => {
            law_sanitized_is_harmless(source);
            lemma_line_is_harmless(
                "Fetching source code from "@ + sanitized(source),
            );
        },
        Err(e) => {
            lemma_tame_finish(run, lines, Err(e));
        },
    }
}

/// Demanding trust in the source is harmless.
proof fn lemma_tame_want_source_trust(run: Run, lines: Seq<Seq<char>>)
    requires
        is_tame_run(run),
        all_harmless(lines),
    ensures
        is_tame_turn(run.want_source_trust(lines)),
{
    reveal(Run::want_source_trust);
    lemma_question_is_harmless(TrustKind::SourceArchive, run.source);
    lemma_tame_want_source(run, lines);
    lemma_tame_finish(
        run,
        lines,
        Err(
            Error::TrustRequired {
                kind: TrustKind::SourceArchive,
                value: run.source,
            },
        ),
    );
}

/// Demanding trust in the image is harmless.
proof fn lemma_tame_want_image_trust(run: Run, lines: Seq<Seq<char>>)
    requires
        is_tame_run(run),
        all_harmless(lines),
    ensures
        is_tame_turn(run.want_image_trust(lines)),
{
    reveal(Run::want_image_trust);
    lemma_question_is_harmless(TrustKind::Bldimg, run.meta.bldimg);
    lemma_tame_want_source_trust(run, lines);
    lemma_tame_finish(
        run,
        lines,
        Err(
            Error::TrustRequired {
                kind: TrustKind::Bldimg,
                value: run.meta.bldimg,
            },
        ),
    );
}

/// Taking the WASM is harmless.
proof fn lemma_tame_got_wasm(run: Run, wasm: Seq<u8>)
    requires
        is_tame_run(run),
    ensures
        is_tame_turn(run.got_wasm(wasm)),
{
    reveal(Run::got_wasm);
    let read = match meta_sections(wasm) {
        Ok(sections) => extracted(sections),
        Err(e) => Err(e),
    };
    match read {
        Ok(meta) => {
            let lines = announcement(run.request.quiet, run.request.source_uri, meta);
            law_announcement_is_harmless(run.request.quiet, run.request.source_uri, meta);
            let next = Run { wasm, meta, ..run };
            match effective_source(run.request.source_uri, meta.source_uri) {
                Some(source) => {
                    lemma_tame_want_image_trust(Run { source, ..next }, lines);
                },
                None => {
                    lemma_tame_finish(next, lines, Err(Error::SourceUriRequired));
                },
            }
        },
        Err(e) => {
            lemma_tame_finish(run, Seq::empty(), Err(e));
        },
    }
}

/// Taking the source is harmless.
proof fn lemma_tame_got_source(run: Run, archive: Seq<u8>)
    requires
        is_tame_run(run),
    ensures
        is_tame_turn(run.got_source(archive)),
{
    reveal(Run::got_source);
    reveal(Run::want_data_dir);
    reveal_strlit("Source SHA-256 matches");
    lemma_line_is_harmless("Source SHA-256 matches"@);
    if run.meta.source_sha256 is Some {
        lemma_tame_finish(
            run,
            Seq::empty(),
            Err(
                Error::SourceHashMismatch {
                    expected: run.meta.source_sha256->0,
                    actual: sha256_text(archive),
                },
            ),
        );
    }
}

/// Taking the unpacked source is harmless.
proof fn lemma_tame_got_workdir(run: Run, workdir: Seq<char>)
    requires
        is_harmless(workdir),
    ensures
        is_tame_turn(run.got_workdir(workdir)),
{
    reveal(Run::got_workdir);
    reveal_strlit("Source materialized at ");
    reveal_strlit("Pulling image ");
    reveal_strlit("`--docker-host`/`DOCKER_HOST` is ignored because the `");
    reveal_strlit("docker");
    reveal_strlit("apple-container");
    reveal_strlit("` engine does not support it");
    lemma_line_is_harmless("Source materialized at "@ + workdir);
    law_sanitized_is_harmless(run.meta.bldimg);
    lemma_line_is_harmless("Pulling image "@ + sanitized(run.meta.bldimg));
    lemma_line_is_harmless(host_ignored(run.request.engine.used()));
}

/// Taking the options of the build is harmless.
proof fn lemma_tame_got_options(run: Run, help: Result<Seq<char>, Seq<char>>)
    requires
        is_tame_run(run),
        help is Err ==> is_harmless(help->Err_0),
    ensures
        is_tame_turn(run.got_options(help)),
{
    reveal(Run::got_options);
    if let Err(reason) = help {
        reveal_strlit(
            "Could not probe whether the container's `contract build` supports --locked (could not run `",
        );
        reveal_strlit("docker");
        reveal_strlit("container");
        reveal_strlit("` (is it installed and on PATH?): ");
        reveal_strlit("); building without it");
        lemma_line_is_harmless(probe_failed(run.request.engine.used().program_text(), reason));
    }
}

/// Starting the build is harmless.
proof fn lemma_tame_want_build(
    run: Run,
    lines: Seq<Seq<char>>,
    toolchain: Option<Seq<char>>,
    uuid: Seq<char>,
)
    requires
        is_tame_run(run),
        all_harmless(lines),
    ensures
        is_tame_turn(run.want_build(lines, toolchain, uuid)),
{
    reveal(Run::want_build);
    reveal_strlit("Running verifiable build in ");
    reveal_strlit(" (mount ");
    reveal_strlit(")");
    reveal_strlit("Running: ");
    let limits = limit_flags(run.request.cpus, run.request.memory);
    let env = with_toolchain(run.env, toolchain);
    law_reproduce_line_is_harmless(
        run.request.engine,
        limits,
        run.root,
        env,
        run.meta.bldimg,
        run.container_cmd,
    );
    let reproduce = reproduce_line(
        run.request.engine,
        limits,
        run.root,
        env,
        run.meta.bldimg,
        run.container_cmd,
    );
    lemma_line_is_harmless("Running: "@ + reproduce);
    law_sanitized_is_harmless(run.meta.bldimg);
    law_sanitized_is_harmless(mount(run.root));
    lemma_line_is_harmless(
        "Running verifiable build in "@ + sanitized(run.meta.bldimg) + " (mount "@
            + sanitized(mount(run.root)) + ")"@,
    );
}

/// Taking the tree before the build is harmless.
proof fn lemma_tame_got_snapshot(run: Run, paths: Seq<Seq<char>>, uuid: Seq<char>)
    requires
        is_tame_run(run),
    ensures
        is_tame_turn(run.got_snapshot(paths, uuid)),
{
    reveal(Run::got_snapshot);
    let preexisting = paths.filter(is_release_wasm());
    let next = Run { preexisting, ..run };
    reveal_strlit("Ignoring ");
    reveal_strlit(
        " pre-existing WASM artifact(s) in the source; only freshly rebuilt output is trusted",
    );
    lemma_decimal_is_harmless(preexisting.len());
    lemma_line_is_harmless(
        "Ignoring "@ + decimal(preexisting.len())
            + " pre-existing WASM artifact(s) in the source; only freshly rebuilt output is trusted"@,
    );
    assert forall|lines: Seq<Seq<char>>| all_harmless(lines) implies is_tame_turn(
        #[trigger] next.want_build(lines, None, uuid),
    ) by {
        lemma_tame_want_build(next, lines, None, uuid);
    }
}

/// Giving the verdict is harmless.
proof fn lemma_tame_got_rebuilt(run: Run, rebuilt: Seq<u8>)
    requires
        is_tame_run(run),
    ensures
        is_tame_turn(run.got_rebuilt(rebuilt)),
{
    reveal(Run::got_rebuilt);
    reveal_strlit("Rebuilt WASM at ");
    reveal_strlit("Verified: ");
    reveal_strlit(" bytes, sha256=");
    law_sanitized_is_harmless(run.rebuilt);
    lemma_line_is_harmless("Rebuilt WASM at "@ + sanitized(run.rebuilt));
    let size = (run.wasm.len() as usize) as nat;
    let hash = sha256_text(run.wasm);
    law_hex_length(sha256(run.wasm));
    lemma_decimal_is_harmless(size);
    lemma_line_is_harmless(verified_note(size, hash));
    let lines = if run.request.keep {
        run.informed(Seq::empty(), "Rebuilt WASM at "@ + sanitized(run.rebuilt))
    } else {
        Seq::empty()
    };
    assert(all_harmless(lines));
    match verdict(run.wasm, rebuilt) {
        Ok(note) => {
            assert(all_harmless(lines.push(check(note))));
            lemma_tame_finish(run, lines.push(check(note)), Ok(()));
        },
        Err(e) => {
            lemma_tame_finish(run, lines, Err(e));
        },
    }
}

/// Every step from a tame run writes and asks nothing that makes a terminal act.
proof fn lemma_tame_next(run: Run, event: Event, uuid: Seq<char>)
    requires
        is_tame_run(run),
        is_tame(event),
    ensures
        is_tame_turn(run.next(event, uuid)),
{
    assert forall|result: Result<(), Error<Seq<char>>>| is_tame_turn(
        #[trigger] run.finish(Seq::empty(), result),
    ) by {
        lemma_tame_finish(run, Seq::empty(), result);
    }
    match event {
        Event::Output(output) => {
            reveal(Run::on_output);
            reveal(Run::got_data_dir);
            match run.stage {
                Stage::Engine => {
                    let next = Run {
                        request: Request {
                            engine: run.request.engine.with_default(answered(output)),
                            ..run.request
                        },
                        ..run
                    };
                    lemma_tame_want_wasm(next);
                },
                Stage::Options => {
                    let help = match output {
                        Ok(o) => Ok(o.stdout@),
                        Err(reason) => Err(reason@),
                    };
                    lemma_tame_got_options(run, help);
                },
                Stage::Toolchain => {
                    let toolchain = match output {
                        Ok(o) => first_word(o.stdout@),
                        Err(_) => None,
                    };
                    lemma_tame_want_build(run, Seq::empty(), toolchain, uuid);
                },
                _ => {},
            }
        },
        Event::Fetched(output) => {
            reveal(Run::on_fetched);
            if let Ok(o) = output {
                lemma_tame_got_wasm(run, o.stdout@);
            }
        },
        Event::Bytes(bytes) => {
            reveal(Run::on_bytes);
            if let Ok(contents) = bytes {
                lemma_tame_got_wasm(run, contents@);
                lemma_tame_got_source(run, contents@);
                lemma_tame_got_rebuilt(run, contents@);
            }
        },
        Event::Answer(answer) => {
            reveal(Run::on_answer);
            lemma_tame_want_source_trust(run, Seq::empty());
            lemma_tame_want_source(run, Seq::empty());
        },
        Event::Unpacked(unpacked) => {
            reveal(Run::on_unpacked);
            if let Ok(workdir) = unpacked {
                lemma_tame_got_workdir(run, workdir@);
            }
        },
        Event::Exit(status) => {
            reveal(Run::on_exit);
            reveal(Run::got_image);
            reveal(Run::got_build);
            let ended = Run { cleanup: run.cleanup.without_container(), ..run };
            assert forall|result: Result<(), Error<Seq<char>>>| is_tame_turn(
                #[trigger] ended.finish(Seq::empty(), result),
            ) by {
                lemma_tame_finish(ended, Seq::empty(), result);
            }
        },
        Event::Listed(dirs) => {
            reveal(Run::on_listed);
            reveal(Run::got_root);
        },
        Event::Walked(paths) => {
            reveal(Run::on_walked);
            reveal(Run::got_tree);
            lemma_tame_got_snapshot(run, texts(paths@), uuid);
        },
    }
}

/// Nothing that a run writes or asks makes a terminal act, whatever the WASM
/// records, the user gives, the source archive holds and the programs answer, as
/// long as the name of the directory that the source is unpacked into and the
/// reason why an engine cannot be run are harmless.
pub proof fn law_every_line_is_harmless(
    request: Request,
    interactive: bool,
    steps: Seq<Step>,
)
    requires
        forall|i: int| 0 <= i < steps.len() ==> is_tame((#[trigger] steps[i]).0),
    ensures
        all_harmless(reached(request, interactive, steps).lines),
        reached(request, interactive, steps).action matches Action::Ask { question }
            ==> is_harmless(question),
        is_tame_run(reached(request, interactive, steps).run),
    decreases steps.len(),
{
    if steps.len() == 0 {
        lemma_tame_want_wasm(new_run(request, interactive));
    } else {
        let init = steps.drop_last();
        assert forall|i: int| 0 <= i < init.len() implies is_tame((#[trigger] init[i]).0) by {
            assert(init[i] == steps[i]);
        }
        law_every_line_is_harmless(request, interactive, init);
        assert(is_tame(steps[steps.len() - 1].0));
        lemma_tame_next(
            reached(request, interactive, init).run,
            steps.last().0,
            steps.last().1,
        );
    }
}

} // verus!
