//! What holds of every run, whatever comes of its actions.

use vstd::prelude::*;

use crate::cleanup::{kill_of, removal_of};
use crate::container::{
    build_command, chosen_wasm, container_name, environment, fresh_wasms, is_release_wasm,
    law_container_leads_back_to_the_source, locked_probe, option_words, pins_toolchain,
    probe_failed, reproduce_line, run_command, selected_package, toolchain_probe, with_toolchain,
    ExitStatus,
};
use crate::digest::{sha256, sha256_text};
use crate::engine::{answered, host_ignored, limit_flags, Engine, EngineChoice, TextOutput};
use crate::error::Error;
use crate::meta::{extracted, law_accepted_metadata, meta_sections, Entry, Metadata};
use crate::net::{fetch_command, FetchOutput};
use crate::path::{entry_path, file_name, is_entry_name};
use crate::print::{check, info, sanitized, warn};
use crate::session::{new_run, or_empty, Action, Event, Run, Stage, Turn, UnpackFault};
use crate::source::{
    basename, digest_matches, effective_source, extensions_text, format_named, is_remote,
    law_recorded_digest_is_exact, source_plan, url_segments, ArchiveFormat,
};
use crate::text::{decimal, first_word, has_part, texts, trimmed};
use crate::trust::{default_trusted, grants, trust_question, TrustKind};
use crate::verify::{announcement, law_announcement_is_harmless, law_verdict, verdict, Request};

verus! {

/// One step of a run: what came of the last action, and the UUID that goes into the
/// name of the build's container, if the build starts.
pub type Step = (Event, Seq<char>);

/// Where a run stands after some steps.
pub open spec fn reached(request: Request, interactive: bool, steps: Seq<Step>) -> Turn
    decreases steps.len(),
{
    if steps.len() == 0 {
        new_run(request, interactive).start()
    } else {
        reached(request, interactive, steps.drop_last()).run.next(steps.last().0, steps.last().1)
    }
}

/// The place of a stage in the order of the stages.
pub open spec fn rank(stage: Stage) -> nat {
    match stage {
        Stage::Engine => 0,
        Stage::ReadWasm => 1,
        Stage::FetchWasm => 2,
        Stage::TrustImage => 3,
        Stage::TrustSource => 4,
        Stage::Source => 5,
        Stage::DataDir => 6,
        Stage::Unpack => 7,
        Stage::Pull => 8,
        Stage::Options => 9,
        Stage::Layout => 10,
        Stage::Snapshot => 11,
        Stage::Toolchain => 12,
        Stage::Build => 13,
        Stage::Collect => 14,
        Stage::Rebuilt => 15,
        Stage::Done => 16,
    }
}

/// A test of a run and of what came of the action whose outcome it waits for.
pub type Test = spec_fn(Run, Event) -> bool;

/// The run before step `i`.
pub open spec fn before(request: Request, interactive: bool, steps: Seq<Step>, i: int) -> Run {
    reached(request, interactive, steps.take(i)).run
}

/// Whether one of the steps passes the test.
pub open spec fn occurred(
    request: Request,
    interactive: bool,
    steps: Seq<Step>,
    test: Test,
) -> bool {
    exists|i: int|
        0 <= i < steps.len() && #[trigger] test(
            before(request, interactive, steps, i),
            steps[i].0,
        )
}

/// The test for the step that hands over the WASM to verify.
pub open spec fn gives_wasm(wasm: Seq<u8>) -> Test {
    |run: Run, event: Event|
        match (run.stage, event) {
            (Stage::ReadWasm, Event::Bytes(Ok(bytes))) => bytes@ == wasm,
            (Stage::FetchWasm, Event::Fetched(Ok(output))) => output.success && output.stdout@
                == wasm,
            _ => false,
        }
}

/// The test for the step in which the user grants trust in a value.
pub open spec fn grants_trust(kind: TrustKind, value: Seq<char>) -> Test {
    |run: Run, event: Event|
        match (run.stage, event) {
            (Stage::TrustImage, Event::Answer(Ok(answer))) => {
                &&& kind == TrustKind::Bldimg
                &&& value == run.meta.bldimg
                &&& grants(answer@)
            },
            (Stage::TrustSource, Event::Answer(Ok(answer))) => {
                &&& kind == TrustKind::SourceArchive
                &&& value == run.source
                &&& grants(answer@)
            },
            _ => false,
        }
}

/// The test for the step that hands over the archive of a source.
pub open spec fn gives_archive(source: Seq<char>, archive: Seq<u8>) -> Test {
    |run: Run, event: Event|
        match (run.stage, event) {
            (Stage::Source, Event::Bytes(Ok(bytes))) => run.source == source && bytes@ == archive,
            _ => false,
        }
}

/// The test for the step that lists the tree under `root` before the build.
pub open spec fn lists_before(root: Seq<char>, paths: Seq<Seq<char>>) -> Test {
    |run: Run, event: Event|
        match (run.stage, event) {
            (Stage::Snapshot, Event::Walked(list)) => run.root == root && texts(list@) == paths,
            _ => false,
        }
}

/// The test for the step in which the build of the tree under `root` succeeds,
/// in the image and with the options of the metadata.
pub open spec fn builds(root: Seq<char>, meta: Metadata) -> Test {
    |run: Run, event: Event|
        match (run.stage, event) {
            (Stage::Build, Event::Exit(Ok(status))) => run.root == root && run.meta == meta
                && status.success,
            _ => false,
        }
}

/// The test for the step that lists the tree under `root` after the build.
pub open spec fn lists_after(root: Seq<char>, paths: Seq<Seq<char>>) -> Test {
    |run: Run, event: Event|
        match (run.stage, event) {
            (Stage::Collect, Event::Walked(list)) => run.root == root && texts(list@) == paths,
            _ => false,
        }
}

/// The test for the step that hands over the rebuilt WASM in a file.
pub open spec fn gives_rebuilt(path: Seq<char>, rebuilt: Seq<u8>) -> Test {
    |run: Run, event: Event|
        match (run.stage, event) {
            (Stage::Rebuilt, Event::Bytes(Ok(bytes))) => run.rebuilt == path && bytes@ == rebuilt,
            _ => false,
        }
}

/// Whether a value is trusted: by `--trust`, by default, or by the user's word on
/// this very value.
pub open spec fn is_trusted(
    request: Request,
    interactive: bool,
    steps: Seq<Step>,
    kind: TrustKind,
    value: Seq<char>,
) -> bool {
    ||| request.trust
    ||| default_trusted(kind, value)
    ||| occurred(request, interactive, steps, grants_trust(kind, value))
}

/// Whether this is the metadata that a WASM records.
pub open spec fn is_metadata_of(wasm: Seq<u8>, meta: Metadata) -> bool {
    match meta_sections(wasm) {
        Ok(sections) => extracted(sections) == Ok::<Metadata, Error<Seq<char>>>(meta),
        Err(_) => false,
    }
}

/// Whether these are the WASMs of release builds in the tree under `root` before
/// the build.
pub open spec fn is_snapshot(
    request: Request,
    interactive: bool,
    steps: Seq<Step>,
    root: Seq<char>,
    list: Seq<Seq<char>>,
) -> bool {
    exists|paths: Seq<Seq<char>>| #[trigger]
        occurred(request, interactive, steps, lists_before(root, paths)) && list == paths.filter(
            is_release_wasm(),
        )
}

/// Whether the rebuilt WASM of a run was chosen among those that the build has
/// left.
pub open spec fn is_chosen(
    request: Request,
    interactive: bool,
    steps: Seq<Step>,
    run: Run,
) -> bool {
    exists|paths: Seq<Seq<char>>| #[trigger]
        occurred(request, interactive, steps, lists_after(run.root, paths)) && chosen_wasm(
            run.root,
            fresh_wasms(paths, run.preexisting),
            selected_package(run.meta.bldopts),
        ) == Ok::<Seq<char>, Error<Seq<char>>>(run.rebuilt)
}

/// What holds of a run after some steps, by the stage that it is in.
pub open spec fn is_sound(
    request: Request,
    interactive: bool,
    steps: Seq<Step>,
    run: Run,
) -> bool {
    let at = rank(run.stage);
    let done = run.stage == Stage::Done;
    &&& run.request == (Request { engine: run.request.engine, ..request })
    &&& run.interactive == interactive
    &&& !done && at >= rank(Stage::TrustImage) ==> {
        &&& occurred(request, interactive, steps, gives_wasm(run.wasm))
        &&& is_metadata_of(run.wasm, run.meta)
        &&& effective_source(request.source_uri, run.meta.source_uri) == Some(run.source)
    }
    &&& !done && at >= rank(Stage::TrustSource) ==> is_trusted(
        request,
        interactive,
        steps,
        TrustKind::Bldimg,
        run.meta.bldimg,
    )
    &&& !done && at >= rank(Stage::Source) ==> is_trusted(
        request,
        interactive,
        steps,
        TrustKind::SourceArchive,
        run.source,
    )
    &&& run.stage == Stage::DataDir ==> {
        &&& occurred(request, interactive, steps, gives_archive(run.source, run.archive))
        &&& run.meta.source_sha256 is Some
        &&& digest_matches(run.archive, run.meta.source_sha256->0)
    }
    &&& run.workdir is Some <==> run.cleanup.tempdir is Some
    &&& run.workdir is Some ==> run.cleanup.tempdir == run.workdir && run.cleanup.keep
        == request.keep
    &&& at < rank(Stage::Pull) ==> run.workdir is None
    &&& !done && at >= rank(Stage::Pull) ==> run.workdir is Some
    &&& !done && run.stage != Stage::Build ==> run.cleanup.container_kill is None
    &&& run.stage == Stage::Build ==> kill_of(run.cleanup) is Some
    &&& !done && at > rank(Stage::Snapshot) ==> is_snapshot(
        request,
        interactive,
        steps,
        run.root,
        run.preexisting,
    )
    &&& !done && at > rank(Stage::Build) ==> occurred(
        request,
        interactive,
        steps,
        builds(run.root, run.meta),
    )
    &&& run.stage == Stage::Rebuilt ==> is_chosen(request, interactive, steps, run)
}

/// What has occurred in some steps and one more.
proof fn lemma_occurred(request: Request, interactive: bool, steps: Seq<Step>)
    requires
        steps.len() > 0,
    ensures
        forall|test: Test| #[trigger]
            occurred(request, interactive, steps, test) <==> occurred(
                request,
                interactive,
                steps.drop_last(),
                test,
            ) || test(
                reached(request, interactive, steps.drop_last()).run,
                steps.last().0,
            ),
{
    let init = steps.drop_last();
    let n = init.len() as int;
    assert forall|test: Test| #[trigger]
        occurred(request, interactive, steps, test) <==> occurred(
            request,
            interactive,
            init,
            test,
        ) || test(reached(request, interactive, init).run, steps.last().0) by {
        assert(steps.take(n) =~= init);
        if occurred(request, interactive, steps, test) {
            let i = choose|i: int|
                0 <= i < steps.len() && #[trigger] test(
                    before(request, interactive, steps, i),
                    steps[i].0,
                );
            if i < n {
                assert(init.take(i) =~= steps.take(i));
                assert(test(before(request, interactive, init, i), init[i].0));
            }
        }
        if occurred(request, interactive, init, test) {
            let i = choose|i: int|
                0 <= i < init.len() && #[trigger] test(
                    before(request, interactive, init, i),
                    init[i].0,
                );
            assert(init.take(i) =~= steps.take(i));
            assert(test(before(request, interactive, steps, i), steps[i].0));
        }
        if test(reached(request, interactive, init).run, steps.last().0) {
            assert(test(before(request, interactive, steps, n), steps[n].0));
        }
    }
}

/// What held of a run holds after one more step, as long as the run stays.
proof fn lemma_still_sound(request: Request, interactive: bool, steps: Seq<Step>, run: Run)
    requires
        steps.len() > 0,
        is_sound(request, interactive, steps.drop_last(), run),
    ensures
        is_sound(request, interactive, steps, run),
{
    let init = steps.drop_last();
    lemma_occurred(request, interactive, steps);
    if is_snapshot(request, interactive, init, run.root, run.preexisting) {
        let paths = choose|paths: Seq<Seq<char>>| #[trigger]
            occurred(request, interactive, init, lists_before(run.root, paths)) && run.preexisting
                == paths.filter(is_release_wasm());
        assert(occurred(request, interactive, steps, lists_before(run.root, paths)));
    }
    if is_chosen(request, interactive, init, run) {
        let paths = choose|paths: Seq<Seq<char>>| #[trigger]
            occurred(request, interactive, init, lists_after(run.root, paths)) && chosen_wasm(
                run.root,
                fresh_wasms(paths, run.preexisting),
                selected_package(run.meta.bldopts),
            ) == Ok::<Seq<char>, Error<Seq<char>>>(run.rebuilt);
        assert(occurred(request, interactive, steps, lists_after(run.root, paths)));
    }
    assert(is_trusted(request, interactive, init, TrustKind::Bldimg, run.meta.bldimg)
        ==> is_trusted(request, interactive, steps, TrustKind::Bldimg, run.meta.bldimg));
    assert(is_trusted(request, interactive, init, TrustKind::SourceArchive, run.source)
        ==> is_trusted(request, interactive, steps, TrustKind::SourceArchive, run.source));
}

/// The step that asks for the WASM keeps a run sound.
proof fn lemma_want_wasm(
    request: Request,
    interactive: bool,
    steps: Seq<Step>,
    run: Run,
)
    requires
        rank(run.stage) == 0,
        is_sound(request, interactive, steps, run),
    ensures
        is_sound(request, interactive, steps, run.want_wasm().run),
{
    reveal(Run::want_wasm);
}

/// The step that asks for the source keeps a run sound.
proof fn lemma_want_source(
    request: Request,
    interactive: bool,
    steps: Seq<Step>,
    run: Run,
    lines: Seq<Seq<char>>,
)
    requires
        is_sound(request, interactive, steps, Run { stage: Stage::Source, ..run }),
    ensures
        is_sound(request, interactive, steps, run.want_source(lines).run),
{
    reveal(Run::want_source);
}

/// The step that demands trust in the source keeps a run sound.
proof fn lemma_want_source_trust(
    request: Request,
    interactive: bool,
    steps: Seq<Step>,
    run: Run,
    lines: Seq<Seq<char>>,
)
    requires
        is_sound(request, interactive, steps, Run { stage: Stage::TrustSource, ..run }),
    ensures
        is_sound(request, interactive, steps, run.want_source_trust(lines).run),
{
    reveal(Run::want_source_trust);
    if run.request.trust || default_trusted(TrustKind::SourceArchive, run.source) {
        lemma_want_source(request, interactive, steps, run, lines);
    }
}

/// The step that demands trust in the image keeps a run sound.
proof fn lemma_want_image_trust(
    request: Request,
    interactive: bool,
    steps: Seq<Step>,
    run: Run,
    lines: Seq<Seq<char>>,
)
    requires
        is_sound(request, interactive, steps, Run { stage: Stage::TrustImage, ..run }),
    ensures
        is_sound(request, interactive, steps, run.want_image_trust(lines).run),
{
    reveal(Run::want_image_trust);
    if run.request.trust || default_trusted(TrustKind::Bldimg, run.meta.bldimg) {
        lemma_want_source_trust(request, interactive, steps, run, lines);
    }
}

/// The step that takes the WASM keeps a run sound.
proof fn lemma_got_wasm(
    request: Request,
    interactive: bool,
    steps: Seq<Step>,
    run: Run,
    wasm: Seq<u8>,
)
    requires
        run.stage == Stage::ReadWasm || run.stage == Stage::FetchWasm,
        is_sound(request, interactive, steps, run),
        occurred(request, interactive, steps, gives_wasm(wasm)),
    ensures
        is_sound(request, interactive, steps, run.got_wasm(wasm).run),
{
    reveal(Run::got_wasm);
    if let Ok(sections) = meta_sections(wasm) {
        if let Ok(meta) = extracted(sections) {
            let next = Run { wasm, meta, ..run };
            if let Some(source) = effective_source(run.request.source_uri, meta.source_uri) {
                let lines = announcement(run.request.quiet, run.request.source_uri, meta);
                lemma_want_image_trust(
                    request,
                    interactive,
                    steps,
                    Run { source, ..next },
                    lines,
                );
            }
        }
    }
}

/// The step that takes the source keeps a run sound.
proof fn lemma_got_source(
    request: Request,
    interactive: bool,
    steps: Seq<Step>,
    run: Run,
    archive: Seq<u8>,
)
    requires
        run.stage == Stage::Source,
        is_sound(request, interactive, steps, run),
        occurred(request, interactive, steps, gives_archive(run.source, archive)),
    ensures
        is_sound(request, interactive, steps, run.got_source(archive).run),
{
    reveal(Run::got_source);
    reveal(Run::want_data_dir);
    law_accepted_metadata(meta_sections(run.wasm)->Ok_0, run.meta);
}

/// The step that unpacks the source keeps a run sound.
proof fn lemma_got_data_dir(
    request: Request,
    interactive: bool,
    steps: Seq<Step>,
    run: Run,
    data_dir: Seq<char>,
)
    requires
        run.stage == Stage::DataDir,
        is_sound(request, interactive, steps, run),
    ensures
        is_sound(request, interactive, steps, run.got_data_dir(data_dir).run),
{
    reveal(Run::got_data_dir);
}

/// The step that pulls the image keeps a run sound.
proof fn lemma_got_workdir(
    request: Request,
    interactive: bool,
    steps: Seq<Step>,
    run: Run,
    workdir: Seq<char>,
)
    requires
        run.stage == Stage::Unpack,
        is_sound(request, interactive, steps, run),
    ensures
        is_sound(request, interactive, steps, run.got_workdir(workdir).run),
{
    reveal(Run::got_workdir);
}

/// The step that asks for the build's options keeps a run sound.
proof fn lemma_got_image(
    request: Request,
    interactive: bool,
    steps: Seq<Step>,
    run: Run,
)
    requires
        run.stage == Stage::Pull,
        is_sound(request, interactive, steps, run),
    ensures
        is_sound(request, interactive, steps, run.got_image().run),
{
    reveal(Run::got_image);
}

/// The step that composes the build keeps a run sound.
proof fn lemma_got_options(
    request: Request,
    interactive: bool,
    steps: Seq<Step>,
    run: Run,
    help: Result<Seq<char>, Seq<char>>,
)
    requires
        run.stage == Stage::Options,
        is_sound(request, interactive, steps, run),
    ensures
        is_sound(request, interactive, steps, run.got_options(help).run),
{
    reveal(Run::got_options);
}

/// The step that asks for the source tree keeps a run sound.
proof fn lemma_got_root(
    request: Request,
    interactive: bool,
    steps: Seq<Step>,
    run: Run,
    root: Seq<char>,
)
    requires
        run.stage == Stage::Layout,
        is_sound(request, interactive, steps, run),
    ensures
        is_sound(request, interactive, steps, run.got_root(root).run),
{
    reveal(Run::got_root);
}

/// The step that starts the build keeps a run sound.
proof fn lemma_want_build(
    request: Request,
    interactive: bool,
    steps: Seq<Step>,
    run: Run,
    lines: Seq<Seq<char>>,
    toolchain: Option<Seq<char>>,
    uuid: Seq<char>,
)
    requires
        is_sound(request, interactive, steps, Run { stage: Stage::Toolchain, ..run }),
    ensures
        is_sound(request, interactive, steps, run.want_build(lines, toolchain, uuid).run),
{
    reveal(Run::want_build);
}

/// The step that takes the tree before the build keeps a run sound.
proof fn lemma_got_snapshot(
    request: Request,
    interactive: bool,
    steps: Seq<Step>,
    run: Run,
    paths: Seq<Seq<char>>,
    uuid: Seq<char>,
)
    requires
        run.stage == Stage::Snapshot,
        is_sound(request, interactive, steps, run),
        occurred(request, interactive, steps, lists_before(run.root, paths)),
    ensures
        is_sound(request, interactive, steps, run.got_snapshot(paths, uuid).run),
{
    reveal(Run::got_snapshot);
    let preexisting = paths.filter(is_release_wasm());
    let next = Run { preexisting, ..run };
    assert(is_sound(request, interactive, steps, Run { stage: Stage::Toolchain, ..next }));
    assert forall|lines: Seq<Seq<char>>| is_sound(
        request,
        interactive,
        steps,
        (#[trigger] next.want_build(lines, None, uuid)).run,
    ) by {
        lemma_want_build(request, interactive, steps, next, lines, None, uuid);
    }
}

/// The step that takes the build's end keeps a run sound.
proof fn lemma_got_build(
    request: Request,
    interactive: bool,
    steps: Seq<Step>,
    run: Run,
    status: Result<ExitStatus, String>,
)
    requires
        run.stage == Stage::Build,
        is_sound(request, interactive, steps, run),
        status is Ok && status->Ok_0.success ==> occurred(
            request,
            interactive,
            steps,
            builds(run.root, run.meta),
        ),
    ensures
        is_sound(request, interactive, steps, run.got_build(status).run),
{
    reveal(Run::got_build);
}

/// The step that chooses the rebuilt WASM keeps a run sound.
proof fn lemma_got_tree(
    request: Request,
    interactive: bool,
    steps: Seq<Step>,
    run: Run,
    paths: Seq<Seq<char>>,
)
    requires
        run.stage == Stage::Collect,
        is_sound(request, interactive, steps, run),
        occurred(request, interactive, steps, lists_after(run.root, paths)),
    ensures
        is_sound(request, interactive, steps, run.got_tree(paths).run),
{
    reveal(Run::got_tree);
}

/// The step that gives the verdict keeps a run sound.
proof fn lemma_got_rebuilt(
    request: Request,
    interactive: bool,
    steps: Seq<Step>,
    run: Run,
    rebuilt: Seq<u8>,
)
    requires
        run.stage == Stage::Rebuilt,
        is_sound(request, interactive, steps, run),
    ensures
        is_sound(request, interactive, steps, run.got_rebuilt(rebuilt).run),
{
    reveal(Run::got_rebuilt);
}

/// The output of a program keeps a run sound.
proof fn lemma_on_output(
    request: Request,
    interactive: bool,
    steps: Seq<Step>,
    run: Run,
    output: Result<TextOutput, String>,
    uuid: Seq<char>,
)
    requires
        steps.len() > 0,
        steps.last().0 == Event::Output(output),
        run == reached(request, interactive, steps.drop_last()).run,
        is_sound(request, interactive, steps, run),
    ensures
        is_sound(request, interactive, steps, run.on_output(output, uuid).run),
{
    reveal(Run::on_output);
    lemma_occurred(request, interactive, steps);
    match run.stage {
        Stage::Engine => {
            let next = Run {
                request: Request {
                    engine: run.request.engine.with_default(answered(output)),
                    ..run.request
                },
                ..run
            };
            lemma_want_wasm(request, interactive, steps, next);
        },
        Stage::DataDir => {
            if let Ok(o) = output {
                lemma_got_data_dir(request, interactive, steps, run, trimmed(o.stdout@));
            }
        },
        Stage::Options => {
            let help = match output {
                Ok(o) => Ok(o.stdout@),
                Err(reason) => Err(reason@),
            };
            lemma_got_options(request, interactive, steps, run, help);
        },
        Stage::Toolchain => {
            let toolchain = match output {
                Ok(o) => first_word(o.stdout@),
                Err(_) => None,
            };
            lemma_want_build(
                request,
                interactive,
                steps,
                run,
                Seq::empty(),
                toolchain,
                uuid,
            );
        },
        _ => {},
    }
}

/// The output of the program that fetches a WASM keeps a run sound.
proof fn lemma_on_fetched(
    request: Request,
    interactive: bool,
    steps: Seq<Step>,
    run: Run,
    output: Result<FetchOutput, String>,
)
    requires
        steps.len() > 0,
        steps.last().0 == Event::Fetched(output),
        run == reached(request, interactive, steps.drop_last()).run,
        is_sound(request, interactive, steps, run),
    ensures
        is_sound(request, interactive, steps, run.on_fetched(output).run),
{
    reveal(Run::on_fetched);
    lemma_occurred(request, interactive, steps);
    if run.stage == Stage::FetchWasm && output is Ok && output->Ok_0.success {
        let wasm = output->Ok_0.stdout@;
        assert(gives_wasm(wasm)(run, Event::Fetched(output)));
        assert(occurred(request, interactive, steps, gives_wasm(wasm)));
        lemma_got_wasm(request, interactive, steps, run, wasm);
    }
}

/// The contents of a file or of a download keeps a run sound.
proof fn lemma_on_bytes(
    request: Request,
    interactive: bool,
    steps: Seq<Step>,
    run: Run,
    bytes: Result<Vec<u8>, String>,
)
    requires
        steps.len() > 0,
        steps.last().0 == Event::Bytes(bytes),
        run == reached(request, interactive, steps.drop_last()).run,
        is_sound(request, interactive, steps, run),
    ensures
        is_sound(request, interactive, steps, run.on_bytes(bytes).run),
{
    reveal(Run::on_bytes);
    lemma_occurred(request, interactive, steps);
    if let Ok(contents) = bytes {
        match run.stage {
            Stage::ReadWasm => {
                assert(gives_wasm(contents@)(run, Event::Bytes(bytes)));
                assert(occurred(request, interactive, steps, gives_wasm(contents@)));
                lemma_got_wasm(request, interactive, steps, run, contents@);
            },
            Stage::Source => {
                assert(gives_archive(run.source, contents@)(run, Event::Bytes(bytes)));
                assert(occurred(request, interactive, steps, gives_archive(run.source, contents@)));
                lemma_got_source(request, interactive, steps, run, contents@);
            },
            Stage::Rebuilt => {
                lemma_got_rebuilt(request, interactive, steps, run, contents@);
            },
            _ => {},
        }
    }
}

/// The user's answer keeps a run sound.
proof fn lemma_on_answer(
    request: Request,
    interactive: bool,
    steps: Seq<Step>,
    run: Run,
    answer: Result<String, String>,
)
    requires
        steps.len() > 0,
        steps.last().0 == Event::Answer(answer),
        run == reached(request, interactive, steps.drop_last()).run,
        is_sound(request, interactive, steps, run),
    ensures
        is_sound(request, interactive, steps, run.on_answer(answer).run),
{
    reveal(Run::on_answer);
    lemma_occurred(request, interactive, steps);
    if answer is Ok && grants(answer->Ok_0@) {
        if run.stage == Stage::TrustImage {
            let test = grants_trust(TrustKind::Bldimg, run.meta.bldimg);
            assert(test(run, Event::Answer(answer)));
            assert(occurred(request, interactive, steps, test));
            lemma_want_source_trust(request, interactive, steps, run, Seq::empty());
        } else if run.stage == Stage::TrustSource {
            let test = grants_trust(TrustKind::SourceArchive, run.source);
            assert(test(run, Event::Answer(answer)));
            assert(occurred(request, interactive, steps, test));
            lemma_want_source(request, interactive, steps, run, Seq::empty());
        }
    }
}

/// The unpacked source keeps a run sound.
proof fn lemma_on_unpacked(
    request: Request,
    interactive: bool,
    steps: Seq<Step>,
    run: Run,
    unpacked: Result<String, UnpackFault>,
)
    requires
        steps.len() > 0,
        steps.last().0 == Event::Unpacked(unpacked),
        run == reached(request, interactive, steps.drop_last()).run,
        is_sound(request, interactive, steps, run),
    ensures
        is_sound(request, interactive, steps, run.on_unpacked(unpacked).run),
{
    reveal(Run::on_unpacked);
    lemma_occurred(request, interactive, steps);
    if run.stage == Stage::Unpack && unpacked is Ok {
        lemma_got_workdir(request, interactive, steps, run, unpacked->Ok_0@);
    }
}

/// The end of a program keeps a run sound.
proof fn lemma_on_exit(
    request: Request,
    interactive: bool,
    steps: Seq<Step>,
    run: Run,
    status: Result<ExitStatus, String>,
)
    requires
        steps.len() > 0,
        steps.last().0 == Event::Exit(status),
        run == reached(request, interactive, steps.drop_last()).run,
        is_sound(request, interactive, steps, run),
    ensures
        is_sound(request, interactive, steps, run.on_exit(status).run),
{
    reveal(Run::on_exit);
    lemma_occurred(request, interactive, steps);
    if run.stage == Stage::Pull {
        lemma_got_image(request, interactive, steps, run);
    } else if run.stage == Stage::Build {
        if status is Ok && status->Ok_0.success {
            assert(builds(run.root, run.meta)(run, Event::Exit(status)));
            assert(occurred(request, interactive, steps, builds(run.root, run.meta)));
        }
        lemma_got_build(request, interactive, steps, run, status);
    }
}

/// The list of a directory keeps a run sound.
proof fn lemma_on_listed(
    request: Request,
    interactive: bool,
    steps: Seq<Step>,
    run: Run,
    dirs: Result<Vec<String>, String>,
)
    requires
        steps.len() > 0,
        steps.last().0 == Event::Listed(dirs),
        run == reached(request, interactive, steps.drop_last()).run,
        is_sound(request, interactive, steps, run),
    ensures
        is_sound(request, interactive, steps, run.on_listed(dirs).run),
{
    reveal(Run::on_listed);
    lemma_occurred(request, interactive, steps);
    if run.stage == Stage::Layout && dirs is Ok && dirs->Ok_0@.len() == 1 {
        lemma_got_root(request, interactive, steps, run, dirs->Ok_0@[0]@);
    }
}

/// The list of a tree keeps a run sound.
proof fn lemma_on_walked(
    request: Request,
    interactive: bool,
    steps: Seq<Step>,
    run: Run,
    paths: Vec<String>,
    uuid: Seq<char>,
)
    requires
        steps.len() > 0,
        steps.last().0 == Event::Walked(paths),
        run == reached(request, interactive, steps.drop_last()).run,
        is_sound(request, interactive, steps, run),
    ensures
        is_sound(request, interactive, steps, run.on_walked(paths, uuid).run),
{
    reveal(Run::on_walked);
    lemma_occurred(request, interactive, steps);
    if run.stage == Stage::Snapshot {
        assert(lists_before(run.root, texts(paths@))(run, Event::Walked(paths)));
        assert(occurred(request, interactive, steps, lists_before(run.root, texts(paths@))));
        lemma_got_snapshot(request, interactive, steps, run, texts(paths@), uuid);
    } else if run.stage == Stage::Collect {
        assert(lists_after(run.root, texts(paths@))(run, Event::Walked(paths)));
        assert(occurred(request, interactive, steps, lists_after(run.root, texts(paths@))));
        lemma_got_tree(request, interactive, steps, run, texts(paths@));
    }
}

/// Every run is sound, whatever comes of its actions.
proof fn lemma_every_run_is_sound(request: Request, interactive: bool, steps: Seq<Step>)
    ensures
        is_sound(request, interactive, steps, reached(request, interactive, steps).run),
    decreases steps.len(),
{
    if steps.len() == 0 {
        reveal(Run::want_wasm);
    } else {
        let init = steps.drop_last();
        let run = reached(request, interactive, init).run;
        let uuid = steps.last().1;
        lemma_every_run_is_sound(request, interactive, init);
        lemma_still_sound(request, interactive, steps, run);
        match steps.last().0 {
            Event::Output(output) => {
                lemma_on_output(request, interactive, steps, run, output, uuid);
            },
            Event::Fetched(output) => {
                lemma_on_fetched(request, interactive, steps, run, output);
            },
            Event::Bytes(bytes) => {
                lemma_on_bytes(request, interactive, steps, run, bytes);
            },
            Event::Answer(answer) => {
                lemma_on_answer(request, interactive, steps, run, answer);
            },
            Event::Unpacked(unpacked) => {
                lemma_on_unpacked(request, interactive, steps, run, unpacked);
            },
            Event::Exit(status) => {
                lemma_on_exit(request, interactive, steps, run, status);
            },
            Event::Listed(dirs) => {
                lemma_on_listed(request, interactive, steps, run, dirs);
            },
            Event::Walked(paths) => {
                lemma_on_walked(request, interactive, steps, run, paths, uuid);
            },
        }
    }
}

/// Whether an action is the one whose outcome a stage waits for.
pub open spec fn fits(
    stage: Stage,
    action: Action<Seq<char>, Seq<Seq<char>>, Seq<u8>>,
) -> bool {
    match stage {
        Stage::Engine | Stage::DataDir | Stage::Options | Stage::Toolchain => action is Capture,
        Stage::ReadWasm | Stage::Rebuilt => action is Read,
        Stage::FetchWasm => action is Fetch,
        Stage::TrustImage | Stage::TrustSource => action is Ask,
        Stage::Source => action is Read || action is Download,
        Stage::Unpack => action is Unpack,
        Stage::Pull | Stage::Build => action is Run,
        Stage::Layout => action is List,
        Stage::Snapshot | Stage::Collect => action is Walk,
        Stage::Done => action is Finish,
    }
}

/// Whether a run in a stage awaits an event.
pub open spec fn awaits(stage: Stage, event: Event) -> bool {
    match event {
        Event::Output(_) => stage == Stage::Engine || stage == Stage::DataDir || stage
            == Stage::Options || stage == Stage::Toolchain,
        Event::Fetched(_) => stage == Stage::FetchWasm,
        Event::Bytes(_) => stage == Stage::ReadWasm || stage == Stage::Source || stage
            == Stage::Rebuilt,
        Event::Answer(_) => stage == Stage::TrustImage || stage == Stage::TrustSource,
        Event::Unpacked(_) => stage == Stage::Unpack,
        Event::Exit(_) => stage == Stage::Pull || stage == Stage::Build,
        Event::Listed(_) => stage == Stage::Layout,
        Event::Walked(_) => stage == Stage::Snapshot || stage == Stage::Collect,
    }
}

/// Whether an event tells what came of an action.
pub open spec fn answers(
    action: Action<Seq<char>, Seq<Seq<char>>, Seq<u8>>,
    event: Event,
) -> bool {
    match event {
        Event::Output(_) => action is Capture,
        Event::Fetched(_) => action is Fetch,
        Event::Bytes(_) => action is Read || action is Download,
        Event::Answer(_) => action is Ask,
        Event::Unpacked(_) => action is Unpack,
        Event::Exit(_) => action is Run,
        Event::Listed(_) => action is List,
        Event::Walked(_) => action is Walk,
    }
}

/// The question that a run waits for the answer to.
pub open spec fn asked(run: Run) -> Seq<char> {
    if run.stage == Stage::TrustImage {
        trust_question(TrustKind::Bldimg, run.meta.bldimg)
    } else {
        trust_question(TrustKind::SourceArchive, run.source)
    }
}

/// What holds of the turn that an awaited event leads to: the run is past the
/// stages up to `past`, it waits for the outcome of its action, a question names
/// the value that is to be trusted, the archive that is unpacked is the one that
/// was accepted, a directory that is to be kept is reported at the end, and a
/// quiet run writes no lines before.
pub open spec fn is_regular(run: Run, past: nat, turn: Turn) -> bool {
    &&& rank(turn.run.stage) > past
    &&& fits(turn.run.stage, turn.action)
    &&& turn.run.request == (Request { engine: turn.run.request.engine, ..run.request })
    &&& turn.action matches Action::Finish { result, kept } ==> {
        &&& kept == if run.request.keep {
            turn.run.workdir
        } else {
            None
        }
        &&& kept is Some ==> turn.lines.len() > 0 && turn.lines.last() == info(
            "Kept build directory at "@ + kept->0,
        )
        &&& result is Ok ==> run.stage == Stage::Rebuilt
    }
    &&& turn.action matches Action::Ask { question } ==> question == asked(turn.run)
    &&& turn.action matches Action::Unpack { archive, .. } ==> {
        &&& run.stage == Stage::DataDir
        &&& archive == run.archive
        &&& turn.run.wasm == run.wasm
        &&& turn.run.meta == run.meta
        &&& turn.run.source == run.source
    }
    &&& run.request.quiet ==> turn.lines.len() == match turn.action {
        Action::Finish { result, kept } => (if result is Ok {
            1int
        } else {
            0
        }) + (if kept is Some {
            1int
        } else {
            0
        }),
        _ => 0,
    }
}

/// The turn that asks for the WASM is regular.
proof fn lemma_regular_want_wasm(run: Run)
    ensures
        is_regular(run, 0, run.want_wasm()),
{
    reveal(Run::want_wasm);
}

/// The turn that asks for the source is regular.
proof fn lemma_regular_want_source(run: Run, lines: Seq<Seq<char>>)
    requires
        run.request.quiet ==> lines.len() == 0,
    ensures
        is_regular(run, 4, run.want_source(lines)),
{
    reveal(Run::want_source);
}

/// The turn that demands trust in the source is regular.
proof fn lemma_regular_want_source_trust(run: Run, lines: Seq<Seq<char>>)
    requires
        run.request.quiet ==> lines.len() == 0,
    ensures
        is_regular(run, 3, run.want_source_trust(lines)),
{
    reveal(Run::want_source_trust);
    lemma_regular_want_source(run, lines);
}

/// The turn that demands trust in the image is regular.
proof fn lemma_regular_want_image_trust(run: Run, lines: Seq<Seq<char>>)
    requires
        run.request.quiet ==> lines.len() == 0,
    ensures
        is_regular(run, 2, run.want_image_trust(lines)),
{
    reveal(Run::want_image_trust);
    lemma_regular_want_source_trust(run, lines);
}

/// The turn that takes the WASM is regular.
proof fn lemma_regular_got_wasm(run: Run, wasm: Seq<u8>)
    requires
        run.stage == Stage::ReadWasm || run.stage == Stage::FetchWasm,
    ensures
        is_regular(run, 2, run.got_wasm(wasm)),
{
    reveal(Run::got_wasm);
    if let Ok(sections) = meta_sections(wasm) {
        if let Ok(meta) = extracted(sections) {
            let lines = announcement(run.request.quiet, run.request.source_uri, meta);
            law_announcement_is_harmless(run.request.quiet, run.request.source_uri, meta);
            let next = Run { wasm, meta, ..run };
            if let Some(source) = effective_source(run.request.source_uri, meta.source_uri) {
                lemma_regular_want_image_trust(Run { source, ..next }, lines);
            }
        }
    }
}

/// The turn that takes the source is regular.
proof fn lemma_regular_got_source(run: Run, archive: Seq<u8>)
    ensures
        is_regular(run, 5, run.got_source(archive)),
{
    reveal(Run::got_source);
    reveal(Run::want_data_dir);
}

/// The turn that pulls the image is regular.
proof fn lemma_regular_got_workdir(run: Run, workdir: Seq<char>)
    ensures
        is_regular(run, 7, run.got_workdir(workdir)),
{
    reveal(Run::got_workdir);
}

/// The turn that composes the build is regular.
proof fn lemma_regular_got_options(run: Run, help: Result<Seq<char>, Seq<char>>)
    ensures
        is_regular(run, 9, run.got_options(help)),
{
    reveal(Run::got_options);
}

/// The turn that starts the build is regular.
proof fn lemma_regular_want_build(
    run: Run,
    lines: Seq<Seq<char>>,
    toolchain: Option<Seq<char>>,
    uuid: Seq<char>,
)
    requires
        run.request.quiet ==> lines.len() == 0,
    ensures
        is_regular(run, 12, run.want_build(lines, toolchain, uuid)),
{
    reveal(Run::want_build);
}

/// The turn that takes the tree before the build is regular.
proof fn lemma_regular_got_snapshot(run: Run, paths: Seq<Seq<char>>, uuid: Seq<char>)
    ensures
        is_regular(run, 11, run.got_snapshot(paths, uuid)),
{
    reveal(Run::got_snapshot);
    let next = Run { preexisting: paths.filter(is_release_wasm()), ..run };
    assert forall|lines: Seq<Seq<char>>|
        run.request.quiet ==> lines.len() == 0 implies is_regular(
        run,
        12,
        #[trigger] next.want_build(lines, None, uuid),
    ) by {
        lemma_regular_want_build(next, lines, None, uuid);
    }
}

/// The turn that gives the verdict is regular.
proof fn lemma_regular_got_rebuilt(run: Run, rebuilt: Seq<u8>)
    requires
        run.stage == Stage::Rebuilt,
    ensures
        is_regular(run, 15, run.got_rebuilt(rebuilt)),
{
    reveal(Run::got_rebuilt);
}

/// The turn after the output of a program is regular, where that was awaited.
proof fn lemma_regular_on_output(run: Run, output: Result<TextOutput, String>, uuid: Seq<char>)
    ensures
        if awaits(run.stage, Event::Output(output)) {
            is_regular(run, rank(run.stage), run.on_output(output, uuid))
        } else {
            run.on_output(output, uuid) == run.ignored()
        },
{
    reveal(Run::on_output);
    reveal(Run::got_data_dir);
    match run.stage {
        Stage::Engine => {
            let next = Run {
                request: Request {
                    engine: run.request.engine.with_default(answered(output)),
                    ..run.request
                },
                ..run
            };
            lemma_regular_want_wasm(next);
        },
        Stage::Options => {
            let help = match output {
                Ok(o) => Ok(o.stdout@),
                Err(reason) => Err(reason@),
            };
            lemma_regular_got_options(run, help);
        },
        Stage::Toolchain => {
            let toolchain = match output {
                Ok(o) => first_word(o.stdout@),
                Err(_) => None,
            };
            lemma_regular_want_build(run, Seq::empty(), toolchain, uuid);
        },
        _ => {},
    }
}

/// The turn after the output of the program that fetches a WASM is regular, where
/// that was awaited.
proof fn lemma_regular_on_fetched(run: Run, output: Result<FetchOutput, String>)
    ensures
        if awaits(run.stage, Event::Fetched(output)) {
            is_regular(run, rank(run.stage), run.on_fetched(output))
        } else {
            run.on_fetched(output) == run.ignored()
        },
{
    reveal(Run::on_fetched);
    if run.stage == Stage::FetchWasm && output is Ok {
        lemma_regular_got_wasm(run, output->Ok_0.stdout@);
    }
}

/// The turn after the contents of a file or of a download is regular, where that
/// was awaited.
proof fn lemma_regular_on_bytes(run: Run, bytes: Result<Vec<u8>, String>)
    ensures
        if awaits(run.stage, Event::Bytes(bytes)) {
            is_regular(run, rank(run.stage), run.on_bytes(bytes))
        } else {
            run.on_bytes(bytes) == run.ignored()
        },
{
    reveal(Run::on_bytes);
    if let Ok(contents) = bytes {
        if run.stage == Stage::ReadWasm {
            lemma_regular_got_wasm(run, contents@);
        }
        lemma_regular_got_source(run, contents@);
        if run.stage == Stage::Rebuilt {
            lemma_regular_got_rebuilt(run, contents@);
        }
    }
}

/// The turn after the user's answer is regular, where that was awaited.
proof fn lemma_regular_on_answer(run: Run, answer: Result<String, String>)
    ensures
        if awaits(run.stage, Event::Answer(answer)) {
            is_regular(run, rank(run.stage), run.on_answer(answer))
        } else {
            run.on_answer(answer) == run.ignored()
        },
{
    reveal(Run::on_answer);
    lemma_regular_want_source_trust(run, Seq::empty());
    lemma_regular_want_source(run, Seq::empty());
}

/// The turn after the unpacked source is regular, where that was awaited.
proof fn lemma_regular_on_unpacked(run: Run, unpacked: Result<String, UnpackFault>)
    ensures
        if awaits(run.stage, Event::Unpacked(unpacked)) {
            is_regular(run, rank(run.stage), run.on_unpacked(unpacked))
        } else {
            run.on_unpacked(unpacked) == run.ignored()
        },
{
    reveal(Run::on_unpacked);
    if unpacked is Ok {
        lemma_regular_got_workdir(run, unpacked->Ok_0@);
    }
}

/// The turn after the end of a program is regular, where that was awaited.
proof fn lemma_regular_on_exit(run: Run, status: Result<ExitStatus, String>)
    ensures
        if awaits(run.stage, Event::Exit(status)) {
            is_regular(run, rank(run.stage), run.on_exit(status))
        } else {
            run.on_exit(status) == run.ignored()
        },
{
    reveal(Run::on_exit);
    reveal(Run::got_image);
    reveal(Run::got_build);
}

/// The turn after the list of a directory is regular, where that was awaited.
proof fn lemma_regular_on_listed(run: Run, dirs: Result<Vec<String>, String>)
    ensures
        if awaits(run.stage, Event::Listed(dirs)) {
            is_regular(run, rank(run.stage), run.on_listed(dirs))
        } else {
            run.on_listed(dirs) == run.ignored()
        },
{
    reveal(Run::on_listed);
    reveal(Run::got_root);
}

/// The turn after the list of a tree is regular, where that was awaited.
proof fn lemma_regular_on_walked(run: Run, paths: Vec<String>, uuid: Seq<char>)
    ensures
        if awaits(run.stage, Event::Walked(paths)) {
            is_regular(run, rank(run.stage), run.on_walked(paths, uuid))
        } else {
            run.on_walked(paths, uuid) == run.ignored()
        },
{
    reveal(Run::on_walked);
    reveal(Run::got_tree);
    lemma_regular_got_snapshot(run, texts(paths@), uuid);
}

/// Every event that a run awaits takes it to a later stage or to its end, and an
/// event that it does not await changes nothing. A run that is over awaits
/// nothing. On its way a quiet run writes nothing, and its end is told by the
/// verdict, if it is verified, and by where the build's directory was kept, if it
/// was to be kept.
pub proof fn law_run_goes_on(run: Run, event: Event, uuid: Seq<char>)
    ensures
        if awaits(run.stage, event) {
            is_regular(run, rank(run.stage), run.next(event, uuid))
        } else {
            run.next(event, uuid) == run.ignored()
        },
        run.stage == Stage::Done ==> !awaits(run.stage, event),
{
    match event {
        Event::Output(output) => {
            lemma_regular_on_output(run, output, uuid);
        },
        Event::Fetched(output) => {
            lemma_regular_on_fetched(run, output);
        },
        Event::Bytes(bytes) => {
            lemma_regular_on_bytes(run, bytes);
        },
        Event::Answer(answer) => {
            lemma_regular_on_answer(run, answer);
        },
        Event::Unpacked(unpacked) => {
            lemma_regular_on_unpacked(run, unpacked);
        },
        Event::Exit(status) => {
            lemma_regular_on_exit(run, status);
        },
        Event::Listed(dirs) => {
            lemma_regular_on_listed(run, dirs);
        },
        Event::Walked(paths) => {
            lemma_regular_on_walked(run, paths, uuid);
        },
    }
}

/// The stages of a run come in their order.
pub proof fn law_stages_come_in_order(
    request: Request,
    interactive: bool,
    steps: Seq<Step>,
    i: int,
    j: int,
)
    requires
        0 <= i <= j <= steps.len(),
    ensures
        rank(before(request, interactive, steps, i).stage) <= rank(
            before(request, interactive, steps, j).stage,
        ),
    decreases j - i,
{
    if i < j {
        law_stages_come_in_order(request, interactive, steps, i, j - 1);
        let part = steps.take(j);
        assert(part.drop_last() =~= steps.take(j - 1));
        law_run_goes_on(
            before(request, interactive, steps, j - 1),
            part.last().0,
            part.last().1,
        );
    }
}

/// Nothing is fetched, unpacked, pulled or run before both the image and the
/// source are trusted: by `--trust`, by default, or by the user's word.
pub proof fn law_trust_comes_first(request: Request, interactive: bool, steps: Seq<Step>)
    ensures
        ({
            let turn = reached(request, interactive, steps);
            let outside = rank(Stage::Source) <= rank(turn.run.stage) < rank(Stage::Done);
            &&& outside ==> is_trusted(
                request,
                interactive,
                steps,
                TrustKind::Bldimg,
                turn.run.meta.bldimg,
            )
            &&& outside ==> is_trusted(
                request,
                interactive,
                steps,
                TrustKind::SourceArchive,
                turn.run.source,
            )
            &&& turn.action is Download || turn.action is Unpack || turn.action is Run
                || turn.action is List || turn.action is Walk ==> outside
        }),
{
    lemma_every_run_is_sound(request, interactive, steps);
    lemma_last_turn(request, interactive, steps);
}

/// The last turn is regular, or its event was not awaited.
proof fn lemma_last_turn(request: Request, interactive: bool, steps: Seq<Step>)
    ensures
        ({
            let turn = reached(request, interactive, steps);
            let previous = reached(request, interactive, steps.drop_last()).run;
            &&& turn.action is Ignore || fits(turn.run.stage, turn.action)
            &&& steps.len() == 0 ==> fits(turn.run.stage, turn.action) && rank(turn.run.stage)
                != rank(Stage::Unpack) && (turn.action matches Action::Finish { result, .. }
                ==> result is Err) && (request.quiet && turn.action !is Finish
                ==> turn.lines.len() == 0)
            &&& steps.len() > 0 ==> turn == previous.ignored() || is_regular(
                previous,
                rank(previous.stage),
                turn,
            )
        }),
{
    if steps.len() == 0 {
        reveal(Run::want_wasm);
    } else {
        let previous = reached(request, interactive, steps.drop_last()).run;
        law_run_goes_on(previous, steps.last().0, steps.last().1);
    }
}

/// Whether every step tells what came of the action before it.
pub open spec fn is_faithful(request: Request, interactive: bool, steps: Seq<Step>) -> bool {
    forall|i: int|
        0 <= i < steps.len() ==> answers(
            reached(request, interactive, steps.take(i)).action,
            (#[trigger] steps[i]).0,
        )
}

/// Where every action is performed and its outcome told, no event is ignored, and
/// the run is over after at most as many steps as there are stages before its
/// end.
pub proof fn law_faithful_run_ends(request: Request, interactive: bool, steps: Seq<Step>)
    requires
        is_faithful(request, interactive, steps),
    ensures
        reached(request, interactive, steps).action !is Ignore,
        steps.len() <= rank(reached(request, interactive, steps).run.stage),
        steps.len() <= rank(Stage::Done),
    decreases steps.len(),
{
    lemma_last_turn(request, interactive, steps);
    if steps.len() > 0 {
        let init = steps.drop_last();
        let n = init.len() as int;
        assert forall|i: int| 0 <= i < init.len() implies answers(
            reached(request, interactive, init.take(i)).action,
            (#[trigger] init[i]).0,
        ) by {
            assert(init.take(i) =~= steps.take(i));
            assert(init[i] == steps[i]);
        }
        law_faithful_run_ends(request, interactive, init);
        lemma_last_turn(request, interactive, init);
        assert(steps.take(n) =~= init);
        assert(answers(reached(request, interactive, steps.take(n)).action, steps[n].0));
        let previous = reached(request, interactive, init);
        assert(fits(previous.run.stage, previous.action));
        assert(awaits(previous.run.stage, steps.last().0));
        law_run_goes_on(previous.run, steps.last().0, steps.last().1);
    }
}

/// Nobody is asked for trust in a run that has no source to fetch: where the
/// user is asked, the source is known. The question names the value that is to
/// be trusted.
pub proof fn law_source_is_known_before_trust(
    request: Request,
    interactive: bool,
    steps: Seq<Step>,
)
    ensures
        ({
            let turn = reached(request, interactive, steps);
            turn.action matches Action::Ask { question } ==> {
                &&& effective_source(request.source_uri, turn.run.meta.source_uri) == Some(
                    turn.run.source,
                )
                &&& question == asked(turn.run)
            }
        }),
{
    lemma_every_run_is_sound(request, interactive, steps);
    lemma_last_turn(request, interactive, steps);
}

/// A run whose source is neither recorded nor given ends with an error once the
/// WASM is read.
pub proof fn law_run_without_a_source_ends(run: Run, wasm: Seq<u8>, meta: Metadata)
    requires
        is_metadata_of(wasm, meta),
        effective_source(run.request.source_uri, meta.source_uri) is None,
    ensures
        run.got_wasm(wasm).action matches Action::Finish { result, .. } && result == Err::<
            (),
            Error<Seq<char>>,
        >(Error::SourceUriRequired),
{
    reveal(Run::got_wasm);
}

/// Without `--trust`, and where nobody can be asked, a run ends with an error at
/// an image that is not trusted by default, and at any source.
pub proof fn law_unattended_run_needs_trust(run: Run, lines: Seq<Seq<char>>)
    requires
        !run.request.trust,
        !run.interactive,
    ensures
        !default_trusted(TrustKind::Bldimg, run.meta.bldimg) ==> (run.want_image_trust(
            lines,
        ).action matches Action::Finish { result, .. } && result == Err::<(), Error<Seq<char>>>(
            Error::TrustRequired { kind: TrustKind::Bldimg, value: run.meta.bldimg },
        )),
        run.want_source_trust(lines).action matches Action::Finish { result, .. } && result
            == Err::<(), Error<Seq<char>>>(
            Error::TrustRequired { kind: TrustKind::SourceArchive, value: run.source },
        ),
{
    reveal(Run::want_image_trust);
    reveal(Run::want_source_trust);
}

/// A user who does not grant trust ends the run.
pub proof fn law_declined_trust_ends_the_run(run: Run, answer: String, uuid: Seq<char>)
    requires
        !grants(answer@),
    ensures
        run.stage == Stage::TrustImage ==> (run.next(
            Event::Answer(Ok(answer)),
            uuid,
        ).action matches Action::Finish { result, .. } && result == Err::<(), Error<Seq<char>>>(
            Error::TrustDeclined { kind: TrustKind::Bldimg },
        )),
        run.stage == Stage::TrustSource ==> (run.next(
            Event::Answer(Ok(answer)),
            uuid,
        ).action matches Action::Finish { result, .. } && result == Err::<(), Error<Seq<char>>>(
            Error::TrustDeclined { kind: TrustKind::SourceArchive },
        )),
{
    reveal(Run::on_answer);
}

/// A source whose format is not accepted is not fetched: the run ends with an
/// error that names the accepted ones.
pub proof fn law_unknown_format_is_not_fetched(
    run: Run,
    lines: Seq<Seq<char>>,
    source: Seq<char>,
)
    requires
        effective_source(run.request.source_uri, run.meta.source_uri) == Some(source),
        format_named(basename(source, url_segments(source))) is None,
    ensures
        run.want_source(lines).action matches Action::Finish { result, .. } && result == Err::<
            (),
            Error<Seq<char>>,
        >(Error::UnsupportedSourceFormat { uri: source, formats: extensions_text() }),
{
    reveal(Run::want_source);
}

/// The archive that is unpacked is the one that was fetched, and its digest is
/// the one that the WASM records.
pub proof fn law_unpacked_archive_is_the_recorded_one(
    request: Request,
    interactive: bool,
    steps: Seq<Step>,
)
    ensures
        ({
            let turn = reached(request, interactive, steps);
            turn.action matches Action::Unpack { archive, .. } ==> {
                &&& occurred(request, interactive, steps, gives_archive(turn.run.source, archive))
                &&& is_metadata_of(turn.run.wasm, turn.run.meta)
                &&& turn.run.meta.source_sha256 == Some(sha256_text(archive))
            }
        }),
{
    let turn = reached(request, interactive, steps);
    lemma_last_turn(request, interactive, steps);
    if let Action::Unpack { archive, .. } = turn.action {
        let init = steps.drop_last();
        let previous = reached(request, interactive, init).run;
        lemma_every_run_is_sound(request, interactive, init);
        lemma_occurred(request, interactive, steps);
        assert(occurred(request, interactive, steps, gives_archive(turn.run.source, archive)));
        law_accepted_metadata(meta_sections(previous.wasm)->Ok_0, previous.meta);
        law_recorded_digest_is_exact(archive, previous.meta.source_sha256->0);
    }
}

/// The event that a WASM is verified by hands over the rebuilt WASM.
proof fn lemma_verified(run: Run, event: Event, uuid: Seq<char>)
    requires
        run.stage == Stage::Rebuilt,
        run.next(event, uuid).action matches Action::Finish { result, .. } && result is Ok,
    ensures
        event is Bytes && event->Bytes_0 is Ok,
        verdict(run.wasm, event->Bytes_0->Ok_0@) is Ok,
        run.next(event, uuid).run == (Run { stage: Stage::Done, ..run }),
{
    reveal(Run::on_output);
    reveal(Run::on_fetched);
    reveal(Run::on_bytes);
    reveal(Run::on_answer);
    reveal(Run::on_unpacked);
    reveal(Run::on_exit);
    reveal(Run::on_listed);
    reveal(Run::on_walked);
    reveal(Run::got_rebuilt);
}

/// What a verified run rests on: the WASM that was handed over and its metadata,
/// the image and the source that are trusted, a build that has succeeded, and the
/// choice of a WASM that was not there before.
pub open spec fn is_well_founded(
    request: Request,
    interactive: bool,
    steps: Seq<Step>,
    run: Run,
) -> bool {
    &&& occurred(request, interactive, steps, gives_wasm(run.wasm))
    &&& is_metadata_of(run.wasm, run.meta)
    &&& effective_source(request.source_uri, run.meta.source_uri) == Some(run.source)
    &&& is_trusted(request, interactive, steps, TrustKind::Bldimg, run.meta.bldimg)
    &&& is_trusted(request, interactive, steps, TrustKind::SourceArchive, run.source)
    &&& is_snapshot(request, interactive, steps, run.root, run.preexisting)
    &&& occurred(request, interactive, steps, builds(run.root, run.meta))
    &&& is_chosen(request, interactive, steps, run)
}

/// Whether the rebuilt WASM has the size and the digest of the original.
pub open spec fn is_reproduced(
    request: Request,
    interactive: bool,
    steps: Seq<Step>,
    run: Run,
) -> bool {
    exists|rebuilt: Seq<u8>|
        {
            &&& #[trigger] occurred(
                request,
                interactive,
                steps,
                gives_rebuilt(run.rebuilt, rebuilt),
            )
            &&& rebuilt.len() == run.wasm.len()
            &&& sha256(rebuilt) == sha256(run.wasm)
        }
}

/// A run that waits for the rebuilt WASM is well-founded.
proof fn lemma_well_founded(request: Request, interactive: bool, steps: Seq<Step>, run: Run)
    requires
        run.stage == Stage::Rebuilt,
        is_sound(request, interactive, steps, run),
    ensures
        is_well_founded(request, interactive, steps, Run { stage: Stage::Done, ..run }),
{
    let paths = choose|paths: Seq<Seq<char>>| #[trigger]
        occurred(request, interactive, steps, lists_after(run.root, paths)) && chosen_wasm(
            run.root,
            fresh_wasms(paths, run.preexisting),
            selected_package(run.meta.bldopts),
        ) == Ok::<Seq<char>, Error<Seq<char>>>(run.rebuilt);
    assert(is_chosen(request, interactive, steps, Run { stage: Stage::Done, ..run }));
}

/// A WASM that was handed over fits into memory.
proof fn lemma_wasm_fits(request: Request, interactive: bool, steps: Seq<Step>, wasm: Seq<u8>)
    requires
        occurred(request, interactive, steps, gives_wasm(wasm)),
    ensures
        wasm.len() <= usize::MAX,
{
    let i = choose|i: int|
        0 <= i < steps.len() && #[trigger] gives_wasm(wasm)(
            before(request, interactive, steps, i),
            steps[i].0,
        );
    match steps[i].0 {
        Event::Bytes(Ok(bytes)) => {
            assert(bytes.len() <= usize::MAX);
        },
        Event::Fetched(Ok(output)) => {
            assert(output.stdout.len() <= usize::MAX);
        },
        _ => {},
    }
}

/// A WASM is verified only if it was reproduced: the rebuilt WASM has its size
/// and its digest. It was chosen among those that a successful build has left
/// and that were not there before, and the image that the WASM records and the
/// source of the build were trusted.
pub proof fn law_verified_means_reproduced(
    request: Request,
    interactive: bool,
    steps: Seq<Step>,
)
    requires
        reached(request, interactive, steps).action matches Action::Finish { result, .. }
            && result is Ok,
    ensures
        is_well_founded(
            request,
            interactive,
            steps,
            reached(request, interactive, steps).run,
        ),
        is_reproduced(request, interactive, steps, reached(request, interactive, steps).run),
{
    lemma_last_turn(request, interactive, steps);
    let init = steps.drop_last();
    let previous = reached(request, interactive, init).run;
    let event = steps.last().0;
    lemma_verified(previous, event, steps.last().1);
    lemma_every_run_is_sound(request, interactive, init);
    lemma_still_sound(request, interactive, steps, previous);
    lemma_well_founded(request, interactive, steps, previous);
    let rebuilt = event->Bytes_0->Ok_0;
    assert(occurred(request, interactive, steps, gives_rebuilt(previous.rebuilt, rebuilt@))) by {
        lemma_occurred(request, interactive, steps);
        assert(gives_rebuilt(previous.rebuilt, rebuilt@)(previous, event));
    }
    lemma_wasm_fits(request, interactive, steps, previous.wasm);
    assert(rebuilt.len() <= usize::MAX);
    law_verdict(previous.wasm, rebuilt@);
}

/// The verdict that a WASM is verified is written whether the run is quiet or
/// not, and ends the run with success.
pub proof fn law_verdict_is_always_written(run: Run, rebuilt: Seq<u8>, note: Seq<char>)
    requires
        verdict(run.wasm, rebuilt) == Ok::<Seq<char>, Error<Seq<char>>>(note),
    ensures
        run.got_rebuilt(rebuilt).lines.contains(check(note)),
        run.got_rebuilt(rebuilt).action matches Action::Finish { result, .. } && result is Ok,
{
    reveal(Run::got_rebuilt);
    let lines = run.got_rebuilt(rebuilt).lines;
    let at = if run.request.keep && !run.request.quiet {
        1int
    } else {
        0
    };
    assert(lines[at] == check(note));
}

/// An interrupt leaves nothing behind: while the build runs, its container is
/// killed, and once it has ended no other is; the unpacked source is removed
/// unless it is to be kept.
pub proof fn law_interrupt_leaves_nothing(
    request: Request,
    interactive: bool,
    steps: Seq<Step>,
)
    ensures
        ({
            let run = reached(request, interactive, steps).run;
            &&& run.stage == Stage::Build ==> kill_of(run.cleanup) is Some
            &&& run.stage != Stage::Build && run.stage != Stage::Done ==> kill_of(run.cleanup)
                is None
            &&& removal_of(run.cleanup) == if request.keep {
                None
            } else {
                run.workdir
            }
        }),
{
    lemma_every_run_is_sound(request, interactive, steps);
}

/// The container that the build runs in is the one that an interrupt kills.
pub proof fn law_running_container_is_the_one_killed(
    run: Run,
    lines: Seq<Seq<char>>,
    toolchain: Option<Seq<char>>,
    uuid: Seq<char>,
)
    ensures
        ({
            let turn = run.want_build(lines, toolchain, uuid);
            let name = container_name(uuid, run.root);
            &&& kill_of(turn.run.cleanup) == Some(run.request.engine.kill(name))
            &&& turn.action matches Action::Run { argv, .. } && names_container(
                run.request.engine,
                argv,
                name,
            )
        }),
{
    reveal(Run::want_build);
}

/// Whether a command runs a container of this name.
pub open spec fn names_container(
    choice: EngineChoice,
    argv: Seq<Seq<char>>,
    name: Seq<char>,
) -> bool {
    let n = choice.prefix().len() as int;
    &&& argv.len() > n + 3
    &&& argv[n] == "run"@
    &&& argv[n + 2] == "--name"@
    &&& argv[n + 3] == name
}

/// Whether a path is that of an entry of a directory.
pub open spec fn is_entry_of(dir: Seq<char>, path: Seq<char>) -> bool {
    exists|name: Seq<char>| is_entry_name(name) && path == #[trigger] entry_path(dir, name)
}

/// Whether an event lists nothing but entries of the directory that a run has
/// asked for.
pub open spec fn lists_truly(run: Run, event: Event) -> bool {
    match event {
        Event::Listed(Ok(list)) => forall|i: int|
            0 <= i < list@.len() ==> is_entry_of(or_empty(run.workdir), (#[trigger] list@[i])@),
        _ => true,
    }
}

/// Whether a run that is past the layout builds in an entry of the directory that
/// the source was unpacked into.
pub open spec fn builds_inside(run: Run) -> bool {
    rank(Stage::Layout) < rank(run.stage) < rank(Stage::Done) ==> run.workdir is Some
        && is_entry_of(run.workdir->0, run.root)
}

/// Before the layout is known, no step gets past it.
proof fn lemma_layout_is_not_skipped(run: Run, event: Event, uuid: Seq<char>)
    requires
        rank(run.stage) < rank(Stage::Layout),
    ensures
        ({
            let stage = run.next(event, uuid).run.stage;
            rank(stage) <= rank(Stage::Layout) || stage == Stage::Done
        }),
{
    reveal(Run::want_wasm);
    reveal(Run::want_source);
    reveal(Run::want_source_trust);
    reveal(Run::want_image_trust);
    reveal(Run::got_wasm);
    reveal(Run::got_source);
    reveal(Run::want_data_dir);
    reveal(Run::got_data_dir);
    reveal(Run::got_workdir);
    reveal(Run::got_image);
    reveal(Run::got_options);
    match event {
        Event::Output(_) => {
            reveal(Run::on_output);
        },
        Event::Fetched(_) => {
            reveal(Run::on_fetched);
        },
        Event::Bytes(_) => {
            reveal(Run::on_bytes);
        },
        Event::Answer(_) => {
            reveal(Run::on_answer);
        },
        Event::Unpacked(_) => {
            reveal(Run::on_unpacked);
        },
        Event::Exit(_) => {
            reveal(Run::on_exit);
        },
        Event::Listed(_) => {
            reveal(Run::on_listed);
        },
        Event::Walked(_) => {
            reveal(Run::on_walked);
        },
    }
}

/// Once the layout is known, the directory that is built in stays.
proof fn lemma_root_stays(run: Run, event: Event, uuid: Seq<char>)
    requires
        rank(run.stage) > rank(Stage::Layout),
    ensures
        run.next(event, uuid).run.root == run.root,
        run.next(event, uuid).run.workdir == run.workdir,
{
    reveal(Run::want_build);
    reveal(Run::got_snapshot);
    reveal(Run::got_build);
    reveal(Run::got_tree);
    reveal(Run::got_rebuilt);
    match event {
        Event::Output(_) => {
            reveal(Run::on_output);
        },
        Event::Fetched(_) => {
            reveal(Run::on_fetched);
        },
        Event::Bytes(_) => {
            reveal(Run::on_bytes);
        },
        Event::Answer(_) => {
            reveal(Run::on_answer);
        },
        Event::Unpacked(_) => {
            reveal(Run::on_unpacked);
        },
        Event::Exit(_) => {
            reveal(Run::on_exit);
        },
        Event::Listed(_) => {
            reveal(Run::on_listed);
        },
        Event::Walked(_) => {
            reveal(Run::on_walked);
        },
    }
}

/// The layout that a step hands over is that of the directory.
proof fn lemma_layout_is_inside(run: Run, event: Event, uuid: Seq<char>)
    requires
        run.stage == Stage::Layout,
        run.workdir is Some,
        lists_truly(run, event),
    ensures
        builds_inside(run.next(event, uuid).run),
{
    law_run_goes_on(run, event, uuid);
    if let Event::Listed(_) = event {
        reveal(Run::on_listed);
        reveal(Run::got_root);
    }
}

/// A run that builds inside of the directory goes on doing so.
proof fn lemma_stays_inside(run: Run, event: Event, uuid: Seq<char>)
    requires
        builds_inside(run),
        run.stage == Stage::Layout ==> run.workdir is Some,
        lists_truly(run, event),
    ensures
        builds_inside(run.next(event, uuid).run),
{
    if rank(run.stage) < rank(Stage::Layout) {
        lemma_layout_is_not_skipped(run, event, uuid);
    } else if run.stage == Stage::Layout {
        lemma_layout_is_inside(run, event, uuid);
    } else {
        lemma_root_stays(run, event, uuid);
        law_run_goes_on(run, event, uuid);
    }
}

/// Whether every directory is listed as it is.
pub open spec fn all_listed_truly(
    request: Request,
    interactive: bool,
    steps: Seq<Step>,
) -> bool {
    forall|i: int|
        0 <= i < steps.len() ==> #[trigger] lists_truly(
            before(request, interactive, steps, i),
            steps[i].0,
        )
}

/// What is listed truly in some steps is so in all but the last, and in the last.
proof fn lemma_listed_truly(request: Request, interactive: bool, steps: Seq<Step>)
    requires
        steps.len() > 0,
        all_listed_truly(request, interactive, steps),
    ensures
        all_listed_truly(request, interactive, steps.drop_last()),
        lists_truly(
            reached(request, interactive, steps.drop_last()).run,
            steps.last().0,
        ),
{
    let init = steps.drop_last();
    let n = init.len() as int;
    assert forall|i: int| 0 <= i < init.len() implies #[trigger] lists_truly(
        before(request, interactive, init, i),
        init[i].0,
    ) by {
        assert(init.take(i) =~= steps.take(i));
        assert(lists_truly(before(request, interactive, steps, i), steps[i].0));
    }
    assert(steps.take(n) =~= init);
    assert(lists_truly(before(request, interactive, steps, n), steps[n].0));
}

/// A run builds inside of the directory that the source was unpacked into.
proof fn lemma_builds_inside(request: Request, interactive: bool, steps: Seq<Step>)
    requires
        all_listed_truly(request, interactive, steps),
    ensures
        builds_inside(reached(request, interactive, steps).run),
    decreases steps.len(),
{
    if steps.len() == 0 {
        reveal(Run::want_wasm);
    } else {
        let init = steps.drop_last();
        let run = reached(request, interactive, init).run;
        lemma_listed_truly(request, interactive, steps);
        lemma_builds_inside(request, interactive, init);
        assert(run.stage == Stage::Layout ==> run.workdir is Some) by {
            lemma_every_run_is_sound(request, interactive, init);
        }
        lemma_stays_inside(run, steps.last().0, steps.last().1);
    }
}

/// A running container leads back to its source: where directories are listed as
/// they are, the name of the build's container ends with the whole name of the
/// directory that the source was unpacked into.
pub proof fn law_container_is_named_after_the_source(
    request: Request,
    interactive: bool,
    steps: Seq<Step>,
)
    requires
        all_listed_truly(request, interactive, steps),
        steps.len() > 0,
        reached(request, interactive, steps).run.stage == Stage::Build,
        reached(request, interactive, steps).action is Run,
        file_name(or_empty(reached(request, interactive, steps).run.workdir)) is Some,
    ensures
        ({
            let turn = reached(request, interactive, steps);
            let dir = file_name(or_empty(turn.run.workdir))->0;
            let name = "stellar-contract-verify-"@ + steps.last().1 + "-"@ + dir;
            &&& dir.is_suffix_of(name)
            &&& kill_of(turn.run.cleanup) == Some(turn.run.request.engine.kill(name))
            &&& turn.action matches Action::Run { argv, .. } && names_container(
                turn.run.request.engine,
                argv,
                name,
            )
        }),
{
    let turn = reached(request, interactive, steps);
    let init = steps.drop_last();
    let previous = reached(request, interactive, init).run;
    let event = steps.last().0;
    let uuid = steps.last().1;
    lemma_builds_inside(request, interactive, steps);
    let workdir = turn.run.workdir->0;
    let wrapper = choose|wrapper: Seq<char>|
        is_entry_name(wrapper) && turn.run.root == #[trigger] entry_path(workdir, wrapper);
    law_container_leads_back_to_the_source(uuid, workdir, wrapper);
    lemma_build_started(previous, event, uuid);
}

/// A run that has just started the build runs it in a container with its name.
proof fn lemma_build_started(run: Run, event: Event, uuid: Seq<char>)
    requires
        run.next(event, uuid).run.stage == Stage::Build,
        run.next(event, uuid).action is Run,
    ensures
        ({
            let turn = run.next(event, uuid);
            let name = container_name(uuid, turn.run.root);
            &&& kill_of(turn.run.cleanup) == Some(turn.run.request.engine.kill(name))
            &&& turn.action matches Action::Run { argv, .. } && names_container(
                turn.run.request.engine,
                argv,
                name,
            )
        }),
{
    law_run_goes_on(run, event, uuid);
    if rank(run.stage) < rank(Stage::Layout) {
        lemma_layout_is_not_skipped(run, event, uuid);
    }
    reveal(Run::got_root);
    reveal(Run::want_build);
    reveal(Run::got_snapshot);
    match event {
        Event::Output(_) => {
            reveal(Run::on_output);
        },
        Event::Listed(_) => {
            reveal(Run::on_listed);
        },
        Event::Walked(_) => {
            reveal(Run::on_walked);
        },
        _ => {},
    }
}

/// A quiet run writes nothing on its way, from its start on.
pub proof fn law_quiet_run_is_quiet(request: Request, interactive: bool, steps: Seq<Step>)
    requires
        request.quiet,
        reached(request, interactive, steps).action !is Finish,
    ensures
        reached(request, interactive, steps).lines.len() == 0,
{
    lemma_last_turn(request, interactive, steps);
    if steps.len() > 0 {
        lemma_every_run_is_sound(request, interactive, steps.drop_last());
    }
}

/// A run ends with its result. The directory that the source was unpacked into is
/// kept and reported if and only if the user asked for that and there is one.
pub proof fn law_end_of_a_run(
    run: Run,
    lines: Seq<Seq<char>>,
    result: Result<(), Error<Seq<char>>>,
    dir: Seq<char>,
)
    ensures
        run.request.keep && run.workdir == Some(dir) ==> run.finish(lines, result) == (Turn {
            run: Run { stage: Stage::Done, ..run },
            lines: lines + seq![info("Kept build directory at "@ + dir)],
            action: Action::Finish { result, kept: Some(dir) },
        }),
        !run.request.keep || run.workdir is None ==> run.finish(lines, result) == (Turn {
            run: Run { stage: Stage::Done, ..run },
            lines,
            action: Action::Finish { result, kept: None },
        }),
{
    let line = info("Kept build directory at "@ + dir);
    assert(lines.push(line) =~= lines + seq![line]);
}

/// A run starts by asking the CLI for its default engine, if and only if none is
/// chosen; the engine that it names is adopted. Otherwise, and then, the WASM is
/// wanted.
pub proof fn law_first_steps(
    request: Request,
    interactive: bool,
    run: Run,
    output: Result<TextOutput, String>,
    uuid: Seq<char>,
)
    ensures
        ({
            let turn = reached(request, interactive, Seq::empty());
            let fresh = new_run(request, interactive);
            &&& request.engine.engine is None ==> turn == (Turn {
                run: Run { stage: Stage::Engine, ..fresh },
                lines: Seq::empty(),
                action: Action::Capture {
                    argv: seq!["stellar"@, "env"@, "STELLAR_CONTAINER_ENGINE"@],
                },
            })
            &&& request.engine.engine is Some ==> turn == fresh.want_wasm()
            &&& fresh.request == request && fresh.interactive == interactive
            &&& fresh.workdir is None && kill_of(fresh.cleanup) is None && removal_of(
                fresh.cleanup,
            ) is None
        }),
        run.stage == Stage::Engine ==> ({
            let request = Request {
                engine: run.request.engine.with_default(answered(output)),
                ..run.request
            };
            let settled = Run { request, ..run };
            run.next(Event::Output(output), uuid) == settled.want_wasm()
        }),
{
    reveal(Run::on_output);
}

/// A local file comes before the network, whatever else is given. The network is
/// asked by the contract's id, the WASM's hash and the network's name, each as it
/// was given. Without a file, an id and a hash the run fails.
pub proof fn law_where_the_wasm_comes_from(run: Run, path: Seq<char>)
    ensures
        run.request.wasm == Some(path) ==> run.want_wasm() == (Turn {
            run: Run { stage: Stage::ReadWasm, ..run },
            lines: Seq::empty(),
            action: Action::Read { path },
        }),
        run.request.wasm is None && (run.request.contract_id is Some || run.request.wasm_hash
            is Some) ==> run.want_wasm() == (Turn {
            run: Run { stage: Stage::FetchWasm, ..run },
            lines: if run.request.quiet {
                Seq::empty()
            } else {
                seq![info("Fetching WASM from the network via `stellar contract fetch`"@)]
            },
            action: Action::Fetch {
                argv: fetch_command(
                    run.request.contract_id,
                    run.request.wasm_hash,
                    run.request.network,
                ),
            },
        }),
        run.request.wasm is None && run.request.contract_id is None && run.request.wasm_hash
            is None ==> run.want_wasm() == run.finish(Seq::empty(), Err(Error::MissingInput)),
{
    reveal(Run::want_wasm);
    let line = info("Fetching WASM from the network via `stellar contract fetch`"@);
    assert(Seq::<Seq<char>>::empty().push(line) =~= seq![line]);
}

/// The WASM that was read or fetched is taken as it is. A file that cannot be read
/// and a fetch that fails end the run; the error of the fetch is what the program
/// wrote, without the white space around it.
pub proof fn law_wasm_is_taken_as_it_is(
    run: Run,
    bytes: Vec<u8>,
    output: FetchOutput,
    reason: String,
    uuid: Seq<char>,
)
    ensures
        run.stage == Stage::ReadWasm ==> {
            &&& run.next(Event::Bytes(Ok(bytes)), uuid) == run.got_wasm(bytes@)
            &&& run.request.wasm is Some ==> run.next(Event::Bytes(Err(reason)), uuid)
                == run.finish(
                Seq::empty(),
                Err(Error::ReadWasm(run.request.wasm->0, reason@)),
            )
        },
        run.stage == Stage::FetchWasm ==> {
            &&& output.success ==> run.next(Event::Fetched(Ok(output)), uuid) == run.got_wasm(
                output.stdout@,
            )
            &&& !output.success ==> run.next(Event::Fetched(Ok(output)), uuid) == run.finish(
                Seq::empty(),
                Err(Error::FetchFailed { stderr: trimmed(output.stderr@) }),
            )
            &&& run.next(Event::Fetched(Err(reason)), uuid) == run.finish(
                Seq::empty(),
                Err(Error::StellarInvoke(reason@)),
            )
        },
{
    reveal(Run::on_bytes);
    reveal(Run::on_fetched);
}

/// What a WASM records is announced before anything else is done with it; metadata
/// that is refused ends the run with the reason.
pub proof fn law_metadata_is_announced(run: Run, wasm: Seq<u8>, sections: Seq<Seq<Entry>>)
    ensures
        meta_sections(wasm) is Err ==> run.got_wasm(wasm) == run.finish(
            Seq::empty(),
            Err(meta_sections(wasm)->Err_0),
        ),
        meta_sections(wasm) == Ok::<Seq<Seq<Entry>>, Error<Seq<char>>>(sections) ==> {
            match extracted(sections) {
                Err(e) => run.got_wasm(wasm) == run.finish(Seq::empty(), Err(e)),
                Ok(meta) => {
                    let lines = announcement(run.request.quiet, run.request.source_uri, meta);
                    match effective_source(run.request.source_uri, meta.source_uri) {
                        Some(source) => {
                            let read = Run { wasm, meta, source, ..run };
                            run.got_wasm(wasm) == read.want_image_trust(lines)
                        },
                        None => {
                            let read = Run { wasm, meta, ..run };
                            run.got_wasm(wasm) == read.finish(lines, Err(Error::SourceUriRequired))
                        },
                    }
                },
            }
        },
{
    reveal(Run::got_wasm);
}

/// First the image and then the source must be trusted. A value that `--trust` or
/// the default covers is not asked for; for any other the user is asked, with the
/// lines so far written before the question, or the run ends.
pub proof fn law_trust_is_demanded(run: Run, lines: Seq<Seq<char>>)
    ensures
        run.request.trust || default_trusted(TrustKind::Bldimg, run.meta.bldimg)
            ==> run.want_image_trust(lines) == run.want_source_trust(lines),
        !run.request.trust && !default_trusted(TrustKind::Bldimg, run.meta.bldimg) ==> {
            &&& run.interactive ==> run.want_image_trust(lines) == (Turn {
                run: Run { stage: Stage::TrustImage, ..run },
                lines,
                action: Action::Ask {
                    question: trust_question(TrustKind::Bldimg, run.meta.bldimg),
                },
            })
            &&& !run.interactive ==> run.want_image_trust(lines) == run.finish(
                lines,
                Err(Error::TrustRequired { kind: TrustKind::Bldimg, value: run.meta.bldimg }),
            )
        },
        run.request.trust ==> run.want_source_trust(lines) == run.want_source(lines),
        !run.request.trust ==> {
            &&& run.interactive ==> run.want_source_trust(lines) == (Turn {
                run: Run { stage: Stage::TrustSource, ..run },
                lines,
                action: Action::Ask {
                    question: trust_question(TrustKind::SourceArchive, run.source),
                },
            })
            &&& !run.interactive ==> run.want_source_trust(lines) == run.finish(
                lines,
                Err(Error::TrustRequired { kind: TrustKind::SourceArchive, value: run.source }),
            )
        },
{
    reveal(Run::want_image_trust);
    reveal(Run::want_source_trust);
}

/// A user who grants trust in the image is asked about the source next, and one who
/// grants trust in the source lets it be fetched. An answer that cannot be read ends
/// the run.
pub proof fn law_granted_trust_goes_on(run: Run, answer: String, reason: String, uuid: Seq<char>)
    ensures
        run.stage == Stage::TrustImage && grants(answer@) ==> run.next(
            Event::Answer(Ok(answer)),
            uuid,
        ) == run.want_source_trust(Seq::empty()),
        run.stage == Stage::TrustSource && grants(answer@) ==> run.next(
            Event::Answer(Ok(answer)),
            uuid,
        ) == run.want_source(Seq::empty()),
        run.stage == Stage::TrustImage || run.stage == Stage::TrustSource ==> run.next(
            Event::Answer(Err(reason)),
            uuid,
        ) == run.finish(Seq::empty(), Err(Error::Stdin(reason@))),
{
    reveal(Run::on_answer);
}

/// The source is downloaded from its URL or read from its file, and its place is
/// announced. One that cannot be planned for ends the run.
pub proof fn law_source_is_fetched(
    run: Run,
    lines: Seq<Seq<char>>,
    source: Seq<char>,
    format: ArchiveFormat,
)
    ensures
        source_plan(run.request.source_uri, run.meta) == Ok::<
            (Seq<char>, ArchiveFormat),
            Error<Seq<char>>,
        >((source, format)) ==> run.want_source(lines) == (Turn {
            run: Run { stage: Stage::Source, source, format, ..run },
            lines: if run.request.quiet {
                lines
            } else {
                lines + seq![info("Fetching source code from "@ + sanitized(source))]
            },
            action: if is_remote(source) {
                Action::Download { url: source }
            } else {
                Action::Read { path: source }
            },
        }),
        source_plan(run.request.source_uri, run.meta) is Err ==> run.want_source(lines)
            == run.finish(lines, Err(source_plan(run.request.source_uri, run.meta)->Err_0)),
{
    reveal(Run::want_source);
    let line = info("Fetching source code from "@ + sanitized(source));
    assert(lines.push(line) =~= lines + seq![line]);
}

/// A source that has the recorded digest goes on to be unpacked, and one that has
/// not ends the run with both digests. One that was not fetched ends it with the
/// reason, and with its place.
pub proof fn law_source_is_checked(
    run: Run,
    archive: Vec<u8>,
    expected: Seq<char>,
    reason: String,
    uuid: Seq<char>,
)
    requires
        run.stage == Stage::Source,
    ensures
        run.meta.source_sha256 == Some(expected) ==> {
            &&& digest_matches(archive@, expected) ==> run.next(Event::Bytes(Ok(archive)), uuid)
                == (Turn {
                run: Run { stage: Stage::DataDir, archive: archive@, ..run },
                lines: if run.request.quiet {
                    Seq::empty()
                } else {
                    seq![check("Source SHA-256 matches"@)]
                },
                action: Action::Capture { argv: seq!["stellar"@, "cache"@, "path"@] },
            })
            &&& !digest_matches(archive@, expected) ==> run.next(Event::Bytes(Ok(archive)), uuid)
                == run.finish(
                Seq::empty(),
                Err(Error::SourceHashMismatch { expected, actual: sha256_text(archive@) }),
            )
        },
        run.meta.source_sha256 is None ==> run.next(Event::Bytes(Ok(archive)), uuid) == (Turn {
            run: Run { stage: Stage::DataDir, archive: archive@, ..run },
            lines: Seq::empty(),
            action: Action::Capture { argv: seq!["stellar"@, "cache"@, "path"@] },
        }),
        is_remote(run.source) ==> run.next(Event::Bytes(Err(reason)), uuid) == run.finish(
            Seq::empty(),
            Err(Error::SourceDownload { url: run.source, source: reason@ }),
        ),
        !is_remote(run.source) ==> run.next(Event::Bytes(Err(reason)), uuid) == run.finish(
            Seq::empty(),
            Err(Error::SourceRead { path: run.source, source: reason@ }),
        ),
{
    reveal(Run::on_bytes);
    reveal(Run::got_source);
    reveal(Run::want_data_dir);
    let line = check("Source SHA-256 matches"@);
    assert(Seq::<Seq<char>>::empty().push(line) =~= seq![line]);
}

/// The archive is unpacked as it was checked, in its own format, under the directory
/// that the CLI names; the white space around the name does not count. Where the CLI
/// names none, or fails, or cannot be run, the run ends.
pub proof fn law_source_is_unpacked(run: Run, output: TextOutput, reason: String, uuid: Seq<char>)
    requires
        run.stage == Stage::DataDir,
    ensures
        output.success && trimmed(output.stdout@).len() > 0 ==> ({
            let turn = run.next(Event::Output(Ok(output)), uuid);
            &&& turn.run == (Run { stage: Stage::Unpack, archive: Seq::empty(), ..run })
            &&& turn.lines == Seq::<Seq<char>>::empty()
            &&& turn.action matches Action::Unpack { data_dir, prefix, format, archive }
            &&& data_dir == trimmed(output.stdout@)
            &&& prefix@ == "verify-src-"@
            &&& format == run.format
            &&& archive == run.archive
        }),
        !output.success || trimmed(output.stdout@).len() == 0 ==> run.next(
            Event::Output(Ok(output)),
            uuid,
        ) == run.finish(Seq::empty(), Err(Error::DataDir)),
        run.next(Event::Output(Err(reason)), uuid) == run.finish(
            Seq::empty(),
            Err(Error::StellarInvoke(reason@)),
        ),
{
    reveal(Run::on_output);
    reveal(Run::got_data_dir);
}

/// Once the source is unpacked, its directory is on record for an interrupt, and the
/// recorded image is pulled; the pull's output is shown unless the run is quiet. A
/// docker host that the engine ignores is warned of. An archive that cannot be
/// unpacked ends the run.
pub proof fn law_image_is_pulled(run: Run, dir: String, reason: String, uuid: Seq<char>)
    requires
        run.stage == Stage::Unpack,
    ensures
        ({
            let turn = run.next(Event::Unpacked(Ok(dir)), uuid);
            let host = run.request.engine.docker_host is Some && run.request.engine.used()
                == Engine::AppleContainer;
            &&& turn.run == (Run {
                stage: Stage::Pull,
                workdir: Some(dir@),
                cleanup: run.cleanup.with_tempdir(dir@, run.request.keep),
                ..run
            })
            &&& run.request.quiet ==> turn.lines == Seq::<Seq<char>>::empty()
            &&& !run.request.quiet ==> turn.lines == seq![
                check("Source materialized at "@ + dir@),
            ] + (if host {
                seq![warn(host_ignored(Engine::AppleContainer))]
            } else {
                Seq::empty()
            }) + seq![info("Pulling image "@ + sanitized(run.meta.bldimg))]
            &&& turn.action matches Action::Run { argv, show }
            &&& argv == run.request.engine.pull(run.meta.bldimg)
            &&& show == !run.request.quiet
        }),
        run.next(Event::Unpacked(Err(UnpackFault::Zip(reason))), uuid) == run.finish(
            Seq::empty(),
            Err(Error::ZipExtract(reason@)),
        ),
        run.next(Event::Unpacked(Err(UnpackFault::Archive(reason))), uuid) == run.finish(
            Seq::empty(),
            Err(Error::ArchiveExtract(reason@)),
        ),
{
    reveal(Run::on_unpacked);
    reveal(Run::got_workdir);
    let turn = run.next(Event::Unpacked(Ok(dir)), uuid);
    let host = run.request.engine.docker_host is Some && run.request.engine.used()
        == Engine::AppleContainer;
    if !run.request.quiet {
        assert(turn.lines =~= seq![check("Source materialized at "@ + dir@)] + (if host {
            seq![warn(host_ignored(Engine::AppleContainer))]
        } else {
            Seq::empty()
        }) + seq![info("Pulling image "@ + sanitized(run.meta.bldimg))]);
    } else {
        assert(turn.lines =~= Seq::<Seq<char>>::empty());
    }
}

/// Once the image is pulled, it is asked for the options of its build. A pull that
/// fails ends the run with the image's name, and one that cannot be run with the
/// engine's program.
pub proof fn law_image_is_asked_for_its_options(
    run: Run,
    status: ExitStatus,
    reason: String,
    uuid: Seq<char>,
)
    requires
        run.stage == Stage::Pull,
    ensures
        status.success ==> run.next(Event::Exit(Ok(status)), uuid) == (Turn {
            run: Run { stage: Stage::Options, ..run },
            lines: Seq::empty(),
            action: Action::Capture { argv: locked_probe(run.request.engine, run.meta.bldimg) },
        }),
        !status.success ==> run.next(Event::Exit(Ok(status)), uuid) == run.finish(
            Seq::empty(),
            Err(Error::PullFailed { image: run.meta.bldimg }),
        ),
        run.next(Event::Exit(Err(reason)), uuid) == run.finish(
            Seq::empty(),
            Err(
                Error::EngineInvoke {
                    program: run.request.engine.used().program_text(),
                    source: reason@,
                },
            ),
        ),
{
    reveal(Run::on_exit);
    reveal(Run::got_image);
}

/// The build is composed of the words of the recorded options and of the recorded
/// entries. It is locked where the help of the image's build names `--locked`,
/// whether the help succeeded or not; where there is no help, it is not, and a
/// warning says so. Then the unpacked source is listed.
pub proof fn law_build_is_composed(
    run: Run,
    dir: Seq<char>,
    output: TextOutput,
    reason: String,
    uuid: Seq<char>,
)
    requires
        run.stage == Stage::Options,
        run.workdir == Some(dir),
    ensures
        run.next(Event::Output(Ok(output)), uuid) == (Turn {
            run: Run {
                stage: Stage::Layout,
                container_cmd: build_command(
                    option_words(run.meta.bldopts),
                    run.meta.meta_entries,
                    has_part(output.stdout@, "--locked"@),
                ),
                env: environment(option_words(run.meta.bldopts)),
                ..run
            },
            lines: Seq::empty(),
            action: Action::List { path: dir },
        }),
        run.next(Event::Output(Err(reason)), uuid) == (Turn {
            run: Run {
                stage: Stage::Layout,
                container_cmd: build_command(
                    option_words(run.meta.bldopts),
                    run.meta.meta_entries,
                    false,
                ),
                env: environment(option_words(run.meta.bldopts)),
                ..run
            },
            lines: if run.request.quiet {
                Seq::empty()
            } else {
                seq![
                    warn(
                        "Could not probe whether the container's `contract build` supports --locked (could not run `"@
                            + run.request.engine.used().program_text()
                            + "` (is it installed and on PATH?): "@ + reason@
                            + "); building without it"@,
                    ),
                ]
            },
            action: Action::List { path: dir },
        }),
{
    reveal(Run::on_output);
    reveal(Run::got_options);
    let line = warn(probe_failed(run.request.engine.used().program_text(), reason@));
    assert(Seq::<Seq<char>>::empty().push(line) =~= seq![line]);
}

/// The build runs in the only directory of the unpacked source, which is listed
/// first. No directory and several end the run, with their number, and so does a
/// source that cannot be listed.
pub proof fn law_only_directory_is_built_in(
    run: Run,
    dir: Seq<char>,
    list: Vec<String>,
    reason: String,
    uuid: Seq<char>,
)
    requires
        run.stage == Stage::Layout,
        run.workdir == Some(dir),
    ensures
        list@.len() == 1 ==> run.next(Event::Listed(Ok(list)), uuid) == (Turn {
            run: Run { stage: Stage::Snapshot, root: list@[0]@, ..run },
            lines: Seq::empty(),
            action: Action::Walk { path: list@[0]@ },
        }),
        list@.len() != 1 ==> run.next(Event::Listed(Ok(list)), uuid) == run.finish(
            Seq::empty(),
            Err(Error::SourceArchiveLayout { path: dir, count: list@.len() as usize }),
        ),
        run.next(Event::Listed(Err(reason)), uuid) == run.finish(
            Seq::empty(),
            Err(Error::SourceExtract { path: dir, source: reason@ }),
        ),
{
    reveal(Run::on_listed);
    reveal(Run::got_root);
}

/// Every WASM of a release build that is there before the build is remembered, and
/// a warning tells how many there are, if any. Then the image is asked for its
/// toolchain, unless the recorded options pin one: then the build starts with none
/// but theirs.
pub proof fn law_old_results_are_remembered(run: Run, paths: Vec<String>, uuid: Seq<char>)
    requires
        run.stage == Stage::Snapshot,
    ensures
        ({
            let turn = run.next(Event::Walked(paths), uuid);
            let old = texts(paths@).filter(is_release_wasm());
            let next = Run { preexisting: old, ..run };
            let lines = if run.request.quiet || old.len() == 0 {
                Seq::empty()
            } else {
                seq![
                    warn(
                        "Ignoring "@ + decimal(old.len())
                            + " pre-existing WASM artifact(s) in the source; only freshly rebuilt output is trusted"@,
                    ),
                ]
            };
            &&& pins_toolchain(run.env) ==> turn == next.want_build(lines, None, uuid)
            &&& !pins_toolchain(run.env) ==> turn == (Turn {
                run: Run { stage: Stage::Toolchain, ..next },
                lines,
                action: Action::Capture {
                    argv: toolchain_probe(run.request.engine, run.meta.bldimg),
                },
            })
        }),
{
    reveal(Run::on_walked);
    reveal(Run::got_snapshot);
    let old = texts(paths@).filter(is_release_wasm());
    let line = warn(
        "Ignoring "@ + decimal(old.len())
            + " pre-existing WASM artifact(s) in the source; only freshly rebuilt output is trusted"@,
    );
    assert(Seq::<Seq<char>>::empty().push(line) =~= seq![line]);
}

/// The first word of what the image's `rustup` writes is the toolchain of the build,
/// whether `rustup` succeeded or not; where it could not be run, none is set.
pub proof fn law_toolchain_is_asked_for(
    run: Run,
    output: TextOutput,
    reason: String,
    uuid: Seq<char>,
)
    requires
        run.stage == Stage::Toolchain,
    ensures
        run.next(Event::Output(Ok(output)), uuid) == run.want_build(
            Seq::empty(),
            first_word(output.stdout@),
            uuid,
        ),
        run.next(Event::Output(Err(reason)), uuid) == run.want_build(Seq::empty(), None, uuid),
{
    reveal(Run::on_output);
}

/// The build runs with the limits that the user sets, in the recorded image, with
/// the composed command and environment, the toolchain among it. It is announced,
/// with the line for a shell where the run is verbose; its output is shown where the
/// run is verbose and not quiet. Its container is on record for an interrupt.
pub proof fn law_build_is_run(
    run: Run,
    lines: Seq<Seq<char>>,
    toolchain: Option<Seq<char>>,
    uuid: Seq<char>,
)
    ensures
        ({
            let turn = run.want_build(lines, toolchain, uuid);
            let name = container_name(uuid, run.root);
            let limits = limit_flags(run.request.cpus, run.request.memory);
            let env = with_toolchain(run.env, toolchain);
            let line = reproduce_line(
                run.request.engine,
                limits,
                run.root,
                env,
                run.meta.bldimg,
                run.container_cmd,
            );
            &&& turn.run == (Run {
                stage: Stage::Build,
                env,
                reproduce: line,
                cleanup: run.cleanup.with_container(run.request.engine.kill(name)),
                ..run
            })
            &&& run.request.quiet ==> turn.lines == lines
            &&& !run.request.quiet ==> turn.lines == lines + seq![
                info(
                    "Running verifiable build in "@ + sanitized(run.meta.bldimg) + " (mount "@
                        + sanitized(run.root + ":/source"@) + ")"@,
                ),
            ] + (if run.request.verbose {
                seq![info("Running: "@ + line)]
            } else {
                Seq::empty()
            })
            &&& turn.action matches Action::Run { argv, show }
            &&& argv == run_command(
                run.request.engine,
                name,
                limits,
                run.root,
                env,
                run.meta.bldimg,
                run.container_cmd,
            )
            &&& show == (run.request.verbose && !run.request.quiet)
        }),
{
    reveal(Run::want_build);
    let turn = run.want_build(lines, toolchain, uuid);
    let limits = limit_flags(run.request.cpus, run.request.memory);
    let env = with_toolchain(run.env, toolchain);
    let line = reproduce_line(
        run.request.engine,
        limits,
        run.root,
        env,
        run.meta.bldimg,
        run.container_cmd,
    );
    if !run.request.quiet {
        assert(turn.lines =~= lines + seq![
            info(
                "Running verifiable build in "@ + sanitized(run.meta.bldimg) + " (mount "@
                    + sanitized(run.root + ":/source"@) + ")"@,
            ),
        ] + (if run.request.verbose {
            seq![info("Running: "@ + line)]
        } else {
            Seq::empty()
        }));
    }
}

/// Once the build has succeeded, the directory that it ran in is listed again. A
/// build that failed ends the run with its exit code, or with -1 where it has none,
/// and with the line for a shell; one that could not be run with the engine's
/// program. A container that has ended is no longer on record.
pub proof fn law_end_of_the_build(run: Run, status: ExitStatus, reason: String, uuid: Seq<char>)
    requires
        run.stage == Stage::Build,
    ensures
        ({
            let ended = Run { cleanup: run.cleanup.without_container(), ..run };
            &&& status.success ==> run.next(Event::Exit(Ok(status)), uuid) == (Turn {
                run: Run { stage: Stage::Collect, ..ended },
                lines: Seq::empty(),
                action: Action::Walk { path: run.root },
            })
            &&& !status.success && status.code is Some ==> run.next(
                Event::Exit(Ok(status)),
                uuid,
            ) == ended.finish(
                Seq::empty(),
                Err(
                    Error::ContainerExit {
                        status: status.code->0 as i64,
                        command: run.reproduce,
                    },
                ),
            )
            &&& !status.success && status.code is None ==> run.next(
                Event::Exit(Ok(status)),
                uuid,
            ) == ended.finish(
                Seq::empty(),
                Err(Error::ContainerExit { status: (-1) as i64, command: run.reproduce }),
            )
            &&& run.next(Event::Exit(Err(reason)), uuid) == run.finish(
                Seq::empty(),
                Err(
                    Error::EngineInvoke {
                        program: run.request.engine.used().program_text(),
                        source: reason@,
                    },
                ),
            )
        }),
{
    reveal(Run::on_exit);
    reveal(Run::got_build);
}

/// The result is chosen among the WASMs of a release build that were not there
/// before, by the package that the recorded options select, and it is read. Where
/// none can be chosen, the run ends with the reason.
pub proof fn law_result_is_read(run: Run, paths: Vec<String>, uuid: Seq<char>)
    requires
        run.stage == Stage::Collect,
    ensures
        ({
            let turn = run.next(Event::Walked(paths), uuid);
            match chosen_wasm(
                run.root,
                fresh_wasms(texts(paths@), run.preexisting),
                selected_package(run.meta.bldopts),
            ) {
                Ok(path) => turn == (Turn {
                    run: Run { stage: Stage::Rebuilt, rebuilt: path, ..run },
                    lines: Seq::empty(),
                    action: Action::Read { path },
                }),
                Err(e) => turn == run.finish(Seq::empty(), Err(e)),
            }
        }),
{
    reveal(Run::on_walked);
    reveal(Run::got_tree);
}

/// The verdict is that of the WASM and of the rebuilt one, as they are. It is
/// written in any case, after the place of the rebuilt WASM where that is kept and
/// the run is not quiet. A result that cannot be read ends the run with its path.
pub proof fn law_verdict_ends_the_run(run: Run, rebuilt: Vec<u8>, reason: String, uuid: Seq<char>)
    requires
        run.stage == Stage::Rebuilt,
    ensures
        ({
            let turn = run.next(Event::Bytes(Ok(rebuilt)), uuid);
            let place = if run.request.keep && !run.request.quiet {
                seq![info("Rebuilt WASM at "@ + sanitized(run.rebuilt))]
            } else {
                Seq::empty()
            };
            match verdict(run.wasm, rebuilt@) {
                Ok(note) => turn == run.finish(place + seq![check(note)], Ok(())),
                Err(e) => turn == run.finish(place, Err(e)),
            }
        }),
        run.next(Event::Bytes(Err(reason)), uuid) == run.finish(
            Seq::empty(),
            Err(Error::ReadRebuilt { path: run.rebuilt, source: reason@ }),
        ),
{
    reveal(Run::on_bytes);
    reveal(Run::got_rebuilt);
    let place = if run.request.keep && !run.request.quiet {
        seq![info("Rebuilt WASM at "@ + sanitized(run.rebuilt))]
    } else {
        Seq::empty()
    };
    let line = info("Rebuilt WASM at "@ + sanitized(run.rebuilt));
    assert(Seq::<Seq<char>>::empty().push(line) =~= seq![line]);
    if verdict(run.wasm, rebuilt@) is Ok {
        let note = check(verdict(run.wasm, rebuilt@)->Ok_0);
        assert(place.push(note) =~= place + seq![note]);
    }
}

/// An event that a run does not wait for at its stage changes nothing, writes nothing
/// and is followed by nothing.
pub proof fn law_other_events_change_nothing(run: Run, event: Event, uuid: Seq<char>)
    requires
        event is Output ==> run.stage != Stage::Engine && run.stage != Stage::DataDir && run.stage
            != Stage::Options && run.stage != Stage::Toolchain,
        event is Fetched ==> run.stage != Stage::FetchWasm,
        event is Bytes ==> run.stage != Stage::ReadWasm && run.stage != Stage::Source && run.stage
            != Stage::Rebuilt,
        event is Answer ==> run.stage != Stage::TrustImage && run.stage != Stage::TrustSource,
        event is Unpacked ==> run.stage != Stage::Unpack,
        event is Exit ==> run.stage != Stage::Pull && run.stage != Stage::Build,
        event is Listed ==> run.stage != Stage::Layout,
        event is Walked ==> run.stage != Stage::Snapshot && run.stage != Stage::Collect,
    ensures
        run.next(event, uuid) == (Turn { run, lines: Seq::empty(), action: Action::Ignore }),
{
    reveal(Run::on_output);
    reveal(Run::on_fetched);
    reveal(Run::on_bytes);
    reveal(Run::on_answer);
    reveal(Run::on_unpacked);
    reveal(Run::on_exit);
    reveal(Run::on_listed);
    reveal(Run::on_walked);
}

} // verus!
