//! The rebuild of a contract in a container: the commands that it takes, and
//! the choice of the WASM that it leaves behind.

use vstd::prelude::*;
use vstd::string::StringExecFns;

use crate::engine::{limit_flags, ContainerArgs, EngineChoice, RunArgs};
use crate::error::Error;
use crate::meta::{entries, first, Entry, ExtractedMetadata};
use crate::net::{flag, opt_str};
use crate::path::{
    components, entry_path, file_name, find_file_name, find_parent_name, is_entry_name,
    law_entry_path, parent_name, split_path,
};
use crate::print::{
    harmless, is_harmless, law_sanitized_is_harmless, sanitize, sanitized, shown, warn, Print,
};
use crate::seqs::{
    lemma_filter_contains, lemma_filter_distinct, lemma_filter_none, lemma_filter_one,
    lemma_filter_order, lemma_filter_step,
};
use crate::shell::{
    escape_all, escaped, escaped_all, is_plain_text, law_line_reads_back, only_word, read_words,
    sanitized_all, shell_line, shell_words, unescape,
};
use crate::text::{
    chars_of, concat2, concat3, contains, ends_with, find_first_word, first_word, has_part,
    is_lower_hex, join, joined, law_replacing, lemma_joined_append, opt_text, push_all, push_text,
    replace, replaced, same, starts_with, strip_prefix, texts,
};

verus! {

/// The result of pulling the build image. `status` tells whether the command
/// succeeded, or why it could not be run.
pub fn pull_image(
    image_ref: &str,
    args: &ContainerArgs,
    status: Result<bool, String>,
) -> (r: Result<(), Error>)
    ensures
        match status {
            Ok(true) => r is Ok,
            Ok(false) => r matches Err(e) && e@ == (Error::PullFailed { image: image_ref@ }),
            Err(reason) => r matches Err(e) && e@ == (Error::EngineInvoke {
                program: args@.used().program_text(),
                source: reason@,
            }),
        },
{
    match status {
        Ok(true) => Ok(()),
        Ok(false) => Err(Error::PullFailed { image: image_ref.to_string() }),
        Err(reason) => Err(args.invoke_error(reason.as_str())),
    }
}

/// The command that runs `cmd` in a throw-away container.
pub open spec fn probe_command(
    choice: EngineChoice,
    image: Seq<char>,
    entrypoint: Option<Seq<char>>,
    cmd: Seq<Seq<char>>,
) -> Seq<Seq<char>> {
    choice.prefix() + seq!["run"@, "--rm"@] + flag("--entrypoint"@, entrypoint) + seq![image] + cmd
}

/// The command that runs `cmd` in a throw-away container, in place of the
/// image's own entry point where one is given.
pub fn run_probe(
    image_ref: &str,
    args: &ContainerArgs,
    entrypoint: Option<&str>,
    cmd: &Vec<String>,
) -> (argv: Vec<String>)
    ensures
        texts(argv@) == probe_command(args@, image_ref@, opt_str(entrypoint), texts(cmd@)),
{
    let mut argv: Vec<String> = args.base_command();
    push_text(&mut argv, "run");
    push_text(&mut argv, "--rm");
    if let Some(entrypoint) = entrypoint {
        push_text(&mut argv, "--entrypoint");
        push_text(&mut argv, entrypoint);
    }
    push_text(&mut argv, image_ref);
    assert(texts(argv@) =~= args@.prefix() + seq!["run"@, "--rm"@] + flag(
        "--entrypoint"@,
        opt_str(entrypoint),
    ) + seq![image_ref@]);
    push_all(&mut argv, cmd);
    argv
}

/// The command that asks the image's CLI for the options of a build.
pub open spec fn locked_probe(choice: EngineChoice, image: Seq<char>) -> Seq<Seq<char>> {
    probe_command(choice, image, None, seq!["contract"@, "build"@, "--help"@])
}

/// The command that asks the image's CLI for the options of a build.
pub fn locked_probe_command(image_ref: &str, args: &ContainerArgs) -> (argv: Vec<String>)
    ensures
        texts(argv@) == locked_probe(args@, image_ref@),
{
    let mut cmd: Vec<String> = Vec::new();
    push_text(&mut cmd, "contract");
    push_text(&mut cmd, "build");
    push_text(&mut cmd, "--help");
    assert(texts(cmd@) =~= seq!["contract"@, "build"@, "--help"@]);
    run_probe(image_ref, args, None, &cmd)
}

/// The command that asks the image for its Rust toolchain.
pub open spec fn toolchain_probe(choice: EngineChoice, image: Seq<char>) -> Seq<Seq<char>> {
    probe_command(choice, image, Some("rustup"@), seq!["show"@, "active-toolchain"@])
}

/// The command that asks the image for its Rust toolchain.
pub fn toolchain_probe_command(image_ref: &str, args: &ContainerArgs) -> (argv: Vec<String>)
    ensures
        texts(argv@) == toolchain_probe(args@, image_ref@),
{
    let mut cmd: Vec<String> = Vec::new();
    push_text(&mut cmd, "show");
    push_text(&mut cmd, "active-toolchain");
    assert(texts(cmd@) =~= seq!["show"@, "active-toolchain"@]);
    run_probe(image_ref, args, Some("rustup"), &cmd)
}

/// The warning that the options of a build are unknown.
pub open spec fn probe_failed(program: Seq<char>, reason: Seq<char>) -> Seq<char> {
    "Could not probe whether the container's `contract build` supports --locked (could not run `"@
        + program + "` (is it installed and on PATH?): "@ + reason + "); building without it"@
}

/// Whether the image's `contract build` accepts `--locked`: its help says so.
/// `output` is the help, or why there is none; then the flag is taken to be
/// unknown, with a warning.
pub fn probe_supports_locked(
    args: &ContainerArgs,
    output: &Result<String, String>,
    print: &Print,
) -> (r: (bool, Option<String>))
    ensures
        match *output {
            Ok(help) => r.0 == has_part(help@, "--locked"@) && r.1 is None,
            Err(reason) => !r.0 && opt_text(r.1) == shown(
                print.quiet,
                warn(probe_failed(args@.used().program_text(), reason@)),
            ),
        },
{
    match output {
        Ok(help) => (contains(help.as_str(), "--locked"), None),
        Err(reason) => {
            let mut message: String =
                "Could not probe whether the container's `contract build` supports --locked (could not run `".to_string();
            message.append(args.program());
            message.append("` (is it installed and on PATH?): ");
            message.append(reason.as_str());
            message.append("); building without it");
            (false, print.warnln(message.as_str()))
        },
    }
}

/// The toolchain that the image's `rustup` names, or none where it could not be
/// asked.
pub open spec fn active_toolchain(output: Result<String, String>) -> Option<Seq<char>> {
    match output {
        Ok(text) => first_word(text@),
        Err(_) => None,
    }
}

/// The toolchain that the image's `rustup` names: the first word of its output.
pub fn probe_active_toolchain(output: &Result<String, String>) -> (r: Option<String>)
    ensures
        opt_text(r) == active_toolchain(*output),
{
    match output {
        Ok(text) => find_first_word(text.as_str()),
        Err(_) => None,
    }
}

/// The test for texts that start with `prefix`.
pub open spec fn starting(prefix: Seq<char>) -> spec_fn(Seq<char>) -> bool {
    |s: Seq<char>| prefix.is_prefix_of(s)
}

/// The test for options that are handed on to the build.
pub open spec fn to_forward() -> spec_fn(Seq<char>) -> bool {
    |s: Seq<char>| !"--env="@.is_prefix_of(s) && !"--meta="@.is_prefix_of(s)
}

/// The options of the original build, as the words that it was given.
pub open spec fn option_words(bldopts: Seq<Seq<char>>) -> Seq<Seq<char>> {
    bldopts.map_values(|o: Seq<char>| only_word(o, shell_words(o)))
}

/// The variables that the options set in the build's environment.
pub open spec fn environment(options: Seq<Seq<char>>) -> Seq<Seq<char>> {
    options.filter(starting("--env="@)).map_values(|o: Seq<char>| o.skip("--env="@.len() as int))
}

/// The options that are handed on to the build, after `--locked` where the
/// image knows it and they do not hold it.
pub open spec fn forwarded(options: Seq<Seq<char>>, supports_locked: bool) -> Seq<Seq<char>> {
    let kept = options.filter(to_forward());
    if supports_locked && !kept.contains("--locked"@) {
        seq!["--locked"@] + kept
    } else {
        kept
    }
}

/// The words that record every entry again, in the entries' order.
pub open spec fn replay_words(list: Seq<Entry>) -> Seq<Seq<char>>
    decreases list.len(),
{
    if list.len() == 0 {
        Seq::empty()
    } else {
        replay_words(list.drop_last()).push("--meta"@).push(list.last().0 + "="@ + list.last().1)
    }
}

/// The command of the build inside the container.
pub open spec fn build_command(
    options: Seq<Seq<char>>,
    list: Seq<Entry>,
    supports_locked: bool,
) -> Seq<Seq<char>> {
    seq!["contract"@, "build"@] + forwarded(options, supports_locked) + replay_words(list)
}

/// Whether the list holds the text.
fn holds(list: &Vec<String>, s: &str) -> (r: bool)
    ensures
        r == texts(list@).contains(s@),
{
    for i in 0..list.len()
        invariant
            forall|j: int| 0 <= j < i ==> #[trigger] texts(list@)[j] != s@,
    {
        if same(list[i].as_str(), s) {
            assert(texts(list@)[i as int] == s@);
            return true;
        }
    }
    false
}

/// Composes the command of the build, and its environment, from the options of
/// the original build and the entries to record again.
pub fn compose_build(
    options: &Vec<String>,
    meta_entries: &Vec<(String, String)>,
    supports_locked: bool,
) -> (r: (Vec<String>, Vec<String>))
    ensures
        texts(r.0@) == build_command(texts(options@), entries(meta_entries@), supports_locked),
        texts(r.1@) == environment(texts(options@)),
{
    let ghost model = texts(options@);
    let ghost strip = |o: Seq<char>| o.skip("--env="@.len() as int);
    let mut kept: Vec<String> = Vec::new();
    let mut env: Vec<String> = Vec::new();
    proof {
        lemma_filter_none(model, to_forward());
        lemma_filter_none(model, starting("--env="@));
        assert(texts(kept@) =~= model.take(0).filter(to_forward()));
        assert(texts(env@) =~= model.take(0).filter(starting("--env="@)).map_values(strip));
    }
    for i in 0..options.len()
        invariant
            model == texts(options@),
            strip == (|o: Seq<char>| o.skip("--env="@.len() as int)),
            texts(kept@) == model.take(i as int).filter(to_forward()),
            texts(env@) == model.take(i as int).filter(starting("--env="@)).map_values(strip),
    {
        let ghost so_far = model.take(i as int).filter(starting("--env="@));
        proof {
            lemma_filter_step(model, i as int, to_forward());
            lemma_filter_step(model, i as int, starting("--env="@));
            assert(so_far.push(model[i as int]).map_values(strip) =~= so_far.map_values(
                strip,
            ).push(strip(model[i as int])));
        }
        let option: &str = options[i].as_str();
        if let Some(variable) = strip_prefix(option, "--env=") {
            push_text(&mut env, variable.as_str());
        } else if !starts_with(option, "--meta=") {
            push_text(&mut kept, option);
        }
    }
    assert(model.take(model.len() as int) =~= model);
    assert(texts(env@) == environment(model));

    let mut argv: Vec<String> = Vec::new();
    push_text(&mut argv, "contract");
    push_text(&mut argv, "build");
    assert(texts(argv@) =~= seq!["contract"@, "build"@]);
    let ghost start = texts(argv@);
    if supports_locked && !holds(&kept, "--locked") {
        push_text(&mut argv, "--locked");
    }
    push_all(&mut argv, &kept);
    assert(texts(argv@) =~= start + forwarded(model, supports_locked));

    let ghost list = entries(meta_entries@);
    let ghost before = texts(argv@);
    for i in 0..meta_entries.len()
        invariant
            list == entries(meta_entries@),
            texts(argv@) == before + replay_words(list.take(i as int)),
    {
        let ghost so_far = replay_words(list.take(i as int));
        let pair: String = concat3(meta_entries[i].0.as_str(), "=", meta_entries[i].1.as_str());
        push_text(&mut argv, "--meta");
        push_text(&mut argv, pair.as_str());
        assert(list.take(i + 1).drop_last() =~= list.take(i as int));
        assert(list.take(i + 1).last() == list[i as int]);
        assert(texts(argv@) =~= before + so_far.push("--meta"@).push(pair@));
    }
    assert(list.take(list.len() as int) =~= list);
    (argv, env)
}

/// Composes the command of the build inside the container, and the variables
/// of its environment.
///
/// The recorded entries are given again as they are, in their order. The
/// recorded options are unescaped and handed on, except for those that set a
/// variable, which become part of the environment, and those that record an
/// entry, which is given again already. `--locked` is forced where the image
/// knows it.
pub fn build_container_command(meta: &ExtractedMetadata, supports_locked: bool) -> (r: (
    Vec<String>,
    Vec<String>,
))
    ensures
        texts(r.0@) == build_command(
            option_words(meta@.bldopts),
            meta@.meta_entries,
            supports_locked,
        ),
        texts(r.1@) == environment(option_words(meta@.bldopts)),
        forall|i: int, start: Seq<char>, word: Seq<char>|
            0 <= i < meta@.bldopts.len() && is_plain_text(start) && meta@.bldopts[i]
                == #[trigger] (start + escaped(word)) ==> #[trigger] option_words(
                meta@.bldopts,
            )[i] == start + word,
{
    let ghost model = option_words(meta@.bldopts);
    let mut options: Vec<String> = Vec::new();
    for i in 0..meta.bldopts.len()
        invariant
            model == option_words(meta@.bldopts),
            texts(options@) == model.take(i as int),
            forall|j: int, start: Seq<char>, word: Seq<char>|
                0 <= j < i && is_plain_text(start) && meta@.bldopts[j] == #[trigger] (start
                    + escaped(word)) ==> #[trigger] model[j] == start + word,
    {
        let word: String = unescape(meta.bldopts[i].as_str());
        assert(model.take(i + 1) =~= model.take(i as int).push(word@));
        push_text(&mut options, word.as_str());
    }
    assert(model.take(model.len() as int) =~= model);
    compose_build(&options, &meta.meta_entries, supports_locked)
}

/// Whether a path is a WASM directly in an output directory of a release
/// build: `<triple>/release/<name>.wasm`, at any depth.
pub open spec fn is_release_wasm() -> spec_fn(Seq<char>) -> bool {
    |path: Seq<char>|
        {
            let parts = components(path);
            let n = parts.len();
            &&& n >= 3
            &&& ".wasm"@.is_suffix_of(parts[n - 1])
            &&& parts[n - 1].len() > ".wasm"@.len()
            &&& parts[n - 2] == "release"@
            &&& parts[n - 3] == "wasm32v1-none"@ || parts[n - 3] == "wasm32-unknown-unknown"@
        }
}

fn release_wasm(path: &str) -> (r: bool)
    ensures
        r == is_release_wasm()(path@),
{
    let parts: Vec<String> = split_path(path);
    let n: usize = parts.len();
    if n < 3 {
        return false;
    }
    assert(texts(parts@)[n - 1] == parts@[n - 1]@);
    assert(texts(parts@)[n - 2] == parts@[n - 2]@);
    assert(texts(parts@)[n - 3] == parts@[n - 3]@);
    let name: Vec<char> = chars_of(parts[n - 1].as_str());
    let suffix: Vec<char> = chars_of(".wasm");
    ends_with(&name, ".wasm") && name.len() > suffix.len() && same(
        parts[n - 2].as_str(),
        "release",
    ) && (same(parts[n - 3].as_str(), "wasm32v1-none") || same(
        parts[n - 3].as_str(),
        "wasm32-unknown-unknown",
    ))
}

/// The paths of a tree that are WASMs in an output directory of a release
/// build, in their order.
pub fn collect_release_wasms(paths: &Vec<String>) -> (out: Vec<String>)
    ensures
        texts(out@) == texts(paths@).filter(is_release_wasm()),
{
    let ghost model = texts(paths@);
    let mut out: Vec<String> = Vec::new();
    proof {
        lemma_filter_none(model, is_release_wasm());
        assert(texts(out@) =~= Seq::empty());
    }
    for i in 0..paths.len()
        invariant
            model == texts(paths@),
            texts(out@) == model.take(i as int).filter(is_release_wasm()),
    {
        proof {
            lemma_filter_step(model, i as int, is_release_wasm());
        }
        if release_wasm(paths[i].as_str()) {
            push_text(&mut out, paths[i].as_str());
        }
    }
    assert(model.take(model.len() as int) =~= model);
    out
}

/// The WASMs that a source tree already holds before the rebuild. None of them
/// is taken for a result of the rebuild.
pub fn snapshot_preexisting_wasms(paths: &Vec<String>) -> (out: Vec<String>)
    ensures
        texts(out@) == texts(paths@).filter(is_release_wasm()),
{
    collect_release_wasms(paths)
}

/// The test for texts that a list does not hold.
pub open spec fn absent(list: Seq<Seq<char>>) -> spec_fn(Seq<char>) -> bool {
    |s: Seq<char>| !list.contains(s)
}

/// The WASMs that the rebuild has left behind.
pub open spec fn fresh_wasms(
    paths: Seq<Seq<char>>,
    preexisting: Seq<Seq<char>>,
) -> Seq<Seq<char>> {
    paths.filter(is_release_wasm()).filter(absent(preexisting))
}

/// The name of the package that the options select, as its WASM spells it.
pub open spec fn selected_package(bldopts: Seq<Seq<char>>) -> Option<Seq<char>> {
    match first(bldopts.filter(starting("--package="@))) {
        Some(option) => Some(replaced(option.skip("--package="@.len() as int), '-', "_"@)),
        None => None,
    }
}

/// The test for paths with this file name.
pub open spec fn with_name(name: Seq<char>) -> spec_fn(Seq<char>) -> bool {
    |path: Seq<char>| file_name(path) == Some(name)
}

/// The WASM to compare, or why there is none: the first of the selected
/// package or, where the package is not selected or not found, the only one.
pub open spec fn chosen_wasm(
    target: Seq<char>,
    found: Seq<Seq<char>>,
    package: Option<Seq<char>>,
) -> Result<Seq<char>, Error<Seq<char>>> {
    let preferred = match package {
        Some(package) => first(found.filter(with_name(package + ".wasm"@))),
        None => None,
    };
    match preferred {
        Some(path) => Ok(path),
        None => if found.len() == 0 {
            Err(Error::NoRebuiltWasm { target })
        } else if found.len() == 1 {
            Ok(found[0])
        } else {
            Err(Error::AmbiguousRebuiltWasm { target, found: joined(found, ", "@) })
        },
    }
}

/// The package that the options select.
fn find_package(bldopts: &Vec<String>) -> (r: Option<String>)
    ensures
        opt_text(r) == selected_package(texts(bldopts@)),
{
    let ghost model = texts(bldopts@);
    let ghost p = starting("--package="@);
    proof {
        lemma_filter_none(model, p);
    }
    for i in 0..bldopts.len()
        invariant
            model == texts(bldopts@),
            p == starting("--package="@),
            model.take(i as int).filter(p) == Seq::<Seq<char>>::empty(),
    {
        proof {
            lemma_filter_step(model, i as int, p);
        }
        if let Some(package) = strip_prefix(bldopts[i].as_str(), "--package=") {
            proof {
                lemma_first_filtered(model, i as int, p);
            }
            return Some(replace(package.as_str(), '-', "_"));
        }
    }
    assert(model.take(model.len() as int) =~= model);
    None
}

/// The first item that passes a test is the first of those that pass it.
proof fn lemma_first_filtered<A>(s: Seq<A>, i: int, p: spec_fn(A) -> bool)
    requires
        0 <= i < s.len(),
        p(s[i]),
        s.take(i).filter(p).len() == 0,
    ensures
        first(s.filter(p)) == Some(s[i]),
    decreases s.len(),
{
    lemma_filter_step(s, i, p);
    if i + 1 == s.len() {
        assert(s.take(i + 1) =~= s);
    } else {
        let init = s.drop_last();
        assert(init.take(i) =~= s.take(i));
        assert(s.take(s.len() - 1) =~= init);
        assert(s.take(s.len() as int) =~= s);
        lemma_first_filtered(init, i, p);
        lemma_filter_step(s, s.len() - 1, p);
    }
}

/// The first path with this file name.
fn find_named(found: &Vec<String>, name: &str) -> (r: Option<String>)
    ensures
        opt_text(r) == first(texts(found@).filter(with_name(name@))),
{
    let ghost model = texts(found@);
    let ghost p = with_name(name@);
    proof {
        lemma_filter_none(model, p);
    }
    for i in 0..found.len()
        invariant
            model == texts(found@),
            p == with_name(name@),
            model.take(i as int).filter(p) == Seq::<Seq<char>>::empty(),
    {
        proof {
            lemma_filter_step(model, i as int, p);
        }
        if let Some(other) = find_file_name(found[i].as_str()) {
            if same(other.as_str(), name) {
                proof {
                    lemma_first_filtered(model, i as int, p);
                }
                return Some(found[i].clone());
            }
        }
    }
    assert(model.take(model.len() as int) =~= model);
    None
}

/// Chooses the WASM that the rebuild has left behind under `source_root`.
///
/// `paths` lists what the tree holds after the rebuild. A WASM that it held
/// before, which `preexisting` lists, is not taken for a result. Where the
/// options select a package, the package's WASM is preferred.
pub fn find_rebuilt_wasm(
    source_root: &str,
    paths: &Vec<String>,
    meta: &ExtractedMetadata,
    preexisting: &Vec<String>,
) -> (r: Result<String, Error>)
    ensures
        match chosen_wasm(
            source_root@,
            fresh_wasms(texts(paths@), texts(preexisting@)),
            selected_package(meta@.bldopts),
        ) {
            Ok(path) => r matches Ok(p) && p@ == path,
            Err(e) => r matches Err(f) && f@ == e,
        },
{
    let all: Vec<String> = collect_release_wasms(paths);
    let ghost model = texts(all@);
    let ghost p = absent(texts(preexisting@));
    let mut found: Vec<String> = Vec::new();
    proof {
        lemma_filter_none(model, p);
        assert(texts(found@) =~= Seq::empty());
    }
    for i in 0..all.len()
        invariant
            model == texts(all@),
            p == absent(texts(preexisting@)),
            texts(found@) == model.take(i as int).filter(p),
    {
        proof {
            lemma_filter_step(model, i as int, p);
        }
        if !holds(preexisting, all[i].as_str()) {
            push_text(&mut found, all[i].as_str());
        }
    }
    assert(model.take(model.len() as int) =~= model);

    if let Some(package) = find_package(&meta.bldopts) {
        let name: String = concat2(package.as_str(), ".wasm");
        if let Some(path) = find_named(&found, name.as_str()) {
            return Ok(path);
        }
    }
    let count: usize = found.len();
    if count == 0 {
        Err(Error::NoRebuiltWasm { target: source_root.to_string() })
    } else if count == 1 {
        assert(texts(found@)[0] == found@[0]@);
        Ok(found[0].clone())
    } else {
        Err(
            Error::AmbiguousRebuiltWasm {
                target: source_root.to_string(),
                found: join(&found, ", "),
            },
        )
    }
}

/// Whether the environment already pins the Rust toolchain.
pub open spec fn pins_toolchain(env: Seq<Seq<char>>) -> bool {
    exists|i: int|
        0 <= i < env.len() && "RUSTUP_TOOLCHAIN="@.is_prefix_of(#[trigger] env[i])
}

/// Whether the environment already pins the Rust toolchain.
pub fn toolchain_pinned(env: &Vec<String>) -> (r: bool)
    ensures
        r == pins_toolchain(texts(env@)),
{
    for i in 0..env.len()
        invariant
            forall|j: int|
                0 <= j < i ==> !"RUSTUP_TOOLCHAIN="@.is_prefix_of(#[trigger] texts(env@)[j]),
    {
        if starts_with(env[i].as_str(), "RUSTUP_TOOLCHAIN=") {
            assert("RUSTUP_TOOLCHAIN="@.is_prefix_of(texts(env@)[i as int]));
            return true;
        }
    }
    false
}

/// The environment with the image's toolchain pinned, where it is known and
/// the environment does not pin one itself.
pub open spec fn with_toolchain(
    env: Seq<Seq<char>>,
    toolchain: Option<Seq<char>>,
) -> Seq<Seq<char>> {
    if toolchain is Some && !pins_toolchain(env) {
        env.push("RUSTUP_TOOLCHAIN="@ + toolchain->0)
    } else {
        env
    }
}

/// Pins the image's toolchain, so that the source cannot switch to another in
/// the middle of the build.
pub fn pin_toolchain(env: &mut Vec<String>, toolchain: Option<String>)
    ensures
        texts(final(env)@) == with_toolchain(texts(old(env)@), opt_text(toolchain)),
{
    if let Some(toolchain) = toolchain {
        if !toolchain_pinned(env) {
            let variable: String = concat2("RUSTUP_TOOLCHAIN=", toolchain.as_str());
            push_text(env, variable.as_str());
        }
    }
}

/// The mount of the source in the container.
pub open spec fn mount(source_root: Seq<char>) -> Seq<char> {
    source_root + ":/source"@
}

/// Every text of a list after a text of its own.
pub open spec fn each_after(list: Seq<Seq<char>>, word: Seq<char>) -> Seq<Seq<char>>
    decreases list.len(),
{
    if list.len() == 0 {
        Seq::empty()
    } else {
        each_after(list.drop_last(), word).push(word).push(list.last())
    }
}

/// The command that runs the build in a container.
pub open spec fn run_command(
    choice: EngineChoice,
    name: Seq<char>,
    limits: Seq<Seq<char>>,
    source_root: Seq<char>,
    env: Seq<Seq<char>>,
    image: Seq<char>,
    cmd: Seq<Seq<char>>,
) -> Seq<Seq<char>> {
    choice.prefix() + seq!["run"@, "--rm"@, "--name"@, name] + limits + seq![
        "-v"@,
        mount(source_root),
        "-w"@,
        "/source"@,
    ] + each_after(env, "-e"@) + seq![image] + cmd
}

/// The words with which a user can run the same build: those of the build's
/// command, but for the container's name and the working directory.
pub open spec fn reproduce_words(
    choice: EngineChoice,
    limits: Seq<Seq<char>>,
    source_root: Seq<char>,
    env: Seq<Seq<char>>,
    image: Seq<char>,
    cmd: Seq<Seq<char>>,
) -> Seq<Seq<char>> {
    choice.prefix() + (seq!["run"@, "--rm"@] + limits + each_after(env, "-e"@) + seq![
        "-v"@,
        mount(source_root),
        image,
    ] + cmd)
}

/// The line with which a user can run the same build in a shell.
pub open spec fn reproduce_line(
    choice: EngineChoice,
    limits: Seq<Seq<char>>,
    source_root: Seq<char>,
    env: Seq<Seq<char>>,
    image: Seq<char>,
    cmd: Seq<Seq<char>>,
) -> Seq<char> {
    shell_line(reproduce_words(choice, limits, source_root, env, image, cmd))
}

/// Appends every text of a list after a text of its own.
fn push_each_after(argv: &mut Vec<String>, list: &Vec<String>, word: &str)
    ensures
        texts(final(argv)@) == texts(old(argv)@) + each_after(texts(list@), word@),
{
    let ghost before = texts(argv@);
    let ghost model = texts(list@);
    assert(texts(argv@) =~= before + each_after(model.take(0), word@));
    for i in 0..list.len()
        invariant
            model == texts(list@),
            texts(argv@) == before + each_after(model.take(i as int), word@),
    {
        let ghost so_far = each_after(model.take(i as int), word@);
        push_text(argv, word);
        push_text(argv, list[i].as_str());
        assert(model.take(i + 1).drop_last() =~= model.take(i as int));
        assert(texts(argv@) =~= before + so_far.push(word@).push(model[i as int]));
    }
    assert(model.take(model.len() as int) =~= model);
}

/// A build that is ready to run: its command, the command that kills its
/// container, and the line with which a user can run it in a shell.
pub struct RunPlan {
    pub argv: Vec<String>,
    pub kill: Vec<String>,
    pub reproduce: String,
}

/// Prepares the build: `container_cmd` runs in the image, with the source
/// mounted, the environment set and the resources limited. The container has a
/// name, made from the UUID and the source's place, by which it can be killed.
/// The line for a shell leaves the name out, so that it can be run again.
pub fn run_in_container(
    image_ref: &str,
    source_root: &str,
    container_cmd: &Vec<String>,
    env: &Vec<String>,
    args: &ContainerArgs,
    run_args: &RunArgs,
    uuid: &str,
) -> (plan: RunPlan)
    ensures
        texts(plan.argv@) == run_command(
            args@,
            container_name(uuid@, source_root@),
            limit_flags(run_args.cpus, opt_text(run_args.memory)),
            source_root@,
            texts(env@),
            image_ref@,
            texts(container_cmd@),
        ),
        texts(plan.kill@) == args@.kill(container_name(uuid@, source_root@)),
        plan.reproduce@ == reproduce_line(
            args@,
            limit_flags(run_args.cpus, opt_text(run_args.memory)),
            source_root@,
            texts(env@),
            image_ref@,
            texts(container_cmd@),
        ),
{
    let name: String = name_container(uuid, source_root);
    let bind: String = concat2(source_root, ":/source");
    let limits: Vec<String> = run_args.flags();

    let mut rest: Vec<String> = Vec::new();
    push_text(&mut rest, "run");
    push_text(&mut rest, "--rm");
    assert(texts(rest@) =~= seq!["run"@, "--rm"@]);
    push_all(&mut rest, &limits);
    push_each_after(&mut rest, env, "-e");
    let ghost before = texts(rest@);
    push_text(&mut rest, "-v");
    push_text(&mut rest, bind.as_str());
    push_text(&mut rest, image_ref);
    assert(texts(rest@) =~= before + seq!["-v"@, bind@, image_ref@]);
    push_all(&mut rest, container_cmd);
    let line: String = concat3(
        args.reproduce_prefix().as_str(),
        " ",
        join(&escape_all(&rest), " ").as_str(),
    );
    proof {
        let words = args@.prefix() + texts(rest@);
        assert(escaped_all(words) =~= escaped_all(args@.prefix()) + escaped_all(texts(rest@)));
        lemma_joined_append(escaped_all(args@.prefix()), escaped_all(texts(rest@)), " "@);
    }
    let reproduce: String = sanitize(line.as_str());

    let mut argv: Vec<String> = args.base_command();
    push_text(&mut argv, "run");
    push_text(&mut argv, "--rm");
    push_text(&mut argv, "--name");
    push_text(&mut argv, name.as_str());
    assert(texts(argv@) =~= args@.prefix() + seq!["run"@, "--rm"@, "--name"@, name@]);
    push_all(&mut argv, &limits);
    let ghost before = texts(argv@);
    push_text(&mut argv, "-v");
    push_text(&mut argv, bind.as_str());
    push_text(&mut argv, "-w");
    push_text(&mut argv, "/source");
    assert(texts(argv@) =~= before + seq!["-v"@, bind@, "-w"@, "/source"@]);
    push_each_after(&mut argv, env, "-e");
    let ghost before = texts(argv@);
    push_text(&mut argv, image_ref);
    assert(texts(argv@) =~= before + seq![image_ref@]);
    push_all(&mut argv, container_cmd);
    RunPlan { argv, kill: args.kill_argv(name.as_str()), reproduce }
}

/// How a program that was run for its effect ended: whether it succeeded, and
/// its exit code, where it was not killed.
pub struct ExitStatus {
    pub success: bool,
    pub code: Option<i32>,
}

/// The result of a build. `status` tells how it ended, or why it could not be
/// run.
pub fn build_result(
    args: &ContainerArgs,
    reproduce: String,
    status: Result<ExitStatus, String>,
) -> (r: Result<(), Error>)
    ensures
        match status {
            Ok(s) => if s.success {
                r is Ok
            } else {
                r matches Err(e) && e@ == (Error::ContainerExit {
                    status: match s.code {
                        Some(code) => code as i64,
                        None => (-1) as i64,
                    },
                    command: reproduce@,
                })
            },
            Err(reason) => r matches Err(e) && e@ == (Error::EngineInvoke {
                program: args@.used().program_text(),
                source: reason@,
            }),
        },
{
    match status {
        Ok(status) => {
            if status.success {
                Ok(())
            } else {
                let code: i64 = match status.code {
                    Some(code) => code as i64,
                    None => -1,
                };
                Err(Error::ContainerExit { status: code, command: reproduce })
            }
        },
        Err(reason) => Err(args.invoke_error(reason.as_str())),
    }
}

/// A random UUID in its usual form: lower-case hexadecimal digits in groups of
/// 8, 4, 4, 4 and 12, the third of which starts with `4` and the fourth with
/// `8`, `9`, `a` or `b`.
pub open spec fn is_random_uuid(s: Seq<char>) -> bool {
    &&& s.len() == 36
    &&& forall|i: int|
        0 <= i < 36 ==> if i == 8 || i == 13 || i == 18 || i == 23 {
            #[trigger] s[i] == '-'
        } else {
            is_lower_hex(s[i])
        }
    &&& s[14] == '4'
    &&& s[19] == '8' || s[19] == '9' || s[19] == 'a' || s[19] == 'b'
}

/// Trusted: `uuid::Uuid::new_v4` makes a random UUID, and its `Display` writes
/// it in its usual form. Which one it is is left to chance. It ends the program
/// where the system has no random bytes.
#[verifier::external_body]
pub(crate) fn random_uuid() -> (s: String)
    ensures
        is_random_uuid(s@),
{
    uuid::Uuid::new_v4().to_string()
}

/// The name of the build's container: a random UUID keeps it apart from those of
/// other runs, and it ends with the name of the directory that the source was
/// unpacked into, so that a running container leads back to its source.
pub open spec fn container_name(uuid: Seq<char>, source_root: Seq<char>) -> Seq<char> {
    match parent_name(source_root) {
        Some(dir) => "stellar-contract-verify-"@ + uuid + "-"@ + dir,
        None => "stellar-contract-verify-"@ + uuid,
    }
}

/// The name of the build's container.
pub fn name_container(uuid: &str, source_root: &str) -> (s: String)
    ensures
        s@ == container_name(uuid@, source_root@),
{
    let mut name: String = concat2("stellar-contract-verify-", uuid);
    if let Some(dir) = find_parent_name(source_root) {
        name.append("-");
        name.append(dir.as_str());
    }
    name
}

/// The container's name ends with the whole name of the directory that the source
/// was unpacked into, whatever the directory in it is called.
pub proof fn law_container_leads_back_to_the_source(
    uuid: Seq<char>,
    workdir: Seq<char>,
    wrapper: Seq<char>,
)
    requires
        file_name(workdir) is Some,
        is_entry_name(wrapper),
    ensures
        container_name(uuid, entry_path(workdir, wrapper)) == "stellar-contract-verify-"@ + uuid
            + "-"@ + file_name(workdir)->0,
        file_name(workdir)->0.is_suffix_of(container_name(uuid, entry_path(workdir, wrapper))),
{
    law_entry_path(workdir, wrapper);
    let name = container_name(uuid, entry_path(workdir, wrapper));
    let dir = file_name(workdir)->0;
    assert(name.subrange(name.len() - dir.len(), name.len() as int) =~= dir);
}

/// Every recorded entry is given to the rebuild again, as it is and in its
/// order: the command ends with a `--meta` and the entry, for every entry.
pub proof fn law_entries_are_replayed(
    options: Seq<Seq<char>>,
    list: Seq<Entry>,
    supports_locked: bool,
    i: int,
)
    requires
        0 <= i < list.len(),
    ensures
        ({
            let command = build_command(options, list, supports_locked);
            let start = 2 + forwarded(options, supports_locked).len();
            &&& command.len() == start + 2 * list.len()
            &&& command[start + 2 * i] == "--meta"@
            &&& command[start + 2 * i + 1] == list[i].0 + "="@ + list[i].1
        }),
{
    lemma_replay_words(list, i);
    let head = seq!["contract"@, "build"@] + forwarded(options, supports_locked);
    let words = replay_words(list);
    assert(build_command(options, list, supports_locked) == head + words);
    assert(head.len() == 2 + forwarded(options, supports_locked).len());
    assert((head + words)[head.len() + 2 * i] == words[2 * i]);
    assert((head + words)[head.len() + (2 * i + 1)] == words[2 * i + 1]);
}

/// The words that record an entry stand where the entry does.
proof fn lemma_replay_words(list: Seq<Entry>, i: int)
    requires
        0 <= i < list.len(),
    ensures
        replay_words(list).len() == 2 * list.len(),
        replay_words(list)[2 * i] == "--meta"@,
        replay_words(list)[2 * i + 1] == list[i].0 + "="@ + list[i].1,
    decreases list.len(),
{
    let init = list.drop_last();
    let words = replay_words(init);
    if init.len() > 0 {
        lemma_replay_words(init, if i < init.len() { i } else { 0 });
    }
    assert(words.len() == 2 * init.len());
    if i < init.len() {
        assert(init[i] == list[i]);
        assert(replay_words(list)[2 * i] == words[2 * i]);
        assert(replay_words(list)[2 * i + 1] == words[2 * i + 1]);
    }
}

/// An option that sets a variable or records an entry is not handed on to the
/// build. Any other option is, in its place among the others.
pub proof fn law_what_is_forwarded(options: Seq<Seq<char>>, supports_locked: bool)
    ensures
        forall|i: int|
            0 <= i < forwarded(options, supports_locked).len() ==> to_forward()(
                #[trigger] forwarded(options, supports_locked)[i],
            ),
        forall|option: Seq<char>|
            options.contains(option) && #[trigger] to_forward()(option) ==> forwarded(
                options,
                supports_locked,
            ).contains(option),
{
    let kept = options.filter(to_forward());
    let all = forwarded(options, supports_locked);
    lemma_locked_is_forwarded();
    assert forall|i: int| 0 <= i < all.len() implies to_forward()(#[trigger] all[i]) by {
        if all == kept {
            options.lemma_filter_pred(to_forward(), i);
        } else if i > 0 {
            options.lemma_filter_pred(to_forward(), i - 1);
            assert(all[i] == kept[i - 1]);
        }
    }
    assert forall|option: Seq<char>|
        options.contains(option) && #[trigger] to_forward()(option) implies all.contains(
        option,
    ) by {
        lemma_filter_contains(options, to_forward(), option);
        let i = choose|i: int| 0 <= i < kept.len() && kept[i] == option;
        if all == kept {
            assert(all[i] == option);
        } else {
            assert(all[i + 1] == option);
        }
    }
}

/// `--locked` is an option that is handed on.
proof fn lemma_locked_is_forwarded()
    ensures
        to_forward()("--locked"@),
{
    reveal_strlit("--locked");
    reveal_strlit("--env=");
    reveal_strlit("--meta=");
    assert("--env="@[2] != "--locked"@[2]);
    assert("--meta="@[2] != "--locked"@[2]);
}

/// The rebuild is locked wherever the image allows it: the command holds
/// `--locked` where the image knows it, and only once where it was not among
/// the options. Where the image does not know it, it is not added.
pub proof fn law_rebuild_is_locked(options: Seq<Seq<char>>, supports_locked: bool)
    ensures
        supports_locked ==> forwarded(options, supports_locked).contains("--locked"@),
        supports_locked && !options.contains("--locked"@) ==> forwarded(options, supports_locked)
            == seq!["--locked"@] + options.filter(to_forward()) && !options.filter(
            to_forward(),
        ).contains("--locked"@),
        !supports_locked ==> forwarded(options, supports_locked) == options.filter(to_forward()),
        !supports_locked && !options.contains("--locked"@) ==> !forwarded(
            options,
            supports_locked,
        ).contains("--locked"@),
{
    lemma_filter_contains(options, to_forward(), "--locked"@);
    let all = forwarded(options, supports_locked);
    if supports_locked && !options.filter(to_forward()).contains("--locked"@) {
        assert(all[0] == "--locked"@);
    }
}

/// An option that sets a variable sets it in the build's environment, and
/// nothing else does.
pub proof fn law_variables_are_set(options: Seq<Seq<char>>, variable: Seq<char>)
    ensures
        environment(options).contains(variable) <==> options.contains("--env="@ + variable),
{
    let p = starting("--env="@);
    let strip = |o: Seq<char>| o.skip("--env="@.len() as int);
    let found = options.filter(p);
    let env = environment(options);
    let option = "--env="@ + variable;
    assert(option.skip("--env="@.len() as int) =~= variable);
    lemma_filter_contains(options, p, option);
    if options.contains(option) {
        assert(option.take("--env="@.len() as int) =~= "--env="@);
        assert(p(option));
        let i = choose|i: int| 0 <= i < found.len() && found[i] == option;
        assert(env[i] == variable);
    }
    if env.contains(variable) {
        let i = choose|i: int| 0 <= i < env.len() && env[i] == variable;
        options.lemma_filter_pred(p, i);
        assert(found[i] =~= option);
        assert(found.contains(option));
    }
}

/// Every variable of the environment is set in the container, after an `-e` of
/// its own and in its place among the others.
pub proof fn law_environment_is_passed_on(
    choice: EngineChoice,
    name: Seq<char>,
    limits: Seq<Seq<char>>,
    source_root: Seq<char>,
    env: Seq<Seq<char>>,
    image: Seq<char>,
    cmd: Seq<Seq<char>>,
    i: int,
)
    requires
        0 <= i < env.len(),
    ensures
        ({
            let run = run_command(choice, name, limits, source_root, env, image, cmd);
            let start = choice.prefix().len() + 8 + limits.len();
            &&& run.len() == start + 2 * env.len() + 1 + cmd.len()
            &&& run[start + 2 * i] == "-e"@
            &&& run[start + 2 * i + 1] == env[i]
        }),
{
    lemma_each_after(env, "-e"@, i);
    let words = each_after(env, "-e"@);
    let head = choice.prefix() + seq!["run"@, "--rm"@, "--name"@, name] + limits + seq![
        "-v"@,
        mount(source_root),
        "-w"@,
        "/source"@,
    ];
    let run = run_command(choice, name, limits, source_root, env, image, cmd);
    let start = choice.prefix().len() + 8 + limits.len();
    assert(head.len() == start);
    assert(run == head + words + seq![image] + cmd);
    assert(run[start + 2 * i] == words[2 * i]);
    assert(run[start + (2 * i + 1)] == words[2 * i + 1]);
}

/// The texts of a list stand after the word, each in its place.
proof fn lemma_each_after(list: Seq<Seq<char>>, word: Seq<char>, i: int)
    requires
        0 <= i < list.len(),
    ensures
        each_after(list, word).len() == 2 * list.len(),
        each_after(list, word)[2 * i] == word,
        each_after(list, word)[2 * i + 1] == list[i],
    decreases list.len(),
{
    let init = list.drop_last();
    let words = each_after(init, word);
    if init.len() > 0 {
        lemma_each_after(init, word, if i < init.len() { i } else { 0 });
    }
    assert(words.len() == 2 * init.len());
    if i < init.len() {
        assert(init[i] == list[i]);
        assert(each_after(list, word)[2 * i] == words[2 * i]);
        assert(each_after(list, word)[2 * i + 1] == words[2 * i + 1]);
    }
}

/// The WASM that is compared is a WASM of the tree after the rebuild, directly
/// in an output directory of a release build, and was not there before.
pub proof fn law_chosen_wasm_is_fresh(
    target: Seq<char>,
    before: Seq<Seq<char>>,
    after: Seq<Seq<char>>,
    package: Option<Seq<char>>,
    path: Seq<char>,
)
    requires
        chosen_wasm(target, fresh_wasms(after, before.filter(is_release_wasm())), package)
            == Ok::<Seq<char>, Error<Seq<char>>>(path),
    ensures
        after.contains(path),
        is_release_wasm()(path),
        !before.contains(path),
{
    let snapshot = before.filter(is_release_wasm());
    let found = fresh_wasms(after, snapshot);
    assert(found.contains(path)) by {
        if package is Some && found.filter(with_name(package->0 + ".wasm"@)).len() > 0 {
            let named = found.filter(with_name(package->0 + ".wasm"@));
            assert(named.contains(named[0]));
            lemma_filter_contains(found, with_name(package->0 + ".wasm"@), path);
        }
    }
    lemma_fresh(before, after, path);
}

/// A tree to which no WASM of a release build was added has no result, whatever
/// stands in the files that were there and whatever package the options select.
pub proof fn law_unchanged_tree_has_no_result(
    target: Seq<char>,
    before: Seq<Seq<char>>,
    after: Seq<Seq<char>>,
    package: Option<Seq<char>>,
)
    requires
        forall|path: Seq<char>|
            after.contains(path) && #[trigger] is_release_wasm()(path) ==> before.contains(path),
    ensures
        chosen_wasm(target, fresh_wasms(after, before.filter(is_release_wasm())), package) == Err::<
            Seq<char>,
            Error<Seq<char>>,
        >(Error::NoRebuiltWasm { target }),
{
    let found = fresh_wasms(after, before.filter(is_release_wasm()));
    if found.len() > 0 {
        lemma_fresh(before, after, found[0]);
        assert(is_release_wasm()(found[0]));
    }
    assert(found =~= Seq::empty());
    if package is Some {
        found.lemma_filter_len(with_name(package->0 + ".wasm"@));
    }
}

/// Where the rebuild has added one WASM of a release build, that one is chosen,
/// whatever package the options select.
pub proof fn law_only_new_wasm_is_chosen(
    target: Seq<char>,
    before: Seq<Seq<char>>,
    after: Seq<Seq<char>>,
    package: Option<Seq<char>>,
    path: Seq<char>,
)
    requires
        after.no_duplicates(),
        after.contains(path),
        is_release_wasm()(path),
        !before.contains(path),
        forall|other: Seq<char>|
            after.contains(other) && #[trigger] is_release_wasm()(other) && other != path
                ==> before.contains(other),
    ensures
        chosen_wasm(target, fresh_wasms(after, before.filter(is_release_wasm())), package) == Ok::<
            Seq<char>,
            Error<Seq<char>>,
        >(path),
{
    let snapshot = before.filter(is_release_wasm());
    let all = after.filter(is_release_wasm());
    let found = fresh_wasms(after, snapshot);
    lemma_filter_contains(after, is_release_wasm(), path);
    lemma_filter_contains(before, is_release_wasm(), path);
    lemma_filter_contains(all, absent(snapshot), path);
    assert(found.contains(path));
    assert forall|i: int| 0 <= i < found.len() implies found[i] == path by {
        lemma_fresh(before, after, found[i]);
        assert(is_release_wasm()(found[i]));
    }
    lemma_filter_distinct(after, is_release_wasm());
    lemma_filter_distinct(all, absent(snapshot));
    if found.len() > 1 {
        assert(found[0] == found[1]);
    }
    assert(found =~= seq![path]);
    if package is Some {
        let p = with_name(package->0 + ".wasm"@);
        let named = found.filter(p);
        if named.len() > 0 {
            lemma_filter_contains(found, p, named[0]);
            assert(named.contains(named[0]));
        }
    }
}

/// What the rebuild has left is in the tree, and was not there before.
proof fn lemma_fresh(before: Seq<Seq<char>>, after: Seq<Seq<char>>, path: Seq<char>)
    requires
        fresh_wasms(after, before.filter(is_release_wasm())).contains(path),
    ensures
        after.contains(path),
        is_release_wasm()(path),
        !before.contains(path),
{
    let snapshot = before.filter(is_release_wasm());
    lemma_filter_contains(after.filter(is_release_wasm()), absent(snapshot), path);
    lemma_filter_contains(after, is_release_wasm(), path);
    lemma_filter_contains(before, is_release_wasm(), path);
}

/// Where the options select a package and the rebuild has left its WASM, a WASM
/// with the package's name is chosen, whatever else there is.
pub proof fn law_selected_package_is_preferred(
    target: Seq<char>,
    found: Seq<Seq<char>>,
    package: Seq<char>,
    path: Seq<char>,
)
    requires
        found.contains(path),
        file_name(path) == Some(package + ".wasm"@),
    ensures
        chosen_wasm(target, found, Some(package)) matches Ok(chosen) && file_name(chosen) == Some(
            package + ".wasm"@,
        ),
{
    let p = with_name(package + ".wasm"@);
    lemma_filter_contains(found, p, path);
    found.lemma_filter_pred(p, 0);
}

/// A WASM in a directory below the output directory, such as `release/deps`, is
/// none of the results.
pub proof fn law_nested_wasm_is_no_result(path: Seq<char>)
    requires
        components(path).len() >= 2,
        components(path)[components(path).len() - 2] != "release"@,
    ensures
        !is_release_wasm()(path),
{
}

/// A toolchain that the environment pins stays, and the image's toolchain is
/// pinned where there is none; pinning a second one changes nothing.
pub proof fn law_toolchain_is_pinned_once(
    env: Seq<Seq<char>>,
    toolchain: Seq<char>,
    other: Option<Seq<char>>,
)
    ensures
        pins_toolchain(env) ==> with_toolchain(env, Some(toolchain)) == env,
        pins_toolchain(with_toolchain(env, Some(toolchain))),
        with_toolchain(with_toolchain(env, Some(toolchain)), other) == with_toolchain(
            env,
            Some(toolchain),
        ),
        with_toolchain(env, None) == env,
{
    if !pins_toolchain(env) {
        let pinned = with_toolchain(env, Some(toolchain));
        let last = pinned[env.len() as int];
        assert(last.take("RUSTUP_TOOLCHAIN="@.len() as int) =~= "RUSTUP_TOOLCHAIN="@);
    }
}

/// The commands of a run and the line for a shell start with the same words:
/// the same program, and the same host.
pub proof fn law_commands_start_alike(
    choice: EngineChoice,
    name: Seq<char>,
    limits: Seq<Seq<char>>,
    source_root: Seq<char>,
    env: Seq<Seq<char>>,
    image: Seq<char>,
    cmd: Seq<Seq<char>>,
)
    ensures
        choice.prefix().is_prefix_of(
            run_command(choice, name, limits, source_root, env, image, cmd),
        ),
        choice.prefix().is_prefix_of(choice.pull(image)),
        choice.prefix().is_prefix_of(choice.kill(name)),
        choice.prefix().is_prefix_of(locked_probe(choice, image)),
        choice.prefix().is_prefix_of(toolchain_probe(choice, image)),
        choice.prefix().is_prefix_of(
            reproduce_words(choice, limits, source_root, env, image, cmd),
        ),
        shell_line(choice.prefix()).is_prefix_of(
            reproduce_line(choice, limits, source_root, env, image, cmd),
        ),
{
    let run = run_command(choice, name, limits, source_root, env, image, cmd);
    let n = choice.prefix().len() as int;
    assert(run.take(n) =~= choice.prefix());
    assert(choice.pull(image).take(n) =~= choice.prefix());
    assert(choice.kill(name).take(n) =~= choice.prefix());
    assert(locked_probe(choice, image).take(n) =~= choice.prefix());
    assert(toolchain_probe(choice, image).take(n) =~= choice.prefix());
    let words = reproduce_words(choice, limits, source_root, env, image, cmd);
    let rest = words.skip(n);
    assert(words.take(n) =~= choice.prefix());
    assert(escaped_all(words) =~= escaped_all(choice.prefix()) + escaped_all(rest));
    lemma_joined_append(escaped_all(choice.prefix()), escaped_all(rest), " "@);
    let head = joined(escaped_all(choice.prefix()), " "@);
    let tail = joined(escaped_all(rest), " "@);
    Seq::filter_distributes_over_add(head + " "@, tail, harmless());
    Seq::filter_distributes_over_add(head, " "@, harmless());
    let line = reproduce_line(choice, limits, source_root, env, image, cmd);
    assert(line.take(sanitized(head).len() as int) =~= sanitized(head));
}

/// The line for a shell can be pasted: a shell reads it as the words of the same
/// build, each without its control characters, whatever they hold.
pub proof fn law_reproduce_line_reads_back(
    choice: EngineChoice,
    limits: Seq<Seq<char>>,
    source_root: Seq<char>,
    env: Seq<Seq<char>>,
    image: Seq<char>,
    cmd: Seq<Seq<char>>,
)
    ensures
        read_words(reproduce_line(choice, limits, source_root, env, image, cmd)) == Some(
            sanitized_all(reproduce_words(choice, limits, source_root, env, image, cmd)),
        ),
{
    law_line_reads_back(reproduce_words(choice, limits, source_root, env, image, cmd));
}

/// The line for a shell holds nothing that makes a terminal act, whatever the
/// metadata holds.
pub proof fn law_reproduce_line_is_harmless(
    choice: EngineChoice,
    limits: Seq<Seq<char>>,
    source_root: Seq<char>,
    env: Seq<Seq<char>>,
    image: Seq<char>,
    cmd: Seq<Seq<char>>,
)
    ensures
        is_harmless(reproduce_line(choice, limits, source_root, env, image, cmd)),
{
    let words = reproduce_words(choice, limits, source_root, env, image, cmd);
    law_sanitized_is_harmless(joined(escaped_all(words), " "@));
}

/// Every word of the options that starts neither with `--env=` nor with `--meta=` is
/// handed on to the build, and no other word but `--locked` is. The words stand in
/// their order.
pub proof fn law_other_words_are_forwarded(options: Seq<Seq<char>>, supports_locked: bool)
    ensures
        forall|w: Seq<char>|
            #![trigger forwarded(options, supports_locked).contains(w)]
            options.contains(w) && !"--env="@.is_prefix_of(w) && !"--meta="@.is_prefix_of(w)
                ==> forwarded(options, supports_locked).contains(w),
        forall|w: Seq<char>| #[trigger]
            forwarded(options, supports_locked).contains(w) && w != "--locked"@
                ==> options.contains(w) && !"--env="@.is_prefix_of(w) && !"--meta="@.is_prefix_of(
                w,
            ),
        forall|i: int, j: int|
            0 <= i < j < options.len() && !"--env="@.is_prefix_of(#[trigger] options[i])
                && !"--meta="@.is_prefix_of(options[i]) && !"--env="@.is_prefix_of(
                #[trigger] options[j],
            ) && !"--meta="@.is_prefix_of(options[j]) ==> exists|k: int, l: int|
                0 <= k < l < forwarded(options, supports_locked).len()
                    && #[trigger] forwarded(options, supports_locked)[k] == options[i]
                    && #[trigger] forwarded(options, supports_locked)[l] == options[j],
{
    let kept = options.filter(to_forward());
    let all = forwarded(options, supports_locked);
    let n = all.len() - kept.len();
    assert forall|k: int| 0 <= k < kept.len() implies all[n + k] == #[trigger] kept[k] by {}
    assert forall|w: Seq<char>|
        #![trigger all.contains(w)]
        options.contains(w) && !"--env="@.is_prefix_of(w) && !"--meta="@.is_prefix_of(
            w,
        ) implies all.contains(w) by {
        lemma_filter_contains(options, to_forward(), w);
        let k = choose|k: int| 0 <= k < kept.len() && kept[k] == w;
        assert(all[n + k] == w);
    }
    assert forall|w: Seq<char>| #[trigger]
        all.contains(w) && w != "--locked"@ implies options.contains(w) && !"--env="@.is_prefix_of(
        w,
    ) && !"--meta="@.is_prefix_of(w) by {
        let k = choose|k: int| 0 <= k < all.len() && all[k] == w;
        assert(k >= n);
        assert(kept[k - n] == w);
        lemma_filter_contains(options, to_forward(), w);
    }
    assert forall|i: int, j: int|
        0 <= i < j < options.len() && !"--env="@.is_prefix_of(#[trigger] options[i])
            && !"--meta="@.is_prefix_of(options[i]) && !"--env="@.is_prefix_of(
            #[trigger] options[j],
        ) && !"--meta="@.is_prefix_of(options[j]) implies exists|k: int, l: int|
        0 <= k < l < all.len() && #[trigger] all[k] == options[i] && #[trigger] all[l]
            == options[j] by {
        lemma_filter_order(options, to_forward(), i, j);
        let (k, l) = choose|k: int, l: int|
            0 <= k < l < kept.len() && #[trigger] kept[k] == options[i] && #[trigger] kept[l]
                == options[j];
        assert(all[n + k] == options[i]);
        assert(all[n + l] == options[j]);
    }
}

/// The words that are handed on go by the word: one that starts with `--env=` or
/// `--meta=` is left out, any other is handed on once for each time that it is
/// there. Where the image knows `--locked` and it is not among them, it comes first.
pub proof fn law_forwarding_goes_by_the_word(
    a: Seq<Seq<char>>,
    b: Seq<Seq<char>>,
    word: Seq<char>,
    rest: Seq<char>,
)
    ensures
        forwarded(a + b, false) == forwarded(a, false) + forwarded(b, false),
        forwarded(seq!["--env="@ + rest], false) == Seq::<Seq<char>>::empty(),
        forwarded(seq!["--meta="@ + rest], false) == Seq::<Seq<char>>::empty(),
        !"--env="@.is_prefix_of(word) && !"--meta="@.is_prefix_of(word) ==> forwarded(
            seq![word],
            false,
        ) == seq![word],
        a.contains("--locked"@) ==> forwarded(a, true) == forwarded(a, false),
        !a.contains("--locked"@) ==> forwarded(a, true) == seq!["--locked"@] + forwarded(a, false),
{
    Seq::filter_distributes_over_add(a, b, to_forward());
    assert(("--env="@ + rest).take("--env="@.len() as int) =~= "--env="@);
    assert("--env="@.is_prefix_of("--env="@ + rest));
    assert(("--meta="@ + rest).take("--meta="@.len() as int) =~= "--meta="@);
    assert("--meta="@.is_prefix_of("--meta="@ + rest));
    lemma_filter_one("--env="@ + rest, to_forward());
    lemma_filter_one("--meta="@ + rest, to_forward());
    lemma_filter_one(word, to_forward());
    lemma_locked_is_forwarded();
    lemma_filter_contains(a, to_forward(), "--locked"@);
}

/// The command of the build is `contract build`, the words that are handed on, and a
/// `--meta` with the key, `=` and the value of every entry, in the entries' order.
pub proof fn law_build_command(
    options: Seq<Seq<char>>,
    list: Seq<Entry>,
    entry: Entry,
    supports_locked: bool,
)
    ensures
        build_command(options, Seq::empty(), supports_locked) == seq!["contract"@, "build"@]
            + forwarded(options, supports_locked),
        build_command(options, list + seq![entry], supports_locked) == build_command(
            options,
            list,
            supports_locked,
        ) + seq!["--meta"@, entry.0 + "="@ + entry.1],
        forall|w: Seq<char>|
            options.contains(w) && !"--env="@.is_prefix_of(w) && !"--meta="@.is_prefix_of(w)
                ==> #[trigger] build_command(options, list, supports_locked).contains(w),
{
    assert(build_command(options, Seq::empty(), supports_locked) =~= seq!["contract"@, "build"@]
        + forwarded(options, supports_locked));
    assert((list + seq![entry]).drop_last() =~= list);
    assert(build_command(options, list + seq![entry], supports_locked) =~= build_command(
        options,
        list,
        supports_locked,
    ) + seq!["--meta"@, entry.0 + "="@ + entry.1]);
    let kept = forwarded(options, supports_locked);
    let command = build_command(options, list, supports_locked);
    law_other_words_are_forwarded(options, supports_locked);
    assert forall|w: Seq<char>|
        options.contains(w) && !"--env="@.is_prefix_of(w) && !"--meta="@.is_prefix_of(
            w,
        ) implies #[trigger] command.contains(w) by {
        assert(kept.contains(w));
        let k = choose|k: int| 0 <= k < kept.len() && kept[k] == w;
        assert(command[2 + k] == w);
    }
}

/// The variables go by the word: a word `--env=` and a variable sets the variable,
/// any other word sets none, and the variables stand in their order.
pub proof fn law_environment_goes_by_the_word(
    a: Seq<Seq<char>>,
    b: Seq<Seq<char>>,
    word: Seq<char>,
    variable: Seq<char>,
)
    ensures
        environment(a + b) == environment(a) + environment(b),
        environment(seq!["--env="@ + variable]) == seq![variable],
        !"--env="@.is_prefix_of(word) ==> environment(seq![word]) == Seq::<Seq<char>>::empty(),
{
    let p = starting("--env="@);
    let option = "--env="@ + variable;
    Seq::filter_distributes_over_add(a, b, p);
    assert(environment(a + b) =~= environment(a) + environment(b));
    assert(option.take("--env="@.len() as int) =~= "--env="@);
    assert("--env="@.is_prefix_of(option));
    lemma_filter_one(option, p);
    assert(option.skip("--env="@.len() as int) =~= variable);
    assert(environment(seq![option]) =~= seq![variable]);
    lemma_filter_one(word, p);
    if !"--env="@.is_prefix_of(word) {
        assert(environment(seq![word]) =~= Seq::<Seq<char>>::empty());
    }
}

/// Every recorded option is one word of the options, in its place.
pub proof fn law_options_are_words(bldopts: Seq<Seq<char>>, i: int)
    requires
        0 <= i < bldopts.len(),
    ensures
        option_words(bldopts).len() == bldopts.len(),
        option_words(bldopts)[i] == only_word(bldopts[i], shell_words(bldopts[i])),
{
}

/// The first option that starts with `--package=` selects the package, wherever it
/// stands: its name is spelled with `_` for every `-`, and else as it is. Only where
/// no option starts so is no package selected.
pub proof fn law_selected_package(bldopts: Seq<Seq<char>>, i: int, name: Seq<char>)
    requires
        0 <= i < bldopts.len(),
        bldopts[i] == "--package="@ + name,
        forall|j: int| 0 <= j < i ==> !"--package="@.is_prefix_of(#[trigger] bldopts[j]),
    ensures
        selected_package(bldopts) is Some,
        ({
            let package = selected_package(bldopts)->0;
            &&& package.len() == name.len()
            &&& forall|k: int|
                0 <= k < name.len() ==> #[trigger] package[k] == if name[k] == '-' {
                    '_'
                } else {
                    name[k]
                }
        }),
{
    let p = starting("--package="@);
    let n = "--package="@.len() as int;
    assert(bldopts[i].take(n) =~= "--package="@);
    assert("--package="@.is_prefix_of(bldopts[i]));
    let before = bldopts.take(i);
    if before.filter(p).len() > 0 {
        before.lemma_filter_pred(p, 0);
        lemma_filter_contains(before, p, before.filter(p)[0]);
        assert(before.filter(p).contains(before.filter(p)[0]));
        let j = choose|j: int| 0 <= j < before.len() && before[j] == before.filter(p)[0];
        assert(bldopts[j] == before[j]);
    }
    lemma_first_filtered(bldopts, i, p);
    assert(bldopts[i].skip(n) =~= name);
    reveal_strlit("_");
    assert("_"@ =~= seq!['_']);
    let package = replaced(name, '-', "_"@);
    if name.len() > 0 {
        law_replacing(name, '-', '_', 0);
    }
    assert forall|k: int| 0 <= k < name.len() implies #[trigger] package[k] == if name[k] == '-' {
        '_'
    } else {
        name[k]
    } by {
        law_replacing(name, '-', '_', k);
    }
}

/// No package is selected if and only if no option starts with `--package=`.
pub proof fn law_no_selected_package(bldopts: Seq<Seq<char>>)
    ensures
        selected_package(bldopts) is None <==> forall|i: int|
            0 <= i < bldopts.len() ==> !"--package="@.is_prefix_of(#[trigger] bldopts[i]),
{
    let p = starting("--package="@);
    let found = bldopts.filter(p);
    if found.len() > 0 {
        bldopts.lemma_filter_pred(p, 0);
        lemma_filter_contains(bldopts, p, found[0]);
        assert(found.contains(found[0]));
        let i = choose|i: int| 0 <= i < bldopts.len() && bldopts[i] == found[0];
        assert("--package="@.is_prefix_of(bldopts[i]));
    } else {
        assert forall|i: int| 0 <= i < bldopts.len() implies !"--package="@.is_prefix_of(
            #[trigger] bldopts[i],
        ) by {
            lemma_filter_contains(bldopts, p, bldopts[i]);
            assert(bldopts.contains(bldopts[i]));
        }
    }
}

/// A WASM is a result wherever it stands below a directory: directly in `release`
/// of one of the two targets, with any name before `.wasm`.
pub proof fn law_release_wasm(dir: Seq<char>, name: Seq<char>)
    requires
        is_entry_name(name + ".wasm"@),
        name.len() > 0,
    ensures
        is_release_wasm()(dir + "/wasm32v1-none/release/"@ + name + ".wasm"@),
        is_release_wasm()(dir + "/wasm32-unknown-unknown/release/"@ + name + ".wasm"@),
{
    reveal_strlit("wasm32v1-none");
    reveal_strlit("wasm32-unknown-unknown");
    reveal_strlit("release");
    reveal_strlit(".wasm");
    reveal_strlit(".");
    reveal_strlit("..");
    reveal_strlit("/wasm32v1-none/release/");
    reveal_strlit("/wasm32-unknown-unknown/release/");
    let file = name + ".wasm"@;
    assert(file.subrange(file.len() - 5, file.len() as int) =~= ".wasm"@);
    assert(".wasm"@.is_suffix_of(file));
    lemma_release_path(dir, "wasm32v1-none"@, file);
    assert(entry_path(entry_path(entry_path(dir, "wasm32v1-none"@), "release"@), file) =~= dir
        + "/wasm32v1-none/release/"@ + name + ".wasm"@);
    lemma_release_path(dir, "wasm32-unknown-unknown"@, file);
    assert(entry_path(entry_path(entry_path(dir, "wasm32-unknown-unknown"@), "release"@), file)
        =~= dir + "/wasm32-unknown-unknown/release/"@ + name + ".wasm"@);
}

/// The components of the path of a file in the output directory of a target.
proof fn lemma_release_path(dir: Seq<char>, target: Seq<char>, file: Seq<char>)
    requires
        is_entry_name(target),
        is_entry_name(file),
    ensures
        components(entry_path(entry_path(entry_path(dir, target), "release"@), file))
            == components(dir).push(target).push("release"@).push(file),
{
    reveal_strlit("release");
    reveal_strlit(".");
    reveal_strlit("..");
    assert("release"@.len() == 7 && "."@.len() == 1 && ".."@.len() == 2);
    assert(is_entry_name("release"@));
    law_entry_path(dir, target);
    law_entry_path(entry_path(dir, target), "release"@);
    law_entry_path(entry_path(entry_path(dir, target), "release"@), file);
}

/// A path is a result if and only if its last components are one of the two targets,
/// `release` and a name before `.wasm`.
pub proof fn law_form_of_a_release_wasm(path: Seq<char>)
    ensures
        is_release_wasm()(path) <==> {
            let parts = components(path);
            let n = parts.len() as int;
            &&& n >= 3
            &&& parts[n - 3] == "wasm32v1-none"@ || parts[n - 3] == "wasm32-unknown-unknown"@
            &&& parts[n - 2] == "release"@
            &&& exists|name: Seq<char>|
                name.len() > 0 && parts[n - 1] == #[trigger] (name + ".wasm"@)
        },
{
    let parts = components(path);
    let n = parts.len() as int;
    if n >= 3 {
        let file = parts[n - 1];
        if ".wasm"@.is_suffix_of(file) {
            assert(file =~= file.take(file.len() - ".wasm"@.len()) + ".wasm"@);
        }
        if exists|name: Seq<char>| name.len() > 0 && file == #[trigger] (name + ".wasm"@) {
            let name = choose|name: Seq<char>|
                name.len() > 0 && file == #[trigger] (name + ".wasm"@);
            assert(file.subrange(file.len() - ".wasm"@.len(), file.len() as int) =~= ".wasm"@);
            assert(".wasm"@.is_suffix_of(file));
        }
    }
}

/// What the rebuild has left goes by the path: a result that was not there before is
/// kept, in its place, and anything else is not.
pub proof fn law_fresh_wasms_go_by_the_path(
    a: Seq<Seq<char>>,
    b: Seq<Seq<char>>,
    path: Seq<char>,
    preexisting: Seq<Seq<char>>,
)
    ensures
        fresh_wasms(a + b, preexisting) == fresh_wasms(a, preexisting) + fresh_wasms(
            b,
            preexisting,
        ),
        is_release_wasm()(path) && !preexisting.contains(path) ==> fresh_wasms(
            seq![path],
            preexisting,
        ) == seq![path],
        !is_release_wasm()(path) || preexisting.contains(path) ==> fresh_wasms(
            seq![path],
            preexisting,
        ) == Seq::<Seq<char>>::empty(),
{
    let p = is_release_wasm();
    let q = absent(preexisting);
    Seq::filter_distributes_over_add(a, b, p);
    Seq::filter_distributes_over_add(a.filter(p), b.filter(p), q);
    lemma_filter_one(path, p);
    lemma_filter_one(path, q);
    if !p(path) {
        let none = Seq::<Seq<char>>::empty();
        none.lemma_filter_len(q);
        assert(none.filter(q) =~= none);
    }
}

/// Of several results the first with the package's name is chosen. Without one the
/// only result is chosen; several are refused, and all are listed.
pub proof fn law_which_result_is_chosen(
    target: Seq<char>,
    found: Seq<Seq<char>>,
    package: Seq<char>,
    i: int,
)
    ensures
        0 <= i < found.len() && file_name(found[i]) == Some(package + ".wasm"@) && (forall|j: int|
            0 <= j < i ==> file_name(#[trigger] found[j]) != Some(package + ".wasm"@))
            ==> chosen_wasm(target, found, Some(package)) == Ok::<Seq<char>, Error<Seq<char>>>(
            found[i],
        ),
        (forall|j: int|
            0 <= j < found.len() ==> file_name(#[trigger] found[j]) != Some(package + ".wasm"@))
            ==> chosen_wasm(target, found, Some(package)) == chosen_wasm(target, found, None),
        found.len() == 0 ==> chosen_wasm(target, found, None) == Err::<
            Seq<char>,
            Error<Seq<char>>,
        >(Error::NoRebuiltWasm { target }),
        found.len() == 1 ==> chosen_wasm(target, found, None) == Ok::<Seq<char>, Error<Seq<char>>>(
            found[0],
        ),
        found.len() > 1 ==> chosen_wasm(target, found, None) == Err::<
            Seq<char>,
            Error<Seq<char>>,
        >(Error::AmbiguousRebuiltWasm { target, found: joined(found, ", "@) }),
{
    let p = with_name(package + ".wasm"@);
    if 0 <= i < found.len() && p(found[i]) && (forall|j: int|
        0 <= j < i ==> file_name(#[trigger] found[j]) != Some(package + ".wasm"@)) {
        let before = found.take(i);
        if before.filter(p).len() > 0 {
            before.lemma_filter_pred(p, 0);
            lemma_filter_contains(before, p, before.filter(p)[0]);
            assert(before.filter(p).contains(before.filter(p)[0]));
            let j = choose|j: int| 0 <= j < before.len() && before[j] == before.filter(p)[0];
            assert(found[j] == before[j]);
        }
        lemma_first_filtered(found, i, p);
    }
    if forall|j: int|
        0 <= j < found.len() ==> file_name(#[trigger] found[j]) != Some(package + ".wasm"@) {
        let named = found.filter(p);
        if named.len() > 0 {
            found.lemma_filter_pred(p, 0);
            lemma_filter_contains(found, p, named[0]);
            assert(named.contains(named[0]));
            let j = choose|j: int| 0 <= j < found.len() && found[j] == named[0];
            assert(file_name(found[j]) == Some(package + ".wasm"@));
        }
    }
}

/// The image's toolchain is set as `RUSTUP_TOOLCHAIN` after the other variables,
/// unless one of them sets that already. It is the first word that `rustup` writes.
pub proof fn law_toolchain_that_is_set(
    env: Seq<Seq<char>>,
    toolchain: Seq<char>,
    output: Result<String, String>,
)
    ensures
        pins_toolchain(env) <==> exists|i: int, value: Seq<char>|
            0 <= i < env.len() && #[trigger] env[i] == #[trigger] ("RUSTUP_TOOLCHAIN="@ + value),
        !pins_toolchain(env) ==> with_toolchain(env, Some(toolchain)) == env + seq![
            "RUSTUP_TOOLCHAIN="@ + toolchain,
        ],
        output matches Ok(text) ==> active_toolchain(output) == first_word(text@),
        output is Err ==> active_toolchain(output) is None,
{
    let start = "RUSTUP_TOOLCHAIN="@;
    let n = start.len() as int;
    if pins_toolchain(env) {
        let i = choose|i: int| 0 <= i < env.len() && start.is_prefix_of(#[trigger] env[i]);
        assert(env[i] =~= start + env[i].skip(n));
    }
    if exists|i: int, value: Seq<char>|
        0 <= i < env.len() && #[trigger] env[i] == #[trigger] (start + value) {
        let (i, value) = choose|i: int, value: Seq<char>|
            0 <= i < env.len() && #[trigger] env[i] == #[trigger] (start + value);
        assert(env[i].take(n) =~= start);
        assert(start.is_prefix_of(env[i]));
    }
    assert(env.push(start + toolchain) =~= env + seq![start + toolchain]);
}

/// The commands that ask an image: for the options of a build, and for its
/// toolchain.
pub proof fn law_questions_to_the_image(choice: EngineChoice, image: Seq<char>)
    ensures
        locked_probe(choice, image) == choice.prefix() + seq![
            "run"@,
            "--rm"@,
            image,
            "contract"@,
            "build"@,
            "--help"@,
        ],
        toolchain_probe(choice, image) == choice.prefix() + seq![
            "run"@,
            "--rm"@,
            "--entrypoint"@,
            "rustup"@,
            image,
            "show"@,
            "active-toolchain"@,
        ],
{
    assert(locked_probe(choice, image) =~= choice.prefix() + seq![
        "run"@,
        "--rm"@,
        image,
        "contract"@,
        "build"@,
        "--help"@,
    ]);
    assert(toolchain_probe(choice, image) =~= choice.prefix() + seq![
        "run"@,
        "--rm"@,
        "--entrypoint"@,
        "rustup"@,
        image,
        "show"@,
        "active-toolchain"@,
    ]);
}

/// The build runs in a container that is removed at its end, with its name and its
/// limits, the source mounted at `/source` and that as the working directory, a `-e`
/// for every variable, the image, and the command.
pub proof fn law_run_command(
    choice: EngineChoice,
    name: Seq<char>,
    limits: Seq<Seq<char>>,
    source_root: Seq<char>,
    env: Seq<Seq<char>>,
    variable: Seq<char>,
    image: Seq<char>,
    cmd: Seq<Seq<char>>,
)
    ensures
        run_command(choice, name, limits, source_root, Seq::empty(), image, cmd) == choice.prefix()
            + seq!["run"@, "--rm"@, "--name"@, name] + limits + seq![
            "-v"@,
            source_root + ":/source"@,
            "-w"@,
            "/source"@,
            image,
        ] + cmd,
        reproduce_words(choice, limits, source_root, Seq::empty(), image, cmd) == choice.prefix()
            + seq!["run"@, "--rm"@] + limits + seq!["-v"@, source_root + ":/source"@, image] + cmd,
        reproduce_words(choice, limits, source_root, seq![variable] + env, image, cmd)
            == choice.prefix() + seq!["run"@, "--rm"@] + limits + seq!["-e"@, variable]
            + reproduce_words(choice, limits, source_root, env, image, cmd).skip(
            choice.prefix().len() as int + 2 + limits.len(),
        ),
        run_command(choice, name, limits, source_root, env, image, cmd).skip(
            choice.prefix().len() as int + 8 + limits.len() + 2 * env.len(),
        ) == seq![image] + cmd,
        run_command(choice, name, limits, source_root, env, image, cmd).take(
            choice.prefix().len() as int + 8 + limits.len(),
        ) == choice.prefix() + seq!["run"@, "--rm"@, "--name"@, name] + limits + seq![
            "-v"@,
            source_root + ":/source"@,
            "-w"@,
            "/source"@,
        ],
{
    lemma_each_after_first(env, "-e"@, variable);
    let words = each_after(env, "-e"@);
    if env.len() > 0 {
        lemma_each_after(env, "-e"@, 0);
    }
    assert(words.len() == 2 * env.len());
    assert(run_command(choice, name, limits, source_root, Seq::empty(), image, cmd)
        =~= choice.prefix() + seq!["run"@, "--rm"@, "--name"@, name] + limits + seq![
        "-v"@,
        source_root + ":/source"@,
        "-w"@,
        "/source"@,
        image,
    ] + cmd);
    assert(reproduce_words(choice, limits, source_root, Seq::empty(), image, cmd)
        =~= choice.prefix() + seq!["run"@, "--rm"@] + limits + seq![
        "-v"@,
        source_root + ":/source"@,
        image,
    ] + cmd);
    let rest = reproduce_words(choice, limits, source_root, env, image, cmd).skip(
        choice.prefix().len() as int + 2 + limits.len(),
    );
    let tail = seq!["-v"@, mount(source_root), image] + cmd;
    assert(rest =~= words + tail);
    assert(reproduce_words(choice, limits, source_root, seq![variable] + env, image, cmd)
        =~= choice.prefix() + seq!["run"@, "--rm"@] + limits + (seq!["-e"@, variable] + words)
        + tail);
    assert(choice.prefix() + seq!["run"@, "--rm"@] + limits + (seq!["-e"@, variable] + words)
        + tail =~= choice.prefix() + seq!["run"@, "--rm"@] + limits + seq!["-e"@, variable]
        + rest);
    assert(run_command(choice, name, limits, source_root, env, image, cmd).skip(
        choice.prefix().len() as int + 8 + limits.len() + 2 * env.len(),
    ) =~= seq![image] + cmd);
    assert(run_command(choice, name, limits, source_root, env, image, cmd).take(
        choice.prefix().len() as int + 8 + limits.len(),
    ) =~= choice.prefix() + seq!["run"@, "--rm"@, "--name"@, name] + limits + seq![
        "-v"@,
        source_root + ":/source"@,
        "-w"@,
        "/source"@,
    ]);
}

/// The first text of a list stands first, after the word.
proof fn lemma_each_after_first(list: Seq<Seq<char>>, word: Seq<char>, text: Seq<char>)
    ensures
        each_after(seq![text] + list, word) == seq![word, text] + each_after(list, word),
    decreases list.len(),
{
    let all = seq![text] + list;
    if list.len() == 0 {
        reveal_with_fuel(each_after, 2);
        assert(all.drop_last() =~= Seq::empty());
        assert(each_after(all, word) =~= seq![word, text] + each_after(list, word));
    } else {
        lemma_each_after_first(list.drop_last(), word, text);
        assert(all.drop_last() =~= seq![text] + list.drop_last());
        assert(each_after(all, word) =~= seq![word, text] + each_after(list, word));
    }
}

/// The container's name is made of the UUID and, where there is one, the name of the
/// directory that holds the source.
pub proof fn law_name_of_the_container(uuid: Seq<char>, source_root: Seq<char>, dir: Seq<char>)
    ensures
        parent_name(source_root) == Some(dir) ==> container_name(uuid, source_root)
            == "stellar-contract-verify-"@ + uuid + "-"@ + dir,
        parent_name(source_root) is None ==> container_name(uuid, source_root)
            == "stellar-contract-verify-"@ + uuid,
{
}

/// The line for a shell holds each word of the same build, escaped and without its
/// control characters, with a space between neighbours.
pub proof fn law_words_of_the_line(
    choice: EngineChoice,
    limits: Seq<Seq<char>>,
    source_root: Seq<char>,
    env: Seq<Seq<char>>,
    image: Seq<char>,
    cmd: Seq<Seq<char>>,
)
    ensures
        ({
            let words = reproduce_words(choice, limits, source_root, env, image, cmd);
            reproduce_line(choice, limits, source_root, env, image, cmd) == sanitized(
                joined(words.map_values(|w: Seq<char>| escaped(w)), " "@),
            )
        }),
{
    let words = reproduce_words(choice, limits, source_root, env, image, cmd);
    assert(escaped_all(words) =~= words.map_values(|w: Seq<char>| escaped(w)));
}

/// A command is run in a throw-away container of the image, with the entry point
/// that is given or else the image's own.
pub proof fn law_throw_away_container(
    choice: EngineChoice,
    image: Seq<char>,
    entrypoint: Seq<char>,
    cmd: Seq<Seq<char>>,
)
    ensures
        probe_command(choice, image, None, cmd) == choice.prefix() + seq!["run"@, "--rm"@, image]
            + cmd,
        probe_command(choice, image, Some(entrypoint), cmd) == choice.prefix() + seq![
            "run"@,
            "--rm"@,
            "--entrypoint"@,
            entrypoint,
            image,
        ] + cmd,
{
    assert(probe_command(choice, image, None, cmd) =~= choice.prefix() + seq![
        "run"@,
        "--rm"@,
        image,
    ] + cmd);
    assert(probe_command(choice, image, Some(entrypoint), cmd) =~= choice.prefix() + seq![
        "run"@,
        "--rm"@,
        "--entrypoint"@,
        entrypoint,
        image,
    ] + cmd);
}

} // verus!
