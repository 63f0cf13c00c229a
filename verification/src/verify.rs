//! The command that verifies a contract's WASM: what it is asked for, what it
//! reports, and the verdict.

use vstd::prelude::*;
use vstd::string::StringExecFns;

use crate::digest::{hex_digest, law_hex_injective, sha256, sha256_text};
use crate::engine::{ContainerArgs, EngineChoice, RunArgs};
use crate::error::Error;
use crate::meta::{ExtractedMetadata, Metadata};
use crate::print::{
    blank, info, is_harmless, law_sanitized_is_harmless, said, sanitize, sanitized, say, shown,
    Print,
};
use crate::source::effective_source;
use crate::text::{
    concat2, concat3, decimal, opt_text, render_decimal, same, texts,
};

verus! {

/// What the user asks for.
#[derive(Debug, Clone)]
pub struct Cmd {
    /// The local WASM file to verify.
    pub wasm: Option<String>,
    /// The id of the contract whose WASM is to be fetched and verified.
    pub contract_id: Option<String>,
    /// The hash of the WASM to fetch and verify.
    pub wasm_hash: Option<String>,
    /// The network to fetch from.
    pub network: Option<String>,
    /// The source archive to use, whatever the WASM records.
    pub source_uri: Option<String>,
    /// Whether to trust the image and the source without asking.
    pub trust: bool,
    /// Whether to keep the source and what was built from it.
    pub keep: bool,
    /// Whether to print the verdict only.
    pub quiet: bool,
    /// Whether to print the build's command and its output.
    pub verbose: bool,
    /// The container engine.
    pub container_args: ContainerArgs,
    /// The limits on the build's resources.
    pub run_args: RunArgs,
}

/// The contents of a [`Cmd`].
#[verifier::ext_equal]
pub struct Request {
    pub wasm: Option<Seq<char>>,
    pub contract_id: Option<Seq<char>>,
    pub wasm_hash: Option<Seq<char>>,
    pub network: Option<Seq<char>>,
    pub source_uri: Option<Seq<char>>,
    pub trust: bool,
    pub keep: bool,
    pub quiet: bool,
    pub verbose: bool,
    pub engine: EngineChoice,
    pub cpus: Option<u32>,
    pub memory: Option<Seq<char>>,
}

impl View for Cmd {
    type V = Request;

    open spec fn view(&self) -> Request {
        Request {
            wasm: opt_text(self.wasm),
            contract_id: opt_text(self.contract_id),
            wasm_hash: opt_text(self.wasm_hash),
            network: opt_text(self.network),
            source_uri: opt_text(self.source_uri),
            trust: self.trust,
            keep: self.keep,
            quiet: self.quiet,
            verbose: self.verbose,
            engine: self.container_args@,
            cpus: self.run_args.cpus,
            memory: opt_text(self.run_args.memory),
        }
    }
}

/// The note on where the source comes from: the one that is used, and the
/// recorded one where that is not used.
pub open spec fn source_note(
    given: Option<Seq<char>>,
    recorded: Option<Seq<char>>,
) -> Option<Seq<char>> {
    match (given, recorded) {
        (Some(given), Some(recorded)) => Some(
            "Source URI: "@ + sanitized(given) + " (overrides recorded "@ + sanitized(recorded)
                + ")"@,
        ),
        (Some(given), None) => Some("Source URI: "@ + sanitized(given) + " (override)"@),
        (None, Some(recorded)) => Some("Source URI: "@ + sanitized(recorded)),
        (None, None) => None,
    }
}

/// The lines, and one for every option.
pub open spec fn option_lines(
    lines: Seq<Seq<char>>,
    quiet: bool,
    bldopts: Seq<Seq<char>>,
) -> Seq<Seq<char>>
    decreases bldopts.len(),
{
    if bldopts.len() == 0 {
        lines
    } else {
        said(
            option_lines(lines, quiet, bldopts.drop_last()),
            shown(quiet, blank("  • "@ + sanitized(bldopts.last()))),
        )
    }
}

/// The lines that report what a WASM records, and which source is used.
pub open spec fn announcement(
    quiet: bool,
    given: Option<Seq<char>>,
    meta: Metadata,
) -> Seq<Seq<char>> {
    let image = said(
        Seq::empty(),
        shown(quiet, info("Build image: "@ + sanitized(meta.bldimg))),
    );
    let source = match source_note(given, meta.source_uri) {
        Some(note) => said(image, shown(quiet, info(note))),
        None => image,
    };
    let digest = match meta.source_sha256 {
        Some(digest) => said(source, shown(quiet, info("Source SHA-256: "@ + sanitized(digest)))),
        None => source,
    };
    if meta.bldopts.len() > 0 {
        option_lines(
            said(
                digest,
                shown(quiet, info("Build options ("@ + decimal(meta.bldopts.len()) + "):"@)),
            ),
            quiet,
            meta.bldopts,
        )
    } else {
        digest
    }
}

/// The report that a WASM was verified.
pub open spec fn verified_note(size: nat, hash: Seq<char>) -> Seq<char> {
    "Verified: "@ + decimal(size) + " bytes, sha256="@ + hash
}

/// The verdict on digests and sizes: the original is reproduced where both
/// agree.
pub open spec fn judgement(
    original_hash: Seq<char>,
    original_size: usize,
    rebuilt_hash: Seq<char>,
    rebuilt_size: usize,
) -> Result<Seq<char>, Error<Seq<char>>> {
    if original_hash == rebuilt_hash && original_size == rebuilt_size {
        Ok(verified_note(original_size as nat, original_hash))
    } else {
        Err(
            Error::VerificationMismatch {
                original_hash,
                original_size,
                rebuilt_hash,
                rebuilt_size,
            },
        )
    }
}

/// The verdict on a rebuilt WASM.
pub open spec fn verdict(original: Seq<u8>, rebuilt: Seq<u8>) -> Result<
    Seq<char>,
    Error<Seq<char>>,
> {
    judgement(
        sha256_text(original),
        original.len() as usize,
        sha256_text(rebuilt),
        rebuilt.len() as usize,
    )
}

/// The contents of a verdict.
pub open spec fn verdict_text(r: Result<String, Error>) -> Result<Seq<char>, Error<Seq<char>>> {
    match r {
        Ok(note) => Ok(note@),
        Err(e) => Err(e@),
    }
}

/// The verdict on digests and sizes: the report of success where both agree,
/// and otherwise an error that holds all of them.
pub fn judge(
    original_hash: String,
    original_size: usize,
    rebuilt_hash: String,
    rebuilt_size: usize,
) -> (r: Result<String, Error>)
    ensures
        verdict_text(r) == judgement(
            original_hash@,
            original_size,
            rebuilt_hash@,
            rebuilt_size,
        ),
{
    if same(original_hash.as_str(), rebuilt_hash.as_str()) && original_size == rebuilt_size {
        let mut note: String = "Verified: ".to_string();
        note.append(render_decimal(original_size as u64).as_str());
        note.append(" bytes, sha256=");
        note.append(original_hash.as_str());
        Ok(note)
    } else {
        Err(
            Error::VerificationMismatch {
                original_hash,
                original_size,
                rebuilt_hash,
                rebuilt_size,
            },
        )
    }
}

/// Compares a rebuilt WASM with the original.
pub fn compare(original: &[u8], rebuilt: &[u8]) -> (r: Result<String, Error>)
    ensures
        verdict_text(r) == verdict(original@, rebuilt@),
{
    judge(hex_digest(original), original.len(), hex_digest(rebuilt), rebuilt.len())
}

impl Cmd {
    /// The source that is used: the one that the user gives or else the
    /// recorded one.
    pub fn effective_source_uri(&self, meta: &ExtractedMetadata) -> (r: Option<String>)
        ensures
            opt_text(r) == effective_source(self@.source_uri, meta@.source_uri),
    {
        match &self.source_uri {
            Some(uri) => Some(uri.clone()),
            None => match &meta.source_uri {
                Some(uri) => Some(uri.clone()),
                None => None,
            },
        }
    }

    /// The lines that report what a WASM records, and which source is used.
    /// Every value is sanitized.
    pub fn announce(&self, meta: &ExtractedMetadata) -> (lines: Vec<String>)
        ensures
            texts(lines@) == announcement(self@.quiet, self@.source_uri, meta@),
    {
        let print: Print = Print::new(self.quiet);
        let mut lines: Vec<String> = Vec::new();
        assert(texts(lines@) =~= Seq::empty());
        let image: String = concat2("Build image: ", sanitize(meta.bldimg.as_str()).as_str());
        say(&mut lines, print.infoln(image.as_str()));
        let note: Option<String> = match (&self.source_uri, &meta.source_uri) {
            (Some(given), Some(recorded)) => {
                let mut note: String = concat3(
                    "Source URI: ",
                    sanitize(given.as_str()).as_str(),
                    " (overrides recorded ",
                );
                note.append(sanitize(recorded.as_str()).as_str());
                note.append(")");
                Some(note)
            },
            (Some(given), None) => Some(
                concat3("Source URI: ", sanitize(given.as_str()).as_str(), " (override)"),
            ),
            (None, Some(recorded)) => Some(
                concat2("Source URI: ", sanitize(recorded.as_str()).as_str()),
            ),
            (None, None) => None,
        };
        if let Some(note) = note {
            say(&mut lines, print.infoln(note.as_str()));
        }
        if let Some(digest) = &meta.source_sha256 {
            let note: String = concat2("Source SHA-256: ", sanitize(digest.as_str()).as_str());
            say(&mut lines, print.infoln(note.as_str()));
        }
        let count: usize = meta.bldopts.len();
        if count > 0 {
            let note: String = concat3(
                "Build options (",
                render_decimal(count as u64).as_str(),
                "):",
            );
            say(&mut lines, print.infoln(note.as_str()));
            let ghost before = texts(lines@);
            let ghost model = texts(meta.bldopts@);
            for i in 0..meta.bldopts.len()
                invariant
                    print.quiet == self.quiet,
                    model == texts(meta.bldopts@),
                    texts(lines@) == option_lines(before, self.quiet, model.take(i as int)),
            {
                assert(model.take(i + 1).drop_last() =~= model.take(i as int));
                assert(model.take(i + 1).last() == model[i as int]);
                let note: String = concat2("  • ", sanitize(meta.bldopts[i].as_str()).as_str());
                say(&mut lines, print.blankln(note.as_str()));
            }
            assert(model.take(model.len() as int) =~= model);
        }
        lines
    }
}

/// The verdict is that a WASM is reproduced if and only if the rebuilt one has
/// its size and its digest; a WASM reproduces itself. A mismatch is reported
/// with both sizes and both digests.
pub proof fn law_verdict(original: Seq<u8>, rebuilt: Seq<u8>)
    requires
        original.len() <= usize::MAX,
        rebuilt.len() <= usize::MAX,
    ensures
        verdict(original, rebuilt) is Ok <==> original.len() == rebuilt.len() && sha256(original)
            == sha256(rebuilt),
        verdict(original, original) == Ok::<Seq<char>, Error<Seq<char>>>(
            verified_note(original.len(), sha256_text(original)),
        ),
        verdict(original, rebuilt) is Err ==> verdict(original, rebuilt) == Err::<
            Seq<char>,
            Error<Seq<char>>,
        >(
            Error::VerificationMismatch {
                original_hash: sha256_text(original),
                original_size: original.len() as usize,
                rebuilt_hash: sha256_text(rebuilt),
                rebuilt_size: rebuilt.len() as usize,
            },
        ),
{
    if sha256_text(original) == sha256_text(rebuilt) {
        law_hex_injective(sha256(original), sha256(rebuilt));
    }
}

/// Whether every line holds nothing that makes a terminal act.
pub open spec fn all_harmless(lines: Seq<Seq<char>>) -> bool {
    forall|i: int| 0 <= i < lines.len() ==> is_harmless(#[trigger] lines[i])
}

/// The decimal digits are harmless.
pub proof fn lemma_decimal_is_harmless(n: nat)
    ensures
        is_harmless(decimal(n)),
    decreases n,
{
    if n >= 10 {
        lemma_decimal_is_harmless(n / 10);
    }
}

/// The literals of the announcement are harmless.
proof fn lemma_literals_are_harmless()
    ensures
        is_harmless("ℹ️"@),
        is_harmless(" "@),
        is_harmless("  "@),
        is_harmless("Build image: "@),
        is_harmless("Source URI: "@),
        is_harmless(" (overrides recorded "@),
        is_harmless(")"@),
        is_harmless(" (override)"@),
        is_harmless("Source SHA-256: "@),
        is_harmless("Build options ("@),
        is_harmless("):"@),
        is_harmless("  • "@),
{
    reveal_strlit("ℹ️");
    reveal_strlit(" ");
    reveal_strlit("  ");
    reveal_strlit("Build image: ");
    reveal_strlit("Source URI: ");
    reveal_strlit(" (overrides recorded ");
    reveal_strlit(")");
    reveal_strlit(" (override)");
    reveal_strlit("Source SHA-256: ");
    reveal_strlit("Build options (");
    reveal_strlit("):");
    reveal_strlit("  • ");
}

/// The lines on the options are harmless.
proof fn lemma_option_lines_are_harmless(
    lines: Seq<Seq<char>>,
    quiet: bool,
    bldopts: Seq<Seq<char>>,
)
    requires
        all_harmless(lines),
    ensures
        all_harmless(option_lines(lines, quiet, bldopts)),
        quiet ==> option_lines(lines, quiet, bldopts) == lines,
    decreases bldopts.len(),
{
    if bldopts.len() > 0 {
        lemma_option_lines_are_harmless(lines, quiet, bldopts.drop_last());
        lemma_literals_are_harmless();
        law_sanitized_is_harmless(bldopts.last());
        assert(is_harmless(blank("  • "@ + sanitized(bldopts.last()))));
    }
}

/// The announcement holds nothing that makes a terminal act, whatever the WASM
/// records and the user gives. Where the output is quiet, there is none.
pub proof fn law_announcement_is_harmless(quiet: bool, given: Option<Seq<char>>, meta: Metadata)
    ensures
        all_harmless(announcement(quiet, given, meta)),
        quiet ==> announcement(quiet, given, meta) == Seq::<Seq<char>>::empty(),
{
    lemma_literals_are_harmless();
    law_sanitized_is_harmless(meta.bldimg);
    if given is Some {
        law_sanitized_is_harmless(given->0);
    }
    if meta.source_uri is Some {
        law_sanitized_is_harmless(meta.source_uri->0);
    }
    if meta.source_sha256 is Some {
        law_sanitized_is_harmless(meta.source_sha256->0);
    }
    lemma_decimal_is_harmless(meta.bldopts.len());
    let image = said(
        Seq::empty(),
        shown(quiet, info("Build image: "@ + sanitized(meta.bldimg))),
    );
    assert(all_harmless(image));
    let source = match source_note(given, meta.source_uri) {
        Some(note) => said(image, shown(quiet, info(note))),
        None => image,
    };
    assert(all_harmless(source));
    let digest = match meta.source_sha256 {
        Some(digest) => said(source, shown(quiet, info("Source SHA-256: "@ + sanitized(digest)))),
        None => source,
    };
    assert(all_harmless(digest));
    if meta.bldopts.len() > 0 {
        let count = said(
            digest,
            shown(quiet, info("Build options ("@ + decimal(meta.bldopts.len()) + "):"@)),
        );
        assert(all_harmless(count));
        lemma_option_lines_are_harmless(count, quiet, meta.bldopts);
    }
}

/// Where there are no options, the announcement has the image, the source with where
/// it comes from, and the source's digest, each where there is one and without its
/// control characters.
pub proof fn law_announcement(given: Option<Seq<char>>, meta: Metadata)
    requires
        meta.bldopts.len() == 0,
    ensures
        announcement(false, given, meta) == seq![
            info("Build image: "@ + sanitized(meta.bldimg)),
        ] + (if given is Some && meta.source_uri is Some {
            seq![
                info(
                    "Source URI: "@ + sanitized(given->0) + " (overrides recorded "@ + sanitized(
                        meta.source_uri->0,
                    ) + ")"@,
                ),
            ]
        } else if given is Some {
            seq![info("Source URI: "@ + sanitized(given->0) + " (override)"@)]
        } else if meta.source_uri is Some {
            seq![info("Source URI: "@ + sanitized(meta.source_uri->0))]
        } else {
            Seq::empty()
        }) + (if meta.source_sha256 is Some {
            seq![info("Source SHA-256: "@ + sanitized(meta.source_sha256->0))]
        } else {
            Seq::empty()
        }),
{
    let image = seq![info("Build image: "@ + sanitized(meta.bldimg))];
    assert(Seq::<Seq<char>>::empty().push(image[0]) =~= image);
}

/// The options are announced after the rest: their number, and then each of them on
/// a line of its own, in their order and without its control characters.
pub proof fn law_announced_options(given: Option<Seq<char>>, meta: Metadata)
    requires
        meta.bldopts.len() > 0,
    ensures
        ({
            let lines = announcement(false, given, meta);
            let head = announcement(false, given, Metadata { bldopts: Seq::empty(), ..meta });
            let n = head.len() as int;
            &&& lines.len() == n + 1 + meta.bldopts.len()
            &&& lines.take(n) == head
            &&& lines[n] == info("Build options ("@ + decimal(meta.bldopts.len()) + "):"@)
            &&& forall|i: int|
                0 <= i < meta.bldopts.len() ==> lines[n + 1 + i] == blank(
                    "  • "@ + sanitized(#[trigger] meta.bldopts[i]),
                )
        }),
{
    let head = announcement(false, given, Metadata { bldopts: Seq::empty(), ..meta });
    let count = head.push(info("Build options ("@ + decimal(meta.bldopts.len()) + "):"@));
    lemma_option_lines(count, meta.bldopts);
    let lines = announcement(false, given, meta);
    assert(lines == option_lines(count, false, meta.bldopts));
    assert forall|i: int| 0 <= i < count.len() implies lines[i] == count[i] by {
        assert(lines.take(count.len() as int)[i] == lines[i]);
    }
    assert(lines.take(head.len() as int) =~= head);
}

/// Every option has a line of its own, after the lines before.
proof fn lemma_option_lines(lines: Seq<Seq<char>>, bldopts: Seq<Seq<char>>)
    ensures
        ({
            let all = option_lines(lines, false, bldopts);
            let n = lines.len() as int;
            &&& all.len() == n + bldopts.len()
            &&& all.take(n) == lines
            &&& forall|i: int|
                0 <= i < bldopts.len() ==> all[n + i] == blank(
                    "  • "@ + sanitized(#[trigger] bldopts[i]),
                )
        }),
    decreases bldopts.len(),
{
    let all = option_lines(lines, false, bldopts);
    let n = lines.len() as int;
    if bldopts.len() == 0 {
        assert(all.take(n) =~= lines);
    } else {
        let init = bldopts.drop_last();
        let most = option_lines(lines, false, init);
        lemma_option_lines(lines, init);
        assert(all.take(n) =~= most.take(n));
        assert forall|i: int| 0 <= i < bldopts.len() implies all[n + i] == blank(
            "  • "@ + sanitized(#[trigger] bldopts[i]),
        ) by {
            if i < init.len() {
                assert(init[i] == bldopts[i]);
            }
        }
    }
}

/// The verdict goes by the digests and the sizes alone: both must agree. The report
/// of success gives the size in decimal digits and the digest.
pub proof fn law_judgement(hash: Seq<char>, size: usize, other: Seq<char>, length: usize)
    ensures
        judgement(hash, size, hash, size) == Ok::<Seq<char>, Error<Seq<char>>>(
            "Verified: "@ + decimal(size as nat) + " bytes, sha256="@ + hash,
        ),
        hash != other || size != length ==> judgement(hash, size, other, length) == Err::<
            Seq<char>,
            Error<Seq<char>>,
        >(
            Error::VerificationMismatch {
                original_hash: hash,
                original_size: size,
                rebuilt_hash: other,
                rebuilt_size: length,
            },
        ),
{
}

/// What the user asks for is taken as it is given.
pub proof fn law_request_is_what_was_given(cmd: Cmd)
    ensures
        cmd@.wasm == opt_text(cmd.wasm),
        cmd@.contract_id == opt_text(cmd.contract_id),
        cmd@.wasm_hash == opt_text(cmd.wasm_hash),
        cmd@.network == opt_text(cmd.network),
        cmd@.source_uri == opt_text(cmd.source_uri),
        cmd@.trust == cmd.trust,
        cmd@.keep == cmd.keep,
        cmd@.quiet == cmd.quiet,
        cmd@.verbose == cmd.verbose,
        cmd@.engine.docker_host == opt_text(cmd.container_args.docker_host),
        cmd@.engine.engine == cmd.container_args.engine,
        cmd@.cpus == cmd.run_args.cpus,
        cmd@.memory == opt_text(cmd.run_args.memory),
{
}

/// The contents of a verdict are those of its report or of its error.
pub proof fn law_contents_of_a_verdict(note: String, e: Error)
    ensures
        verdict_text(Ok(note)) == Ok::<Seq<char>, Error<Seq<char>>>(note@),
        verdict_text(Err(e)) == Err::<Seq<char>, Error<Seq<char>>>(e@),
{
}

} // verus!
