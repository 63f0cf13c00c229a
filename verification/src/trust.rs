//! Whom to trust: the image that a build runs in, and the source that it
//! builds.

use vstd::prelude::*;
use vstd::string::StringExecFns;

use crate::error::Error;
use crate::print::{line, sanitize, sanitized, Print};
use crate::text::{
    is_space, law_trimming, lower, lowercase, opt_text, same_ignoring_case, starts_with, trim,
    trimmed,
};

verus! {

/// What is to be trusted.
#[derive(Debug, Clone, Copy, PartialEq, Eq, Structural)]
pub enum TrustKind {
    /// The image that the build runs in.
    Bldimg,
    /// The archive that holds the source.
    SourceArchive,
}

impl TrustKind {
    /// The name of the kind, as it stands in messages.
    pub open spec fn label_text(self) -> Seq<char> {
        match self {
            TrustKind::Bldimg => "build image"@,
            TrustKind::SourceArchive => "source archive"@,
        }
    }

    /// The name of the kind, as it stands in messages.
    pub fn label(self) -> (s: &'static str)
        ensures
            s@ == self.label_text(),
    {
        match self {
            TrustKind::Bldimg => "build image",
            TrustKind::SourceArchive => "source archive",
        }
    }
}

/// Whether a value is trusted without asking: only the image of the Stellar
/// CLI is, pinned to a digest. No source archive is.
pub open spec fn default_trusted(kind: TrustKind, value: Seq<char>) -> bool {
    kind == TrustKind::Bldimg && "docker.io/stellar/stellar-cli@sha256:"@.is_prefix_of(value)
}

/// The question whether to trust a value.
pub open spec fn trust_question(kind: TrustKind, value: Seq<char>) -> Seq<char> {
    line("❓"@, "Trust the "@ + kind.label_text() + " "@ + sanitized(value) + "? [y/N] "@)
}

/// Whether an answer grants trust: `y` or `yes`, in any case.
pub open spec fn grants(answer: Seq<char>) -> bool {
    lowercase(trimmed(answer)) == lowercase("y"@) || lowercase(trimmed(answer)) == lowercase(
        "yes"@,
    )
}

/// How a demand for trust is met: at once (no question), by a question, or not
/// at all.
pub open spec fn trust_demand(
    trust: bool,
    kind: TrustKind,
    value: Seq<char>,
    interactive: bool,
) -> Result<Option<Seq<char>>, Error<Seq<char>>> {
    if trust || default_trusted(kind, value) {
        Ok(None)
    } else if interactive {
        Ok(Some(trust_question(kind, value)))
    } else {
        Err(Error::TrustRequired { kind, value })
    }
}

/// Demands trust in a value. Nothing is asked where the user has said so with
/// `--trust` or the value is trusted by default; otherwise the result is the
/// question to ask or, where nobody can be asked, the error.
pub fn require_trust(trust: bool, kind: TrustKind, value: &str, interactive: bool) -> (r: Result<
    Option<String>,
    Error,
>)
    ensures
        match trust_demand(trust, kind, value@, interactive) {
            Ok(question) => r matches Ok(q) && opt_text(q) == question,
            Err(e) => r matches Err(f) && f@ == e,
        },
{
    if trust {
        return Ok(None);
    }
    if let TrustKind::Bldimg = kind {
        if starts_with(value, "docker.io/stellar/stellar-cli@sha256:") {
            return Ok(None);
        }
    }
    if interactive {
        let mut message: String = "Trust the ".to_string();
        message.append(kind.label());
        message.append(" ");
        message.append(sanitize(value).as_str());
        message.append("? [y/N] ");
        Ok(Print::new(false).question(message.as_str()))
    } else {
        Err(Error::TrustRequired { kind, value: value.to_string() })
    }
}

/// Takes the user's answer to the question whether to trust a value.
pub fn settle_trust(kind: TrustKind, answer: &str) -> (r: Result<(), Error>)
    ensures
        if grants(answer@) {
            r is Ok
        } else {
            r matches Err(e) && e@ == Error::<Seq<char>>::TrustDeclined { kind }
        },
{
    let answer: String = trim(answer);
    if same_ignoring_case(answer.as_str(), "y") || same_ignoring_case(answer.as_str(), "yes") {
        Ok(())
    } else {
        Err(Error::TrustDeclined { kind })
    }
}

/// No source archive is trusted by default, and of the images only that of the
/// Stellar CLI, pinned to a digest.
pub proof fn law_what_is_trusted_by_default(value: Seq<char>)
    ensures
        !default_trusted(TrustKind::SourceArchive, value),
        default_trusted(TrustKind::Bldimg, value) ==> value.take(
            "docker.io/stellar/stellar-cli@sha256:"@.len() as int,
        ) == "docker.io/stellar/stellar-cli@sha256:"@,
{
}

/// What is not trusted by default needs `--trust` or the user's word: without
/// `--trust` there is a question where the user can be asked, and an error that
/// names the value where not. With `--trust` nothing is asked.
pub proof fn law_untrusted_value_needs_the_users_word(kind: TrustKind, value: Seq<char>)
    ensures
        forall|interactive: bool| #[trigger]
            trust_demand(true, kind, value, interactive) == Ok::<
                Option<Seq<char>>,
                Error<Seq<char>>,
            >(None),
        !default_trusted(kind, value) ==> trust_demand(false, kind, value, true) == Ok::<
            Option<Seq<char>>,
            Error<Seq<char>>,
        >(Some(trust_question(kind, value))),
        !default_trusted(kind, value) ==> trust_demand(false, kind, value, false) == Err::<
            Option<Seq<char>>,
            Error<Seq<char>>,
        >(Error::TrustRequired { kind, value }),
{
}

/// An image is trusted by default if and only if its reference is that of the
/// Stellar CLI's image and a digest, whatever the digest is. No source archive is.
pub proof fn law_cli_image_is_trusted(kind: TrustKind, value: Seq<char>, digest: Seq<char>)
    ensures
        default_trusted(TrustKind::Bldimg, "docker.io/stellar/stellar-cli@sha256:"@ + digest),
        default_trusted(kind, value) <==> kind == TrustKind::Bldimg && exists|rest: Seq<char>|
            value == #[trigger] ("docker.io/stellar/stellar-cli@sha256:"@ + rest),
{
    let start = "docker.io/stellar/stellar-cli@sha256:"@;
    let n = start.len() as int;
    assert((start + digest).take(n) =~= start);
    assert(start.is_prefix_of(start + digest));
    if default_trusted(kind, value) {
        assert(value =~= start + value.skip(n));
    }
    if exists|rest: Seq<char>| value == #[trigger] (start + rest) {
        assert(value.take(n) =~= start);
        assert(start.is_prefix_of(value));
    }
}

/// The question names the kind of what is to be trusted, and the value without its
/// control characters.
pub proof fn law_trust_question(value: Seq<char>)
    ensures
        trust_question(TrustKind::Bldimg, value) == "❓ Trust the build image "@ + sanitized(value)
            + "? [y/N] "@,
        trust_question(TrustKind::SourceArchive, value) == "❓ Trust the source archive "@
            + sanitized(value) + "? [y/N] "@,
{
    reveal_strlit("❓");
    reveal_strlit(" ");
    reveal_strlit("Trust the ");
    reveal_strlit("build image");
    reveal_strlit("source archive");
    reveal_strlit("❓ Trust the build image ");
    reveal_strlit("❓ Trust the source archive ");
    assert(trust_question(TrustKind::Bldimg, value) =~= "❓ Trust the build image "@ + sanitized(
        value,
    ) + "? [y/N] "@);
    assert(trust_question(TrustKind::SourceArchive, value) =~= "❓ Trust the source archive "@
        + sanitized(value) + "? [y/N] "@);
}

/// An answer grants trust if and only if, but for the white space around it, it is
/// the letter `y` or the three letters of `yes`, each of them small or a capital.
pub proof fn law_what_grants_trust(before: Seq<char>, word: Seq<char>, after: Seq<char>)
    requires
        forall|i: int| 0 <= i < before.len() ==> is_space(#[trigger] before[i]),
        forall|i: int| 0 <= i < after.len() ==> is_space(#[trigger] after[i]),
        word.len() > 0 ==> !is_space(word[0]) && !is_space(word[word.len() - 1]),
    ensures
        grants(before + word + after) <==> {
            ||| word.len() == 1 && (word[0] == 'y' || word[0] == 'Y')
            ||| {
                &&& word.len() == 3
                &&& word[0] == 'y' || word[0] == 'Y'
                &&& word[1] == 'e' || word[1] == 'E'
                &&& word[2] == 's' || word[2] == 'S'
            }
        },
{
    law_trimming(before, word, after);
    reveal_strlit("y");
    reveal_strlit("yes");
    let small = lowercase(word);
    let y = lowercase("y"@);
    let yes = lowercase("yes"@);
    assert(y.len() == 1 && y[0] == 'y');
    assert(yes.len() == 3 && yes[0] == 'y' && yes[1] == 'e' && yes[2] == 's');
    assert(small.len() == word.len());
    if word.len() == 1 {
        assert(small[0] == lower(word[0]));
        assert(small == y <==> small =~= y);
    }
    if word.len() == 3 {
        assert(small[0] == lower(word[0]));
        assert(small[1] == lower(word[1]));
        assert(small[2] == lower(word[2]));
        assert(small == yes <==> small =~= yes);
    }
}

/// The names of the kinds, as they stand in messages.
pub proof fn law_labels()
    ensures
        TrustKind::Bldimg.label_text() == "build image"@,
        TrustKind::SourceArchive.label_text() == "source archive"@,
{
}

} // verus!
