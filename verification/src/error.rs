//! What can make a verification fail.

use vstd::prelude::*;

use crate::trust::TrustKind;

verus! {

/// Why a verification failed. `Text` is `String` at run time; in contracts it
/// is the sequence of characters that the string holds.
#[verifier::ext_equal]
#[derive(Debug)]
pub enum Error<Text = String> {
    /// None of `--wasm`, `--id` and `--wasm-hash` was given.
    MissingInput,
    /// The `stellar` program could not be run.
    StellarInvoke(Text),
    /// `stellar contract fetch` failed.
    FetchFailed { stderr: Text },
    /// The local WASM file, and why it could not be read.
    ReadWasm(Text, Text),
    /// The WASM, or its metadata, is malformed.
    MetaParse(Text),
    /// The WASM records no metadata.
    NoMeta,
    /// The metadata has no `bldimg` entry.
    MissingBldimg,
    /// The metadata has more than one entry for a field that must be unique.
    DuplicateMeta { field: &'static str },
    /// The metadata has no `source_sha256` entry.
    MissingSourceSha256,
    /// The value of a field does not have the field's format.
    MetaFormat { field: &'static str, value: Text, regex: &'static str },
    /// The value is not trusted, and nobody can be asked.
    TrustRequired { kind: TrustKind, value: Text },
    /// The user did not confirm the value.
    TrustDeclined { kind: TrustKind },
    /// The user's answer could not be read.
    Stdin(Text),
    /// The name of the source archive has none of the accepted extensions.
    UnsupportedSourceFormat { uri: Text, formats: Text },
    /// Neither the metadata nor the user says where the source is.
    SourceUriRequired,
    /// The source archive could not be downloaded.
    SourceDownload { url: Text, source: Text },
    /// The local source archive could not be read.
    SourceRead { path: Text, source: Text },
    /// The source archive is not the recorded one.
    SourceHashMismatch { expected: Text, actual: Text },
    /// The unpacked source could not be listed.
    SourceExtract { path: Text, source: Text },
    /// The source archive does not hold exactly one top-level directory.
    SourceArchiveLayout { path: Text, count: usize },
    /// The source archive could not be unpacked.
    ArchiveExtract(Text),
    /// The zip archive of the source could not be unpacked.
    ZipExtract(Text),
    /// The data directory of the `stellar` program is unknown.
    DataDir,
    /// The container engine could not be run.
    EngineInvoke { program: Text, source: Text },
    /// The build image could not be pulled.
    PullFailed { image: Text },
    /// The build in the container failed.
    ContainerExit { status: i64, command: Text },
    /// The build left no WASM behind.
    NoRebuiltWasm { target: Text },
    /// The build left more than one WASM behind.
    AmbiguousRebuiltWasm { target: Text, found: Text },
    /// The rebuilt WASM could not be read.
    ReadRebuilt { path: Text, source: Text },
    /// The rebuilt WASM is not the original.
    VerificationMismatch {
        original_hash: Text,
        original_size: usize,
        rebuilt_hash: Text,
        rebuilt_size: usize,
    },
}

impl View for Error {
    type V = Error<Seq<char>>;

    open spec fn view(&self) -> Error<Seq<char>> {
        match *self {
            Error::MissingInput => Error::MissingInput,
            Error::StellarInvoke(source) => Error::StellarInvoke(source@),
            Error::FetchFailed { stderr } => Error::FetchFailed { stderr: stderr@ },
            Error::ReadWasm(path, source) => Error::ReadWasm(path@, source@),
            Error::MetaParse(reason) => Error::MetaParse(reason@),
            Error::NoMeta => Error::NoMeta,
            Error::MissingBldimg => Error::MissingBldimg,
            Error::DuplicateMeta { field } => Error::DuplicateMeta { field },
            Error::MissingSourceSha256 => Error::MissingSourceSha256,
            Error::MetaFormat { field, value, regex } => Error::MetaFormat {
                field,
                value: value@,
                regex,
            },
            Error::TrustRequired { kind, value } => Error::TrustRequired { kind, value: value@ },
            Error::TrustDeclined { kind } => Error::TrustDeclined { kind },
            Error::Stdin(source) => Error::Stdin(source@),
            Error::UnsupportedSourceFormat { uri, formats } => Error::UnsupportedSourceFormat {
                uri: uri@,
                formats: formats@,
            },
            Error::SourceUriRequired => Error::SourceUriRequired,
            Error::SourceDownload { url, source } => Error::SourceDownload {
                url: url@,
                source: source@,
            },
            Error::SourceRead { path, source } => Error::SourceRead {
                path: path@,
                source: source@,
            },
            Error::SourceHashMismatch { expected, actual } => Error::SourceHashMismatch {
                expected: expected@,
                actual: actual@,
            },
            Error::SourceExtract { path, source } => Error::SourceExtract {
                path: path@,
                source: source@,
            },
            Error::SourceArchiveLayout { path, count } => Error::SourceArchiveLayout {
                path: path@,
                count,
            },
            Error::ArchiveExtract(source) => Error::ArchiveExtract(source@),
            Error::ZipExtract(source) => Error::ZipExtract(source@),
            Error::DataDir => Error::DataDir,
            Error::EngineInvoke { program, source } => Error::EngineInvoke {
                program: program@,
                source: source@,
            },
            Error::PullFailed { image } => Error::PullFailed { image: image@ },
            Error::ContainerExit { status, command } => Error::ContainerExit {
                status,
                command: command@,
            },
            Error::NoRebuiltWasm { target } => Error::NoRebuiltWasm { target: target@ },
            Error::AmbiguousRebuiltWasm { target, found } => Error::AmbiguousRebuiltWasm {
                target: target@,
                found: found@,
            },
            Error::ReadRebuilt { path, source } => Error::ReadRebuilt {
                path: path@,
                source: source@,
            },
            Error::VerificationMismatch {
                original_hash,
                original_size,
                rebuilt_hash,
                rebuilt_size,
            } => Error::VerificationMismatch {
                original_hash: original_hash@,
                original_size,
                rebuilt_hash: rebuilt_hash@,
                rebuilt_size,
            },
        }
    }
}

/// The contents of an error are those of its texts, each in its place, and its
/// numbers and names.
pub proof fn law_contents_of_an_error(e: Error)
    ensures
        ({
            match e {
                Error::MissingInput => e@ is MissingInput,
                Error::StellarInvoke(source) => e@ == Error::StellarInvoke(source@),
                Error::FetchFailed { stderr } => e@ == (Error::FetchFailed { stderr: stderr@ }),
                Error::ReadWasm(path, source) => e@ == Error::ReadWasm(path@, source@),
                Error::MetaParse(reason) => e@ == Error::MetaParse(reason@),
                Error::NoMeta => e@ is NoMeta,
                Error::MissingBldimg => e@ is MissingBldimg,
                Error::DuplicateMeta { field } => e@ is DuplicateMeta && e@->DuplicateMeta_field
                    == field,
                Error::MissingSourceSha256 => e@ is MissingSourceSha256,
                Error::MetaFormat { field, value, regex } => e@ == (Error::MetaFormat {
                    field,
                    value: value@,
                    regex,
                }),
                Error::TrustRequired { kind, value } => e@ == (Error::TrustRequired {
                    kind,
                    value: value@,
                }),
                Error::TrustDeclined { kind } => e@ is TrustDeclined && e@->TrustDeclined_kind
                    == kind,
                Error::Stdin(source) => e@ == Error::Stdin(source@),
                Error::UnsupportedSourceFormat { uri, formats } => e@ == (
                Error::UnsupportedSourceFormat { uri: uri@, formats: formats@ }),
                Error::SourceUriRequired => e@ is SourceUriRequired,
                Error::SourceDownload { url, source } => e@ == (Error::SourceDownload {
                    url: url@,
                    source: source@,
                }),
                Error::SourceRead { path, source } => e@ == (Error::SourceRead {
                    path: path@,
                    source: source@,
                }),
                Error::SourceHashMismatch { expected, actual } => e@ == (
                Error::SourceHashMismatch { expected: expected@, actual: actual@ }),
                Error::SourceExtract { path, source } => e@ == (Error::SourceExtract {
                    path: path@,
                    source: source@,
                }),
                Error::SourceArchiveLayout { path, count } => e@ == (
                Error::SourceArchiveLayout { path: path@, count }),
                Error::ArchiveExtract(source) => e@ == Error::ArchiveExtract(source@),
                Error::ZipExtract(source) => e@ == Error::ZipExtract(source@),
                Error::DataDir => e@ is DataDir,
                Error::EngineInvoke { program, source } => e@ == (Error::EngineInvoke {
                    program: program@,
                    source: source@,
                }),
                Error::PullFailed { image } => e@ == (Error::PullFailed { image: image@ }),
                Error::ContainerExit { status, command } => e@ == (Error::ContainerExit {
                    status,
                    command: command@,
                }),
                Error::NoRebuiltWasm { target } => e@ == (Error::NoRebuiltWasm {
                    target: target@,
                }),
                Error::AmbiguousRebuiltWasm { target, found } => e@ == (
                Error::AmbiguousRebuiltWasm { target: target@, found: found@ }),
                Error::ReadRebuilt { path, source } => e@ == (Error::ReadRebuilt {
                    path: path@,
                    source: source@,
                }),
                Error::VerificationMismatch {
                    original_hash,
                    original_size,
                    rebuilt_hash,
                    rebuilt_size,
                } => e@ == (Error::VerificationMismatch {
                    original_hash: original_hash@,
                    original_size,
                    rebuilt_hash: rebuilt_hash@,
                    rebuilt_size,
                }),
            }
        }),
{
}

} // verus!
