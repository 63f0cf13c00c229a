//! The archive that holds a contract's source: its format, where it comes
//! from, whether it is the recorded one, and what it unpacks to.

use vstd::prelude::*;

use crate::digest::{hex_digest, law_hex_length, sha256, sha256_text};
use crate::engine::TextOutput;
use crate::error::Error;
use crate::meta::{is_sha256_hex, ExtractedMetadata, Metadata};
use crate::path::{file_name, find_file_name};
use crate::text::{
    ends_with, join, joined, lemma_lowercase_twice, lowercase, same_ignoring_case, starts_with,
    texts, to_lowercase, trim, trimmed,
};

verus! {

/// How the name of the directory starts that the source is unpacked into. A random
/// part follows, and the build's container has the whole name at the end of its
/// own.
pub const SOURCE_TEMPDIR_PREFIX: &'static str = "verify-src-";

/// The formats of a source archive.
#[derive(Debug, Clone, Copy, PartialEq, Eq, Structural)]
pub enum ArchiveFormat {
    /// A gzipped tarball.
    TarGz,
    /// A zip archive.
    Zip,
}

/// The format that a file's name tells by its extension, in any case.
pub open spec fn format_named(filename: Seq<char>) -> Option<ArchiveFormat> {
    let name = lowercase(filename);
    if ".tar.gz"@.is_suffix_of(name) || ".tgz"@.is_suffix_of(name) {
        Some(ArchiveFormat::TarGz)
    } else if ".zip"@.is_suffix_of(name) {
        Some(ArchiveFormat::Zip)
    } else {
        None
    }
}

/// The extensions of the formats, as one text.
pub open spec fn extensions_text() -> Seq<char> {
    joined(seq![".tar.gz"@, ".tgz"@, ".zip"@], ", "@)
}

impl ArchiveFormat {
    /// The format that a file's name tells by its extension, if it tells one.
    pub fn from_filename(filename: &str) -> (r: Option<ArchiveFormat>)
        ensures
            r == format_named(filename@),
    {
        let name: Vec<char> = to_lowercase(filename);
        if ends_with(&name, ".tar.gz") || ends_with(&name, ".tgz") {
            Some(ArchiveFormat::TarGz)
        } else if ends_with(&name, ".zip") {
            Some(ArchiveFormat::Zip)
        } else {
            None
        }
    }

    /// The extensions of the formats, for messages.
    pub fn recognized_extensions() -> (s: String)
        ensures
            s@ == extensions_text(),
    {
        let mut list: Vec<String> = Vec::new();
        list.push(".tar.gz".to_string());
        list.push(".tgz".to_string());
        list.push(".zip".to_string());
        assert(texts(list@) =~= seq![".tar.gz"@, ".tgz"@, ".zip"@]);
        join(&list, ", ")
    }
}

/// The data directory of the `stellar` program, under which the source is
/// unpacked. `output` is what `stellar cache path` left behind, or why it
/// could not be run.
pub fn data_local_dir(output: Result<TextOutput, String>) -> (r: Result<String, Error>)
    ensures
        match output {
            Ok(o) => if o.success && trimmed(o.stdout@).len() > 0 {
                r matches Ok(path) && path@ == trimmed(o.stdout@)
            } else {
                r matches Err(e) && e@ == Error::<Seq<char>>::DataDir
            },
            Err(source) => r matches Err(e) && e@ == Error::StellarInvoke(source@),
        },
{
    match output {
        Ok(output) => {
            if !output.success {
                return Err(Error::DataDir);
            }
            let path: String = trim(output.stdout.as_str());
            if path.as_str().is_empty() {
                return Err(Error::DataDir);
            }
            Ok(path)
        },
        Err(source) => Err(Error::StellarInvoke(source)),
    }
}

/// The source to retrieve: the one that the user gives or else the recorded
/// one.
pub open spec fn effective_source(
    given: Option<Seq<char>>,
    recorded: Option<Seq<char>>,
) -> Option<Seq<char>> {
    if given is Some {
        given
    } else {
        recorded
    }
}

/// The segments of the path of a URL. `None` where the text is no URL, and
/// `Some(None)` where the URL's path has no segments.
pub uninterp spec fn url_segments(source: Seq<char>) -> Option<Option<Seq<Seq<char>>>>;

/// A text without the characters that separate the parts of a URL's path and
/// end it.
pub open spec fn is_segment(s: Seq<char>) -> bool {
    forall|i: int| 0 <= i < s.len() ==> #[trigger] s[i] != '/' && s[i] != '?' && s[i] != '#'
}

/// The contents of the segments of the path of a URL.
pub open spec fn segments(r: Option<Option<Vec<String>>>) -> Option<Option<Seq<Seq<char>>>> {
    match r {
        Some(Some(list)) => Some(Some(texts(list@))),
        Some(None) => Some(None),
        None => None,
    }
}

/// Trusted: `url::Url::parse` tells whether a text is a URL, and
/// `Url::path_segments` gives the segments of its path, the same for the same
/// text. A text without a colon has no scheme and is no URL. A path that has
/// segments has at least one, and no segment holds a slash or reaches into the
/// query or the fragment: see `parse_scheme` and `parse_path` in its parser.
#[verifier::external_body]
fn parse_url(source: &str) -> (r: Option<Option<Vec<String>>>)
    ensures
        segments(r) == url_segments(source@),
        !source@.contains(':') ==> r is None,
        r matches Some(Some(list)) ==> list@.len() > 0 && forall|i: int|
            0 <= i < list@.len() ==> is_segment(#[trigger] list@[i]@),
{
    url::Url::parse(source)
        .ok()
        .map(|url| url.path_segments().map(|list| list.map(String::from).collect()))
}

/// The last segment of a source that is a URL with these segments, or the file
/// name of a source that is a path.
pub open spec fn basename(
    source: Seq<char>,
    url: Option<Option<Seq<Seq<char>>>>,
) -> Seq<char> {
    match url {
        Some(Some(list)) => if list.len() > 0 {
            list.last()
        } else {
            Seq::empty()
        },
        Some(None) => Seq::empty(),
        None => match file_name(source) {
            Some(name) => name,
            None => Seq::empty(),
        },
    }
}

/// The last segment of a source that is a URL with these segments, or the file
/// name of a source that is a path.
pub fn basename_of(source: &str, url: Option<Option<Vec<String>>>) -> (out: String)
    ensures
        out@ == basename(source@, segments(url)),
{
    match url {
        Some(Some(list)) => {
            let n: usize = list.len();
            if n > 0 {
                assert(texts(list@).last() == list@[n - 1]@);
                list[n - 1].clone()
            } else {
                String::new()
            }
        },
        Some(None) => String::new(),
        None => match find_file_name(source) {
            Some(name) => name,
            None => String::new(),
        },
    }
}

/// The last path segment of a source, be it a URL or a path. The query and the
/// fragment of a URL do not belong to its path.
pub fn source_basename(source: &str) -> (out: String)
    ensures
        out@ == basename(source@, url_segments(source@)),
        !source@.contains(':') ==> out@ == basename(source@, None),
        url_segments(source@) is Some ==> is_segment(out@),
{
    let url: Option<Option<Vec<String>>> = parse_url(source);
    proof {
        if url is Some && url->0 is Some {
            let list = url->0->0;
            assert(texts(list@).last() == list@[list@.len() - 1]@);
        }
    }
    basename_of(source, url)
}

/// The format of a source with this basename, or the error that it has none.
pub open spec fn source_format(source: Seq<char>, name: Seq<char>) -> Result<
    ArchiveFormat,
    Error<Seq<char>>,
> {
    match format_named(name) {
        Some(format) => Ok(format),
        None => Err(Error::UnsupportedSourceFormat { uri: source, formats: extensions_text() }),
    }
}

/// The contents of a result of finding out a source's format.
pub open spec fn format_outcome(r: Result<ArchiveFormat, Error>) -> Result<
    ArchiveFormat,
    Error<Seq<char>>,
> {
    match r {
        Ok(format) => Ok(format),
        Err(e) => Err(e@),
    }
}

/// The format of a source with this basename, or the error that it has none.
pub fn format_of(source: &str, name: &str) -> (r: Result<ArchiveFormat, Error>)
    ensures
        format_outcome(r) == source_format(source@, name@),
{
    match ArchiveFormat::from_filename(name) {
        Some(format) => Ok(format),
        None => Err(
            Error::UnsupportedSourceFormat {
                uri: source.to_string(),
                formats: ArchiveFormat::recognized_extensions(),
            },
        ),
    }
}

/// The format of a source, which its basename tells; an error where that has
/// none of the accepted extensions.
pub fn resolve_source_format(source: &str) -> (r: Result<ArchiveFormat, Error>)
    ensures
        format_outcome(r) == source_format(source@, basename(source@, url_segments(source@))),
        !source@.contains(':') ==> format_outcome(r) == source_format(
            source@,
            basename(source@, None),
        ),
{
    let name: String = source_basename(source);
    format_of(source, name.as_str())
}

/// Whether a source is downloaded, rather than read from a file.
pub open spec fn is_remote(source: Seq<char>) -> bool {
    "http://"@.is_prefix_of(source) || "https://"@.is_prefix_of(source)
}

/// The bytes of a source archive. `bytes` is what the download (of a source
/// that starts with `http://` or `https://`) or the file (any other) yielded,
/// or why it yielded nothing.
pub fn fetch_source_bytes(source: &str, bytes: Result<Vec<u8>, String>) -> (r: Result<
    Vec<u8>,
    Error,
>)
    ensures
        match bytes {
            Ok(b) => r == Ok::<Vec<u8>, Error>(b),
            Err(reason) => r matches Err(e) && e@ == if is_remote(source@) {
                Error::SourceDownload { url: source@, source: reason@ }
            } else {
                Error::SourceRead { path: source@, source: reason@ }
            },
        },
{
    match bytes {
        Ok(bytes) => Ok(bytes),
        Err(reason) => {
            if remote(source) {
                Err(Error::SourceDownload { url: source.to_string(), source: reason })
            } else {
                Err(Error::SourceRead { path: source.to_string(), source: reason })
            }
        },
    }
}

/// Whether a source is downloaded, rather than read from a file.
pub fn remote(source: &str) -> (r: bool)
    ensures
        r == is_remote(source@),
{
    starts_with(source, "http://") || starts_with(source, "https://")
}

/// Whether a digest in hexadecimal digits is that of the bytes. The case of the
/// digits does not count.
pub open spec fn digest_matches(bytes: Seq<u8>, expected: Seq<char>) -> bool {
    lowercase(sha256_text(bytes)) == lowercase(expected)
}

/// Holds the digest of the source archive against the recorded one. The case
/// of the digits does not count.
pub fn check_digest(actual: String, expected: &str) -> (r: Result<(), Error>)
    ensures
        if lowercase(actual@) == lowercase(expected@) {
            r is Ok
        } else {
            r matches Err(e) && e@ == (Error::SourceHashMismatch {
                expected: expected@,
                actual: actual@,
            })
        },
{
    if same_ignoring_case(actual.as_str(), expected) {
        Ok(())
    } else {
        Err(Error::SourceHashMismatch { expected: expected.to_string(), actual })
    }
}

/// Checks that the source archive is the recorded one: its SHA-256 digest is
/// the expected one, whatever the case of the digits.
pub fn verify_source_sha256(bytes: &[u8], expected: &str) -> (r: Result<(), Error>)
    ensures
        if digest_matches(bytes@, expected@) {
            r is Ok
        } else {
            r matches Err(e) && e@ == (Error::SourceHashMismatch {
                expected: expected@,
                actual: sha256_text(bytes@),
            })
        },
{
    check_digest(hex_digest(bytes), expected)
}

/// The source to retrieve, and its format.
pub struct SourcePlan {
    pub source: String,
    pub format: ArchiveFormat,
}

/// The source to retrieve and its format, or why it cannot be retrieved.
pub open spec fn source_plan(given: Option<Seq<char>>, meta: Metadata) -> Result<
    (Seq<char>, ArchiveFormat),
    Error<Seq<char>>,
> {
    match effective_source(given, meta.source_uri) {
        Some(source) => match source_format(source, basename(source, url_segments(source))) {
            Ok(format) => Ok((source, format)),
            Err(e) => Err(e),
        },
        None => Err(Error::SourceUriRequired),
    }
}

/// Decides which source to retrieve before anything is retrieved: the one that
/// the user gives or else the recorded one, if its format is accepted.
pub fn materialize_source(meta: &ExtractedMetadata, source_uri_override: Option<&str>) -> (r:
    Result<SourcePlan, Error>)
    ensures
        match source_plan(crate::net::opt_str(source_uri_override), meta@) {
            Ok((source, format)) => r matches Ok(plan) && plan.source@ == source && plan.format
                == format,
            Err(e) => r matches Err(f) && f@ == e,
        },
{
    let source: String = match source_uri_override {
        Some(source) => source.to_string(),
        None => match &meta.source_uri {
            Some(source) => source.clone(),
            None => {
                return Err(Error::SourceUriRequired);
            },
        },
    };
    match resolve_source_format(source.as_str()) {
        Ok(format) => Ok(SourcePlan { source, format }),
        Err(e) => Err(e),
    }
}

/// The directory that the source is built in: the only one at the top of the
/// unpacked archive. `dirs` lists the directories there, or says why they
/// could not be listed.
pub fn locate_extracted_source_root(workdir: &str, dirs: Result<Vec<String>, String>) -> (r: Result<
    String,
    Error,
>)
    ensures
        match dirs {
            Ok(list) => if list@.len() == 1 {
                r matches Ok(root) && root@ == list@[0]@
            } else {
                r matches Err(e) && e@ == (Error::SourceArchiveLayout {
                    path: workdir@,
                    count: list@.len() as usize,
                })
            },
            Err(reason) => r matches Err(e) && e@ == (Error::SourceExtract {
                path: workdir@,
                source: reason@,
            }),
        },
{
    match dirs {
        Ok(list) => {
            let count: usize = list.len();
            if count == 1 {
                Ok(list[0].clone())
            } else {
                Err(Error::SourceArchiveLayout { path: workdir.to_string(), count })
            }
        },
        Err(reason) => Err(Error::SourceExtract { path: workdir.to_string(), source: reason }),
    }
}

/// The case of a file's name does not count for its format.
pub proof fn law_format_ignores_case(filename: Seq<char>)
    ensures
        format_named(lowercase(filename)) == format_named(filename),
{
    lemma_lowercase_twice(filename);
}

/// The source that the user gives is the one that is retrieved, whatever the
/// WASM records; without one, it is the recorded one.
pub proof fn law_given_source_wins(given: Option<Seq<char>>, meta: Metadata)
    ensures
        given is Some ==> effective_source(given, meta.source_uri) == given,
        given is None ==> effective_source(given, meta.source_uri) == meta.source_uri,
        source_plan(given, meta) matches Ok((source, _)) ==> Some(source) == effective_source(
            given,
            meta.source_uri,
        ),
        given is None && meta.source_uri is None ==> source_plan(given, meta) == Err::<
            (Seq<char>, ArchiveFormat),
            Error<Seq<char>>,
        >(Error::SourceUriRequired),
{
}

/// A digest is accepted in capitals as well as in small letters.
pub proof fn law_digest_ignores_case(bytes: Seq<u8>, a: Seq<char>, b: Seq<char>)
    requires
        lowercase(a) == lowercase(b),
    ensures
        digest_matches(bytes, a) == digest_matches(bytes, b),
        digest_matches(bytes, sha256_text(bytes)),
{
}

/// A digest in the recorded format is accepted for the bytes that have it, and
/// for no others.
pub proof fn law_recorded_digest_is_exact(bytes: Seq<u8>, expected: Seq<char>)
    requires
        is_sha256_hex(expected),
    ensures
        digest_matches(bytes, expected) <==> sha256_text(bytes) == expected,
{
    law_hex_length(sha256(bytes));
    assert(lowercase(expected) =~= expected);
    assert(lowercase(sha256_text(bytes)) =~= sha256_text(bytes));
}

/// A name that ends with a recognized extension has its format, whatever stands
/// before the extension.
pub proof fn law_extension_tells_the_format(stem: Seq<char>)
    ensures
        format_named(stem + ".tar.gz"@) == Some(ArchiveFormat::TarGz),
        format_named(stem + ".tgz"@) == Some(ArchiveFormat::TarGz),
        format_named(stem + ".zip"@) == Some(ArchiveFormat::Zip),
{
    reveal_strlit(".tar.gz");
    reveal_strlit(".tgz");
    reveal_strlit(".zip");
    lemma_lowercase_ends(stem, ".tar.gz"@);
    lemma_lowercase_ends(stem, ".tgz"@);
    lemma_lowercase_ends(stem, ".zip"@);
    let name = lowercase(stem + ".zip"@);
    let n = name.len() as int;
    assert(name[n - 1] == 'p');
    if ".tar.gz"@.is_suffix_of(name) {
        assert(name.subrange(n - 7, n)[6] == 'z');
    }
    if ".tgz"@.is_suffix_of(name) {
        assert(name.subrange(n - 4, n)[3] == 'z');
    }
}

/// Lower case keeps the end of a name that is in lower case already.
proof fn lemma_lowercase_ends(stem: Seq<char>, end: Seq<char>)
    requires
        forall|i: int| 0 <= i < end.len() ==> !('A' <= #[trigger] end[i] <= 'Z'),
    ensures
        lowercase(stem + end) == lowercase(stem) + end,
        end.is_suffix_of(lowercase(stem + end)),
{
    let name = lowercase(stem + end);
    let n = name.len() as int;
    assert(name =~= lowercase(stem) + end);
    assert(name.subrange(n - end.len(), n) =~= end);
}

/// The format of a name goes by the end of its lower case: a gzipped tarball's ends
/// with `.tar.gz` or `.tgz`, a zip archive's with `.zip`, and a name whose lower
/// case ends with none of the three has no format.
pub proof fn law_format_goes_by_the_end(filename: Seq<char>)
    ensures
        format_named(filename) == Some(ArchiveFormat::TarGz) <==> exists|stem: Seq<char>|
            lowercase(filename) == #[trigger] (stem + ".tar.gz"@) || lowercase(filename) == stem
                + ".tgz"@,
        format_named(filename) == Some(ArchiveFormat::Zip) <==> exists|stem: Seq<char>|
            lowercase(filename) == #[trigger] (stem + ".zip"@),
        format_named(filename) is None <==> !".tar.gz"@.is_suffix_of(lowercase(filename))
            && !".tgz"@.is_suffix_of(lowercase(filename)) && !".zip"@.is_suffix_of(
            lowercase(filename),
        ),
{
    let name = lowercase(filename);
    lemma_lowercase_twice(filename);
    if ".tar.gz"@.is_suffix_of(name) {
        assert(name =~= name.take(name.len() - ".tar.gz"@.len()) + ".tar.gz"@);
    }
    if ".tgz"@.is_suffix_of(name) {
        let stem = name.take(name.len() - ".tgz"@.len());
        assert(name =~= stem + ".tgz"@);
        assert((stem + ".tar.gz"@).len() >= 0);
    }
    if ".zip"@.is_suffix_of(name) {
        assert(name =~= name.take(name.len() - ".zip"@.len()) + ".zip"@);
    }
    if exists|stem: Seq<char>|
        name == #[trigger] (stem + ".tar.gz"@) || name == stem + ".tgz"@ {
        let stem = choose|stem: Seq<char>|
            name == #[trigger] (stem + ".tar.gz"@) || name == stem + ".tgz"@;
        law_extension_tells_the_format(stem);
    }
    if exists|stem: Seq<char>| name == #[trigger] (stem + ".zip"@) {
        let stem = choose|stem: Seq<char>| name == #[trigger] (stem + ".zip"@);
        law_extension_tells_the_format(stem);
    }
}

/// A source without a recognized extension is refused with its own name and with
/// the list of the extensions; any other is accepted with its format.
pub proof fn law_refused_format(source: Seq<char>, name: Seq<char>, format: ArchiveFormat)
    ensures
        source_format(source, name) == Ok::<ArchiveFormat, Error<Seq<char>>>(format)
            <==> format_named(name) == Some(format),
        format_named(name) is None ==> source_format(source, name) == Err::<
            ArchiveFormat,
            Error<Seq<char>>,
        >(Error::UnsupportedSourceFormat { uri: source, formats: ".tar.gz, .tgz, .zip"@ }),
{
    reveal_strlit(".tar.gz");
    reveal_strlit(".tgz");
    reveal_strlit(".zip");
    reveal_strlit(", ");
    reveal_strlit(".tar.gz, .tgz, .zip");
    let list = seq![".tar.gz"@, ".tgz"@, ".zip"@];
    reveal_with_fuel(joined, 3);
    assert(list.drop_last() =~= seq![".tar.gz"@, ".tgz"@]);
    assert(list.drop_last().drop_last() =~= seq![".tar.gz"@]);
    assert(extensions_text() =~= ".tar.gz, .tgz, .zip"@);
}

/// A source is downloaded if and only if it starts with `http://` or `https://`,
/// whatever follows.
pub proof fn law_what_is_downloaded(source: Seq<char>, rest: Seq<char>)
    ensures
        is_remote("http://"@ + rest),
        is_remote("https://"@ + rest),
        is_remote(source) ==> exists|after: Seq<char>|
            source == #[trigger] ("http://"@ + after) || source == "https://"@ + after,
{
    assert(("http://"@ + rest).take("http://"@.len() as int) =~= "http://"@);
    assert("http://"@.is_prefix_of("http://"@ + rest));
    assert(("https://"@ + rest).take("https://"@.len() as int) =~= "https://"@);
    assert("https://"@.is_prefix_of("https://"@ + rest));
    if "http://"@.is_prefix_of(source) {
        assert(source =~= "http://"@ + source.skip("http://"@.len() as int));
    } else if "https://"@.is_prefix_of(source) {
        let after = source.skip("https://"@.len() as int);
        assert(source =~= "https://"@ + after);
        assert(("http://"@ + after).len() >= 0);
    }
}

/// The basename of a URL is the last segment of its path, and that of a file the
/// last component of its path; where there is none, it is empty.
pub proof fn law_basename(source: Seq<char>, list: Seq<Seq<char>>, name: Seq<char>)
    ensures
        basename(source, Some(Some(list + seq![name]))) == name,
        basename(source, Some(Some(Seq::empty()))) == Seq::<char>::empty(),
        basename(source, Some(None)) == Seq::<char>::empty(),
        file_name(source) == Some(name) ==> basename(source, None) == name,
        file_name(source) is None ==> basename(source, None) == Seq::<char>::empty(),
{
}

/// The source to retrieve is the one that the user gives, and the recorded one only
/// where none is given; its format is the one that its basename tells.
pub proof fn law_source_to_retrieve(given: Seq<char>, meta: Metadata)
    ensures
        source_plan(Some(given), meta) == match source_format(
            given,
            basename(given, url_segments(given)),
        ) {
            Ok(format) => Ok::<(Seq<char>, ArchiveFormat), Error<Seq<char>>>((given, format)),
            Err(e) => Err(e),
        },
        meta.source_uri is Some ==> source_plan(None, meta) == source_plan(meta.source_uri, meta),
        meta.source_uri is None ==> source_plan(None, meta) == Err::<
            (Seq<char>, ArchiveFormat),
            Error<Seq<char>>,
        >(Error::SourceUriRequired),
{
}

/// A digest is that of the bytes if and only if its lower case is the bytes' digest
/// in hexadecimal digits.
pub proof fn law_which_digest_matches(bytes: Seq<u8>, expected: Seq<char>)
    ensures
        digest_matches(bytes, expected) <==> lowercase(expected) == sha256_text(bytes),
{
    law_hex_length(sha256(bytes));
    assert(lowercase(sha256_text(bytes)) =~= sha256_text(bytes));
}

/// The contents of the segments of a URL and of a format's outcome are those of each
/// part.
pub proof fn law_contents_of_a_format(list: Vec<String>, format: ArchiveFormat, e: Error)
    ensures
        segments(Some(Some(list))) == Some(Some(texts(list@))),
        segments(Some(None)) == Some(None::<Seq<Seq<char>>>),
        segments(None) is None,
        format_outcome(Ok(format)) == Ok::<ArchiveFormat, Error<Seq<char>>>(format),
        format_outcome(Err(e)) == Err::<ArchiveFormat, Error<Seq<char>>>(e@),
{
}

} // verus!
