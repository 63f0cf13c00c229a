//! The build metadata that a contract's WASM records.
//!
//! The WASM holds its metadata in `contractmetav0` custom sections. The
//! compiler and the SDK write one section; the CLI appends another that starts
//! with its own version, `cliver`, and holds what drives a rebuild. Only the
//! CLI's section is read, and its entries are kept in their order, so that a
//! rebuild can record them again.

use vstd::prelude::*;

use crate::encoding::{
    are_custom, custom_module, holds_metadata, is_module_with, is_printable_section, metadata_of,
    xdr_section, xdr_sections, Custom,
};
use crate::error::Error;
use crate::seqs::{
    lemma_filter_contains, lemma_filter_one, lemma_filter_order, lemma_filter_step,
};
use crate::text::{
    is_alpha, is_alphanumeric, is_lower_hex, is_space, opt_text, same, texts,
};

verus! {

/// The format of `bldimg`: a registry host, a path and a `sha256` digest.
pub const BLDIMG_REGEX_STR: &'static str =
    r"^(?:localhost(?::\d+)?|[^\s@/]*[.:][^\s@/]*)/[^\s@]+@sha256:[0-9a-f]{64}$";

/// The format of `source_uri`: a scheme, a colon and no white space.
pub const SOURCE_URL_REGEX_STR: &'static str = r"^[a-zA-Z][a-zA-Z0-9+.-]*:\S+$";

/// The format of `source_sha256`.
pub const SOURCE_SHA256_REGEX_STR: &'static str = r"^[0-9a-f]{64}$";

/// The pattern that a `bldimg` value matches.
pub fn bldimg_regex() -> (pattern: &'static str)
    ensures
        pattern == BLDIMG_REGEX_STR,
{
    BLDIMG_REGEX_STR
}

/// The pattern that a `source_sha256` value matches.
pub fn source_sha256_regex() -> (pattern: &'static str)
    ensures
        pattern == SOURCE_SHA256_REGEX_STR,
{
    SOURCE_SHA256_REGEX_STR
}

/// The pattern that a `source_uri` value matches.
pub fn source_uri_regex() -> (pattern: &'static str)
    ensures
        pattern == SOURCE_URL_REGEX_STR,
{
    SOURCE_URL_REGEX_STR
}

/// A registry host: `localhost`, or a name with a dot or a port.
pub open spec fn is_registry_host(host: Seq<char>) -> bool {
    ||| host == "localhost"@
    ||| {
        &&& forall|j: int|
            0 <= j < host.len() ==> !is_space(#[trigger] host[j]) && host[j] != '@' && host[j]
                != '/'
        &&& exists|j: int| 0 <= j < host.len() && (#[trigger] host[j] == '.' || host[j] == ':')
    }
}

/// An image reference that is pinned to a digest:
/// `host/path@sha256:` and 64 lower-case hexadecimal digits.
pub open spec fn is_pinned_image(s: Seq<char>) -> bool {
    let at = s.len() - 72;
    &&& at >= 0
    &&& s.subrange(at, at + 8) == "@sha256:"@
    &&& forall|j: int| at + 8 <= j < s.len() ==> is_lower_hex(#[trigger] s[j])
    &&& exists|slash: int|
        {
            &&& 0 <= slash < at - 1
            &&& #[trigger] s[slash] == '/'
            &&& is_registry_host(s.take(slash))
            &&& forall|j: int| slash < j < at ==> !is_space(#[trigger] s[j]) && s[j] != '@'
        }
}

/// A URI: a letter, then letters, digits, `+`, `.` and `-`, a colon, and at
/// least one more character, none of them white space.
pub open spec fn is_uri(s: Seq<char>) -> bool {
    exists|colon: int|
        {
            &&& 1 <= colon < s.len() - 1
            &&& #[trigger] s[colon] == ':'
            &&& is_alpha(s[0])
            &&& forall|j: int|
                1 <= j < colon ==> is_alphanumeric(#[trigger] s[j]) || s[j] == '+' || s[j] == '.'
                    || s[j] == '-'
            &&& forall|j: int| colon < j < s.len() ==> !is_space(#[trigger] s[j])
        }
}

/// A SHA-256 digest as 64 lower-case hexadecimal digits.
pub open spec fn is_sha256_hex(s: Seq<char>) -> bool {
    s.len() == 64 && forall|j: int| 0 <= j < s.len() ==> is_lower_hex(#[trigger] s[j])
}

/// Trusted: `regex::Regex::new` compiles each of the three patterns of this
/// module, and `Regex::is_match` then tells whether the whole text has the
/// pattern's form, since every pattern is anchored at both ends. `\s` is
/// Unicode's `White_Space` property. The port of `localhost:\d+` needs no
/// clause of its own: such a host has a colon and is an instance of the
/// pattern's second alternative.
#[verifier::external_body]
fn regex_is_match(pattern: &str, text: &str) -> (matched: bool)
    requires
        pattern == BLDIMG_REGEX_STR || pattern == SOURCE_URL_REGEX_STR || pattern
            == SOURCE_SHA256_REGEX_STR,
    ensures
        pattern == BLDIMG_REGEX_STR ==> matched == is_pinned_image(text@),
        pattern == SOURCE_URL_REGEX_STR ==> matched == is_uri(text@),
        pattern == SOURCE_SHA256_REGEX_STR ==> matched == is_sha256_hex(text@),
{
    regex::Regex::new(pattern).unwrap().is_match(text)
}

/// A key and its value, as an entry of a section records them.
pub type Entry = (Seq<char>, Seq<char>);

/// The contents of the entries of a section.
pub open spec fn entries(section: Seq<(String, String)>) -> Seq<Entry> {
    section.map_values(|e: (String, String)| (e.0@, e.1@))
}

/// The contents of a list of sections.
pub open spec fn all_entries(sections: Seq<Vec<(String, String)>>) -> Seq<Seq<Entry>> {
    sections.map_values(|s: Vec<(String, String)>| entries(s@))
}

/// Whether an entry of the section has this key.
pub open spec fn has_key(section: Seq<Entry>, key: Seq<char>) -> bool {
    exists|i: int| 0 <= i < section.len() && (#[trigger] section[i]).0 == key
}

/// Whether the CLI has marked the section as its own: it holds `cliver`.
pub open spec fn is_marked(section: Seq<Entry>) -> bool {
    has_key(section, "cliver"@)
}

/// Whether section `k` is the CLI's: the first that is marked or, where none
/// is, the last that is not empty.
pub open spec fn is_cli_section(sections: Seq<Seq<Entry>>, k: int) -> bool {
    &&& 0 <= k < sections.len()
    &&& if exists|i: int| 0 <= i < sections.len() && is_marked(#[trigger] sections[i]) {
        is_marked(sections[k]) && forall|i: int| 0 <= i < k ==> !is_marked(#[trigger] sections[i])
    } else {
        sections[k].len() > 0 && forall|i: int|
            k < i < sections.len() ==> (#[trigger] sections[i]).len() == 0
    }
}

/// The entries of the CLI's section.
pub open spec fn cli_section(sections: Seq<Seq<Entry>>) -> Seq<Entry> {
    sections[choose|k: int| is_cli_section(sections, k)]
}

/// The keys that a rebuild writes by itself.
pub open spec fn is_regenerated(key: Seq<char>) -> bool {
    key == "cliver"@ || key == "rsver"@ || key == "rssdkver"@
}

/// The test for entries that a rebuild does not write by itself.
pub open spec fn to_replay() -> spec_fn(Entry) -> bool {
    |e: Entry| !is_regenerated(e.0)
}

/// The test for entries with this key.
pub open spec fn with_key(key: Seq<char>) -> spec_fn(Entry) -> bool {
    |e: Entry| e.0 == key
}

/// The entries that a rebuild must be given again.
pub open spec fn replayed(section: Seq<Entry>) -> Seq<Entry> {
    section.filter(to_replay())
}

/// The values that are recorded under a key, in their order.
pub open spec fn values(section: Seq<Entry>, key: Seq<char>) -> Seq<Seq<char>> {
    section.filter(with_key(key)).map_values(|e: Entry| e.1)
}

/// The first item, if there is one.
pub open spec fn first<A>(s: Seq<A>) -> Option<A> {
    if s.len() > 0 {
        Some(s[0])
    } else {
        None
    }
}

/// The fields that may be recorded at most once.
pub open spec fn is_unique_field(key: Seq<char>) -> bool {
    key == "bldimg"@ || key == "source_uri"@ || key == "source_sha256"@
}

/// The name of a field that may be recorded at most once.
pub open spec fn unique_field(key: Seq<char>) -> &'static str {
    if key == "bldimg"@ {
        "bldimg"
    } else if key == "source_uri"@ {
        "source_uri"
    } else {
        "source_sha256"
    }
}

/// Whether entry `i` records a field that must be unique a second time.
pub open spec fn repeats(section: Seq<Entry>, i: int) -> bool {
    &&& 0 <= i < section.len()
    &&& is_unique_field(section[i].0)
    &&& exists|j: int| 0 <= j < i && (#[trigger] section[j]).0 == section[i].0
}

/// Whether entry `i` is the first that repeats a field that must be unique.
pub open spec fn is_first_repeat(section: Seq<Entry>, i: int) -> bool {
    repeats(section, i) && forall|j: int| 0 <= j < i ==> !#[trigger] repeats(section, j)
}

/// The contents of an [`ExtractedMetadata`].
#[verifier::ext_equal]
pub struct Metadata {
    pub bldimg: Seq<char>,
    pub source_uri: Option<Seq<char>>,
    pub source_sha256: Option<Seq<char>>,
    pub bldopts: Seq<Seq<char>>,
    pub meta_entries: Seq<Entry>,
}

/// What the entries to replay say about the build, or why they are refused.
pub open spec fn recorded(section: Seq<Entry>) -> Result<Metadata, Error<Seq<char>>> {
    let bldimg = first(values(section, "bldimg"@));
    let source_uri = first(values(section, "source_uri"@));
    let source_sha256 = first(values(section, "source_sha256"@));
    if exists|i: int| is_first_repeat(section, i) {
        let i = choose|i: int| is_first_repeat(section, i);
        Err(Error::DuplicateMeta { field: unique_field(section[i].0) })
    } else if bldimg is None {
        Err(Error::MissingBldimg)
    } else if !is_pinned_image(bldimg->0) {
        Err(Error::MetaFormat { field: "bldimg", value: bldimg->0, regex: BLDIMG_REGEX_STR })
    } else if source_uri is Some && !is_uri(source_uri->0) {
        Err(
            Error::MetaFormat {
                field: "source_uri",
                value: source_uri->0,
                regex: SOURCE_URL_REGEX_STR,
            },
        )
    } else if source_sha256 is Some && !is_sha256_hex(source_sha256->0) {
        Err(
            Error::MetaFormat {
                field: "source_sha256",
                value: source_sha256->0,
                regex: SOURCE_SHA256_REGEX_STR,
            },
        )
    } else if source_sha256 is None {
        Err(Error::MissingSourceSha256)
    } else {
        Ok(
            Metadata {
                bldimg: bldimg->0,
                source_uri,
                source_sha256,
                bldopts: values(section, "bldopt"@),
                meta_entries: section,
            },
        )
    }
}

/// What the sections say about the build, or why they are refused.
pub open spec fn extracted(sections: Seq<Seq<Entry>>) -> Result<Metadata, Error<Seq<char>>> {
    if forall|i: int| 0 <= i < sections.len() ==> (#[trigger] sections[i]).len() == 0 {
        Err(Error::NoMeta)
    } else {
        recorded(replayed(cli_section(sections)))
    }
}

/// The metadata that drives a rebuild.
///
/// `meta_entries` holds the entries to record again, in the order in which the
/// WASM records them. The other fields are taken from these entries: the image
/// to build in, where the source is, its digest, and the build's options.
#[derive(Debug, Clone)]
pub struct ExtractedMetadata {
    pub bldimg: String,
    pub source_uri: Option<String>,
    pub source_sha256: Option<String>,
    pub bldopts: Vec<String>,
    pub meta_entries: Vec<(String, String)>,
}

impl View for ExtractedMetadata {
    type V = Metadata;

    open spec fn view(&self) -> Metadata {
        Metadata {
            bldimg: self.bldimg@,
            source_uri: opt_text(self.source_uri),
            source_sha256: opt_text(self.source_sha256),
            bldopts: texts(self.bldopts@),
            meta_entries: entries(self.meta_entries@),
        }
    }
}

/// The contents of a result of extracting metadata.
pub open spec fn outcome(r: Result<ExtractedMetadata, Error>) -> Result<
    Metadata,
    Error<Seq<char>>,
> {
    match r {
        Ok(meta) => Ok(meta@),
        Err(e) => Err(e@),
    }
}

/// How the values of a key grow with the section.
proof fn lemma_values_step(s: Seq<Entry>, i: int, key: Seq<char>)
    requires
        0 <= i < s.len(),
    ensures
        values(s.take(i + 1), key) == if s[i].0 == key {
            values(s.take(i), key).push(s[i].1)
        } else {
            values(s.take(i), key)
        },
{
    lemma_filter_step(s, i, with_key(key));
    if s[i].0 == key {
        assert(values(s.take(i + 1), key) =~= values(s.take(i), key).push(s[i].1));
    }
}

/// A key has a value where an entry has the key.
pub proof fn lemma_values_has_key(s: Seq<Entry>, key: Seq<char>)
    ensures
        values(s, key).len() > 0 <==> has_key(s, key),
    decreases s.len(),
{
    reveal(Seq::filter);
    if s.len() > 0 {
        let init = s.drop_last();
        lemma_values_has_key(init, key);
        assert(s.take(s.len() as int) =~= s);
        assert(s.take(s.len() - 1) =~= init);
        lemma_values_step(s, s.len() - 1, key);
        if has_key(init, key) {
            let i = choose|i: int| 0 <= i < init.len() && (#[trigger] init[i]).0 == key;
            assert(s[i].0 == key);
        }
        if has_key(s, key) && s.last().0 != key {
            let i = choose|i: int| 0 <= i < s.len() && (#[trigger] s[i]).0 == key;
            assert(init[i].0 == key);
        }
    }
}

/// The recorded fields have different names.
proof fn lemma_fields_differ()
    ensures
        "bldimg"@ != "source_uri"@,
        "bldimg"@ != "source_sha256"@,
        "bldimg"@ != "bldopt"@,
        "source_uri"@ != "source_sha256"@,
        "source_uri"@ != "bldopt"@,
        "source_sha256"@ != "bldopt"@,
{
    reveal_strlit("bldimg");
    reveal_strlit("source_uri");
    reveal_strlit("source_sha256");
    reveal_strlit("bldopt");
    assert("bldimg"@[3] != "bldopt"@[3]);
    assert("source_uri"@.len() == 10 && "source_sha256"@.len() == 13);
}

/// The section in which the search for the CLI's section ends.
proof fn lemma_cli_section(sections: Seq<Seq<Entry>>, k: int)
    requires
        is_cli_section(sections, k),
    ensures
        cli_section(sections) == sections[k],
{
    let c = choose|c: int| is_cli_section(sections, c);
    if c < k {
        assert(sections[c] == sections[c]);
        assert(sections[k] == sections[k]);
    }
}

fn marked(section: &Vec<(String, String)>) -> (r: bool)
    ensures
        r == is_marked(entries(section@)),
{
    for i in 0..section.len()
        invariant
            forall|j: int| 0 <= j < i ==> (#[trigger] entries(section@)[j]).0 != "cliver"@,
    {
        if same(section[i].0.as_str(), "cliver") {
            assert(entries(section@)[i as int].0 == "cliver"@);
            return true;
        }
    }
    false
}

/// The index of the CLI's section.
fn find_cli_section(sections: &Vec<Vec<(String, String)>>) -> (r: Option<usize>)
    ensures
        match r {
            Some(k) => is_cli_section(all_entries(sections@), k as int) && exists|i: int|
                0 <= i < sections@.len() && (#[trigger] all_entries(sections@)[i]).len() > 0,
            None => forall|i: int|
                0 <= i < sections@.len() ==> (#[trigger] all_entries(sections@)[i]).len() == 0,
        },
{
    let ghost model = all_entries(sections@);
    for i in 0..sections.len()
        invariant
            model == all_entries(sections@),
            forall|j: int| 0 <= j < i ==> !is_marked(#[trigger] model[j]),
    {
        if marked(&sections[i]) {
            assert(is_marked(model[i as int]));
            return Some(i);
        }
    }
    let mut k: usize = sections.len();
    while k > 0
        invariant
            k <= sections@.len(),
            model == all_entries(sections@),
            forall|j: int| 0 <= j < sections@.len() ==> !is_marked(#[trigger] model[j]),
            forall|j: int| k <= j < sections@.len() ==> (#[trigger] model[j]).len() == 0,
        decreases k,
    {
        k = k - 1;
        if sections[k].len() > 0 {
            assert(model[k as int].len() > 0);
            return Some(k);
        }
    }
    None
}

/// The entries of a section that a rebuild must be given again.
fn replay_entries(section: &Vec<(String, String)>) -> (out: Vec<(String, String)>)
    ensures
        entries(out@) == replayed(entries(section@)),
{
    let ghost model = entries(section@);
    let mut out: Vec<(String, String)> = Vec::new();
    assert(entries(out@) =~= model.take(0).filter(to_replay())) by {
        reveal(Seq::filter);
    }
    for i in 0..section.len()
        invariant
            model == entries(section@),
            entries(out@) == model.take(i as int).filter(to_replay()),
    {
        let key: &str = section[i].0.as_str();
        let ghost before = entries(out@);
        proof {
            lemma_filter_step(model, i as int, to_replay());
        }
        if !same(key, "cliver") && !same(key, "rsver") && !same(key, "rssdkver") {
            out.push((section[i].0.clone(), section[i].1.clone()));
            assert(entries(out@) =~= before.push(model[i as int]));
        }
    }
    assert(model.take(model.len() as int) =~= model);
    out
}

/// Reads the build's metadata out of the sections of a WASM: the outcome is
/// the one that [`extracted`] describes.
pub fn extract_from_sections(sections: &Vec<Vec<(String, String)>>) -> (r: Result<
    ExtractedMetadata,
    Error,
>)
    ensures
        outcome(r) == extracted(all_entries(sections@)),
{
    let ghost model = all_entries(sections@);
    let k: usize = match find_cli_section(sections) {
        Some(k) => k,
        None => {
            return Err(Error::NoMeta);
        },
    };
    proof {
        lemma_cli_section(model, k as int);
        lemma_fields_differ();
    }
    let meta_entries: Vec<(String, String)> = replay_entries(&sections[k]);
    let ghost section = entries(meta_entries@);
    assert(extracted(model) == recorded(section));

    let mut bldimg: Option<String> = None;
    let mut source_uri: Option<String> = None;
    let mut source_sha256: Option<String> = None;
    let mut bldopts: Vec<String> = Vec::new();
    proof {
        reveal(Seq::filter);
        assert(section.take(0) =~= Seq::empty());
        assert(texts(bldopts@) =~= values(section.take(0), "bldopt"@));
    }
    for i in 0..meta_entries.len()
        invariant
            extracted(all_entries(sections@)) == recorded(section),
            section == entries(meta_entries@),
            opt_text(bldimg) == first(values(section.take(i as int), "bldimg"@)),
            opt_text(source_uri) == first(values(section.take(i as int), "source_uri"@)),
            opt_text(source_sha256) == first(values(section.take(i as int), "source_sha256"@)),
            texts(bldopts@) == values(section.take(i as int), "bldopt"@),
            forall|j: int| 0 <= j < i ==> !#[trigger] repeats(section, j),
    {
        let key: &str = meta_entries[i].0.as_str();
        let ghost so_far = section.take(i as int);
        let ghost before = texts(bldopts@);
        proof {
            lemma_fields_differ();
            lemma_values_step(section, i as int, "bldimg"@);
            lemma_values_step(section, i as int, "source_uri"@);
            lemma_values_step(section, i as int, "source_sha256"@);
            lemma_values_step(section, i as int, "bldopt"@);
            lemma_values_has_key(so_far, key@);
            assert(section[i as int].0 == key@);
            assert(repeats(section, i as int) <==> is_unique_field(key@) && has_key(so_far, key@))
                by {
                if has_key(so_far, key@) {
                    let j = choose|j: int| 0 <= j < so_far.len() && (#[trigger] so_far[j]).0
                        == key@;
                    assert(section[j].0 == key@);
                }
                if exists|j: int| 0 <= j < i && (#[trigger] section[j]).0 == key@ {
                    let j = choose|j: int| 0 <= j < i && (#[trigger] section[j]).0 == key@;
                    assert(so_far[j].0 == key@);
                }
            }
        }
        let value: String = meta_entries[i].1.clone();
        if same(key, "bldimg") {
            if bldimg.is_some() {
                assert(is_first_repeat(section, i as int));
                return Err(Error::DuplicateMeta { field: "bldimg" });
            }
            bldimg = Some(value);
        } else if same(key, "source_uri") {
            if source_uri.is_some() {
                assert(is_first_repeat(section, i as int));
                return Err(Error::DuplicateMeta { field: "source_uri" });
            }
            source_uri = Some(value);
        } else if same(key, "source_sha256") {
            if source_sha256.is_some() {
                assert(is_first_repeat(section, i as int));
                return Err(Error::DuplicateMeta { field: "source_sha256" });
            }
            source_sha256 = Some(value);
        } else if same(key, "bldopt") {
            bldopts.push(value);
            assert(texts(bldopts@) =~= before.push(section[i as int].1));
        }
    }
    assert(section.take(section.len() as int) =~= section);
    assert(!exists|i: int| is_first_repeat(section, i));

    let bldimg: String = match bldimg {
        Some(bldimg) => bldimg,
        None => {
            return Err(Error::MissingBldimg);
        },
    };
    if !regex_is_match(bldimg_regex(), bldimg.as_str()) {
        return Err(Error::MetaFormat { field: "bldimg", value: bldimg, regex: BLDIMG_REGEX_STR });
    }
    if let Some(uri) = &source_uri {
        if !regex_is_match(source_uri_regex(), uri.as_str()) {
            return Err(
                Error::MetaFormat {
                    field: "source_uri",
                    value: uri.clone(),
                    regex: SOURCE_URL_REGEX_STR,
                },
            );
        }
    }
    if let Some(digest) = &source_sha256 {
        if !regex_is_match(source_sha256_regex(), digest.as_str()) {
            return Err(
                Error::MetaFormat {
                    field: "source_sha256",
                    value: digest.clone(),
                    regex: SOURCE_SHA256_REGEX_STR,
                },
            );
        }
    }
    if source_sha256.is_none() {
        return Err(Error::MissingSourceSha256);
    }
    Ok(ExtractedMetadata { bldimg, source_uri, source_sha256, bldopts, meta_entries })
}

/// One payload of a WASM: the name and the data of a custom section, nothing
/// for any other payload, or why the WASM is malformed from there on.
pub type Payload = Result<Option<(Seq<char>, Seq<u8>)>, Seq<char>>;

/// The contents of a payload.
pub open spec fn payload(p: Result<Option<(String, Vec<u8>)>, String>) -> Payload {
    match p {
        Ok(Some((name, data))) => Ok(Some((name@, data@))),
        Ok(None) => Ok(None),
        Err(reason) => Err(reason@),
    }
}

/// The contents of a list of payloads.
pub open spec fn payloads(v: Seq<Result<Option<(String, Vec<u8>)>, String>>) -> Seq<Payload> {
    v.map_values(|p: Result<Option<(String, Vec<u8>)>, String>| payload(p))
}

/// The payloads that `wasmparser` finds in a WASM.
pub uninterp spec fn wasm_payloads(wasm: Seq<u8>) -> Seq<Payload>;

/// The payloads of a module that holds nothing but custom sections: the version,
/// the sections and the end.
pub open spec fn custom_payloads(sections: Seq<Custom>) -> Seq<Payload> {
    seq![Ok(None)] + sections.map_values(|section: Custom| custom_payload(section)) + seq![
        Ok(None),
    ]
}

/// The payload of a custom section.
pub open spec fn custom_payload(section: Custom) -> Payload {
    Ok(Some(section))
}

/// Trusted: `wasmparser::Parser::parse_all` yields the payloads of the WASM,
/// the same for the same bytes. It ends after the first error. A module of custom
/// sections yields its version, its sections in their order, and its end: see
/// `Parser::parse_reader` and `section` in its parser, and
/// `CustomSectionReader::new`.
#[verifier::external_body]
fn parse_wasm(wasm: &[u8]) -> (out: Vec<Result<Option<(String, Vec<u8>)>, String>>)
    ensures
        payloads(out@) == wasm_payloads(wasm@),
        forall|sections: Seq<Custom>|
            are_custom(sections) && wasm@ == #[trigger] custom_module(sections) ==> payloads(out@)
                == custom_payloads(sections),
{
    wasmparser::Parser::new(0)
        .parse_all(wasm)
        .map(|payload| match payload {
            Ok(wasmparser::Payload::CustomSection(reader)) => {
                Ok(Some((reader.name().to_string(), reader.data().to_vec())))
            }
            Ok(_) => Ok(None),
            Err(e) => Err(e.to_string()),
        })
        .collect()
}

/// The contents of a decoded section.
pub open spec fn decoded(r: Result<Vec<(String, String)>, String>) -> Result<
    Seq<Entry>,
    Seq<char>,
> {
    match r {
        Ok(section) => Ok(entries(section@)),
        Err(reason) => Err(reason@),
    }
}

/// The entries that `stellar_xdr` decodes from the data of a section.
pub uninterp spec fn xdr_entries(data: Seq<u8>) -> Result<Seq<Entry>, Seq<char>>;

/// A section of which every entry was decoded.
pub open spec fn whole(section: Seq<Entry>) -> Result<Seq<Entry>, Seq<char>> {
    Ok(section)
}

/// Trusted: `stellar_xdr::ScMetaEntry::read_xdr_iter` decodes the data of a
/// section into its entries, the same for the same bytes, up to the first
/// error. Printable entries that were written in XDR are decoded as they were: see
/// the impls of `ReadXdr` for `ScMetaEntry` and `StringM`, and that of `Display` for
/// `StringM`, which escapes only backslashes and what is not printable. It ends the
/// program where there is no memory for a text as long as the data says one is.
#[verifier::external_body]
fn decode_xdr(data: &[u8]) -> (out: Result<Vec<(String, String)>, String>)
    ensures
        decoded(out) == xdr_entries(data@),
        forall|section: Seq<Entry>|
            is_printable_section(section) && data@ == #[trigger] xdr_section(section)
                ==> decoded(out) == whole(section),
{
    let mut read = stellar_xdr::Limited::new(
        std::io::Cursor::new(data),
        stellar_xdr::Limits::none(),
    );
    <stellar_xdr::ScMetaEntry as stellar_xdr::ReadXdr>::read_xdr_iter(&mut read)
        .map(|entry| {
            entry.map(|stellar_xdr::ScMetaEntry::ScMetaV0(v0)| {
                (v0.key.to_string(), v0.val.to_string())
            })
        })
        .collect::<Result<Vec<(String, String)>, stellar_xdr::Error>>()
        .map_err(|e| e.to_string())
}

/// The data of the `contractmetav0` sections before the first error, in their
/// order, and that error.
pub open spec fn meta_data(list: Seq<Payload>) -> (Seq<Seq<u8>>, Option<Seq<char>>)
    decreases list.len(),
{
    if list.len() == 0 {
        (Seq::empty(), None)
    } else {
        let (data, fault) = meta_data(list.drop_last());
        if fault is Some {
            (data, fault)
        } else {
            match list.last() {
                Ok(Some((name, section))) if name == "contractmetav0"@ => (
                    data.push(section),
                    None,
                ),
                Ok(_) => (data, None),
                Err(reason) => (data, Some(reason)),
            }
        }
    }
}

/// The entries of a section, or why its data is malformed.
pub open spec fn parsed(data: Seq<u8>) -> Result<Seq<Entry>, Error<Seq<char>>> {
    match xdr_entries(data) {
        Ok(section) => Ok(section),
        Err(reason) => Err(Error::MetaParse(reason)),
    }
}

/// The contents of a parsed section.
pub open spec fn section_result(r: Result<Vec<(String, String)>, Error>) -> Result<
    Seq<Entry>,
    Error<Seq<char>>,
> {
    match r {
        Ok(section) => Ok(entries(section@)),
        Err(e) => Err(e@),
    }
}

/// The contents of a list of parsed sections.
pub open spec fn section_results(v: Seq<Result<Vec<(String, String)>, Error>>) -> Seq<
    Result<Seq<Entry>, Error<Seq<char>>>,
> {
    v.map_values(|r: Result<Vec<(String, String)>, Error>| section_result(r))
}

/// Whether section `i` is the first that could not be parsed.
pub open spec fn is_first_fault(
    sections: Seq<Result<Seq<Entry>, Error<Seq<char>>>>,
    i: int,
) -> bool {
    &&& 0 <= i < sections.len()
    &&& sections[i] is Err
    &&& forall|j: int| 0 <= j < i ==> #[trigger] sections[j] is Ok
}

/// The sections, where all of them could be parsed and nothing else was
/// malformed; otherwise the first fault.
pub open spec fn gathered(
    sections: Seq<Result<Seq<Entry>, Error<Seq<char>>>>,
    fault: Option<Seq<char>>,
) -> Result<Seq<Seq<Entry>>, Error<Seq<char>>> {
    if exists|i: int| is_first_fault(sections, i) {
        Err(sections[choose|i: int| is_first_fault(sections, i)]->Err_0)
    } else if fault is Some {
        Err(Error::MetaParse(fault->0))
    } else {
        Ok(Seq::new(sections.len(), |i: int| sections[i]->Ok_0))
    }
}

/// The sections of metadata that a WASM holds, or why it is malformed.
pub open spec fn meta_sections(wasm: Seq<u8>) -> Result<Seq<Seq<Entry>>, Error<Seq<char>>> {
    let (data, fault) = meta_data(wasm_payloads(wasm));
    gathered(data.map_values(|d: Seq<u8>| parsed(d)), fault)
}

/// The contents of a result of reading sections.
pub open spec fn section_outcome(r: Result<Vec<Vec<(String, String)>>, Error>) -> Result<
    Seq<Seq<Entry>>,
    Error<Seq<char>>,
> {
    match r {
        Ok(sections) => Ok(all_entries(sections@)),
        Err(e) => Err(e@),
    }
}

/// The contents of a list of byte strings.
pub open spec fn all_bytes(v: Seq<Vec<u8>>) -> Seq<Seq<u8>> {
    v.map_values(|b: Vec<u8>| b@)
}

/// The data of the `contractmetav0` sections before the first error, in their
/// order, and that error.
pub fn select_meta_data(list: Vec<Result<Option<(String, Vec<u8>)>, String>>) -> (r: (
    Vec<Vec<u8>>,
    Option<String>,
))
    ensures
        (all_bytes(r.0@), opt_text(r.1)) == meta_data(payloads(list@)),
{
    let ghost model = payloads(list@);
    let mut data: Vec<Vec<u8>> = Vec::new();
    assert(all_bytes(data@) =~= Seq::empty());
    for i in 0..list.len()
        invariant
            model == payloads(list@),
            (all_bytes(data@), None::<Seq<char>>) == meta_data(model.take(i as int)),
    {
        let ghost before = all_bytes(data@);
        assert(model.take(i + 1).drop_last() =~= model.take(i as int));
        assert(model.take(i + 1).last() == payload(list@[i as int]));
        match &list[i] {
            Ok(Some((name, section))) => {
                if same(name.as_str(), "contractmetav0") {
                    data.push(section.clone());
                    assert(all_bytes(data@) =~= before.push(section@));
                }
            },
            Ok(None) => {},
            Err(reason) => {
                let fault: Option<String> = Some(reason.clone());
                proof {
                    lemma_fault_stays(model, i + 1);
                }
                return (data, fault);
            },
        }
    }
    assert(model.take(model.len() as int) =~= model);
    (data, None)
}

/// What follows the first error does not count.
proof fn lemma_fault_stays(list: Seq<Payload>, n: int)
    requires
        0 <= n <= list.len(),
        meta_data(list.take(n)).1 is Some,
    ensures
        meta_data(list) == meta_data(list.take(n)),
    decreases list.len() - n,
{
    if n == list.len() {
        assert(list.take(n) =~= list);
    } else {
        assert(list.take(n + 1).drop_last() =~= list.take(n));
        lemma_fault_stays(list, n + 1);
    }
}

/// Puts the parsed sections together: the outcome is the one that
/// [`gathered`] describes.
pub fn gather_sections(
    sections: Vec<Result<Vec<(String, String)>, Error>>,
    fault: Option<String>,
) -> (r: Result<Vec<Vec<(String, String)>>, Error>)
    ensures
        section_outcome(r) == gathered(section_results(sections@), opt_text(fault)),
{
    let ghost model = section_results(sections@);
    let mut out: Vec<Vec<(String, String)>> = Vec::new();
    for section in it: sections
        invariant
            it.seq() == sections@,
            model == section_results(sections@),
            out@.len() == it.index(),
            forall|j: int|
                0 <= j < it.index() ==> #[trigger] model[j] == Ok::<
                    Seq<Entry>,
                    Error<Seq<char>>,
                >(entries(out@[j]@)),
    {
        assert(model[it.index() as int] == section_result(section));
        match section {
            Ok(section) => {
                out.push(section);
            },
            Err(e) => {
                assert(is_first_fault(model, it.index() as int));
                return Err(e);
            },
        }
    }
    assert(!exists|i: int| is_first_fault(model, i));
    match fault {
        Some(reason) => Err(Error::MetaParse(reason)),
        None => {
            assert(all_entries(out@) =~= Seq::new(model.len(), |i: int| model[i]->Ok_0)) by {
                assert forall|j: int| 0 <= j < model.len() implies all_entries(out@)[j]
                    == model[j]->Ok_0 by {
                    assert(model[j] is Ok);
                }
            }
            Ok(out)
        },
    }
}

/// Decodes the data of one `contractmetav0` section into its entries. Printable
/// entries are decoded as they were written, in their order.
pub fn parse_meta_entries(data: &[u8]) -> (r: Result<Vec<(String, String)>, Error>)
    ensures
        section_result(r) == parsed(data@),
        forall|section: Seq<Entry>|
            is_printable_section(section) && data@ == #[trigger] xdr_section(section)
                ==> section_result(r) == Ok::<Seq<Entry>, Error<Seq<char>>>(section),
{
    match decode_xdr(data) {
        Ok(section) => Ok(section),
        Err(reason) => Err(Error::MetaParse(reason)),
    }
}

/// How the metadata of custom sections grows with the sections.
proof fn lemma_metadata_step(sections: Seq<Custom>)
    requires
        sections.len() > 0,
    ensures
        metadata_of(sections) == if holds_metadata()(sections.last()) {
            metadata_of(sections.drop_last()).push(sections.last().1)
        } else {
            metadata_of(sections.drop_last())
        },
{
    let n = sections.len() - 1;
    assert(sections.take(n + 1) =~= sections);
    assert(sections.take(n) =~= sections.drop_last());
    lemma_filter_step(sections, n, holds_metadata());
    if holds_metadata()(sections.last()) {
        assert(metadata_of(sections) =~= metadata_of(sections.drop_last()).push(
            sections.last().1,
        ));
    }
}

/// The metadata among the payloads of custom sections, but for the end.
proof fn lemma_meta_data_of_sections(sections: Seq<Custom>)
    ensures
        meta_data(
            seq![Ok(None)] + sections.map_values(|section: Custom| custom_payload(section)),
        ) == (metadata_of(sections), None::<Seq<char>>),
    decreases sections.len(),
{
    let first: Seq<Payload> = seq![Ok(None)];
    let list = first + sections.map_values(|section: Custom| custom_payload(section));
    if sections.len() == 0 {
        reveal(Seq::filter);
        reveal_with_fuel(meta_data, 2);
        assert(list.drop_last() =~= Seq::empty());
        assert(metadata_of(sections) =~= Seq::empty());
    } else {
        let init = sections.drop_last();
        lemma_meta_data_of_sections(init);
        lemma_metadata_step(sections);
        assert(list.drop_last() =~= first + init.map_values(
            |section: Custom| custom_payload(section),
        ));
        assert(list.last() == custom_payload(sections.last()));
    }
}

/// The metadata of a module of custom sections.
proof fn lemma_meta_data_of_module(sections: Seq<Custom>)
    ensures
        meta_data(custom_payloads(sections)) == (metadata_of(sections), None::<Seq<char>>),
{
    let list = custom_payloads(sections);
    lemma_meta_data_of_sections(sections);
    assert(list.drop_last() =~= seq![Ok(None)] + sections.map_values(
        |section: Custom| custom_payload(section),
    ));
    assert(list.last() == Ok::<Option<(Seq<char>, Seq<u8>)>, Seq<char>>(None));
}

/// Sections that were all decoded are gathered as they are.
proof fn lemma_gathered(
    results: Seq<Result<Seq<Entry>, Error<Seq<char>>>>,
    list: Seq<Seq<Entry>>,
)
    requires
        results.len() == list.len(),
        forall|i: int|
            0 <= i < list.len() ==> #[trigger] results[i] == Ok::<Seq<Entry>, Error<Seq<char>>>(
                list[i],
            ),
    ensures
        gathered(results, None) == Ok::<Seq<Seq<Entry>>, Error<Seq<char>>>(list),
{
    if exists|i: int| is_first_fault(results, i) {
        let i = choose|i: int| is_first_fault(results, i);
        assert(results[i] == Ok::<Seq<Entry>, Error<Seq<char>>>(list[i]));
    }
    assert(Seq::new(results.len(), |i: int| results[i]->Ok_0) =~= list);
}

/// Reads the `contractmetav0` sections of a WASM, each with its entries in
/// their order.
///
/// A module of custom sections gives back the entries that were written into its
/// `contractmetav0` sections: a list for every such section, the empty ones too,
/// in the order of the sections. Sections of other names add nothing.
pub fn read_meta_sections(wasm: &[u8]) -> (r: Result<Vec<Vec<(String, String)>>, Error>)
    ensures
        section_outcome(r) == meta_sections(wasm@),
        forall|sections: Seq<Custom>, list: Seq<Seq<Entry>>| #[trigger]
            is_module_with(wasm@, sections, list) ==> section_outcome(r) == Ok::<
                Seq<Seq<Entry>>,
                Error<Seq<char>>,
            >(list),
{
    let found: Vec<Result<Option<(String, Vec<u8>)>, String>> = parse_wasm(wasm);
    let ghost found_payloads = payloads(found@);
    let (data, fault) = select_meta_data(found);
    let ghost model = all_bytes(data@).map_values(|d: Seq<u8>| parsed(d));
    let mut sections: Vec<Result<Vec<(String, String)>, Error>> = Vec::new();
    for i in 0..data.len()
        invariant
            model == all_bytes(data@).map_values(|d: Seq<u8>| parsed(d)),
            section_results(sections@) == model.take(i as int),
            forall|j: int, section: Seq<Entry>|
                0 <= j < i && is_printable_section(section) && all_bytes(data@)[j]
                    == #[trigger] xdr_section(section) ==> #[trigger] model[j] == Ok::<
                    Seq<Entry>,
                    Error<Seq<char>>,
                >(section),
    {
        let ghost before = section_results(sections@);
        sections.push(parse_meta_entries(data[i].as_slice()));
        assert(all_bytes(data@)[i as int] == data@[i as int]@);
        assert(model[i as int] == parsed(data@[i as int]@));
        assert(section_results(sections@) =~= before.push(model[i as int]));
    }
    assert(section_results(sections@) =~= model);
    proof {
        assert forall|parts: Seq<Custom>, list: Seq<Seq<Entry>>| #[trigger]
            is_module_with(wasm@, parts, list) implies gathered(model, opt_text(fault)) == Ok::<
            Seq<Seq<Entry>>,
            Error<Seq<char>>,
        >(list) by {
            assert(found_payloads == custom_payloads(parts));
            lemma_meta_data_of_module(parts);
            assert(all_bytes(data@) == xdr_sections(list));
            assert forall|i: int| 0 <= i < list.len() implies #[trigger] model[i] == Ok::<
                Seq<Entry>,
                Error<Seq<char>>,
            >(list[i]) by {
                assert(is_printable_section(list[i]));
                assert(xdr_sections(list)[i] == xdr_section(list[i]));
            }
            lemma_gathered(model, list);
        }
    }
    gather_sections(sections, fault)
}

/// Reads the build's metadata out of a WASM.
///
/// The metadata is that of the CLI's section, the one that holds `cliver` or,
/// where no section does, the last that is not empty; without the entries that
/// a rebuild writes by itself. It must record `bldimg` and `source_sha256`,
/// and none of `bldimg`, `source_uri` and `source_sha256` twice.
pub fn extract_metadata(wasm: &[u8]) -> (r: Result<ExtractedMetadata, Error>)
    ensures
        outcome(r) == match meta_sections(wasm@) {
            Ok(sections) => extracted(sections),
            Err(e) => Err(e),
        },
        forall|sections: Seq<Custom>, list: Seq<Seq<Entry>>| #[trigger]
            is_module_with(wasm@, sections, list) ==> outcome(r) == extracted(list),
{
    match read_meta_sections(wasm) {
        Ok(sections) => extract_from_sections(&sections),
        Err(e) => Err(e),
    }
}

/// Where no field that must be unique is repeated, each has at most one value.
proof fn lemma_values_unique(s: Seq<Entry>, key: Seq<char>)
    requires
        is_unique_field(key),
        forall|i: int| !#[trigger] repeats(s, i),
    ensures
        values(s, key).len() <= 1,
    decreases s.len(),
{
    if s.len() == 0 {
        reveal(Seq::filter);
    } else {
        let init = s.drop_last();
        assert forall|i: int| !#[trigger] repeats(init, i) by {
            if repeats(init, i) {
                let j = choose|j: int| 0 <= j < i && (#[trigger] init[j]).0 == init[i].0;
                assert(s[j].0 == s[i].0);
                assert(repeats(s, i));
            }
        }
        lemma_values_unique(init, key);
        assert(s.take(s.len() as int) =~= s);
        assert(s.take(s.len() - 1) =~= init);
        lemma_values_step(s, s.len() - 1, key);
        lemma_values_has_key(init, key);
        if s.last().0 == key && has_key(init, key) {
            let j = choose|j: int| 0 <= j < init.len() && (#[trigger] init[j]).0 == key;
            assert(s[j].0 == key);
            assert(repeats(s, s.len() - 1));
        }
    }
}

/// Where a field that must be unique is repeated, there is a first repetition.
proof fn lemma_first_repeat(s: Seq<Entry>, i: int)
    requires
        repeats(s, i),
    ensures
        exists|j: int| is_first_repeat(s, j),
    decreases i,
{
    if forall|j: int| 0 <= j < i ==> !#[trigger] repeats(s, j) {
        assert(is_first_repeat(s, i));
    } else {
        let j = choose|j: int| 0 <= j < i && #[trigger] repeats(s, j);
        lemma_first_repeat(s, j);
    }
}

/// Only the CLI's section counts: two WASMs with the same one have the same
/// metadata, whatever their other sections hold.
pub proof fn law_only_the_cli_section_counts(
    a: Seq<Seq<Entry>>,
    i: int,
    b: Seq<Seq<Entry>>,
    j: int,
)
    requires
        is_cli_section(a, i),
        is_cli_section(b, j),
        a[i] == b[j],
    ensures
        extracted(a) == extracted(b),
{
    lemma_cli_section(a, i);
    lemma_cli_section(b, j);
    assert(a[i].len() > 0);
    assert(b[j].len() > 0);
}

/// The first section that holds `cliver` is the one that is replayed, whatever
/// stands before and after it.
pub proof fn law_marked_section_is_replayed(sections: Seq<Seq<Entry>>, k: int)
    requires
        0 <= k < sections.len(),
        is_marked(sections[k]),
        forall|i: int| 0 <= i < k ==> !is_marked(#[trigger] sections[i]),
    ensures
        extracted(sections) == recorded(replayed(sections[k])),
{
    lemma_cli_section(sections, k);
    assert(sections[k].len() > 0);
}

/// Where no section holds `cliver`, the last one that is not empty is replayed.
pub proof fn law_last_section_is_replayed_without_a_mark(sections: Seq<Seq<Entry>>, k: int)
    requires
        0 <= k < sections.len(),
        forall|i: int| 0 <= i < sections.len() ==> !is_marked(#[trigger] sections[i]),
        sections[k].len() > 0,
        forall|i: int| k < i < sections.len() ==> (#[trigger] sections[i]).len() == 0,
    ensures
        extracted(sections) == recorded(replayed(sections[k])),
{
    lemma_cli_section(sections, k);
}

/// Metadata that is accepted is well-formed, and its fields are those of the
/// entries to replay: the image is pinned to a digest, the source's digest is
/// recorded, each of the fields that must be unique has one value, and no entry
/// is one that a rebuild writes by itself.
pub proof fn law_accepted_metadata(sections: Seq<Seq<Entry>>, meta: Metadata)
    requires
        extracted(sections) == Ok::<Metadata, Error<Seq<char>>>(meta),
    ensures
        is_pinned_image(meta.bldimg),
        meta.source_sha256 is Some && is_sha256_hex(meta.source_sha256->0),
        meta.source_uri is Some ==> is_uri(meta.source_uri->0),
        meta.meta_entries == replayed(cli_section(sections)),
        forall|i: int|
            0 <= i < meta.meta_entries.len() ==> !is_regenerated(
                (#[trigger] meta.meta_entries[i]).0,
            ),
        values(meta.meta_entries, "bldimg"@) == seq![meta.bldimg],
        values(meta.meta_entries, "source_sha256"@) == seq![meta.source_sha256->0],
        values(meta.meta_entries, "source_uri"@) == match meta.source_uri {
            Some(uri) => seq![uri],
            None => Seq::empty(),
        },
        values(meta.meta_entries, "bldopt"@) == meta.bldopts,
{
    let section = meta.meta_entries;
    assert forall|i: int| !#[trigger] repeats(section, i) by {
        if repeats(section, i) {
            lemma_first_repeat(section, i);
        }
    }
    lemma_values_unique(section, "bldimg"@);
    lemma_values_unique(section, "source_uri"@);
    lemma_values_unique(section, "source_sha256"@);
    assert forall|i: int| 0 <= i < section.len() implies !is_regenerated(
        (#[trigger] section[i]).0,
    ) by {
        cli_section(sections).lemma_filter_pred(to_replay(), i);
    }
}

/// A field that must be unique and is recorded twice in the CLI's section is
/// refused, whatever its values are.
pub proof fn law_repeated_field_is_refused(
    sections: Seq<Seq<Entry>>,
    k: int,
    i: int,
    j: int,
)
    requires
        is_cli_section(sections, k),
        0 <= i < j < sections[k].len(),
        sections[k][i].0 == sections[k][j].0,
        is_unique_field(sections[k][i].0),
    ensures
        extracted(sections) matches Err(Error::DuplicateMeta { .. }),
{
    let section = sections[k];
    let key = section[i].0;
    lemma_cli_section(sections, k);
    assert(sections[k].len() > 0);
    lemma_fields_are_replayed();
    lemma_values_replayed(section, key);
    lemma_two_values(section, i, j, key);
    if forall|x: int| !#[trigger] repeats(replayed(section), x) {
        lemma_values_unique(replayed(section), key);
    } else {
        let x = choose|x: int| #[trigger] repeats(replayed(section), x);
        lemma_first_repeat(replayed(section), x);
    }
}

/// The recorded fields are none that a rebuild writes by itself.
proof fn lemma_fields_are_replayed()
    ensures
        forall|key: Seq<char>| #[trigger] is_unique_field(key) ==> !is_regenerated(key),
{
    reveal_strlit("bldimg");
    reveal_strlit("source_uri");
    reveal_strlit("source_sha256");
    reveal_strlit("cliver");
    reveal_strlit("rsver");
    reveal_strlit("rssdkver");
    assert("bldimg"@[0] != "cliver"@[0]);
    assert("bldimg"@.len() == 6 && "source_uri"@.len() == 10 && "source_sha256"@.len() == 13);
    assert("cliver"@.len() == 6 && "rsver"@.len() == 5 && "rssdkver"@.len() == 8);
}

/// A key that a rebuild does not write by itself keeps its values.
proof fn lemma_values_replayed(s: Seq<Entry>, key: Seq<char>)
    requires
        !is_regenerated(key),
    ensures
        values(replayed(s), key) == values(s, key),
    decreases s.len(),
{
    reveal(Seq::filter);
    if s.len() > 0 {
        let n = s.len() - 1;
        lemma_values_replayed(s.drop_last(), key);
        assert(s.take(n + 1) =~= s);
        assert(s.take(n) =~= s.drop_last());
        lemma_filter_step(s, n, to_replay());
        lemma_values_step(s, n, key);
        if to_replay()(s[n]) {
            let r = replayed(s);
            let m = r.len() - 1;
            assert(r.take(m + 1) =~= r);
            assert(r.take(m) =~= replayed(s.drop_last()));
            lemma_values_step(r, m, key);
        }
    }
}

/// Two entries with a key give it two values.
proof fn lemma_two_values(s: Seq<Entry>, i: int, j: int, key: Seq<char>)
    requires
        0 <= i < j < s.len(),
        s[i].0 == key,
        s[j].0 == key,
    ensures
        values(s, key).len() >= 2,
    decreases s.len(),
{
    let n = s.len() - 1;
    let init = s.drop_last();
    assert(s.take(n + 1) =~= s);
    assert(s.take(n) =~= init);
    lemma_values_step(s, n, key);
    if j == n {
        assert(init[i].0 == key);
        lemma_values_has_key(init, key);
    } else {
        lemma_two_values(init, i, j, key);
    }
}

/// The entries are replayed in their order: those of a part of a section before
/// those of the part that follows it.
pub proof fn law_replay_keeps_the_order(a: Seq<Entry>, b: Seq<Entry>)
    ensures
        replayed(a + b) == replayed(a) + replayed(b),
{
    Seq::filter_distributes_over_add(a, b, to_replay());
}

/// Of a single entry the replay leaves out only what a rebuild writes by itself:
/// the versions under `cliver`, `rsver` and `rssdkver`.
pub proof fn law_replay_of_an_entry(e: Entry)
    ensures
        e.0 == "cliver"@ || e.0 == "rsver"@ || e.0 == "rssdkver"@ ==> replayed(seq![e])
            == Seq::<Entry>::empty(),
        e.0 != "cliver"@ && e.0 != "rsver"@ && e.0 != "rssdkver"@ ==> replayed(seq![e]) == seq![e],
{
    lemma_filter_one(e, to_replay());
}

/// The entries to replay are those of the section with any other key than `cliver`,
/// `rsver` and `rssdkver`, and they stand in their order.
proof fn lemma_replayed_entries(section: Seq<Entry>)
    ensures
        forall|e: Entry| #[trigger]
            replayed(section).contains(e) <==> section.contains(e) && e.0 != "cliver"@ && e.0
                != "rsver"@ && e.0 != "rssdkver"@,
        forall|i: int, j: int|
            0 <= i < j < section.len() && replayed(section).contains(#[trigger] section[i])
                && replayed(section).contains(#[trigger] section[j]) ==> exists|k: int, l: int|
                0 <= k < l < replayed(section).len() && #[trigger] replayed(section)[k]
                    == section[i] && #[trigger] replayed(section)[l] == section[j],
{
    assert forall|e: Entry| #[trigger]
        replayed(section).contains(e) <==> section.contains(e) && e.0 != "cliver"@ && e.0
            != "rsver"@ && e.0 != "rssdkver"@ by {
        lemma_filter_contains(section, to_replay(), e);
    }
    assert forall|i: int, j: int|
        0 <= i < j < section.len() && replayed(section).contains(#[trigger] section[i])
            && replayed(section).contains(#[trigger] section[j]) implies exists|k: int, l: int|
        0 <= k < l < replayed(section).len() && #[trigger] replayed(section)[k] == section[i]
            && #[trigger] replayed(section)[l] == section[j] by {
        lemma_filter_order(section, to_replay(), i, j);
    }
}

/// Metadata that is accepted has every entry of the first section that holds
/// `cliver`, but for those under `cliver`, `rsver` and `rssdkver`; it has no other
/// entry, and has them in their order.
pub proof fn law_every_other_entry_is_replayed(
    sections: Seq<Seq<Entry>>,
    k: int,
    mark: int,
    meta: Metadata,
)
    requires
        0 <= k < sections.len(),
        0 <= mark < sections[k].len(),
        sections[k][mark].0 == "cliver"@,
        forall|i: int, j: int|
            0 <= i < k && 0 <= j < sections[i].len() ==> (#[trigger] sections[i][j]).0
                != "cliver"@,
        extracted(sections) == Ok::<Metadata, Error<Seq<char>>>(meta),
    ensures
        forall|e: Entry| #[trigger]
            meta.meta_entries.contains(e) <==> sections[k].contains(e) && e.0 != "cliver"@ && e.0
                != "rsver"@ && e.0 != "rssdkver"@,
        forall|i: int, j: int|
            0 <= i < j < sections[k].len() && meta.meta_entries.contains(
                #[trigger] sections[k][i],
            ) && meta.meta_entries.contains(#[trigger] sections[k][j]) ==> exists|
                p: int,
                q: int,
            |
                0 <= p < q < meta.meta_entries.len() && #[trigger] meta.meta_entries[p]
                    == sections[k][i] && #[trigger] meta.meta_entries[q] == sections[k][j],
        meta.meta_entries == replayed(sections[k]),
{
    assert(is_marked(sections[k]));
    assert forall|i: int| 0 <= i < k implies !is_marked(#[trigger] sections[i]) by {
        if is_marked(sections[i]) {
            let j = choose|j: int|
                0 <= j < sections[i].len() && (#[trigger] sections[i][j]).0 == "cliver"@;
            assert(sections[i][j].0 == "cliver"@);
        }
    }
    law_marked_section_is_replayed(sections, k);
    lemma_replayed_entries(sections[k]);
}

/// Where no section holds `cliver`, metadata that is accepted has every entry of the
/// last section that is not empty, but for those under `rsver` and `rssdkver`; it
/// has no other entry, and has them in their order.
pub proof fn law_every_other_entry_is_replayed_without_a_mark(
    sections: Seq<Seq<Entry>>,
    k: int,
    meta: Metadata,
)
    requires
        0 <= k < sections.len(),
        forall|i: int, j: int|
            0 <= i < sections.len() && 0 <= j < sections[i].len() ==> (
            #[trigger] sections[i][j]).0 != "cliver"@,
        sections[k].len() > 0,
        forall|i: int| k < i < sections.len() ==> (#[trigger] sections[i]).len() == 0,
        extracted(sections) == Ok::<Metadata, Error<Seq<char>>>(meta),
    ensures
        forall|e: Entry| #[trigger]
            meta.meta_entries.contains(e) <==> sections[k].contains(e) && e.0 != "rsver"@ && e.0
                != "rssdkver"@,
        forall|i: int, j: int|
            0 <= i < j < sections[k].len() && meta.meta_entries.contains(
                #[trigger] sections[k][i],
            ) && meta.meta_entries.contains(#[trigger] sections[k][j]) ==> exists|
                p: int,
                q: int,
            |
                0 <= p < q < meta.meta_entries.len() && #[trigger] meta.meta_entries[p]
                    == sections[k][i] && #[trigger] meta.meta_entries[q] == sections[k][j],
        meta.meta_entries == replayed(sections[k]),
{
    assert forall|i: int| 0 <= i < sections.len() implies !is_marked(#[trigger] sections[i]) by {
        if is_marked(sections[i]) {
            let j = choose|j: int|
                0 <= j < sections[i].len() && (#[trigger] sections[i][j]).0 == "cliver"@;
            assert(sections[i][j].0 == "cliver"@);
        }
    }
    law_last_section_is_replayed_without_a_mark(sections, k);
    lemma_replayed_entries(sections[k]);
    assert forall|e: Entry| #[trigger]
        meta.meta_entries.contains(e) <==> sections[k].contains(e) && e.0 != "rsver"@ && e.0
            != "rssdkver"@ by {
        if sections[k].contains(e) {
            let j = choose|j: int| 0 <= j < sections[k].len() && sections[k][j] == e;
            assert(sections[k][j].0 != "cliver"@);
        }
        assert(replayed(sections[k]).contains(e) == meta.meta_entries.contains(e));
    }
}

/// There is no metadata if and only if every section is empty.
pub proof fn law_no_metadata(sections: Seq<Seq<Entry>>)
    ensures
        extracted(sections) == Err::<Metadata, Error<Seq<char>>>(Error::NoMeta) <==> forall|i: int|
            0 <= i < sections.len() ==> (#[trigger] sections[i]).len() == 0,
{
}

/// The values of a key are those of the entries that have it, in their order.
pub proof fn law_values_of_a_key(a: Seq<Entry>, b: Seq<Entry>, e: Entry, key: Seq<char>)
    ensures
        values(a + b, key) == values(a, key) + values(b, key),
        e.0 == key ==> values(seq![e], key) == seq![e.1],
        e.0 != key ==> values(seq![e], key) == Seq::<Seq<char>>::empty(),
{
    Seq::filter_distributes_over_add(a, b, with_key(key));
    assert(values(a + b, key) =~= values(a, key) + values(b, key));
    lemma_filter_one(e, with_key(key));
    if e.0 == key {
        assert(values(seq![e], key) =~= seq![e.1]);
    } else {
        assert(values(seq![e], key) =~= Seq::<Seq<char>>::empty());
    }
}

/// A field that must be unique has at most one value where nothing is repeated, and
/// a repetition gives some such field two.
proof fn lemma_repeats(section: Seq<Entry>)
    ensures
        (exists|i: int| is_first_repeat(section, i)) <==> {
            ||| values(section, "bldimg"@).len() > 1
            ||| values(section, "source_uri"@).len() > 1
            ||| values(section, "source_sha256"@).len() > 1
        },
{
    if exists|i: int| is_first_repeat(section, i) {
        let i = choose|i: int| is_first_repeat(section, i);
        let j = choose|j: int| 0 <= j < i && (#[trigger] section[j]).0 == section[i].0;
        lemma_two_values(section, j, i, section[i].0);
    } else {
        assert forall|i: int| !#[trigger] repeats(section, i) by {
            if repeats(section, i) {
                lemma_first_repeat(section, i);
            }
        }
        lemma_values_unique(section, "bldimg"@);
        lemma_values_unique(section, "source_uri"@);
        lemma_values_unique(section, "source_sha256"@);
    }
}

/// Entries are accepted if and only if they record one `bldimg` and one
/// `source_sha256` and at most one `source_uri`, each in its format. The metadata
/// then holds these values, those of `bldopt` in their order, and all the entries.
pub proof fn law_what_is_accepted(section: Seq<Entry>)
    ensures
        ({
            let images = values(section, "bldimg"@);
            let uris = values(section, "source_uri"@);
            let digests = values(section, "source_sha256"@);
            &&& recorded(section) is Ok <==> {
                &&& images.len() == 1 && is_pinned_image(images[0])
                &&& digests.len() == 1 && is_sha256_hex(digests[0])
                &&& uris.len() == 0 || uris.len() == 1 && is_uri(uris[0])
            }
            &&& recorded(section) matches Ok(meta) ==> {
                &&& meta.bldimg == images[0]
                &&& meta.source_sha256 == Some(digests[0])
                &&& meta.source_uri == if uris.len() == 1 {
                    Some(uris[0])
                } else {
                    None
                }
                &&& meta.bldopts == values(section, "bldopt"@)
                &&& meta.meta_entries == section
            }
        }),
{
    lemma_repeats(section);
}

/// Entries without a repeated field are refused for the first thing that is wrong:
/// there is no `bldimg`, or it is malformed; `source_uri` is malformed;
/// `source_sha256` is malformed, or there is none.
pub proof fn law_why_entries_are_refused(section: Seq<Entry>)
    requires
        values(section, "bldimg"@).len() <= 1,
        values(section, "source_uri"@).len() <= 1,
        values(section, "source_sha256"@).len() <= 1,
    ensures
        ({
            let images = values(section, "bldimg"@);
            let uris = values(section, "source_uri"@);
            let digests = values(section, "source_sha256"@);
            let image = images.len() == 1 && is_pinned_image(images[0]);
            let uri = uris.len() == 1 ==> is_uri(uris[0]);
            &&& images.len() == 0 ==> recorded(section) == Err::<Metadata, Error<Seq<char>>>(
                Error::MissingBldimg,
            )
            &&& images.len() == 1 && !image ==> (recorded(section) matches Err(
                Error::MetaFormat { field, value, regex },
            ) && field@ == "bldimg"@ && value == images[0] && regex == BLDIMG_REGEX_STR)
            &&& image && !uri ==> (recorded(section) matches Err(
                Error::MetaFormat { field, value, regex },
            ) && field@ == "source_uri"@ && value == uris[0] && regex == SOURCE_URL_REGEX_STR)
            &&& image && uri && digests.len() == 1 && !is_sha256_hex(digests[0]) ==> (recorded(
                section,
            ) matches Err(Error::MetaFormat { field, value, regex }) && field@
                == "source_sha256"@ && value == digests[0] && regex == SOURCE_SHA256_REGEX_STR)
            &&& image && uri && digests.len() == 0 ==> recorded(section) == Err::<
                Metadata,
                Error<Seq<char>>,
            >(Error::MissingSourceSha256)
        }),
{
    lemma_repeats(section);
}

/// Entries are refused for the first of them that records `bldimg`, `source_uri` or
/// `source_sha256` a second time, and the error names that field.
pub proof fn law_repetition_is_named(section: Seq<Entry>, i: int, j: int)
    requires
        0 <= j < i < section.len(),
        section[i].0 == section[j].0,
        section[i].0 == "bldimg"@ || section[i].0 == "source_uri"@ || section[i].0
            == "source_sha256"@,
        forall|k: int, l: int|
            0 <= l < k < i && ((#[trigger] section[k]).0 == "bldimg"@ || section[k].0
                == "source_uri"@ || section[k].0 == "source_sha256"@) ==> section[k].0 != (
            #[trigger] section[l]).0,
    ensures
        recorded(section) matches Err(Error::DuplicateMeta { field }) && field@ == section[i].0,
{
    assert(section[j].0 == section[i].0);
    assert(repeats(section, i));
    assert forall|k: int| 0 <= k < i implies !#[trigger] repeats(section, k) by {
        if repeats(section, k) {
            let l = choose|l: int| 0 <= l < k && (#[trigger] section[l]).0 == section[k].0;
            assert(section[k].0 != section[l].0);
        }
    }
    assert(is_first_repeat(section, i));
    let c = choose|c: int| is_first_repeat(section, c);
    assert(c == i) by {
        if c < i {
            assert(!repeats(section, c));
        }
        if i < c {
            assert(!repeats(section, i));
        }
    }
}

/// The patterns of the recorded fields.
pub proof fn law_patterns()
    ensures
        BLDIMG_REGEX_STR@
            == r"^(?:localhost(?::\d+)?|[^\s@/]*[.:][^\s@/]*)/[^\s@]+@sha256:[0-9a-f]{64}$"@,
        SOURCE_URL_REGEX_STR@ == r"^[a-zA-Z][a-zA-Z0-9+.-]*:\S+$"@,
        SOURCE_SHA256_REGEX_STR@ == r"^[0-9a-f]{64}$"@,
{
}

/// A text is a SHA-256 digest if and only if it has 64 characters, each of them one
/// of the sixteen digits in small letters.
pub proof fn law_form_of_a_digest(s: Seq<char>)
    ensures
        is_sha256_hex(s) <==> s.len() == 64 && forall|i: int|
            0 <= i < s.len() ==> "0123456789abcdef"@.contains(#[trigger] s[i]),
{
    reveal_strlit("0123456789abcdef");
    let digits = "0123456789abcdef"@;
    assert forall|c: char| #[trigger] digits.contains(c) <==> is_lower_hex(c) by {
        if '0' <= c <= '9' {
            assert(digits[c as int - 48] == c);
        }
        if 'a' <= c <= 'f' {
            assert(digits[c as int - 87] == c);
        }
    }
}

/// A registry host, a slash, a path without white space or `@`, `@sha256:` and a
/// digest make a pinned image.
pub proof fn law_form_of_a_pinned_image(host: Seq<char>, path: Seq<char>, digest: Seq<char>)
    requires
        is_registry_host(host),
        path.len() > 0,
        forall|i: int| 0 <= i < path.len() ==> !is_space(#[trigger] path[i]) && path[i] != '@',
        is_sha256_hex(digest),
    ensures
        is_pinned_image(host + "/"@ + path + "@sha256:"@ + digest),
{
    reveal_strlit("/");
    reveal_strlit("@sha256:");
    let s = host + "/"@ + path + "@sha256:"@ + digest;
    let at = s.len() - 72;
    let slash = host.len() as int;
    assert(s.subrange(at, at + 8) =~= "@sha256:"@);
    assert forall|j: int| at + 8 <= j < s.len() implies is_lower_hex(#[trigger] s[j]) by {
        assert(s[j] == digest[j - at - 8]);
    }
    assert(s[slash] == '/');
    assert(s.take(slash) =~= host);
    assert forall|j: int| slash < j < at implies !is_space(#[trigger] s[j]) && s[j] != '@' by {
        assert(s[j] == path[j - slash - 1]);
    }
}

/// Every pinned image is a registry host, a slash, a path without white space or
/// `@`, `@sha256:` and a digest.
pub proof fn law_parts_of_a_pinned_image(s: Seq<char>)
    requires
        is_pinned_image(s),
    ensures
        exists|host: Seq<char>, path: Seq<char>, digest: Seq<char>|
            {
                &&& s == #[trigger] (host + "/"@ + path + "@sha256:"@ + digest)
                &&& is_registry_host(host)
                &&& path.len() > 0
                &&& forall|i: int|
                    0 <= i < path.len() ==> !is_space(#[trigger] path[i]) && path[i] != '@'
                &&& is_sha256_hex(digest)
            },
{
    reveal_strlit("/");
    reveal_strlit("@sha256:");
    let at = s.len() - 72;
    let slash = choose|slash: int|
        {
            &&& 0 <= slash < at - 1
            &&& #[trigger] s[slash] == '/'
            &&& is_registry_host(s.take(slash))
            &&& forall|j: int| slash < j < at ==> !is_space(#[trigger] s[j]) && s[j] != '@'
        };
    let host = s.take(slash);
    let path = s.subrange(slash + 1, at);
    let digest = s.skip(at + 8);
    let whole = host + "/"@ + path + "@sha256:"@ + digest;
    assert(whole.len() == s.len());
    assert forall|j: int| 0 <= j < s.len() implies whole[j] == s[j] by {
        if at <= j < at + 8 {
            assert(s.subrange(at, at + 8)[j - at] == s[j]);
        }
    }
    assert(s =~= whole);
    assert forall|i: int| 0 <= i < path.len() implies !is_space(#[trigger] path[i]) && path[i]
        != '@' by {
        assert(path[i] == s[slash + 1 + i]);
    }
}

/// A host is a registry's if and only if it is `localhost`, or holds a dot or a
/// colon and no white space, `@` or slash.
pub proof fn law_form_of_a_registry_host(host: Seq<char>)
    ensures
        is_registry_host(host) <==> {
            ||| host == "localhost"@
            ||| {
                &&& host.contains('.') || host.contains(':')
                &&& !host.contains('@') && !host.contains('/')
                &&& forall|i: int| 0 <= i < host.len() ==> !is_space(#[trigger] host[i])
            }
        },
{
    if host.contains('.') {
        let i = choose|i: int| 0 <= i < host.len() && host[i] == '.';
        assert(host[i] == '.');
    }
    if host.contains(':') {
        let i = choose|i: int| 0 <= i < host.len() && host[i] == ':';
        assert(host[i] == ':');
    }
    if is_registry_host(host) && host != "localhost"@ {
        if host.contains('@') {
            let i = choose|i: int| 0 <= i < host.len() && host[i] == '@';
            assert(host[i] == '@');
        }
        if host.contains('/') {
            let i = choose|i: int| 0 <= i < host.len() && host[i] == '/';
            assert(host[i] == '/');
        }
    }
}

/// The sections named `contractmetav0` are read, in their order; sections of other
/// names and what is no section add nothing. After the first error nothing counts.
pub proof fn law_sections_that_are_read(
    list: Seq<Payload>,
    name: Seq<char>,
    section: Seq<u8>,
    reason: Seq<char>,
    next: Payload,
)
    ensures
        meta_data(Seq::empty()) == (Seq::<Seq<u8>>::empty(), None::<Seq<char>>),
        meta_data(list).1 is None ==> {
            &&& meta_data(list + seq![Ok(Some(("contractmetav0"@, section)))]) == (
                meta_data(list).0 + seq![section],
                None::<Seq<char>>,
            )
            &&& name != "contractmetav0"@ ==> meta_data(list + seq![Ok(Some((name, section)))])
                == meta_data(list)
            &&& meta_data(list + seq![Ok(None)]) == meta_data(list)
            &&& meta_data(list + seq![Err(reason)]) == (meta_data(list).0, Some(reason))
        },
        meta_data(list).1 is Some ==> meta_data(list + seq![next]) == meta_data(list),
{
    let named: Payload = Ok(Some(("contractmetav0"@, section)));
    let other: Payload = Ok(Some((name, section)));
    let none: Payload = Ok(None);
    let fault: Payload = Err(reason);
    assert((list + seq![named]).drop_last() =~= list);
    assert((list + seq![other]).drop_last() =~= list);
    assert((list + seq![none]).drop_last() =~= list);
    assert((list + seq![fault]).drop_last() =~= list);
    assert((list + seq![next]).drop_last() =~= list);
    assert(meta_data(list).0.push(section) =~= meta_data(list).0 + seq![section]);
}

/// The first section that cannot be decoded is what is reported, before any other
/// fault of the WASM. Where all can be and there is no other fault, they are given
/// back as they are.
pub proof fn law_first_fault_is_reported(
    sections: Seq<Result<Seq<Entry>, Error<Seq<char>>>>,
    fault: Option<Seq<char>>,
    list: Seq<Seq<Entry>>,
    i: int,
    reason: Seq<char>,
)
    ensures
        0 <= i < sections.len() && sections[i] is Err && (forall|j: int|
            0 <= j < i ==> #[trigger] sections[j] is Ok) ==> gathered(sections, fault) == Err::<
            Seq<Seq<Entry>>,
            Error<Seq<char>>,
        >(sections[i]->Err_0),
        (forall|j: int| 0 <= j < sections.len() ==> #[trigger] sections[j] is Ok) ==> gathered(
            sections,
            Some(reason),
        ) == Err::<Seq<Seq<Entry>>, Error<Seq<char>>>(Error::MetaParse(reason)),
        sections.len() == list.len() && (forall|j: int|
            0 <= j < list.len() ==> #[trigger] sections[j] == Ok::<Seq<Entry>, Error<Seq<char>>>(
                list[j],
            )) ==> gathered(sections, None) == Ok::<Seq<Seq<Entry>>, Error<Seq<char>>>(list),
{
    if 0 <= i < sections.len() && sections[i] is Err && (forall|j: int|
        0 <= j < i ==> #[trigger] sections[j] is Ok) {
        assert(is_first_fault(sections, i));
        let c = choose|c: int| is_first_fault(sections, c);
        if c < i {
            assert(sections[c] is Ok);
        }
        if i < c {
            assert(sections[i] is Ok);
        }
    }
    if forall|j: int| 0 <= j < sections.len() ==> #[trigger] sections[j] is Ok {
        assert(!exists|c: int| is_first_fault(sections, c));
    }
    if sections.len() == list.len() && (forall|j: int|
        0 <= j < list.len() ==> #[trigger] sections[j] == Ok::<Seq<Entry>, Error<Seq<char>>>(
            list[j],
        )) {
        lemma_gathered(sections, list);
    }
}

/// A text is a URI if and only if it is a scheme, a colon and something without
/// white space. The scheme is a letter and any letters, digits, `+`, `.` and `-`.
pub proof fn law_form_of_a_uri(s: Seq<char>)
    ensures
        is_uri(s) <==> exists|scheme: Seq<char>, rest: Seq<char>|
            {
                &&& s == #[trigger] (scheme + ":"@ + rest)
                &&& scheme.len() > 0
                &&& 'a' <= scheme[0] <= 'z' || 'A' <= scheme[0] <= 'Z'
                &&& forall|i: int|
                    0 <= i < scheme.len() ==> 'a' <= #[trigger] scheme[i] <= 'z' || 'A'
                        <= scheme[i] <= 'Z' || '0' <= scheme[i] <= '9' || scheme[i] == '+'
                        || scheme[i] == '.' || scheme[i] == '-'
                &&& rest.len() > 0
                &&& forall|i: int| 0 <= i < rest.len() ==> !is_space(#[trigger] rest[i])
            },
{
    reveal_strlit(":");
    if is_uri(s) {
        let colon = choose|colon: int|
            {
                &&& 1 <= colon < s.len() - 1
                &&& #[trigger] s[colon] == ':'
                &&& is_alpha(s[0])
                &&& forall|j: int|
                    1 <= j < colon ==> is_alphanumeric(#[trigger] s[j]) || s[j] == '+' || s[j]
                        == '.' || s[j] == '-'
                &&& forall|j: int| colon < j < s.len() ==> !is_space(#[trigger] s[j])
            };
        let scheme = s.take(colon);
        let rest = s.skip(colon + 1);
        assert(s =~= scheme + ":"@ + rest);
        assert forall|i: int| 0 <= i < rest.len() implies !is_space(#[trigger] rest[i]) by {
            assert(rest[i] == s[colon + 1 + i]);
        }
        assert(scheme[0] == s[0]);
    }
    if exists|scheme: Seq<char>, rest: Seq<char>|
        {
            &&& s == #[trigger] (scheme + ":"@ + rest)
            &&& scheme.len() > 0
            &&& 'a' <= scheme[0] <= 'z' || 'A' <= scheme[0] <= 'Z'
            &&& forall|i: int|
                0 <= i < scheme.len() ==> 'a' <= #[trigger] scheme[i] <= 'z' || 'A' <= scheme[i]
                    <= 'Z' || '0' <= scheme[i] <= '9' || scheme[i] == '+' || scheme[i] == '.'
                    || scheme[i] == '-'
            &&& rest.len() > 0
            &&& forall|i: int| 0 <= i < rest.len() ==> !is_space(#[trigger] rest[i])
        } {
        let (scheme, rest) = choose|scheme: Seq<char>, rest: Seq<char>|
            {
                &&& s == #[trigger] (scheme + ":"@ + rest)
                &&& scheme.len() > 0
                &&& 'a' <= scheme[0] <= 'z' || 'A' <= scheme[0] <= 'Z'
                &&& forall|i: int|
                    0 <= i < scheme.len() ==> 'a' <= #[trigger] scheme[i] <= 'z' || 'A'
                        <= scheme[i] <= 'Z' || '0' <= scheme[i] <= '9' || scheme[i] == '+'
                        || scheme[i] == '.' || scheme[i] == '-'
                &&& rest.len() > 0
                &&& forall|i: int| 0 <= i < rest.len() ==> !is_space(#[trigger] rest[i])
            };
        let colon = scheme.len() as int;
        assert(s[colon] == ':');
        assert(s[0] == scheme[0]);
        assert forall|j: int| 1 <= j < colon implies is_alphanumeric(#[trigger] s[j]) || s[j]
            == '+' || s[j] == '.' || s[j] == '-' by {
            assert(s[j] == scheme[j]);
        }
        assert forall|j: int| colon < j < s.len() implies !is_space(#[trigger] s[j]) by {
            assert(s[j] == rest[j - colon - 1]);
        }
    }
}

/// The contents of sections and of metadata are those of each text, in its place.
pub proof fn law_contents_of_metadata(
    meta: ExtractedMetadata,
    e: Error,
    sections: Vec<Vec<(String, String)>>,
    i: int,
    j: int,
)
    requires
        0 <= i < sections@.len(),
        0 <= j < sections@[i]@.len(),
    ensures
        all_entries(sections@).len() == sections@.len(),
        all_entries(sections@)[i].len() == sections@[i]@.len(),
        all_entries(sections@)[i][j] == (sections@[i]@[j].0@, sections@[i]@[j].1@),
        outcome(Ok(meta)) == Ok::<Metadata, Error<Seq<char>>>(meta@),
        outcome(Err(e)) == Err::<Metadata, Error<Seq<char>>>(e@),
        section_outcome(Ok(sections)) == Ok::<Seq<Seq<Entry>>, Error<Seq<char>>>(
            all_entries(sections@),
        ),
        section_outcome(Err(e)) == Err::<Seq<Seq<Entry>>, Error<Seq<char>>>(e@),
        meta@.bldimg == meta.bldimg@,
        meta@.source_uri == opt_text(meta.source_uri),
        meta@.source_sha256 == opt_text(meta.source_sha256),
        meta@.bldopts == texts(meta.bldopts@),
        meta@.meta_entries == entries(meta.meta_entries@),
{
}

/// The first section that holds `cliver` decides on the metadata, whatever the other
/// sections hold and whether its entries are accepted or not.
pub proof fn law_section_of_the_cli(sections: Seq<Seq<Entry>>, k: int, mark: int)
    requires
        0 <= k < sections.len(),
        0 <= mark < sections[k].len(),
        sections[k][mark].0 == "cliver"@,
        forall|i: int, j: int|
            0 <= i < k && 0 <= j < sections[i].len() ==> (#[trigger] sections[i][j]).0
                != "cliver"@,
    ensures
        extracted(sections) == recorded(replayed(sections[k])),
{
    assert(is_marked(sections[k]));
    assert forall|i: int| 0 <= i < k implies !is_marked(#[trigger] sections[i]) by {
        if is_marked(sections[i]) {
            let j = choose|j: int|
                0 <= j < sections[i].len() && (#[trigger] sections[i][j]).0 == "cliver"@;
            assert(sections[i][j].0 == "cliver"@);
        }
    }
    law_marked_section_is_replayed(sections, k);
}

/// Where no section holds `cliver`, the last section that is not empty decides on the
/// metadata, whether its entries are accepted or not.
pub proof fn law_section_without_a_mark(sections: Seq<Seq<Entry>>, k: int)
    requires
        0 <= k < sections.len(),
        forall|i: int, j: int|
            0 <= i < sections.len() && 0 <= j < sections[i].len() ==> (
            #[trigger] sections[i][j]).0 != "cliver"@,
        sections[k].len() > 0,
        forall|i: int| k < i < sections.len() ==> (#[trigger] sections[i]).len() == 0,
    ensures
        extracted(sections) == recorded(replayed(sections[k])),
{
    assert forall|i: int| 0 <= i < sections.len() implies !is_marked(#[trigger] sections[i]) by {
        if is_marked(sections[i]) {
            let j = choose|j: int|
                0 <= j < sections[i].len() && (#[trigger] sections[i][j]).0 == "cliver"@;
            assert(sections[i][j].0 == "cliver"@);
        }
    }
    law_last_section_is_replayed_without_a_mark(sections, k);
}

/// The contents of payloads, of byte strings and of parsed sections are those of
/// each of them, in its place.
pub proof fn law_contents_of_sections(
    list: Seq<Result<Option<(String, Vec<u8>)>, String>>,
    data: Seq<Vec<u8>>,
    results: Seq<Result<Vec<(String, String)>, Error>>,
    i: int,
)
    ensures
        payloads(list).len() == list.len(),
        0 <= i < list.len() ==> ({
            match list[i] {
                Ok(Some((name, bytes))) => payloads(list)[i] == custom_payload((name@, bytes@)),
                Ok(None) => payloads(list)[i] is Ok && payloads(list)[i]->Ok_0 is None,
                Err(reason) => payloads(list)[i] is Err && payloads(list)[i]->Err_0 == reason@,
            }
        }),
        all_bytes(data).len() == data.len(),
        0 <= i < data.len() ==> all_bytes(data)[i] == data[i]@,
        section_results(results).len() == results.len(),
        0 <= i < results.len() ==> ({
            match results[i] {
                Ok(section) => section_results(results)[i] is Ok
                    && section_results(results)[i]->Ok_0 == entries(section@),
                Err(e) => section_results(results)[i] is Err && section_results(results)[i]->Err_0
                    == e@,
            }
        }),
{
}

/// A section is parsed into the entries that it decodes to; one that does not is
/// malformed, with the decoder's reason.
pub proof fn law_parsed_section(data: Seq<u8>, section: Seq<Entry>, reason: Seq<char>)
    ensures
        xdr_entries(data) == Ok::<Seq<Entry>, Seq<char>>(section) ==> parsed(data) == Ok::<
            Seq<Entry>,
            Error<Seq<char>>,
        >(section),
        xdr_entries(data) == Err::<Seq<Entry>, Seq<char>>(reason) ==> parsed(data) == Err::<
            Seq<Entry>,
            Error<Seq<char>>,
        >(Error::MetaParse(reason)),
{
}

/// The metadata of a WASM is that of every section that is read, parsed each for
/// itself; the WASM's own fault counts after those of the sections.
pub proof fn law_sections_of_a_wasm(wasm: Seq<u8>)
    ensures
        meta_sections(wasm) == gathered(
            meta_data(wasm_payloads(wasm)).0.map_values(|d: Seq<u8>| parsed(d)),
            meta_data(wasm_payloads(wasm)).1,
        ),
{
}

} // verus!
