//! How metadata stands in the bytes of a WASM: the form of custom sections, and
//! the XDR form of the entries of a section.

use vstd::prelude::*;

use crate::meta::Entry;

verus! {

/// A character that is printed as it is: printable ASCII other than a backslash.
pub open spec fn is_printable(c: char) -> bool {
    ' ' <= c <= '~' && c != '\\'
}

/// A text of characters that are printed as they are, short enough for its length
/// to be written in four bytes.
pub open spec fn is_printable_text(s: Seq<char>) -> bool {
    s.len() <= u32::MAX && forall|i: int| 0 <= i < s.len() ==> is_printable(#[trigger] s[i])
}

/// The bytes of a text of ASCII characters.
pub open spec fn ascii(s: Seq<char>) -> Seq<u8> {
    s.map_values(|c: char| c as u8)
}

/// A number in four bytes, the highest first.
pub open spec fn four_bytes(n: nat) -> Seq<u8> {
    seq![(n / 0x1000000) as u8, (n / 0x10000 % 256) as u8, (n / 256 % 256) as u8, (n % 256) as u8]
}

/// A text in XDR: its length, its bytes, and zeros up to a multiple of four.
pub open spec fn xdr_text(s: Seq<char>) -> Seq<u8> {
    four_bytes(s.len()) + ascii(s) + seq![0u8, 0u8, 0u8].take((4 - s.len() % 4) % 4)
}

/// An entry in XDR: the kind of the entry, which is zero, its key and its value.
pub open spec fn xdr_entry(entry: Entry) -> Seq<u8> {
    four_bytes(0) + xdr_text(entry.0) + xdr_text(entry.1)
}

/// The data of a section: its entries in XDR, one after the other.
pub open spec fn xdr_section(section: Seq<Entry>) -> Seq<u8>
    decreases section.len(),
{
    if section.len() == 0 {
        Seq::empty()
    } else {
        xdr_section(section.drop_last()) + xdr_entry(section.last())
    }
}

/// The entries of a section, if all of them are printable.
pub open spec fn is_printable_section(section: Seq<Entry>) -> bool {
    forall|i: int|
        0 <= i < section.len() ==> is_printable_text((#[trigger] section[i]).0)
            && is_printable_text(section[i].1)
}

/// The data of some sections.
pub open spec fn xdr_sections(sections: Seq<Seq<Entry>>) -> Seq<Seq<u8>> {
    sections.map_values(|s: Seq<Entry>| xdr_section(s))
}

/// A custom section: its name and its data.
pub type Custom = (Seq<char>, Seq<u8>);

/// A number in groups of seven bits, the lowest first, each but the last with its
/// highest bit set.
pub open spec fn leb128(n: nat) -> Seq<u8>
    decreases n,
{
    if n < 128 {
        seq![n as u8]
    } else {
        seq![(n % 128 + 128) as u8] + leb128(n / 128)
    }
}

/// What stands in a custom section: its name, after the name's length, and its
/// data.
pub open spec fn custom_body(section: Custom) -> Seq<u8> {
    leb128(section.0.len()) + ascii(section.0) + section.1
}

/// Whether a custom section can be written: its name is ASCII and not too long,
/// and its size is a number of 32 bits.
pub open spec fn is_custom(section: Custom) -> bool {
    &&& section.0.len() <= 100_000
    &&& forall|i: int| 0 <= i < section.0.len() ==> (#[trigger] section.0[i]) <= '\u{7f}'
    &&& custom_body(section).len() <= u32::MAX
}

/// Custom sections, one after the other: each with the id zero, its size and what
/// stands in it.
pub open spec fn custom_sections(sections: Seq<Custom>) -> Seq<u8>
    decreases sections.len(),
{
    if sections.len() == 0 {
        Seq::empty()
    } else {
        let body = custom_body(sections.last());
        custom_sections(sections.drop_last()) + seq![0u8] + leb128(body.len()) + body
    }
}

/// A WASM module that holds custom sections: the magic number, the version and the
/// sections.
pub open spec fn custom_module(sections: Seq<Custom>) -> Seq<u8> {
    seq![0u8, 0x61, 0x73, 0x6d, 1, 0, 0, 0] + custom_sections(sections)
}

/// Whether all custom sections can be written.
pub open spec fn are_custom(sections: Seq<Custom>) -> bool {
    forall|i: int| 0 <= i < sections.len() ==> is_custom(#[trigger] sections[i])
}

/// The test for custom sections that hold metadata.
pub open spec fn holds_metadata() -> spec_fn(Custom) -> bool {
    |section: Custom| section.0 == "contractmetav0"@
}

/// The data of the custom sections that hold metadata, in their order.
pub open spec fn metadata_of(sections: Seq<Custom>) -> Seq<Seq<u8>> {
    sections.filter(holds_metadata()).map_values(|section: Custom| section.1)
}

/// Whether a WASM is a module of custom sections, among which those that hold
/// metadata hold these entries.
pub open spec fn is_module_with(
    wasm: Seq<u8>,
    sections: Seq<Custom>,
    list: Seq<Seq<Entry>>,
) -> bool {
    &&& are_custom(sections)
    &&& wasm == custom_module(sections)
    &&& metadata_of(sections) == xdr_sections(list)
    &&& forall|i: int| 0 <= i < list.len() ==> is_printable_section(#[trigger] list[i])
}

} // verus!
