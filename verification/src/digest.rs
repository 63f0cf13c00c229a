//! SHA-256 digests.

use vstd::prelude::*;

use crate::meta::is_sha256_hex;
use crate::text::{hex_digit, is_lower_hex, law_lower_hex, lower_hex, render_lower_hex};

verus! {

/// The SHA-256 digest of some bytes.
pub uninterp spec fn sha256(data: Seq<u8>) -> Seq<u8>;

/// Trusted: `sha2::Sha256::digest` computes the SHA-256 digest of the bytes,
/// which is 32 bytes long and the same for the same bytes.
#[verifier::external_body]
fn sha256_digest(data: &[u8]) -> (out: Vec<u8>)
    ensures
        out@ == sha256(data@),
        out@.len() == 32,
{
    <sha2::Sha256 as sha2::Digest>::digest(data).to_vec()
}

/// The SHA-256 digest of some bytes, in lower-case hexadecimal digits.
pub open spec fn sha256_text(data: Seq<u8>) -> Seq<char> {
    lower_hex(sha256(data))
}

/// The SHA-256 digest of some bytes, in lower-case hexadecimal digits. It has
/// the format in which a WASM records the digest of its source.
pub fn hex_digest(data: &[u8]) -> (out: String)
    ensures
        out@ == sha256_text(data@),
        is_sha256_hex(out@),
{
    let digest: Vec<u8> = sha256_digest(data);
    proof {
        law_hex_length(digest@);
    }
    render_lower_hex(&digest)
}

/// Bytes in hexadecimal digits are twice as long, and lower-case.
pub proof fn law_hex_length(bytes: Seq<u8>)
    ensures
        lower_hex(bytes).len() == 2 * bytes.len(),
        forall|i: int|
            0 <= i < lower_hex(bytes).len() ==> is_lower_hex(#[trigger] lower_hex(bytes)[i]),
    decreases bytes.len(),
{
    if bytes.len() > 0 {
        law_hex_length(bytes.drop_last());
        let b = bytes.last() as nat;
        assert(is_lower_hex(hex_digit(b / 16)));
        assert(is_lower_hex(hex_digit(b % 16)));
    }
}

/// Different bytes have different hexadecimal digits.
pub proof fn law_hex_injective(a: Seq<u8>, b: Seq<u8>)
    requires
        lower_hex(a) == lower_hex(b),
    ensures
        a == b,
    decreases a.len(),
{
    law_hex_length(a);
    law_hex_length(b);
    if a.len() > 0 {
        let n = lower_hex(a).len();
        let x = a.last();
        let y = b.last();
        assert(lower_hex(a)[n - 1] == hex_digit(x as nat % 16));
        assert(lower_hex(b)[n - 1] == hex_digit(y as nat % 16));
        assert(lower_hex(a)[n - 2] == hex_digit(x as nat / 16));
        assert(lower_hex(b)[n - 2] == hex_digit(y as nat / 16));
        assert(x == y);
        assert(lower_hex(a).take(n - 2) =~= lower_hex(a.drop_last()));
        assert(lower_hex(b).take(n - 2) =~= lower_hex(b.drop_last()));
        law_hex_injective(a.drop_last(), b.drop_last());
        assert(a =~= a.drop_last().push(x));
        assert(b =~= b.drop_last().push(y));
    } else {
        assert(a =~= b);
    }
}

/// The text of a digest has two digits for every byte of it, each in its place and
/// the higher first.
pub proof fn law_text_of_a_digest(data: Seq<u8>, i: int)
    requires
        0 <= i < sha256(data).len(),
    ensures
        sha256_text(data).len() == 2 * sha256(data).len(),
        sha256_text(data)[2 * i] == "0123456789abcdef"@[sha256(data)[i] as int / 16],
        sha256_text(data)[2 * i + 1] == "0123456789abcdef"@[sha256(data)[i] as int % 16],
{
    law_lower_hex(sha256(data), i);
}

} // verus!
