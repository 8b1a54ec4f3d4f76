//! Content keys for the palette cache: a cached palette is filed under the
//! lower-case hexadecimal form of the SHA-256 digest of the image bytes it
//! was computed from.

use sha2::Digest;

use vstd::prelude::*;

use crate::text::{hex_digit_lower, push_char};

verus! {

/// What SHA-256 returns: a fixed function of the input bytes.
pub uninterp spec fn sha256_of(data: Seq<u8>) -> Seq<u8>;

/// Relies on sha2's `Sha256::digest`: the digest depends on the input bytes
/// alone, and is 32 bytes long.
#[verifier::external_body]
fn sha256(data: &[u8]) -> (r: Vec<u8>)
    ensures
        r@ == sha256_of(data@),
        r@.len() == 32,
{
    sha2::Sha256::digest(data).to_vec()
}

/// One byte in lower-case hexadecimal, without zero padding: a byte below 16
/// yields a single digit.
pub open spec fn byte_hex_nopad(b: u8) -> Seq<char> {
    if b < 16 {
        seq![hex_digit_lower(b) as char]
    } else {
        seq![hex_digit_lower(b / 16) as char, hex_digit_lower(b % 16) as char]
    }
}

/// The first `i` bytes in unpadded lower-case hexadecimal, concatenated.
pub open spec fn lower_hex_upto(bytes: Seq<u8>, i: int) -> Seq<char>
    decreases i,
{
    if i <= 0 {
        Seq::empty()
    } else {
        lower_hex_upto(bytes, i - 1) + byte_hex_nopad(bytes[i - 1])
    }
}

/// A byte sequence in unpadded lower-case hexadecimal.
pub open spec fn lower_hex_nopad(bytes: Seq<u8>) -> Seq<char> {
    lower_hex_upto(bytes, bytes.len() as int)
}

fn hex_digit_lower_exec(n: u8) -> (r: u8)
    requires
        n < 16,
    ensures
        r == hex_digit_lower(n),
{
    if n < 10 {
        0x30 + n
    } else {
        0x61 + (n - 10)
    }
}

/// Render bytes in unpadded lower-case hexadecimal.
pub fn to_lower_hex_nopad(bytes: &Vec<u8>) -> (r: String)
    ensures
        r@ == lower_hex_nopad(bytes@),
{
    let mut r = String::new();
    let n = bytes.len();
    let mut i: usize = 0;
    while i < n
        invariant
            i <= n,
            n == bytes@.len(),
            r@ == lower_hex_upto(bytes@, i as int),
        decreases n - i,
    {
        let b = bytes[i];
        if b < 16 {
            push_char(&mut r, hex_digit_lower_exec(b) as char);
        } else {
            push_char(&mut r, hex_digit_lower_exec(b / 16) as char);
            push_char(&mut r, hex_digit_lower_exec(b % 16) as char);
        }
        i = i + 1;
        proof {
            assert(r@ =~= lower_hex_upto(bytes@, i as int));
        }
    }
    r
}

/// The cache key of raw content: the unpadded lower-case hexadecimal form of
/// its SHA-256 digest.
pub fn cache_key(raw: &[u8]) -> (r: String)
    ensures
        r@ == lower_hex_nopad(sha256_of(raw@)),
{
    let digest = sha256(raw);
    to_lower_hex_nopad(&digest)
}

} // verus!
