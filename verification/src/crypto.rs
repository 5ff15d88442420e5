//! Trusted boundary to the cryptographic and encoding crates.
//!
//! Everything the library needs from `rand`, `sha2` and `base64` is reached
//! through the wrappers below; their contracts state only what those crates
//! document. Digests and base64 decodings are pure functions of their input,
//! so they are given names (`sha256_of`, `b64_decode_of`) that the rest of
//! the library reasons with; random bytes get no name, only a length.

use vstd::prelude::*;

verus! {

use base64::Engine;
use sha2::Digest;

/// The SHA-256 digest of a byte sequence.
pub uninterp spec fn sha256_of(data: Seq<u8>) -> Seq<u8>;

/// What URL-safe, unpadded base64 decoding yields on a character sequence:
/// the decoded bytes, or `None` where the input is not a valid encoding.
pub uninterp spec fn b64_decode_of(s: Seq<char>) -> Option<Seq<u8>>;

/// Relies on rand's thread rng (`rand::fill`) to fill a fresh buffer.
/// The values are random: nothing is assumed of them, only the length.
#[verifier::external_body]
pub(crate) fn random_bytes(n: usize) -> (r: Vec<u8>)
    ensures
        r@.len() == n,
{
    let mut buf = vec![0u8; n];
    rand::fill(&mut buf[..]);
    buf
}

/// Relies on sha2's `Sha256::digest`: the digest depends on the input bytes
/// alone and is exactly 32 bytes long.
#[verifier::external_body]
pub(crate) fn sha256(data: &[u8]) -> (r: Vec<u8>)
    ensures
        r@ == sha256_of(data@),
        r@.len() == 32,
{
    sha2::Sha256::digest(data).to_vec()
}

/// Relies on base64's `URL_SAFE_NO_PAD` engine: `encode` emits only the
/// URL-safe alphabet (`A`-`Z`, `a`-`z`, `0`-`9`, `-`, `_`; in particular no
/// `.`), emits `(4 * n + 2) / 3` characters for `n` input bytes, and its
/// output decodes back to the input (the engine's decode rejects padding and
/// non-zero trailing bits, so decoding inverts encoding exactly).
#[verifier::external_body]
pub(crate) fn b64_encode(b: &[u8]) -> (r: String)
    requires
        b@.len() < 0x1000_0000_0000_0000,
    ensures
        r@.len() == (4 * b@.len() + 2) / 3,
        forall|i: int| 0 <= i < r@.len() ==> r@[i] != '.',
        b64_decode_of(r@) == Some(b@),
{
    base64::engine::general_purpose::URL_SAFE_NO_PAD.encode(b)
}

/// Relies on base64's `URL_SAFE_NO_PAD` engine: `decode` returns the bytes a
/// valid encoding stands for and an error on anything else, which is what
/// the name `b64_decode_of` denotes.
#[verifier::external_body]
pub(crate) fn b64_decode(s: &str) -> (r: Option<Vec<u8>>)
    ensures
        match r {
            Some(v) => b64_decode_of(s@) == Some(v@),
            None => b64_decode_of(s@) is None,
        },
{
    base64::engine::general_purpose::URL_SAFE_NO_PAD.decode(s).ok()
}

/// Appends every byte of `src` to `dst`.
pub(crate) fn push_all(dst: &mut Vec<u8>, src: &[u8])
    ensures
        final(dst)@ == old(dst)@ + src@,
{
    let mut i: usize = 0;
    while i < src.len()
        invariant
            i <= src@.len(),
            dst@ == old(dst)@ + src@.subrange(0, i as int),
        decreases src@.len() - i,
    {
        dst.push(src[i]);
        proof {
            assert(old(dst)@ + src@.subrange(0, i as int + 1)
                =~= (old(dst)@ + src@.subrange(0, i as int)).push(src@[i as int]));
        }
        i = i + 1;
    }
    proof {
        assert(src@.subrange(0, src@.len() as int) =~= src@);
    }
}

} // verus!
