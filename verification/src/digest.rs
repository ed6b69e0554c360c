//! File-integrity checking: comparing a file's SHA-1 digest with the
//! checksum a manifest records for it.
use vstd::prelude::*;
use crate::text::{chars_eq, lower_seq, str_chars, to_ascii_lower};

verus! {

/// The lower-case hexadecimal SHA-1 digest of a byte string. The digest
/// is a pure function of the bytes, so it carries a name rather than a
/// page of equations; `verify_sha1` is checked against real digests by
/// the test suite.
pub uninterp spec fn sha1_hex_of(data: Seq<u8>) -> Seq<char>;

/// Computes the SHA-1 digest of `data` as lower-case hex.
///
/// Relies on `sha1::Sha1` through the `Digest` trait (`new`, `update`,
/// `finalize`): the digest depends on the bytes alone, and its hex
/// rendering has 40 digits.
#[verifier::external_body]
fn sha1_hex(data: &Vec<u8>) -> (r: String)
    ensures
        r@ == sha1_hex_of(data@),
        r@.len() == 40,
{
    let mut hasher = <sha1::Sha1 as sha1::Digest>::new();
    sha1::Digest::update(&mut hasher, data.as_slice());
    format!("{:x}", sha1::Digest::finalize(hasher))
}

/// Whether `data` hashes to the `expected` digest, compared
/// case-insensitively — manifests record digests in either case, the
/// computed rendering is lower-case hex.
pub fn verify_sha1(data: &Vec<u8>, expected: &str) -> (r: bool)
    ensures
        r == (sha1_hex_of(data@) == lower_seq(expected@)),
{
    let h = sha1_hex(data);
    let hv = str_chars(h.as_str());
    let ev = to_ascii_lower(&str_chars(expected));
    chars_eq(&hv, &ev)
}

} // verus!
