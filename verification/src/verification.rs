//! Checksums: CRC32 and SHA-256 of byte strings, and the checks that
//! compare them with expected values.

use vstd::prelude::*;

use crate::error::Error;

verus! {

/// The CRC32 (IEEE) checksum `crc32fast::hash` computes over `data`.
pub uninterp spec fn crc32_of(data: Seq<u8>) -> u32;

/// The SHA-256 digest `sha2::Sha256` computes over `data`.
pub uninterp spec fn sha256_of(data: Seq<u8>) -> Seq<u8>;

/// CRC32 of `data`, by `crc32fast::hash`. Claims: the result is
/// `crc32_of(data)`, a function of the bytes alone.
#[verifier::external_body]
pub fn crc32(data: &[u8]) -> (r: u32)
    ensures
        r == crc32_of(data@),
{
    crc32fast::hash(data)
}

/// SHA-256 of `data`, by `sha2::Sha256::digest`. Claims: the result is
/// `sha256_of(data)`, a function of the bytes alone.
#[verifier::external_body]
pub fn sha256(data: &[u8]) -> (r: [u8; 32])
    ensures
        r@ == sha256_of(data@),
{
    <sha2::Sha256 as sha2::Digest>::digest(data).into()
}

/// Whether two 32-byte values are equal, byte for byte.
pub fn digest_eq(a: &[u8; 32], b: &[u8; 32]) -> (r: bool)
    ensures
        r == (a@ == b@),
{
    let mut i: usize = 0;
    while i < 32
        invariant
            i <= 32,
            a@.len() == 32,
            b@.len() == 32,
            forall|k: int| 0 <= k < i ==> a@[k] == b@[k],
        decreases 32 - i,
    {
        if a[i] != b[i] {
            return false;
        }
        i = i + 1;
    }
    assert(a@ =~= b@);
    true
}

/// Check the CRC32 of `data` against `expected`: `Ok` exactly when they
/// match, otherwise a verification error.
pub fn verify_crc32(data: &[u8], expected: u32) -> (r: Result<(), Error>)
    ensures
        r is Ok <==> crc32_of(data@) == expected,
        r is Err ==> r matches Err(Error::Verification(_)),
{
    let actual = crc32(data);
    if actual == expected {
        Ok(())
    } else {
        Err(Error::Verification("CRC32 mismatch".to_string()))
    }
}

/// Check the SHA-256 of `data` against `expected`: `Ok` exactly when they
/// match, otherwise a verification error.
pub fn verify_sha256(data: &[u8], expected: &[u8; 32]) -> (r: Result<(), Error>)
    ensures
        r is Ok <==> sha256_of(data@) == expected@,
        r is Err ==> r matches Err(Error::Verification(_)),
{
    let actual = sha256(data);
    if digest_eq(&actual, expected) {
        Ok(())
    } else {
        Err(Error::Verification("SHA256 mismatch".to_string()))
    }
}

/// The fingerprint of a certificate: the SHA-256 of its DER bytes.
pub fn fingerprint_of(cert_der: &[u8]) -> (r: [u8; 32])
    ensures
        r@ == sha256_of(cert_der@),
{
    sha256(cert_der)
}

/// Certificate pinning: a presented certificate is accepted exactly when
/// its fingerprint is the expected one.
pub fn certificate_matches(cert_der: &[u8], expected: &[u8; 32]) -> (r: bool)
    ensures
        r == (sha256_of(cert_der@) == expected@),
{
    let presented = fingerprint_of(cert_der);
    digest_eq(&presented, expected)
}

} // verus!
