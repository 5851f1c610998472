//! The cryptographic and encoding primitives that the command layer builds
//! on. They are computed by the `sha2`, `hmac` and `byteorder` crates; what
//! this module states of them is taken on trust.
use byteorder::{ByteOrder, LittleEndian};
use hmac::{Hmac, Mac};
use sha2::{Digest, Sha256};
use vstd::prelude::*;

verus! {

/// The SHA-256 digest of `data`.
pub uninterp spec fn sha256(data: Seq<u8>) -> Seq<u8>;

/// The HMAC-SHA-256 code of `data` under `key`.
pub uninterp spec fn hmac_sha256(key: Seq<u8>, data: Seq<u8>) -> Seq<u8>;

/// The four bytes of `value`, least significant first.
pub open spec fn u32_le_bytes(value: u32) -> Seq<u8> {
    seq![
        (value % 0x100) as u8,
        (value / 0x100 % 0x100) as u8,
        (value / 0x1_0000 % 0x100) as u8,
        (value / 0x100_0000) as u8,
    ]
}

/// Hashes `data` with `sha2::Sha256::digest`.
///
/// Trusted: the digest is a function of the bytes of `data` alone, which
/// [`sha256`] names.
#[verifier::external_body]
pub(crate) fn hash256(data: &[u8]) -> (digest: [u8; 32])
    ensures
        digest@ == sha256(data@),
{
    Sha256::digest(data).into()
}

/// Computes the authentication code of `data` under `key` with
/// `hmac::Hmac<sha2::Sha256>`: `new_from_slice`, `update`, `finalize`.
///
/// Trusted: the code is a function of the bytes of `key` and `data` alone,
/// which [`hmac_sha256`] names. `new_from_slice` takes a key of any length.
#[verifier::external_body]
pub(crate) fn hmac_256(key: &[u8], data: &[u8]) -> (code: [u8; 32])
    ensures
        code@ == hmac_sha256(key@, data@),
{
    let mut mac = Hmac::<Sha256>::new_from_slice(key).unwrap();
    mac.update(data);
    mac.finalize().into_bytes().into()
}

/// Encodes `value` with `byteorder::LittleEndian::write_u32`.
///
/// Trusted: the four bytes written are those of `value`, least significant
/// first.
#[verifier::external_body]
pub(crate) fn encode_u32_le(value: u32) -> (bytes: [u8; 4])
    ensures
        bytes@ == u32_le_bytes(value),
{
    let mut bytes = [0u8; 4];
    LittleEndian::write_u32(&mut bytes, value);
    bytes
}

} // verus!
