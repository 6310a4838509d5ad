//! The cryptographic building blocks, taken from the `crypto` crate.
//!
//! Each outside function is reached through one small wrapper whose contract
//! names its result. The names below are functions of their arguments alone;
//! nothing else is claimed of them except the structure that the outside
//! source shows (a stream cipher XORs its keystream into its input, and
//! `curve25519_base` multiplies by the point whose first byte is 9).
use vstd::prelude::*;
use crypto::curve25519::{curve25519, curve25519_base};
use crypto::digest::Digest;
use crypto::mac::Mac;
use crypto::poly1305::Poly1305;
use crypto::salsa20::{hsalsa20, Salsa20};
use crypto::sha2::Sha512Trunc256;
use crypto::symmetriccipher::SynchronousStreamCipher;
use rand::RngCore;

verus! {

/// Curve25519 scalar multiplication of the point `point` by the scalar `scalar`.
pub uninterp spec fn curve25519_of(scalar: Seq<u8>, point: Seq<u8>) -> [u8; 32];

/// The HSalsa20 core applied to a 32-byte key and a 16-byte nonce.
pub uninterp spec fn hsalsa20_of(key: Seq<u8>, nonce: Seq<u8>) -> [u8; 32];

/// The XSalsa20 keystream byte at position `pos` for a 32-byte key and a
/// 24-byte nonce.
pub uninterp spec fn xsalsa20_keystream_at(key: Seq<u8>, nonce: Seq<u8>, pos: nat) -> u8;

/// The Poly1305 authenticator of `msg` under the one-time key `key`.
pub uninterp spec fn poly1305_of(key: Seq<u8>, msg: Seq<u8>) -> [u8; 16];

/// The SHA-512/256 digest of `data`.
pub uninterp spec fn sha512_trunc256_of(data: Seq<u8>) -> [u8; 32];

/// The Curve25519 base point: the u-coordinate 9, little-endian.
pub open spec fn base_point() -> Seq<u8> {
    Seq::new(32, |i: int| if i == 0 { 9u8 } else { 0u8 })
}

/// The first `len` bytes of the XSalsa20 keystream.
pub open spec fn keystream(key: Seq<u8>, nonce: Seq<u8>, len: nat) -> Seq<u8> {
    Seq::new(len, |i: int| xsalsa20_keystream_at(key, nonce, i as nat))
}

/// `a` XORed byte by byte with the first `a.len()` bytes of `b`.
pub open spec fn xor_bytes(a: Seq<u8>, b: Seq<u8>) -> Seq<u8> {
    Seq::new(a.len(), |i: int| a[i] ^ b[i])
}

/// Relies on `crypto::curve25519::curve25519`: the scalar multiplication
/// `scalar * point`, reading 32 bytes of each argument.
#[verifier::external_body]
pub(crate) fn scalar_mult(scalar: &[u8], point: &[u8]) -> (r: [u8; 32])
    requires
        scalar@.len() == 32,
        point@.len() == 32,
    ensures
        r == curve25519_of(scalar@, point@),
{
    curve25519(scalar, point)
}

/// Relies on `crypto::curve25519::curve25519_base`, whose body is
/// `curve25519(x, base)` with `base` the 32 bytes `9, 0, ..., 0`.
#[verifier::external_body]
pub(crate) fn scalar_mult_base(scalar: &[u8]) -> (r: [u8; 32])
    requires
        scalar@.len() == 32,
    ensures
        r == curve25519_of(scalar@, base_point()),
{
    curve25519_base(scalar)
}

/// Relies on `crypto::salsa20::hsalsa20`, which writes 32 bytes of output.
#[verifier::external_body]
pub(crate) fn hsalsa20_derive(key: &[u8], nonce: &[u8]) -> (r: [u8; 32])
    requires
        key@.len() == 32,
        nonce@.len() == 16,
    ensures
        r == hsalsa20_of(key@, nonce@),
{
    let mut out = [0u8; 32];
    hsalsa20(key, nonce, &mut out);
    out
}

/// Relies on `crypto::salsa20::Salsa20::new_xsalsa20` and its
/// `SynchronousStreamCipher::process`: a fresh cipher XORs byte `i` of the
/// input with keystream byte `i`.
#[verifier::external_body]
pub(crate) fn xsalsa20_xor(key: &[u8], nonce: &[u8], input: &[u8]) -> (r: Vec<u8>)
    requires
        key@.len() == 32,
        nonce@.len() == 24,
    ensures
        r@.len() == input@.len(),
        forall|i: int|
            0 <= i < input@.len() ==> #[trigger] r@[i] == input@[i] ^ xsalsa20_keystream_at(
                key@,
                nonce@,
                i as nat,
            ),
{
    let mut cipher = Salsa20::new_xsalsa20(key, nonce);
    let mut out = vec![0u8; input.len()];
    cipher.process(input, &mut out);
    out
}

/// Relies on `crypto::poly1305::Poly1305` (`new`, `Mac::input`,
/// `Mac::raw_result`): the 16-byte authenticator of `msg` under `key`.
#[verifier::external_body]
pub(crate) fn poly1305_tag(key: &[u8], msg: &[u8]) -> (r: [u8; 16])
    requires
        key@.len() == 32,
    ensures
        r == poly1305_of(key@, msg@),
{
    let mut mac = Poly1305::new(key);
    mac.input(msg);
    let mut out = [0u8; 16];
    mac.raw_result(&mut out);
    out
}

/// Relies on `crypto::sha2::Sha512Trunc256` (`new`, `Digest::input`,
/// `Digest::result`): the 32-byte SHA-512/256 digest of `data`.
#[verifier::external_body]
pub(crate) fn sha512_trunc256(data: &[u8]) -> (r: [u8; 32])
    ensures
        r == sha512_trunc256_of(data@),
{
    let mut sh = Sha512Trunc256::new();
    sh.input(data);
    let mut out = [0u8; 32];
    sh.result(&mut out);
    out
}

/// Relies on `crypto::util::fixed_time_eq`: true exactly when the two slices
/// are equal, compared in a number of steps that depends on the length only.
/// That function reads the first byte unchecked, so empty slices are left out.
#[verifier::external_body]
pub(crate) fn fixed_time_eq(a: &[u8], b: &[u8]) -> (r: bool)
    requires
        a@.len() > 0,
        b@.len() > 0,
    ensures
        r == (a@ == b@),
{
    crypto::util::fixed_time_eq(a, b)
}

/// Relies on `rand::rngs::OsRng` with `RngCore::try_fill_bytes`: asks the
/// operating system's secure random source to overwrite `buf`, and reports
/// whether it did. Nothing is known of the bytes; the length stays.
#[verifier::external_body]
pub(crate) fn fill_random(buf: &mut [u8]) -> (ok: bool)
    ensures
        final(buf)@.len() == old(buf)@.len(),
{
    rand::rngs::OsRng.try_fill_bytes(buf).is_ok()
}

} // verus!
