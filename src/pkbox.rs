//! Public-key authenticated encryption: a Curve25519 shared secret, turned
//! into a `crypto_secretbox` key by HSalsa20 with an all-zero nonce.
use vstd::prelude::*;
use vstd::slice::SliceAdditionalExecFns;
use crate::primitives::{
    base_point, curve25519_of, fill_random, hsalsa20_derive, hsalsa20_of, scalar_mult,
    scalar_mult_base, sha512_trunc256, sha512_trunc256_of,
};
use crate::secretbox::{
    crypto_secretbox, crypto_secretbox_open, lemma_secretbox_round_trip, open_result, opened, sealed, AuthFailure,
    AUTH_KEY_BYTES,
};

verus! {

/// The length of the crypto_box public key in bytes.
#[allow(non_upper_case_globals)]
pub const crypto_box_PUBLICKEYBYTES: usize = 32;

/// The length of the crypto_box secret (private) key in bytes.
#[allow(non_upper_case_globals)]
pub const crypto_box_SECRETKEYBYTES: usize = 32;

/// The length of the crypto_box nonce in bytes.
#[allow(non_upper_case_globals)]
pub const crypto_box_NONCEBYTES: usize = 24;

/// The length of the crypto_box overhead in bytes.
#[allow(non_upper_case_globals)]
pub const crypto_box_OVERHEAD: usize = 16;

/// The all-zero 16-byte HSalsa20 nonce used to derive the session key.
pub open spec fn zero_hsalsa_nonce() -> Seq<u8> {
    Seq::new(16, |i: int| 0u8)
}

/// The session key shared by the holder of `sk` and the holder of the
/// secret key behind `pk`.
pub open spec fn session_key(pk: Seq<u8>, sk: Seq<u8>) -> Seq<u8> {
    hsalsa20_of(curve25519_of(sk, pk)@, zero_hsalsa_nonce())@
}

/// The public key of the secret key `sk`.
pub open spec fn public_key_of(sk: Seq<u8>) -> Seq<u8> {
    curve25519_of(sk, base_point())@
}

/// The session key depends on the Curve25519 shared secret alone: where
/// Alice's secret key with Bob's public key gives the same shared secret as
/// Bob's secret key with Alice's public key, both derive one session key, and
/// what one side seals the other side opens.
pub proof fn lemma_session_key_agreement(
    a_pub: Seq<u8>,
    a_sec: Seq<u8>,
    b_pub: Seq<u8>,
    b_sec: Seq<u8>,
    msg: Seq<u8>,
    nonce: Seq<u8>,
)
    requires
        curve25519_of(a_sec, b_pub) == curve25519_of(b_sec, a_pub),
    ensures
        session_key(b_pub, a_sec) == session_key(a_pub, b_sec),
        opened(sealed(msg, nonce, session_key(b_pub, a_sec)), nonce, session_key(a_pub, b_sec))
            == Some(msg),
{
    lemma_secretbox_round_trip(msg, nonce, session_key(b_pub, a_sec));
}

/// Keypair generation from entropy already in `sk`.
///
/// Replaces the 32 bytes of `sk` by their SHA-512/256 digest, which becomes
/// the secret key, and returns the matching public key.
pub fn crypto_box_keypair_from_entropy(sk: &mut [u8]) -> (r: [u8; crypto_box_PUBLICKEYBYTES])
    requires
        old(sk)@.len() == crypto_box_SECRETKEYBYTES,
    ensures
        final(sk)@ == sha512_trunc256_of(old(sk)@)@,
        r@ == public_key_of(final(sk)@),
{
    let digest = sha512_trunc256(sk);
    let mut i: usize = 0;
    while i < crypto_box_SECRETKEYBYTES
        invariant
            i <= 32,
            sk@.len() == 32,
            forall|j: int| 0 <= j < i ==> sk@[j] == digest@[j],
        decreases 32 - i,
    {
        sk.set(i, digest[i]);
        i = i + 1;
    }
    assert(sk@ =~= digest@);
    scalar_mult_base(sk)
}

/// Public-key authenticated encryption/decryption keypair generation.
///
/// Fills `sk` with bytes from the operating system's secure random source,
/// passes them through SHA-512/256 to guard against a weak source, keeps the
/// digest as the secret key and returns the matching public key. Returns
/// `None` where the random source could not be read; `sk` then holds no key.
pub fn crypto_box_keypair(sk: &mut [u8]) -> (r: Option<[u8; crypto_box_PUBLICKEYBYTES]>)
    requires
        old(sk)@.len() == crypto_box_SECRETKEYBYTES,
    ensures
        final(sk)@.len() == crypto_box_SECRETKEYBYTES,
        r matches Some(pk) ==> {
            &&& exists|seed: Seq<u8>| seed.len() == 32 && final(sk)@ == sha512_trunc256_of(seed)@
            &&& pk@ == public_key_of(final(sk)@)
        },
{
    if !fill_random(sk) {
        return None;
    }
    let ghost seed = sk@;
    let pk = crypto_box_keypair_from_entropy(sk);
    assert(sk@ == sha512_trunc256_of(seed)@);
    Some(pk)
}

/// Public-key authenticated encryption/decryption precomputation.
///
/// Does the public-key part of `crypto_box`: the returned session key, given
/// to `crypto_secretbox` or `crypto_secretbox_open`, gives the same results
/// as `crypto_box` or `crypto_box_open` with `pk` and `sk`, so that many
/// messages to or from one peer need one scalar multiplication.
pub fn crypto_box_beforenm(pk: &[u8], sk: &[u8]) -> (r: [u8; crypto_box_SECRETKEYBYTES])
    requires
        pk@.len() == crypto_box_PUBLICKEYBYTES,
        sk@.len() == crypto_box_SECRETKEYBYTES,
    ensures
        r@ == session_key(pk@, sk@),
{
    let curve_key = scalar_mult(sk, pk);
    let zero_nonce = [0u8; 16];
    assert(zero_nonce@ =~= zero_hsalsa_nonce());
    hsalsa20_derive(curve_key.as_slice(), zero_nonce.as_slice())
}

/// Public-key authenticated encryption.
///
/// Encrypts and authenticates `msg` with the sender's secret key `sk`, the
/// receiver's public key `pk` and `nonce`. A nonce must never be reused with
/// the same pair of keys.
pub fn crypto_box(msg: &[u8], nonce: &[u8], pk: &[u8], sk: &[u8]) -> (r: Vec<u8>)
    requires
        nonce@.len() == crypto_box_NONCEBYTES,
        pk@.len() == crypto_box_PUBLICKEYBYTES,
        sk@.len() == crypto_box_SECRETKEYBYTES,
        msg@.len() + AUTH_KEY_BYTES <= usize::MAX,
    ensures
        r@ == sealed(msg@, nonce@, session_key(pk@, sk@)),
        r@.len() == msg@.len() + crypto_box_OVERHEAD,
{
    let key = crypto_box_beforenm(pk, sk);
    crypto_secretbox(msg, nonce, key.as_slice())
}

/// Public-key authenticated decryption.
///
/// Authenticates and decrypts `ciphertext` with the sender's public key
/// `pk`, the receiver's secret key `sk` and `nonce`.
pub fn crypto_box_open(ciphertext: &[u8], nonce: &[u8], pk: &[u8], sk: &[u8]) -> (r: Result<
    Vec<u8>,
    AuthFailure,
>)
    requires
        nonce@.len() == crypto_box_NONCEBYTES,
        pk@.len() == crypto_box_PUBLICKEYBYTES,
        sk@.len() == crypto_box_SECRETKEYBYTES,
        ciphertext@.len() + AUTH_KEY_BYTES <= usize::MAX,
    ensures
        open_result(r) == opened(ciphertext@, nonce@, session_key(pk@, sk@)),
        ciphertext@.len() < crypto_box_OVERHEAD ==> r is Err,
{
    let key = crypto_box_beforenm(pk, sk);
    crypto_secretbox_open(ciphertext, nonce, key.as_slice())
}

} // verus!
