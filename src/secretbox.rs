//! Symmetric authenticated encryption: XSalsa20 for confidentiality, a
//! one-time Poly1305 authenticator for integrity.
//!
//! The first 32 bytes of the keystream are the Poly1305 key; the message is
//! XORed with the keystream from byte 32 on. The ciphertext is the 16-byte tag
//! followed by the encrypted payload.
use vstd::prelude::*;
use crate::primitives::{
    fixed_time_eq, keystream, poly1305_of, poly1305_tag, xor_bytes, xsalsa20_keystream_at,
    xsalsa20_xor,
};

verus! {

/// The length of the crypto_secretbox key in bytes.
#[allow(non_upper_case_globals)]
pub const crypto_secretbox_KEYBYTES: usize = 32;

/// The length of the crypto_secretbox nonce in bytes.
#[allow(non_upper_case_globals)]
pub const crypto_secretbox_NONCEBYTES: usize = 24;

/// The length of the crypto_secretbox overhead (the tag) in bytes.
#[allow(non_upper_case_globals)]
pub const crypto_secretbox_OVERHEAD: usize = 16;

/// Bytes of keystream reserved for the one-time authenticator key.
pub const AUTH_KEY_BYTES: usize = 32;

/// The error of a failed decryption: the ciphertext is too short to hold a
/// tag, or its tag does not authenticate its payload.
#[derive(Debug, Clone, Copy, PartialEq, Eq)]
pub struct AuthFailure;

/// The one-time authenticator key for `(key, nonce)`.
pub open spec fn auth_key(key: Seq<u8>, nonce: Seq<u8>) -> Seq<u8> {
    keystream(key, nonce, 32)
}

/// `data` encrypted with the keystream from byte 32 on.
pub open spec fn payload_xor(data: Seq<u8>, key: Seq<u8>, nonce: Seq<u8>) -> Seq<u8> {
    xor_bytes(data, keystream(key, nonce, data.len() + 32).skip(32))
}

/// The ciphertext of `msg`: its tag followed by its encrypted payload.
pub open spec fn sealed(msg: Seq<u8>, nonce: Seq<u8>, key: Seq<u8>) -> Seq<u8> {
    let payload = payload_xor(msg, key, nonce);
    poly1305_of(auth_key(key, nonce), payload)@ + payload
}

/// Whether the first 16 bytes of `c` authenticate the rest of it.
pub open spec fn tag_valid(c: Seq<u8>, nonce: Seq<u8>, key: Seq<u8>) -> bool {
    c.len() >= 16 && c.take(16) == poly1305_of(auth_key(key, nonce), c.skip(16))@
}

/// The plaintext of `c`, or `None` where `c` is not authentic.
pub open spec fn opened(c: Seq<u8>, nonce: Seq<u8>, key: Seq<u8>) -> Option<Seq<u8>> {
    if tag_valid(c, nonce, key) {
        Some(payload_xor(c.skip(16), key, nonce))
    } else {
        None
    }
}

/// The contents of a decryption result, as an `Option`.
pub open spec fn open_result(r: Result<Vec<u8>, AuthFailure>) -> Option<Seq<u8>> {
    match r {
        Ok(p) => Some(p@),
        Err(_) => None,
    }
}

proof fn lemma_xor_zero_left(x: u8)
    ensures
        0u8 ^ x == x,
{
    assert(0u8 ^ x == x) by (bit_vector);
}

proof fn lemma_xor_cancel(a: u8, b: u8)
    ensures
        (a ^ b) ^ b == a,
{
    assert((a ^ b) ^ b == a) by (bit_vector);
}

/// Encrypting `zeros(32) ++ data` yields the authenticator key followed by
/// `data` encrypted from keystream byte 32 on.
proof fn lemma_stream_split(key: Seq<u8>, nonce: Seq<u8>, data: Seq<u8>, padded: Seq<u8>, out: Seq<u8>)
    requires
        padded.len() == data.len() + 32,
        forall|i: int| 0 <= i < 32 ==> padded[i] == 0u8,
        forall|i: int| 0 <= i < data.len() ==> padded[i + 32] == data[i],
        out.len() == padded.len(),
        forall|i: int|
            0 <= i < padded.len() ==> #[trigger] out[i] == padded[i] ^ xsalsa20_keystream_at(
                key,
                nonce,
                i as nat,
            ),
    ensures
        out.take(32) == auth_key(key, nonce),
        out.skip(32) == payload_xor(data, key, nonce),
{
    assert forall|i: int| 0 <= i < 32 implies out.take(32)[i] == auth_key(key, nonce)[i] by {
        lemma_xor_zero_left(xsalsa20_keystream_at(key, nonce, i as nat));
        assert(out[i] == padded[i] ^ xsalsa20_keystream_at(key, nonce, i as nat));
    }
    assert(out.take(32) =~= auth_key(key, nonce));
    assert forall|i: int| 0 <= i < data.len() implies out.skip(32)[i] == payload_xor(
        data,
        key,
        nonce,
    )[i] by {
        assert(out[i + 32] == padded[i + 32] ^ xsalsa20_keystream_at(key, nonce, (i + 32) as nat));
    }
    assert(out.skip(32) =~= payload_xor(data, key, nonce));
}

/// Opening a sealed message under the same key and nonce gives the message
/// back, for every message, the empty one included.
pub proof fn lemma_secretbox_round_trip(msg: Seq<u8>, nonce: Seq<u8>, key: Seq<u8>)
    ensures
        opened(sealed(msg, nonce, key), nonce, key) == Some(msg),
{
    let c = sealed(msg, nonce, key);
    let payload = payload_xor(msg, key, nonce);
    assert(c.take(16) =~= poly1305_of(auth_key(key, nonce), payload)@);
    assert(c.skip(16) =~= payload);
    let back = payload_xor(payload, key, nonce);
    assert forall|i: int| 0 <= i < msg.len() implies back[i] == msg[i] by {
        lemma_xor_cancel(msg[i], keystream(key, nonce, msg.len() + 32)[i + 32]);
    }
    assert(back =~= msg);
}

/// A ciphertext is always 16 bytes longer than its message, and a sequence
/// shorter than 16 bytes never opens.
pub proof fn lemma_secretbox_lengths(msg: Seq<u8>, c: Seq<u8>, nonce: Seq<u8>, key: Seq<u8>)
    ensures
        sealed(msg, nonce, key).len() == msg.len() + 16,
        c.len() < 16 ==> opened(c, nonce, key) is None,
{
}

/// Encryption is a function of message, nonce and key: sealing the same
/// inputs twice gives the same ciphertext.
pub proof fn lemma_secretbox_deterministic(
    msg1: Seq<u8>,
    nonce1: Seq<u8>,
    key1: Seq<u8>,
    msg2: Seq<u8>,
    nonce2: Seq<u8>,
    key2: Seq<u8>,
)
    requires
        msg1 == msg2,
        nonce1 == nonce2,
        key1 == key2,
    ensures
        sealed(msg1, nonce1, key1) == sealed(msg2, nonce2, key2),
{
}

/// A sealed message whose tag was changed in any way (a flipped bit, or any
/// other value XORed in) while its payload was kept fails to open.
pub proof fn lemma_changed_tag_rejected(msg: Seq<u8>, nonce: Seq<u8>, key: Seq<u8>, forged: Seq<u8>)
    requires
        forged.len() == sealed(msg, nonce, key).len(),
        forged.skip(16) == sealed(msg, nonce, key).skip(16),
        forged.take(16) != sealed(msg, nonce, key).take(16),
    ensures
        opened(forged, nonce, key) is None,
{
    let c = sealed(msg, nonce, key);
    let payload = payload_xor(msg, key, nonce);
    assert(c.take(16) =~= poly1305_of(auth_key(key, nonce), payload)@);
    assert(c.skip(16) =~= payload);
}

/// Builds `zeros(32) ++ data`.
fn zero_prefixed(data: &[u8]) -> (r: Vec<u8>)
    requires
        data@.len() + AUTH_KEY_BYTES <= usize::MAX,
    ensures
        r@.len() == data@.len() + 32,
        forall|i: int| 0 <= i < 32 ==> r@[i] == 0u8,
        forall|i: int| 0 <= i < data@.len() ==> r@[i + 32] == data@[i],
{
    let mut r: Vec<u8> = Vec::with_capacity(data.len() + AUTH_KEY_BYTES);
    let mut i: usize = 0;
    while i < AUTH_KEY_BYTES
        invariant
            i <= 32,
            r@.len() == i,
            forall|j: int| 0 <= j < i ==> r@[j] == 0u8,
        decreases 32 - i,
    {
        r.push(0u8);
        i = i + 1;
    }
    let mut j: usize = 0;
    while j < data.len()
        invariant
            j <= data@.len(),
            r@.len() == j + 32,
            forall|k: int| 0 <= k < 32 ==> r@[k] == 0u8,
            forall|k: int| 0 <= k < j ==> r@[k + 32] == data@[k],
        decreases data@.len() - j,
    {
        r.push(data[j]);
        j = j + 1;
    }
    r
}

/// Appends the bytes of `src` to `dst`.
fn append_bytes(dst: &mut Vec<u8>, src: &[u8])
    ensures
        final(dst)@ == old(dst)@ + src@,
{
    let mut j: usize = 0;
    while j < src.len()
        invariant
            j <= src@.len(),
            dst@ == old(dst)@ + src@.take(j as int),
        decreases src@.len() - j,
    {
        dst.push(src[j]);
        j = j + 1;
        assert(dst@ =~= old(dst)@ + src@.take(j as int));
    }
    assert(src@.take(src@.len() as int) =~= src@);
}

/// Symmetric authenticated encryption.
///
/// Encrypts and authenticates `msg` under `key` and `nonce`, returning the
/// 16-byte tag followed by the encrypted message. A nonce must never be
/// reused with the same key.
pub fn crypto_secretbox(msg: &[u8], nonce: &[u8], key: &[u8]) -> (r: Vec<u8>)
    requires
        key@.len() == crypto_secretbox_KEYBYTES,
        nonce@.len() == crypto_secretbox_NONCEBYTES,
        msg@.len() + AUTH_KEY_BYTES <= usize::MAX,
    ensures
        r@ == sealed(msg@, nonce@, key@),
        r@.len() == msg@.len() + crypto_secretbox_OVERHEAD,
{
    let padded = zero_prefixed(msg);
    let stream = xsalsa20_xor(key, nonce, padded.as_slice());
    proof {
        lemma_stream_split(key@, nonce@, msg@, padded@, stream@);
    }
    let stream_slice = stream.as_slice();
    let len = stream_slice.len();
    let auth = &stream_slice[0..AUTH_KEY_BYTES];
    let payload = &stream_slice[AUTH_KEY_BYTES..len];
    assert(auth@ == stream@.take(32));
    assert(payload@ == stream@.skip(32));
    let tag = poly1305_tag(auth, payload);
    let mut out: Vec<u8> = Vec::with_capacity(len - 16);
    append_bytes(&mut out, tag.as_slice());
    append_bytes(&mut out, payload);
    out
}

/// Symmetric authenticated decryption.
///
/// Checks, in fixed time, that the leading 16-byte tag of `ciphertext`
/// authenticates the rest of it under `key` and `nonce`, and only then
/// decrypts. A ciphertext shorter than the tag fails at once.
pub fn crypto_secretbox_open(ciphertext: &[u8], nonce: &[u8], key: &[u8]) -> (r: Result<
    Vec<u8>,
    AuthFailure,
>)
    requires
        key@.len() == crypto_secretbox_KEYBYTES,
        nonce@.len() == crypto_secretbox_NONCEBYTES,
        ciphertext@.len() + AUTH_KEY_BYTES <= usize::MAX,
    ensures
        open_result(r) == opened(ciphertext@, nonce@, key@),
        ciphertext@.len() < crypto_secretbox_OVERHEAD ==> r is Err,
{
    let len = ciphertext.len();
    if len < crypto_secretbox_OVERHEAD {
        return Err(AuthFailure);
    }
    let tag = &ciphertext[0..crypto_secretbox_OVERHEAD];
    let payload = &ciphertext[crypto_secretbox_OVERHEAD..len];
    assert(tag@ == ciphertext@.take(16));
    assert(payload@ == ciphertext@.skip(16));

    let zeros = [0u8; 32];
    let auth = xsalsa20_xor(key, nonce, zeros.as_slice());
    proof {
        assert forall|i: int| 0 <= i < 32 implies auth@[i] == auth_key(key@, nonce@)[i] by {
            lemma_xor_zero_left(xsalsa20_keystream_at(key@, nonce@, i as nat));
        }
        assert(auth@ =~= auth_key(key@, nonce@));
    }
    let expected = poly1305_tag(auth.as_slice(), payload);
    if !fixed_time_eq(expected.as_slice(), tag) {
        return Err(AuthFailure);
    }
    let padded = zero_prefixed(payload);
    let stream = xsalsa20_xor(key, nonce, padded.as_slice());
    proof {
        lemma_stream_split(key@, nonce@, payload@, padded@, stream@);
    }
    let stream_slice = stream.as_slice();
    let plain = &stream_slice[AUTH_KEY_BYTES..stream_slice.len()];
    let mut out: Vec<u8> = Vec::with_capacity(plain.len());
    append_bytes(&mut out, plain);
    assert(out@ =~= stream@.skip(32));
    Ok(out)
}

} // verus!
