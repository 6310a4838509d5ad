//! NaCl-compatible authenticated encryption: `crypto_secretbox` (XSalsa20 +
//! Poly1305 under a shared key) and `crypto_box` (Curve25519 key agreement
//! followed by `crypto_secretbox`).
pub mod pkbox;
pub mod primitives;
pub mod secretbox;

pub use pkbox::{
    crypto_box, crypto_box_beforenm, crypto_box_keypair, crypto_box_keypair_from_entropy,
    crypto_box_open, crypto_box_NONCEBYTES, crypto_box_OVERHEAD, crypto_box_PUBLICKEYBYTES,
    crypto_box_SECRETKEYBYTES,
};
pub use secretbox::{
    crypto_secretbox, crypto_secretbox_open, crypto_secretbox_KEYBYTES,
    crypto_secretbox_NONCEBYTES, crypto_secretbox_OVERHEAD, AuthFailure,
};
