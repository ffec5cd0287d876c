//! The authenticated cipher, the random source and the memory scrubber the
//! store relies on.
//!
//! Everything in this file is a thin call into another crate. The contracts
//! written here are taken on trust: they are not proved.

use chacha20poly1305::aead::{Aead, KeyInit};
use chacha20poly1305::{ChaCha20Poly1305, Key, Nonce};
use rand::rngs::OsRng;
use rand::RngCore;
use vstd::prelude::*;
use zeroize::Zeroize;

verus! {

/// Bytes in a session key.
pub const KEY_LEN: usize = 32;

/// Bytes in a nonce.
pub const NONCE_LEN: usize = 12;

/// Bytes the cipher appends to a message as its authentication tag.
pub const TAG_LEN: usize = 16;

/// The ciphertext (message and tag) that ChaCha20-Poly1305 gives for
/// `plaintext` under `key` and `nonce` with no associated data, or `None`
/// where it gives none.
pub uninterp spec fn sealed(key: Seq<u8>, nonce: Seq<u8>, plaintext: Seq<u8>) -> Option<Seq<u8>>;

/// The plaintext that ChaCha20-Poly1305 recovers from `ciphertext` under
/// `key` and `nonce` with no associated data, or `None` where the
/// ciphertext does not authenticate.
pub uninterp spec fn opened(key: Seq<u8>, nonce: Seq<u8>, ciphertext: Seq<u8>) -> Option<Seq<u8>>;

/// The view of an optional byte vector.
pub open spec fn bytes_view(bytes: Option<Vec<u8>>) -> Option<Seq<u8>> {
    match bytes {
        Some(b) => Some(b@),
        None => None,
    }
}

/// The longest message the cipher takes: 2^32 - 2 blocks of 64 bytes, which
/// is all the keystream that is left once the first block has gone into the
/// authentication key.
pub const MAX_MESSAGE_LEN: u64 = 0x3F_FFFF_FF80;

/// The message lengths that can be encrypted: no longer than
/// `MAX_MESSAGE_LEN`, and with room for the tag in one allocation.
pub open spec fn sealable(len: nat) -> bool {
    len <= MAX_MESSAGE_LEN && len + TAG_LEN <= isize::MAX
}

/// The ciphertext lengths that can be handed to the cipher: a message part
/// (what precedes the tag) no longer than `MAX_MESSAGE_LEN`.
pub open spec fn openable(len: nat) -> bool {
    len <= MAX_MESSAGE_LEN + TAG_LEN
}

/// Calls `ChaCha20Poly1305::encrypt` (from the `Aead` trait) with a cipher
/// built from `key` by `KeyInit::new`.
///
/// The precondition leaves out the lengths on which the call does not
/// return a value: beyond `MAX_MESSAGE_LEN` the cipher either refuses the
/// message or runs out of keystream and panics, and message plus tag must
/// fit one allocation.
///
/// Trusted: within that bound the call succeeds; the result is a function of
/// key, nonce and plaintext alone; a ciphertext is the message's length plus
/// a 16-byte tag; and decrypting it under the same key and nonce gives the
/// plaintext back.
#[verifier::external_body]
pub(crate) fn seal(key: &[u8; 32], nonce: &[u8; 12], plaintext: &[u8]) -> (r: Option<Vec<u8>>)
    requires
        sealable(plaintext@.len()),
    ensures
        bytes_view(r) == sealed(key@, nonce@, plaintext@),
        r is Some,
        r matches Some(c) ==> c@.len() == plaintext@.len() + TAG_LEN && opened(key@, nonce@, c@)
            == Some(plaintext@),
{
    let cipher = ChaCha20Poly1305::new(Key::from_slice(key));
    cipher.encrypt(Nonce::from_slice(nonce), plaintext).ok()
}

/// Calls `ChaCha20Poly1305::decrypt` (from the `Aead` trait) with a cipher
/// built from `key` by `KeyInit::new`.
///
/// The precondition leaves out the lengths on which an authentic ciphertext
/// would run the cipher out of keystream, where the call panics.
///
/// Trusted: the result is a function of key, nonce and ciphertext alone.
#[verifier::external_body]
pub(crate) fn open(key: &[u8; 32], nonce: &[u8; 12], ciphertext: &[u8]) -> (r: Option<Vec<u8>>)
    requires
        openable(ciphertext@.len()),
    ensures
        bytes_view(r) == opened(key@, nonce@, ciphertext@),
{
    let cipher = ChaCha20Poly1305::new(Key::from_slice(key));
    cipher.decrypt(Nonce::from_slice(nonce), ciphertext).ok()
}

/// Calls `RngCore::try_fill_bytes` on the operating system's random number
/// generator.
///
/// Nothing is promised of the result: the generator may fail, and two calls
/// may return the same nonce.
#[verifier::external_body]
pub(crate) fn fresh_nonce() -> Option<[u8; 12]> {
    let mut nonce = [0u8; 12];
    match OsRng.try_fill_bytes(&mut nonce) {
        Ok(()) => Some(nonce),
        Err(_) => None,
    }
}

/// Calls `Zeroize::zeroize` on a key.
///
/// Trusted: every byte of the key is zero afterwards, and the call does not
/// unwind.
#[verifier::external_body]
pub(crate) fn scrub_key(key: &mut [u8; 32])
    ensures
        forall|i: int| 0 <= i < KEY_LEN ==> final(key)@[i] == 0,
    opens_invariants none
    no_unwind
{
    key.zeroize();
}

/// Calls `Zeroize::zeroize` on a byte vector.
///
/// Trusted: the vector is empty afterwards, and the call does not unwind.
/// (Its former bytes, and its spare capacity, are overwritten with zeros
/// first; no contract can observe that.)
#[verifier::external_body]
pub(crate) fn scrub(buffer: &mut Vec<u8>)
    ensures
        final(buffer)@.len() == 0,
    opens_invariants none
    no_unwind
{
    buffer.zeroize();
}

} // verus!
