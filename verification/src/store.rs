//! The encrypted store: at most one clipboard entry, held as a nonce and a
//! ciphertext under a session key that never changes.

use crate::cipher::{
    bytes_view, fresh_nonce, open, openable, opened, scrub, scrub_key, seal, sealable, sealed,
    KEY_LEN, MAX_MESSAGE_LEN, NONCE_LEN, TAG_LEN,
};
use crate::key::{validate_key, ConfigError};
use vstd::prelude::*;

verus! {

/// Why a store operation failed.
#[derive(Debug, Clone, Copy, PartialEq, Eq, Structural)]
pub enum StoreError {
    /// Nothing has been copied yet.
    Empty,
    /// The cipher refused the plaintext.
    Encryption,
    /// The stored ciphertext did not authenticate.
    Decryption,
}

impl StoreError {
    /// The text a client is shown for this error.
    pub open spec fn message_spec(self) -> Seq<char> {
        match self {
            StoreError::Empty => "clipboard is empty"@,
            StoreError::Encryption => "encryption failed"@,
            StoreError::Decryption => "decryption failed"@,
        }
    }

    /// The text a client is shown for this error.
    pub fn message(&self) -> (r: String)
        ensures
            r@ == self.message_spec(),
    {
        match self {
            StoreError::Empty => "clipboard is empty".to_owned(),
            StoreError::Encryption => "encryption failed".to_owned(),
            StoreError::Decryption => "decryption failed".to_owned(),
        }
    }
}

/// One clipboard entry: a ciphertext and the nonce it was made with.
pub struct EncryptedBuffer {
    nonce: [u8; 12],
    ciphertext: Vec<u8>,
}

/// An entry as a mathematical value.
pub struct EntryView {
    pub nonce: Seq<u8>,
    pub ciphertext: Seq<u8>,
}

impl View for EncryptedBuffer {
    type V = EntryView;

    closed spec fn view(&self) -> EntryView {
        EntryView { nonce: self.nonce@, ciphertext: self.ciphertext@ }
    }
}

impl Drop for EncryptedBuffer {
    /// Scrubs the ciphertext before its memory is released.
    fn drop(&mut self)
        opens_invariants none
        no_unwind
    {
        scrub(&mut self.ciphertext);
    }
}

impl Drop for State {
    /// Scrubs the key before its memory is released. (The entry scrubs
    /// itself.)
    fn drop(&mut self)
        opens_invariants none
        no_unwind
    {
        scrub_key(&mut self.key);
    }
}

impl EncryptedBuffer {
    /// The nonce the entry was encrypted with.
    pub fn nonce(&self) -> (r: [u8; 12])
        ensures
            r@ == self@.nonce,
    {
        self.nonce
    }

    /// The entry's ciphertext.
    pub fn ciphertext(&self) -> (r: &[u8])
        ensures
            r@ == self@.ciphertext,
    {
        self.ciphertext.as_slice()
    }
}

/// The daemon's clipboard state: the session key and at most one entry.
pub struct State {
    key: [u8; 32],
    buffer: Option<EncryptedBuffer>,
}

/// A state as a mathematical value.
pub struct StateView {
    pub key: Seq<u8>,
    pub entry: Option<EntryView>,
}

impl StateView {
    /// What a load returns in this state: the empty-clipboard error without
    /// an entry, else what the entry decrypts to under the key, else the
    /// decryption error. A ciphertext too long for the cipher to take is a
    /// decryption error as well.
    pub open spec fn recover(self) -> Result<Seq<u8>, StoreError> {
        match self.entry {
            None => Err(StoreError::Empty),
            Some(e) => if !openable(e.ciphertext.len()) {
                Err(StoreError::Decryption)
            } else {
                match opened(self.key, e.nonce, e.ciphertext) {
                    Some(plaintext) => Ok(plaintext),
                    None => Err(StoreError::Decryption),
                }
            },
        }
    }

    /// The state after the cipher's answer for a copy is taken in: a
    /// ciphertext replaces the entry whole, a refusal changes nothing.
    pub open spec fn installed(self, nonce: Seq<u8>, outcome: Option<Seq<u8>>) -> StateView {
        match outcome {
            Some(ciphertext) => StateView {
                key: self.key,
                entry: Some(EntryView { nonce, ciphertext }),
            },
            None => self,
        }
    }

    /// The state after `plaintext` is stored under `nonce`.
    pub open spec fn stored(self, nonce: Seq<u8>, plaintext: Seq<u8>) -> StateView {
        self.installed(nonce, sealed(self.key, nonce, plaintext))
    }
}

impl View for State {
    type V = StateView;

    closed spec fn view(&self) -> StateView {
        StateView {
            key: self.key@,
            entry: match self.buffer {
                Some(b) => Some(b@),
                None => None,
            },
        }
    }
}

/// `after` is what a successful copy of `plaintext` under `nonce` leaves of
/// `before`: the entry is replaced whole, carries that nonce, and decrypts
/// to the plaintext.
pub open spec fn store_succeeded(
    before: StateView,
    after: StateView,
    nonce: Seq<u8>,
    plaintext: Seq<u8>,
) -> bool {
    &&& nonce.len() == NONCE_LEN
    &&& sealable(plaintext.len())
    &&& after == before.stored(nonce, plaintext)
    &&& after.entry is Some
    &&& after.entry->0.nonce == nonce
    &&& after.recover() == Ok::<Seq<u8>, StoreError>(plaintext)
}

/// The key after it has been scrubbed: all zeros.
pub open spec fn scrubbed_key() -> Seq<u8> {
    Seq::new(KEY_LEN as nat, |i: int| 0u8)
}

/// The view of a load's result.
pub open spec fn load_view(r: Result<Vec<u8>, StoreError>) -> Result<Seq<u8>, StoreError> {
    match r {
        Ok(plaintext) => Ok(plaintext@),
        Err(e) => Err(e),
    }
}

/// What a load makes of the cipher's answer: the plaintext, or the
/// decryption error where the ciphertext did not authenticate.
pub fn plaintext_or_error(outcome: Option<Vec<u8>>) -> (r: Result<Vec<u8>, StoreError>)
    ensures
        match outcome {
            Some(plaintext) => r == Ok::<Vec<u8>, StoreError>(plaintext),
            None => r == Err::<Vec<u8>, StoreError>(StoreError::Decryption),
        },
{
    match outcome {
        Some(plaintext) => Ok(plaintext),
        None => Err(StoreError::Decryption),
    }
}

impl State {
    /// An empty store under `key`, which must be exactly 32 bytes.
    pub fn new(key: &[u8]) -> (r: Result<State, ConfigError>)
        ensures
            match r {
                Ok(state) => key@.len() == KEY_LEN && state@ == (StateView { key: key@, entry: None }),
                Err(e) => key@.len() != KEY_LEN && e == (ConfigError::InvalidKeyLength {
                    found: key@.len() as usize,
                }),
            },
    {
        match validate_key(key) {
            Ok(key) => Ok(State { key, buffer: None }),
            Err(e) => Err(e),
        }
    }

    /// An empty store under the key that `buffer` holds.
    ///
    /// The buffer is scrubbed before the call returns, whether or not the
    /// key was accepted: the store's own copy is then the only one.
    pub fn from_key_buffer(buffer: &mut Vec<u8>) -> (r: Result<State, ConfigError>)
        ensures
            final(buffer)@.len() == 0,
            match r {
                Ok(state) => old(buffer)@.len() == KEY_LEN && state@ == (StateView {
                    key: old(buffer)@,
                    entry: None,
                }),
                Err(e) => old(buffer)@.len() != KEY_LEN && e == (ConfigError::InvalidKeyLength {
                    found: old(buffer)@.len() as usize,
                }),
            },
    {
        let r = State::new(buffer.as_slice());
        scrub(buffer);
        r
    }

    /// Scrubs the key and discards the entry, for shutdown. The key is all
    /// zeros afterwards, so nothing stored before can be recovered.
    pub fn wipe(&mut self)
        ensures
            final(self)@ == (StateView { key: scrubbed_key(), entry: None }),
    {
        scrub_key(&mut self.key);
        self.buffer = None;
        assert(self.key@ =~= scrubbed_key());
    }

    /// The current entry, if there is one.
    pub fn entry(&self) -> (r: Option<&EncryptedBuffer>)
        ensures
            match r {
                Some(e) => self@.entry == Some(e@),
                None => self@.entry is None,
            },
    {
        self.buffer.as_ref()
    }

    /// Takes in the cipher's answer for a copy made with `nonce`.
    ///
    /// A ciphertext replaces the entry as a whole (the old entry scrubs its
    /// ciphertext as it goes); a refusal leaves the state as it was and is
    /// reported as an encryption error.
    pub fn install(&mut self, nonce: [u8; 12], outcome: Option<Vec<u8>>) -> (r: Result<
        (),
        StoreError,
    >)
        ensures
            final(self)@ == old(self)@.installed(nonce@, bytes_view(outcome)),
            outcome is Some ==> r == Ok::<(), StoreError>(()),
            outcome is None ==> r == Err::<(), StoreError>(StoreError::Encryption),
    {
        match outcome {
            None => Err(StoreError::Encryption),
            Some(ciphertext) => {
                self.buffer = Some(EncryptedBuffer { nonce, ciphertext });
                Ok(())
            },
        }
    }

    /// Encrypts `plaintext` under `nonce` and makes it the entry.
    ///
    /// The copy succeeds exactly when the plaintext's length can be
    /// encrypted. On success the new entry is the only one, carries `nonce`,
    /// and decrypts to `plaintext`; on failure nothing changes.
    pub fn store_with_nonce(&mut self, nonce: [u8; 12], plaintext: &[u8]) -> (r: Result<
        (),
        StoreError,
    >)
        ensures
            r is Ok <==> sealable(plaintext@.len()),
            r is Ok ==> store_succeeded(old(self)@, final(self)@, nonce@, plaintext@),
            r is Err ==> r == Err::<(), StoreError>(StoreError::Encryption) && final(self)@ == old(self)@,
            final(self)@.key == old(self)@.key,
    {
        if plaintext.len() > (isize::MAX as usize) - TAG_LEN {
            return Err(StoreError::Encryption);
        }
        if plaintext.len() as u64 > MAX_MESSAGE_LEN {
            return Err(StoreError::Encryption);
        }
        let outcome = seal(&self.key, &nonce, plaintext);
        self.install(nonce, outcome)
    }

    /// Makes `plaintext` the entry under the nonce that was drawn, if one
    /// was: without a nonce the copy is refused as an encryption error.
    ///
    /// The copy succeeds exactly when a nonce was drawn and the plaintext's
    /// length can be encrypted; the rest is as for `store_with_nonce`.
    pub fn store_drawn(&mut self, drawn: Option<[u8; 12]>, plaintext: &[u8]) -> (r: Result<
        (),
        StoreError,
    >)
        ensures
            r is Ok <==> drawn is Some && sealable(plaintext@.len()),
            r is Ok ==> store_succeeded(old(self)@, final(self)@, drawn->0@, plaintext@),
            r is Err ==> r == Err::<(), StoreError>(StoreError::Encryption) && final(self)@ == old(self)@,
            final(self)@.key == old(self)@.key,
    {
        match drawn {
            Some(nonce) => self.store_with_nonce(nonce, plaintext),
            None => Err(StoreError::Encryption),
        }
    }

    /// Encrypts `plaintext` under a fresh random nonce and makes it the entry.
    ///
    /// Whether a nonce can be drawn is for the random source to decide.
    /// Whatever it gave: a plaintext too long to encrypt is refused; a copy
    /// that succeeds leaves, for the nonce that was drawn, what
    /// `store_succeeded` says; a copy that fails is an encryption error and
    /// changes nothing.
    pub fn store(&mut self, plaintext: &[u8]) -> (r: Result<(), StoreError>)
        ensures
            r is Ok ==> exists|nonce: Seq<u8>| #[trigger]
                store_succeeded(old(self)@, final(self)@, nonce, plaintext@),
            r is Ok ==> final(self)@.recover() == Ok::<Seq<u8>, StoreError>(plaintext@),
            !sealable(plaintext@.len()) ==> r is Err,
            r is Err ==> r == Err::<(), StoreError>(StoreError::Encryption) && final(self)@ == old(self)@,
            final(self)@.key == old(self)@.key,
    {
        let drawn = fresh_nonce();
        self.store_drawn(drawn, plaintext)
    }

    /// Decrypts the entry and returns a copy of the plaintext.
    ///
    /// Fails with `Empty` when nothing is stored and with `Decryption` when
    /// the stored ciphertext does not authenticate or is too long for the
    /// cipher to take.
    pub fn load(&self) -> (r: Result<Vec<u8>, StoreError>)
        ensures
            load_view(r) == self@.recover(),
    {
        match &self.buffer {
            None => Err(StoreError::Empty),
            Some(entry) => {
                if entry.ciphertext.len() as u64 > MAX_MESSAGE_LEN + TAG_LEN as u64 {
                    return Err(StoreError::Decryption);
                }
                let outcome = open(&self.key, &entry.nonce, entry.ciphertext.as_slice());
                plaintext_or_error(outcome)
            },
        }
    }
}

/// Replacement keeps no history: a copy either is refused and leaves the
/// store as it was, or leaves an entry made of the key, the nonce and the
/// plaintext alone, the same whatever was stored before.
pub proof fn replacement_keeps_no_history(
    a: StateView,
    b: StateView,
    nonce: Seq<u8>,
    plaintext: Seq<u8>,
)
    requires
        a.key == b.key,
    ensures
        a.stored(nonce, plaintext).key == a.key,
        ({
            ||| a.stored(nonce, plaintext) == a && b.stored(nonce, plaintext) == b
            ||| {
                &&& a.stored(nonce, plaintext) == b.stored(nonce, plaintext)
                &&& a.stored(nonce, plaintext).entry matches Some(e)
                &&& e.nonce == nonce
                &&& Some(e.ciphertext) == sealed(a.key, nonce, plaintext)
            }
        }),
{
}

/// The nonces of a run of successful copies are the nonces that were drawn
/// for them. So as long as the random source never gives the same nonce
/// twice, no two entries of the run carry the same nonce, whatever the
/// plaintexts are.
pub proof fn distinct_draws_give_distinct_nonces(
    states: Seq<StateView>,
    nonces: Seq<Seq<u8>>,
    plaintexts: Seq<Seq<u8>>,
    i: int,
    j: int,
)
    requires
        states.len() == nonces.len() + 1,
        plaintexts.len() == nonces.len(),
        forall|k: int|
            0 <= k < nonces.len() ==> store_succeeded(
                states[k],
                states[k + 1],
                #[trigger] nonces[k],
                plaintexts[k],
            ),
        forall|a: int, b: int| 0 <= a < b < nonces.len() ==> nonces[a] != nonces[b],
        0 <= i < j < nonces.len(),
    ensures
        states[i + 1].entry is Some,
        states[j + 1].entry is Some,
        states[i + 1].entry->0.nonce == nonces[i],
        states[j + 1].entry->0.nonce == nonces[j],
        states[i + 1].entry->0.nonce != states[j + 1].entry->0.nonce,
{
    assert(store_succeeded(states[i], states[i + 1], nonces[i], plaintexts[i]));
    assert(store_succeeded(states[j], states[j + 1], nonces[j], plaintexts[j]));
}

} // verus!
