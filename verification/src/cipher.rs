//! Note content encryption and decryption.
//!
//! Every encryption operation draws a fresh 16-byte salt and a fresh 12-byte
//! nonce, derives a key from the PIN and the salt, and wraps the
//! authenticated ciphertext in the envelope layout. Decryption recovers salt
//! and nonce from the envelope, re-derives the key, and fails closed when the
//! authentication tag does not verify — which deliberately conflates a wrong
//! PIN with corrupted or tampered data.

use vstd::prelude::*;
use aes_gcm::aead::{Aead, AeadCore, KeyInit};
use rand::RngCore;
use crate::envelope::{
    assemble, ciphertext_of, is_envelope, is_envelope_spec, nonce_of, salt_of, split,
    HEADER_LEN, NONCE_LEN, SALT_LEN,
};
use crate::errors::AppError;
use crate::kdf::{argon2_key_of, derive_key_from_pin, KEY_LEN, MAX_PIN_CHARS};

verus! {

/// The greatest plaintext length (2^36 bytes) the AES-GCM implementation
/// accepts.
pub const MAX_PLAINTEXT_LEN: u64 = 0x10_0000_0000;

/// The length in bytes of the authentication tag appended to a ciphertext.
pub const TAG_LEN: usize = 16;

/// The ciphertext, with its 16-byte tag, that AES-256-GCM produces from a
/// key, a nonce and a plaintext.
pub uninterp spec fn aes_gcm_ct_of(key: Seq<u8>, nonce: Seq<u8>, pt: Seq<u8>) -> Seq<u8>;

/// Relies on aes_gcm's `Aes256Gcm::encrypt` (with `Aes256Gcm::new` for the
/// cipher): the ciphertext depends on the key, nonce and plaintext alone, is
/// exactly one tag longer than the plaintext, and the call succeeds for every
/// plaintext of at most 2^36 bytes.
#[verifier::external_body]
fn aes_encrypt_raw(key: &[u8], nonce: &[u8], pt: &[u8]) -> (r: Result<Vec<u8>, ()>)
    requires
        key@.len() == KEY_LEN,
        nonce@.len() == NONCE_LEN,
    ensures
        r matches Ok(ct) ==> ct@ == aes_gcm_ct_of(key@, nonce@, pt@)
            && ct@.len() == pt@.len() + TAG_LEN,
        r is Ok <==> pt@.len() <= MAX_PLAINTEXT_LEN,
{
    let cipher = aes_gcm::Aes256Gcm::new(aes_gcm::Key::<aes_gcm::Aes256Gcm>::from_slice(key));
    let nonce = aes_gcm::Nonce::from_slice(nonce);
    cipher.encrypt(nonce, pt).map_err(|_| ())
}

/// Relies on aes_gcm's `Aes256Gcm::decrypt` (with `Aes256Gcm::new` for the
/// cipher): authenticated decryption returns the plaintext whose encryption
/// under the same key and nonce is the given ciphertext, and fails when there
/// is none. The plaintext is unique because counter-mode encryption is
/// invertible for a fixed key and nonce.
#[verifier::external_body]
fn aes_decrypt_raw(key: &[u8], nonce: &[u8], ct: &[u8]) -> (r: Result<Vec<u8>, ()>)
    requires
        key@.len() == KEY_LEN,
        nonce@.len() == NONCE_LEN,
    ensures
        r matches Ok(pt) ==> ct@ == aes_gcm_ct_of(key@, nonce@, pt@)
            && pt@.len() + TAG_LEN == ct@.len(),
        r is Err ==> forall|pt: Seq<u8>|
            pt.len() <= MAX_PLAINTEXT_LEN ==> ct@ != aes_gcm_ct_of(key@, nonce@, pt),
        r matches Ok(p) ==> forall|pt: Seq<u8>|
            pt.len() <= MAX_PLAINTEXT_LEN && ct@ == aes_gcm_ct_of(key@, nonce@, pt) ==> p@ == pt,
{
    let cipher = aes_gcm::Aes256Gcm::new(aes_gcm::Key::<aes_gcm::Aes256Gcm>::from_slice(key));
    let nonce = aes_gcm::Nonce::from_slice(nonce);
    cipher.decrypt(nonce, ct).map_err(|_| ())
}

/// Relies on rand's `OsRng::fill_bytes`: fills exactly 16 bytes; nothing is
/// promised about the values, which are drawn fresh for every call.
#[verifier::external_body]
fn random_salt() -> (r: Vec<u8>)
    ensures
        r@.len() == SALT_LEN,
{
    let mut salt = [0u8; 16];
    rand::rngs::OsRng.fill_bytes(&mut salt);
    salt.to_vec()
}

/// Relies on aes_gcm's `Aes256Gcm::generate_nonce` over rand's `OsRng`:
/// returns exactly 12 bytes; nothing is promised about the values, which are
/// drawn fresh for every call.
#[verifier::external_body]
fn random_nonce() -> (r: Vec<u8>)
    ensures
        r@.len() == NONCE_LEN,
{
    let nonce = aes_gcm::Aes256Gcm::generate_nonce(&mut rand::rngs::OsRng);
    nonce.to_vec()
}

/// What it means for an envelope to decrypt, under a given PIN, to a given
/// plaintext: it begins with the marker, covers the fixed header, and its
/// ciphertext is the AES-GCM encryption of the plaintext under the key
/// derived from the PIN and the embedded salt, with the embedded nonce.
pub open spec fn decrypts_to(env: Seq<u8>, pin: Seq<char>, pt: Seq<u8>) -> bool {
    &&& is_envelope_spec(env)
    &&& env.len() == HEADER_LEN + pt.len() + TAG_LEN
    &&& pt.len() <= MAX_PLAINTEXT_LEN
    &&& ciphertext_of(env) == aes_gcm_ct_of(argon2_key_of(pin, salt_of(env)), nonce_of(env), pt)
}

/// Encrypts note content under a key derived from the PIN and a fresh random
/// salt, with a fresh random nonce, and returns the full envelope: marker,
/// salt, nonce, ciphertext with tag.
///
/// Succeeds for every content of at most 2^36 bytes and every PIN of at most
/// `MAX_PIN_CHARS` characters; the envelope then decrypts back to exactly the
/// given content under the same PIN.
pub fn encrypt_note_content(content: &[u8], pin: &str) -> (r: Result<Vec<u8>, AppError>)
    ensures
        r matches Ok(env) ==> decrypts_to(env@, pin@, content@)
            && env@.len() == HEADER_LEN + content@.len() + TAG_LEN,
        content@.len() <= MAX_PLAINTEXT_LEN && content@.len() + HEADER_LEN + TAG_LEN <= usize::MAX
            && pin@.len() <= MAX_PIN_CHARS ==> r is Ok,
        r is Err ==> r == Err::<Vec<u8>, AppError>(AppError::Encryption)
            || r == Err::<Vec<u8>, AppError>(AppError::PinHash),
        r == Err::<Vec<u8>, AppError>(AppError::Encryption) ==> content@.len()
            > MAX_PLAINTEXT_LEN || content@.len() + HEADER_LEN + TAG_LEN > usize::MAX,
        r == Err::<Vec<u8>, AppError>(AppError::PinHash) ==> pin@.len() > MAX_PIN_CHARS,
{
    if usize::MAX - HEADER_LEN - TAG_LEN < content.len() {
        return Err(AppError::Encryption);
    }
    let salt = random_salt();
    let key = derive_key_from_pin(pin, salt.as_slice())?;
    let nonce = random_nonce();
    let ciphertext = match aes_encrypt_raw(key.as_slice(), nonce.as_slice(), content) {
        Ok(ct) => ct,
        Err(()) => {
            return Err(AppError::Encryption);
        },
    };
    let env = assemble(salt.as_slice(), nonce.as_slice(), ciphertext.as_slice());
    proof {
        crate::envelope::lemma_assemble_split_round_trip(salt@, nonce@, ciphertext@);
    }
    Ok(env)
}

/// Decrypts an envelope with the key re-derived from the PIN and the
/// envelope's own salt.
///
/// Fails with `NotAnEnvelope` exactly when the magic marker is absent, with
/// `MalformedEnvelope` exactly when the marker is present but the bytes stop
/// short of the fixed header, and with `Decryption` when authentication
/// fails — that is, when the ciphertext is not the encryption of any
/// plaintext under the re-derived key and embedded nonce. Whenever the
/// envelope does decrypt to some plaintext under this PIN, that exact
/// plaintext is returned.
pub fn decrypt_note_content(envelope: &[u8], pin: &str) -> (r: Result<Vec<u8>, AppError>)
    ensures
        r matches Ok(pt) ==> decrypts_to(envelope@, pin@, pt@),
        forall|pt: Seq<u8>|
            decrypts_to(envelope@, pin@, pt) && pin@.len() <= MAX_PIN_CHARS
                ==> (r matches Ok(p) && p@ == pt),
        r == Err::<Vec<u8>, AppError>(AppError::NotAnEnvelope) <==> !is_envelope_spec(envelope@),
        r == Err::<Vec<u8>, AppError>(AppError::MalformedEnvelope) <==> (is_envelope_spec(
            envelope@,
        ) && envelope@.len() < HEADER_LEN),
        r == Err::<Vec<u8>, AppError>(AppError::PinHash) ==> pin@.len() > MAX_PIN_CHARS,
        r == Err::<Vec<u8>, AppError>(AppError::Decryption) ==> !(exists|pt: Seq<u8>|
            decrypts_to(envelope@, pin@, pt)),
        r is Err ==> r == Err::<Vec<u8>, AppError>(AppError::NotAnEnvelope)
            || r == Err::<Vec<u8>, AppError>(AppError::MalformedEnvelope)
            || r == Err::<Vec<u8>, AppError>(AppError::PinHash)
            || r == Err::<Vec<u8>, AppError>(AppError::Decryption),
{
    if !is_envelope(envelope) {
        return Err(AppError::NotAnEnvelope);
    }
    let (salt, nonce, ciphertext) = split(envelope)?;
    let key = derive_key_from_pin(pin, salt.as_slice())?;
    if ciphertext.len() < TAG_LEN || (ciphertext.len() - TAG_LEN) as u64 > MAX_PLAINTEXT_LEN {
        proof {
            assert forall|pt: Seq<u8>| !decrypts_to(envelope@, pin@, pt) by {
                if decrypts_to(envelope@, pin@, pt) {
                    assert(ciphertext_of(envelope@).len() == pt.len() + TAG_LEN);
                }
            }
        }
        return Err(AppError::Decryption);
    }
    match aes_decrypt_raw(key.as_slice(), nonce.as_slice(), ciphertext.as_slice()) {
        Ok(pt) => Ok(pt),
        Err(()) => Err(AppError::Decryption),
    }
}

/// Round trip: decrypting a fresh envelope with the PIN that produced it
/// yields exactly the content that was encrypted, for every content the
/// cipher accepts.
pub fn encrypt_then_decrypt(content: &[u8], pin: &str) -> (r: Result<Vec<u8>, AppError>)
    requires
        pin@.len() <= MAX_PIN_CHARS,
    ensures
        content@.len() <= MAX_PLAINTEXT_LEN && content@.len() + HEADER_LEN + TAG_LEN
            <= usize::MAX ==> (r matches Ok(pt) && pt@ == content@),
        r matches Ok(pt) ==> pt@ == content@,
        r is Err ==> r == Err::<Vec<u8>, AppError>(AppError::Encryption) && (content@.len()
            > MAX_PLAINTEXT_LEN || content@.len() + HEADER_LEN + TAG_LEN > usize::MAX),
{
    let env = encrypt_note_content(content, pin)?;
    decrypt_note_content(env.as_slice(), pin)
}

/// A well-formed envelope is never classified as foreign or truncated:
/// decryption of anything some PIN once produced can only succeed or fail
/// with `Decryption`, never with `NotAnEnvelope` or `MalformedEnvelope`,
/// whichever PIN it is tried under.
pub proof fn lemma_envelope_never_foreign(env: Seq<u8>, pin: Seq<char>, pt: Seq<u8>)
    requires
        decrypts_to(env, pin, pt),
    ensures
        is_envelope_spec(env),
        env.len() >= HEADER_LEN,
{
}

/// What can go wrong while handling a note's content.
#[derive(Debug, Clone, Copy, PartialEq, Eq, Structural)]
pub enum NoteManagerError {
    /// The encryption primitive itself failed.
    EncryptionFailed,
    /// Authenticated decryption failed, or the bytes are no envelope.
    DecryptionFailed,
    /// Key derivation rejected its parameters.
    KeyDerivationFailed,
    /// An input/output failure in a caller-supplied collaborator.
    IoError,
}

/// The note-content operations gathered behind one name.
pub struct NoteManager;

impl NoteManager {
    /// Encrypts note content; see [`encrypt_note_content`].
    pub fn encrypt_note_content(content: &[u8], pin: &str) -> (r: Result<
        Vec<u8>,
        NoteManagerError,
    >)
        ensures
            r matches Ok(env) ==> decrypts_to(env@, pin@, content@)
                && env@.len() == HEADER_LEN + content@.len() + TAG_LEN,
            content@.len() <= MAX_PLAINTEXT_LEN && content@.len() + HEADER_LEN + TAG_LEN
                <= usize::MAX && pin@.len() <= MAX_PIN_CHARS ==> r is Ok,
            r is Err ==> r == Err::<Vec<u8>, NoteManagerError>(NoteManagerError::EncryptionFailed)
                || r == Err::<Vec<u8>, NoteManagerError>(NoteManagerError::KeyDerivationFailed),
    {
        match encrypt_note_content(content, pin) {
            Ok(env) => Ok(env),
            Err(AppError::PinHash) => Err(NoteManagerError::KeyDerivationFailed),
            Err(_) => Err(NoteManagerError::EncryptionFailed),
        }
    }

    /// Decrypts an envelope; see [`decrypt_note_content`].
    pub fn decrypt_note_content(encrypted_data: &[u8], pin: &str) -> (r: Result<
        Vec<u8>,
        NoteManagerError,
    >)
        ensures
            r matches Ok(pt) ==> decrypts_to(encrypted_data@, pin@, pt@),
            forall|pt: Seq<u8>|
                decrypts_to(encrypted_data@, pin@, pt) && pin@.len() <= MAX_PIN_CHARS
                    ==> (r matches Ok(p) && p@ == pt),
            r is Err ==> r == Err::<Vec<u8>, NoteManagerError>(NoteManagerError::DecryptionFailed)
                || r == Err::<Vec<u8>, NoteManagerError>(NoteManagerError::KeyDerivationFailed),
    {
        match decrypt_note_content(encrypted_data, pin) {
            Ok(pt) => Ok(pt),
            Err(AppError::PinHash) => Err(NoteManagerError::KeyDerivationFailed),
            Err(_) => Err(NoteManagerError::DecryptionFailed),
        }
    }
}

} // verus!
