//! Key derivation: a PIN plus a salt becomes a fixed-length symmetric key.
//!
//! The derivation is deliberately expensive and memory-hard: a six-digit PIN
//! has only about twenty bits of entropy, so the cost parameters are the only
//! defense against brute force. It is deterministic — the same PIN and salt
//! always yield the same key — which is what lets decryption reproduce the
//! encryption key from the salt recovered out of the envelope.

use vstd::prelude::*;
use crate::envelope::SALT_LEN;
use crate::errors::AppError;

verus! {

/// The length in bytes of a derived symmetric key.
pub const KEY_LEN: usize = 32;

/// A generous bound on the character length of any PIN this store derives
/// keys from; a real PIN is exactly six digits.
pub const MAX_PIN_CHARS: usize = 64;

/// The 32-byte key that Argon2, under this crate's fixed parameters, derives
/// from a PIN and a salt.
pub uninterp spec fn argon2_key_of(pin: Seq<char>, salt: Seq<u8>) -> Seq<u8>;

/// Relies on argon2's `Argon2::hash_password_into`, under Argon2id with 19456
/// KiB of memory, twelve passes and one lane: the derived key depends on the
/// PIN bytes and the salt alone, and the call succeeds whenever the salt is
/// at least 8 and at most 2^32 - 1 bytes, the password at most 2^32 - 1
/// bytes, and the output buffer 32 bytes, which a 16-byte salt and a short
/// PIN always satisfy.
#[verifier::external_body]
fn argon2_derive_raw(pin: &str, salt: &[u8]) -> (r: Result<Vec<u8>, ()>)
    ensures
        r matches Ok(key) ==> key@ == argon2_key_of(pin@, salt@) && key@.len() == KEY_LEN,
        salt@.len() == SALT_LEN && pin@.len() <= MAX_PIN_CHARS ==> r is Ok,
{
    let params = match argon2::Params::new(19456, 12, 1, None) {
        Ok(p) => p,
        Err(_) => {
            return Err(());
        },
    };
    let argon2 = argon2::Argon2::new(argon2::Algorithm::Argon2id, argon2::Version::V0x13, params);
    let mut key = [0u8; 32];
    match argon2.hash_password_into(pin.as_bytes(), salt, &mut key) {
        Ok(()) => Ok(key.to_vec()),
        Err(_) => Err(()),
    }
}

/// Derives the 32-byte symmetric key for one encryption or decryption
/// operation from the PIN and a 16-byte salt.
///
/// Deterministic in its arguments. Fails with `PinHash` only if the
/// underlying primitive rejects its parameters, which cannot happen for a
/// 16-byte salt and a PIN of at most `MAX_PIN_CHARS` characters.
pub fn derive_key_from_pin(pin: &str, salt: &[u8]) -> (r: Result<Vec<u8>, AppError>)
    ensures
        r matches Ok(key) ==> key@ == argon2_key_of(pin@, salt@) && key@.len() == KEY_LEN,
        r is Err ==> r == Err::<Vec<u8>, AppError>(AppError::PinHash),
        salt@.len() == SALT_LEN && pin@.len() <= MAX_PIN_CHARS ==> r is Ok,
{
    match argon2_derive_raw(pin, salt) {
        Ok(key) => Ok(key),
        Err(()) => Err(AppError::PinHash),
    }
}

} // verus!
