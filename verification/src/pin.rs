//! PIN authentication: validating operator input, storing the one persisted
//! PIN verification secret, checking a PIN against it, and deriving keys.
//!
//! The stored secret is a self-describing password-hash string, produced with
//! an independent random salt that is never reused for content encryption. A
//! missing or malformed stored hash means "cannot verify", never a fatal
//! error: the caller reads it as a request for PIN setup.

use vstd::prelude::*;
use vstd::string::{StrSliceExecFns, StringExecFns};
use argon2::{PasswordHasher, PasswordVerifier};
use crate::config::Config;
use crate::errors::AppError;
use crate::kdf;
use crate::kdf::MAX_PIN_CHARS;

verus! {

/// The required PIN length, in characters.
pub const PIN_LENGTH: usize = 6;

/// Whether Argon2 password verification accepts the PIN against the stored
/// PHC hash string; a string that parses as no PHC hash verifies nothing.
pub uninterp spec fn phc_verifies(pin: Seq<char>, hash: Seq<char>) -> bool;

/// A well-formed PIN: exactly six ASCII digits.
pub open spec fn valid_pin(s: Seq<char>) -> bool {
    s.len() == PIN_LENGTH && (forall|i: int|
        0 <= i < s.len() ==> 48 <= (#[trigger] s[i]) as u32 <= 57)
}

/// Decides whether an already-trimmed input is exactly six ASCII digits.
pub fn validate_pin(input: &str) -> (r: bool)
    ensures
        r == valid_pin(input@),
{
    let len = input.unicode_len();
    if len != PIN_LENGTH {
        return false;
    }
    let mut i: usize = 0;
    while i < len
        invariant
            0 <= i <= len,
            len == input@.len(),
            len == PIN_LENGTH,
            forall|j: int| 0 <= j < i ==> 48 <= (#[trigger] input@[j]) as u32 <= 57,
        decreases len - i,
    {
        let c = input.get_char(i);
        let d = c as u32;
        if d < 48 || d > 57 {
            return false;
        }
        i += 1;
    }
    true
}

/// The validation half of PIN prompting: accepts an already-trimmed input
/// exactly when it is six ASCII digits, and rejects it with `Pin` otherwise.
pub fn check_pin_input(input: &str) -> (r: Result<String, AppError>)
    ensures
        valid_pin(input@) ==> (r matches Ok(p) && p@ == input@),
        !valid_pin(input@) ==> r == Err::<String, AppError>(AppError::Pin),
{
    if validate_pin(input) {
        Ok(String::from_str(input))
    } else {
        Err(AppError::Pin)
    }
}

/// Relies on argon2's `Argon2::hash_password` over a fresh random salt from
/// password_hash's `SaltString::generate`, rendered with `to_string`, under
/// Argon2id with 19456 KiB of memory, twelve passes and one lane — the same
/// cost family as key derivation, with its own salt: whatever salt is drawn,
/// the PHC string is nonempty and verifies the very PIN it was derived from,
/// since verification recomputes the hash with the parameters and salt the
/// string itself carries. The call succeeds for every password of at most
/// 2^32 - 1 bytes: the generated salt and the fixed parameters always pass
/// its checks, so a short PIN never fails.
#[verifier::external_body]
fn argon2_hash_pin(pin: &str) -> (r: Result<String, ()>)
    ensures
        r matches Ok(h) ==> phc_verifies(pin@, h@) && h@.len() > 0,
        pin@.len() <= MAX_PIN_CHARS ==> r is Ok,
{
    let params = match argon2::Params::new(19456, 12, 1, None) {
        Ok(p) => p,
        Err(_) => {
            return Err(());
        },
    };
    let argon2 = argon2::Argon2::new(argon2::Algorithm::Argon2id, argon2::Version::V0x13, params);
    let salt = argon2::password_hash::SaltString::generate(&mut rand::thread_rng());
    match argon2.hash_password(pin.as_bytes(), &salt) {
        Ok(h) => Ok(h.to_string()),
        Err(_) => Err(()),
    }
}

/// Relies on password_hash's `PasswordHash::new` and argon2's
/// `Argon2::verify_password`: the outcome depends on the PIN bytes and the
/// hash string alone, and a string that does not parse verifies nothing.
#[verifier::external_body]
fn argon2_verify_raw(pin: &str, hash: &str) -> (r: bool)
    ensures
        r == phc_verifies(pin@, hash@),
{
    match argon2::password_hash::PasswordHash::new(hash) {
        Ok(parsed) => argon2::Argon2::default().verify_password(pin.as_bytes(), &parsed).is_ok(),
        Err(_) => false,
    }
}

/// The stored PIN hash, or `None` when none has been set yet.
pub fn load_pin_hash(config: &Config) -> (r: Result<Option<String>, AppError>)
    ensures
        r is Ok,
        config.pin_hash@.len() == 0 ==> r == Ok::<Option<String>, AppError>(None),
        config.pin_hash@.len() > 0 ==> (r matches Ok(Some(h)) && h@ == config.pin_hash@),
{
    if config.pin_hash.as_str().is_empty() {
        Ok(None)
    } else {
        Ok(Some(config.pin_hash.clone()))
    }
}

/// Derives a fresh self-salted password hash from the PIN and stores it in
/// the configuration, replacing whatever hash was there. The caller persists
/// the configuration afterwards.
///
/// On success the stored hash is nonempty and verifies exactly this PIN;
/// the rest of the configuration is untouched. Storing a PIN of at most
/// `MAX_PIN_CHARS` characters always succeeds; `PinHash`, which leaves the
/// configuration unchanged, can come only of an absurdly long PIN.
pub fn store_pin(config: &mut Config, pin: &str) -> (r: Result<(), AppError>)
    ensures
        r is Ok ==> phc_verifies(pin@, final(config).pin_hash@)
            && final(config).pin_hash@.len() > 0,
        pin@.len() <= MAX_PIN_CHARS ==> r is Ok,
        final(config).notes_dir == old(config).notes_dir,
        r is Err ==> r == Err::<(), AppError>(AppError::PinHash)
            && final(config).pin_hash == old(config).pin_hash,
{
    match argon2_hash_pin(pin) {
        Ok(hash) => {
            config.pin_hash = hash;
            Ok(())
        },
        Err(()) => Err(AppError::PinHash),
    }
}

/// The verification outcome for a configuration and a PIN: true only when a
/// hash is stored and it cryptographically matches the PIN.
pub open spec fn verify_pin_spec(config: Config, pin: Seq<char>) -> bool {
    config.pin_hash@.len() > 0 && phc_verifies(pin, config.pin_hash@)
}

/// Verifies the PIN against the stored hash.
///
/// Returns false, not an error, when no hash is stored; a malformed stored
/// hash likewise verifies nothing. True comes back only on a cryptographic
/// match.
pub fn verify_pin(config: &Config, pin: &str) -> (r: Result<bool, AppError>)
    ensures
        r == Ok::<bool, AppError>(verify_pin_spec(*config, pin@)),
{
    if config.pin_hash.as_str().is_empty() {
        Ok(false)
    } else {
        Ok(argon2_verify_raw(pin, config.pin_hash.as_str()))
    }
}

/// Setting a PIN and then verifying the same PIN succeeds: any configuration
/// holding the nonempty, matching hash that `store_pin` leaves behind
/// satisfies exactly the predicate that `verify_pin` decides.
pub proof fn lemma_store_then_verify_same_pin(config: Config, pin: Seq<char>)
    requires
        config.pin_hash@.len() > 0,
        phc_verifies(pin, config.pin_hash@),
    ensures
        verify_pin_spec(config, pin),
{
}

/// A freshly initialized configuration, with no stored hash, verifies no PIN
/// — and does so without error.
pub proof fn lemma_unset_config_verifies_nothing(config: Config, pin: Seq<char>)
    requires
        config.pin_hash@.len() == 0,
    ensures
        !verify_pin_spec(config, pin),
{
}

/// What can go wrong inside the PIN manager.
#[derive(Debug, Clone, Copy, PartialEq, Eq, Structural)]
pub enum PinManagerError {
    /// Key derivation rejected its parameters.
    KeyDerivationError,
}

/// The PIN operations gathered behind one name.
pub struct PinManager;

impl PinManager {
    /// The stored PIN hash, or `None` when none has been set yet.
    pub fn load_pin_hash(config: &Config) -> (r: Option<String>)
        ensures
            config.pin_hash@.len() == 0 ==> r is None,
            config.pin_hash@.len() > 0 ==> (r matches Some(h) && h@ == config.pin_hash@),
    {
        if config.pin_hash.as_str().is_empty() {
            None
        } else {
            Some(config.pin_hash.clone())
        }
    }

    /// Hashes the PIN and stores the hash; see [`store_pin`].
    pub fn store_pin(config: &mut Config, pin: &str) -> (r: Result<(), AppError>)
        ensures
            r is Ok ==> phc_verifies(pin@, final(config).pin_hash@)
                && final(config).pin_hash@.len() > 0,
            pin@.len() <= MAX_PIN_CHARS ==> r is Ok,
            final(config).notes_dir == old(config).notes_dir,
            r is Err ==> r == Err::<(), AppError>(AppError::PinHash)
                && final(config).pin_hash == old(config).pin_hash,
    {
        store_pin(config, pin)
    }

    /// Verifies the PIN against the stored hash; see [`verify_pin`].
    pub fn verify_pin(config: &Config, pin: &str) -> (r: bool)
        ensures
            r == verify_pin_spec(*config, pin@),
    {
        match verify_pin(config, pin) {
            Ok(b) => b,
            Err(_) => false,
        }
    }

    /// Derives the 32-byte symmetric key for one operation; see
    /// [`kdf::derive_key_from_pin`].
    pub fn derive_key_from_pin(pin: &str, salt: &[u8]) -> (r: Result<Vec<u8>, PinManagerError>)
        ensures
            r matches Ok(key) ==> key@ == kdf::argon2_key_of(pin@, salt@) && key@.len()
                == kdf::KEY_LEN,
            r is Err ==> r == Err::<Vec<u8>, PinManagerError>(PinManagerError::KeyDerivationError),
            salt@.len() == crate::envelope::SALT_LEN && pin@.len() <= MAX_PIN_CHARS ==> r is Ok,
    {
        match kdf::derive_key_from_pin(pin, salt) {
            Ok(key) => Ok(key),
            Err(_) => Err(PinManagerError::KeyDerivationError),
        }
    }
}

} // verus!
