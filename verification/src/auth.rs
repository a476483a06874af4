//! The interactive authentication flow as a state machine.
//!
//! The caller owns the loop: it prompts the operator, trims the line, and
//! hands each input to [`auth_step`] until the state is `Authenticated`. With
//! no stored hash the first well-formed input becomes the new PIN; with a
//! stored hash every input is checked against it and a mismatch re-prompts,
//! indefinitely — there is no lockout or backoff.

use vstd::prelude::*;
use crate::config::Config;
use crate::errors::AppError;
use crate::pin::{store_pin, valid_pin, validate_pin, verify_pin, verify_pin_spec, phc_verifies};

verus! {

/// Where the interactive PIN flow stands.
#[derive(Debug, Clone, Copy, PartialEq, Eq, Structural)]
pub enum AuthState {
    /// No PIN is stored yet: the next well-formed input sets the new PIN.
    AwaitNewPin,
    /// A PIN is stored: the next input is checked against it.
    AwaitExistingPin,
    /// The operator has been authenticated.
    Authenticated,
}

/// The first state of the flow: PIN setup when no hash is stored, the prompt
/// loop otherwise.
pub fn auth_begin(config: &Config) -> (r: AuthState)
    ensures
        config.pin_hash@.len() == 0 ==> r == AuthState::AwaitNewPin,
        config.pin_hash@.len() > 0 ==> r == AuthState::AwaitExistingPin,
{
    if config.pin_hash.as_str().is_empty() {
        AuthState::AwaitNewPin
    } else {
        AuthState::AwaitExistingPin
    }
}

/// One step of the flow, driven by one already-trimmed operator input.
///
/// An input that is not six ASCII digits leaves state and configuration
/// alone — the caller re-prompts. In setup, a well-formed input becomes the
/// stored PIN and authenticates. In the prompt loop, a match authenticates
/// and a mismatch re-prompts. The caller persists the configuration after a
/// step that stored a new hash.
pub fn auth_step(config: &mut Config, state: AuthState, input: &str) -> (r: Result<
    AuthState,
    AppError,
>)
    ensures
        !valid_pin(input@) ==> r == Ok::<AuthState, AppError>(state) && *final(config) == *old(
            config,
        ),
        valid_pin(input@) && state == AuthState::AwaitNewPin ==> r is Ok,
        valid_pin(input@) && state == AuthState::AwaitNewPin ==> {
            &&& r is Ok ==> r == Ok::<AuthState, AppError>(AuthState::Authenticated)
                && phc_verifies(input@, final(config).pin_hash@)
                && final(config).pin_hash@.len() > 0
            &&& r is Err ==> r == Err::<AuthState, AppError>(AppError::PinHash) && *final(config)
                == *old(config)
        },
        valid_pin(input@) && state == AuthState::AwaitExistingPin ==> *final(config) == *old(config)
            && r == Ok::<AuthState, AppError>(
            if verify_pin_spec(*old(config), input@) {
                AuthState::Authenticated
            } else {
                AuthState::AwaitExistingPin
            },
        ),
        valid_pin(input@) && state == AuthState::Authenticated ==> r == Ok::<
            AuthState,
            AppError,
        >(AuthState::Authenticated) && *final(config) == *old(config),
        final(config).notes_dir == old(config).notes_dir,
{
    if !validate_pin(input) {
        return Ok(state);
    }
    match state {
        AuthState::AwaitNewPin => {
            store_pin(config, input)?;
            Ok(AuthState::Authenticated)
        },
        AuthState::AwaitExistingPin => {
            let ok = match verify_pin(config, input) {
                Ok(b) => b,
                Err(_) => false,
            };
            if ok {
                Ok(AuthState::Authenticated)
            } else {
                Ok(AuthState::AwaitExistingPin)
            }
        },
        AuthState::Authenticated => Ok(AuthState::Authenticated),
    }
}

} // verus!
