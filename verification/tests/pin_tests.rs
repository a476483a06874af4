use ryokan::auth::{auth_begin, auth_step, AuthState};
use ryokan::config::Config;
use ryokan::errors::AppError;
use ryokan::pin::{check_pin_input, load_pin_hash, store_pin, validate_pin, verify_pin, PinManager};

#[test]
fn test_store_and_verify_pin() {
    let mut config = Config::default();

    let test_pin = "123456";
    store_pin(&mut config, test_pin).unwrap();

    assert!(verify_pin(&config, test_pin).unwrap());
    assert!(!verify_pin(&config, "654321").unwrap());
}

#[test]
fn test_handle_pin_setup_and_verification_new_pin() {
    let mut config = Config::default();
    config.pin_hash = String::new();

    assert_eq!(auth_begin(&config), AuthState::AwaitNewPin);
    let state = auth_step(&mut config, AuthState::AwaitNewPin, "123456").unwrap();
    assert_eq!(state, AuthState::Authenticated);
    assert!(verify_pin(&config, "123456").unwrap());
}

#[test]
fn verify_pin_on_unset_config_is_false_without_error() {
    let config = Config::default();
    assert_eq!(verify_pin(&config, "123456").unwrap(), false);
    assert_eq!(verify_pin(&config, "000000").unwrap(), false);
}

#[test]
fn verify_pin_rejects_other_pin() {
    let mut config = Config::default();
    store_pin(&mut config, "123456").unwrap();
    assert!(!verify_pin(&config, "000000").unwrap());
}

#[test]
fn verify_pin_with_malformed_stored_hash_is_false() {
    let mut config = Config::default();
    config.pin_hash = String::from("not a phc hash at all");
    assert_eq!(verify_pin(&config, "123456").unwrap(), false);
}

#[test]
fn load_pin_hash_empty_and_set() {
    let mut config = Config::default();
    assert_eq!(load_pin_hash(&config).unwrap(), None);
    assert_eq!(PinManager::load_pin_hash(&config), None);
    store_pin(&mut config, "123456").unwrap();
    let h = load_pin_hash(&config).unwrap().unwrap();
    assert!(!h.is_empty());
    assert_eq!(PinManager::load_pin_hash(&config).unwrap(), h);
}

#[test]
fn validate_pin_accepts_exactly_six_digits() {
    assert!(validate_pin("123456"));
    assert!(validate_pin("000000"));
    assert!(!validate_pin("12345"));
    assert!(!validate_pin("1234567"));
    assert!(!validate_pin("12345a"));
    assert!(!validate_pin("abcdef"));
    assert!(!validate_pin(""));
    assert!(!validate_pin("12 456"));
}

#[test]
fn check_pin_input_rejects_with_pin_error() {
    assert_eq!(check_pin_input("123456").unwrap(), "123456");
    assert_eq!(check_pin_input("12345").unwrap_err(), AppError::Pin);
    assert_eq!(check_pin_input("abcdef").unwrap_err(), AppError::Pin);
}

#[test]
fn pin_manager_store_and_verify() {
    let mut config = Config::default();
    PinManager::store_pin(&mut config, "123456").unwrap();
    assert!(PinManager::verify_pin(&config, "123456"));
    assert!(!PinManager::verify_pin(&config, "654321"));
}

#[test]
fn auth_flow_with_existing_pin_reprompts_until_match() {
    let mut config = Config::default();
    store_pin(&mut config, "123456").unwrap();

    assert_eq!(auth_begin(&config), AuthState::AwaitExistingPin);
    // malformed input: state unchanged
    let state = auth_step(&mut config, AuthState::AwaitExistingPin, "12x").unwrap();
    assert_eq!(state, AuthState::AwaitExistingPin);
    // wrong PIN: re-prompt
    let state = auth_step(&mut config, AuthState::AwaitExistingPin, "654321").unwrap();
    assert_eq!(state, AuthState::AwaitExistingPin);
    // right PIN: authenticated
    let state = auth_step(&mut config, AuthState::AwaitExistingPin, "123456").unwrap();
    assert_eq!(state, AuthState::Authenticated);
}

#[test]
fn derive_key_is_deterministic_and_salt_sensitive() {
    let salt_a = [7u8; 16];
    let salt_b = [9u8; 16];
    let k1 = ryokan::pin::PinManager::derive_key_from_pin("123456", &salt_a).unwrap();
    let k2 = ryokan::pin::PinManager::derive_key_from_pin("123456", &salt_a).unwrap();
    let k3 = ryokan::pin::PinManager::derive_key_from_pin("123456", &salt_b).unwrap();
    let k4 = ryokan::pin::PinManager::derive_key_from_pin("654321", &salt_a).unwrap();
    assert_eq!(k1.len(), 32);
    assert_eq!(k1, k2);
    assert_ne!(k1, k3);
    assert_ne!(k1, k4);
}
