use ryokan::cipher::{
    decrypt_note_content, encrypt_note_content, encrypt_then_decrypt, NoteManager,
    NoteManagerError,
};
use ryokan::envelope::{assemble, is_envelope, magic_bytes, split};
use ryokan::errors::AppError;

const MAGIC: &[u8] = b"RYOKAN_ENCRYPTED";

#[test]
fn round_trip_recovers_content() {
    let content = b"attack at dawn; bring snacks";
    let env = encrypt_note_content(content, "123456").unwrap();
    let back = decrypt_note_content(&env, "123456").unwrap();
    assert_eq!(back, content);
}

#[test]
fn round_trip_empty_content() {
    let env = encrypt_note_content(b"", "123456").unwrap();
    assert_eq!(decrypt_note_content(&env, "123456").unwrap(), Vec::<u8>::new());
}

#[test]
fn encrypt_then_decrypt_helper_round_trips() {
    let content = b"hello world";
    assert_eq!(encrypt_then_decrypt(content, "000000").unwrap(), content);
}

#[test]
fn wrong_pin_fails_with_decryption_error() {
    let content = b"secret";
    let env = encrypt_note_content(content, "123456").unwrap();
    assert_eq!(decrypt_note_content(&env, "654321").unwrap_err(), AppError::Decryption);
}

#[test]
fn fresh_salt_and_nonce_every_time() {
    let content = b"same content";
    let env1 = encrypt_note_content(content, "123456").unwrap();
    let env2 = encrypt_note_content(content, "123456").unwrap();
    let (salt1, nonce1, ct1) = split(&env1).unwrap();
    let (salt2, nonce2, ct2) = split(&env2).unwrap();
    assert_ne!(salt1, salt2);
    assert_ne!(nonce1, nonce2);
    assert_ne!(ct1, ct2);
}

#[test]
fn envelope_has_marker_and_fixed_overhead() {
    let content = b"abc";
    let env = encrypt_note_content(content, "123456").unwrap();
    assert!(env.starts_with(MAGIC));
    assert!(is_envelope(&env));
    assert_eq!(env.len(), content.len() + 16 + 16 + 12 + 16);
}

#[test]
fn is_envelope_checks_exact_marker_prefix() {
    assert!(is_envelope(b"RYOKAN_ENCRYPTED"));
    assert!(is_envelope(b"RYOKAN_ENCRYPTEDtrailing bytes"));
    assert!(!is_envelope(b"RYOKAN_ENCRYPTE"));
    assert!(!is_envelope(b"ryokan_encrypted"));
    assert!(!is_envelope(b"some arbitrary text content"));
    assert!(!is_envelope(b""));
    assert!(!is_envelope(b"XRYOKAN_ENCRYPTED"));
}

#[test]
fn magic_bytes_spell_the_marker() {
    assert_eq!(magic_bytes(), MAGIC.to_vec());
}

#[test]
fn decrypting_foreign_bytes_is_not_an_envelope() {
    assert_eq!(
        decrypt_note_content(b"plain old text file", "123456").unwrap_err(),
        AppError::NotAnEnvelope
    );
}

#[test]
fn truncated_envelope_is_malformed() {
    let mut short = MAGIC.to_vec();
    short.extend_from_slice(&[1, 2, 3, 4, 5]);
    assert_eq!(decrypt_note_content(&short, "123456").unwrap_err(), AppError::MalformedEnvelope);
    assert_eq!(split(&short).unwrap_err(), AppError::MalformedEnvelope);
}

#[test]
fn tampered_ciphertext_fails_authentication() {
    let env = encrypt_note_content(b"genuine content", "123456").unwrap();
    let mut tampered = env.clone();
    let last = tampered.len() - 1;
    tampered[last] ^= 0x01;
    assert_eq!(decrypt_note_content(&tampered, "123456").unwrap_err(), AppError::Decryption);
}

#[test]
fn tampered_salt_fails_authentication() {
    let env = encrypt_note_content(b"genuine content", "123456").unwrap();
    let mut tampered = env.clone();
    tampered[16] ^= 0xff;
    assert_eq!(decrypt_note_content(&tampered, "123456").unwrap_err(), AppError::Decryption);
}

#[test]
fn split_and_assemble_are_inverses() {
    let salt = [3u8; 16];
    let nonce = [5u8; 12];
    let ct = [9u8, 8, 7];
    let env = assemble(&salt, &nonce, &ct);
    let mut expected = MAGIC.to_vec();
    expected.extend_from_slice(&salt);
    expected.extend_from_slice(&nonce);
    expected.extend_from_slice(&ct);
    assert_eq!(env, expected);
    let (s, n, c) = split(&env).unwrap();
    assert_eq!(s, salt.to_vec());
    assert_eq!(n, nonce.to_vec());
    assert_eq!(c, ct.to_vec());
}

#[test]
fn note_manager_round_trip_and_errors() {
    let content = b"managed secret";
    let env = NoteManager::encrypt_note_content(content, "123456").unwrap();
    assert_eq!(NoteManager::decrypt_note_content(&env, "123456").unwrap(), content);
    assert_eq!(
        NoteManager::decrypt_note_content(&env, "654321").unwrap_err(),
        NoteManagerError::DecryptionFailed
    );
    assert_eq!(
        NoteManager::decrypt_note_content(b"not ours", "123456").unwrap_err(),
        NoteManagerError::DecryptionFailed
    );
}

#[test]
fn error_messages_are_nonempty() {
    let errors = [
        AppError::Io,
        AppError::Config,
        AppError::Encryption,
        AppError::Decryption,
        AppError::NotAnEnvelope,
        AppError::MalformedEnvelope,
        AppError::Pin,
        AppError::PinHash,
        AppError::Tui,
        AppError::Metadata,
    ];
    for e in errors {
        assert!(!e.message().is_empty());
    }
}
