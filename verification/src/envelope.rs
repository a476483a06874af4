//! The on-disk byte layout of an encrypted note.
//!
//! An envelope is `magic marker (16 bytes) ∥ salt (16 bytes) ∥ nonce (12
//! bytes) ∥ ciphertext with tag`. Any byte string that does not begin with
//! the exact magic marker is not an envelope.

use vstd::prelude::*;
use vstd::slice::{slice_subrange, slice_to_vec};
use crate::errors::AppError;

verus! {

/// The length in bytes of the magic marker that opens every envelope.
pub const MAGIC_LEN: usize = 16;
/// The length in bytes of the per-operation key-derivation salt.
pub const SALT_LEN: usize = 16;
/// The length in bytes of the per-operation nonce.
pub const NONCE_LEN: usize = 12;
/// The length in bytes of marker, salt and nonce together.
pub const HEADER_LEN: usize = 44;

/// The magic marker: the ASCII bytes of `RYOKAN_ENCRYPTED`.
pub open spec fn magic_seq() -> Seq<u8> {
    seq![
        82u8, 89u8, 79u8, 75u8, 65u8, 78u8, 95u8, 69u8,
        78u8, 67u8, 82u8, 89u8, 80u8, 84u8, 69u8, 68u8,
    ]
}

/// A byte string is an envelope exactly when it begins with the magic marker.
pub open spec fn is_envelope_spec(b: Seq<u8>) -> bool {
    b.len() >= MAGIC_LEN && b.subrange(0, MAGIC_LEN as int) == magic_seq()
}

/// The salt embedded in an envelope.
pub open spec fn salt_of(b: Seq<u8>) -> Seq<u8> {
    b.subrange(MAGIC_LEN as int, (MAGIC_LEN + SALT_LEN) as int)
}

/// The nonce embedded in an envelope.
pub open spec fn nonce_of(b: Seq<u8>) -> Seq<u8> {
    b.subrange((MAGIC_LEN + SALT_LEN) as int, HEADER_LEN as int)
}

/// The ciphertext (with its tag) that follows an envelope's fixed header.
pub open spec fn ciphertext_of(b: Seq<u8>) -> Seq<u8> {
    b.subrange(HEADER_LEN as int, b.len() as int)
}

/// The magic marker as bytes.
pub fn magic_bytes() -> (r: Vec<u8>)
    ensures
        r@ == magic_seq(),
{
    let r: Vec<u8> = vec![
        82u8, 89u8, 79u8, 75u8, 65u8, 78u8, 95u8, 69u8,
        78u8, 67u8, 82u8, 89u8, 80u8, 84u8, 69u8, 68u8,
    ];
    proof {
        assert(r@ =~= magic_seq());
    }
    r
}

/// Decides whether the bytes begin with the exact magic marker.
///
/// Returns true only for byte strings beginning with the marker; it does not
/// validate the length or structure of what follows.
pub fn is_envelope(bytes: &[u8]) -> (r: bool)
    ensures
        r == is_envelope_spec(bytes@),
{
    if bytes.len() < MAGIC_LEN {
        return false;
    }
    let magic = magic_bytes();
    let mut i: usize = 0;
    while i < MAGIC_LEN
        invariant
            0 <= i <= MAGIC_LEN,
            bytes@.len() >= MAGIC_LEN,
            magic@ == magic_seq(),
            forall|j: int| 0 <= j < i ==> bytes@[j] == magic_seq()[j],
        decreases MAGIC_LEN - i,
    {
        if bytes[i] != magic[i] {
            proof {
                assert(bytes@.subrange(0, MAGIC_LEN as int)[i as int] != magic_seq()[i as int]);
            }
            return false;
        }
        i += 1;
    }
    proof {
        assert(bytes@.subrange(0, MAGIC_LEN as int) =~= magic_seq());
    }
    true
}

/// Splits an envelope into its salt, nonce and ciphertext fields by the fixed
/// offsets, assuming the marker check has already succeeded.
///
/// Fails with `MalformedEnvelope` exactly when the bytes are shorter than the
/// fixed header.
pub fn split(bytes: &[u8]) -> (r: Result<(Vec<u8>, Vec<u8>, Vec<u8>), AppError>)
    requires
        is_envelope_spec(bytes@),
    ensures
        r is Ok <==> bytes@.len() >= HEADER_LEN,
        r is Err <==> r == Err::<(Vec<u8>, Vec<u8>, Vec<u8>), AppError>(AppError::MalformedEnvelope)
            && bytes@.len() < HEADER_LEN,
        r matches Ok(parts) ==> parts.0@ == salt_of(bytes@) && parts.1@ == nonce_of(bytes@)
            && parts.2@ == ciphertext_of(bytes@),
{
    if bytes.len() < HEADER_LEN {
        return Err(AppError::MalformedEnvelope);
    }
    let salt = slice_to_vec(slice_subrange(bytes, MAGIC_LEN, MAGIC_LEN + SALT_LEN));
    let nonce = slice_to_vec(slice_subrange(bytes, MAGIC_LEN + SALT_LEN, HEADER_LEN));
    let ciphertext = slice_to_vec(slice_subrange(bytes, HEADER_LEN, bytes.len()));
    Ok((salt, nonce, ciphertext))
}

/// Concatenates marker, salt, nonce and ciphertext into one envelope.
pub fn assemble(salt: &[u8], nonce: &[u8], ciphertext: &[u8]) -> (r: Vec<u8>)
    requires
        salt@.len() == SALT_LEN,
        nonce@.len() == NONCE_LEN,
        ciphertext@.len() + HEADER_LEN <= usize::MAX,
    ensures
        r@ == magic_seq() + salt@ + nonce@ + ciphertext@,
        is_envelope_spec(r@),
        salt_of(r@) == salt@,
        nonce_of(r@) == nonce@,
        ciphertext_of(r@) == ciphertext@,
        r@.len() == HEADER_LEN + ciphertext@.len(),
{
    let mut r = magic_bytes();
    let mut salt_v = slice_to_vec(salt);
    let mut nonce_v = slice_to_vec(nonce);
    let mut ct_v = slice_to_vec(ciphertext);
    r.append(&mut salt_v);
    r.append(&mut nonce_v);
    r.append(&mut ct_v);
    proof {
        assert(r@ =~= magic_seq() + salt@ + nonce@ + ciphertext@);
        assert(r@.subrange(0, MAGIC_LEN as int) =~= magic_seq());
        assert(salt_of(r@) =~= salt@);
        assert(nonce_of(r@) =~= nonce@);
        assert(ciphertext_of(r@) =~= ciphertext@);
    }
    r
}

/// Splitting an assembled envelope recovers exactly the fields that went in.
pub proof fn lemma_assemble_split_round_trip(salt: Seq<u8>, nonce: Seq<u8>, ct: Seq<u8>)
    requires
        salt.len() == SALT_LEN,
        nonce.len() == NONCE_LEN,
    ensures
        is_envelope_spec(magic_seq() + salt + nonce + ct),
        salt_of(magic_seq() + salt + nonce + ct) == salt,
        nonce_of(magic_seq() + salt + nonce + ct) == nonce,
        ciphertext_of(magic_seq() + salt + nonce + ct) == ct,
{
    let env = magic_seq() + salt + nonce + ct;
    assert(env.subrange(0, MAGIC_LEN as int) =~= magic_seq());
    assert(salt_of(env) =~= salt);
    assert(nonce_of(env) =~= nonce);
    assert(ciphertext_of(env) =~= ct);
}

} // verus!
