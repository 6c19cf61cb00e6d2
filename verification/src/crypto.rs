//! The envelope: one field, encrypted and authenticated under a symmetric key.
//!
//! An envelope is laid out as ciphertext, nonce, tag, with a nonce of twelve
//! and a tag of sixteen bytes. An empty field has an empty envelope, and
//! whatever is too short to be an envelope is read as plain text.

use openssl::error::ErrorStack;
use openssl::rand::rand_bytes;
use openssl::symm::{decrypt_aead, encrypt_aead, Cipher};
use sha2::{Digest, Sha256};
use vstd::prelude::*;
use vstd::slice::slice_subrange;

verus! {

/// Length of the nonce of AES-256-GCM.
pub const IV_LEN: usize = 12;

/// Length of the authentication tag of AES-256-GCM.
pub const TAG_LEN: usize = 16;

/// Length of a key derived from a password.
pub const KEY_LEN: usize = 32;

/// The longest key or field that the cipher takes: it counts in a C `int`.
pub const MAX_LEN: usize = 0x7fff_ffff;

/// The salt that is hashed behind every password.
pub const SALT: [u8; 16] = [
    230, 220, 184, 57, 90, 105, 50, 133, 76, 108, 175, 186, 142, 138, 95, 16,
];

/// `openssl::error::ErrorStack`: what OpenSSL reports of a failure. Nothing
/// is known of what it holds.
#[verifier::external_type_specification]
#[verifier::external_body]
pub struct ExErrorStack(ErrorStack);

/// Ciphertext and tag that AES-256-GCM, without associated data, gives for
/// `data` under `key` and the nonce `iv`.
pub uninterp spec fn sealed(key: Seq<u8>, iv: Seq<u8>, data: Seq<u8>) -> (Seq<u8>, Seq<u8>);

/// What AES-256-GCM, without associated data, makes of a ciphertext and its
/// tag under `key` and the nonce `iv`: the plain text, or `None` where the tag
/// does not authenticate the ciphertext.
pub uninterp spec fn opened(key: Seq<u8>, iv: Seq<u8>, data: Seq<u8>, tag: Seq<u8>) -> Option<
    Seq<u8>,
>;

/// The SHA-256 digest of `data`.
pub uninterp spec fn sha256(data: Seq<u8>) -> Seq<u8>;

/// The view of an optional byte string.
pub open spec fn bytes_of(value: Option<Vec<u8>>) -> Option<Seq<u8>> {
    match value {
        Some(v) => Some(v@),
        None => None,
    }
}

/// The key that stands for a password: the digest of the password followed by
/// the salt.
pub open spec fn derived_key(password: Seq<u8>) -> Seq<u8> {
    sha256(password + SALT@)
}

/// The envelope of a ciphertext, the nonce it was made with, and its tag.
pub open spec fn envelope(ciphertext: Seq<u8>, nonce: Seq<u8>, tag: Seq<u8>) -> Seq<u8> {
    ciphertext + nonce + tag
}

/// `out` is the envelope of `data` under `key`, made with `nonce`: the cipher's
/// output is as long as the field, carries a full tag, and opens again.
pub open spec fn is_envelope_of(out: Seq<u8>, key: Seq<u8>, nonce: Seq<u8>, data: Seq<u8>) -> bool {
    let (ciphertext, tag) = sealed(key, nonce, data);
    &&& nonce.len() == IV_LEN
    &&& ciphertext.len() == data.len()
    &&& tag.len() == TAG_LEN
    &&& opened(key, nonce, ciphertext, tag) == Some(data)
    &&& out == envelope(ciphertext, nonce, tag)
}

/// `out` is an encryption of `data` under `key`: empty for an empty field,
/// else an envelope made with some nonce.
pub open spec fn is_encryption(key: Seq<u8>, data: Seq<u8>, out: Seq<u8>) -> bool {
    if data.len() == 0 {
        out.len() == 0
    } else {
        exists|nonce: Seq<u8>| #[trigger] is_envelope_of(out, key, nonce, data)
    }
}

/// The length of an encryption of a field of `len` bytes.
pub open spec fn encrypted_len(len: nat) -> nat {
    if len == 0 {
        0
    } else {
        len + IV_LEN as nat + TAG_LEN as nat
    }
}

/// Number of bytes of `input` that belong to the ciphertext.
pub open spec fn body_len(input: Seq<u8>) -> int {
    input.len() - IV_LEN - TAG_LEN
}

/// The ciphertext inside an envelope.
pub open spec fn ciphertext_of(input: Seq<u8>) -> Seq<u8> {
    input.subrange(0, body_len(input))
}

/// The nonce inside an envelope.
pub open spec fn nonce_of(input: Seq<u8>) -> Seq<u8> {
    input.subrange(body_len(input), body_len(input) + IV_LEN)
}

/// The tag inside an envelope.
pub open spec fn tag_of(input: Seq<u8>) -> Seq<u8> {
    input.subrange(body_len(input) + IV_LEN, input.len() as int)
}

/// What decryption makes of `input` under `key`: `input` itself where it is
/// too short to be an envelope, else what the cipher makes of its parts.
/// `None` stands for a key that does not fit.
pub open spec fn decrypted(key: Seq<u8>, input: Seq<u8>) -> Option<Seq<u8>> {
    if input.len() <= IV_LEN + TAG_LEN {
        Some(input)
    } else {
        opened(key, nonce_of(input), ciphertext_of(input), tag_of(input))
    }
}

/// Calls `openssl::rand::rand_bytes` on a fresh buffer of `len` bytes. The
/// bytes are random; only their number is known.
#[verifier::external_body]
pub(crate) fn random_bytes(len: usize) -> (r: Result<Vec<u8>, ErrorStack>)
    requires
        len <= MAX_LEN,
    ensures
        r matches Ok(bytes) ==> bytes@.len() == len,
{
    let mut buf = vec![0u8; len];
    rand_bytes(&mut buf)?;
    Ok(buf)
}

/// Calls `openssl::symm::encrypt_aead` with AES-256-GCM and no associated
/// data, asking for a tag of sixteen bytes. Where the call succeeds, ciphertext
/// and tag are those of the cipher; GCM is a counter mode, so the ciphertext is
/// as long as the field; and the pair opens again under the same key and nonce.
#[verifier::external_body]
fn seal(key: &[u8], iv: &[u8], data: &[u8]) -> (r: Result<(Vec<u8>, Vec<u8>), ErrorStack>)
    requires
        key@.len() <= MAX_LEN,
        iv@.len() == IV_LEN,
        data@.len() <= MAX_LEN,
    ensures
        r matches Ok(pair) ==> {
            &&& (pair.0@, pair.1@) == sealed(key@, iv@, data@)
            &&& pair.0@.len() == data@.len()
            &&& pair.1@.len() == TAG_LEN
            &&& opened(key@, iv@, pair.0@, pair.1@) == Some(data@)
        },
{
    let mut tag = [0u8; TAG_LEN];
    let out = encrypt_aead(Cipher::aes_256_gcm(), key, Some(iv), &[], data, &mut tag)?;
    Ok((out, tag.to_vec()))
}

/// Calls `openssl::symm::decrypt_aead` with AES-256-GCM and no associated
/// data. OpenSSL reports a tag that does not fit by failing without an entry on
/// its error stack: that failure is handed out as `Ok(None)`, every other one
/// as the error it is. GCM is a counter mode, so the plain text is as long as
/// the ciphertext.
#[verifier::external_body]
fn open(key: &[u8], iv: &[u8], data: &[u8], tag: &[u8]) -> (r: Result<Option<Vec<u8>>, ErrorStack>)
    requires
        key@.len() <= MAX_LEN,
        iv@.len() == IV_LEN,
        data@.len() <= MAX_LEN,
        tag@.len() == TAG_LEN,
    ensures
        r matches Ok(plain) ==> bytes_of(plain) == opened(key@, iv@, data@, tag@),
        r matches Ok(Some(plain)) ==> plain@.len() == data@.len(),
{
    match decrypt_aead(Cipher::aes_256_gcm(), key, Some(iv), &[], data, tag) {
        Ok(plain) => Ok(Some(plain)),
        Err(stack) if stack.errors().is_empty() => Ok(None),
        Err(stack) => Err(stack),
    }
}

/// Calls `Sha256::digest` of the crate sha2, which hashes `data` in one go to
/// a digest of 32 bytes.
#[verifier::external_body]
fn digest(data: &[u8]) -> (r: Vec<u8>)
    ensures
        r@ == sha256(data@),
        r@.len() == KEY_LEN,
{
    Sha256::digest(data).to_vec()
}

/// Lays out an envelope: the ciphertext, then the nonce, then the tag.
pub fn frame(ciphertext: Vec<u8>, nonce: &[u8], tag: &[u8]) -> (out: Vec<u8>)
    ensures
        out@ == envelope(ciphertext@, nonce@, tag@),
{
    let mut out = ciphertext;
    out.extend_from_slice(nonce);
    out.extend_from_slice(tag);
    assert(out@ =~= envelope(ciphertext@, nonce@, tag@));
    out
}

/// Tells the parts of an envelope apart: ciphertext, nonce and tag. `None`
/// where `input` is too short to be an envelope.
pub fn split<'a>(input: &'a [u8]) -> (parts: Option<(&'a [u8], &'a [u8], &'a [u8])>)
    ensures
        input@.len() <= IV_LEN + TAG_LEN <==> parts is None,
        parts matches Some((ciphertext, nonce, tag)) ==> {
            &&& ciphertext@ == ciphertext_of(input@)
            &&& nonce@ == nonce_of(input@)
            &&& tag@ == tag_of(input@)
        },
{
    if input.len() <= IV_LEN + TAG_LEN {
        return None;
    }
    let body: usize = input.len() - TAG_LEN - IV_LEN;
    let ciphertext = slice_subrange(input, 0, body);
    let nonce = slice_subrange(input, body, body + IV_LEN);
    let tag = slice_subrange(input, body + IV_LEN, input.len());
    Some((ciphertext, nonce, tag))
}

/// Derives the key that stands for a password.
pub fn calc_key(password: &[u8]) -> (key: Vec<u8>)
    ensures
        key@ == derived_key(password@),
        key@.len() == KEY_LEN,
{
    let mut input: Vec<u8> = Vec::new();
    input.extend_from_slice(password);
    input.extend_from_slice(SALT.as_slice());
    assert(input@ =~= password@ + SALT@);
    digest(input.as_slice())
}

/// Encrypts `data` under `key` with a fresh random nonce.
///
/// An empty field gives an empty envelope, whatever the key. The function
/// fails where the source of randomness or the cipher fails, as the cipher
/// does on a key that is not of 32 bytes.
pub fn key_encrypt(key: &[u8], data: &[u8]) -> (r: Result<Vec<u8>, ErrorStack>)
    requires
        key@.len() <= MAX_LEN,
        data@.len() <= MAX_LEN,
    ensures
        r matches Ok(out) ==> is_encryption(key@, data@, out@) && out@.len() == encrypted_len(
            data@.len(),
        ),
        data@.len() == 0 ==> r is Ok,
{
    if data.len() == 0 {
        return Ok(Vec::new());
    }
    let iv = random_bytes(IV_LEN)?;
    let (ciphertext, tag) = seal(key, iv.as_slice(), data)?;
    let out = frame(ciphertext, iv.as_slice(), tag.as_slice());
    assert(is_envelope_of(out@, key@, iv@, data@));
    Ok(out)
}

/// Decrypts `data` under `key`.
///
/// Input of at most 28 bytes comes back unchanged. `Ok(None)` says that the
/// key does not fit; an error is a failure of the cipher other than that.
pub fn key_decrypt(key: &[u8], data: &[u8]) -> (r: Result<Option<Vec<u8>>, ErrorStack>)
    requires
        key@.len() <= MAX_LEN,
        data@.len() <= MAX_LEN,
    ensures
        r matches Ok(plain) ==> bytes_of(plain) == decrypted(key@, data@),
        r matches Ok(Some(plain)) ==> plain@.len() <= data@.len(),
        data@.len() <= IV_LEN + TAG_LEN ==> r is Ok,
{
    match split(data) {
        None => Ok(Some(vstd::slice::slice_to_vec(data))),
        Some((ciphertext, nonce, tag)) => open(key, nonce, ciphertext, tag),
    }
}

/// Encrypts `data` under the key that stands for `password`.
pub fn password_encrypt(password: &[u8], data: &[u8]) -> (r: Result<Vec<u8>, ErrorStack>)
    requires
        data@.len() <= MAX_LEN,
    ensures
        r matches Ok(out) ==> is_encryption(derived_key(password@), data@, out@) && out@.len()
            == encrypted_len(data@.len()),
        data@.len() == 0 ==> r is Ok,
{
    let key = calc_key(password);
    key_encrypt(key.as_slice(), data)
}

/// Decrypts `data` under the key that stands for `password`.
pub fn password_decrypt(password: &[u8], data: &[u8]) -> (r: Result<Option<Vec<u8>>, ErrorStack>)
    requires
        data@.len() <= MAX_LEN,
    ensures
        r matches Ok(plain) ==> bytes_of(plain) == decrypted(derived_key(password@), data@),
        r matches Ok(Some(plain)) ==> plain@.len() <= data@.len(),
        data@.len() <= IV_LEN + TAG_LEN ==> r is Ok,
{
    let key = calc_key(password);
    key_decrypt(key.as_slice(), data)
}

/// Whatever encryption returns decrypts, under the same key, to the field that
/// was encrypted.
pub proof fn lemma_decrypt_encrypt(key: Seq<u8>, data: Seq<u8>, out: Seq<u8>)
    requires
        is_encryption(key, data, out),
    ensures
        decrypted(key, out) == Some(data),
{
    if data.len() == 0 {
        assert(out =~= data);
    } else {
        let nonce = choose|nonce: Seq<u8>| #[trigger] is_envelope_of(out, key, nonce, data);
        let (ciphertext, tag) = sealed(key, nonce, data);
        assert(ciphertext_of(out) =~= ciphertext);
        assert(nonce_of(out) =~= nonce);
        assert(tag_of(out) =~= tag);
    }
}

} // verus!
