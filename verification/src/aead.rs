//! The two authenticated ciphers of the library and the framing around them.
//!
//! The ciphers themselves are not verified here: AES-256-GCM with a random IV
//! and AES-256-SIV are called as they are, and what is believed of them is stated
//! on the four private functions at the top. Everything else is proved from that.

use vstd::prelude::*;
use aes_siv::KeyInit;
use crate::errors::{result_is, AlloyError, ErrorKind};

verus! {

/// The random number generator that the probabilistic cipher draws from.
#[verifier::external_type_specification]
#[verifier::external_body]
pub struct ExChaCha20Rng(rand_chacha::ChaCha20Rng);

/// A key for AES-256-GCM.
#[derive(Clone, Copy, Debug)]
pub struct EncryptionKey(pub [u8; 32]);

/// A key for AES-256-SIV. The cipher takes 64 bytes.
#[derive(Clone, Debug)]
pub struct DeterministicEncryptionKey(pub Vec<u8>);

/// The length of the IV in front of an AES-GCM ciphertext.
pub const IV_LEN: usize = 12;

/// The length of the frame in front of a detached document.
pub const DETACHED_HEADER_LEN: usize = 5;

/// The length of a key for the deterministic cipher.
pub const DETERMINISTIC_KEY_LEN: usize = 64;

/// What decrypting `iv_and_ciphertext` under `key` with AES-256-GCM gives: the
/// plaintext, or `None` where the tag does not match.
pub uninterp spec fn aes_gcm_open(key: Seq<u8>, iv_and_ciphertext: Seq<u8>) -> Option<Seq<u8>>;

/// What encrypting `plaintext` under `key` with AES-256-SIV gives, with
/// `associated_data` as the one header: the synthetic IV followed by the
/// ciphertext.
pub uninterp spec fn aes_siv_seal(key: Seq<u8>, associated_data: Seq<u8>, plaintext: Seq<u8>) -> Seq<
    u8,
>;

/// What decrypting `ciphertext` under `key` with AES-256-SIV gives, with
/// `associated_data` as the one header: the plaintext, or `None` where the
/// recomputed IV does not match.
pub uninterp spec fn aes_siv_open(
    key: Seq<u8>,
    associated_data: Seq<u8>,
    ciphertext: Seq<u8>,
) -> Option<Seq<u8>>;

/// The longest plaintext that AES-GCM encrypts: 2^36 - 32 bytes.
pub open spec fn max_gcm_plaintext_len() -> int {
    0xf_ffff_ffe0
}

/// Calls `ironcore_documents::aes::encrypt_document_and_attach_iv`.
///
/// Believed of it: it succeeds on every plaintext that is not longer than the
/// cipher's limit. Where it succeeds, the result is a 12-byte IV, the
/// ciphertext, as long as the plaintext, and a 16-byte tag; and decrypting that
/// result under the same key gives the plaintext back. The IV comes from `rng`,
/// so nothing is said of the bytes themselves.
#[verifier::external_body]
fn aes_gcm_encrypt(rng: &mut rand_chacha::ChaCha20Rng, key: &EncryptionKey, plaintext: &Vec<u8>) -> (r:
    Result<Vec<u8>, String>)
    ensures
        plaintext@.len() <= max_gcm_plaintext_len() ==> r is Ok,
        r matches Ok(c) ==> c@.len() == plaintext@.len() + 28 && aes_gcm_open(key.0@, c@) == Some(
            plaintext@,
        ),
{
    ironcore_documents::aes::encrypt_document_and_attach_iv(
        rng,
        ironcore_documents::aes::EncryptionKey(key.0),
        ironcore_documents::aes::PlaintextDocument(plaintext.clone()),
    ).map(|c| c.0.to_vec()).map_err(|e| e.to_string())
}

/// Calls `ironcore_documents::aes::decrypt_document_with_attached_iv`.
///
/// Believed of it: its outcome depends on the key and the bytes alone. It
/// panics on fewer bytes than an IV, which the precondition leaves out.
#[verifier::external_body]
fn aes_gcm_decrypt(key: &EncryptionKey, iv_and_ciphertext: &Vec<u8>) -> (r: Result<Vec<u8>, String>)
    requires
        iv_and_ciphertext@.len() >= 12,
    ensures
        match r {
            Ok(p) => aes_gcm_open(key.0@, iv_and_ciphertext@) == Some(p@),
            Err(_) => aes_gcm_open(key.0@, iv_and_ciphertext@) is None,
        },
{
    ironcore_documents::aes::decrypt_document_with_attached_iv(
        &ironcore_documents::aes::EncryptionKey(key.0),
        &ironcore_documents::aes::IvAndCiphertext(iv_and_ciphertext.clone().into()),
    ).map(|p| p.0).map_err(|e| e.to_string())
}

/// Calls `aes_siv::siv::Aes256Siv::encrypt` with `associated_data` as its one
/// header.
///
/// Believed of it: it always succeeds; what it returns depends on the key, the
/// associated data and the plaintext alone and is 16 bytes longer than the
/// plaintext; and decrypting it under the same key with the same associated
/// data gives the plaintext back.
#[verifier::external_body]
fn aes_siv_encrypt(key: &Vec<u8>, associated_data: &Vec<u8>, plaintext: &Vec<u8>) -> (r:
    Result<Vec<u8>, String>)
    requires
        key@.len() == 64,
    ensures
        r is Ok,
        r matches Ok(c) ==> c@ == aes_siv_seal(key@, associated_data@, plaintext@) && c@.len()
            == plaintext@.len() + 16 && aes_siv_open(key@, associated_data@, c@) == Some(
            plaintext@,
        ),
{
    let headers: [&[u8]; 1] = [associated_data];
    let mut cipher = aes_siv::siv::Aes256Siv::new_from_slice(key).map_err(|e| e.to_string())?;
    cipher.encrypt(headers, plaintext).map_err(|e| e.to_string())
}

/// Calls `aes_siv::siv::Aes256Siv::decrypt` with `associated_data` as its one
/// header.
///
/// Believed of it: its outcome depends on the key, the associated data and
/// the ciphertext alone.
#[verifier::external_body]
fn aes_siv_decrypt(key: &Vec<u8>, associated_data: &Vec<u8>, ciphertext: &Vec<u8>) -> (r:
    Result<Vec<u8>, String>)
    requires
        key@.len() == 64,
    ensures
        match r {
            Ok(p) => aes_siv_open(key@, associated_data@, ciphertext@) == Some(p@),
            Err(_) => aes_siv_open(key@, associated_data@, ciphertext@) is None,
        },
{
    let headers: [&[u8]; 1] = [associated_data];
    let mut cipher = aes_siv::siv::Aes256Siv::new_from_slice(key).map_err(|e| e.to_string())?;
    cipher.decrypt(headers, ciphertext).map_err(|e| e.to_string())
}

/// The five bytes in front of every detached document: a zero and `IRON`.
pub open spec fn detached_magic() -> Seq<u8> {
    seq![0u8, 73u8, 82u8, 79u8, 78u8]
}

/// The plaintext of a detached document: the five-byte frame must be there, an
/// IV must follow it, and the rest must decrypt under `key`.
pub open spec fn open_detached(key: Seq<u8>, document: Seq<u8>) -> Option<Seq<u8>> {
    if document.len() >= 17 && document.subrange(0, 5) == detached_magic() {
        aes_gcm_open(key, document.skip(5))
    } else {
        None
    }
}

/// The associated data of deterministic encryption: none. The paths of a
/// field are a label that travels beside the ciphertext; they do not enter it.
pub open spec fn deterministic_associated_data() -> Seq<u8> {
    Seq::empty()
}

/// What the deterministic cipher returns for `plaintext`: `InvalidKey` for a
/// key that is not 64 bytes long, and else the sealed bytes. The cipher itself
/// never refuses.
pub open spec fn seal_deterministic(key: Seq<u8>, plaintext: Seq<u8>) -> Result<
    Seq<u8>,
    ErrorKind,
> {
    if key.len() != 64 {
        Err(ErrorKind::InvalidKey)
    } else {
        Ok(aes_siv_seal(key, deterministic_associated_data(), plaintext))
    }
}

/// What the deterministic cipher returns for `ciphertext`: `InvalidKey` for a
/// key that is not 64 bytes long, `DecryptError` where the IV does not match.
pub open spec fn open_deterministic(key: Seq<u8>, ciphertext: Seq<u8>) -> Result<
    Seq<u8>,
    ErrorKind,
> {
    if key.len() != 64 {
        Err(ErrorKind::InvalidKey)
    } else {
        match aes_siv_open(key, deterministic_associated_data(), ciphertext) {
            Some(p) => Ok(p),
            None => Err(ErrorKind::DecryptError),
        }
    }
}

/// Puts the frame of a detached document in front of what the cipher returned,
/// or reports the cipher's refusal as an `EncryptError`.
pub fn frame_detached(sealed: Result<Vec<u8>, String>) -> (r: Result<Vec<u8>, AlloyError>)
    ensures
        match sealed {
            Ok(c) => r matches Ok(v) && v@ == detached_magic() + c@,
            Err(_) => r matches Err(e) && e.kind() == ErrorKind::EncryptError,
        },
{
    match sealed {
        Ok(c) => {
            let mut framed: Vec<u8> = Vec::with_capacity(DETACHED_HEADER_LEN);
            framed.push(0);
            framed.push(73);
            framed.push(82);
            framed.push(79);
            framed.push(78);
            let mut i: usize = 0;
            while i < c.len()
                invariant
                    i <= c@.len(),
                    framed@ == detached_magic() + c@.take(i as int),
                decreases c@.len() - i,
            {
                framed.push(c[i]);
                assert(c@.take(i + 1) =~= c@.take(i as int).push(c@[i as int]));
                i += 1;
            }
            assert(c@.take(c@.len() as int) =~= c@);
            Ok(framed)
        },
        Err(msg) => Err(AlloyError::EncryptError { msg }),
    }
}

/// Encrypts `plaintext` as a detached document: the frame, a fresh random IV,
/// the ciphertext and the tag.
///
/// The IV is random, so the bytes are not determined; whatever they are, they
/// decrypt to `plaintext` under `key`. The only failure is the cipher's refusal
/// of a plaintext beyond its limit.
pub fn encrypt_detached_document(
    rng: &mut rand_chacha::ChaCha20Rng,
    key: &EncryptionKey,
    plaintext: &Vec<u8>,
) -> (r: Result<Vec<u8>, AlloyError>)
    ensures
        plaintext@.len() <= max_gcm_plaintext_len() ==> r is Ok,
        r matches Ok(c) ==> c@.len() == plaintext@.len() + 33 && c@.subrange(0, 5)
            == detached_magic() && open_detached(key.0@, c@) == Some(plaintext@),
        r matches Err(e) ==> e.kind() == ErrorKind::EncryptError,
{
    let sealed = aes_gcm_encrypt(rng, key, plaintext);
    let ghost inner = sealed;
    let r = frame_detached(sealed);
    proof {
        if let Ok(c) = inner {
            let framed = detached_magic() + c@;
            assert(framed.subrange(0, 5) =~= detached_magic());
            assert(framed.skip(5) =~= c@);
        }
    }
    r
}

/// Decrypts a detached document; `DecryptError` where `open_detached` finds no
/// plaintext.
pub fn decrypt_detached_document(key: &EncryptionKey, document: &Vec<u8>) -> (r: Result<
    Vec<u8>,
    AlloyError,
>)
    ensures
        match open_detached(key.0@, document@) {
            Some(p) => r matches Ok(v) && v@ == p,
            None => r matches Err(e) && e.kind() == ErrorKind::DecryptError,
        },
{
    if document.len() < DETACHED_HEADER_LEN + IV_LEN {
        return Err(
            AlloyError::DecryptError { msg: "The encrypted document is too short.".to_string() },
        );
    }
    if document[0] != 0 || document[1] != 73 || document[2] != 82 || document[3] != 79
        || document[4] != 78 {
        assert(document@.subrange(0, 5) != detached_magic()) by {
            let front = document@.subrange(0, 5);
            assert(front[0] == document@[0] && front[1] == document@[1] && front[2] == document@[2]
                && front[3] == document@[3] && front[4] == document@[4]);
        }
        return Err(
            AlloyError::DecryptError {
                msg: "The encrypted document does not begin with the expected bytes.".to_string(),
            },
        );
    }
    assert(document@.subrange(0, 5) =~= detached_magic());
    let mut payload: Vec<u8> = Vec::new();
    let mut i: usize = DETACHED_HEADER_LEN;
    while i < document.len()
        invariant
            5 <= i <= document@.len(),
            payload@ == document@.subrange(5, i as int),
        decreases document@.len() - i,
    {
        payload.push(document[i]);
        assert(document@.subrange(5, i + 1) =~= document@.subrange(5, i as int).push(
            document@[i as int],
        ));
        i += 1;
    }
    assert(document@.subrange(5, document@.len() as int) =~= document@.skip(5));
    match aes_gcm_decrypt(key, &payload) {
        Ok(p) => Ok(p),
        Err(msg) => Err(AlloyError::DecryptError { msg }),
    }
}

/// Encrypts `plaintext` deterministically: equal plaintexts under equal keys
/// give equal bytes, 16 more than the plaintext has. The only failure is a key
/// that is not 64 bytes long.
pub fn deterministic_encrypt(key: &DeterministicEncryptionKey, plaintext: &Vec<u8>) -> (r: Result<
    Vec<u8>,
    AlloyError,
>)
    ensures
        result_is(r, seal_deterministic(key.0@, plaintext@)),
        r matches Ok(c) ==> c@.len() == plaintext@.len() + 16 && open_deterministic(key.0@, c@)
            == Ok::<Seq<u8>, ErrorKind>(plaintext@),
{
    if key.0.len() != DETERMINISTIC_KEY_LEN {
        return Err(
            AlloyError::InvalidKey {
                msg: "The key for deterministic encryption must be 64 bytes long.".to_string(),
            },
        );
    }
    let associated_data: Vec<u8> = Vec::new();
    match aes_siv_encrypt(&key.0, &associated_data, plaintext) {
        Ok(c) => Ok(c),
        Err(msg) => Err(AlloyError::EncryptError { msg }),
    }
}

/// Decrypts what `deterministic_encrypt` returned.
pub fn deterministic_decrypt(key: &DeterministicEncryptionKey, ciphertext: &Vec<u8>) -> (r: Result<
    Vec<u8>,
    AlloyError,
>)
    ensures
        result_is(r, open_deterministic(key.0@, ciphertext@)),
{
    if key.0.len() != DETERMINISTIC_KEY_LEN {
        return Err(
            AlloyError::InvalidKey {
                msg: "The key for deterministic encryption must be 64 bytes long.".to_string(),
            },
        );
    }
    let associated_data: Vec<u8> = Vec::new();
    match aes_siv_decrypt(&key.0, &associated_data, ciphertext) {
        Ok(p) => Ok(p),
        Err(msg) => Err(AlloyError::DecryptError { msg }),
    }
}

} // verus!
