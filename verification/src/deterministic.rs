//! Deterministic encryption of a single field.
//!
//! An encrypted field is the key id header followed by what the deterministic
//! cipher returned. Equal plaintexts under equal keys give equal bytes, which is
//! what makes the ciphertext usable for exact-match queries.

use vstd::prelude::*;
use crate::aead::{
    deterministic_decrypt, deterministic_encrypt, open_deterministic, seal_deterministic,
    DeterministicEncryptionKey,
};
use crate::errors::{result_is, AlloyError, ErrorKind};
use crate::key_id_header::{header_bytes, lemma_parse_inverts_encode, parse_header, KeyIdHeader};
use crate::label_map::LabelMap;
use crate::tenant_security_client::{DerivationPath, SecretPath};

verus! {

/// A field to encrypt, and the path of the key to encrypt it under.
#[derive(Clone, Debug)]
pub struct PlaintextField {
    pub plaintext_field: Vec<u8>,
    pub secret_path: SecretPath,
    pub derivation_path: DerivationPath,
}

/// An encrypted field, and the path of the key that it was encrypted under.
#[derive(Clone, Debug)]
pub struct EncryptedField {
    pub encrypted_field: Vec<u8>,
    pub secret_path: SecretPath,
    pub derivation_path: DerivationPath,
}

/// What a `PlaintextField` holds.
pub ghost struct PlaintextFieldView {
    pub plaintext_field: Seq<u8>,
    pub secret_path: Seq<char>,
    pub derivation_path: Seq<char>,
}

/// What an `EncryptedField` holds.
pub ghost struct EncryptedFieldView {
    pub encrypted_field: Seq<u8>,
    pub secret_path: Seq<char>,
    pub derivation_path: Seq<char>,
}

impl View for PlaintextField {
    type V = PlaintextFieldView;

    open spec fn view(&self) -> PlaintextFieldView {
        PlaintextFieldView {
            plaintext_field: self.plaintext_field@,
            secret_path: self.secret_path.0@,
            derivation_path: self.derivation_path.0@,
        }
    }
}

impl View for EncryptedField {
    type V = EncryptedFieldView;

    open spec fn view(&self) -> EncryptedFieldView {
        EncryptedFieldView {
            encrypted_field: self.encrypted_field@,
            secret_path: self.secret_path.0@,
            derivation_path: self.derivation_path.0@,
        }
    }
}

/// Fields to encrypt, by field id.
pub type PlaintextFields = LabelMap<PlaintextField>;

/// Encrypted fields, by field id.
pub type EncryptedFields = LabelMap<EncryptedField>;

/// For each field id, the encryptions of the field under every key of its path.
pub type GenerateQueryResult = LabelMap<Vec<EncryptedField>>;

/// The outcome of a rotation: the fields that were re-encrypted or needed no
/// change, and the reason for each field that could not be rotated.
#[derive(Clone, Debug)]
pub struct DeterministicRotateResult {
    pub successes: LabelMap<EncryptedField>,
    pub failures: LabelMap<AlloyError>,
}

impl PlaintextField {
    /// A copy of this field.
    pub fn duplicate(&self) -> (f: PlaintextField)
        ensures
            f@ == self@,
    {
        PlaintextField {
            plaintext_field: self.plaintext_field.clone(),
            secret_path: self.secret_path.duplicate(),
            derivation_path: self.derivation_path.duplicate(),
        }
    }
}

impl EncryptedField {
    /// A copy of this field.
    pub fn duplicate(&self) -> (f: EncryptedField)
        ensures
            f@ == self@,
    {
        EncryptedField {
            encrypted_field: self.encrypted_field.clone(),
            secret_path: self.secret_path.duplicate(),
            derivation_path: self.derivation_path.duplicate(),
        }
    }
}

/// The encrypted field that `key` and `header` give for `field`: the header's
/// six bytes, then what the deterministic cipher returns for the plaintext. The
/// paths are carried over as they are.
pub open spec fn encrypt_field(key: Seq<u8>, header: KeyIdHeader, field: PlaintextFieldView) -> Result<
    EncryptedFieldView,
    ErrorKind,
> {
    match seal_deterministic(key, field.plaintext_field) {
        Ok(ciphertext) => Ok(
            EncryptedFieldView {
                encrypted_field: header_bytes(header) + ciphertext,
                secret_path: field.secret_path,
                derivation_path: field.derivation_path,
            },
        ),
        Err(kind) => Err(kind),
    }
}

/// The plaintext field that `key` gives for `ciphertext`, the bytes behind a
/// header, with the paths that the encrypted field carried.
pub open spec fn decrypt_field(
    key: Seq<u8>,
    ciphertext: Seq<u8>,
    secret_path: Seq<char>,
    derivation_path: Seq<char>,
) -> Result<PlaintextFieldView, ErrorKind> {
    match open_deterministic(key, ciphertext) {
        Ok(plaintext) => Ok(
            PlaintextFieldView { plaintext_field: plaintext, secret_path, derivation_path },
        ),
        Err(kind) => Err(kind),
    }
}

/// `encrypted` is `field` encrypted under `key` with the header `header`: it
/// is 22 bytes longer than the plaintext, the header can be read off its front,
/// and what follows decrypts to `field`.
pub open spec fn decrypts_to(
    encrypted: EncryptedFieldView,
    key: Seq<u8>,
    header: KeyIdHeader,
    field: PlaintextFieldView,
) -> bool {
    &&& encrypted.encrypted_field.len() == field.plaintext_field.len() + 22
    &&& parse_header(encrypted.encrypted_field) matches Some((h, ciphertext))
    &&& h == header
    &&& decrypt_field(key, ciphertext, encrypted.secret_path, encrypted.derivation_path) == Ok::<
        PlaintextFieldView,
        ErrorKind,
    >(field)
}

/// Encrypts a field under `key` and puts `key_id_header` in front of it.
///
/// The result is determined by the arguments: `InvalidKey` for a key that is
/// not 64 bytes long, and else the bytes that `encrypt_field` states: the six
/// bytes of the header, the 16 bytes of the synthetic IV, and as many bytes as
/// the plaintext has. Those bytes decrypt to the field again.
pub fn encrypt_internal(
    key: DeterministicEncryptionKey,
    key_id_header: KeyIdHeader,
    plaintext_field: PlaintextField,
) -> (r: Result<EncryptedField, AlloyError>)
    ensures
        result_is(r, encrypt_field(key.0@, key_id_header, plaintext_field@)),
        r matches Ok(encrypted) ==> encrypted@.encrypted_field.len()
            == plaintext_field@.plaintext_field.len() + 22 && decrypts_to(
            encrypted@,
            key.0@,
            key_id_header,
            plaintext_field@,
        ),
{
    let ciphertext = match deterministic_encrypt(&key, &plaintext_field.plaintext_field) {
        Ok(ciphertext) => ciphertext,
        Err(e) => {
            return Err(e);
        },
    };
    proof {
        lemma_parse_inverts_encode(key_id_header, ciphertext@);
        assert(header_bytes(key_id_header).len() == 6);
    }
    Ok(
        EncryptedField {
            encrypted_field: key_id_header.put_header_on_document(&ciphertext),
            secret_path: plaintext_field.secret_path,
            derivation_path: plaintext_field.derivation_path,
        },
    )
}

/// Decrypts the bytes behind a header under `key`.
///
/// The result is determined by the arguments: `InvalidKey` for a key that is
/// not 64 bytes long, `DecryptError` where the recomputed IV does not match.
pub fn decrypt_internal(
    key: DeterministicEncryptionKey,
    ciphertext: Vec<u8>,
    secret_path: SecretPath,
    derivation_path: DerivationPath,
) -> (r: Result<PlaintextField, AlloyError>)
    ensures
        result_is(r, decrypt_field(key.0@, ciphertext@, secret_path.0@, derivation_path.0@)),
{
    match deterministic_decrypt(&key, &ciphertext) {
        Ok(plaintext_field) => Ok(PlaintextField { plaintext_field, secret_path, derivation_path }),
        Err(e) => Err(e),
    }
}

} // verus!
