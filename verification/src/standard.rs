//! Standard encryption of documents: every field on its own, under one
//! document key, with a fresh random IV.
//!
//! A document is encrypted under a document encryption key (DEK) that is made
//! for it alone. The DEK travels with the document as an EDEK: a key id header
//! followed by the signed record that holds the DEK wrapped under a tenant's key.

use vstd::prelude::*;
use crate::aead::{
    decrypt_detached_document, encrypt_detached_document, max_gcm_plaintext_len, open_detached,
    EncryptionKey,
};
use crate::alloy_client_trait::AlloyClient;
use crate::batch::{
    all_or_first_failure, is_first_failure, lemma_all_succeed, lemma_fails_with_first,
};
use crate::errors::{AlloyError, ErrorKind};
use crate::key_id_header::{header_bytes, parse_header, KeyId, KeyIdHeader, PayloadType};
use crate::label_map::{entry_views, LabelMap};
use crate::signed_edek::has_stable_signature;
use crate::tenant_security_client::KeyDeriveResponse;

verus! {

/// A document: field ids and the bytes of each field.
pub type PlaintextDocument = LabelMap<Vec<u8>>;

/// The encrypted document encryption key: a key id header and the signed
/// record behind it.
#[derive(Clone, Debug)]
pub struct EdekWithKeyIdHeader(pub Vec<u8>);

/// An encrypted document and the EDEK that it was encrypted with.
#[derive(Clone, Debug)]
pub struct EncryptedDocument {
    /// The encrypted document encryption key used when the document was encrypted.
    pub edek: EdekWithKeyIdHeader,
    /// The encrypted bytes of each field.
    pub document: LabelMap<Vec<u8>>,
}

/// A document together with the EDEK that it was, or is to be, encrypted with.
#[derive(Clone, Debug)]
pub struct PlaintextDocumentWithEdek {
    edek: EdekWithKeyIdHeader,
    document: PlaintextDocument,
}

impl PlaintextDocumentWithEdek {
    /// The EDEK of the document.
    pub closed spec fn spec_edek(&self) -> EdekWithKeyIdHeader {
        self.edek
    }

    /// The fields of the document.
    pub closed spec fn spec_document(&self) -> PlaintextDocument {
        self.document
    }

    /// A document with its EDEK.
    pub fn new(edek: EdekWithKeyIdHeader, document: PlaintextDocument) -> (d: Self)
        ensures
            d.spec_edek() == edek,
            d.spec_document() == document,
    {
        PlaintextDocumentWithEdek { edek, document }
    }

    /// The EDEK of the document.
    pub fn edek(&self) -> (edek: &EdekWithKeyIdHeader)
        ensures
            *edek == self.spec_edek(),
    {
        &self.edek
    }

    /// The fields of the document.
    pub fn document(&self) -> (document: &PlaintextDocument)
        ensures
            *document == self.spec_document(),
    {
        &self.document
    }
}

/// The outcome of decrypting each field of a document under `dek`.
pub open spec fn field_outcomes(document: Seq<(Seq<char>, Vec<u8>)>, dek: Seq<u8>) -> Seq<
    Result<Seq<u8>, ErrorKind>,
> {
    Seq::new(
        document.len(),
        |i: int|
            match open_detached(dek, document[i].1@) {
                Some(plaintext) => Ok(plaintext),
                None => Err(ErrorKind::DecryptError),
            },
    )
}

/// What decrypting a document under `dek` gives: every field id with the
/// plaintext of its field, or a `DecryptError` if any field does not decrypt.
pub open spec fn decrypt_document_model(document: Seq<(Seq<char>, Vec<u8>)>, dek: Seq<u8>) -> Result<
    Seq<(Seq<char>, Seq<u8>)>,
    ErrorKind,
> {
    match all_or_first_failure(field_outcomes(document, dek)) {
        Ok(plaintexts) => Ok(Seq::new(document.len(), |i: int| (document[i].0, plaintexts[i]))),
        Err(kind) => Err(kind),
    }
}

/// A document each of whose fields decrypts under `dek` to the field of the
/// same id in `plaintext` decrypts, as a whole, to `plaintext`.
pub proof fn lemma_fields_decrypt_document_decrypts(
    encrypted: Seq<(Seq<char>, Vec<u8>)>,
    plaintext: Seq<(Seq<char>, Vec<u8>)>,
    dek: Seq<u8>,
)
    requires
        encrypted.len() == plaintext.len(),
        forall|i: int|
            0 <= i < encrypted.len() ==> (#[trigger] encrypted[i]).0 == plaintext[i].0
                && open_detached(dek, encrypted[i].1@) == Some(plaintext[i].1@),
    ensures
        decrypt_document_model(encrypted, dek) == Ok::<Seq<(Seq<char>, Seq<u8>)>, ErrorKind>(
            entry_views(plaintext),
        ),
{
    let outcomes = field_outcomes(encrypted, dek);
    assert forall|k: int| 0 <= k < outcomes.len() implies outcomes[k] is Ok by {
        assert(open_detached(dek, encrypted[k].1@) == Some(plaintext[k].1@));
    }
    lemma_all_succeed(outcomes);
    let plaintexts = all_or_first_failure(outcomes)->Ok_0;
    assert forall|i: int| 0 <= i < encrypted.len() implies (encrypted[i].0, plaintexts[i])
        == entry_views(plaintext)[i] by {
        assert(open_detached(dek, encrypted[i].1@) == Some(plaintext[i].1@));
    }
    assert(Seq::new(encrypted.len(), |i: int| (encrypted[i].0, plaintexts[i])) =~= entry_views(
        plaintext,
    ));
}

/// Every field of `document` is short enough for the cipher.
pub open spec fn fields_fit(document: Seq<(Seq<char>, Vec<u8>)>) -> bool {
    forall|i: int|
        0 <= i < document.len() ==> (#[trigger] document[i]).1@.len() <= max_gcm_plaintext_len()
}

/// The check of the signature of the record in `edek` has one answer. An EDEK
/// without a readable header has no record to check.
pub open spec fn edek_is_stable(edek: Seq<u8>) -> bool {
    parse_header(edek) matches Some((_, record)) ==> has_stable_signature(record)
}

/// Encrypting and decrypting documents with standard encryption: fully random
/// AES-256, the strongest protection where nothing has to be matched on the
/// encrypted value.
pub trait StandardDocumentOps: AlloyClient {
    /// What `decrypt` returns for a document and the provider's answer.
    spec fn decrypt_model(
        &self,
        encrypted_document: EncryptedDocument,
        derived_keys: KeyDeriveResponse,
    ) -> Result<Seq<(Seq<char>, Seq<u8>)>, ErrorKind>;

    /// In `derived_keys`, the key that `encrypt` wraps the DEK under is the
    /// key that `decrypt` finds by its id.
    spec fn finds_current_key(&self, derived_keys: KeyDeriveResponse) -> bool;

    /// `derived_keys` holds a key that `encrypt` can wrap a DEK under.
    spec fn has_wrapping_key(&self, derived_keys: KeyDeriveResponse) -> bool;

    /// `document` is what `encrypted_document` holds: its EDEK names a key of
    /// `derived_keys`, the record in it declares a signature and holds a DEK
    /// for that key, and under that DEK the fields decrypt to `document`.
    spec fn opens_to(
        &self,
        encrypted_document: EncryptedDocument,
        derived_keys: KeyDeriveResponse,
        document: Seq<(Seq<char>, Seq<u8>)>,
    ) -> bool;

    /// Encrypts a document. A DEK is made and wrapped under a key of the
    /// tenant, then each field is encrypted on its own under the DEK with a
    /// random IV. The result differs from call to call.
    ///
    /// It succeeds wherever the provider's answer holds a key to wrap the
    /// DEK under and every field is short enough for the cipher. On success the
    /// result has the field ids of the document, in their order, its EDEK
    /// begins with a header of this client's kind, and `decrypt` turns it back
    /// into the document for every answer of the provider in which the wrapping
    /// key is found by its id.
    fn encrypt(
        &self,
        plaintext_document: PlaintextDocument,
        derived_keys: &KeyDeriveResponse,
        rng: &mut rand_chacha::ChaCha20Rng,
    ) -> (r: Result<EncryptedDocument, AlloyError>)
        ensures
            r matches Ok(encrypted) ==> encrypted.document@.len() == plaintext_document@.len()
                && (forall|i: int|
                0 <= i < plaintext_document@.len() ==> (#[trigger] encrypted.document@[i]).0
                    == plaintext_document@[i].0) && exists|key_id: u32|
                encrypted.edek.0@.subrange(0, 6) == header_bytes(
                    KeyIdHeader {
                        key_id: KeyId(key_id),
                        edek_type: Self::edek_type(),
                        payload_type: PayloadType::StandardEdek,
                    },
                ),
            r matches Ok(encrypted) ==> edek_is_stable(encrypted.edek.0@) && (
            self.finds_current_key(*derived_keys) ==> self.decrypt_model(encrypted, *derived_keys)
                == Ok::<Seq<(Seq<char>, Seq<u8>)>, ErrorKind>(entry_views(plaintext_document@))),
            self.has_wrapping_key(*derived_keys) && fields_fit(plaintext_document@) ==> r is Ok,
    ;

    /// Decrypts a document that `encrypt` returned.
    ///
    /// The result is what `decrypt_model` says wherever the check of the
    /// EDEK's signature has one answer, as it has for every EDEK that `encrypt`
    /// made. Whatever the EDEK, a document that is returned is what the
    /// encrypted document holds, and a failure is a `MalformedHeader`, a
    /// `RequestError`, an `InvalidKey` or a `DecryptError`.
    fn decrypt(&self, encrypted_document: EncryptedDocument, derived_keys: &KeyDeriveResponse) -> (r:
        Result<PlaintextDocument, AlloyError>)
        ensures
            edek_is_stable(encrypted_document.edek.0@) ==> match self.decrypt_model(
                encrypted_document,
                *derived_keys,
            ) {
                Ok(entries) => r matches Ok(document) && entry_views(document@) == entries,
                Err(kind) => r matches Err(e) && e.kind() == kind,
            },
            r matches Ok(document) ==> self.opens_to(
                encrypted_document,
                *derived_keys,
                entry_views(document@),
            ),
            r matches Err(e) ==> e.kind() == ErrorKind::MalformedHeader || e.kind()
                == ErrorKind::RequestError || e.kind() == ErrorKind::InvalidKey || e.kind()
                == ErrorKind::DecryptError,
    ;

    /// The bytes with which the EDEK of every document begins that was
    /// encrypted under the key `id`, to search a data store for them.
    fn get_searchable_edek_prefix(&self, id: u32) -> (prefix: Vec<u8>)
        ensures
            prefix@ == header_bytes(
                KeyIdHeader {
                    key_id: KeyId(id),
                    edek_type: Self::edek_type(),
                    payload_type: PayloadType::StandardEdek,
                },
            ),
    ;
}

/// Encrypts every field of a document under `aes_dek` and puts
/// `key_id_header` in front of the record that holds the wrapped DEK.
///
/// Every field gets an IV of its own from `rng`, so the bytes are not
/// determined. Whatever they are: the field ids stay as they are, each field
/// decrypts to its plaintext under `aes_dek`, and so does the document as a
/// whole. A failure on any field fails the whole; the only failure is the
/// cipher's refusal of a field beyond its limit.
pub fn encrypt_document_core(
    document: PlaintextDocument,
    rng: &mut rand_chacha::ChaCha20Rng,
    aes_dek: EncryptionKey,
    key_id_header: KeyIdHeader,
    edek_record: Vec<u8>,
) -> (r: Result<EncryptedDocument, AlloyError>)
    ensures
        r matches Ok(encrypted) ==> {
            &&& encrypted.edek.0@ == header_bytes(key_id_header) + edek_record@
            &&& encrypted.document@.len() == document@.len()
            &&& forall|i: int|
                0 <= i < document@.len() ==> (#[trigger] encrypted.document@[i]).0 == document@[i].0
                    && encrypted.document@[i].1@.len() == document@[i].1@.len() + 33
                    && open_detached(aes_dek.0@, encrypted.document@[i].1@) == Some(
                    document@[i].1@,
                )
            &&& decrypt_document_model(encrypted.document@, aes_dek.0@) == Ok::<
                Seq<(Seq<char>, Seq<u8>)>,
                ErrorKind,
            >(entry_views(document@))
        },
        r matches Err(e) ==> e.kind() == ErrorKind::EncryptError,
        fields_fit(document@) ==> r is Ok,
{
    let mut ciphertexts: Vec<Vec<u8>> = Vec::new();
    let mut i: usize = 0;
    while i < document.len()
        invariant
            i <= document@.len(),
            ciphertexts@.len() == i,
            forall|k: int|
                0 <= k < i ==> (#[trigger] ciphertexts@[k])@.len() == document@[k].1@.len() + 33
                    && open_detached(aes_dek.0@, ciphertexts@[k]@) == Some(document@[k].1@),
        decreases document@.len() - i,
    {
        match encrypt_detached_document(rng, &aes_dek, document.value(i)) {
            Ok(ciphertext) => {
                ciphertexts.push(ciphertext);
            },
            Err(e) => {
                assert(document@[i as int].1@.len() > max_gcm_plaintext_len());
                return Err(e);
            },
        }
        i += 1;
    }
    let ghost sealed = ciphertexts@;
    let encrypted_document = document.with_values(ciphertexts);
    proof {
        assert forall|i: int| 0 <= i < document@.len() implies (#[trigger] encrypted_document@[i]).0
            == document@[i].0 && encrypted_document@[i].1@.len() == document@[i].1@.len() + 33
            && open_detached(aes_dek.0@, encrypted_document@[i].1@) == Some(document@[i].1@) by {
            assert(encrypted_document@[i].1 == sealed[i]);
        }
        lemma_fields_decrypt_document_decrypts(encrypted_document@, document@, aes_dek.0@);
    }
    Ok(
        EncryptedDocument {
            edek: EdekWithKeyIdHeader(key_id_header.put_header_on_document(&edek_record)),
            document: encrypted_document,
        },
    )
}

/// Decrypts every field of a document under `dek`.
///
/// The result is determined by the arguments: the plaintext of every field
/// under its id, or a `DecryptError` if any field does not decrypt.
pub fn decrypt_document_core(document: LabelMap<Vec<u8>>, dek: EncryptionKey) -> (r: Result<
    PlaintextDocument,
    AlloyError,
>)
    ensures
        match decrypt_document_model(document@, dek.0@) {
            Ok(entries) => r matches Ok(decrypted) && entry_views(decrypted@) == entries,
            Err(kind) => r matches Err(e) && e.kind() == kind,
        },
{
    let ghost outcomes = field_outcomes(document@, dek.0@);
    let mut plaintexts: Vec<Vec<u8>> = Vec::new();
    let mut i: usize = 0;
    while i < document.len()
        invariant
            i <= document@.len(),
            outcomes == field_outcomes(document@, dek.0@),
            plaintexts@.len() == i,
            forall|k: int|
                0 <= k < i ==> #[trigger] outcomes[k] == Ok::<Seq<u8>, ErrorKind>(plaintexts@[k]@),
        decreases document@.len() - i,
    {
        match decrypt_detached_document(&dek, document.value(i)) {
            Ok(plaintext) => {
                plaintexts.push(plaintext);
            },
            Err(e) => {
                proof {
                    assert(outcomes[i as int] is Err);
                    assert(is_first_failure(outcomes, i as int));
                    lemma_fails_with_first(outcomes, i as int);
                }
                return Err(e);
            },
        }
        i += 1;
    }
    let ghost opened = plaintexts@;
    let decrypted = document.with_values(plaintexts);
    proof {
        lemma_all_succeed(outcomes);
        let model = decrypt_document_model(document@, dek.0@)->Ok_0;
        assert forall|i: int| 0 <= i < document@.len() implies entry_views(decrypted@)[i]
            == model[i] by {
            assert(decrypted@[i].1 == opened[i]);
            assert(outcomes[i] == Ok::<Seq<u8>, ErrorKind>(opened[i]@));
        }
        assert(entry_views(decrypted@) =~= model);
    }
    Ok(decrypted)
}

} // verus!
