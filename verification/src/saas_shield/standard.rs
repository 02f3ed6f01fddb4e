//! Standard document encryption under wrapping keys that a tenant security
//! provider derives.
//!
//! The client takes its wrapping keys from one path of the tenant. The caller
//! asks the provider for that path and hands the answer on.

use vstd::prelude::*;
use std::sync::Arc;
use crate::aead::EncryptionKey;
use crate::alloy_client_trait::{decompose, AlloyClient};
use crate::errors::{AlloyError, ErrorKind};
use crate::key_id_header::{
    get_prefix_bytes_for_search, header_bytes, lemma_parse_inverts_encode, parse_header, EdekType,
    KeyId, KeyIdHeader, PayloadType,
};
use crate::label_map::{as_map, entry_views, lemma_same_entries_same_map, LabelMap};
use crate::signed_edek::{
    decrypt_signed_edek, generate_signed_edek, has_stable_signature, open_signed_edek,
    signed_edek_is_signed, wrapped_dek_of,
};
use crate::standard::{
    decrypt_document_core, decrypt_document_model, edek_is_stable, encrypt_document_core,
    fields_fit, EncryptedDocument, PlaintextDocument, StandardDocumentOps,
};
use crate::tenant_security_client::{
    distinct_key_ids, lemma_current_is_found_by_id, path_model, DerivationPath, DerivationType,
    DeriveKeyChoice, DerivedKey, KeyDeriveRequest, KeyDeriveResponse, KeyLookupError, SecretPath,
    SecretType, TenantSecurityClient,
};

verus! {

/// The client for standard document encryption with provider-derived keys.
#[derive(Clone, Debug)]
pub struct SaasShieldStandardClient {
    tenant_security_client: Arc<TenantSecurityClient>,
    secret_path: SecretPath,
    derivation_path: DerivationPath,
}

/// The header that this client writes for the wrapping key `key_id`.
pub open spec fn standard_header(key_id: u32) -> KeyIdHeader {
    KeyIdHeader {
        key_id: KeyId(key_id),
        edek_type: EdekType::SaasShield,
        payload_type: PayloadType::StandardEdek,
    }
}

/// The wrapping key that a derived key gives: its first 32 bytes;
/// `InvalidKey` where it has fewer.
pub open spec fn wrapping_key_of(key: DerivedKey) -> Result<Seq<u8>, ErrorKind> {
    if key.derived_key@.len() >= 32 {
        Ok(key.derived_key@.subrange(0, 32))
    } else {
        Err(ErrorKind::InvalidKey)
    }
}

/// What decrypting a document gives once the key that its header names has
/// been looked up: the DEK is taken out of the record under the wrapping key,
/// its signature is checked, and every field is decrypted under the DEK.
pub open spec fn decrypt_with_key_model(
    record: Seq<u8>,
    document: Seq<(Seq<char>, Vec<u8>)>,
    key: DerivedKey,
) -> Result<Seq<(Seq<char>, Seq<u8>)>, ErrorKind> {
    match wrapping_key_of(key) {
        Err(kind) => Err(kind),
        Ok(kek) => match open_signed_edek(kek, record) {
            Err(kind) => Err(kind),
            Ok(dek) => decrypt_document_model(document, dek),
        },
    }
}

/// What `decrypt` returns for a client that takes its keys from the given path.
pub open spec fn standard_decrypt_model(
    secret_path: Seq<char>,
    derivation_path: Seq<char>,
    encrypted_document: EncryptedDocument,
    derived_keys: KeyDeriveResponse,
) -> Result<Seq<(Seq<char>, Seq<u8>)>, ErrorKind> {
    match decompose(EdekType::SaasShield, PayloadType::StandardEdek, encrypted_document.edek.0@) {
        Err(kind) => Err(kind),
        Ok((key_id, record)) => match derived_keys.select_one(
            secret_path,
            derivation_path,
            DeriveKeyChoice::Specific(key_id),
        ) {
            Err(e) => Err(e.spec_kind()),
            Ok(key) => decrypt_with_key_model(record, encrypted_document.document@, key),
        },
    }
}

/// `encrypted` is `document` encrypted under the wrapping key `key`: its EDEK
/// is the header of that key followed by a record whose signature check has one
/// answer and that opens under the key, and the fields decrypt to `document`
/// under the DEK in the record.
pub open spec fn decrypts_to(
    encrypted: EncryptedDocument,
    key: DerivedKey,
    document: Seq<(Seq<char>, Vec<u8>)>,
) -> bool {
    &&& parse_header(encrypted.edek.0@) matches Some((header, record))
    &&& header == standard_header(key.tenant_secret_id.0)
    &&& has_stable_signature(record)
    &&& decrypt_with_key_model(record, encrypted.document@, key) == Ok::<
        Seq<(Seq<char>, Seq<u8>)>,
        ErrorKind,
    >(entry_views(document))
}

/// `document` is what the fields `encrypted` hold for the wrapping key `key`:
/// the record declares a signature and holds a DEK for that key, and under that
/// DEK the fields decrypt to `document`.
pub open spec fn holds_document(
    record: Seq<u8>,
    encrypted: Seq<(Seq<char>, Vec<u8>)>,
    key: DerivedKey,
    document: Seq<(Seq<char>, Seq<u8>)>,
) -> bool {
    &&& wrapping_key_of(key) matches Ok(kek)
    &&& wrapped_dek_of(kek, record) matches Some(dek)
    &&& signed_edek_is_signed(record)
    &&& decrypt_document_model(encrypted, dek) == Ok::<Seq<(Seq<char>, Seq<u8>)>, ErrorKind>(
        document,
    )
}

/// In `derived_keys`, looking the current key of the path up by its id finds
/// that very key.
pub open spec fn current_key_is_found_by_id(
    secret_path: Seq<char>,
    derivation_path: Seq<char>,
    derived_keys: KeyDeriveResponse,
) -> bool {
    derived_keys.select_one(secret_path, derivation_path, DeriveKeyChoice::Current) matches Ok(
        key,
    ) && derived_keys.select_one(
        secret_path,
        derivation_path,
        DeriveKeyChoice::Specific(KeyId(key.tenant_secret_id.0)),
    ) == Ok::<DerivedKey, KeyLookupError>(key)
}

/// What `encrypt` returned is decrypted by `decrypt` wherever looking the
/// wrapping key up by its id finds that very key.
pub proof fn lemma_decrypt_finds_current(
    secret_path: Seq<char>,
    derivation_path: Seq<char>,
    encrypted: EncryptedDocument,
    document: Seq<(Seq<char>, Vec<u8>)>,
    derived_keys: KeyDeriveResponse,
)
    requires
        derived_keys.select_one(secret_path, derivation_path, DeriveKeyChoice::Current) matches Ok(
            key,
        ) && decrypts_to(encrypted, key, document),
        current_key_is_found_by_id(secret_path, derivation_path, derived_keys),
    ensures
        edek_is_stable(encrypted.edek.0@),
        standard_decrypt_model(secret_path, derivation_path, encrypted, derived_keys) == Ok::<
            Seq<(Seq<char>, Seq<u8>)>,
            ErrorKind,
        >(entry_views(document)),
{
}

/// Round trip: for every answer of the provider that gives no two keys of the
/// client's path the same id, `decrypt` turns what `encrypt` returned for a
/// document back into that document: the same field ids with the same bytes,
/// and so the same map.
pub proof fn lemma_round_trip(
    secret_path: Seq<char>,
    derivation_path: Seq<char>,
    encrypted: EncryptedDocument,
    document: Seq<(Seq<char>, Vec<u8>)>,
    derived_keys: KeyDeriveResponse,
)
    requires
        derived_keys.select_one(secret_path, derivation_path, DeriveKeyChoice::Current) matches Ok(
            key,
        ) && decrypts_to(encrypted, key, document),
        derived_keys.keys_for_path(secret_path, derivation_path) matches Ok(keys)
            ==> distinct_key_ids(keys),
    ensures
        edek_is_stable(encrypted.edek.0@),
        standard_decrypt_model(secret_path, derivation_path, encrypted, derived_keys) == Ok::<
            Seq<(Seq<char>, Seq<u8>)>,
            ErrorKind,
        >(entry_views(document)),
        forall|decrypted: Seq<(Seq<char>, Vec<u8>)>|
            entry_views(decrypted) == entry_views(document) ==> as_map(decrypted) == as_map(
                document,
            ),
{
    lemma_current_is_found_by_id(derived_keys, secret_path, derivation_path);
    lemma_decrypt_finds_current(secret_path, derivation_path, encrypted, document, derived_keys);
    assert forall|decrypted: Seq<(Seq<char>, Vec<u8>)>|
        entry_views(decrypted) == entry_views(document) implies as_map(decrypted) == as_map(
        document,
    ) by {
        lemma_same_entries_same_map(decrypted, document);
    }
}

impl AlloyClient for SaasShieldStandardClient {
    open spec fn edek_type() -> EdekType {
        EdekType::SaasShield
    }

    open spec fn payload_type() -> PayloadType {
        PayloadType::StandardEdek
    }

    fn get_edek_type() -> (t: EdekType) {
        EdekType::SaasShield
    }

    fn get_payload_type() -> (t: PayloadType) {
        PayloadType::StandardEdek
    }
}

impl SaasShieldStandardClient {
    /// The handle through which the caller reaches the provider.
    pub closed spec fn client(&self) -> Arc<TenantSecurityClient> {
        self.tenant_security_client
    }

    /// The secret path of the wrapping keys.
    pub closed spec fn spec_secret_path(&self) -> Seq<char> {
        self.secret_path.0@
    }

    /// The derivation path of the wrapping keys.
    pub closed spec fn spec_derivation_path(&self) -> Seq<char> {
        self.derivation_path.0@
    }

    /// A client that takes its wrapping keys from the given path of the
    /// provider behind `tenant_security_client`.
    pub fn new(
        tenant_security_client: Arc<TenantSecurityClient>,
        secret_path: SecretPath,
        derivation_path: DerivationPath,
    ) -> (c: Self)
        ensures
            c.client() == tenant_security_client,
            c.spec_secret_path() == secret_path.0@,
            c.spec_derivation_path() == derivation_path.0@,
    {
        Self { tenant_security_client, secret_path, derivation_path }
    }

    /// The handle through which the caller reaches the provider.
    pub fn tenant_security_client(&self) -> (handle: &Arc<TenantSecurityClient>)
        ensures
            *handle == self.client(),
    {
        &self.tenant_security_client
    }

    /// The path that the provider must be asked about.
    pub fn key_path(&self) -> (path: (&SecretPath, &DerivationPath))
        ensures
            path.0.0@ == self.spec_secret_path(),
            path.1.0@ == self.spec_derivation_path(),
    {
        (&self.secret_path, &self.derivation_path)
    }

    /// The request that the provider must be sent: keys for standard
    /// encryption, derived with SHA-512, for this client's path.
    pub fn key_request(&self) -> (request: KeyDeriveRequest)
        ensures
            request.derivation_type == DerivationType::Sha512,
            request.secret_type == SecretType::Standard,
            path_model(request.paths@) == seq![
                (self.spec_secret_path(), self.spec_derivation_path()),
            ],
    {
        let mut paths: Vec<(SecretPath, DerivationPath)> = Vec::new();
        paths.push((self.secret_path.duplicate(), self.derivation_path.duplicate()));
        assert(path_model(paths@) =~= seq![(self.spec_secret_path(), self.spec_derivation_path())]);
        KeyDeriveRequest {
            paths,
            derivation_type: DerivationType::Sha512,
            secret_type: SecretType::Standard,
        }
    }

    /// The wrapping key that a derived key gives: its first 32 bytes.
    pub fn wrapping_key(derived_key: &DerivedKey) -> (r: Result<EncryptionKey, AlloyError>)
        ensures
            match wrapping_key_of(*derived_key) {
                Ok(kek) => r matches Ok(key) && key.0@ == kek,
                Err(kind) => r matches Err(e) && e.kind() == kind,
            },
    {
        if derived_key.derived_key.len() < 32 {
            return Err(
                AlloyError::InvalidKey {
                    msg: "The derived key is too short to wrap a document key.".to_string(),
                },
            );
        }
        let mut bytes: [u8; 32] = [0u8; 32];
        let mut i: usize = 0;
        while i < 32
            invariant
                i <= 32,
                derived_key.derived_key@.len() >= 32,
                forall|k: int| 0 <= k < i ==> bytes@[k] == derived_key.derived_key@[k],
            decreases 32 - i,
        {
            bytes[i] = derived_key.derived_key[i];
            i += 1;
        }
        assert(bytes@ =~= derived_key.derived_key@.subrange(0, 32));
        Ok(EncryptionKey(bytes))
    }

    /// Decrypts a document under the wrapping key that was looked up for the
    /// key id in its header. `record` is what follows that header in the EDEK.
    ///
    /// The result is what `decrypt_with_key_model` says wherever the check of
    /// the record's signature has one answer. Whatever the record, a document
    /// that is returned is what the fields decrypt to under the DEK that the
    /// record holds, the record declares a signature, and a failure is an
    /// `InvalidKey` or a `DecryptError`.
    pub fn decrypt_with_key(
        record: &Vec<u8>,
        document: LabelMap<Vec<u8>>,
        derived_key: &DerivedKey,
    ) -> (r: Result<PlaintextDocument, AlloyError>)
        ensures
            has_stable_signature(record@) ==> match decrypt_with_key_model(
                record@,
                document@,
                *derived_key,
            ) {
                Ok(entries) => r matches Ok(decrypted) && entry_views(decrypted@) == entries,
                Err(kind) => r matches Err(e) && e.kind() == kind,
            },
            r matches Ok(decrypted) ==> holds_document(
                record@,
                document@,
                *derived_key,
                entry_views(decrypted@),
            ),
            r matches Err(e) ==> e.kind() == ErrorKind::InvalidKey || e.kind()
                == ErrorKind::DecryptError,
    {
        let kek = match Self::wrapping_key(derived_key) {
            Ok(kek) => kek,
            Err(e) => {
                return Err(e);
            },
        };
        let dek = match decrypt_signed_edek(&kek, record) {
            Ok(dek) => dek,
            Err(e) => {
                return Err(e);
            },
        };
        decrypt_document_core(document, dek)
    }
}

impl StandardDocumentOps for SaasShieldStandardClient {
    open spec fn decrypt_model(
        &self,
        encrypted_document: EncryptedDocument,
        derived_keys: KeyDeriveResponse,
    ) -> Result<Seq<(Seq<char>, Seq<u8>)>, ErrorKind> {
        standard_decrypt_model(
            self.spec_secret_path(),
            self.spec_derivation_path(),
            encrypted_document,
            derived_keys,
        )
    }

    open spec fn finds_current_key(&self, derived_keys: KeyDeriveResponse) -> bool {
        current_key_is_found_by_id(
            self.spec_secret_path(),
            self.spec_derivation_path(),
            derived_keys,
        )
    }

    open spec fn has_wrapping_key(&self, derived_keys: KeyDeriveResponse) -> bool {
        derived_keys.select_one(
            self.spec_secret_path(),
            self.spec_derivation_path(),
            DeriveKeyChoice::Current,
        ) matches Ok(key) && wrapping_key_of(key) is Ok
    }

    open spec fn opens_to(
        &self,
        encrypted_document: EncryptedDocument,
        derived_keys: KeyDeriveResponse,
        document: Seq<(Seq<char>, Seq<u8>)>,
    ) -> bool {
        &&& decompose(
            EdekType::SaasShield,
            PayloadType::StandardEdek,
            encrypted_document.edek.0@,
        ) matches Ok((key_id, record))
        &&& derived_keys.select_one(
            self.spec_secret_path(),
            self.spec_derivation_path(),
            DeriveKeyChoice::Specific(key_id),
        ) matches Ok(key)
        &&& holds_document(record, encrypted_document.document@, key, document)
    }

    /// Encrypts a document under a fresh DEK that is wrapped under the
    /// current key of this client's path.
    ///
    /// The DEK and the IVs are random, so the bytes are not determined.
    /// Whatever they are, on success the EDEK begins with the header of the key
    /// that wrapped the DEK, and the result decrypts to the document under that
    /// key. It succeeds wherever the path has one current key of at least 32
    /// bytes and every field is short enough for the cipher. Where no key can be
    /// picked, the failure is that of the lookup; a key of fewer than 32 bytes
    /// is an `InvalidKey`; a field beyond the cipher's limit is an
    /// `EncryptError`.
    fn encrypt(
        &self,
        plaintext_document: PlaintextDocument,
        derived_keys: &KeyDeriveResponse,
        rng: &mut rand_chacha::ChaCha20Rng,
    ) -> (r: Result<EncryptedDocument, AlloyError>)
        ensures
            match derived_keys.select_one(
                self.spec_secret_path(),
                self.spec_derivation_path(),
                DeriveKeyChoice::Current,
            ) {
                Err(e) => r matches Err(err) && err.kind() == e.spec_kind(),
                Ok(key) => match r {
                    Ok(encrypted) => wrapping_key_of(key) is Ok && decrypts_to(
                        encrypted,
                        key,
                        plaintext_document@,
                    ),
                    Err(e) => if wrapping_key_of(key) is Err {
                        e.kind() == ErrorKind::InvalidKey
                    } else {
                        e.kind() == ErrorKind::EncryptError && !fields_fit(plaintext_document@)
                    },
                },
            },
    {
        let keys = match derived_keys.get_key_for_path(
            &self.secret_path,
            &self.derivation_path,
            DeriveKeyChoice::Current,
        ) {
            Ok(keys) => keys,
            Err(e) => {
                return Err(e);
            },
        };
        let derived_key = keys[0];
        let kek = match Self::wrapping_key(derived_key) {
            Ok(kek) => kek,
            Err(e) => {
                return Err(e);
            },
        };
        let (aes_dek, record) = match generate_signed_edek(
            rng,
            &kek,
            derived_key.tenant_secret_id.0,
        ) {
            Ok(made) => made,
            Err(e) => {
                return Err(e);
            },
        };
        let key_id_header = Self::create_key_id_header(derived_key.tenant_secret_id.0);
        proof {
            lemma_parse_inverts_encode(key_id_header, record@);
        }
        let ghost document = plaintext_document@;
        let r = encrypt_document_core(plaintext_document, rng, aes_dek, key_id_header, record);
        proof {
            if let Ok(ref encrypted) = r {
                assert(encrypted.edek.0@.subrange(0, 6) =~= header_bytes(key_id_header));
                if self.finds_current_key(*derived_keys) {
                    lemma_decrypt_finds_current(
                        self.spec_secret_path(),
                        self.spec_derivation_path(),
                        *encrypted,
                        document,
                        *derived_keys,
                    );
                }
            }
        }
        r
    }

    fn decrypt(&self, encrypted_document: EncryptedDocument, derived_keys: &KeyDeriveResponse) -> (r:
        Result<PlaintextDocument, AlloyError>) {
        let (key_id, record) = match Self::decompose_key_id_header(&encrypted_document.edek.0) {
            Ok(parts) => parts,
            Err(e) => {
                return Err(e);
            },
        };
        let keys = match derived_keys.get_key_for_path(
            &self.secret_path,
            &self.derivation_path,
            DeriveKeyChoice::Specific(key_id),
        ) {
            Ok(keys) => keys,
            Err(e) => {
                return Err(e);
            },
        };
        Self::decrypt_with_key(&record, encrypted_document.document, keys[0])
    }

    fn get_searchable_edek_prefix(&self, id: u32) -> (prefix: Vec<u8>) {
        get_prefix_bytes_for_search(Self::create_key_id_header(id))
    }
}

} // verus!
