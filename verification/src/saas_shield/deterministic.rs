//! Deterministic field encryption under keys that a tenant security provider derives.
//!
//! Every operation takes the provider's answer as an argument: the caller sends
//! the provider the request that `key_request` makes for the paths of the fields,
//! and hands the answer on. What each operation returns is then determined by
//! its arguments.

use vstd::prelude::*;
use std::sync::Arc;
use crate::aead::DeterministicEncryptionKey;
use crate::alloy_client_trait::{decompose, AlloyClient};
use crate::batch::{
    all_or_first_failure, failure_kinds, failures_of, is_first_failure, lemma_all_succeed,
    lemma_batch_labels, lemma_fails_with_first, lemma_success_is_listed, successes_of,
};
use crate::deterministic::{
    decrypt_field, decrypt_internal, decrypts_to, encrypt_field, encrypt_internal, EncryptedField,
    EncryptedFieldView, EncryptedFields, DeterministicRotateResult, GenerateQueryResult,
    PlaintextField, PlaintextFieldView, PlaintextFields,
};
use crate::errors::{result_is, AlloyError, ErrorKind};
use crate::key_id_header::{
    header_bytes, parse_header, EdekType, KeyId, KeyIdHeader, PayloadType,
};
use crate::label_map::{distinct_labels, entry_views, has_label, LabelMap};
use crate::metadata::AlloyMetadata;
use crate::saas_shield::{get_in_rotation_prefix_internal, RotationKeys};
use crate::tenant_security_client::{
    current_count, distinct_key_ids, distinct_paths, in_rotation, is_first_with_id,
    lemma_current_is_found_by_id, lemma_in_rotation_len, names_path, path_model, DerivationPath,
    DerivationType, DeriveKeyChoice, DerivedKey, KeyDeriveRequest, KeyDeriveResponse,
    KeyLookupError, SecretPath, SecretType, TenantId, TenantSecurityClient,
};
use crate::util::{check_rotation_no_op, rotation_is_no_op};

verus! {

/// The client for deterministic field encryption with provider-derived keys.
#[derive(Clone, Debug)]
pub struct SaasShieldDeterministicClient {
    tenant_security_client: Arc<TenantSecurityClient>,
}

/// The header that this client writes for the key `key_id`.
pub open spec fn deterministic_header(key_id: u32) -> KeyIdHeader {
    KeyIdHeader {
        key_id: KeyId(key_id),
        edek_type: EdekType::SaasShield,
        payload_type: PayloadType::DeterministicField,
    }
}

/// What `encrypt` returns: the field encrypted under the one current key of
/// its path, behind a header with that key's id.
pub open spec fn encrypt_model(field: PlaintextFieldView, derived_keys: KeyDeriveResponse) -> Result<
    EncryptedFieldView,
    ErrorKind,
> {
    match derived_keys.select_one(
        field.secret_path,
        field.derivation_path,
        DeriveKeyChoice::Current,
    ) {
        Ok(key) => encrypt_field(
            key.derived_key@,
            deterministic_header(key.tenant_secret_id.0),
            field,
        ),
        Err(e) => Err(e.spec_kind()),
    }
}

/// What decrypting `ciphertext` under `key` returns when the header named
/// `key_id`: `InvalidKey` unless `key` is the key that the header names.
pub open spec fn decrypt_with_key_model(
    key_id: KeyId,
    ciphertext: Seq<u8>,
    key: DerivedKey,
    secret_path: Seq<char>,
    derivation_path: Seq<char>,
) -> Result<PlaintextFieldView, ErrorKind> {
    if key.tenant_secret_id.0 != key_id.0 {
        Err(ErrorKind::InvalidKey)
    } else {
        decrypt_field(key.derived_key@, ciphertext, secret_path, derivation_path)
    }
}

/// What `decrypt` returns: the header is taken off, the key that it names is
/// looked up by its id, and the rest is decrypted under that key.
pub open spec fn decrypt_model(field: EncryptedFieldView, derived_keys: KeyDeriveResponse) -> Result<
    PlaintextFieldView,
    ErrorKind,
> {
    match decompose(EdekType::SaasShield, PayloadType::DeterministicField, field.encrypted_field) {
        Ok((key_id, ciphertext)) => match derived_keys.select_one(
            field.secret_path,
            field.derivation_path,
            DeriveKeyChoice::Specific(key_id),
        ) {
            Ok(key) => decrypt_with_key_model(
                key_id,
                ciphertext,
                key,
                field.secret_path,
                field.derivation_path,
            ),
            Err(e) => Err(e.spec_kind()),
        },
        Err(kind) => Err(kind),
    }
}

/// The outcome of encrypting `field` under each of `keys`, in their order.
pub open spec fn outcomes_per_key(keys: Seq<DerivedKey>, field: PlaintextFieldView) -> Seq<
    Result<EncryptedFieldView, ErrorKind>,
> {
    Seq::new(
        keys.len(),
        |j: int|
            encrypt_field(
                keys[j].derived_key@,
                deterministic_header(keys[j].tenant_secret_id.0),
                field,
            ),
    )
}

/// The query values of one field: its encryption under every key of its path,
/// in the provider's order; `RequestError` where the answer lacks the path.
pub open spec fn query_values(field: PlaintextFieldView, derived_keys: KeyDeriveResponse) -> Result<
    Seq<EncryptedFieldView>,
    ErrorKind,
> {
    match derived_keys.keys_for_path(field.secret_path, field.derivation_path) {
        Ok(keys) => all_or_first_failure(outcomes_per_key(keys, field)),
        Err(e) => Err(e.spec_kind()),
    }
}

/// What `generate_query_field_values` returns: the query values of every
/// field, or the failure of the first field that has one.
pub open spec fn generate_query_model(
    fields: Seq<(Seq<char>, PlaintextField)>,
    derived_keys: KeyDeriveResponse,
) -> Result<Seq<Seq<EncryptedFieldView>>, ErrorKind> {
    all_or_first_failure(Seq::new(fields.len(), |i: int| query_values(fields[i].1@, derived_keys)))
}

/// The views of a list of encrypted fields.
pub open spec fn field_views(fields: Seq<EncryptedField>) -> Seq<EncryptedFieldView> {
    Seq::new(fields.len(), |j: int| fields[j]@)
}

/// `encrypted` holds one encryption of `field` for each of `keys`, in their
/// order; each is 22 bytes longer than the field, carries the id of its key in
/// its header, and decrypts to `field` under its key.
pub open spec fn covers_keys(
    encrypted: Seq<EncryptedField>,
    keys: Seq<DerivedKey>,
    field: PlaintextFieldView,
) -> bool {
    &&& encrypted.len() == keys.len()
    &&& forall|j: int|
        0 <= j < keys.len() ==> decrypts_to(
            (#[trigger] encrypted[j])@,
            keys[j].derived_key@,
            deterministic_header(keys[j].tenant_secret_id.0),
            field,
        )
}

/// What rotating one field returns: the field itself where rotation has
/// nothing to do, and else its plaintext, found under the key that its header
/// names among the original tenant's keys, encrypted under the new tenant's
/// current key.
pub open spec fn rotate_field_model(
    field: EncryptedFieldView,
    same_tenant: bool,
    original_keys: KeyDeriveResponse,
    new_keys: KeyDeriveResponse,
) -> Result<EncryptedFieldView, ErrorKind> {
    match decompose(EdekType::SaasShield, PayloadType::DeterministicField, field.encrypted_field) {
        Err(kind) => Err(kind),
        Ok((original_key_id, ciphertext)) => {
            let new_current = new_keys.select_one(
                field.secret_path,
                field.derivation_path,
                DeriveKeyChoice::Current,
            );
            if rotation_is_no_op(original_key_id, current_key_id(new_current), same_tenant) {
                Ok(field)
            } else {
                match original_keys.select_one(
                    field.secret_path,
                    field.derivation_path,
                    DeriveKeyChoice::Specific(original_key_id),
                ) {
                    Err(e) => Err(e.spec_kind()),
                    Ok(original_key) => match decrypt_field(
                        original_key.derived_key@,
                        ciphertext,
                        field.secret_path,
                        field.derivation_path,
                    ) {
                        Err(kind) => Err(kind),
                        Ok(plaintext) => match new_current {
                            Err(e) => Err(e.spec_kind()),
                            Ok(new_key) => encrypt_field(
                                new_key.derived_key@,
                                deterministic_header(new_key.tenant_secret_id.0),
                                plaintext,
                            ),
                        },
                    },
                }
            }
        },
    }
}

/// The id of the key that a lookup found, if it found one.
pub open spec fn current_key_id(found: Result<DerivedKey, KeyLookupError>) -> Option<u32> {
    match found {
        Ok(key) => Some(key.tenant_secret_id.0),
        Err(_) => None,
    }
}

/// `rotated` is what `original` became: either nothing had to be done and the
/// two are the same, or `rotated` carries the id of the new tenant's current key
/// in its header, is 22 bytes longer than the plaintext, and decrypts under that
/// key to what `original` decrypts to under the key that its own header names.
pub open spec fn is_rotation_of(
    rotated: EncryptedFieldView,
    original: EncryptedFieldView,
    same_tenant: bool,
    original_keys: KeyDeriveResponse,
    new_keys: KeyDeriveResponse,
) -> bool {
    &&& decompose(
        EdekType::SaasShield,
        PayloadType::DeterministicField,
        original.encrypted_field,
    ) matches Ok((original_key_id, ciphertext))
    &&& {
        let new_current = new_keys.select_one(
            original.secret_path,
            original.derivation_path,
            DeriveKeyChoice::Current,
        );
        if rotation_is_no_op(original_key_id, current_key_id(new_current), same_tenant) {
            rotated == original
        } else {
            &&& new_current matches Ok(new_key)
            &&& original_keys.select_one(
                original.secret_path,
                original.derivation_path,
                DeriveKeyChoice::Specific(original_key_id),
            ) matches Ok(original_key)
            &&& decrypt_field(
                original_key.derived_key@,
                ciphertext,
                original.secret_path,
                original.derivation_path,
            ) matches Ok(plaintext)
            &&& decrypts_to(
                rotated,
                new_key.derived_key@,
                deterministic_header(new_key.tenant_secret_id.0),
                plaintext,
            )
        }
    }
}

/// The outcome of rotating each field of a batch.
pub open spec fn rotation_outcomes(
    fields: Seq<(Seq<char>, EncryptedField)>,
    same_tenant: bool,
    original_keys: KeyDeriveResponse,
    new_keys: KeyDeriveResponse,
) -> Seq<Result<EncryptedFieldView, ErrorKind>> {
    Seq::new(
        fields.len(),
        |i: int| rotate_field_model(fields[i].1@, same_tenant, original_keys, new_keys),
    )
}

/// The labels of a batch, in its order.
pub open spec fn labels_of<V>(fields: Seq<(Seq<char>, V)>) -> Seq<Seq<char>> {
    Seq::new(fields.len(), |i: int| fields[i].0)
}

/// The tenant that a rotation goes to: the one that is named, or else the one
/// that the data was encrypted for.
pub open spec fn target_tenant(metadata: AlloyMetadata, new_tenant_id: Option<TenantId>) -> Seq<char> {
    match new_tenant_id {
        Some(tenant_id) => tenant_id.0@,
        None => metadata.tenant_id.0@,
    }
}

/// Query values that cover the keys of a path with exactly one current key
/// are one more than the path has keys in rotation, and each of them decrypts
/// to the field under the key at its position.
pub proof fn lemma_query_coverage(
    encrypted: Seq<EncryptedField>,
    keys: Seq<DerivedKey>,
    field: PlaintextFieldView,
)
    requires
        covers_keys(encrypted, keys, field),
        current_count(keys) == 1,
    ensures
        encrypted.len() == 1 + in_rotation(keys).len(),
        forall|j: int|
            0 <= j < encrypted.len() ==> decrypt_with_key_model(
                KeyId(keys[j].tenant_secret_id.0),
                parse_header((#[trigger] encrypted[j])@.encrypted_field)->Some_0.1,
                keys[j],
                encrypted[j]@.secret_path,
                encrypted[j]@.derivation_path,
            ) == Ok::<PlaintextFieldView, ErrorKind>(field),
{
    lemma_in_rotation_len(keys);
}

/// Encryption is deterministic: two results of `encrypt` for the same field
/// and the same answer of the provider are byte for byte the same.
pub proof fn lemma_encrypt_is_deterministic(
    first: Result<EncryptedField, AlloyError>,
    second: Result<EncryptedField, AlloyError>,
    field: PlaintextFieldView,
    derived_keys: KeyDeriveResponse,
)
    requires
        result_is(first, encrypt_model(field, derived_keys)),
        result_is(second, encrypt_model(field, derived_keys)),
    ensures
        match (first, second) {
            (Ok(a), Ok(b)) => a@ == b@,
            (Err(a), Err(b)) => a.kind() == b.kind(),
            _ => false,
        },
{
}

/// Rotation within a tenant whose current key is the key that the field was
/// encrypted under returns the field as it is.
pub proof fn lemma_rotation_no_op(
    field: EncryptedFieldView,
    original_keys: KeyDeriveResponse,
    new_keys: KeyDeriveResponse,
)
    requires
        decompose(
            EdekType::SaasShield,
            PayloadType::DeterministicField,
            field.encrypted_field,
        ) matches Ok((key_id, _)) && new_keys.select_one(
            field.secret_path,
            field.derivation_path,
            DeriveKeyChoice::Current,
        ) matches Ok(current) && current.tenant_secret_id.0 == key_id.0,
    ensures
        rotate_field_model(field, true, original_keys, new_keys) == Ok::<
            EncryptedFieldView,
            ErrorKind,
        >(field),
{
}

/// A field that decrypts under the current key of its path is decrypted by
/// `decrypt` wherever looking that key up by its id finds that very key.
pub proof fn lemma_decrypt_finds_current(
    encrypted: EncryptedFieldView,
    field: PlaintextFieldView,
    derived_keys: KeyDeriveResponse,
)
    requires
        derived_keys.select_one(
            encrypted.secret_path,
            encrypted.derivation_path,
            DeriveKeyChoice::Current,
        ) matches Ok(key) && decrypts_to(
            encrypted,
            key.derived_key@,
            deterministic_header(key.tenant_secret_id.0),
            field,
        ) && derived_keys.select_one(
            encrypted.secret_path,
            encrypted.derivation_path,
            DeriveKeyChoice::Specific(KeyId(key.tenant_secret_id.0)),
        ) == Ok::<DerivedKey, KeyLookupError>(key),
    ensures
        decrypt_model(encrypted, derived_keys) == Ok::<PlaintextFieldView, ErrorKind>(field),
{
}

/// Round trip: for every answer of the provider that gives no two keys of the
/// field's path the same id, `decrypt` turns what `encrypt` returned for a
/// field back into that field.
pub proof fn lemma_round_trip(
    encrypted: Result<EncryptedField, AlloyError>,
    field: PlaintextFieldView,
    derived_keys: KeyDeriveResponse,
)
    requires
        result_is(encrypted, encrypt_model(field, derived_keys)),
        encrypted matches Ok(e) ==> decrypts_to(
            e@,
            derived_keys.select_one(
                field.secret_path,
                field.derivation_path,
                DeriveKeyChoice::Current,
            )->Ok_0.derived_key@,
            deterministic_header(
                derived_keys.select_one(
                    field.secret_path,
                    field.derivation_path,
                    DeriveKeyChoice::Current,
                )->Ok_0.tenant_secret_id.0,
            ),
            field,
        ),
        derived_keys.keys_for_path(field.secret_path, field.derivation_path) matches Ok(keys)
            ==> distinct_key_ids(keys),
    ensures
        encrypted matches Ok(e) ==> decrypt_model(e@, derived_keys) == Ok::<
            PlaintextFieldView,
            ErrorKind,
        >(field),
{
    if let Ok(e) = encrypted {
        lemma_current_is_found_by_id(derived_keys, field.secret_path, field.derivation_path);
        lemma_decrypt_finds_current(e@, field, derived_keys);
    }
}

/// A field has keys to be encrypted under: the answer holds its path, and
/// every key of the path is 64 bytes long.
pub open spec fn has_usable_keys(field: PlaintextFieldView, derived_keys: KeyDeriveResponse) -> bool {
    derived_keys.keys_for_path(field.secret_path, field.derivation_path) matches Ok(keys)
        && forall|j: int| 0 <= j < keys.len() ==> (#[trigger] keys[j]).derived_key@.len() == 64
}

/// The query values of a field that has keys to be encrypted under exist,
/// one for each key of its path.
pub proof fn lemma_query_values_exist(field: PlaintextFieldView, derived_keys: KeyDeriveResponse)
    requires
        has_usable_keys(field, derived_keys),
    ensures
        query_values(field, derived_keys) matches Ok(values) && values.len()
            == derived_keys.keys_for_path(field.secret_path, field.derivation_path)->Ok_0.len(),
{
    let keys = derived_keys.keys_for_path(field.secret_path, field.derivation_path)->Ok_0;
    let outcomes = outcomes_per_key(keys, field);
    assert forall|k: int| 0 <= k < outcomes.len() implies outcomes[k] is Ok by {
        assert(keys[k].derived_key@.len() == 64);
    }
    lemma_all_succeed(outcomes);
}

/// A query for fields that all have keys to be encrypted under succeeds, and
/// gives each field one value for each key of its path: where the path has
/// exactly one current key, one more than it has keys in rotation.
pub proof fn lemma_query_succeeds(
    fields: Seq<(Seq<char>, PlaintextField)>,
    derived_keys: KeyDeriveResponse,
)
    requires
        forall|i: int| 0 <= i < fields.len() ==> has_usable_keys((#[trigger] fields[i]).1@, derived_keys),
    ensures
        generate_query_model(fields, derived_keys) matches Ok(values) && values.len()
            == fields.len() && forall|i: int|
            0 <= i < fields.len() ==> {
                let keys = derived_keys.keys_for_path(
                    fields[i].1@.secret_path,
                    fields[i].1@.derivation_path,
                )->Ok_0;
                &&& (#[trigger] values[i]).len() == keys.len()
                &&& current_count(keys) == 1 ==> values[i].len() == 1 + in_rotation(keys).len()
            },
{
    let outcomes = Seq::new(fields.len(), |i: int| query_values(fields[i].1@, derived_keys));
    assert forall|k: int| 0 <= k < outcomes.len() implies outcomes[k] is Ok by {
        assert(has_usable_keys(fields[k].1@, derived_keys));
        lemma_query_values_exist(fields[k].1@, derived_keys);
    }
    lemma_all_succeed(outcomes);
    let values = generate_query_model(fields, derived_keys)->Ok_0;
    assert forall|i: int| 0 <= i < fields.len() implies {
        let keys = derived_keys.keys_for_path(
            fields[i].1@.secret_path,
            fields[i].1@.derivation_path,
        )->Ok_0;
        &&& (#[trigger] values[i]).len() == keys.len()
        &&& current_count(keys) == 1 ==> values[i].len() == 1 + in_rotation(keys).len()
    } by {
        assert(has_usable_keys(fields[i].1@, derived_keys));
        lemma_query_values_exist(fields[i].1@, derived_keys);
        lemma_in_rotation_len(
            derived_keys.keys_for_path(
                fields[i].1@.secret_path,
                fields[i].1@.derivation_path,
            )->Ok_0,
        );
    }
}

/// Rotation of a field succeeds where the field can be decrypted under the
/// key that its header names among the original tenant's keys, and the new
/// tenant has one current key of 64 bytes for the path. The rotated field
/// keeps the paths of the field.
pub proof fn lemma_rotation_succeeds(
    field: EncryptedFieldView,
    same_tenant: bool,
    original_keys: KeyDeriveResponse,
    new_keys: KeyDeriveResponse,
)
    requires
        decompose(
            EdekType::SaasShield,
            PayloadType::DeterministicField,
            field.encrypted_field,
        ) matches Ok((key_id, ciphertext)) && original_keys.select_one(
            field.secret_path,
            field.derivation_path,
            DeriveKeyChoice::Specific(key_id),
        ) matches Ok(original_key) && decrypt_field(
            original_key.derived_key@,
            ciphertext,
            field.secret_path,
            field.derivation_path,
        ) is Ok,
        new_keys.select_one(
            field.secret_path,
            field.derivation_path,
            DeriveKeyChoice::Current,
        ) matches Ok(current) && current.derived_key@.len() == 64,
    ensures
        rotate_field_model(field, same_tenant, original_keys, new_keys) matches Ok(rotated)
            && rotated.secret_path == field.secret_path && rotated.derivation_path
            == field.derivation_path,
{
}

/// A rotated field decrypts, with the new tenant's keys, to what the field
/// decrypted to with the original tenant's keys, wherever the new tenant's
/// answer gives no two keys of the path the same id.
pub proof fn lemma_rotated_field_decrypts(
    rotated: EncryptedFieldView,
    original: EncryptedFieldView,
    same_tenant: bool,
    original_keys: KeyDeriveResponse,
    new_keys: KeyDeriveResponse,
)
    requires
        is_rotation_of(rotated, original, same_tenant, original_keys, new_keys),
        !rotation_is_no_op(
            decompose(
                EdekType::SaasShield,
                PayloadType::DeterministicField,
                original.encrypted_field,
            )->Ok_0.0,
            current_key_id(
                new_keys.select_one(
                    original.secret_path,
                    original.derivation_path,
                    DeriveKeyChoice::Current,
                ),
            ),
            same_tenant,
        ),
        new_keys.keys_for_path(original.secret_path, original.derivation_path) matches Ok(keys)
            ==> distinct_key_ids(keys),
    ensures
        decrypt_model(original, original_keys) is Ok,
        decrypt_model(rotated, new_keys) == decrypt_model(original, original_keys),
{
    let (key_id, ciphertext) = decompose(
        EdekType::SaasShield,
        PayloadType::DeterministicField,
        original.encrypted_field,
    )->Ok_0;
    let original_key = original_keys.select_one(
        original.secret_path,
        original.derivation_path,
        DeriveKeyChoice::Specific(key_id),
    )->Ok_0;
    let keys = original_keys.keys_for_path(original.secret_path, original.derivation_path)->Ok_0;
    let found = choose|i: int| is_first_with_id(keys, key_id.0, i);
    assert(is_first_with_id(keys, key_id.0, found));
    assert(seq![keys[found]][0] == keys[found]);
    assert(original_key.tenant_secret_id.0 == key_id.0);
    let plaintext = decrypt_field(
        original_key.derived_key@,
        ciphertext,
        original.secret_path,
        original.derivation_path,
    )->Ok_0;
    assert(rotated.secret_path == original.secret_path);
    assert(rotated.derivation_path == original.derivation_path);
    lemma_current_is_found_by_id(new_keys, original.secret_path, original.derivation_path);
    lemma_decrypt_finds_current(rotated, plaintext, new_keys);
}

/// A field of a batch whose rotation succeeds is listed among the successes
/// of the batch, under its id and with its rotated value, and not among the
/// failures.
pub proof fn lemma_rotated_field_is_a_success(
    fields: Seq<(Seq<char>, EncryptedField)>,
    i: int,
    same_tenant: bool,
    original_keys: KeyDeriveResponse,
    new_keys: KeyDeriveResponse,
)
    requires
        distinct_labels(fields),
        0 <= i < fields.len(),
        rotate_field_model(fields[i].1@, same_tenant, original_keys, new_keys) is Ok,
    ensures
        exists|k: int|
            0 <= k < successes_of(
                labels_of(fields),
                rotation_outcomes(fields, same_tenant, original_keys, new_keys),
            ).len() && #[trigger] successes_of(
                labels_of(fields),
                rotation_outcomes(fields, same_tenant, original_keys, new_keys),
            )[k] == (
                fields[i].0,
                rotate_field_model(fields[i].1@, same_tenant, original_keys, new_keys)->Ok_0,
            ),
        !has_label(
            failures_of(
                labels_of(fields),
                rotation_outcomes(fields, same_tenant, original_keys, new_keys),
            ),
            fields[i].0,
        ),
{
    let labels = labels_of(fields);
    let outcomes = rotation_outcomes(fields, same_tenant, original_keys, new_keys);
    assert forall|a: int, b: int| 0 <= a < b < labels.len() implies labels[a] != labels[b] by {
        assert(fields[a].0 != fields[b].0);
    }
    lemma_success_is_listed(labels, outcomes, i);
}

impl AlloyClient for SaasShieldDeterministicClient {
    open spec fn edek_type() -> EdekType {
        EdekType::SaasShield
    }

    open spec fn payload_type() -> PayloadType {
        PayloadType::DeterministicField
    }

    fn get_edek_type() -> (t: EdekType) {
        EdekType::SaasShield
    }

    fn get_payload_type() -> (t: PayloadType) {
        PayloadType::DeterministicField
    }
}

impl SaasShieldDeterministicClient {
    /// The handle through which the caller reaches the provider.
    pub closed spec fn client(&self) -> Arc<TenantSecurityClient> {
        self.tenant_security_client
    }

    /// A client that takes its keys from the provider behind `tenant_security_client`.
    pub fn new(tenant_security_client: Arc<TenantSecurityClient>) -> (c: Self)
        ensures
            c.client() == tenant_security_client,
    {
        Self { tenant_security_client }
    }

    /// The handle through which the caller reaches the provider.
    pub fn tenant_security_client(&self) -> (handle: &Arc<TenantSecurityClient>)
        ensures
            *handle == self.client(),
    {
        &self.tenant_security_client
    }

    /// The path that the provider must be asked about for one field.
    pub fn field_path(secret_path: &SecretPath, derivation_path: &DerivationPath) -> (path: (
        SecretPath,
        DerivationPath,
    ))
        ensures
            path.0.0@ == secret_path.0@,
            path.1.0@ == derivation_path.0@,
    {
        (secret_path.duplicate(), derivation_path.duplicate())
    }

    /// The paths that the provider must be asked about for a batch of
    /// plaintext fields: the path of each field, in the order of the batch.
    pub fn paths_of_plaintext(fields: &PlaintextFields) -> (paths: Vec<(SecretPath, DerivationPath)>)
        ensures
            paths@.len() == fields@.len(),
            forall|i: int|
                0 <= i < paths@.len() ==> (#[trigger] paths@[i]).0.0@ == fields@[i].1@.secret_path
                    && paths@[i].1.0@ == fields@[i].1@.derivation_path,
    {
        let mut paths: Vec<(SecretPath, DerivationPath)> = Vec::new();
        let mut i: usize = 0;
        while i < fields.len()
            invariant
                i <= fields@.len(),
                paths@.len() == i,
                forall|k: int|
                    0 <= k < i ==> (#[trigger] paths@[k]).0.0@ == fields@[k].1@.secret_path
                        && paths@[k].1.0@ == fields@[k].1@.derivation_path,
            decreases fields@.len() - i,
        {
            let field = fields.value(i);
            paths.push(Self::field_path(&field.secret_path, &field.derivation_path));
            i += 1;
        }
        paths
    }

    /// The paths that the provider must be asked about for a batch of
    /// encrypted fields: the path of each field, in the order of the batch.
    pub fn paths_of_encrypted(fields: &EncryptedFields) -> (paths: Vec<(SecretPath, DerivationPath)>)
        ensures
            paths@.len() == fields@.len(),
            forall|i: int|
                0 <= i < paths@.len() ==> (#[trigger] paths@[i]).0.0@ == fields@[i].1@.secret_path
                    && paths@[i].1.0@ == fields@[i].1@.derivation_path,
    {
        let mut paths: Vec<(SecretPath, DerivationPath)> = Vec::new();
        let mut i: usize = 0;
        while i < fields.len()
            invariant
                i <= fields@.len(),
                paths@.len() == i,
                forall|k: int|
                    0 <= k < i ==> (#[trigger] paths@[k]).0.0@ == fields@[k].1@.secret_path
                        && paths@[k].1.0@ == fields@[k].1@.derivation_path,
            decreases fields@.len() - i,
        {
            let field = fields.value(i);
            paths.push(Self::field_path(&field.secret_path, &field.derivation_path));
            i += 1;
        }
        paths
    }

    /// The request that the provider must be sent for `paths`: keys for
    /// deterministic encryption, derived with SHA-512, for each path once.
    pub fn key_request(paths: &Vec<(SecretPath, DerivationPath)>) -> (request: KeyDeriveRequest)
        ensures
            request.derivation_type == DerivationType::Sha512,
            request.secret_type == SecretType::Deterministic,
            distinct_paths(path_model(request.paths@)),
            forall|path: (Seq<char>, Seq<char>)|
                names_path(path_model(request.paths@), path) <==> names_path(
                    path_model(paths@),
                    path,
                ),
    {
        KeyDeriveRequest::for_paths(paths, DerivationType::Sha512, SecretType::Deterministic)
    }

    /// Encrypts a field under the current key of its path.
    ///
    /// The result is determined by the field and the provider's answer, so two
    /// calls on the same arguments return the same bytes. On success the header
    /// carries the id of the key that was used, and the field decrypts again
    /// under that key; `decrypt` returns it wherever looking the key up by its
    /// id finds that key.
    pub fn encrypt(&self, plaintext_field: PlaintextField, derived_keys: &KeyDeriveResponse) -> (r:
        Result<EncryptedField, AlloyError>)
        ensures
            result_is(r, encrypt_model(plaintext_field@, *derived_keys)),
            r matches Ok(encrypted) ==> encrypted@.encrypted_field.len()
                == plaintext_field@.plaintext_field.len() + 22,
            r matches Ok(encrypted) ==> {
                let key = derived_keys.select_one(
                    plaintext_field@.secret_path,
                    plaintext_field@.derivation_path,
                    DeriveKeyChoice::Current,
                )->Ok_0;
                &&& decrypts_to(
                    encrypted@,
                    key.derived_key@,
                    deterministic_header(key.tenant_secret_id.0),
                    plaintext_field@,
                )
                &&& derived_keys.select_one(
                    plaintext_field@.secret_path,
                    plaintext_field@.derivation_path,
                    DeriveKeyChoice::Specific(KeyId(key.tenant_secret_id.0)),
                ) == Ok::<DerivedKey, KeyLookupError>(key) ==> decrypt_model(
                    encrypted@,
                    *derived_keys,
                ) == Ok::<PlaintextFieldView, ErrorKind>(plaintext_field@)
            },
    {
        let keys = match derived_keys.get_key_for_path(
            &plaintext_field.secret_path,
            &plaintext_field.derivation_path,
            DeriveKeyChoice::Current,
        ) {
            Ok(keys) => keys,
            Err(e) => {
                return Err(e);
            },
        };
        let derived_key = keys[0];
        let key_id_header = Self::create_key_id_header(derived_key.tenant_secret_id.0);
        let ghost field = plaintext_field@;
        let r = encrypt_internal(
            DeterministicEncryptionKey(derived_key.derived_key.clone()),
            key_id_header,
            plaintext_field,
        );
        proof {
            if let Ok(ref encrypted) = r {
                if derived_keys.select_one(
                    field.secret_path,
                    field.derivation_path,
                    DeriveKeyChoice::Specific(KeyId(derived_key.tenant_secret_id.0)),
                ) == Ok::<DerivedKey, KeyLookupError>(*derived_key) {
                    lemma_decrypt_finds_current(encrypted@, field, *derived_keys);
                }
            }
        }
        r
    }

    /// Decrypts what was found behind a header that named `key_id`, under the
    /// key that was looked up for it.
    ///
    /// `InvalidKey` if `derived_key` is not the key that the header named.
    pub fn decrypt_with_key(
        key_id: KeyId,
        ciphertext: Vec<u8>,
        derived_key: &DerivedKey,
        secret_path: SecretPath,
        derivation_path: DerivationPath,
    ) -> (r: Result<PlaintextField, AlloyError>)
        ensures
            result_is(
                r,
                decrypt_with_key_model(
                    key_id,
                    ciphertext@,
                    *derived_key,
                    secret_path.0@,
                    derivation_path.0@,
                ),
            ),
    {
        if derived_key.tenant_secret_id.0 != key_id.0 {
            Err(
                AlloyError::InvalidKey {
                    msg: "The key ID in the document header and on the key derived for decryption did not match".to_string(),
                },
            )
        } else {
            decrypt_internal(
                DeterministicEncryptionKey(derived_key.derived_key.clone()),
                ciphertext,
                secret_path,
                derivation_path,
            )
        }
    }

    /// Decrypts a field under the key that its header names, whether or not
    /// that key is still current.
    pub fn decrypt(&self, encrypted_field: EncryptedField, derived_keys: &KeyDeriveResponse) -> (r:
        Result<PlaintextField, AlloyError>)
        ensures
            result_is(r, decrypt_model(encrypted_field@, *derived_keys)),
    {
        let (key_id, ciphertext) = match Self::decompose_key_id_header(
            &encrypted_field.encrypted_field,
        ) {
            Ok(parts) => parts,
            Err(e) => {
                return Err(e);
            },
        };
        let keys = match derived_keys.get_key_for_path(
            &encrypted_field.secret_path,
            &encrypted_field.derivation_path,
            DeriveKeyChoice::Specific(key_id),
        ) {
            Ok(keys) => keys,
            Err(e) => {
                return Err(e);
            },
        };
        Self::decrypt_with_key(
            key_id,
            ciphertext,
            keys[0],
            encrypted_field.secret_path,
            encrypted_field.derivation_path,
        )
    }

    /// Encrypts one field under each of `keys`, in their order, and fails with
    /// the first failure.
    pub fn encrypt_with_each_key(keys: &Vec<DerivedKey>, plaintext_field: &PlaintextField) -> (r:
        Result<Vec<EncryptedField>, AlloyError>)
        ensures
            match all_or_first_failure(outcomes_per_key(keys@, plaintext_field@)) {
                Ok(model) => r matches Ok(v) && field_views(v@) == model,
                Err(kind) => r matches Err(e) && e.kind() == kind,
            },
            r matches Ok(v) ==> covers_keys(v@, keys@, plaintext_field@),
    {
        let ghost outcomes = outcomes_per_key(keys@, plaintext_field@);
        let mut encrypted: Vec<EncryptedField> = Vec::new();
        let mut j: usize = 0;
        while j < keys.len()
            invariant
                j <= keys@.len(),
                outcomes == outcomes_per_key(keys@, plaintext_field@),
                encrypted@.len() == j,
                forall|k: int|
                    0 <= k < j ==> #[trigger] outcomes[k] == Ok::<EncryptedFieldView, ErrorKind>(
                        encrypted@[k]@,
                    ),
                forall|k: int|
                    0 <= k < j ==> decrypts_to(
                        (#[trigger] encrypted@[k])@,
                        keys@[k].derived_key@,
                        deterministic_header(keys@[k].tenant_secret_id.0),
                        plaintext_field@,
                    ),
            decreases keys@.len() - j,
        {
            let derived_key = &keys[j];
            let key_id_header = Self::create_key_id_header(derived_key.tenant_secret_id.0);
            match encrypt_internal(
                DeterministicEncryptionKey(derived_key.derived_key.clone()),
                key_id_header,
                plaintext_field.duplicate(),
            ) {
                Ok(field) => {
                    encrypted.push(field);
                },
                Err(e) => {
                    proof {
                        assert(outcomes[j as int] is Err);
                        assert(is_first_failure(outcomes, j as int));
                        lemma_fails_with_first(outcomes, j as int);
                    }
                    return Err(e);
                },
            }
            j += 1;
        }
        proof {
            lemma_all_succeed(outcomes);
            assert(field_views(encrypted@) =~= Seq::new(
                outcomes.len(),
                |i: int| outcomes[i]->Ok_0,
            ));
        }
        Ok(encrypted)
    }

    /// Encrypts each field under every key of its path, current or in
    /// rotation, so that a query finds the data whichever key it was written
    /// under.
    ///
    /// On success every field id of the batch maps to one encryption per key
    /// of its path, in the provider's order, and each decrypts to the field
    /// under its key. The whole fails with the first failure: a path that the
    /// answer lacks is a `RequestError`.
    pub fn generate_query_field_values(
        &self,
        fields_to_query: PlaintextFields,
        derived_keys: &KeyDeriveResponse,
    ) -> (r: Result<GenerateQueryResult, AlloyError>)
        ensures
            match generate_query_model(fields_to_query@, *derived_keys) {
                Ok(model) => r matches Ok(m) && m@.len() == fields_to_query@.len() && forall|
                    i: int,
                |
                    0 <= i < m@.len() ==> (#[trigger] m@[i]).0 == fields_to_query@[i].0
                        && field_views(m@[i].1@) == model[i],
                Err(kind) => r matches Err(e) && e.kind() == kind,
            },
            r matches Ok(m) ==> forall|i: int|
                0 <= i < m@.len() ==> covers_keys(
                    (#[trigger] m@[i]).1@,
                    derived_keys.keys_for_path(
                        fields_to_query@[i].1@.secret_path,
                        fields_to_query@[i].1@.derivation_path,
                    )->Ok_0,
                    fields_to_query@[i].1@,
                ),
    {
        let ghost outcomes = Seq::new(
            fields_to_query@.len(),
            |i: int| query_values(fields_to_query@[i].1@, *derived_keys),
        );
        let mut all: Vec<Vec<EncryptedField>> = Vec::new();
        let mut i: usize = 0;
        while i < fields_to_query.len()
            invariant
                i <= fields_to_query@.len(),
                outcomes == Seq::new(
                    fields_to_query@.len(),
                    |i: int| query_values(fields_to_query@[i].1@, *derived_keys),
                ),
                all@.len() == i,
                forall|k: int|
                    0 <= k < i ==> #[trigger] outcomes[k] == Ok::<
                        Seq<EncryptedFieldView>,
                        ErrorKind,
                    >(field_views(all@[k]@)),
                forall|k: int|
                    0 <= k < i ==> covers_keys(
                        (#[trigger] all@[k])@,
                        derived_keys.keys_for_path(
                            fields_to_query@[k].1@.secret_path,
                            fields_to_query@[k].1@.derivation_path,
                        )->Ok_0,
                        fields_to_query@[k].1@,
                    ),
            decreases fields_to_query@.len() - i,
        {
            let plaintext_field = fields_to_query.value(i);
            let values = match derived_keys.get_keys(
                &plaintext_field.secret_path,
                &plaintext_field.derivation_path,
            ) {
                Ok(keys) => Self::encrypt_with_each_key(keys, plaintext_field),
                Err(e) => Err(e.into_alloy_error()),
            };
            match values {
                Ok(values) => {
                    all.push(values);
                },
                Err(e) => {
                    proof {
                        assert(outcomes[i as int] is Err);
                        assert(is_first_failure(outcomes, i as int));
                        lemma_fails_with_first(outcomes, i as int);
                    }
                    return Err(e);
                },
            }
            i += 1;
        }
        proof {
            lemma_all_succeed(outcomes);
        }
        let ghost all_values = all@;
        let m = fields_to_query.with_values(all);
        proof {
            let model = generate_query_model(fields_to_query@, *derived_keys)->Ok_0;
            assert forall|i: int| 0 <= i < m@.len() implies (#[trigger] m@[i]).0
                == fields_to_query@[i].0 && field_views(m@[i].1@) == model[i] && covers_keys(
                m@[i].1@,
                derived_keys.keys_for_path(
                    fields_to_query@[i].1@.secret_path,
                    fields_to_query@[i].1@.derivation_path,
                )->Ok_0,
                fields_to_query@[i].1@,
            ) by {
                assert(m@[i].1 == all_values[i]);
                assert(outcomes[i] == Ok::<Seq<EncryptedFieldView>, ErrorKind>(
                    field_views(all_values[i]@),
                ));
            }
        }
        Ok(m)
    }

    /// Rotates one field: leaves it as it is where rotation has nothing to
    /// do, and else decrypts it under the key that its header names among the
    /// original tenant's keys and encrypts it under the new tenant's current key.
    pub fn reencrypt_field(
        encrypted_field: EncryptedField,
        new_tenant_id: &TenantId,
        metadata: &AlloyMetadata,
        original_keys: &KeyDeriveResponse,
        new_keys: &KeyDeriveResponse,
    ) -> (r: Result<EncryptedField, AlloyError>)
        ensures
            result_is(
                r,
                rotate_field_model(
                    encrypted_field@,
                    new_tenant_id.0@ == metadata.tenant_id.0@,
                    *original_keys,
                    *new_keys,
                ),
            ),
            r matches Ok(rotated) ==> is_rotation_of(
                rotated@,
                encrypted_field@,
                new_tenant_id.0@ == metadata.tenant_id.0@,
                *original_keys,
                *new_keys,
            ),
    {
        let (original_key_id, ciphertext) = match Self::decompose_key_id_header(
            &encrypted_field.encrypted_field,
        ) {
            Ok(parts) => parts,
            Err(e) => {
                return Err(e);
            },
        };
        let new_current = new_keys.get_current(
            &encrypted_field.secret_path,
            &encrypted_field.derivation_path,
        );
        let maybe_current_key_id = match new_current {
            Ok(key) => Some(key.tenant_secret_id.0),
            Err(_) => None,
        };
        if check_rotation_no_op(original_key_id, &maybe_current_key_id, new_tenant_id, metadata) {
            Ok(encrypted_field)
        } else {
            let original_key = match original_keys.get_specific(
                &encrypted_field.secret_path,
                &encrypted_field.derivation_path,
                original_key_id,
            ) {
                Ok(key) => key,
                Err(e) => {
                    return Err(e.into_alloy_error());
                },
            };
            let decrypted_field = match decrypt_internal(
                DeterministicEncryptionKey(original_key.derived_key.clone()),
                ciphertext,
                encrypted_field.secret_path.duplicate(),
                encrypted_field.derivation_path.duplicate(),
            ) {
                Ok(field) => field,
                Err(e) => {
                    return Err(e);
                },
            };
            let new_current_key = match new_current {
                Ok(key) => key,
                Err(e) => {
                    return Err(e.into_alloy_error());
                },
            };
            let key_id_header = Self::create_key_id_header(new_current_key.tenant_secret_id.0);
            encrypt_internal(
                DeterministicEncryptionKey(new_current_key.derived_key.clone()),
                key_id_header,
                decrypted_field,
            )
        }
    }

    /// The tenant that a rotation goes to: the one that is named, or else the
    /// one that the data was encrypted for.
    pub fn rotation_target<'a>(
        metadata: &'a AlloyMetadata,
        new_tenant_id: &'a Option<TenantId>,
    ) -> (target: &'a TenantId)
        ensures
            target.0@ == target_tenant(*metadata, *new_tenant_id),
    {
        match new_tenant_id {
            Some(tenant_id) => tenant_id,
            None => &metadata.tenant_id,
        }
    }

    /// Whether a rotation goes to another tenant than the data was encrypted
    /// for, so that the keys of both tenants are needed.
    pub fn rotation_changes_tenant(metadata: &AlloyMetadata, new_tenant_id: &Option<TenantId>) -> (b:
        bool)
        ensures
            b == (target_tenant(*metadata, *new_tenant_id) != metadata.tenant_id.0@),
    {
        !Self::rotation_target(metadata, new_tenant_id).same_as(&metadata.tenant_id)
    }

    /// Re-encrypts a batch of fields with the current key of `new_tenant_id`,
    /// or of the tenant that `metadata` names where no other is given.
    ///
    /// No field's failure stops the others: every field id of the batch ends up
    /// either among the successes, with the rotated field, or among the
    /// failures, with the reason. Each success is a rotation of the field that
    /// came under its id.
    pub fn rotate_fields(
        &self,
        encrypted_fields: EncryptedFields,
        metadata: &AlloyMetadata,
        new_tenant_id: Option<TenantId>,
        keys: &RotationKeys,
    ) -> (r: DeterministicRotateResult)
        ensures
            entry_views(r.successes@) == successes_of(
                labels_of(encrypted_fields@),
                rotation_outcomes(
                    encrypted_fields@,
                    target_tenant(*metadata, new_tenant_id) == metadata.tenant_id.0@,
                    keys.original_keys,
                    keys.new_keys,
                ),
            ),
            failure_kinds(r.failures@) == failures_of(
                labels_of(encrypted_fields@),
                rotation_outcomes(
                    encrypted_fields@,
                    target_tenant(*metadata, new_tenant_id) == metadata.tenant_id.0@,
                    keys.original_keys,
                    keys.new_keys,
                ),
            ),
            forall|k: int|
                0 <= k < r.successes@.len() ==> exists|i: int|
                    0 <= i < encrypted_fields@.len() && encrypted_fields@[i].0
                        == (#[trigger] r.successes@[k]).0 && is_rotation_of(
                        r.successes@[k].1@,
                        encrypted_fields@[i].1@,
                        target_tenant(*metadata, new_tenant_id) == metadata.tenant_id.0@,
                        keys.original_keys,
                        keys.new_keys,
                    ),
    {
        let parsed_new_tenant_id = Self::rotation_target(metadata, &new_tenant_id);
        let ghost same_tenant = target_tenant(*metadata, new_tenant_id) == metadata.tenant_id.0@;
        let ghost labels = labels_of(encrypted_fields@);
        let ghost outcomes = rotation_outcomes(
            encrypted_fields@,
            same_tenant,
            keys.original_keys,
            keys.new_keys,
        );
        let mut successes: LabelMap<EncryptedField> = LabelMap::new();
        let mut failures: LabelMap<AlloyError> = LabelMap::new();
        encrypted_fields.labels_are_distinct();
        let mut i: usize = 0;
        assert(entry_views(successes@) =~= successes_of(labels, outcomes.take(0)));
        assert(failure_kinds(failures@) =~= failures_of(labels, outcomes.take(0)));
        while i < encrypted_fields.len()
            invariant
                i <= encrypted_fields@.len(),
                parsed_new_tenant_id.0@ == target_tenant(*metadata, new_tenant_id),
                same_tenant == (target_tenant(*metadata, new_tenant_id) == metadata.tenant_id.0@),
                labels == labels_of(encrypted_fields@),
                outcomes == rotation_outcomes(
                    encrypted_fields@,
                    same_tenant,
                    keys.original_keys,
                    keys.new_keys,
                ),
                distinct_labels(encrypted_fields@),
                entry_views(successes@) == successes_of(labels, outcomes.take(i as int)),
                failure_kinds(failures@) == failures_of(labels, outcomes.take(i as int)),
                forall|k: int|
                    0 <= k < successes@.len() ==> exists|n: int|
                        0 <= n < encrypted_fields@.len() && encrypted_fields@[n].0
                            == (#[trigger] successes@[k]).0 && is_rotation_of(
                            successes@[k].1@,
                            encrypted_fields@[n].1@,
                            same_tenant,
                            keys.original_keys,
                            keys.new_keys,
                        ),
            decreases encrypted_fields@.len() - i,
        {
            let label = encrypted_fields.label(i).clone();
            let outcome = Self::reencrypt_field(
                encrypted_fields.value(i).duplicate(),
                parsed_new_tenant_id,
                metadata,
                &keys.original_keys,
                &keys.new_keys,
            );
            proof {
                assert(outcomes.take(i + 1).drop_last() =~= outcomes.take(i as int));
                assert(outcomes.take(i + 1).last() == outcomes[i as int]);
                assert(labels[i as int] == label@);
                if has_label(successes@, label@) || has_label(failures@, label@) {
                    let s = entry_views(successes@);
                    let f = failure_kinds(failures@);
                    if has_label(successes@, label@) {
                        let k = choose|k: int|
                            0 <= k < successes@.len() && #[trigger] successes@[k].0 == label@;
                        assert(s[k].0 == label@);
                    } else {
                        let k = choose|k: int|
                            0 <= k < failures@.len() && #[trigger] failures@[k].0 == label@;
                        assert(f[k].0 == label@);
                    }
                    lemma_batch_labels(labels, outcomes.take(i as int), label@);
                    let n = choose|n: int|
                        0 <= n < outcomes.take(i as int).len() && labels[n] == label@;
                    assert(encrypted_fields@[n].0 == encrypted_fields@[i as int].0);
                }
            }
            match outcome {
                Ok(rotated) => {
                    let ghost before = successes@;
                    successes = successes.push(label, rotated);
                    proof {
                        assert(entry_views(successes@) =~= entry_views(before).push(
                            (label@, rotated@),
                        ));
                        assert forall|k: int| 0 <= k < successes@.len() implies exists|n: int|
                            0 <= n < encrypted_fields@.len() && encrypted_fields@[n].0
                                == (#[trigger] successes@[k]).0 && is_rotation_of(
                                successes@[k].1@,
                                encrypted_fields@[n].1@,
                                same_tenant,
                                keys.original_keys,
                                keys.new_keys,
                            ) by {
                            if k < before.len() {
                                assert(successes@[k] == before[k]);
                            } else {
                                assert(encrypted_fields@[i as int].0 == successes@[k].0);
                            }
                        }
                    }
                },
                Err(e) => {
                    let ghost before = failures@;
                    failures = failures.push(label, e);
                    proof {
                        assert(failure_kinds(failures@) =~= failure_kinds(before).push(
                            (label@, e.kind()),
                        ));
                    }
                },
            }
            i += 1;
        }
        assert(outcomes.take(encrypted_fields@.len() as int) =~= outcomes);
        DeterministicRotateResult { successes, failures }
    }

    /// The header of the first key of a path that is in rotation, to find the
    /// data that still awaits rotation; no bytes where no key is in rotation.
    pub fn get_in_rotation_prefix(
        &self,
        secret_path: SecretPath,
        derivation_path: DerivationPath,
        derived_keys: &KeyDeriveResponse,
    ) -> (r: Result<Vec<u8>, AlloyError>)
        ensures
            match derived_keys.keys_for_path(secret_path.0@, derivation_path.0@) {
                Ok(keys) => r matches Ok(prefix) && prefix@ == if in_rotation(keys).len() == 0 {
                    Seq::<u8>::empty()
                } else {
                    header_bytes(deterministic_header(in_rotation(keys)[0].tenant_secret_id.0))
                },
                Err(e) => r matches Err(err) && err.kind() == e.spec_kind(),
            },
    {
        get_in_rotation_prefix_internal(
            derived_keys,
            secret_path,
            derivation_path,
            Self::get_edek_type(),
            Self::get_payload_type(),
        )
    }
}

} // verus!
