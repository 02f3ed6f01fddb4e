use ironcore_alloy::aead::{
    decrypt_detached_document, encrypt_detached_document, frame_detached, EncryptionKey,
};
use ironcore_alloy::errors::{AlloyError, ErrorKind};
use ironcore_alloy::key_id_header::{EdekType, KeyId, KeyIdHeader, PayloadType};
use ironcore_alloy::label_map::LabelMap;
use ironcore_alloy::saas_shield::standard::SaasShieldStandardClient;
use ironcore_alloy::signed_edek::{
    decrypt_signed_edek, find_dek, first_wrapped_dek, generate_signed_edek, generated_outcome,
    signature_is_stable, signature_outcome, unwrap_dek, verify_sig, WrappedDek,
};
use ironcore_documents::icl_header_v4::v4document_header::SignedPayload;
use ironcore_documents::icl_header_v4::V4DocumentHeader;
use protobuf::Message;
use ironcore_alloy::standard::{
    decrypt_document_core, encrypt_document_core, EdekWithKeyIdHeader, EncryptedDocument,
    PlaintextDocumentWithEdek, StandardDocumentOps,
};
use ironcore_alloy::tenant_security_client::{
    DerivationPath, DerivedKey, KeyDeriveResponse, SecretPath, TenantSecretAssignmentId,
    TenantSecurityClient,
};
use rand::SeedableRng;
use rand_chacha::ChaCha20Rng;
use std::sync::Arc;

fn create_rng() -> ChaCha20Rng {
    ChaCha20Rng::seed_from_u64(1u64)
}

fn label(s: &str) -> String {
    s.to_string()
}

fn standard_keys(keys: Vec<DerivedKey>) -> KeyDeriveResponse {
    let derivations = LabelMap::new().insert(label("docs"), keys);
    let secrets = LabelMap::new().insert(label("standard"), derivations);
    KeyDeriveResponse { has_primary_config: true, derived_keys: secrets }
}

fn key(byte: u8, id: u32, current: bool) -> DerivedKey {
    DerivedKey {
        derived_key: vec![byte; 64],
        tenant_secret_id: TenantSecretAssignmentId(id),
        current,
    }
}

fn standard_client() -> SaasShieldStandardClient {
    SaasShieldStandardClient::new(
        Arc::new(TenantSecurityClient::new(label("http://localhost:7777"), label("key"))),
        SecretPath(label("standard")),
        DerivationPath(label("docs")),
    )
}

fn two_field_document() -> LabelMap<Vec<u8>> {
    LabelMap::new().insert(label("foo"), vec![100u8]).insert(label("bar"), vec![])
}

#[test]
fn encrypt_document_core_works() {
    let mut rng = create_rng();
    let result = encrypt_document_core(
        LabelMap::new().insert("foo".to_string(), vec![100u8]),
        &mut rng,
        EncryptionKey([0u8; 32]),
        KeyIdHeader::new(EdekType::SaasShield, PayloadType::StandardEdek, KeyId(1)),
        Vec::new(),
    )
    .unwrap();
    assert_eq!(result.edek.0, vec![0, 0, 0, 1, 2, 0]);
    assert_eq!(
        result.document.get(&"foo".to_string()).unwrap(),
        &vec![
            0, 73, 82, 79, 78, 154, 55, 68, 80, 69, 96, 99, 158, 198, 112, 183, 161, 178, 165,
            36, 21, 83, 179, 38, 34, 142, 237, 59, 8, 62, 249, 67, 36, 252
        ]
    );
}

#[test]
fn encrypt_document_core_decrypts_back() {
    let mut rng = create_rng();
    let dek = EncryptionKey([0u8; 32]);
    let encrypted = encrypt_document_core(
        two_field_document(),
        &mut rng,
        dek,
        KeyIdHeader::new(EdekType::SaasShield, PayloadType::StandardEdek, KeyId(1)),
        Vec::new(),
    )
    .unwrap();
    assert_eq!(encrypted.document.len(), 2);
    assert_eq!(encrypted.document.label(0), "foo");
    assert_eq!(encrypted.document.label(1), "bar");
    assert_eq!(encrypted.document.value(0).len(), 1 + 33);
    assert_eq!(encrypted.document.value(1).len(), 33);
    let decrypted = decrypt_document_core(encrypted.document, dek).unwrap();
    assert_eq!(decrypted.into_vec(), two_field_document().into_vec());
}

#[test]
fn encrypt_document_core_of_empty_document_succeeds() {
    let mut rng = create_rng();
    let encrypted = encrypt_document_core(
        LabelMap::new(),
        &mut rng,
        EncryptionKey([7u8; 32]),
        KeyIdHeader::new(EdekType::Standalone, PayloadType::StandardEdek, KeyId(258)),
        vec![9, 9],
    )
    .unwrap();
    assert!(encrypted.document.is_empty());
    assert_eq!(encrypted.edek.0, vec![0, 0, 1, 2, 130, 0, 9, 9]);
}

#[test]
fn decrypt_document_core_fails_as_a_whole() {
    let mut rng = create_rng();
    let dek = EncryptionKey([3u8; 32]);
    let good = encrypt_detached_document(&mut rng, &dek, &vec![1, 2, 3]).unwrap();
    let mut bad = good.clone();
    let last = bad.len() - 1;
    bad[last] ^= 1;
    let document = LabelMap::new().insert(label("a"), good).insert(label("b"), bad);
    let err = decrypt_document_core(document, dek).unwrap_err();
    assert_eq!(err.kind(), ErrorKind::DecryptError);
}

#[test]
fn detached_document_round_trips_and_differs_between_calls() {
    let mut rng = create_rng();
    let key = EncryptionKey([5u8; 32]);
    let first = encrypt_detached_document(&mut rng, &key, &vec![10, 20, 30]).unwrap();
    let second = encrypt_detached_document(&mut rng, &key, &vec![10, 20, 30]).unwrap();
    assert_ne!(first, second);
    assert_eq!(&first[..5], &[0, 73, 82, 79, 78]);
    assert_eq!(first.len(), 3 + 33);
    assert_eq!(decrypt_detached_document(&key, &first).unwrap(), vec![10, 20, 30]);
    assert_eq!(decrypt_detached_document(&key, &second).unwrap(), vec![10, 20, 30]);
}

#[test]
fn detached_document_with_empty_plaintext_is_authenticated() {
    let mut rng = create_rng();
    let key = EncryptionKey([5u8; 32]);
    let sealed = encrypt_detached_document(&mut rng, &key, &vec![]).unwrap();
    assert_eq!(sealed.len(), 33);
    assert_eq!(decrypt_detached_document(&key, &sealed).unwrap(), Vec::<u8>::new());
    let other = EncryptionKey([6u8; 32]);
    assert_eq!(
        decrypt_detached_document(&other, &sealed).unwrap_err().kind(),
        ErrorKind::DecryptError
    );
}

#[test]
fn detached_document_rejects_every_flipped_byte() {
    let mut rng = create_rng();
    let key = EncryptionKey([5u8; 32]);
    let sealed = encrypt_detached_document(&mut rng, &key, &vec![1, 2, 3, 4]).unwrap();
    for i in 0..sealed.len() {
        let mut tampered = sealed.clone();
        tampered[i] ^= 0x01;
        let err = decrypt_detached_document(&key, &tampered).unwrap_err();
        assert_eq!(err.kind(), ErrorKind::DecryptError);
    }
}

#[test]
fn detached_document_rejects_short_and_unframed_input() {
    let key = EncryptionKey([5u8; 32]);
    for input in [vec![], vec![0, 73, 82, 79, 78], vec![0u8; 16], vec![1u8; 40], vec![0u8; 40]] {
        let err = decrypt_detached_document(&key, &input).unwrap_err();
        assert_eq!(err.kind(), ErrorKind::DecryptError);
    }
}

#[test]
fn frame_detached_frames_success_and_reports_refusal() {
    assert_eq!(frame_detached(Ok(vec![1, 2])).unwrap(), vec![0, 73, 82, 79, 78, 1, 2]);
    let err = frame_detached(Err(label("refused"))).unwrap_err();
    assert_eq!(err.kind(), ErrorKind::EncryptError);
    assert!(matches!(err, AlloyError::EncryptError { msg } if msg == "refused"));
}

#[test]
fn signed_edek_opens_under_its_wrapping_key_only() {
    let mut rng = create_rng();
    let kek = EncryptionKey([9u8; 32]);
    let (dek, record) = generate_signed_edek(&mut rng, &kek, 12).unwrap();
    assert!(!record.is_empty());
    assert_ne!(record, kek.0.to_vec());
    let opened = decrypt_signed_edek(&kek, &record).unwrap();
    assert_eq!(opened.0, dek.0);
    let other = EncryptionKey([8u8; 32]);
    assert_eq!(decrypt_signed_edek(&other, &record).unwrap_err().kind(), ErrorKind::DecryptError);
}

#[test]
fn verify_sig_accepts_the_dek_and_rejects_another_key() {
    let mut rng = create_rng();
    let kek = EncryptionKey([9u8; 32]);
    let (dek, record) = generate_signed_edek(&mut rng, &kek, 12).unwrap();
    assert!(verify_sig(dek, &record).is_ok());
    let err = verify_sig(EncryptionKey([1u8; 32]), &record).unwrap_err();
    assert_eq!(err.kind(), ErrorKind::DecryptError);
    assert!(
        matches!(err, AlloyError::DecryptError { msg } if msg == "EDEK signature verification failed")
    );
}

#[test]
fn signed_edek_rejects_unreadable_and_empty_records() {
    let kek = EncryptionKey([9u8; 32]);
    assert_eq!(decrypt_signed_edek(&kek, &vec![]).unwrap_err().kind(), ErrorKind::DecryptError);
    assert_eq!(
        decrypt_signed_edek(&kek, &vec![255, 255, 255]).unwrap_err().kind(),
        ErrorKind::DecryptError
    );
}

// The record begins with the signature: two bytes of framing, two more in
// front of the 32 bytes of the MAC, and then the tag and the value of the
// signature type. The payload follows, behind its tag and its length.
const SIGNATURE_TYPE_AT: usize = 37;
const PAYLOAD_LENGTH_AT: usize = 39;

#[test]
fn signed_edek_rejects_every_flipped_bit_but_in_the_length_of_its_payload() {
    let mut rng = create_rng();
    let kek = EncryptionKey([9u8; 32]);
    let (_, record) = generate_signed_edek(&mut rng, &kek, 12).unwrap();
    assert_eq!(record.len(), 112);
    assert_eq!(record[SIGNATURE_TYPE_AT], 1);
    assert_eq!(record[PAYLOAD_LENGTH_AT], 72);
    for i in 0..record.len() {
        if i == PAYLOAD_LENGTH_AT {
            continue;
        }
        for bit in 0..8 {
            let mut tampered = record.clone();
            tampered[i] ^= 1 << bit;
            let err = decrypt_signed_edek(&kek, &tampered).unwrap_err();
            assert_eq!(err.kind(), ErrorKind::DecryptError);
        }
    }
}

#[test]
fn signed_edek_with_a_payload_length_past_its_end_is_read_to_its_end() {
    let mut rng = create_rng();
    let kek = EncryptionKey([9u8; 32]);
    let (dek, record) = generate_signed_edek(&mut rng, &kek, 12).unwrap();
    let mut longer = record.clone();
    longer[PAYLOAD_LENGTH_AT] = 73;
    assert_eq!(decrypt_signed_edek(&kek, &longer).unwrap().0, dek.0);
    let mut shorter = record.clone();
    shorter[PAYLOAD_LENGTH_AT] = 71;
    assert_eq!(
        decrypt_signed_edek(&kek, &shorter).unwrap_err().kind(),
        ErrorKind::DecryptError
    );
}

#[test]
fn signed_edek_that_declares_no_signature_is_refused() {
    let mut rng = create_rng();
    let kek = EncryptionKey([9u8; 32]);
    let (dek, record) = generate_signed_edek(&mut rng, &kek, 12).unwrap();
    let mut unsigned = record.clone();
    unsigned[SIGNATURE_TYPE_AT] = 0;
    assert_eq!(decrypt_signed_edek(&kek, &unsigned).unwrap_err().kind(), ErrorKind::DecryptError);
    assert_eq!(verify_sig(dek, &unsigned).unwrap_err().kind(), ErrorKind::DecryptError);
    assert!(verify_sig(dek, &record).is_ok());
    assert_eq!(verify_sig(dek, &vec![]).unwrap_err().kind(), ErrorKind::DecryptError);
}

#[test]
fn standard_round_trip() {
    let client = standard_client();
    let keys = standard_keys(vec![key(1, 1, false), key(2, 2, true)]);
    let mut rng = create_rng();
    let encrypted = client.encrypt(two_field_document(), &keys, &mut rng).unwrap();
    assert_eq!(&encrypted.edek.0[..6], &[0, 0, 0, 2, 2, 0]);
    assert_eq!(encrypted.document.len(), 2);
    let decrypted = client.decrypt(encrypted, &keys).unwrap();
    assert_eq!(decrypted.into_vec(), two_field_document().into_vec());
}

#[test]
fn standard_decrypt_uses_the_key_of_the_header_after_rotation() {
    let client = standard_client();
    let before = standard_keys(vec![key(1, 1, true)]);
    let after = standard_keys(vec![key(1, 1, false), key(2, 2, true)]);
    let mut rng = create_rng();
    let encrypted = client.encrypt(two_field_document(), &before, &mut rng).unwrap();
    let decrypted = client.decrypt(encrypted, &after).unwrap();
    assert_eq!(decrypted.into_vec(), two_field_document().into_vec());
}

#[test]
fn standard_encrypt_differs_between_calls() {
    let client = standard_client();
    let keys = standard_keys(vec![key(2, 2, true)]);
    let mut rng = create_rng();
    let first = client.encrypt(two_field_document(), &keys, &mut rng).unwrap();
    let second = client.encrypt(two_field_document(), &keys, &mut rng).unwrap();
    assert_ne!(first.edek.0, second.edek.0);
    assert_ne!(first.document.value(0), second.document.value(0));
    assert_ne!(first.document.value(1), second.document.value(1));
}

#[test]
fn standard_encrypt_reports_missing_keys() {
    let client = standard_client();
    let mut rng = create_rng();
    let none_current = standard_keys(vec![key(1, 1, false)]);
    let err = client.encrypt(two_field_document(), &none_current, &mut rng).unwrap_err();
    assert_eq!(err.kind(), ErrorKind::InvalidKey);
    let two_current = standard_keys(vec![key(1, 1, true), key(2, 2, true)]);
    let err = client.encrypt(two_field_document(), &two_current, &mut rng).unwrap_err();
    assert_eq!(err.kind(), ErrorKind::RequestError);
    let no_path = KeyDeriveResponse { has_primary_config: true, derived_keys: LabelMap::new() };
    let err = client.encrypt(two_field_document(), &no_path, &mut rng).unwrap_err();
    assert_eq!(err.kind(), ErrorKind::RequestError);
    let short = standard_keys(vec![DerivedKey {
        derived_key: vec![1; 31],
        tenant_secret_id: TenantSecretAssignmentId(1),
        current: true,
    }]);
    let err = client.encrypt(two_field_document(), &short, &mut rng).unwrap_err();
    assert_eq!(err.kind(), ErrorKind::InvalidKey);
}

#[test]
fn standard_decrypt_rejects_foreign_headers() {
    let client = standard_client();
    let keys = standard_keys(vec![key(2, 2, true)]);
    let mut rng = create_rng();
    let encrypted = client.encrypt(two_field_document(), &keys, &mut rng).unwrap();
    let mut deterministic = encrypted.edek.0.clone();
    deterministic[4] = 0;
    let err = client
        .decrypt(
            EncryptedDocument {
                edek: EdekWithKeyIdHeader(deterministic),
                document: LabelMap::new(),
            },
            &keys,
        )
        .unwrap_err();
    assert_eq!(err.kind(), ErrorKind::MalformedHeader);
    let mut standalone = encrypted.edek.0.clone();
    standalone[4] = 130;
    let err = client
        .decrypt(
            EncryptedDocument { edek: EdekWithKeyIdHeader(standalone), document: LabelMap::new() },
            &keys,
        )
        .unwrap_err();
    assert_eq!(err.kind(), ErrorKind::MalformedHeader);
    let err = client
        .decrypt(
            EncryptedDocument {
                edek: EdekWithKeyIdHeader(vec![0, 0, 0]),
                document: LabelMap::new(),
            },
            &keys,
        )
        .unwrap_err();
    assert_eq!(err.kind(), ErrorKind::MalformedHeader);
}

#[test]
fn standard_decrypt_with_another_key_id_in_the_header_is_a_decrypt_error() {
    let client = standard_client();
    let keys = standard_keys(vec![key(1, 1, false), key(2, 2, true)]);
    let mut rng = create_rng();
    let mut encrypted = client.encrypt(two_field_document(), &keys, &mut rng).unwrap();
    encrypted.edek.0[3] = 1;
    let err = client.decrypt(encrypted, &keys).unwrap_err();
    assert_eq!(err.kind(), ErrorKind::DecryptError);
}

#[test]
fn standard_decrypt_with_an_unknown_key_id_is_an_invalid_key() {
    let client = standard_client();
    let keys = standard_keys(vec![key(2, 2, true)]);
    let mut rng = create_rng();
    let mut encrypted = client.encrypt(two_field_document(), &keys, &mut rng).unwrap();
    encrypted.edek.0[3] = 9;
    let err = client.decrypt(encrypted, &keys).unwrap_err();
    assert_eq!(err.kind(), ErrorKind::InvalidKey);
}

#[test]
fn standard_decrypt_rejects_a_tampered_edek_and_a_tampered_field() {
    let client = standard_client();
    let keys = standard_keys(vec![key(2, 2, true)]);
    let mut rng = create_rng();
    let encrypted = client.encrypt(two_field_document(), &keys, &mut rng).unwrap();
    let fields = encrypted.document.into_vec();
    for i in 6..encrypted.edek.0.len() {
        let mut edek = encrypted.edek.0.clone();
        edek[i] ^= 0x80;
        let document = LabelMap::from_vec(fields.clone()).unwrap();
        let err = client
            .decrypt(EncryptedDocument { edek: EdekWithKeyIdHeader(edek), document }, &keys)
            .unwrap_err();
        assert_eq!(err.kind(), ErrorKind::DecryptError);
    }
    let mut tampered = fields.clone();
    tampered[0].1[20] ^= 0x01;
    let err = client
        .decrypt(
            EncryptedDocument {
                edek: EdekWithKeyIdHeader(encrypted.edek.0.clone()),
                document: LabelMap::from_vec(tampered).unwrap(),
            },
            &keys,
        )
        .unwrap_err();
    assert_eq!(err.kind(), ErrorKind::DecryptError);
}

#[test]
fn searchable_edek_prefix_is_the_header() {
    let client = standard_client();
    assert_eq!(client.get_searchable_edek_prefix(1), vec![0, 0, 0, 1, 2, 0]);
    assert_eq!(client.get_searchable_edek_prefix(0x01020304), vec![1, 2, 3, 4, 2, 0]);
    assert_eq!(client.get_searchable_edek_prefix(u32::MAX), vec![255, 255, 255, 255, 2, 0]);
}

#[test]
fn standard_client_keeps_its_handle_and_path() {
    let handle = Arc::new(TenantSecurityClient::new(label("http://tsp"), label("secret")));
    let client = SaasShieldStandardClient::new(
        handle.clone(),
        SecretPath(label("s")),
        DerivationPath(label("d")),
    );
    assert!(Arc::ptr_eq(client.tenant_security_client(), &handle));
    let (secret_path, derivation_path) = client.key_path();
    assert_eq!(secret_path, &SecretPath(label("s")));
    assert_eq!(derivation_path, &DerivationPath(label("d")));
}

#[test]
fn plaintext_document_with_edek_keeps_its_parts() {
    let with_edek =
        PlaintextDocumentWithEdek::new(EdekWithKeyIdHeader(vec![1, 2, 3]), two_field_document());
    assert_eq!(with_edek.edek().0, vec![1, 2, 3]);
    assert_eq!(with_edek.document().len(), 2);
    assert_eq!(with_edek.document().get(&label("foo")), Some(&vec![100u8]));
}

#[test]
fn generated_outcome_reports_refusal_and_overlong_records() {
    let made = generated_outcome(Ok((EncryptionKey([1; 32]), vec![1, 2, 3]))).unwrap();
    assert_eq!(made.0 .0, [1; 32]);
    assert_eq!(made.1, vec![1, 2, 3]);
    let err = generated_outcome(Err(label("refused"))).unwrap_err();
    assert_eq!(err.kind(), ErrorKind::EncryptError);
    assert!(signature_outcome(true).is_ok());
    assert_eq!(signature_outcome(false).unwrap_err().kind(), ErrorKind::DecryptError);
}

#[test]
fn wrapping_key_is_the_first_half_of_the_derived_key() {
    let mut bytes = vec![7u8; 32];
    bytes.extend_from_slice(&[9u8; 32]);
    let derived = DerivedKey {
        derived_key: bytes,
        tenant_secret_id: TenantSecretAssignmentId(1),
        current: true,
    };
    assert_eq!(SaasShieldStandardClient::wrapping_key(&derived).unwrap().0, [7u8; 32]);
}

#[test]
fn the_first_wrapped_key_is_the_one_that_is_read() {
    let mut rng = create_rng();
    let kek = EncryptionKey([9u8; 32]);
    let (dek, record) = generate_signed_edek(&mut rng, &kek, 12).unwrap();
    assert_eq!(find_dek(&kek, &record).unwrap().0, dek.0);
    assert_eq!(find_dek(&kek, &vec![]).unwrap_err().kind(), ErrorKind::DecryptError);
    assert_eq!(first_wrapped_dek(&vec![]).unwrap_err().kind(), ErrorKind::DecryptError);
    let other = WrappedDek::Other;
    let aes = WrappedDek::Aes256Gcm { iv: record[46..58].to_vec(), ciphertext: record[60..108].to_vec() };
    let all = vec![aes.clone(), other.clone()];
    assert!(matches!(first_wrapped_dek(&all).unwrap(), WrappedDek::Aes256Gcm { .. }));
    assert_eq!(unwrap_dek(&kek, &aes).unwrap().0, dek.0);
    assert_eq!(unwrap_dek(&kek, &other).unwrap_err().kind(), ErrorKind::DecryptError);
    let short_iv = WrappedDek::Aes256Gcm { iv: vec![1; 11], ciphertext: record[60..108].to_vec() };
    assert_eq!(unwrap_dek(&kek, &short_iv).unwrap_err().kind(), ErrorKind::DecryptError);
    let wrong_key = EncryptionKey([8u8; 32]);
    assert_eq!(unwrap_dek(&wrong_key, &aes).unwrap_err().kind(), ErrorKind::DecryptError);
}

#[test]
fn a_signature_is_stable_with_at_most_one_entry_of_metadata() {
    let mut rng = create_rng();
    let kek = EncryptionKey([9u8; 32]);
    let (_, record) = generate_signed_edek(&mut rng, &kek, 12).unwrap();
    assert!(signature_is_stable(&record));
    assert!(signature_is_stable(&vec![]));
    assert!(signature_is_stable(&vec![255, 255]));
    let with_entries = |n: usize| {
        let mut payload = SignedPayload::new();
        for i in 0..n {
            payload.user_metadata.insert(format!("name{i}").into(), format!("value{i}").into());
        }
        let mut header = V4DocumentHeader::new();
        header.signed_payload = Some(payload).into();
        header.write_to_bytes().unwrap()
    };
    assert!(signature_is_stable(&with_entries(1)));
    assert!(!signature_is_stable(&with_entries(2)));
    assert!(!signature_is_stable(&with_entries(5)));
    assert_eq!(
        decrypt_signed_edek(&kek, &with_entries(2)).unwrap_err().kind(),
        ErrorKind::DecryptError
    );
}

#[test]
fn a_generated_record_is_short() {
    let mut rng = create_rng();
    let kek = EncryptionKey([9u8; 32]);
    for (key_id, len) in [(0u32, 111usize), (12, 112), (u32::MAX, 120)] {
        let (_, record) = generate_signed_edek(&mut rng, &kek, key_id).unwrap();
        assert_eq!(record.len(), len);
        assert!(record.len() <= 256);
    }
}
