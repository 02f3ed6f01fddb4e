use ironcore_alloy::alloy_client_trait::AlloyClient;
use ironcore_alloy::errors::{AlloyError, ErrorKind};
use ironcore_alloy::key_id_header::{
    decode_version_prefixed_value, get_prefix_bytes_for_search, EdekType, KeyId, KeyIdHeader,
    PayloadType,
};
use ironcore_alloy::label_map::LabelMap;
use ironcore_alloy::metadata::AlloyMetadata;
use ironcore_alloy::saas_shield::deterministic::SaasShieldDeterministicClient;
use ironcore_alloy::saas_shield::standard::SaasShieldStandardClient;
use ironcore_alloy::tenant_security_client::{
    DerivationPath, DerivationType, DeriveKeyChoice, DerivedKey, KeyDeriveRequest,
    KeyDeriveResponse, KeyLookupError, SecretPath, SecretType, TenantId, TenantSecretAssignmentId,
    TenantSecurityClient,
};
use std::sync::Arc;

fn key(byte: u8, id: u32, current: bool) -> DerivedKey {
    DerivedKey {
        derived_key: vec![byte; 64],
        tenant_secret_id: TenantSecretAssignmentId(id),
        current,
    }
}

fn response(keys: Vec<DerivedKey>) -> KeyDeriveResponse {
    let derivations = LabelMap::new().insert("dp".to_string(), keys);
    let secrets = LabelMap::new().insert("sp".to_string(), derivations);
    KeyDeriveResponse { has_primary_config: true, derived_keys: secrets }
}

fn sp() -> SecretPath {
    SecretPath("sp".to_string())
}

fn dp() -> DerivationPath {
    DerivationPath("dp".to_string())
}

#[test]
fn header_bytes_follow_the_layout() {
    let header = KeyIdHeader::new(EdekType::SaasShield, PayloadType::StandardEdek, KeyId(1));
    assert_eq!(header.write_to_bytes(), vec![0, 0, 0, 1, 2, 0]);
    let header = KeyIdHeader::new(EdekType::SaasShield, PayloadType::DeterministicField, KeyId(1));
    assert_eq!(header.write_to_bytes(), vec![0, 0, 0, 1, 0, 0]);
    let header = KeyIdHeader::new(EdekType::Standalone, PayloadType::DeterministicField, KeyId(72000));
    assert_eq!(header.write_to_bytes(), vec![0, 1, 25, 64, 128, 0]);
    let header =
        KeyIdHeader::new(EdekType::DataControlPlatform, PayloadType::VectorMetadata, KeyId(u32::MAX));
    assert_eq!(header.write_to_bytes(), vec![255, 255, 255, 255, 65, 0]);
    assert_eq!(get_prefix_bytes_for_search(header), vec![255, 255, 255, 255, 65, 0]);
    assert_eq!(header.put_header_on_document(&vec![7, 8]), vec![255, 255, 255, 255, 65, 0, 7, 8]);
}

#[test]
fn header_decoding_inverts_encoding() {
    let edek_types = [EdekType::Standalone, EdekType::SaasShield, EdekType::DataControlPlatform];
    let payload_types =
        [PayloadType::DeterministicField, PayloadType::VectorMetadata, PayloadType::StandardEdek];
    for edek_type in edek_types {
        for payload_type in payload_types {
            for id in [0u32, 1, 255, 256, 72000, 0x01020304, u32::MAX] {
                let header = KeyIdHeader::new(edek_type, payload_type, KeyId(id));
                let body = vec![1u8, 2, 3];
                let (decoded, rest) =
                    decode_version_prefixed_value(&header.put_header_on_document(&body)).unwrap();
                assert_eq!(decoded, header);
                assert_eq!(rest, body);
            }
        }
    }
}

#[test]
fn header_decoding_returns_the_body_untouched() {
    let (header, rest) = decode_version_prefixed_value(&vec![0, 0, 1, 0, 66, 0]).unwrap();
    assert_eq!(
        header,
        KeyIdHeader::new(EdekType::DataControlPlatform, PayloadType::StandardEdek, KeyId(256))
    );
    assert!(rest.is_empty());
    let (_, rest) = decode_version_prefixed_value(&vec![0, 0, 0, 0, 0, 0, 0, 0, 9]).unwrap();
    assert_eq!(rest, vec![0, 0, 9]);
}

#[test]
fn header_decoding_rejects_malformed_input() {
    for input in [
        vec![],
        vec![0, 0, 0, 1, 0],
        vec![0, 0, 0, 1, 0, 1],
        vec![0, 0, 0, 1, 3, 0],
        vec![0, 0, 0, 1, 15, 0],
        vec![0, 0, 0, 1, 16, 0],
        vec![0, 0, 0, 1, 192, 0],
        vec![0, 0, 0, 1, 255, 0],
    ] {
        let err = decode_version_prefixed_value(&input).unwrap_err();
        assert_eq!(err.kind(), ErrorKind::MalformedHeader);
        assert!(matches!(err, AlloyError::MalformedHeader { .. }));
    }
}

#[test]
fn tag_values_round_trip() {
    assert_eq!(EdekType::SaasShield.to_numeric_value(), 0);
    assert_eq!(EdekType::Standalone.to_numeric_value(), 128);
    assert_eq!(EdekType::DataControlPlatform.to_numeric_value(), 64);
    assert_eq!(PayloadType::DeterministicField.to_numeric_value(), 0);
    assert_eq!(PayloadType::VectorMetadata.to_numeric_value(), 1);
    assert_eq!(PayloadType::StandardEdek.to_numeric_value(), 2);
    assert_eq!(EdekType::from_numeric_value(130), Some(EdekType::Standalone));
    assert_eq!(EdekType::from_numeric_value(32), None);
    assert_eq!(PayloadType::from_numeric_value(130), Some(PayloadType::StandardEdek));
    assert_eq!(PayloadType::from_numeric_value(131), None);
}

#[test]
fn clients_accept_only_their_own_headers() {
    let deterministic = vec![0, 0, 0, 5, 0, 0, 1, 2];
    let standard = vec![0, 0, 0, 5, 2, 0, 1, 2];
    let (id, rest) = SaasShieldDeterministicClient::decompose_key_id_header(&deterministic).unwrap();
    assert_eq!((id, rest), (KeyId(5), vec![1, 2]));
    let (id, rest) = SaasShieldStandardClient::decompose_key_id_header(&standard).unwrap();
    assert_eq!((id, rest), (KeyId(5), vec![1, 2]));
    let err = SaasShieldDeterministicClient::decompose_key_id_header(&standard).unwrap_err();
    assert_eq!(err.kind(), ErrorKind::MalformedHeader);
    let err = SaasShieldStandardClient::decompose_key_id_header(&deterministic).unwrap_err();
    assert_eq!(err.kind(), ErrorKind::MalformedHeader);
    assert_eq!(
        SaasShieldStandardClient::create_key_id_header(5).write_to_bytes(),
        vec![0, 0, 0, 5, 2, 0]
    );
}

#[test]
fn current_key_must_be_there_and_unique() {
    let keys = response(vec![key(1, 1, false), key(2, 2, true), key(3, 3, false)]);
    let current = keys.get_current(&sp(), &dp()).unwrap();
    assert_eq!(current.tenant_secret_id, TenantSecretAssignmentId(2));
    let picked = keys.get_key_for_path(&sp(), &dp(), DeriveKeyChoice::Current).unwrap();
    assert_eq!(picked.len(), 1);
    assert_eq!(picked[0].derived_key, vec![2; 64]);
    let none = response(vec![key(1, 1, false)]);
    assert_eq!(none.get_current(&sp(), &dp()).unwrap_err(), KeyLookupError::NoCurrentKey);
    let err = none.get_key_for_path(&sp(), &dp(), DeriveKeyChoice::Current).unwrap_err();
    assert_eq!(err.kind(), ErrorKind::InvalidKey);
    let empty = response(vec![]);
    assert_eq!(empty.get_current(&sp(), &dp()).unwrap_err(), KeyLookupError::NoCurrentKey);
    let two = response(vec![key(1, 1, true), key(2, 2, false), key(3, 3, true)]);
    assert_eq!(two.get_current(&sp(), &dp()).unwrap_err(), KeyLookupError::AmbiguousCurrentKey);
    let err = two.get_key_for_path(&sp(), &dp(), DeriveKeyChoice::Current).unwrap_err();
    assert_eq!(err.kind(), ErrorKind::RequestError);
}

#[test]
fn specific_key_is_found_by_its_id() {
    let keys = response(vec![key(1, 1, false), key(2, 2, true), key(3, 3, false)]);
    let found = keys.get_specific(&sp(), &dp(), KeyId(3)).unwrap();
    assert_eq!(found.derived_key, vec![3; 64]);
    let picked = keys.get_key_for_path(&sp(), &dp(), DeriveKeyChoice::Specific(KeyId(1))).unwrap();
    assert_eq!(picked.len(), 1);
    assert!(!picked[0].current);
    assert_eq!(keys.get_specific(&sp(), &dp(), KeyId(4)).unwrap_err(), KeyLookupError::KeyNotFound);
    let err = keys.get_key_for_path(&sp(), &dp(), DeriveKeyChoice::Specific(KeyId(4))).unwrap_err();
    assert_eq!(err.kind(), ErrorKind::InvalidKey);
}

#[test]
fn keys_in_rotation_keep_the_order_of_the_answer() {
    let keys = response(vec![key(5, 5, false), key(2, 2, true), key(3, 3, false), key(4, 4, false)]);
    let picked = keys.get_key_for_path(&sp(), &dp(), DeriveKeyChoice::InRotation).unwrap();
    let ids: Vec<u32> = picked.iter().map(|k| k.tenant_secret_id.0).collect();
    assert_eq!(ids, vec![5, 3, 4]);
    let only_current = response(vec![key(2, 2, true)]);
    assert!(only_current.get_in_rotation(&sp(), &dp()).unwrap().is_empty());
    assert_eq!(keys.get_keys(&sp(), &dp()).unwrap().len(), 4);
}

#[test]
fn a_path_that_the_answer_lacks_is_a_request_error() {
    let keys = response(vec![key(2, 2, true)]);
    let other_sp = SecretPath("other".to_string());
    let other_dp = DerivationPath("other".to_string());
    assert_eq!(keys.get_keys(&other_sp, &dp()).unwrap_err(), KeyLookupError::PathNotFound);
    assert_eq!(keys.get_keys(&sp(), &other_dp).unwrap_err(), KeyLookupError::PathNotFound);
    for choice in
        [DeriveKeyChoice::Current, DeriveKeyChoice::Specific(KeyId(2)), DeriveKeyChoice::InRotation]
    {
        let err = keys.get_key_for_path(&sp(), &other_dp, choice).unwrap_err();
        assert_eq!(err.kind(), ErrorKind::RequestError);
    }
}

#[test]
fn an_answer_without_primary_config_is_a_request_error() {
    let mut keys = response(vec![key(2, 2, true)]);
    keys.has_primary_config = false;
    let err = keys.require_primary_config().unwrap_err();
    assert_eq!(err.kind(), ErrorKind::RequestError);
    let keys = response(vec![key(2, 2, true)]).require_primary_config().unwrap();
    assert!(keys.has_primary_config);
    assert_eq!(keys.derived_keys.len(), 1);
}

#[test]
fn lookup_failures_map_to_error_kinds() {
    assert_eq!(KeyLookupError::PathNotFound.into_alloy_error().kind(), ErrorKind::RequestError);
    assert_eq!(KeyLookupError::NoCurrentKey.into_alloy_error().kind(), ErrorKind::InvalidKey);
    assert_eq!(KeyLookupError::AmbiguousCurrentKey.into_alloy_error().kind(), ErrorKind::RequestError);
    assert_eq!(KeyLookupError::KeyNotFound.into_alloy_error().kind(), ErrorKind::InvalidKey);
}

#[test]
fn every_error_variant_has_its_kind() {
    let msg = || "m".to_string();
    assert_eq!(AlloyError::DecryptError { msg: msg() }.kind(), ErrorKind::DecryptError);
    assert_eq!(AlloyError::InvalidKey { msg: msg() }.kind(), ErrorKind::InvalidKey);
    assert_eq!(AlloyError::MalformedHeader { msg: msg() }.kind(), ErrorKind::MalformedHeader);
    assert_eq!(AlloyError::RequestError { msg: msg() }.kind(), ErrorKind::RequestError);
    assert_eq!(AlloyError::EncryptError { msg: msg() }.kind(), ErrorKind::EncryptError);
    assert_eq!(AlloyError::InvariantViolation { msg: msg() }.kind(), ErrorKind::InvariantViolation);
}

#[test]
fn label_map_keeps_order_and_unique_labels() {
    let map = LabelMap::new()
        .insert("b".to_string(), 1u8)
        .insert("a".to_string(), 2u8)
        .insert("b".to_string(), 3u8);
    assert_eq!(map.len(), 2);
    assert!(!map.is_empty());
    assert_eq!(map.label(0), "b");
    assert_eq!(*map.value(0), 3);
    assert_eq!(map.label(1), "a");
    assert_eq!(map.get(&"a".to_string()), Some(&2));
    assert_eq!(map.get(&"c".to_string()), None);
    assert_eq!(map.position(&"a".to_string()), Some(1));
    assert!(map.contains_label(&"b".to_string()));
    assert!(!map.contains_label(&"".to_string()));
    let pushed = map.push("c".to_string(), 4);
    assert_eq!(
        pushed.into_vec(),
        vec![("b".to_string(), 3u8), ("a".to_string(), 2u8), ("c".to_string(), 4u8)]
    );
}

#[test]
fn label_map_from_vec_rejects_repeated_labels() {
    let ok = LabelMap::from_vec(vec![("a".to_string(), 1u8), ("b".to_string(), 2u8)]).unwrap();
    assert_eq!(ok.len(), 2);
    assert!(LabelMap::from_vec(vec![
        ("a".to_string(), 1u8),
        ("b".to_string(), 2u8),
        ("a".to_string(), 3u8)
    ])
    .is_none());
    assert!(LabelMap::<u8>::from_vec(vec![]).unwrap().is_empty());
}

#[test]
fn label_map_with_values_keeps_labels() {
    let map = LabelMap::new().insert("x".to_string(), 1u8).insert("y".to_string(), 2u8);
    let other = map.with_values(vec!["one".to_string(), "two".to_string()]);
    assert_eq!(
        other.into_vec(),
        vec![("x".to_string(), "one".to_string()), ("y".to_string(), "two".to_string())]
    );
    let none: LabelMap<u8> = LabelMap::new();
    assert!(none.with_values(Vec::<u8>::new()).is_empty());
}

#[test]
fn metadata_names_its_tenant() {
    let metadata = AlloyMetadata::new_simple(TenantId("tenant".to_string()));
    assert_eq!(metadata.tenant_id, TenantId("tenant".to_string()));
    assert!(metadata.custom_fields.is_empty());
    assert!(metadata.tenant_id.same_as(&TenantId("tenant".to_string())));
    assert!(!metadata.tenant_id.same_as(&TenantId("Tenant".to_string())));
}

#[test]
fn a_key_request_names_each_path_once() {
    let path = |s: &str, d: &str| (SecretPath(s.to_string()), DerivationPath(d.to_string()));
    let paths = vec![path("a", "x"), path("a", "y"), path("a", "x"), path("b", "x"), path("a", "y")];
    let request = KeyDeriveRequest::for_paths(&paths, DerivationType::Sha256, SecretType::Vector);
    assert_eq!(request.paths, vec![path("a", "x"), path("a", "y"), path("b", "x")]);
    assert_eq!(request.derivation_type, DerivationType::Sha256);
    assert_eq!(request.secret_type, SecretType::Vector);
    let none = KeyDeriveRequest::for_paths(&vec![], DerivationType::Argon2, SecretType::Search);
    assert!(none.paths.is_empty());
}

#[test]
fn clients_ask_for_keys_of_their_kind() {
    let path = |s: &str, d: &str| (SecretPath(s.to_string()), DerivationPath(d.to_string()));
    let request =
        SaasShieldDeterministicClient::key_request(&vec![path("s", "d"), path("s", "d")]);
    assert_eq!(request.paths, vec![path("s", "d")]);
    assert_eq!(request.derivation_type, DerivationType::Sha512);
    assert_eq!(request.secret_type, SecretType::Deterministic);
    let standard = SaasShieldStandardClient::new(
        Arc::new(TenantSecurityClient::new("http://tsp".to_string(), "key".to_string())),
        SecretPath("standard".to_string()),
        DerivationPath("docs".to_string()),
    );
    let request = standard.key_request();
    assert_eq!(request.paths, vec![path("standard", "docs")]);
    assert_eq!(request.derivation_type, DerivationType::Sha512);
    assert_eq!(request.secret_type, SecretType::Standard);
}
