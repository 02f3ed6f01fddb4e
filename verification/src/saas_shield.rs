//! The clients that take their keys from a tenant security provider.

use vstd::prelude::*;
use crate::errors::AlloyError;
use crate::key_id_header::{
    get_prefix_bytes_for_search, header_bytes, EdekType, KeyId, KeyIdHeader, PayloadType,
};
use crate::tenant_security_client::{
    in_rotation, DerivationPath, DeriveKeyChoice, KeyDeriveResponse, SecretPath,
};

pub mod deterministic;
pub mod standard;

verus! {

/// The keys that a rotation needs: those of the tenant that the data was
/// encrypted for, and those of the tenant that it is rotated to. For a rotation
/// within one tenant the two are the same answer.
#[derive(Clone, Debug)]
pub struct RotationKeys {
    pub original_keys: KeyDeriveResponse,
    pub new_keys: KeyDeriveResponse,
}

/// The bytes with which data begins that still awaits rotation: the header of
/// the first key of the path that is in rotation, written with the given tags;
/// no bytes where no key is in rotation.
pub open spec fn in_rotation_prefix(
    derived_keys: KeyDeriveResponse,
    secret_path: Seq<char>,
    derivation_path: Seq<char>,
    edek_type: EdekType,
    payload_type: PayloadType,
) -> Seq<u8> {
    let keys = in_rotation(derived_keys.keys_for_path(secret_path, derivation_path)->Ok_0);
    if keys.len() == 0 {
        Seq::empty()
    } else {
        header_bytes(
            KeyIdHeader { key_id: KeyId(keys[0].tenant_secret_id.0), edek_type, payload_type },
        )
    }
}

/// The prefix to search a data store for the data of a path that still awaits
/// rotation. A path that the answer lacks is a `RequestError`.
pub fn get_in_rotation_prefix_internal(
    derived_keys: &KeyDeriveResponse,
    secret_path: SecretPath,
    derivation_path: DerivationPath,
    edek_type: EdekType,
    payload_type: PayloadType,
) -> (r: Result<Vec<u8>, AlloyError>)
    ensures
        match derived_keys.keys_for_path(secret_path.0@, derivation_path.0@) {
            Ok(_) => r matches Ok(prefix) && prefix@ == in_rotation_prefix(
                *derived_keys,
                secret_path.0@,
                derivation_path.0@,
                edek_type,
                payload_type,
            ),
            Err(e) => r matches Err(err) && err.kind() == e.spec_kind(),
        },
{
    let keys = match derived_keys.get_key_for_path(
        &secret_path,
        &derivation_path,
        DeriveKeyChoice::InRotation,
    ) {
        Ok(keys) => keys,
        Err(e) => {
            return Err(e);
        },
    };
    if keys.len() == 0 {
        Ok(Vec::new())
    } else {
        let key_id_header = KeyIdHeader::new(
            edek_type,
            payload_type,
            KeyId(keys[0].tenant_secret_id.0),
        );
        Ok(get_prefix_bytes_for_search(key_id_header))
    }
}

} // verus!
