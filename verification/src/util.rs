//! Small rules that more than one client applies.

use vstd::prelude::*;
use crate::key_id_header::KeyId;
use crate::metadata::AlloyMetadata;
use crate::tenant_security_client::TenantId;

verus! {

/// Rotation has nothing to do for a value: it stays with its tenant, and the
/// key that encrypted it is that tenant's current key.
pub open spec fn rotation_is_no_op(
    encrypted_key_id: KeyId,
    maybe_current_key_id: Option<u32>,
    same_tenant: bool,
) -> bool {
    same_tenant && maybe_current_key_id == Some(encrypted_key_id.0)
}

/// Whether rotating a value that was encrypted under `encrypted_key_id` to the
/// tenant `new_tenant_id` would change nothing.
pub fn check_rotation_no_op(
    encrypted_key_id: KeyId,
    maybe_current_key_id: &Option<u32>,
    new_tenant_id: &TenantId,
    metadata: &AlloyMetadata,
) -> (b: bool)
    ensures
        b == rotation_is_no_op(
            encrypted_key_id,
            *maybe_current_key_id,
            new_tenant_id.0@ == metadata.tenant_id.0@,
        ),
{
    match maybe_current_key_id {
        Some(current_key_id) => *current_key_id == encrypted_key_id.0 && new_tenant_id.same_as(
            &metadata.tenant_id,
        ),
        None => false,
    }
}

} // verus!
