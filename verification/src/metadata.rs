//! Who an operation is performed for.

use vstd::prelude::*;
use crate::label_map::LabelMap;
use crate::tenant_security_client::TenantId;

verus! {

/// The identity that accompanies every operation: the tenant whose keys are
/// used, and whatever else the caller wants recorded with the request. The
/// library hands it on as it is and authorizes nothing by it.
#[derive(Clone, Debug)]
pub struct AlloyMetadata {
    pub tenant_id: TenantId,
    pub custom_fields: LabelMap<String>,
}

impl AlloyMetadata {
    /// Metadata that names a tenant and nothing else.
    pub fn new_simple(tenant_id: TenantId) -> (m: AlloyMetadata)
        ensures
            m.tenant_id == tenant_id,
            m.custom_fields@.len() == 0,
    {
        AlloyMetadata { tenant_id, custom_fields: LabelMap::new() }
    }
}

} // verus!
