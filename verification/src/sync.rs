//! Taking over fresh catalogs.
use vstd::prelude::*;
use crate::cloud::CloudOffering;
use crate::hardware::{
    catalog_valid, first_invalid, validate_hardware, CatalogError, GpuSpec,
};

verus! {

/// What a synchronisation brought: the number of devices and of cloud
/// offerings.
#[derive(Debug, Clone, Copy, PartialEq, Eq, Structural)]
pub struct SyncResult {
    pub hardware_count: usize,
    pub cloud_count: usize,
}

/// Checks fresh catalogs before they replace the ones at hand: the device
/// catalog must keep its invariant. The result counts the entries.
pub fn check_sync(hardware: &[(String, GpuSpec)], cloud: &[(String, CloudOffering)]) -> (r: Result<
    SyncResult,
    CatalogError,
>)
    ensures
        r is Ok <==> catalog_valid(hardware@),
        match r {
            Ok(counts) => counts.hardware_count == hardware@.len() && counts.cloud_count
                == cloud@.len(),
            Err(e) => first_invalid(hardware@, 0) is Some && e == (CatalogError {
                key: hardware@[first_invalid(hardware@, 0)->0].0,
                defect: hardware@[first_invalid(hardware@, 0)->0].1.defect()->0,
            }),
        },
{
    match validate_hardware(hardware) {
        Ok(_) => Ok(SyncResult { hardware_count: hardware.len(), cloud_count: cloud.len() }),
        Err(e) => Err(e),
    }
}

} // verus!
