//! The per-feature handle for the TsInfo object.

use vstd::prelude::*;

use crate::handle::EthtoolHandle;
use crate::tsinfo::get::EthtoolTsInfoGetRequest;

verus! {

pub struct EthtoolTsInfoHandle(EthtoolHandle);

impl EthtoolTsInfoHandle {
    pub fn new(handle: EthtoolHandle) -> (r: Self) {
        EthtoolTsInfoHandle(handle)
    }

    /// Retrieves the ethtool timestamping capabilities of an interface.
    pub fn get(&mut self, iface_name: Option<&str>) -> (r: EthtoolTsInfoGetRequest)
        ensures
            r@.iface_name == iface_name.deep_view(),
    {
        EthtoolTsInfoGetRequest::new(self.0.clone(), iface_name)
    }
}

} // verus!
