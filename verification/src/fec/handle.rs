//! The per-feature handle for the FEC object.

use vstd::prelude::*;

use crate::handle::EthtoolHandle;
use crate::fec::get::EthtoolFecGetRequest;

verus! {

pub struct EthtoolFecHandle(EthtoolHandle);

impl EthtoolFecHandle {
    pub fn new(handle: EthtoolHandle) -> (r: Self) {
        EthtoolFecHandle(handle)
    }

    /// Retrieves the FEC settings of an interface.
    pub fn get(&mut self, iface_name: Option<&str>) -> (r: EthtoolFecGetRequest)
        ensures
            r@.iface_name == iface_name.deep_view(),
    {
        EthtoolFecGetRequest::new(self.0.clone(), iface_name)
    }
}

} // verus!
