//! The per-feature handle for TDR cable tests.

use vstd::prelude::*;

use crate::cable_test_tdr::action::{
    EthtoolCableTestTdrActionRequest, EthtoolCableTestTdrActionRequestView,
    EthtoolCableTestTdrConfig,
};
use crate::handle::EthtoolHandle;

verus! {

pub struct EthtoolCableTestTdrHandle(EthtoolHandle);

impl EthtoolCableTestTdrHandle {
    pub fn new(handle: EthtoolHandle) -> (r: Self) {
        EthtoolCableTestTdrHandle(handle)
    }

    /// Starts a TDR cable test on an interface with the default
    /// measurement configuration.
    pub fn start(&mut self, iface_name: &str) -> (r: EthtoolCableTestTdrActionRequest)
        ensures
            r@ == (EthtoolCableTestTdrActionRequestView {
                iface_name: iface_name@,
                config: None,
            }),
    {
        EthtoolCableTestTdrActionRequest::new(self.0.clone(), iface_name, None)
    }

    /// Starts a TDR cable test on an interface with the given
    /// measurement configuration.
    pub fn start_with_config(
        &mut self,
        iface_name: &str,
        config: EthtoolCableTestTdrConfig,
    ) -> (r: EthtoolCableTestTdrActionRequest)
        ensures
            r@ == (EthtoolCableTestTdrActionRequestView {
                iface_name: iface_name@,
                config: Some(config),
            }),
    {
        EthtoolCableTestTdrActionRequest::new(self.0.clone(), iface_name, Some(config))
    }
}

} // verus!
