//! The handle that groups the per-feature request builders.
//!
//! The codec is pure: a handle carries no socket. The transport that
//! owns the generic-netlink connection sends the bytes of the messages
//! the builders produce and feeds reply payloads back to the decoders.

use vstd::prelude::*;

use crate::channel::EthtoolChannelHandle;
use crate::cable_test_tdr::EthtoolCableTestTdrHandle;
use crate::eeprom::EthtoolModuleEEPROMHandle;
use crate::fec::EthtoolFecHandle;
use crate::tsinfo::EthtoolTsInfoHandle;

verus! {

/// The entry point for building ethtool requests and interpreting
/// replies, one feature at a time.
#[derive(Debug, Clone, Copy, PartialEq, Eq, Structural)]
pub struct EthtoolHandle {}

impl EthtoolHandle {
    pub fn new() -> (r: Self) {
        EthtoolHandle {}
    }

    pub fn channel(&mut self) -> (r: EthtoolChannelHandle) {
        EthtoolChannelHandle::new(self.clone())
    }

    pub fn cable_test_tdr(&mut self) -> (r: EthtoolCableTestTdrHandle) {
        EthtoolCableTestTdrHandle::new(self.clone())
    }

    pub fn module_eeprom(&mut self) -> (r: EthtoolModuleEEPROMHandle) {
        EthtoolModuleEEPROMHandle::new(self.clone())
    }

    pub fn fec(&mut self) -> (r: EthtoolFecHandle) {
        EthtoolFecHandle::new(self.clone())
    }

    pub fn tsinfo(&mut self) -> (r: EthtoolTsInfoHandle) {
        EthtoolTsInfoHandle::new(self.clone())
    }
}

} // verus!
