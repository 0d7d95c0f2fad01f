//! The per-feature handle for the module-EEPROM object.

use vstd::prelude::*;

use crate::eeprom::get::EthtoolModuleEEPROMGetRequest;
use crate::handle::EthtoolHandle;

verus! {

pub struct EthtoolModuleEEPROMHandle(EthtoolHandle);

impl EthtoolModuleEEPROMHandle {
    pub fn new(handle: EthtoolHandle) -> (r: Self) {
        EthtoolModuleEEPROMHandle(handle)
    }

    /// Retrieves one EEPROM data page of a transceiver module, as
    /// `ethtool -m` does.
    pub fn get(
        &mut self,
        iface_name: Option<&str>,
        offset: u32,
        length: u32,
        page: u8,
        bank: u8,
        i2c_address: u8,
    ) -> (r: EthtoolModuleEEPROMGetRequest)
        ensures
            r@.iface_name == iface_name.deep_view(),
            r@.offset == offset && r@.length == length && r@.page == page && r@.bank == bank
                && r@.i2c_address == i2c_address,
    {
        EthtoolModuleEEPROMGetRequest::new(
            self.0.clone(),
            iface_name,
            offset,
            length,
            page,
            bank,
            i2c_address,
        )
    }
}

} // verus!
