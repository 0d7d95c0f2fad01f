//! The module-EEPROM get request.

use vstd::prelude::*;

use crate::handle::EthtoolHandle;
use crate::message::EthtoolMessage;

verus! {

/// A request for one page of a transceiver module's EEPROM.
pub struct EthtoolModuleEEPROMGetRequest {
    handle: EthtoolHandle,
    iface_name: Option<String>,
    offset: u32,
    length: u32,
    page: u8,
    bank: u8,
    i2c_address: u8,
}

/// The mathematical model of a module-EEPROM get request.
pub struct EthtoolModuleEEPROMGetRequestView {
    pub iface_name: Option<Seq<char>>,
    pub offset: u32,
    pub length: u32,
    pub page: u8,
    pub bank: u8,
    pub i2c_address: u8,
}

impl View for EthtoolModuleEEPROMGetRequest {
    type V = EthtoolModuleEEPROMGetRequestView;

    closed spec fn view(&self) -> EthtoolModuleEEPROMGetRequestView {
        EthtoolModuleEEPROMGetRequestView {
            iface_name: self.iface_name.deep_view(),
            offset: self.offset,
            length: self.length,
            page: self.page,
            bank: self.bank,
            i2c_address: self.i2c_address,
        }
    }
}

impl EthtoolModuleEEPROMGetRequest {
    pub fn new(
        handle: EthtoolHandle,
        iface_name: Option<&str>,
        offset: u32,
        length: u32,
        page: u8,
        bank: u8,
        i2c_address: u8,
    ) -> (r: Self)
        ensures
            r@ == (EthtoolModuleEEPROMGetRequestView {
                iface_name: iface_name.deep_view(),
                offset,
                length,
                page,
                bank,
                i2c_address,
            }),
    {
        let owned: Option<String> = match iface_name {
            Some(s) => Some(s.to_owned()),
            None => None,
        };
        let r = EthtoolModuleEEPROMGetRequest {
            handle,
            iface_name: owned,
            offset,
            length,
            page,
            bank,
            i2c_address,
        };
        proof {
            assert(r@.iface_name == iface_name.deep_view());
        }
        r
    }

    /// The request message to hand to the transport. This is the pure
    /// half of executing the request.
    pub fn message(&self) -> (r: EthtoolMessage)
        requires
            self@.iface_name matches Some(n) ==> n.len() <= 0x3000,
        ensures
            r@.cmd == crate::message::EthtoolCmd::ModuleEEPROMGet,
            r@.nlas == EthtoolMessage::spec_module_eeprom_nlas(
                self@.iface_name,
                self@.offset,
                self@.length,
                self@.page,
                self@.bank,
                self@.i2c_address,
            ),
            r@.wf(),
    {
        match &self.iface_name {
            Some(s) => EthtoolMessage::new_module_eeprom_get(
                Some(s.as_str()),
                self.offset,
                self.length,
                self.page,
                self.bank,
                self.i2c_address,
            ),
            None => EthtoolMessage::new_module_eeprom_get(
                None,
                self.offset,
                self.length,
                self.page,
                self.bank,
                self.i2c_address,
            ),
        }
    }
}

} // verus!
