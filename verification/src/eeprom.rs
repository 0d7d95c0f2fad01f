mod attr;
mod get;
mod handle;

pub use attr::parse_module_eeprom_nlas;
pub use attr::spec_parse_module_eeprom_nlas;
pub use attr::EthtoolModuleEEPROMAttr;
pub use attr::EthtoolModuleEEPROMAttrView;
pub use get::EthtoolModuleEEPROMGetRequest;
pub use get::EthtoolModuleEEPROMGetRequestView;
pub use handle::EthtoolModuleEEPROMHandle;
