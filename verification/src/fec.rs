mod attr;
mod get;
mod handle;

pub use attr::parse_fec_nlas;
pub use attr::spec_parse_fec_nlas;
pub use attr::EthtoolFecAttr;
pub use attr::EthtoolFecAttrView;
pub use attr::EthtoolFecMode;
pub use attr::EthtoolFecModeView;
pub use attr::EthtoolFecStat;
pub use attr::EthtoolFecStatView;
pub use get::EthtoolFecGetRequest;
pub use get::EthtoolFecGetRequestView;
pub use handle::EthtoolFecHandle;
