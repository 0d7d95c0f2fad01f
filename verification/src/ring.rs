mod attr;
mod get;

pub use attr::parse_ring_nlas;
pub use attr::spec_parse_ring_nlas;
pub use attr::EthtoolRingAttr;
pub use attr::EthtoolRingAttrView;
pub use get::EthtoolRingGetRequest;
pub use get::EthtoolRingGetRequestView;
