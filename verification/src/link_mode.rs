mod attr;
mod get;

pub use attr::parse_link_mode_nlas;
pub use attr::spec_parse_link_mode_nlas;
pub use attr::EthtoolLinkModeAttr;
pub use attr::EthtoolLinkModeAttrView;
pub use get::EthtoolLinkModeGetRequest;
pub use get::EthtoolLinkModeGetRequestView;
