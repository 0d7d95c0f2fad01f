mod attr;
mod get;

pub use attr::parse_coalesce_nlas;
pub use attr::spec_parse_coalesce_nlas;
pub use attr::EthtoolCoalesceAttr;
pub use attr::EthtoolCoalesceAttrView;
pub use get::EthtoolCoalesceGetRequest;
pub use get::EthtoolCoalesceGetRequestView;
