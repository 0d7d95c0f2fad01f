mod attr;
mod get;
mod handle;

pub use attr::parse_tsinfo_nlas;
pub use attr::spec_parse_tsinfo_nlas;
pub use attr::EthtoolTsInfoAttr;
pub use attr::EthtoolTsInfoAttrView;
pub use get::EthtoolTsInfoGetRequest;
pub use get::EthtoolTsInfoGetRequestView;
pub use handle::EthtoolTsInfoHandle;
