mod attr;
mod get;
mod handle;
mod set;

pub use attr::parse_channel_nlas;
pub use attr::spec_parse_channel_nlas;
pub use attr::EthtoolChannelAttr;
pub use attr::EthtoolChannelAttrView;
pub use get::EthtoolChannelGetRequest;
pub use get::EthtoolChannelGetRequestView;
pub use handle::EthtoolChannelHandle;
pub use set::spec_channel_set_extra;
pub use set::EthtoolChannelSetRequest;
pub use set::EthtoolChannelSetRequestView;
