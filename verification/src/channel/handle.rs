//! The per-feature handle for the Channel object.

use vstd::prelude::*;

use crate::channel::get::EthtoolChannelGetRequest;
use crate::channel::set::EthtoolChannelSetRequest;
use crate::handle::EthtoolHandle;

verus! {

pub struct EthtoolChannelHandle(EthtoolHandle);

impl EthtoolChannelHandle {
    pub fn new(handle: EthtoolHandle) -> (r: Self) {
        EthtoolChannelHandle(handle)
    }

    /// Retrieves the ethtool channels of an interface, as `ethtool -l`
    /// does.
    pub fn get(&mut self, iface_name: Option<&str>) -> (r: EthtoolChannelGetRequest)
        ensures
            r@.iface_name == iface_name.deep_view(),
    {
        EthtoolChannelGetRequest::new(self.0.clone(), iface_name)
    }

    /// Sets the ethtool channels of an interface, as `ethtool -L`
    /// does.
    pub fn set(&mut self, iface_name: &str) -> (r: EthtoolChannelSetRequest)
        requires
            iface_name@.len() <= 0x3000,
        ensures
            r@.message.cmd == crate::message::EthtoolCmd::ChannelSet,
            r@.message.nlas == seq![
                crate::message::EthtoolAttrView::Channel(
                    crate::channel::EthtoolChannelAttrView::Header(
                        crate::message::spec_header_nlas(Some(iface_name@)),
                    ),
                ),
            ],
            r@.message.wf(),
            r@.rx_count is None && r@.tx_count is None && r@.other_count is None
                && r@.combined_count is None,
    {
        EthtoolChannelSetRequest::new(self.0.clone(), iface_name)
    }
}

} // verus!
