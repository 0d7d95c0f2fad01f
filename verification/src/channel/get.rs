//! The Channel get request.

use vstd::prelude::*;

use crate::handle::EthtoolHandle;
use crate::message::{spec_header_nlas, EthtoolAttrView, EthtoolMessage};
use crate::channel::EthtoolChannelAttrView;

verus! {

/// A request for the Channel state of one interface, or of every
/// interface when none is named.
pub struct EthtoolChannelGetRequest {
    handle: EthtoolHandle,
    iface_name: Option<String>,
}

/// The mathematical model of a Channel get request.
pub struct EthtoolChannelGetRequestView {
    pub iface_name: Option<Seq<char>>,
}

impl View for EthtoolChannelGetRequest {
    type V = EthtoolChannelGetRequestView;

    closed spec fn view(&self) -> EthtoolChannelGetRequestView {
        EthtoolChannelGetRequestView { iface_name: self.iface_name.deep_view() }
    }
}

impl EthtoolChannelGetRequest {
    pub fn new(handle: EthtoolHandle, iface_name: Option<&str>) -> (r: Self)
        ensures
            r@.iface_name == iface_name.deep_view(),
    {
        let owned: Option<String> = match iface_name {
            Some(s) => Some(s.to_owned()),
            None => None,
        };
        let r = EthtoolChannelGetRequest { handle, iface_name: owned };
        proof {
            assert(r@.iface_name == iface_name.deep_view());
        }
        r
    }

    /// The request message to hand to the transport. This is the pure
    /// half of executing the request; sending it and collecting the
    /// reply stream belong to the transport.
    pub fn message(&self) -> (r: EthtoolMessage)
        requires
            self@.iface_name matches Some(n) ==> n.len() <= 0x3000,
        ensures
            r@.cmd == crate::message::EthtoolCmd::ChannelGet,
            r@.nlas == seq![
                EthtoolAttrView::Channel(EthtoolChannelAttrView::Header(
                    spec_header_nlas(self@.iface_name),
                )),
            ],
            r@.wf(),
    {
        match &self.iface_name {
            Some(s) => EthtoolMessage::new_channel_get(Some(s.as_str())),
            None => EthtoolMessage::new_channel_get(None),
        }
    }
}

} // verus!
