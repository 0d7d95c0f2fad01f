//! The Ring get request.

use vstd::prelude::*;

use crate::handle::EthtoolHandle;
use crate::message::{spec_header_nlas, EthtoolAttrView, EthtoolMessage};
use crate::ring::EthtoolRingAttrView;

verus! {

/// A request for the Ring state of one interface, or of every
/// interface when none is named.
pub struct EthtoolRingGetRequest {
    handle: EthtoolHandle,
    iface_name: Option<String>,
}

/// The mathematical model of a Ring get request.
pub struct EthtoolRingGetRequestView {
    pub iface_name: Option<Seq<char>>,
}

impl View for EthtoolRingGetRequest {
    type V = EthtoolRingGetRequestView;

    closed spec fn view(&self) -> EthtoolRingGetRequestView {
        EthtoolRingGetRequestView { iface_name: self.iface_name.deep_view() }
    }
}

impl EthtoolRingGetRequest {
    pub fn new(handle: EthtoolHandle, iface_name: Option<&str>) -> (r: Self)
        ensures
            r@.iface_name == iface_name.deep_view(),
    {
        let owned: Option<String> = match iface_name {
            Some(s) => Some(s.to_owned()),
            None => None,
        };
        let r = EthtoolRingGetRequest { handle, iface_name: owned };
        proof {
            assert(r@.iface_name == iface_name.deep_view());
        }
        r
    }

    /// The request message to hand to the transport. This is the pure
    /// half of executing the request; sending it and collecting the
    /// reply stream belong to the transport.
    pub fn message(&self) -> (r: EthtoolMessage)
        requires
            self@.iface_name matches Some(n) ==> n.len() <= 0x3000,
        ensures
            r@.cmd == crate::message::EthtoolCmd::RingGet,
            r@.nlas == seq![
                EthtoolAttrView::Ring(EthtoolRingAttrView::Header(
                    spec_header_nlas(self@.iface_name),
                )),
            ],
            r@.wf(),
    {
        match &self.iface_name {
            Some(s) => EthtoolMessage::new_ring_get(Some(s.as_str())),
            None => EthtoolMessage::new_ring_get(None),
        }
    }
}

} // verus!
