//! The Channel set request: a builder that collects the queue counts
//! to change on one interface.

use vstd::prelude::*;

use vstd::bytes::lemma_auto_spec_u32_to_from_le_bytes;

use crate::channel::{EthtoolChannelAttr, EthtoolChannelAttrView};
use crate::handle::EthtoolHandle;
use crate::message::{EthtoolAttr, EthtoolAttrView, EthtoolMessage, EthtoolMessageView};

verus! {

/// The count attributes a set request appends after the header, in the
/// fixed order rx, tx, other, combined, each only when requested.
pub open spec fn spec_channel_set_extra(
    rx_count: Option<u32>,
    tx_count: Option<u32>,
    other_count: Option<u32>,
    combined_count: Option<u32>,
) -> Seq<EthtoolAttrView> {
    (match rx_count {
        Some(v) => seq![EthtoolAttrView::Channel(EthtoolChannelAttrView::RxCount(v))],
        None => seq![],
    }) + (match tx_count {
        Some(v) => seq![EthtoolAttrView::Channel(EthtoolChannelAttrView::TxCount(v))],
        None => seq![],
    }) + (match other_count {
        Some(v) => seq![EthtoolAttrView::Channel(EthtoolChannelAttrView::OtherCount(v))],
        None => seq![],
    }) + (match combined_count {
        Some(v) => seq![EthtoolAttrView::Channel(EthtoolChannelAttrView::CombinedCount(v))],
        None => seq![],
    })
}

/// A request that changes the hardware queue counts of one interface.
pub struct EthtoolChannelSetRequest {
    handle: EthtoolHandle,
    message: EthtoolMessage,
    rx_count: Option<u32>,
    tx_count: Option<u32>,
    other_count: Option<u32>,
    combined_count: Option<u32>,
}

/// The mathematical model of a Channel set request.
pub struct EthtoolChannelSetRequestView {
    pub message: EthtoolMessageView,
    pub rx_count: Option<u32>,
    pub tx_count: Option<u32>,
    pub other_count: Option<u32>,
    pub combined_count: Option<u32>,
}

impl View for EthtoolChannelSetRequest {
    type V = EthtoolChannelSetRequestView;

    closed spec fn view(&self) -> EthtoolChannelSetRequestView {
        EthtoolChannelSetRequestView {
            message: self.message@,
            rx_count: self.rx_count,
            tx_count: self.tx_count,
            other_count: self.other_count,
            combined_count: self.combined_count,
        }
    }
}

impl EthtoolChannelSetRequest {
    pub fn new(handle: EthtoolHandle, iface_name: &str) -> (r: Self)
        requires
            iface_name@.len() <= 0x3000,
        ensures
            r@.message.cmd == crate::message::EthtoolCmd::ChannelSet,
            r@.message.nlas == seq![
                EthtoolAttrView::Channel(EthtoolChannelAttrView::Header(
                    crate::message::spec_header_nlas(Some(iface_name@)),
                )),
            ],
            r@.message.wf(),
            r@.rx_count is None && r@.tx_count is None && r@.other_count is None
                && r@.combined_count is None,
    {
        EthtoolChannelSetRequest {
            handle,
            message: EthtoolMessage::new_channel_set(iface_name),
            rx_count: None,
            tx_count: None,
            other_count: None,
            combined_count: None,
        }
    }

    pub fn rx_count(self, count: u32) -> (r: Self)
        ensures
            r@ == (EthtoolChannelSetRequestView { rx_count: Some(count), ..self@ }),
    {
        EthtoolChannelSetRequest { rx_count: Some(count), ..self }
    }

    pub fn tx_count(self, count: u32) -> (r: Self)
        ensures
            r@ == (EthtoolChannelSetRequestView { tx_count: Some(count), ..self@ }),
    {
        EthtoolChannelSetRequest { tx_count: Some(count), ..self }
    }

    pub fn other_count(self, count: u32) -> (r: Self)
        ensures
            r@ == (EthtoolChannelSetRequestView { other_count: Some(count), ..self@ }),
    {
        EthtoolChannelSetRequest { other_count: Some(count), ..self }
    }

    pub fn combined_count(self, count: u32) -> (r: Self)
        ensures
            r@ == (EthtoolChannelSetRequestView { combined_count: Some(count), ..self@ }),
    {
        EthtoolChannelSetRequest { combined_count: Some(count), ..self }
    }

    /// The request message to hand to the transport: the header
    /// message with the requested counts appended, in the order rx,
    /// tx, other, combined. This is the pure half of executing the
    /// request.
    pub fn message(self) -> (r: EthtoolMessage)
        requires
            self@.message.wf(),
        ensures
            r@.cmd == self@.message.cmd,
            r@.nlas == self@.message.nlas + spec_channel_set_extra(
                self@.rx_count,
                self@.tx_count,
                self@.other_count,
                self@.combined_count,
            ),
            r@.wf(),
    {
        let EthtoolChannelSetRequest {
            handle: _,
            mut message,
            rx_count,
            tx_count,
            other_count,
            combined_count,
        } = self;
        let ghost base = message@.nlas;
        proof {
            lemma_auto_spec_u32_to_from_le_bytes();
        }
        match rx_count {
            Some(count) => {
                message.nlas.push(EthtoolAttr::Channel(EthtoolChannelAttr::RxCount(count)));
            },
            None => {},
        }
        match tx_count {
            Some(count) => {
                message.nlas.push(EthtoolAttr::Channel(EthtoolChannelAttr::TxCount(count)));
            },
            None => {},
        }
        match other_count {
            Some(count) => {
                message.nlas.push(EthtoolAttr::Channel(EthtoolChannelAttr::OtherCount(count)));
            },
            None => {},
        }
        match combined_count {
            Some(count) => {
                message.nlas.push(
                    EthtoolAttr::Channel(EthtoolChannelAttr::CombinedCount(count)),
                );
            },
            None => {},
        }
        proof {
            assert(message@.nlas =~= base + spec_channel_set_extra(
                rx_count,
                tx_count,
                other_count,
                combined_count,
            ));
            assert forall|i: int| 0 <= i < message@.nlas.len() implies (#[trigger] message@.nlas[i]).wf() by {}
        }
        message
    }
}

} // verus!
