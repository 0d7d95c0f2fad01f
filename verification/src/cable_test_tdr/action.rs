//! Starting a TDR cable test: the optional measurement configuration
//! and the request that carries it.

use vstd::prelude::*;

use crate::cable_pair::EthtoolCablePair;
use crate::cable_test_tdr::attr::EthtoolCableTestTdrConfigAttrView;
use crate::handle::EthtoolHandle;
use crate::message::EthtoolMessage;

verus! {

/// Configuration for a TDR (time domain reflectometry) cable test. The
/// configuration record is optional, as is every member of it. All
/// distances are in centimeters; the PHY takes them as a guide and
/// rounds to the nearest distance it supports.
#[derive(Debug, Clone, Copy, PartialEq, Eq)]
pub struct EthtoolCableTestTdrConfig {
    /// The first measurement point, in centimeters.
    pub first: Option<u32>,
    /// The last measurement point, in centimeters.
    pub last: Option<u32>,
    /// The step between measurement points, in centimeters.
    pub step: Option<u32>,
    /// The cable pair to test. With a pair given, only that pair is
    /// tested; otherwise all pairs are.
    pub pair: Option<EthtoolCablePair>,
}

impl Default for EthtoolCableTestTdrConfig {
    fn default() -> (r: Self)
        ensures
            r.first is None && r.last is None && r.step is None && r.pair is None,
    {
        EthtoolCableTestTdrConfig { first: None, last: None, step: None, pair: None }
    }
}

/// The configuration attributes that a configuration emits, in the
/// fixed order first, last, step, pair, each only when present.
pub open spec fn spec_config_attrs(c: EthtoolCableTestTdrConfig) -> Seq<
    EthtoolCableTestTdrConfigAttrView,
> {
    (match c.first {
        Some(v) => seq![EthtoolCableTestTdrConfigAttrView::First(v)],
        None => seq![],
    }) + (match c.last {
        Some(v) => seq![EthtoolCableTestTdrConfigAttrView::Last(v)],
        None => seq![],
    }) + (match c.step {
        Some(v) => seq![EthtoolCableTestTdrConfigAttrView::Step(v)],
        None => seq![],
    }) + (match c.pair {
        Some(p) => seq![EthtoolCableTestTdrConfigAttrView::Pair(p)],
        None => seq![],
    })
}

/// A request that starts a TDR cable test on one interface.
pub struct EthtoolCableTestTdrActionRequest {
    handle: EthtoolHandle,
    iface_name: String,
    config: Option<EthtoolCableTestTdrConfig>,
}

/// The mathematical model of a TDR action request.
pub struct EthtoolCableTestTdrActionRequestView {
    pub iface_name: Seq<char>,
    pub config: Option<EthtoolCableTestTdrConfig>,
}

impl View for EthtoolCableTestTdrActionRequest {
    type V = EthtoolCableTestTdrActionRequestView;

    closed spec fn view(&self) -> EthtoolCableTestTdrActionRequestView {
        EthtoolCableTestTdrActionRequestView {
            iface_name: self.iface_name@,
            config: self.config,
        }
    }
}

impl EthtoolCableTestTdrActionRequest {
    pub fn new(
        handle: EthtoolHandle,
        iface_name: &str,
        config: Option<EthtoolCableTestTdrConfig>,
    ) -> (r: Self)
        ensures
            r@ == (EthtoolCableTestTdrActionRequestView { iface_name: iface_name@, config }),
    {
        EthtoolCableTestTdrActionRequest { handle, iface_name: iface_name.to_owned(), config }
    }

    /// The request message to hand to the transport. This is the pure
    /// half of executing the request; sending it and collecting the
    /// acknowledgement belong to the transport.
    pub fn message(&self) -> (r: EthtoolMessage)
        requires
            self@.iface_name.len() <= 0x3000,
        ensures
            r@ == EthtoolMessage::spec_cable_test_tdr(self@.iface_name, self@.config),
            r@.wf(),
    {
        EthtoolMessage::new_cable_test_tdr(self.iface_name.as_str(), self.config)
    }
}

} // verus!
