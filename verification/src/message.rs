//! The message envelope: generic-netlink command codes of the ethtool
//! family, the union of all feature attributes, and whole request and
//! reply messages.

use vstd::prelude::*;
use vstd::bytes::lemma_auto_spec_u32_to_from_le_bytes;

use crate::cable_test_tdr::{
    spec_config_attrs, EthtoolCableTestTdrActionAttr, EthtoolCableTestTdrActionAttrView,
    EthtoolCableTestTdrConfig, EthtoolCableTestTdrConfigAttr, EthtoolCableTestTdrConfigAttrView,
    EthtoolCableTestTdrNotifyAttr, EthtoolCableTestTdrNotifyAttrView,
};
use crate::channel::{EthtoolChannelAttr, EthtoolChannelAttrView};
use crate::coalesce::{EthtoolCoalesceAttr, EthtoolCoalesceAttrView};
use crate::eeprom::{EthtoolModuleEEPROMAttr, EthtoolModuleEEPROMAttrView};
use crate::feature::{EthtoolFeatureAttr, EthtoolFeatureAttrView};
use crate::fec::{EthtoolFecAttr, EthtoolFecAttrView};
use crate::link_mode::{EthtoolLinkModeAttr, EthtoolLinkModeAttrView};
use crate::error::DecodeError;
use crate::header::{
    header_list_wf, spec_emit_header_list, EthtoolHeader, EthtoolHeaderView,
};
use crate::nla::{
    emit_nla, lemma_emit_nla_list_take_step, lemma_record_bytes_len,
    lemma_records_bytes_len_bound, nla_value_len, spec_attr_records, spec_emit_nla_list,
    spec_record_bytes, DefaultNlaView, NlaCodec, NLA_HEADER_SIZE,
};
use crate::parsers::{lemma_encode_utf8_len, spec_string_bytes};
use crate::pause::{EthtoolPauseAttr, EthtoolPauseAttrView};
use crate::ring::{EthtoolRingAttr, EthtoolRingAttrView};
use crate::tsinfo::{EthtoolTsInfoAttr, EthtoolTsInfoAttrView};

verus! {

pub const ETHTOOL_MSG_PAUSE_GET: u8 = 21;

pub const ETHTOOL_MSG_PAUSE_GET_REPLY: u8 = 22;

pub const ETHTOOL_MSG_FEATURES_GET: u8 = 11;

pub const ETHTOOL_MSG_FEATURES_GET_REPLY: u8 = 11;

pub const ETHTOOL_MSG_LINKMODES_GET: u8 = 4;

pub const ETHTOOL_MSG_LINKMODES_GET_REPLY: u8 = 4;

pub const ETHTOOL_MSG_RINGS_GET: u8 = 15;

pub const ETHTOOL_MSG_RINGS_GET_REPLY: u8 = 16;

pub const ETHTOOL_MSG_COALESCE_GET: u8 = 19;

pub const ETHTOOL_MSG_COALESCE_GET_REPLY: u8 = 20;

pub const ETHTOOL_MSG_TSINFO_GET: u8 = 25;

pub const ETHTOOL_MSG_TSINFO_GET_REPLY: u8 = 26;

pub const ETHTOOL_MSG_FEC_GET: u8 = 29;

pub const ETHTOOL_MSG_FEC_GET_REPLY: u8 = 30;

pub const ETHTOOL_MSG_CHANNELS_GET: u8 = 17;

pub const ETHTOOL_MSG_CHANNELS_GET_REPLY: u8 = 18;

pub const ETHTOOL_MSG_CHANNELS_SET: u8 = 18;

pub const ETHTOOL_MSG_CABLE_TEST_TDR_ACT: u8 = 27;

pub const ETHTOOL_MSG_CABLE_TEST_TDR_NTF: u8 = 28;

pub const ETHTOOL_MSG_MODULE_EEPROM_GET: u8 = 31;

pub const ETHTOOL_MSG_MODULE_EEPROM_GET_REPLY: u8 = 32;

/// A generic-netlink command of the ethtool family. Requests and
/// replies are distinct variants because the kernel numbers them in
/// separate spaces.
#[derive(Debug, PartialEq, Eq, Clone, Copy, Structural)]
pub enum EthtoolCmd {
    PauseGet,
    PauseGetReply,
    FeatureGet,
    FeatureGetReply,
    LinkModeGet,
    LinkModeGetReply,
    RingGet,
    RingGetReply,
    CoalesceGet,
    CoalesceGetReply,
    TsInfoGet,
    TsInfoGetReply,
    FecGet,
    FecGetReply,
    ChannelGet,
    ChannelGetReply,
    ChannelSet,
    CableTestTdrAct,
    CableTestTdrNtf,
    ModuleEEPROMGet,
    ModuleEEPROMGetReply,
}

/// The wire code of a command.
pub open spec fn spec_cmd_code(cmd: EthtoolCmd) -> u8 {
    match cmd {
        EthtoolCmd::PauseGet => ETHTOOL_MSG_PAUSE_GET,
        EthtoolCmd::PauseGetReply => ETHTOOL_MSG_PAUSE_GET_REPLY,
        EthtoolCmd::FeatureGet => ETHTOOL_MSG_FEATURES_GET,
        EthtoolCmd::FeatureGetReply => ETHTOOL_MSG_FEATURES_GET_REPLY,
        EthtoolCmd::LinkModeGet => ETHTOOL_MSG_LINKMODES_GET,
        EthtoolCmd::LinkModeGetReply => ETHTOOL_MSG_LINKMODES_GET_REPLY,
        EthtoolCmd::RingGet => ETHTOOL_MSG_RINGS_GET,
        EthtoolCmd::RingGetReply => ETHTOOL_MSG_RINGS_GET_REPLY,
        EthtoolCmd::CoalesceGet => ETHTOOL_MSG_COALESCE_GET,
        EthtoolCmd::CoalesceGetReply => ETHTOOL_MSG_COALESCE_GET_REPLY,
        EthtoolCmd::TsInfoGet => ETHTOOL_MSG_TSINFO_GET,
        EthtoolCmd::TsInfoGetReply => ETHTOOL_MSG_TSINFO_GET_REPLY,
        EthtoolCmd::FecGet => ETHTOOL_MSG_FEC_GET,
        EthtoolCmd::FecGetReply => ETHTOOL_MSG_FEC_GET_REPLY,
        EthtoolCmd::ChannelGet => ETHTOOL_MSG_CHANNELS_GET,
        EthtoolCmd::ChannelGetReply => ETHTOOL_MSG_CHANNELS_GET_REPLY,
        EthtoolCmd::ChannelSet => ETHTOOL_MSG_CHANNELS_SET,
        EthtoolCmd::CableTestTdrAct => ETHTOOL_MSG_CABLE_TEST_TDR_ACT,
        EthtoolCmd::CableTestTdrNtf => ETHTOOL_MSG_CABLE_TEST_TDR_NTF,
        EthtoolCmd::ModuleEEPROMGet => ETHTOOL_MSG_MODULE_EEPROM_GET,
        EthtoolCmd::ModuleEEPROMGetReply => ETHTOOL_MSG_MODULE_EEPROM_GET_REPLY,
    }
}

impl EthtoolCmd {
    /// The wire code of this command.
    pub fn code(&self) -> (r: u8)
        ensures
            r == spec_cmd_code(*self),
    {
        match self {
            EthtoolCmd::PauseGet => ETHTOOL_MSG_PAUSE_GET,
            EthtoolCmd::PauseGetReply => ETHTOOL_MSG_PAUSE_GET_REPLY,
            EthtoolCmd::FeatureGet => ETHTOOL_MSG_FEATURES_GET,
            EthtoolCmd::FeatureGetReply => ETHTOOL_MSG_FEATURES_GET_REPLY,
            EthtoolCmd::LinkModeGet => ETHTOOL_MSG_LINKMODES_GET,
            EthtoolCmd::LinkModeGetReply => ETHTOOL_MSG_LINKMODES_GET_REPLY,
            EthtoolCmd::RingGet => ETHTOOL_MSG_RINGS_GET,
            EthtoolCmd::RingGetReply => ETHTOOL_MSG_RINGS_GET_REPLY,
            EthtoolCmd::CoalesceGet => ETHTOOL_MSG_COALESCE_GET,
            EthtoolCmd::CoalesceGetReply => ETHTOOL_MSG_COALESCE_GET_REPLY,
            EthtoolCmd::TsInfoGet => ETHTOOL_MSG_TSINFO_GET,
            EthtoolCmd::TsInfoGetReply => ETHTOOL_MSG_TSINFO_GET_REPLY,
            EthtoolCmd::FecGet => ETHTOOL_MSG_FEC_GET,
            EthtoolCmd::FecGetReply => ETHTOOL_MSG_FEC_GET_REPLY,
            EthtoolCmd::ChannelGet => ETHTOOL_MSG_CHANNELS_GET,
            EthtoolCmd::ChannelGetReply => ETHTOOL_MSG_CHANNELS_GET_REPLY,
            EthtoolCmd::ChannelSet => ETHTOOL_MSG_CHANNELS_SET,
            EthtoolCmd::CableTestTdrAct => ETHTOOL_MSG_CABLE_TEST_TDR_ACT,
            EthtoolCmd::CableTestTdrNtf => ETHTOOL_MSG_CABLE_TEST_TDR_NTF,
            EthtoolCmd::ModuleEEPROMGet => ETHTOOL_MSG_MODULE_EEPROM_GET,
            EthtoolCmd::ModuleEEPROMGetReply => ETHTOOL_MSG_MODULE_EEPROM_GET_REPLY,
        }
    }
}

impl From<EthtoolCmd> for u8 {
    fn from(cmd: EthtoolCmd) -> (r: u8) {
        cmd.code()
    }
}

impl vstd::std_specs::convert::FromSpecImpl<EthtoolCmd> for u8 {
    open spec fn obeys_from_spec() -> bool {
        true
    }

    open spec fn from_spec(cmd: EthtoolCmd) -> u8 {
        spec_cmd_code(cmd)
    }
}

/// One attribute of an ethtool message, tagged with the feature object
/// it belongs to.
#[derive(Debug, PartialEq, Eq, Clone)]
pub enum EthtoolAttr {
    Pause(EthtoolPauseAttr),
    Feature(EthtoolFeatureAttr),
    LinkMode(EthtoolLinkModeAttr),
    Ring(EthtoolRingAttr),
    Coalesce(EthtoolCoalesceAttr),
    TsInfo(EthtoolTsInfoAttr),
    Fec(EthtoolFecAttr),
    Channel(EthtoolChannelAttr),
    ModuleEEPROM(EthtoolModuleEEPROMAttr),
    CableTestTdrAction(EthtoolCableTestTdrActionAttr),
    CableTestTdrNotify(EthtoolCableTestTdrNotifyAttr),
}

/// The mathematical model of a message attribute.
pub enum EthtoolAttrView {
    Pause(EthtoolPauseAttrView),
    Feature(EthtoolFeatureAttrView),
    LinkMode(EthtoolLinkModeAttrView),
    Ring(EthtoolRingAttrView),
    Coalesce(EthtoolCoalesceAttrView),
    TsInfo(EthtoolTsInfoAttrView),
    Fec(EthtoolFecAttrView),
    Channel(EthtoolChannelAttrView),
    ModuleEEPROM(EthtoolModuleEEPROMAttrView),
    CableTestTdrAction(EthtoolCableTestTdrActionAttrView),
    CableTestTdrNotify(EthtoolCableTestTdrNotifyAttrView),
}

impl View for EthtoolAttr {
    type V = EthtoolAttrView;

    open spec fn view(&self) -> EthtoolAttrView {
        match self {
            EthtoolAttr::Pause(a) => EthtoolAttrView::Pause(a@),
            EthtoolAttr::Feature(a) => EthtoolAttrView::Feature(a@),
            EthtoolAttr::LinkMode(a) => EthtoolAttrView::LinkMode(a@),
            EthtoolAttr::Ring(a) => EthtoolAttrView::Ring(a@),
            EthtoolAttr::Coalesce(a) => EthtoolAttrView::Coalesce(a@),
            EthtoolAttr::TsInfo(a) => EthtoolAttrView::TsInfo(a@),
            EthtoolAttr::Fec(a) => EthtoolAttrView::Fec(a@),
            EthtoolAttr::Channel(a) => EthtoolAttrView::Channel(a@),
            EthtoolAttr::ModuleEEPROM(a) => EthtoolAttrView::ModuleEEPROM(a@),
            EthtoolAttr::CableTestTdrAction(a) => EthtoolAttrView::CableTestTdrAction(a@),
            EthtoolAttr::CableTestTdrNotify(a) => EthtoolAttrView::CableTestTdrNotify(a@),
        }
    }
}

impl DeepView for EthtoolAttr {
    type V = EthtoolAttrView;

    open spec fn deep_view(&self) -> EthtoolAttrView {
        self.view()
    }
}

impl EthtoolAttrView {
    /// The wire type field, as the contained feature attribute defines
    /// it.
    pub open spec fn spec_kind(self) -> u16 {
        match self {
            EthtoolAttrView::Pause(a) => a.spec_kind(),
            EthtoolAttrView::Feature(a) => a.spec_kind(),
            EthtoolAttrView::LinkMode(a) => a.spec_kind(),
            EthtoolAttrView::Ring(a) => a.spec_kind(),
            EthtoolAttrView::Coalesce(a) => a.spec_kind(),
            EthtoolAttrView::TsInfo(a) => a.spec_kind(),
            EthtoolAttrView::Fec(a) => a.spec_kind(),
            EthtoolAttrView::Channel(a) => a.spec_kind(),
            EthtoolAttrView::ModuleEEPROM(a) => a.spec_kind(),
            EthtoolAttrView::CableTestTdrAction(a) => a.spec_kind(),
            EthtoolAttrView::CableTestTdrNotify(a) => a.spec_kind(),
        }
    }

    /// The wire value bytes, as the contained feature attribute defines
    /// them.
    pub open spec fn spec_value(self) -> Seq<u8> {
        match self {
            EthtoolAttrView::Pause(a) => a.spec_value(),
            EthtoolAttrView::Feature(a) => a.spec_value(),
            EthtoolAttrView::LinkMode(a) => a.spec_value(),
            EthtoolAttrView::Ring(a) => a.spec_value(),
            EthtoolAttrView::Coalesce(a) => a.spec_value(),
            EthtoolAttrView::TsInfo(a) => a.spec_value(),
            EthtoolAttrView::Fec(a) => a.spec_value(),
            EthtoolAttrView::Channel(a) => a.spec_value(),
            EthtoolAttrView::ModuleEEPROM(a) => a.spec_value(),
            EthtoolAttrView::CableTestTdrAction(a) => a.spec_value(),
            EthtoolAttrView::CableTestTdrNotify(a) => a.spec_value(),
        }
    }

    pub open spec fn wf(self) -> bool {
        match self {
            EthtoolAttrView::Pause(a) => a.wf(),
            EthtoolAttrView::Feature(a) => a.wf(),
            EthtoolAttrView::LinkMode(a) => a.wf(),
            EthtoolAttrView::Ring(a) => a.wf(),
            EthtoolAttrView::Coalesce(a) => a.wf(),
            EthtoolAttrView::TsInfo(a) => a.wf(),
            EthtoolAttrView::Fec(a) => a.wf(),
            EthtoolAttrView::Channel(a) => a.wf(),
            EthtoolAttrView::ModuleEEPROM(a) => a.wf(),
            EthtoolAttrView::CableTestTdrAction(a) => a.wf(),
            EthtoolAttrView::CableTestTdrNotify(a) => a.wf(),
        }
    }
}

impl EthtoolAttr {
    /// The wire type field of this attribute.
    pub fn kind(&self) -> (r: u16)
        ensures
            r == self@.spec_kind(),
    {
        match self {
            EthtoolAttr::Pause(a) => a.kind(),
            EthtoolAttr::Feature(a) => a.kind(),
            EthtoolAttr::LinkMode(a) => a.kind(),
            EthtoolAttr::Ring(a) => a.kind(),
            EthtoolAttr::Coalesce(a) => a.kind(),
            EthtoolAttr::TsInfo(a) => a.kind(),
            EthtoolAttr::Fec(a) => a.kind(),
            EthtoolAttr::Channel(a) => a.kind(),
            EthtoolAttr::ModuleEEPROM(a) => a.kind(),
            EthtoolAttr::CableTestTdrAction(a) => a.kind(),
            EthtoolAttr::CableTestTdrNotify(a) => a.kind(),
        }
    }

    /// Appends this attribute's value bytes.
    pub fn emit_value(&self, out: &mut Vec<u8>)
        requires
            self@.wf(),
        ensures
            final(out)@ == old(out)@ + self@.spec_value(),
    {
        match self {
            EthtoolAttr::Pause(a) => a.emit_value(out),
            EthtoolAttr::Feature(a) => a.emit_value(out),
            EthtoolAttr::LinkMode(a) => a.emit_value(out),
            EthtoolAttr::Ring(a) => a.emit_value(out),
            EthtoolAttr::Coalesce(a) => a.emit_value(out),
            EthtoolAttr::TsInfo(a) => a.emit_value(out),
            EthtoolAttr::Fec(a) => a.emit_value(out),
            EthtoolAttr::Channel(a) => a.emit_value(out),
            EthtoolAttr::ModuleEEPROM(a) => a.emit_value(out),
            EthtoolAttr::CableTestTdrAction(a) => a.emit_value(out),
            EthtoolAttr::CableTestTdrNotify(a) => a.emit_value(out),
        }
    }

    /// The exact number of value bytes this attribute encodes to,
    /// excluding the record header.
    pub fn value_len(&self) -> (r: usize)
        requires
            self@.wf(),
        ensures
            r == self@.spec_value().len(),
    {
        match self {
            EthtoolAttr::Pause(a) => nla_value_len(a),
            EthtoolAttr::Feature(a) => nla_value_len(a),
            EthtoolAttr::LinkMode(a) => nla_value_len(a),
            EthtoolAttr::Ring(a) => nla_value_len(a),
            EthtoolAttr::Coalesce(a) => nla_value_len(a),
            EthtoolAttr::TsInfo(a) => nla_value_len(a),
            EthtoolAttr::Fec(a) => nla_value_len(a),
            EthtoolAttr::Channel(a) => nla_value_len(a),
            EthtoolAttr::ModuleEEPROM(a) => nla_value_len(a),
            EthtoolAttr::CableTestTdrAction(a) => nla_value_len(a),
            EthtoolAttr::CableTestTdrNotify(a) => nla_value_len(a),
        }
    }

    /// Whether this attribute can be encoded. Total, so that
    /// unverified callers can test the precondition of the encoders.
    pub fn check_wf(&self) -> (b: bool)
        ensures
            b == self@.wf(),
    {
        match self {
            EthtoolAttr::Pause(a) => a.check_wf(),
            EthtoolAttr::Feature(a) => a.check_wf(),
            EthtoolAttr::LinkMode(a) => a.check_wf(),
            EthtoolAttr::Ring(a) => a.check_wf(),
            EthtoolAttr::Coalesce(a) => a.check_wf(),
            EthtoolAttr::TsInfo(a) => a.check_wf(),
            EthtoolAttr::Fec(a) => a.check_wf(),
            EthtoolAttr::Channel(a) => a.check_wf(),
            EthtoolAttr::ModuleEEPROM(a) => a.check_wf(),
            EthtoolAttr::CableTestTdrAction(a) => a.check_wf(),
            EthtoolAttr::CableTestTdrNotify(a) => a.check_wf(),
        }
    }

    /// Appends this attribute's full record: header, value and padding.
    pub fn emit(&self, out: &mut Vec<u8>)
        requires
            self@.wf(),
        ensures
            final(out)@ == old(out)@ + spec_record_bytes(self@.spec_kind(), self@.spec_value()),
    {
        match self {
            EthtoolAttr::Pause(a) => emit_nla(a, out),
            EthtoolAttr::Feature(a) => emit_nla(a, out),
            EthtoolAttr::LinkMode(a) => emit_nla(a, out),
            EthtoolAttr::Ring(a) => emit_nla(a, out),
            EthtoolAttr::Coalesce(a) => emit_nla(a, out),
            EthtoolAttr::TsInfo(a) => emit_nla(a, out),
            EthtoolAttr::Fec(a) => emit_nla(a, out),
            EthtoolAttr::Channel(a) => emit_nla(a, out),
            EthtoolAttr::ModuleEEPROM(a) => emit_nla(a, out),
            EthtoolAttr::CableTestTdrAction(a) => emit_nla(a, out),
            EthtoolAttr::CableTestTdrNotify(a) => emit_nla(a, out),
        }
    }
}

/// The wire bytes of a message's attribute list, in list order:
/// encoding keeps the order in which attributes were appended.
pub open spec fn spec_emit_attr_list(vs: Seq<EthtoolAttrView>) -> Seq<u8> {
    spec_emit_nla_list(
        vs,
        |v: EthtoolAttrView| v.spec_kind(),
        |v: EthtoolAttrView| v.spec_value(),
    )
}

pub open spec fn attr_list_wf(vs: Seq<EthtoolAttrView>) -> bool {
    forall|i: int| 0 <= i < vs.len() ==> (#[trigger] vs[i]).wf()
}

/// Appends the records of a message's attribute list.
pub fn emit_attr_list(vs: &Vec<EthtoolAttr>, out: &mut Vec<u8>)
    requires
        attr_list_wf(vs.deep_view()),
    ensures
        final(out)@ == old(out)@ + spec_emit_attr_list(vs.deep_view()),
{
    let ghost views = vs.deep_view();
    let mut i: usize = 0;
    proof {
        assert(views.take(0) =~= Seq::<EthtoolAttrView>::empty());
        assert(spec_emit_attr_list(views.take(0)) =~= Seq::<u8>::empty());
        assert(out@ + Seq::<u8>::empty() =~= out@);
    }
    while i < vs.len()
        invariant
            i <= vs.len(),
            views == vs.deep_view(),
            attr_list_wf(views),
            out@ == old(out)@ + spec_emit_attr_list(views.take(i as int)),
        decreases vs.len() - i,
    {
        proof {
            lemma_emit_nla_list_take_step(
                views,
                i as int,
                |v: EthtoolAttrView| v.spec_kind(),
                |v: EthtoolAttrView| v.spec_value(),
            );
            assert(views[i as int] == vs[i as int].deep_view());
        }
        vs[i].emit(out);
        proof {
            assert(out@ =~= old(out)@ + spec_emit_attr_list(views.take(i as int + 1)));
        }
        i = i + 1;
    }
    proof {
        assert(views.take(i as int) =~= views);
    }
}

/// The Channel attribute inside a message attribute; meaningless for
/// other feature objects.
pub open spec fn spec_channel_of_attr(a: EthtoolAttrView) -> EthtoolChannelAttrView {
    match a {
        EthtoolAttrView::Channel(c) => c,
        _ => vstd::pervasive::arbitrary(),
    }
}

/// A whole ethtool message: the command and its ordered attribute list.
#[derive(Debug, PartialEq, Eq, Clone)]
pub struct EthtoolMessage {
    pub cmd: EthtoolCmd,
    pub nlas: Vec<EthtoolAttr>,
}

/// The mathematical model of a message.
pub struct EthtoolMessageView {
    pub cmd: EthtoolCmd,
    pub nlas: Seq<EthtoolAttrView>,
}

impl View for EthtoolMessage {
    type V = EthtoolMessageView;

    open spec fn view(&self) -> EthtoolMessageView {
        EthtoolMessageView { cmd: self.cmd, nlas: self.nlas.deep_view() }
    }
}

impl DeepView for EthtoolMessage {
    type V = EthtoolMessageView;

    open spec fn deep_view(&self) -> EthtoolMessageView {
        self.view()
    }
}

impl EthtoolMessageView {
    pub open spec fn wf(self) -> bool {
        attr_list_wf(self.nlas)
    }

    /// The payload bytes of the message: its attribute records in
    /// order. The generic-netlink header that carries the command code
    /// is the transport's business.
    pub open spec fn spec_bytes(self) -> Seq<u8> {
        spec_emit_attr_list(self.nlas)
    }
}

/// The header list of a request: the device name when one interface is
/// asked about, and empty to ask for a dump of all interfaces.
pub open spec fn spec_header_nlas(iface_name: Option<Seq<char>>) -> Seq<EthtoolHeaderView> {
    match iface_name {
        Some(n) => seq![EthtoolHeaderView::DevName(n)],
        None => seq![],
    }
}

/// Builds the header list of a request.
fn header_nlas(iface_name: Option<&str>) -> (r: Vec<EthtoolHeader>)
    requires
        iface_name matches Some(s) ==> s@.len() <= 0x3000,
    ensures
        r.deep_view() == spec_header_nlas(iface_name.deep_view()),
        header_list_wf(r.deep_view()),
        spec_emit_header_list(r.deep_view()).len() + NLA_HEADER_SIZE <= 0xffff,
{
    let mut hs: Vec<EthtoolHeader> = Vec::new();
    match iface_name {
        Some(s) => {
            hs.push(EthtoolHeader::DevName(s.to_owned()));
            proof {
                let hv = EthtoolHeaderView::DevName(s@);
                lemma_encode_utf8_len(s@);
                assert(hv.spec_value() == spec_string_bytes(s@));
                assert(hv.spec_value().len() <= 4 * 0x3000 + 1);
                assert(hv.wf());
                assert(hs.deep_view() =~= seq![hv]);
                assert(header_list_wf(hs.deep_view()));
                let recs = spec_attr_records(
                    hs.deep_view(),
                    |h: EthtoolHeaderView| EthtoolHeader::spec_kind_of(h),
                    |h: EthtoolHeaderView| EthtoolHeader::spec_value_of(h),
                );
                assert(recs.len() == 1 && recs[0].value == hv.spec_value());
                lemma_records_bytes_len_bound(recs, (4 * 0x3000 + 1) as int);
            }
        },
        None => {
            proof {
                assert(hs.deep_view() =~= Seq::<EthtoolHeaderView>::empty());
                assert(spec_emit_header_list(hs.deep_view()) =~= Seq::<u8>::empty());
            }
        },
    }
    hs
}

impl EthtoolMessage {
    /// The name of the generic-netlink family this crate speaks.
    pub fn family_name() -> (r: &'static str)
        ensures
            r@ == "ethtool"@,
    {
        "ethtool"
    }

    /// The version of the family's protocol.
    pub fn version(&self) -> (r: u8)
        ensures
            r == 1,
    {
        1
    }

    /// The wire code of this message's command.
    pub fn command(&self) -> (r: u8)
        ensures
            r == spec_cmd_code(self@.cmd),
    {
        self.cmd.code()
    }

    /// The exact number of payload bytes the message encodes to.
    pub fn buffer_len(&self) -> (r: usize)
        requires
            self@.wf(),
        ensures
            r == self@.spec_bytes().len(),
    {
        let mut tmp: Vec<u8> = Vec::new();
        self.emit(&mut tmp);
        assert(tmp@ =~= self@.spec_bytes());
        tmp.len()
    }

    /// Whether every attribute of this message can be encoded: the
    /// test of `emit`'s precondition for unverified callers. Every
    /// message the builders and decoders of this crate hand out whose
    /// attributes are encodable passes; one holding a decode-only or
    /// oversized attribute does not.
    pub fn is_wf(&self) -> (b: bool)
        ensures
            b == self@.wf(),
    {
        let mut i: usize = 0;
        while i < self.nlas.len()
            invariant
                i <= self.nlas@.len(),
                forall|k: int| 0 <= k < i ==> (#[trigger] self@.nlas[k]).wf(),
            decreases self.nlas@.len() - i,
        {
            proof {
                assert(self@.nlas[i as int] == self.nlas[i as int]@);
            }
            if !self.nlas[i].check_wf() {
                return false;
            }
            i = i + 1;
        }
        true
    }

    /// Appends the message's payload bytes: its attribute records, in
    /// the order they were appended.
    pub fn emit(&self, out: &mut Vec<u8>)
        requires
            self@.wf(),
        ensures
            final(out)@ == old(out)@ + self@.spec_bytes(),
    {
        emit_attr_list(&self.nlas, out)
    }

    /// Builds a Pause get request: one header attribute naming the
    /// interface, or an empty header to ask for all interfaces.
    pub fn new_pause_get(iface_name: Option<&str>) -> (r: Self)
        requires
            iface_name matches Some(s) ==> s@.len() <= 0x3000,
        ensures
            r@.cmd == EthtoolCmd::PauseGet,
            r@.nlas == seq![
                EthtoolAttrView::Pause(EthtoolPauseAttrView::Header(
                    spec_header_nlas(iface_name.deep_view()),
                )),
            ],
            r@.wf(),
    {
        let hdrs = header_nlas(iface_name);
        let mut nlas: Vec<EthtoolAttr> = Vec::new();
        nlas.push(EthtoolAttr::Pause(EthtoolPauseAttr::Header(hdrs)));
        proof {
            let av = EthtoolAttrView::Pause(
                EthtoolPauseAttrView::Header(spec_header_nlas(iface_name.deep_view())),
            );
            assert(nlas.deep_view() =~= seq![av]);
            assert(av.wf());
            assert(attr_list_wf(nlas.deep_view()));
        }
        EthtoolMessage { cmd: EthtoolCmd::PauseGet, nlas }
    }

    /// Builds a Feature get request: one header attribute naming the
    /// interface, or an empty header to ask for all interfaces.
    pub fn new_feature_get(iface_name: Option<&str>) -> (r: Self)
        requires
            iface_name matches Some(s) ==> s@.len() <= 0x3000,
        ensures
            r@.cmd == EthtoolCmd::FeatureGet,
            r@.nlas == seq![
                EthtoolAttrView::Feature(EthtoolFeatureAttrView::Header(
                    spec_header_nlas(iface_name.deep_view()),
                )),
            ],
            r@.wf(),
    {
        let hdrs = header_nlas(iface_name);
        let mut nlas: Vec<EthtoolAttr> = Vec::new();
        nlas.push(EthtoolAttr::Feature(EthtoolFeatureAttr::Header(hdrs)));
        proof {
            let av = EthtoolAttrView::Feature(
                EthtoolFeatureAttrView::Header(spec_header_nlas(iface_name.deep_view())),
            );
            assert(nlas.deep_view() =~= seq![av]);
            assert(av.wf());
            assert(attr_list_wf(nlas.deep_view()));
        }
        EthtoolMessage { cmd: EthtoolCmd::FeatureGet, nlas }
    }

    /// Builds a LinkMode get request: one header attribute naming the
    /// interface, or an empty header to ask for all interfaces.
    pub fn new_link_mode_get(iface_name: Option<&str>) -> (r: Self)
        requires
            iface_name matches Some(s) ==> s@.len() <= 0x3000,
        ensures
            r@.cmd == EthtoolCmd::LinkModeGet,
            r@.nlas == seq![
                EthtoolAttrView::LinkMode(EthtoolLinkModeAttrView::Header(
                    spec_header_nlas(iface_name.deep_view()),
                )),
            ],
            r@.wf(),
    {
        let hdrs = header_nlas(iface_name);
        let mut nlas: Vec<EthtoolAttr> = Vec::new();
        nlas.push(EthtoolAttr::LinkMode(EthtoolLinkModeAttr::Header(hdrs)));
        proof {
            let av = EthtoolAttrView::LinkMode(
                EthtoolLinkModeAttrView::Header(spec_header_nlas(iface_name.deep_view())),
            );
            assert(nlas.deep_view() =~= seq![av]);
            assert(av.wf());
            assert(attr_list_wf(nlas.deep_view()));
        }
        EthtoolMessage { cmd: EthtoolCmd::LinkModeGet, nlas }
    }

    /// Builds a Ring get request: one header attribute naming the
    /// interface, or an empty header to ask for all interfaces.
    pub fn new_ring_get(iface_name: Option<&str>) -> (r: Self)
        requires
            iface_name matches Some(s) ==> s@.len() <= 0x3000,
        ensures
            r@.cmd == EthtoolCmd::RingGet,
            r@.nlas == seq![
                EthtoolAttrView::Ring(EthtoolRingAttrView::Header(
                    spec_header_nlas(iface_name.deep_view()),
                )),
            ],
            r@.wf(),
    {
        let hdrs = header_nlas(iface_name);
        let mut nlas: Vec<EthtoolAttr> = Vec::new();
        nlas.push(EthtoolAttr::Ring(EthtoolRingAttr::Header(hdrs)));
        proof {
            let av = EthtoolAttrView::Ring(
                EthtoolRingAttrView::Header(spec_header_nlas(iface_name.deep_view())),
            );
            assert(nlas.deep_view() =~= seq![av]);
            assert(av.wf());
            assert(attr_list_wf(nlas.deep_view()));
        }
        EthtoolMessage { cmd: EthtoolCmd::RingGet, nlas }
    }

    /// Builds a Coalesce get request: one header attribute naming the
    /// interface, or an empty header to ask for all interfaces.
    pub fn new_coalesce_get(iface_name: Option<&str>) -> (r: Self)
        requires
            iface_name matches Some(s) ==> s@.len() <= 0x3000,
        ensures
            r@.cmd == EthtoolCmd::CoalesceGet,
            r@.nlas == seq![
                EthtoolAttrView::Coalesce(EthtoolCoalesceAttrView::Header(
                    spec_header_nlas(iface_name.deep_view()),
                )),
            ],
            r@.wf(),
    {
        let hdrs = header_nlas(iface_name);
        let mut nlas: Vec<EthtoolAttr> = Vec::new();
        nlas.push(EthtoolAttr::Coalesce(EthtoolCoalesceAttr::Header(hdrs)));
        proof {
            let av = EthtoolAttrView::Coalesce(
                EthtoolCoalesceAttrView::Header(spec_header_nlas(iface_name.deep_view())),
            );
            assert(nlas.deep_view() =~= seq![av]);
            assert(av.wf());
            assert(attr_list_wf(nlas.deep_view()));
        }
        EthtoolMessage { cmd: EthtoolCmd::CoalesceGet, nlas }
    }

    /// Builds a TsInfo get request: one header attribute naming the
    /// interface, or an empty header to ask for all interfaces.
    pub fn new_tsinfo_get(iface_name: Option<&str>) -> (r: Self)
        requires
            iface_name matches Some(s) ==> s@.len() <= 0x3000,
        ensures
            r@.cmd == EthtoolCmd::TsInfoGet,
            r@.nlas == seq![
                EthtoolAttrView::TsInfo(EthtoolTsInfoAttrView::Header(
                    spec_header_nlas(iface_name.deep_view()),
                )),
            ],
            r@.wf(),
    {
        let hdrs = header_nlas(iface_name);
        let mut nlas: Vec<EthtoolAttr> = Vec::new();
        nlas.push(EthtoolAttr::TsInfo(EthtoolTsInfoAttr::Header(hdrs)));
        proof {
            let av = EthtoolAttrView::TsInfo(
                EthtoolTsInfoAttrView::Header(spec_header_nlas(iface_name.deep_view())),
            );
            assert(nlas.deep_view() =~= seq![av]);
            assert(av.wf());
            assert(attr_list_wf(nlas.deep_view()));
        }
        EthtoolMessage { cmd: EthtoolCmd::TsInfoGet, nlas }
    }

    /// Builds a FEC get request: one header attribute naming the
    /// interface, or an empty header to ask for all interfaces.
    pub fn new_fec_get(iface_name: Option<&str>) -> (r: Self)
        requires
            iface_name matches Some(s) ==> s@.len() <= 0x3000,
        ensures
            r@.cmd == EthtoolCmd::FecGet,
            r@.nlas == seq![
                EthtoolAttrView::Fec(EthtoolFecAttrView::Header(
                    spec_header_nlas(iface_name.deep_view()),
                )),
            ],
            r@.wf(),
    {
        let hdrs = header_nlas(iface_name);
        let mut nlas: Vec<EthtoolAttr> = Vec::new();
        nlas.push(EthtoolAttr::Fec(EthtoolFecAttr::Header(hdrs)));
        proof {
            let av = EthtoolAttrView::Fec(
                EthtoolFecAttrView::Header(spec_header_nlas(iface_name.deep_view())),
            );
            assert(nlas.deep_view() =~= seq![av]);
            assert(av.wf());
            assert(attr_list_wf(nlas.deep_view()));
        }
        EthtoolMessage { cmd: EthtoolCmd::FecGet, nlas }
    }

    /// Builds a Channel get request: one header attribute naming the
    /// interface, or an empty header to ask for all interfaces.
    pub fn new_channel_get(iface_name: Option<&str>) -> (r: Self)
        requires
            iface_name matches Some(s) ==> s@.len() <= 0x3000,
        ensures
            r@.cmd == EthtoolCmd::ChannelGet,
            r@.nlas == seq![
                EthtoolAttrView::Channel(EthtoolChannelAttrView::Header(
                    spec_header_nlas(iface_name.deep_view()),
                )),
            ],
            r@.wf(),
    {
        let hdrs = header_nlas(iface_name);
        let mut nlas: Vec<EthtoolAttr> = Vec::new();
        nlas.push(EthtoolAttr::Channel(EthtoolChannelAttr::Header(hdrs)));
        proof {
            let av = EthtoolAttrView::Channel(
                EthtoolChannelAttrView::Header(spec_header_nlas(iface_name.deep_view())),
            );
            assert(nlas.deep_view() =~= seq![av]);
            assert(av.wf());
            assert(attr_list_wf(nlas.deep_view()));
        }
        EthtoolMessage { cmd: EthtoolCmd::ChannelGet, nlas }
    }

    /// Builds a Channel set request: the header names the interface;
    /// the caller appends the counts to change.
    pub fn new_channel_set(iface_name: &str) -> (r: Self)
        requires
            iface_name@.len() <= 0x3000,
        ensures
            r@.cmd == EthtoolCmd::ChannelSet,
            r@.nlas == seq![
                EthtoolAttrView::Channel(EthtoolChannelAttrView::Header(
                    spec_header_nlas(Some(iface_name@)),
                )),
            ],
            r@.wf(),
    {
        let hdrs = header_nlas(Some(iface_name));
        let mut nlas: Vec<EthtoolAttr> = Vec::new();
        nlas.push(EthtoolAttr::Channel(EthtoolChannelAttr::Header(hdrs)));
        proof {
            let av = EthtoolAttrView::Channel(
                EthtoolChannelAttrView::Header(spec_header_nlas(Some(iface_name@))),
            );
            assert(nlas.deep_view() =~= seq![av]);
            assert(av.wf());
            assert(attr_list_wf(nlas.deep_view()));
        }
        EthtoolMessage { cmd: EthtoolCmd::ChannelSet, nlas }
    }

    /// The attribute list of a module-EEPROM page request.
    pub open spec fn spec_module_eeprom_nlas(
        iface_name: Option<Seq<char>>,
        offset: u32,
        length: u32,
        page: u8,
        bank: u8,
        i2c_address: u8,
    ) -> Seq<EthtoolAttrView> {
        seq![
            EthtoolAttrView::ModuleEEPROM(EthtoolModuleEEPROMAttrView::Header(
                spec_header_nlas(iface_name),
            )),
            EthtoolAttrView::ModuleEEPROM(EthtoolModuleEEPROMAttrView::Offset(offset)),
            EthtoolAttrView::ModuleEEPROM(EthtoolModuleEEPROMAttrView::Length(length)),
            EthtoolAttrView::ModuleEEPROM(EthtoolModuleEEPROMAttrView::Page(page)),
            EthtoolAttrView::ModuleEEPROM(EthtoolModuleEEPROMAttrView::Bank(bank)),
            EthtoolAttrView::ModuleEEPROM(EthtoolModuleEEPROMAttrView::I2CAddress(i2c_address)),
        ]
    }

    /// Builds a module-EEPROM get request for one page of the module's
    /// EEPROM.
    pub fn new_module_eeprom_get(
        iface_name: Option<&str>,
        offset: u32,
        length: u32,
        page: u8,
        bank: u8,
        i2c_address: u8,
    ) -> (r: Self)
        requires
            iface_name matches Some(s) ==> s@.len() <= 0x3000,
        ensures
            r@.cmd == EthtoolCmd::ModuleEEPROMGet,
            r@.nlas == Self::spec_module_eeprom_nlas(
                iface_name.deep_view(),
                offset,
                length,
                page,
                bank,
                i2c_address,
            ),
            r@.wf(),
    {
        let hdrs = header_nlas(iface_name);
        let mut nlas: Vec<EthtoolAttr> = Vec::new();
        nlas.push(EthtoolAttr::ModuleEEPROM(EthtoolModuleEEPROMAttr::Header(hdrs)));
        nlas.push(EthtoolAttr::ModuleEEPROM(EthtoolModuleEEPROMAttr::Offset(offset)));
        nlas.push(EthtoolAttr::ModuleEEPROM(EthtoolModuleEEPROMAttr::Length(length)));
        nlas.push(EthtoolAttr::ModuleEEPROM(EthtoolModuleEEPROMAttr::Page(page)));
        nlas.push(EthtoolAttr::ModuleEEPROM(EthtoolModuleEEPROMAttr::Bank(bank)));
        nlas.push(EthtoolAttr::ModuleEEPROM(EthtoolModuleEEPROMAttr::I2CAddress(i2c_address)));
        proof {
            lemma_auto_spec_u32_to_from_le_bytes();
            assert(nlas.deep_view() =~= Self::spec_module_eeprom_nlas(
                iface_name.deep_view(),
                offset,
                length,
                page,
                bank,
                i2c_address,
            ));
            assert forall|i: int| 0 <= i < nlas.deep_view().len() implies (#[trigger] nlas.deep_view()[i]).wf() by {}
        }
        EthtoolMessage { cmd: EthtoolCmd::ModuleEEPROMGet, nlas }
    }

    /// The model of a TDR cable-test action request: the header naming
    /// the interface, then the configuration record when one is given.
    pub open spec fn spec_cable_test_tdr(
        iface_name: Seq<char>,
        config: Option<EthtoolCableTestTdrConfig>,
    ) -> EthtoolMessageView {
        EthtoolMessageView {
            cmd: EthtoolCmd::CableTestTdrAct,
            nlas: seq![
                EthtoolAttrView::CableTestTdrAction(EthtoolCableTestTdrActionAttrView::Header(
                    spec_header_nlas(Some(iface_name)),
                )),
            ] + (match config {
                Some(c) => seq![
                    EthtoolAttrView::CableTestTdrAction(EthtoolCableTestTdrActionAttrView::Config(
                        spec_config_attrs(c),
                    )),
                ],
                None => seq![],
            }),
        }
    }

    /// Builds a TDR cable-test action request.
    pub fn new_cable_test_tdr(
        iface_name: &str,
        config: Option<EthtoolCableTestTdrConfig>,
    ) -> (r: Self)
        requires
            iface_name@.len() <= 0x3000,
        ensures
            r@ == Self::spec_cable_test_tdr(iface_name@, config),
            r@.wf(),
    {
        let hdrs = header_nlas(Some(iface_name));
        let ghost hview = EthtoolAttrView::CableTestTdrAction(
            EthtoolCableTestTdrActionAttrView::Header(spec_header_nlas(Some(iface_name@))),
        );
        let mut nlas: Vec<EthtoolAttr> = Vec::new();
        nlas.push(
            EthtoolAttr::CableTestTdrAction(EthtoolCableTestTdrActionAttr::Header(hdrs)),
        );
        proof {
            assert(hview.wf());
        }
        match config {
            Some(c) => {
                let mut cfg: Vec<EthtoolCableTestTdrConfigAttr> = Vec::new();
                match c.first {
                    Some(v) => cfg.push(EthtoolCableTestTdrConfigAttr::First(v)),
                    None => {},
                }
                match c.last {
                    Some(v) => cfg.push(EthtoolCableTestTdrConfigAttr::Last(v)),
                    None => {},
                }
                match c.step {
                    Some(v) => cfg.push(EthtoolCableTestTdrConfigAttr::Step(v)),
                    None => {},
                }
                match c.pair {
                    Some(p) => cfg.push(EthtoolCableTestTdrConfigAttr::Pair(p)),
                    None => {},
                }
                proof {
                    assert(cfg.deep_view() =~= spec_config_attrs(c));
                }
                nlas.push(
                    EthtoolAttr::CableTestTdrAction(EthtoolCableTestTdrActionAttr::Config(cfg)),
                );
                proof {
                    lemma_auto_spec_u32_to_from_le_bytes();
                    let cv = spec_config_attrs(c);
                    assert forall|i: int| 0 <= i < cv.len() implies (#[trigger] cv[i]).wf() by {}
                    let recs = spec_attr_records(
                        cv,
                        |a: EthtoolCableTestTdrConfigAttrView| EthtoolCableTestTdrConfigAttr::spec_kind_of(a),
                        |a: EthtoolCableTestTdrConfigAttrView| EthtoolCableTestTdrConfigAttr::spec_value_of(a),
                    );
                    assert forall|i: int| 0 <= i < recs.len() implies
                        (#[trigger] recs[i].value).len() <= 4 by {
                        assert(recs[i].value == cv[i].spec_value());
                    }
                    lemma_records_bytes_len_bound(recs, 4);
                    assert(recs.len() <= 4);
                    assert(EthtoolAttrView::CableTestTdrAction(
                        EthtoolCableTestTdrActionAttrView::Config(cv),
                    ).wf());
                }
            },
            None => {},
        }
        proof {
            let mv = Self::spec_cable_test_tdr(iface_name@, config);
            assert(nlas.deep_view() =~= mv.nlas);
            assert forall|i: int| 0 <= i < nlas.deep_view().len() implies
                (#[trigger] nlas.deep_view()[i]).wf() by {
                if i == 0 {
                    assert(nlas.deep_view()[0] == hview);
                } else {
                    assert(i == 1);
                    assert(config matches Some(c) ==> nlas.deep_view()[1]
                        == EthtoolAttrView::CableTestTdrAction(
                        EthtoolCableTestTdrActionAttrView::Config(spec_config_attrs(c)),
                    ));
                }
            }
        }
        EthtoolMessage { cmd: EthtoolCmd::CableTestTdrAct, nlas }
    }

    /// Decodes a reply's payload under its command code. The command
    /// must be one of the reply codes this crate has a decoder for;
    /// any other code is an unsupported reply command, a permanent
    /// decode failure naming that code.
    pub open spec fn spec_parse_with_param(b: Seq<u8>, cmd: u8) -> Result<
        EthtoolMessageView,
        DecodeError,
    > {
        if cmd == ETHTOOL_MSG_PAUSE_GET_REPLY {
            Self::spec_reply(EthtoolCmd::PauseGetReply, crate::pause::spec_parse_pause_nlas(b))
        } else if cmd == ETHTOOL_MSG_FEATURES_GET_REPLY {
            Self::spec_reply(
                EthtoolCmd::FeatureGetReply,
                crate::feature::spec_parse_feature_nlas(b),
            )
        } else if cmd == ETHTOOL_MSG_LINKMODES_GET_REPLY {
            Self::spec_reply(
                EthtoolCmd::LinkModeGetReply,
                crate::link_mode::spec_parse_link_mode_nlas(b),
            )
        } else if cmd == ETHTOOL_MSG_RINGS_GET_REPLY {
            Self::spec_reply(EthtoolCmd::RingGetReply, crate::ring::spec_parse_ring_nlas(b))
        } else if cmd == ETHTOOL_MSG_COALESCE_GET_REPLY {
            Self::spec_reply(
                EthtoolCmd::CoalesceGetReply,
                crate::coalesce::spec_parse_coalesce_nlas(b),
            )
        } else if cmd == ETHTOOL_MSG_TSINFO_GET_REPLY {
            Self::spec_reply(EthtoolCmd::TsInfoGetReply, crate::tsinfo::spec_parse_tsinfo_nlas(b))
        } else if cmd == ETHTOOL_MSG_FEC_GET_REPLY {
            Self::spec_reply(EthtoolCmd::FecGetReply, crate::fec::spec_parse_fec_nlas(b))
        } else if cmd == ETHTOOL_MSG_CHANNELS_GET_REPLY {
            Self::spec_reply(
                EthtoolCmd::ChannelGetReply,
                crate::channel::spec_parse_channel_nlas(b),
            )
        } else if cmd == ETHTOOL_MSG_MODULE_EEPROM_GET_REPLY {
            Self::spec_reply(
                EthtoolCmd::ModuleEEPROMGetReply,
                crate::eeprom::spec_parse_module_eeprom_nlas(b),
            )
        } else if cmd == ETHTOOL_MSG_CABLE_TEST_TDR_NTF {
            Self::spec_reply(
                EthtoolCmd::CableTestTdrNtf,
                crate::cable_test_tdr::spec_parse_cable_test_tdr_notify_nlas(b),
            )
        } else {
            Err(DecodeError::UnsupportedReplyCommand { cmd })
        }
    }

    /// A decoded attribute list under its reply command.
    pub open spec fn spec_reply(
        cmd: EthtoolCmd,
        r: Result<Seq<EthtoolAttrView>, DecodeError>,
    ) -> Result<EthtoolMessageView, DecodeError> {
        match r {
            Ok(nlas) => Ok(EthtoolMessageView { cmd, nlas }),
            Err(e) => Err(e),
        }
    }

    /// Decodes a reply's payload under the command code of its
    /// generic-netlink header.
    pub fn parse_with_param(buffer: &[u8], cmd: u8) -> (r: Result<EthtoolMessage, DecodeError>)
        ensures
            match r {
                Ok(m) => Self::spec_parse_with_param(buffer@, cmd) == Ok::<
                    EthtoolMessageView,
                    DecodeError,
                >(m@),
                Err(e) => Self::spec_parse_with_param(buffer@, cmd) == Err::<
                    EthtoolMessageView,
                    DecodeError,
                >(e),
            },
    {
        if cmd == ETHTOOL_MSG_PAUSE_GET_REPLY {
            match crate::pause::parse_pause_nlas(buffer) {
                Ok(nlas) => Ok(EthtoolMessage { cmd: EthtoolCmd::PauseGetReply, nlas }),
                Err(e) => Err(e),
            }
        } else if cmd == ETHTOOL_MSG_FEATURES_GET_REPLY {
            match crate::feature::parse_feature_nlas(buffer) {
                Ok(nlas) => Ok(EthtoolMessage { cmd: EthtoolCmd::FeatureGetReply, nlas }),
                Err(e) => Err(e),
            }
        } else if cmd == ETHTOOL_MSG_LINKMODES_GET_REPLY {
            match crate::link_mode::parse_link_mode_nlas(buffer) {
                Ok(nlas) => Ok(EthtoolMessage { cmd: EthtoolCmd::LinkModeGetReply, nlas }),
                Err(e) => Err(e),
            }
        } else if cmd == ETHTOOL_MSG_RINGS_GET_REPLY {
            match crate::ring::parse_ring_nlas(buffer) {
                Ok(nlas) => Ok(EthtoolMessage { cmd: EthtoolCmd::RingGetReply, nlas }),
                Err(e) => Err(e),
            }
        } else if cmd == ETHTOOL_MSG_COALESCE_GET_REPLY {
            match crate::coalesce::parse_coalesce_nlas(buffer) {
                Ok(nlas) => Ok(EthtoolMessage { cmd: EthtoolCmd::CoalesceGetReply, nlas }),
                Err(e) => Err(e),
            }
        } else if cmd == ETHTOOL_MSG_TSINFO_GET_REPLY {
            match crate::tsinfo::parse_tsinfo_nlas(buffer) {
                Ok(nlas) => Ok(EthtoolMessage { cmd: EthtoolCmd::TsInfoGetReply, nlas }),
                Err(e) => Err(e),
            }
        } else if cmd == ETHTOOL_MSG_FEC_GET_REPLY {
            match crate::fec::parse_fec_nlas(buffer) {
                Ok(nlas) => Ok(EthtoolMessage { cmd: EthtoolCmd::FecGetReply, nlas }),
                Err(e) => Err(e),
            }
        } else if cmd == ETHTOOL_MSG_CHANNELS_GET_REPLY {
            match crate::channel::parse_channel_nlas(buffer) {
                Ok(nlas) => Ok(EthtoolMessage { cmd: EthtoolCmd::ChannelGetReply, nlas }),
                Err(e) => Err(e),
            }
        } else if cmd == ETHTOOL_MSG_MODULE_EEPROM_GET_REPLY {
            match crate::eeprom::parse_module_eeprom_nlas(buffer) {
                Ok(nlas) => Ok(EthtoolMessage { cmd: EthtoolCmd::ModuleEEPROMGetReply, nlas }),
                Err(e) => Err(e),
            }
        } else if cmd == ETHTOOL_MSG_CABLE_TEST_TDR_NTF {
            match crate::cable_test_tdr::parse_cable_test_tdr_notify_nlas(buffer) {
                Ok(nlas) => Ok(EthtoolMessage { cmd: EthtoolCmd::CableTestTdrNtf, nlas }),
                Err(e) => Err(e),
            }
        } else {
            Err(DecodeError::UnsupportedReplyCommand { cmd })
        }
    }
}

/// Round trip of a whole Channel reply: decoding the bytes that a
/// message encodes to, under the message's own command code, yields
/// exactly that message. It holds of every Channel reply whose
/// attributes are round-trippable: well-formed, and raw pass-through
/// only under type codes the codec does not know.
pub proof fn lemma_channel_reply_round_trip(m: EthtoolMessageView)
    requires
        m.cmd == EthtoolCmd::ChannelGetReply,
        forall|i: int|
            0 <= i < m.nlas.len() ==> match #[trigger] m.nlas[i] {
                EthtoolAttrView::Channel(a) => a.round_trippable(),
                _ => false,
            },
    ensures
        EthtoolMessage::spec_parse_with_param(m.spec_bytes(), spec_cmd_code(m.cmd)) == Ok::<
            EthtoolMessageView,
            DecodeError,
        >(m),
{
    let vs = m.nlas.map_values(|a: EthtoolAttrView| spec_channel_of_attr(a));
    assert(crate::nla::codec_list_rt::<EthtoolChannelAttr>(vs)) by {
        assert forall|i: int| 0 <= i < vs.len() implies EthtoolChannelAttr::spec_rt(
            #[trigger] vs[i],
        ) by {
            assert(vs[i] == spec_channel_of_attr(m.nlas[i]));
        }
    }
    assert(spec_attr_records(
        m.nlas,
        |v: EthtoolAttrView| v.spec_kind(),
        |v: EthtoolAttrView| v.spec_value(),
    ) =~= spec_attr_records(
        vs,
        |v: EthtoolChannelAttrView| EthtoolChannelAttr::spec_kind_of(v),
        |v: EthtoolChannelAttrView| EthtoolChannelAttr::spec_value_of(v),
    ));
    assert(m.spec_bytes() == crate::nla::spec_emit_codec_list::<EthtoolChannelAttr>(vs));
    crate::nla::lemma_codec_list_round_trip::<EthtoolChannelAttr>(vs);
    assert(vs.map_values(|a: EthtoolChannelAttrView| EthtoolAttrView::Channel(a)) =~= m.nlas);
    assert(crate::channel::spec_parse_channel_nlas(m.spec_bytes()) == Ok::<
        Seq<EthtoolAttrView>,
        DecodeError,
    >(m.nlas));
    assert(m == (EthtoolMessageView { cmd: EthtoolCmd::ChannelGetReply, nlas: m.nlas }));
}

/// Pass-through fidelity: a raw attribute of a type code the Channel
/// codec does not know decodes to a pass-through attribute that carries
/// exactly the original type code and payload bytes, so re-encoding it
/// reproduces the original record.
pub proof fn lemma_channel_unknown_attr_pass_through(kind: u16, value: Seq<u8>)
    requires
        !(1 <= kind & crate::nla::NLA_TYPE_MASK <= 9),
    ensures
        EthtoolChannelAttrView::spec_parse(kind, value) matches Ok(a) && a == EthtoolChannelAttrView::Other(
            DefaultNlaView { kind, value },
        ) && a.spec_kind() == kind && a.spec_value() == value,
{
}


/// The Pause attribute inside a message attribute; meaningless for
/// other feature objects.
pub open spec fn spec_pause_of_attr(a: EthtoolAttrView) -> EthtoolPauseAttrView {
    match a {
        EthtoolAttrView::Pause(c) => c,
        _ => vstd::pervasive::arbitrary(),
    }
}

/// Round trip of a whole Pause reply: decoding the bytes that a
/// message encodes to, under the message's own command code, yields
/// exactly that message. It holds of every such reply whose attributes
/// are round-trippable.
pub proof fn lemma_pause_reply_round_trip(m: EthtoolMessageView)
    requires
        m.cmd == EthtoolCmd::PauseGetReply,
        forall|i: int|
            0 <= i < m.nlas.len() ==> match #[trigger] m.nlas[i] {
                EthtoolAttrView::Pause(a) => a.round_trippable(),
                _ => false,
            },
    ensures
        EthtoolMessage::spec_parse_with_param(m.spec_bytes(), spec_cmd_code(m.cmd)) == Ok::<
            EthtoolMessageView,
            DecodeError,
        >(m),
{
    let vs = m.nlas.map_values(|a: EthtoolAttrView| spec_pause_of_attr(a));
    assert(crate::nla::codec_list_rt::<EthtoolPauseAttr>(vs)) by {
        assert forall|i: int| 0 <= i < vs.len() implies EthtoolPauseAttr::spec_rt(
            #[trigger] vs[i],
        ) by {
            assert(vs[i] == spec_pause_of_attr(m.nlas[i]));
        }
    }
    assert(spec_attr_records(
        m.nlas,
        |v: EthtoolAttrView| v.spec_kind(),
        |v: EthtoolAttrView| v.spec_value(),
    ) =~= spec_attr_records(
        vs,
        |v: EthtoolPauseAttrView| EthtoolPauseAttr::spec_kind_of(v),
        |v: EthtoolPauseAttrView| EthtoolPauseAttr::spec_value_of(v),
    ));
    assert(m.spec_bytes() == crate::nla::spec_emit_codec_list::<EthtoolPauseAttr>(vs));
    crate::nla::lemma_codec_list_round_trip::<EthtoolPauseAttr>(vs);
    assert(vs.map_values(|a: EthtoolPauseAttrView| EthtoolAttrView::Pause(a)) =~= m.nlas);
    assert(crate::pause::spec_parse_pause_nlas(m.spec_bytes()) == Ok::<
        Seq<EthtoolAttrView>,
        DecodeError,
    >(m.nlas));
    assert(m == (EthtoolMessageView { cmd: EthtoolCmd::PauseGetReply, nlas: m.nlas }));
}

/// The Feature attribute inside a message attribute; meaningless for
/// other feature objects.
pub open spec fn spec_feature_of_attr(a: EthtoolAttrView) -> EthtoolFeatureAttrView {
    match a {
        EthtoolAttrView::Feature(c) => c,
        _ => vstd::pervasive::arbitrary(),
    }
}

/// Round trip of a whole Feature reply: decoding the bytes that a
/// message encodes to, under the message's own command code, yields
/// exactly that message. It holds of every such reply whose attributes
/// are round-trippable.
pub proof fn lemma_feature_reply_round_trip(m: EthtoolMessageView)
    requires
        m.cmd == EthtoolCmd::FeatureGetReply,
        forall|i: int|
            0 <= i < m.nlas.len() ==> match #[trigger] m.nlas[i] {
                EthtoolAttrView::Feature(a) => a.round_trippable(),
                _ => false,
            },
    ensures
        EthtoolMessage::spec_parse_with_param(m.spec_bytes(), spec_cmd_code(m.cmd)) == Ok::<
            EthtoolMessageView,
            DecodeError,
        >(m),
{
    let vs = m.nlas.map_values(|a: EthtoolAttrView| spec_feature_of_attr(a));
    assert(crate::nla::codec_list_rt::<EthtoolFeatureAttr>(vs)) by {
        assert forall|i: int| 0 <= i < vs.len() implies EthtoolFeatureAttr::spec_rt(
            #[trigger] vs[i],
        ) by {
            assert(vs[i] == spec_feature_of_attr(m.nlas[i]));
        }
    }
    assert(spec_attr_records(
        m.nlas,
        |v: EthtoolAttrView| v.spec_kind(),
        |v: EthtoolAttrView| v.spec_value(),
    ) =~= spec_attr_records(
        vs,
        |v: EthtoolFeatureAttrView| EthtoolFeatureAttr::spec_kind_of(v),
        |v: EthtoolFeatureAttrView| EthtoolFeatureAttr::spec_value_of(v),
    ));
    assert(m.spec_bytes() == crate::nla::spec_emit_codec_list::<EthtoolFeatureAttr>(vs));
    crate::nla::lemma_codec_list_round_trip::<EthtoolFeatureAttr>(vs);
    assert(vs.map_values(|a: EthtoolFeatureAttrView| EthtoolAttrView::Feature(a)) =~= m.nlas);
    assert(crate::feature::spec_parse_feature_nlas(m.spec_bytes()) == Ok::<
        Seq<EthtoolAttrView>,
        DecodeError,
    >(m.nlas));
    assert(m == (EthtoolMessageView { cmd: EthtoolCmd::FeatureGetReply, nlas: m.nlas }));
}

/// The LinkMode attribute inside a message attribute; meaningless for
/// other feature objects.
pub open spec fn spec_link_mode_of_attr(a: EthtoolAttrView) -> EthtoolLinkModeAttrView {
    match a {
        EthtoolAttrView::LinkMode(c) => c,
        _ => vstd::pervasive::arbitrary(),
    }
}

/// Round trip of a whole LinkMode reply: decoding the bytes that a
/// message encodes to, under the message's own command code, yields
/// exactly that message. It holds of every such reply whose attributes
/// are round-trippable.
pub proof fn lemma_link_mode_reply_round_trip(m: EthtoolMessageView)
    requires
        m.cmd == EthtoolCmd::LinkModeGetReply,
        forall|i: int|
            0 <= i < m.nlas.len() ==> match #[trigger] m.nlas[i] {
                EthtoolAttrView::LinkMode(a) => a.round_trippable(),
                _ => false,
            },
    ensures
        EthtoolMessage::spec_parse_with_param(m.spec_bytes(), spec_cmd_code(m.cmd)) == Ok::<
            EthtoolMessageView,
            DecodeError,
        >(m),
{
    let vs = m.nlas.map_values(|a: EthtoolAttrView| spec_link_mode_of_attr(a));
    assert(crate::nla::codec_list_rt::<EthtoolLinkModeAttr>(vs)) by {
        assert forall|i: int| 0 <= i < vs.len() implies EthtoolLinkModeAttr::spec_rt(
            #[trigger] vs[i],
        ) by {
            assert(vs[i] == spec_link_mode_of_attr(m.nlas[i]));
        }
    }
    assert(spec_attr_records(
        m.nlas,
        |v: EthtoolAttrView| v.spec_kind(),
        |v: EthtoolAttrView| v.spec_value(),
    ) =~= spec_attr_records(
        vs,
        |v: EthtoolLinkModeAttrView| EthtoolLinkModeAttr::spec_kind_of(v),
        |v: EthtoolLinkModeAttrView| EthtoolLinkModeAttr::spec_value_of(v),
    ));
    assert(m.spec_bytes() == crate::nla::spec_emit_codec_list::<EthtoolLinkModeAttr>(vs));
    crate::nla::lemma_codec_list_round_trip::<EthtoolLinkModeAttr>(vs);
    assert(vs.map_values(|a: EthtoolLinkModeAttrView| EthtoolAttrView::LinkMode(a)) =~= m.nlas);
    assert(crate::link_mode::spec_parse_link_mode_nlas(m.spec_bytes()) == Ok::<
        Seq<EthtoolAttrView>,
        DecodeError,
    >(m.nlas));
    assert(m == (EthtoolMessageView { cmd: EthtoolCmd::LinkModeGetReply, nlas: m.nlas }));
}

/// The Ring attribute inside a message attribute; meaningless for
/// other feature objects.
pub open spec fn spec_ring_of_attr(a: EthtoolAttrView) -> EthtoolRingAttrView {
    match a {
        EthtoolAttrView::Ring(c) => c,
        _ => vstd::pervasive::arbitrary(),
    }
}

/// Round trip of a whole Ring reply: decoding the bytes that a
/// message encodes to, under the message's own command code, yields
/// exactly that message. It holds of every such reply whose attributes
/// are round-trippable.
pub proof fn lemma_ring_reply_round_trip(m: EthtoolMessageView)
    requires
        m.cmd == EthtoolCmd::RingGetReply,
        forall|i: int|
            0 <= i < m.nlas.len() ==> match #[trigger] m.nlas[i] {
                EthtoolAttrView::Ring(a) => a.round_trippable(),
                _ => false,
            },
    ensures
        EthtoolMessage::spec_parse_with_param(m.spec_bytes(), spec_cmd_code(m.cmd)) == Ok::<
            EthtoolMessageView,
            DecodeError,
        >(m),
{
    let vs = m.nlas.map_values(|a: EthtoolAttrView| spec_ring_of_attr(a));
    assert(crate::nla::codec_list_rt::<EthtoolRingAttr>(vs)) by {
        assert forall|i: int| 0 <= i < vs.len() implies EthtoolRingAttr::spec_rt(
            #[trigger] vs[i],
        ) by {
            assert(vs[i] == spec_ring_of_attr(m.nlas[i]));
        }
    }
    assert(spec_attr_records(
        m.nlas,
        |v: EthtoolAttrView| v.spec_kind(),
        |v: EthtoolAttrView| v.spec_value(),
    ) =~= spec_attr_records(
        vs,
        |v: EthtoolRingAttrView| EthtoolRingAttr::spec_kind_of(v),
        |v: EthtoolRingAttrView| EthtoolRingAttr::spec_value_of(v),
    ));
    assert(m.spec_bytes() == crate::nla::spec_emit_codec_list::<EthtoolRingAttr>(vs));
    crate::nla::lemma_codec_list_round_trip::<EthtoolRingAttr>(vs);
    assert(vs.map_values(|a: EthtoolRingAttrView| EthtoolAttrView::Ring(a)) =~= m.nlas);
    assert(crate::ring::spec_parse_ring_nlas(m.spec_bytes()) == Ok::<
        Seq<EthtoolAttrView>,
        DecodeError,
    >(m.nlas));
    assert(m == (EthtoolMessageView { cmd: EthtoolCmd::RingGetReply, nlas: m.nlas }));
}

/// The Coalesce attribute inside a message attribute; meaningless for
/// other feature objects.
pub open spec fn spec_coalesce_of_attr(a: EthtoolAttrView) -> EthtoolCoalesceAttrView {
    match a {
        EthtoolAttrView::Coalesce(c) => c,
        _ => vstd::pervasive::arbitrary(),
    }
}

/// Round trip of a whole Coalesce reply: decoding the bytes that a
/// message encodes to, under the message's own command code, yields
/// exactly that message. It holds of every such reply whose attributes
/// are round-trippable.
pub proof fn lemma_coalesce_reply_round_trip(m: EthtoolMessageView)
    requires
        m.cmd == EthtoolCmd::CoalesceGetReply,
        forall|i: int|
            0 <= i < m.nlas.len() ==> match #[trigger] m.nlas[i] {
                EthtoolAttrView::Coalesce(a) => a.round_trippable(),
                _ => false,
            },
    ensures
        EthtoolMessage::spec_parse_with_param(m.spec_bytes(), spec_cmd_code(m.cmd)) == Ok::<
            EthtoolMessageView,
            DecodeError,
        >(m),
{
    let vs = m.nlas.map_values(|a: EthtoolAttrView| spec_coalesce_of_attr(a));
    assert(crate::nla::codec_list_rt::<EthtoolCoalesceAttr>(vs)) by {
        assert forall|i: int| 0 <= i < vs.len() implies EthtoolCoalesceAttr::spec_rt(
            #[trigger] vs[i],
        ) by {
            assert(vs[i] == spec_coalesce_of_attr(m.nlas[i]));
        }
    }
    assert(spec_attr_records(
        m.nlas,
        |v: EthtoolAttrView| v.spec_kind(),
        |v: EthtoolAttrView| v.spec_value(),
    ) =~= spec_attr_records(
        vs,
        |v: EthtoolCoalesceAttrView| EthtoolCoalesceAttr::spec_kind_of(v),
        |v: EthtoolCoalesceAttrView| EthtoolCoalesceAttr::spec_value_of(v),
    ));
    assert(m.spec_bytes() == crate::nla::spec_emit_codec_list::<EthtoolCoalesceAttr>(vs));
    crate::nla::lemma_codec_list_round_trip::<EthtoolCoalesceAttr>(vs);
    assert(vs.map_values(|a: EthtoolCoalesceAttrView| EthtoolAttrView::Coalesce(a)) =~= m.nlas);
    assert(crate::coalesce::spec_parse_coalesce_nlas(m.spec_bytes()) == Ok::<
        Seq<EthtoolAttrView>,
        DecodeError,
    >(m.nlas));
    assert(m == (EthtoolMessageView { cmd: EthtoolCmd::CoalesceGetReply, nlas: m.nlas }));
}

/// The TsInfo attribute inside a message attribute; meaningless for
/// other feature objects.
pub open spec fn spec_tsinfo_of_attr(a: EthtoolAttrView) -> EthtoolTsInfoAttrView {
    match a {
        EthtoolAttrView::TsInfo(c) => c,
        _ => vstd::pervasive::arbitrary(),
    }
}

/// Round trip of a whole TsInfo reply: decoding the bytes that a
/// message encodes to, under the message's own command code, yields
/// exactly that message. It holds of every such reply whose attributes
/// are round-trippable.
pub proof fn lemma_tsinfo_reply_round_trip(m: EthtoolMessageView)
    requires
        m.cmd == EthtoolCmd::TsInfoGetReply,
        forall|i: int|
            0 <= i < m.nlas.len() ==> match #[trigger] m.nlas[i] {
                EthtoolAttrView::TsInfo(a) => a.round_trippable(),
                _ => false,
            },
    ensures
        EthtoolMessage::spec_parse_with_param(m.spec_bytes(), spec_cmd_code(m.cmd)) == Ok::<
            EthtoolMessageView,
            DecodeError,
        >(m),
{
    let vs = m.nlas.map_values(|a: EthtoolAttrView| spec_tsinfo_of_attr(a));
    assert(crate::nla::codec_list_rt::<EthtoolTsInfoAttr>(vs)) by {
        assert forall|i: int| 0 <= i < vs.len() implies EthtoolTsInfoAttr::spec_rt(
            #[trigger] vs[i],
        ) by {
            assert(vs[i] == spec_tsinfo_of_attr(m.nlas[i]));
        }
    }
    assert(spec_attr_records(
        m.nlas,
        |v: EthtoolAttrView| v.spec_kind(),
        |v: EthtoolAttrView| v.spec_value(),
    ) =~= spec_attr_records(
        vs,
        |v: EthtoolTsInfoAttrView| EthtoolTsInfoAttr::spec_kind_of(v),
        |v: EthtoolTsInfoAttrView| EthtoolTsInfoAttr::spec_value_of(v),
    ));
    assert(m.spec_bytes() == crate::nla::spec_emit_codec_list::<EthtoolTsInfoAttr>(vs));
    crate::nla::lemma_codec_list_round_trip::<EthtoolTsInfoAttr>(vs);
    assert(vs.map_values(|a: EthtoolTsInfoAttrView| EthtoolAttrView::TsInfo(a)) =~= m.nlas);
    assert(crate::tsinfo::spec_parse_tsinfo_nlas(m.spec_bytes()) == Ok::<
        Seq<EthtoolAttrView>,
        DecodeError,
    >(m.nlas));
    assert(m == (EthtoolMessageView { cmd: EthtoolCmd::TsInfoGetReply, nlas: m.nlas }));
}

/// The FEC attribute inside a message attribute; meaningless for
/// other feature objects.
pub open spec fn spec_fec_of_attr(a: EthtoolAttrView) -> EthtoolFecAttrView {
    match a {
        EthtoolAttrView::Fec(c) => c,
        _ => vstd::pervasive::arbitrary(),
    }
}

/// Round trip of a whole FEC reply: decoding the bytes that a
/// message encodes to, under the message's own command code, yields
/// exactly that message. It holds of every such reply whose attributes
/// are round-trippable.
pub proof fn lemma_fec_reply_round_trip(m: EthtoolMessageView)
    requires
        m.cmd == EthtoolCmd::FecGetReply,
        forall|i: int|
            0 <= i < m.nlas.len() ==> match #[trigger] m.nlas[i] {
                EthtoolAttrView::Fec(a) => a.round_trippable(),
                _ => false,
            },
    ensures
        EthtoolMessage::spec_parse_with_param(m.spec_bytes(), spec_cmd_code(m.cmd)) == Ok::<
            EthtoolMessageView,
            DecodeError,
        >(m),
{
    let vs = m.nlas.map_values(|a: EthtoolAttrView| spec_fec_of_attr(a));
    assert(crate::nla::codec_list_rt::<EthtoolFecAttr>(vs)) by {
        assert forall|i: int| 0 <= i < vs.len() implies EthtoolFecAttr::spec_rt(
            #[trigger] vs[i],
        ) by {
            assert(vs[i] == spec_fec_of_attr(m.nlas[i]));
        }
    }
    assert(spec_attr_records(
        m.nlas,
        |v: EthtoolAttrView| v.spec_kind(),
        |v: EthtoolAttrView| v.spec_value(),
    ) =~= spec_attr_records(
        vs,
        |v: EthtoolFecAttrView| EthtoolFecAttr::spec_kind_of(v),
        |v: EthtoolFecAttrView| EthtoolFecAttr::spec_value_of(v),
    ));
    assert(m.spec_bytes() == crate::nla::spec_emit_codec_list::<EthtoolFecAttr>(vs));
    crate::nla::lemma_codec_list_round_trip::<EthtoolFecAttr>(vs);
    assert(vs.map_values(|a: EthtoolFecAttrView| EthtoolAttrView::Fec(a)) =~= m.nlas);
    assert(crate::fec::spec_parse_fec_nlas(m.spec_bytes()) == Ok::<
        Seq<EthtoolAttrView>,
        DecodeError,
    >(m.nlas));
    assert(m == (EthtoolMessageView { cmd: EthtoolCmd::FecGetReply, nlas: m.nlas }));
}

/// The module-EEPROM attribute inside a message attribute; meaningless for
/// other feature objects.
pub open spec fn spec_module_eeprom_of_attr(a: EthtoolAttrView) -> EthtoolModuleEEPROMAttrView {
    match a {
        EthtoolAttrView::ModuleEEPROM(c) => c,
        _ => vstd::pervasive::arbitrary(),
    }
}

/// Round trip of a whole module-EEPROM reply: decoding the bytes that a
/// message encodes to, under the message's own command code, yields
/// exactly that message. It holds of every such reply whose attributes
/// are round-trippable.
pub proof fn lemma_module_eeprom_reply_round_trip(m: EthtoolMessageView)
    requires
        m.cmd == EthtoolCmd::ModuleEEPROMGetReply,
        forall|i: int|
            0 <= i < m.nlas.len() ==> match #[trigger] m.nlas[i] {
                EthtoolAttrView::ModuleEEPROM(a) => a.round_trippable(),
                _ => false,
            },
    ensures
        EthtoolMessage::spec_parse_with_param(m.spec_bytes(), spec_cmd_code(m.cmd)) == Ok::<
            EthtoolMessageView,
            DecodeError,
        >(m),
{
    let vs = m.nlas.map_values(|a: EthtoolAttrView| spec_module_eeprom_of_attr(a));
    assert(crate::nla::codec_list_rt::<EthtoolModuleEEPROMAttr>(vs)) by {
        assert forall|i: int| 0 <= i < vs.len() implies EthtoolModuleEEPROMAttr::spec_rt(
            #[trigger] vs[i],
        ) by {
            assert(vs[i] == spec_module_eeprom_of_attr(m.nlas[i]));
        }
    }
    assert(spec_attr_records(
        m.nlas,
        |v: EthtoolAttrView| v.spec_kind(),
        |v: EthtoolAttrView| v.spec_value(),
    ) =~= spec_attr_records(
        vs,
        |v: EthtoolModuleEEPROMAttrView| EthtoolModuleEEPROMAttr::spec_kind_of(v),
        |v: EthtoolModuleEEPROMAttrView| EthtoolModuleEEPROMAttr::spec_value_of(v),
    ));
    assert(m.spec_bytes() == crate::nla::spec_emit_codec_list::<EthtoolModuleEEPROMAttr>(vs));
    crate::nla::lemma_codec_list_round_trip::<EthtoolModuleEEPROMAttr>(vs);
    assert(vs.map_values(|a: EthtoolModuleEEPROMAttrView| EthtoolAttrView::ModuleEEPROM(a)) =~= m.nlas);
    assert(crate::eeprom::spec_parse_module_eeprom_nlas(m.spec_bytes()) == Ok::<
        Seq<EthtoolAttrView>,
        DecodeError,
    >(m.nlas));
    assert(m == (EthtoolMessageView { cmd: EthtoolCmd::ModuleEEPROMGetReply, nlas: m.nlas }));
}

/// The TDR notification attribute inside a message attribute; meaningless for
/// other feature objects.
pub open spec fn spec_cable_test_tdr_notify_of_attr(a: EthtoolAttrView) -> EthtoolCableTestTdrNotifyAttrView {
    match a {
        EthtoolAttrView::CableTestTdrNotify(c) => c,
        _ => vstd::pervasive::arbitrary(),
    }
}

/// Round trip of a whole TDR notification reply: decoding the bytes that a
/// message encodes to, under the message's own command code, yields
/// exactly that message. It holds of every such reply whose attributes
/// are round-trippable.
pub proof fn lemma_cable_test_tdr_notify_reply_round_trip(m: EthtoolMessageView)
    requires
        m.cmd == EthtoolCmd::CableTestTdrNtf,
        forall|i: int|
            0 <= i < m.nlas.len() ==> match #[trigger] m.nlas[i] {
                EthtoolAttrView::CableTestTdrNotify(a) => a.round_trippable(),
                _ => false,
            },
    ensures
        EthtoolMessage::spec_parse_with_param(m.spec_bytes(), spec_cmd_code(m.cmd)) == Ok::<
            EthtoolMessageView,
            DecodeError,
        >(m),
{
    let vs = m.nlas.map_values(|a: EthtoolAttrView| spec_cable_test_tdr_notify_of_attr(a));
    assert(crate::nla::codec_list_rt::<EthtoolCableTestTdrNotifyAttr>(vs)) by {
        assert forall|i: int| 0 <= i < vs.len() implies EthtoolCableTestTdrNotifyAttr::spec_rt(
            #[trigger] vs[i],
        ) by {
            assert(vs[i] == spec_cable_test_tdr_notify_of_attr(m.nlas[i]));
        }
    }
    assert(spec_attr_records(
        m.nlas,
        |v: EthtoolAttrView| v.spec_kind(),
        |v: EthtoolAttrView| v.spec_value(),
    ) =~= spec_attr_records(
        vs,
        |v: EthtoolCableTestTdrNotifyAttrView| EthtoolCableTestTdrNotifyAttr::spec_kind_of(v),
        |v: EthtoolCableTestTdrNotifyAttrView| EthtoolCableTestTdrNotifyAttr::spec_value_of(v),
    ));
    assert(m.spec_bytes() == crate::nla::spec_emit_codec_list::<EthtoolCableTestTdrNotifyAttr>(vs));
    crate::nla::lemma_codec_list_round_trip::<EthtoolCableTestTdrNotifyAttr>(vs);
    assert(vs.map_values(|a: EthtoolCableTestTdrNotifyAttrView| EthtoolAttrView::CableTestTdrNotify(a)) =~= m.nlas);
    assert(crate::cable_test_tdr::spec_parse_cable_test_tdr_notify_nlas(m.spec_bytes()) == Ok::<
        Seq<EthtoolAttrView>,
        DecodeError,
    >(m.nlas));
    assert(m == (EthtoolMessageView { cmd: EthtoolCmd::CableTestTdrNtf, nlas: m.nlas }));
}

} // verus!
