//! Attributes of the ethtool FEC (forward error correction) object.
//!
//! Decoding knows the configured mode bitset, auto selection, the
//! active mode and the error statistics; encoding supports the header
//! and raw pass-through attributes, mirroring the asymmetry of the wire
//! users of this object: the remaining kinds are query results only.

use vstd::prelude::*;
use vstd::bytes::*;

use crate::bitset_util::{
    parse_bitset_bits_nlas, spec_parse_bitset_bits_nlas, EthtoolBitSet, EthtoolBitSetView,
};
use crate::error::{in_attr, spec_in_attr, DecodeError};
use crate::message::{EthtoolAttr, EthtoolAttrView};
use crate::header::{
    emit_header_list, header_list_rt, header_list_wf, lemma_header_list_round_trip,
    parse_header_list, spec_emit_header_list, spec_parse_header_list, EthtoolHeader,
    EthtoolHeaderView,
};
use crate::nla::{
    parse_nla_vec, spec_parse_codec_list, DefaultNla, DefaultNlaView, NlaCodec, NLA_F_NESTED,
    NLA_HEADER_SIZE, NLA_TYPE_MASK, check_codec_list_wf,
};
use crate::parsers::{emit_u64, parse_u32, parse_u64, parse_u8, spec_parse_u32, spec_parse_u64, spec_parse_u8};

verus! {

pub const ETHTOOL_A_FEC_HEADER: u16 = 1;

pub const ETHTOOL_A_FEC_MODES: u16 = 2;

pub const ETHTOOL_A_FEC_AUTO: u16 = 3;

pub const ETHTOOL_A_FEC_ACTIVE: u16 = 4;

pub const ETHTOOL_A_FEC_STATS: u16 = 5;

pub const ETHTOOL_LINK_MODE_FEC_NONE_BIT: u32 = 49;

pub const ETHTOOL_LINK_MODE_FEC_RS_BIT: u32 = 50;

pub const ETHTOOL_LINK_MODE_FEC_BASER_BIT: u32 = 51;

pub const ETHTOOL_LINK_MODE_FEC_LLRS_BIT: u32 = 74;

/// A FEC mode, named after the fixed kernel link-mode bit indices; any
/// other bit index is kept with its index and name.
#[derive(Debug, PartialEq, Eq, Clone, Default)]
pub enum EthtoolFecMode {
    #[default]
    NoFec,
    Rs,
    Baser,
    Llrs,
    /// Index and name of the FEC mode; only the index matters when
    /// setting.
    Other(u32, String),
}

/// The mathematical model of a FEC mode.
pub enum EthtoolFecModeView {
    NoFec,
    Rs,
    Baser,
    Llrs,
    Other(u32, Seq<char>),
}

impl View for EthtoolFecMode {
    type V = EthtoolFecModeView;

    open spec fn view(&self) -> EthtoolFecModeView {
        match self {
            EthtoolFecMode::NoFec => EthtoolFecModeView::NoFec,
            EthtoolFecMode::Rs => EthtoolFecModeView::Rs,
            EthtoolFecMode::Baser => EthtoolFecModeView::Baser,
            EthtoolFecMode::Llrs => EthtoolFecModeView::Llrs,
            EthtoolFecMode::Other(d, n) => EthtoolFecModeView::Other(*d, n@),
        }
    }
}

impl DeepView for EthtoolFecMode {
    type V = EthtoolFecModeView;

    open spec fn deep_view(&self) -> EthtoolFecModeView {
        self.view()
    }
}

/// The mode that a decoded bitset bit stands for.
pub open spec fn spec_fec_mode_of_bit(b: EthtoolBitSetView) -> EthtoolFecModeView {
    if b.index == ETHTOOL_LINK_MODE_FEC_NONE_BIT {
        EthtoolFecModeView::NoFec
    } else if b.index == ETHTOOL_LINK_MODE_FEC_RS_BIT {
        EthtoolFecModeView::Rs
    } else if b.index == ETHTOOL_LINK_MODE_FEC_BASER_BIT {
        EthtoolFecModeView::Baser
    } else if b.index == ETHTOOL_LINK_MODE_FEC_LLRS_BIT {
        EthtoolFecModeView::Llrs
    } else {
        EthtoolFecModeView::Other(b.index, b.name)
    }
}

/// The mode that a bare bit index stands for; the name is unknown.
pub open spec fn spec_fec_mode_of_index(d: u32) -> EthtoolFecModeView {
    if d == ETHTOOL_LINK_MODE_FEC_NONE_BIT {
        EthtoolFecModeView::NoFec
    } else if d == ETHTOOL_LINK_MODE_FEC_RS_BIT {
        EthtoolFecModeView::Rs
    } else if d == ETHTOOL_LINK_MODE_FEC_BASER_BIT {
        EthtoolFecModeView::Baser
    } else if d == ETHTOOL_LINK_MODE_FEC_LLRS_BIT {
        EthtoolFecModeView::Llrs
    } else {
        EthtoolFecModeView::Other(d, seq![])
    }
}

/// The bit index that a mode encodes to.
pub open spec fn spec_fec_mode_index(m: EthtoolFecModeView) -> u32 {
    match m {
        EthtoolFecModeView::NoFec => ETHTOOL_LINK_MODE_FEC_NONE_BIT,
        EthtoolFecModeView::Rs => ETHTOOL_LINK_MODE_FEC_RS_BIT,
        EthtoolFecModeView::Baser => ETHTOOL_LINK_MODE_FEC_BASER_BIT,
        EthtoolFecModeView::Llrs => ETHTOOL_LINK_MODE_FEC_LLRS_BIT,
        EthtoolFecModeView::Other(d, _) => d,
    }
}

/// The kernel's lower-case name of a mode.
pub open spec fn spec_fec_mode_name(m: EthtoolFecModeView) -> Seq<char> {
    match m {
        EthtoolFecModeView::NoFec => "none"@,
        EthtoolFecModeView::Rs => "rs"@,
        EthtoolFecModeView::Baser => "baser"@,
        EthtoolFecModeView::Llrs => "llrs"@,
        EthtoolFecModeView::Other(_, n) => n,
    }
}

impl EthtoolFecMode {
    /// The mode a bare bit index stands for.
    pub fn from_index(d: u32) -> (r: Self)
        ensures
            r.deep_view() == spec_fec_mode_of_index(d),
    {
        if d == ETHTOOL_LINK_MODE_FEC_NONE_BIT {
            EthtoolFecMode::NoFec
        } else if d == ETHTOOL_LINK_MODE_FEC_RS_BIT {
            EthtoolFecMode::Rs
        } else if d == ETHTOOL_LINK_MODE_FEC_BASER_BIT {
            EthtoolFecMode::Baser
        } else if d == ETHTOOL_LINK_MODE_FEC_LLRS_BIT {
            EthtoolFecMode::Llrs
        } else {
            let r = EthtoolFecMode::Other(d, String::new());
            proof {
                assert(r.deep_view() =~= spec_fec_mode_of_index(d)) by {
                    assert(Seq::<char>::empty() =~= seq![]);
                }
            }
            r
        }
    }

    /// The kernel's lower-case name of the mode.
    pub fn mode_name(&self) -> (r: String)
        ensures
            r@ == spec_fec_mode_name(self.deep_view()),
    {
        match self {
            EthtoolFecMode::NoFec => "none".to_owned(),
            EthtoolFecMode::Rs => "rs".to_owned(),
            EthtoolFecMode::Baser => "baser".to_owned(),
            EthtoolFecMode::Llrs => "llrs".to_owned(),
            EthtoolFecMode::Other(_, n) => n.clone(),
        }
    }
}

impl From<EthtoolBitSet> for EthtoolFecMode {
    fn from(b: EthtoolBitSet) -> (r: Self) {
        if b.index == ETHTOOL_LINK_MODE_FEC_NONE_BIT {
            EthtoolFecMode::NoFec
        } else if b.index == ETHTOOL_LINK_MODE_FEC_RS_BIT {
            EthtoolFecMode::Rs
        } else if b.index == ETHTOOL_LINK_MODE_FEC_BASER_BIT {
            EthtoolFecMode::Baser
        } else if b.index == ETHTOOL_LINK_MODE_FEC_LLRS_BIT {
            EthtoolFecMode::Llrs
        } else {
            EthtoolFecMode::Other(b.index, b.name)
        }
    }
}

impl vstd::std_specs::convert::FromSpecImpl<EthtoolBitSet> for EthtoolFecMode {
    open spec fn obeys_from_spec() -> bool {
        true
    }

    open spec fn from_spec(b: EthtoolBitSet) -> Self {
        if b.index == ETHTOOL_LINK_MODE_FEC_NONE_BIT {
            EthtoolFecMode::NoFec
        } else if b.index == ETHTOOL_LINK_MODE_FEC_RS_BIT {
            EthtoolFecMode::Rs
        } else if b.index == ETHTOOL_LINK_MODE_FEC_BASER_BIT {
            EthtoolFecMode::Baser
        } else if b.index == ETHTOOL_LINK_MODE_FEC_LLRS_BIT {
            EthtoolFecMode::Llrs
        } else {
            EthtoolFecMode::Other(b.index, b.name)
        }
    }
}

impl From<u32> for EthtoolFecMode {
    fn from(d: u32) -> (r: Self) {
        EthtoolFecMode::from_index(d)
    }
}

// The converted value cannot be named by a spec (it holds a freshly
// built `String`), so the contract lives on `from_index` instead.
impl vstd::std_specs::convert::FromSpecImpl<u32> for EthtoolFecMode {
    open spec fn obeys_from_spec() -> bool {
        false
    }

    open spec fn from_spec(d: u32) -> Self {
        vstd::pervasive::arbitrary()
    }
}

impl From<EthtoolFecMode> for u32 {
    fn from(v: EthtoolFecMode) -> (r: u32) {
        match v {
            EthtoolFecMode::NoFec => ETHTOOL_LINK_MODE_FEC_NONE_BIT,
            EthtoolFecMode::Rs => ETHTOOL_LINK_MODE_FEC_RS_BIT,
            EthtoolFecMode::Baser => ETHTOOL_LINK_MODE_FEC_BASER_BIT,
            EthtoolFecMode::Llrs => ETHTOOL_LINK_MODE_FEC_LLRS_BIT,
            EthtoolFecMode::Other(d, _) => d,
        }
    }
}

impl vstd::std_specs::convert::FromSpecImpl<EthtoolFecMode> for u32 {
    open spec fn obeys_from_spec() -> bool {
        true
    }

    open spec fn from_spec(v: EthtoolFecMode) -> u32 {
        spec_fec_mode_index(v.deep_view())
    }
}

pub const ETHTOOL_A_FEC_STAT_CORRECTED: u16 = 2;

pub const ETHTOOL_A_FEC_STAT_UNCORR: u16 = 3;

pub const ETHTOOL_A_FEC_STAT_CORR_BITS: u16 = 4;

/// One FEC error counter.
#[derive(Debug, PartialEq, Eq, Clone)]
pub enum EthtoolFecStat {
    Corrected(u64),
    Uncorrected(u64),
    CorrectBits(u64),
    Other(DefaultNla),
}

/// The mathematical model of a FEC counter attribute.
pub enum EthtoolFecStatView {
    Corrected(u64),
    Uncorrected(u64),
    CorrectBits(u64),
    Other(DefaultNlaView),
}

impl View for EthtoolFecStat {
    type V = EthtoolFecStatView;

    open spec fn view(&self) -> EthtoolFecStatView {
        match self {
            EthtoolFecStat::Corrected(v) => EthtoolFecStatView::Corrected(*v),
            EthtoolFecStat::Uncorrected(v) => EthtoolFecStatView::Uncorrected(*v),
            EthtoolFecStat::CorrectBits(v) => EthtoolFecStatView::CorrectBits(*v),
            EthtoolFecStat::Other(n) => EthtoolFecStatView::Other(n@),
        }
    }
}

impl DeepView for EthtoolFecStat {
    type V = EthtoolFecStatView;

    open spec fn deep_view(&self) -> EthtoolFecStatView {
        self.view()
    }
}

impl EthtoolFecStatView {
    pub open spec fn spec_kind(self) -> u16 {
        match self {
            EthtoolFecStatView::Corrected(_) => ETHTOOL_A_FEC_STAT_CORRECTED,
            EthtoolFecStatView::Uncorrected(_) => ETHTOOL_A_FEC_STAT_UNCORR,
            EthtoolFecStatView::CorrectBits(_) => ETHTOOL_A_FEC_STAT_CORR_BITS,
            EthtoolFecStatView::Other(n) => n.kind,
        }
    }

    pub open spec fn spec_value(self) -> Seq<u8> {
        match self {
            EthtoolFecStatView::Corrected(v) => spec_u64_to_le_bytes(v),
            EthtoolFecStatView::Uncorrected(v) => spec_u64_to_le_bytes(v),
            EthtoolFecStatView::CorrectBits(v) => spec_u64_to_le_bytes(v),
            EthtoolFecStatView::Other(n) => n.value,
        }
    }

    pub open spec fn wf(self) -> bool {
        self.spec_value().len() + NLA_HEADER_SIZE <= 0xffff
    }

    pub open spec fn spec_parse(kind: u16, value: Seq<u8>) -> Result<
        EthtoolFecStatView,
        DecodeError,
    > {
        let k = kind & NLA_TYPE_MASK;
        if k == ETHTOOL_A_FEC_STAT_CORRECTED {
            match spec_parse_u64(value) {
                Ok(v) => Ok(EthtoolFecStatView::Corrected(v)),
                Err(e) => Err(spec_in_attr(kind, e)),
            }
        } else if k == ETHTOOL_A_FEC_STAT_UNCORR {
            match spec_parse_u64(value) {
                Ok(v) => Ok(EthtoolFecStatView::Uncorrected(v)),
                Err(e) => Err(spec_in_attr(kind, e)),
            }
        } else if k == ETHTOOL_A_FEC_STAT_CORR_BITS {
            match spec_parse_u64(value) {
                Ok(v) => Ok(EthtoolFecStatView::CorrectBits(v)),
                Err(e) => Err(spec_in_attr(kind, e)),
            }
        } else {
            Ok(EthtoolFecStatView::Other(DefaultNlaView { kind, value }))
        }
    }

    pub open spec fn round_trippable(self) -> bool {
        &&& self.wf()
        &&& match self {
            EthtoolFecStatView::Other(n) => {
                let k = n.kind & NLA_TYPE_MASK;
                !(ETHTOOL_A_FEC_STAT_CORRECTED <= k <= ETHTOOL_A_FEC_STAT_CORR_BITS)
            },
            _ => true,
        }
    }
}

impl NlaCodec for EthtoolFecStat {
    open spec fn spec_kind_of(v: EthtoolFecStatView) -> u16 {
        v.spec_kind()
    }

    open spec fn spec_value_of(v: EthtoolFecStatView) -> Seq<u8> {
        v.spec_value()
    }

    open spec fn spec_wf(v: EthtoolFecStatView) -> bool {
        v.wf()
    }

    open spec fn spec_rt(v: EthtoolFecStatView) -> bool {
        v.round_trippable()
    }

    open spec fn spec_parse_one(kind: u16, value: Seq<u8>) -> Result<
        EthtoolFecStatView,
        DecodeError,
    > {
        EthtoolFecStatView::spec_parse(kind, value)
    }

    proof fn lemma_wf_bound(v: EthtoolFecStatView) {
    }

    proof fn lemma_round_trip(v: EthtoolFecStatView) {
        lemma_auto_spec_u64_to_from_le_bytes();
        assert(forall|k: u16| 2 <= k <= 4 ==> #[trigger] (k & 0x3fffu16) == k) by (bit_vector);
    }

    fn kind(&self) -> u16 {
        match self {
            EthtoolFecStat::Corrected(_) => ETHTOOL_A_FEC_STAT_CORRECTED,
            EthtoolFecStat::Uncorrected(_) => ETHTOOL_A_FEC_STAT_UNCORR,
            EthtoolFecStat::CorrectBits(_) => ETHTOOL_A_FEC_STAT_CORR_BITS,
            EthtoolFecStat::Other(n) => n.kind,
        }
    }

    fn emit_value(&self, out: &mut Vec<u8>) {
        match self {
            EthtoolFecStat::Corrected(v) => emit_u64(out, *v),
            EthtoolFecStat::Uncorrected(v) => emit_u64(out, *v),
            EthtoolFecStat::CorrectBits(v) => emit_u64(out, *v),
            EthtoolFecStat::Other(n) => out.extend_from_slice(n.value.as_slice()),
        }
    }

    fn parse(kind: u16, payload: &[u8]) -> (r: Result<EthtoolFecStat, DecodeError>) {
        let k = kind & NLA_TYPE_MASK;
        if k == ETHTOOL_A_FEC_STAT_CORRECTED {
            match parse_u64(payload) {
                Ok(v) => Ok(EthtoolFecStat::Corrected(v)),
                Err(e) => Err(in_attr(kind, e)),
            }
        } else if k == ETHTOOL_A_FEC_STAT_UNCORR {
            match parse_u64(payload) {
                Ok(v) => Ok(EthtoolFecStat::Uncorrected(v)),
                Err(e) => Err(in_attr(kind, e)),
            }
        } else if k == ETHTOOL_A_FEC_STAT_CORR_BITS {
            match parse_u64(payload) {
                Ok(v) => Ok(EthtoolFecStat::CorrectBits(v)),
                Err(e) => Err(in_attr(kind, e)),
            }
        } else {
            Ok(EthtoolFecStat::Other(DefaultNla { kind, value: vstd::slice::slice_to_vec(payload) }))
        }
    }

    fn check_wf(&self) -> (b: bool) {
        proof {
            lemma_auto_spec_u64_to_from_le_bytes();
        }
        match self {
            EthtoolFecStat::Other(n) => n.value.len() <= 0xffff - 4,
            _ => true,
        }
    }
}

/// One attribute of the FEC object.
#[derive(Debug, PartialEq, Eq, Clone)]
pub enum EthtoolFecAttr {
    Header(Vec<EthtoolHeader>),
    /// Configured modes.
    Modes(Vec<EthtoolFecMode>),
    /// FEC mode auto selection: the driver chooses the mode from SFP
    /// module parameters. This does not mean autonegotiation.
    Auto(bool),
    /// The active FEC mode.
    Active(EthtoolFecMode),
    Stats(Vec<EthtoolFecStat>),
    Other(DefaultNla),
}

/// The mathematical model of a FEC attribute.
pub enum EthtoolFecAttrView {
    Header(Seq<EthtoolHeaderView>),
    Modes(Seq<EthtoolFecModeView>),
    Auto(bool),
    Active(EthtoolFecModeView),
    Stats(Seq<EthtoolFecStatView>),
    Other(DefaultNlaView),
}

impl View for EthtoolFecAttr {
    type V = EthtoolFecAttrView;

    open spec fn view(&self) -> EthtoolFecAttrView {
        match self {
            EthtoolFecAttr::Header(hs) => EthtoolFecAttrView::Header(hs.deep_view()),
            EthtoolFecAttr::Modes(ms) => EthtoolFecAttrView::Modes(ms.deep_view()),
            EthtoolFecAttr::Auto(v) => EthtoolFecAttrView::Auto(*v),
            EthtoolFecAttr::Active(m) => EthtoolFecAttrView::Active(m@),
            EthtoolFecAttr::Stats(s) => EthtoolFecAttrView::Stats(s.deep_view()),
            EthtoolFecAttr::Other(n) => EthtoolFecAttrView::Other(n@),
        }
    }
}

impl DeepView for EthtoolFecAttr {
    type V = EthtoolFecAttrView;

    open spec fn deep_view(&self) -> EthtoolFecAttrView {
        self.view()
    }
}

impl EthtoolFecAttrView {
    pub open spec fn spec_kind(self) -> u16 {
        match self {
            EthtoolFecAttrView::Header(_) => ETHTOOL_A_FEC_HEADER | NLA_F_NESTED,
            EthtoolFecAttrView::Modes(_) => ETHTOOL_A_FEC_MODES,
            EthtoolFecAttrView::Auto(_) => ETHTOOL_A_FEC_AUTO,
            EthtoolFecAttrView::Active(_) => ETHTOOL_A_FEC_ACTIVE,
            EthtoolFecAttrView::Stats(_) => ETHTOOL_A_FEC_STATS,
            EthtoolFecAttrView::Other(n) => n.kind,
        }
    }

    /// The value bytes of the attributes this crate can encode: the
    /// header and raw pass-through. The query-result attributes are
    /// decode-only and have no encoding.
    pub open spec fn spec_value(self) -> Seq<u8> {
        match self {
            EthtoolFecAttrView::Header(hs) => spec_emit_header_list(hs),
            EthtoolFecAttrView::Other(n) => n.value,
            _ => seq![],
        }
    }

    /// Encodable and fitting one record: the header and raw
    /// pass-through attributes only.
    pub open spec fn wf(self) -> bool {
        &&& self.spec_value().len() + NLA_HEADER_SIZE <= 0xffff
        &&& match self {
            EthtoolFecAttrView::Header(hs) => header_list_wf(hs),
            EthtoolFecAttrView::Other(_) => true,
            _ => false,
        }
    }

    pub open spec fn spec_parse(kind: u16, value: Seq<u8>) -> Result<
        EthtoolFecAttrView,
        DecodeError,
    > {
        let k = kind & NLA_TYPE_MASK;
        if k == ETHTOOL_A_FEC_HEADER {
            match spec_parse_header_list(value) {
                Ok(hs) => Ok(EthtoolFecAttrView::Header(hs)),
                Err(e) => Err(spec_in_attr(kind, e)),
            }
        } else if k == ETHTOOL_A_FEC_MODES {
            match spec_parse_bitset_bits_nlas(value) {
                Ok(bits) => Ok(
                    EthtoolFecAttrView::Modes(
                        bits.map_values(|b: EthtoolBitSetView| spec_fec_mode_of_bit(b)),
                    ),
                ),
                Err(e) => Err(spec_in_attr(kind, e)),
            }
        } else if k == ETHTOOL_A_FEC_AUTO {
            match spec_parse_u8(value) {
                Ok(v) => Ok(EthtoolFecAttrView::Auto(v > 0)),
                Err(e) => Err(spec_in_attr(kind, e)),
            }
        } else if k == ETHTOOL_A_FEC_ACTIVE {
            match spec_parse_u32(value) {
                Ok(v) => Ok(EthtoolFecAttrView::Active(spec_fec_mode_of_index(v))),
                Err(e) => Err(spec_in_attr(kind, e)),
            }
        } else if k == ETHTOOL_A_FEC_STATS {
            match spec_parse_codec_list::<EthtoolFecStat>(value) {
                Ok(ss) => Ok(EthtoolFecAttrView::Stats(ss)),
                Err(e) => Err(spec_in_attr(kind, e)),
            }
        } else {
            Ok(EthtoolFecAttrView::Other(DefaultNlaView { kind, value }))
        }
    }

    pub open spec fn round_trippable(self) -> bool {
        &&& self.wf()
        &&& match self {
            EthtoolFecAttrView::Header(hs) => header_list_rt(hs),
            EthtoolFecAttrView::Other(n) => {
                let k = n.kind & NLA_TYPE_MASK;
                !(ETHTOOL_A_FEC_HEADER <= k <= ETHTOOL_A_FEC_STATS)
            },
            _ => false,
        }
    }
}

impl NlaCodec for EthtoolFecAttr {
    open spec fn spec_kind_of(v: EthtoolFecAttrView) -> u16 {
        v.spec_kind()
    }

    open spec fn spec_value_of(v: EthtoolFecAttrView) -> Seq<u8> {
        v.spec_value()
    }

    open spec fn spec_wf(v: EthtoolFecAttrView) -> bool {
        v.wf()
    }

    open spec fn spec_rt(v: EthtoolFecAttrView) -> bool {
        v.round_trippable()
    }

    open spec fn spec_parse_one(kind: u16, value: Seq<u8>) -> Result<
        EthtoolFecAttrView,
        DecodeError,
    > {
        EthtoolFecAttrView::spec_parse(kind, value)
    }

    proof fn lemma_wf_bound(v: EthtoolFecAttrView) {
    }

    proof fn lemma_round_trip(v: EthtoolFecAttrView) {
        assert((1u16 | 0x8000u16) & 0x3fffu16 == 1) by (bit_vector);
        match v {
            EthtoolFecAttrView::Header(hs) => {
                lemma_header_list_round_trip(hs);
            },
            _ => {},
        }
    }

    fn kind(&self) -> u16 {
        match self {
            EthtoolFecAttr::Header(_) => ETHTOOL_A_FEC_HEADER | NLA_F_NESTED,
            EthtoolFecAttr::Modes(_) => ETHTOOL_A_FEC_MODES,
            EthtoolFecAttr::Auto(_) => ETHTOOL_A_FEC_AUTO,
            EthtoolFecAttr::Active(_) => ETHTOOL_A_FEC_ACTIVE,
            EthtoolFecAttr::Stats(_) => ETHTOOL_A_FEC_STATS,
            EthtoolFecAttr::Other(n) => n.kind,
        }
    }

    fn emit_value(&self, out: &mut Vec<u8>) {
        match self {
            EthtoolFecAttr::Header(hs) => emit_header_list(hs, out),
            EthtoolFecAttr::Other(n) => out.extend_from_slice(n.value.as_slice()),
            _ => {
                proof {
                    assert(false);
                }
            },
        }
    }

    fn parse(kind: u16, payload: &[u8]) -> (r: Result<EthtoolFecAttr, DecodeError>) {
        let k = kind & NLA_TYPE_MASK;
        if k == ETHTOOL_A_FEC_HEADER {
            match parse_header_list(payload) {
                Ok(hs) => Ok(EthtoolFecAttr::Header(hs)),
                Err(e) => Err(in_attr(kind, e)),
            }
        } else if k == ETHTOOL_A_FEC_MODES {
            match parse_bitset_bits_nlas(payload) {
                Ok(bits) => Ok(EthtoolFecAttr::Modes(fec_modes_of_bits(bits))),
                Err(e) => Err(in_attr(kind, e)),
            }
        } else if k == ETHTOOL_A_FEC_AUTO {
            match parse_u8(payload) {
                Ok(v) => Ok(EthtoolFecAttr::Auto(v > 0)),
                Err(e) => Err(in_attr(kind, e)),
            }
        } else if k == ETHTOOL_A_FEC_ACTIVE {
            match parse_u32(payload) {
                Ok(v) => Ok(EthtoolFecAttr::Active(EthtoolFecMode::from_index(v))),
                Err(e) => Err(in_attr(kind, e)),
            }
        } else if k == ETHTOOL_A_FEC_STATS {
            match parse_nla_vec::<EthtoolFecStat>(payload) {
                Ok(ss) => Ok(EthtoolFecAttr::Stats(ss)),
                Err(e) => Err(in_attr(kind, e)),
            }
        } else {
            Ok(EthtoolFecAttr::Other(DefaultNla { kind, value: vstd::slice::slice_to_vec(payload) }))
        }
    }

    fn check_wf(&self) -> (b: bool) {
        match self {
            EthtoolFecAttr::Header(hs) => check_codec_list_wf::<EthtoolHeader>(hs),
            EthtoolFecAttr::Other(n) => n.value.len() <= 0xffff - 4,
            _ => false,
        }
    }
}

/// The modes that a decoded bitset stands for, bit by bit.
fn fec_modes_of_bits(bits: Vec<EthtoolBitSet>) -> (r: Vec<EthtoolFecMode>)
    ensures
        r.deep_view() == bits.deep_view().map_values(
            |b: EthtoolBitSetView| spec_fec_mode_of_bit(b),
        ),
{
    let ghost bviews = bits.deep_view();
    let mut out: Vec<EthtoolFecMode> = Vec::new();
    let mut i: usize = 0;
    while i < bits.len()
        invariant
            i <= bits.len(),
            bviews == bits.deep_view(),
            out.deep_view() =~= bviews.take(i as int).map_values(
                |b: EthtoolBitSetView| spec_fec_mode_of_bit(b),
            ),
        decreases bits.len() - i,
    {
        let ghost old_out = out.deep_view();
        let b = EthtoolBitSet {
            index: bits[i].index,
            name: bits[i].name.clone(),
            value: bits[i].value,
        };
        assert(b.deep_view() == bviews[i as int]);
        let m = EthtoolFecMode::from(b);
        out.push(m);
        proof {
            assert(out.deep_view() =~= old_out + seq![m.deep_view()]);
            assert(bviews.take(i as int + 1) =~= bviews.take(i as int).push(bviews[i as int]));
            assert(out.deep_view() =~= bviews.take(i as int + 1).map_values(
                |bb: EthtoolBitSetView| spec_fec_mode_of_bit(bb),
            ));
        }
        i = i + 1;
    }
    proof {
        assert(bviews.take(i as int) =~= bviews);
    }
    out
}

/// How the whole attribute list of a FEC message decodes.
pub open spec fn spec_parse_fec_nlas(b: Seq<u8>) -> Result<Seq<EthtoolAttrView>, DecodeError> {
    match spec_parse_codec_list::<EthtoolFecAttr>(b) {
        Ok(vs) => Ok(vs.map_values(|a: EthtoolFecAttrView| EthtoolAttrView::Fec(a))),
        Err(e) => Err(e),
    }
}

/// Decodes the whole attribute list of a FEC message.
pub fn parse_fec_nlas(buffer: &[u8]) -> (r: Result<Vec<EthtoolAttr>, DecodeError>)
    ensures
        match r {
            Ok(v) => spec_parse_fec_nlas(buffer@) == Ok::<Seq<EthtoolAttrView>, DecodeError>(
                v.deep_view(),
            ),
            Err(e) => spec_parse_fec_nlas(buffer@) == Err::<Seq<EthtoolAttrView>, DecodeError>(
                e,
            ),
        },
{
    let mut attrs = match parse_nla_vec::<EthtoolFecAttr>(buffer) {
        Ok(a) => a,
        Err(e) => {
            return Err(e);
        },
    };
    let ghost full = attrs.deep_view();
    let ghost wrapf = |a: EthtoolFecAttrView| EthtoolAttrView::Fec(a);
    let mut out: Vec<EthtoolAttr> = Vec::new();
    let mut j: usize = 0;
    let n = attrs.len();
    proof {
        assert(full.len() == n);
        assert(full.take(0) =~= Seq::<EthtoolFecAttrView>::empty());
        assert(out.deep_view() =~= full.take(0).map_values(wrapf));
        assert(attrs.deep_view() =~= full.skip(0));
    }
    while attrs.len() > 0
        invariant
            j <= full.len(),
            full.len() <= usize::MAX,
            wrapf == (|a: EthtoolFecAttrView| EthtoolAttrView::Fec(a)),
            attrs.deep_view() == full.skip(j as int),
            out.deep_view() == full.take(j as int).map_values(wrapf),
        decreases attrs.len(),
    {
        proof {
            assert(attrs.deep_view().len() == full.len() - j);
            assert(j < full.len());
            assert(attrs[0].deep_view() == full.skip(j as int)[0]);
            assert(full.skip(j as int)[0] == full[j as int]);
        }
        let ghost prev = attrs@;
        let ghost prev_deep = attrs.deep_view();
        let a = attrs.remove(0);
        let ghost old_out = out.deep_view();
        out.push(EthtoolAttr::Fec(a));
        proof {
            assert(attrs@ =~= prev.subrange(1, prev.len() as int));
            assert forall|k: int| 0 <= k < attrs.deep_view().len() implies attrs.deep_view()[k]
                == full.skip(j as int + 1)[k] by {
                assert(attrs@[k] == prev[k + 1]);
                assert(prev_deep[k + 1] == prev[k + 1].deep_view());
                assert(prev_deep[k + 1] == full.skip(j as int)[k + 1]);
            }
            assert(attrs.deep_view() =~= full.skip(j as int + 1));
            assert(out.deep_view() =~= old_out + seq![wrapf(full[j as int])]);
            assert(full.take(j as int + 1) =~= full.take(j as int).push(full[j as int]));
            assert(out.deep_view() =~= full.take(j as int + 1).map_values(wrapf));
        }
        j = j + 1;
    }
    proof {
        assert(full.take(j as int) =~= full);
        assert(out.deep_view() =~= full.map_values(wrapf));
    }
    Ok(out)
}

} // verus!
