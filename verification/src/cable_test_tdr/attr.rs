//! Attributes of the ethtool cable-test TDR (time domain reflectometry)
//! object: the action request with its optional measurement
//! configuration, and the notification carrying measured steps,
//! amplitudes and pulses.

use vstd::prelude::*;
use vstd::bytes::*;

use crate::cable_pair::{spec_cable_pair_code, spec_cable_pair_of_code, EthtoolCablePair};
use crate::error::{in_attr, spec_in_attr, DecodeError};
use crate::message::{EthtoolAttr, EthtoolAttrView};
use crate::header::{
    emit_header_list, header_list_rt, header_list_wf, lemma_header_list_round_trip,
    parse_header_list, spec_emit_header_list, spec_parse_header_list, EthtoolHeader,
    EthtoolHeaderView,
};
use crate::nla::{
    codec_list_rt, codec_list_wf, emit_nla_vec, lemma_codec_list_round_trip, parse_nla_vec,
    spec_emit_codec_list, spec_parse_codec_list, DefaultNla, DefaultNlaView, NlaCodec,
    NLA_F_NESTED, NLA_HEADER_SIZE, NLA_TYPE_MASK, check_codec_list_wf,
};
use crate::parsers::{
    emit_i16, emit_u32, emit_u8, parse_i16, parse_u32, parse_u8, spec_parse_i16, spec_parse_u32,
    spec_parse_u8, spec_i16_to_le_bytes,
};

verus! {

pub const ETHTOOL_A_CABLE_STEP_FIRST_DISTANCE: u16 = 1;

pub const ETHTOOL_A_CABLE_STEP_LAST_DISTANCE: u16 = 2;

pub const ETHTOOL_A_CABLE_STEP_STEP_DISTANCE: u16 = 3;

/// The measurement steps of a TDR run, in centimeters.
#[derive(Debug, PartialEq, Eq, Clone)]
pub enum EthtoolCableTestTdrStepAttr {
    First(u32),
    Last(u32),
    Step(u32),
    Other(DefaultNla),
}

/// The mathematical model of a step attribute.
pub enum EthtoolCableTestTdrStepAttrView {
    First(u32),
    Last(u32),
    Step(u32),
    Other(DefaultNlaView),
}

impl View for EthtoolCableTestTdrStepAttr {
    type V = EthtoolCableTestTdrStepAttrView;

    open spec fn view(&self) -> EthtoolCableTestTdrStepAttrView {
        match self {
            EthtoolCableTestTdrStepAttr::First(v) => EthtoolCableTestTdrStepAttrView::First(*v),
            EthtoolCableTestTdrStepAttr::Last(v) => EthtoolCableTestTdrStepAttrView::Last(*v),
            EthtoolCableTestTdrStepAttr::Step(v) => EthtoolCableTestTdrStepAttrView::Step(*v),
            EthtoolCableTestTdrStepAttr::Other(n) => EthtoolCableTestTdrStepAttrView::Other(n@),
        }
    }
}

impl DeepView for EthtoolCableTestTdrStepAttr {
    type V = EthtoolCableTestTdrStepAttrView;

    open spec fn deep_view(&self) -> EthtoolCableTestTdrStepAttrView {
        self.view()
    }
}

impl EthtoolCableTestTdrStepAttrView {
    pub open spec fn spec_kind(self) -> u16 {
        match self {
            EthtoolCableTestTdrStepAttrView::First(_) => ETHTOOL_A_CABLE_STEP_FIRST_DISTANCE,
            EthtoolCableTestTdrStepAttrView::Last(_) => ETHTOOL_A_CABLE_STEP_LAST_DISTANCE,
            EthtoolCableTestTdrStepAttrView::Step(_) => ETHTOOL_A_CABLE_STEP_STEP_DISTANCE,
            EthtoolCableTestTdrStepAttrView::Other(n) => n.kind,
        }
    }

    pub open spec fn spec_value(self) -> Seq<u8> {
        match self {
            EthtoolCableTestTdrStepAttrView::First(v) => spec_u32_to_le_bytes(v),
            EthtoolCableTestTdrStepAttrView::Last(v) => spec_u32_to_le_bytes(v),
            EthtoolCableTestTdrStepAttrView::Step(v) => spec_u32_to_le_bytes(v),
            EthtoolCableTestTdrStepAttrView::Other(n) => n.value,
        }
    }

    pub open spec fn wf(self) -> bool {
        self.spec_value().len() + NLA_HEADER_SIZE <= 0xffff
    }

    pub open spec fn spec_parse(kind: u16, value: Seq<u8>) -> Result<
        EthtoolCableTestTdrStepAttrView,
        DecodeError,
    > {
        let k = kind & NLA_TYPE_MASK;
        if k == ETHTOOL_A_CABLE_STEP_FIRST_DISTANCE {
            match spec_parse_u32(value) {
                Ok(v) => Ok(EthtoolCableTestTdrStepAttrView::First(v)),
                Err(e) => Err(spec_in_attr(kind, e)),
            }
        } else if k == ETHTOOL_A_CABLE_STEP_LAST_DISTANCE {
            match spec_parse_u32(value) {
                Ok(v) => Ok(EthtoolCableTestTdrStepAttrView::Last(v)),
                Err(e) => Err(spec_in_attr(kind, e)),
            }
        } else if k == ETHTOOL_A_CABLE_STEP_STEP_DISTANCE {
            match spec_parse_u32(value) {
                Ok(v) => Ok(EthtoolCableTestTdrStepAttrView::Step(v)),
                Err(e) => Err(spec_in_attr(kind, e)),
            }
        } else {
            Ok(EthtoolCableTestTdrStepAttrView::Other(DefaultNlaView { kind, value }))
        }
    }

    pub open spec fn round_trippable(self) -> bool {
        &&& self.wf()
        &&& match self {
            EthtoolCableTestTdrStepAttrView::Other(n) => {
                let k = n.kind & NLA_TYPE_MASK;
                !(1 <= k <= 3)
            },
            _ => true,
        }
    }
}

impl NlaCodec for EthtoolCableTestTdrStepAttr {
    open spec fn spec_kind_of(v: EthtoolCableTestTdrStepAttrView) -> u16 {
        v.spec_kind()
    }

    open spec fn spec_value_of(v: EthtoolCableTestTdrStepAttrView) -> Seq<u8> {
        v.spec_value()
    }

    open spec fn spec_wf(v: EthtoolCableTestTdrStepAttrView) -> bool {
        v.wf()
    }

    open spec fn spec_rt(v: EthtoolCableTestTdrStepAttrView) -> bool {
        v.round_trippable()
    }

    open spec fn spec_parse_one(kind: u16, value: Seq<u8>) -> Result<
        EthtoolCableTestTdrStepAttrView,
        DecodeError,
    > {
        EthtoolCableTestTdrStepAttrView::spec_parse(kind, value)
    }

    proof fn lemma_wf_bound(v: EthtoolCableTestTdrStepAttrView) {
    }

    proof fn lemma_round_trip(v: EthtoolCableTestTdrStepAttrView) {
        lemma_auto_spec_u32_to_from_le_bytes();
        assert(forall|k: u16| 1 <= k <= 3 ==> #[trigger] (k & 0x3fffu16) == k) by (bit_vector);
    }

    fn kind(&self) -> u16 {
        match self {
            EthtoolCableTestTdrStepAttr::First(_) => ETHTOOL_A_CABLE_STEP_FIRST_DISTANCE,
            EthtoolCableTestTdrStepAttr::Last(_) => ETHTOOL_A_CABLE_STEP_LAST_DISTANCE,
            EthtoolCableTestTdrStepAttr::Step(_) => ETHTOOL_A_CABLE_STEP_STEP_DISTANCE,
            EthtoolCableTestTdrStepAttr::Other(n) => n.kind,
        }
    }

    fn emit_value(&self, out: &mut Vec<u8>) {
        match self {
            EthtoolCableTestTdrStepAttr::First(v) => emit_u32(out, *v),
            EthtoolCableTestTdrStepAttr::Last(v) => emit_u32(out, *v),
            EthtoolCableTestTdrStepAttr::Step(v) => emit_u32(out, *v),
            EthtoolCableTestTdrStepAttr::Other(n) => out.extend_from_slice(n.value.as_slice()),
        }
    }

    fn parse(kind: u16, payload: &[u8]) -> (r: Result<EthtoolCableTestTdrStepAttr, DecodeError>) {
        let k = kind & NLA_TYPE_MASK;
        if k == ETHTOOL_A_CABLE_STEP_FIRST_DISTANCE {
            match parse_u32(payload) {
                Ok(v) => Ok(EthtoolCableTestTdrStepAttr::First(v)),
                Err(e) => Err(in_attr(kind, e)),
            }
        } else if k == ETHTOOL_A_CABLE_STEP_LAST_DISTANCE {
            match parse_u32(payload) {
                Ok(v) => Ok(EthtoolCableTestTdrStepAttr::Last(v)),
                Err(e) => Err(in_attr(kind, e)),
            }
        } else if k == ETHTOOL_A_CABLE_STEP_STEP_DISTANCE {
            match parse_u32(payload) {
                Ok(v) => Ok(EthtoolCableTestTdrStepAttr::Step(v)),
                Err(e) => Err(in_attr(kind, e)),
            }
        } else {
            Ok(
                EthtoolCableTestTdrStepAttr::Other(
                    DefaultNla { kind, value: vstd::slice::slice_to_vec(payload) },
                ),
            )
        }
    }

    fn check_wf(&self) -> (b: bool) {
        proof {
            lemma_auto_spec_u32_to_from_le_bytes();
        }
        match self {
            EthtoolCableTestTdrStepAttr::Other(n) => n.value.len() <= 0xffff - 4,
            _ => true,
        }
    }
}

pub const ETHTOOL_A_CABLE_AMPLITUDE_PAIR: u16 = 1;

pub const ETHTOOL_A_CABLE_AMPLITUDE_MV: u16 = 2;

/// A measured reflection amplitude of one cable pair, in millivolts.
#[derive(Debug, PartialEq, Eq, Clone)]
pub enum EthtoolCableTestTdrAmplitudeAttr {
    Pair(EthtoolCablePair),
    Mv(i16),
    Other(DefaultNla),
}

/// The mathematical model of an amplitude attribute.
pub enum EthtoolCableTestTdrAmplitudeAttrView {
    Pair(EthtoolCablePair),
    Mv(i16),
    Other(DefaultNlaView),
}

impl View for EthtoolCableTestTdrAmplitudeAttr {
    type V = EthtoolCableTestTdrAmplitudeAttrView;

    open spec fn view(&self) -> EthtoolCableTestTdrAmplitudeAttrView {
        match self {
            EthtoolCableTestTdrAmplitudeAttr::Pair(p) => EthtoolCableTestTdrAmplitudeAttrView::Pair(
                *p,
            ),
            EthtoolCableTestTdrAmplitudeAttr::Mv(v) => EthtoolCableTestTdrAmplitudeAttrView::Mv(*v),
            EthtoolCableTestTdrAmplitudeAttr::Other(n) => EthtoolCableTestTdrAmplitudeAttrView::Other(
                n@,
            ),
        }
    }
}

impl DeepView for EthtoolCableTestTdrAmplitudeAttr {
    type V = EthtoolCableTestTdrAmplitudeAttrView;

    open spec fn deep_view(&self) -> EthtoolCableTestTdrAmplitudeAttrView {
        self.view()
    }
}

impl EthtoolCableTestTdrAmplitudeAttrView {
    pub open spec fn spec_kind(self) -> u16 {
        match self {
            EthtoolCableTestTdrAmplitudeAttrView::Pair(_) => ETHTOOL_A_CABLE_AMPLITUDE_PAIR,
            EthtoolCableTestTdrAmplitudeAttrView::Mv(_) => ETHTOOL_A_CABLE_AMPLITUDE_MV,
            EthtoolCableTestTdrAmplitudeAttrView::Other(n) => n.kind,
        }
    }

    pub open spec fn spec_value(self) -> Seq<u8> {
        match self {
            EthtoolCableTestTdrAmplitudeAttrView::Pair(p) => seq![spec_cable_pair_code(p)],
            EthtoolCableTestTdrAmplitudeAttrView::Mv(v) => spec_i16_to_le_bytes(v),
            EthtoolCableTestTdrAmplitudeAttrView::Other(n) => n.value,
        }
    }

    pub open spec fn wf(self) -> bool {
        self.spec_value().len() + NLA_HEADER_SIZE <= 0xffff
    }

    pub open spec fn spec_parse(kind: u16, value: Seq<u8>) -> Result<
        EthtoolCableTestTdrAmplitudeAttrView,
        DecodeError,
    > {
        let k = kind & NLA_TYPE_MASK;
        if k == ETHTOOL_A_CABLE_AMPLITUDE_PAIR {
            match spec_parse_u8(value) {
                Ok(v) => Ok(
                    EthtoolCableTestTdrAmplitudeAttrView::Pair(spec_cable_pair_of_code(v)),
                ),
                Err(e) => Err(spec_in_attr(kind, e)),
            }
        } else if k == ETHTOOL_A_CABLE_AMPLITUDE_MV {
            match spec_parse_i16(value) {
                Ok(v) => Ok(EthtoolCableTestTdrAmplitudeAttrView::Mv(v)),
                Err(e) => Err(spec_in_attr(kind, e)),
            }
        } else {
            Ok(EthtoolCableTestTdrAmplitudeAttrView::Other(DefaultNlaView { kind, value }))
        }
    }

    /// A numeric `Pair` code below 4 would decode to the named pair, so
    /// only named pairs and genuinely unknown codes round-trip.
    pub open spec fn round_trippable(self) -> bool {
        &&& self.wf()
        &&& match self {
            EthtoolCableTestTdrAmplitudeAttrView::Pair(p) => match p {
                EthtoolCablePair::Other(v) => v > 3,
                _ => true,
            },
            EthtoolCableTestTdrAmplitudeAttrView::Other(n) => {
                let k = n.kind & NLA_TYPE_MASK;
                !(1 <= k <= 2)
            },
            _ => true,
        }
    }
}

impl NlaCodec for EthtoolCableTestTdrAmplitudeAttr {
    open spec fn spec_kind_of(v: EthtoolCableTestTdrAmplitudeAttrView) -> u16 {
        v.spec_kind()
    }

    open spec fn spec_value_of(v: EthtoolCableTestTdrAmplitudeAttrView) -> Seq<u8> {
        v.spec_value()
    }

    open spec fn spec_wf(v: EthtoolCableTestTdrAmplitudeAttrView) -> bool {
        v.wf()
    }

    open spec fn spec_rt(v: EthtoolCableTestTdrAmplitudeAttrView) -> bool {
        v.round_trippable()
    }

    open spec fn spec_parse_one(kind: u16, value: Seq<u8>) -> Result<
        EthtoolCableTestTdrAmplitudeAttrView,
        DecodeError,
    > {
        EthtoolCableTestTdrAmplitudeAttrView::spec_parse(kind, value)
    }

    proof fn lemma_wf_bound(v: EthtoolCableTestTdrAmplitudeAttrView) {
    }

    proof fn lemma_round_trip(v: EthtoolCableTestTdrAmplitudeAttrView) {
        vstd::bytes::lemma_auto_spec_u16_to_from_le_bytes();
        assert(1u16 & 0x3fffu16 == 1 && 2u16 & 0x3fffu16 == 2) by (bit_vector);
        assert(forall|x: i16| #[trigger] ((x as u16) as i16) == x) by (bit_vector);
    }

    fn kind(&self) -> u16 {
        match self {
            EthtoolCableTestTdrAmplitudeAttr::Pair(_) => ETHTOOL_A_CABLE_AMPLITUDE_PAIR,
            EthtoolCableTestTdrAmplitudeAttr::Mv(_) => ETHTOOL_A_CABLE_AMPLITUDE_MV,
            EthtoolCableTestTdrAmplitudeAttr::Other(n) => n.kind,
        }
    }

    fn emit_value(&self, out: &mut Vec<u8>) {
        match self {
            EthtoolCableTestTdrAmplitudeAttr::Pair(p) => emit_u8(out, p.code()),
            EthtoolCableTestTdrAmplitudeAttr::Mv(v) => emit_i16(out, *v),
            EthtoolCableTestTdrAmplitudeAttr::Other(n) => out.extend_from_slice(
                n.value.as_slice(),
            ),
        }
    }

    fn parse(kind: u16, payload: &[u8]) -> (r: Result<
        EthtoolCableTestTdrAmplitudeAttr,
        DecodeError,
    >) {
        let k = kind & NLA_TYPE_MASK;
        if k == ETHTOOL_A_CABLE_AMPLITUDE_PAIR {
            match parse_u8(payload) {
                Ok(v) => Ok(EthtoolCableTestTdrAmplitudeAttr::Pair(EthtoolCablePair::of_code(v))),
                Err(e) => Err(in_attr(kind, e)),
            }
        } else if k == ETHTOOL_A_CABLE_AMPLITUDE_MV {
            match parse_i16(payload) {
                Ok(v) => Ok(EthtoolCableTestTdrAmplitudeAttr::Mv(v)),
                Err(e) => Err(in_attr(kind, e)),
            }
        } else {
            Ok(
                EthtoolCableTestTdrAmplitudeAttr::Other(
                    DefaultNla { kind, value: vstd::slice::slice_to_vec(payload) },
                ),
            )
        }
    }

    fn check_wf(&self) -> (b: bool) {
        proof {
            lemma_auto_spec_u16_to_from_le_bytes();
        }
        match self {
            EthtoolCableTestTdrAmplitudeAttr::Other(n) => n.value.len() <= 0xffff - 4,
            _ => true,
        }
    }
}

pub const ETHTOOL_A_CABLE_PULSE_MV: u16 = 1;

/// The probe pulse amplitude of a TDR run, in millivolts.
#[derive(Debug, PartialEq, Eq, Clone)]
pub enum EthtoolCableTestTdrPulseAttr {
    Mv(i16),
    Other(DefaultNla),
}

/// The mathematical model of a pulse attribute.
pub enum EthtoolCableTestTdrPulseAttrView {
    Mv(i16),
    Other(DefaultNlaView),
}

impl View for EthtoolCableTestTdrPulseAttr {
    type V = EthtoolCableTestTdrPulseAttrView;

    open spec fn view(&self) -> EthtoolCableTestTdrPulseAttrView {
        match self {
            EthtoolCableTestTdrPulseAttr::Mv(v) => EthtoolCableTestTdrPulseAttrView::Mv(*v),
            EthtoolCableTestTdrPulseAttr::Other(n) => EthtoolCableTestTdrPulseAttrView::Other(n@),
        }
    }
}

impl DeepView for EthtoolCableTestTdrPulseAttr {
    type V = EthtoolCableTestTdrPulseAttrView;

    open spec fn deep_view(&self) -> EthtoolCableTestTdrPulseAttrView {
        self.view()
    }
}

impl EthtoolCableTestTdrPulseAttrView {
    pub open spec fn spec_kind(self) -> u16 {
        match self {
            EthtoolCableTestTdrPulseAttrView::Mv(_) => ETHTOOL_A_CABLE_PULSE_MV,
            EthtoolCableTestTdrPulseAttrView::Other(n) => n.kind,
        }
    }

    pub open spec fn spec_value(self) -> Seq<u8> {
        match self {
            EthtoolCableTestTdrPulseAttrView::Mv(v) => spec_i16_to_le_bytes(v),
            EthtoolCableTestTdrPulseAttrView::Other(n) => n.value,
        }
    }

    pub open spec fn wf(self) -> bool {
        self.spec_value().len() + NLA_HEADER_SIZE <= 0xffff
    }

    pub open spec fn spec_parse(kind: u16, value: Seq<u8>) -> Result<
        EthtoolCableTestTdrPulseAttrView,
        DecodeError,
    > {
        let k = kind & NLA_TYPE_MASK;
        if k == ETHTOOL_A_CABLE_PULSE_MV {
            match spec_parse_i16(value) {
                Ok(v) => Ok(EthtoolCableTestTdrPulseAttrView::Mv(v)),
                Err(e) => Err(spec_in_attr(kind, e)),
            }
        } else {
            Ok(EthtoolCableTestTdrPulseAttrView::Other(DefaultNlaView { kind, value }))
        }
    }

    pub open spec fn round_trippable(self) -> bool {
        &&& self.wf()
        &&& match self {
            EthtoolCableTestTdrPulseAttrView::Other(n) => n.kind & NLA_TYPE_MASK
                != ETHTOOL_A_CABLE_PULSE_MV,
            _ => true,
        }
    }
}

impl NlaCodec for EthtoolCableTestTdrPulseAttr {
    open spec fn spec_kind_of(v: EthtoolCableTestTdrPulseAttrView) -> u16 {
        v.spec_kind()
    }

    open spec fn spec_value_of(v: EthtoolCableTestTdrPulseAttrView) -> Seq<u8> {
        v.spec_value()
    }

    open spec fn spec_wf(v: EthtoolCableTestTdrPulseAttrView) -> bool {
        v.wf()
    }

    open spec fn spec_rt(v: EthtoolCableTestTdrPulseAttrView) -> bool {
        v.round_trippable()
    }

    open spec fn spec_parse_one(kind: u16, value: Seq<u8>) -> Result<
        EthtoolCableTestTdrPulseAttrView,
        DecodeError,
    > {
        EthtoolCableTestTdrPulseAttrView::spec_parse(kind, value)
    }

    proof fn lemma_wf_bound(v: EthtoolCableTestTdrPulseAttrView) {
    }

    proof fn lemma_round_trip(v: EthtoolCableTestTdrPulseAttrView) {
        vstd::bytes::lemma_auto_spec_u16_to_from_le_bytes();
        assert(1u16 & 0x3fffu16 == 1) by (bit_vector);
        assert(forall|x: i16| #[trigger] ((x as u16) as i16) == x) by (bit_vector);
    }

    fn kind(&self) -> u16 {
        match self {
            EthtoolCableTestTdrPulseAttr::Mv(_) => ETHTOOL_A_CABLE_PULSE_MV,
            EthtoolCableTestTdrPulseAttr::Other(n) => n.kind,
        }
    }

    fn emit_value(&self, out: &mut Vec<u8>) {
        match self {
            EthtoolCableTestTdrPulseAttr::Mv(v) => emit_i16(out, *v),
            EthtoolCableTestTdrPulseAttr::Other(n) => out.extend_from_slice(n.value.as_slice()),
        }
    }

    fn parse(kind: u16, payload: &[u8]) -> (r: Result<EthtoolCableTestTdrPulseAttr, DecodeError>) {
        let k = kind & NLA_TYPE_MASK;
        if k == ETHTOOL_A_CABLE_PULSE_MV {
            match parse_i16(payload) {
                Ok(v) => Ok(EthtoolCableTestTdrPulseAttr::Mv(v)),
                Err(e) => Err(in_attr(kind, e)),
            }
        } else {
            Ok(
                EthtoolCableTestTdrPulseAttr::Other(
                    DefaultNla { kind, value: vstd::slice::slice_to_vec(payload) },
                ),
            )
        }
    }

    fn check_wf(&self) -> (b: bool) {
        proof {
            lemma_auto_spec_u16_to_from_le_bytes();
        }
        match self {
            EthtoolCableTestTdrPulseAttr::Other(n) => n.value.len() <= 0xffff - 4,
            _ => true,
        }
    }
}

pub const ETHTOOL_A_CABLE_TEST_TDR_CFG_FIRST: u16 = 1;

pub const ETHTOOL_A_CABLE_TEST_TDR_CFG_LAST: u16 = 2;

pub const ETHTOOL_A_CABLE_TEST_TDR_CFG_STEP: u16 = 3;

pub const ETHTOOL_A_CABLE_TEST_TDR_CFG_PAIR: u16 = 4;

/// One entry of the optional TDR measurement configuration. Distances
/// are in centimeters.
#[derive(Debug, PartialEq, Eq, Clone)]
pub enum EthtoolCableTestTdrConfigAttr {
    First(u32),
    Last(u32),
    Step(u32),
    Pair(EthtoolCablePair),
    Other(DefaultNla),
}

/// The mathematical model of a configuration attribute.
pub enum EthtoolCableTestTdrConfigAttrView {
    First(u32),
    Last(u32),
    Step(u32),
    Pair(EthtoolCablePair),
    Other(DefaultNlaView),
}

impl View for EthtoolCableTestTdrConfigAttr {
    type V = EthtoolCableTestTdrConfigAttrView;

    open spec fn view(&self) -> EthtoolCableTestTdrConfigAttrView {
        match self {
            EthtoolCableTestTdrConfigAttr::First(v) => EthtoolCableTestTdrConfigAttrView::First(*v),
            EthtoolCableTestTdrConfigAttr::Last(v) => EthtoolCableTestTdrConfigAttrView::Last(*v),
            EthtoolCableTestTdrConfigAttr::Step(v) => EthtoolCableTestTdrConfigAttrView::Step(*v),
            EthtoolCableTestTdrConfigAttr::Pair(p) => EthtoolCableTestTdrConfigAttrView::Pair(*p),
            EthtoolCableTestTdrConfigAttr::Other(n) => EthtoolCableTestTdrConfigAttrView::Other(n@),
        }
    }
}

impl DeepView for EthtoolCableTestTdrConfigAttr {
    type V = EthtoolCableTestTdrConfigAttrView;

    open spec fn deep_view(&self) -> EthtoolCableTestTdrConfigAttrView {
        self.view()
    }
}

impl EthtoolCableTestTdrConfigAttrView {
    pub open spec fn spec_kind(self) -> u16 {
        match self {
            EthtoolCableTestTdrConfigAttrView::First(_) => ETHTOOL_A_CABLE_TEST_TDR_CFG_FIRST,
            EthtoolCableTestTdrConfigAttrView::Last(_) => ETHTOOL_A_CABLE_TEST_TDR_CFG_LAST,
            EthtoolCableTestTdrConfigAttrView::Step(_) => ETHTOOL_A_CABLE_TEST_TDR_CFG_STEP,
            EthtoolCableTestTdrConfigAttrView::Pair(_) => ETHTOOL_A_CABLE_TEST_TDR_CFG_PAIR,
            EthtoolCableTestTdrConfigAttrView::Other(n) => n.kind,
        }
    }

    pub open spec fn spec_value(self) -> Seq<u8> {
        match self {
            EthtoolCableTestTdrConfigAttrView::First(v) => spec_u32_to_le_bytes(v),
            EthtoolCableTestTdrConfigAttrView::Last(v) => spec_u32_to_le_bytes(v),
            EthtoolCableTestTdrConfigAttrView::Step(v) => spec_u32_to_le_bytes(v),
            EthtoolCableTestTdrConfigAttrView::Pair(p) => seq![spec_cable_pair_code(p)],
            EthtoolCableTestTdrConfigAttrView::Other(n) => n.value,
        }
    }

    pub open spec fn wf(self) -> bool {
        self.spec_value().len() + NLA_HEADER_SIZE <= 0xffff
    }

    pub open spec fn spec_parse(kind: u16, value: Seq<u8>) -> Result<
        EthtoolCableTestTdrConfigAttrView,
        DecodeError,
    > {
        let k = kind & NLA_TYPE_MASK;
        if k == ETHTOOL_A_CABLE_TEST_TDR_CFG_FIRST {
            match spec_parse_u32(value) {
                Ok(v) => Ok(EthtoolCableTestTdrConfigAttrView::First(v)),
                Err(e) => Err(spec_in_attr(kind, e)),
            }
        } else if k == ETHTOOL_A_CABLE_TEST_TDR_CFG_LAST {
            match spec_parse_u32(value) {
                Ok(v) => Ok(EthtoolCableTestTdrConfigAttrView::Last(v)),
                Err(e) => Err(spec_in_attr(kind, e)),
            }
        } else if k == ETHTOOL_A_CABLE_TEST_TDR_CFG_STEP {
            match spec_parse_u32(value) {
                Ok(v) => Ok(EthtoolCableTestTdrConfigAttrView::Step(v)),
                Err(e) => Err(spec_in_attr(kind, e)),
            }
        } else if k == ETHTOOL_A_CABLE_TEST_TDR_CFG_PAIR {
            match spec_parse_u8(value) {
                Ok(v) => Ok(EthtoolCableTestTdrConfigAttrView::Pair(spec_cable_pair_of_code(v))),
                Err(e) => Err(spec_in_attr(kind, e)),
            }
        } else {
            Ok(EthtoolCableTestTdrConfigAttrView::Other(DefaultNlaView { kind, value }))
        }
    }

    pub open spec fn round_trippable(self) -> bool {
        &&& self.wf()
        &&& match self {
            EthtoolCableTestTdrConfigAttrView::Pair(p) => match p {
                EthtoolCablePair::Other(v) => v > 3,
                _ => true,
            },
            EthtoolCableTestTdrConfigAttrView::Other(n) => {
                let k = n.kind & NLA_TYPE_MASK;
                !(1 <= k <= 4)
            },
            _ => true,
        }
    }
}

impl NlaCodec for EthtoolCableTestTdrConfigAttr {
    open spec fn spec_kind_of(v: EthtoolCableTestTdrConfigAttrView) -> u16 {
        v.spec_kind()
    }

    open spec fn spec_value_of(v: EthtoolCableTestTdrConfigAttrView) -> Seq<u8> {
        v.spec_value()
    }

    open spec fn spec_wf(v: EthtoolCableTestTdrConfigAttrView) -> bool {
        v.wf()
    }

    open spec fn spec_rt(v: EthtoolCableTestTdrConfigAttrView) -> bool {
        v.round_trippable()
    }

    open spec fn spec_parse_one(kind: u16, value: Seq<u8>) -> Result<
        EthtoolCableTestTdrConfigAttrView,
        DecodeError,
    > {
        EthtoolCableTestTdrConfigAttrView::spec_parse(kind, value)
    }

    proof fn lemma_wf_bound(v: EthtoolCableTestTdrConfigAttrView) {
    }

    proof fn lemma_round_trip(v: EthtoolCableTestTdrConfigAttrView) {
        lemma_auto_spec_u32_to_from_le_bytes();
        assert(forall|k: u16| 1 <= k <= 4 ==> #[trigger] (k & 0x3fffu16) == k) by (bit_vector);
    }

    fn kind(&self) -> u16 {
        match self {
            EthtoolCableTestTdrConfigAttr::First(_) => ETHTOOL_A_CABLE_TEST_TDR_CFG_FIRST,
            EthtoolCableTestTdrConfigAttr::Last(_) => ETHTOOL_A_CABLE_TEST_TDR_CFG_LAST,
            EthtoolCableTestTdrConfigAttr::Step(_) => ETHTOOL_A_CABLE_TEST_TDR_CFG_STEP,
            EthtoolCableTestTdrConfigAttr::Pair(_) => ETHTOOL_A_CABLE_TEST_TDR_CFG_PAIR,
            EthtoolCableTestTdrConfigAttr::Other(n) => n.kind,
        }
    }

    fn emit_value(&self, out: &mut Vec<u8>) {
        match self {
            EthtoolCableTestTdrConfigAttr::First(v) => emit_u32(out, *v),
            EthtoolCableTestTdrConfigAttr::Last(v) => emit_u32(out, *v),
            EthtoolCableTestTdrConfigAttr::Step(v) => emit_u32(out, *v),
            EthtoolCableTestTdrConfigAttr::Pair(p) => emit_u8(out, p.code()),
            EthtoolCableTestTdrConfigAttr::Other(n) => out.extend_from_slice(n.value.as_slice()),
        }
    }

    fn parse(kind: u16, payload: &[u8]) -> (r: Result<EthtoolCableTestTdrConfigAttr, DecodeError>) {
        let k = kind & NLA_TYPE_MASK;
        if k == ETHTOOL_A_CABLE_TEST_TDR_CFG_FIRST {
            match parse_u32(payload) {
                Ok(v) => Ok(EthtoolCableTestTdrConfigAttr::First(v)),
                Err(e) => Err(in_attr(kind, e)),
            }
        } else if k == ETHTOOL_A_CABLE_TEST_TDR_CFG_LAST {
            match parse_u32(payload) {
                Ok(v) => Ok(EthtoolCableTestTdrConfigAttr::Last(v)),
                Err(e) => Err(in_attr(kind, e)),
            }
        } else if k == ETHTOOL_A_CABLE_TEST_TDR_CFG_STEP {
            match parse_u32(payload) {
                Ok(v) => Ok(EthtoolCableTestTdrConfigAttr::Step(v)),
                Err(e) => Err(in_attr(kind, e)),
            }
        } else if k == ETHTOOL_A_CABLE_TEST_TDR_CFG_PAIR {
            match parse_u8(payload) {
                Ok(v) => Ok(EthtoolCableTestTdrConfigAttr::Pair(EthtoolCablePair::of_code(v))),
                Err(e) => Err(in_attr(kind, e)),
            }
        } else {
            Ok(
                EthtoolCableTestTdrConfigAttr::Other(
                    DefaultNla { kind, value: vstd::slice::slice_to_vec(payload) },
                ),
            )
        }
    }

    fn check_wf(&self) -> (b: bool) {
        proof {
            lemma_auto_spec_u32_to_from_le_bytes();
        }
        match self {
            EthtoolCableTestTdrConfigAttr::Other(n) => n.value.len() <= 0xffff - 4,
            _ => true,
        }
    }
}

pub const ETHTOOL_A_CABLE_TDR_NEST_STEP: u16 = 1;

pub const ETHTOOL_A_CABLE_TDR_NEST_AMPLITUDE: u16 = 2;

pub const ETHTOOL_A_CABLE_TDR_NEST_PULSE: u16 = 3;

/// One nested measurement list of a TDR notification.
#[derive(Debug, PartialEq, Eq, Clone)]
pub enum EthtoolCableTestTdrNestAttr {
    Step(Vec<EthtoolCableTestTdrStepAttr>),
    Amplitude(Vec<EthtoolCableTestTdrAmplitudeAttr>),
    Pulse(Vec<EthtoolCableTestTdrPulseAttr>),
    Other(DefaultNla),
}

/// The mathematical model of a nested measurement list.
pub enum EthtoolCableTestTdrNestAttrView {
    Step(Seq<EthtoolCableTestTdrStepAttrView>),
    Amplitude(Seq<EthtoolCableTestTdrAmplitudeAttrView>),
    Pulse(Seq<EthtoolCableTestTdrPulseAttrView>),
    Other(DefaultNlaView),
}

impl View for EthtoolCableTestTdrNestAttr {
    type V = EthtoolCableTestTdrNestAttrView;

    open spec fn view(&self) -> EthtoolCableTestTdrNestAttrView {
        match self {
            EthtoolCableTestTdrNestAttr::Step(vs) => EthtoolCableTestTdrNestAttrView::Step(
                vs.deep_view(),
            ),
            EthtoolCableTestTdrNestAttr::Amplitude(vs) => EthtoolCableTestTdrNestAttrView::Amplitude(
                vs.deep_view(),
            ),
            EthtoolCableTestTdrNestAttr::Pulse(vs) => EthtoolCableTestTdrNestAttrView::Pulse(
                vs.deep_view(),
            ),
            EthtoolCableTestTdrNestAttr::Other(n) => EthtoolCableTestTdrNestAttrView::Other(n@),
        }
    }
}

impl DeepView for EthtoolCableTestTdrNestAttr {
    type V = EthtoolCableTestTdrNestAttrView;

    open spec fn deep_view(&self) -> EthtoolCableTestTdrNestAttrView {
        self.view()
    }
}

impl EthtoolCableTestTdrNestAttrView {
    pub open spec fn spec_kind(self) -> u16 {
        match self {
            EthtoolCableTestTdrNestAttrView::Step(_) => ETHTOOL_A_CABLE_TDR_NEST_STEP
                | NLA_F_NESTED,
            EthtoolCableTestTdrNestAttrView::Amplitude(_) => ETHTOOL_A_CABLE_TDR_NEST_AMPLITUDE
                | NLA_F_NESTED,
            EthtoolCableTestTdrNestAttrView::Pulse(_) => ETHTOOL_A_CABLE_TDR_NEST_PULSE
                | NLA_F_NESTED,
            EthtoolCableTestTdrNestAttrView::Other(n) => n.kind,
        }
    }

    pub open spec fn spec_value(self) -> Seq<u8> {
        match self {
            EthtoolCableTestTdrNestAttrView::Step(vs) => spec_emit_codec_list::<
                EthtoolCableTestTdrStepAttr,
            >(vs),
            EthtoolCableTestTdrNestAttrView::Amplitude(vs) => spec_emit_codec_list::<
                EthtoolCableTestTdrAmplitudeAttr,
            >(vs),
            EthtoolCableTestTdrNestAttrView::Pulse(vs) => spec_emit_codec_list::<
                EthtoolCableTestTdrPulseAttr,
            >(vs),
            EthtoolCableTestTdrNestAttrView::Other(n) => n.value,
        }
    }

    pub open spec fn wf(self) -> bool {
        &&& self.spec_value().len() + NLA_HEADER_SIZE <= 0xffff
        &&& match self {
            EthtoolCableTestTdrNestAttrView::Step(vs) => codec_list_wf::<
                EthtoolCableTestTdrStepAttr,
            >(vs),
            EthtoolCableTestTdrNestAttrView::Amplitude(vs) => codec_list_wf::<
                EthtoolCableTestTdrAmplitudeAttr,
            >(vs),
            EthtoolCableTestTdrNestAttrView::Pulse(vs) => codec_list_wf::<
                EthtoolCableTestTdrPulseAttr,
            >(vs),
            EthtoolCableTestTdrNestAttrView::Other(_) => true,
        }
    }

    pub open spec fn spec_parse(kind: u16, value: Seq<u8>) -> Result<
        EthtoolCableTestTdrNestAttrView,
        DecodeError,
    > {
        let k = kind & NLA_TYPE_MASK;
        if k == ETHTOOL_A_CABLE_TDR_NEST_STEP {
            match spec_parse_codec_list::<EthtoolCableTestTdrStepAttr>(value) {
                Ok(vs) => Ok(EthtoolCableTestTdrNestAttrView::Step(vs)),
                Err(e) => Err(spec_in_attr(kind, e)),
            }
        } else if k == ETHTOOL_A_CABLE_TDR_NEST_AMPLITUDE {
            match spec_parse_codec_list::<EthtoolCableTestTdrAmplitudeAttr>(value) {
                Ok(vs) => Ok(EthtoolCableTestTdrNestAttrView::Amplitude(vs)),
                Err(e) => Err(spec_in_attr(kind, e)),
            }
        } else if k == ETHTOOL_A_CABLE_TDR_NEST_PULSE {
            match spec_parse_codec_list::<EthtoolCableTestTdrPulseAttr>(value) {
                Ok(vs) => Ok(EthtoolCableTestTdrNestAttrView::Pulse(vs)),
                Err(e) => Err(spec_in_attr(kind, e)),
            }
        } else {
            Ok(EthtoolCableTestTdrNestAttrView::Other(DefaultNlaView { kind, value }))
        }
    }

    pub open spec fn round_trippable(self) -> bool {
        &&& self.wf()
        &&& match self {
            EthtoolCableTestTdrNestAttrView::Step(vs) => codec_list_rt::<
                EthtoolCableTestTdrStepAttr,
            >(vs),
            EthtoolCableTestTdrNestAttrView::Amplitude(vs) => codec_list_rt::<
                EthtoolCableTestTdrAmplitudeAttr,
            >(vs),
            EthtoolCableTestTdrNestAttrView::Pulse(vs) => codec_list_rt::<
                EthtoolCableTestTdrPulseAttr,
            >(vs),
            EthtoolCableTestTdrNestAttrView::Other(n) => {
                let k = n.kind & NLA_TYPE_MASK;
                !(1 <= k <= 3)
            },
        }
    }
}

impl NlaCodec for EthtoolCableTestTdrNestAttr {
    open spec fn spec_kind_of(v: EthtoolCableTestTdrNestAttrView) -> u16 {
        v.spec_kind()
    }

    open spec fn spec_value_of(v: EthtoolCableTestTdrNestAttrView) -> Seq<u8> {
        v.spec_value()
    }

    open spec fn spec_wf(v: EthtoolCableTestTdrNestAttrView) -> bool {
        v.wf()
    }

    open spec fn spec_rt(v: EthtoolCableTestTdrNestAttrView) -> bool {
        v.round_trippable()
    }

    open spec fn spec_parse_one(kind: u16, value: Seq<u8>) -> Result<
        EthtoolCableTestTdrNestAttrView,
        DecodeError,
    > {
        EthtoolCableTestTdrNestAttrView::spec_parse(kind, value)
    }

    proof fn lemma_wf_bound(v: EthtoolCableTestTdrNestAttrView) {
    }

    proof fn lemma_round_trip(v: EthtoolCableTestTdrNestAttrView) {
        assert((1u16 | 0x8000u16) & 0x3fffu16 == 1 && (2u16 | 0x8000u16) & 0x3fffu16 == 2 && (3u16
            | 0x8000u16) & 0x3fffu16 == 3) by (bit_vector);
        match v {
            EthtoolCableTestTdrNestAttrView::Step(vs) => {
                lemma_codec_list_round_trip::<EthtoolCableTestTdrStepAttr>(vs);
            },
            EthtoolCableTestTdrNestAttrView::Amplitude(vs) => {
                lemma_codec_list_round_trip::<EthtoolCableTestTdrAmplitudeAttr>(vs);
            },
            EthtoolCableTestTdrNestAttrView::Pulse(vs) => {
                lemma_codec_list_round_trip::<EthtoolCableTestTdrPulseAttr>(vs);
            },
            _ => {},
        }
    }

    fn kind(&self) -> u16 {
        match self {
            EthtoolCableTestTdrNestAttr::Step(_) => ETHTOOL_A_CABLE_TDR_NEST_STEP | NLA_F_NESTED,
            EthtoolCableTestTdrNestAttr::Amplitude(_) => ETHTOOL_A_CABLE_TDR_NEST_AMPLITUDE
                | NLA_F_NESTED,
            EthtoolCableTestTdrNestAttr::Pulse(_) => ETHTOOL_A_CABLE_TDR_NEST_PULSE | NLA_F_NESTED,
            EthtoolCableTestTdrNestAttr::Other(n) => n.kind,
        }
    }

    fn emit_value(&self, out: &mut Vec<u8>) {
        match self {
            EthtoolCableTestTdrNestAttr::Step(vs) => emit_nla_vec::<EthtoolCableTestTdrStepAttr>(
                vs,
                out,
            ),
            EthtoolCableTestTdrNestAttr::Amplitude(vs) => emit_nla_vec::<
                EthtoolCableTestTdrAmplitudeAttr,
            >(vs, out),
            EthtoolCableTestTdrNestAttr::Pulse(vs) => emit_nla_vec::<EthtoolCableTestTdrPulseAttr>(
                vs,
                out,
            ),
            EthtoolCableTestTdrNestAttr::Other(n) => out.extend_from_slice(n.value.as_slice()),
        }
    }

    fn parse(kind: u16, payload: &[u8]) -> (r: Result<EthtoolCableTestTdrNestAttr, DecodeError>) {
        let k = kind & NLA_TYPE_MASK;
        if k == ETHTOOL_A_CABLE_TDR_NEST_STEP {
            match parse_nla_vec::<EthtoolCableTestTdrStepAttr>(payload) {
                Ok(vs) => Ok(EthtoolCableTestTdrNestAttr::Step(vs)),
                Err(e) => Err(in_attr(kind, e)),
            }
        } else if k == ETHTOOL_A_CABLE_TDR_NEST_AMPLITUDE {
            match parse_nla_vec::<EthtoolCableTestTdrAmplitudeAttr>(payload) {
                Ok(vs) => Ok(EthtoolCableTestTdrNestAttr::Amplitude(vs)),
                Err(e) => Err(in_attr(kind, e)),
            }
        } else if k == ETHTOOL_A_CABLE_TDR_NEST_PULSE {
            match parse_nla_vec::<EthtoolCableTestTdrPulseAttr>(payload) {
                Ok(vs) => Ok(EthtoolCableTestTdrNestAttr::Pulse(vs)),
                Err(e) => Err(in_attr(kind, e)),
            }
        } else {
            Ok(
                EthtoolCableTestTdrNestAttr::Other(
                    DefaultNla { kind, value: vstd::slice::slice_to_vec(payload) },
                ),
            )
        }
    }

    fn check_wf(&self) -> (b: bool) {
        match self {
            EthtoolCableTestTdrNestAttr::Step(vs) => check_codec_list_wf::<
                EthtoolCableTestTdrStepAttr,
            >(vs),
            EthtoolCableTestTdrNestAttr::Amplitude(vs) => check_codec_list_wf::<
                EthtoolCableTestTdrAmplitudeAttr,
            >(vs),
            EthtoolCableTestTdrNestAttr::Pulse(vs) => check_codec_list_wf::<
                EthtoolCableTestTdrPulseAttr,
            >(vs),
            EthtoolCableTestTdrNestAttr::Other(n) => n.value.len() <= 0xffff - 4,
        }
    }
}

pub const ETHTOOL_A_CABLE_TEST_TDR_NTF_HEADER: u16 = 1;

pub const ETHTOOL_A_CABLE_TEST_TDR_NTF_STATUS: u16 = 2;

pub const ETHTOOL_A_CABLE_TEST_TDR_NTF_NEST: u16 = 3;

pub const ETHTOOL_A_CABLE_TEST_NTF_STATUS_STARTED: u8 = 1;

pub const ETHTOOL_A_CABLE_TEST_NTF_STATUS_COMPLETED: u8 = 2;

/// The progress of a cable test, as a notification reports it.
#[derive(Debug, PartialEq, Eq, Clone, Copy, Structural)]
pub enum EthtoolCableTestTdrStatus {
    Started,
    Completed,
    Other(u8),
}

/// The status that a wire code stands for.
pub open spec fn spec_tdr_status_of_code(value: u8) -> EthtoolCableTestTdrStatus {
    if value == ETHTOOL_A_CABLE_TEST_NTF_STATUS_STARTED {
        EthtoolCableTestTdrStatus::Started
    } else if value == ETHTOOL_A_CABLE_TEST_NTF_STATUS_COMPLETED {
        EthtoolCableTestTdrStatus::Completed
    } else {
        EthtoolCableTestTdrStatus::Other(value)
    }
}

/// The wire code a status encodes to.
pub open spec fn spec_tdr_status_code(value: EthtoolCableTestTdrStatus) -> u8 {
    match value {
        EthtoolCableTestTdrStatus::Started => ETHTOOL_A_CABLE_TEST_NTF_STATUS_STARTED,
        EthtoolCableTestTdrStatus::Completed => ETHTOOL_A_CABLE_TEST_NTF_STATUS_COMPLETED,
        EthtoolCableTestTdrStatus::Other(v) => v,
    }
}

impl EthtoolCableTestTdrStatus {
    /// The status a wire code stands for.
    pub fn of_code(value: u8) -> (r: Self)
        ensures
            r == spec_tdr_status_of_code(value),
    {
        if value == ETHTOOL_A_CABLE_TEST_NTF_STATUS_STARTED {
            EthtoolCableTestTdrStatus::Started
        } else if value == ETHTOOL_A_CABLE_TEST_NTF_STATUS_COMPLETED {
            EthtoolCableTestTdrStatus::Completed
        } else {
            EthtoolCableTestTdrStatus::Other(value)
        }
    }

    /// The wire code this status encodes to.
    pub fn code(&self) -> (r: u8)
        ensures
            r == spec_tdr_status_code(*self),
    {
        match self {
            EthtoolCableTestTdrStatus::Started => ETHTOOL_A_CABLE_TEST_NTF_STATUS_STARTED,
            EthtoolCableTestTdrStatus::Completed => ETHTOOL_A_CABLE_TEST_NTF_STATUS_COMPLETED,
            EthtoolCableTestTdrStatus::Other(v) => *v,
        }
    }
}

impl From<u8> for EthtoolCableTestTdrStatus {
    fn from(value: u8) -> (r: Self) {
        EthtoolCableTestTdrStatus::of_code(value)
    }
}

impl vstd::std_specs::convert::FromSpecImpl<u8> for EthtoolCableTestTdrStatus {
    open spec fn obeys_from_spec() -> bool {
        true
    }

    open spec fn from_spec(value: u8) -> Self {
        spec_tdr_status_of_code(value)
    }
}

impl From<EthtoolCableTestTdrStatus> for u8 {
    fn from(value: EthtoolCableTestTdrStatus) -> (r: u8) {
        value.code()
    }
}

impl vstd::std_specs::convert::FromSpecImpl<EthtoolCableTestTdrStatus> for u8 {
    open spec fn obeys_from_spec() -> bool {
        true
    }

    open spec fn from_spec(value: EthtoolCableTestTdrStatus) -> u8 {
        spec_tdr_status_code(value)
    }
}

/// One attribute of a TDR notification.
#[derive(Debug, PartialEq, Eq, Clone)]
pub enum EthtoolCableTestTdrNotifyAttr {
    Header(Vec<EthtoolHeader>),
    Status(EthtoolCableTestTdrStatus),
    Nest(Vec<EthtoolCableTestTdrNestAttr>),
    Other(DefaultNla),
}

/// The mathematical model of a notification attribute.
pub enum EthtoolCableTestTdrNotifyAttrView {
    Header(Seq<EthtoolHeaderView>),
    Status(EthtoolCableTestTdrStatus),
    Nest(Seq<EthtoolCableTestTdrNestAttrView>),
    Other(DefaultNlaView),
}

impl View for EthtoolCableTestTdrNotifyAttr {
    type V = EthtoolCableTestTdrNotifyAttrView;

    open spec fn view(&self) -> EthtoolCableTestTdrNotifyAttrView {
        match self {
            EthtoolCableTestTdrNotifyAttr::Header(hs) => EthtoolCableTestTdrNotifyAttrView::Header(
                hs.deep_view(),
            ),
            EthtoolCableTestTdrNotifyAttr::Status(s) => EthtoolCableTestTdrNotifyAttrView::Status(
                *s,
            ),
            EthtoolCableTestTdrNotifyAttr::Nest(vs) => EthtoolCableTestTdrNotifyAttrView::Nest(
                vs.deep_view(),
            ),
            EthtoolCableTestTdrNotifyAttr::Other(n) => EthtoolCableTestTdrNotifyAttrView::Other(n@),
        }
    }
}

impl DeepView for EthtoolCableTestTdrNotifyAttr {
    type V = EthtoolCableTestTdrNotifyAttrView;

    open spec fn deep_view(&self) -> EthtoolCableTestTdrNotifyAttrView {
        self.view()
    }
}

impl EthtoolCableTestTdrNotifyAttrView {
    pub open spec fn spec_kind(self) -> u16 {
        match self {
            EthtoolCableTestTdrNotifyAttrView::Header(_) => ETHTOOL_A_CABLE_TEST_TDR_NTF_HEADER
                | NLA_F_NESTED,
            EthtoolCableTestTdrNotifyAttrView::Status(_) => ETHTOOL_A_CABLE_TEST_TDR_NTF_STATUS,
            EthtoolCableTestTdrNotifyAttrView::Nest(_) => ETHTOOL_A_CABLE_TEST_TDR_NTF_NEST
                | NLA_F_NESTED,
            EthtoolCableTestTdrNotifyAttrView::Other(n) => n.kind,
        }
    }

    pub open spec fn spec_value(self) -> Seq<u8> {
        match self {
            EthtoolCableTestTdrNotifyAttrView::Header(hs) => spec_emit_header_list(hs),
            EthtoolCableTestTdrNotifyAttrView::Status(s) => seq![spec_tdr_status_code(s)],
            EthtoolCableTestTdrNotifyAttrView::Nest(vs) => spec_emit_codec_list::<
                EthtoolCableTestTdrNestAttr,
            >(vs),
            EthtoolCableTestTdrNotifyAttrView::Other(n) => n.value,
        }
    }

    pub open spec fn wf(self) -> bool {
        &&& self.spec_value().len() + NLA_HEADER_SIZE <= 0xffff
        &&& match self {
            EthtoolCableTestTdrNotifyAttrView::Header(hs) => header_list_wf(hs),
            EthtoolCableTestTdrNotifyAttrView::Nest(vs) => codec_list_wf::<
                EthtoolCableTestTdrNestAttr,
            >(vs),
            _ => true,
        }
    }

    pub open spec fn spec_parse(kind: u16, value: Seq<u8>) -> Result<
        EthtoolCableTestTdrNotifyAttrView,
        DecodeError,
    > {
        let k = kind & NLA_TYPE_MASK;
        if k == ETHTOOL_A_CABLE_TEST_TDR_NTF_HEADER {
            match spec_parse_header_list(value) {
                Ok(hs) => Ok(EthtoolCableTestTdrNotifyAttrView::Header(hs)),
                Err(e) => Err(spec_in_attr(kind, e)),
            }
        } else if k == ETHTOOL_A_CABLE_TEST_TDR_NTF_STATUS {
            match spec_parse_u8(value) {
                Ok(v) => Ok(EthtoolCableTestTdrNotifyAttrView::Status(spec_tdr_status_of_code(v))),
                Err(e) => Err(spec_in_attr(kind, e)),
            }
        } else if k == ETHTOOL_A_CABLE_TEST_TDR_NTF_NEST {
            match spec_parse_codec_list::<EthtoolCableTestTdrNestAttr>(value) {
                Ok(vs) => Ok(EthtoolCableTestTdrNotifyAttrView::Nest(vs)),
                Err(e) => Err(spec_in_attr(kind, e)),
            }
        } else {
            Ok(EthtoolCableTestTdrNotifyAttrView::Other(DefaultNlaView { kind, value }))
        }
    }

    pub open spec fn round_trippable(self) -> bool {
        &&& self.wf()
        &&& match self {
            EthtoolCableTestTdrNotifyAttrView::Header(hs) => header_list_rt(hs),
            EthtoolCableTestTdrNotifyAttrView::Status(s) => match s {
                EthtoolCableTestTdrStatus::Other(v) => v == 0 || v > 2,
                _ => true,
            },
            EthtoolCableTestTdrNotifyAttrView::Nest(vs) => codec_list_rt::<
                EthtoolCableTestTdrNestAttr,
            >(vs),
            EthtoolCableTestTdrNotifyAttrView::Other(n) => {
                let k = n.kind & NLA_TYPE_MASK;
                !(1 <= k <= 3)
            },
        }
    }
}

impl NlaCodec for EthtoolCableTestTdrNotifyAttr {
    open spec fn spec_kind_of(v: EthtoolCableTestTdrNotifyAttrView) -> u16 {
        v.spec_kind()
    }

    open spec fn spec_value_of(v: EthtoolCableTestTdrNotifyAttrView) -> Seq<u8> {
        v.spec_value()
    }

    open spec fn spec_wf(v: EthtoolCableTestTdrNotifyAttrView) -> bool {
        v.wf()
    }

    open spec fn spec_rt(v: EthtoolCableTestTdrNotifyAttrView) -> bool {
        v.round_trippable()
    }

    open spec fn spec_parse_one(kind: u16, value: Seq<u8>) -> Result<
        EthtoolCableTestTdrNotifyAttrView,
        DecodeError,
    > {
        EthtoolCableTestTdrNotifyAttrView::spec_parse(kind, value)
    }

    proof fn lemma_wf_bound(v: EthtoolCableTestTdrNotifyAttrView) {
    }

    proof fn lemma_round_trip(v: EthtoolCableTestTdrNotifyAttrView) {
        assert((1u16 | 0x8000u16) & 0x3fffu16 == 1 && 2u16 & 0x3fffu16 == 2 && (3u16 | 0x8000u16)
            & 0x3fffu16 == 3) by (bit_vector);
        match v {
            EthtoolCableTestTdrNotifyAttrView::Header(hs) => {
                lemma_header_list_round_trip(hs);
            },
            EthtoolCableTestTdrNotifyAttrView::Nest(vs) => {
                lemma_codec_list_round_trip::<EthtoolCableTestTdrNestAttr>(vs);
            },
            _ => {},
        }
    }

    fn kind(&self) -> u16 {
        match self {
            EthtoolCableTestTdrNotifyAttr::Header(_) => ETHTOOL_A_CABLE_TEST_TDR_NTF_HEADER
                | NLA_F_NESTED,
            EthtoolCableTestTdrNotifyAttr::Status(_) => ETHTOOL_A_CABLE_TEST_TDR_NTF_STATUS,
            EthtoolCableTestTdrNotifyAttr::Nest(_) => ETHTOOL_A_CABLE_TEST_TDR_NTF_NEST
                | NLA_F_NESTED,
            EthtoolCableTestTdrNotifyAttr::Other(n) => n.kind,
        }
    }

    fn emit_value(&self, out: &mut Vec<u8>) {
        match self {
            EthtoolCableTestTdrNotifyAttr::Header(hs) => emit_header_list(hs, out),
            EthtoolCableTestTdrNotifyAttr::Status(s) => emit_u8(out, s.code()),
            EthtoolCableTestTdrNotifyAttr::Nest(vs) => emit_nla_vec::<EthtoolCableTestTdrNestAttr>(
                vs,
                out,
            ),
            EthtoolCableTestTdrNotifyAttr::Other(n) => out.extend_from_slice(n.value.as_slice()),
        }
    }

    fn parse(kind: u16, payload: &[u8]) -> (r: Result<EthtoolCableTestTdrNotifyAttr, DecodeError>) {
        let k = kind & NLA_TYPE_MASK;
        if k == ETHTOOL_A_CABLE_TEST_TDR_NTF_HEADER {
            match parse_header_list(payload) {
                Ok(hs) => Ok(EthtoolCableTestTdrNotifyAttr::Header(hs)),
                Err(e) => Err(in_attr(kind, e)),
            }
        } else if k == ETHTOOL_A_CABLE_TEST_TDR_NTF_STATUS {
            match parse_u8(payload) {
                Ok(v) => Ok(
                    EthtoolCableTestTdrNotifyAttr::Status(EthtoolCableTestTdrStatus::of_code(v)),
                ),
                Err(e) => Err(in_attr(kind, e)),
            }
        } else if k == ETHTOOL_A_CABLE_TEST_TDR_NTF_NEST {
            match parse_nla_vec::<EthtoolCableTestTdrNestAttr>(payload) {
                Ok(vs) => Ok(EthtoolCableTestTdrNotifyAttr::Nest(vs)),
                Err(e) => Err(in_attr(kind, e)),
            }
        } else {
            Ok(
                EthtoolCableTestTdrNotifyAttr::Other(
                    DefaultNla { kind, value: vstd::slice::slice_to_vec(payload) },
                ),
            )
        }
    }

    fn check_wf(&self) -> (b: bool) {
        match self {
            EthtoolCableTestTdrNotifyAttr::Header(hs) => check_codec_list_wf::<EthtoolHeader>(hs),
            EthtoolCableTestTdrNotifyAttr::Status(_) => true,
            EthtoolCableTestTdrNotifyAttr::Nest(vs) => check_codec_list_wf::<
                EthtoolCableTestTdrNestAttr,
            >(vs),
            EthtoolCableTestTdrNotifyAttr::Other(n) => n.value.len() <= 0xffff - 4,
        }
    }
}

pub const ETHTOOL_A_CABLE_TEST_TDR_HEADER: u16 = 1;

pub const ETHTOOL_A_CABLE_TEST_TDR_CFG: u16 = 2;

/// One attribute of a TDR action request.
#[derive(Debug, PartialEq, Eq, Clone)]
pub enum EthtoolCableTestTdrActionAttr {
    Header(Vec<EthtoolHeader>),
    Config(Vec<EthtoolCableTestTdrConfigAttr>),
    Other(DefaultNla),
}

/// The mathematical model of an action attribute.
pub enum EthtoolCableTestTdrActionAttrView {
    Header(Seq<EthtoolHeaderView>),
    Config(Seq<EthtoolCableTestTdrConfigAttrView>),
    Other(DefaultNlaView),
}

impl View for EthtoolCableTestTdrActionAttr {
    type V = EthtoolCableTestTdrActionAttrView;

    open spec fn view(&self) -> EthtoolCableTestTdrActionAttrView {
        match self {
            EthtoolCableTestTdrActionAttr::Header(hs) => EthtoolCableTestTdrActionAttrView::Header(
                hs.deep_view(),
            ),
            EthtoolCableTestTdrActionAttr::Config(vs) => EthtoolCableTestTdrActionAttrView::Config(
                vs.deep_view(),
            ),
            EthtoolCableTestTdrActionAttr::Other(n) => EthtoolCableTestTdrActionAttrView::Other(n@),
        }
    }
}

impl DeepView for EthtoolCableTestTdrActionAttr {
    type V = EthtoolCableTestTdrActionAttrView;

    open spec fn deep_view(&self) -> EthtoolCableTestTdrActionAttrView {
        self.view()
    }
}

impl EthtoolCableTestTdrActionAttrView {
    pub open spec fn spec_kind(self) -> u16 {
        match self {
            EthtoolCableTestTdrActionAttrView::Header(_) => ETHTOOL_A_CABLE_TEST_TDR_HEADER
                | NLA_F_NESTED,
            EthtoolCableTestTdrActionAttrView::Config(_) => ETHTOOL_A_CABLE_TEST_TDR_CFG
                | NLA_F_NESTED,
            EthtoolCableTestTdrActionAttrView::Other(n) => n.kind,
        }
    }

    pub open spec fn spec_value(self) -> Seq<u8> {
        match self {
            EthtoolCableTestTdrActionAttrView::Header(hs) => spec_emit_header_list(hs),
            EthtoolCableTestTdrActionAttrView::Config(vs) => spec_emit_codec_list::<
                EthtoolCableTestTdrConfigAttr,
            >(vs),
            EthtoolCableTestTdrActionAttrView::Other(n) => n.value,
        }
    }

    pub open spec fn wf(self) -> bool {
        &&& self.spec_value().len() + NLA_HEADER_SIZE <= 0xffff
        &&& match self {
            EthtoolCableTestTdrActionAttrView::Header(hs) => header_list_wf(hs),
            EthtoolCableTestTdrActionAttrView::Config(vs) => codec_list_wf::<
                EthtoolCableTestTdrConfigAttr,
            >(vs),
            EthtoolCableTestTdrActionAttrView::Other(_) => true,
        }
    }

    pub open spec fn spec_parse(kind: u16, value: Seq<u8>) -> Result<
        EthtoolCableTestTdrActionAttrView,
        DecodeError,
    > {
        let k = kind & NLA_TYPE_MASK;
        if k == ETHTOOL_A_CABLE_TEST_TDR_HEADER {
            match spec_parse_header_list(value) {
                Ok(hs) => Ok(EthtoolCableTestTdrActionAttrView::Header(hs)),
                Err(e) => Err(spec_in_attr(kind, e)),
            }
        } else if k == ETHTOOL_A_CABLE_TEST_TDR_CFG {
            match spec_parse_codec_list::<EthtoolCableTestTdrConfigAttr>(value) {
                Ok(vs) => Ok(EthtoolCableTestTdrActionAttrView::Config(vs)),
                Err(e) => Err(spec_in_attr(kind, e)),
            }
        } else {
            Ok(EthtoolCableTestTdrActionAttrView::Other(DefaultNlaView { kind, value }))
        }
    }

    pub open spec fn round_trippable(self) -> bool {
        &&& self.wf()
        &&& match self {
            EthtoolCableTestTdrActionAttrView::Header(hs) => header_list_rt(hs),
            EthtoolCableTestTdrActionAttrView::Config(vs) => codec_list_rt::<
                EthtoolCableTestTdrConfigAttr,
            >(vs),
            EthtoolCableTestTdrActionAttrView::Other(n) => {
                let k = n.kind & NLA_TYPE_MASK;
                !(1 <= k <= 2)
            },
        }
    }
}

impl NlaCodec for EthtoolCableTestTdrActionAttr {
    open spec fn spec_kind_of(v: EthtoolCableTestTdrActionAttrView) -> u16 {
        v.spec_kind()
    }

    open spec fn spec_value_of(v: EthtoolCableTestTdrActionAttrView) -> Seq<u8> {
        v.spec_value()
    }

    open spec fn spec_wf(v: EthtoolCableTestTdrActionAttrView) -> bool {
        v.wf()
    }

    open spec fn spec_rt(v: EthtoolCableTestTdrActionAttrView) -> bool {
        v.round_trippable()
    }

    open spec fn spec_parse_one(kind: u16, value: Seq<u8>) -> Result<
        EthtoolCableTestTdrActionAttrView,
        DecodeError,
    > {
        EthtoolCableTestTdrActionAttrView::spec_parse(kind, value)
    }

    proof fn lemma_wf_bound(v: EthtoolCableTestTdrActionAttrView) {
    }

    proof fn lemma_round_trip(v: EthtoolCableTestTdrActionAttrView) {
        assert((1u16 | 0x8000u16) & 0x3fffu16 == 1 && (2u16 | 0x8000u16) & 0x3fffu16 == 2)
            by (bit_vector);
        match v {
            EthtoolCableTestTdrActionAttrView::Header(hs) => {
                lemma_header_list_round_trip(hs);
            },
            EthtoolCableTestTdrActionAttrView::Config(vs) => {
                lemma_codec_list_round_trip::<EthtoolCableTestTdrConfigAttr>(vs);
            },
            _ => {},
        }
    }

    fn kind(&self) -> u16 {
        match self {
            EthtoolCableTestTdrActionAttr::Header(_) => ETHTOOL_A_CABLE_TEST_TDR_HEADER
                | NLA_F_NESTED,
            EthtoolCableTestTdrActionAttr::Config(_) => ETHTOOL_A_CABLE_TEST_TDR_CFG
                | NLA_F_NESTED,
            EthtoolCableTestTdrActionAttr::Other(n) => n.kind,
        }
    }

    fn emit_value(&self, out: &mut Vec<u8>) {
        match self {
            EthtoolCableTestTdrActionAttr::Header(hs) => emit_header_list(hs, out),
            EthtoolCableTestTdrActionAttr::Config(vs) => emit_nla_vec::<
                EthtoolCableTestTdrConfigAttr,
            >(vs, out),
            EthtoolCableTestTdrActionAttr::Other(n) => out.extend_from_slice(n.value.as_slice()),
        }
    }

    fn parse(kind: u16, payload: &[u8]) -> (r: Result<EthtoolCableTestTdrActionAttr, DecodeError>) {
        let k = kind & NLA_TYPE_MASK;
        if k == ETHTOOL_A_CABLE_TEST_TDR_HEADER {
            match parse_header_list(payload) {
                Ok(hs) => Ok(EthtoolCableTestTdrActionAttr::Header(hs)),
                Err(e) => Err(in_attr(kind, e)),
            }
        } else if k == ETHTOOL_A_CABLE_TEST_TDR_CFG {
            match parse_nla_vec::<EthtoolCableTestTdrConfigAttr>(payload) {
                Ok(vs) => Ok(EthtoolCableTestTdrActionAttr::Config(vs)),
                Err(e) => Err(in_attr(kind, e)),
            }
        } else {
            Ok(
                EthtoolCableTestTdrActionAttr::Other(
                    DefaultNla { kind, value: vstd::slice::slice_to_vec(payload) },
                ),
            )
        }
    }

    fn check_wf(&self) -> (b: bool) {
        match self {
            EthtoolCableTestTdrActionAttr::Header(hs) => check_codec_list_wf::<EthtoolHeader>(hs),
            EthtoolCableTestTdrActionAttr::Config(vs) => check_codec_list_wf::<
                EthtoolCableTestTdrConfigAttr,
            >(vs),
            EthtoolCableTestTdrActionAttr::Other(n) => n.value.len() <= 0xffff - 4,
        }
    }
}

/// How the whole attribute list of a cable-test TDR action message decodes.
pub open spec fn spec_parse_cable_test_tdr_action_nlas(b: Seq<u8>) -> Result<Seq<EthtoolAttrView>, DecodeError> {
    match spec_parse_codec_list::<EthtoolCableTestTdrActionAttr>(b) {
        Ok(vs) => Ok(vs.map_values(|a: EthtoolCableTestTdrActionAttrView| EthtoolAttrView::CableTestTdrAction(a))),
        Err(e) => Err(e),
    }
}

/// Decodes the whole attribute list of a cable-test TDR action message.
pub fn parse_cable_test_tdr_action_nlas(buffer: &[u8]) -> (r: Result<Vec<EthtoolAttr>, DecodeError>)
    ensures
        match r {
            Ok(v) => spec_parse_cable_test_tdr_action_nlas(buffer@) == Ok::<Seq<EthtoolAttrView>, DecodeError>(
                v.deep_view(),
            ),
            Err(e) => spec_parse_cable_test_tdr_action_nlas(buffer@) == Err::<Seq<EthtoolAttrView>, DecodeError>(
                e,
            ),
        },
{
    let mut attrs = match parse_nla_vec::<EthtoolCableTestTdrActionAttr>(buffer) {
        Ok(a) => a,
        Err(e) => {
            return Err(e);
        },
    };
    let ghost full = attrs.deep_view();
    let ghost wrapf = |a: EthtoolCableTestTdrActionAttrView| EthtoolAttrView::CableTestTdrAction(a);
    let mut out: Vec<EthtoolAttr> = Vec::new();
    let mut j: usize = 0;
    let n = attrs.len();
    proof {
        assert(full.len() == n);
        assert(full.take(0) =~= Seq::<EthtoolCableTestTdrActionAttrView>::empty());
        assert(out.deep_view() =~= full.take(0).map_values(wrapf));
        assert(attrs.deep_view() =~= full.skip(0));
    }
    while attrs.len() > 0
        invariant
            j <= full.len(),
            full.len() <= usize::MAX,
            wrapf == (|a: EthtoolCableTestTdrActionAttrView| EthtoolAttrView::CableTestTdrAction(a)),
            attrs.deep_view() == full.skip(j as int),
            out.deep_view() == full.take(j as int).map_values(wrapf),
        decreases attrs.len(),
    {
        proof {
            assert(attrs.deep_view().len() == full.len() - j);
            assert(j < full.len());
            assert(attrs[0].deep_view() == full.skip(j as int)[0]);
            assert(full.skip(j as int)[0] == full[j as int]);
        }
        let ghost prev = attrs@;
        let ghost prev_deep = attrs.deep_view();
        let a = attrs.remove(0);
        let ghost old_out = out.deep_view();
        out.push(EthtoolAttr::CableTestTdrAction(a));
        proof {
            assert(attrs@ =~= prev.subrange(1, prev.len() as int));
            assert forall|k: int| 0 <= k < attrs.deep_view().len() implies attrs.deep_view()[k]
                == full.skip(j as int + 1)[k] by {
                assert(attrs@[k] == prev[k + 1]);
                assert(prev_deep[k + 1] == prev[k + 1].deep_view());
                assert(prev_deep[k + 1] == full.skip(j as int)[k + 1]);
            }
            assert(attrs.deep_view() =~= full.skip(j as int + 1));
            assert(out.deep_view() =~= old_out + seq![wrapf(full[j as int])]);
            assert(full.take(j as int + 1) =~= full.take(j as int).push(full[j as int]));
            assert(out.deep_view() =~= full.take(j as int + 1).map_values(wrapf));
        }
        j = j + 1;
    }
    proof {
        assert(full.take(j as int) =~= full);
        assert(out.deep_view() =~= full.map_values(wrapf));
    }
    Ok(out)
}


/// How the whole attribute list of a cable-test TDR notification message decodes.
pub open spec fn spec_parse_cable_test_tdr_notify_nlas(b: Seq<u8>) -> Result<Seq<EthtoolAttrView>, DecodeError> {
    match spec_parse_codec_list::<EthtoolCableTestTdrNotifyAttr>(b) {
        Ok(vs) => Ok(vs.map_values(|a: EthtoolCableTestTdrNotifyAttrView| EthtoolAttrView::CableTestTdrNotify(a))),
        Err(e) => Err(e),
    }
}

/// Decodes the whole attribute list of a cable-test TDR notification message.
pub fn parse_cable_test_tdr_notify_nlas(buffer: &[u8]) -> (r: Result<Vec<EthtoolAttr>, DecodeError>)
    ensures
        match r {
            Ok(v) => spec_parse_cable_test_tdr_notify_nlas(buffer@) == Ok::<Seq<EthtoolAttrView>, DecodeError>(
                v.deep_view(),
            ),
            Err(e) => spec_parse_cable_test_tdr_notify_nlas(buffer@) == Err::<Seq<EthtoolAttrView>, DecodeError>(
                e,
            ),
        },
{
    let mut attrs = match parse_nla_vec::<EthtoolCableTestTdrNotifyAttr>(buffer) {
        Ok(a) => a,
        Err(e) => {
            return Err(e);
        },
    };
    let ghost full = attrs.deep_view();
    let ghost wrapf = |a: EthtoolCableTestTdrNotifyAttrView| EthtoolAttrView::CableTestTdrNotify(a);
    let mut out: Vec<EthtoolAttr> = Vec::new();
    let mut j: usize = 0;
    let n = attrs.len();
    proof {
        assert(full.len() == n);
        assert(full.take(0) =~= Seq::<EthtoolCableTestTdrNotifyAttrView>::empty());
        assert(out.deep_view() =~= full.take(0).map_values(wrapf));
        assert(attrs.deep_view() =~= full.skip(0));
    }
    while attrs.len() > 0
        invariant
            j <= full.len(),
            full.len() <= usize::MAX,
            wrapf == (|a: EthtoolCableTestTdrNotifyAttrView| EthtoolAttrView::CableTestTdrNotify(a)),
            attrs.deep_view() == full.skip(j as int),
            out.deep_view() == full.take(j as int).map_values(wrapf),
        decreases attrs.len(),
    {
        proof {
            assert(attrs.deep_view().len() == full.len() - j);
            assert(j < full.len());
            assert(attrs[0].deep_view() == full.skip(j as int)[0]);
            assert(full.skip(j as int)[0] == full[j as int]);
        }
        let ghost prev = attrs@;
        let ghost prev_deep = attrs.deep_view();
        let a = attrs.remove(0);
        let ghost old_out = out.deep_view();
        out.push(EthtoolAttr::CableTestTdrNotify(a));
        proof {
            assert(attrs@ =~= prev.subrange(1, prev.len() as int));
            assert forall|k: int| 0 <= k < attrs.deep_view().len() implies attrs.deep_view()[k]
                == full.skip(j as int + 1)[k] by {
                assert(attrs@[k] == prev[k + 1]);
                assert(prev_deep[k + 1] == prev[k + 1].deep_view());
                assert(prev_deep[k + 1] == full.skip(j as int)[k + 1]);
            }
            assert(attrs.deep_view() =~= full.skip(j as int + 1));
            assert(out.deep_view() =~= old_out + seq![wrapf(full[j as int])]);
            assert(full.take(j as int + 1) =~= full.take(j as int).push(full[j as int]));
            assert(out.deep_view() =~= full.take(j as int + 1).map_values(wrapf));
        }
        j = j + 1;
    }
    proof {
        assert(full.take(j as int) =~= full);
        assert(out.deep_view() =~= full.map_values(wrapf));
    }
    Ok(out)
}

} // verus!
