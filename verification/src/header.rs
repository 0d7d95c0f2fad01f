//! The header attribute shared by nearly every ethtool object: a nested
//! list that identifies the device by index and/or name, plus request
//! flags.

use vstd::prelude::*;
use vstd::bytes::*;

use crate::error::{in_attr, spec_in_attr, DecodeError};
use crate::nla::{
    codec_list_rt, codec_list_wf, emit_nla_vec, lemma_codec_list_round_trip, parse_nla_vec,
    res_deep_view, spec_emit_codec_list, spec_parse_codec_list, DefaultNla, DefaultNlaView,
    NlaCodec, NLA_HEADER_SIZE, NLA_TYPE_MASK,
};
use crate::parsers::{
    emit_string, emit_u32, parse_string, parse_u32, spec_parse_string, spec_parse_u32,
    spec_string_bytes,
};

verus! {

pub const ETHTOOL_A_HEADER_DEV_INDEX: u16 = 1;

pub const ETHTOOL_A_HEADER_DEV_NAME: u16 = 2;

pub const ETHTOOL_A_HEADER_FLAGS: u16 = 3;

/// One attribute of the shared device-identification header.
#[derive(Debug, PartialEq, Eq, Clone)]
pub enum EthtoolHeader {
    DevIndex(u32),
    DevName(String),
    Flags(u32),
    Other(DefaultNla),
}

/// The mathematical model of a header attribute.
pub enum EthtoolHeaderView {
    DevIndex(u32),
    DevName(Seq<char>),
    Flags(u32),
    Other(DefaultNlaView),
}

impl View for EthtoolHeader {
    type V = EthtoolHeaderView;

    open spec fn view(&self) -> EthtoolHeaderView {
        match self {
            EthtoolHeader::DevIndex(v) => EthtoolHeaderView::DevIndex(*v),
            EthtoolHeader::DevName(s) => EthtoolHeaderView::DevName(s@),
            EthtoolHeader::Flags(v) => EthtoolHeaderView::Flags(*v),
            EthtoolHeader::Other(n) => EthtoolHeaderView::Other(n@),
        }
    }
}

impl DeepView for EthtoolHeader {
    type V = EthtoolHeaderView;

    open spec fn deep_view(&self) -> EthtoolHeaderView {
        self.view()
    }
}

impl EthtoolHeaderView {
    /// The wire type field of this attribute.
    pub open spec fn spec_kind(self) -> u16 {
        match self {
            EthtoolHeaderView::DevIndex(_) => ETHTOOL_A_HEADER_DEV_INDEX,
            EthtoolHeaderView::DevName(_) => ETHTOOL_A_HEADER_DEV_NAME,
            EthtoolHeaderView::Flags(_) => ETHTOOL_A_HEADER_FLAGS,
            EthtoolHeaderView::Other(n) => n.kind,
        }
    }

    /// The wire value bytes of this attribute.
    pub open spec fn spec_value(self) -> Seq<u8> {
        match self {
            EthtoolHeaderView::DevIndex(v) => spec_u32_to_le_bytes(v),
            EthtoolHeaderView::DevName(s) => spec_string_bytes(s),
            EthtoolHeaderView::Flags(v) => spec_u32_to_le_bytes(v),
            EthtoolHeaderView::Other(n) => n.value,
        }
    }

    /// The attribute's value fits a single record's 16-bit length field.
    pub open spec fn wf(self) -> bool {
        self.spec_value().len() + NLA_HEADER_SIZE <= 0xffff
    }

    /// Decoding one record of the header list. Unknown kinds never fail:
    /// they are kept raw.
    pub open spec fn spec_parse(kind: u16, value: Seq<u8>) -> Result<EthtoolHeaderView, DecodeError> {
        let k = kind & NLA_TYPE_MASK;
        if k == ETHTOOL_A_HEADER_DEV_INDEX {
            match spec_parse_u32(value) {
                Ok(v) => Ok(EthtoolHeaderView::DevIndex(v)),
                Err(e) => Err(spec_in_attr(kind, e)),
            }
        } else if k == ETHTOOL_A_HEADER_DEV_NAME {
            match spec_parse_string(value) {
                Ok(s) => Ok(EthtoolHeaderView::DevName(s)),
                Err(e) => Err(spec_in_attr(kind, e)),
            }
        } else if k == ETHTOOL_A_HEADER_FLAGS {
            match spec_parse_u32(value) {
                Ok(v) => Ok(EthtoolHeaderView::Flags(v)),
                Err(e) => Err(spec_in_attr(kind, e)),
            }
        } else {
            Ok(EthtoolHeaderView::Other(DefaultNlaView { kind, value }))
        }
    }

    /// A decoded attribute that encodes back to the record it came from:
    /// every well-formed attribute does, unless it is a raw pass-through
    /// whose type field collides with a known kind.
    pub open spec fn round_trippable(self) -> bool {
        &&& self.wf()
        &&& match self {
            EthtoolHeaderView::Other(n) => {
                let k = n.kind & NLA_TYPE_MASK;
                k != ETHTOOL_A_HEADER_DEV_INDEX && k != ETHTOOL_A_HEADER_DEV_NAME && k
                    != ETHTOOL_A_HEADER_FLAGS
            },
            _ => true,
        }
    }
}

impl NlaCodec for EthtoolHeader {
    open spec fn spec_kind_of(v: EthtoolHeaderView) -> u16 {
        v.spec_kind()
    }

    open spec fn spec_value_of(v: EthtoolHeaderView) -> Seq<u8> {
        v.spec_value()
    }

    open spec fn spec_wf(v: EthtoolHeaderView) -> bool {
        v.wf()
    }

    open spec fn spec_rt(v: EthtoolHeaderView) -> bool {
        v.round_trippable()
    }

    open spec fn spec_parse_one(kind: u16, value: Seq<u8>) -> Result<EthtoolHeaderView, DecodeError> {
        EthtoolHeaderView::spec_parse(kind, value)
    }

    proof fn lemma_wf_bound(v: EthtoolHeaderView) {
    }

    proof fn lemma_round_trip(v: EthtoolHeaderView) {
        lemma_auto_spec_u32_to_from_le_bytes();
        assert(1u16 & NLA_TYPE_MASK == 1 && 2u16 & NLA_TYPE_MASK == 2 && 3u16 & NLA_TYPE_MASK == 3)
            by (bit_vector);
        match v {
            EthtoolHeaderView::DevName(s) => {
                crate::parsers::lemma_string_round_trip(s);
            },
            _ => {},
        }
    }

    fn kind(&self) -> u16 {
        match self {
            EthtoolHeader::DevIndex(_) => ETHTOOL_A_HEADER_DEV_INDEX,
            EthtoolHeader::DevName(_) => ETHTOOL_A_HEADER_DEV_NAME,
            EthtoolHeader::Flags(_) => ETHTOOL_A_HEADER_FLAGS,
            EthtoolHeader::Other(n) => n.kind,
        }
    }

    fn emit_value(&self, out: &mut Vec<u8>) {
        match self {
            EthtoolHeader::DevIndex(v) => emit_u32(out, *v),
            EthtoolHeader::DevName(s) => emit_string(out, s.as_str()),
            EthtoolHeader::Flags(v) => emit_u32(out, *v),
            EthtoolHeader::Other(n) => out.extend_from_slice(n.value.as_slice()),
        }
    }

    fn parse(kind: u16, payload: &[u8]) -> (r: Result<EthtoolHeader, DecodeError>) {
        let k = kind & NLA_TYPE_MASK;
        if k == ETHTOOL_A_HEADER_DEV_INDEX {
            match parse_u32(payload) {
                Ok(v) => Ok(EthtoolHeader::DevIndex(v)),
                Err(e) => Err(in_attr(kind, e)),
            }
        } else if k == ETHTOOL_A_HEADER_DEV_NAME {
            match parse_string(payload) {
                Ok(s) => Ok(EthtoolHeader::DevName(s)),
                Err(e) => Err(in_attr(kind, e)),
            }
        } else if k == ETHTOOL_A_HEADER_FLAGS {
            match parse_u32(payload) {
                Ok(v) => Ok(EthtoolHeader::Flags(v)),
                Err(e) => Err(in_attr(kind, e)),
            }
        } else {
            Ok(EthtoolHeader::Other(DefaultNla { kind, value: vstd::slice::slice_to_vec(payload) }))
        }
    }

    fn check_wf(&self) -> (b: bool) {
        proof {
            lemma_auto_spec_u32_to_from_le_bytes();
        }
        match self {
            EthtoolHeader::DevName(s) => s.as_str().as_bytes().len() <= 0xffff - 5,
            EthtoolHeader::Other(n) => n.value.len() <= 0xffff - 4,
            _ => true,
        }
    }
}

/// How a header list decodes from the value of its nested attribute.
pub open spec fn spec_parse_header_list(b: Seq<u8>) -> Result<Seq<EthtoolHeaderView>, DecodeError> {
    spec_parse_codec_list::<EthtoolHeader>(b)
}

/// The wire bytes of a header list.
pub open spec fn spec_emit_header_list(hs: Seq<EthtoolHeaderView>) -> Seq<u8> {
    spec_emit_codec_list::<EthtoolHeader>(hs)
}

pub open spec fn header_list_wf(hs: Seq<EthtoolHeaderView>) -> bool {
    codec_list_wf::<EthtoolHeader>(hs)
}

pub open spec fn header_list_rt(hs: Seq<EthtoolHeaderView>) -> bool {
    codec_list_rt::<EthtoolHeader>(hs)
}

/// Decodes a nested header-list value.
pub fn parse_header_list(payload: &[u8]) -> (r: Result<Vec<EthtoolHeader>, DecodeError>)
    ensures
        match r {
            Ok(hs) => spec_parse_header_list(payload@) == Ok::<Seq<EthtoolHeaderView>, DecodeError>(
                hs.deep_view(),
            ),
            Err(e) => spec_parse_header_list(payload@) == Err::<Seq<EthtoolHeaderView>, DecodeError>(
                e,
            ),
        },
{
    parse_nla_vec::<EthtoolHeader>(payload)
}

/// Appends the records of a header list, in list order.
pub fn emit_header_list(hs: &Vec<EthtoolHeader>, out: &mut Vec<u8>)
    requires
        header_list_wf(hs.deep_view()),
    ensures
        final(out)@ == old(out)@ + spec_emit_header_list(hs.deep_view()),
{
    emit_nla_vec::<EthtoolHeader>(hs, out)
}

/// Encoding a round-trippable header list and decoding it again yields
/// the same list.
pub proof fn lemma_header_list_round_trip(hs: Seq<EthtoolHeaderView>)
    requires
        header_list_rt(hs),
    ensures
        spec_parse_header_list(spec_emit_header_list(hs)) == Ok::<
            Seq<EthtoolHeaderView>,
            DecodeError,
        >(hs),
{
    lemma_codec_list_round_trip::<EthtoolHeader>(hs);
}

} // verus!
