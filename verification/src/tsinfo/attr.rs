//! Attributes of the ethtool TsInfo object: the timestamping
//! capabilities of an interface. The capability bitsets decode to the
//! names of the asserted bits; those attributes are query results and
//! have no encoding.

use vstd::prelude::*;
use vstd::bytes::*;

use crate::bitset_util::{
    parse_bitset_bits_string_nlas, spec_asserted_names, spec_parse_bitset_bits_nlas,
};
use crate::error::{in_attr, spec_in_attr, DecodeError};
use crate::message::{EthtoolAttr, EthtoolAttrView};
use crate::header::{
    emit_header_list, header_list_rt, header_list_wf, lemma_header_list_round_trip,
    parse_header_list, spec_emit_header_list, spec_parse_header_list, EthtoolHeader,
    EthtoolHeaderView,
};
use crate::nla::{
    DefaultNla, DefaultNlaView, NlaCodec, NLA_F_NESTED, NLA_HEADER_SIZE, NLA_TYPE_MASK, parse_nla_vec, spec_parse_codec_list, check_codec_list_wf,
};
use crate::parsers::{parse_u32, spec_parse_u32};

verus! {

pub const ETHTOOL_A_TSINFO_HEADER: u16 = 1;

pub const ETHTOOL_A_TSINFO_TIMESTAMPING: u16 = 2;

pub const ETHTOOL_A_TSINFO_TX_TYPES: u16 = 3;

pub const ETHTOOL_A_TSINFO_RX_FILTERS: u16 = 4;

pub const ETHTOOL_A_TSINFO_PHC_INDEX: u16 = 5;

/// One attribute of the TsInfo object.
#[derive(Debug, PartialEq, Eq, Clone)]
pub enum EthtoolTsInfoAttr {
    Header(Vec<EthtoolHeader>),
    Timestamping(Vec<String>),
    TxTypes(Vec<String>),
    RxFilters(Vec<String>),
    PhcIndex(u32),
    Other(DefaultNla),
}

/// The mathematical model of a TsInfo attribute.
pub enum EthtoolTsInfoAttrView {
    Header(Seq<EthtoolHeaderView>),
    Timestamping(Seq<Seq<char>>),
    TxTypes(Seq<Seq<char>>),
    RxFilters(Seq<Seq<char>>),
    PhcIndex(u32),
    Other(DefaultNlaView),
}

impl View for EthtoolTsInfoAttr {
    type V = EthtoolTsInfoAttrView;

    open spec fn view(&self) -> EthtoolTsInfoAttrView {
        match self {
            EthtoolTsInfoAttr::Header(hs) => EthtoolTsInfoAttrView::Header(hs.deep_view()),
            EthtoolTsInfoAttr::Timestamping(ns) => EthtoolTsInfoAttrView::Timestamping(
                ns.deep_view(),
            ),
            EthtoolTsInfoAttr::TxTypes(ns) => EthtoolTsInfoAttrView::TxTypes(ns.deep_view()),
            EthtoolTsInfoAttr::RxFilters(ns) => EthtoolTsInfoAttrView::RxFilters(ns.deep_view()),
            EthtoolTsInfoAttr::PhcIndex(v) => EthtoolTsInfoAttrView::PhcIndex(*v),
            EthtoolTsInfoAttr::Other(n) => EthtoolTsInfoAttrView::Other(n@),
        }
    }
}

impl DeepView for EthtoolTsInfoAttr {
    type V = EthtoolTsInfoAttrView;

    open spec fn deep_view(&self) -> EthtoolTsInfoAttrView {
        self.view()
    }
}

impl EthtoolTsInfoAttrView {
    pub open spec fn spec_kind(self) -> u16 {
        match self {
            EthtoolTsInfoAttrView::Header(_) => ETHTOOL_A_TSINFO_HEADER | NLA_F_NESTED,
            EthtoolTsInfoAttrView::Timestamping(_) => ETHTOOL_A_TSINFO_TIMESTAMPING,
            EthtoolTsInfoAttrView::TxTypes(_) => ETHTOOL_A_TSINFO_TX_TYPES,
            EthtoolTsInfoAttrView::RxFilters(_) => ETHTOOL_A_TSINFO_RX_FILTERS,
            EthtoolTsInfoAttrView::PhcIndex(_) => ETHTOOL_A_TSINFO_PHC_INDEX,
            EthtoolTsInfoAttrView::Other(n) => n.kind,
        }
    }

    /// The value bytes of the attributes this crate can encode: the
    /// header and raw pass-through. The capability lists and the clock
    /// index are decode-only.
    pub open spec fn spec_value(self) -> Seq<u8> {
        match self {
            EthtoolTsInfoAttrView::Header(hs) => spec_emit_header_list(hs),
            EthtoolTsInfoAttrView::Other(n) => n.value,
            _ => seq![],
        }
    }

    pub open spec fn wf(self) -> bool {
        &&& self.spec_value().len() + NLA_HEADER_SIZE <= 0xffff
        &&& match self {
            EthtoolTsInfoAttrView::Header(hs) => header_list_wf(hs),
            EthtoolTsInfoAttrView::Other(_) => true,
            _ => false,
        }
    }

    pub open spec fn spec_parse(kind: u16, value: Seq<u8>) -> Result<
        EthtoolTsInfoAttrView,
        DecodeError,
    > {
        let k = kind & NLA_TYPE_MASK;
        if k == ETHTOOL_A_TSINFO_HEADER {
            match spec_parse_header_list(value) {
                Ok(hs) => Ok(EthtoolTsInfoAttrView::Header(hs)),
                Err(e) => Err(spec_in_attr(kind, e)),
            }
        } else if k == ETHTOOL_A_TSINFO_TIMESTAMPING {
            match spec_parse_bitset_bits_nlas(value) {
                Ok(bits) => Ok(EthtoolTsInfoAttrView::Timestamping(spec_asserted_names(bits))),
                Err(e) => Err(spec_in_attr(kind, e)),
            }
        } else if k == ETHTOOL_A_TSINFO_TX_TYPES {
            match spec_parse_bitset_bits_nlas(value) {
                Ok(bits) => Ok(EthtoolTsInfoAttrView::TxTypes(spec_asserted_names(bits))),
                Err(e) => Err(spec_in_attr(kind, e)),
            }
        } else if k == ETHTOOL_A_TSINFO_RX_FILTERS {
            match spec_parse_bitset_bits_nlas(value) {
                Ok(bits) => Ok(EthtoolTsInfoAttrView::RxFilters(spec_asserted_names(bits))),
                Err(e) => Err(spec_in_attr(kind, e)),
            }
        } else if k == ETHTOOL_A_TSINFO_PHC_INDEX {
            match spec_parse_u32(value) {
                Ok(v) => Ok(EthtoolTsInfoAttrView::PhcIndex(v)),
                Err(e) => Err(spec_in_attr(kind, e)),
            }
        } else {
            Ok(EthtoolTsInfoAttrView::Other(DefaultNlaView { kind, value }))
        }
    }

    pub open spec fn round_trippable(self) -> bool {
        &&& self.wf()
        &&& match self {
            EthtoolTsInfoAttrView::Header(hs) => header_list_rt(hs),
            EthtoolTsInfoAttrView::Other(n) => {
                let k = n.kind & NLA_TYPE_MASK;
                !(ETHTOOL_A_TSINFO_HEADER <= k <= ETHTOOL_A_TSINFO_PHC_INDEX)
            },
            _ => false,
        }
    }
}

impl NlaCodec for EthtoolTsInfoAttr {
    open spec fn spec_kind_of(v: EthtoolTsInfoAttrView) -> u16 {
        v.spec_kind()
    }

    open spec fn spec_value_of(v: EthtoolTsInfoAttrView) -> Seq<u8> {
        v.spec_value()
    }

    open spec fn spec_wf(v: EthtoolTsInfoAttrView) -> bool {
        v.wf()
    }

    open spec fn spec_rt(v: EthtoolTsInfoAttrView) -> bool {
        v.round_trippable()
    }

    open spec fn spec_parse_one(kind: u16, value: Seq<u8>) -> Result<
        EthtoolTsInfoAttrView,
        DecodeError,
    > {
        EthtoolTsInfoAttrView::spec_parse(kind, value)
    }

    proof fn lemma_wf_bound(v: EthtoolTsInfoAttrView) {
    }

    proof fn lemma_round_trip(v: EthtoolTsInfoAttrView) {
        assert((1u16 | 0x8000u16) & 0x3fffu16 == 1) by (bit_vector);
        match v {
            EthtoolTsInfoAttrView::Header(hs) => {
                lemma_header_list_round_trip(hs);
            },
            _ => {},
        }
    }

    fn kind(&self) -> u16 {
        match self {
            EthtoolTsInfoAttr::Header(_) => ETHTOOL_A_TSINFO_HEADER | NLA_F_NESTED,
            EthtoolTsInfoAttr::Timestamping(_) => ETHTOOL_A_TSINFO_TIMESTAMPING,
            EthtoolTsInfoAttr::TxTypes(_) => ETHTOOL_A_TSINFO_TX_TYPES,
            EthtoolTsInfoAttr::RxFilters(_) => ETHTOOL_A_TSINFO_RX_FILTERS,
            EthtoolTsInfoAttr::PhcIndex(_) => ETHTOOL_A_TSINFO_PHC_INDEX,
            EthtoolTsInfoAttr::Other(n) => n.kind,
        }
    }

    fn emit_value(&self, out: &mut Vec<u8>) {
        match self {
            EthtoolTsInfoAttr::Header(hs) => emit_header_list(hs, out),
            EthtoolTsInfoAttr::Other(n) => out.extend_from_slice(n.value.as_slice()),
            _ => {
                proof {
                    assert(false);
                }
            },
        }
    }

    fn parse(kind: u16, payload: &[u8]) -> (r: Result<EthtoolTsInfoAttr, DecodeError>) {
        let k = kind & NLA_TYPE_MASK;
        if k == ETHTOOL_A_TSINFO_HEADER {
            match parse_header_list(payload) {
                Ok(hs) => Ok(EthtoolTsInfoAttr::Header(hs)),
                Err(e) => Err(in_attr(kind, e)),
            }
        } else if k == ETHTOOL_A_TSINFO_TIMESTAMPING {
            match parse_bitset_bits_string_nlas(payload) {
                Ok(ns) => Ok(EthtoolTsInfoAttr::Timestamping(ns)),
                Err(e) => Err(in_attr(kind, e)),
            }
        } else if k == ETHTOOL_A_TSINFO_TX_TYPES {
            match parse_bitset_bits_string_nlas(payload) {
                Ok(ns) => Ok(EthtoolTsInfoAttr::TxTypes(ns)),
                Err(e) => Err(in_attr(kind, e)),
            }
        } else if k == ETHTOOL_A_TSINFO_RX_FILTERS {
            match parse_bitset_bits_string_nlas(payload) {
                Ok(ns) => Ok(EthtoolTsInfoAttr::RxFilters(ns)),
                Err(e) => Err(in_attr(kind, e)),
            }
        } else if k == ETHTOOL_A_TSINFO_PHC_INDEX {
            match parse_u32(payload) {
                Ok(v) => Ok(EthtoolTsInfoAttr::PhcIndex(v)),
                Err(e) => Err(in_attr(kind, e)),
            }
        } else {
            Ok(
                EthtoolTsInfoAttr::Other(
                    DefaultNla { kind, value: vstd::slice::slice_to_vec(payload) },
                ),
            )
        }
    }

    fn check_wf(&self) -> (b: bool) {
        match self {
            EthtoolTsInfoAttr::Header(hs) => check_codec_list_wf::<EthtoolHeader>(hs),
            EthtoolTsInfoAttr::Other(n) => n.value.len() <= 0xffff - 4,
            _ => false,
        }
    }
}

/// How the whole attribute list of a TsInfo message decodes.
pub open spec fn spec_parse_tsinfo_nlas(b: Seq<u8>) -> Result<Seq<EthtoolAttrView>, DecodeError> {
    match spec_parse_codec_list::<EthtoolTsInfoAttr>(b) {
        Ok(vs) => Ok(vs.map_values(|a: EthtoolTsInfoAttrView| EthtoolAttrView::TsInfo(a))),
        Err(e) => Err(e),
    }
}

/// Decodes the whole attribute list of a TsInfo message.
pub fn parse_tsinfo_nlas(buffer: &[u8]) -> (r: Result<Vec<EthtoolAttr>, DecodeError>)
    ensures
        match r {
            Ok(v) => spec_parse_tsinfo_nlas(buffer@) == Ok::<Seq<EthtoolAttrView>, DecodeError>(
                v.deep_view(),
            ),
            Err(e) => spec_parse_tsinfo_nlas(buffer@) == Err::<Seq<EthtoolAttrView>, DecodeError>(
                e,
            ),
        },
{
    let mut attrs = match parse_nla_vec::<EthtoolTsInfoAttr>(buffer) {
        Ok(a) => a,
        Err(e) => {
            return Err(e);
        },
    };
    let ghost full = attrs.deep_view();
    let ghost wrapf = |a: EthtoolTsInfoAttrView| EthtoolAttrView::TsInfo(a);
    let mut out: Vec<EthtoolAttr> = Vec::new();
    let mut j: usize = 0;
    let n = attrs.len();
    proof {
        assert(full.len() == n);
        assert(full.take(0) =~= Seq::<EthtoolTsInfoAttrView>::empty());
        assert(out.deep_view() =~= full.take(0).map_values(wrapf));
        assert(attrs.deep_view() =~= full.skip(0));
    }
    while attrs.len() > 0
        invariant
            j <= full.len(),
            full.len() <= usize::MAX,
            wrapf == (|a: EthtoolTsInfoAttrView| EthtoolAttrView::TsInfo(a)),
            attrs.deep_view() == full.skip(j as int),
            out.deep_view() == full.take(j as int).map_values(wrapf),
        decreases attrs.len(),
    {
        proof {
            assert(attrs.deep_view().len() == full.len() - j);
            assert(j < full.len());
            assert(attrs[0].deep_view() == full.skip(j as int)[0]);
            assert(full.skip(j as int)[0] == full[j as int]);
        }
        let ghost prev = attrs@;
        let ghost prev_deep = attrs.deep_view();
        let a = attrs.remove(0);
        let ghost old_out = out.deep_view();
        out.push(EthtoolAttr::TsInfo(a));
        proof {
            assert(attrs@ =~= prev.subrange(1, prev.len() as int));
            assert forall|k: int| 0 <= k < attrs.deep_view().len() implies attrs.deep_view()[k]
                == full.skip(j as int + 1)[k] by {
                assert(attrs@[k] == prev[k + 1]);
                assert(prev_deep[k + 1] == prev[k + 1].deep_view());
                assert(prev_deep[k + 1] == full.skip(j as int)[k + 1]);
            }
            assert(attrs.deep_view() =~= full.skip(j as int + 1));
            assert(out.deep_view() =~= old_out + seq![wrapf(full[j as int])]);
            assert(full.take(j as int + 1) =~= full.take(j as int).push(full[j as int]));
            assert(out.deep_view() =~= full.take(j as int + 1).map_values(wrapf));
        }
        j = j + 1;
    }
    proof {
        assert(full.take(j as int) =~= full);
        assert(out.deep_view() =~= full.map_values(wrapf));
    }
    Ok(out)
}

} // verus!
