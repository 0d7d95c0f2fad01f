//! Attributes of the ethtool Channel object: hardware queue counts and
//! their maxima.

use vstd::prelude::*;
use vstd::bytes::*;

use crate::error::{in_attr, spec_in_attr, DecodeError};
use crate::header::{
    header_list_rt, header_list_wf, lemma_header_list_round_trip, parse_header_list,
    spec_emit_header_list, spec_parse_header_list, EthtoolHeader, EthtoolHeaderView,
    emit_header_list,
};
use crate::message::{EthtoolAttr, EthtoolAttrView};
use crate::nla::{
    parse_nla_vec, spec_parse_codec_list, DefaultNla, DefaultNlaView, NlaCodec, NLA_F_NESTED,
    NLA_HEADER_SIZE, NLA_TYPE_MASK, check_codec_list_wf,
};
use crate::parsers::{emit_u32, parse_u32, spec_parse_u32};

verus! {

pub const ETHTOOL_A_CHANNELS_HEADER: u16 = 1;

pub const ETHTOOL_A_CHANNELS_RX_MAX: u16 = 2;

pub const ETHTOOL_A_CHANNELS_TX_MAX: u16 = 3;

pub const ETHTOOL_A_CHANNELS_OTHER_MAX: u16 = 4;

pub const ETHTOOL_A_CHANNELS_COMBINED_MAX: u16 = 5;

pub const ETHTOOL_A_CHANNELS_RX_COUNT: u16 = 6;

pub const ETHTOOL_A_CHANNELS_TX_COUNT: u16 = 7;

pub const ETHTOOL_A_CHANNELS_OTHER_COUNT: u16 = 8;

pub const ETHTOOL_A_CHANNELS_COMBINED_COUNT: u16 = 9;

/// One attribute of the Channel object. Counters are plain `u32`
/// pass-through; unknown kinds are kept raw.
#[derive(Debug, PartialEq, Eq, Clone)]
pub enum EthtoolChannelAttr {
    Header(Vec<EthtoolHeader>),
    RxMax(u32),
    TxMax(u32),
    OtherMax(u32),
    CombinedMax(u32),
    RxCount(u32),
    TxCount(u32),
    OtherCount(u32),
    CombinedCount(u32),
    Other(DefaultNla),
}

/// The mathematical model of a Channel attribute.
pub enum EthtoolChannelAttrView {
    Header(Seq<EthtoolHeaderView>),
    RxMax(u32),
    TxMax(u32),
    OtherMax(u32),
    CombinedMax(u32),
    RxCount(u32),
    TxCount(u32),
    OtherCount(u32),
    CombinedCount(u32),
    Other(DefaultNlaView),
}

impl View for EthtoolChannelAttr {
    type V = EthtoolChannelAttrView;

    open spec fn view(&self) -> EthtoolChannelAttrView {
        match self {
            EthtoolChannelAttr::Header(hs) => EthtoolChannelAttrView::Header(hs.deep_view()),
            EthtoolChannelAttr::RxMax(v) => EthtoolChannelAttrView::RxMax(*v),
            EthtoolChannelAttr::TxMax(v) => EthtoolChannelAttrView::TxMax(*v),
            EthtoolChannelAttr::OtherMax(v) => EthtoolChannelAttrView::OtherMax(*v),
            EthtoolChannelAttr::CombinedMax(v) => EthtoolChannelAttrView::CombinedMax(*v),
            EthtoolChannelAttr::RxCount(v) => EthtoolChannelAttrView::RxCount(*v),
            EthtoolChannelAttr::TxCount(v) => EthtoolChannelAttrView::TxCount(*v),
            EthtoolChannelAttr::OtherCount(v) => EthtoolChannelAttrView::OtherCount(*v),
            EthtoolChannelAttr::CombinedCount(v) => EthtoolChannelAttrView::CombinedCount(*v),
            EthtoolChannelAttr::Other(n) => EthtoolChannelAttrView::Other(n@),
        }
    }
}

impl DeepView for EthtoolChannelAttr {
    type V = EthtoolChannelAttrView;

    open spec fn deep_view(&self) -> EthtoolChannelAttrView {
        self.view()
    }
}

impl EthtoolChannelAttrView {
    pub open spec fn spec_kind(self) -> u16 {
        match self {
            EthtoolChannelAttrView::Header(_) => ETHTOOL_A_CHANNELS_HEADER | NLA_F_NESTED,
            EthtoolChannelAttrView::RxMax(_) => ETHTOOL_A_CHANNELS_RX_MAX,
            EthtoolChannelAttrView::TxMax(_) => ETHTOOL_A_CHANNELS_TX_MAX,
            EthtoolChannelAttrView::OtherMax(_) => ETHTOOL_A_CHANNELS_OTHER_MAX,
            EthtoolChannelAttrView::CombinedMax(_) => ETHTOOL_A_CHANNELS_COMBINED_MAX,
            EthtoolChannelAttrView::RxCount(_) => ETHTOOL_A_CHANNELS_RX_COUNT,
            EthtoolChannelAttrView::TxCount(_) => ETHTOOL_A_CHANNELS_TX_COUNT,
            EthtoolChannelAttrView::OtherCount(_) => ETHTOOL_A_CHANNELS_OTHER_COUNT,
            EthtoolChannelAttrView::CombinedCount(_) => ETHTOOL_A_CHANNELS_COMBINED_COUNT,
            EthtoolChannelAttrView::Other(n) => n.kind,
        }
    }

    pub open spec fn spec_value(self) -> Seq<u8> {
        match self {
            EthtoolChannelAttrView::Header(hs) => spec_emit_header_list(hs),
            EthtoolChannelAttrView::RxMax(v) => spec_u32_to_le_bytes(v),
            EthtoolChannelAttrView::TxMax(v) => spec_u32_to_le_bytes(v),
            EthtoolChannelAttrView::OtherMax(v) => spec_u32_to_le_bytes(v),
            EthtoolChannelAttrView::CombinedMax(v) => spec_u32_to_le_bytes(v),
            EthtoolChannelAttrView::RxCount(v) => spec_u32_to_le_bytes(v),
            EthtoolChannelAttrView::TxCount(v) => spec_u32_to_le_bytes(v),
            EthtoolChannelAttrView::OtherCount(v) => spec_u32_to_le_bytes(v),
            EthtoolChannelAttrView::CombinedCount(v) => spec_u32_to_le_bytes(v),
            EthtoolChannelAttrView::Other(n) => n.value,
        }
    }

    pub open spec fn wf(self) -> bool {
        &&& self.spec_value().len() + NLA_HEADER_SIZE <= 0xffff
        &&& match self {
            EthtoolChannelAttrView::Header(hs) => header_list_wf(hs),
            _ => true,
        }
    }

    /// Decoding one top-level record of a Channel reply or request.
    pub open spec fn spec_parse(kind: u16, value: Seq<u8>) -> Result<
        EthtoolChannelAttrView,
        DecodeError,
    > {
        let k = kind & NLA_TYPE_MASK;
        if k == ETHTOOL_A_CHANNELS_HEADER {
            match spec_parse_header_list(value) {
                Ok(hs) => Ok(EthtoolChannelAttrView::Header(hs)),
                Err(e) => Err(spec_in_attr(kind, e)),
            }
        } else if k == ETHTOOL_A_CHANNELS_RX_MAX {
            match spec_parse_u32(value) {
                Ok(v) => Ok(EthtoolChannelAttrView::RxMax(v)),
                Err(e) => Err(spec_in_attr(kind, e)),
            }
        } else if k == ETHTOOL_A_CHANNELS_TX_MAX {
            match spec_parse_u32(value) {
                Ok(v) => Ok(EthtoolChannelAttrView::TxMax(v)),
                Err(e) => Err(spec_in_attr(kind, e)),
            }
        } else if k == ETHTOOL_A_CHANNELS_OTHER_MAX {
            match spec_parse_u32(value) {
                Ok(v) => Ok(EthtoolChannelAttrView::OtherMax(v)),
                Err(e) => Err(spec_in_attr(kind, e)),
            }
        } else if k == ETHTOOL_A_CHANNELS_COMBINED_MAX {
            match spec_parse_u32(value) {
                Ok(v) => Ok(EthtoolChannelAttrView::CombinedMax(v)),
                Err(e) => Err(spec_in_attr(kind, e)),
            }
        } else if k == ETHTOOL_A_CHANNELS_RX_COUNT {
            match spec_parse_u32(value) {
                Ok(v) => Ok(EthtoolChannelAttrView::RxCount(v)),
                Err(e) => Err(spec_in_attr(kind, e)),
            }
        } else if k == ETHTOOL_A_CHANNELS_TX_COUNT {
            match spec_parse_u32(value) {
                Ok(v) => Ok(EthtoolChannelAttrView::TxCount(v)),
                Err(e) => Err(spec_in_attr(kind, e)),
            }
        } else if k == ETHTOOL_A_CHANNELS_OTHER_COUNT {
            match spec_parse_u32(value) {
                Ok(v) => Ok(EthtoolChannelAttrView::OtherCount(v)),
                Err(e) => Err(spec_in_attr(kind, e)),
            }
        } else if k == ETHTOOL_A_CHANNELS_COMBINED_COUNT {
            match spec_parse_u32(value) {
                Ok(v) => Ok(EthtoolChannelAttrView::CombinedCount(v)),
                Err(e) => Err(spec_in_attr(kind, e)),
            }
        } else {
            Ok(EthtoolChannelAttrView::Other(DefaultNlaView { kind, value }))
        }
    }

    pub open spec fn round_trippable(self) -> bool {
        &&& self.wf()
        &&& match self {
            EthtoolChannelAttrView::Header(hs) => header_list_rt(hs),
            EthtoolChannelAttrView::Other(n) => {
                let k = n.kind & NLA_TYPE_MASK;
                !(ETHTOOL_A_CHANNELS_HEADER <= k <= ETHTOOL_A_CHANNELS_COMBINED_COUNT)
            },
            _ => true,
        }
    }
}

impl NlaCodec for EthtoolChannelAttr {
    open spec fn spec_kind_of(v: EthtoolChannelAttrView) -> u16 {
        v.spec_kind()
    }

    open spec fn spec_value_of(v: EthtoolChannelAttrView) -> Seq<u8> {
        v.spec_value()
    }

    open spec fn spec_wf(v: EthtoolChannelAttrView) -> bool {
        v.wf()
    }

    open spec fn spec_rt(v: EthtoolChannelAttrView) -> bool {
        v.round_trippable()
    }

    open spec fn spec_parse_one(kind: u16, value: Seq<u8>) -> Result<
        EthtoolChannelAttrView,
        DecodeError,
    > {
        EthtoolChannelAttrView::spec_parse(kind, value)
    }

    proof fn lemma_wf_bound(v: EthtoolChannelAttrView) {
    }

    proof fn lemma_round_trip(v: EthtoolChannelAttrView) {
        lemma_auto_spec_u32_to_from_le_bytes();
        assert((1u16 | 0x8000u16) & 0x3fffu16 == 1) by (bit_vector);
        assert(forall|k: u16| 1 <= k <= 9 ==> #[trigger] (k & 0x3fffu16) == k) by (bit_vector);
        match v {
            EthtoolChannelAttrView::Header(hs) => {
                lemma_header_list_round_trip(hs);
            },
            _ => {},
        }
    }

    fn kind(&self) -> u16 {
        match self {
            EthtoolChannelAttr::Header(_) => ETHTOOL_A_CHANNELS_HEADER | NLA_F_NESTED,
            EthtoolChannelAttr::RxMax(_) => ETHTOOL_A_CHANNELS_RX_MAX,
            EthtoolChannelAttr::TxMax(_) => ETHTOOL_A_CHANNELS_TX_MAX,
            EthtoolChannelAttr::OtherMax(_) => ETHTOOL_A_CHANNELS_OTHER_MAX,
            EthtoolChannelAttr::CombinedMax(_) => ETHTOOL_A_CHANNELS_COMBINED_MAX,
            EthtoolChannelAttr::RxCount(_) => ETHTOOL_A_CHANNELS_RX_COUNT,
            EthtoolChannelAttr::TxCount(_) => ETHTOOL_A_CHANNELS_TX_COUNT,
            EthtoolChannelAttr::OtherCount(_) => ETHTOOL_A_CHANNELS_OTHER_COUNT,
            EthtoolChannelAttr::CombinedCount(_) => ETHTOOL_A_CHANNELS_COMBINED_COUNT,
            EthtoolChannelAttr::Other(n) => n.kind,
        }
    }

    fn emit_value(&self, out: &mut Vec<u8>) {
        match self {
            EthtoolChannelAttr::Header(hs) => emit_header_list(hs, out),
            EthtoolChannelAttr::RxMax(v) => emit_u32(out, *v),
            EthtoolChannelAttr::TxMax(v) => emit_u32(out, *v),
            EthtoolChannelAttr::OtherMax(v) => emit_u32(out, *v),
            EthtoolChannelAttr::CombinedMax(v) => emit_u32(out, *v),
            EthtoolChannelAttr::RxCount(v) => emit_u32(out, *v),
            EthtoolChannelAttr::TxCount(v) => emit_u32(out, *v),
            EthtoolChannelAttr::OtherCount(v) => emit_u32(out, *v),
            EthtoolChannelAttr::CombinedCount(v) => emit_u32(out, *v),
            EthtoolChannelAttr::Other(n) => out.extend_from_slice(n.value.as_slice()),
        }
    }

    fn parse(kind: u16, payload: &[u8]) -> (r: Result<EthtoolChannelAttr, DecodeError>) {
        let k = kind & NLA_TYPE_MASK;
        if k == ETHTOOL_A_CHANNELS_HEADER {
            match parse_header_list(payload) {
                Ok(hs) => Ok(EthtoolChannelAttr::Header(hs)),
                Err(e) => Err(in_attr(kind, e)),
            }
        } else if k == ETHTOOL_A_CHANNELS_RX_MAX {
            match parse_u32(payload) {
                Ok(v) => Ok(EthtoolChannelAttr::RxMax(v)),
                Err(e) => Err(in_attr(kind, e)),
            }
        } else if k == ETHTOOL_A_CHANNELS_TX_MAX {
            match parse_u32(payload) {
                Ok(v) => Ok(EthtoolChannelAttr::TxMax(v)),
                Err(e) => Err(in_attr(kind, e)),
            }
        } else if k == ETHTOOL_A_CHANNELS_OTHER_MAX {
            match parse_u32(payload) {
                Ok(v) => Ok(EthtoolChannelAttr::OtherMax(v)),
                Err(e) => Err(in_attr(kind, e)),
            }
        } else if k == ETHTOOL_A_CHANNELS_COMBINED_MAX {
            match parse_u32(payload) {
                Ok(v) => Ok(EthtoolChannelAttr::CombinedMax(v)),
                Err(e) => Err(in_attr(kind, e)),
            }
        } else if k == ETHTOOL_A_CHANNELS_RX_COUNT {
            match parse_u32(payload) {
                Ok(v) => Ok(EthtoolChannelAttr::RxCount(v)),
                Err(e) => Err(in_attr(kind, e)),
            }
        } else if k == ETHTOOL_A_CHANNELS_TX_COUNT {
            match parse_u32(payload) {
                Ok(v) => Ok(EthtoolChannelAttr::TxCount(v)),
                Err(e) => Err(in_attr(kind, e)),
            }
        } else if k == ETHTOOL_A_CHANNELS_OTHER_COUNT {
            match parse_u32(payload) {
                Ok(v) => Ok(EthtoolChannelAttr::OtherCount(v)),
                Err(e) => Err(in_attr(kind, e)),
            }
        } else if k == ETHTOOL_A_CHANNELS_COMBINED_COUNT {
            match parse_u32(payload) {
                Ok(v) => Ok(EthtoolChannelAttr::CombinedCount(v)),
                Err(e) => Err(in_attr(kind, e)),
            }
        } else {
            Ok(
                EthtoolChannelAttr::Other(
                    DefaultNla { kind, value: vstd::slice::slice_to_vec(payload) },
                ),
            )
        }
    }

    fn check_wf(&self) -> (b: bool) {
        proof {
            lemma_auto_spec_u32_to_from_le_bytes();
        }
        match self {
            EthtoolChannelAttr::Header(hs) => check_codec_list_wf::<EthtoolHeader>(hs),
            EthtoolChannelAttr::Other(n) => n.value.len() <= 0xffff - 4,
            _ => true,
        }
    }
}

/// How the whole attribute list of a Channel message decodes.
pub open spec fn spec_parse_channel_nlas(b: Seq<u8>) -> Result<Seq<EthtoolAttrView>, DecodeError> {
    match spec_parse_codec_list::<EthtoolChannelAttr>(b) {
        Ok(vs) => Ok(vs.map_values(|a: EthtoolChannelAttrView| EthtoolAttrView::Channel(a))),
        Err(e) => Err(e),
    }
}

/// Decodes the whole attribute list of a Channel message.
pub fn parse_channel_nlas(buffer: &[u8]) -> (r: Result<Vec<EthtoolAttr>, DecodeError>)
    ensures
        match r {
            Ok(v) => spec_parse_channel_nlas(buffer@) == Ok::<Seq<EthtoolAttrView>, DecodeError>(
                v.deep_view(),
            ),
            Err(e) => spec_parse_channel_nlas(buffer@) == Err::<Seq<EthtoolAttrView>, DecodeError>(
                e,
            ),
        },
{
    let mut attrs = match parse_nla_vec::<EthtoolChannelAttr>(buffer) {
        Ok(a) => a,
        Err(e) => {
            return Err(e);
        },
    };
    let ghost full = attrs.deep_view();
    let ghost wrapf = |a: EthtoolChannelAttrView| EthtoolAttrView::Channel(a);
    let mut out: Vec<EthtoolAttr> = Vec::new();
    let mut j: usize = 0;
    let n = attrs.len();
    proof {
        assert(full.len() == n);
        assert(full.take(0) =~= Seq::<EthtoolChannelAttrView>::empty());
        assert(out.deep_view() =~= full.take(0).map_values(wrapf));
        assert(attrs.deep_view() =~= full.skip(0));
    }
    while attrs.len() > 0
        invariant
            j <= full.len(),
            full.len() <= usize::MAX,
            wrapf == (|a: EthtoolChannelAttrView| EthtoolAttrView::Channel(a)),
            attrs.deep_view() == full.skip(j as int),
            out.deep_view() == full.take(j as int).map_values(wrapf),
        decreases attrs.len(),
    {
        proof {
            assert(attrs.deep_view().len() == full.len() - j);
            assert(j < full.len());
            assert(attrs[0].deep_view() == full.skip(j as int)[0]);
            assert(full.skip(j as int)[0] == full[j as int]);
        }
        let ghost prev = attrs@;
        let ghost prev_deep = attrs.deep_view();
        let a = attrs.remove(0);
        let ghost old_out = out.deep_view();
        out.push(EthtoolAttr::Channel(a));
        proof {
            assert(attrs@ =~= prev.subrange(1, prev.len() as int));
            assert forall|k: int| 0 <= k < attrs.deep_view().len() implies attrs.deep_view()[k]
                == full.skip(j as int + 1)[k] by {
                assert(attrs@[k] == prev[k + 1]);
                assert(prev_deep[k + 1] == prev[k + 1].deep_view());
                assert(prev_deep[k + 1] == full.skip(j as int)[k + 1]);
            }
            assert(attrs.deep_view() =~= full.skip(j as int + 1));
            assert(out.deep_view() =~= old_out + seq![wrapf(full[j as int])]);
            assert(full.take(j as int + 1) =~= full.take(j as int).push(full[j as int]));
            assert(out.deep_view() =~= full.take(j as int + 1).map_values(wrapf));
        }
        j = j + 1;
    }
    proof {
        assert(full.take(j as int) =~= full);
        assert(out.deep_view() =~= full.map_values(wrapf));
    }
    Ok(out)
}

} // verus!
