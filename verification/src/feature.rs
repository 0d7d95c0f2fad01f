//! Attributes of the ethtool Feature object: device feature flags.
//! This crate knows the shared header attribute; every other kind is
//! carried through raw.

use vstd::prelude::*;

use crate::error::{in_attr, spec_in_attr, DecodeError};
use crate::message::{EthtoolAttr, EthtoolAttrView};
use crate::header::{
    emit_header_list, header_list_rt, header_list_wf, lemma_header_list_round_trip,
    parse_header_list, spec_emit_header_list, spec_parse_header_list, EthtoolHeader,
    EthtoolHeaderView,
};
use crate::nla::{
    DefaultNla, DefaultNlaView, NlaCodec, NLA_F_NESTED, NLA_HEADER_SIZE, NLA_TYPE_MASK, parse_nla_vec, spec_parse_codec_list, check_codec_list_wf,
};

verus! {

pub const ETHTOOL_A_FEATURES_HEADER: u16 = 1;

/// One attribute of the Feature object.
#[derive(Debug, PartialEq, Eq, Clone)]
pub enum EthtoolFeatureAttr {
    Header(Vec<EthtoolHeader>),
    Other(DefaultNla),
}

/// The mathematical model of a Feature attribute.
pub enum EthtoolFeatureAttrView {
    Header(Seq<EthtoolHeaderView>),
    Other(DefaultNlaView),
}

impl View for EthtoolFeatureAttr {
    type V = EthtoolFeatureAttrView;

    open spec fn view(&self) -> EthtoolFeatureAttrView {
        match self {
            EthtoolFeatureAttr::Header(hs) => EthtoolFeatureAttrView::Header(hs.deep_view()),
            EthtoolFeatureAttr::Other(n) => EthtoolFeatureAttrView::Other(n@),
        }
    }
}

impl DeepView for EthtoolFeatureAttr {
    type V = EthtoolFeatureAttrView;

    open spec fn deep_view(&self) -> EthtoolFeatureAttrView {
        self.view()
    }
}

impl EthtoolFeatureAttrView {
    pub open spec fn spec_kind(self) -> u16 {
        match self {
            EthtoolFeatureAttrView::Header(_) => ETHTOOL_A_FEATURES_HEADER | NLA_F_NESTED,
            EthtoolFeatureAttrView::Other(n) => n.kind,
        }
    }

    pub open spec fn spec_value(self) -> Seq<u8> {
        match self {
            EthtoolFeatureAttrView::Header(hs) => spec_emit_header_list(hs),
            EthtoolFeatureAttrView::Other(n) => n.value,
        }
    }

    pub open spec fn wf(self) -> bool {
        &&& self.spec_value().len() + NLA_HEADER_SIZE <= 0xffff
        &&& match self {
            EthtoolFeatureAttrView::Header(hs) => header_list_wf(hs),
            _ => true,
        }
    }

    pub open spec fn spec_parse(kind: u16, value: Seq<u8>) -> Result<
        EthtoolFeatureAttrView,
        DecodeError,
    > {
        let k = kind & NLA_TYPE_MASK;
        if k == ETHTOOL_A_FEATURES_HEADER {
            match spec_parse_header_list(value) {
                Ok(hs) => Ok(EthtoolFeatureAttrView::Header(hs)),
                Err(e) => Err(spec_in_attr(kind, e)),
            }
        } else {
            Ok(EthtoolFeatureAttrView::Other(DefaultNlaView { kind, value }))
        }
    }

    pub open spec fn round_trippable(self) -> bool {
        &&& self.wf()
        &&& match self {
            EthtoolFeatureAttrView::Header(hs) => header_list_rt(hs),
            EthtoolFeatureAttrView::Other(n) => n.kind & NLA_TYPE_MASK != ETHTOOL_A_FEATURES_HEADER,
        }
    }
}

impl NlaCodec for EthtoolFeatureAttr {
    open spec fn spec_kind_of(v: EthtoolFeatureAttrView) -> u16 {
        v.spec_kind()
    }

    open spec fn spec_value_of(v: EthtoolFeatureAttrView) -> Seq<u8> {
        v.spec_value()
    }

    open spec fn spec_wf(v: EthtoolFeatureAttrView) -> bool {
        v.wf()
    }

    open spec fn spec_rt(v: EthtoolFeatureAttrView) -> bool {
        v.round_trippable()
    }

    open spec fn spec_parse_one(kind: u16, value: Seq<u8>) -> Result<
        EthtoolFeatureAttrView,
        DecodeError,
    > {
        EthtoolFeatureAttrView::spec_parse(kind, value)
    }

    proof fn lemma_wf_bound(v: EthtoolFeatureAttrView) {
    }

    proof fn lemma_round_trip(v: EthtoolFeatureAttrView) {
        assert((1u16 | 0x8000u16) & 0x3fffu16 == 1) by (bit_vector);
        match v {
            EthtoolFeatureAttrView::Header(hs) => {
                lemma_header_list_round_trip(hs);
            },
            _ => {},
        }
    }

    fn kind(&self) -> u16 {
        match self {
            EthtoolFeatureAttr::Header(_) => ETHTOOL_A_FEATURES_HEADER | NLA_F_NESTED,
            EthtoolFeatureAttr::Other(n) => n.kind,
        }
    }

    fn emit_value(&self, out: &mut Vec<u8>) {
        match self {
            EthtoolFeatureAttr::Header(hs) => emit_header_list(hs, out),
            EthtoolFeatureAttr::Other(n) => out.extend_from_slice(n.value.as_slice()),
        }
    }

    fn parse(kind: u16, payload: &[u8]) -> (r: Result<EthtoolFeatureAttr, DecodeError>) {
        let k = kind & NLA_TYPE_MASK;
        if k == ETHTOOL_A_FEATURES_HEADER {
            match parse_header_list(payload) {
                Ok(hs) => Ok(EthtoolFeatureAttr::Header(hs)),
                Err(e) => Err(in_attr(kind, e)),
            }
        } else {
            Ok(EthtoolFeatureAttr::Other(DefaultNla { kind, value: vstd::slice::slice_to_vec(payload) }))
        }
    }

    fn check_wf(&self) -> (b: bool) {
        match self {
            EthtoolFeatureAttr::Header(hs) => check_codec_list_wf::<EthtoolHeader>(hs),
            EthtoolFeatureAttr::Other(n) => n.value.len() <= 0xffff - 4,
        }
    }
}

/// How the whole attribute list of a Feature message decodes.
pub open spec fn spec_parse_feature_nlas(b: Seq<u8>) -> Result<Seq<EthtoolAttrView>, DecodeError> {
    match spec_parse_codec_list::<EthtoolFeatureAttr>(b) {
        Ok(vs) => Ok(vs.map_values(|a: EthtoolFeatureAttrView| EthtoolAttrView::Feature(a))),
        Err(e) => Err(e),
    }
}

/// Decodes the whole attribute list of a Feature message.
pub fn parse_feature_nlas(buffer: &[u8]) -> (r: Result<Vec<EthtoolAttr>, DecodeError>)
    ensures
        match r {
            Ok(v) => spec_parse_feature_nlas(buffer@) == Ok::<Seq<EthtoolAttrView>, DecodeError>(
                v.deep_view(),
            ),
            Err(e) => spec_parse_feature_nlas(buffer@) == Err::<Seq<EthtoolAttrView>, DecodeError>(
                e,
            ),
        },
{
    let mut attrs = match parse_nla_vec::<EthtoolFeatureAttr>(buffer) {
        Ok(a) => a,
        Err(e) => {
            return Err(e);
        },
    };
    let ghost full = attrs.deep_view();
    let ghost wrapf = |a: EthtoolFeatureAttrView| EthtoolAttrView::Feature(a);
    let mut out: Vec<EthtoolAttr> = Vec::new();
    let mut j: usize = 0;
    let n = attrs.len();
    proof {
        assert(full.len() == n);
        assert(full.take(0) =~= Seq::<EthtoolFeatureAttrView>::empty());
        assert(out.deep_view() =~= full.take(0).map_values(wrapf));
        assert(attrs.deep_view() =~= full.skip(0));
    }
    while attrs.len() > 0
        invariant
            j <= full.len(),
            full.len() <= usize::MAX,
            wrapf == (|a: EthtoolFeatureAttrView| EthtoolAttrView::Feature(a)),
            attrs.deep_view() == full.skip(j as int),
            out.deep_view() == full.take(j as int).map_values(wrapf),
        decreases attrs.len(),
    {
        proof {
            assert(attrs.deep_view().len() == full.len() - j);
            assert(j < full.len());
            assert(attrs[0].deep_view() == full.skip(j as int)[0]);
            assert(full.skip(j as int)[0] == full[j as int]);
        }
        let ghost prev = attrs@;
        let ghost prev_deep = attrs.deep_view();
        let a = attrs.remove(0);
        let ghost old_out = out.deep_view();
        out.push(EthtoolAttr::Feature(a));
        proof {
            assert(attrs@ =~= prev.subrange(1, prev.len() as int));
            assert forall|k: int| 0 <= k < attrs.deep_view().len() implies attrs.deep_view()[k]
                == full.skip(j as int + 1)[k] by {
                assert(attrs@[k] == prev[k + 1]);
                assert(prev_deep[k + 1] == prev[k + 1].deep_view());
                assert(prev_deep[k + 1] == full.skip(j as int)[k + 1]);
            }
            assert(attrs.deep_view() =~= full.skip(j as int + 1));
            assert(out.deep_view() =~= old_out + seq![wrapf(full[j as int])]);
            assert(full.take(j as int + 1) =~= full.take(j as int).push(full[j as int]));
            assert(out.deep_view() =~= full.take(j as int + 1).map_values(wrapf));
        }
        j = j + 1;
    }
    proof {
        assert(full.take(j as int) =~= full);
        assert(out.deep_view() =~= full.map_values(wrapf));
    }
    Ok(out)
}

} // verus!
