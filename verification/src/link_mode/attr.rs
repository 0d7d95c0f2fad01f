//! Attributes of the ethtool LinkMode object: link speeds and modes.
//! This crate knows the shared header attribute; every other kind is
//! carried through raw.

use vstd::prelude::*;

use crate::error::{in_attr, spec_in_attr, DecodeError};
use crate::message::{EthtoolAttr, EthtoolAttrView};
use crate::header::{
    emit_header_list, header_list_rt, header_list_wf, lemma_header_list_round_trip,
    parse_header_list, spec_emit_header_list, spec_parse_header_list, EthtoolHeader,
    EthtoolHeaderView,
};
use crate::nla::{
    DefaultNla, DefaultNlaView, NlaCodec, NLA_F_NESTED, NLA_HEADER_SIZE, NLA_TYPE_MASK, parse_nla_vec, spec_parse_codec_list, check_codec_list_wf,
};

verus! {

pub const ETHTOOL_A_LINKMODES_HEADER: u16 = 1;

/// One attribute of the LinkMode object.
#[derive(Debug, PartialEq, Eq, Clone)]
pub enum EthtoolLinkModeAttr {
    Header(Vec<EthtoolHeader>),
    Other(DefaultNla),
}

/// The mathematical model of a LinkMode attribute.
pub enum EthtoolLinkModeAttrView {
    Header(Seq<EthtoolHeaderView>),
    Other(DefaultNlaView),
}

impl View for EthtoolLinkModeAttr {
    type V = EthtoolLinkModeAttrView;

    open spec fn view(&self) -> EthtoolLinkModeAttrView {
        match self {
            EthtoolLinkModeAttr::Header(hs) => EthtoolLinkModeAttrView::Header(hs.deep_view()),
            EthtoolLinkModeAttr::Other(n) => EthtoolLinkModeAttrView::Other(n@),
        }
    }
}

impl DeepView for EthtoolLinkModeAttr {
    type V = EthtoolLinkModeAttrView;

    open spec fn deep_view(&self) -> EthtoolLinkModeAttrView {
        self.view()
    }
}

impl EthtoolLinkModeAttrView {
    pub open spec fn spec_kind(self) -> u16 {
        match self {
            EthtoolLinkModeAttrView::Header(_) => ETHTOOL_A_LINKMODES_HEADER | NLA_F_NESTED,
            EthtoolLinkModeAttrView::Other(n) => n.kind,
        }
    }

    pub open spec fn spec_value(self) -> Seq<u8> {
        match self {
            EthtoolLinkModeAttrView::Header(hs) => spec_emit_header_list(hs),
            EthtoolLinkModeAttrView::Other(n) => n.value,
        }
    }

    pub open spec fn wf(self) -> bool {
        &&& self.spec_value().len() + NLA_HEADER_SIZE <= 0xffff
        &&& match self {
            EthtoolLinkModeAttrView::Header(hs) => header_list_wf(hs),
            _ => true,
        }
    }

    pub open spec fn spec_parse(kind: u16, value: Seq<u8>) -> Result<
        EthtoolLinkModeAttrView,
        DecodeError,
    > {
        let k = kind & NLA_TYPE_MASK;
        if k == ETHTOOL_A_LINKMODES_HEADER {
            match spec_parse_header_list(value) {
                Ok(hs) => Ok(EthtoolLinkModeAttrView::Header(hs)),
                Err(e) => Err(spec_in_attr(kind, e)),
            }
        } else {
            Ok(EthtoolLinkModeAttrView::Other(DefaultNlaView { kind, value }))
        }
    }

    pub open spec fn round_trippable(self) -> bool {
        &&& self.wf()
        &&& match self {
            EthtoolLinkModeAttrView::Header(hs) => header_list_rt(hs),
            EthtoolLinkModeAttrView::Other(n) => n.kind & NLA_TYPE_MASK != ETHTOOL_A_LINKMODES_HEADER,
        }
    }
}

impl NlaCodec for EthtoolLinkModeAttr {
    open spec fn spec_kind_of(v: EthtoolLinkModeAttrView) -> u16 {
        v.spec_kind()
    }

    open spec fn spec_value_of(v: EthtoolLinkModeAttrView) -> Seq<u8> {
        v.spec_value()
    }

    open spec fn spec_wf(v: EthtoolLinkModeAttrView) -> bool {
        v.wf()
    }

    open spec fn spec_rt(v: EthtoolLinkModeAttrView) -> bool {
        v.round_trippable()
    }

    open spec fn spec_parse_one(kind: u16, value: Seq<u8>) -> Result<
        EthtoolLinkModeAttrView,
        DecodeError,
    > {
        EthtoolLinkModeAttrView::spec_parse(kind, value)
    }

    proof fn lemma_wf_bound(v: EthtoolLinkModeAttrView) {
    }

    proof fn lemma_round_trip(v: EthtoolLinkModeAttrView) {
        assert((1u16 | 0x8000u16) & 0x3fffu16 == 1) by (bit_vector);
        match v {
            EthtoolLinkModeAttrView::Header(hs) => {
                lemma_header_list_round_trip(hs);
            },
            _ => {},
        }
    }

    fn kind(&self) -> u16 {
        match self {
            EthtoolLinkModeAttr::Header(_) => ETHTOOL_A_LINKMODES_HEADER | NLA_F_NESTED,
            EthtoolLinkModeAttr::Other(n) => n.kind,
        }
    }

    fn emit_value(&self, out: &mut Vec<u8>) {
        match self {
            EthtoolLinkModeAttr::Header(hs) => emit_header_list(hs, out),
            EthtoolLinkModeAttr::Other(n) => out.extend_from_slice(n.value.as_slice()),
        }
    }

    fn parse(kind: u16, payload: &[u8]) -> (r: Result<EthtoolLinkModeAttr, DecodeError>) {
        let k = kind & NLA_TYPE_MASK;
        if k == ETHTOOL_A_LINKMODES_HEADER {
            match parse_header_list(payload) {
                Ok(hs) => Ok(EthtoolLinkModeAttr::Header(hs)),
                Err(e) => Err(in_attr(kind, e)),
            }
        } else {
            Ok(EthtoolLinkModeAttr::Other(DefaultNla { kind, value: vstd::slice::slice_to_vec(payload) }))
        }
    }

    fn check_wf(&self) -> (b: bool) {
        match self {
            EthtoolLinkModeAttr::Header(hs) => check_codec_list_wf::<EthtoolHeader>(hs),
            EthtoolLinkModeAttr::Other(n) => n.value.len() <= 0xffff - 4,
        }
    }
}

/// How the whole attribute list of a LinkMode message decodes.
pub open spec fn spec_parse_link_mode_nlas(b: Seq<u8>) -> Result<Seq<EthtoolAttrView>, DecodeError> {
    match spec_parse_codec_list::<EthtoolLinkModeAttr>(b) {
        Ok(vs) => Ok(vs.map_values(|a: EthtoolLinkModeAttrView| EthtoolAttrView::LinkMode(a))),
        Err(e) => Err(e),
    }
}

/// Decodes the whole attribute list of a LinkMode message.
pub fn parse_link_mode_nlas(buffer: &[u8]) -> (r: Result<Vec<EthtoolAttr>, DecodeError>)
    ensures
        match r {
            Ok(v) => spec_parse_link_mode_nlas(buffer@) == Ok::<Seq<EthtoolAttrView>, DecodeError>(
                v.deep_view(),
            ),
            Err(e) => spec_parse_link_mode_nlas(buffer@) == Err::<Seq<EthtoolAttrView>, DecodeError>(
                e,
            ),
        },
{
    let mut attrs = match parse_nla_vec::<EthtoolLinkModeAttr>(buffer) {
        Ok(a) => a,
        Err(e) => {
            return Err(e);
        },
    };
    let ghost full = attrs.deep_view();
    let ghost wrapf = |a: EthtoolLinkModeAttrView| EthtoolAttrView::LinkMode(a);
    let mut out: Vec<EthtoolAttr> = Vec::new();
    let mut j: usize = 0;
    let n = attrs.len();
    proof {
        assert(full.len() == n);
        assert(full.take(0) =~= Seq::<EthtoolLinkModeAttrView>::empty());
        assert(out.deep_view() =~= full.take(0).map_values(wrapf));
        assert(attrs.deep_view() =~= full.skip(0));
    }
    while attrs.len() > 0
        invariant
            j <= full.len(),
            full.len() <= usize::MAX,
            wrapf == (|a: EthtoolLinkModeAttrView| EthtoolAttrView::LinkMode(a)),
            attrs.deep_view() == full.skip(j as int),
            out.deep_view() == full.take(j as int).map_values(wrapf),
        decreases attrs.len(),
    {
        proof {
            assert(attrs.deep_view().len() == full.len() - j);
            assert(j < full.len());
            assert(attrs[0].deep_view() == full.skip(j as int)[0]);
            assert(full.skip(j as int)[0] == full[j as int]);
        }
        let ghost prev = attrs@;
        let ghost prev_deep = attrs.deep_view();
        let a = attrs.remove(0);
        let ghost old_out = out.deep_view();
        out.push(EthtoolAttr::LinkMode(a));
        proof {
            assert(attrs@ =~= prev.subrange(1, prev.len() as int));
            assert forall|k: int| 0 <= k < attrs.deep_view().len() implies attrs.deep_view()[k]
                == full.skip(j as int + 1)[k] by {
                assert(attrs@[k] == prev[k + 1]);
                assert(prev_deep[k + 1] == prev[k + 1].deep_view());
                assert(prev_deep[k + 1] == full.skip(j as int)[k + 1]);
            }
            assert(attrs.deep_view() =~= full.skip(j as int + 1));
            assert(out.deep_view() =~= old_out + seq![wrapf(full[j as int])]);
            assert(full.take(j as int + 1) =~= full.take(j as int).push(full[j as int]));
            assert(out.deep_view() =~= full.take(j as int + 1).map_values(wrapf));
        }
        j = j + 1;
    }
    proof {
        assert(full.take(j as int) =~= full);
        assert(out.deep_view() =~= full.map_values(wrapf));
    }
    Ok(out)
}

} // verus!
