//! Attributes of the ethtool module-EEPROM object. Requests carry the
//! page selection (offset, length, page, bank, I2C address); replies
//! carry the header and an opaque data blob. Every known kind decodes
//! to its matching variant, so the codec is symmetric: what it encodes
//! it reads back.

use vstd::prelude::*;
use vstd::bytes::*;

use crate::error::{in_attr, spec_in_attr, DecodeError};
use crate::message::{EthtoolAttr, EthtoolAttrView};
use crate::header::{
    emit_header_list, header_list_rt, header_list_wf, lemma_header_list_round_trip,
    parse_header_list, spec_emit_header_list, spec_parse_header_list, EthtoolHeader,
    EthtoolHeaderView,
};
use crate::nla::{
    DefaultNla, DefaultNlaView, NlaCodec, NLA_F_NESTED, NLA_HEADER_SIZE, NLA_TYPE_MASK, parse_nla_vec, spec_parse_codec_list, check_codec_list_wf,
};
use crate::parsers::{emit_u32, emit_u8, parse_u32, parse_u8, spec_parse_u32, spec_parse_u8};

verus! {

pub const ETHTOOL_A_MODULE_EEPROM_HEADER: u16 = 1;

pub const ETHTOOL_A_MODULE_EEPROM_OFFSET: u16 = 2;

pub const ETHTOOL_A_MODULE_EEPROM_LENGTH: u16 = 3;

pub const ETHTOOL_A_MODULE_EEPROM_PAGE: u16 = 4;

pub const ETHTOOL_A_MODULE_EEPROM_BANK: u16 = 5;

pub const ETHTOOL_A_MODULE_EEPROM_I2C_ADDRESS: u16 = 6;

pub const ETHTOOL_A_MODULE_EEPROM_DATA: u16 = 7;

/// One attribute of the module-EEPROM object. `Data` is an opaque byte
/// blob whose length is the remaining record length.
#[derive(Debug, PartialEq, Eq, Clone)]
pub enum EthtoolModuleEEPROMAttr {
    Header(Vec<EthtoolHeader>),
    Offset(u32),
    Length(u32),
    Page(u8),
    Bank(u8),
    I2CAddress(u8),
    Data(Vec<u8>),
    Other(DefaultNla),
}

/// The mathematical model of a module-EEPROM attribute.
pub enum EthtoolModuleEEPROMAttrView {
    Header(Seq<EthtoolHeaderView>),
    Offset(u32),
    Length(u32),
    Page(u8),
    Bank(u8),
    I2CAddress(u8),
    Data(Seq<u8>),
    Other(DefaultNlaView),
}

impl View for EthtoolModuleEEPROMAttr {
    type V = EthtoolModuleEEPROMAttrView;

    open spec fn view(&self) -> EthtoolModuleEEPROMAttrView {
        match self {
            EthtoolModuleEEPROMAttr::Header(hs) => EthtoolModuleEEPROMAttrView::Header(
                hs.deep_view(),
            ),
            EthtoolModuleEEPROMAttr::Offset(v) => EthtoolModuleEEPROMAttrView::Offset(*v),
            EthtoolModuleEEPROMAttr::Length(v) => EthtoolModuleEEPROMAttrView::Length(*v),
            EthtoolModuleEEPROMAttr::Page(v) => EthtoolModuleEEPROMAttrView::Page(*v),
            EthtoolModuleEEPROMAttr::Bank(v) => EthtoolModuleEEPROMAttrView::Bank(*v),
            EthtoolModuleEEPROMAttr::I2CAddress(v) => EthtoolModuleEEPROMAttrView::I2CAddress(*v),
            EthtoolModuleEEPROMAttr::Data(d) => EthtoolModuleEEPROMAttrView::Data(d@),
            EthtoolModuleEEPROMAttr::Other(n) => EthtoolModuleEEPROMAttrView::Other(n@),
        }
    }
}

impl DeepView for EthtoolModuleEEPROMAttr {
    type V = EthtoolModuleEEPROMAttrView;

    open spec fn deep_view(&self) -> EthtoolModuleEEPROMAttrView {
        self.view()
    }
}

impl EthtoolModuleEEPROMAttrView {
    pub open spec fn spec_kind(self) -> u16 {
        match self {
            EthtoolModuleEEPROMAttrView::Header(_) => ETHTOOL_A_MODULE_EEPROM_HEADER
                | NLA_F_NESTED,
            EthtoolModuleEEPROMAttrView::Offset(_) => ETHTOOL_A_MODULE_EEPROM_OFFSET,
            EthtoolModuleEEPROMAttrView::Length(_) => ETHTOOL_A_MODULE_EEPROM_LENGTH,
            EthtoolModuleEEPROMAttrView::Page(_) => ETHTOOL_A_MODULE_EEPROM_PAGE,
            EthtoolModuleEEPROMAttrView::Bank(_) => ETHTOOL_A_MODULE_EEPROM_BANK,
            EthtoolModuleEEPROMAttrView::I2CAddress(_) => ETHTOOL_A_MODULE_EEPROM_I2C_ADDRESS,
            EthtoolModuleEEPROMAttrView::Data(_) => ETHTOOL_A_MODULE_EEPROM_DATA,
            EthtoolModuleEEPROMAttrView::Other(n) => n.kind,
        }
    }

    pub open spec fn spec_value(self) -> Seq<u8> {
        match self {
            EthtoolModuleEEPROMAttrView::Header(hs) => spec_emit_header_list(hs),
            EthtoolModuleEEPROMAttrView::Offset(v) => spec_u32_to_le_bytes(v),
            EthtoolModuleEEPROMAttrView::Length(v) => spec_u32_to_le_bytes(v),
            EthtoolModuleEEPROMAttrView::Page(v) => seq![v],
            EthtoolModuleEEPROMAttrView::Bank(v) => seq![v],
            EthtoolModuleEEPROMAttrView::I2CAddress(v) => seq![v],
            EthtoolModuleEEPROMAttrView::Data(d) => d,
            EthtoolModuleEEPROMAttrView::Other(n) => n.value,
        }
    }

    pub open spec fn wf(self) -> bool {
        &&& self.spec_value().len() + NLA_HEADER_SIZE <= 0xffff
        &&& match self {
            EthtoolModuleEEPROMAttrView::Header(hs) => header_list_wf(hs),
            _ => true,
        }
    }

    /// Decoding one record: each known kind goes to its matching
    /// variant, and unknown kinds are kept raw.
    pub open spec fn spec_parse(kind: u16, value: Seq<u8>) -> Result<
        EthtoolModuleEEPROMAttrView,
        DecodeError,
    > {
        let k = kind & NLA_TYPE_MASK;
        if k == ETHTOOL_A_MODULE_EEPROM_HEADER {
            match spec_parse_header_list(value) {
                Ok(hs) => Ok(EthtoolModuleEEPROMAttrView::Header(hs)),
                Err(e) => Err(spec_in_attr(kind, e)),
            }
        } else if k == ETHTOOL_A_MODULE_EEPROM_OFFSET {
            match spec_parse_u32(value) {
                Ok(v) => Ok(EthtoolModuleEEPROMAttrView::Offset(v)),
                Err(e) => Err(spec_in_attr(kind, e)),
            }
        } else if k == ETHTOOL_A_MODULE_EEPROM_LENGTH {
            match spec_parse_u32(value) {
                Ok(v) => Ok(EthtoolModuleEEPROMAttrView::Length(v)),
                Err(e) => Err(spec_in_attr(kind, e)),
            }
        } else if k == ETHTOOL_A_MODULE_EEPROM_PAGE {
            match spec_parse_u8(value) {
                Ok(v) => Ok(EthtoolModuleEEPROMAttrView::Page(v)),
                Err(e) => Err(spec_in_attr(kind, e)),
            }
        } else if k == ETHTOOL_A_MODULE_EEPROM_BANK {
            match spec_parse_u8(value) {
                Ok(v) => Ok(EthtoolModuleEEPROMAttrView::Bank(v)),
                Err(e) => Err(spec_in_attr(kind, e)),
            }
        } else if k == ETHTOOL_A_MODULE_EEPROM_I2C_ADDRESS {
            match spec_parse_u8(value) {
                Ok(v) => Ok(EthtoolModuleEEPROMAttrView::I2CAddress(v)),
                Err(e) => Err(spec_in_attr(kind, e)),
            }
        } else if k == ETHTOOL_A_MODULE_EEPROM_DATA {
            Ok(EthtoolModuleEEPROMAttrView::Data(value))
        } else {
            Ok(EthtoolModuleEEPROMAttrView::Other(DefaultNlaView { kind, value }))
        }
    }

    /// Every well-formed attribute decodes back to the record it came
    /// from, unless it is a raw pass-through whose type field collides
    /// with a known kind.
    pub open spec fn round_trippable(self) -> bool {
        &&& self.wf()
        &&& match self {
            EthtoolModuleEEPROMAttrView::Header(hs) => header_list_rt(hs),
            EthtoolModuleEEPROMAttrView::Other(n) => {
                let k = n.kind & NLA_TYPE_MASK;
                !(ETHTOOL_A_MODULE_EEPROM_HEADER <= k <= ETHTOOL_A_MODULE_EEPROM_DATA)
            },
            _ => true,
        }
    }
}

impl NlaCodec for EthtoolModuleEEPROMAttr {
    open spec fn spec_kind_of(v: EthtoolModuleEEPROMAttrView) -> u16 {
        v.spec_kind()
    }

    open spec fn spec_value_of(v: EthtoolModuleEEPROMAttrView) -> Seq<u8> {
        v.spec_value()
    }

    open spec fn spec_wf(v: EthtoolModuleEEPROMAttrView) -> bool {
        v.wf()
    }

    open spec fn spec_rt(v: EthtoolModuleEEPROMAttrView) -> bool {
        v.round_trippable()
    }

    open spec fn spec_parse_one(kind: u16, value: Seq<u8>) -> Result<
        EthtoolModuleEEPROMAttrView,
        DecodeError,
    > {
        EthtoolModuleEEPROMAttrView::spec_parse(kind, value)
    }

    proof fn lemma_wf_bound(v: EthtoolModuleEEPROMAttrView) {
    }

    proof fn lemma_round_trip(v: EthtoolModuleEEPROMAttrView) {
        lemma_auto_spec_u32_to_from_le_bytes();
        assert((1u16 | 0x8000u16) & 0x3fffu16 == 1) by (bit_vector);
        assert(forall|k: u16| 2 <= k <= 7 ==> #[trigger] (k & 0x3fffu16) == k) by (bit_vector);
        match v {
            EthtoolModuleEEPROMAttrView::Header(hs) => {
                lemma_header_list_round_trip(hs);
            },
            _ => {},
        }
    }

    fn kind(&self) -> u16 {
        match self {
            EthtoolModuleEEPROMAttr::Header(_) => ETHTOOL_A_MODULE_EEPROM_HEADER | NLA_F_NESTED,
            EthtoolModuleEEPROMAttr::Offset(_) => ETHTOOL_A_MODULE_EEPROM_OFFSET,
            EthtoolModuleEEPROMAttr::Length(_) => ETHTOOL_A_MODULE_EEPROM_LENGTH,
            EthtoolModuleEEPROMAttr::Page(_) => ETHTOOL_A_MODULE_EEPROM_PAGE,
            EthtoolModuleEEPROMAttr::Bank(_) => ETHTOOL_A_MODULE_EEPROM_BANK,
            EthtoolModuleEEPROMAttr::I2CAddress(_) => ETHTOOL_A_MODULE_EEPROM_I2C_ADDRESS,
            EthtoolModuleEEPROMAttr::Data(_) => ETHTOOL_A_MODULE_EEPROM_DATA,
            EthtoolModuleEEPROMAttr::Other(n) => n.kind,
        }
    }

    fn emit_value(&self, out: &mut Vec<u8>) {
        match self {
            EthtoolModuleEEPROMAttr::Header(hs) => emit_header_list(hs, out),
            EthtoolModuleEEPROMAttr::Offset(v) => emit_u32(out, *v),
            EthtoolModuleEEPROMAttr::Length(v) => emit_u32(out, *v),
            EthtoolModuleEEPROMAttr::Page(v) => emit_u8(out, *v),
            EthtoolModuleEEPROMAttr::Bank(v) => emit_u8(out, *v),
            EthtoolModuleEEPROMAttr::I2CAddress(v) => emit_u8(out, *v),
            EthtoolModuleEEPROMAttr::Data(d) => out.extend_from_slice(d.as_slice()),
            EthtoolModuleEEPROMAttr::Other(n) => out.extend_from_slice(n.value.as_slice()),
        }
    }

    fn parse(kind: u16, payload: &[u8]) -> (r: Result<EthtoolModuleEEPROMAttr, DecodeError>) {
        let k = kind & NLA_TYPE_MASK;
        if k == ETHTOOL_A_MODULE_EEPROM_HEADER {
            match parse_header_list(payload) {
                Ok(hs) => Ok(EthtoolModuleEEPROMAttr::Header(hs)),
                Err(e) => Err(in_attr(kind, e)),
            }
        } else if k == ETHTOOL_A_MODULE_EEPROM_OFFSET {
            match parse_u32(payload) {
                Ok(v) => Ok(EthtoolModuleEEPROMAttr::Offset(v)),
                Err(e) => Err(in_attr(kind, e)),
            }
        } else if k == ETHTOOL_A_MODULE_EEPROM_LENGTH {
            match parse_u32(payload) {
                Ok(v) => Ok(EthtoolModuleEEPROMAttr::Length(v)),
                Err(e) => Err(in_attr(kind, e)),
            }
        } else if k == ETHTOOL_A_MODULE_EEPROM_PAGE {
            match parse_u8(payload) {
                Ok(v) => Ok(EthtoolModuleEEPROMAttr::Page(v)),
                Err(e) => Err(in_attr(kind, e)),
            }
        } else if k == ETHTOOL_A_MODULE_EEPROM_BANK {
            match parse_u8(payload) {
                Ok(v) => Ok(EthtoolModuleEEPROMAttr::Bank(v)),
                Err(e) => Err(in_attr(kind, e)),
            }
        } else if k == ETHTOOL_A_MODULE_EEPROM_I2C_ADDRESS {
            match parse_u8(payload) {
                Ok(v) => Ok(EthtoolModuleEEPROMAttr::I2CAddress(v)),
                Err(e) => Err(in_attr(kind, e)),
            }
        } else if k == ETHTOOL_A_MODULE_EEPROM_DATA {
            Ok(EthtoolModuleEEPROMAttr::Data(vstd::slice::slice_to_vec(payload)))
        } else {
            Ok(
                EthtoolModuleEEPROMAttr::Other(
                    DefaultNla { kind, value: vstd::slice::slice_to_vec(payload) },
                ),
            )
        }
    }

    fn check_wf(&self) -> (b: bool) {
        proof {
            lemma_auto_spec_u32_to_from_le_bytes();
        }
        match self {
            EthtoolModuleEEPROMAttr::Header(hs) => check_codec_list_wf::<EthtoolHeader>(hs),
            EthtoolModuleEEPROMAttr::Data(d) => d.len() <= 0xffff - 4,
            EthtoolModuleEEPROMAttr::Other(n) => n.value.len() <= 0xffff - 4,
            _ => true,
        }
    }
}

/// How the whole attribute list of a module-EEPROM message decodes.
pub open spec fn spec_parse_module_eeprom_nlas(b: Seq<u8>) -> Result<Seq<EthtoolAttrView>, DecodeError> {
    match spec_parse_codec_list::<EthtoolModuleEEPROMAttr>(b) {
        Ok(vs) => Ok(vs.map_values(|a: EthtoolModuleEEPROMAttrView| EthtoolAttrView::ModuleEEPROM(a))),
        Err(e) => Err(e),
    }
}

/// Decodes the whole attribute list of a module-EEPROM message.
pub fn parse_module_eeprom_nlas(buffer: &[u8]) -> (r: Result<Vec<EthtoolAttr>, DecodeError>)
    ensures
        match r {
            Ok(v) => spec_parse_module_eeprom_nlas(buffer@) == Ok::<Seq<EthtoolAttrView>, DecodeError>(
                v.deep_view(),
            ),
            Err(e) => spec_parse_module_eeprom_nlas(buffer@) == Err::<Seq<EthtoolAttrView>, DecodeError>(
                e,
            ),
        },
{
    let mut attrs = match parse_nla_vec::<EthtoolModuleEEPROMAttr>(buffer) {
        Ok(a) => a,
        Err(e) => {
            return Err(e);
        },
    };
    let ghost full = attrs.deep_view();
    let ghost wrapf = |a: EthtoolModuleEEPROMAttrView| EthtoolAttrView::ModuleEEPROM(a);
    let mut out: Vec<EthtoolAttr> = Vec::new();
    let mut j: usize = 0;
    let n = attrs.len();
    proof {
        assert(full.len() == n);
        assert(full.take(0) =~= Seq::<EthtoolModuleEEPROMAttrView>::empty());
        assert(out.deep_view() =~= full.take(0).map_values(wrapf));
        assert(attrs.deep_view() =~= full.skip(0));
    }
    while attrs.len() > 0
        invariant
            j <= full.len(),
            full.len() <= usize::MAX,
            wrapf == (|a: EthtoolModuleEEPROMAttrView| EthtoolAttrView::ModuleEEPROM(a)),
            attrs.deep_view() == full.skip(j as int),
            out.deep_view() == full.take(j as int).map_values(wrapf),
        decreases attrs.len(),
    {
        proof {
            assert(attrs.deep_view().len() == full.len() - j);
            assert(j < full.len());
            assert(attrs[0].deep_view() == full.skip(j as int)[0]);
            assert(full.skip(j as int)[0] == full[j as int]);
        }
        let ghost prev = attrs@;
        let ghost prev_deep = attrs.deep_view();
        let a = attrs.remove(0);
        let ghost old_out = out.deep_view();
        out.push(EthtoolAttr::ModuleEEPROM(a));
        proof {
            assert(attrs@ =~= prev.subrange(1, prev.len() as int));
            assert forall|k: int| 0 <= k < attrs.deep_view().len() implies attrs.deep_view()[k]
                == full.skip(j as int + 1)[k] by {
                assert(attrs@[k] == prev[k + 1]);
                assert(prev_deep[k + 1] == prev[k + 1].deep_view());
                assert(prev_deep[k + 1] == full.skip(j as int)[k + 1]);
            }
            assert(attrs.deep_view() =~= full.skip(j as int + 1));
            assert(out.deep_view() =~= old_out + seq![wrapf(full[j as int])]);
            assert(full.take(j as int + 1) =~= full.take(j as int).push(full[j as int]));
            assert(out.deep_view() =~= full.take(j as int + 1).map_values(wrapf));
        }
        j = j + 1;
    }
    proof {
        assert(full.take(j as int) =~= full);
        assert(out.deep_view() =~= full.map_values(wrapf));
    }
    Ok(out)
}

} // verus!
