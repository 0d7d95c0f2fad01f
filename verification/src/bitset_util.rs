//! The ethtool bitset encoding: a nested BITS container holding one
//! record per bit, each bit carrying an index, a name, and an optional
//! presence-only value marker that asserts the bit. The name is
//! optional on the wire but required for a meaningful decode: a bit
//! record without one is a decode error.

use vstd::prelude::*;

use crate::error::{in_attr, spec_in_attr, DecodeError};
use crate::nla::{
    spec_split, spec_split_one, split_nlas, split_one, DefaultNlaView, NLA_TYPE_MASK,
};
use crate::parsers::{parse_string, parse_u32, spec_parse_string, spec_parse_u32};

verus! {

pub const ETHTOOL_A_BITSET_BITS: u16 = 3;

pub const ETHTOOL_A_BITSET_BITS_BIT: u16 = 1;

pub const ETHTOOL_A_BITSET_BIT_INDEX: u16 = 1;

pub const ETHTOOL_A_BITSET_BIT_NAME: u16 = 2;

pub const ETHTOOL_A_BITSET_BIT_VALUE: u16 = 3;

/// One decoded bit of a bitset: its index, its name, and whether it is
/// asserted. The bit is unasserted unless the wire carries a VALUE
/// marker.
#[derive(Debug, PartialEq, Eq, Clone)]
pub struct EthtoolBitSet {
    pub index: u32,
    pub name: String,
    pub value: bool,
}

/// The mathematical model of one decoded bit.
pub struct EthtoolBitSetView {
    pub index: u32,
    pub name: Seq<char>,
    pub value: bool,
}

impl View for EthtoolBitSet {
    type V = EthtoolBitSetView;

    open spec fn view(&self) -> EthtoolBitSetView {
        EthtoolBitSetView { index: self.index, name: self.name@, value: self.value }
    }
}

impl DeepView for EthtoolBitSet {
    type V = EthtoolBitSetView;

    open spec fn deep_view(&self) -> EthtoolBitSetView {
        self.view()
    }
}

/// A bit before any of its leaf attributes have been read.
pub open spec fn spec_default_bit() -> EthtoolBitSetView {
    EthtoolBitSetView { index: 0, name: seq![], value: false }
}

impl Default for EthtoolBitSet {
    fn default() -> (r: Self)
        ensures
            r@ == spec_default_bit(),
    {
        let r = EthtoolBitSet { index: 0, name: String::new(), value: false };
        proof {
            assert(r.name@ =~= Seq::<char>::empty());
        }
        r
    }
}

/// Reads one bit's leaf records left to right into the accumulator:
/// INDEX and NAME overwrite their fields, a VALUE record asserts the
/// bit, and unknown leaf kinds are skipped. The boolean carries whether
/// a NAME leaf has been seen. A failing leaf is reported inside its
/// own record.
pub open spec fn spec_fold_bit_recs(
    recs: Seq<DefaultNlaView>,
    acc: EthtoolBitSetView,
    seen_name: bool,
) -> Result<(EthtoolBitSetView, bool), DecodeError>
    decreases recs.len(),
{
    if recs.len() == 0 {
        Ok((acc, seen_name))
    } else {
        match spec_fold_bit_step(recs[0], acc, seen_name) {
            Ok(p) => spec_fold_bit_recs(recs.drop_first(), p.0, p.1),
            Err(e) => Err(e),
        }
    }
}

/// One leaf record applied to the accumulator.
pub open spec fn spec_fold_bit_step(
    rec: DefaultNlaView,
    acc: EthtoolBitSetView,
    seen_name: bool,
) -> Result<(EthtoolBitSetView, bool), DecodeError> {
    let k = rec.kind & NLA_TYPE_MASK;
    if k == ETHTOOL_A_BITSET_BIT_INDEX {
        match spec_parse_u32(rec.value) {
            Ok(v) => Ok(
                ((EthtoolBitSetView { index: v, name: acc.name, value: acc.value }), seen_name),
            ),
            Err(e) => Err(spec_in_attr(rec.kind, e)),
        }
    } else if k == ETHTOOL_A_BITSET_BIT_NAME {
        match spec_parse_string(rec.value) {
            Ok(s) => Ok(
                ((EthtoolBitSetView { index: acc.index, name: s, value: acc.value }), true),
            ),
            Err(e) => Err(spec_in_attr(rec.kind, e)),
        }
    } else if k == ETHTOOL_A_BITSET_BIT_VALUE {
        Ok(((EthtoolBitSetView { index: acc.index, name: acc.name, value: true }), seen_name))
    } else {
        Ok((acc, seen_name))
    }
}

/// Decodes the value of one BITS_BIT record. A bit whose records carry
/// no NAME leaf is a decode error.
pub open spec fn spec_parse_bit(b: Seq<u8>) -> Result<EthtoolBitSetView, DecodeError> {
    match spec_split(b) {
        Ok(recs) => match spec_fold_bit_recs(recs, spec_default_bit(), false) {
            Ok(p) => if p.1 {
                Ok(p.0)
            } else {
                Err(DecodeError::MissingBitsetBitName)
            },
            Err(e) => Err(e),
        },
        Err(e) => Err(e),
    }
}

/// Decodes the records inside the BITS container: each BITS_BIT record
/// yields one bit; records of any other kind are skipped. A failing
/// bit is reported inside its own record.
pub open spec fn spec_parse_bits_recs(recs: Seq<DefaultNlaView>) -> Result<
    Seq<EthtoolBitSetView>,
    DecodeError,
>
    decreases recs.len(),
{
    if recs.len() == 0 {
        Ok(seq![])
    } else {
        let rec = recs[0];
        if rec.kind & NLA_TYPE_MASK == ETHTOOL_A_BITSET_BITS_BIT {
            match spec_parse_bit(rec.value) {
                Ok(bit) => match spec_parse_bits_recs(recs.drop_first()) {
                    Ok(bs) => Ok(seq![bit] + bs),
                    Err(e) => Err(e),
                },
                Err(e) => Err(spec_in_attr(rec.kind, e)),
            }
        } else {
            spec_parse_bits_recs(recs.drop_first())
        }
    }
}

/// Decodes the value of the BITS container record.
pub open spec fn spec_parse_bitset_bits_nla(b: Seq<u8>) -> Result<
    Seq<EthtoolBitSetView>,
    DecodeError,
> {
    match spec_split(b) {
        Ok(recs) => spec_parse_bits_recs(recs),
        Err(e) => Err(e),
    }
}

/// Scans a bitset value for its BITS container, left to right, and
/// decodes the first one found; scanning past the end means the
/// container is missing. Records before the container must be
/// well-formed; records after the one that is decoded are not examined.
pub open spec fn spec_parse_bitset_bits_nlas(b: Seq<u8>) -> Result<
    Seq<EthtoolBitSetView>,
    DecodeError,
>
    decreases b.len(),
{
    if b.len() == 0 {
        Err(DecodeError::MissingBitsetBits)
    } else {
        match spec_split_one(b) {
            Ok((rec, rest)) => {
                if rec.kind & NLA_TYPE_MASK == ETHTOOL_A_BITSET_BITS {
                    spec_parse_bitset_bits_nla(rec.value)
                } else {
                    spec_parse_bitset_bits_nlas(rest)
                }
            },
            Err(e) => Err(e),
        }
    }
}

/// The names of the asserted bits, in wire order.
pub open spec fn spec_asserted_names(bits: Seq<EthtoolBitSetView>) -> Seq<Seq<char>>
    decreases bits.len(),
{
    if bits.len() == 0 {
        seq![]
    } else {
        let rest = spec_asserted_names(bits.drop_first());
        if bits[0].value {
            seq![bits[0].name] + rest
        } else {
            rest
        }
    }
}

pub proof fn lemma_asserted_names_push(bits: Seq<EthtoolBitSetView>, b: EthtoolBitSetView)
    ensures
        spec_asserted_names(bits.push(b)) == spec_asserted_names(bits) + (if b.value {
            seq![b.name]
        } else {
            Seq::<Seq<char>>::empty()
        }),
    decreases bits.len(),
{
    let tail: Seq<Seq<char>> = if b.value {
        seq![b.name]
    } else {
        Seq::<Seq<char>>::empty()
    };
    if bits.len() == 0 {
        assert(bits.push(b)[0] == b);
        assert(bits.push(b).drop_first() =~= Seq::<EthtoolBitSetView>::empty());
        assert(spec_asserted_names(Seq::<EthtoolBitSetView>::empty()) == Seq::<Seq<char>>::empty());
        assert(spec_asserted_names(bits) =~= Seq::<Seq<char>>::empty());
        assert(spec_asserted_names(bits.push(b)) =~= tail);
        assert(spec_asserted_names(bits) + tail =~= tail);
    } else {
        assert(bits.push(b)[0] == bits[0]);
        assert(bits.push(b).drop_first() =~= bits.drop_first().push(b));
        lemma_asserted_names_push(bits.drop_first(), b);
        if bits[0].value {
            assert(seq![bits[0].name] + (spec_asserted_names(bits.drop_first()) + tail) =~= (seq![
                bits[0].name,
            ] + spec_asserted_names(bits.drop_first())) + tail);
        }
    }
}

/// A successful fold asserts the bit exactly when the accumulator was
/// already asserted or some VALUE leaf appears among the records,
/// whatever that leaf's payload.
pub proof fn lemma_fold_bit_value_marker(
    recs: Seq<DefaultNlaView>,
    acc: EthtoolBitSetView,
    seen_name: bool,
)
    requires
        spec_fold_bit_recs(recs, acc, seen_name) is Ok,
    ensures
        spec_fold_bit_recs(recs, acc, seen_name) matches Ok(p) && p.0.value == (acc.value
            || exists|i: int|
            0 <= i < recs.len() && (#[trigger] recs[i]).kind & NLA_TYPE_MASK
                == ETHTOOL_A_BITSET_BIT_VALUE),
    decreases recs.len(),
{
    let ex_recs = exists|i: int|
        0 <= i < recs.len() && (#[trigger] recs[i]).kind & NLA_TYPE_MASK
            == ETHTOOL_A_BITSET_BIT_VALUE;
    if recs.len() == 0 {
        assert(!ex_recs);
    } else {
        let rec = recs[0];
        let k = rec.kind & NLA_TYPE_MASK;
        let rest = recs.drop_first();
        let ex_rest = exists|j: int|
            0 <= j < rest.len() && (#[trigger] rest[j]).kind & NLA_TYPE_MASK
                == ETHTOOL_A_BITSET_BIT_VALUE;
        assert forall|j: int| 0 <= j < rest.len() implies #[trigger] rest[j] == recs[j + 1] by {}
        match spec_fold_bit_recs(recs, acc, seen_name) {
            Ok(_) => {
                let step = spec_fold_bit_step(rec, acc, seen_name);
                assert(step is Ok);
                let next = step->Ok_0;
                lemma_fold_bit_value_marker(rest, next.0, next.1);
                if k == ETHTOOL_A_BITSET_BIT_VALUE {
                    assert(ex_recs) by {
                        assert(recs[0].kind & NLA_TYPE_MASK == ETHTOOL_A_BITSET_BIT_VALUE);
                    }
                    assert(next.0.value);
                } else {
                    assert(next.0.value == acc.value);
                    if ex_rest {
                        let j = choose|j: int|
                            0 <= j < rest.len() && (#[trigger] rest[j]).kind & NLA_TYPE_MASK
                                == ETHTOOL_A_BITSET_BIT_VALUE;
                        assert(recs[j + 1].kind & NLA_TYPE_MASK == ETHTOOL_A_BITSET_BIT_VALUE);
                        assert(ex_recs);
                    }
                    if ex_recs {
                        let i = choose|i: int|
                            0 <= i < recs.len() && (#[trigger] recs[i]).kind & NLA_TYPE_MASK
                                == ETHTOOL_A_BITSET_BIT_VALUE;
                        assert(i != 0);
                        assert(rest[i - 1] == recs[i]);
                        assert(ex_rest);
                    }
                }
            },
            Err(_) => {},
        }
    }
}

/// A successful fold has seen a name exactly when the incoming flag was
/// set or some NAME leaf appears among the records.
pub proof fn lemma_fold_bit_name_seen(
    recs: Seq<DefaultNlaView>,
    acc: EthtoolBitSetView,
    seen_name: bool,
)
    requires
        spec_fold_bit_recs(recs, acc, seen_name) is Ok,
    ensures
        spec_fold_bit_recs(recs, acc, seen_name) matches Ok(p) && p.1 == (seen_name || exists|
            i: int,
        |
            0 <= i < recs.len() && (#[trigger] recs[i]).kind & NLA_TYPE_MASK
                == ETHTOOL_A_BITSET_BIT_NAME),
    decreases recs.len(),
{
    let ex_recs = exists|i: int|
        0 <= i < recs.len() && (#[trigger] recs[i]).kind & NLA_TYPE_MASK
            == ETHTOOL_A_BITSET_BIT_NAME;
    if recs.len() == 0 {
        assert(!ex_recs);
    } else {
        let rec = recs[0];
        let k = rec.kind & NLA_TYPE_MASK;
        let rest = recs.drop_first();
        let ex_rest = exists|j: int|
            0 <= j < rest.len() && (#[trigger] rest[j]).kind & NLA_TYPE_MASK
                == ETHTOOL_A_BITSET_BIT_NAME;
        assert forall|j: int| 0 <= j < rest.len() implies #[trigger] rest[j] == recs[j + 1] by {}
        match spec_fold_bit_recs(recs, acc, seen_name) {
            Ok(_) => {
                let step = spec_fold_bit_step(rec, acc, seen_name);
                assert(step is Ok);
                let next = step->Ok_0;
                lemma_fold_bit_name_seen(rest, next.0, next.1);
                if k == ETHTOOL_A_BITSET_BIT_NAME {
                    assert(ex_recs) by {
                        assert(recs[0].kind & NLA_TYPE_MASK == ETHTOOL_A_BITSET_BIT_NAME);
                    }
                    assert(next.1);
                } else {
                    assert(next.1 == seen_name);
                    if ex_rest {
                        let j = choose|j: int|
                            0 <= j < rest.len() && (#[trigger] rest[j]).kind & NLA_TYPE_MASK
                                == ETHTOOL_A_BITSET_BIT_NAME;
                        assert(recs[j + 1].kind & NLA_TYPE_MASK == ETHTOOL_A_BITSET_BIT_NAME);
                        assert(ex_recs);
                    }
                    if ex_recs {
                        let i = choose|i: int|
                            0 <= i < recs.len() && (#[trigger] recs[i]).kind & NLA_TYPE_MASK
                                == ETHTOOL_A_BITSET_BIT_NAME;
                        assert(i != 0);
                        assert(rest[i - 1] == recs[i]);
                        assert(ex_rest);
                    }
                }
            },
            Err(_) => {},
        }
    }
}

/// The name-and-marker law of one bit record: a bit decodes
/// successfully only if a NAME leaf is present among its records, and
/// the decoded bit is asserted exactly when a VALUE leaf is present.
pub proof fn lemma_parse_bit_name_required(b: Seq<u8>)
    ensures
        spec_parse_bit(b) matches Ok(bit) ==> (spec_split(b) matches Ok(recs) && (exists|i: int|
            0 <= i < recs.len() && (#[trigger] recs[i]).kind & NLA_TYPE_MASK
                == ETHTOOL_A_BITSET_BIT_NAME) && bit.value == (exists|i: int|
            0 <= i < recs.len() && (#[trigger] recs[i]).kind & NLA_TYPE_MASK
                == ETHTOOL_A_BITSET_BIT_VALUE)),
{
    match spec_parse_bit(b) {
        Ok(_) => match spec_split(b) {
            Ok(recs) => {
                lemma_fold_bit_value_marker(recs, spec_default_bit(), false);
                lemma_fold_bit_name_seen(recs, spec_default_bit(), false);
            },
            Err(_) => {},
        },
        Err(_) => {},
    }
}

/// Decodes the leaf records of one bit.
fn parse_bit(payload: &[u8]) -> (r: Result<EthtoolBitSet, DecodeError>)
    ensures
        match r {
            Ok(bit) => spec_parse_bit(payload@) == Ok::<EthtoolBitSetView, DecodeError>(bit@),
            Err(e) => spec_parse_bit(payload@) == Err::<EthtoolBitSetView, DecodeError>(e),
        },
{
    let recs = match split_nlas(payload) {
        Ok(recs) => recs,
        Err(e) => {
            return Err(e);
        },
    };
    let ghost rviews = recs.deep_view();
    let mut bit = EthtoolBitSet::default();
    let mut seen_name = false;
    let mut i: usize = 0;
    proof {
        assert(rviews.skip(0) =~= rviews);
    }
    while i < recs.len()
        invariant
            i <= recs.len(),
            rviews == recs.deep_view(),
            spec_split(payload@) == Ok::<Seq<DefaultNlaView>, DecodeError>(rviews),
            spec_fold_bit_recs(rviews, spec_default_bit(), false) == spec_fold_bit_recs(
                rviews.skip(i as int),
                bit@,
                seen_name,
            ),
        decreases recs.len() - i,
    {
        let ghost pre = rviews.skip(i as int);
        proof {
            assert(pre[0] == rviews[i as int]);
            assert(pre.drop_first() =~= rviews.skip(i as int + 1));
            assert(rviews[i as int] == recs[i as int].deep_view());
        }
        let nla = &recs[i];
        let k = nla.kind & NLA_TYPE_MASK;
        if k == ETHTOOL_A_BITSET_BIT_INDEX {
            match parse_u32(nla.value.as_slice()) {
                Ok(v) => {
                    bit.index = v;
                },
                Err(e) => {
                    return Err(in_attr(nla.kind, e));
                },
            }
        } else if k == ETHTOOL_A_BITSET_BIT_NAME {
            match parse_string(nla.value.as_slice()) {
                Ok(s) => {
                    bit.name = s;
                    seen_name = true;
                },
                Err(e) => {
                    return Err(in_attr(nla.kind, e));
                },
            }
        } else if k == ETHTOOL_A_BITSET_BIT_VALUE {
            bit.value = true;
        }
        i = i + 1;
    }
    proof {
        assert(rviews.skip(i as int) =~= Seq::<DefaultNlaView>::empty());
    }
    if seen_name {
        Ok(bit)
    } else {
        Err(DecodeError::MissingBitsetBitName)
    }
}

/// Decodes the value of the BITS container record.
fn parse_bitset_bits_nla(payload: &[u8]) -> (r: Result<Vec<EthtoolBitSet>, DecodeError>)
    ensures
        match r {
            Ok(bits) => spec_parse_bitset_bits_nla(payload@) == Ok::<
                Seq<EthtoolBitSetView>,
                DecodeError,
            >(bits.deep_view()),
            Err(e) => spec_parse_bitset_bits_nla(payload@) == Err::<
                Seq<EthtoolBitSetView>,
                DecodeError,
            >(e),
        },
{
    let recs = match split_nlas(payload) {
        Ok(recs) => recs,
        Err(e) => {
            return Err(e);
        },
    };
    let ghost rviews = recs.deep_view();
    let mut out: Vec<EthtoolBitSet> = Vec::new();
    let mut i: usize = 0;
    proof {
        assert(rviews.skip(0) =~= rviews);
    }
    while i < recs.len()
        invariant
            i <= recs.len(),
            rviews == recs.deep_view(),
            spec_split(payload@) == Ok::<Seq<DefaultNlaView>, DecodeError>(rviews),
            spec_parse_bits_recs(rviews) == (match spec_parse_bits_recs(rviews.skip(i as int)) {
                Ok(bs) => Ok::<Seq<EthtoolBitSetView>, DecodeError>(out.deep_view() + bs),
                Err(e) => Err(e),
            }),
        decreases recs.len() - i,
    {
        let ghost pre = rviews.skip(i as int);
        proof {
            assert(pre[0] == rviews[i as int]);
            assert(pre.drop_first() =~= rviews.skip(i as int + 1));
            assert(rviews[i as int] == recs[i as int].deep_view());
        }
        let nla = &recs[i];
        if nla.kind & NLA_TYPE_MASK == ETHTOOL_A_BITSET_BITS_BIT {
            match parse_bit(nla.value.as_slice()) {
                Ok(bit) => {
                    let ghost old_out = out.deep_view();
                    out.push(bit);
                    proof {
                        assert(out.deep_view() =~= old_out + seq![bit@]);
                        match spec_parse_bits_recs(rviews.skip(i as int + 1)) {
                            Ok(bs) => {
                                assert(old_out + (seq![bit@] + bs) =~= (old_out + seq![bit@]) + bs);
                            },
                            Err(_) => {},
                        }
                    }
                },
                Err(e) => {
                    return Err(in_attr(nla.kind, e));
                },
            }
        }
        i = i + 1;
    }
    proof {
        assert(rviews.skip(i as int) =~= Seq::<DefaultNlaView>::empty());
        assert(out.deep_view() + Seq::<EthtoolBitSetView>::empty() =~= out.deep_view());
        assert(seq![] =~= Seq::<EthtoolBitSetView>::empty());
    }
    Ok(out)
}

/// Finds the BITS container among the top-level records of a bitset
/// value and decodes its bits.
pub fn parse_bitset_bits_nlas(raw: &[u8]) -> (r: Result<Vec<EthtoolBitSet>, DecodeError>)
    ensures
        match r {
            Ok(bits) => spec_parse_bitset_bits_nlas(raw@) == Ok::<
                Seq<EthtoolBitSetView>,
                DecodeError,
            >(bits.deep_view()),
            Err(e) => spec_parse_bitset_bits_nlas(raw@) == Err::<
                Seq<EthtoolBitSetView>,
                DecodeError,
            >(e),
        },
{
    let mut pos: usize = 0;
    proof {
        assert(raw@.subrange(0, raw@.len() as int) =~= raw@);
    }
    loop
        invariant
            pos <= raw@.len(),
            spec_parse_bitset_bits_nlas(raw@) == spec_parse_bitset_bits_nlas(
                raw@.subrange(pos as int, raw@.len() as int),
            ),
        decreases raw@.len() - pos,
    {
        let ghost rest = raw@.subrange(pos as int, raw@.len() as int);
        if pos == raw.len() {
            assert(rest =~= Seq::<u8>::empty());
            return Err(DecodeError::MissingBitsetBits);
        }
        match split_one(raw, pos) {
            Ok((nla, next)) => {
                if nla.kind & NLA_TYPE_MASK == ETHTOOL_A_BITSET_BITS {
                    return parse_bitset_bits_nla(nla.value.as_slice());
                }
                pos = next;
            },
            Err(e) => {
                return Err(e);
            },
        }
    }
}

/// Filters a bitset value down to the names of its asserted bits, for
/// simple on/off capability lists.
pub fn parse_bitset_bits_string_nlas(raw: &[u8]) -> (r: Result<Vec<String>, DecodeError>)
    ensures
        match r {
            Ok(names) => match spec_parse_bitset_bits_nlas(raw@) {
                Ok(bits) => names.deep_view() == spec_asserted_names(bits),
                Err(_) => false,
            },
            Err(e) => spec_parse_bitset_bits_nlas(raw@) == Err::<
                Seq<EthtoolBitSetView>,
                DecodeError,
            >(e),
        },
{
    let bits = match parse_bitset_bits_nlas(raw) {
        Ok(bits) => bits,
        Err(e) => {
            return Err(e);
        },
    };
    let ghost bviews = bits.deep_view();
    let mut out: Vec<String> = Vec::new();
    let mut i: usize = 0;
    proof {
        assert(bviews.take(0) =~= Seq::<EthtoolBitSetView>::empty());
        assert(out.deep_view() =~= spec_asserted_names(bviews.take(0)));
    }
    while i < bits.len()
        invariant
            i <= bits.len(),
            bviews == bits.deep_view(),
            out.deep_view() == spec_asserted_names(bviews.take(i as int)),
        decreases bits.len() - i,
    {
        proof {
            assert(bviews.take(i as int + 1) =~= bviews.take(i as int).push(bviews[i as int]));
            lemma_asserted_names_push(bviews.take(i as int), bviews[i as int]);
            assert(bviews[i as int] == bits[i as int].deep_view());
        }
        let ghost old_out = out.deep_view();
        if bits[i].value {
            let name = bits[i].name.clone();
            assert(name@ == bits[i as int].name@);
            out.push(name);
            proof {
                assert(out.deep_view() =~= old_out + seq![bviews[i as int].name]);
            }
        } else {
            proof {
                assert(old_out + Seq::<Seq<char>>::empty() =~= old_out);
            }
        }
        i = i + 1;
    }
    proof {
        assert(bviews.take(i as int) =~= bviews);
    }
    Ok(out)
}

} // verus!
