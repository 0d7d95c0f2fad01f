//! The netlink attribute record format: length-prefixed, type-tagged
//! records (TLV) packed back to back in a byte buffer, each padded to a
//! 4-byte boundary.
//!
//! Every record is `u16 length | u16 type | value | padding`, where the
//! length counts the 4-byte header and the value but not the padding,
//! and bit 15 of the type field marks a nested record.

use vstd::prelude::*;
use vstd::bytes::*;

use crate::error::DecodeError;
use crate::parsers::{emit_u16, emit_u8};

verus! {

/// Bit of the type field that marks a nested attribute.
pub const NLA_F_NESTED: u16 = 0x8000;

/// Bit of the type field that marks a network-byte-order attribute.
pub const NLA_F_NET_BYTEORDER: u16 = 0x4000;

/// The bits of the type field that hold the attribute kind itself.
pub const NLA_TYPE_MASK: u16 = 0x3fff;

/// Bytes occupied by a record header: the length and type fields.
pub const NLA_HEADER_SIZE: usize = 4;

/// One raw attribute record: the full 16-bit type field, flag bits
/// included, and the value bytes. Attributes whose kind a codec does not
/// know are carried through in this form so that re-encoding reproduces
/// the original bytes exactly.
#[derive(Debug, PartialEq, Eq, Clone)]
pub struct DefaultNla {
    pub kind: u16,
    pub value: Vec<u8>,
}

/// The mathematical model of a raw record.
pub struct DefaultNlaView {
    pub kind: u16,
    pub value: Seq<u8>,
}

impl View for DefaultNla {
    type V = DefaultNlaView;

    open spec fn view(&self) -> DefaultNlaView {
        DefaultNlaView { kind: self.kind, value: self.value@ }
    }
}

impl DeepView for DefaultNla {
    type V = DefaultNlaView;

    open spec fn deep_view(&self) -> DefaultNlaView {
        self.view()
    }
}

impl DefaultNla {
    pub fn new(kind: u16, value: Vec<u8>) -> (r: Self)
        ensures
            r@ == (DefaultNlaView { kind, value: value@ }),
    {
        DefaultNla { kind, value }
    }
}

/// Bytes of zero padding that follow a value of `n` bytes.
pub open spec fn spec_pad_len(n: int) -> int {
    (4 - n % 4) % 4
}

/// `n` rounded up to the next multiple of 4.
pub open spec fn spec_align4(n: int) -> int {
    n + spec_pad_len(n)
}

/// Rounds a record length up to the next 4-byte boundary.
pub fn align4(n: usize) -> (r: usize)
    requires
        n + 3 <= usize::MAX,
    ensures
        r == spec_align4(n as int),
{
    if n % 4 == 0 {
        n
    } else {
        n + (4 - n % 4)
    }
}

/// The wire bytes of one record with the given type field and value.
pub open spec fn spec_record_bytes(kind: u16, value: Seq<u8>) -> Seq<u8>
    recommends
        value.len() + NLA_HEADER_SIZE <= 0xffff,
{
    spec_u16_to_le_bytes((value.len() + NLA_HEADER_SIZE) as u16) + spec_u16_to_le_bytes(kind)
        + value + Seq::new(spec_pad_len(value.len() as int) as nat, |i: int| 0u8)
}

/// The wire bytes of a list of records, packed back to back.
pub open spec fn spec_records_bytes(recs: Seq<DefaultNlaView>) -> Seq<u8>
    decreases recs.len(),
{
    if recs.len() == 0 {
        Seq::empty()
    } else {
        spec_record_bytes(recs[0].kind, recs[0].value) + spec_records_bytes(recs.drop_first())
    }
}

/// One record taken off the front of a non-empty buffer, and the bytes
/// that follow it. At least a 4-byte header must remain, the declared
/// length must not exceed the remaining bytes nor fall short of the
/// header size, the value is the declared length minus the header, and
/// the next record starts at the following 4-byte boundary.
pub open spec fn spec_split_one(b: Seq<u8>) -> Result<(DefaultNlaView, Seq<u8>), DecodeError>
    recommends
        b.len() > 0,
{
    if b.len() < 4 {
        Err(DecodeError::NlaBufferTooSmall { buffer_len: b.len() as usize })
    } else {
        let l = spec_u16_from_le_bytes(b.subrange(0, 2));
        let kind = spec_u16_from_le_bytes(b.subrange(2, 4));
        if b.len() < l {
            Err(DecodeError::NlaLengthMismatch { buffer_len: b.len() as usize, nla_len: l })
        } else if l < 4 {
            Err(DecodeError::NlaInvalidLength { nla_len: l })
        } else {
            let value = b.subrange(4, l as int);
            let adv = if spec_align4(l as int) <= b.len() {
                spec_align4(l as int)
            } else {
                b.len() as int
            };
            Ok((DefaultNlaView { kind, value }, b.subrange(adv, b.len() as int)))
        }
    }
}

/// How a flat byte buffer splits into records: an empty buffer gives no
/// records; otherwise one record is taken off the front and the rest is
/// split in turn.
pub open spec fn spec_split(b: Seq<u8>) -> Result<Seq<DefaultNlaView>, DecodeError>
    decreases b.len(),
{
    if b.len() == 0 {
        Ok(seq![])
    } else {
        match spec_split_one(b) {
            Ok((first, rest)) => match spec_split(rest) {
                Ok(rs) => Ok(seq![first] + rs),
                Err(e) => Err(e),
            },
            Err(e) => Err(e),
        }
    }
}

/// Prepends already-split records to the outcome of splitting the rest.
pub open spec fn spec_prepend_recs(
    pre: Seq<DefaultNlaView>,
    r: Result<Seq<DefaultNlaView>, DecodeError>,
) -> Result<Seq<DefaultNlaView>, DecodeError> {
    match r {
        Ok(rs) => Ok(pre + rs),
        Err(e) => Err(e),
    }
}

/// Reads the record at the front of `buf[pos..]`, returning it together
/// with the position where the next record starts.
pub fn split_one(buf: &[u8], pos: usize) -> (r: Result<(DefaultNla, usize), DecodeError>)
    requires
        pos < buf@.len(),
    ensures
        match r {
            Ok(p) => {
                &&& spec_split_one(buf@.subrange(pos as int, buf@.len() as int)) == Ok::<
                    (DefaultNlaView, Seq<u8>),
                    DecodeError,
                >((p.0@, buf@.subrange(p.1 as int, buf@.len() as int)))
                &&& pos < p.1 <= buf@.len()
            },
            Err(e) => spec_split_one(buf@.subrange(pos as int, buf@.len() as int)) == Err::<
                (DefaultNlaView, Seq<u8>),
                DecodeError,
            >(e),
        },
{
    let ghost rest = buf@.subrange(pos as int, buf@.len() as int);
    let remaining = buf.len() - pos;
    if remaining < 4 {
        return Err(DecodeError::NlaBufferTooSmall { buffer_len: remaining });
    }
    let len_bytes = vstd::slice::slice_subrange(buf, pos, pos + 2);
    let l = u16_from_le_bytes(len_bytes);
    assert(len_bytes@ =~= rest.subrange(0, 2));
    let kind_bytes = vstd::slice::slice_subrange(buf, pos + 2, pos + 4);
    let kind = u16_from_le_bytes(kind_bytes);
    assert(kind_bytes@ =~= rest.subrange(2, 4));
    if remaining < l as usize {
        return Err(DecodeError::NlaLengthMismatch { buffer_len: remaining, nla_len: l });
    }
    if l < 4 {
        return Err(DecodeError::NlaInvalidLength { nla_len: l });
    }
    let value_slice = vstd::slice::slice_subrange(buf, pos + 4, pos + l as usize);
    assert(value_slice@ =~= rest.subrange(4, l as int));
    let value = vstd::slice::slice_to_vec(value_slice);
    let adv = align4(l as usize);
    let next = if adv >= remaining {
        buf.len()
    } else {
        pos + adv
    };
    let ghost adv_spec: int = if spec_align4(l as int) <= rest.len() {
        spec_align4(l as int)
    } else {
        rest.len() as int
    };
    assert(buf@.subrange(next as int, buf@.len() as int) =~= rest.subrange(
        adv_spec,
        rest.len() as int,
    ));
    Ok((DefaultNla { kind, value }, next))
}

/// Splits a buffer into its raw attribute records.
///
/// This is total over all byte buffers: any malformed length yields a
/// decode error, and no input can make it read out of bounds.
pub fn split_nlas(buf: &[u8]) -> (r: Result<Vec<DefaultNla>, DecodeError>)
    ensures
        match r {
            Ok(v) => spec_split(buf@) == Ok::<Seq<DefaultNlaView>, DecodeError>(v.deep_view()),
            Err(e) => spec_split(buf@) == Err::<Seq<DefaultNlaView>, DecodeError>(e),
        },
{
    let mut out: Vec<DefaultNla> = Vec::new();
    let mut pos: usize = 0;
    proof {
        assert(buf@.subrange(0, buf@.len() as int) =~= buf@);
        match spec_split(buf@) {
            Ok(rs) => {
                assert(out.deep_view() + rs =~= rs);
            },
            Err(_) => {},
        }
    }
    loop
        invariant
            pos <= buf@.len(),
            spec_split(buf@) == spec_prepend_recs(
                out.deep_view(),
                spec_split(buf@.subrange(pos as int, buf@.len() as int)),
            ),
        decreases buf@.len() - pos,
    {
        let ghost rest = buf@.subrange(pos as int, buf@.len() as int);
        if pos == buf.len() {
            assert(rest =~= Seq::<u8>::empty());
            assert(out.deep_view() + Seq::<DefaultNlaView>::empty() =~= out.deep_view());
            return Ok(out);
        }
        match split_one(buf, pos) {
            Ok((nla, next)) => {
                let ghost old_views = out.deep_view();
                let ghost next_rest = buf@.subrange(next as int, buf@.len() as int);
                out.push(nla);
                proof {
                    assert(out.deep_view() =~= old_views + seq![nla@]);
                    match spec_split(next_rest) {
                        Ok(rs) => {
                            assert(spec_split(rest) == Ok::<Seq<DefaultNlaView>, DecodeError>(
                                seq![nla@] + rs,
                            ));
                            assert(old_views + (seq![nla@] + rs) =~= (old_views + seq![nla@]) + rs);
                        },
                        Err(_) => {},
                    }
                }
                pos = next;
            },
            Err(e) => {
                return Err(e);
            },
        }
    }
}

/// Appends the wire form of one record: length, type, value, padding.
pub fn emit_record(out: &mut Vec<u8>, kind: u16, value: &[u8])
    requires
        value@.len() + NLA_HEADER_SIZE <= 0xffff,
    ensures
        final(out)@ == old(out)@ + spec_record_bytes(kind, value@),
{
    emit_u16(out, (value.len() + NLA_HEADER_SIZE) as u16);
    emit_u16(out, kind);
    out.extend_from_slice(value);
    let pad: usize = (4 - value.len() % 4) % 4;
    assert(pad == spec_pad_len(value@.len() as int));
    let ghost before_pad = out@;
    let mut i: usize = 0;
    while i < pad
        invariant
            i <= pad,
            out@ == before_pad + Seq::new(i as nat, |j: int| 0u8),
        decreases pad - i,
    {
        emit_u8(out, 0u8);
        assert(out@ =~= before_pad + Seq::new((i + 1) as nat, |j: int| 0u8));
        i = i + 1;
    }
    assert(out@ =~= old(out)@ + spec_record_bytes(kind, value@));
}

/// The length of one record on the wire: header, value, and padding.
pub proof fn lemma_record_bytes_len(kind: u16, value: Seq<u8>)
    requires
        value.len() + NLA_HEADER_SIZE <= 0xffff,
    ensures
        spec_record_bytes(kind, value).len() == NLA_HEADER_SIZE + value.len() + spec_pad_len(
            value.len() as int,
        ),
        spec_record_bytes(kind, value).len() == spec_align4(value.len() + NLA_HEADER_SIZE),
        spec_record_bytes(kind, value).len() % 4 == 0,
{
    lemma_auto_spec_u16_to_from_le_bytes();
    let n = value.len() as int;
    assert((n + 4) % 4 == n % 4) by (nonlinear_arith);
    assert(0 <= n % 4 < 4) by (nonlinear_arith)
        requires n >= 0;
    assert((4 + n + spec_pad_len(n)) % 4 == 0) by (nonlinear_arith)
        requires n >= 0;
}

/// Splitting one well-formed record followed by further bytes yields
/// that record and then whatever the further bytes split into.
pub proof fn lemma_split_prepend(kind: u16, value: Seq<u8>, rest: Seq<u8>)
    requires
        value.len() + NLA_HEADER_SIZE <= 0xffff,
    ensures
        spec_split(spec_record_bytes(kind, value) + rest) == spec_prepend_recs(
            seq![DefaultNlaView { kind, value }],
            spec_split(rest),
        ),
{
    lemma_auto_spec_u16_to_from_le_bytes();
    lemma_record_bytes_len(kind, value);
    let rec = spec_record_bytes(kind, value);
    let b = rec + rest;
    let l_int: int = value.len() as int + 4;
    assert(b.subrange(0, 2) =~= spec_u16_to_le_bytes(l_int as u16));
    assert(b.subrange(2, 4) =~= spec_u16_to_le_bytes(kind));
    let l = spec_u16_from_le_bytes(b.subrange(0, 2));
    assert(l == l_int);
    assert(b.len() >= rec.len() >= l);
    assert(b.subrange(4, l as int) =~= value);
    assert(spec_align4(l as int) == rec.len());
    let adv = if spec_align4(l as int) <= b.len() {
        spec_align4(l as int)
    } else {
        b.len() as int
    };
    assert(adv == rec.len());
    assert(b.subrange(adv, b.len() as int) =~= rest);
    match spec_split(rest) {
        Ok(rs) => {
            assert(spec_split(b) == Ok::<Seq<DefaultNlaView>, DecodeError>(
                seq![DefaultNlaView { kind, value }] + rs,
            ));
        }
        Err(e) => {
            assert(spec_split(b) == Err::<Seq<DefaultNlaView>, DecodeError>(e));
        }
    }
}

/// Splitting the wire form of a record list recovers exactly that list.
pub proof fn lemma_split_records_bytes(recs: Seq<DefaultNlaView>)
    requires
        forall|i: int|
            0 <= i < recs.len() ==> (#[trigger] recs[i].value).len() + NLA_HEADER_SIZE <= 0xffff,
    ensures
        spec_split(spec_records_bytes(recs)) == Ok::<Seq<DefaultNlaView>, DecodeError>(recs),
    decreases recs.len(),
{
    if recs.len() == 0 {
        assert(spec_records_bytes(recs) =~= Seq::<u8>::empty());
        assert(recs =~= Seq::<DefaultNlaView>::empty());
        assert(spec_split(Seq::<u8>::empty()) == Ok::<Seq<DefaultNlaView>, DecodeError>(seq![]));
        assert(seq![] =~= Seq::<DefaultNlaView>::empty());
    } else {
        let first = recs[0];
        let rest = recs.drop_first();
        lemma_split_records_bytes(rest);
        lemma_split_prepend(first.kind, first.value, spec_records_bytes(rest));
        assert(spec_records_bytes(recs) == spec_record_bytes(first.kind, first.value)
            + spec_records_bytes(rest));
        assert(first == (DefaultNlaView { kind: first.kind, value: first.value }));
        assert(seq![first] + rest =~= recs);
    }
}

/// Every record that a successful split yields fits a single record's
/// 16-bit length field, and its value lies within the buffer.
pub proof fn lemma_split_value_bounded(b: Seq<u8>, recs: Seq<DefaultNlaView>, i: int)
    requires
        spec_split(b) == Ok::<Seq<DefaultNlaView>, DecodeError>(recs),
        0 <= i < recs.len(),
    ensures
        recs[i].value.len() + NLA_HEADER_SIZE <= 0xffff,
        recs[i].value.len() <= b.len(),
    decreases b.len(),
{
    let l = spec_u16_from_le_bytes(b.subrange(0, 2));
    let adv = if spec_align4(l as int) <= b.len() {
        spec_align4(l as int)
    } else {
        b.len() as int
    };
    let rest = b.subrange(adv, b.len() as int);
    match spec_split(rest) {
        Ok(rs) => {
            if i == 0 {
            } else {
                assert(recs[i] == rs[i - 1]);
                lemma_split_value_bounded(rest, rs, i - 1);
            }
        },
        Err(_) => {},
    }
}

/// Decodes each raw record with the given per-record decoder; the first
/// failure wins.
pub open spec fn spec_parse_recs<V>(
    recs: Seq<DefaultNlaView>,
    pf: spec_fn(u16, Seq<u8>) -> Result<V, DecodeError>,
) -> Result<Seq<V>, DecodeError>
    decreases recs.len(),
{
    if recs.len() == 0 {
        Ok(seq![])
    } else {
        match pf(recs[0].kind, recs[0].value) {
            Ok(v) => match spec_parse_recs(recs.drop_first(), pf) {
                Ok(vs) => Ok(seq![v] + vs),
                Err(e) => Err(e),
            },
            Err(e) => Err(e),
        }
    }
}

/// Splits a buffer into records and decodes each one.
pub open spec fn spec_parse_nla_list<V>(
    b: Seq<u8>,
    pf: spec_fn(u16, Seq<u8>) -> Result<V, DecodeError>,
) -> Result<Seq<V>, DecodeError> {
    match spec_split(b) {
        Ok(recs) => spec_parse_recs(recs, pf),
        Err(e) => Err(e),
    }
}

/// The raw records of a list of typed attributes.
pub open spec fn spec_attr_records<V>(
    vs: Seq<V>,
    kindf: spec_fn(V) -> u16,
    valf: spec_fn(V) -> Seq<u8>,
) -> Seq<DefaultNlaView> {
    vs.map_values(|v: V| DefaultNlaView { kind: kindf(v), value: valf(v) })
}

/// The wire bytes of a list of typed attributes, in list order.
pub open spec fn spec_emit_nla_list<V>(
    vs: Seq<V>,
    kindf: spec_fn(V) -> u16,
    valf: spec_fn(V) -> Seq<u8>,
) -> Seq<u8> {
    spec_records_bytes(spec_attr_records(vs, kindf, valf))
}

pub proof fn lemma_records_bytes_push(recs: Seq<DefaultNlaView>, r: DefaultNlaView)
    ensures
        spec_records_bytes(recs.push(r)) == spec_records_bytes(recs) + spec_record_bytes(
            r.kind,
            r.value,
        ),
    decreases recs.len(),
{
    if recs.len() == 0 {
        assert(recs =~= Seq::<DefaultNlaView>::empty());
        assert(recs.push(r).drop_first() =~= recs);
        assert(recs.push(r)[0] == r);
        assert(spec_records_bytes(recs.push(r)) == spec_record_bytes(r.kind, r.value)
            + spec_records_bytes(recs.push(r).drop_first()));
        assert(spec_records_bytes(recs) =~= Seq::<u8>::empty());
        assert(spec_record_bytes(r.kind, r.value) + Seq::<u8>::empty() =~= spec_record_bytes(
            r.kind,
            r.value,
        ));
        assert(Seq::<u8>::empty() + spec_record_bytes(r.kind, r.value) =~= spec_record_bytes(
            r.kind,
            r.value,
        ));
    } else {
        let first = recs[0];
        assert(recs.push(r)[0] == first);
        assert(recs.push(r).drop_first() =~= recs.drop_first().push(r));
        lemma_records_bytes_push(recs.drop_first(), r);
        assert(spec_record_bytes(first.kind, first.value) + (spec_records_bytes(recs.drop_first())
            + spec_record_bytes(r.kind, r.value)) =~= (spec_record_bytes(first.kind, first.value)
            + spec_records_bytes(recs.drop_first())) + spec_record_bytes(r.kind, r.value));
    }
}

/// One step of decoding from position `i` of a record list.
pub proof fn lemma_parse_recs_step<V>(
    recs: Seq<DefaultNlaView>,
    i: int,
    pf: spec_fn(u16, Seq<u8>) -> Result<V, DecodeError>,
)
    requires
        0 <= i < recs.len(),
    ensures
        spec_parse_recs(recs.skip(i), pf) == (match pf(recs[i].kind, recs[i].value) {
            Ok(v) => match spec_parse_recs(recs.skip(i + 1), pf) {
                Ok(vs) => Ok::<Seq<V>, DecodeError>(seq![v] + vs),
                Err(e) => Err(e),
            },
            Err(e) => Err(e),
        }),
{
    let s = recs.skip(i);
    assert(s.len() > 0);
    assert(s[0] == recs[i]);
    assert(s.drop_first() =~= recs.skip(i + 1));
}

/// Extending an emitted prefix of a typed attribute list by one
/// attribute appends exactly that attribute's record.
pub proof fn lemma_emit_nla_list_take_step<V>(
    vs: Seq<V>,
    i: int,
    kindf: spec_fn(V) -> u16,
    valf: spec_fn(V) -> Seq<u8>,
)
    requires
        0 <= i < vs.len(),
    ensures
        spec_emit_nla_list(vs.take(i + 1), kindf, valf) == spec_emit_nla_list(
            vs.take(i),
            kindf,
            valf,
        ) + spec_record_bytes(kindf(vs[i]), valf(vs[i])),
{
    let r = DefaultNlaView { kind: kindf(vs[i]), value: valf(vs[i]) };
    assert(spec_attr_records(vs.take(i + 1), kindf, valf) =~= spec_attr_records(
        vs.take(i),
        kindf,
        valf,
    ).push(r));
    lemma_records_bytes_push(spec_attr_records(vs.take(i), kindf, valf), r);
}

/// Decoding the records of a typed attribute list, when each attribute
/// decodes back to itself, recovers the whole list.
pub proof fn lemma_parse_recs_of_attrs<V>(
    vs: Seq<V>,
    kindf: spec_fn(V) -> u16,
    valf: spec_fn(V) -> Seq<u8>,
    pf: spec_fn(u16, Seq<u8>) -> Result<V, DecodeError>,
)
    requires
        forall|i: int|
            0 <= i < vs.len() ==> pf(kindf(#[trigger] vs[i]), valf(vs[i])) == Ok::<V, DecodeError>(
                vs[i],
            ),
    ensures
        spec_parse_recs(spec_attr_records(vs, kindf, valf), pf) == Ok::<Seq<V>, DecodeError>(vs),
    decreases vs.len(),
{
    let recs = spec_attr_records(vs, kindf, valf);
    if vs.len() == 0 {
        assert(recs.len() == 0);
        assert(seq![] =~= vs);
    } else {
        assert(recs[0] == (DefaultNlaView { kind: kindf(vs[0]), value: valf(vs[0]) }));
        assert(recs.drop_first() =~= spec_attr_records(vs.drop_first(), kindf, valf));
        lemma_parse_recs_of_attrs(vs.drop_first(), kindf, valf, pf);
        assert(seq![vs[0]] + vs.drop_first() =~= vs);
    }
}

/// Encoding a typed attribute list and decoding it again recovers the
/// list, provided every attribute fits one record and decodes back to
/// itself.
pub proof fn lemma_nla_list_round_trip<V>(
    vs: Seq<V>,
    kindf: spec_fn(V) -> u16,
    valf: spec_fn(V) -> Seq<u8>,
    pf: spec_fn(u16, Seq<u8>) -> Result<V, DecodeError>,
)
    requires
        forall|i: int|
            0 <= i < vs.len() ==> (valf(#[trigger] vs[i])).len() + NLA_HEADER_SIZE <= 0xffff,
        forall|i: int|
            0 <= i < vs.len() ==> pf(kindf(#[trigger] vs[i]), valf(vs[i])) == Ok::<V, DecodeError>(
                vs[i],
            ),
    ensures
        spec_parse_nla_list(spec_emit_nla_list(vs, kindf, valf), pf) == Ok::<Seq<V>, DecodeError>(
            vs,
        ),
{
    let recs = spec_attr_records(vs, kindf, valf);
    assert forall|i: int| 0 <= i < recs.len() implies (#[trigger] recs[i].value).len()
        + NLA_HEADER_SIZE <= 0xffff by {
        assert(recs[i].value == valf(vs[i]));
    }
    lemma_split_records_bytes(recs);
    lemma_parse_recs_of_attrs(vs, kindf, valf, pf);
}

/// A record list's bytes are the bytes of any prefix followed by the
/// bytes of the rest.
pub proof fn lemma_records_bytes_take_skip(recs: Seq<DefaultNlaView>, i: int)
    requires
        0 <= i <= recs.len(),
    ensures
        spec_records_bytes(recs) == spec_records_bytes(recs.take(i)) + spec_records_bytes(
            recs.skip(i),
        ),
    decreases i,
{
    if i == 0 {
        assert(recs.take(0) =~= Seq::<DefaultNlaView>::empty());
        assert(recs.skip(0) =~= recs);
        assert(spec_records_bytes(recs.take(0)) =~= Seq::<u8>::empty());
        assert(Seq::<u8>::empty() + spec_records_bytes(recs) =~= spec_records_bytes(recs));
    } else {
        let first = recs[0];
        let rest = recs.drop_first();
        lemma_records_bytes_take_skip(rest, i - 1);
        assert(recs.take(i)[0] == first);
        assert(recs.take(i).drop_first() =~= rest.take(i - 1));
        assert(recs.skip(i) =~= rest.skip(i - 1));
        let rb = spec_record_bytes(first.kind, first.value);
        assert(rb + (spec_records_bytes(rest.take(i - 1)) + spec_records_bytes(rest.skip(i - 1)))
            =~= (rb + spec_records_bytes(rest.take(i - 1))) + spec_records_bytes(
            rest.skip(i - 1),
        ));
    }
}

/// A list of records whose values are small occupies few bytes on the
/// wire.
pub proof fn lemma_records_bytes_len_bound(recs: Seq<DefaultNlaView>, m: int)
    requires
        forall|i: int| 0 <= i < recs.len() ==> (#[trigger] recs[i].value).len() <= m,
        0 <= m,
        m + NLA_HEADER_SIZE <= 0xffff,
    ensures
        spec_records_bytes(recs).len() <= recs.len() * (spec_align4(m + NLA_HEADER_SIZE)),
    decreases recs.len(),
{
    if recs.len() == 0 {
    } else {
        let first = recs[0];
        lemma_records_bytes_len_bound(recs.drop_first(), m);
        lemma_record_bytes_len(first.kind, first.value);
        let l = first.value.len() as int + NLA_HEADER_SIZE;
        assert(spec_align4(l) <= spec_align4(m + NLA_HEADER_SIZE)) by (nonlinear_arith)
            requires
                4 <= l <= m + NLA_HEADER_SIZE,
        ;
        assert((recs.len() - 1) * spec_align4(m + NLA_HEADER_SIZE) + spec_align4(
            m + NLA_HEADER_SIZE,
        ) == recs.len() * spec_align4(m + NLA_HEADER_SIZE)) by (nonlinear_arith);
    }
}

/// The `Ok` value mapped to its deep mathematical model.
pub open spec fn res_deep_view<T: DeepView>(r: Result<T, DecodeError>) -> Result<
    T::V,
    DecodeError,
> {
    match r {
        Ok(t) => Ok(t.deep_view()),
        Err(e) => Err(e),
    }
}

/// One attribute set: a closed family of typed attributes with a
/// symmetric decoder and encoder over single records.
pub trait NlaCodec: Sized + DeepView {
    /// The wire type field of an attribute.
    spec fn spec_kind_of(v: Self::V) -> u16;

    /// The wire value bytes of an attribute.
    spec fn spec_value_of(v: Self::V) -> Seq<u8>;

    /// The attribute can be encoded: its value fits one record, and it
    /// is not a decode-only variant.
    spec fn spec_wf(v: Self::V) -> bool;

    /// An attribute that decodes back to itself from its own record.
    spec fn spec_rt(v: Self::V) -> bool;

    /// Decoding one record. Total: unknown kinds decode to a raw
    /// pass-through attribute, never to an error.
    spec fn spec_parse_one(kind: u16, value: Seq<u8>) -> Result<Self::V, DecodeError>;

    /// An encodable attribute's value fits one record's length field.
    proof fn lemma_wf_bound(v: Self::V)
        requires
            Self::spec_wf(v),
        ensures
            Self::spec_value_of(v).len() + NLA_HEADER_SIZE <= 0xffff,
    ;

    /// Encoding a round-trippable attribute and decoding the record
    /// again yields the attribute itself.
    proof fn lemma_round_trip(v: Self::V)
        requires
            Self::spec_rt(v),
        ensures
            Self::spec_wf(v),
            Self::spec_parse_one(Self::spec_kind_of(v), Self::spec_value_of(v)) == Ok::<
                Self::V,
                DecodeError,
            >(v),
    ;

    /// The wire type field of this attribute.
    fn kind(&self) -> (r: u16)
        ensures
            r == Self::spec_kind_of(self.deep_view()),
    ;

    /// Appends this attribute's value bytes.
    fn emit_value(&self, out: &mut Vec<u8>)
        requires
            Self::spec_wf(self.deep_view()),
        ensures
            final(out)@ == old(out)@ + Self::spec_value_of(self.deep_view()),
    ;

    /// Decodes one record into a typed attribute.
    fn parse(kind: u16, payload: &[u8]) -> (r: Result<Self, DecodeError>)
        ensures
            res_deep_view(r) == Self::spec_parse_one(kind, payload@),
    ;

    /// Whether this attribute can be encoded. Total, so that unverified
    /// callers can test `emit_value`'s precondition before relying on
    /// it.
    fn check_wf(&self) -> (b: bool)
        ensures
            b == Self::spec_wf(self.deep_view()),
    ;

}

/// The decoder of one attribute set, as a function over records.
pub open spec fn spec_codec_parser<T: NlaCodec>() -> spec_fn(u16, Seq<u8>) -> Result<
    T::V,
    DecodeError,
> {
    |k: u16, v: Seq<u8>| T::spec_parse_one(k, v)
}

/// How a flat buffer decodes as a list of one set's attributes.
pub open spec fn spec_parse_codec_list<T: NlaCodec>(b: Seq<u8>) -> Result<Seq<T::V>, DecodeError> {
    spec_parse_nla_list(b, spec_codec_parser::<T>())
}

/// The wire bytes of a list of one set's attributes, in list order.
pub open spec fn spec_emit_codec_list<T: NlaCodec>(vs: Seq<T::V>) -> Seq<u8> {
    spec_emit_nla_list(vs, |v: T::V| T::spec_kind_of(v), |v: T::V| T::spec_value_of(v))
}

pub open spec fn codec_list_wf<T: NlaCodec>(vs: Seq<T::V>) -> bool {
    forall|i: int| 0 <= i < vs.len() ==> T::spec_wf(#[trigger] vs[i])
}

pub open spec fn codec_list_rt<T: NlaCodec>(vs: Seq<T::V>) -> bool {
    forall|i: int| 0 <= i < vs.len() ==> T::spec_rt(#[trigger] vs[i])
}

/// The exact number of value bytes an attribute encodes to, excluding
/// the record header.
pub fn nla_value_len<T: NlaCodec>(a: &T) -> (r: usize)
    requires
        T::spec_wf(a.deep_view()),
    ensures
        r == T::spec_value_of(a.deep_view()).len(),
{
    let mut tmp: Vec<u8> = Vec::new();
    a.emit_value(&mut tmp);
    assert(tmp@ =~= T::spec_value_of(a.deep_view()));
    tmp.len()
}

/// Appends one attribute's full record: header, value and padding.
pub fn emit_nla<T: NlaCodec>(a: &T, out: &mut Vec<u8>)
    requires
        T::spec_wf(a.deep_view()),
    ensures
        final(out)@ == old(out)@ + spec_record_bytes(
            T::spec_kind_of(a.deep_view()),
            T::spec_value_of(a.deep_view()),
        ),
{
    let mut tmp: Vec<u8> = Vec::new();
    a.emit_value(&mut tmp);
    assert(tmp@ =~= T::spec_value_of(a.deep_view()));
    proof {
        T::lemma_wf_bound(a.deep_view());
    }
    emit_record(out, a.kind(), tmp.as_slice());
}

/// Whether every attribute of a list can be encoded and the whole list
/// fits inside the value of one enclosing record. Total, so that
/// unverified callers can test the preconditions of the nested-list
/// encoders.
pub fn check_codec_list_wf<T: NlaCodec>(vs: &Vec<T>) -> (b: bool)
    ensures
        b == (codec_list_wf::<T>(vs.deep_view()) && spec_emit_codec_list::<T>(vs.deep_view()).len()
            + NLA_HEADER_SIZE <= 0xffff),
{
    let ghost views = vs.deep_view();
    let mut acc: usize = 0;
    let mut i: usize = 0;
    proof {
        assert(views.take(0) =~= Seq::<T::V>::empty());
        assert(spec_emit_codec_list::<T>(views.take(0)) =~= Seq::<u8>::empty());
    }
    while i < vs.len()
        invariant
            i <= vs.len(),
            views == vs.deep_view(),
            forall|k: int| 0 <= k < i ==> T::spec_wf(#[trigger] views[k]),
            acc == spec_emit_codec_list::<T>(views.take(i as int)).len(),
            acc + NLA_HEADER_SIZE <= 0xffff,
        decreases vs.len() - i,
    {
        proof {
            assert(views[i as int] == vs[i as int].deep_view());
        }
        if !vs[i].check_wf() {
            return false;
        }
        let vl = nla_value_len(&vs[i]);
        proof {
            T::lemma_wf_bound(views[i as int]);
            lemma_emit_nla_list_take_step(
                views,
                i as int,
                |v: T::V| T::spec_kind_of(v),
                |v: T::V| T::spec_value_of(v),
            );
            lemma_record_bytes_len(
                T::spec_kind_of(views[i as int]),
                T::spec_value_of(views[i as int]),
            );
        }
        let rec_len = align4(vl) + NLA_HEADER_SIZE;
        if rec_len > 0xffff - NLA_HEADER_SIZE - acc {
            proof {
                let recs = spec_attr_records(
                    views,
                    |v: T::V| T::spec_kind_of(v),
                    |v: T::V| T::spec_value_of(v),
                );
                lemma_records_bytes_take_skip(recs, i as int + 1);
                assert(recs.take(i as int + 1) =~= spec_attr_records(
                    views.take(i as int + 1),
                    |v: T::V| T::spec_kind_of(v),
                    |v: T::V| T::spec_value_of(v),
                ));
                assert(spec_emit_codec_list::<T>(views).len() >= spec_emit_codec_list::<T>(
                    views.take(i as int + 1),
                ).len());
            }
            return false;
        }
        acc = acc + rec_len;
        i = i + 1;
    }
    proof {
        assert(views.take(i as int) =~= views);
    }
    true
}

/// Decodes a flat buffer as a list of one set's attributes.
pub fn parse_nla_vec<T: NlaCodec>(payload: &[u8]) -> (r: Result<Vec<T>, DecodeError>)
    ensures
        match r {
            Ok(v) => spec_parse_codec_list::<T>(payload@) == Ok::<Seq<T::V>, DecodeError>(
                v.deep_view(),
            ),
            Err(e) => spec_parse_codec_list::<T>(payload@) == Err::<Seq<T::V>, DecodeError>(e),
        },
{
    let recs = match split_nlas(payload) {
        Ok(recs) => recs,
        Err(e) => {
            return Err(e);
        },
    };
    let ghost rviews = recs.deep_view();
    let ghost pf = spec_codec_parser::<T>();
    let mut out: Vec<T> = Vec::new();
    let mut i: usize = 0;
    proof {
        assert(rviews.skip(0) =~= rviews);
    }
    while i < recs.len()
        invariant
            i <= recs.len(),
            rviews == recs.deep_view(),
            pf == spec_codec_parser::<T>(),
            spec_split(payload@) == Ok::<Seq<DefaultNlaView>, DecodeError>(rviews),
            spec_parse_recs(rviews, pf) == (match spec_parse_recs(rviews.skip(i as int), pf) {
                Ok(rest) => Ok::<Seq<T::V>, DecodeError>(out.deep_view() + rest),
                Err(e) => Err(e),
            }),
        decreases recs.len() - i,
    {
        proof {
            lemma_parse_recs_step(rviews, i as int, pf);
        }
        let nla = &recs[i];
        proof {
            assert(rviews[i as int] == nla.deep_view());
        }
        match T::parse(nla.kind, nla.value.as_slice()) {
            Ok(a) => {
                let ghost old_out = out.deep_view();
                out.push(a);
                proof {
                    assert(out.deep_view() =~= old_out + seq![a.deep_view()]);
                    match spec_parse_recs(rviews.skip(i as int + 1), pf) {
                        Ok(rest) => {
                            assert(old_out + (seq![a.deep_view()] + rest) =~= (old_out + seq![
                                a.deep_view(),
                            ]) + rest);
                        },
                        Err(_) => {},
                    }
                }
            },
            Err(e) => {
                return Err(e);
            },
        }
        i = i + 1;
    }
    proof {
        assert(rviews.skip(i as int) =~= Seq::<DefaultNlaView>::empty());
        assert(spec_parse_recs(rviews.skip(i as int), pf) == Ok::<Seq<T::V>, DecodeError>(seq![]));
        assert(out.deep_view() + Seq::<T::V>::empty() =~= out.deep_view());
        assert(seq![] =~= Seq::<T::V>::empty());
    }
    Ok(out)
}

/// Appends the records of an attribute list, in list order: encoding
/// keeps the caller's attribute order.
pub fn emit_nla_vec<T: NlaCodec>(vs: &Vec<T>, out: &mut Vec<u8>)
    requires
        codec_list_wf::<T>(vs.deep_view()),
    ensures
        final(out)@ == old(out)@ + spec_emit_codec_list::<T>(vs.deep_view()),
{
    let ghost views = vs.deep_view();
    let mut i: usize = 0;
    proof {
        assert(views.take(0) =~= Seq::<T::V>::empty());
        assert(spec_emit_codec_list::<T>(views.take(0)) =~= Seq::<u8>::empty());
        assert(out@ + Seq::<u8>::empty() =~= out@);
    }
    while i < vs.len()
        invariant
            i <= vs.len(),
            views == vs.deep_view(),
            codec_list_wf::<T>(views),
            out@ == old(out)@ + spec_emit_codec_list::<T>(views.take(i as int)),
        decreases vs.len() - i,
    {
        proof {
            lemma_emit_nla_list_take_step(
                views,
                i as int,
                |v: T::V| T::spec_kind_of(v),
                |v: T::V| T::spec_value_of(v),
            );
            assert(views[i as int] == vs[i as int].deep_view());
        }
        emit_nla(&vs[i], out);
        proof {
            assert(out@ =~= old(out)@ + spec_emit_codec_list::<T>(views.take(i as int + 1)));
        }
        i = i + 1;
    }
    proof {
        assert(views.take(i as int) =~= views);
    }
}

/// Encoding a list of round-trippable attributes and decoding the bytes
/// again yields the same list.
pub proof fn lemma_codec_list_round_trip<T: NlaCodec>(vs: Seq<T::V>)
    requires
        codec_list_rt::<T>(vs),
    ensures
        spec_parse_codec_list::<T>(spec_emit_codec_list::<T>(vs)) == Ok::<Seq<T::V>, DecodeError>(
            vs,
        ),
{
    let kindf = |v: T::V| T::spec_kind_of(v);
    let valf = |v: T::V| T::spec_value_of(v);
    let pf = spec_codec_parser::<T>();
    assert forall|i: int| 0 <= i < vs.len() implies (valf(#[trigger] vs[i])).len()
        + NLA_HEADER_SIZE <= 0xffff by {
        T::lemma_round_trip(vs[i]);
        T::lemma_wf_bound(vs[i]);
    }
    assert forall|i: int| 0 <= i < vs.len() implies pf(kindf(#[trigger] vs[i]), valf(vs[i])) == Ok::<
        T::V,
        DecodeError,
    >(vs[i]) by {
        T::lemma_round_trip(vs[i]);
    }
    lemma_nla_list_round_trip(vs, kindf, valf, pf);
}

} // verus!
