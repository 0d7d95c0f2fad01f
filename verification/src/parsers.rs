//! Fixed-width integers and strings read from and written to attribute
//! payloads, in the byte order of the kernel ABI on the targets this
//! crate supports (little-endian).

use vstd::prelude::*;
use vstd::bytes::*;
use vstd::utf8::{valid_utf8, decode_utf8, encode_utf8};

use crate::error::DecodeError;

verus! {

pub open spec fn spec_parse_u8(p: Seq<u8>) -> Result<u8, DecodeError> {
    if p.len() == 1 {
        Ok(p[0])
    } else {
        Err(DecodeError::InvalidNumber { expected: 1, received: p.len() as usize })
    }
}

pub open spec fn spec_parse_u32(p: Seq<u8>) -> Result<u32, DecodeError> {
    if p.len() == 4 {
        Ok(spec_u32_from_le_bytes(p))
    } else {
        Err(DecodeError::InvalidNumber { expected: 4, received: p.len() as usize })
    }
}

pub open spec fn spec_parse_u64(p: Seq<u8>) -> Result<u64, DecodeError> {
    if p.len() == 8 {
        Ok(spec_u64_from_le_bytes(p))
    } else {
        Err(DecodeError::InvalidNumber { expected: 8, received: p.len() as usize })
    }
}

pub open spec fn spec_i16_from_le_bytes(p: Seq<u8>) -> i16 {
    spec_u16_from_le_bytes(p) as i16
}

pub open spec fn spec_i16_to_le_bytes(v: i16) -> Seq<u8> {
    spec_u16_to_le_bytes(v as u16)
}

pub open spec fn spec_parse_i16(p: Seq<u8>) -> Result<i16, DecodeError> {
    if p.len() == 2 {
        Ok(spec_i16_from_le_bytes(p))
    } else {
        Err(DecodeError::InvalidNumber { expected: 2, received: p.len() as usize })
    }
}

/// The attribute payload that carries a string: its UTF-8 bytes followed
/// by one terminating NUL byte.
pub open spec fn spec_string_bytes(s: Seq<char>) -> Seq<u8> {
    encode_utf8(s) + seq![0u8]
}

/// How a string payload is read back: an empty payload is the empty
/// string; otherwise one trailing NUL byte, if present, is dropped and
/// the rest must be valid UTF-8.
pub open spec fn spec_parse_string(p: Seq<u8>) -> Result<Seq<char>, DecodeError> {
    if p.len() == 0 {
        Ok(seq![])
    } else {
        let trimmed = if p[p.len() - 1] == 0 {
            p.subrange(0, p.len() - 1)
        } else {
            p
        };
        if valid_utf8(trimmed) {
            Ok(decode_utf8(trimmed))
        } else {
            Err(DecodeError::InvalidString)
        }
    }
}

pub fn parse_u8(payload: &[u8]) -> (r: Result<u8, DecodeError>)
    ensures
        r == spec_parse_u8(payload@),
{
    if payload.len() == 1 {
        Ok(payload[0])
    } else {
        Err(DecodeError::InvalidNumber { expected: 1, received: payload.len() })
    }
}

pub fn parse_u32(payload: &[u8]) -> (r: Result<u32, DecodeError>)
    ensures
        r == spec_parse_u32(payload@),
{
    if payload.len() == 4 {
        Ok(u32_from_le_bytes(payload))
    } else {
        Err(DecodeError::InvalidNumber { expected: 4, received: payload.len() })
    }
}

pub fn parse_u64(payload: &[u8]) -> (r: Result<u64, DecodeError>)
    ensures
        r == spec_parse_u64(payload@),
{
    if payload.len() == 8 {
        Ok(u64_from_le_bytes(payload))
    } else {
        Err(DecodeError::InvalidNumber { expected: 8, received: payload.len() })
    }
}

pub fn parse_i16(payload: &[u8]) -> (r: Result<i16, DecodeError>)
    ensures
        r == spec_parse_i16(payload@),
{
    if payload.len() == 2 {
        Ok(u16_from_le_bytes(payload) as i16)
    } else {
        Err(DecodeError::InvalidNumber { expected: 2, received: payload.len() })
    }
}

/// Relies on `str::from_utf8` of std: it succeeds exactly on valid UTF-8
/// input and returns the character sequence that the bytes encode.
#[verifier::external_body]
fn bytes_to_string(payload: &[u8]) -> (r: Option<String>)
    ensures
        r is Some <==> valid_utf8(payload@),
        r is Some ==> r.unwrap()@ == decode_utf8(payload@),
{
    core::str::from_utf8(payload).ok().map(|s| s.to_owned())
}

pub fn parse_string(payload: &[u8]) -> (r: Result<String, DecodeError>)
    ensures
        match r {
            Ok(s) => spec_parse_string(payload@) == Ok::<Seq<char>, DecodeError>(s@),
            Err(e) => spec_parse_string(payload@) == Err::<Seq<char>, DecodeError>(e),
        },
{
    if payload.len() == 0 {
        let s = String::new();
        assert(s@ =~= Seq::<char>::empty());
        return Ok(s);
    }
    let trimmed: &[u8] = if payload[payload.len() - 1] == 0 {
        vstd::slice::slice_subrange(payload, 0, payload.len() - 1)
    } else {
        payload
    };
    match bytes_to_string(trimmed) {
        Some(s) => Ok(s),
        None => Err(DecodeError::InvalidString),
    }
}

pub fn emit_u8(out: &mut Vec<u8>, v: u8)
    ensures
        final(out)@ == old(out)@ + seq![v],
{
    out.push(v);
}

pub fn emit_u32(out: &mut Vec<u8>, v: u32)
    ensures
        final(out)@ == old(out)@ + spec_u32_to_le_bytes(v),
{
    let b = u32_to_le_bytes(v);
    out.extend_from_slice(b.as_slice());
}

pub fn emit_u64(out: &mut Vec<u8>, v: u64)
    ensures
        final(out)@ == old(out)@ + spec_u64_to_le_bytes(v),
{
    let b = u64_to_le_bytes(v);
    out.extend_from_slice(b.as_slice());
}

pub fn emit_u16(out: &mut Vec<u8>, v: u16)
    ensures
        final(out)@ == old(out)@ + spec_u16_to_le_bytes(v),
{
    let b = u16_to_le_bytes(v);
    out.extend_from_slice(b.as_slice());
}

pub fn emit_i16(out: &mut Vec<u8>, v: i16)
    ensures
        final(out)@ == old(out)@ + spec_i16_to_le_bytes(v),
{
    emit_u16(out, v as u16);
}

/// Writes a string payload: the UTF-8 bytes of the string, then one NUL.
pub fn emit_string(out: &mut Vec<u8>, s: &str)
    ensures
        final(out)@ == old(out)@ + spec_string_bytes(s@),
{
    let b = s.as_bytes();
    out.extend_from_slice(b);
    out.push(0u8);
    assert(out@ =~= old(out)@ + spec_string_bytes(s@));
}

/// A UTF-8 encoding takes at most four bytes per character.
pub proof fn lemma_encode_utf8_len(s: Seq<char>)
    ensures
        encode_utf8(s).len() <= 4 * s.len(),
    decreases s.len(),
{
    if s.len() == 0 {
    } else {
        vstd::utf8::char_is_scalar(s[0]);
        lemma_encode_utf8_len(s.drop_first());
        assert(vstd::utf8::encode_scalar(s[0] as u32).len() <= 4);
    }
}

/// A string payload, once written, reads back as the same string.
pub proof fn lemma_string_round_trip(s: Seq<char>)
    ensures
        spec_parse_string(spec_string_bytes(s)) == Ok::<Seq<char>, DecodeError>(s),
{
    let p = spec_string_bytes(s);
    assert(p[p.len() - 1] == 0);
    assert(p.subrange(0, p.len() - 1) =~= encode_utf8(s));
    broadcast use vstd::utf8::encode_utf8_valid_utf8;
    broadcast use vstd::utf8::encode_utf8_decode_utf8;

    assert(spec_parse_string(p) == Ok::<Seq<char>, DecodeError>(s));
}

} // verus!
