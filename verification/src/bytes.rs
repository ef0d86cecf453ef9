//! Primitive codec: fixed-width unsigned integers in the protocol's single
//! byte order (low byte first), read from and written to an in-memory buffer
//! through a cursor that is nothing but a position.

use vstd::prelude::*;
use crate::error::{EntityName, ProtoError, ProtoErrorKind};

verus! {

/// The two-byte image of a 16-bit value on the wire: low byte first.
pub open spec fn u16_le(v: u16) -> Seq<u8> {
    seq![(v % 256) as u8, (v / 256) as u8]
}

/// What reading one byte at position `i` of `b` yields: the byte and the
/// position after it, or nothing when the buffer is exhausted.
pub open spec fn dec_u8(b: Seq<u8>, i: int) -> Option<(u8, int)> {
    if 0 <= i < b.len() {
        Some((b[i], i + 1))
    } else {
        None
    }
}

/// What reading a 16-bit value at position `i` of `b` yields.
pub open spec fn dec_u16(b: Seq<u8>, i: int) -> Option<(u16, int)> {
    if 0 <= i && i + 2 <= b.len() {
        Some((((b[i] as int) + 256 * (b[i + 1] as int)) as u16, i + 2))
    } else {
        None
    }
}

/// Reading two bytes that are the image of `v` gives back exactly `v`.
pub proof fn lemma_dec_u16_of_bytes(b: Seq<u8>, i: int, v: u16)
    requires
        0 <= i,
        i + 2 <= b.len(),
        b[i] == u16_le(v)[0],
        b[i + 1] == u16_le(v)[1],
    ensures
        dec_u16(b, i) == Some((v, i + 2)),
{
    assert((v % 256) + 256 * (v / 256) == v) by {
        vstd::arithmetic::div_mod::lemma_fundamental_div_mod(v as int, 256);
    }
}

/// Append one byte.
pub fn put_u8(buf: &mut Vec<u8>, v: u8)
    ensures
        final(buf)@ == old(buf)@.push(v),
{
    buf.push(v);
}

/// Append a 16-bit value, low byte first.
pub fn put_u16(buf: &mut Vec<u8>, v: u16)
    ensures
        final(buf)@ == old(buf)@ + u16_le(v),
{
    let lo: u8 = (v % 256) as u8;
    let hi: u8 = (v / 256) as u8;
    buf.push(lo);
    buf.push(hi);
    assert(buf@ =~= old(buf)@ + u16_le(v));
}

/// Read one byte, advancing the position; on an exhausted buffer the
/// position is unchanged and a decoding failure names `entity`.
pub fn read_u8(buf: &[u8], pos: &mut usize, entity: EntityName) -> (r: Result<u8, ProtoError>)
    ensures
        match dec_u8(buf@, *old(pos) as int) {
            Some(p) => r is Ok && r->Ok_0 == p.0 && *final(pos) == p.1,
            None => {
                &&& r is Err
                &&& *final(pos) == *old(pos)
                &&& r->Err_0.wf()
                &&& r->Err_0.root_kind() == ProtoErrorKind::Decoding(entity)
            },
        },
{
    if *pos < buf.len() {
        let b = buf[*pos];
        *pos = *pos + 1;
        Ok(b)
    } else {
        Err(ProtoError::new(
            ProtoErrorKind::Decoding(entity),
            "unexpected end of buffer",
        ))
    }
}

/// Read a 16-bit value, low byte first, advancing the position; on an
/// exhausted buffer the position is unchanged and a decoding failure names
/// `entity`.
pub fn read_u16(buf: &[u8], pos: &mut usize, entity: EntityName) -> (r: Result<u16, ProtoError>)
    ensures
        match dec_u16(buf@, *old(pos) as int) {
            Some(p) => r is Ok && r->Ok_0 == p.0 && *final(pos) == p.1,
            None => {
                &&& r is Err
                &&& *final(pos) == *old(pos)
                &&& r->Err_0.wf()
                &&& r->Err_0.root_kind() == ProtoErrorKind::Decoding(entity)
            },
        },
{
    if *pos < buf.len() && 2 <= buf.len() - *pos {
        let lo = buf[*pos];
        let hi = buf[*pos + 1];
        *pos = *pos + 2;
        Ok(lo as u16 + 256 * (hi as u16))
    } else {
        Err(ProtoError::new(
            ProtoErrorKind::Decoding(entity),
            "unexpected end of buffer",
        ))
    }
}

/// Look at the byte at the current position without advancing: a
/// non-destructive peek.
pub fn peek_u8(buf: &[u8], pos: usize) -> (r: Option<u8>)
    ensures
        match dec_u8(buf@, pos as int) {
            Some(p) => r == Some(p.0),
            None => r is None,
        },
{
    if pos < buf.len() {
        Some(buf[pos])
    } else {
        None
    }
}

} // verus!
