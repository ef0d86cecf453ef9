//! A rectangle of four 16-bit edge coordinates. A pure data carrier: no
//! geometric invariant is enforced, the right edge may lie left of the left
//! one.

use vstd::prelude::*;
use crate::bytes::{dec_u16, lemma_dec_u16_of_bytes, put_u16, read_u16, u16_le};
use crate::error::{EntityName, ProtoError, ProtoErrorKind};

verus! {

/// Four edge coordinates: left, top, right, bottom.
#[derive(Clone, Copy, Debug, PartialEq, Eq, Structural)]
pub struct EdgeRect {
    pub left: u16,
    pub top: u16,
    pub right: u16,
    pub bottom: u16,
}

/// The eight-byte wire image of a rectangle: its edges in declaration order.
pub open spec fn rect_bytes(r: EdgeRect) -> Seq<u8> {
    u16_le(r.left) + u16_le(r.top) + u16_le(r.right) + u16_le(r.bottom)
}

/// What reading a rectangle at position `i` of `b` yields.
pub open spec fn dec_rect(b: Seq<u8>, i: int) -> Option<(EdgeRect, int)> {
    match dec_u16(b, i) {
        None => None,
        Some((left, i1)) => match dec_u16(b, i1) {
            None => None,
            Some((top, i2)) => match dec_u16(b, i2) {
                None => None,
                Some((right, i3)) => match dec_u16(b, i3) {
                    None => None,
                    Some((bottom, i4)) => Some((EdgeRect { left, top, right, bottom }, i4)),
                },
            },
        },
    }
}

/// Reading eight bytes that are the image of `r` gives back exactly `r`.
pub proof fn lemma_dec_rect_of_bytes(b: Seq<u8>, i: int, r: EdgeRect)
    requires
        0 <= i,
        i + 8 <= b.len(),
        b.subrange(i, i + 8) == rect_bytes(r),
    ensures
        dec_rect(b, i) == Some((r, i + 8)),
{
    let e = rect_bytes(r);
    assert forall|k: int| 0 <= k < 8 implies b[i + k] == e[k] by {
        assert(b.subrange(i, i + 8)[k] == b[i + k]);
    }
    assert(e[0] == u16_le(r.left)[0]);
    assert(e[1] == u16_le(r.left)[1]);
    assert(e[2] == u16_le(r.top)[0]);
    assert(e[3] == u16_le(r.top)[1]);
    assert(e[4] == u16_le(r.right)[0]);
    assert(e[5] == u16_le(r.right)[1]);
    assert(e[6] == u16_le(r.bottom)[0]);
    assert(e[7] == u16_le(r.bottom)[1]);
    assert(b[i] == e[0]);
    assert(b[i + 1] == e[1]);
    assert(b[i + 2] == e[2]);
    assert(b[i + 3] == e[3]);
    assert(b[i + 4] == e[4]);
    assert(b[i + 5] == e[5]);
    assert(b[i + 6] == e[6]);
    assert(b[i + 7] == e[7]);
    lemma_dec_u16_of_bytes(b, i, r.left);
    lemma_dec_u16_of_bytes(b, i + 2, r.top);
    lemma_dec_u16_of_bytes(b, i + 4, r.right);
    lemma_dec_u16_of_bytes(b, i + 6, r.bottom);
}

impl EdgeRect {
    /// Append the eight-byte wire image of this rectangle.
    pub fn encode_into(&self, buf: &mut Vec<u8>)
        ensures
            final(buf)@ == old(buf)@ + rect_bytes(*self),
    {
        put_u16(buf, self.left);
        put_u16(buf, self.top);
        put_u16(buf, self.right);
        put_u16(buf, self.bottom);
        assert(buf@ =~= old(buf)@ + rect_bytes(*self));
    }

    /// Read a rectangle, advancing the position; a truncated buffer leaves a
    /// decoding failure naming `entity`.
    pub fn decode_from(buf: &[u8], pos: &mut usize, entity: EntityName) -> (r: Result<
        EdgeRect,
        ProtoError,
    >)
        ensures
            match dec_rect(buf@, *old(pos) as int) {
                Some(p) => r is Ok && r->Ok_0 == p.0 && *final(pos) == p.1,
                None => {
                    &&& r is Err
                    &&& r->Err_0.wf()
                    &&& r->Err_0.root_kind() == ProtoErrorKind::Decoding(entity)
                },
            },
    {
        let left = read_u16(buf, pos, entity)?;
        let top = read_u16(buf, pos, entity)?;
        let right = read_u16(buf, pos, entity)?;
        let bottom = read_u16(buf, pos, entity)?;
        Ok(EdgeRect { left, top, right, bottom })
    }
}

} // verus!
