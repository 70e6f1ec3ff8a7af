//! Serialization of the wire protocol: helpers that append the primitive
//! little-endian encodings to a growing body buffer. Packet encoders lay out
//! the inline region first and append out-of-line payloads after it, writing
//! absolute offsets (which count the four-byte frame header) into the
//! variable-length fields' headers.
use vstd::prelude::*;

use crate::bytes::{le16_bytes, le32_bytes, le64_bytes};

verus! {

pub fn push_u8(v: &mut Vec<u8>, x: u8)
    ensures
        final(v)@ == old(v)@ + seq![x],
{
    v.push(x);
    proof {
        assert(v@ =~= old(v)@ + seq![x]);
    }
}

/// Appends a one-byte boolean, `1` for true and `0` for false.
pub fn push_bool(v: &mut Vec<u8>, x: bool)
    ensures
        final(v)@ == old(v)@ + seq![(if x { 1u8 } else { 0u8 })],
{
    if x {
        push_u8(v, 1);
    } else {
        push_u8(v, 0);
    }
}

pub fn push_u16(v: &mut Vec<u8>, x: u16)
    ensures
        final(v)@ == old(v)@ + le16_bytes(x),
{
    v.push((x & 0xff) as u8);
    v.push(((x >> 8) & 0xff) as u8);
    proof {
        assert(v@ =~= old(v)@ + le16_bytes(x));
    }
}

pub fn push_u32(v: &mut Vec<u8>, x: u32)
    ensures
        final(v)@ == old(v)@ + le32_bytes(x),
{
    v.push((x & 0xff) as u8);
    v.push(((x >> 8) & 0xff) as u8);
    v.push(((x >> 16) & 0xff) as u8);
    v.push(((x >> 24) & 0xff) as u8);
    proof {
        assert(v@ =~= old(v)@ + le32_bytes(x));
    }
}

pub fn push_u64(v: &mut Vec<u8>, x: u64)
    ensures
        final(v)@ == old(v)@ + le64_bytes(x),
{
    v.push((x & 0xff) as u8);
    v.push(((x >> 8) & 0xff) as u8);
    v.push(((x >> 16) & 0xff) as u8);
    v.push(((x >> 24) & 0xff) as u8);
    v.push(((x >> 32) & 0xff) as u8);
    v.push(((x >> 40) & 0xff) as u8);
    v.push(((x >> 48) & 0xff) as u8);
    v.push(((x >> 56) & 0xff) as u8);
    proof {
        assert(v@ =~= old(v)@ + le64_bytes(x));
    }
}

} // verus!
