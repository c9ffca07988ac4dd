//! Byte-level primitives: big-endian integer encodings, the generic
//! length-prefixed box framing, and verified append helpers.

use vstd::prelude::*;

verus! {

/// Big-endian encoding of a 16-bit integer, most significant byte first.
pub open spec fn be16(v: u16) -> Seq<u8> {
    seq![(v / 0x100) as u8, (v % 0x100) as u8]
}

/// Big-endian encoding of a 32-bit integer, most significant byte first.
pub open spec fn be32(v: u32) -> Seq<u8> {
    seq![
        (v / 0x1000000) as u8,
        ((v / 0x10000) % 0x100) as u8,
        ((v / 0x100) % 0x100) as u8,
        (v % 0x100) as u8,
    ]
}

/// A box: a 32-bit big-endian size field counting the 8-byte header plus the
/// payload, then the 4-byte type tag, then the payload itself.
pub open spec fn enc_box(tag: Seq<u8>, payload: Seq<u8>) -> Seq<u8> {
    be32((8 + payload.len()) as u32) + tag + payload
}

/// A full box: a box whose payload starts with four zero bytes
/// (version 0, flags 0).
pub open spec fn enc_full_box(tag: Seq<u8>, payload: Seq<u8>) -> Seq<u8> {
    enc_box(tag, be32(0) + payload)
}

/// Appends one byte.
pub fn push_u8(out: &mut Vec<u8>, v: u8)
    ensures
        final(out)@ == old(out)@ + seq![v],
{
    out.push(v);
    proof {
        assert(out@ =~= old(out)@ + seq![v]);
    }
}

/// Appends the two big-endian bytes of `v`.
pub fn push_u16(out: &mut Vec<u8>, v: u16)
    ensures
        final(out)@ == old(out)@ + be16(v),
{
    out.push((v >> 8) as u8);
    out.push(v as u8);
    proof {
        assert((v >> 8) as u8 == (v / 0x100) as u8) by (bit_vector);
        assert(v as u8 == (v % 0x100) as u8) by (bit_vector);
        assert(out@ =~= old(out)@ + be16(v));
    }
}

/// Appends the four big-endian bytes of `v`.
pub fn push_u32(out: &mut Vec<u8>, v: u32)
    ensures
        final(out)@ == old(out)@ + be32(v),
{
    out.push((v >> 24) as u8);
    out.push((v >> 16) as u8);
    out.push((v >> 8) as u8);
    out.push(v as u8);
    proof {
        assert((v >> 24) as u8 == (v / 0x1000000) as u8) by (bit_vector);
        assert((v >> 16) as u8 == ((v / 0x10000) % 0x100) as u8) by (bit_vector);
        assert((v >> 8) as u8 == ((v / 0x100) % 0x100) as u8) by (bit_vector);
        assert(v as u8 == (v % 0x100) as u8) by (bit_vector);
        assert(out@ =~= old(out)@ + be32(v));
    }
}

/// Appends four literal bytes, such as a box type tag.
pub fn push4(out: &mut Vec<u8>, b0: u8, b1: u8, b2: u8, b3: u8)
    ensures
        final(out)@ == old(out)@ + seq![b0, b1, b2, b3],
{
    out.push(b0);
    out.push(b1);
    out.push(b2);
    out.push(b3);
    proof {
        assert(out@ =~= old(out)@ + seq![b0, b1, b2, b3]);
    }
}

/// Appends a whole byte slice.
pub fn push_bytes(out: &mut Vec<u8>, data: &[u8])
    ensures
        final(out)@ == old(out)@ + data@,
{
    let ghost start = out@;
    let mut i: usize = 0;
    while i < data.len()
        invariant
            i <= data@.len(),
            out@ == start + data@.subrange(0, i as int),
        decreases data@.len() - i,
    {
        out.push(data[i]);
        proof {
            assert(out@ =~= start + data@.subrange(0, i + 1));
        }
        i = i + 1;
    }
    proof {
        assert(data@.subrange(0, data@.len() as int) =~= data@);
    }
}

} // verus!
