//! Binary layout of a transaction: each operation's descriptor packed in
//! the exact field order and width the kernel interface reads, and the
//! parser that recovers the descriptors from a packed block.
//!
//! A descriptor is six little-endian bytes: 16-bit address, 16-bit flags,
//! 16-bit length. The kernel's form follows each descriptor with a native
//! buffer pointer and prefixes the array with one; a pointer only exists at
//! dispatch time, so the packed image here carries the 32-bit count first
//! and then the bare descriptors, and the dispatch site appends the
//! pointers it just pinned.

use vstd::prelude::*;

use crate::bus::IoctlData;
use crate::bus::I2C_MAX_MSGS;
use crate::message::Message;

verus! {

/// The pointer-free part of one operation's kernel descriptor: what the
/// packed bytes determine and a parse recovers.
#[derive(Clone, Copy, Debug, PartialEq, Eq, Structural)]
pub struct MessageHeader {
    /// The slave address, as the descriptor's first field.
    pub addr: u16,
    /// The protocol flags, as the descriptor's second field.
    pub flags: u16,
    /// The buffer length in bytes, as the descriptor's third field.
    pub len: u16,
}

/// The two little-endian bytes of a 16-bit value.
pub open spec fn spec_pack_u16(x: u16) -> Seq<u8> {
    seq![(x % 256) as u8, (x / 256) as u8]
}

/// The 16-bit value two little-endian bytes carry.
pub open spec fn spec_unpack_u16(lo: u8, hi: u8) -> u16 {
    (lo + hi * 256) as u16
}

/// The four little-endian bytes of a 32-bit value.
pub open spec fn spec_pack_u32(x: u32) -> Seq<u8> {
    seq![
        (x % 256) as u8,
        ((x / 256) % 256) as u8,
        ((x / 65536) % 256) as u8,
        ((x / 16777216) % 256) as u8,
    ]
}

/// The 32-bit value four little-endian bytes carry.
pub open spec fn spec_unpack_u32(b0: u8, b1: u8, b2: u8, b3: u8) -> u32 {
    (b0 + b1 * 256 + b2 * 65536 + b3 * 16777216) as u32
}

/// The descriptor fields of one operation.
pub open spec fn spec_header_of(m: Message) -> MessageHeader {
    MessageHeader { addr: m.addr, flags: m.flags, len: m.data@.len() as u16 }
}

/// The descriptor fields of every operation, in order.
pub open spec fn spec_headers(ops: Seq<Message>) -> Seq<MessageHeader> {
    Seq::new(ops.len(), |i: int| spec_header_of(ops[i]))
}

/// The six bytes of one packed descriptor: address, flags, length, each as
/// two little-endian bytes, in that order and nothing between them.
pub open spec fn spec_pack_header(h: MessageHeader) -> Seq<u8> {
    spec_pack_u16(h.addr) + spec_pack_u16(h.flags) + spec_pack_u16(h.len)
}

/// The packed descriptor array: each header's six bytes, contiguous and in
/// order.
pub open spec fn spec_pack_table(hs: Seq<MessageHeader>) -> Seq<u8>
    decreases hs.len(),
{
    if hs.len() == 0 {
        Seq::empty()
    } else {
        spec_pack_table(hs.drop_last()) + spec_pack_header(hs.last())
    }
}

/// The packed transaction block: the 32-bit operation count, then the
/// descriptor array.
pub open spec fn spec_pack_block(ops: Seq<Message>) -> Seq<u8> {
    spec_pack_u32(ops.len() as u32) + spec_pack_table(spec_headers(ops))
}

/// The descriptor that starts at byte `4 + 6 * i` of a packed block.
pub open spec fn spec_header_at(bytes: Seq<u8>, i: int) -> MessageHeader {
    MessageHeader {
        addr: spec_unpack_u16(bytes[4 + 6 * i], bytes[5 + 6 * i]),
        flags: spec_unpack_u16(bytes[6 + 6 * i], bytes[7 + 6 * i]),
        len: spec_unpack_u16(bytes[8 + 6 * i], bytes[9 + 6 * i]),
    }
}

/// What a packed block means: the descriptors it carries, or nothing if the
/// count field exceeds the driver limit or the length does not match the
/// count.
pub open spec fn spec_parse_block(bytes: Seq<u8>) -> Option<Seq<MessageHeader>> {
    if bytes.len() < 4 {
        None
    } else {
        let n = spec_unpack_u32(bytes[0], bytes[1], bytes[2], bytes[3]) as int;
        if n <= I2C_MAX_MSGS && bytes.len() == 4 + 6 * n {
            Some(Seq::new(n as nat, |i: int| spec_header_at(bytes, i)))
        } else {
            None
        }
    }
}

/// Appends the two little-endian bytes of `x`.
fn push_u16(out: &mut Vec<u8>, x: u16)
    ensures
        final(out)@ == old(out)@ + spec_pack_u16(x),
{
    out.push((x % 256) as u8);
    out.push((x / 256) as u8);
    proof {
        assert(out@ =~= old(out)@ + spec_pack_u16(x));
    }
}

/// Packs one operation's descriptor: exactly the six bytes of
/// `spec_pack_header`, so equal operations always pack to equal bytes.
pub fn pack_message(m: &Message) -> (r: Vec<u8>)
    requires
        m.wf(),
    ensures
        r@ == spec_pack_header(spec_header_of(*m)),
{
    let mut out: Vec<u8> = Vec::new();
    push_u16(&mut out, m.addr);
    push_u16(&mut out, m.flags);
    push_u16(&mut out, m.data.len() as u16);
    proof {
        assert(out@ =~= spec_pack_header(spec_header_of(*m)));
    }
    out
}

/// Packs a whole transaction block: the count, then every descriptor in
/// order; a pure function of the block, so packing is deterministic.
pub fn pack_transaction(txn: &IoctlData) -> (r: Vec<u8>)
    requires
        txn.wf(),
    ensures
        r@ == spec_pack_block(txn.messages@),
{
    let ghost hs = spec_headers(txn.messages@);
    let mut out: Vec<u8> = Vec::new();
    let n: u32 = txn.count as u32;
    out.push((n % 256) as u8);
    out.push(((n / 256) % 256) as u8);
    out.push(((n / 65536) % 256) as u8);
    out.push(((n / 16777216) % 256) as u8);
    proof {
        assert(n == txn.messages@.len() as u32);
        assert(out@ =~= spec_pack_u32(txn.messages@.len() as u32));
    }
    let ghost prefix = out@;
    let mut i: usize = 0;
    while i < txn.messages.len()
        invariant
            txn.wf(),
            i <= txn.messages@.len(),
            hs == spec_headers(txn.messages@),
            prefix == spec_pack_u32(txn.messages@.len() as u32),
            out@ == prefix + spec_pack_table(hs.take(i as int)),
        decreases txn.messages@.len() - i,
    {
        let mut h = pack_message(&txn.messages[i]);
        out.append(&mut h);
        proof {
            let t1 = hs.take(i + 1);
            assert(t1.drop_last() =~= hs.take(i as int));
            assert(t1.last() == hs[i as int]);
            assert(spec_pack_table(t1) == spec_pack_table(hs.take(i as int)) + spec_pack_header(
                hs[i as int],
            ));
            assert(out@ =~= prefix + spec_pack_table(hs.take(i + 1)));
        }
        i += 1;
    }
    proof {
        assert(hs.take(txn.messages@.len() as int) =~= hs);
        assert(out@ == spec_pack_block(txn.messages@));
    }
    out
}

/// Parses a packed transaction block back into its descriptors: exactly
/// `spec_parse_block`, so a parse succeeds if and only if the count field
/// is within the driver limit and the length matches it.
pub fn parse_transaction(bytes: &Vec<u8>) -> (r: Option<Vec<MessageHeader>>)
    ensures
        match r {
            Some(hs) => spec_parse_block(bytes@) == Some(hs@),
            None => spec_parse_block(bytes@) is None,
        },
{
    if bytes.len() < 4 {
        return None;
    }
    let n: u32 = bytes[0] as u32 + (bytes[1] as u32) * 256 + (bytes[2] as u32) * 65536 + (
    bytes[3] as u32) * 16777216;
    proof {
        assert(n == spec_unpack_u32(bytes@[0], bytes@[1], bytes@[2], bytes@[3]));
    }
    if n > I2C_MAX_MSGS as u32 {
        return None;
    }
    let n_us = n as usize;
    if bytes.len() != 4 + 6 * n_us {
        return None;
    }
    let mut hs: Vec<MessageHeader> = Vec::new();
    let mut i: usize = 0;
    while i < n_us
        invariant
            i <= n_us,
            n_us <= I2C_MAX_MSGS,
            bytes@.len() == 4 + 6 * n_us,
            hs@.len() == i,
            forall|k: int| 0 <= k < i ==> #[trigger] hs@[k] == spec_header_at(bytes@, k),
        decreases n_us - i,
    {
        let base = 4 + 6 * i;
        let addr = bytes[base] as u16 + (bytes[base + 1] as u16) * 256;
        let flags = bytes[base + 2] as u16 + (bytes[base + 3] as u16) * 256;
        let len = bytes[base + 4] as u16 + (bytes[base + 5] as u16) * 256;
        hs.push(MessageHeader { addr, flags, len });
        i += 1;
    }
    proof {
        let parsed = spec_parse_block(bytes@);
        assert(parsed == Some(Seq::new(n_us as nat, |k: int| spec_header_at(bytes@, k))));
        assert(hs@ =~= Seq::new(n_us as nat, |k: int| spec_header_at(bytes@, k)));
    }
    Some(hs)
}

/// The packed descriptor array is six bytes per header.
proof fn lemma_pack_table_len(hs: Seq<MessageHeader>)
    ensures
        spec_pack_table(hs).len() == 6 * hs.len(),
    decreases hs.len(),
{
    if hs.len() > 0 {
        lemma_pack_table_len(hs.drop_last());
    }
}

/// Byte `6 * k + t` of the packed descriptor array is byte `t` of header
/// `k`'s packed descriptor.
proof fn lemma_pack_table_index(hs: Seq<MessageHeader>, k: int)
    requires
        0 <= k < hs.len(),
    ensures
        spec_pack_table(hs)[6 * k] == spec_pack_header(hs[k])[0],
        spec_pack_table(hs)[6 * k + 1] == spec_pack_header(hs[k])[1],
        spec_pack_table(hs)[6 * k + 2] == spec_pack_header(hs[k])[2],
        spec_pack_table(hs)[6 * k + 3] == spec_pack_header(hs[k])[3],
        spec_pack_table(hs)[6 * k + 4] == spec_pack_header(hs[k])[4],
        spec_pack_table(hs)[6 * k + 5] == spec_pack_header(hs[k])[5],
    decreases hs.len(),
{
    lemma_pack_table_len(hs.drop_last());
    if k < hs.len() - 1 {
        lemma_pack_table_index(hs.drop_last(), k);
        assert(hs.drop_last()[k] == hs[k]);
    }
}

/// Splitting a 16-bit value into its little-endian bytes and reading them
/// back is the identity.
proof fn lemma_u16_round_trip(x: u16)
    ensures
        spec_unpack_u16((x % 256) as u8, (x / 256) as u8) == x,
{
    assert(x % 256 + (x / 256) * 256 == x) by (nonlinear_arith);
}

/// Re-parsing a packed transaction block recovers every operation's
/// address, flags and length, in the original order.
pub proof fn lemma_block_round_trip(ops: Seq<Message>)
    requires
        ops.len() <= I2C_MAX_MSGS,
        forall|i: int| 0 <= i < ops.len() ==> (#[trigger] ops[i]).wf(),
    ensures
        spec_parse_block(spec_pack_block(ops)) == Some(spec_headers(ops)),
{
    let hs = spec_headers(ops);
    let bytes = spec_pack_block(ops);
    let n = ops.len() as u32;
    lemma_pack_table_len(hs);
    assert(bytes.len() == 4 + 6 * ops.len());
    assert(bytes[0] == (n % 256) as u8);
    assert(bytes[1] == ((n / 256) % 256) as u8);
    assert(bytes[2] == ((n / 65536) % 256) as u8);
    assert(bytes[3] == ((n / 16777216) % 256) as u8);
    assert(spec_unpack_u32(bytes[0], bytes[1], bytes[2], bytes[3]) == n);
    assert forall|i: int| 0 <= i < ops.len() implies spec_header_at(bytes, i) == hs[i] by {
        lemma_pack_table_index(hs, i);
        let table = spec_pack_table(hs);
        assert(bytes[4 + 6 * i] == table[6 * i]);
        assert(bytes[5 + 6 * i] == table[6 * i + 1]);
        assert(bytes[6 + 6 * i] == table[6 * i + 2]);
        assert(bytes[7 + 6 * i] == table[6 * i + 3]);
        assert(bytes[8 + 6 * i] == table[6 * i + 4]);
        assert(bytes[9 + 6 * i] == table[6 * i + 5]);
        assert(bytes[4 + 6 * i] == spec_pack_header(hs[i])[0]);
        assert(bytes[5 + 6 * i] == spec_pack_header(hs[i])[1]);
        assert(bytes[6 + 6 * i] == spec_pack_header(hs[i])[2]);
        assert(bytes[7 + 6 * i] == spec_pack_header(hs[i])[3]);
        assert(bytes[8 + 6 * i] == spec_pack_header(hs[i])[4]);
        assert(bytes[9 + 6 * i] == spec_pack_header(hs[i])[5]);
        lemma_u16_round_trip(hs[i].addr);
        lemma_u16_round_trip(hs[i].flags);
        lemma_u16_round_trip(hs[i].len);
    }
    assert(spec_parse_block(bytes) matches Some(parsed) && parsed =~= hs);
}

} // verus!
