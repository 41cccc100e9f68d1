//! Fixed-width fields: booleans, single bytes and big-endian integers.
use vstd::prelude::*;

use crate::utils::bytes::{read_byte, read_bytes};
use crate::utils::{CodecError, Int, Long, PacketCodec};

verus! {

/// Big-endian bytes of a 16-bit value.
pub open spec fn be16(v: u16) -> Seq<u8> {
    seq![(v >> 8u16) as u8, v as u8]
}

/// The 16-bit value of two big-endian bytes.
pub open spec fn from_be16(s: Seq<u8>) -> u16 {
    (((s[0] as u16) << 8u16) | (s[1] as u16)) as u16
}

/// Big-endian bytes of a 32-bit value.
pub open spec fn be32(v: u32) -> Seq<u8> {
    seq![(v >> 24u32) as u8, (v >> 16u32) as u8, (v >> 8u32) as u8, v as u8]
}

/// The 32-bit value of four big-endian bytes.
pub open spec fn from_be32(s: Seq<u8>) -> u32 {
    (((s[0] as u32) << 24u32) | ((s[1] as u32) << 16u32) | ((s[2] as u32) << 8u32) | (s[3] as u32)) as u32
}

/// Big-endian bytes of a 64-bit value.
pub open spec fn be64(v: u64) -> Seq<u8> {
    be32((v >> 32u64) as u32) + be32(v as u32)
}

/// The 64-bit value of eight big-endian bytes.
pub open spec fn from_be64(s: Seq<u8>) -> u64 {
    ((((from_be32(s.take(4)) as u64) << 32u64) | (from_be32(s.skip(4)) as u64))) as u64
}

/// What reading `k` bytes as a fixed-width field from the front of `s` gives:
/// the bytes and what is left, or `Io` when fewer are there.
pub open spec fn take_fixed(s: Seq<u8>, k: nat) -> Result<(Seq<u8>, Seq<u8>), CodecError> {
    if s.len() < k {
        Err(CodecError::Io)
    } else {
        Ok((s.take(k as int), s.skip(k as int)))
    }
}

/// Big-endian order: the first byte weighs most. The bytes of a value, read
/// as base-256 digits from the first, add up to the value.
pub proof fn lemma_big_endian_weights(a: u16, b: u32, c: u64)
    ensures
        be16(a).len() == 2,
        be16(a)[0] * 0x100 + be16(a)[1] == a,
        be32(b).len() == 4,
        be32(b)[0] * 0x100_0000 + be32(b)[1] * 0x1_0000 + be32(b)[2] * 0x100 + be32(b)[3] == b,
        be64(c).len() == 8,
        be64(c)[0] * 0x100_0000_0000_0000 + be64(c)[1] * 0x1_0000_0000_0000 + be64(c)[2]
            * 0x100_0000_0000 + be64(c)[3] * 0x1_0000_0000 + be64(c)[4] * 0x100_0000 + be64(c)[5]
            * 0x1_0000 + be64(c)[6] * 0x100 + be64(c)[7] == c,
{
    let a0 = (a >> 8u16) as u8;
    let a1 = a as u8;
    assert(a0 * 0x100 + a1 == a) by (bit_vector)
        requires
            a0 == (a >> 8u16) as u8,
            a1 == a as u8,
    ;
    let b0 = (b >> 24u32) as u8;
    let b1 = (b >> 16u32) as u8;
    let b2 = (b >> 8u32) as u8;
    let b3 = b as u8;
    assert(b0 * 0x100_0000 + b1 * 0x1_0000 + b2 * 0x100 + b3 == b) by (bit_vector)
        requires
            b0 == (b >> 24u32) as u8,
            b1 == (b >> 16u32) as u8,
            b2 == (b >> 8u32) as u8,
            b3 == b as u8,
    ;
    let hi = (c >> 32u64) as u32;
    let lo = c as u32;
    let c0 = (hi >> 24u32) as u8;
    let c1 = (hi >> 16u32) as u8;
    let c2 = (hi >> 8u32) as u8;
    let c3 = hi as u8;
    let c4 = (lo >> 24u32) as u8;
    let c5 = (lo >> 16u32) as u8;
    let c6 = (lo >> 8u32) as u8;
    let c7 = lo as u8;
    assert(c0 * 0x100_0000_0000_0000 + c1 * 0x1_0000_0000_0000 + c2 * 0x100_0000_0000 + c3
        * 0x1_0000_0000 + c4 * 0x100_0000 + c5 * 0x1_0000 + c6 * 0x100 + c7 == c) by (bit_vector)
        requires
            hi == (c >> 32u64) as u32,
            lo == c as u32,
            c0 == (hi >> 24u32) as u8,
            c1 == (hi >> 16u32) as u8,
            c2 == (hi >> 8u32) as u8,
            c3 == hi as u8,
            c4 == (lo >> 24u32) as u8,
            c5 == (lo >> 16u32) as u8,
            c6 == (lo >> 8u32) as u8,
            c7 == lo as u8,
    ;
    assert(be64(c) =~= seq![c0, c1, c2, c3, c4, c5, c6, c7]);
}

/// The two big-endian bytes of a `u16` read back as it.
pub proof fn lemma_be16_roundtrip(v: u16)
    ensures
        from_be16(be16(v)) == v,
        be16(v).len() == 2,
{
    let b0 = (v >> 8u16) as u8;
    let b1 = v as u8;
    assert((((b0 as u16) << 8u16) | (b1 as u16)) as u16 == v) by (bit_vector)
        requires
            b0 == (v >> 8u16) as u8,
            b1 == v as u8,
    ;
}

/// The four big-endian bytes of a `u32` read back as it.
pub proof fn lemma_be32_roundtrip(v: u32)
    ensures
        from_be32(be32(v)) == v,
        be32(v).len() == 4,
{
    let b0 = (v >> 24u32) as u8;
    let b1 = (v >> 16u32) as u8;
    let b2 = (v >> 8u32) as u8;
    let b3 = v as u8;
    assert((((b0 as u32) << 24u32) | ((b1 as u32) << 16u32) | ((b2 as u32) << 8u32) | (b3 as u32))
        as u32 == v) by (bit_vector)
        requires
            b0 == (v >> 24u32) as u8,
            b1 == (v >> 16u32) as u8,
            b2 == (v >> 8u32) as u8,
            b3 == v as u8,
    ;
}

/// The eight big-endian bytes of a `u64` read back as it.
pub proof fn lemma_be64_roundtrip(v: u64)
    ensures
        from_be64(be64(v)) == v,
        be64(v).len() == 8,
{
    let hi = (v >> 32u64) as u32;
    let lo = v as u32;
    lemma_be32_roundtrip(hi);
    lemma_be32_roundtrip(lo);
    assert(be64(v).take(4) =~= be32(hi));
    assert(be64(v).skip(4) =~= be32(lo));
    assert((((hi as u64) << 32u64) | (lo as u64)) as u64 == v) by (bit_vector)
        requires
            hi == (v >> 32u64) as u32,
            lo == v as u32,
    ;
}

/// Appends the big-endian bytes of `v`.
pub fn write_be16(buf: &mut Vec<u8>, v: u16)
    ensures
        final(buf)@ == old(buf)@ + be16(v),
{
    buf.push((v >> 8u16) as u8);
    buf.push(v as u8);
    assert(buf@ =~= old(buf)@ + be16(v));
}

/// Appends the big-endian bytes of `v`.
pub fn write_be32(buf: &mut Vec<u8>, v: u32)
    ensures
        final(buf)@ == old(buf)@ + be32(v),
{
    buf.push((v >> 24u32) as u8);
    buf.push((v >> 16u32) as u8);
    buf.push((v >> 8u32) as u8);
    buf.push(v as u8);
    assert(buf@ =~= old(buf)@ + be32(v));
}

/// Appends the big-endian bytes of `v`.
pub fn write_be64(buf: &mut Vec<u8>, v: u64)
    ensures
        final(buf)@ == old(buf)@ + be64(v),
{
    write_be32(buf, (v >> 32u64) as u32);
    write_be32(buf, v as u32);
    assert(buf@ =~= old(buf)@ + be64(v));
}

/// Reads two big-endian bytes.
pub fn read_be16(buf: &mut &[u8]) -> (r: Result<u16, CodecError>)
    ensures
        match take_fixed(old(buf)@, 2) {
            Ok((b, rest)) => r == Ok::<u16, CodecError>(from_be16(b)) && final(buf)@ == rest,
            Err(e) => r == Err::<u16, CodecError>(e) && final(buf)@ == old(buf)@,
        },
{
    match read_bytes(buf, 2) {
        None => Err(CodecError::Io),
        Some(h) => Ok((((h[0] as u16) << 8u16) | (h[1] as u16)) as u16),
    }
}

/// Reads four big-endian bytes.
pub fn read_be32(buf: &mut &[u8]) -> (r: Result<u32, CodecError>)
    ensures
        match take_fixed(old(buf)@, 4) {
            Ok((b, rest)) => r == Ok::<u32, CodecError>(from_be32(b)) && final(buf)@ == rest,
            Err(e) => r == Err::<u32, CodecError>(e) && final(buf)@ == old(buf)@,
        },
{
    match read_bytes(buf, 4) {
        None => Err(CodecError::Io),
        Some(h) => Ok((((h[0] as u32) << 24u32) | ((h[1] as u32) << 16u32) | ((h[2] as u32) << 8u32)
            | (h[3] as u32)) as u32),
    }
}

/// Reads eight big-endian bytes.
pub fn read_be64(buf: &mut &[u8]) -> (r: Result<u64, CodecError>)
    ensures
        match take_fixed(old(buf)@, 8) {
            Ok((b, rest)) => r == Ok::<u64, CodecError>(from_be64(b)) && final(buf)@ == rest,
            Err(e) => r == Err::<u64, CodecError>(e) && final(buf)@ == old(buf)@,
        },
{
    let ghost s = old(buf)@;
    match read_bytes(buf, 8) {
        None => Err(CodecError::Io),
        Some(h) => {
            let (a, b) = h.split_at(4);
            let hi = (((a[0] as u32) << 24u32) | ((a[1] as u32) << 16u32) | ((a[2] as u32) << 8u32)
                | (a[3] as u32)) as u32;
            let lo = (((b[0] as u32) << 24u32) | ((b[1] as u32) << 16u32) | ((b[2] as u32) << 8u32)
                | (b[3] as u32)) as u32;
            assert(a@ =~= s.take(8).take(4));
            assert(b@ =~= s.take(8).skip(4));
            Ok((((hi as u64) << 32u64) | (lo as u64)) as u64)
        },
    }
}

/// A boolean: one byte, `1` for true and `0` for false.
impl PacketCodec for bool {
    type Model = bool;

    open spec fn model(&self) -> bool {
        *self
    }

    open spec fn spec_encode(m: bool) -> Seq<u8> {
        if m {
            seq![1u8]
        } else {
            seq![0u8]
        }
    }

    open spec fn spec_decode(s: Seq<u8>) -> Result<(bool, Seq<u8>), CodecError> {
        if s.len() == 0 {
            Err(CodecError::Io)
        } else if s[0] == 0 {
            Ok((false, s.drop_first()))
        } else if s[0] == 1 {
            Ok((true, s.drop_first()))
        } else {
            Err(CodecError::DecodeError)
        }
    }

    open spec fn spec_decode_left(s: Seq<u8>) -> Seq<u8> {
        if s.len() == 0 {
            s
        } else {
            s.drop_first()
        }
    }

    open spec fn spec_valid(m: bool) -> bool {
        true
    }

    fn encode(&self, buf: &mut Vec<u8>) -> (r: Result<(), CodecError>) {
        buf.push(if *self { 1u8 } else { 0u8 });
        assert(buf@ =~= old(buf)@ + Self::spec_encode(*self));
        Ok(())
    }

    fn decode(buf: &mut &[u8]) -> (r: Result<bool, CodecError>) {
        match read_byte(buf) {
            None => Err(CodecError::Io),
            Some(0) => Ok(false),
            Some(1) => Ok(true),
            Some(_) => Err(CodecError::DecodeError),
        }
    }

    proof fn lemma_roundtrip(m: bool, rest: Seq<u8>) {
        assert((Self::spec_encode(m) + rest).drop_first() =~= rest);
    }
}

/// An unsigned byte.
impl PacketCodec for u8 {
    type Model = u8;

    open spec fn model(&self) -> u8 {
        *self
    }

    open spec fn spec_encode(m: u8) -> Seq<u8> {
        seq![m]
    }

    open spec fn spec_decode(s: Seq<u8>) -> Result<(u8, Seq<u8>), CodecError> {
        if s.len() == 0 {
            Err(CodecError::Io)
        } else {
            Ok((s[0], s.drop_first()))
        }
    }

    open spec fn spec_decode_left(s: Seq<u8>) -> Seq<u8> {
        s
    }

    open spec fn spec_valid(m: u8) -> bool {
        true
    }

    fn encode(&self, buf: &mut Vec<u8>) -> (r: Result<(), CodecError>) {
        buf.push(*self);
        assert(buf@ =~= old(buf)@ + seq![*self]);
        Ok(())
    }

    fn decode(buf: &mut &[u8]) -> (r: Result<u8, CodecError>) {
        match read_byte(buf) {
            None => Err(CodecError::Io),
            Some(b) => Ok(b),
        }
    }

    proof fn lemma_roundtrip(m: u8, rest: Seq<u8>) {
        assert((seq![m] + rest).drop_first() =~= rest);
    }
}

/// A signed byte, written as its two's complement bits.
impl PacketCodec for i8 {
    type Model = i8;

    open spec fn model(&self) -> i8 {
        *self
    }

    open spec fn spec_encode(m: i8) -> Seq<u8> {
        seq![m as u8]
    }

    open spec fn spec_decode(s: Seq<u8>) -> Result<(i8, Seq<u8>), CodecError> {
        if s.len() == 0 {
            Err(CodecError::Io)
        } else {
            Ok((s[0] as i8, s.drop_first()))
        }
    }

    open spec fn spec_decode_left(s: Seq<u8>) -> Seq<u8> {
        s
    }

    open spec fn spec_valid(m: i8) -> bool {
        true
    }

    fn encode(&self, buf: &mut Vec<u8>) -> (r: Result<(), CodecError>) {
        buf.push(*self as u8);
        assert(buf@ =~= old(buf)@ + seq![*self as u8]);
        Ok(())
    }

    fn decode(buf: &mut &[u8]) -> (r: Result<i8, CodecError>) {
        match read_byte(buf) {
            None => Err(CodecError::Io),
            Some(b) => Ok(b as i8),
        }
    }

    proof fn lemma_roundtrip(m: i8, rest: Seq<u8>) {
        assert((seq![m as u8] + rest).drop_first() =~= rest);
        assert((m as u8) as i8 == m) by (bit_vector);
    }
}

/// An unsigned 16-bit big-endian integer.
impl PacketCodec for u16 {
    type Model = u16;

    open spec fn model(&self) -> u16 {
        *self
    }

    open spec fn spec_encode(m: u16) -> Seq<u8> {
        be16(m)
    }

    open spec fn spec_decode(s: Seq<u8>) -> Result<(u16, Seq<u8>), CodecError> {
        match take_fixed(s, 2) {
            Ok((b, rest)) => Ok((from_be16(b), rest)),
            Err(e) => Err(e),
        }
    }

    open spec fn spec_decode_left(s: Seq<u8>) -> Seq<u8> {
        s
    }

    open spec fn spec_valid(m: u16) -> bool {
        true
    }

    fn encode(&self, buf: &mut Vec<u8>) -> (r: Result<(), CodecError>) {
        write_be16(buf, *self);
        Ok(())
    }

    fn decode(buf: &mut &[u8]) -> (r: Result<u16, CodecError>) {
        read_be16(buf)
    }

    proof fn lemma_roundtrip(m: u16, rest: Seq<u8>) {
        lemma_be16_roundtrip(m);
        assert((be16(m) + rest).take(2) =~= be16(m));
        assert((be16(m) + rest).skip(2) =~= rest);
    }
}

/// A signed 16-bit big-endian integer.
impl PacketCodec for i16 {
    type Model = i16;

    open spec fn model(&self) -> i16 {
        *self
    }

    open spec fn spec_encode(m: i16) -> Seq<u8> {
        be16(m as u16)
    }

    open spec fn spec_decode(s: Seq<u8>) -> Result<(i16, Seq<u8>), CodecError> {
        match take_fixed(s, 2) {
            Ok((b, rest)) => Ok((from_be16(b) as i16, rest)),
            Err(e) => Err(e),
        }
    }

    open spec fn spec_decode_left(s: Seq<u8>) -> Seq<u8> {
        s
    }

    open spec fn spec_valid(m: i16) -> bool {
        true
    }

    fn encode(&self, buf: &mut Vec<u8>) -> (r: Result<(), CodecError>) {
        write_be16(buf, *self as u16);
        Ok(())
    }

    fn decode(buf: &mut &[u8]) -> (r: Result<i16, CodecError>) {
        match read_be16(buf) {
            Ok(v) => Ok(v as i16),
            Err(e) => Err(e),
        }
    }

    proof fn lemma_roundtrip(m: i16, rest: Seq<u8>) {
        lemma_be16_roundtrip(m as u16);
        assert((be16(m as u16) + rest).take(2) =~= be16(m as u16));
        assert((be16(m as u16) + rest).skip(2) =~= rest);
        assert((m as u16) as i16 == m) by (bit_vector);
    }
}

/// An unsigned 32-bit big-endian integer.
impl PacketCodec for u32 {
    type Model = u32;

    open spec fn model(&self) -> u32 {
        *self
    }

    open spec fn spec_encode(m: u32) -> Seq<u8> {
        be32(m)
    }

    open spec fn spec_decode(s: Seq<u8>) -> Result<(u32, Seq<u8>), CodecError> {
        match take_fixed(s, 4) {
            Ok((b, rest)) => Ok((from_be32(b), rest)),
            Err(e) => Err(e),
        }
    }

    open spec fn spec_decode_left(s: Seq<u8>) -> Seq<u8> {
        s
    }

    open spec fn spec_valid(m: u32) -> bool {
        true
    }

    fn encode(&self, buf: &mut Vec<u8>) -> (r: Result<(), CodecError>) {
        write_be32(buf, *self);
        Ok(())
    }

    fn decode(buf: &mut &[u8]) -> (r: Result<u32, CodecError>) {
        read_be32(buf)
    }

    proof fn lemma_roundtrip(m: u32, rest: Seq<u8>) {
        lemma_be32_roundtrip(m);
        assert((be32(m) + rest).take(4) =~= be32(m));
        assert((be32(m) + rest).skip(4) =~= rest);
    }
}

/// An unsigned 64-bit big-endian integer.
impl PacketCodec for u64 {
    type Model = u64;

    open spec fn model(&self) -> u64 {
        *self
    }

    open spec fn spec_encode(m: u64) -> Seq<u8> {
        be64(m)
    }

    open spec fn spec_decode(s: Seq<u8>) -> Result<(u64, Seq<u8>), CodecError> {
        match take_fixed(s, 8) {
            Ok((b, rest)) => Ok((from_be64(b), rest)),
            Err(e) => Err(e),
        }
    }

    open spec fn spec_decode_left(s: Seq<u8>) -> Seq<u8> {
        s
    }

    open spec fn spec_valid(m: u64) -> bool {
        true
    }

    fn encode(&self, buf: &mut Vec<u8>) -> (r: Result<(), CodecError>) {
        write_be64(buf, *self);
        Ok(())
    }

    fn decode(buf: &mut &[u8]) -> (r: Result<u64, CodecError>) {
        read_be64(buf)
    }

    proof fn lemma_roundtrip(m: u64, rest: Seq<u8>) {
        lemma_be64_roundtrip(m);
        assert((be64(m) + rest).take(8) =~= be64(m));
        assert((be64(m) + rest).skip(8) =~= rest);
    }
}

/// A signed 32-bit big-endian integer.
impl PacketCodec for Int {
    type Model = i32;

    open spec fn model(&self) -> i32 {
        self.0
    }

    open spec fn spec_encode(m: i32) -> Seq<u8> {
        be32(m as u32)
    }

    open spec fn spec_decode(s: Seq<u8>) -> Result<(i32, Seq<u8>), CodecError> {
        match take_fixed(s, 4) {
            Ok((b, rest)) => Ok((from_be32(b) as i32, rest)),
            Err(e) => Err(e),
        }
    }

    open spec fn spec_decode_left(s: Seq<u8>) -> Seq<u8> {
        s
    }

    open spec fn spec_valid(m: i32) -> bool {
        true
    }

    fn encode(&self, buf: &mut Vec<u8>) -> (r: Result<(), CodecError>) {
        write_be32(buf, self.0 as u32);
        Ok(())
    }

    fn decode(buf: &mut &[u8]) -> (r: Result<Int, CodecError>) {
        match read_be32(buf) {
            Ok(v) => Ok(Int(v as i32)),
            Err(e) => Err(e),
        }
    }

    proof fn lemma_roundtrip(m: i32, rest: Seq<u8>) {
        lemma_be32_roundtrip(m as u32);
        assert((be32(m as u32) + rest).take(4) =~= be32(m as u32));
        assert((be32(m as u32) + rest).skip(4) =~= rest);
        assert((m as u32) as i32 == m) by (bit_vector);
    }
}

/// A signed 64-bit big-endian integer.
impl PacketCodec for Long {
    type Model = i64;

    open spec fn model(&self) -> i64 {
        self.0
    }

    open spec fn spec_encode(m: i64) -> Seq<u8> {
        be64(m as u64)
    }

    open spec fn spec_decode(s: Seq<u8>) -> Result<(i64, Seq<u8>), CodecError> {
        match take_fixed(s, 8) {
            Ok((b, rest)) => Ok((from_be64(b) as i64, rest)),
            Err(e) => Err(e),
        }
    }

    open spec fn spec_decode_left(s: Seq<u8>) -> Seq<u8> {
        s
    }

    open spec fn spec_valid(m: i64) -> bool {
        true
    }

    fn encode(&self, buf: &mut Vec<u8>) -> (r: Result<(), CodecError>) {
        write_be64(buf, self.0 as u64);
        Ok(())
    }

    fn decode(buf: &mut &[u8]) -> (r: Result<Long, CodecError>) {
        match read_be64(buf) {
            Ok(v) => Ok(Long(v as i64)),
            Err(e) => Err(e),
        }
    }

    proof fn lemma_roundtrip(m: i64, rest: Seq<u8>) {
        lemma_be64_roundtrip(m as u64);
        assert((be64(m as u64) + rest).take(8) =~= be64(m as u64));
        assert((be64(m as u64) + rest).skip(8) =~= rest);
        assert((m as u64) as i64 == m) by (bit_vector);
    }
}

/// A boolean is one byte: `1` for true, `0` for false; those bytes read
/// back as the booleans, whatever follows, and every other byte is refused.
pub proof fn lemma_bool_wire(rest: Seq<u8>)
    ensures
        <bool as PacketCodec>::spec_encode(true) == seq![1u8],
        <bool as PacketCodec>::spec_encode(false) == seq![0u8],
        <bool as PacketCodec>::spec_decode(seq![1u8] + rest) == Ok::<(bool, Seq<u8>), CodecError>(
            (true, rest),
        ),
        <bool as PacketCodec>::spec_decode(seq![0u8] + rest) == Ok::<(bool, Seq<u8>), CodecError>(
            (false, rest),
        ),
        forall|v: u8|
            v > 1 ==> #[trigger] <bool as PacketCodec>::spec_decode(seq![v] + rest) == Err::<
                (bool, Seq<u8>),
                CodecError,
            >(CodecError::DecodeError),
{
    assert((seq![1u8] + rest).drop_first() =~= rest);
    assert((seq![0u8] + rest).drop_first() =~= rest);
    assert forall|v: u8| v > 1 implies #[trigger] <bool as PacketCodec>::spec_decode(seq![v] + rest)
        == Err::<(bool, Seq<u8>), CodecError>(CodecError::DecodeError) by {
        assert((seq![v] + rest)[0] == v);
    }
}

} // verus!
