//! VarInt: an `i32` written as its 32 bits, in groups of seven, least
//! significant group first, in one to five bytes.
use vstd::prelude::*;

use crate::utils::bytes::read_byte;
use crate::utils::leb::{leb_bytes, leb_left, leb_scan, pow128, LebScan, lemma_leb_scan_bound, lemma_leb_len_bound, lemma_leb_bytes_len, lemma_leb_roundtrip, leb_len};

verus! {

/// Why reading or writing a VarInt failed.
#[derive(Debug)]
pub enum VarIntError {
    /// Five bytes were read and the last of them still asked for more; the
    /// value is what the five bytes hold.
    TooLarge(i32),
    /// The input ended in the middle of the number.
    Io,
}

/// The bytes of the VarInt of `value`.
pub open spec fn varint_bytes(value: i32) -> Seq<u8> {
    leb_bytes((value as u32) as nat)
}

/// What reading a VarInt from the front of `s` gives: the value and the bytes
/// left, or the error.
pub open spec fn varint_decode(s: Seq<u8>) -> Result<(i32, Seq<u8>), VarIntError> {
    match leb_scan(s, 5) {
        LebScan::Done { value, len } => Ok((((value as u32) as i32), s.skip(len as int))),
        LebScan::Eof => Err(VarIntError::Io),
        LebScan::Overlong { value } => Err(VarIntError::TooLarge((value as u32) as i32)),
    }
}

/// Exec mirror of `LebScan`, for a number read in at most ten groups.
pub enum LebRead {
    Done(u128),
    Eof,
    Overlong(u128),
}

/// The powers of 128 that bound five- and ten-byte numbers.
pub proof fn lemma_pow128_values()
    ensures
        pow128(1) == 0x80,
        pow128(5) == 0x8_0000_0000,
        pow128(9) == 0x8000_0000_0000_0000,
        pow128(10) == 0x40_0000_0000_0000_0000,
{
    assert(pow128(0) == 1);
    assert(pow128(1) == 0x80);
    assert(pow128(2) == 0x4000);
    assert(pow128(3) == 0x20_0000);
    assert(pow128(4) == 0x1000_0000);
    assert(pow128(5) == 0x8_0000_0000);
    assert(pow128(6) == 0x400_0000_0000);
    assert(pow128(7) == 0x2_0000_0000_0000);
    assert(pow128(8) == 0x100_0000_0000_0000);
    assert(pow128(9) == 0x8000_0000_0000_0000);
    assert(pow128(10) == 0x40_0000_0000_0000_0000);
}

/// Powers of 128 grow with the exponent.
pub proof fn lemma_pow128_mono(a: nat, b: nat)
    requires
        a <= b,
    ensures
        pow128(a) <= pow128(b),
    decreases b,
{
    if a < b {
        lemma_pow128_mono(a, (b - 1) as nat);
    }
}

/// A number below 128 is its own VarInt: one byte holding it, which reads
/// back as the number, whatever follows.
pub proof fn lemma_varint_one_byte(v: u8, rest: Seq<u8>)
    requires
        v < 128,
    ensures
        varint_bytes(v as i32) == seq![v],
        varint_decode(seq![v] + rest) == Ok::<(i32, Seq<u8>), VarIntError>((v as i32, rest)),
{
    assert(((v as i32) as u32) as nat == v as nat);
    assert((seq![v] + rest).skip(1) =~= rest);
    assert((seq![v] + rest)[0] == v);
}

/// Reads a group-encoded number of at most `max` bytes from the front of `buf`.
pub fn read_groups<'a>(buf: &mut &'a [u8], max: usize) -> (r: LebRead)
    requires
        1 <= max <= 10,
    ensures
        match leb_scan(old(buf)@, max as nat) {
            LebScan::Done { value, len } => (r matches LebRead::Done(v) && v == value) && final(buf)@
                == old(buf)@.skip(len as int),
            LebScan::Eof => r is Eof && final(buf)@.len() == 0,
            LebScan::Overlong { value } => (r matches LebRead::Overlong(v) && v == value)
                && final(buf)@ == old(buf)@.skip(max as int),
        },
    decreases max,
{
    let ghost s = old(buf)@;
    let b = match read_byte(buf) {
        None => return LebRead::Eof,
        Some(b) => b,
    };
    if b < 128 {
        return LebRead::Done(b as u128);
    }
    if max <= 1 {
        assert(s.drop_first() =~= s.skip(max as int));
        return LebRead::Overlong((b - 128) as u128);
    }
    let inner = read_groups(buf, max - 1);
    proof {
        lemma_leb_scan_bound(s.drop_first(), (max - 1) as nat);
        lemma_pow128_values();
        lemma_pow128_mono((max - 1) as nat, 9);
    }
    match inner {
        LebRead::Done(v) => {
            proof {
                if let LebScan::Done { value, len } = leb_scan(s.drop_first(), (max - 1) as nat) {
                    lemma_pow128_mono(len, 9);
                    assert(s.drop_first().skip(len as int) =~= s.skip(len + 1 as int));
                }
            }
            LebRead::Done((b - 128) as u128 + 128 * v)
        },
        LebRead::Eof => LebRead::Eof,
        LebRead::Overlong(v) => {
            assert(s.drop_first().skip(max - 1) =~= s.skip(max as int));
            LebRead::Overlong((b - 128) as u128 + 128 * v)
        },
    }
}

/// Writes the VarInt of `value` to the end of `buf`. Every `i32` has one, so
/// this never fails.
pub fn encode(value: i32, buf: &mut Vec<u8>) -> (r: Result<(), VarIntError>)
    ensures
        r is Ok,
        final(buf)@ == old(buf)@ + varint_bytes(value),
{
    let ghost orig = value;
    let mut v: u32 = value as u32;
    let mut done = false;
    while !done
        invariant
            !done ==> old(buf)@ + varint_bytes(orig) == buf@ + leb_bytes(v as nat),
            done ==> buf@ == old(buf)@ + varint_bytes(orig),
        decreases v as int + if done { 0int } else { 1int },
    {
        let low: u8 = (v & 0x7F) as u8;
        let next: u32 = v >> 7;
        assert(low == v % 128 && next == v / 128) by (bit_vector)
            requires
                low == (v & 0x7F) as u8,
                next == v >> 7,
        ;
        if next != 0 {
            let byte: u8 = low | 0x80;
            assert(byte == low + 128) by (bit_vector)
                requires
                    low < 128,
                    byte == low | 0x80,
            ;
            let ghost before = buf@;
            buf.push(byte);
            assert(leb_bytes(v as nat) =~= seq![byte] + leb_bytes(next as nat));
            assert(buf@ + leb_bytes(next as nat) =~= before + leb_bytes(v as nat));
            v = next;
        } else {
            let ghost before = buf@;
            buf.push(low);
            assert(low == v as u8) by (bit_vector)
                requires
                    low == v % 128,
                    v < 128,
            ;
            assert(leb_bytes(v as nat) =~= seq![low]);
            assert(buf@ =~= before + seq![low]);
            done = true;
        }
    }
    Ok(())
}

/// What is left of `s` when reading a VarInt from its front fails: nothing
/// when the input ran out, the bytes after the first five when it ran long.
pub open spec fn varint_left(s: Seq<u8>) -> Seq<u8> {
    leb_left(s, 5)
}

/// Reads a VarInt from the front of `reader`.
pub fn decode(reader: &mut &[u8]) -> (r: Result<i32, VarIntError>)
    ensures
        match varint_decode(old(reader)@) {
            Ok((v, rest)) => r == Ok::<i32, VarIntError>(v) && final(reader)@ == rest,
            Err(e) => r == Err::<i32, VarIntError>(e) && final(reader)@ == varint_left(old(reader)@),
        },
{
    proof {
        lemma_leb_scan_bound(old(reader)@, 5);
        lemma_pow128_values();
    }
    match read_groups(reader, 5) {
        LebRead::Done(v) => {
            Ok((v as u32) as i32)
        },
        LebRead::Eof => Err(VarIntError::Io),
        LebRead::Overlong(v) => Err(VarIntError::TooLarge((v as u32) as i32)),
    }
}

/// Reading back the VarInt of `value`, followed by anything, gives `value` and
/// leaves what followed.
pub proof fn lemma_varint_roundtrip(value: i32, rest: Seq<u8>)
    ensures
        varint_decode(varint_bytes(value) + rest) == Ok::<(i32, Seq<u8>), VarIntError>((value, rest)),
        1 <= varint_bytes(value).len() <= 5,
{
    let n = (value as u32) as nat;
    lemma_pow128_values();
    lemma_leb_len_bound(n, 5);
    lemma_leb_bytes_len(n);
    lemma_leb_roundtrip(n, 5, rest);
    assert((varint_bytes(value) + rest).skip(leb_len(n) as int) =~= rest);
    assert(((value as u32) as i32) == value) by (bit_vector);
}

} // verus!
