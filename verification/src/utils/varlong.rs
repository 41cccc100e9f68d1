//! VarLong: an `i64` written as its 64 bits, in groups of seven, least
//! significant group first, in one to ten bytes.
use vstd::prelude::*;

use crate::utils::leb::{leb_bytes, leb_left, leb_len, leb_scan, lemma_leb_bytes_len, lemma_leb_len_bound,
    lemma_leb_roundtrip, lemma_leb_scan_bound, LebScan};
use crate::utils::varint::{lemma_pow128_values, read_groups, LebRead};
use crate::utils::CodecError;

verus! {

/// The bytes of the VarLong of `value`.
pub open spec fn varlong_bytes(value: i64) -> Seq<u8> {
    leb_bytes((value as u64) as nat)
}

/// What reading a VarLong from the front of `s` gives: the value and the bytes
/// left, or the error.
pub open spec fn varlong_decode(s: Seq<u8>) -> Result<(i64, Seq<u8>), CodecError> {
    match leb_scan(s, 10) {
        LebScan::Done { value, len } => Ok((((value as u64) as i64), s.skip(len as int))),
        LebScan::Eof => Err(CodecError::Io),
        LebScan::Overlong { .. } => Err(CodecError::VarTooLarge),
    }
}

/// Writes the VarLong of `value` to the end of `buf`. Every `i64` fits in ten
/// bytes, so this never fails.
pub fn encode(value: i64, buf: &mut Vec<u8>) -> (r: Result<(), CodecError>)
    ensures
        r is Ok,
        final(buf)@ == old(buf)@ + varlong_bytes(value),
{
    let ghost orig = value;
    let mut v: u64 = value as u64;
    let mut done = false;
    while !done
        invariant
            !done ==> old(buf)@ + varlong_bytes(orig) == buf@ + leb_bytes(v as nat),
            done ==> buf@ == old(buf)@ + varlong_bytes(orig),
        decreases v as int + if done { 0int } else { 1int },
    {
        let low: u8 = (v & 0x7F) as u8;
        let next: u64 = v >> 7;
        assert(low == v % 128 && next == v / 128) by (bit_vector)
            requires
                low == (v & 0x7F) as u8,
                next == v >> 7,
        ;
        if next != 0 {
            let byte: u8 = low | 0x80;
            assert(byte == low + 128) by (bit_vector)
                requires
                    low < 128,
                    byte == low | 0x80,
            ;
            let ghost before = buf@;
            buf.push(byte);
            assert(leb_bytes(v as nat) =~= seq![byte] + leb_bytes(next as nat));
            assert(buf@ + leb_bytes(next as nat) =~= before + leb_bytes(v as nat));
            v = next;
        } else {
            let ghost before = buf@;
            buf.push(low);
            assert(low == v as u8) by (bit_vector)
                requires
                    low == v % 128,
                    v < 128,
            ;
            assert(leb_bytes(v as nat) =~= seq![low]);
            assert(buf@ =~= before + seq![low]);
            done = true;
        }
    }
    Ok(())
}

/// What is left of `s` when reading a VarLong from its front fails: nothing
/// when the input ran out, the bytes after the first ten when it ran long.
pub open spec fn varlong_left(s: Seq<u8>) -> Seq<u8> {
    leb_left(s, 10)
}

/// Reads a VarLong from the front of `reader`.
pub fn decode(reader: &mut &[u8]) -> (r: Result<i64, CodecError>)
    ensures
        match varlong_decode(old(reader)@) {
            Ok((v, rest)) => r == Ok::<i64, CodecError>(v) && final(reader)@ == rest,
            Err(e) => r == Err::<i64, CodecError>(e) && final(reader)@ == varlong_left(old(reader)@),
        },
{
    proof {
        lemma_leb_scan_bound(old(reader)@, 10);
        lemma_pow128_values();
    }
    match read_groups(reader, 10) {
        LebRead::Done(v) => Ok((v as u64) as i64),
        LebRead::Eof => Err(CodecError::Io),
        LebRead::Overlong(_) => Err(CodecError::VarTooLarge),
    }
}

/// Reading back the VarLong of `value`, followed by anything, gives `value`
/// and leaves what followed.
pub proof fn lemma_varlong_roundtrip(value: i64, rest: Seq<u8>)
    ensures
        varlong_decode(varlong_bytes(value) + rest) == Ok::<(i64, Seq<u8>), CodecError>((value, rest)),
        1 <= varlong_bytes(value).len() <= 10,
{
    let n = (value as u64) as nat;
    lemma_pow128_values();
    lemma_leb_len_bound(n, 10);
    lemma_leb_bytes_len(n);
    lemma_leb_roundtrip(n, 10, rest);
    assert((varlong_bytes(value) + rest).skip(leb_len(n) as int) =~= rest);
    assert(((value as u64) as i64) == value) by (bit_vector);
}

} // verus!
