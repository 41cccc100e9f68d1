//! The little-endian base-128 group encoding shared by VarInt and VarLong.
use vstd::prelude::*;

verus! {

/// The groups of seven bits of `n`, least significant first; every byte but
/// the last has its high bit set.
pub open spec fn leb_bytes(n: nat) -> Seq<u8>
    decreases n,
{
    if n < 128 {
        seq![n as u8]
    } else {
        seq![(n % 128 + 128) as u8] + leb_bytes(n / 128)
    }
}

/// What a reader of at most `max` groups finds at the front of `s`.
pub enum LebScan {
    /// A final byte was found: the value and the number of bytes read.
    Done { value: nat, len: nat },
    /// The input ended before a final byte.
    Eof,
    /// `max` bytes were read and all of them had the continuation bit set;
    /// `value` is what they hold.
    Overlong { value: nat },
}

/// The result of reading a group-encoded number of at most `max` bytes from the
/// front of `s` (with `max >= 1`).
pub open spec fn leb_scan(s: Seq<u8>, max: nat) -> LebScan
    decreases max,
{
    if s.len() == 0 {
        LebScan::Eof
    } else if s[0] < 128 {
        LebScan::Done { value: s[0] as nat, len: 1 }
    } else if max <= 1 {
        LebScan::Overlong { value: (s[0] - 128) as nat }
    } else {
        match leb_scan(s.drop_first(), (max - 1) as nat) {
            LebScan::Done { value, len } => LebScan::Done {
                value: ((s[0] - 128) + 128 * value) as nat,
                len: len + 1,
            },
            LebScan::Eof => LebScan::Eof,
            LebScan::Overlong { value } => LebScan::Overlong {
                value: ((s[0] - 128) + 128 * value) as nat,
            },
        }
    }
}

/// What a reader of at most `max` groups leaves of `s` when it fails: nothing
/// when the input ran out, the bytes after the first `max` when all of those
/// had the continuation bit.
pub open spec fn leb_left(s: Seq<u8>, max: nat) -> Seq<u8> {
    match leb_scan(s, max) {
        LebScan::Overlong { .. } => s.skip(max as int),
        _ => Seq::empty(),
    }
}

/// `128` to the power `k`.
pub open spec fn pow128(k: nat) -> nat
    decreases k,
{
    if k == 0 {
        1
    } else {
        128 * pow128((k - 1) as nat)
    }
}

/// Number of groups `n` takes.
pub open spec fn leb_len(n: nat) -> nat
    decreases n,
{
    if n < 128 {
        1
    } else {
        1 + leb_len(n / 128)
    }
}

/// The groups of a number take `leb_len` bytes, at least one.
pub proof fn lemma_leb_bytes_len(n: nat)
    ensures
        leb_bytes(n).len() == leb_len(n),
        leb_len(n) >= 1,
    decreases n,
{
    if n >= 128 {
        lemma_leb_bytes_len(n / 128);
    }
}

/// A number below `128^k` takes at most `k` groups.
pub proof fn lemma_leb_len_bound(n: nat, k: nat)
    requires
        k >= 1,
        n < pow128(k),
    ensures
        leb_len(n) <= k,
    decreases k,
{
    if n >= 128 {
        if k == 1 {
            assert(pow128(1) == 128) by {
                reveal_with_fuel(pow128, 2);
            }
        } else {
            assert(n / 128 < pow128((k - 1) as nat));
            lemma_leb_len_bound(n / 128, (k - 1) as nat);
        }
    }
}

/// Reading back the groups of `n` (followed by anything) gives `n`, when `n`
/// fits in `max` groups.
pub proof fn lemma_leb_roundtrip(n: nat, max: nat, rest: Seq<u8>)
    requires
        max >= 1,
        leb_len(n) <= max,
    ensures
        leb_scan(leb_bytes(n) + rest, max) == (LebScan::Done { value: n, len: leb_len(n) }),
    decreases n,
{
    let s = leb_bytes(n) + rest;
    if n < 128 {
        assert(s[0] == n as u8);
    } else {
        lemma_leb_bytes_len(n / 128);
        lemma_leb_roundtrip(n / 128, (max - 1) as nat, rest);
        assert(s.drop_first() =~= leb_bytes(n / 128) + rest);
        assert(s[0] == (n % 128 + 128) as u8);
    }
}

/// A completed scan reads a value below `128^len` using `len <= max` bytes.
pub proof fn lemma_leb_scan_bound(s: Seq<u8>, max: nat)
    requires
        max >= 1,
    ensures
        leb_scan(s, max) matches LebScan::Done { value, len } ==> (1 <= len <= max && len <= s.len()
            && value < pow128(len)),
        leb_scan(s, max) matches LebScan::Overlong { value } ==> (value < pow128(max) && max <= s.len()),
    decreases max,
{
    reveal_with_fuel(pow128, 2);
    if s.len() > 0 && s[0] >= 128 && max > 1 {
        lemma_leb_scan_bound(s.drop_first(), (max - 1) as nat);
    }
}

} // verus!
