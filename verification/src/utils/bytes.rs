//! Reading from the front of a byte slice, the way `Read` is implemented for
//! `&[u8]`: what is read is cut off the front.
use vstd::prelude::*;
use vstd::utf8::{decode_utf8, valid_utf8};

verus! {

/// `std::str::from_utf8`: the bytes as a string when they are valid UTF-8,
/// else the error's message.
///
/// Claimed of the std function: it succeeds exactly on valid UTF-8 (vstd's
/// `valid_utf8`), and then the string's characters are those the bytes
/// encode. Nothing is claimed of the message.
#[verifier::external_body]
pub(crate) fn str_from_utf8<'a>(bytes: &'a [u8]) -> (r: Result<&'a str, String>)
    ensures
        r is Ok <==> valid_utf8(bytes@),
        r matches Ok(s) ==> s@ == decode_utf8(bytes@),
{
    match std::str::from_utf8(bytes) {
        Ok(s) => Ok(s),
        Err(e) => Err(e.to_string()),
    }
}

/// Takes the first byte off `buf`, or gives `None` when `buf` is empty.
pub fn read_byte<'a>(buf: &mut &'a [u8]) -> (r: Option<u8>)
    ensures
        old(buf)@.len() == 0 ==> r is None && final(buf)@ == old(buf)@,
        old(buf)@.len() > 0 ==> r == Some(old(buf)@[0]) && final(buf)@ == old(buf)@.drop_first(),
{
    let s: &'a [u8] = *buf;
    if s.len() == 0 {
        return None;
    }
    let b = s[0];
    let (_, rest) = s.split_at(1);
    *buf = rest;
    assert(rest@ =~= old(buf)@.drop_first());
    Some(b)
}

/// Takes the first `n` bytes off `buf`, or gives `None` when `buf` holds fewer.
pub fn read_bytes<'a>(buf: &mut &'a [u8], n: usize) -> (r: Option<&'a [u8]>)
    ensures
        n > old(buf)@.len() ==> r is None && final(buf)@ == old(buf)@,
        n <= old(buf)@.len() ==> (r matches Some(head) && head@ == old(buf)@.take(n as int)
            && final(buf)@ == old(buf)@.skip(n as int)),
{
    let s: &'a [u8] = *buf;
    if n > s.len() {
        return None;
    }
    let (head, rest) = s.split_at(n);
    *buf = rest;
    assert(head@ =~= old(buf)@.take(n as int));
    assert(rest@ =~= old(buf)@.skip(n as int));
    Some(head)
}

/// Appends all of `bytes` to `buf`.
pub fn write_all(buf: &mut Vec<u8>, bytes: &[u8])
    ensures
        final(buf)@ == old(buf)@ + bytes@,
{
    let n = bytes.len();
    let mut i: usize = 0;
    while i < n
        invariant
            n == bytes@.len(),
            i <= n,
            buf@ == old(buf)@ + bytes@.take(i as int),
        decreases n - i,
    {
        buf.push(bytes[i]);
        i = i + 1;
        assert(bytes@.take(i as int) =~= bytes@.take((i - 1) as int).push(bytes@[i - 1]));
    }
    assert(bytes@.take(n as int) =~= bytes@);
}

} // verus!
