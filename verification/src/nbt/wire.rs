//! The NBT byte format, stated over a mathematical model of NBT values.
use vstd::prelude::*;
use vstd::utf8::{decode_utf8, encode_utf8, valid_utf8};

use crate::utils::fixed::{be16, be32, be64, from_be16, from_be32, from_be64, lemma_be16_roundtrip,
    lemma_be32_roundtrip, lemma_be64_roundtrip};
use vstd::utf8::{encode_utf8_decode_utf8, encode_utf8_valid_utf8};

verus! {

/// An NBT value as a mathematical object. Floating-point values are held as
/// their IEEE-754 bits; a compound is its entries in order.
pub ghost enum NbtModel {
    Byte(i8),
    Short(i16),
    Int(i32),
    Long(i64),
    Float(u32),
    Double(u64),
    ByteArray(Seq<i8>),
    String(Seq<char>),
    List(Seq<NbtModel>),
    Compound(Seq<(Seq<char>, NbtModel)>),
    IntArray(Seq<i32>),
    LongArray(Seq<i64>),
}

/// Why reading NBT failed.
pub ghost enum NbtFailure {
    UnknownTag(u8),
    InvalidRoot,
    Io,
    Utf8,
}

/// The tag byte of a value.
pub open spec fn tag_of(m: NbtModel) -> u8 {
    match m {
        NbtModel::Byte(_) => 1,
        NbtModel::Short(_) => 2,
        NbtModel::Int(_) => 3,
        NbtModel::Long(_) => 4,
        NbtModel::Float(_) => 5,
        NbtModel::Double(_) => 6,
        NbtModel::ByteArray(_) => 7,
        NbtModel::String(_) => 8,
        NbtModel::List(_) => 9,
        NbtModel::Compound(_) => 10,
        NbtModel::IntArray(_) => 11,
        NbtModel::LongArray(_) => 12,
    }
}

/// The tag a list is written with: that of its first item, or `1` when empty.
pub open spec fn list_tag(items: Seq<NbtModel>) -> u8 {
    if items.len() > 0 {
        tag_of(items[0])
    } else {
        1
    }
}

/// A string: the big-endian 16-bit length of its UTF-8 bytes, then the bytes.
pub open spec fn string_bytes(c: Seq<char>) -> Seq<u8> {
    be16(((encode_utf8(c).len() as i16) as u16)) + encode_utf8(c)
}

/// An array length: big-endian 32 bits.
pub open spec fn len_bytes(n: nat) -> Seq<u8> {
    be32(((n as i32) as u32))
}

/// The bytes of a byte array's items, one each.
pub open spec fn bytes_of_i8s(a: Seq<i8>) -> Seq<u8> {
    a.map_values(|x: i8| x as u8)
}

/// The bytes of an int array's items, four each, big-endian.
pub open spec fn bytes_of_i32s(a: Seq<i32>) -> Seq<u8>
    decreases a.len(),
{
    if a.len() == 0 {
        Seq::empty()
    } else {
        be32(a[0] as u32) + bytes_of_i32s(a.drop_first())
    }
}

/// The bytes of a long array's items, eight each, big-endian.
pub open spec fn bytes_of_i64s(a: Seq<i64>) -> Seq<u8>
    decreases a.len(),
{
    if a.len() == 0 {
        Seq::empty()
    } else {
        be64(a[0] as u64) + bytes_of_i64s(a.drop_first())
    }
}

/// The bytes of a value without its tag.
pub open spec fn payload(m: NbtModel) -> Seq<u8>
    decreases m, 0nat,
{
    match m {
        NbtModel::Byte(x) => seq![x as u8],
        NbtModel::Short(x) => be16(x as u16),
        NbtModel::Int(x) => be32(x as u32),
        NbtModel::Long(x) => be64(x as u64),
        NbtModel::Float(b) => be32(b),
        NbtModel::Double(b) => be64(b),
        NbtModel::ByteArray(a) => len_bytes(a.len()) + bytes_of_i8s(a),
        NbtModel::String(c) => string_bytes(c),
        NbtModel::List(items) => seq![list_tag(items)] + len_bytes(items.len()) + list_payloads(
            items,
            0,
        ),
        NbtModel::Compound(es) => compound_payload(es, 0),
        NbtModel::IntArray(a) => len_bytes(a.len()) + bytes_of_i32s(a),
        NbtModel::LongArray(a) => len_bytes(a.len()) + bytes_of_i64s(a),
    }
}

/// The payloads of the items of a list from index `i` on.
pub open spec fn list_payloads(items: Seq<NbtModel>, i: nat) -> Seq<u8>
    decreases items, items.len() - i,
{
    if i < items.len() {
        payload(items[i as int]) + list_payloads(items, i + 1)
    } else {
        Seq::empty()
    }
}

/// One compound entry: the value's tag, the name, the value.
pub open spec fn entry_bytes(name: Seq<char>, v: NbtModel) -> Seq<u8> {
    seq![tag_of(v)] + string_bytes(name) + payload(v)
}

/// The entries of a compound from index `i` on, then the end tag `0`.
pub open spec fn compound_payload(es: Seq<(Seq<char>, NbtModel)>, i: nat) -> Seq<u8>
    decreases es, es.len() - i,
{
    if i < es.len() {
        proof {
            assert(decreases_to!(es => es[i as int]));
        }
        seq![tag_of(es[i as int].1)] + string_bytes(es[i as int].0) + payload(es[i as int].1)
            + compound_payload(es, i + 1)
    } else {
        seq![0u8]
    }
}

/// The length a string's 16-bit prefix gives.
pub open spec fn string_len(s: Seq<u8>) -> int {
    (from_be16(s.take(2)) as i16) as int
}

/// What reading an NBT string from the front of `s` gives. A negative length
/// is `Io`: no reader can supply that many bytes.
pub open spec fn read_string(s: Seq<u8>) -> Result<(Seq<char>, Seq<u8>), NbtFailure> {
    if s.len() < 2 {
        Err(NbtFailure::Io)
    } else {
        let len = string_len(s);
        let r = s.skip(2);
        if len < 0 || len > r.len() {
            Err(NbtFailure::Io)
        } else if valid_utf8(r.take(len)) {
            Ok((decode_utf8(r.take(len)), r.skip(len)))
        } else {
            Err(NbtFailure::Utf8)
        }
    }
}

/// What reading a big-endian 32-bit length from the front of `s` gives.
pub open spec fn read_len(s: Seq<u8>) -> Result<(int, Seq<u8>), NbtFailure> {
    if s.len() < 4 {
        Err(NbtFailure::Io)
    } else {
        Ok((((from_be32(s.take(4)) as i32) as int), s.skip(4)))
    }
}

/// The 32-bit big-endian integers of `b`, four bytes each.
pub open spec fn i32s_of(b: Seq<u8>) -> Seq<i32>
    decreases b.len(),
{
    if b.len() < 4 {
        Seq::empty()
    } else {
        seq![from_be32(b.take(4)) as i32] + i32s_of(b.skip(4))
    }
}

/// The 64-bit big-endian integers of `b`, eight bytes each.
pub open spec fn i64s_of(b: Seq<u8>) -> Seq<i64>
    decreases b.len(),
{
    if b.len() < 8 {
        Seq::empty()
    } else {
        seq![from_be64(b.take(8)) as i64] + i64s_of(b.skip(8))
    }
}

/// The first index at or after `i` whose entry has name `k`, or `-1`.
pub open spec fn key_index_from(es: Seq<(Seq<char>, NbtModel)>, k: Seq<char>, i: int) -> int
    decreases es.len() - i,
{
    if i < 0 || i >= es.len() {
        -1
    } else if es[i].0 == k {
        i
    } else {
        key_index_from(es, k, i + 1)
    }
}

/// The index of the entry named `k`, or `-1`.
pub open spec fn key_index(es: Seq<(Seq<char>, NbtModel)>, k: Seq<char>) -> int {
    key_index_from(es, k, 0)
}

/// A name's index, where there is one, holds an entry of that name.
pub proof fn lemma_key_index_found(es: Seq<(Seq<char>, NbtModel)>, k: Seq<char>, i: int)
    ensures
        key_index_from(es, k, i) >= -1,
        key_index_from(es, k, i) >= 0 ==> i <= key_index_from(es, k, i) < es.len()
            && es[key_index_from(es, k, i)].0 == k,
    decreases es.len() - i,
{
    if 0 <= i < es.len() && es[i].0 != k {
        lemma_key_index_found(es, k, i + 1);
    }
}

/// The value of the entry named `k`.
pub open spec fn lookup(es: Seq<(Seq<char>, NbtModel)>, k: Seq<char>) -> Option<NbtModel> {
    let i = key_index(es, k);
    if i < 0 {
        None
    } else {
        Some(es[i].1)
    }
}

/// Map insertion: the entry named `k` gets value `v` where it stands, or a new
/// entry is added at the end.
pub open spec fn insert_entry(es: Seq<(Seq<char>, NbtModel)>, k: Seq<char>, v: NbtModel) -> Seq<
    (Seq<char>, NbtModel),
> {
    let i = key_index(es, k);
    if i < 0 {
        es.push((k, v))
    } else {
        es.update(i, (k, v))
    }
}

/// Inserting the entries of `raw` one after the other.
pub open spec fn insert_all(acc: Seq<(Seq<char>, NbtModel)>, raw: Seq<(Seq<char>, NbtModel)>) -> Seq<
    (Seq<char>, NbtModel),
>
    decreases raw.len(),
{
    if raw.len() == 0 {
        acc
    } else {
        insert_all(insert_entry(acc, raw[0].0, raw[0].1), raw.drop_first())
    }
}

/// What reading a value with tag `tag` from the front of `s` gives.
pub open spec fn read_value(s: Seq<u8>, tag: u8) -> Result<(NbtModel, Seq<u8>), NbtFailure>
    decreases s.len(), 1nat,
{
    if tag == 1 {
        if s.len() < 1 {
            Err(NbtFailure::Io)
        } else {
            Ok((NbtModel::Byte(s[0] as i8), s.drop_first()))
        }
    } else if tag == 2 {
        if s.len() < 2 {
            Err(NbtFailure::Io)
        } else {
            Ok((NbtModel::Short(from_be16(s.take(2)) as i16), s.skip(2)))
        }
    } else if tag == 3 {
        if s.len() < 4 {
            Err(NbtFailure::Io)
        } else {
            Ok((NbtModel::Int(from_be32(s.take(4)) as i32), s.skip(4)))
        }
    } else if tag == 4 {
        if s.len() < 8 {
            Err(NbtFailure::Io)
        } else {
            Ok((NbtModel::Long(from_be64(s.take(8)) as i64), s.skip(8)))
        }
    } else if tag == 5 {
        if s.len() < 4 {
            Err(NbtFailure::Io)
        } else {
            Ok((NbtModel::Float(from_be32(s.take(4))), s.skip(4)))
        }
    } else if tag == 6 {
        if s.len() < 8 {
            Err(NbtFailure::Io)
        } else {
            Ok((NbtModel::Double(from_be64(s.take(8))), s.skip(8)))
        }
    } else if tag == 7 {
        match read_len(s) {
            Err(e) => Err(e),
            Ok((n, r)) => if n < 0 || n > r.len() {
                Err(NbtFailure::Io)
            } else {
                Ok((NbtModel::ByteArray(r.take(n).map_values(|b: u8| b as i8)), r.skip(n)))
            },
        }
    } else if tag == 8 {
        match read_string(s) {
            Err(e) => Err(e),
            Ok((c, r)) => Ok((NbtModel::String(c), r)),
        }
    } else if tag == 9 {
        if s.len() < 1 {
            Err(NbtFailure::Io)
        } else {
            match read_len(s.drop_first()) {
                Err(e) => Err(e),
                Ok((n, r)) => if n < 0 || r.len() >= s.len() {
                    Err(NbtFailure::Io)
                } else {
                    match list_items(r, s[0], n as nat) {
                        Err(e) => Err(e),
                        Ok((items, r2)) => Ok((NbtModel::List(items), r2)),
                    }
                },
            }
        }
    } else if tag == 10 {
        match compound_raw(s) {
            Err(e) => Err(e),
            Ok((raw, r)) => Ok((NbtModel::Compound(insert_all(Seq::empty(), raw)), r)),
        }
    } else if tag == 11 {
        match read_len(s) {
            Err(e) => Err(e),
            Ok((n, r)) => if n < 0 || 4 * n > r.len() {
                Err(NbtFailure::Io)
            } else {
                Ok((NbtModel::IntArray(i32s_of(r.take(4 * n))), r.skip(4 * n)))
            },
        }
    } else if tag == 12 {
        match read_len(s) {
            Err(e) => Err(e),
            Ok((n, r)) => if n < 0 || 8 * n > r.len() {
                Err(NbtFailure::Io)
            } else {
                Ok((NbtModel::LongArray(i64s_of(r.take(8 * n))), r.skip(8 * n)))
            },
        }
    } else {
        Err(NbtFailure::UnknownTag(tag))
    }
}

/// What reading `n` values with tag `tag` one after the other gives. (Every
/// value takes at least one byte, so the length test never fails.)
pub open spec fn list_items(s: Seq<u8>, tag: u8, n: nat) -> Result<(Seq<NbtModel>, Seq<u8>), NbtFailure>
    decreases s.len(), 2nat,
{
    if n == 0 {
        Ok((Seq::empty(), s))
    } else {
        match read_value(s, tag) {
            Err(e) => Err(e),
            Ok((v, r)) => if r.len() < s.len() {
                match list_items(r, tag, (n - 1) as nat) {
                    Err(e) => Err(e),
                    Ok((vs, r2)) => Ok((seq![v] + vs, r2)),
                }
            } else {
                Err(NbtFailure::Io)
            },
        }
    }
}

/// What reading compound entries up to and including the end tag gives: the
/// entries in the order they were read.
pub open spec fn compound_raw(s: Seq<u8>) -> Result<(Seq<(Seq<char>, NbtModel)>, Seq<u8>), NbtFailure>
    decreases s.len(), 0nat,
{
    if s.len() == 0 {
        Err(NbtFailure::Io)
    } else if s[0] == 0 {
        Ok((Seq::empty(), s.drop_first()))
    } else {
        match read_string(s.drop_first()) {
            Err(e) => Err(e),
            Ok((name, r)) => if r.len() < s.len() {
                match read_value(r, s[0]) {
                    Err(e) => Err(e),
                    Ok((v, r2)) => if r2.len() < s.len() {
                        match compound_raw(r2) {
                            Err(e) => Err(e),
                            Ok((es, r3)) => Ok((seq![(name, v)] + es, r3)),
                        }
                    } else {
                        Err(NbtFailure::Io)
                    },
                }
            } else {
                Err(NbtFailure::Io)
            },
        }
    }
}

/// Each NBT type has its fixed tag byte: Byte 1, Short 2, Int 3, Long 4,
/// Float 5, Double 6, ByteArray 7, String 8, List 9, Compound 10, IntArray 11,
/// LongArray 12; a document starts with the compound tag. An entry is written
/// as its value's tag, its name and its payload: for a float, the tag 5 and
/// the four big-endian bytes of its bits; for a double, the tag 6 and the
/// eight. Under tag 5 four bytes are read back as a float, under tag 6 eight
/// bytes as a double, and a tag of 0 or above 12 names no value.
pub proof fn lemma_nbt_tags(
    m: NbtModel,
    name: Seq<char>,
    x: u32,
    y: u64,
    es: Seq<(Seq<char>, NbtModel)>,
    rest: Seq<u8>,
    t: u8,
)
    ensures
        m is Byte ==> tag_of(m) == 1,
        m is Short ==> tag_of(m) == 2,
        m is Int ==> tag_of(m) == 3,
        m is Long ==> tag_of(m) == 4,
        m is Float ==> tag_of(m) == 5,
        m is Double ==> tag_of(m) == 6,
        m is ByteArray ==> tag_of(m) == 7,
        m is String ==> tag_of(m) == 8,
        m is List ==> tag_of(m) == 9,
        m is Compound ==> tag_of(m) == 10,
        m is IntArray ==> tag_of(m) == 11,
        m is LongArray ==> tag_of(m) == 12,
        document_bytes(es)[0] == 10,
        entry_bytes(name, NbtModel::Float(x)) == seq![5u8] + string_bytes(name) + be32(x),
        entry_bytes(name, NbtModel::Double(y)) == seq![6u8] + string_bytes(name) + be64(y),
        be32(x).len() == 4,
        be64(y).len() == 8,
        read_value(be32(x) + rest, 5) == Ok::<(NbtModel, Seq<u8>), NbtFailure>(
            (NbtModel::Float(x), rest),
        ),
        read_value(be64(y) + rest, 6) == Ok::<(NbtModel, Seq<u8>), NbtFailure>(
            (NbtModel::Double(y), rest),
        ),
        (t == 0 || t > 12) ==> read_value(rest, t) == Err::<(NbtModel, Seq<u8>), NbtFailure>(
            NbtFailure::UnknownTag(t),
        ),
{
    lemma_be32_roundtrip(x);
    lemma_be64_roundtrip(y);
    assert((be32(x) + rest).take(4) =~= be32(x));
    assert((be32(x) + rest).skip(4) =~= rest);
    assert((be64(y) + rest).take(8) =~= be64(y));
    assert((be64(y) + rest).skip(8) =~= rest);
}

/// Strings whose UTF-8 length fits the 16-bit prefix.
pub open spec fn string_valid(c: Seq<char>) -> bool {
    encode_utf8(c).len() <= i16::MAX
}

/// Entry names that occur once.
pub open spec fn keys_distinct(es: Seq<(Seq<char>, NbtModel)>) -> bool {
    forall|i: int, j: int| 0 <= i < j < es.len() ==> es[i].0 != es[j].0
}

/// Values that read back as themselves: lengths that fit their prefixes,
/// lists whose items all have the list's tag, compounds without repeated
/// names, all the way down.
pub open spec fn valid(m: NbtModel) -> bool
    decreases m,
{
    match m {
        NbtModel::ByteArray(a) => a.len() <= i32::MAX,
        NbtModel::String(c) => string_valid(c),
        NbtModel::List(items) => {
            &&& items.len() <= i32::MAX
            &&& forall|i: int|
                0 <= i < items.len() ==> valid(#[trigger] items[i]) && tag_of(items[i]) == list_tag(
                    items,
                )
        },
        NbtModel::Compound(es) => {
            &&& keys_distinct(es)
            &&& forall|i: int|
                0 <= i < es.len() ==> string_valid(#[trigger] es[i].0) && valid(es[i].1)
        },
        NbtModel::IntArray(a) => a.len() <= i32::MAX,
        NbtModel::LongArray(a) => a.len() <= i32::MAX,
        _ => true,
    }
}

/// A string that fits its prefix reads back, followed by anything.
pub proof fn lemma_string_roundtrip(c: Seq<char>, rest: Seq<u8>)
    requires
        string_valid(c),
    ensures
        read_string(string_bytes(c) + rest) == Ok::<(Seq<char>, Seq<u8>), NbtFailure>((c, rest)),
        string_bytes(c).len() >= 2,
{
    let b = encode_utf8(c);
    let h = be16(((b.len() as i16) as u16));
    let s = string_bytes(c) + rest;
    lemma_be16_roundtrip(((b.len() as i16) as u16));
    let n = b.len() as i16;
    assert((n as u16) as i16 == n) by (bit_vector);
    assert(s.take(2) =~= h);
    assert(s.skip(2) =~= b + rest);
    assert((b + rest).take(b.len() as int) =~= b);
    assert((b + rest).skip(b.len() as int) =~= rest);
    encode_utf8_valid_utf8(c);
    encode_utf8_decode_utf8(c);
}

/// A length that fits in an `i32` reads back, followed by anything.
pub proof fn lemma_len_roundtrip(n: nat, rest: Seq<u8>)
    requires
        n <= i32::MAX,
    ensures
        read_len(len_bytes(n) + rest) == Ok::<(int, Seq<u8>), NbtFailure>((n as int, rest)),
        len_bytes(n).len() == 4,
{
    let v = (n as i32) as u32;
    lemma_be32_roundtrip(v);
    let s = len_bytes(n) + rest;
    assert(s.take(4) =~= be32(v));
    assert(s.skip(4) =~= rest);
    let m = n as i32;
    assert((m as u32) as i32 == m) by (bit_vector);
}

/// The bytes of an int array read back as the array.
pub proof fn lemma_i32s_roundtrip(a: Seq<i32>)
    ensures
        i32s_of(bytes_of_i32s(a)) == a,
        bytes_of_i32s(a).len() == 4 * a.len(),
    decreases a.len(),
{
    if a.len() > 0 {
        lemma_i32s_roundtrip(a.drop_first());
        let x = a[0];
        lemma_be32_roundtrip(x as u32);
        assert((x as u32) as i32 == x) by (bit_vector);
        let b = bytes_of_i32s(a);
        assert(b.take(4) =~= be32(x as u32));
        assert(b.skip(4) =~= bytes_of_i32s(a.drop_first()));
        assert(seq![x] + a.drop_first() =~= a);
    }
}

/// The bytes of a long array read back as the array.
pub proof fn lemma_i64s_roundtrip(a: Seq<i64>)
    ensures
        i64s_of(bytes_of_i64s(a)) == a,
        bytes_of_i64s(a).len() == 8 * a.len(),
    decreases a.len(),
{
    if a.len() > 0 {
        lemma_i64s_roundtrip(a.drop_first());
        let x = a[0];
        lemma_be64_roundtrip(x as u64);
        assert((x as u64) as i64 == x) by (bit_vector);
        let b = bytes_of_i64s(a);
        assert(b.take(8) =~= be64(x as u64));
        assert(b.skip(8) =~= bytes_of_i64s(a.drop_first()));
        assert(seq![x] + a.drop_first() =~= a);
    }
}

/// A compound's entries take at least the closing byte.
pub proof fn lemma_compound_payload_len(es: Seq<(Seq<char>, NbtModel)>, i: nat)
    ensures
        compound_payload(es, i).len() >= 1,
    decreases es.len() - i,
{
    if i < es.len() {
        lemma_compound_payload_len(es, i + 1);
    }
}

/// Every value takes at least one byte.
pub proof fn lemma_payload_len(m: NbtModel)
    ensures
        payload(m).len() >= 1,
{
    match m {
        NbtModel::Short(x) => lemma_be16_roundtrip(x as u16),
        NbtModel::Int(x) => lemma_be32_roundtrip(x as u32),
        NbtModel::Long(x) => lemma_be64_roundtrip(x as u64),
        NbtModel::Float(b) => lemma_be32_roundtrip(b),
        NbtModel::Double(b) => lemma_be64_roundtrip(b),
        NbtModel::ByteArray(a) => lemma_be32_roundtrip(((a.len() as i32) as u32)),
        NbtModel::String(c) => lemma_be16_roundtrip(((encode_utf8(c).len() as i16) as u16)),
        NbtModel::Compound(es) => lemma_compound_payload_len(es, 0),
        NbtModel::IntArray(a) => lemma_be32_roundtrip(((a.len() as i32) as u32)),
        NbtModel::LongArray(a) => lemma_be32_roundtrip(((a.len() as i32) as u32)),
        _ => {},
    }
}

/// A name that no entry from `i` on has is not found from `i`.
pub proof fn lemma_key_index_absent(es: Seq<(Seq<char>, NbtModel)>, k: Seq<char>, i: int)
    requires
        0 <= i,
        forall|j: int| i <= j < es.len() ==> es[j].0 != k,
    ensures
        key_index_from(es, k, i) == -1,
    decreases es.len() - i,
{
    if i < es.len() {
        lemma_key_index_absent(es, k, i + 1);
    }
}

/// Inserting entries with fresh, distinct names appends them.
pub proof fn lemma_insert_all_distinct(acc: Seq<(Seq<char>, NbtModel)>, raw: Seq<(Seq<char>, NbtModel)>)
    requires
        keys_distinct(acc + raw),
    ensures
        insert_all(acc, raw) == acc + raw,
    decreases raw.len(),
{
    if raw.len() == 0 {
        assert(acc + raw =~= acc);
    } else {
        let k = raw[0].0;
        assert forall|j: int| 0 <= j < acc.len() implies acc[j].0 != k by {
            assert((acc + raw)[j] == acc[j]);
            assert((acc + raw)[acc.len() as int] == raw[0]);
        }
        lemma_key_index_absent(acc, k, 0);
        let acc2 = acc.push(raw[0]);
        assert(acc2 + raw.drop_first() =~= acc + raw);
        lemma_insert_all_distinct(acc2, raw.drop_first());
    }
}

/// A valid value read back with its own tag gives itself.
#[verifier::spinoff_prover]
#[verifier::rlimit(40)]
pub proof fn lemma_value_roundtrip(m: NbtModel, rest: Seq<u8>)
    requires
        valid(m),
    ensures
        read_value(payload(m) + rest, tag_of(m)) == Ok::<(NbtModel, Seq<u8>), NbtFailure>((m, rest)),
    decreases m, 0nat,
{
    let s = payload(m) + rest;
    match m {
        NbtModel::Byte(x) => {
            assert(s.drop_first() =~= rest);
            assert((x as u8) as i8 == x) by (bit_vector);
        },
        NbtModel::Short(x) => {
            lemma_be16_roundtrip(x as u16);
            assert(s.take(2) =~= be16(x as u16));
            assert(s.skip(2) =~= rest);
            assert((x as u16) as i16 == x) by (bit_vector);
        },
        NbtModel::Int(x) => {
            lemma_be32_roundtrip(x as u32);
            assert(s.take(4) =~= be32(x as u32));
            assert(s.skip(4) =~= rest);
            assert((x as u32) as i32 == x) by (bit_vector);
        },
        NbtModel::Long(x) => {
            lemma_be64_roundtrip(x as u64);
            assert(s.take(8) =~= be64(x as u64));
            assert(s.skip(8) =~= rest);
            assert((x as u64) as i64 == x) by (bit_vector);
        },
        NbtModel::Float(b) => {
            lemma_be32_roundtrip(b);
            assert(s.take(4) =~= be32(b));
            assert(s.skip(4) =~= rest);
        },
        NbtModel::Double(b) => {
            lemma_be64_roundtrip(b);
            assert(s.take(8) =~= be64(b));
            assert(s.skip(8) =~= rest);
        },
        NbtModel::ByteArray(a) => {
            let body = bytes_of_i8s(a);
            lemma_len_roundtrip(a.len(), body + rest);
            assert(s =~= len_bytes(a.len()) + (body + rest));
            assert((body + rest).take(a.len() as int) =~= body);
            assert((body + rest).skip(a.len() as int) =~= rest);
            assert forall|i: int| 0 <= i < a.len() implies (body[i] as i8) == a[i] by {
                let x = a[i];
                assert((x as u8) as i8 == x) by (bit_vector);
            }
            assert(body.map_values(|b: u8| b as i8) =~= a);
        },
        NbtModel::String(c) => {
            lemma_string_roundtrip(c, rest);
        },
        NbtModel::List(items) => {
            let t = list_tag(items);
            let body = list_payloads(items, 0);
            lemma_len_roundtrip(items.len(), body + rest);
            assert(s.drop_first() =~= len_bytes(items.len()) + (body + rest));
            assert(s[0] == t);
            lemma_list_roundtrip(items, 0, rest);
            assert(items.skip(0) =~= items);
        },
        NbtModel::Compound(es) => {
            lemma_compound_roundtrip(es, 0, rest);
            assert(es.skip(0) =~= es);
            lemma_insert_all_distinct(Seq::empty(), es);
            assert(Seq::<(Seq<char>, NbtModel)>::empty() + es =~= es);
        },
        NbtModel::IntArray(a) => {
            let body = bytes_of_i32s(a);
            lemma_i32s_roundtrip(a);
            lemma_len_roundtrip(a.len(), body + rest);
            assert(s =~= len_bytes(a.len()) + (body + rest));
            assert((body + rest).take(4 * a.len() as int) =~= body);
            assert((body + rest).skip(4 * a.len() as int) =~= rest);
        },
        NbtModel::LongArray(a) => {
            let body = bytes_of_i64s(a);
            lemma_i64s_roundtrip(a);
            lemma_len_roundtrip(a.len(), body + rest);
            assert(s =~= len_bytes(a.len()) + (body + rest));
            assert((body + rest).take(8 * a.len() as int) =~= body);
            assert((body + rest).skip(8 * a.len() as int) =~= rest);
        },
    }
}

/// The items of a valid list from index `i` on read back.
pub proof fn lemma_list_roundtrip(items: Seq<NbtModel>, i: nat, rest: Seq<u8>)
    requires
        i <= items.len(),
        forall|j: int|
            0 <= j < items.len() ==> valid(#[trigger] items[j]) && tag_of(items[j]) == list_tag(items),
    ensures
        list_items(list_payloads(items, i) + rest, list_tag(items), (items.len() - i) as nat) == Ok::<
            (Seq<NbtModel>, Seq<u8>),
            NbtFailure,
        >((items.skip(i as int), rest)),
    decreases items, items.len() - i,
{
    if i == items.len() {
        assert(list_payloads(items, i) + rest =~= rest);
        assert(items.skip(i as int) =~= Seq::<NbtModel>::empty());
    } else {
        let v = items[i as int];
        let tail = list_payloads(items, i + 1) + rest;
        assert(list_payloads(items, i) + rest =~= payload(v) + tail);
        lemma_value_roundtrip(v, tail);
        lemma_payload_len(v);
        lemma_list_roundtrip(items, i + 1, rest);
        assert(seq![v] + items.skip(i + 1 as int) =~= items.skip(i as int));
    }
}

/// The entries of a valid compound from index `i` on read back, with the end
/// tag.
#[verifier::rlimit(80)]
#[verifier::spinoff_prover]
pub proof fn lemma_compound_roundtrip(es: Seq<(Seq<char>, NbtModel)>, i: nat, rest: Seq<u8>)
    requires
        i <= es.len(),
        forall|j: int| 0 <= j < es.len() ==> string_valid(#[trigger] es[j].0) && valid(es[j].1),
    ensures
        compound_raw(compound_payload(es, i) + rest) == Ok::<
            (Seq<(Seq<char>, NbtModel)>, Seq<u8>),
            NbtFailure,
        >((es.skip(i as int), rest)),
    decreases es, es.len() - i,
{
    let s = compound_payload(es, i) + rest;
    if i == es.len() {
        assert(s.drop_first() =~= rest);
        assert(es.skip(i as int) =~= Seq::<(Seq<char>, NbtModel)>::empty());
    } else {
        let (name, v) = es[i as int];
        assert(decreases_to!(es => es[i as int]));
        let tail = compound_payload(es, i + 1) + rest;
        let after_name = payload(v) + tail;
        assert(s =~= seq![tag_of(v)] + (string_bytes(name) + after_name));
        assert(s.drop_first() =~= string_bytes(name) + after_name);
        lemma_string_roundtrip(name, after_name);
        lemma_value_roundtrip(v, tail);
        lemma_payload_len(v);
        lemma_payload_len_tag(v);
        lemma_compound_roundtrip(es, i + 1, rest);
        lemma_compound_step(s, name, v, after_name, tail, es.skip(i + 1 as int), rest);
        assert(seq![(name, v)] + es.skip(i + 1 as int) =~= es.skip(i as int));
    }
}

/// One entry followed by the rest of a compound reads as that entry followed by
/// the rest.
pub proof fn lemma_compound_step(
    s: Seq<u8>,
    name: Seq<char>,
    v: NbtModel,
    after_name: Seq<u8>,
    tail: Seq<u8>,
    es_rest: Seq<(Seq<char>, NbtModel)>,
    rest: Seq<u8>,
)
    requires
        s.len() > 0,
        s[0] != 0,
        read_string(s.drop_first()) == Ok::<(Seq<char>, Seq<u8>), NbtFailure>((name, after_name)),
        after_name.len() < s.len(),
        read_value(after_name, s[0]) == Ok::<(NbtModel, Seq<u8>), NbtFailure>((v, tail)),
        tail.len() < s.len(),
        compound_raw(tail) == Ok::<(Seq<(Seq<char>, NbtModel)>, Seq<u8>), NbtFailure>((es_rest, rest)),
    ensures
        compound_raw(s) == Ok::<(Seq<(Seq<char>, NbtModel)>, Seq<u8>), NbtFailure>(
            (seq![(name, v)] + es_rest, rest),
        ),
{
}

/// No value has the end tag.
pub proof fn lemma_payload_len_tag(m: NbtModel)
    ensures
        tag_of(m) != 0,
{
}

/// The bytes of a document whose root compound has entries `es`: the
/// compound tag, the empty root name, the entries.
pub open spec fn document_bytes(es: Seq<(Seq<char>, NbtModel)>) -> Seq<u8> {
    seq![10u8] + string_bytes(Seq::empty()) + compound_payload(es, 0)
}

/// What reading a document from `s` gives: the entries of its root compound.
/// What follows the root compound is not read.
pub open spec fn document_decode(s: Seq<u8>) -> Result<Seq<(Seq<char>, NbtModel)>, NbtFailure> {
    if s.len() == 0 {
        Err(NbtFailure::Io)
    } else if s[0] != 10 {
        Err(NbtFailure::InvalidRoot)
    } else {
        match read_string(s.drop_first()) {
            Err(f) => Err(f),
            Ok((_, r)) => match compound_raw(r) {
                Err(f) => Err(f),
                Ok((raw, _)) => Ok(insert_all(Seq::empty(), raw)),
            },
        }
    }
}

/// Reading a document back gives the root compound it was written from, when
/// that compound is valid.
pub proof fn lemma_document_roundtrip(es: Seq<(Seq<char>, NbtModel)>)
    requires
        valid(NbtModel::Compound(es)),
    ensures
        document_decode(document_bytes(es)) == Ok::<Seq<(Seq<char>, NbtModel)>, NbtFailure>(es),
{
    let body = compound_payload(es, 0);
    let s = document_bytes(es);
    assert(encode_utf8(Seq::<char>::empty()) =~= Seq::<u8>::empty()) by {
        reveal_with_fuel(encode_utf8, 1);
    }
    lemma_string_roundtrip(Seq::empty(), body);
    assert(s.drop_first() =~= string_bytes(Seq::empty()) + body);
    lemma_compound_roundtrip(es, 0, Seq::empty());
    assert(body + Seq::<u8>::empty() =~= body);
    assert(es.skip(0) =~= es);
    lemma_insert_all_distinct(Seq::empty(), es);
    assert(Seq::<(Seq<char>, NbtModel)>::empty() + es =~= es);
}

/// The index of the first `.` in `p` at or after `i`, or `-1`.
pub open spec fn dot_from(p: Seq<char>, i: int) -> int
    decreases p.len() - i,
{
    if i < 0 || i >= p.len() {
        -1
    } else if p[i] == '.' {
        i
    } else {
        dot_from(p, i + 1)
    }
}


/// Searching from `j` after the entry the search finds was replaced by one
/// of the same name finds the same index.
pub proof fn lemma_key_index_update(
    es: Seq<(Seq<char>, NbtModel)>,
    k: Seq<char>,
    j: int,
    v: NbtModel,
)
    requires
        0 <= j,
        0 <= key_index_from(es, k, j),
    ensures
        key_index_from(es.update(key_index_from(es, k, j), (k, v)), k, j) == key_index_from(es, k, j),
    decreases es.len() - j,
{
    lemma_key_index_found(es, k, j);
    let i = key_index_from(es, k, j);
    let es2 = es.update(i, (k, v));
    if j < i {
        assert(es2[j] == es[j]);
        assert(key_index_from(es, k, j + 1) == i);
        lemma_key_index_update(es, k, j + 1, v);
    } else {
        assert(es2[j] == (k, v));
    }
}

/// A name not among the entries is found at the end once pushed.
pub proof fn lemma_key_index_push(es: Seq<(Seq<char>, NbtModel)>, k: Seq<char>, v: NbtModel, j: int)
    requires
        0 <= j <= es.len(),
        key_index_from(es, k, j) == -1,
    ensures
        key_index_from(es.push((k, v)), k, j) == es.len(),
    decreases es.len() - j,
{
    if j < es.len() {
        lemma_key_index_push(es, k, v, j + 1);
    }
}

/// After `insert_entry`, the name maps to the inserted value.
pub proof fn lemma_insert_lookup(es: Seq<(Seq<char>, NbtModel)>, k: Seq<char>, v: NbtModel)
    ensures
        lookup(insert_entry(es, k, v), k) == Some(v),
{
    let i = key_index(es, k);
    lemma_key_index_found(es, k, 0);
    if i < 0 {
        lemma_key_index_push(es, k, v, 0);
    } else {
        lemma_key_index_found(es, k, 0);
        lemma_key_index_update(es, k, 0, v);
    }
}

/// Inserting a name leaves the value of every other name as it was.
pub proof fn lemma_insert_lookup_other(
    es: Seq<(Seq<char>, NbtModel)>,
    k: Seq<char>,
    v: NbtModel,
    k2: Seq<char>,
)
    requires
        k2 != k,
    ensures
        lookup(insert_entry(es, k, v), k2) == lookup(es, k2),
{
    lemma_key_index_other(es, k, v, k2, 0);
}

/// The search for another name is not moved by an insertion.
pub proof fn lemma_key_index_other(
    es: Seq<(Seq<char>, NbtModel)>,
    k: Seq<char>,
    v: NbtModel,
    k2: Seq<char>,
    j: int,
)
    requires
        k2 != k,
        0 <= j,
    ensures
        key_index_from(insert_entry(es, k, v), k2, j) == key_index_from(es, k2, j),
        key_index_from(es, k2, j) >= 0 ==> insert_entry(es, k, v)[key_index_from(es, k2, j)]
            == es[key_index_from(es, k2, j)],
    decreases insert_entry(es, k, v).len() - j,
{
    let es2 = insert_entry(es, k, v);
    lemma_key_index_found(es, k, 0);
    if j < es2.len() {
        lemma_key_index_other(es, k, v, k2, j + 1);
    }
}

/// Inserting keeps the names of a compound distinct.
pub proof fn lemma_insert_keeps_distinct(es: Seq<(Seq<char>, NbtModel)>, k: Seq<char>, v: NbtModel)
    requires
        keys_distinct(es),
    ensures
        keys_distinct(insert_entry(es, k, v)),
{
    lemma_key_index_found(es, k, 0);
    let i = key_index(es, k);
    if i < 0 {
        assert forall|j: int| 0 <= j < es.len() implies es[j].0 != k by {
            if es[j].0 == k {
                lemma_key_index_first_found(es, k, 0, j);
            }
        }
    }
}

/// A name at some index is found by the search, at that index or before.
pub proof fn lemma_key_index_first_found(es: Seq<(Seq<char>, NbtModel)>, k: Seq<char>, from: int, j: int)
    requires
        0 <= from <= j < es.len(),
        es[j].0 == k,
    ensures
        0 <= key_index_from(es, k, from) <= j,
    decreases j - from,
{
    if from < j && es[from].0 != k {
        lemma_key_index_first_found(es, k, from + 1, j);
    }
}

/// Inserting entries one after the other keeps the names distinct.
pub proof fn lemma_insert_all_keeps_distinct(acc: Seq<(Seq<char>, NbtModel)>, raw: Seq<(Seq<char>, NbtModel)>)
    requires
        keys_distinct(acc),
    ensures
        keys_distinct(insert_all(acc, raw)),
    decreases raw.len(),
{
    if raw.len() > 0 {
        lemma_insert_keeps_distinct(acc, raw[0].0, raw[0].1);
        lemma_insert_all_keeps_distinct(insert_entry(acc, raw[0].0, raw[0].1), raw.drop_first());
    }
}

/// The root of a document read from bytes names each entry once.
pub proof fn lemma_document_decode_distinct(s: Seq<u8>)
    ensures
        document_decode(s) matches Ok(es) ==> keys_distinct(es),
{
    match document_decode(s) {
        Ok(_) => {
            match read_string(s.drop_first()) {
                Ok((_, r)) => match compound_raw(r) {
                    Ok((raw, _)) => lemma_insert_all_keeps_distinct(Seq::empty(), raw),
                    Err(_) => {},
                },
                Err(_) => {},
            }
        },
        Err(_) => {},
    }
}

/// Whether `p` holds no `.`.
pub open spec fn no_dot(p: Seq<char>) -> bool {
    forall|i: int| 0 <= i < p.len() ==> p[i] != '.'
}

/// In a path with no `.` from `i` on, the search finds none.
pub proof fn lemma_dot_from_none(p: Seq<char>, i: int)
    requires
        0 <= i,
        forall|j: int| i <= j < p.len() ==> p[j] != '.',
    ensures
        dot_from(p, i) == -1,
    decreases p.len() - i,
{
    if i < p.len() {
        lemma_dot_from_none(p, i + 1);
    }
}

/// The first `.` of `a.b`, where `a` holds none, is the one after `a`.
pub proof fn lemma_dot_from_split(a: Seq<char>, b: Seq<char>, i: int)
    requires
        no_dot(a),
        0 <= i <= a.len(),
    ensures
        dot_from(a + seq!['.'] + b, i) == a.len(),
    decreases a.len() - i,
{
    let p = a + seq!['.'] + b;
    assert(p[a.len() as int] == '.');
    if i < a.len() {
        assert(p[i] == a[i]);
        lemma_dot_from_split(a, b, i + 1);
    }
}

/// Writing the path `a.b1` leaves the value at its sibling `a.b2` as it was,
/// when no name holds a `.` and `b1` and `b2` differ.
pub proof fn lemma_path_set_sibling(
    es: Seq<(Seq<char>, NbtModel)>,
    a: Seq<char>,
    b1: Seq<char>,
    b2: Seq<char>,
    v: NbtModel,
)
    requires
        no_dot(a),
        no_dot(b1),
        no_dot(b2),
        b1 != b2,
    ensures
        path_lookup(path_set(es, a + seq!['.'] + b1, v), a + seq!['.'] + b2) == path_lookup(
            es,
            a + seq!['.'] + b2,
        ),
{
    let p = a + seq!['.'] + b1;
    let q = a + seq!['.'] + b2;
    lemma_dot_from_split(a, b1, 0);
    lemma_dot_from_split(a, b2, 0);
    assert(p.take(a.len() as int) =~= a);
    assert(q.take(a.len() as int) =~= a);
    assert(p.skip(a.len() + 1int) =~= b1);
    assert(q.skip(a.len() + 1int) =~= b2);
    lemma_dot_from_none(b1, 0);
    lemma_dot_from_none(b2, 0);
    lemma_key_index_found(es, a, 0);
    let i = key_index(es, a);
    if i >= 0 {
        match es[i].1 {
            NbtModel::Compound(inner) => {
                let inner2 = path_set(inner, b1, v);
                let es2 = es.update(i, (a, NbtModel::Compound(inner2)));
                assert(path_set(es, p, v) == es2);
                lemma_key_index_update(es, a, 0, NbtModel::Compound(inner2));
                assert(lookup(es2, a) == Some(NbtModel::Compound(inner2)));
                assert(path_lookup(inner2, b2) == lookup(inner2, b2));
                assert(path_lookup(inner, b2) == lookup(inner, b2));
                assert(path_lookup(es2, q) == path_lookup(inner2, b2));
                assert(path_lookup(es, q) == path_lookup(inner, b2));
                lemma_key_index_found(inner, b1, 0);
                if key_index(inner, b1) >= 0 {
                    assert(inner2 == insert_entry(inner, b1, v));
                    lemma_insert_lookup_other(inner, b1, v, b2);
                }
            },
            _ => {},
        }
    }
}

/// Writing a value at a path that names one, then reading the path, gives
/// the value written.
pub proof fn lemma_path_set_lookup(es: Seq<(Seq<char>, NbtModel)>, p: Seq<char>, v: NbtModel)
    requires
        path_lookup(es, p) is Some,
    ensures
        path_lookup(path_set(es, p, v), p) == Some(v),
    decreases p.len(),
{
    let d = first_dot(p);
    if d < 0 || d >= p.len() {
        lemma_key_index_found(es, p, 0);
        lemma_key_index_update(es, p, 0, v);
    } else {
        let k = p.take(d);
        let i = key_index(es, k);
        lemma_key_index_found(es, k, 0);
        let inner = es[i].1->Compound_0;
        lemma_path_set_lookup(inner, p.skip(d + 1), v);
        lemma_key_index_update(es, k, 0, NbtModel::Compound(path_set(inner, p.skip(d + 1), v)));
    }
}

/// The index of the first `.` in `p`, or `-1`.
pub open spec fn first_dot(p: Seq<char>) -> int {
    dot_from(p, 0)
}

/// The value a dotted path names: the first name is looked up in `es`, each
/// further name in the compound the previous one named.
pub open spec fn path_lookup(es: Seq<(Seq<char>, NbtModel)>, p: Seq<char>) -> Option<NbtModel>
    decreases p.len(),
{
    let d = first_dot(p);
    if d < 0 || d >= p.len() {
        lookup(es, p)
    } else {
        match lookup(es, p.take(d)) {
            Some(NbtModel::Compound(inner)) => path_lookup(inner, p.skip(d + 1)),
            _ => None,
        }
    }
}

/// `es` with the value a dotted path names replaced by `new` (unchanged when
/// the path names nothing).
pub open spec fn path_set(es: Seq<(Seq<char>, NbtModel)>, p: Seq<char>, new: NbtModel) -> Seq<
    (Seq<char>, NbtModel),
>
    decreases p.len(),
{
    let d = first_dot(p);
    if d < 0 || d >= p.len() {
        let i = key_index(es, p);
        if i < 0 {
            es
        } else {
            es.update(i, (p, new))
        }
    } else {
        let k = p.take(d);
        let i = key_index(es, k);
        if i < 0 {
            es
        } else {
            match es[i].1 {
                NbtModel::Compound(inner) => es.update(
                    i,
                    (k, NbtModel::Compound(path_set(inner, p.skip(d + 1), new))),
                ),
                _ => es,
            }
        }
    }
}

} // verus!
