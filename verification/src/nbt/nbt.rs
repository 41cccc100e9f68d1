//! NBT values, compounds and documents, and their reading and writing.
use vstd::prelude::*;

use crate::nbt::wire;
use crate::nbt::wire::{bytes_of_i32s, bytes_of_i64s, bytes_of_i8s, compound_payload, insert_all,
    insert_entry, key_index, key_index_from, len_bytes, list_payloads, list_tag, lookup, payload,
    string_bytes, tag_of, NbtFailure, NbtModel};
use vstd::utf8::encode_utf8;
use vstd::string::StrSliceExecFns;
use crate::nbt::wire::{dot_from, first_dot, keys_distinct, path_lookup, path_set};
use crate::nbt::NbtError;
use crate::utils::bytes::{read_byte, read_bytes, str_from_utf8, write_all};
use crate::utils::fixed::{write_be16, write_be32, write_be64};
use crate::utils::fixed::{be16, be32, be64, from_be16, from_be32, from_be64, read_be16, read_be32,
    read_be64};
use vstd::utf8::{decode_utf8, valid_utf8};

verus! {

/// An NBT value. `Float` and `Double` hold the IEEE-754 bits of the number.
#[derive(Debug, PartialEq)]
pub enum NbtValue {
    Byte(i8),
    Short(i16),
    Int(i32),
    Long(i64),
    Float(u32),
    Double(u64),
    ByteArray(Vec<i8>),
    String(String),
    List(Vec<NbtValue>),
    Compound(NbtCompound),
    IntArray(Vec<i32>),
    LongArray(Vec<i64>),
}

/// A compound: named values in the order they were first inserted. Each name
/// is to occur once (`keys_distinct`): `insert` and reading from bytes keep it
/// so.
#[derive(Debug, PartialEq)]
pub struct NbtCompound {
    pub entries: Vec<(String, NbtValue)>,
}

/// The mathematical value of an NBT value.
pub open spec fn value_model(v: NbtValue) -> NbtModel
    decreases v, 0nat,
{
    match v {
        NbtValue::Byte(x) => NbtModel::Byte(x),
        NbtValue::Short(x) => NbtModel::Short(x),
        NbtValue::Int(x) => NbtModel::Int(x),
        NbtValue::Long(x) => NbtModel::Long(x),
        NbtValue::Float(x) => NbtModel::Float(x),
        NbtValue::Double(x) => NbtModel::Double(x),
        NbtValue::ByteArray(a) => NbtModel::ByteArray(a@),
        NbtValue::String(s) => NbtModel::String(s@),
        NbtValue::List(items) => {
            proof {
                assert(decreases_to!(v => items@));
            }
            NbtModel::List(list_model(items@, 0))
        },
        NbtValue::Compound(c) => {
            proof {
                assert(decreases_to!(v => c.entries@));
            }
            NbtModel::Compound(entries_model(c.entries@, 0))
        },
        NbtValue::IntArray(a) => NbtModel::IntArray(a@),
        NbtValue::LongArray(a) => NbtModel::LongArray(a@),
    }
}

/// The models of the values of `items` from index `i` on.
pub open spec fn list_model(items: Seq<NbtValue>, i: nat) -> Seq<NbtModel>
    decreases items, items.len() - i,
{
    if i < items.len() {
        seq![value_model(items[i as int])] + list_model(items, i + 1)
    } else {
        Seq::empty()
    }
}

/// The models of the entries of `es` from index `i` on.
pub open spec fn entries_model(es: Seq<(String, NbtValue)>, i: nat) -> Seq<(Seq<char>, NbtModel)>
    decreases es, es.len() - i,
{
    if i < es.len() {
        proof {
            assert(decreases_to!(es => es[i as int].1));
        }
        seq![(es[i as int].0@, value_model(es[i as int].1))] + entries_model(es, i + 1)
    } else {
        Seq::empty()
    }
}

/// The entries of `es` as models, by index.
pub proof fn lemma_entries_model(es: Seq<(String, NbtValue)>, i: nat)
    requires
        i <= es.len(),
    ensures
        entries_model(es, i) =~= Seq::new(
            (es.len() - i) as nat,
            |j: int| (es[i + j].0@, value_model(es[i + j].1)),
        ),
    decreases es.len() - i,
{
    if i < es.len() {
        lemma_entries_model(es, i + 1);
    }
}

/// Replacing one entry replaces its model.
pub proof fn lemma_entries_model_update(es: Seq<(String, NbtValue)>, i: int)
    requires
        0 <= i < es.len(),
    ensures
        forall|e: (String, NbtValue)|
            #[trigger] entries_model(es.update(i, e), 0) == entries_model(es, 0).update(
                i,
                (e.0@, value_model(e.1)),
            ),
{
    assert forall|e: (String, NbtValue)|
        #[trigger] entries_model(es.update(i, e), 0) == entries_model(es, 0).update(
            i,
            (e.0@, value_model(e.1)),
        ) by {
        lemma_entries_model(es.update(i, e), 0);
        lemma_entries_model(es, 0);
        assert(entries_model(es.update(i, e), 0) =~= entries_model(es, 0).update(
            i,
            (e.0@, value_model(e.1)),
        ));
    }
}

/// The items of `items` as models, by index.
pub proof fn lemma_list_model(items: Seq<NbtValue>, i: nat)
    requires
        i <= items.len(),
    ensures
        list_model(items, i) =~= Seq::new((items.len() - i) as nat, |j: int| value_model(items[i + j])),
    decreases items.len() - i,
{
    if i < items.len() {
        lemma_list_model(items, i + 1);
    }
}

/// How an error value stands for a failure of the format.
pub open spec fn fail_matches(e: NbtError, f: NbtFailure) -> bool {
    match f {
        NbtFailure::UnknownTag(t) => e == NbtError::UnknownTag(t),
        NbtFailure::InvalidRoot => e is InvalidRoot,
        NbtFailure::Io => e is Io,
        NbtFailure::Utf8 => e is Utf8,
    }
}

impl NbtCompound {
    /// The entries as models.
    pub open spec fn model(&self) -> Seq<(Seq<char>, NbtModel)> {
        entries_model(self.entries@, 0)
    }

    /// An empty compound.
    pub fn new() -> (c: NbtCompound)
        ensures
            c.model() == Seq::<(Seq<char>, NbtModel)>::empty(),
    {
        NbtCompound { entries: Vec::new() }
    }

    /// The number of entries.
    pub fn len(&self) -> (n: usize)
        ensures
            n == self.model().len(),
    {
        proof {
            lemma_entries_model(self.entries@, 0);
        }
        self.entries.len()
    }

    /// The index of the entry named `key`, as `key_index` gives it.
    fn find(&self, key: &String) -> (r: Option<usize>)
        ensures
            r matches Some(i) ==> key_index(self.model(), key@) == i && i < self.entries@.len()
                && self.entries@[i as int].0@ == key@,
            r is None ==> key_index(self.model(), key@) == -1,
    {
        proof {
            lemma_entries_model(self.entries@, 0);
        }
        let ghost m = self.model();
        let n = self.entries.len();
        let mut i: usize = 0;
        while i < n
            invariant
                n == self.entries@.len(),
                m == self.model(),
                m.len() == n,
                i <= n,
                forall|j: int| 0 <= j < i ==> m[j].0 != key@,
                forall|j: int| 0 <= j < n ==> #[trigger] m[j].0 == self.entries@[j].0@,
            decreases n - i,
        {
            if self.entries[i].0 == *key {
                proof {
                    lemma_key_index_first(m, key@, 0, i as int);
                }
                return Some(i);
            }
            i = i + 1;
        }
        proof {
            wire::lemma_key_index_absent(m, key@, 0);
        }
        None
    }

    /// The value of the entry named `key`.
    pub fn get(&self, key: &str) -> (r: Option<&NbtValue>)
        ensures
            r matches Some(v) ==> lookup(self.model(), key@) == Some(value_model(*v)),
            r is None ==> lookup(self.model(), key@) is None,
    {
        proof {
            lemma_entries_model(self.entries@, 0);
        }
        let k = key.to_owned();
        match self.find(&k) {
            Some(i) => Some(&self.entries[i].1),
            None => None,
        }
    }

    /// The value of the entry named `key`, to change in place.
    pub fn get_mut(&mut self, key: &str) -> (r: Option<&mut NbtValue>)
        ensures
            r matches Some(v) ==> (lookup(old(self).model(), key@) == Some(value_model(*v))
                && final(self).model() == old(self).model().update(
                key_index(old(self).model(), key@),
                (key@, value_model(*final(v))),
            )),
                r is None ==> lookup(old(self).model(), key@) is None
                && final(self).model() == old(self).model(),
    {
        proof {
            lemma_entries_model(self.entries@, 0);
        }
        let k = key.to_owned();
        match self.find(&k) {
            Some(i) => {
                proof {
                    lemma_entries_model_update(self.entries@, i as int);
                }
                let entry = &mut self.entries[i];
                Some(&mut entry.1)
            },
            None => None,
        }
    }

    /// Sets the entry named `key` to `value` where it stands, or adds it at the
    /// end; gives back the value it replaced.
    pub fn insert(&mut self, key: String, value: NbtValue) -> (r: Option<NbtValue>)
        ensures
            final(self).model() == insert_entry(old(self).model(), key@, value_model(value)),
            keys_distinct(old(self).model()) ==> keys_distinct(final(self).model()),
            r matches Some(v) ==> lookup(old(self).model(), key@) == Some(value_model(v)),
            r is None ==> lookup(old(self).model(), key@) is None,
    {
        proof {
            lemma_entries_model(self.entries@, 0);
        }
        let ghost vm = value_model(value);
        proof {
            if keys_distinct(old(self).model()) {
                wire::lemma_insert_keeps_distinct(old(self).model(), key@, vm);
            }
        }
        match self.find(&key) {
            Some(i) => {
                let (k, prev) = self.entries.remove(i);
                self.entries.insert(i, (k, value));
                proof {
                    assert(self.entries@ =~= old(self).entries@.update(i as int, (k, value)));
                    assert(k@ == key@);
                    lemma_entries_model(self.entries@, 0);
                    assert(self.model() =~= insert_entry(old(self).model(), key@, vm));
                }
                Some(prev)
            },
            None => {
                self.entries.push((key, value));
                proof {
                    lemma_entries_model(self.entries@, 0);
                    assert(self.model() =~= insert_entry(old(self).model(), key@, vm));
                }
                None
            },
        }
    }
}

/// `key_index_from` finds the first entry with the name.
pub proof fn lemma_key_index_first(es: Seq<(Seq<char>, NbtModel)>, k: Seq<char>, from: int, i: int)
    requires
        0 <= from <= i < es.len(),
        es[i].0 == k,
        forall|j: int| from <= j < i ==> es[j].0 != k,
    ensures
        key_index_from(es, k, from) == i,
    decreases i - from,
{
    if from < i {
        lemma_key_index_first(es, k, from + 1, i);
    }
}

/// The error of a read that ran past the end of its input, with the message
/// a short read of a byte slice gives.
fn eof_error() -> (e: NbtError)
    ensures
        e matches NbtError::Io(m) && m@ == "failed to fill whole buffer"@,
{
    NbtError::Io("failed to fill whole buffer".to_owned())
}

/// Reads one byte.
pub fn read_u8(r: &mut &[u8]) -> (res: Result<u8, NbtError>)
    ensures
        old(r)@.len() == 0 ==> (res matches Err(e) && e is Io),
        old(r)@.len() > 0 ==> (res matches Ok(b) && b == old(r)@[0] && final(r)@ == old(r)@.drop_first()),
{
    match read_byte(r) {
        Some(b) => Ok(b),
        None => Err(eof_error()),
    }
}

/// Reads one byte as a signed byte.
pub fn read_i8(r: &mut &[u8]) -> (res: Result<i8, NbtError>)
    ensures
        old(r)@.len() == 0 ==> (res matches Err(e) && e is Io),
        old(r)@.len() > 0 ==> (res matches Ok(b) && b == old(r)@[0] as i8
            && final(r)@ == old(r)@.drop_first()),
{
    match read_u8(r) {
        Ok(b) => Ok(b as i8),
        Err(e) => Err(e),
    }
}

/// Reads a big-endian 16-bit signed integer.
pub fn read_i16(r: &mut &[u8]) -> (res: Result<i16, NbtError>)
    ensures
        old(r)@.len() < 2 ==> (res matches Err(e) && e is Io),
        old(r)@.len() >= 2 ==> (res matches Ok(v) && v == from_be16(old(r)@.take(2)) as i16
            && final(r)@ == old(r)@.skip(2)),
{
    match read_be16(r) {
        Ok(v) => Ok(v as i16),
        Err(_) => Err(eof_error()),
    }
}

/// Reads a big-endian 32-bit signed integer.
pub fn read_i32(r: &mut &[u8]) -> (res: Result<i32, NbtError>)
    ensures
        old(r)@.len() < 4 ==> (res matches Err(e) && e is Io),
        old(r)@.len() >= 4 ==> (res matches Ok(v) && v == from_be32(old(r)@.take(4)) as i32
            && final(r)@ == old(r)@.skip(4)),
{
    match read_be32(r) {
        Ok(v) => Ok(v as i32),
        Err(_) => Err(eof_error()),
    }
}

/// Reads a big-endian 64-bit signed integer.
pub fn read_i64(r: &mut &[u8]) -> (res: Result<i64, NbtError>)
    ensures
        old(r)@.len() < 8 ==> (res matches Err(e) && e is Io),
        old(r)@.len() >= 8 ==> (res matches Ok(v) && v == from_be64(old(r)@.take(8)) as i64
            && final(r)@ == old(r)@.skip(8)),
{
    match read_be64(r) {
        Ok(v) => Ok(v as i64),
        Err(_) => Err(eof_error()),
    }
}

/// Reads a string: a big-endian 16-bit length and that many UTF-8 bytes.
pub fn read_string(r: &mut &[u8]) -> (res: Result<String, NbtError>)
    ensures
        match wire::read_string(old(r)@) {
            Ok((c, rest)) => res matches Ok(s) && s@ == c && final(r)@ == rest,
            Err(f) => res matches Err(e) && fail_matches(e, f),
        },
        wire::read_string(old(r)@) == Err::<(Seq<char>, Seq<u8>), NbtFailure>(NbtFailure::Utf8)
            ==> final(r)@ == old(r)@.skip(2 + wire::string_len(old(r)@)),
{
    let ghost s0 = old(r)@;
    let len = match read_i16(r) {
        Ok(v) => v,
        Err(e) => return Err(e),
    };
    if len < 0 {
        return Err(eof_error());
    }
    let bytes = match read_bytes(r, len as usize) {
        Some(b) => b,
        None => return Err(eof_error()),
    };
    match str_from_utf8(bytes) {
        Ok(st) => Ok(st.to_owned()),
        Err(msg) => Err(NbtError::Utf8(msg)),
    }
}

/// The bytes of `block` as signed bytes.
fn i8s_of_bytes(block: &[u8]) -> (v: Vec<i8>)
    ensures
        v@ == block@.map_values(|b: u8| b as i8),
{
    let n = block.len();
    let mut v: Vec<i8> = Vec::new();
    let mut i: usize = 0;
    while i < n
        invariant
            n == block@.len(),
            i <= n,
            v@ =~= block@.take(i as int).map_values(|b: u8| b as i8),
        decreases n - i,
    {
        v.push(block[i] as i8);
        i = i + 1;
        assert(v@ =~= block@.take(i as int).map_values(|b: u8| b as i8));
    }
    assert(block@.take(n as int) =~= block@);
    v
}

/// The big-endian 32-bit integers of `block`.
fn i32s_of_bytes(block: &[u8]) -> (v: Vec<i32>)
    requires
        block@.len() % 4 == 0,
    ensures
        v@ == wire::i32s_of(block@),
{
    let len = block.len();
    let mut v: Vec<i32> = Vec::new();
    let mut k: usize = 0;
    assert(block@.skip(0) =~= block@);
    while k < len
        invariant
            len == block@.len(),
            k <= len,
            (len - k) % 4 == 0,
            wire::i32s_of(block@) == v@ + wire::i32s_of(block@.skip(k as int)),
        decreases len - k,
    {
        let x = (((block[k] as u32) << 24u32) | ((block[k + 1] as u32) << 16u32) | ((block[k + 2]
            as u32) << 8u32) | (block[k + 3] as u32)) as u32;
        let ghost tail = block@.skip(k as int);
        assert(tail.take(4) =~= seq![block@[k as int], block@[k + 1], block@[k + 2], block@[k + 3]]);
        assert(tail.skip(4) =~= block@.skip(k + 4 as int));
        let ghost before = v@;
        v.push(x as i32);
        assert(v@ + wire::i32s_of(block@.skip(k + 4 as int)) =~= before + wire::i32s_of(tail));
        k = k + 4;
    }
    assert(block@.skip(k as int) =~= Seq::<u8>::empty());
    assert(v@ + Seq::<i32>::empty() =~= v@);
    v
}

/// The big-endian 64-bit integers of `block`.
fn i64s_of_bytes(block: &[u8]) -> (v: Vec<i64>)
    requires
        block@.len() % 8 == 0,
    ensures
        v@ == wire::i64s_of(block@),
{
    let len = block.len();
    let mut v: Vec<i64> = Vec::new();
    let mut k: usize = 0;
    assert(block@.skip(0) =~= block@);
    while k < len
        invariant
            len == block@.len(),
            k <= len,
            (len - k) % 8 == 0,
            wire::i64s_of(block@) == v@ + wire::i64s_of(block@.skip(k as int)),
        decreases len - k,
    {
        let hi = (((block[k] as u32) << 24u32) | ((block[k + 1] as u32) << 16u32) | ((block[k + 2]
            as u32) << 8u32) | (block[k + 3] as u32)) as u32;
        let lo = (((block[k + 4] as u32) << 24u32) | ((block[k + 5] as u32) << 16u32) | ((block[k
            + 6] as u32) << 8u32) | (block[k + 7] as u32)) as u32;
        let x = (((hi as u64) << 32u64) | (lo as u64)) as u64;
        let ghost tail = block@.skip(k as int);
        assert(tail.take(8).take(4) =~= seq![block@[k as int], block@[k + 1], block@[k + 2], block@[k + 3]]);
        assert(tail.take(8).skip(4) =~= seq![block@[k + 4], block@[k + 5], block@[k + 6], block@[k + 7]]);
        assert(tail.skip(8) =~= block@.skip(k + 8 as int));
        let ghost before = v@;
        v.push(x as i64);
        assert(v@ + wire::i64s_of(block@.skip(k + 8 as int)) =~= before + wire::i64s_of(tail));
        k = k + 8;
    }
    assert(block@.skip(k as int) =~= Seq::<u8>::empty());
    assert(v@ + Seq::<i64>::empty() =~= v@);
    v
}

/// Puts `ms` in front of the items of a successful list read.
pub open spec fn prepend_models(
    ms: Seq<NbtModel>,
    r: Result<(Seq<NbtModel>, Seq<u8>), NbtFailure>,
) -> Result<(Seq<NbtModel>, Seq<u8>), NbtFailure> {
    match r {
        Ok((vs, rest)) => Ok((ms + vs, rest)),
        Err(f) => Err(f),
    }
}

/// Inserts the entries of a successful compound read into `acc`.
pub open spec fn insert_read(
    acc: Seq<(Seq<char>, NbtModel)>,
    r: Result<(Seq<(Seq<char>, NbtModel)>, Seq<u8>), NbtFailure>,
) -> Result<(Seq<(Seq<char>, NbtModel)>, Seq<u8>), NbtFailure> {
    match r {
        Ok((raw, rest)) => Ok((insert_all(acc, raw), rest)),
        Err(f) => Err(f),
    }
}

/// Reads a value of the type `tag` names.
pub fn read_value(r: &mut &[u8], tag: u8) -> (res: Result<NbtValue, NbtError>)
    ensures
        match wire::read_value(old(r)@, tag) {
            Ok((m, rest)) => res matches Ok(v) && value_model(v) == m && final(r)@ == rest,
            Err(f) => res matches Err(e) && fail_matches(e, f),
        },
        res is Ok ==> final(r)@.len() < old(r)@.len(),
        (tag == 0 || tag > 12) ==> final(r)@ == old(r)@,
    decreases old(r)@.len(), 1nat,
{
    let ghost s = old(r)@;
    if tag == 1 {
        match read_i8(r) {
            Ok(x) => Ok(NbtValue::Byte(x)),
            Err(e) => Err(e),
        }
    } else if tag == 2 {
        match read_i16(r) {
            Ok(x) => Ok(NbtValue::Short(x)),
            Err(e) => Err(e),
        }
    } else if tag == 3 {
        match read_i32(r) {
            Ok(x) => Ok(NbtValue::Int(x)),
            Err(e) => Err(e),
        }
    } else if tag == 4 {
        match read_i64(r) {
            Ok(x) => Ok(NbtValue::Long(x)),
            Err(e) => Err(e),
        }
    } else if tag == 5 {
        match read_i32(r) {
            Ok(x) => {
                proof {
                    let b = from_be32(s.take(4));
                    assert((b as i32) as u32 == b) by (bit_vector);
                }
                Ok(NbtValue::Float(x as u32))
            },
            Err(e) => Err(e),
        }
    } else if tag == 6 {
        match read_i64(r) {
            Ok(x) => {
                proof {
                    let b = from_be64(s.take(8));
                    assert((b as i64) as u64 == b) by (bit_vector);
                }
                Ok(NbtValue::Double(x as u64))
            },
            Err(e) => Err(e),
        }
    } else if tag == 7 {
        let len = match read_i32(r) {
            Ok(v) => v,
            Err(e) => return Err(e),
        };
        if len < 0 {
            return Err(eof_error());
        }
        match read_bytes(r, len as usize) {
            Some(block) => Ok(NbtValue::ByteArray(i8s_of_bytes(block))),
            None => Err(eof_error()),
        }
    } else if tag == 8 {
        match read_string(r) {
            Ok(st) => Ok(NbtValue::String(st)),
            Err(e) => Err(e),
        }
    } else if tag == 9 {
        let inner = match read_u8(r) {
            Ok(t) => t,
            Err(e) => return Err(e),
        };
        let len = match read_i32(r) {
            Ok(v) => v,
            Err(e) => return Err(e),
        };
        if len < 0 {
            return Err(eof_error());
        }
        let n = len as usize;
        let ghost s5 = r@;
        let mut items: Vec<NbtValue> = Vec::new();
        let mut failed: Option<NbtError> = None;
        let mut i: usize = 0;
        proof {
            lemma_list_model(items@, 0);
        }
        while i < n
            invariant_except_break
                i <= n,
                n == len,
                failed is None,
                s == old(r)@,
                r@.len() < s.len(),
                wire::list_items(s5, inner, n as nat) == prepend_models(
                    list_model(items@, 0),
                    wire::list_items(r@, inner, (n - i) as nat),
                ),
            ensures
                s == old(r)@,
                failed matches Some(e) ==> (wire::list_items(s5, inner, n as nat) matches Err(f)
                    && fail_matches(e, f)),
                failed is None ==> wire::list_items(s5, inner, n as nat) == Ok::<
                    (Seq<NbtModel>, Seq<u8>),
                    NbtFailure,
                >((list_model(items@, 0), r@)) && r@.len() < s.len(),
            decreases n - i,
        {
            let ghost ms = list_model(items@, 0);
            let ghost cur = r@;
            match read_value(r, inner) {
                Err(e) => {
                    failed = Some(e);
                    break;
                },
                Ok(x) => {
                    let ghost xm = value_model(x);
                    let ghost before = items@;
                    items.push(x);
                    proof {
                        lemma_list_model(before, 0);
                        lemma_list_model(items@, 0);
                        assert(list_model(items@, 0) =~= ms + seq![xm]);
                        match wire::list_items(r@, inner, (n - i - 1) as nat) {
                            Ok((vs, r2)) => {
                                assert(ms + (seq![xm] + vs) =~= (ms + seq![xm]) + vs);
                            },
                            Err(_) => {},
                        }
                    }
                },
            }
            i = i + 1;
            if i == n {
                assert(list_model(items@, 0) + Seq::<NbtModel>::empty() =~= list_model(items@, 0));
            }
        }
        match failed {
            Some(e) => Err(e),
            None => Ok(NbtValue::List(items)),
        }
    } else if tag == 10 {
        match read_compound(r) {
            Ok(c) => Ok(NbtValue::Compound(c)),
            Err(e) => Err(e),
        }
    } else if tag == 11 {
        let len = match read_i32(r) {
            Ok(v) => v,
            Err(e) => return Err(e),
        };
        if len < 0 {
            return Err(eof_error());
        }
        let n = len as usize;
        if (n as u64) * 4 > (r.len() as u64) {
            return Err(eof_error());
        }
        match read_bytes(r, 4 * n) {
            Some(block) => Ok(NbtValue::IntArray(i32s_of_bytes(block))),
            None => Err(eof_error()),
        }
    } else if tag == 12 {
        let len = match read_i32(r) {
            Ok(v) => v,
            Err(e) => return Err(e),
        };
        if len < 0 {
            return Err(eof_error());
        }
        let n = len as usize;
        if (n as u64) * 8 > (r.len() as u64) {
            return Err(eof_error());
        }
        match read_bytes(r, 8 * n) {
            Some(block) => Ok(NbtValue::LongArray(i64s_of_bytes(block))),
            None => Err(eof_error()),
        }
    } else {
        Err(NbtError::UnknownTag(tag))
    }
}

/// Reads compound entries up to and including the end tag. A name that comes
/// again replaces the earlier value.
pub fn read_compound(r: &mut &[u8]) -> (res: Result<NbtCompound, NbtError>)
    ensures
        match wire::compound_raw(old(r)@) {
            Ok((raw, rest)) => res matches Ok(c) && c.model() == insert_all(Seq::empty(), raw)
                && final(r)@ == rest,
            Err(f) => res matches Err(e) && fail_matches(e, f),
        },
        res is Ok ==> final(r)@.len() < old(r)@.len(),
        res matches Ok(c) ==> keys_distinct(c.model()),
    decreases old(r)@.len(), 0nat,
{
    proof {
        match wire::compound_raw(old(r)@) {
            Ok((raw, _)) => wire::lemma_insert_all_keeps_distinct(Seq::empty(), raw),
            Err(_) => {},
        }
    }
    let ghost s = old(r)@;
    let mut map = NbtCompound::new();
    let mut failed: Option<NbtError> = None;
    loop
        invariant_except_break
            failed is None,
            s == old(r)@,
            r@.len() <= s.len(),
            insert_read(Seq::empty(), wire::compound_raw(s)) == insert_read(
                map.model(),
                wire::compound_raw(r@),
            ),
        ensures
            s == old(r)@,
            failed matches Some(e) ==> (wire::compound_raw(s) matches Err(f) && fail_matches(e, f)),
            failed is None ==> (insert_read(Seq::empty(), wire::compound_raw(s)) == Ok::<
                (Seq<(Seq<char>, NbtModel)>, Seq<u8>),
                NbtFailure,
            >((map.model(), r@)) && r@.len() < s.len()),
        decreases r@.len(),
    {
        let ghost cur = r@;
        let tag = match read_u8(r) {
            Ok(t) => t,
            Err(e) => {
                failed = Some(e);
                break;
            },
        };
        if tag == 0 {
            break;
        }
        let name = match read_string(r) {
            Ok(n) => n,
            Err(e) => {
                failed = Some(e);
                break;
            },
        };
        let value = match read_value(r, tag) {
            Ok(v) => v,
            Err(e) => {
                failed = Some(e);
                break;
            },
        };
        let ghost before = map.model();
        let ghost nm = name@;
        let ghost vm = value_model(value);
        map.insert(name, value);
        proof {
            match wire::compound_raw(r@) {
                Ok((es, r3)) => {
                    let raw = seq![(nm, vm)] + es;
                    assert(raw.drop_first() =~= es);
                    assert(insert_all(before, raw) == insert_all(insert_entry(before, nm, vm), es));
                },
                Err(_) => {},
            }
        }
    }
    match failed {
        Some(e) => Err(e),
        None => Ok(map),
    }
}

/// Appends one byte.
pub fn write_u8(w: &mut Vec<u8>, v: u8) -> (r: Result<(), NbtError>)
    ensures
        r is Ok,
        final(w)@ == old(w)@.push(v),
{
    w.push(v);
    Ok(())
}

/// Appends a signed byte.
pub fn write_i8(w: &mut Vec<u8>, v: i8) -> (r: Result<(), NbtError>)
    ensures
        r is Ok,
        final(w)@ == old(w)@.push(v as u8),
{
    w.push(v as u8);
    Ok(())
}

/// Appends a big-endian 16-bit signed integer.
pub fn write_i16(w: &mut Vec<u8>, v: i16) -> (r: Result<(), NbtError>)
    ensures
        r is Ok,
        final(w)@ == old(w)@ + be16(v as u16),
{
    write_be16(w, v as u16);
    Ok(())
}

/// Appends a big-endian 32-bit signed integer.
pub fn write_i32(w: &mut Vec<u8>, v: i32) -> (r: Result<(), NbtError>)
    ensures
        r is Ok,
        final(w)@ == old(w)@ + be32(v as u32),
{
    write_be32(w, v as u32);
    Ok(())
}

/// Appends a big-endian 64-bit signed integer.
pub fn write_i64(w: &mut Vec<u8>, v: i64) -> (r: Result<(), NbtError>)
    ensures
        r is Ok,
        final(w)@ == old(w)@ + be64(v as u64),
{
    write_be64(w, v as u64);
    Ok(())
}

/// Appends a string: the big-endian 16-bit length of its UTF-8 bytes, then
/// the bytes. (A string over 32767 bytes gets a wrapped length.)
pub fn write_string(w: &mut Vec<u8>, s: &str) -> (r: Result<(), NbtError>)
    ensures
        r is Ok,
        final(w)@ == old(w)@ + string_bytes(s@),
{
    let bytes = s.as_bytes();
    let _ = write_i16(w, bytes.len() as i16);
    write_all(w, bytes);
    assert(w@ =~= old(w)@ + string_bytes(s@));
    Ok(())
}

/// Appends the payload of `v` and gives its tag.
pub fn write_value(w: &mut Vec<u8>, v: &NbtValue) -> (r: Result<u8, NbtError>)
    ensures
        r == Ok::<u8, NbtError>(tag_of(value_model(*v))),
        final(w)@ == old(w)@ + payload(value_model(*v)),
    decreases *v, 0nat,
{
    match v {
        NbtValue::Byte(x) => {
            let _ = write_i8(w, *x);
            assert(w@ =~= old(w)@ + payload(value_model(*v)));
            Ok(1)
        },
        NbtValue::Short(x) => {
            let _ = write_i16(w, *x);
            Ok(2)
        },
        NbtValue::Int(x) => {
            let _ = write_i32(w, *x);
            Ok(3)
        },
        NbtValue::Long(x) => {
            let _ = write_i64(w, *x);
            Ok(4)
        },
        NbtValue::Float(x) => {
            write_be32(w, *x);
            Ok(5)
        },
        NbtValue::Double(x) => {
            write_be64(w, *x);
            Ok(6)
        },
        NbtValue::ByteArray(arr) => {
            let _ = write_i32(w, arr.len() as i32);
            let ghost start = w@;
            let n = arr.len();
            let mut i: usize = 0;
            while i < n
                invariant
                    n == arr@.len(),
                    i <= n,
                    w@ =~= start + bytes_of_i8s(arr@.take(i as int)),
                decreases n - i,
            {
                let _ = write_i8(w, arr[i]);
                i = i + 1;
                assert(bytes_of_i8s(arr@.take(i as int)) =~= bytes_of_i8s(arr@.take(i - 1 as int)).push(
                    arr@[i - 1] as u8,
                ));
            }
            assert(arr@.take(n as int) =~= arr@);
            assert(w@ =~= old(w)@ + payload(value_model(*v)));
            Ok(7)
        },
        NbtValue::String(st) => {
            let _ = write_string(w, st.as_str());
            Ok(8)
        },
        NbtValue::List(list) => {
            let ghost ms = list_model(list@, 0);
            proof {
                lemma_list_model(list@, 0);
            }
            let tag = if list.len() > 0 {
                let mut scratch: Vec<u8> = Vec::new();
                match write_value(&mut scratch, &list[0]) {
                    Ok(t) => t,
                    Err(e) => return Err(e),
                }
            } else {
                1
            };
            assert(tag == list_tag(ms));
            let _ = write_u8(w, tag);
            let _ = write_i32(w, list.len() as i32);
            let ghost target = old(w)@ + payload(value_model(*v));
            assert(w@ + list_payloads(ms, 0) =~= target);
            let n = list.len();
            let mut i: usize = 0;
            while i < n
                invariant
                    n == list@.len(),
                    *v == NbtValue::List(*list),
                    ms == list_model(list@, 0),
                    ms.len() == n,
                    forall|j: int| 0 <= j < n ==> #[trigger] ms[j] == value_model(list@[j]),
                    i <= n,
                    w@ + list_payloads(ms, i as nat) == target,
                decreases n - i,
            {
                let ghost before = w@;
                proof {
                    assert(decreases_to!(*v => (*v)->List_0));
                    assert(decreases_to!((*v)->List_0 => (*v)->List_0@));
                    assert(decreases_to!((*v)->List_0@ => (*v)->List_0@[i as int]));
                    assert(decreases_to!(*v => list@[i as int]));
                }
                let _ = write_value(w, &list[i]);
                assert(before + list_payloads(ms, i as nat) =~= w@ + list_payloads(ms, (i + 1) as nat));
                i = i + 1;
            }
            assert(w@ + Seq::<u8>::empty() =~= w@);
            Ok(9)
        },
        NbtValue::Compound(map) => {
            let _ = write_compound(w, map);
            Ok(10)
        },
        NbtValue::IntArray(arr) => {
            let _ = write_i32(w, arr.len() as i32);
            let ghost target = old(w)@ + payload(value_model(*v));
            let n = arr.len();
            let mut i: usize = 0;
            assert(arr@.skip(0) =~= arr@);
            while i < n
                invariant
                    n == arr@.len(),
                    i <= n,
                    w@ + bytes_of_i32s(arr@.skip(i as int)) == target,
                decreases n - i,
            {
                let ghost before = w@;
                let _ = write_i32(w, arr[i]);
                assert(arr@.skip(i as int).drop_first() =~= arr@.skip(i + 1 as int));
                assert(before + bytes_of_i32s(arr@.skip(i as int)) =~= w@ + bytes_of_i32s(
                    arr@.skip(i + 1 as int),
                ));
                i = i + 1;
            }
            assert(arr@.skip(n as int) =~= Seq::<i32>::empty());
            assert(w@ + Seq::<u8>::empty() =~= w@);
            Ok(11)
        },
        NbtValue::LongArray(arr) => {
            let _ = write_i32(w, arr.len() as i32);
            let ghost target = old(w)@ + payload(value_model(*v));
            let n = arr.len();
            let mut i: usize = 0;
            assert(arr@.skip(0) =~= arr@);
            while i < n
                invariant
                    n == arr@.len(),
                    i <= n,
                    w@ + bytes_of_i64s(arr@.skip(i as int)) == target,
                decreases n - i,
            {
                let ghost before = w@;
                let _ = write_i64(w, arr[i]);
                assert(arr@.skip(i as int).drop_first() =~= arr@.skip(i + 1 as int));
                assert(before + bytes_of_i64s(arr@.skip(i as int)) =~= w@ + bytes_of_i64s(
                    arr@.skip(i + 1 as int),
                ));
                i = i + 1;
            }
            assert(arr@.skip(n as int) =~= Seq::<i64>::empty());
            assert(w@ + Seq::<u8>::empty() =~= w@);
            Ok(12)
        },
    }
}

/// Appends the entries of `map`, each as its value's tag, its name and its
/// value, then the end tag.
pub fn write_compound(w: &mut Vec<u8>, map: &NbtCompound) -> (r: Result<(), NbtError>)
    ensures
        r is Ok,
        final(w)@ == old(w)@ + compound_payload(map.model(), 0),
    decreases *map, 1nat,
{
    let ghost es = map.model();
    proof {
        lemma_entries_model(map.entries@, 0);
    }
    let ghost target = old(w)@ + compound_payload(es, 0);
    let n = map.entries.len();
    let mut i: usize = 0;
    while i < n
        invariant
            n == map.entries@.len(),
            es == map.model(),
            es.len() == n,
            forall|j: int|
                0 <= j < n ==> #[trigger] es[j] == (map.entries@[j].0@, value_model(map.entries@[j].1)),
            i <= n,
            w@ + compound_payload(es, i as nat) == target,
        decreases n - i,
    {
        let ghost before = w@;
        let entry = &map.entries[i];
        proof {
            assert(decreases_to!(*map => map.entries@[i as int].1));
        }
        let mut tmp: Vec<u8> = Vec::new();
        let tag = match write_value(&mut tmp, &entry.1) {
            Ok(t) => t,
            Err(e) => return Err(e),
        };
        let _ = write_u8(w, tag);
        let _ = write_string(w, entry.0.as_str());
        write_all(w, tmp.as_slice());
        assert(before + compound_payload(es, i as nat) =~= w@ + compound_payload(es, (i + 1) as nat));
        i = i + 1;
    }
    let _ = write_u8(w, 0);
    assert(w@ =~= target);
    Ok(())
}

/// An NBT document: its root compound. The root's name is not kept.
pub struct Nbt {
    pub root: NbtCompound,
}

impl Nbt {
    /// The entries of the root compound as models.
    pub open spec fn model(&self) -> Seq<(Seq<char>, NbtModel)> {
        self.root.model()
    }

    /// Reads a document: the compound tag, the root's name, the root's
    /// entries. Bytes after the root compound are not read.
    pub fn from_bytes(bytes: &[u8]) -> (r: Result<Nbt, NbtError>)
        ensures
            match wire::document_decode(bytes@) {
                Ok(es) => r matches Ok(nbt) && nbt.model() == es,
                Err(f) => r matches Err(e) && fail_matches(e, f),
            },
            r matches Ok(nbt) ==> keys_distinct(nbt.model()),
    {
        proof {
            wire::lemma_document_decode_distinct(bytes@);
        }
        let mut cursor: &[u8] = bytes;
        let tag_id = match read_u8(&mut cursor) {
            Ok(t) => t,
            Err(e) => return Err(e),
        };
        if tag_id != 10 {
            return Err(NbtError::InvalidRoot);
        }
        let _name = match read_string(&mut cursor) {
            Ok(n) => n,
            Err(e) => return Err(e),
        };
        match read_compound(&mut cursor) {
            Ok(root) => Ok(Nbt { root }),
            Err(e) => Err(e),
        }
    }

    /// Writes the document with an empty root name.
    pub fn to_bytes(&self) -> (r: Result<Vec<u8>, NbtError>)
        ensures
            r matches Ok(b) && b@ == wire::document_bytes(self.model()),
    {
        let mut buf: Vec<u8> = Vec::new();
        let _ = write_u8(&mut buf, 10);
        let _ = write_string(&mut buf, "");
        let _ = write_compound(&mut buf, &self.root);
        proof {
            reveal_strlit("");
        }
        assert(buf@ =~= wire::document_bytes(self.model()));
        Ok(buf)
    }
}

impl Nbt {
    /// The value a dotted path (`"Data.Player.Pos"`) names: the first name in
    /// the root, each further one in the compound the previous one named.
    pub fn try_get(&self, path: &str) -> (r: Option<&NbtValue>)
        ensures
            r matches Some(v) ==> path_lookup(self.model(), path@) == Some(value_model(*v)),
            r is None ==> path_lookup(self.model(), path@) is None,
    {
        lookup_path(&self.root, path)
    }

    /// The value a dotted path names, to change in place; the document then
    /// holds whatever the value was changed to.
    pub fn try_get_mut(&mut self, path: &str) -> (r: Option<&mut NbtValue>)
        ensures
            r matches Some(v) ==> (path_lookup(old(self).model(), path@) == Some(value_model(*v))
                && final(self).model() == path_set(old(self).model(), path@, value_model(*final(v)))),
            r is None ==> path_lookup(old(self).model(), path@) is None
                && final(self).model() == old(self).model(),
    {
        lookup_path_mut(&mut self.root, path)
    }
}

/// Reading back what `to_bytes` wrote gives the document it was written from,
/// when its root compound is valid: names that fit the 16-bit length and
/// occur once in each compound, lists of one tag, lengths that fit.
pub proof fn lemma_nbt_roundtrip(es: Seq<(Seq<char>, NbtModel)>)
    requires
        wire::valid(NbtModel::Compound(es)),
    ensures
        wire::document_decode(wire::document_bytes(es)) == Ok::<
            Seq<(Seq<char>, NbtModel)>,
            NbtFailure,
        >(es),
{
    wire::lemma_document_roundtrip(es);
}

/// The index of the first `.` in `p`.
fn find_dot(p: &str) -> (r: Option<usize>)
    ensures
        r matches Some(d) ==> d == first_dot(p@) && d < p@.len(),
        r is None ==> first_dot(p@) == -1,
{
    let n = p.unicode_len();
    let mut i: usize = 0;
    while i < n
        invariant
            n == p@.len(),
            i <= n,
            dot_from(p@, 0) == dot_from(p@, i as int),
        decreases n - i,
    {
        if p.get_char(i) == '.' {
            return Some(i);
        }
        i = i + 1;
    }
    None
}

/// The value a dotted path names under `c`.
pub fn lookup_path<'a>(c: &'a NbtCompound, path: &str) -> (r: Option<&'a NbtValue>)
    ensures
        r matches Some(v) ==> path_lookup(c.model(), path@) == Some(value_model(*v)),
        r is None ==> path_lookup(c.model(), path@) is None,
    decreases path@.len(),
{
    match find_dot(path) {
        None => c.get(path),
        Some(d) => {
            let n = path.unicode_len();
            let seg = path.substring_char(0, d);
            let rest = path.substring_char(d + 1, n);
            assert(seg@ =~= path@.take(d as int));
            assert(rest@ =~= path@.skip(d + 1 as int));
            match c.get(seg) {
                Some(NbtValue::Compound(inner)) => lookup_path(inner, rest),
                _ => None,
            }
        },
    }
}

/// The value a dotted path names under `c`, to change in place.
pub fn lookup_path_mut<'a>(c: &'a mut NbtCompound, path: &str) -> (r: Option<&'a mut NbtValue>)
    ensures
        r matches Some(v) ==> (path_lookup(old(c).model(), path@) == Some(value_model(*v))
            && final(c).model() == path_set(old(c).model(), path@, value_model(*final(v)))),
        r is None ==> path_lookup(old(c).model(), path@) is None
            && final(c).model() == old(c).model(),
    decreases path@.len(),
{
    match find_dot(path) {
        None => c.get_mut(path),
        Some(d) => {
            let n = path.unicode_len();
            let seg = path.substring_char(0, d);
            let rest = path.substring_char(d + 1, n);
            assert(seg@ =~= path@.take(d as int));
            assert(rest@ =~= path@.skip(d + 1 as int));
            let names_compound = match c.get(seg) {
                Some(NbtValue::Compound(_)) => true,
                _ => false,
            };
            if !names_compound {
                return None;
            }
            proof {
                wire::lemma_key_index_found(c.model(), seg@, 0);
            }
            match c.get_mut(seg) {
                Some(v) => match v {
                    NbtValue::Compound(inner) => lookup_path_mut(inner, rest),
                    _ => None,
                },
                None => None,
            }
        },
    }
}

} // verus!
