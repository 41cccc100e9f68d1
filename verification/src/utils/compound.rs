//! Length-prefixed and optional fields: strings, UUIDs, arrays and the
//! boolean-prefixed optionals.
use vstd::prelude::*;
use vstd::utf8::{decode_utf8, encode_utf8, encode_utf8_decode_utf8, encode_utf8_valid_utf8, valid_utf8};

use crate::utils::bytes::{read_bytes, str_from_utf8, write_all};
use crate::utils::varint::varint_bytes;
use crate::utils::{CodecError, PacketCodec, Uuid};

verus! {

/// What reading a VarInt length and then that many bytes gives: the bytes and
/// what is left. A negative length, or one past the end, is `Io`: no reader
/// can supply that many bytes.
pub open spec fn decode_len_prefixed(s: Seq<u8>) -> Result<(Seq<u8>, Seq<u8>), CodecError> {
    match <i32 as PacketCodec>::spec_decode(s) {
        Err(e) => Err(e),
        Ok((len, rest)) => if len < 0 || len > rest.len() {
            Err(CodecError::Io)
        } else {
            Ok((rest.take(len as int), rest.skip(len as int)))
        },
    }
}

/// A string: the VarInt length of its UTF-8 bytes, then the bytes.
impl PacketCodec for String {
    type Model = Seq<char>;

    open spec fn model(&self) -> Seq<char> {
        self@
    }

    open spec fn spec_encode(m: Seq<char>) -> Seq<u8> {
        varint_bytes(encode_utf8(m).len() as i32) + encode_utf8(m)
    }

    open spec fn spec_decode(s: Seq<u8>) -> Result<(Seq<char>, Seq<u8>), CodecError> {
        match decode_len_prefixed(s) {
            Err(e) => Err(e),
            Ok((b, rest)) => if valid_utf8(b) {
                Ok((decode_utf8(b), rest))
            } else {
                Err(CodecError::DecodeError)
            },
        }
    }

    /// After the length was read: everything, when the length is negative or
    /// runs past the end; the rest after the bytes, when they are not UTF-8.
    open spec fn spec_decode_left(s: Seq<u8>) -> Seq<u8> {
        match <i32 as PacketCodec>::spec_decode(s) {
            Err(_) => <i32 as PacketCodec>::spec_decode_left(s),
            Ok((len, rest)) => if len < 0 || len > rest.len() {
                rest
            } else {
                rest.skip(len as int)
            },
        }
    }

    /// Strings whose length fits the VarInt prefix.
    open spec fn spec_valid(m: Seq<char>) -> bool {
        encode_utf8(m).len() <= i32::MAX
    }

    fn encode(&self, buf: &mut Vec<u8>) -> (r: Result<(), CodecError>) {
        let bytes = self.as_str().as_bytes();
        let _ = (bytes.len() as i32).encode(buf);
        write_all(buf, bytes);
        assert(buf@ =~= old(buf)@ + Self::spec_encode(self@));
        Ok(())
    }

    fn decode(buf: &mut &[u8]) -> (r: Result<String, CodecError>) {
        let len = match <i32 as PacketCodec>::decode(buf) {
            Ok(len) => len,
            Err(e) => return Err(e),
        };
        if len < 0 {
            return Err(CodecError::Io);
        }
        let bytes = match read_bytes(buf, len as usize) {
            Some(b) => b,
            None => return Err(CodecError::Io),
        };
        match str_from_utf8(bytes) {
            Ok(s) => Ok(s.to_owned()),
            Err(_) => Err(CodecError::DecodeError),
        }
    }

    proof fn lemma_roundtrip(m: Seq<char>, rest: Seq<u8>) {
        let b = encode_utf8(m);
        let len = b.len() as i32;
        <i32 as PacketCodec>::lemma_roundtrip(len, b + rest);
        assert(varint_bytes(len) + b + rest =~= varint_bytes(len) + (b + rest));
        assert((b + rest).take(len as int) =~= b);
        assert((b + rest).skip(len as int) =~= rest);
        encode_utf8_valid_utf8(m);
        encode_utf8_decode_utf8(m);
    }
}

/// A UUID: its sixteen bytes as they are.
impl PacketCodec for Uuid {
    type Model = Seq<u8>;

    open spec fn model(&self) -> Seq<u8> {
        self.bytes@
    }

    open spec fn spec_encode(m: Seq<u8>) -> Seq<u8> {
        m
    }

    open spec fn spec_decode(s: Seq<u8>) -> Result<(Seq<u8>, Seq<u8>), CodecError> {
        if s.len() < 16 {
            Err(CodecError::Io)
        } else {
            Ok((s.take(16), s.skip(16)))
        }
    }

    open spec fn spec_decode_left(s: Seq<u8>) -> Seq<u8> {
        s
    }

    open spec fn spec_valid(m: Seq<u8>) -> bool {
        m.len() == 16
    }

    fn encode(&self, buf: &mut Vec<u8>) -> (r: Result<(), CodecError>) {
        write_all(buf, self.bytes.as_slice());
        Ok(())
    }

    fn decode(buf: &mut &[u8]) -> (r: Result<Uuid, CodecError>) {
        let h = match read_bytes(buf, 16) {
            Some(h) => h,
            None => return Err(CodecError::Io),
        };
        let mut bytes = [0u8; 16];
        let mut i: usize = 0;
        while i < 16
            invariant
                h@.len() == 16,
                bytes@.len() == 16,
                i <= 16,
                forall|j: int| 0 <= j < i ==> bytes@[j] == h@[j],
            decreases 16 - i,
        {
            bytes[i] = h[i];
            i = i + 1;
        }
        assert(bytes@ =~= h@);
        Ok(Uuid { bytes })
    }

    proof fn lemma_roundtrip(m: Seq<u8>, rest: Seq<u8>) {
        assert((m + rest).take(16) =~= m);
        assert((m + rest).skip(16) =~= rest);
    }
}

/// The bytes of the items of a sequence, one after the other.
pub open spec fn items_encode<T: PacketCodec>(m: Seq<T::Model>) -> Seq<u8>
    decreases m.len(),
{
    if m.len() == 0 {
        Seq::empty()
    } else {
        T::spec_encode(m[0]) + items_encode::<T>(m.drop_first())
    }
}

/// What reading `n` items one after the other from the front of `s` gives.
pub open spec fn items_decode<T: PacketCodec>(s: Seq<u8>, n: nat) -> Result<
    (Seq<T::Model>, Seq<u8>),
    CodecError,
>
    decreases n,
{
    if n == 0 {
        Ok((Seq::empty(), s))
    } else {
        match T::spec_decode(s) {
            Err(e) => Err(e),
            Ok((x, r)) => match items_decode::<T>(r, (n - 1) as nat) {
                Err(e) => Err(e),
                Ok((xs, r2)) => Ok((seq![x] + xs, r2)),
            },
        }
    }
}

/// What is left of `s` when reading `n` items from its front fails: what the
/// failing item's read leaves.
pub open spec fn items_left<T: PacketCodec>(s: Seq<u8>, n: nat) -> Seq<u8>
    decreases n,
{
    if n == 0 {
        s
    } else {
        match T::spec_decode(s) {
            Err(_) => T::spec_decode_left(s),
            Ok((_, r)) => items_left::<T>(r, (n - 1) as nat),
        }
    }
}

/// Puts `ms` in front of the items of a successful read.
pub open spec fn prepend_items<M>(ms: Seq<M>, r: Result<(Seq<M>, Seq<u8>), CodecError>) -> Result<
    (Seq<M>, Seq<u8>),
    CodecError,
> {
    match r {
        Ok((xs, rest)) => Ok((ms + xs, rest)),
        Err(e) => Err(e),
    }
}

/// The bytes of one item alone are its own bytes.
pub proof fn lemma_items_encode_single<T: PacketCodec>(x: T::Model)
    ensures
        items_encode::<T>(seq![x]) == T::spec_encode(x),
{
    let s = seq![x];
    assert(s.drop_first() =~= Seq::<T::Model>::empty());
    assert(items_encode::<T>(s.drop_first()) == Seq::<u8>::empty());
    assert(T::spec_encode(x) + Seq::<u8>::empty() =~= T::spec_encode(x));
}

/// The bytes of two runs of items are the bytes of each, one after the other.
pub proof fn lemma_items_encode_concat<T: PacketCodec>(a: Seq<T::Model>, b: Seq<T::Model>)
    ensures
        items_encode::<T>(a + b) == items_encode::<T>(a) + items_encode::<T>(b),
    decreases a.len(),
{
    if a.len() == 0 {
        assert(a + b =~= b);
    } else {
        lemma_items_encode_concat::<T>(a.drop_first(), b);
        assert((a + b).drop_first() =~= a.drop_first() + b);
        assert(items_encode::<T>(a + b) =~= T::spec_encode(a[0]) + (items_encode::<T>(a.drop_first())
            + items_encode::<T>(b)));
    }
}

/// Reading back the items of valid values, followed by anything, gives the
/// values and leaves what followed.
pub proof fn lemma_items_roundtrip<T: PacketCodec>(m: Seq<T::Model>, rest: Seq<u8>)
    requires
        forall|i: int| 0 <= i < m.len() ==> T::spec_valid(#[trigger] m[i]),
    ensures
        items_decode::<T>(items_encode::<T>(m) + rest, m.len()) == Ok::<
            (Seq<T::Model>, Seq<u8>),
            CodecError,
        >((m, rest)),
    decreases m.len(),
{
    if m.len() == 0 {
        assert(items_encode::<T>(m) + rest =~= rest);
        assert(m =~= Seq::<T::Model>::empty());
    } else {
        let tail = m.drop_first();
        assert forall|i: int| 0 <= i < tail.len() implies T::spec_valid(#[trigger] tail[i]) by {
            assert(tail[i] == m[i + 1]);
        }
        lemma_items_roundtrip::<T>(tail, rest);
        T::lemma_roundtrip(m[0], items_encode::<T>(tail) + rest);
        assert(items_encode::<T>(m) + rest =~= T::spec_encode(m[0]) + (items_encode::<T>(tail)
            + rest));
        assert(seq![m[0]] + tail =~= m);
    }
}

/// An array: the VarInt number of items, then the items.
impl<T: PacketCodec> PacketCodec for Vec<T> {
    type Model = Seq<T::Model>;

    open spec fn model(&self) -> Seq<T::Model> {
        self@.map_values(|x: T| x.model())
    }

    open spec fn spec_encode(m: Seq<T::Model>) -> Seq<u8> {
        varint_bytes(m.len() as i32) + items_encode::<T>(m)
    }

    open spec fn spec_decode(s: Seq<u8>) -> Result<(Seq<T::Model>, Seq<u8>), CodecError> {
        match <i32 as PacketCodec>::spec_decode(s) {
            Err(e) => Err(e),
            Ok((len, rest)) => if len < 0 {
                Err(CodecError::Io)
            } else {
                items_decode::<T>(rest, len as nat)
            },
        }
    }

    /// After the count was read: everything, when it is negative; else what
    /// the failing item's read leaves.
    open spec fn spec_decode_left(s: Seq<u8>) -> Seq<u8> {
        match <i32 as PacketCodec>::spec_decode(s) {
            Err(_) => <i32 as PacketCodec>::spec_decode_left(s),
            Ok((len, rest)) => if len < 0 {
                rest
            } else {
                items_left::<T>(rest, len as nat)
            },
        }
    }

    /// Arrays whose length fits the VarInt prefix, of valid items.
    open spec fn spec_valid(m: Seq<T::Model>) -> bool {
        &&& m.len() <= i32::MAX
        &&& forall|i: int| 0 <= i < m.len() ==> T::spec_valid(#[trigger] m[i])
    }

    fn encode(&self, buf: &mut Vec<u8>) -> (r: Result<(), CodecError>) {
        let n = self.len();
        let _ = (n as i32).encode(buf);
        let ghost m = self.model();
        let ghost start = buf@;
        let mut i: usize = 0;
        while i < n
            invariant
                n == self@.len(),
                m == self@.map_values(|x: T| x.model()),
                i <= n,
                buf@ == start + items_encode::<T>(m.take(i as int)),
            decreases n - i,
        {
            let ghost before = buf@;
            let _ = self[i].encode(buf);
            proof {
                lemma_items_encode_concat::<T>(m.take(i as int), seq![m[i as int]]);
                assert(m.take(i as int) + seq![m[i as int]] =~= m.take(i + 1));
                lemma_items_encode_single::<T>(m[i as int]);
            }
            i = i + 1;
        }
        assert(m.take(n as int) =~= m);
        Ok(())
    }

    fn decode(buf: &mut &[u8]) -> (r: Result<Vec<T>, CodecError>) {
        let len = match <i32 as PacketCodec>::decode(buf) {
            Ok(len) => len,
            Err(e) => return Err(e),
        };
        if len < 0 {
            return Err(CodecError::Io);
        }
        let n = len as usize;
        let ghost s1 = buf@;
        let mut items: Vec<T> = Vec::new();
        let mut failed: Option<CodecError> = None;
        let mut i: usize = 0;
        while i < n
            invariant_except_break
                i <= n,
                n == len,
                items@.len() == i,
                failed is None,
                items_decode::<T>(s1, n as nat) == prepend_items(
                    items@.map_values(|x: T| x.model()),
                    items_decode::<T>(buf@, (n - i) as nat),
                ),
                items_left::<T>(s1, n as nat) == items_left::<T>(buf@, (n - i) as nat),
            ensures
                failed matches Some(e) ==> items_decode::<T>(s1, n as nat) == Err::<
                    (Seq<T::Model>, Seq<u8>),
                    CodecError,
                >(e) && buf@ == items_left::<T>(s1, n as nat),
                failed is None ==> items_decode::<T>(s1, n as nat) == Ok::<
                    (Seq<T::Model>, Seq<u8>),
                    CodecError,
                >((items@.map_values(|x: T| x.model()), buf@)),
            decreases n - i,
        {
            let ghost ms = items@.map_values(|x: T| x.model());
            let ghost cur = buf@;
            match T::decode(buf) {
                Err(e) => {
                    failed = Some(e);
                    break;
                },
                Ok(x) => {
                    let ghost xm = x.model();
                    items.push(x);
                    proof {
                        assert(items@.map_values(|x: T| x.model()) =~= ms + seq![xm]);
                        match items_decode::<T>(buf@, (n - i - 1) as nat) {
                            Ok((xs, r2)) => {
                                assert(ms + (seq![xm] + xs) =~= (ms + seq![xm]) + xs);
                            },
                            Err(_) => {},
                        }
                    }
                },
            }
            i = i + 1;
            if i == n {
                assert(items@.map_values(|x: T| x.model()) + Seq::<T::Model>::empty()
                    =~= items@.map_values(|x: T| x.model()));
            }
        }
        match failed {
            Some(e) => Err(e),
            None => Ok(items),
        }
    }

    proof fn lemma_roundtrip(m: Seq<T::Model>, rest: Seq<u8>) {
        let len = m.len() as i32;
        let tail = items_encode::<T>(m) + rest;
        <i32 as PacketCodec>::lemma_roundtrip(len, tail);
        assert(varint_bytes(len) + items_encode::<T>(m) + rest =~= varint_bytes(len) + tail);
        assert(<i32 as PacketCodec>::spec_decode(varint_bytes(len) + tail) == Ok::<
            (i32, Seq<u8>),
            CodecError,
        >((len, tail)));
        assert(len as nat == m.len());
        lemma_items_roundtrip::<T>(m, rest);
    }
}

/// The model of an optional value.
pub open spec fn option_model<T: PacketCodec>(v: Option<T>) -> Option<T::Model> {
    match v {
        Some(x) => Some(x.model()),
        None => None,
    }
}

/// A boolean-prefixed optional: `1` and the value, or `0`.
pub open spec fn option_encode<T: PacketCodec>(m: Option<T::Model>) -> Seq<u8> {
    match m {
        Some(x) => seq![1u8] + T::spec_encode(x),
        None => seq![0u8],
    }
}

/// What reading a boolean-prefixed optional gives.
pub open spec fn option_decode<T: PacketCodec>(s: Seq<u8>) -> Result<
    (Option<T::Model>, Seq<u8>),
    CodecError,
> {
    match <bool as PacketCodec>::spec_decode(s) {
        Err(e) => Err(e),
        Ok((false, rest)) => Ok((None, rest)),
        Ok((true, rest)) => match T::spec_decode(rest) {
            Err(e) => Err(e),
            Ok((x, r)) => Ok((Some(x), r)),
        },
    }
}

/// What is left of `s` when reading a boolean-prefixed optional fails.
pub open spec fn option_left<T: PacketCodec>(s: Seq<u8>) -> Seq<u8> {
    match <bool as PacketCodec>::spec_decode(s) {
        Err(_) => <bool as PacketCodec>::spec_decode_left(s),
        Ok((_, rest)) => T::spec_decode_left(rest),
    }
}

/// Optionals that read back: absent, or a valid value.
pub open spec fn option_valid<T: PacketCodec>(m: Option<T::Model>) -> bool {
    match m {
        Some(x) => T::spec_valid(x),
        None => true,
    }
}

/// Writes a boolean-prefixed optional.
pub fn encode_option<T: PacketCodec>(v: &Option<T>, buf: &mut Vec<u8>)
    ensures
        final(buf)@ == old(buf)@ + option_encode::<T>(option_model(*v)),
{
    match v {
        Some(x) => {
            let _ = true.encode(buf);
            let _ = x.encode(buf);
        },
        None => {
            let _ = false.encode(buf);
        },
    }
    assert(buf@ =~= old(buf)@ + option_encode::<T>(option_model(*v)));
}

/// Reads a boolean-prefixed optional.
pub fn decode_option<T: PacketCodec>(buf: &mut &[u8]) -> (r: Result<Option<T>, CodecError>)
    ensures
        match option_decode::<T>(old(buf)@) {
            Ok((m, rest)) => r matches Ok(x) && option_model(x) == m && final(buf)@ == rest,
            Err(e) => r matches Err(e2) && e2 == e && final(buf)@ == option_left::<T>(old(buf)@),
        },
{
    match <bool as PacketCodec>::decode(buf) {
        Err(e) => Err(e),
        Ok(false) => Ok(None),
        Ok(true) => match T::decode(buf) {
            Err(e) => Err(e),
            Ok(x) => Ok(Some(x)),
        },
    }
}

/// A valid optional reads back, followed by anything.
pub proof fn lemma_option_roundtrip<T: PacketCodec>(m: Option<T::Model>, rest: Seq<u8>)
    requires
        option_valid::<T>(m),
    ensures
        option_decode::<T>(option_encode::<T>(m) + rest) == Ok::<
            (Option<T::Model>, Seq<u8>),
            CodecError,
        >((m, rest)),
{
    match m {
        Some(x) => {
            T::lemma_roundtrip(x, rest);
            assert((option_encode::<T>(m) + rest).drop_first() =~= T::spec_encode(x) + rest);
        },
        None => {
            assert((option_encode::<T>(m) + rest).drop_first() =~= rest);
        },
    }
}

/// An optional UUID.
impl PacketCodec for Option<Uuid> {
    type Model = Option<Seq<u8>>;

    open spec fn model(&self) -> Option<Seq<u8>> {
        option_model(*self)
    }

    open spec fn spec_encode(m: Option<Seq<u8>>) -> Seq<u8> {
        option_encode::<Uuid>(m)
    }

    open spec fn spec_decode(s: Seq<u8>) -> Result<(Option<Seq<u8>>, Seq<u8>), CodecError> {
        option_decode::<Uuid>(s)
    }

    open spec fn spec_decode_left(s: Seq<u8>) -> Seq<u8> {
        option_left::<Uuid>(s)
    }

    open spec fn spec_valid(m: Option<Seq<u8>>) -> bool {
        option_valid::<Uuid>(m)
    }

    fn encode(&self, buf: &mut Vec<u8>) -> (r: Result<(), CodecError>) {
        encode_option(self, buf);
        Ok(())
    }

    fn decode(buf: &mut &[u8]) -> (r: Result<Option<Uuid>, CodecError>) {
        decode_option::<Uuid>(buf)
    }

    proof fn lemma_roundtrip(m: Option<Seq<u8>>, rest: Seq<u8>) {
        lemma_option_roundtrip::<Uuid>(m, rest);
    }
}

/// An optional byte array.
impl PacketCodec for Option<Vec<u8>> {
    type Model = Option<Seq<u8>>;

    open spec fn model(&self) -> Option<Seq<u8>> {
        option_model(*self)
    }

    open spec fn spec_encode(m: Option<Seq<u8>>) -> Seq<u8> {
        option_encode::<Vec<u8>>(m)
    }

    open spec fn spec_decode(s: Seq<u8>) -> Result<(Option<Seq<u8>>, Seq<u8>), CodecError> {
        option_decode::<Vec<u8>>(s)
    }

    open spec fn spec_decode_left(s: Seq<u8>) -> Seq<u8> {
        option_left::<Vec<u8>>(s)
    }

    open spec fn spec_valid(m: Option<Seq<u8>>) -> bool {
        option_valid::<Vec<u8>>(m)
    }

    fn encode(&self, buf: &mut Vec<u8>) -> (r: Result<(), CodecError>) {
        encode_option(self, buf);
        Ok(())
    }

    fn decode(buf: &mut &[u8]) -> (r: Result<Option<Vec<u8>>, CodecError>) {
        decode_option::<Vec<u8>>(buf)
    }

    proof fn lemma_roundtrip(m: Option<Seq<u8>>, rest: Seq<u8>) {
        lemma_option_roundtrip::<Vec<u8>>(m, rest);
    }
}

/// An optional string, prefixed by a boolean.
impl PacketCodec for Option<String> {
    type Model = Option<Seq<char>>;

    open spec fn model(&self) -> Option<Seq<char>> {
        option_model(*self)
    }

    open spec fn spec_encode(m: Option<Seq<char>>) -> Seq<u8> {
        option_encode::<String>(m)
    }

    open spec fn spec_decode(s: Seq<u8>) -> Result<(Option<Seq<char>>, Seq<u8>), CodecError> {
        option_decode::<String>(s)
    }

    open spec fn spec_decode_left(s: Seq<u8>) -> Seq<u8> {
        option_left::<String>(s)
    }

    open spec fn spec_valid(m: Option<Seq<char>>) -> bool {
        option_valid::<String>(m)
    }

    fn encode(&self, buf: &mut Vec<u8>) -> (r: Result<(), CodecError>) {
        encode_option(self, buf);
        Ok(())
    }

    fn decode(buf: &mut &[u8]) -> (r: Result<Option<String>, CodecError>) {
        decode_option::<String>(buf)
    }

    proof fn lemma_roundtrip(m: Option<Seq<char>>, rest: Seq<u8>) {
        lemma_option_roundtrip::<String>(m, rest);
    }
}

/// A boolean-prefixed optional: an absent value is the single byte `0`, a
/// present one the byte `1` and then the value.
pub proof fn lemma_option_wire<T: PacketCodec>(x: T::Model)
    ensures
        option_encode::<T>(None) == seq![0u8],
        option_encode::<T>(Some(x)) == seq![1u8] + T::spec_encode(x),
{
}

} // verus!
