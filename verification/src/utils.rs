//! Field codecs of the protocol: the error type, the codec trait and its
//! implementations for the primitive field types.
use vstd::prelude::*;

pub mod bytes;
pub mod compound;
pub mod fields;
pub mod fixed;
pub mod leb;
pub mod varint;
pub mod varlong;

verus! {

/// An identifier such as `minecraft:overworld`.
pub type Identifier = String;

/// Why encoding or decoding a field failed.
#[derive(Debug)]
pub enum CodecError {
    /// The input ended before the field did.
    Io,
    /// A VarInt or VarLong ran over its maximum number of bytes.
    VarTooLarge,
    /// A value could not be written.
    EncodeError,
    /// The bytes do not form a value of the field's type.
    DecodeError,
    /// A number that names no variant of an enum.
    InvalidEnumValue { value: i32, enum_name: &'static str, expected: &'static str },
}

/// A type that is written to and read from the wire.
///
/// `Model` is the mathematical value a Rust value stands for; the byte layout
/// is given over it by `spec_encode`, and what a reader makes of a byte string
/// by `spec_decode`, which also gives what is left unread.
pub trait PacketCodec: Sized {
    type Model;

    spec fn model(&self) -> Self::Model;

    /// The bytes of a value.
    spec fn spec_encode(m: Self::Model) -> Seq<u8>;

    /// What reading one value from the front of `s` gives.
    spec fn spec_decode(s: Seq<u8>) -> Result<(Self::Model, Seq<u8>), CodecError>;

    /// What is left of `s` when reading a value from its front fails.
    spec fn spec_decode_left(s: Seq<u8>) -> Seq<u8>;

    /// The values that read back as themselves.
    spec fn spec_valid(m: Self::Model) -> bool;

    /// Writes the bytes of `self` to the end of `buf`.
    fn encode(&self, buf: &mut Vec<u8>) -> (r: Result<(), CodecError>)
        ensures
            r is Ok,
            final(buf)@ == old(buf)@ + Self::spec_encode(self.model()),
    ;

    /// Reads one value from the front of `buf`, cutting what it read off.
    fn decode(buf: &mut &[u8]) -> (r: Result<Self, CodecError>)
        ensures
            match Self::spec_decode(old(buf)@) {
                Ok((m, rest)) => r matches Ok(x) && x.model() == m && final(buf)@ == rest,
                Err(e) => r matches Err(e2) && e2 == e && final(buf)@ == Self::spec_decode_left(
                    old(buf)@,
                ),
            },
    ;

    /// Reading back the bytes of a valid value, followed by anything, gives the
    /// value and leaves what followed.
    proof fn lemma_roundtrip(m: Self::Model, rest: Seq<u8>)
        requires
            Self::spec_valid(m),
        ensures
            Self::spec_decode(Self::spec_encode(m) + rest) == Ok::<(Self::Model, Seq<u8>), CodecError>(
                (m, rest),
            ),
    ;
}

/// A packet the client sends: its id and the bytes of its fields.
pub trait ServerboundPacketTrait {
    /// The packet's id.
    spec fn spec_id() -> i32;

    /// The bytes of the packet's fields, in order.
    spec fn spec_packet_bytes(&self) -> Seq<u8>;

    fn packet_id(&self) -> (r: i32)
        ensures
            r == Self::spec_id(),
    ;

    /// Writes the packet's fields to the end of `buf`.
    fn encode(&self, buf: &mut Vec<u8>) -> (r: Result<(), CodecError>)
        ensures
            r is Ok,
            final(buf)@ == old(buf)@ + self.spec_packet_bytes(),
    ;
}

/// A packet the server sends: its id and how its fields are read.
pub trait ClientboundPacketTrait: Sized {
    type Model;

    spec fn model(&self) -> Self::Model;

    /// The packet's id.
    spec fn spec_id() -> i32;

    /// What reading the packet's fields from the front of `s` gives.
    spec fn spec_decode(s: Seq<u8>) -> Result<(Self::Model, Seq<u8>), CodecError>;

    /// What is left of `s` when reading the packet's fields fails.
    spec fn spec_decode_left(s: Seq<u8>) -> Seq<u8>;

    fn packet_id(&self) -> (r: i32)
        ensures
            r == Self::spec_id(),
    ;

    /// Reads the packet's fields from the front of `buf`, cutting them off.
    fn decode(buf: &mut &[u8]) -> (r: Result<Self, CodecError>)
        ensures
            match Self::spec_decode(old(buf)@) {
                Ok((m, rest)) => r matches Ok(x) && x.model() == m && final(buf)@ == rest,
                Err(e) => r matches Err(e2) && e2 == e && final(buf)@ == Self::spec_decode_left(
                    old(buf)@,
                ),
            },
    ;
}

/// A signed 32-bit integer written big-endian in four bytes, where a plain
/// `i32` field would be a VarInt.
pub struct Int(pub i32);

/// A signed 64-bit integer written big-endian in eight bytes, where a plain
/// `i64` field would be a VarLong.
pub struct Long(pub i64);

/// A UUID, held as its sixteen bytes in the order they are sent.
#[derive(Clone, Copy, Debug, PartialEq, Eq, Hash)]
pub struct Uuid {
    pub bytes: [u8; 16],
}

impl Uuid {
    /// The UUID with these bytes.
    pub fn from_bytes(bytes: [u8; 16]) -> (u: Uuid)
        ensures
            u.bytes@ == bytes@,
    {
        Uuid { bytes }
    }

    /// The bytes of the UUID.
    pub fn as_bytes(&self) -> (r: &[u8; 16])
        ensures
            r@ == self.bytes@,
    {
        &self.bytes
    }
}

/// The VarInt error as a field error.
pub open spec fn varint_error(e: varint::VarIntError) -> CodecError {
    match e {
        varint::VarIntError::TooLarge(_) => CodecError::VarTooLarge,
        varint::VarIntError::Io => CodecError::Io,
    }
}

/// A VarInt field.
impl PacketCodec for i32 {
    type Model = i32;

    open spec fn model(&self) -> i32 {
        *self
    }

    open spec fn spec_encode(m: i32) -> Seq<u8> {
        varint::varint_bytes(m)
    }

    open spec fn spec_decode(s: Seq<u8>) -> Result<(i32, Seq<u8>), CodecError> {
        match varint::varint_decode(s) {
            Ok((v, rest)) => Ok((v, rest)),
            Err(e) => Err(varint_error(e)),
        }
    }

    open spec fn spec_decode_left(s: Seq<u8>) -> Seq<u8> {
        varint::varint_left(s)
    }

    open spec fn spec_valid(m: i32) -> bool {
        true
    }

    fn encode(&self, buf: &mut Vec<u8>) -> (r: Result<(), CodecError>) {
        let _ = varint::encode(*self, buf);
        Ok(())
    }

    fn decode(buf: &mut &[u8]) -> (r: Result<i32, CodecError>) {
        match varint::decode(buf) {
            Ok(v) => Ok(v),
            Err(varint::VarIntError::TooLarge(_)) => Err(CodecError::VarTooLarge),
            Err(varint::VarIntError::Io) => Err(CodecError::Io),
        }
    }

    proof fn lemma_roundtrip(m: i32, rest: Seq<u8>) {
        varint::lemma_varint_roundtrip(m, rest);
    }
}

/// A VarLong field.
impl PacketCodec for i64 {
    type Model = i64;

    open spec fn model(&self) -> i64 {
        *self
    }

    open spec fn spec_encode(m: i64) -> Seq<u8> {
        varlong::varlong_bytes(m)
    }

    open spec fn spec_decode(s: Seq<u8>) -> Result<(i64, Seq<u8>), CodecError> {
        varlong::varlong_decode(s)
    }

    open spec fn spec_decode_left(s: Seq<u8>) -> Seq<u8> {
        varlong::varlong_left(s)
    }

    open spec fn spec_valid(m: i64) -> bool {
        true
    }

    fn encode(&self, buf: &mut Vec<u8>) -> (r: Result<(), CodecError>) {
        varlong::encode(*self, buf)
    }

    fn decode(buf: &mut &[u8]) -> (r: Result<i64, CodecError>) {
        varlong::decode(buf)
    }

    proof fn lemma_roundtrip(m: i64, rest: Seq<u8>) {
        varlong::lemma_varlong_roundtrip(m, rest);
    }
}

} // verus!
