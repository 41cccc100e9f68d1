//! A packet that is both written and read.
use vstd::prelude::*;

use crate::utils::CodecError;

verus! {

/// A packet with an id, a way to write its fields and a way to read them
/// back; for packets that travel both ways.
pub trait ServerboundPacket: Sized {
    type Model;

    spec fn model(&self) -> Self::Model;

    /// The packet's id.
    spec fn spec_id() -> i32;

    /// The bytes of a packet's fields, in order.
    spec fn spec_encode(m: Self::Model) -> Seq<u8>;

    /// What reading the packet's fields from the front of `s` gives.
    spec fn spec_decode(s: Seq<u8>) -> Result<(Self::Model, Seq<u8>), CodecError>;

    /// What is left of `s` when reading the packet's fields fails.
    spec fn spec_decode_left(s: Seq<u8>) -> Seq<u8>;

    fn packet_id(&self) -> (r: i32)
        ensures
            r == Self::spec_id(),
    ;

    /// Writes the packet's fields to the end of `buf`.
    fn encode(&self, buf: &mut Vec<u8>) -> (r: Result<(), CodecError>)
        ensures
            r is Ok,
            final(buf)@ == old(buf)@ + Self::spec_encode(self.model()),
    ;

    /// Reads the packet's fields from the front of `buf`, cutting them off.
    fn decode(buf: &mut &[u8]) -> (r: Result<Self, CodecError>)
        ensures
            match Self::spec_decode(old(buf)@) {
                Ok((m, rest)) => r matches Ok(x) && x.model() == m && final(buf)@ == rest,
                Err(e) => r matches Err(e2) && e2 == e && final(buf)@ == Self::spec_decode_left(
                    old(buf)@,
                ),
            },
    ;
}

} // verus!
