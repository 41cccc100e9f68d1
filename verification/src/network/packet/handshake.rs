//! The handshake that opens a connection.
use vstd::prelude::*;

use crate::utils::fields::dec4;
use crate::utils::varint::lemma_varint_one_byte;
use crate::utils::{CodecError, PacketCodec, ServerboundPacketTrait};

verus! {

/// The state the client asks to go to next.
#[derive(Debug, PartialEq, Eq, Copy, Clone)]
pub enum NextState {
    Status,
    Login,
    Transfer,
}

impl NextState {
    pub open spec fn spec_id(self) -> i32 {
        match self {
            NextState::Status => 1,
            NextState::Login => 2,
            NextState::Transfer => 3,
        }
    }

    pub open spec fn spec_from_id(v: i32) -> Option<NextState> {
        if v == 1 {
            Some(NextState::Status)
        } else if v == 2 {
            Some(NextState::Login)
        } else if v == 3 {
            Some(NextState::Transfer)
        } else {
            None
        }
    }

    /// The number that stands for the state on the wire.
    pub fn id(&self) -> (r: i32)
        ensures
            r == self.spec_id(),
    {
        match self {
            NextState::Status => 1,
            NextState::Login => 2,
            NextState::Transfer => 3,
        }
    }

    /// The state a number stands for.
    pub fn from_id(v: i32) -> (r: Option<NextState>)
        ensures
            r == Self::spec_from_id(v),
    {
        if v == 1 {
            Some(NextState::Status)
        } else if v == 2 {
            Some(NextState::Login)
        } else if v == 3 {
            Some(NextState::Transfer)
        } else {
            None
        }
    }
}

/// The state as a VarInt; a number that names no state is refused.
impl PacketCodec for NextState {
    type Model = NextState;

    open spec fn model(&self) -> NextState {
        *self
    }

    open spec fn spec_encode(m: NextState) -> Seq<u8> {
        <i32 as PacketCodec>::spec_encode(m.spec_id())
    }

    open spec fn spec_decode(s: Seq<u8>) -> Result<(NextState, Seq<u8>), CodecError> {
        match <i32 as PacketCodec>::spec_decode(s) {
            Err(e) => Err(e),
            Ok((v, rest)) => match NextState::spec_from_id(v) {
                Some(x) => Ok((x, rest)),
                None => Err(
                    CodecError::InvalidEnumValue {
                        enum_name: "NextState",
                        value: v,
                        expected: "1 or 2",
                    },
                ),
            },
        }
    }

    open spec fn spec_decode_left(s: Seq<u8>) -> Seq<u8> {
        match <i32 as PacketCodec>::spec_decode(s) {
            Err(_) => <i32 as PacketCodec>::spec_decode_left(s),
            Ok((_, rest)) => rest,
        }
    }

    open spec fn spec_valid(m: NextState) -> bool {
        true
    }

    fn encode(&self, buf: &mut Vec<u8>) -> (r: Result<(), CodecError>) {
        self.id().encode(buf)
    }

    fn decode(buf: &mut &[u8]) -> (r: Result<NextState, CodecError>) {
        let value = match <i32 as PacketCodec>::decode(buf) {
            Ok(v) => v,
            Err(e) => return Err(e),
        };
        match NextState::from_id(value) {
            Some(x) => Ok(x),
            None => Err(
                CodecError::InvalidEnumValue { enum_name: "NextState", value, expected: "1 or 2" },
            ),
        }
    }

    proof fn lemma_roundtrip(m: NextState, rest: Seq<u8>) {
        <i32 as PacketCodec>::lemma_roundtrip(m.spec_id(), rest);
    }
}

/// The first packet of every connection.
pub struct Handshake {
    pub protocol_version: i32,
    pub server_address: String,
    pub server_port: u16,
    pub next_state: NextState,
}

impl ServerboundPacketTrait for Handshake {
    open spec fn spec_id() -> i32 {
        0x00
    }

    open spec fn spec_packet_bytes(&self) -> Seq<u8> {
        <i32 as PacketCodec>::spec_encode(self.protocol_version)
            + <String as PacketCodec>::spec_encode(
            self.server_address@,
        ) + <u16 as PacketCodec>::spec_encode(self.server_port)
            + <NextState as PacketCodec>::spec_encode(self.next_state)
    }

    fn packet_id(&self) -> (r: i32) {
        0x00
    }

    fn encode(&self, buf: &mut Vec<u8>) -> (r: Result<(), CodecError>) {
        let _ = self.protocol_version.encode(buf);
        let _ = self.server_address.encode(buf);
        let _ = self.server_port.encode(buf);
        let _ = self.next_state.encode(buf);
        assert(buf@ =~= old(buf)@ + self.spec_packet_bytes());
        Ok(())
    }
}

/// The values of `NextState` travel as fixed numbers: Status 1, Login 2, Transfer 3.
/// Each is written as the one-byte VarInt of its number and read back from
/// it, whatever follows; every other number below 128 is refused.
pub proof fn lemma_next_state_wire(rest: Seq<u8>)
    ensures
        <NextState as PacketCodec>::spec_encode(NextState::Status) == seq![1u8],
        <NextState as PacketCodec>::spec_encode(NextState::Login) == seq![2u8],
        <NextState as PacketCodec>::spec_encode(NextState::Transfer) == seq![3u8],
        <NextState as PacketCodec>::spec_decode(seq![1u8] + rest) == Ok::<(NextState, Seq<u8>), CodecError>(
            (NextState::Status, rest),
        ),
        <NextState as PacketCodec>::spec_decode(seq![2u8] + rest) == Ok::<(NextState, Seq<u8>), CodecError>(
            (NextState::Login, rest),
        ),
        <NextState as PacketCodec>::spec_decode(seq![3u8] + rest) == Ok::<(NextState, Seq<u8>), CodecError>(
            (NextState::Transfer, rest),
        ),
        forall|v: u8|
            v < 128 && v != 1 && v != 2 && v != 3 ==> #[trigger] <NextState as PacketCodec>::spec_decode(
                seq![v] + rest,
            ) == Err::<(NextState, Seq<u8>), CodecError>(
                (CodecError::InvalidEnumValue { value: v as i32, enum_name: "NextState", expected: "1 or 2" }),
            ),
{
    lemma_varint_one_byte(1u8, rest);
    lemma_varint_one_byte(2u8, rest);
    lemma_varint_one_byte(3u8, rest);
    assert forall|v: u8| v < 128 && v != 1 && v != 2 && v != 3 implies #[trigger] <NextState as PacketCodec>::spec_decode(
        seq![v] + rest,
    ) == Err::<(NextState, Seq<u8>), CodecError>(
        (CodecError::InvalidEnumValue { value: v as i32, enum_name: "NextState", expected: "1 or 2" }),
    ) by {
        lemma_varint_one_byte(v, rest);
    }
}

/// The fixed ids of the handshake packets this module defines, each in its
/// direction: a packet is known on the wire by this number alone.
pub proof fn lemma_handshake_packet_ids()
    ensures
        <Handshake as ServerboundPacketTrait>::spec_id() == 0x00,
{
}

} // verus!
