//! The status exchange: the server list entry and its ping.
use vstd::prelude::*;

use crate::network::packet::TextComponent;
use crate::utils::{ClientboundPacketTrait, CodecError, PacketCodec, ServerboundPacketTrait};

verus! {

/// Asks for the server's status; it has no fields.
pub struct StatusRequest;

impl ServerboundPacketTrait for StatusRequest {
    open spec fn spec_id() -> i32 {
        0x00
    }

    open spec fn spec_packet_bytes(&self) -> Seq<u8> {
        Seq::empty()
    }

    fn packet_id(&self) -> (r: i32) {
        0x00
    }

    fn encode(&self, buf: &mut Vec<u8>) -> (r: Result<(), CodecError>) {
        assert(buf@ =~= old(buf)@ + self.spec_packet_bytes());
        Ok(())
    }
}

/// The server's status as JSON text.
pub struct StatusResponse {
    pub json_response: TextComponent,
}

impl ClientboundPacketTrait for StatusResponse {
    type Model = Seq<char>;

    open spec fn model(&self) -> Seq<char> {
        self.json_response.model()
    }

    open spec fn spec_id() -> i32 {
        0x00
    }

    open spec fn spec_decode(s: Seq<u8>) -> Result<(Seq<char>, Seq<u8>), CodecError> {
        <TextComponent as PacketCodec>::spec_decode(s)
    }

    open spec fn spec_decode_left(s: Seq<u8>) -> Seq<u8> {
        <TextComponent as PacketCodec>::spec_decode_left(s)
    }

    fn packet_id(&self) -> (r: i32) {
        0x00
    }

    fn decode(buf: &mut &[u8]) -> (r: Result<StatusResponse, CodecError>) {
        match TextComponent::decode(buf) {
            Ok(json_response) => Ok(StatusResponse { json_response }),
            Err(e) => Err(e),
        }
    }
}

/// A ping carrying a number the server sends back.
pub struct PingRequest {
    pub payload: i64,
}

/// A random 64-bit number from the thread's generator (`rand::random`).
/// Nothing is claimed of its value.
#[verifier::external_body]
fn random_i64() -> (r: i64) {
    rand::random::<i64>()
}

impl PingRequest {
    /// A ping with a random payload.
    pub fn new() -> (p: PingRequest) {
        PingRequest::with_payload(random_i64())
    }

    /// A ping with the given payload.
    pub fn with_payload(payload: i64) -> (p: PingRequest)
        ensures
            p.payload == payload,
    {
        PingRequest { payload }
    }
}

impl ServerboundPacketTrait for PingRequest {
    open spec fn spec_id() -> i32 {
        0x01
    }

    open spec fn spec_packet_bytes(&self) -> Seq<u8> {
        <i64 as PacketCodec>::spec_encode(self.payload)
    }

    fn packet_id(&self) -> (r: i32) {
        0x01
    }

    fn encode(&self, buf: &mut Vec<u8>) -> (r: Result<(), CodecError>) {
        self.payload.encode(buf)
    }
}

/// The server's answer to a ping, with the ping's payload.
pub struct PongResponse {
    pub payload: i64,
}

impl ClientboundPacketTrait for PongResponse {
    type Model = i64;

    open spec fn model(&self) -> i64 {
        self.payload
    }

    open spec fn spec_id() -> i32 {
        0x01
    }

    open spec fn spec_decode(s: Seq<u8>) -> Result<(i64, Seq<u8>), CodecError> {
        <i64 as PacketCodec>::spec_decode(s)
    }

    open spec fn spec_decode_left(s: Seq<u8>) -> Seq<u8> {
        <i64 as PacketCodec>::spec_decode_left(s)
    }

    fn packet_id(&self) -> (r: i32) {
        0x01
    }

    fn decode(buf: &mut &[u8]) -> (r: Result<PongResponse, CodecError>) {
        match <i64 as PacketCodec>::decode(buf) {
            Ok(payload) => Ok(PongResponse { payload }),
            Err(e) => Err(e),
        }
    }
}

/// The fixed ids of the status packets this module defines, each in its
/// direction: a packet is known on the wire by this number alone.
pub proof fn lemma_status_packet_ids()
    ensures
        <StatusRequest as ServerboundPacketTrait>::spec_id() == 0x00,
        <StatusResponse as ClientboundPacketTrait>::spec_id() == 0x00,
        <PingRequest as ServerboundPacketTrait>::spec_id() == 0x01,
        <PongResponse as ClientboundPacketTrait>::spec_id() == 0x01,
{
}

} // verus!
