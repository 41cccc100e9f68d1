//! The login exchange.
use vstd::prelude::*;

use crate::utils::fields::{dec2, dec2_left};
use crate::utils::{ClientboundPacketTrait, CodecError, PacketCodec, ServerboundPacketTrait, Uuid};

verus! {

/// Starts logging in with a player name and UUID.
pub struct LoginStart {
    pub name: String,
    pub uuid: Uuid,
}

impl ServerboundPacketTrait for LoginStart {
    open spec fn spec_id() -> i32 {
        0x00
    }

    open spec fn spec_packet_bytes(&self) -> Seq<u8> {
        <String as PacketCodec>::spec_encode(self.name@) + <Uuid as PacketCodec>::spec_encode(
            self.uuid.model(),
        )
    }

    fn packet_id(&self) -> (r: i32) {
        0x00
    }

    fn encode(&self, buf: &mut Vec<u8>) -> (r: Result<(), CodecError>) {
        let _ = self.name.encode(buf);
        let _ = self.uuid.encode(buf);
        assert(buf@ =~= old(buf)@ + self.spec_packet_bytes());
        Ok(())
    }
}

/// The server ends the login, with its reason as JSON text.
pub struct Disconnect {
    pub reason_json: String,
}

impl ClientboundPacketTrait for Disconnect {
    type Model = Seq<char>;

    open spec fn model(&self) -> Seq<char> {
        self.reason_json@
    }

    open spec fn spec_id() -> i32 {
        0x00
    }

    open spec fn spec_decode(s: Seq<u8>) -> Result<(Seq<char>, Seq<u8>), CodecError> {
        <String as PacketCodec>::spec_decode(s)
    }

    open spec fn spec_decode_left(s: Seq<u8>) -> Seq<u8> {
        <String as PacketCodec>::spec_decode_left(s)
    }

    fn packet_id(&self) -> (r: i32) {
        0x00
    }

    fn decode(buf: &mut &[u8]) -> (r: Result<Disconnect, CodecError>) {
        match String::decode(buf) {
            Ok(reason_json) => Ok(Disconnect { reason_json }),
            Err(e) => Err(e),
        }
    }
}

/// The server asks for encryption: its id (mostly empty) and public key.
pub struct EncryptionRequest {
    pub server_id: String,
    pub public_key: Vec<u8>,
}

impl ClientboundPacketTrait for EncryptionRequest {
    type Model = (Seq<char>, Seq<u8>);

    open spec fn model(&self) -> (Seq<char>, Seq<u8>) {
        (self.server_id@, self.public_key.model())
    }

    open spec fn spec_id() -> i32 {
        0x01
    }

    open spec fn spec_decode(s: Seq<u8>) -> Result<((Seq<char>, Seq<u8>), Seq<u8>), CodecError> {
        dec2::<String, Vec<u8>>(s)
    }

    open spec fn spec_decode_left(s: Seq<u8>) -> Seq<u8> {
        dec2_left::<String, Vec<u8>>(s)
    }

    fn packet_id(&self) -> (r: i32) {
        0x01
    }

    fn decode(buf: &mut &[u8]) -> (r: Result<EncryptionRequest, CodecError>) {
        let server_id = match String::decode(buf) {
            Ok(v) => v,
            Err(e) => return Err(e),
        };
        let public_key = match Vec::<u8>::decode(buf) {
            Ok(v) => v,
            Err(e) => return Err(e),
        };
        Ok(EncryptionRequest { server_id, public_key })
    }
}

/// The fixed ids of the login packets this module defines, each in its
/// direction: a packet is known on the wire by this number alone.
pub proof fn lemma_login_packet_ids()
    ensures
        <LoginStart as ServerboundPacketTrait>::spec_id() == 0x00,
        <Disconnect as ClientboundPacketTrait>::spec_id() == 0x00,
        <EncryptionRequest as ClientboundPacketTrait>::spec_id() == 0x01,
{
}

} // verus!
