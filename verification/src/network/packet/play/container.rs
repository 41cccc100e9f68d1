//! Containers.
use vstd::prelude::*;

use crate::utils::{ClientboundPacketTrait, CodecError, PacketCodec};

verus! {

/// The server closes a container window.
pub struct CloseContainer {
    pub window_id: u8,
}

impl ClientboundPacketTrait for CloseContainer {
    type Model = u8;

    open spec fn model(&self) -> u8 {
        self.window_id.model()
    }

    open spec fn spec_id() -> i32 {
        0x11
    }

    open spec fn spec_decode(s: Seq<u8>) -> Result<(u8, Seq<u8>), CodecError> {
        <u8 as PacketCodec>::spec_decode(s)
    }

    open spec fn spec_decode_left(s: Seq<u8>) -> Seq<u8> {
        <u8 as PacketCodec>::spec_decode_left(s)
    }

    fn packet_id(&self) -> (r: i32) {
        0x11
    }

    fn decode(buf: &mut &[u8]) -> (r: Result<CloseContainer, CodecError>) {
        let window_id = match u8::decode(buf) {
            Ok(v) => v,
            Err(e) => return Err(e),
        };
        Ok(CloseContainer { window_id })
    }
}
/// The fixed ids of the container packets this module defines, each in its
/// direction: a packet is known on the wire by this number alone.
pub proof fn lemma_container_packet_ids()
    ensures
        <CloseContainer as ClientboundPacketTrait>::spec_id() == 0x11,
{
}

} // verus!
