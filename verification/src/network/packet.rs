//! Packet definitions and the field types they share.
use vstd::prelude::*;

use crate::utils::compound::{decode_option, encode_option, lemma_option_roundtrip, option_decode, option_left,
    option_encode, option_model, option_valid};
use crate::utils::{CodecError, PacketCodec};

pub mod handshake;
pub mod status;
pub mod login;
pub mod configuration;
pub mod play;

verus! {

/// A chat component, carried as its JSON text.
#[derive(Debug, Clone, PartialEq)]
pub struct TextComponent(pub String);

impl PacketCodec for TextComponent {
    type Model = Seq<char>;

    open spec fn model(&self) -> Seq<char> {
        self.0@
    }

    open spec fn spec_encode(m: Seq<char>) -> Seq<u8> {
        <String as PacketCodec>::spec_encode(m)
    }

    open spec fn spec_decode(s: Seq<u8>) -> Result<(Seq<char>, Seq<u8>), CodecError> {
        <String as PacketCodec>::spec_decode(s)
    }

    open spec fn spec_decode_left(s: Seq<u8>) -> Seq<u8> {
        <String as PacketCodec>::spec_decode_left(s)
    }

    open spec fn spec_valid(m: Seq<char>) -> bool {
        <String as PacketCodec>::spec_valid(m)
    }

    fn encode(&self, buf: &mut Vec<u8>) -> (r: Result<(), CodecError>) {
        self.0.encode(buf)
    }

    fn decode(buf: &mut &[u8]) -> (r: Result<TextComponent, CodecError>) {
        match String::decode(buf) {
            Ok(s) => Ok(TextComponent(s)),
            Err(e) => Err(e),
        }
    }

    proof fn lemma_roundtrip(m: Seq<char>, rest: Seq<u8>) {
        <String as PacketCodec>::lemma_roundtrip(m, rest);
    }
}

/// An optional chat component, prefixed by a boolean.
impl PacketCodec for Option<TextComponent> {
    type Model = Option<Seq<char>>;

    open spec fn model(&self) -> Option<Seq<char>> {
        option_model(*self)
    }

    open spec fn spec_encode(m: Option<Seq<char>>) -> Seq<u8> {
        option_encode::<TextComponent>(m)
    }

    open spec fn spec_decode(s: Seq<u8>) -> Result<(Option<Seq<char>>, Seq<u8>), CodecError> {
        option_decode::<TextComponent>(s)
    }

    open spec fn spec_decode_left(s: Seq<u8>) -> Seq<u8> {
        option_left::<TextComponent>(s)
    }

    open spec fn spec_valid(m: Option<Seq<char>>) -> bool {
        option_valid::<TextComponent>(m)
    }

    fn encode(&self, buf: &mut Vec<u8>) -> (r: Result<(), CodecError>) {
        encode_option(self, buf);
        Ok(())
    }

    fn decode(buf: &mut &[u8]) -> (r: Result<Option<TextComponent>, CodecError>) {
        decode_option::<TextComponent>(buf)
    }

    proof fn lemma_roundtrip(m: Option<Seq<char>>, rest: Seq<u8>) {
        lemma_option_roundtrip::<TextComponent>(m, rest);
    }
}

} // verus!
