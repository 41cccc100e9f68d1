//! Minecraft Java protocol data types: VarInt/VarLong, packet field codecs,
//! packet definitions and NBT, each with its byte-level specification.
use vstd::prelude::*;

pub mod http;
pub mod nbt;
pub mod network;
pub mod packet;
pub mod utils;

verus! {

} // verus!
