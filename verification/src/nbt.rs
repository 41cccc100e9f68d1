//! Named Binary Tag: the format of Minecraft's saved data.
use vstd::prelude::*;

pub mod wire;
pub mod nbt;
pub mod templates;

verus! {

/// Why reading, writing or editing NBT failed.
#[derive(Debug)]
pub enum NbtError {
    /// A tag byte that names no type.
    UnknownTag(u8),
    /// The document does not start with a compound.
    InvalidRoot,
    /// The input ended too early; the message says how.
    Io(String),
    /// A string is not valid UTF-8; the message says where.
    Utf8(String),
    /// The path names no value of the kind asked for.
    UnknownCompound(String),
}

} // verus!
