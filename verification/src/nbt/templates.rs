//! Typed views of common NBT documents.
pub mod level;
