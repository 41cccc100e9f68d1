//! Packets of the protocol, by connection state.
pub mod packet;
