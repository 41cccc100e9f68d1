//! Signing in: the Microsoft device code flow, then Xbox Live, XSTS and
//! Minecraft.
pub mod common;
pub mod device_code;
