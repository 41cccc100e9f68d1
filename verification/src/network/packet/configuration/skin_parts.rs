//! The bits of `ClientInformation::displayed_skin_parts`; combine them with
//! `|`, as in `CAPE | JACKET`.
use vstd::prelude::*;

verus! {

pub const CAPE: u8 = 0x01;

pub const JACKET: u8 = 0x02;

pub const LEFT_SLEEVE: u8 = 0x04;

pub const RIGHT_SLEEVE: u8 = 0x08;

pub const LEFT_PANTS: u8 = 0x10;

pub const RIGHT_PANTS: u8 = 0x20;

pub const HAT: u8 = 0x40;

/// Every part.
pub const ALL: u8 = CAPE | JACKET | LEFT_SLEEVE | RIGHT_SLEEVE | LEFT_PANTS | RIGHT_PANTS | HAT;

} // verus!
