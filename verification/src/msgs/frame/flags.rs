//! Frame flag bits.

use vstd::prelude::*;

verus! {

pub const NONE: u8 = 0x00;

pub const NEED_ACK: u8 = 0x01;

pub const IS_ACK: u8 = 0x02;

pub const HAS_EXTENSIONS: u8 = 0x04;

pub const FIN: u8 = 0x08;

} // verus!
