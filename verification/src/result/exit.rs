//! Process exit codes of the command-line contract.

use vstd::prelude::*;

verus! {

pub const SUCCESS: u8 = 0;

pub const SOURCE_ERROR: u8 = 1;

pub const USAGE: u8 = 2;

pub const UNSUPPORTED: u8 = 3;

pub const INTERNAL: u8 = 4;

} // verus!
