//! A verified in-memory key-value store with string and hash values, and the
//! binary frame protocol that its server and command-line client speak.
use vstd::prelude::*;

pub mod cli;
pub mod command;
pub mod config;
pub mod error;
pub mod frame;
pub mod persistence;
pub mod session;
pub mod state;
pub mod strmap;
pub mod text;
pub mod value;

verus! {

/// The two bytes that open every frame.
pub const MAGIC_NUMBER: [u8; 2] = [0x06, 0x06];

/// The protocol version written into every frame.
pub const VERSION: u8 = 0x01;

} // verus!
