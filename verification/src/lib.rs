//! Synthesis of plausible access-point hardware addresses and the binary
//! request that asks a location service about one of them.
//!
//! An address is six octets: three taken from a vendor prefix, three drawn at
//! random. Its text, six lowercase hex pairs separated by colons, is wrapped
//! into a length-prefixed frame, and that frame into an envelope of fixed
//! client fields.
//!
//! - [`synth`] makes addresses from a table of vendor prefixes.
//! - [`wire`] builds the request for an address.
//! - [`address`] and [`hex`] hold the text forms both rest on.
//! - [`random`] is the one place where the `rand` crate is called.

pub mod address;
pub mod error;
pub mod hex;
pub mod random;
pub mod synth;
pub mod wire;
