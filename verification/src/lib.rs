//! Decoder for the fixed-layout, keystream-encrypted crash-report records
//! written by the game engine.
//!
//! The crate has four parts, leaves first: the deterministic keystream
//! generator, the byte-wise decipher built on it, the fixed-offset record
//! parser, and the address-to-module symbolication used to annotate raw
//! addresses with module names.  All of them are pure functions over byte
//! buffers; file handling and display are left to callers.

pub mod cipher;
pub mod errors;
pub mod keystream;
pub mod record;
pub mod symbols;
pub mod tabs;
pub mod wire;
