//! Time-ordered 64-bit identifiers: a bit-packing codec, a per-worker sequence
//! allocator, and the generator and decoder built from them.
//!
//! An identifier packs, from the most significant bit down, a millisecond
//! timestamp measured from a caller-chosen epoch, the id of the worker that
//! minted it, and a sequence number that tells apart identifiers minted by
//! one worker within one millisecond.

pub mod layout;
pub mod codec;
pub mod decoder;
pub mod allocator;
pub mod generator;
pub mod worker;
pub mod text;
pub mod service;
