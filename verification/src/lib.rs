//! Streaming cryptographic hash primitives: the RIPEMD-160 Merkle–Damgård
//! construction and the SHA-3/Keccak sponge family, including the
//! extendable-output (SHAKE) variants.
//!
//! Every hasher consumes an arbitrary byte stream incrementally and produces
//! either a fixed-size digest or an unbounded output stream. The contracts
//! state each result as a mathematical function of the bytes fed so far.

pub mod words;
pub mod buffer;
pub mod ripemd_tables;
pub mod ripemd;
pub mod keccak;
pub mod sponge;
pub mod sha3;
pub mod laws;

pub use buffer::BlockBuffer;
pub use ripemd::Ripemd160;
pub use sha3::Sha3;
pub use sha3::Shake;
pub use sponge::Sha3XofReader;
