//! Client-side engine for a stateful, binary, length-framed game protocol:
//! a streaming buffered decoder with in-place stream decryption, a typed
//! packet codec driven by a per-identifier field table, a handshake state
//! machine, a sparse chunk-column world store, and an entity registry with
//! per-connection ownership and an attachment graph.

use vstd::prelude::*;

pub mod bytes;
pub mod crypto;
pub mod entity;
pub mod registry;
pub mod session;
pub mod nbt;
pub mod codec;
pub mod decoder;
pub mod encoder;
pub mod roundtrip;
pub mod packet;
pub mod stream;
pub mod util;
pub mod world;

pub use bytes::to_ushort;

verus! {

} // verus!
