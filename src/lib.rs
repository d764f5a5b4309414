//! Typed message transport over UDP: the verified core.
//!
//! Every datagram on the wire is an optional eight-byte big-endian type id
//! followed by a codec-produced payload. Received datagrams are filed, still
//! as raw bytes, in one first-in-first-out queue per id; typed reads pull
//! from the queue of the id that the registry resolves for a type.
//!
//! A destructive read consumes the head of the queue even when its bytes do
//! not decode as the requested type, so one bad payload never stalls a
//! queue; `peek` never consumes, for callers that want to retry first.
//!
//! The socket, the background receiver thread and the serde codecs live
//! around this crate: they hand it plain bytes and addresses.

pub mod codec;
pub mod config;
pub mod registry;
pub mod store;
pub mod sync;
pub mod wire;

pub use codec::{Bincode, JSON, YAML};
pub use config::Builder;
pub use store::{MsgStorage, PeerAddr, ReadError};
pub use sync::ThreadSafe;
