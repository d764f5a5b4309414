//! The wire codecs that payloads can be written in.
//!
//! A codec turns a value into payload bytes and back; it knows nothing of
//! the id header. These markers name the codecs that come with the
//! transport, which implements them with serde.
use vstd::prelude::*;

verus! {

/// Payloads in JSON.
pub struct JSON;

/// Payloads in bincode's compact binary layout.
pub struct Bincode;

/// Payloads in YAML.
pub struct YAML;

} // verus!
