//! A verified flood-relay protocol for short-range radio beacon
//! notifications: a compact binary packet format with nibble-packed
//! fields, a two-tier keyed-MAC authentication chain, a bounded
//! TTL-driven store of active notifications, and the relay duty cycle
//! that prunes, ingests, merges and rebroadcasts them.

pub mod auth;
pub mod codec;
pub mod origin;
pub mod relay;
pub mod store;

use vstd::prelude::*;

verus! {

/// Vendor identifier that tags this protocol's frames inside a radio
/// advertisement's manufacturer-specific data field.
pub const MANUFACTURER_ID: u16 = 0xFFFF;

/// Protocol version currently supported; packets carrying any other
/// version are rejected at decode time.
pub const PROTOCOL_VERSION: u8 = 1;

} // verus!
