//! Tracks media-player services on a message bus: a registry of the
//! service names currently owned, a decoder that turns a player's
//! property map into a typed metadata record, and a dispatcher that
//! classifies ownership-change events and drives the registry.

pub mod dispatch;
pub mod metadata;
pub mod registry;
