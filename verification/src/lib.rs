//! A small real-time rendering core: named GPU buffer resources composed into
//! addressable binding groups, a pool of per-geometry resource registries, a
//! pipeline cache keyed by material identity, and a per-frame orchestrator
//! that emits an ordered stream of GPU commands.
//!
//! GPU objects are modelled as plain data: buffers carry their identity and
//! modelled contents, and a frame produces a command stream that a thin
//! unverified front end replays against the real graphics API.

pub mod geometry;
pub mod kv;
pub mod material;
pub mod math;
pub mod node;
pub mod render;
pub mod scene;
pub mod timeline;
