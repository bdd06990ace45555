//! Location resolution engine for a competition-season map dataset.
//!
//! Team and event records arrive from an external registry and must each be
//! assigned map coordinates through a layered cascade: a manual override
//! table is consulted first, then a persisted archive of previously resolved
//! coordinates, and only as a last resort is a live geocoding lookup
//! requested.  A final pass perturbs exact-duplicate coordinates so that map
//! markers stay visually distinct.
//!
//! Coordinates are carried as the bit patterns of 64-bit floating point
//! numbers.  The engine never does arithmetic on them: it only stores,
//! compares and moves them, so the bit pattern is the exact model of the
//! value.  Callers that obtain a coordinate from a geocoding service or
//! perturb one with random noise convert to and from bits at the boundary.

pub mod address;
pub mod archive;
pub mod cascade;
pub mod config;
pub mod dedup;
pub mod entities;
pub mod event_type;
pub mod geo;
pub mod registry;
