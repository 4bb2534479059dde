//! Multi-tenant versioned key-value storage service core.
//!
//! Records are opaque byte blobs keyed by `(tenant, key)` and carry a
//! caller-assigned version number. The crate provides the storage backend
//! with per-tenant write atomicity and versioned upsert/list semantics, the
//! tenant-authorization binding that maps a signed bearer credential to one
//! tenant namespace, the origin allow-list, the transport value codec, and
//! the backfill state machine that replays a legacy paginated source through
//! the batch write path.

pub mod strutil;
pub mod origin;
pub mod record;
pub mod store;
pub mod auth;
pub mod handlers;
pub mod migration;
pub mod config;
