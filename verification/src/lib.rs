//! Change-capture and notification pipeline for an embedded relational store.
//!
//! The crate models the row-mutation capture path of a persistence layer:
//! a value codec that renders column values as transport-safe text, an
//! immutable change event built inside the storage engine's pre-commit hook,
//! a bounded non-blocking event queue, a dispatcher that serializes events
//! for an external observer, a durable history ledger of entity-level
//! changes, and a reconciler that drains the ledger per author partition
//! behind a monotone watermark.

pub mod codec;
pub mod dispatch;
pub mod entity_id;
pub mod event;
pub mod history;
pub mod monitor;
pub mod queue;
pub mod seen_at;
pub mod status;
pub mod text;

pub use text::sanitize_like;
