//! A small multi-topic site engine: markdown posts and image assets are
//! resolved by topic slug under a conventional directory layout, converted to
//! HTML, placed into a page template, and aggregated into an RSS feed.
//!
//! The engine is constructed once, with its template compiled at that
//! moment, and is immutable afterwards: every render is a read-only
//! operation, so concurrent requests share one engine freely. Filesystem
//! reads and the HTTP transport live at the serving boundary; the engine
//! decides what to read, in what order it appears, and what every reply
//! holds.

pub mod auth;
pub mod common;
pub mod config;
pub mod errors;
pub mod feed;
pub mod render;
pub mod routes;
pub mod text;
