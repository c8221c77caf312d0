//! Pictogram resolution and cache engine.
//!
//! The engine answers pictogram lookups from a Local Store first and from a
//! remote origin service on a miss, materializes image assets on disk, ranks
//! free-text matches, keeps per-user bookmarks, and decides when an idle-time
//! prefetch should warm the cache. This crate holds the engine's logic with
//! its proofs; the store, network and file system calls are made by the
//! embedding application, which hands the outcomes to the functions here.
//!
//! - `text`, `tokens`: characters, trimming, words, the `||` token lists and
//!   full-text query expressions.
//! - `ranking`: the fuzzy score and the stable ranking by it.
//! - `origin`: origin statuses, addresses and the mapping of origin records.
//! - `assets`: public and disk paths of materialized assets.
//! - `resolver`: the steps of free-text search and resolution by id.
//! - `rows`: Local Store rows to records.
//! - `prefetch`: settings, the idle scheduler, tick gating and batch candidates.
//! - `activity`: the shared idle clock.
//! - `bookmarks`: the per-user bookmark tracker.
//! - `accounts`: roles, password rules and server settings.
//! - `calendar`: ISO weeks, assignment windows and document kinds.
//! - `preferences`: the checks on a user's display preferences.

pub mod accounts;
pub mod activity;
pub mod assets;
pub mod bookmarks;
pub mod calendar;
pub mod error;
pub mod model;
pub mod origin;
pub mod preferences;
pub mod prefetch;
pub mod ranking;
pub mod resolver;
pub mod rows;
pub mod text;
pub mod tokens;
