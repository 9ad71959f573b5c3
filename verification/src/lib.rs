//! Session-managed polling client for a home router's web management
//! interface, together with the ordered diff algorithm that reports what
//! changed between two polls of the LAN client table.
//!
//! The library has two cores:
//! - [`session`]: the token-carrying session state machine, with its
//!   transient/fatal error classification, retry accounting, and silent
//!   re-handshake on session loss; its laws (the retry policy, the
//!   session-loss recovery, the non-retried credential rejection) are proved
//!   in [`session_laws`];
//! - [`diff`]: the identifier-keyed, ordered-merge diff over client tables;
//!   its laws (the added/removed/changed partition, reorder invariance,
//!   idempotence, old/new symmetry) are proved in [`diff_laws`].
//!
//! Snapshot data types live in [`types`], string ordering and decimal
//! rendering in [`text`], terminal cell planning in [`render`], the
//! presenter-facing interface in [`router`], and fixture data in [`demo`].

pub mod demo;
pub mod diff;
pub mod diff_laws;
pub mod render;
pub mod router;
pub mod session;
pub mod session_laws;
pub mod text;
pub mod types;
