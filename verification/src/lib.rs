//! Verified core of a resilient event-stream watcher.
//!
//! The library models one watch session over a remote event feed: a
//! connection is opened, a subscription yields event references, each
//! reference is resolved to full detail, and details whose recipient
//! matches the configured identity are reported. Any failure ends the
//! current attempt; after a fixed delay a fresh attempt begins. The
//! connection lifecycle is an explicit finite state machine, and the
//! pipeline and retry policy are verified against it. The network
//! transport itself lives outside this crate.

pub mod attempt;
pub mod config;
pub mod event;
pub mod identity;
pub mod machine;
pub mod watch;
