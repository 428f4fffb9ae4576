//! Single-instance daemon bootstrap and rendezvous.
//!
//! A short-lived client finds (or starts) the one background daemon of the
//! program and exchanges one datagram with it. The decisions of both sides are
//! verified state machines; the sockets and the clock are driven by the caller.
pub mod addressing;
pub mod client;
pub mod daemon;
pub mod detach;
pub mod error;
