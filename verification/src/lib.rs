//! Connection-lifecycle core of a readiness-driven game server.
//!
//! A single reactor loop owns a token-keyed registry of connections.  Each
//! accepted socket is minted a fresh token and enters the registry as a
//! `Client`; a completed handshake promotes it in place to a `Player`; a
//! close removes it.  This crate holds the verified bookkeeping and decision
//! logic of that loop: the registry state machine, the accept-drain and
//! dispatch rules, the error classification at the reactor edge, and the
//! routing of console input.  The sockets, the OS poller and the threads
//! live outside, driven by the actions these functions return.

pub mod console;
pub mod lifecycle;
pub mod reactor;
pub mod registry;
