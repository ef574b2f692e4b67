//! A rendezvous relay that matches service providers and service users by name
//! and splices their connections together.
//!
//! The library holds every decision of the relay and of its two connector
//! loops: how control tokens are written and read, the registry of waiting
//! providers, the relay's dispatch of a new connection, and the copy loops of
//! a spliced session. Whoever runs it performs the network I/O and hands the
//! outcomes back.

pub mod protocol;
pub mod registry;
pub mod relay;
pub mod splice;
pub mod connector;
