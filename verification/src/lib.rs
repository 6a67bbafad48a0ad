//! Reachability probing and Wake-on-LAN for a single remote host.
//!
//! The crate holds the verified core of the protocol logic: address and MAC
//! text handling, wire-exact packet construction, reply validation, and the
//! decision state machines that a caller's event loop drives against real
//! sockets, resolvers and timers.

pub mod addr;
pub mod mac;
pub mod packet;
pub mod probe;
pub mod wake;
pub mod monitor;
pub mod target;
