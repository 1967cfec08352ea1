//! Capability-style privilege delegation: the wire protocol, the descriptor
//! multiplexer, and the decisions that the client, the daemon and the
//! authenticating front-end take during a session.
//!
//! But for looking up users, groups and the host's name, nothing here performs
//! I/O. A program that embeds the library reads and writes sockets, descriptors
//! and processes, hands the library what it saw, and carries out what the
//! library decided.

pub mod bytes;
pub mod client;
pub mod daemon;
pub mod error;
pub mod exit;
pub mod invoke;
pub mod laws;
pub mod mux;
pub mod options;
pub mod ownerspec;
pub mod proto;
pub mod pump;
pub mod pwauth;
pub mod run;
pub mod shadow;
pub mod system;
pub mod text;
pub mod transport;
pub mod unix;
