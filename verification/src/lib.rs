//! The core of a small line-oriented chat server, free of I/O.
//!
//! - [`connect`] frames a connection's byte stream into messages and names
//!   the connections that frames are written to.
//! - [`ircs`] holds the protocol: the parsed message, the session, the
//!   channel, and the registry with what each command does to it.
//! - [`client_loop`] is one connection's loop, a turn at a time.
//! - [`text`] holds what these need to know of characters and words.
//!
//! The program around this library owns the sockets and the lock. It reads
//! what the frame reader asks for, hands each message to the loop's turn,
//! and writes the frames that the turn hands back.

pub mod client_loop;
pub mod connect;
pub mod ircs;
pub mod text;

pub use connect::{ConnectionError, ConnectionRead, ConnectionWrite};
