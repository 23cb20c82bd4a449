//! The protocol: its messages, the sessions and channels, and the registry
//! that every connection's commands are applied to.

pub mod channel;
pub mod client;
pub mod irc_message;
pub mod irc_server;

pub use channel::{Channel, ChannelView};
pub use client::{Client, ClientView};
pub use irc_message::{IrcCommand, IrcMessage, IrcMessageView};
pub use irc_server::{IrcServer, IrcServerView};
