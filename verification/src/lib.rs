//! The message-reaction core of an IRC bot: it decides what the bot says in
//! answer to an inbound message, who may run which command, and how the
//! answer is cut into protocol lines that respect the wire format's length
//! limit.
//!
//! - `text`: characters, byte lengths, whitespace and trimming.
//! - `wrap`: cutting a text into lines that fit a byte budget.
//! - `model`: the values that pass through the core.
//! - `proto`: outbound protocol lines, made with the `pircolate` crate.
//! - `state`: the bot's configuration, commands, collaborators and prefix.
//! - `replies`: the texts of the bot's own replies, and the rule on quitting.
//! - `irc_comm`: from an inbound message to the messages that go out.
//!
//! The core does no input or output and keeps no lock: the program around it
//! hands it one message at a time and sends what comes back. A program that
//! shares the state between threads keeps it behind a lock of its own,
//! which it takes for writing around `irc_comm::handle_msg`.

pub mod text;
pub mod wrap;
pub mod model;
pub mod proto;
pub mod state;
pub mod replies;
pub mod irc_comm;
