//! The decisions of a small chat bot, apart from everything that carries
//! them out.
//!
//! The bot answers five commands: `!ping`, `!prueba`, `!hello`, `!help`
//! and `!clima`. This crate decides which command a message is, what to
//! ask the outside world for, and what to reply; it connects to nothing
//! and sends nothing. A host program feeds it events and performs the
//! actions it returns.
//!
//! - [`command`]: the command grammar.
//! - [`bot`]: the state machine that a host drives, one message at a time.
//! - [`handlers`]: the reply to each command.
//! - [`reply`]: replies as plain data.
//! - [`escape`]: making a name safe to show inside a message.
//! - [`query`]: values inside the query of a web address.
//! - [`weather`]: the address of the weather service and what it answers.
//! - [`config`]: the configuration file.
//! - [`text`]: words, white space and decimal numbers.

pub mod bot;
pub mod command;
pub mod config;
pub mod escape;
pub mod handlers;
pub mod query;
pub mod reply;
pub mod text;
pub mod weather;
