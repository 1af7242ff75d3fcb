//! A chat watcher: users register text patterns, and are mentioned when
//! someone else's message matches one of them, at most once per cooldown
//! window and channel.
//!
//! All state lives in one [`Dispatcher`], which is handed each incoming
//! message together with the time of its arrival and answers with the text
//! to send back, if any.

pub mod command;
pub mod cooldown;
pub mod dispatcher;
pub mod pattern;
pub mod reply;
pub mod rules;
pub mod text;

pub use crate::command::Command;
pub use crate::cooldown::CooldownTracker;
pub use crate::dispatcher::{Author, Dispatcher, IncomingMessage, TIMEOUT};
pub use crate::rules::{CompileError, Outcome, Removal, RuleStore};
