//! The operator chat: the command language and the framing of messages.
pub mod command;
pub mod rtm;
pub mod web;
