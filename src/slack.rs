//! The message types of the older chat transport.
pub mod command;
pub mod event;
