//! The rule catalogue and the description of new accounts.
pub mod newuser;
pub mod rules;
