//! Decision core of an anti-abuse daemon: rules over new accounts, operator
//! commands, and the state machine that turns signups into moderation effects.
use vstd::prelude::*;

pub mod clock;
pub mod event;
pub mod eventhandler;
pub mod eventstream;
pub mod folding;
pub mod pattern;
pub mod recency;
pub mod signup;
pub mod slack;
pub mod status;
pub mod text;
pub mod zulip;

verus! {

} // verus!
