//! The frames of the older chat transport.
use vstd::prelude::*;

verus! {

/// A frame received from the older transport.
pub enum RtmRecv {
    Message {
        user: String,
        text: String,
        client_msg_id: String,
        team: String,
        channel: String,
        event_ts: String,
        ts: String,
    },
}

/// A frame sent over the older transport.
pub struct RtmSend {
    pub id: i32,
    pub type_: String,
    pub channel: String,
    pub text: String,
}

} // verus!
