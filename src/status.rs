//! The liveness supervisor: it restarts the upstream stream and the chat
//! connection when either has been silent for too long.
use vstd::prelude::*;

verus! {

/// What the supervisor hears about.
#[derive(PartialEq, Eq, Structural, Clone, Copy, Debug)]
pub enum StatusPing {
    StreamEventReceived,
    EnsureAliveConnectionLichess,
    EnsureAliveConnectionZulip,
    ZulipPingReceived,
}

/// What the supervisor asks its caller to restart.
#[derive(PartialEq, Eq, Structural, Clone, Copy, Debug)]
pub enum Restart {
    Nothing,
    StreamWatcher,
    ChatConnection,
}

/// Silence, in milliseconds, after which the upstream stream is reopened.
pub const STREAM_SILENCE_MS: i64 = 90_000;

/// Silence, in milliseconds, after which the chat connection is reopened.
pub const CHAT_SILENCE_MS: i64 = 720_000;

/// When each connection last showed life, in milliseconds since the epoch.
pub struct Supervisor {
    pub latest_stream_event: i64,
    pub latest_zulip_event: i64,
}

impl Supervisor {
    /// Both connections counted alive at `now`.
    pub fn new(now: i64) -> (r: Supervisor)
        ensures
            r.latest_stream_event == now,
            r.latest_zulip_event == now,
    {
        Supervisor { latest_stream_event: now, latest_zulip_event: now }
    }

    /// Takes in a ping at `now`; a check that finds a connection silent for
    /// too long asks for it to be restarted and counts it alive again.
    pub fn on_ping(&mut self, ping: StatusPing, now: i64) -> (r: Restart)
        ensures
            match ping {
                StatusPing::StreamEventReceived => {
                    &&& r == Restart::Nothing
                    &&& final(self).latest_stream_event == now
                    &&& final(self).latest_zulip_event == old(self).latest_zulip_event
                },
                StatusPing::ZulipPingReceived => {
                    &&& r == Restart::Nothing
                    &&& final(self).latest_zulip_event == now
                    &&& final(self).latest_stream_event == old(self).latest_stream_event
                },
                StatusPing::EnsureAliveConnectionLichess => {
                    &&& final(self).latest_zulip_event == old(self).latest_zulip_event
                    &&& if now - old(self).latest_stream_event > STREAM_SILENCE_MS {
                        r == Restart::StreamWatcher && final(self).latest_stream_event == now
                    } else {
                        r == Restart::Nothing && final(self).latest_stream_event
                            == old(self).latest_stream_event
                    }
                },
                StatusPing::EnsureAliveConnectionZulip => {
                    &&& final(self).latest_stream_event == old(self).latest_stream_event
                    &&& if now - old(self).latest_zulip_event > CHAT_SILENCE_MS {
                        r == Restart::ChatConnection && final(self).latest_zulip_event == now
                    } else {
                        r == Restart::Nothing && final(self).latest_zulip_event
                            == old(self).latest_zulip_event
                    }
                },
            },
    {
        match ping {
            StatusPing::StreamEventReceived => {
                self.latest_stream_event = now;
                Restart::Nothing
            },
            StatusPing::ZulipPingReceived => {
                self.latest_zulip_event = now;
                Restart::Nothing
            },
            StatusPing::EnsureAliveConnectionLichess => {
                if (now as i128) - (self.latest_stream_event as i128) > STREAM_SILENCE_MS as i128 {
                    self.latest_stream_event = now;
                    Restart::StreamWatcher
                } else {
                    Restart::Nothing
                }
            },
            StatusPing::EnsureAliveConnectionZulip => {
                if (now as i128) - (self.latest_zulip_event as i128) > CHAT_SILENCE_MS as i128 {
                    self.latest_zulip_event = now;
                    Restart::ChatConnection
                } else {
                    Restart::Nothing
                }
            },
        }
    }
}

} // verus!
