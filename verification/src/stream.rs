//! What the streaming connections have in common: the frames that are not
//! text, and what a component asks its connection to do next.

use vstd::prelude::*;

verus! {

/// Time to wait before reconnecting, in seconds.
pub const RECONNECT_DELAY_SECS: u64 = 5;

/// Time between two keepalive pings, in seconds.
pub const PING_INTERVAL_SECS: u64 = 5;

/// What arrived on a connection, apart from text.
#[derive(Debug, Clone)]
pub enum ControlFrame {
    Ping(Vec<u8>),
    Close,
    Error,
    Other,
}

/// What to do next on a connection.
#[derive(Debug, Clone)]
pub enum StreamAction {
    /// Keep reading.
    Continue,
    /// Answer a ping with a pong that carries the same bytes.
    Pong(Vec<u8>),
    /// Leave the connection; the caller reconnects while the component runs.
    Disconnect,
}

/// The reaction to a frame that is not text.
pub open spec fn control_action(frame: ControlFrame) -> StreamAction {
    match frame {
        ControlFrame::Ping(data) => StreamAction::Pong(data),
        ControlFrame::Close => StreamAction::Disconnect,
        ControlFrame::Error => StreamAction::Disconnect,
        ControlFrame::Other => StreamAction::Continue,
    }
}

/// The reaction to a frame that is not text: a ping is answered, a close or
/// an error ends the connection, anything else is passed over.
pub fn on_control_frame(frame: ControlFrame) -> (action: StreamAction)
    ensures
        action == control_action(frame),
{
    match frame {
        ControlFrame::Ping(data) => StreamAction::Pong(data),
        ControlFrame::Close => StreamAction::Disconnect,
        ControlFrame::Error => StreamAction::Disconnect,
        ControlFrame::Other => StreamAction::Continue,
    }
}

/// Whether a component that has been told to stop leaves its connection: a
/// stopped component does, whatever arrived.
pub fn keep_reading(running: bool, action: &StreamAction) -> (go_on: bool)
    ensures
        go_on == (running && !(action is Disconnect)),
{
    running && match action {
        StreamAction::Disconnect => false,
        _ => true,
    }
}

} // verus!
