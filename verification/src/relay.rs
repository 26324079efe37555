//! The producer side of the byte relay: the walker reads the matched file in
//! buffer-sized chunks and sends them into a bounded channel whose receiving
//! end feeds the response body.
//!
//! The producer's loop is outside work (reads and sends suspend); what it
//! does after each observation is decided here. A failed send means the
//! receiving end is gone — the client disconnected — and stops the producer
//! within that same read cycle, as does the end of the file or a failed
//! read. None of these outcomes is an error of the producer's own.

use vstd::prelude::*;

verus! {

/// The number of bytes each relayed chunk holds at most.
pub const BUFFER_SIZE: usize = 8192;

/// How many chunks the bounded channel holds before the producer suspends.
pub const CHANNEL_CAPACITY: usize = 8192;

/// What the producer observed: one read from the file's byte source, or the
/// failure of a send into the channel.
#[derive(Clone, Copy, Debug, PartialEq, Eq, Structural)]
pub enum RelayEvent {
    ReadData { len: usize },
    ReadFailed,
    SendFailed,
}

/// What the producer does next: forward the chunk, read it past and discard
/// it, or stop.
#[derive(Clone, Copy, Debug, PartialEq, Eq, Structural)]
pub enum RelayAction {
    Forward,
    Discard,
    Stop,
}

/// The decision after each observation: data is forwarded only for the
/// matched file, an empty read is the end of the file, and every failure —
/// of the read or of the send — stops the producer silently.
pub open spec fn relay_action_model(ev: RelayEvent, should_stream: bool) -> RelayAction {
    match ev {
        RelayEvent::ReadData { len } => if len == 0 {
            RelayAction::Stop
        } else if should_stream {
            RelayAction::Forward
        } else {
            RelayAction::Discard
        },
        RelayEvent::ReadFailed => RelayAction::Stop,
        RelayEvent::SendFailed => RelayAction::Stop,
    }
}

/// Decide what the producer does after `ev`, while streaming the matched
/// file (`should_stream`) or draining an unmatched one. A lost consumer
/// always stops the producer: no send is retried and no error propagates.
pub fn relay_action(ev: &RelayEvent, should_stream: bool) -> (a: RelayAction)
    ensures
        a == relay_action_model(*ev, should_stream),
        *ev is SendFailed ==> a is Stop,
{
    match ev {
        RelayEvent::ReadData { len } => {
            if *len == 0 {
                RelayAction::Stop
            } else if should_stream {
                RelayAction::Forward
            } else {
                RelayAction::Discard
            }
        },
        RelayEvent::ReadFailed => RelayAction::Stop,
        RelayEvent::SendFailed => RelayAction::Stop,
    }
}

} // verus!
