//! One Wake-on-LAN send, as an event-driven protocol.
//!
//! The caller's event loop opens a broadcast UDP socket, waits for
//! write-readiness, sends the magic packet to the limited-broadcast address
//! on port 9, and reports each observation here. Unlike probing, a wake is a
//! discrete user action, so its failures are surfaced rather than absorbed.

use vstd::prelude::*;

verus! {

/// Why a wake failed.
#[derive(Clone, Copy, Debug, PartialEq, Eq, Structural)]
pub enum WolError {
    /// The UDP broadcast socket could not be opened.
    SocketSetup,
    /// The socket reported a condition other than writable.
    NotWritable,
    /// Fewer than 102 bytes of the magic packet were sent.
    ShortWrite,
}

/// Where a wake stands between two observations of its socket.
#[derive(Clone, Copy, Debug)]
pub enum WakePhase {
    /// The socket has not been opened yet.
    AwaitOpen,
    /// Waiting for the socket to report write-readiness.
    AwaitWritable,
    /// Ready to send the magic packet.
    AwaitSend,
    /// The wake is over; the socket must be released.
    Done(Result<(), WolError>),
}

/// One wake, driven by the caller's event loop.
#[derive(Clone, Copy, Debug)]
pub struct WakeSession {
    /// Where the wake stands.
    pub phase: WakePhase,
}

impl WakeSession {
    /// Begin a wake.
    pub fn start() -> (s: Self)
        ensures
            s.phase matches WakePhase::AwaitOpen,
    {
        WakeSession { phase: WakePhase::AwaitOpen }
    }

    /// Record whether the UDP broadcast socket could be opened.
    pub fn on_socket(&mut self, opened: bool)
        requires
            old(self).phase matches WakePhase::AwaitOpen,
        ensures
            final(self).phase == if opened {
                WakePhase::AwaitWritable
            } else {
                WakePhase::Done(Err::<(), WolError>(WolError::SocketSetup))
            },
    {
        if opened {
            self.phase = WakePhase::AwaitWritable;
        } else {
            self.phase = WakePhase::Done(Err(WolError::SocketSetup));
        }
    }

    /// Record what the wait for write-readiness reported.
    pub fn on_writable(&mut self, writable: bool)
        requires
            old(self).phase matches WakePhase::AwaitWritable,
        ensures
            final(self).phase == if writable {
                WakePhase::AwaitSend
            } else {
                WakePhase::Done(Err::<(), WolError>(WolError::NotWritable))
            },
    {
        if writable {
            self.phase = WakePhase::AwaitSend;
        } else {
            self.phase = WakePhase::Done(Err(WolError::NotWritable));
        }
    }

    /// Record how many bytes of the magic packet were sent and settle the
    /// outcome: anything short of the full 102 bytes is a failed wake.
    pub fn on_sent(&mut self, n: usize)
        requires
            old(self).phase matches WakePhase::AwaitSend,
        ensures
            final(self).phase == if n == 102 {
                WakePhase::Done(Ok::<(), WolError>(()))
            } else {
                WakePhase::Done(Err::<(), WolError>(WolError::ShortWrite))
            },
    {
        if n == 102 {
            self.phase = WakePhase::Done(Ok(()));
        } else {
            self.phase = WakePhase::Done(Err(WolError::ShortWrite));
        }
    }

    /// Whether the wake is over, so that the socket must be released.
    pub fn finished(&self) -> (r: bool)
        ensures
            r == (self.phase matches WakePhase::Done(_)),
    {
        match self.phase {
            WakePhase::Done(_) => true,
            _ => false,
        }
    }

    /// The settled outcome, if the wake is over.
    pub fn outcome(&self) -> (r: Option<Result<(), WolError>>)
        ensures
            match self.phase {
                WakePhase::Done(x) => r == Some(x),
                _ => r is None,
            },
    {
        match self.phase {
            WakePhase::Done(x) => Some(x),
            _ => None,
        }
    }
}

} // verus!
