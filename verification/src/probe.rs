//! One ICMP echo probe of one address, as an event-driven protocol.
//!
//! The caller's event loop owns the socket and the waits; it reports each
//! observation to the session, which decides the next step and the outcome.
//! A session that has reached `Done` tells the loop to release the socket:
//! that release is owed on every exit path, success or failure alike.

use vstd::prelude::*;
use crate::addr::IpAddress;
use crate::packet::{spec_echo_request_type, spec_echo_reply_type, echo_request, spec_sig_byte};

verus! {

/// Why a probe failed.
#[derive(Clone, Copy, Debug, PartialEq, Eq, Structural)]
pub enum ProbeError {
    /// The ICMP datagram socket could not be opened.
    SocketSetup,
    /// The socket reported a condition other than writable.
    NotWritable,
    /// Fewer than 56 bytes of the request were sent.
    ShortWrite,
    /// The socket reported a condition other than readable.
    NotReadable,
    /// The reply was not exactly 56 bytes.
    ShortRead,
    /// The reply's type byte was not the success type for the family.
    UnexpectedReply,
}

/// What a reply buffer decides: a wrong length is rejected whatever its
/// content, then the type byte must be the family's success-reply type.
pub open spec fn spec_check_reply(v6: bool, reply: Seq<u8>) -> Result<(), ProbeError> {
    if reply.len() != 56 {
        Err(ProbeError::ShortRead)
    } else if reply[0] != spec_echo_reply_type(v6) {
        Err(ProbeError::UnexpectedReply)
    } else {
        Ok(())
    }
}

/// Validate a reply buffer against the family's expected echo reply.
pub fn check_echo_reply(v6: bool, reply: &Vec<u8>) -> (r: Result<(), ProbeError>)
    ensures
        r == spec_check_reply(v6, reply@),
        reply@.len() != 56 ==> r == Err::<(), ProbeError>(ProbeError::ShortRead),
{
    if reply.len() != 56 {
        Err(ProbeError::ShortRead)
    } else {
        let expected: u8 = if v6 {
            129
        } else {
            0
        };
        if reply[0] != expected {
            Err(ProbeError::UnexpectedReply)
        } else {
            Ok(())
        }
    }
}

/// Where a probe stands between two observations of its socket.
#[derive(Clone, Copy, Debug)]
pub enum ProbePhase {
    /// The socket has not been opened yet.
    AwaitOpen,
    /// Waiting for the socket to report write-readiness.
    AwaitWritable,
    /// Ready to send the echo request.
    AwaitSend,
    /// Waiting for the socket to report read-readiness.
    AwaitReadable,
    /// Ready to receive the reply.
    AwaitReply,
    /// The probe is over; the socket must be released.
    Done(Result<(), ProbeError>),
}

/// One probe of one address, driven by the caller's event loop.
#[derive(Clone, Copy, Debug)]
pub struct ProbeSession {
    /// Whether the probed address is IPv6, fixed at the start.
    pub v6: bool,
    /// Where the probe stands.
    pub phase: ProbePhase,
}

impl ProbeSession {
    /// Begin a probe of `addr`.
    pub fn start(addr: &IpAddress) -> (s: Self)
        ensures
            s.v6 == (*addr matches IpAddress::V6(_)),
            s.phase matches ProbePhase::AwaitOpen,
    {
        ProbeSession { v6: addr.is_v6(), phase: ProbePhase::AwaitOpen }
    }

    /// Record whether the ICMP datagram socket could be opened.
    pub fn on_socket(&mut self, opened: bool)
        requires
            old(self).phase matches ProbePhase::AwaitOpen,
        ensures
            final(self).v6 == old(self).v6,
            final(self).phase == if opened {
                ProbePhase::AwaitWritable
            } else {
                ProbePhase::Done(Err::<(), ProbeError>(ProbeError::SocketSetup))
            },
    {
        if opened {
            self.phase = ProbePhase::AwaitWritable;
        } else {
            self.phase = ProbePhase::Done(Err(ProbeError::SocketSetup));
        }
    }

    /// Record what the wait for write-readiness reported.
    pub fn on_writable(&mut self, writable: bool)
        requires
            old(self).phase matches ProbePhase::AwaitWritable,
        ensures
            final(self).v6 == old(self).v6,
            final(self).phase == if writable {
                ProbePhase::AwaitSend
            } else {
                ProbePhase::Done(Err::<(), ProbeError>(ProbeError::NotWritable))
            },
    {
        if writable {
            self.phase = ProbePhase::AwaitSend;
        } else {
            self.phase = ProbePhase::Done(Err(ProbeError::NotWritable));
        }
    }

    /// The echo request to send: the fixed 56-byte datagram for the family.
    pub fn request(&self) -> (r: Vec<u8>)
        requires
            self.phase matches ProbePhase::AwaitSend,
        ensures
            r@.len() == 56,
            r@[0] == spec_echo_request_type(self.v6),
            forall|i: int| 1 <= i < 8 ==> r@[i] == 0,
            forall|i: int| 0 <= i < 48 ==> #[trigger] r@[8 + i] == spec_sig_byte(i % 12),
    {
        echo_request(self.v6)
    }

    /// Record how many bytes of the request were sent.
    pub fn on_sent(&mut self, n: usize)
        requires
            old(self).phase matches ProbePhase::AwaitSend,
        ensures
            final(self).v6 == old(self).v6,
            final(self).phase == if n == 56 {
                ProbePhase::AwaitReadable
            } else {
                ProbePhase::Done(Err::<(), ProbeError>(ProbeError::ShortWrite))
            },
    {
        if n == 56 {
            self.phase = ProbePhase::AwaitReadable;
        } else {
            self.phase = ProbePhase::Done(Err(ProbeError::ShortWrite));
        }
    }

    /// Record what the wait for read-readiness reported.
    pub fn on_readable(&mut self, readable: bool)
        requires
            old(self).phase matches ProbePhase::AwaitReadable,
        ensures
            final(self).v6 == old(self).v6,
            final(self).phase == if readable {
                ProbePhase::AwaitReply
            } else {
                ProbePhase::Done(Err::<(), ProbeError>(ProbeError::NotReadable))
            },
    {
        if readable {
            self.phase = ProbePhase::AwaitReply;
        } else {
            self.phase = ProbePhase::Done(Err(ProbeError::NotReadable));
        }
    }

    /// Record the received reply bytes and settle the probe's outcome.
    pub fn on_reply(&mut self, reply: &Vec<u8>)
        requires
            old(self).phase matches ProbePhase::AwaitReply,
        ensures
            final(self).v6 == old(self).v6,
            final(self).phase == ProbePhase::Done(spec_check_reply(old(self).v6, reply@)),
    {
        let outcome = check_echo_reply(self.v6, reply);
        self.phase = ProbePhase::Done(outcome);
    }

    /// Whether the probe is over, so that the socket must be released.
    pub fn finished(&self) -> (r: bool)
        ensures
            r == (self.phase matches ProbePhase::Done(_)),
    {
        match self.phase {
            ProbePhase::Done(_) => true,
            _ => false,
        }
    }

    /// The settled outcome, if the probe is over.
    pub fn outcome(&self) -> (r: Option<Result<(), ProbeError>>)
        ensures
            match self.phase {
                ProbePhase::Done(x) => r == Some(x),
                _ => r is None,
            },
    {
        match self.phase {
            ProbePhase::Done(x) => Some(x),
            _ => None,
        }
    }
}

} // verus!
