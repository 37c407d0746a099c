//! The session wire protocol: its messages, and the frames that carry them
//! (a four-byte big-endian length, then a JSON payload).
use vstd::prelude::*;
use crate::model::{
    BoundaryReplayDirective, CapabilitySet, ControlAction, ControlResponse, EventEnvelope,
    ReplayMode, SessionId, SwatError, SwatResult, TargetDescriptor, TargetId,
};
use crate::text::{decimal, owned, push_decimal, push_str};

verus! {

/// The protocol version that this side speaks.
pub const CURRENT_PROTOCOL_VERSION: &'static str = "0.1.0-alpha";

/// Bytes of the length prefix of a frame.
pub const LENGTH_PREFIX_BYTES: usize = 4;

#[derive(Clone, Debug, PartialEq, Eq)]
pub struct SessionHello {
    pub session_id: SessionId,
    pub protocol_version: String,
    pub requested_replay_mode: ReplayMode,
}

#[derive(Clone, Debug, PartialEq, Eq)]
pub struct Attached {
    pub session_id: SessionId,
    pub descriptor: TargetDescriptor,
    pub capabilities: CapabilitySet,
}

#[derive(Clone, Debug, PartialEq, Eq)]
pub struct EventBatch {
    pub session_id: SessionId,
    pub target_id: TargetId,
    pub events: Vec<EventEnvelope>,
}

#[derive(Clone, Debug, PartialEq, Eq)]
pub struct ControlRequest {
    pub session_id: SessionId,
    pub target_id: TargetId,
    pub action: ControlAction,
}

#[derive(Clone, Debug, PartialEq, Eq)]
pub struct ControlResponseEnvelope {
    pub session_id: SessionId,
    pub target_id: TargetId,
    pub response: ControlResponse,
}

#[derive(Clone, Debug, PartialEq, Eq)]
pub struct ReplayDirectiveEnvelope {
    pub session_id: SessionId,
    pub target_id: TargetId,
    pub directive: BoundaryReplayDirective,
}

/// A message of the session protocol.
#[derive(Clone, Debug, PartialEq, Eq)]
pub enum ProtocolMessage {
    Hello(SessionHello),
    Attached(Attached),
    EventBatch(EventBatch),
    ControlRequest(ControlRequest),
    ControlResponse(ControlResponseEnvelope),
    ReplayDirective(ReplayDirectiveEnvelope),
}

impl ProtocolMessage {
    /// The name of the message kind.
    pub fn name(&self) -> (r: &'static str)
        ensures
            r@ == match self {
                ProtocolMessage::Hello(_) => "hello"@,
                ProtocolMessage::Attached(_) => "attached"@,
                ProtocolMessage::EventBatch(_) => "event-batch"@,
                ProtocolMessage::ControlRequest(_) => "control-request"@,
                ProtocolMessage::ControlResponse(_) => "control-response"@,
                ProtocolMessage::ReplayDirective(_) => "replay-directive"@,
            },
    {
        match self {
            ProtocolMessage::Hello(_) => "hello",
            ProtocolMessage::Attached(_) => "attached",
            ProtocolMessage::EventBatch(_) => "event-batch",
            ProtocolMessage::ControlRequest(_) => "control-request",
            ProtocolMessage::ControlResponse(_) => "control-response",
            ProtocolMessage::ReplayDirective(_) => "replay-directive",
        }
    }
}

/// What travels in a frame: the sender's protocol version and a message.
#[derive(Clone, Debug, PartialEq, Eq)]
pub struct WireEnvelope {
    pub protocol_version: String,
    pub message: ProtocolMessage,
}

/// The four big-endian bytes of `n`.
pub open spec fn be_bytes(n: u32) -> Seq<u8> {
    seq![
        (n / 16777216) as u8,
        ((n / 65536) % 256) as u8,
        ((n / 256) % 256) as u8,
        (n % 256) as u8,
    ]
}

/// The number that four big-endian bytes spell.
pub open spec fn be_value(b: Seq<u8>) -> nat {
    (b[0] as nat) * 16777216 + (b[1] as nat) * 65536 + (b[2] as nat) * 256 + (b[3] as nat)
}

/// The frame of a payload: its length in four big-endian bytes, then the
/// payload.
pub open spec fn frame_of(payload: Seq<u8>) -> Seq<u8> {
    be_bytes(payload.len() as u32) + payload
}

/// What taking a frame apart gives: the payload, or the error message.
pub open spec fn unframe_result(frame: Seq<u8>) -> Result<Seq<u8>, Seq<char>> {
    if frame.len() < 4 {
        Err("protocol frame is shorter than its length prefix"@)
    } else if frame.len() - 4 != be_value(frame.subrange(0, 4)) {
        Err(
            "protocol frame length mismatch: declared "@ + decimal(be_value(frame.subrange(0, 4)))
                + ", actual "@ + decimal((frame.len() - 4) as nat),
        )
    } else {
        Ok(frame.subrange(4, frame.len() as int))
    }
}

/// The codec of length-prefixed JSON frames.
#[derive(Clone, Copy, Debug)]
pub struct LengthPrefixedJsonCodec;

impl LengthPrefixedJsonCodec {
    /// Frames `payload`: its length as four big-endian bytes, then the
    /// payload. A payload of 2^32 bytes or more has no length prefix.
    pub fn frame(&self, payload: &[u8]) -> (r: SwatResult<Vec<u8>>)
        ensures
            payload@.len() <= u32::MAX ==> (r matches Ok(f) && f@ == frame_of(payload@)),
            payload@.len() > u32::MAX ==> (r matches Err(e) && e@
                == "protocol frame exceeds u32 length prefix"@),
    {
        let n = payload.len();
        if n > 4294967295 {
            return Err(SwatError::new(owned("protocol frame exceeds u32 length prefix")));
        }
        let len = n as u32;
        let mut frame: Vec<u8> = Vec::new();
        frame.push((len / 16777216) as u8);
        frame.push(((len / 65536) % 256) as u8);
        frame.push(((len / 256) % 256) as u8);
        frame.push((len % 256) as u8);
        let mut i: usize = 0;
        while i < n
            invariant
                i <= n,
                n == payload@.len(),
                len == n,
                frame@ == be_bytes(len) + payload@.subrange(0, i as int),
            decreases n - i,
        {
            frame.push(payload[i]);
            assert(payload@.subrange(0, i + 1) =~= payload@.subrange(0, i as int).push(
                payload@[i as int],
            ));
            assert(frame@ =~= be_bytes(len) + payload@.subrange(0, i + 1));
            i += 1;
        }
        assert(payload@.subrange(0, n as int) =~= payload@);
        Ok(frame)
    }

    /// Takes a frame apart: checks the length prefix against the payload
    /// and gives the payload.
    pub fn unframe<'a>(&self, frame: &'a [u8]) -> (r: SwatResult<&'a [u8]>)
        ensures
            match unframe_result(frame@) {
                Ok(p) => r matches Ok(s) && s@ == p,
                Err(m) => r matches Err(e) && e@ == m,
            },
    {
        let n = frame.len();
        if n < LENGTH_PREFIX_BYTES {
            return Err(
                SwatError::new(owned("protocol frame is shorter than its length prefix")),
            );
        }
        let declared: u64 = (frame[0] as u64) * 16777216 + (frame[1] as u64) * 65536 + (
        frame[2] as u64) * 256 + (frame[3] as u64);
        assert(declared == be_value(frame@.subrange(0, 4)));
        let actual = (n - LENGTH_PREFIX_BYTES) as u64;
        if actual != declared {
            let mut m = String::new();
            push_str(&mut m, "protocol frame length mismatch: declared ");
            push_decimal(&mut m, declared);
            push_str(&mut m, ", actual ");
            push_decimal(&mut m, actual);
            return Err(SwatError::new(m));
        }
        Ok(&frame[LENGTH_PREFIX_BYTES..n])
    }

    /// Accepts an envelope only in the current protocol version.
    pub fn check_version(&self, protocol_version: &str) -> (r: SwatResult<()>)
        ensures
            protocol_version@ == CURRENT_PROTOCOL_VERSION@ ==> r is Ok,
            protocol_version@ != CURRENT_PROTOCOL_VERSION@ ==> (r matches Err(e) && e@
                == "unsupported protocol version "@ + protocol_version@),
    {
        if crate::text::str_eq(protocol_version, CURRENT_PROTOCOL_VERSION) {
            Ok(())
        } else {
            let mut m = String::new();
            push_str(&mut m, "unsupported protocol version ");
            push_str(&mut m, protocol_version);
            Err(SwatError::new(m))
        }
    }
}

/// Taking a frame apart gives back the payload that was framed, for every
/// payload that a length prefix can count.
pub proof fn law_unframe_frame(payload: Seq<u8>)
    requires
        payload.len() <= u32::MAX,
    ensures
        unframe_result(frame_of(payload)) == Ok::<Seq<u8>, Seq<char>>(payload),
{
    let f = frame_of(payload);
    let n = payload.len() as u32;
    assert(f.subrange(0, 4) =~= be_bytes(n));
    assert(be_value(be_bytes(n)) == n) by (nonlinear_arith)
        requires
            be_bytes(n)[0] == (n / 16777216) as u8,
            be_bytes(n)[1] == ((n / 65536) % 256) as u8,
            be_bytes(n)[2] == ((n / 256) % 256) as u8,
            be_bytes(n)[3] == (n % 256) as u8,
    ;
    assert(f.subrange(4, f.len() as int) =~= payload);
}

} // verus!
