//! The connection roles and the decisions of a connection worker.

use vstd::prelude::*;

use crate::error::ProtocolError;
use crate::protocol::{
    frame_bytes, get_type_for_raw_utf8, handshake_outcome, message_fields, message_frame,
    serialize_message, BaseProtocol, Data, DataTransferProtocol, ParsedData,
};
use crate::pto::BaseProto;
use crate::response::{response_text, Response, Status};
use vstd::string::StringExecFns;

verus! {

/// The role a connection takes in its handshake.
///
/// `Send(to)`: the connection sends messages, to the alias `to`.
/// `Receive(alias)`: the connection receives the messages addressed to `alias`.
#[derive(Debug)]
pub enum TransmitService {
    Send(String),
    Receive(String),
}

impl Clone for TransmitService {
    fn clone(&self) -> (r: Self)
        ensures
            r == *self,
    {
        match self {
            TransmitService::Send(s) => TransmitService::Send(s.clone()),
            TransmitService::Receive(s) => TransmitService::Receive(s.clone()),
        }
    }
}

/// The life of a connection: the handshake, then the role it took, until it
/// closes. `Closed` is final.
pub enum Phase {
    Handshaking,
    Active(TransmitService),
    Closed,
}

/// What a Send connection's read gave.
pub enum SendEvent {
    /// The read failed.
    ReadFailed,
    /// The read gave no bytes: the peer closed the connection.
    PeerClosed,
    /// The read gave a frame.
    Frame(Data),
}

/// What a Send connection does next.
pub enum SendStep {
    /// Read again.
    RetryRead,
    /// Stop the worker and deregister it.
    Terminate,
    /// Drop the frame, which did not decode, and read again.
    Discard(ProtocolError),
    /// Deliver the message and answer with the delivery's status.
    Deliver(BaseProto),
}

/// What a Receive connection's channel gave.
pub enum ReceiveEvent {
    /// No producer is left: the channel is closed.
    ChannelClosed,
    /// A message arrived.
    Message(BaseProto),
}

/// What a Receive connection does next.
pub enum ReceiveStep {
    /// Stop the worker and deregister it.
    Terminate,
    /// Write these bytes to the peer.
    Write(Vec<u8>),
}

/// The protocol state of one connection.
pub struct Connection {
    phase: Phase,
    protocol: BaseProtocol,
}

/// The text that a response of the given status carries.
pub open spec fn delivery_note(code: Status) -> Seq<char> {
    match code {
        Status::Success => "The message has been dispatched"@,
        Status::InvalidIdentifier => "No receiver is registered under that alias"@,
        Status::ServerError => "The receiver could not take the message"@,
    }
}

/// The response frame that tells a Send connection how a delivery went.
pub fn delivery_response(code: Status) -> (r: String)
    ensures
        r@ == response_text(code, delivery_note(code)),
{
    let note = match code {
        Status::Success => String::from_str("The message has been dispatched"),
        Status::InvalidIdentifier => String::from_str("No receiver is registered under that alias"),
        Status::ServerError => String::from_str("The receiver could not take the message"),
    };
    Response::generate_res(code, note)
}

impl Connection {
    /// The phase the connection is in.
    pub closed spec fn phase(&self) -> Phase {
        self.phase
    }

    /// A connection that awaits its handshake.
    pub fn new() -> (r: Connection)
        ensures
            r.phase() is Handshaking,
    {
        Connection { phase: Phase::Handshaking, protocol: BaseProtocol::new() }
    }

    /// The connection is closed.
    pub fn is_closed(&self) -> (r: bool)
        ensures
            r == self.phase() is Closed,
    {
        match self.phase {
            Phase::Closed => true,
            _ => false,
        }
    }

    /// Takes the handshake frame. On success the connection becomes active
    /// in the role the frame names; on failure it closes: a handshake is
    /// never retried.
    pub fn handshake(&mut self, frame: &[u8]) -> (r: Result<TransmitService, ProtocolError>)
        requires
            old(self).phase() is Handshaking,
        ensures
            handshake_outcome(frame@, r),
            match r {
                Ok(s) => final(self).phase() == Phase::Active(s),
                Err(_) => final(self).phase() is Closed,
            },
    {
        match get_type_for_raw_utf8(frame) {
            Ok(s) => {
                self.phase = Phase::Active(s.clone());
                Ok(s)
            },
            Err(e) => {
                self.phase = Phase::Closed;
                Err(e)
            },
        }
    }

    /// Closes the connection. Tells whether this call closed it, so that the
    /// closing work is done once only.
    pub fn close(&mut self) -> (r: bool)
        ensures
            r == !(old(self).phase() is Closed),
            final(self).phase() is Closed,
    {
        let was_open = !self.is_closed();
        self.phase = Phase::Closed;
        was_open
    }

    /// Decides what a Send connection does after a read: read again after a
    /// failed read, stop when the peer closed, drop a frame that does not
    /// decode, deliver one that does.
    pub fn on_send_event(&mut self, ev: SendEvent) -> (r: SendStep)
        requires
            old(self).phase() matches Phase::Active(TransmitService::Send(_)),
        ensures
            match ev {
                SendEvent::ReadFailed => r is RetryRead && final(self).phase() == old(self).phase(),
                SendEvent::PeerClosed => r is Terminate && final(self).phase() is Closed,
                SendEvent::Frame(d) => final(self).phase() == old(self).phase() && match (
                    r,
                    message_fields(frame_bytes(d)),
                ) {
                    (SendStep::Deliver(m), Some(f)) => m@ == f,
                    (SendStep::Discard(e), None) => e is FromatError,
                    _ => false,
                },
            },
    {
        match ev {
            SendEvent::ReadFailed => SendStep::RetryRead,
            SendEvent::PeerClosed => {
                self.phase = Phase::Closed;
                SendStep::Terminate
            },
            SendEvent::Frame(d) => {
                let parsed: Result<ParsedData, ProtocolError> = self.protocol.parse(d);
                match parsed {
                    Err(e) => SendStep::Discard(e),
                    Ok(p) => SendStep::Deliver(p.into_message()),
                }
            },
        }
    }

    /// Decides what a Receive connection does with what its channel gave:
    /// stop when the channel is closed, else write the message's frame.
    pub fn on_receive_event(&mut self, ev: ReceiveEvent) -> (r: ReceiveStep)
        requires
            old(self).phase() matches Phase::Active(TransmitService::Receive(_)),
        ensures
            match ev {
                ReceiveEvent::ChannelClosed => r is Terminate && final(self).phase() is Closed,
                ReceiveEvent::Message(m) => final(self).phase() == old(self).phase() && (r matches ReceiveStep::Write(b) && b@ == message_frame(m@)),
            },
    {
        match ev {
            ReceiveEvent::ChannelClosed => {
                self.phase = Phase::Closed;
                ReceiveStep::Terminate
            },
            ReceiveEvent::Message(m) => ReceiveStep::Write(serialize_message(&m)),
        }
    }

    /// Decides whether a Receive connection goes on after a write: a failed
    /// write closes it, with no retry.
    pub fn on_write(&mut self, written: bool) -> (r: bool)
        requires
            old(self).phase() matches Phase::Active(TransmitService::Receive(_)),
        ensures
            r == written,
            written ==> final(self).phase() == old(self).phase(),
            !written ==> final(self).phase() is Closed,
    {
        if !written {
            self.phase = Phase::Closed;
        }
        written
    }
}

} // verus!
