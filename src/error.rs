//! Error types of the codec, the connection workers and the server.

use vstd::prelude::*;
use vstd::string::StringExecFns;

verus! {

#[verifier::external_type_specification]
#[verifier::external_body]
pub struct ExIoError(std::io::Error);

#[verifier::external_type_specification]
#[verifier::external_body]
pub struct ExRecvError(std::sync::mpsc::RecvError);

/// Errors of the wire protocol.
///
/// `SessionExtractionError`: a handshake named neither role.
/// `FromatError`: a frame does not follow the layout of the protocol.
#[derive(Debug)]
pub enum ProtocolError {
    SessionExtractionError(String),
    FromatError(String),
}

/// Errors of the channels between connection workers.
#[derive(Debug)]
pub enum ThreadError {
    ChannelReceiveError(std::sync::mpsc::RecvError),
    ChannelSendError(std::sync::mpsc::RecvError),
}

/// Errors of the server.
///
/// `AddressBindError` is fatal at startup; `StreamAcceptError` and
/// `StreamReadError` are logged and the server goes on; `ProtocolError` and
/// `ThreadError` end at most the one connection they arose on.
#[derive(Debug)]
pub enum ServerError {
    AddressBindError(std::io::Error),
    StreamAcceptError(std::io::Error),
    StreamReadError(std::io::Error),
    ProtocolError(ProtocolError),
    ThreadError(ThreadError),
}

/// The report `{ error: <kind>; info: <info> }`.
pub open spec fn report_text(kind: Seq<char>, info: Seq<char>) -> Seq<char> {
    "{ error: "@ + kind + "; info: "@ + info + " }"@
}

/// Renders `{ error: <kind>; info: <info> }`.
pub fn report(kind: &str, info: &str) -> (r: String)
    ensures
        r@ == report_text(kind@, info@),
{
    let r = String::from_str("{ error: ").concat(kind).concat("; info: ").concat(info).concat(" }");
    assert(r@ =~= report_text(kind@, info@));
    r
}

/// Relies on the `Display` impl of `std::io::Error`, whose text comes from the
/// operating system.
#[verifier::external_body]
fn io_error_text(e: &std::io::Error) -> (r: String) {
    format!("{}", e)
}

/// Relies on the `Display` impl of `std::sync::mpsc::RecvError`.
#[verifier::external_body]
fn recv_error_text(e: &std::sync::mpsc::RecvError) -> (r: String) {
    format!("{}", e)
}

impl ProtocolError {
    /// The name of the variant, as reports show it.
    pub open spec fn kind_name(&self) -> Seq<char> {
        match self {
            ProtocolError::SessionExtractionError(_) => "SessionExtractionError"@,
            ProtocolError::FromatError(_) => "FormatError"@,
        }
    }

    /// The text that the error carries.
    pub open spec fn info(&self) -> Seq<char> {
        match self {
            ProtocolError::SessionExtractionError(s) => s@,
            ProtocolError::FromatError(s) => s@,
        }
    }

    /// Renders the error as `{ error: <kind>; info: <text> }`.
    pub fn describe(&self) -> (r: String)
        ensures
            r@ == report_text(self.kind_name(), self.info()),
    {
        match self {
            ProtocolError::FromatError(e) => report("FormatError", e.as_str()),
            ProtocolError::SessionExtractionError(e) => report("SessionExtractionError", e.as_str()),
        }
    }
}

impl ThreadError {
    /// The name of the variant, as reports show it.
    pub open spec fn kind_name(&self) -> Seq<char> {
        match self {
            ThreadError::ChannelReceiveError(_) => "ChannelReceiveError"@,
            ThreadError::ChannelSendError(_) => "ChannelSendError"@,
        }
    }

    /// Renders the error as `{ error: <kind>; info: <text> }`, the text being
    /// what the channel error says of itself.
    pub fn describe(&self) -> (r: String)
        ensures
            exists|info: Seq<char>| r@ == report_text(self.kind_name(), info),
    {
        match self {
            ThreadError::ChannelReceiveError(e) => {
                let info = recv_error_text(e);
                let r = report("ChannelReceiveError", info.as_str());
                assert(r@ == report_text(self.kind_name(), info@));
                r
            },
            ThreadError::ChannelSendError(e) => {
                let info = recv_error_text(e);
                let r = report("ChannelSendError", info.as_str());
                assert(r@ == report_text(self.kind_name(), info@));
                r
            },
        }
    }
}

impl ServerError {
    /// The name of the variant, as reports show it.
    pub open spec fn kind_name(&self) -> Seq<char> {
        match self {
            ServerError::AddressBindError(_) => "AddressBindError"@,
            ServerError::StreamAcceptError(_) => "StreamAcceptError"@,
            ServerError::StreamReadError(_) => "StreamReadError"@,
            ServerError::ProtocolError(_) => "ProtocolError"@,
            ServerError::ThreadError(_) => "ThreadError"@,
        }
    }

    /// Renders the error as `{ error: <kind>; info: <text> }`, where the text of
    /// a protocol error is its own report.
    pub fn describe(&self) -> (r: String)
        ensures
            exists|info: Seq<char>| r@ == report_text(self.kind_name(), info),
            match self {
                ServerError::ProtocolError(p) => r@ == report_text(
                    self.kind_name(),
                    report_text(p.kind_name(), p.info()),
                ),
                ServerError::ThreadError(t) => exists|x: Seq<char>|
                    r@ == report_text(self.kind_name(), report_text(t.kind_name(), x)),
                _ => true,
            },
    {
        match self {
            ServerError::AddressBindError(e) => {
                let info = io_error_text(e);
                let r = report("AddressBindError", info.as_str());
                assert(r@ == report_text(self.kind_name(), info@));
                r
            },
            ServerError::StreamAcceptError(e) => {
                let info = io_error_text(e);
                let r = report("StreamAcceptError", info.as_str());
                assert(r@ == report_text(self.kind_name(), info@));
                r
            },
            ServerError::StreamReadError(e) => {
                let info = io_error_text(e);
                let r = report("StreamReadError", info.as_str());
                assert(r@ == report_text(self.kind_name(), info@));
                r
            },
            ServerError::ProtocolError(p) => {
                let info = p.describe();
                let r = report("ProtocolError", info.as_str());
                assert(r@ == report_text(self.kind_name(), info@));
                r
            },
            ServerError::ThreadError(t) => {
                let info = t.describe();
                let r = report("ThreadError", info.as_str());
                assert(r@ == report_text(self.kind_name(), info@));
                let ghost x = choose|x: Seq<char>| info@ == report_text(t.kind_name(), x);
                assert(r@ == report_text(self.kind_name(), report_text(t.kind_name(), x)));
                r
            },
        }
    }
}

} // verus!
