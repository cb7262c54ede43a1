//! Per-frame delivery responses sent back to a Send connection.

use vstd::prelude::*;
use vstd::string::StringExecFns;

verus! {

/// Outcome of delivering one message frame.
#[derive(Clone, Copy, Debug, PartialEq, Eq, Structural)]
pub enum Status {
    Success,
    InvalidIdentifier,
    ServerError,
}

/// The name of a status as it appears on the wire.
pub open spec fn status_name(code: Status) -> Seq<char> {
    match code {
        Status::Success => "Success"@,
        Status::InvalidIdentifier => "InvalidIdentifier"@,
        Status::ServerError => "ServerError"@,
    }
}

/// The response frame `<status>;<message>`.
pub open spec fn response_text(code: Status, message: Seq<char>) -> Seq<char> {
    status_name(code) + ";"@ + message
}

/// Builder of response frames.
pub struct Response;

impl Response {
    /// Renders a response as `<status>;<message>`.
    pub fn generate_res(code: Status, message: String) -> (r: String)
        ensures
            r@ == response_text(code, message@),
    {
        let head: String = match code {
            Status::InvalidIdentifier => String::from_str("InvalidIdentifier;"),
            Status::ServerError => String::from_str("ServerError;"),
            Status::Success => String::from_str("Success;"),
        };
        proof {
            reveal_strlit("InvalidIdentifier;");
            reveal_strlit("ServerError;");
            reveal_strlit("Success;");
            reveal_strlit("InvalidIdentifier");
            reveal_strlit("ServerError");
            reveal_strlit("Success");
            reveal_strlit(";");
        }
        let r = head.concat(message.as_str());
        proof {
            assert(r@ =~= response_text(code, message@));
        }
        r
    }
}

} // verus!
