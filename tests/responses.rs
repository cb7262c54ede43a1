use relay::error::{report, ProtocolError, ServerError, ThreadError};
use relay::handler::delivery_response;
use relay::response::{Response, Status};
use relay::server::{status_for, Server};

#[test]
fn response_frames() {
    assert_eq!(Response::generate_res(Status::Success, "ok".to_string()), "Success;ok");
    assert_eq!(
        Response::generate_res(Status::InvalidIdentifier, "who".to_string()),
        "InvalidIdentifier;who"
    );
    assert_eq!(Response::generate_res(Status::ServerError, String::new()), "ServerError;");
}

#[test]
fn delivery_responses_start_with_status() {
    assert_eq!(delivery_response(Status::Success), "Success;The message has been dispatched");
    assert!(delivery_response(Status::InvalidIdentifier).starts_with("InvalidIdentifier;"));
    assert!(delivery_response(Status::ServerError).starts_with("ServerError;"));
}

#[test]
fn status_of_delivery() {
    assert_eq!(status_for(false, false), Status::InvalidIdentifier);
    assert_eq!(status_for(true, true), Status::Success);
    assert_eq!(status_for(true, false), Status::ServerError);
}

#[test]
fn error_reports() {
    assert_eq!(report("X", "y"), "{ error: X; info: y }");
    let e = ProtocolError::FromatError("bad".to_string());
    assert_eq!(e.describe(), "{ error: FormatError; info: bad }");
    let s = ServerError::ProtocolError(ProtocolError::SessionExtractionError("who".to_string()));
    assert_eq!(
        s.describe(),
        "{ error: ProtocolError; info: { error: SessionExtractionError; info: who } }"
    );
    let io = ServerError::StreamReadError(std::io::Error::new(std::io::ErrorKind::Other, "boom"));
    assert_eq!(io.describe(), "{ error: StreamReadError; info: boom }");
}

#[test]
fn address_is_trimmed_host_and_port() {
    assert_eq!(Server::new("  localhost \n".to_string(), 5000).construct_addr(), "localhost:5000");
    assert_eq!(Server::new("h".to_string(), -12).construct_addr(), "h:-12");
    assert_eq!(Server::new("h".to_string(), 0).construct_addr(), "h:0");
}

#[test]
fn channel_error_report() {
    let e = ThreadError::ChannelReceiveError(std::sync::mpsc::RecvError);
    let text = e.describe();
    assert!(text.starts_with("{ error: ChannelReceiveError; info: "));
    assert!(text.ends_with(" }"));
    assert!(text.len() > "{ error: ChannelReceiveError; info:  }".len());
}

#[test]
fn thread_error_report_nests() {
    let e = ServerError::ThreadError(ThreadError::ChannelSendError(std::sync::mpsc::RecvError));
    assert!(e.describe().starts_with("{ error: ThreadError; info: { error: ChannelSendError; info: "));
    assert!(e.describe().ends_with(" } }"));
    assert!(format!("{:?}", e).contains("ThreadError"));
}
