use vstd::prelude::*;

verus! {

/// Failure of a single `call` against the connection, or of the connection
/// itself.
///
/// `Status` reports a call attempted while the connection was not up,
/// `Timeout` a call whose correlated response never arrived within the
/// window, and `WebSocket` a transport failure, which is terminal for the
/// connection.
#[derive(Debug, PartialEq)]
pub enum ConnectError {
    Status(&'static str),
    Timeout,
    WebSocket,
}

impl ConnectError {
    /// Human-readable account of the failure.
    pub fn message(&self) -> (r: String)
        ensures
            self is Status ==> r@ == "Invalid status: "@ + self->Status_0@,
            self is Timeout ==> r@ == "Call api timeout"@,
            self is WebSocket ==> r@ == "WebSocket error"@,
    {
        match self {
            ConnectError::Status(detail) => {
                let mut text = String::from_str("Invalid status: ");
                text.append(detail);
                text
            },
            ConnectError::Timeout => String::from_str("Call api timeout"),
            ConnectError::WebSocket => String::from_str("WebSocket error"),
        }
    }
}

} // verus!
