use vstd::prelude::*;

verus! {

/// Declares `std::io::Error`, carried opaquely by the transport failures.
#[verifier::external_type_specification]
#[verifier::external_body]
pub struct ExIoError(std::io::Error);

/// Represents errors that can occur while interacting with a RAC server.
#[derive(Debug)]
pub enum ClientError {
    /// Failed to establish a TCP connection to the server.
    ConnectionError(std::io::Error),
    /// Failed to write data to the stream.
    StreamWriteError(std::io::Error),
    /// Failed to read data from the stream.
    StreamReadError(std::io::Error),
    /// Failed to read a message via WebSocket.
    WsReadError(String),
    /// Failed to send a message via WebSocket.
    WsSendError(String),
    /// Failed to parse data received from the server.
    ParseError(String),
    /// The server closed the connection without answering.
    ServerClosedConnection,
    /// The specified user does not exist on the server.
    UserDoesNotExist,
    /// The provided password is incorrect.
    IncorrectPassword,
    /// The server answered with something unexpected; carries the reply.
    UnexpectedResponse(String),
    /// The username is already taken.
    UsernameAlreadyTaken,
    /// The operation needs a password and none is configured.
    NoPassword,
    /// Setting up TLS (or the WebSocket handshake) failed.
    TlsInitializationError(String),
    /// A WRAC operation was attempted before the connection was prepared.
    NoConnectionWRAC,
    /// The server reported a total smaller than what was already fetched.
    SizeDecreased,
}

/// Represents the credentials used to talk to a RAC server.
#[derive(Debug, Clone)]
pub struct Credentials {
    /// The username for authentication.
    pub username: String,
    /// The password for authentication; its presence selects authenticated mode.
    pub password: Option<String>,
}

impl Default for Credentials {
    fn default() -> (r: Credentials)
        ensures
            r.username@.len() == 0,
            r.password is None,
    {
        Credentials { username: String::new(), password: None }
    }
}

} // verus!
