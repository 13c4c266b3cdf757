//! The session of the stream variant: every operation runs over a fresh
//! duplex byte channel that the caller opens. The session decides what is
//! written and how each reply is read, and keeps the message-size cursor.
use crate::protocol::{
    decode_size_reply, fill_username, message_lines, remove_nulls, replace_all, size_in_reply,
    split_lines, texts_of, username_placeholder, without_nulls, Request,
};
use crate::shared::{ClientError, Credentials};
use vstd::prelude::*;

verus! {

/// What a session holds, as plain values.
pub ghost struct ClientView {
    pub cursor: nat,
    pub address: Seq<char>,
    pub username: Seq<char>,
    pub password: Option<Seq<char>>,
    pub use_tls: bool,
}

pub open spec fn password_view(password: Option<String>) -> Option<Seq<char>> {
    match password {
        Some(p) => Some(p@),
        None => None,
    }
}

/// Whether `req` registers `username` with `password`.
pub open spec fn is_register_request(req: Request, username: Seq<char>, password: Seq<char>) -> bool {
    match req {
        Request::Register { username: u, password: p } => u@ == username && p@ == password,
        _ => false,
    }
}

/// Whether `req` posts `message` as the session's user, or anonymously where
/// the session has no password.
pub open spec fn is_send_request(req: Request, view: ClientView, message: Seq<char>) -> bool {
    match view.password {
        Some(pw) => match req {
            Request::SendAuthenticated { username: u, password: p, message: m } => u@
                == view.username && p@ == pw && m@ == message,
            _ => false,
        },
        None => match req {
            Request::SendAnonymous(m) => m@ == message,
            _ => false,
        },
    }
}

/// What is left of a fetch once the size of the log is known: the request to
/// send on the same channel, the total to record, and how many bytes answer.
#[derive(Debug)]
pub struct FetchPlan {
    pub request: Request,
    pub total: usize,
    pub length: usize,
}

/// The outcome owed when the size reply is not a size: the same failure
/// that decoding it gives.
pub open spec fn size_failure<T>(reply: Seq<u8>, r: Result<T, ClientError>) -> bool {
    if reply.len() == 0 {
        r matches Err(ClientError::ServerClosedConnection)
    } else {
        r matches Err(ClientError::ParseError(_))
    }
}

/// Whether a size reply states a size.
pub open spec fn states_size(reply: Seq<u8>) -> bool {
    reply.len() > 0 && size_in_reply(reply) is Some
}

/// The size that a size reply states.
pub open spec fn stated_size(reply: Seq<u8>) -> nat {
    size_in_reply(reply)->Some_0
}

/// The plan owed for a full fetch after `reply`.
pub open spec fn fetch_all_result(reply: Seq<u8>, r: Result<FetchPlan, ClientError>) -> bool {
    if states_size(reply) {
        match r {
            Ok(plan) => plan.request is FetchAll && plan.total == stated_size(reply)
                && plan.length == stated_size(reply),
            Err(_) => false,
        }
    } else {
        size_failure(reply, r)
    }
}

/// The plan owed for a delta fetch from `known` after `reply`.
pub open spec fn fetch_new_result(known: nat, reply: Seq<u8>, r: Result<FetchPlan, ClientError>) -> bool {
    if states_size(reply) {
        if stated_size(reply) >= known {
            match r {
                Ok(plan) => plan.request == Request::FetchDelta(known as usize) && plan.total
                    == stated_size(reply) && plan.length == stated_size(reply) - known,
                Err(_) => false,
            }
        } else {
            r matches Err(ClientError::SizeDecreased)
        }
    } else {
        size_failure(reply, r)
    }
}

/// A client session for a RAC server.
#[derive(Debug, Clone)]
pub struct Client {
    current_messages_size: usize,
    address: String,
    username: String,
    password: Option<String>,
    use_tls: bool,
}

impl View for Client {
    type V = ClientView;

    closed spec fn view(&self) -> ClientView {
        ClientView {
            cursor: self.current_messages_size as nat,
            address: self.address@,
            username: self.username@,
            password: password_view(self.password),
            use_tls: self.use_tls,
        }
    }
}

impl Client {
    /// Creates a session with a zero cursor.
    pub fn new(address: String, credentials: Credentials, use_tls: bool) -> (r: Self)
        ensures
            r@ == (ClientView {
                cursor: 0,
                address: address@,
                username: credentials.username@,
                password: password_view(credentials.password),
                use_tls,
            }),
    {
        Client {
            current_messages_size: 0,
            address,
            username: credentials.username,
            password: credentials.password,
            use_tls,
        }
    }

    /// Replaces the username and password.
    pub fn update_credentials(&mut self, credentials: Credentials)
        ensures
            final(self)@ == (ClientView {
                username: credentials.username@,
                password: password_view(credentials.password),
                ..old(self)@
            }),
    {
        self.username = credentials.username;
        self.password = credentials.password;
    }

    /// Switches TLS on or off.
    pub fn update_tls(&mut self, use_tls: bool)
        ensures
            final(self)@ == (ClientView { use_tls, ..old(self)@ }),
    {
        self.use_tls = use_tls;
    }

    /// Replaces the server address.
    pub fn update_address(&mut self, address: String)
        ensures
            final(self)@ == (ClientView { address: address@, ..old(self)@ }),
    {
        self.address = address;
    }

    /// The registration request, or `NoPassword` where the session has no
    /// password; in that case nothing is to be sent at all.
    pub fn register_user(&self) -> (r: Result<Request, ClientError>)
        ensures
            match self@.password {
                Some(pw) => match r {
                    Ok(req) => is_register_request(req, self@.username, pw),
                    Err(_) => false,
                },
                None => r matches Err(ClientError::NoPassword),
            },
    {
        match &self.password {
            Some(pw) => Ok(Request::Register { username: self.username.clone(), password: pw.clone() }),
            None => Err(ClientError::NoPassword),
        }
    }

    /// Records the size that the reply to a size request states.
    ///
    /// On failure the cursor stays as it was.
    pub fn fetch_messages_size(&mut self, reply: &[u8]) -> (r: Result<(), ClientError>)
        ensures
            states_size(reply@) ==> r is Ok && final(self)@ == (ClientView {
                cursor: stated_size(reply@),
                ..old(self)@
            }),
            !states_size(reply@) ==> size_failure(reply@, r) && final(self)@ == old(self)@,
    {
        match decode_size_reply(reply) {
            Ok(n) => {
                self.current_messages_size = n;
                Ok(())
            },
            Err(e) => Err(e),
        }
    }

    /// Plans a full fetch from the reply to the size request sent first on
    /// the channel: the log is then asked for, and as many bytes as it holds.
    pub fn fetch_all_messages(&self, size_reply: &[u8]) -> (r: Result<FetchPlan, ClientError>)
        ensures
            fetch_all_result(size_reply@, r),
    {
        match decode_size_reply(size_reply) {
            Ok(n) => Ok(FetchPlan { request: Request::FetchAll, total: n, length: n }),
            Err(e) => Err(e),
        }
    }

    /// Plans a delta fetch from the reply to the size request sent first on
    /// the channel: what lies past the cursor is asked for.
    ///
    /// A server that reports less than was already fetched gives
    /// `SizeDecreased`.
    pub fn fetch_new_messages(&self, size_reply: &[u8]) -> (r: Result<FetchPlan, ClientError>)
        ensures
            fetch_new_result(self@.cursor, size_reply@, r),
    {
        match decode_size_reply(size_reply) {
            Ok(n) => {
                if n >= self.current_messages_size {
                    Ok(
                        FetchPlan {
                            request: Request::FetchDelta(self.current_messages_size),
                            total: n,
                            length: n - self.current_messages_size,
                        },
                    )
                } else {
                    Err(ClientError::SizeDecreased)
                }
            },
            Err(e) => Err(e),
        }
    }

    /// Ends a fetch: records the planned total and returns the non-empty
    /// lines of what the server sent, null bytes taken out.
    pub fn complete_fetch(&mut self, plan: &FetchPlan, body: &[u8]) -> (r: Vec<String>)
        ensures
            final(self)@ == (ClientView { cursor: plan.total as nat, ..old(self)@ }),
            texts_of(r@, message_lines(without_nulls(body@))),
    {
        let mut text: Vec<u8> = Vec::new();
        text.extend_from_slice(body);
        assert(text@ =~= body@);
        remove_nulls(&mut text);
        self.current_messages_size = plan.total;
        split_lines(text.as_slice())
    }

    /// The request that posts `message` after filling in the username.
    pub fn send_message(&self, message: &str) -> (r: Request)
        ensures
            is_send_request(r, self@, replace_all(message@, username_placeholder(), self@.username)),
    {
        let filled = fill_username(message, self.username.as_str());
        self.send_custom_message(filled.as_str())
    }

    /// The request that posts `message` as it is: authenticated where the
    /// session has a password, anonymous otherwise.
    pub fn send_custom_message(&self, message: &str) -> (r: Request)
        ensures
            is_send_request(r, self@, message@),
    {
        let text = message.to_owned();
        match &self.password {
            Some(pw) => Request::SendAuthenticated {
                username: self.username.clone(),
                password: pw.clone(),
                message: text,
            },
            None => Request::SendAnonymous(text),
        }
    }

    /// Clears the cursor, the address and the credentials.
    pub fn reset(&mut self)
        ensures
            final(self)@ == (ClientView {
                cursor: 0,
                address: Seq::empty(),
                username: Seq::empty(),
                password: None,
                use_tls: old(self)@.use_tls,
            }),
    {
        self.current_messages_size = 0;
        self.address = String::new();
        self.username = String::new();
        self.password = None;
    }

    /// The size of the message log as last fetched.
    pub fn current_messages_size(&self) -> (r: usize)
        ensures
            r as nat == self@.cursor,
    {
        self.current_messages_size
    }

    /// Whether TLS is used.
    pub fn tls(&self) -> (r: bool)
        ensures
            r == self@.use_tls,
    {
        self.use_tls
    }

    /// The server address.
    pub fn address(&self) -> (r: &str)
        ensures
            r@ == self@.address,
    {
        self.address.as_str()
    }

    /// The username.
    pub fn username(&self) -> (r: &str)
        ensures
            r@ == self@.username,
    {
        self.username.as_str()
    }
}


/// A delta fetch right after a full fetch, with no new messages on the
/// server, asks for nothing new: it plans zero bytes from the cursor that
/// the full fetch left, returns no message and leaves the cursor where it was.
pub proof fn law_delta_after_full_fetch(
    size_reply: Seq<u8>,
    full: Result<FetchPlan, ClientError>,
    delta: Result<FetchPlan, ClientError>,
    body: Seq<u8>,
    lines: Seq<String>,
)
    requires
        states_size(size_reply),
        fetch_all_result(size_reply, full),
        full is Ok,
        fetch_new_result(full->Ok_0.total as nat, size_reply, delta),
        delta is Ok,
        body.len() == delta->Ok_0.length,
        texts_of(lines, message_lines(without_nulls(body))),
    ensures
        delta->Ok_0.request == Request::FetchDelta(full->Ok_0.total),
        delta->Ok_0.length == 0,
        delta->Ok_0.total == full->Ok_0.total,
        lines.len() == 0,
{
    assert(body =~= Seq::<u8>::empty());
    assert(without_nulls(body) =~= Seq::<u8>::empty());
    assert(message_lines(without_nulls(body)) =~= Seq::<Seq<u8>>::empty());
}

} // verus!
