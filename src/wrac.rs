//! The session of the message variant (WRAC): the same grammar carried in
//! whole WebSocket messages over one persistent connection, which the caller
//! establishes and hands to the session before any operation.
use crate::client::{
    fetch_all_result, is_register_request, is_send_request, size_failure, stated_size,
    states_size, Client, ClientView, FetchPlan,
};
use crate::protocol::{
    decode_size_reply, message_lines, replace_all, texts_of, username_placeholder, without_nulls,
    Request,
};
use crate::shared::{ClientError, Credentials};
use vstd::prelude::*;

verus! {

/// Relies on `str::starts_with`: whether `prefix` is a prefix of `text`.
#[verifier::external_body]
fn has_prefix(text: &str, prefix: &str) -> (r: bool)
    ensures
        r == (prefix@.len() <= text@.len() && text@.subrange(0, prefix@.len() as int) == prefix@),
{
    text.starts_with(prefix)
}

pub open spec fn starts_with(text: Seq<char>, prefix: Seq<char>) -> bool {
    prefix.len() <= text.len() && text.subrange(0, prefix.len() as int) == prefix
}

pub open spec fn ws_scheme() -> Seq<char> {
    seq!['w', 's', ':', '/', '/']
}

pub open spec fn wss_scheme() -> Seq<char> {
    seq!['w', 's', 's', ':', '/', '/']
}

/// The WebSocket URL for `address`: the address itself where it already
/// names a `ws://` or `wss://` URL, else the address under the scheme that
/// `use_tls` selects, with the root path.
pub open spec fn url_of(address: Seq<char>, use_tls: bool) -> Seq<char> {
    if starts_with(address, ws_scheme()) || starts_with(address, wss_scheme()) {
        address
    } else if use_tls {
        wss_scheme() + address + seq!['/']
    } else {
        ws_scheme() + address + seq!['/']
    }
}

/// The plan owed for a WRAC delta fetch from `known` after a reply that
/// states a size: nothing where the log has not grown past `known`.
pub open spec fn ws_fetch_new_result(
    known: nat,
    reply: Seq<u8>,
    r: Result<Option<FetchPlan>, ClientError>,
) -> bool {
    match r {
        Ok(None) => stated_size(reply) <= known,
        Ok(Some(plan)) => stated_size(reply) > known && plan.request == Request::FetchDelta(
            known as usize,
        ) && plan.total == stated_size(reply) && plan.length == stated_size(reply) - known,
        Err(_) => false,
    }
}

/// What a WRAC session holds: the session proper and its live connection.
pub ghost struct WClientView<W> {
    pub session: ClientView,
    pub connection: Option<W>,
}

/// A client session for a WRAC server, generic over the connection handle.
#[derive(Debug)]
pub struct WClient<W> {
    session: Client,
    ws_connection: Option<W>,
}

impl<W> View for WClient<W> {
    type V = WClientView<W>;

    closed spec fn view(&self) -> WClientView<W> {
        WClientView { session: self.session@, connection: self.ws_connection }
    }
}

impl<W> WClient<W> {
    /// Creates a session with a zero cursor and no connection.
    ///
    /// The address is either a full `ws://` or `wss://` URL or `host:port`.
    pub fn new(address: &str, credentials: Credentials, use_tls: bool) -> (r: Self)
        ensures
            r@ == (WClientView::<W> {
                session: ClientView {
                    cursor: 0,
                    address: address@,
                    username: credentials.username@,
                    password: crate::client::password_view(credentials.password),
                    use_tls,
                },
                connection: None,
            }),
    {
        WClient {
            session: Client::new(address.to_owned(), credentials, use_tls),
            ws_connection: None,
        }
    }

    /// Replaces the username and password.
    pub fn update_credentials(&mut self, credentials: Credentials)
        ensures
            final(self)@ == (WClientView::<W> {
                session: ClientView {
                    username: credentials.username@,
                    password: crate::client::password_view(credentials.password),
                    ..old(self)@.session
                },
                ..old(self)@
            }),
    {
        self.session.update_credentials(credentials);
    }

    /// Switches TLS on or off.
    pub fn update_tls(&mut self, use_tls: bool)
        ensures
            final(self)@ == (WClientView::<W> {
                session: ClientView { use_tls, ..old(self)@.session },
                ..old(self)@
            }),
    {
        self.session.update_tls(use_tls);
    }

    /// Replaces the server address.
    pub fn update_address(&mut self, address: String)
        ensures
            final(self)@ == (WClientView::<W> {
                session: ClientView { address: address@, ..old(self)@.session },
                ..old(self)@
            }),
    {
        self.session.update_address(address);
    }

    /// The WebSocket URL to connect to.
    pub fn build_url(&self) -> (r: String)
        ensures
            r@ == url_of(self@.session.address, self@.session.use_tls),
    {
        let address = self.session.address();
        let ws = "ws://";
        let wss = "wss://";
        let slash = "/";
        proof {
            reveal_strlit("ws://");
            reveal_strlit("wss://");
            reveal_strlit("/");
            assert(ws@ =~= ws_scheme());
            assert(wss@ =~= wss_scheme());
        }
        if has_prefix(address, ws) || has_prefix(address, wss) {
            return address.to_owned();
        }
        let mut url = if self.session.tls() {
            wss.to_owned()
        } else {
            ws.to_owned()
        };
        url.append(address);
        url.append(slash);
        assert(slash@ =~= seq!['/']);
        url
    }

    /// Stores the connection that later operations use, and hands back the
    /// one held before, if any, for the caller to close.
    pub fn prepare(&mut self, connection: W) -> (r: Option<W>)
        ensures
            r == old(self)@.connection,
            final(self)@ == (WClientView { connection: Some(connection), ..old(self)@ }),
    {
        let previous = self.ws_connection.take();
        self.ws_connection = Some(connection);
        previous
    }

    /// Fails with `NoConnectionWRAC` where no connection is held.
    pub fn check_connection(&self) -> (r: Result<(), ClientError>)
        ensures
            self@.connection is Some ==> r is Ok,
            self@.connection is None ==> r matches Err(ClientError::NoConnectionWRAC),
    {
        match &self.ws_connection {
            Some(_) => Ok(()),
            None => Err(ClientError::NoConnectionWRAC),
        }
    }

    /// The live connection, for the caller to exchange messages over.
    pub fn connection(&mut self) -> (r: Option<&mut W>)
        ensures
            match r {
                Some(c) => old(self)@.connection == Some(*c) && final(self)@ == (WClientView {
                    connection: Some(*final(c)),
                    ..old(self)@
                }),
                None => old(self)@.connection is None && final(self)@ == old(self)@,
            },
    {
        self.ws_connection.as_mut()
    }

    /// The registration request, or `NoPassword` where the session has no
    /// password. Registration runs over a connection of its own.
    pub fn register_user(&self) -> (r: Result<Request, ClientError>)
        ensures
            match self@.session.password {
                Some(pw) => match r {
                    Ok(req) => is_register_request(req, self@.session.username, pw),
                    Err(_) => false,
                },
                None => r matches Err(ClientError::NoPassword),
            },
    {
        self.session.register_user()
    }

    /// Records the size that the reply to a size request states.
    pub fn fetch_messages_size(&mut self, reply: &[u8]) -> (r: Result<(), ClientError>)
        ensures
            old(self)@.connection is None ==> (r matches Err(ClientError::NoConnectionWRAC))
                && final(self)@ == old(self)@,
            old(self)@.connection is Some && states_size(reply@) ==> r is Ok && final(self)@ == (
            WClientView {
                session: ClientView { cursor: stated_size(reply@), ..old(self)@.session },
                ..old(self)@
            }),
            old(self)@.connection is Some && !states_size(reply@) ==> size_failure(reply@, r)
                && final(self)@ == old(self)@,
    {
        self.check_connection()?;
        self.session.fetch_messages_size(reply)
    }

    /// Plans a full fetch from the reply to the size request.
    pub fn fetch_all_messages(&self, size_reply: &[u8]) -> (r: Result<FetchPlan, ClientError>)
        ensures
            self@.connection is None ==> r matches Err(ClientError::NoConnectionWRAC),
            self@.connection is Some ==> fetch_all_result(size_reply@, r),
    {
        self.check_connection()?;
        self.session.fetch_all_messages(size_reply)
    }

    /// Plans a delta fetch from the reply to the size request. Where the log
    /// has not grown past the cursor there is nothing to ask for: `None`.
    pub fn fetch_new_messages(&self, size_reply: &[u8]) -> (r: Result<Option<FetchPlan>, ClientError>)
        ensures
            self@.connection is None ==> r matches Err(ClientError::NoConnectionWRAC),
            self@.connection is Some && !states_size(size_reply@) ==> size_failure(size_reply@, r),
            self@.connection is Some && states_size(size_reply@) ==> ws_fetch_new_result(
                self@.session.cursor,
                size_reply@,
                r,
            ),
    {
        self.check_connection()?;
        let n = decode_size_reply(size_reply)?;
        let known = self.session.current_messages_size();
        if n <= known {
            Ok(None)
        } else {
            Ok(Some(FetchPlan { request: Request::FetchDelta(known), total: n, length: n - known }))
        }
    }

    /// Ends a fetch: records the planned total and returns the non-empty
    /// lines of the message that answered, null bytes taken out.
    pub fn complete_fetch(&mut self, plan: &FetchPlan, body: &[u8]) -> (r: Vec<String>)
        ensures
            final(self)@ == (WClientView {
                session: ClientView { cursor: plan.total as nat, ..old(self)@.session },
                ..old(self)@
            }),
            texts_of(r@, message_lines(without_nulls(body@))),
    {
        self.session.complete_fetch(plan, body)
    }

    /// The request that posts `message` after filling in the username.
    pub fn send_message(&self, message: &str) -> (r: Result<Request, ClientError>)
        ensures
            self@.connection is None ==> r matches Err(ClientError::NoConnectionWRAC),
            self@.connection is Some ==> match r {
                Ok(req) => is_send_request(
                    req,
                    self@.session,
                    replace_all(message@, username_placeholder(), self@.session.username),
                ),
                Err(_) => false,
            },
    {
        self.check_connection()?;
        Ok(self.session.send_message(message))
    }

    /// The request that posts `message` as it is.
    pub fn send_custom_message(&self, message: &str) -> (r: Result<Request, ClientError>)
        ensures
            self@.connection is None ==> r matches Err(ClientError::NoConnectionWRAC),
            self@.connection is Some ==> match r {
                Ok(req) => is_send_request(req, self@.session, message@),
                Err(_) => false,
            },
    {
        self.check_connection()?;
        Ok(self.session.send_custom_message(message))
    }

    /// Clears the cursor, the address, the credentials and the TLS flag, and
    /// gives up the connection: it is handed back for the caller to close.
    pub fn reset(&mut self) -> (r: Option<W>)
        ensures
            r == old(self)@.connection,
            final(self)@ == (WClientView::<W> {
                session: ClientView {
                    cursor: 0,
                    address: Seq::empty(),
                    username: Seq::empty(),
                    password: None,
                    use_tls: false,
                },
                connection: None,
            }),
    {
        self.session.reset();
        self.session.update_tls(false);
        self.ws_connection.take()
    }

    /// The size of the message log as last fetched.
    pub fn current_messages_size(&self) -> (r: usize)
        ensures
            r as nat == self@.session.cursor,
    {
        self.session.current_messages_size()
    }

    /// Whether TLS is used.
    pub fn tls(&self) -> (r: bool)
        ensures
            r == self@.session.use_tls,
    {
        self.session.tls()
    }

    /// The server address.
    pub fn address(&self) -> (r: &str)
        ensures
            r@ == self@.session.address,
    {
        self.session.address()
    }

    /// The username.
    pub fn username(&self) -> (r: &str)
        ensures
            r@ == self@.session.username,
    {
        self.session.username()
    }
}


/// On a WRAC session, a delta fetch right after a full fetch, with no new
/// messages on the server, needs no exchange past the size request.
pub proof fn law_delta_after_full_fetch_ws(
    size_reply: Seq<u8>,
    full: Result<FetchPlan, ClientError>,
    delta: Result<Option<FetchPlan>, ClientError>,
)
    requires
        states_size(size_reply),
        fetch_all_result(size_reply, full),
        full is Ok,
        ws_fetch_new_result(full->Ok_0.total as nat, size_reply, delta),
    ensures
        delta matches Ok(None),
{
}

} // verus!
