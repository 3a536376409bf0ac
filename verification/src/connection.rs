//! The client's connection to a server as a state machine: not connected,
//! connected but not registered, or registered (and perhaps logged in).
//!
//! The handle on the server (`Client`) and on the local store (`Db`) are
//! carried through; the talking to the server and the writing to the store
//! happen between the steps below, which decide what comes next.
use vstd::prelude::*;

use crate::auth::SessionToken;
use crate::schema::UserKey;

verus! {

/// What a client keeps of its session with a server: its user, and the
/// token of the session once logged in.
#[derive(Clone, Copy, Debug)]
pub struct ClientSession {
    pub user_key: UserKey,
    pub token: Option<SessionToken>,
}

/// A connection to a server with which no user has been registered.
#[derive(Clone, Debug)]
pub struct UnregisteredConnection<Client, Db> {
    service_client: Client,
    db: Db,
}

/// A connection to a server on which the client has a user.
#[derive(Clone, Debug)]
pub struct ActiveConnection<Client, Db> {
    service_client: Client,
    db: Db,
    client_session: ClientSession,
}

/// The client's connection to a server.
#[derive(Clone, Debug)]
pub enum Connection<Client, Db> {
    /// Not connected to any server.
    Empty,
    /// Connected to a server with which no user has been registered.
    Unregistered(UnregisteredConnection<Client, Db>),
    /// Connected to a server on which the client has a user; talking to it
    /// may first need a login.
    Active(ActiveConnection<Client, Db>),
}

/// The state of a connection, without its handles.
pub enum ConnectionView {
    Empty,
    Unregistered,
    Active(ClientSession),
}

impl<Client, Db> View for Connection<Client, Db> {
    type V = ConnectionView;

    closed spec fn view(&self) -> ConnectionView {
        match self {
            Connection::Empty => ConnectionView::Empty,
            Connection::Unregistered(_) => ConnectionView::Unregistered,
            Connection::Active(a) => ConnectionView::Active(a.client_session),
        }
    }
}

/// Why a step was refused in the state the connection is in.
#[derive(Clone, Copy, Debug, PartialEq, Eq, Structural)]
pub enum ConnectionError {
    /// Not connected.
    Empty,
    /// Connected, with no user registered.
    Unregistered,
    /// A user is registered already.
    AlreadyRegistered,
    /// Registered, but not logged in.
    NotLoggedIn,
}

/// The text describing `e` for the step `action`.
pub open spec fn error_text(e: ConnectionError, action: Seq<char>) -> Seq<char> {
    match e {
        ConnectionError::Empty => "Cannot "@ + action + " with Empty connection. Connect first!"@,
        ConnectionError::Unregistered => "Cannot "@ + action
            + " with an unregistered connection, register first."@,
        ConnectionError::AlreadyRegistered =>
            "Cannot register with active connection, as this implies we are already registered."@,
        ConnectionError::NotLoggedIn => "Cannot "@ + action
            + " with a connection that is not logged in, login first."@,
    }
}

impl ConnectionError {
    /// The text describing the error for the step `action` ("register",
    /// "login", "'send messages'", ...).
    pub fn describe(&self, action: &str) -> (r: String)
        ensures
            r@ == error_text(*self, action@),
    {
        match self {
            ConnectionError::AlreadyRegistered => String::from_str(
                "Cannot register with active connection, as this implies we are already registered.",
            ),
            _ => {
                let mut out = String::from_str("Cannot ");
                out.append(action);
                match self {
                    ConnectionError::Empty => out.append(" with Empty connection. Connect first!"),
                    ConnectionError::Unregistered => out.append(
                        " with an unregistered connection, register first.",
                    ),
                    _ => out.append(" with a connection that is not logged in, login first."),
                }
                out
            },
        }
    }
}

impl<Client, Db> Connection<Client, Db> {
    /// The handles of the server and of the store, when connected.
    pub closed spec fn handles(&self) -> Option<(Client, Db)> {
        match self {
            Connection::Empty => None,
            Connection::Unregistered(u) => Some((u.service_client, u.db)),
            Connection::Active(a) => Some((a.service_client, a.db)),
        }
    }

    /// Whether a user is registered on the server (the connection is
    /// active).
    pub fn is_registered(&self) -> (r: bool)
        ensures
            r == (self@ is Active),
    {
        match self {
            Connection::Empty => false,
            Connection::Unregistered(_) => false,
            Connection::Active(_) => true,
        }
    }

    /// Whether the client is connected to a server.
    pub fn is_connected(&self) -> (r: bool)
        ensures
            r == !(self@ is Empty),
            r == (self.handles() is Some),
    {
        match self {
            Connection::Empty => false,
            Connection::Unregistered(_) => true,
            Connection::Active(_) => true,
        }
    }

    /// The store of the connection; the client must be connected.
    pub fn db(&self) -> (r: &Db)
        requires
            !(self@ is Empty),
        ensures
            self.handles() matches Some((_, d)) && *r == d,
    {
        match self {
            Connection::Empty => {
                assert(false);
                unreached()
            },
            Connection::Unregistered(u) => &u.db,
            Connection::Active(a) => &a.db,
        }
    }

    /// The session of the connection; a user must be registered.
    pub fn session(&self) -> (r: &ClientSession)
        requires
            self@ is Active,
        ensures
            self@ == ConnectionView::Active(*r),
    {
        match self {
            Connection::Active(a) => &a.client_session,
            _ => {
                assert(false);
                unreached()
            },
        }
    }

    /// The connection just made to a server, where `session` is what the
    /// store holds of an earlier session: active with it, or unregistered
    /// when there is none.
    pub fn connected(service_client: Client, db: Db, session: Option<ClientSession>) -> (r: Self)
        ensures
            r.handles() == Some((service_client, db)),
            match session {
                Some(s) => r@ == ConnectionView::Active(s),
                None => r@ == ConnectionView::Unregistered,
            },
    {
        match session {
            Some(client_session) => Connection::Active(
                ActiveConnection { service_client, db, client_session },
            ),
            None => Connection::Unregistered(UnregisteredConnection { service_client, db }),
        }
    }

    /// The first step of registering a user: only an unregistered
    /// connection may, and hands out its handles for the exchange with the
    /// server.
    pub fn begin_register(self) -> (r: Result<(Client, Db), ConnectionError>)
        ensures
            match self@ {
                ConnectionView::Empty => r == Err::<(Client, Db), ConnectionError>(
                    ConnectionError::Empty,
                ),
                ConnectionView::Active(_) => r == Err::<(Client, Db), ConnectionError>(
                    ConnectionError::AlreadyRegistered,
                ),
                ConnectionView::Unregistered => self.handles() matches Some(h) && r == Ok::<
                    (Client, Db),
                    ConnectionError,
                >(h),
            },
    {
        match self {
            Connection::Empty => Err(ConnectionError::Empty),
            Connection::Active(_) => Err(ConnectionError::AlreadyRegistered),
            Connection::Unregistered(UnregisteredConnection { service_client, db }) => Ok(
                (service_client, db),
            ),
        }
    }

    /// The last step of registering: the server made the user `user_key`;
    /// the connection is active with a session of that user, not yet
    /// logged in.
    pub fn finish_register(service_client: Client, db: Db, user_key: UserKey) -> (r: Self)
        ensures
            r.handles() == Some((service_client, db)),
            r@ == ConnectionView::Active(ClientSession { user_key, token: None }),
    {
        Connection::Active(
            ActiveConnection {
                service_client,
                db,
                client_session: ClientSession { user_key, token: None },
            },
        )
    }

    /// The token to ask the server about to learn whether the client is
    /// still logged in: none (so not logged in) unless the connection is
    /// active with a token.
    pub fn token_to_verify(&self) -> (r: Option<SessionToken>)
        ensures
            match self@ {
                ConnectionView::Active(s) => r == s.token,
                _ => r is None,
            },
    {
        match self {
            Connection::Active(a) => a.client_session.token,
            _ => None,
        }
    }

    /// The first step of logging in, once the server did not accept the
    /// kept token: only an active connection may, and hands out its handles
    /// and its user for the exchange with the server.
    pub fn begin_login(self) -> (r: Result<(Client, Db, UserKey), ConnectionError>)
        ensures
            match self@ {
                ConnectionView::Empty => r == Err::<(Client, Db, UserKey), ConnectionError>(
                    ConnectionError::Empty,
                ),
                ConnectionView::Unregistered => r == Err::<(Client, Db, UserKey), ConnectionError>(
                    ConnectionError::Unregistered,
                ),
                ConnectionView::Active(s) => self.handles() matches Some((c, d)) && r == Ok::<
                    (Client, Db, UserKey),
                    ConnectionError,
                >((c, d, s.user_key)),
            },
    {
        match self {
            Connection::Empty => Err(ConnectionError::Empty),
            Connection::Unregistered(_) => Err(ConnectionError::Unregistered),
            Connection::Active(ActiveConnection { service_client, db, client_session }) => Ok(
                (service_client, db, client_session.user_key),
            ),
        }
    }

    /// The last step of logging in: the server opened the session `token`
    /// for `user_key`; the connection is active and logged in with it.
    pub fn finish_login(service_client: Client, db: Db, user_key: UserKey, token: SessionToken) -> (r:
        Self)
        ensures
            r.handles() == Some((service_client, db)),
            r@ == ConnectionView::Active(ClientSession { user_key, token: Some(token) }),
    {
        Connection::Active(
            ActiveConnection {
                service_client,
                db,
                client_session: ClientSession { user_key, token: Some(token) },
            },
        )
    }

    /// What a step that talks to the server needs: the handles, the user
    /// and the session token. Refused unless the connection is active and
    /// logged in.
    pub fn with_active_guard(&self) -> (r: Result<(&Client, &Db, UserKey, SessionToken), ConnectionError>)
        ensures
            match guard_outcome(self@) {
                Err(e) => r == Err::<(&Client, &Db, UserKey, SessionToken), ConnectionError>(e),
                Ok((u, t)) => r matches Ok((c, d, ru, rt)) && self.handles() == Some((*c, *d))
                    && ru == u && rt == t,
            },
    {
        match self {
            Connection::Empty => Err(ConnectionError::Empty),
            Connection::Unregistered(_) => Err(ConnectionError::Unregistered),
            Connection::Active(a) => match a.client_session.token {
                Some(token) => Ok((&a.service_client, &a.db, a.client_session.user_key, token)),
                None => Err(ConnectionError::NotLoggedIn),
            },
        }
    }
}

/// What a step that talks to the server gets in the state `v`: the user and
/// token when active and logged in, otherwise why it is refused.
pub open spec fn guard_outcome(v: ConnectionView) -> Result<(UserKey, SessionToken), ConnectionError> {
    match v {
        ConnectionView::Empty => Err(ConnectionError::Empty),
        ConnectionView::Unregistered => Err(ConnectionError::Unregistered),
        ConnectionView::Active(s) => match s.token {
            None => Err(ConnectionError::NotLoggedIn),
            Some(t) => Ok((s.user_key, t)),
        },
    }
}

/// The steps in order: a fresh connection without a kept session must
/// register first; right after registering it must log in; once logged in
/// with the token the server handed out, steps that talk to the server are
/// let through with that user and token.
pub proof fn law_register_then_login(user_key: UserKey, token: SessionToken)
    ensures
        guard_outcome(ConnectionView::Unregistered) == Err::<(UserKey, SessionToken), ConnectionError>(
            ConnectionError::Unregistered,
        ),
        guard_outcome(ConnectionView::Active(ClientSession { user_key, token: None })) == Err::<
            (UserKey, SessionToken),
            ConnectionError,
        >(ConnectionError::NotLoggedIn),
        guard_outcome(ConnectionView::Active(ClientSession { user_key, token: Some(token) })) == Ok::<
            (UserKey, SessionToken),
            ConnectionError,
        >((user_key, token)),
{
}

// ======================================
// => Pagination
// ======================================
/// How many entries a page holds, counted from the first or the last.
#[derive(Clone, Copy, Debug, PartialEq, Eq, Structural)]
pub enum PaginationLimit {
    First(usize),
    Last(usize),
}

impl Default for PaginationLimit {
    /// The first ten.
    fn default() -> (r: Self)
        ensures
            r == PaginationLimit::First(10),
    {
        PaginationLimit::First(10)
    }
}

/// A page of entries: those before and after the given cursors, and how
/// many of them.
#[derive(Clone, Copy, Debug)]
pub struct Pagination<Cursor> {
    pub before: Option<Cursor>,
    pub after: Option<Cursor>,
    pub limit: PaginationLimit,
}

impl<Cursor> Default for Pagination<Cursor> {
    /// No cursors, the default limit.
    fn default() -> (r: Self)
        ensures
            r.before is None,
            r.after is None,
            r.limit == PaginationLimit::First(10),
    {
        Pagination { before: None, after: None, limit: PaginationLimit::default() }
    }
}

impl<Cursor> Pagination<Cursor> {
    /// No cursors, the limit `limit`.
    pub fn limit(limit: PaginationLimit) -> (r: Self)
        ensures
            r.before is None,
            r.after is None,
            r.limit == limit,
    {
        Pagination { before: None, after: None, limit }
    }

    /// The same page, ending before `before`.
    pub fn before(self, before: Cursor) -> (r: Self)
        ensures
            r.before == Some(before),
            r.after == self.after,
            r.limit == self.limit,
    {
        Pagination { before: Some(before), ..self }
    }

    /// The same page, starting after `after`.
    pub fn after(self, after: Cursor) -> (r: Self)
        ensures
            r.before == self.before,
            r.after == Some(after),
            r.limit == self.limit,
    {
        Pagination { after: Some(after), ..self }
    }
}

} // verus!
