use speakrs::auth::SessionToken;
use speakrs::connection::{
    ClientSession, Connection, ConnectionError, Pagination, PaginationLimit,
};
use speakrs::schema::UserKey;

type Conn = Connection<&'static str, u32>;

#[test]
fn fresh_connection_states() {
    let empty: Conn = Connection::Empty;
    assert!(!empty.is_connected());
    assert!(!empty.is_registered());
    let unregistered: Conn = Connection::connected("server", 7, None);
    assert!(unregistered.is_connected());
    assert!(!unregistered.is_registered());
    assert_eq!(*unregistered.db(), 7);
    let user = UserKey::new_now();
    let active: Conn =
        Connection::connected("server", 7, Some(ClientSession { user_key: user, token: None }));
    assert!(active.is_registered());
    assert!(active.session().user_key == user);
}

#[test]
fn register_then_login() {
    let conn: Conn = Connection::connected("server", 1, None);
    assert!(conn.token_to_verify().is_none());
    assert_eq!(conn.with_active_guard().err(), Some(ConnectionError::Unregistered));
    let (client, db) = conn.begin_register().unwrap();
    let user = UserKey::new_now();
    let registered: Conn = Connection::finish_register(client, db, user);
    assert!(registered.is_registered());
    assert!(registered.session().token.is_none());
    assert_eq!(registered.with_active_guard().err(), Some(ConnectionError::NotLoggedIn));
    let (client, db, user_key) = registered.begin_login().unwrap();
    assert!(user_key == user);
    let token = SessionToken::new_now();
    let logged_in: Conn = Connection::finish_login(client, db, user_key, token);
    assert!(logged_in.token_to_verify() == Some(token));
    let (c, d, u, t) = logged_in.with_active_guard().unwrap();
    assert_eq!(*c, "server");
    assert_eq!(*d, 1);
    assert!(u == user && t == token);
}

#[test]
fn refused_steps() {
    let empty: Conn = Connection::Empty;
    assert_eq!(empty.begin_register().err(), Some(ConnectionError::Empty));
    let empty: Conn = Connection::Empty;
    assert_eq!(empty.begin_login().err(), Some(ConnectionError::Empty));
    let unregistered: Conn = Connection::connected("s", 0, None);
    assert_eq!(unregistered.begin_login().err(), Some(ConnectionError::Unregistered));
    let active: Conn = Connection::connected(
        "s",
        0,
        Some(ClientSession { user_key: UserKey::new_now(), token: None }),
    );
    assert_eq!(active.begin_register().err(), Some(ConnectionError::AlreadyRegistered));
}

#[test]
fn error_texts() {
    assert_eq!(
        ConnectionError::Empty.describe("register"),
        "Cannot register with Empty connection. Connect first!"
    );
    assert_eq!(
        ConnectionError::Unregistered.describe("login"),
        "Cannot login with an unregistered connection, register first."
    );
    assert_eq!(
        ConnectionError::NotLoggedIn.describe("'send messages'"),
        "Cannot 'send messages' with a connection that is not logged in, login first."
    );
    assert_eq!(
        ConnectionError::AlreadyRegistered.describe("register"),
        "Cannot register with active connection, as this implies we are already registered."
    );
}

#[test]
fn pagination_builders() {
    let p: Pagination<u32> = Pagination::default();
    assert_eq!(p.limit, PaginationLimit::First(10));
    assert!(p.before.is_none() && p.after.is_none());
    let p = Pagination::limit(PaginationLimit::Last(3)).before(9).after(2);
    assert_eq!(p.limit, PaginationLimit::Last(3));
    assert_eq!(p.before, Some(9));
    assert_eq!(p.after, Some(2));
}
