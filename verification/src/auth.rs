//! Sessions and who may do what: the tokens handed out at login, the salted
//! password hashes a server keeps, and the checks it makes on each request.
use vstd::prelude::*;
use vstd::utf8::encode_utf8;
use blake2::Digest;

use crate::bytes::equal32;
use crate::key::UuidKey;
use crate::schema::{ChannelKey, UserKey};
use crate::uuid_gen::{has_version, uuid_new_v4, uuid_text, uuid_to_string};

verus! {

// ======================================
// => Sessions
// ======================================
/// What a server keeps of a session: the user it was opened for.
#[derive(Debug)]
pub struct SessionData {
    pub user: UserKey,
}

impl SessionData {
    /// The session of `user`.
    pub fn new(user: UserKey) -> (r: Self)
        ensures
            r.user == user,
    {
        SessionData { user }
    }
}

/// The token that names a session.
pub type SessionToken = UuidKey<SessionData>;

// ======================================
// => Errors
// ======================================
/// Why a server refused a request.
#[derive(Clone, Copy, Debug, PartialEq, Eq, Structural)]
pub enum AuthError {
    /// The user does not exist.
    NoSuchUser,
    /// The password for the user is incorrect.
    IncorrectPassword,
    /// The session token is invalid or expired.
    InvalidToken,
    /// The user may not do this.
    InsufficientPerms,
}

/// How a request to a server can fail.
#[derive(Debug)]
pub enum ServiceError {
    /// Any other failure, described.
    Generic(String),
    /// A failure of a table of the store, described.
    Tree(String),
    /// The request was refused.
    Auth(AuthError),
    /// A table of the store could not be opened, described.
    TableOpen(String),
}

// ======================================
// => Permissions
// ======================================
/// What a user may hold the right to do.
#[derive(Debug)]
pub struct UserPerms {}

impl Default for UserPerms {
    fn default() -> (r: Self)
        ensures
            r == (UserPerms {}),
    {
        UserPerms {}
    }
}

/// An action that a request asks to be allowed.
#[derive(Debug)]
pub enum Permissions {
    CanCreateChannel,
    CanWriteMessageIn(ChannelKey),
    CanReadMessageIn(ChannelKey),
    CanSeeUser(UserKey),
}

/// Whether the rights `perms` allow the action `p`: every action is allowed
/// to every user that has rights recorded.
pub open spec fn allows(p: Permissions, perms: UserPerms) -> bool {
    true
}

/// Whether the recorded rights `user_perms` allow all of `perms`: there must
/// be rights on record, and each action must be allowed by them.
pub open spec fn allows_all(perms: Seq<Permissions>, user_perms: Option<UserPerms>) -> bool {
    match user_perms {
        Some(up) => forall|i: int| 0 <= i < perms.len() ==> allows(#[trigger] perms[i], up),
        None => false,
    }
}

impl Permissions {
    /// Whether the rights `perms` allow this action.
    pub fn is_allowed(&self, perms: &UserPerms) -> (r: bool)
        ensures
            r == allows(*self, *perms),
    {
        true
    }

    /// Whether the recorded rights `user_perms` of a user allow all of
    /// `perms`.
    pub fn check(perms: &[Permissions], user_perms: &Option<UserPerms>) -> (r: bool)
        ensures
            r == allows_all(perms@, *user_perms),
    {
        match user_perms {
            None => false,
            Some(up) => {
                let mut i: usize = 0;
                while i < perms.len()
                    invariant
                        0 <= i <= perms@.len(),
                        forall|j: int| 0 <= j < i ==> allows(#[trigger] perms@[j], *up),
                    decreases perms@.len() - i,
                {
                    if !perms[i].is_allowed(up) {
                        return false;
                    }
                    i = i + 1;
                }
                true
            },
        }
    }
}

// ======================================
// => Passwords
// ======================================
/// The 32-byte BLAKE2b digest of `data`, as the `blake2` crate computes it.
pub uninterp spec fn blake2b_256(data: Seq<u8>) -> Seq<u8>;

/// The hash kept for `password` under `salt`: the digest of the UTF-8 bytes
/// of the salt followed by those of the password.
pub open spec fn salted_hash(salt: Seq<char>, password: Seq<char>) -> Seq<u8> {
    blake2b_256(encode_utf8(salt) + encode_utf8(password))
}

/// Calls the `blake2` crate: a `Blake2b<U32>` hasher is updated with the
/// bytes of `salt`, then with those of `password`, and finalized. The
/// digest is what `blake2b_256` names for those bytes in that order.
#[verifier::external_body]
fn blake2b_salted(salt: &str, password: &str) -> (r: [u8; 32])
    ensures
        r@ == blake2b_256(encode_utf8(salt@) + encode_utf8(password@)),
{
    let mut hasher = blake2::Blake2b::<blake2::digest::consts::U32>::new();
    hasher.update(salt);
    hasher.update(password);
    hasher.finalize().into()
}

/// What a server keeps to check a user's password: a random salt and the
/// salted hash of the password.
#[derive(Debug)]
pub struct UserAuthData {
    salt: String,
    hash: [u8; 32],
}

impl UserAuthData {
    /// The salt.
    pub closed spec fn spec_salt(&self) -> Seq<char> {
        self.salt@
    }

    /// The kept hash.
    pub closed spec fn spec_hash(&self) -> Seq<u8> {
        self.hash@
    }

    /// What is kept for `password`: a fresh salt, the text of a random
    /// version 4 identifier, and the salted hash of the password.
    pub fn from_password(password: &str) -> (r: Self)
        ensures
            exists|id: Seq<u8>| has_version(id, 4) && r.spec_salt() == uuid_text(id),
            r.spec_hash() == salted_hash(r.spec_salt(), password@),
    {
        let id = uuid_new_v4();
        let salt = uuid_to_string(&id);
        let hash = Self::hash(salt.as_str(), password);
        UserAuthData { salt, hash }
    }

    /// The salted hash of `password` under `salt`.
    fn hash(salt: &str, password: &str) -> (r: [u8; 32])
        ensures
            r@ == salted_hash(salt@, password@),
    {
        blake2b_salted(salt, password)
    }

    /// Whether `password` is accepted: its salted hash under the kept salt
    /// is the kept hash.
    pub open spec fn accepts(&self, password: Seq<char>) -> bool {
        self.spec_hash() == salted_hash(self.spec_salt(), password)
    }

    /// Whether `password` is the one kept.
    pub fn validate(&self, password: &str) -> (r: bool)
        ensures
            r == self.accepts(password@),
    {
        let h = Self::hash(self.salt.as_str(), password);
        equal32(&self.hash, &h)
    }

    /// The kept data with salt `salt` and hash `hash`, as read back from
    /// the store.
    pub fn from_parts(salt: String, hash: [u8; 32]) -> (r: Self)
        ensures
            r.spec_salt() == salt@,
            r.spec_hash() == hash@,
    {
        UserAuthData { salt, hash }
    }

    /// The salt.
    pub fn get_salt(&self) -> (r: &str)
        ensures
            r@ == self.spec_salt(),
    {
        self.salt.as_str()
    }

    /// The kept hash.
    pub fn get_hash(&self) -> (r: [u8; 32])
        ensures
            r@ == self.spec_hash(),
    {
        self.hash
    }
}

/// Whatever salt was drawn, the data kept for a password (what
/// `from_password` and `register_user` make) accepts that same password.
pub proof fn law_password_accepted(a: UserAuthData, password: Seq<char>)
    requires
        a.spec_hash() == salted_hash(a.spec_salt(), password),
    ensures
        a.accepts(password),
{
}

// ======================================
// => Server-side checks
// ======================================
/// A fresh session of `user`: its token and what the server keeps of it.
fn register_token(user: UserKey) -> (r: (SessionToken, SessionData))
    ensures
        has_version(r.0@, 7),
        r.1.user == user,
{
    (SessionToken::new_now(), SessionData::new(user))
}

/// Logging `user` in with `password`, where `auth_data` is what the server
/// keeps for that user: refused when there is none or the password does
/// not match; otherwise a fresh session of the user, to be kept.
pub fn authenticate_session(auth_data: &Option<UserAuthData>, user: UserKey, password: &str) -> (r:
    Result<(SessionToken, SessionData), AuthError>)
    ensures
        match auth_data {
            None => r == Err::<(SessionToken, SessionData), AuthError>(AuthError::NoSuchUser),
            Some(a) => if a.accepts(password@) {
                r matches Ok((token, data)) && has_version(token@, 7) && data.user == user
            } else {
                r == Err::<(SessionToken, SessionData), AuthError>(AuthError::IncorrectPassword)
            },
        },
{
    match auth_data {
        None => Err(AuthError::NoSuchUser),
        Some(a) => {
            if !a.validate(password) {
                return Err(AuthError::IncorrectPassword);
            }
            Ok(register_token(user))
        },
    }
}

/// What a server keeps for a new user with `password`: the salted hash of
/// the password and the default rights.
pub fn register_user(password: &str) -> (r: (UserAuthData, UserPerms))
    ensures
        exists|id: Seq<u8>| has_version(id, 4) && r.0.spec_salt() == uuid_text(id),
        r.0.spec_hash() == salted_hash(r.0.spec_salt(), password@),
        r.1 == (UserPerms {}),
{
    (UserAuthData::from_password(password), UserPerms::default())
}

/// The session a token names, where `session` is what the server keeps
/// under the token: refused as an invalid token when there is none.
pub fn validate_token(session: Option<SessionData>) -> (r: Result<SessionData, AuthError>)
    ensures
        match session {
            Some(data) => r == Ok::<SessionData, AuthError>(data),
            None => r == Err::<SessionData, AuthError>(AuthError::InvalidToken),
        },
{
    match session {
        Some(data) => Ok(data),
        None => Err(AuthError::InvalidToken),
    }
}

/// Whether a request that needs `perms` may go on, where `session` is what
/// the server keeps under the request's token and `user_perms` the rights
/// recorded for that session's user: an invalid token first, then missing
/// rights, are refused.
pub fn permission_guard(session: Option<SessionData>, user_perms: &Option<UserPerms>, perms: &[Permissions]) -> (r: Result<(), AuthError>)
    ensures
        session is None ==> r == Err::<(), AuthError>(AuthError::InvalidToken),
        session is Some && !allows_all(perms@, *user_perms) ==> r == Err::<(), AuthError>(
            AuthError::InsufficientPerms,
        ),
        session is Some && allows_all(perms@, *user_perms) ==> r == Ok::<(), AuthError>(()),
{
    let _data = validate_token(session)?;
    if !Permissions::check(perms, user_perms) {
        Err(AuthError::InsufficientPerms)
    } else {
        Ok(())
    }
}

/// The kept digest covers the whole password: it is the digest of the salt's
/// bytes followed by all of the password's, so kept data accepts a password
/// exactly when that digest for it is the kept one. Under one salt,
/// different passwords give different inputs to the digest.
pub proof fn law_digest_covers_whole_password(a: UserAuthData, p: Seq<char>, q: Seq<char>)
    ensures
        salted_hash(a.spec_salt(), p) == blake2b_256(encode_utf8(a.spec_salt()) + encode_utf8(p)),
        a.accepts(q) <==> a.spec_hash() == blake2b_256(
            encode_utf8(a.spec_salt()) + encode_utf8(q),
        ),
        p != q ==> encode_utf8(a.spec_salt()) + encode_utf8(p) != encode_utf8(a.spec_salt())
            + encode_utf8(q),
{
    let s = encode_utf8(a.spec_salt());
    let x = s + encode_utf8(p);
    let y = s + encode_utf8(q);
    if x == y {
        assert(x.subrange(s.len() as int, x.len() as int) =~= encode_utf8(p));
        assert(y.subrange(s.len() as int, y.len() as int) =~= encode_utf8(q));
        vstd::utf8::encode_utf8_decode_utf8(p);
        vstd::utf8::encode_utf8_decode_utf8(q);
    }
}

} // verus!
