use speakrs::auth::{
    authenticate_session, permission_guard, register_user, validate_token, AuthError,
    Permissions, SessionData, UserAuthData, UserPerms,
};
use speakrs::schema::{ChannelKey, UserKey};

#[test]
fn password_is_accepted_and_others_rejected() {
    let data = UserAuthData::from_password("hunter2");
    assert!(data.validate("hunter2"));
    assert!(!data.validate("hunter3"));
    assert!(!data.validate(""));
    assert_eq!(data.get_salt().len(), 36);
    assert_eq!(&data.get_salt()[14..15], "4");
}

#[test]
fn salts_differ_between_users() {
    let a = UserAuthData::from_password("same");
    let b = UserAuthData::from_password("same");
    assert_ne!(a.get_salt(), b.get_salt());
    assert_ne!(a.get_hash(), b.get_hash());
}

#[test]
fn hash_is_not_the_password() {
    let data = UserAuthData::from_password("pw");
    let rebuilt = UserAuthData::from_parts(data.get_salt().to_string(), data.get_hash());
    assert!(rebuilt.validate("pw"));
    let wrong_salt = UserAuthData::from_parts("other".to_string(), data.get_hash());
    assert!(!wrong_salt.validate("pw"));
}

#[test]
fn authenticate_errors_and_success() {
    let user = UserKey::new_now();
    assert!(matches!(
        authenticate_session(&None, user, "pw"),
        Err(AuthError::NoSuchUser)
    ));
    let kept = Some(UserAuthData::from_password("pw"));
    assert!(matches!(
        authenticate_session(&kept, user, "wrong"),
        Err(AuthError::IncorrectPassword)
    ));
    let (token, session) = authenticate_session(&kept, user, "pw").unwrap();
    assert!(session.user == user);
    assert_eq!(&token.to_display_string()[14..15], "7");
}

#[test]
fn register_user_keeps_password_and_default_rights() {
    let (auth, _perms) = register_user("secret");
    assert!(auth.validate("secret"));
    assert!(!auth.validate("Secret"));
}

#[test]
fn token_validation() {
    let user = UserKey::new_now();
    let data = validate_token(Some(SessionData::new(user))).unwrap();
    assert!(data.user == user);
    assert!(matches!(validate_token(None), Err(AuthError::InvalidToken)));
}

#[test]
fn permission_guard_outcomes() {
    let user = UserKey::new_now();
    let channel = ChannelKey::new_now();
    let perms = [Permissions::CanCreateChannel, Permissions::CanWriteMessageIn(channel)];
    assert_eq!(
        permission_guard(None, &Some(UserPerms::default()), &perms),
        Err(AuthError::InvalidToken)
    );
    assert_eq!(
        permission_guard(Some(SessionData::new(user)), &None, &perms),
        Err(AuthError::InsufficientPerms)
    );
    assert_eq!(
        permission_guard(Some(SessionData::new(user)), &Some(UserPerms::default()), &perms),
        Ok(())
    );
}

#[test]
fn check_needs_recorded_rights() {
    let perms = [Permissions::CanSeeUser(UserKey::new_now())];
    assert!(!Permissions::check(&perms, &None));
    assert!(Permissions::check(&perms, &Some(UserPerms::default())));
    assert!(Permissions::check(&[], &Some(UserPerms::default())));
    assert!(Permissions::CanCreateChannel.is_allowed(&UserPerms::default()));
}
