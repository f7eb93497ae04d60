use fileserver::connections::{elapsed_within, get_token, Connection};
use std::time::{Duration, SystemTime};
use fileserver::user::User;

#[test]
fn new_connection_keeps_user() {
    let c = Connection::new(Some(User::new("alice".to_string(), "pw".to_string())));
    assert_eq!(c.get_user().as_ref().map(|u| u.get_username()), Some("alice"));
    let c = Connection::new(None);
    assert!(c.get_user().is_none());
}

#[test]
fn set_user_replaces_user() {
    let mut c = Connection::new(None);
    c.set_user(Some(User::new("bob".to_string(), "x".to_string())));
    assert_eq!(c.get_user().as_ref().map(|u| u.get_username()), Some("bob"));
    c.set_user(None);
    assert!(c.get_user().is_none());
}

#[test]
fn update_time_moves_forward_and_keeps_user() {
    let mut c = Connection::new(Some(User::new("a".to_string(), "b".to_string())));
    let before = c.get_time();
    c.update_time();
    assert!(c.get_time() >= before);
    assert_eq!(c.get_user().as_ref().map(|u| u.get_password()), Some("b"));
}

#[test]
fn fresh_connection_is_within_a_long_limit() {
    let c = Connection::new(None);
    assert_eq!(c.is_time_over(3600).ok(), Some(true));
}

#[test]
fn nothing_is_within_zero_seconds() {
    let c = Connection::new(None);
    assert_eq!(c.is_time_over(0).ok(), Some(false));
}

#[test]
fn elapsed_within_compares_whole_seconds() {
    assert_eq!(elapsed_within(Ok((4, 0)), 5).ok(), Some(true));
    assert_eq!(elapsed_within(Ok((4, 999_999_999)), 5).ok(), Some(true));
    assert_eq!(elapsed_within(Ok((5, 0)), 5).ok(), Some(false));
    assert_eq!(elapsed_within(Ok((0, 0)), 0).ok(), Some(false));
}

#[test]
fn elapsed_within_passes_clock_error_on() {
    let later = std::time::SystemTime::now() + std::time::Duration::from_secs(1000);
    let err = later.elapsed().unwrap_err();
    assert!(elapsed_within(Err(err), 10).is_err());
}

#[test]
fn tokens_are_random_v4() {
    let a = get_token();
    let b = get_token();
    assert_ne!(a, b);
    let uuid = uuid::Uuid::from_u128(a);
    assert_eq!(uuid.get_version_num(), 4);
    assert_eq!(uuid.get_variant(), uuid::Variant::RFC4122);
    assert_eq!((a >> 76) & 0xF, 4);
    assert_eq!((a >> 62) & 0x3, 2);
}

#[test]
fn new_at_and_set_time_store_the_given_time() {
    let t0 = SystemTime::UNIX_EPOCH + Duration::from_secs(100);
    let t1 = SystemTime::UNIX_EPOCH + Duration::from_secs(200);
    let mut c = Connection::new_at(Some(User::new("u".to_string(), "p".to_string())), t0);
    assert_eq!(c.get_time(), t0);
    c.set_user(None);
    assert_eq!(c.get_time(), t0);
    c.set_time(t1);
    assert_eq!(c.get_time(), t1);
    assert!(c.get_user().is_none());
    assert_eq!(c.is_time_over(10).ok(), Some(false));
}
