use fileserver::user::User;

fn sample() -> User {
    User::new("alice".to_string(), "pw".to_string())
}

#[test]
fn new_user_has_credentials_and_no_files() {
    let u = sample();
    assert_eq!(u.get_username(), "alice");
    assert_eq!(u.get_password(), "pw");
    assert!(u.get_files().is_empty());
}

#[test]
fn setters_replace_credentials() {
    let mut u = sample();
    u.set_username("bob".to_string());
    u.set_password("hunter2".to_string());
    assert_eq!(u.get_username(), "bob");
    assert_eq!(u.get_password(), "hunter2");
}

#[test]
fn add_file_appends_in_order() {
    let mut u = sample();
    u.add_file("a.txt".to_string());
    u.add_file("b.txt".to_string());
    assert_eq!(u.get_files(), &vec!["a.txt".to_string(), "b.txt".to_string()]);
    assert_eq!(u.get_file(1), "b.txt");
}

#[test]
fn get_file_reads_each_index() {
    let mut u = sample();
    u.add_file("first".to_string());
    u.add_file("second".to_string());
    assert_eq!(u.get_file(0), "first");
    assert_eq!(u.get_file(1), "second");
}

#[test]
fn delete_file_removes_first_match() {
    let mut u = sample();
    u.add_file("a".to_string());
    u.add_file("b".to_string());
    u.add_file("a".to_string());
    assert_eq!(u.delete_file(&"a".to_string()), Ok(()));
    assert_eq!(u.get_files(), &vec!["b".to_string(), "a".to_string()]);
}

#[test]
fn delete_missing_file_is_err_and_changes_nothing() {
    let mut u = sample();
    u.add_file("a".to_string());
    assert_eq!(u.delete_file(&"z".to_string()), Err(()));
    assert_eq!(u.get_files(), &vec!["a".to_string()]);
    assert_eq!(u.get_username(), "alice");
}

#[test]
fn delete_undoes_add() {
    let mut u = sample();
    u.add_file("x".to_string());
    u.add_file("y".to_string());
    u.add_file("new".to_string());
    assert_eq!(u.delete_file(&"new".to_string()), Ok(()));
    assert_eq!(u.get_files(), &vec!["x".to_string(), "y".to_string()]);
}
