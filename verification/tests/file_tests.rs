use fileserver::file::File;

#[test]
fn new_file_has_no_connections() {
    let f = File::new("notes.md".to_string());
    assert!(f.get_connections().is_empty());
    assert!(f.is_named("notes.md"));
}

#[test]
fn is_named_is_exact() {
    let f = File::new("notes.md".to_string());
    assert!(!f.is_named("notes"));
    assert!(!f.is_named("Notes.md"));
    assert!(!f.is_named("notes.md "));
}

#[test]
fn add_connection_appends() {
    let mut f = File::new("a".to_string());
    f.add_connection("b");
    f.add_connection("c");
    assert_eq!(f.get_connections(), &vec!["b".to_string(), "c".to_string()]);
    assert!(f.is_named("a"));
}
