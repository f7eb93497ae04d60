use fileserver::command::{Command, SEPARATOR};

#[test]
fn new_command_is_its_type_byte() {
    assert_eq!(Command::new(7).get_cmd(), vec![7u8]);
}

#[test]
fn separator_is_pipe() {
    assert_eq!(SEPARATOR, b'|');
}

#[test]
fn add_arg_appends_field() {
    let mut cmd = Command::new(1);
    cmd.add_arg("alice");
    cmd.add_arg("secret");
    assert_eq!(cmd.get_cmd(), b"\x01|alice|secret".to_vec());
}

#[test]
fn parse_reads_fields() {
    let cmd = Command::new_from_b_array(b"\x01|alice|secret".to_vec());
    assert_eq!(cmd.get_arg(0), Some("\x01"));
    assert_eq!(cmd.get_arg(1), Some("alice"));
    assert_eq!(cmd.get_arg(2), Some("secret"));
    assert_eq!(cmd.get_arg(3), None);
}

#[test]
fn parse_empty_buffer_gives_one_empty_field() {
    let cmd = Command::new_from_b_array(Vec::new());
    assert_eq!(cmd.get_arg(0), Some(""));
    assert_eq!(cmd.get_arg(1), None);
    let cmd = Command::new_from_b_array(Vec::new());
    assert_eq!(cmd.get_cmd(), Vec::<u8>::new());
}

#[test]
fn parse_keeps_empty_fields() {
    let cmd = Command::new_from_b_array(b"a||b|".to_vec());
    assert_eq!(cmd.get_arg(0), Some("a"));
    assert_eq!(cmd.get_arg(1), Some(""));
    assert_eq!(cmd.get_arg(2), Some("b"));
    assert_eq!(cmd.get_arg(3), Some(""));
    assert_eq!(cmd.get_arg(4), None);
}

#[test]
fn parse_then_serialize_restores_bytes() {
    let bytes = b"||x|\xff\x00|y||".to_vec();
    let cmd = Command::new_from_b_array(bytes.clone());
    assert_eq!(cmd.get_cmd(), bytes);
}

#[test]
fn serialize_then_parse_restores_fields() {
    let mut cmd = Command::new(2);
    cmd.add_arg("ünïcödé");
    cmd.add_arg("");
    cmd.add_arg("日本");
    let back = Command::new_from_b_array(cmd.get_cmd());
    assert_eq!(back.get_arg(0), Some("\x02"));
    assert_eq!(back.get_arg(1), Some("ünïcödé"));
    assert_eq!(back.get_arg(2), Some(""));
    assert_eq!(back.get_arg(3), Some("日本"));
    assert_eq!(back.get_arg(4), None);
}

#[test]
fn invalid_utf8_argument_reads_as_none() {
    let cmd = Command::new_from_b_array(b"\x01|\xff\xfe|ok".to_vec());
    assert_eq!(cmd.get_arg(1), None);
    assert_eq!(cmd.get_arg(2), Some("ok"));
}

#[test]
fn added_argument_reads_back() {
    let mut cmd = Command::new(4);
    cmd.add_arg("a|b");
    assert_eq!(cmd.get_arg(1), Some("a|b"));
    assert_eq!(cmd.get_arg(0), Some("\x04"));
}

#[test]
fn argument_with_separator_splits_on_the_wire() {
    let mut cmd = Command::new(4);
    cmd.add_arg("a|b");
    let back = Command::new_from_b_array(cmd.get_cmd());
    assert_eq!(back.get_arg(1), Some("a"));
    assert_eq!(back.get_arg(2), Some("b"));
}

#[test]
fn every_command_has_a_type_field() {
    let cmd = Command::new_from_b_array(Vec::new());
    assert_eq!(cmd.get_arg(0), Some(""));
    let back = Command::new_from_b_array(Command::new_from_b_array(b"x|y".to_vec()).get_cmd());
    assert_eq!(back.get_arg(0), Some("x"));
    assert_eq!(back.get_arg(1), Some("y"));
}
