use fileserver::client::{
    console_action, credentials_request, read_step, reply_from_buffer, run_mode, ConsoleAction,
    ReadAttempt, ReadStep, RunMode, request_type, server_address,
    LOGIN_REQUEST, SIGNUP_REQUEST,
};

#[test]
fn run_modes() {
    assert_eq!(run_mode(1), Some(RunMode::Client));
    assert_eq!(run_mode(2), Some(RunMode::Server));
    assert_eq!(run_mode(0), None);
    assert_eq!(run_mode(3), None);
}

#[test]
fn console_actions() {
    assert_eq!(console_action(1), ConsoleAction::Login);
    assert_eq!(console_action(2), ConsoleAction::SignUp);
    assert_eq!(console_action(3), ConsoleAction::Exit);
    assert_eq!(console_action(0), ConsoleAction::Again);
    assert_eq!(console_action(9), ConsoleAction::Again);
}

#[test]
fn credentials_request_bytes() {
    let req = credentials_request(LOGIN_REQUEST, "alice\n", "pw\n");
    assert_eq!(req.get_cmd(), b"\x01|alice\n|pw\n".to_vec());
    let req = credentials_request(SIGNUP_REQUEST, "é", "");
    assert_eq!(req.get_cmd(), b"\x02|\xc3\xa9|".to_vec());
}

#[test]
fn reply_uses_received_bytes_only() {
    let mut buf = b"\x02|User does not exist".to_vec();
    buf.resize(1024, 0);
    let reply = reply_from_buffer(buf, 21);
    assert_eq!(reply.get_arg(1), Some("User does not exist"));
    assert_eq!(reply.get_arg(2), None);
    let reply = reply_from_buffer(vec![0u8; 8], 1);
    assert_eq!(reply.get_cmd(), vec![0u8]);
}

#[test]
fn read_steps() {
    assert_eq!(read_step(ReadAttempt::NotReadable), ReadStep::Abandon);
    assert_eq!(read_step(ReadAttempt::Received(5)), ReadStep::Reply(5));
    assert_eq!(read_step(ReadAttempt::Received(0)), ReadStep::Reply(0));
    assert_eq!(read_step(ReadAttempt::WouldBlock), ReadStep::Retry);
    assert_eq!(read_step(ReadAttempt::Failed), ReadStep::ReportAndRetry);
}

#[test]
fn request_types_of_actions() {
    assert_eq!(request_type(ConsoleAction::Login), Some(LOGIN_REQUEST));
    assert_eq!(request_type(ConsoleAction::SignUp), Some(SIGNUP_REQUEST));
    assert_eq!(request_type(ConsoleAction::Exit), None);
    assert_eq!(request_type(ConsoleAction::Again), None);
    assert_eq!(LOGIN_REQUEST, 1);
    assert_eq!(SIGNUP_REQUEST, 2);
}

#[test]
fn server_address_trims_line_ends() {
    assert_eq!(server_address("10.0.0.1\n", "8080 \r\n"), "10.0.0.1:8080");
    assert_eq!(server_address("  host a\t\n", "1\u{3000}"), "  host a:1");
    assert_eq!(server_address("", ""), ":");
}

#[test]
fn reply_from_buffer_keeps_whole_short_buffer() {
    let reply = reply_from_buffer(b"\x00|ok".to_vec(), 100);
    assert_eq!(reply.get_arg(1), Some("ok"));
}
