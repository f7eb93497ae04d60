use vstd::prelude::*;
use vstd::utf8::*;
use vstd::string::*;
use crate::command::{Command, SEPARATOR, split_on};

verus! {

/// The type byte of a login request.
pub const LOGIN_REQUEST: u8 = 1u8;

/// The type byte of a sign-up request.
pub const SIGNUP_REQUEST: u8 = 2u8;

/// Which side of the program to run, chosen from the start menu.
#[derive(Debug, Clone, Copy, PartialEq, Eq)]
pub enum RunMode {
    Client,
    Server,
}

/// The side chosen by start-menu option `option`; `None` for an option that
/// the menu does not offer.
pub fn run_mode(option: usize) -> (mode: Option<RunMode>)
    ensures
        mode == (if option == 1 {
            Some(RunMode::Client)
        } else if option == 2 {
            Some(RunMode::Server)
        } else {
            None::<RunMode>
        }),
{
    if option == 1 {
        Some(RunMode::Client)
    } else if option == 2 {
        Some(RunMode::Server)
    } else {
        None
    }
}

/// What the client console does for a menu option.
#[derive(Debug, Clone, Copy, PartialEq, Eq)]
pub enum ConsoleAction {
    Login,
    SignUp,
    Exit,
    /// The option is not on the menu: show the menu again.
    Again,
}

/// The action of client-menu option `option` (Login, Sign Up, Exit).
pub fn console_action(option: usize) -> (action: ConsoleAction)
    ensures
        action == (if option == 1 {
            ConsoleAction::Login
        } else if option == 2 {
            ConsoleAction::SignUp
        } else if option == 3 {
            ConsoleAction::Exit
        } else {
            ConsoleAction::Again
        }),
{
    if option == 1 {
        ConsoleAction::Login
    } else if option == 2 {
        ConsoleAction::SignUp
    } else if option == 3 {
        ConsoleAction::Exit
    } else {
        ConsoleAction::Again
    }
}

/// The type byte of the request that a console action sends, where it
/// sends one.
pub fn request_type(action: ConsoleAction) -> (cmd_type: Option<u8>)
    ensures
        cmd_type == (match action {
            ConsoleAction::Login => Some(LOGIN_REQUEST),
            ConsoleAction::SignUp => Some(SIGNUP_REQUEST),
            _ => None::<u8>,
        }),
{
    match action {
        ConsoleAction::Login => Some(LOGIN_REQUEST),
        ConsoleAction::SignUp => Some(SIGNUP_REQUEST),
        _ => None,
    }
}

/// The characters with the Unicode property White_Space, which is what
/// `char::is_whitespace` and `str::trim_end` go by.
pub open spec fn is_white_space(c: char) -> bool {
    let v = c as u32;
    ||| 0x9 <= v <= 0xD
    ||| v == 0x20 || v == 0x85 || v == 0xA0 || v == 0x1680
    ||| 0x2000 <= v <= 0x200A
    ||| v == 0x2028 || v == 0x2029 || v == 0x202F || v == 0x205F || v == 0x3000
}

/// `text` without its trailing white space.
pub open spec fn trim_end_chars(text: Seq<char>) -> Seq<char>
    decreases text.len(),
{
    if text.len() > 0 && is_white_space(text.last()) {
        trim_end_chars(text.drop_last())
    } else {
        text
    }
}

/// Calls `str::trim_end`, whose documentation says it removes the trailing
/// characters that have the Unicode property White_Space.
#[verifier::external_body]
fn trim_end(text: &str) -> (trimmed: &str)
    ensures
        trimmed@ == trim_end_chars(text@),
{
    text.trim_end()
}

/// The server's address as typed at the console: the host, a colon and the
/// port, each without trailing white space (such as the line break).
pub fn server_address(ip: &str, port: &str) -> (address: String)
    ensures
        address@ == trim_end_chars(ip@) + ":"@ + trim_end_chars(port@),
{
    let mut address = String::from_str(trim_end(ip));
    address.append(":");
    address.append(trim_end(port));
    address
}

/// A request of type `cmd_type` that carries a username and a password.
pub fn credentials_request(cmd_type: u8, username: &str, password: &str) -> (request: Command)
    ensures
        request@ == seq![seq![cmd_type], encode_utf8(username@), encode_utf8(password@)],
{
    let mut request = Command::new(cmd_type);
    request.add_arg(username);
    request.add_arg(password);
    request
}

/// What one attempt to read the server's reply gave.
#[derive(Debug, Clone, Copy, PartialEq, Eq)]
pub enum ReadAttempt {
    /// Waiting for the stream to become readable failed.
    NotReadable,
    /// The read finished with this many bytes.
    Received(usize),
    /// The stream was not ready after all.
    WouldBlock,
    /// The read failed with another error.
    Failed,
}

/// What the client does after an attempt to read the server's reply.
#[derive(Debug, Clone, Copy, PartialEq, Eq)]
pub enum ReadStep {
    /// Stop waiting for this reply.
    Abandon,
    /// Hand on the reply made of this many bytes.
    Reply(usize),
    /// Try reading again.
    Retry,
    /// Report the error, then try reading again.
    ReportAndRetry,
}

/// The next step of waiting for a reply, after an attempt to read it.
pub fn read_step(attempt: ReadAttempt) -> (step: ReadStep)
    ensures
        step == (match attempt {
            ReadAttempt::NotReadable => ReadStep::Abandon,
            ReadAttempt::Received(n) => ReadStep::Reply(n),
            ReadAttempt::WouldBlock => ReadStep::Retry,
            ReadAttempt::Failed => ReadStep::ReportAndRetry,
        }),
{
    match attempt {
        ReadAttempt::NotReadable => ReadStep::Abandon,
        ReadAttempt::Received(n) => ReadStep::Reply(n),
        ReadAttempt::WouldBlock => ReadStep::Retry,
        ReadAttempt::Failed => ReadStep::ReportAndRetry,
    }
}

/// The reply read from the server: the first `received` bytes of the buffer
/// (the whole buffer where it holds fewer), read as a command.
pub fn reply_from_buffer(buf: Vec<u8>, received: usize) -> (reply: Command)
    ensures
        reply@ == split_on(
            if received <= buf@.len() {
                buf@.take(received as int)
            } else {
                buf@
            },
            SEPARATOR,
        ),
{
    let mut bytes = buf;
    bytes.truncate(received);
    assert(received <= buf@.len() ==> bytes@ =~= buf@.take(received as int));
    Command::new_from_b_array(bytes)
}

} // verus!
