use vstd::prelude::*;
use vstd::utf8::*;
use vstd::string::*;
use crate::command::{
    Command, SEPARATOR, field_text, fields_free_of, join_on, lemma_encode_separator_free,
    lemma_split_join, split_on,
};

verus! {

/// The type byte of a reply that reports success.
pub const REPLY_OK: u8 = 0u8;

/// The type byte of a reply that reports a failure, with its message as the
/// one argument.
pub const REPLY_ERROR: u8 = 2u8;

/// How many failed attempts to open the listening socket are tolerated
/// before the server gives up.
pub const BIND_RETRY_LIMIT: u8 = 5u8;

/// What a request asks of the server, by its type byte.
#[derive(Debug, Clone, Copy, PartialEq, Eq)]
pub enum RequestKind {
    CheckStatus,
    Login,
    SignUp,
    Logout,
    GetFilesAddr,
    GetFile,
    AddFile,
    UpdateFile,
    DeleteFile,
    GetFileRelations,
    AddRelation,
    DeleteRelation,
    Unknown,
}

/// The request that each type byte stands for.
pub open spec fn kind_of(code: u8) -> RequestKind {
    if code == 0 {
        RequestKind::CheckStatus
    } else if code == 1 {
        RequestKind::Login
    } else if code == 2 {
        RequestKind::SignUp
    } else if code == 3 {
        RequestKind::Logout
    } else if code == 4 {
        RequestKind::GetFilesAddr
    } else if code == 5 {
        RequestKind::GetFile
    } else if code == 6 {
        RequestKind::AddFile
    } else if code == 7 {
        RequestKind::UpdateFile
    } else if code == 8 {
        RequestKind::DeleteFile
    } else if code == 9 {
        RequestKind::GetFileRelations
    } else if code == 10 {
        RequestKind::AddRelation
    } else if code == 11 {
        RequestKind::DeleteRelation
    } else {
        RequestKind::Unknown
    }
}

/// Which handler a request goes to, from its first byte.
pub fn request_kind(code: u8) -> (kind: RequestKind)
    ensures
        kind == kind_of(code),
{
    match code {
        0 => RequestKind::CheckStatus,
        1 => RequestKind::Login,
        2 => RequestKind::SignUp,
        3 => RequestKind::Logout,
        4 => RequestKind::GetFilesAddr,
        5 => RequestKind::GetFile,
        6 => RequestKind::AddFile,
        7 => RequestKind::UpdateFile,
        8 => RequestKind::DeleteFile,
        9 => RequestKind::GetFileRelations,
        10 => RequestKind::AddRelation,
        11 => RequestKind::DeleteRelation,
        _ => RequestKind::Unknown,
    }
}

/// Reads the username (argument 1) and password (argument 2) of a login or
/// sign-up request; `None` where either is missing or is not valid UTF-8, in
/// which case the server sends no reply.
pub fn request_credentials(data: Vec<u8>) -> (creds: Option<(String, String)>)
    ensures
        match creds {
            Some((user, password)) => {
                &&& field_text(split_on(data@, SEPARATOR), 1) == Some(user@)
                &&& field_text(split_on(data@, SEPARATOR), 2) == Some(password@)
            },
            None => {
                ||| field_text(split_on(data@, SEPARATOR), 1) is None
                ||| field_text(split_on(data@, SEPARATOR), 2) is None
            },
        },
{
    let cmd = Command::new_from_b_array(data);
    let user = match cmd.get_arg(1) {
        Some(u) => u,
        None => {
            return None;
        },
    };
    let password = match cmd.get_arg(2) {
        Some(p) => p,
        None => {
            return None;
        },
    };
    Some((user.to_owned(), password.to_owned()))
}

/// Whether a credentials lookup found the user: the count of matching rows,
/// or `None` where the lookup failed.
pub fn credentials_accepted(matching_rows: Option<i64>) -> (accepted: bool)
    ensures
        accepted == (matching_rows matches Some(n) && n > 0),
{
    match matching_rows {
        Some(n) => n > 0,
        None => false,
    }
}

/// The fields of the reply to a login request.
pub open spec fn login_reply_fields(accepted: bool) -> Seq<Seq<u8>> {
    if accepted {
        seq![seq![REPLY_OK]]
    } else {
        seq![seq![REPLY_ERROR], encode_utf8("User does not exist"@)]
    }
}

/// The reply to a sign-up has one field, the success byte, where the sign-up
/// succeeded, and otherwise exactly two: the error byte, then the message,
/// which reads back as the same text.
pub proof fn lemma_signup_reply_shape(outcome: Result<(), Seq<char>>)
    ensures
        signup_reply_fields(outcome).len() == (if outcome is Ok { 1int } else { 2int }),
        signup_reply_fields(outcome)[0] == seq![if outcome is Ok { REPLY_OK } else { REPLY_ERROR }],
        outcome matches Ok(()) ==> signup_reply_fields(outcome) == seq![seq![REPLY_OK]],
        outcome matches Err(message) ==> signup_reply_fields(outcome) == seq![
            seq![REPLY_ERROR],
            encode_utf8(message),
        ],
        outcome matches Err(message) ==> field_text(signup_reply_fields(outcome), 1) == Some(
            message,
        ),
{
    if let Err(message) = outcome {
        encode_utf8_valid_utf8(message);
        encode_utf8_decode_utf8(message);
    }
}

/// The reply to a login has one field, the success byte, where the
/// credentials were accepted, and otherwise exactly two: the error byte, then
/// the text "User does not exist".
pub proof fn lemma_login_reply_shape(accepted: bool)
    ensures
        login_reply_fields(accepted).len() == (if accepted { 1int } else { 2int }),
        login_reply_fields(accepted)[0] == seq![if accepted { REPLY_OK } else { REPLY_ERROR }],
        !accepted ==> field_text(login_reply_fields(accepted), 1) == Some("User does not exist"@),
{
    encode_utf8_valid_utf8("User does not exist"@);
    encode_utf8_decode_utf8("User does not exist"@);
}

/// The reply to a login request: success, or an error that says the user
/// does not exist.
pub fn login_reply(accepted: bool) -> (reply: Command)
    ensures
        reply@ == login_reply_fields(accepted),
        reply@.len() == (if accepted { 1int } else { 2int }),
        reply@[0] == seq![if accepted { REPLY_OK } else { REPLY_ERROR }],
        !accepted ==> field_text(reply@, 1) == Some("User does not exist"@),
{
    proof {
        lemma_login_reply_shape(accepted);
    }
    if accepted {
        Command::new(REPLY_OK)
    } else {
        let mut reply = Command::new(REPLY_ERROR);
        reply.add_arg("User does not exist");
        reply
    }
}

/// The username and password that a client puts in a login or sign-up
/// request are the ones the server reads from the bytes it receives, when
/// neither holds the `|` character.
pub proof fn lemma_server_reads_client_credentials(
    cmd_type: u8,
    user: Seq<char>,
    password: Seq<char>,
)
    requires
        cmd_type != SEPARATOR,
        !user.contains('|'),
        !password.contains('|'),
    ensures
        ({
            let sent = join_on(
                seq![seq![cmd_type], encode_utf8(user), encode_utf8(password)],
                SEPARATOR,
            );
            &&& split_on(sent, SEPARATOR)[0] == seq![cmd_type]
            &&& field_text(split_on(sent, SEPARATOR), 1) == Some(user)
            &&& field_text(split_on(sent, SEPARATOR), 2) == Some(password)
        }),
{
    let fields = seq![seq![cmd_type], encode_utf8(user), encode_utf8(password)];
    lemma_encode_separator_free(user);
    lemma_encode_separator_free(password);
    assert(fields_free_of(fields, SEPARATOR)) by {
        assert forall|i: int| 0 <= i < fields.len() implies !(#[trigger] fields[i]).contains(
            SEPARATOR,
        ) by {
            if i == 0 {
                if fields[0].contains(SEPARATOR) {
                    assert(fields[0][0] == cmd_type);
                }
            }
        }
    }
    lemma_split_join(fields, SEPARATOR);
    encode_utf8_valid_utf8(user);
    encode_utf8_decode_utf8(user);
    encode_utf8_valid_utf8(password);
    encode_utf8_decode_utf8(password);
}

/// The message of a failed sign-up is the one the client reads from the
/// reply's bytes, when it holds no `|` character.
pub proof fn lemma_client_reads_signup_error(message: Seq<char>)
    requires
        !message.contains('|'),
    ensures
        ({
            let sent = join_on(signup_reply_fields(Err(message)), SEPARATOR);
            &&& split_on(sent, SEPARATOR)[0] == seq![REPLY_ERROR]
            &&& field_text(split_on(sent, SEPARATOR), 1) == Some(message)
        }),
{
    let fields = signup_reply_fields(Err(message));
    lemma_encode_separator_free(message);
    assert(fields_free_of(fields, SEPARATOR)) by {
        assert forall|i: int| 0 <= i < fields.len() implies !(#[trigger] fields[i]).contains(
            SEPARATOR,
        ) by {
            if i == 0 {
                if fields[0].contains(SEPARATOR) {
                    assert(fields[0][0] == REPLY_ERROR);
                }
            }
        }
    }
    lemma_split_join(fields, SEPARATOR);
    encode_utf8_valid_utf8(message);
    encode_utf8_decode_utf8(message);
}

/// The fields of the reply to a sign-up request.
pub open spec fn signup_reply_fields(outcome: Result<(), Seq<char>>) -> Seq<Seq<u8>> {
    match outcome {
        Ok(()) => seq![seq![REPLY_OK]],
        Err(message) => seq![seq![REPLY_ERROR], encode_utf8(message)],
    }
}

/// A sign-up outcome with the error message taken as its text.
pub open spec fn outcome_text(outcome: Result<(), String>) -> Result<(), Seq<char>> {
    match outcome {
        Ok(()) => Ok(()),
        Err(message) => Err(message@),
    }
}

/// The reply to a sign-up request: success, or an error that carries the
/// message of the failed insertion.
pub fn signup_reply(outcome: Result<(), String>) -> (reply: Command)
    ensures
        reply@ == signup_reply_fields(outcome_text(outcome)),
        reply@.len() == (if outcome is Ok { 1int } else { 2int }),
        reply@[0] == seq![if outcome is Ok { REPLY_OK } else { REPLY_ERROR }],
        outcome matches Ok(()) ==> reply@ == seq![seq![REPLY_OK]],
        outcome matches Err(message) ==> reply@ == seq![seq![REPLY_ERROR], encode_utf8(message@)],
        outcome matches Err(message) ==> field_text(reply@, 1) == Some(message@),
{
    proof {
        lemma_signup_reply_shape(outcome_text(outcome));
    }
    match outcome {
        Ok(()) => Command::new(REPLY_OK),
        Err(message) => {
            let mut reply = Command::new(REPLY_ERROR);
            reply.add_arg(message.as_str());
            reply
        },
    }
}

/// The location of the database that lives in directory `db_dir`.
pub fn database_url(db_dir: &str) -> (url: String)
    ensures
        url@ == "sqlite://./"@ + db_dir@ + ".db"@,
{
    let mut url = String::from_str("sqlite://./");
    url.append(db_dir);
    url.append(".db");
    url
}

/// What a timed read on a client's stream gave.
#[derive(Debug, Clone, Copy, PartialEq, Eq)]
pub enum ReadOutcome {
    /// The read finished with this many bytes.
    Received(usize),
    /// The read finished with an error.
    Failed,
    /// No data came before the time limit.
    TimedOut,
}

/// What the server does next with a client's stream.
#[derive(Debug, Clone, Copy, PartialEq, Eq)]
pub enum StreamAction {
    /// The client closed the connection: stop serving it.
    Closed,
    /// Handle the request in the buffer, then read again.
    HandleInput(usize),
    /// Reading failed: stop serving the connection.
    ReadError,
    /// The client was idle too long: shut the connection down and stop.
    ShutDown,
}

/// The next step of serving a stream, after a read.
pub fn stream_action(outcome: ReadOutcome) -> (action: StreamAction)
    ensures
        action == (match outcome {
            ReadOutcome::Received(n) => if n == 0 {
                StreamAction::Closed
            } else {
                StreamAction::HandleInput(n)
            },
            ReadOutcome::Failed => StreamAction::ReadError,
            ReadOutcome::TimedOut => StreamAction::ShutDown,
        }),
{
    match outcome {
        ReadOutcome::Received(n) => if n == 0 {
            StreamAction::Closed
        } else {
            StreamAction::HandleInput(n)
        },
        ReadOutcome::Failed => StreamAction::ReadError,
        ReadOutcome::TimedOut => StreamAction::ShutDown,
    }
}

/// The count of failed attempts to open the listening socket.
pub struct BindAttempts {
    failures: u8,
}

impl BindAttempts {
    pub closed spec fn failures(&self) -> nat {
        self.failures as nat
    }

    /// No attempt has failed yet.
    pub fn new() -> (attempts: BindAttempts)
        ensures
            attempts.failures() == 0,
    {
        BindAttempts { failures: 0 }
    }

    /// Records one more failure; `true` where the server must now give up,
    /// which is once more than `BIND_RETRY_LIMIT` attempts have failed.
    pub fn record_failure(&mut self) -> (give_up: bool)
        requires
            old(self).failures() <= BIND_RETRY_LIMIT,
        ensures
            final(self).failures() == old(self).failures() + 1,
            give_up == (final(self).failures() > BIND_RETRY_LIMIT),
    {
        self.failures = self.failures + 1;
        self.failures > BIND_RETRY_LIMIT
    }
}

/// Of the failure counts that `record_failure` can reach from `new` (one
/// to `BIND_RETRY_LIMIT + 1`), only the last exceeds `BIND_RETRY_LIMIT`: the
/// `record_failure` call that returns `true` is exactly the
/// `BIND_RETRY_LIMIT + 1`-th.
pub proof fn lemma_bind_gives_up_after_limit(failures: nat)
    requires
        1 <= failures <= BIND_RETRY_LIMIT + 1,
    ensures
        (failures > BIND_RETRY_LIMIT) <==> failures == BIND_RETRY_LIMIT + 1,
{
}

} // verus!
