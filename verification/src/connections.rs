use vstd::prelude::*;
use std::time::{SystemTime, SystemTimeError};
use std::collections::HashMap;
use uuid::Uuid;
use crate::user::{User, UserView};

verus! {

/// `std::time::SystemTime`, carried through as an opaque value.
#[verifier::external_type_specification]
#[verifier::external_body]
pub struct ExSystemTime(SystemTime);

/// `std::time::SystemTimeError`, carried through as an opaque value.
#[verifier::external_type_specification]
#[verifier::external_body]
pub struct ExSystemTimeError(SystemTimeError);

/// The token that identifies a client's session: the 128 bits of a UUID.
pub type Token = u128;

/// The open connections, by their session token.
pub type ConnectionMap = HashMap<Token, Connection>;

/// One second, in nanoseconds.
pub const NANOS_PER_SEC: u32 = 1_000_000_000u32;

/// Calls `SystemTime::now`. The clock decides the result, so nothing is
/// stated of it.
#[verifier::external_body]
fn clock_now() -> SystemTime {
    SystemTime::now()
}

/// Calls `SystemTime::elapsed` on `since` and hands back the `Duration` it
/// gives as its two parts: the whole seconds (`Duration::as_secs`) and the
/// nanoseconds beyond them (`Duration::subsec_nanos`). The clock decides the
/// value; `Duration`'s documentation says the nanosecond part is always less
/// than one second, and that is all that is stated.
#[verifier::external_body]
fn elapsed_parts(since: &SystemTime) -> (elapsed: Result<(u64, u32), SystemTimeError>)
    ensures
        elapsed matches Ok((_, nanos)) ==> nanos < NANOS_PER_SEC,
{
    since.elapsed().map(|d| (d.as_secs(), d.subsec_nanos()))
}

/// A UUID of version 4 and of the RFC 4122 variant, as its 128 bits (most
/// significant byte first): the version field (bits 76 to 79) reads 4 and
/// the variant field (bits 62 and 63) reads `0b10`.
pub open spec fn is_v4_token(bits: u128) -> bool {
    &&& (bits >> 76u128) & 0xFu128 == 4u128
    &&& (bits >> 62u128) & 0x3u128 == 2u128
}

/// Calls `Uuid::new_v4` and hands back the UUID's 128 bits (`Uuid::as_u128`,
/// one for one). The source masks a random number so that the version field
/// reads 4 and the variant field reads the RFC 4122 pattern; the other 122
/// bits are random, and nothing is stated of them.
#[verifier::external_body]
fn random_v4_bits() -> (bits: u128)
    ensures
        is_v4_token(bits),
{
    Uuid::new_v4().as_u128()
}

/// The user record held in an optional user, as a mathematical value.
pub open spec fn user_view(user: Option<User>) -> Option<UserView> {
    match user {
        Some(u) => Some(u@),
        None => None,
    }
}

/// What a connection record holds, as values.
pub struct ConnectionView {
    pub user: Option<UserView>,
    pub last_connection_time: SystemTime,
}

/// The whole seconds in an elapsed time of `secs` seconds and `nanos`
/// nanoseconds: the fraction of a second is dropped.
pub open spec fn whole_seconds(secs: u64, nanos: u32) -> int {
    (secs * NANOS_PER_SEC + nanos) / (NANOS_PER_SEC as int)
}

/// The answer to "is the connection still within `seconds`", given the time
/// elapsed since its last activity (whole seconds and nanoseconds), or the
/// clock's error: only whole seconds count.
pub open spec fn within_seconds(elapsed: Result<(u64, u32), SystemTimeError>, seconds: u64) -> Result<
    bool,
    SystemTimeError,
> {
    match elapsed {
        Ok((secs, nanos)) => Ok(whole_seconds(secs, nanos) < seconds),
        Err(e) => Err(e),
    }
}

/// Decides, from the time elapsed since the last activity (or the clock's
/// error), whether fewer than `seconds` whole seconds have passed.
pub fn elapsed_within(elapsed: Result<(u64, u32), SystemTimeError>, seconds: u64) -> (r: Result<
    bool,
    SystemTimeError,
>)
    requires
        elapsed matches Ok((_, nanos)) ==> nanos < NANOS_PER_SEC,
    ensures
        r == within_seconds(elapsed, seconds),
{
    match elapsed {
        Ok((secs, nanos)) => {
            proof {
                lemma_whole_seconds(secs, nanos);
            }
            Ok(secs < seconds)
        },
        Err(e) => Err(e),
    }
}

/// The whole seconds of a time are its seconds part, when the nanosecond
/// part is less than a second.
proof fn lemma_whole_seconds(secs: u64, nanos: u32)
    requires
        nanos < NANOS_PER_SEC,
    ensures
        whole_seconds(secs, nanos) == secs,
{
    let s = secs as int;
    let n = nanos as int;
    assert((s * 1_000_000_000 + n) / 1_000_000_000 == s) by (nonlinear_arith)
        requires
            0 <= n < 1_000_000_000,
            0 <= s,
    {
        vstd::arithmetic::div_mod::lemma_fundamental_div_mod_converse(
            s * 1_000_000_000 + n,
            1_000_000_000,
            s,
            n,
        );
    }
}

/// One change made to a connection record: a new user, or a new time of
/// last activity.
pub enum ConnectionStep {
    SetUser(Option<UserView>),
    SetTime(SystemTime),
}

/// The connection record after one change.
pub open spec fn connection_step(conn: ConnectionView, step: ConnectionStep) -> ConnectionView {
    match step {
        ConnectionStep::SetUser(user) => ConnectionView { user, ..conn },
        ConnectionStep::SetTime(now) => ConnectionView { last_connection_time: now, ..conn },
    }
}

/// The connection record after a run of changes, in order.
pub open spec fn connection_steps(conn: ConnectionView, steps: Seq<ConnectionStep>) -> ConnectionView
    decreases steps.len(),
{
    if steps.len() == 0 {
        conn
    } else {
        connection_step(connection_steps(conn, steps.drop_last()), steps.last())
    }
}

/// The user set by the last `SetUser` of a run, or `initial` where there is
/// none.
pub open spec fn last_user(initial: Option<UserView>, steps: Seq<ConnectionStep>) -> Option<
    UserView,
>
    decreases steps.len(),
{
    if steps.len() == 0 {
        initial
    } else {
        match steps.last() {
            ConnectionStep::SetUser(user) => user,
            ConnectionStep::SetTime(_) => last_user(initial, steps.drop_last()),
        }
    }
}

/// The time set by the last `SetTime` of a run, or `initial` where there is
/// none.
pub open spec fn last_time(initial: SystemTime, steps: Seq<ConnectionStep>) -> SystemTime
    decreases steps.len(),
{
    if steps.len() == 0 {
        initial
    } else {
        match steps.last() {
            ConnectionStep::SetTime(now) => now,
            ConnectionStep::SetUser(_) => last_time(initial, steps.drop_last()),
        }
    }
}

/// After any run of `set_user` and `set_time` / `update_time` calls, a
/// connection holds the user of the last `set_user` (or the one it was
/// created with) and the time of the last stamp (or the one it was created
/// with): each kind of change leaves the other part alone.
pub proof fn lemma_connection_keeps_last_values(conn: ConnectionView, steps: Seq<ConnectionStep>)
    ensures
        connection_steps(conn, steps).user == last_user(conn.user, steps),
        connection_steps(conn, steps).last_connection_time == last_time(
            conn.last_connection_time,
            steps,
        ),
    decreases steps.len(),
{
    if steps.len() > 0 {
        lemma_connection_keeps_last_values(conn, steps.drop_last());
    }
}

/// A client's connection: the user logged in on it, if any, and when it was
/// last active.
pub struct Connection {
    user: Option<User>,
    last_connection_time: SystemTime,
}

impl View for Connection {
    type V = ConnectionView;

    closed spec fn view(&self) -> ConnectionView {
        ConnectionView { user: user_view(self.user), last_connection_time: self.last_connection_time }
    }
}

impl Connection {
    /// Creates a connection for `user`, last active at `now`.
    pub fn new_at(user: Option<User>, now: SystemTime) -> (conn: Connection)
        ensures
            conn@ == (ConnectionView { user: user_view(user), last_connection_time: now }),
    {
        Connection { user, last_connection_time: now }
    }

    /// Creates a connection for `user`, stamped with the clock's reading.
    pub fn new(user: Option<User>) -> (conn: Connection)
        ensures
            exists|now: SystemTime|
                conn@ == (ConnectionView { user: user_view(user), last_connection_time: now }),
    {
        let conn = Connection::new_at(user, clock_now());
        assert(conn@ == (ConnectionView {
            user: conn@.user,
            last_connection_time: conn@.last_connection_time,
        }));
        conn
    }

    pub fn get_user(&self) -> (user: &Option<User>)
        ensures
            user_view(*user) == self@.user,
    {
        &self.user
    }

    pub fn set_user(&mut self, user: Option<User>)
        ensures
            final(self)@ == connection_step(old(self)@, ConnectionStep::SetUser(user_view(user))),
    {
        self.user = user;
    }

    /// Records `now` as the time of the last activity; the user stays as it
    /// was.
    pub fn set_time(&mut self, now: SystemTime)
        ensures
            final(self)@ == connection_step(old(self)@, ConnectionStep::SetTime(now)),
    {
        self.last_connection_time = now;
    }

    /// Stamps the connection with the clock's reading as its last activity;
    /// the user stays as it was.
    pub fn update_time(&mut self)
        ensures
            exists|now: SystemTime|
                final(self)@ == connection_step(old(self)@, ConnectionStep::SetTime(now)),
    {
        self.set_time(clock_now());
    }

    pub fn get_time(&self) -> (time: SystemTime)
        ensures
            time == self@.last_connection_time,
    {
        self.last_connection_time
    }

    /// `Ok(true)` where fewer than `seconds` whole seconds have passed since
    /// the last activity, `Ok(false)` where at least that many have, and the
    /// clock's error where the last activity lies in the clock's future.
    pub fn is_time_over(&self, seconds: u64) -> (r: Result<bool, SystemTimeError>)
        ensures
            exists|elapsed: Result<(u64, u32), SystemTimeError>|
                (elapsed matches Ok((_, nanos)) ==> nanos < NANOS_PER_SEC) && r == within_seconds(
                    elapsed,
                    seconds,
                ),
    {
        let elapsed = elapsed_parts(&self.last_connection_time);
        elapsed_within(elapsed, seconds)
    }
}

/// A fresh random session token: a version 4 UUID of the RFC 4122 variant.
pub fn get_token() -> (token: Token)
    ensures
        is_v4_token(token),
{
    random_v4_bits()
}

} // verus!
