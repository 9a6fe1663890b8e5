//! The boundary to the outside: what the gateway asks to be done, and what
//! comes back.
//!
//! Time is read by the caller, in nanoseconds from any fixed start, and handed
//! in with each event.
use vstd::prelude::*;

verus! {

/// How long one write may take, in milliseconds.
pub const WRITE_TIMEOUT_MS: u64 = 5000;

/// How long one read may wait for data, in milliseconds.
pub const READ_TIMEOUT_MS: u64 = 50;

/// How long one read may wait while left-over data is dropped, in milliseconds.
pub const DRAIN_TIMEOUT_MS: u64 = 10;

/// How long a command may wait for its answer, in milliseconds.
pub const CMD_TIMEOUT_MS: u64 = 3000;

/// How long a heartbeat may wait for its answer, in milliseconds.
pub const HEARTBEAT_TIMEOUT_MS: u64 = 3000;

/// The time from one heartbeat to the next, in milliseconds.
pub const HEARTBEAT_INTERVAL_MS: u64 = 30000;

/// The number of failed heartbeats in a row at which the connection is given up.
pub const MAX_HEARTBEAT_FAILURES: u32 = 3;

/// The pause before a new attempt to connect, in milliseconds.
pub const RECONNECT_DELAY_MS: u64 = 5000;

/// How long an attempt to connect may take, in milliseconds.
pub const CONNECT_TIMEOUT_MS: u64 = 10000;

/// The largest number of bytes that one read takes in.
pub const READ_BUFFER_LEN: usize = 1024;

/// The time from `from` to `now`; none where `now` is the earlier one.
pub open spec fn elapsed(from: u128, now: u128) -> int {
    if now >= from {
        now - from
    } else {
        0
    }
}

/// At least `ms` milliseconds have gone by from `from` to `now`.
pub open spec fn due(from: u128, now: u128, ms: u64) -> bool {
    elapsed(from, now) >= ms * 1_000_000
}

/// Whether at least `ms` milliseconds have gone by from `from` to `now`.
pub fn is_due(from: u128, now: u128, ms: u64) -> (r: bool)
    ensures
        r == due(from, now, ms),
{
    let gone: u128 = if now >= from {
        now - from
    } else {
        0
    };
    gone >= ms as u128 * 1_000_000
}

/// What has to be done next on the modem's side.
#[derive(Debug, PartialEq, Eq)]
pub enum Action<T> {
    /// Open the connection, within the given time.
    Connect { limit_ms: u64 },
    /// Wait.
    Pause { ms: u64 },
    /// Give the connection up for a new, unopened one, then wait.
    Reset { pause_ms: u64 },
    /// Look for a command of a client, without waiting.
    Poll,
    /// Read from the modem, within the given number of milliseconds where there
    /// is one.
    Receive { limit: Option<u64> },
    /// Write to the modem, within the given time.
    Send { data: T, limit_ms: u64 },
    /// Tell the client whose command was taken last how it went.
    Reply { outcome: Result<T, T> },
    /// Tell every client of a notification.
    Broadcast { line: T },
    /// Nothing any more.
    Stop,
}

impl View for Action<String> {
    type V = Action<Seq<char>>;

    open spec fn view(&self) -> Action<Seq<char>> {
        match self {
            Action::Connect { limit_ms } => Action::Connect { limit_ms: *limit_ms },
            Action::Pause { ms } => Action::Pause { ms: *ms },
            Action::Reset { pause_ms } => Action::Reset { pause_ms: *pause_ms },
            Action::Poll => Action::Poll,
            Action::Receive { limit } => Action::Receive { limit: *limit },
            Action::Send { data, limit_ms } => Action::Send { data: data@, limit_ms: *limit_ms },
            Action::Reply { outcome } => Action::Reply {
                outcome: match outcome {
                    Ok(t) => Ok(t@),
                    Err(e) => Err(e@),
                },
            },
            Action::Broadcast { line } => Action::Broadcast { line: line@ },
            Action::Stop => Action::Stop,
        }
    }
}

/// What came of an action.
#[derive(Debug, PartialEq, Eq)]
pub enum Event {
    /// It is done.
    Done,
    /// It failed, with the given description.
    Failed(String),
    /// It did not finish within its time.
    TimedOut,
    /// Bytes were read; none where no data came.
    Data(Vec<u8>),
    /// A client's command was found.
    Command(String),
    /// No command is waiting.
    NoCommand,
    /// No command can come any more.
    Closed,
}

/// What came of one read into a buffer.
#[derive(Debug, PartialEq, Eq)]
pub enum ReadOutcome {
    /// The number of bytes that were read.
    Read(usize),
    /// The read failed, with the given description.
    Failed(String),
    /// No data came in time.
    TimedOut,
}

/// The bytes that a read gave: the filled part of the buffer, or none where
/// no data came in time, which is no error.
pub fn read_result(buffer: Vec<u8>, outcome: ReadOutcome) -> (r: Result<Vec<u8>, String>)
    ensures
        match outcome {
            ReadOutcome::Read(n) => r is Ok && r->Ok_0@ == if n <= buffer@.len() {
                buffer@.take(n as int)
            } else {
                buffer@
            },
            ReadOutcome::Failed(e) => r is Err && r->Err_0@ == e@,
            ReadOutcome::TimedOut => r is Ok && r->Ok_0@.len() == 0,
        },
{
    match outcome {
        ReadOutcome::Read(n) => {
            let mut filled = buffer;
            filled.truncate(n);
            Ok(filled)
        },
        ReadOutcome::Failed(e) => Err(e),
        ReadOutcome::TimedOut => Ok(Vec::new()),
    }
}

// ---------------------------------------------------------------------------
// Laws
// ---------------------------------------------------------------------------

/// A time of some milliseconds is over once the clock shows that many million
/// nanoseconds more, and not before; no time is over at once.
pub proof fn law_due(from: u128, now: u128, ms: u64)
    ensures
        due(from, now, ms) <==> now >= from + ms * 1_000_000 || ms == 0,
        now >= from ==> elapsed(from, now) == now - from,
        now < from ==> elapsed(from, now) == 0,
{
}

/// An action names the same thing over strings and over plain texts.
pub proof fn law_action_view(a: Action<String>)
    ensures
        match a {
            Action::Connect { limit_ms } => a@ == (Action::<Seq<char>>::Connect { limit_ms }),
            Action::Pause { ms } => a@ == (Action::<Seq<char>>::Pause { ms }),
            Action::Reset { pause_ms } => a@ == (Action::<Seq<char>>::Reset { pause_ms }),
            Action::Poll => a@ == Action::<Seq<char>>::Poll,
            Action::Receive { limit } => a@ == (Action::<Seq<char>>::Receive { limit }),
            Action::Send { data, limit_ms } => a@ == (Action::Send { data: data@, limit_ms }),
            Action::Reply { outcome: Ok(t) } => a@ == (Action::Reply { outcome: Ok(t@) }),
            Action::Reply { outcome: Err(e) } => a@ == (Action::Reply { outcome: Err(e@) }),
            Action::Broadcast { line } => a@ == (Action::Broadcast { line: line@ }),
            Action::Stop => a@ == Action::<Seq<char>>::Stop,
        },
{
}

/// One read takes in at most a kilobyte.
pub proof fn law_read_buffer()
    ensures
        READ_BUFFER_LEN == 1024,
{
}

} // verus!
