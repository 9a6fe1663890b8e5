//! The actor that owns the modem's connection: it opens and sets up the
//! connection, carries out the commands of clients one at a time, passes
//! notifications on, and checks by heartbeats that the modem is alive.
//!
//! The actor decides; its caller performs the [`Action`] that the actor names
//! and hands back the [`Event`] that came of it.
use crate::at::{
    answered, command_outcome, command_result, frame_command, framed, heartbeat_outcome,
    heartbeat_result, law_framing, result_text, Ended,
};
use crate::exchange::{
    brings_data, brings_nothing, gathered, law_answer_is_what_came, law_left_over_data_is_dropped,
    lemma_run_in_two, Exchange, Progress, Stage,
};
use crate::link::{
    due, is_due, Action, Event, CMD_TIMEOUT_MS, CONNECT_TIMEOUT_MS, HEARTBEAT_INTERVAL_MS,
    HEARTBEAT_TIMEOUT_MS, MAX_HEARTBEAT_FAILURES, RECONNECT_DELAY_MS,
};
use crate::text::{
    decode_lossy, lines_of, lossy_text, lowercase_text, occurs, to_chars, to_text, trim, trimmed,
};
use crate::urc::{
    find_notifications, notification, notifications, notifications_once_trimmed,
};
use vstd::prelude::*;

verus! {

/// The number of commands that set up a modem after connecting.
pub const INIT_COMMANDS: usize = 4;

/// The commands that set up a modem, in their order: no echo, notifications of
/// short messages, their raw format, and caller identification.
pub open spec fn init_text(index: usize) -> Seq<char> {
    if index == 0 {
        "ATE0"@
    } else if index == 1 {
        "AT+CNMI=2,1,0,2,0"@
    } else if index == 2 {
        "AT+CMGF=0"@
    } else {
        "AT+CLIP=1"@
    }
}

/// The command of the given number that sets up a modem.
pub fn init_command(index: usize) -> (r: &'static str)
    requires
        index < INIT_COMMANDS,
    ensures
        r@ == init_text(index),
{
    if index == 0 {
        "ATE0"
    } else if index == 1 {
        "AT+CNMI=2,1,0,2,0"
    } else if index == 2 {
        "AT+CMGF=0"
    } else {
        "AT+CLIP=1"
    }
}

/// What the actor is about. `T` is the type of a text, `L` that of a list of
/// texts.
pub enum Mode<T, L> {
    /// The connection is opened.
    Connecting,
    /// After a failed attempt to connect.
    Pausing,
    /// The connection is given up.
    Resetting,
    /// The modem is set up: the command of the given number is carried out.
    Initializing { index: usize, exchange: Exchange<T> },
    /// A client's command is looked for.
    Polling,
    /// A client's command is carried out; `echo` is the trimmed command.
    Commanding { echo: T, exchange: Exchange<T> },
    /// The client is told how its command went.
    Replying { outcome: Result<T, T> },
    /// The modem may say something on its own accord.
    Listening,
    /// Notifications are passed on, the first of the list first.
    Broadcasting { lines: L },
    /// A heartbeat is carried out.
    Beating { exchange: Exchange<T> },
    /// No command can come any more.
    Stopped,
}

/// The state of the actor.
pub struct ActorState<T, L> {
    /// The number of heartbeats that failed since the last that did not, or
    /// since connecting.
    pub failures: u32,
    /// Why the last of these failed, where there is one.
    pub heartbeat_error: Option<T>,
    /// When the last heartbeat was over, or what stands for one.
    pub last_heartbeat: u128,
    /// What the actor is about.
    pub mode: Mode<T, L>,
}

/// The actor's mode over plain texts.
pub type ModeView = Mode<Seq<char>, Seq<Seq<char>>>;

/// The actor's state over plain texts.
pub type ActorView = ActorState<Seq<char>, Seq<Seq<char>>>;

impl View for Mode<String, Vec<String>> {
    type V = ModeView;

    open spec fn view(&self) -> ModeView {
        match self {
            Mode::Connecting => Mode::Connecting,
            Mode::Pausing => Mode::Pausing,
            Mode::Resetting => Mode::Resetting,
            Mode::Initializing { index, exchange } => Mode::Initializing {
                index: *index,
                exchange: exchange@,
            },
            Mode::Polling => Mode::Polling,
            Mode::Commanding { echo, exchange } => Mode::Commanding {
                echo: echo@,
                exchange: exchange@,
            },
            Mode::Replying { outcome } => Mode::Replying { outcome: result_text(*outcome) },
            Mode::Listening => Mode::Listening,
            Mode::Broadcasting { lines } => Mode::Broadcasting { lines: lines.deep_view() },
            Mode::Beating { exchange } => Mode::Beating { exchange: exchange@ },
            Mode::Stopped => Mode::Stopped,
        }
    }
}

impl View for ActorState<String, Vec<String>> {
    type V = ActorView;

    open spec fn view(&self) -> ActorView {
        ActorState {
            failures: self.failures,
            heartbeat_error: match self.heartbeat_error {
                Some(error) => Some(error@),
                None => None,
            },
            last_heartbeat: self.last_heartbeat,
            mode: self.mode@,
        }
    }
}

/// While an answer is gathered it is incomplete.
pub open spec fn sound(x: Exchange<Seq<char>>) -> bool {
    x.stage matches Stage::Collecting { text, .. } ==> !answered(text)
}

/// The round trip of a set-up command.
pub open spec fn init_exchange(index: usize) -> Exchange<Seq<char>> {
    Exchange::begun(framed(init_text(index)), CMD_TIMEOUT_MS)
}

/// The round trip of a client's command.
pub open spec fn command_exchange(command: Seq<char>) -> Exchange<Seq<char>> {
    Exchange::begun(framed(command), CMD_TIMEOUT_MS)
}

/// The round trip of a heartbeat.
pub open spec fn heartbeat_exchange() -> Exchange<Seq<char>> {
    Exchange::begun("AT\r\n"@, HEARTBEAT_TIMEOUT_MS)
}

impl ActorView {
    /// The state of an actor that starts at `now`.
    pub open spec fn started(now: u128) -> Self {
        ActorState {
            failures: 0,
            heartbeat_error: None,
            last_heartbeat: now,
            mode: Mode::Connecting,
        }
    }

    /// The same state in another mode.
    pub open spec fn in_mode(self, mode: ModeView) -> Self {
        ActorState { mode, ..self }
    }

    /// What holds of the actor at all times.
    pub open spec fn wf(self) -> bool {
        &&& self.failures <= MAX_HEARTBEAT_FAILURES
        &&& self.failures == 0 <==> self.heartbeat_error is None
        &&& match self.mode {
            Mode::Initializing { index, exchange } => {
                &&& index < INIT_COMMANDS
                &&& exchange.request == init_exchange(index).request
                &&& exchange.limit_ms == CMD_TIMEOUT_MS
                &&& sound(exchange)
            },
            Mode::Commanding { echo, exchange } => {
                &&& trimmed(exchange.request) == echo
                &&& exchange.limit_ms == CMD_TIMEOUT_MS
                &&& sound(exchange)
            },
            Mode::Broadcasting { lines } => lines.len() > 0,
            Mode::Beating { exchange } => {
                &&& self.failures < MAX_HEARTBEAT_FAILURES
                &&& exchange.request == heartbeat_exchange().request
                &&& exchange.limit_ms == HEARTBEAT_TIMEOUT_MS
                &&& sound(exchange)
            },
            _ => true,
        }
    }

    /// The connection is open.
    pub open spec fn connected(self) -> bool {
        !(self.mode is Connecting || self.mode is Pausing || self.mode is Resetting)
    }

    /// What has to be done next.
    pub open spec fn wants(self) -> Action<Seq<char>> {
        match self.mode {
            Mode::Connecting => Action::Connect { limit_ms: CONNECT_TIMEOUT_MS },
            Mode::Pausing => Action::Pause { ms: RECONNECT_DELAY_MS },
            Mode::Resetting => Action::Reset { pause_ms: RECONNECT_DELAY_MS },
            Mode::Initializing { exchange, .. } => exchange.wants(),
            Mode::Polling => Action::Poll,
            Mode::Commanding { exchange, .. } => exchange.wants(),
            Mode::Replying { outcome } => Action::Reply { outcome },
            Mode::Listening => Action::Receive { limit: None },
            Mode::Broadcasting { lines } => Action::Broadcast { line: lines[0] },
            Mode::Beating { exchange } => exchange.wants(),
            Mode::Stopped => Action::Stop,
        }
    }

    /// The state once the modem was listened to: a connection whose heartbeats
    /// keep failing is given up, else a heartbeat is carried out where one is
    /// due.
    pub open spec fn checked(self, now: u128) -> Self {
        if self.failures >= MAX_HEARTBEAT_FAILURES {
            ActorState { last_heartbeat: now, mode: Mode::Resetting, ..self }
        } else if due(self.last_heartbeat, now, HEARTBEAT_INTERVAL_MS) {
            self.in_mode(Mode::Beating { exchange: heartbeat_exchange() })
        } else {
            self.in_mode(Mode::Polling)
        }
    }

    /// The state once the modem has said `text` on its own accord: its
    /// notifications are passed on first.
    pub open spec fn after_hearing(self, text: Seq<char>, now: u128) -> Self {
        let lines = notifications(text);
        if lines.len() > 0 {
            self.in_mode(Mode::Broadcasting { lines })
        } else {
            self.checked(now)
        }
    }

    /// What the modem has said on its own accord, where that is what an event
    /// brings.
    pub open spec fn heard(self, event: Event) -> Option<Seq<char>> {
        match event {
            Event::Data(bytes) if self.mode is Listening && bytes@.len() > 0 => Some(
                lossy_text(bytes@),
            ),
            _ => None,
        }
    }

    /// The state after an event at `now`. An event that is no answer to what
    /// had to be done changes nothing.
    pub open spec fn after(self, event: Event, now: u128) -> Self {
        match self.mode {
            Mode::Connecting => match event {
                Event::Done => ActorState {
                    failures: 0,
                    heartbeat_error: None,
                    last_heartbeat: now,
                    mode: Mode::Initializing { index: 0, exchange: init_exchange(0) },
                },
                Event::Failed(_) | Event::TimedOut => self.in_mode(Mode::Pausing),
                _ => self,
            },
            Mode::Pausing | Mode::Resetting => match event {
                Event::Done => self.in_mode(Mode::Connecting),
                _ => self,
            },
            Mode::Initializing { index, exchange } => match exchange.after(event, now) {
                Progress::Pending(x) => self.in_mode(Mode::Initializing { index, exchange: x }),
                Progress::Finished { .. } => if index + 1 < INIT_COMMANDS {
                    let next = (index + 1) as usize;
                    self.in_mode(Mode::Initializing { index: next, exchange: init_exchange(next) })
                } else {
                    self.in_mode(Mode::Polling)
                },
            },
            Mode::Polling => match event {
                Event::Command(command) => self.in_mode(
                    Mode::Commanding {
                        echo: trimmed(command@),
                        exchange: command_exchange(command@),
                    },
                ),
                Event::NoCommand => self.in_mode(Mode::Listening),
                Event::Closed => self.in_mode(Mode::Stopped),
                _ => self,
            },
            Mode::Commanding { echo, exchange } => match exchange.after(event, now) {
                Progress::Pending(x) => self.in_mode(Mode::Commanding { echo, exchange: x }),
                Progress::Finished { text, ended } => self.in_mode(
                    Mode::Replying { outcome: command_outcome(echo, text, ended) },
                ),
            },
            Mode::Replying { .. } => match event {
                Event::Done => self.in_mode(Mode::Polling),
                _ => self,
            },
            Mode::Listening => match event {
                Event::Data(bytes) if bytes@.len() > 0 => self.after_hearing(
                    lossy_text(bytes@),
                    now,
                ),
                Event::Data(_) | Event::TimedOut => self.checked(now),
                Event::Failed(_) => self.in_mode(Mode::Resetting),
                _ => self,
            },
            Mode::Broadcasting { lines } => match event {
                Event::Done => if lines.len() > 1 {
                    self.in_mode(Mode::Broadcasting { lines: lines.skip(1) })
                } else {
                    self.checked(now)
                },
                _ => self,
            },
            Mode::Beating { exchange } => match exchange.after(event, now) {
                Progress::Pending(x) => self.in_mode(Mode::Beating { exchange: x }),
                Progress::Finished { text, ended } => match heartbeat_outcome(text, ended) {
                    Ok(_) => ActorState {
                        failures: 0,
                        heartbeat_error: None,
                        last_heartbeat: now,
                        mode: Mode::Polling,
                    },
                    Err(error) => ActorState {
                        failures: (self.failures + 1) as u32,
                        heartbeat_error: Some(error),
                        last_heartbeat: now,
                        mode: Mode::Polling,
                    },
                },
            },
            Mode::Stopped => self,
        }
    }
}

/// The actor that owns the modem's connection.
pub struct ConnectionActor {
    state: ActorState<String, Vec<String>>,
}

impl View for ConnectionActor {
    type V = ActorView;

    closed spec fn view(&self) -> ActorView {
        self.state@
    }
}

/// The state once the modem was listened to.
fn checked_state(
    state: ActorState<String, Vec<String>>,
    now: u128,
) -> (r: ActorState<String, Vec<String>>)
    ensures
        r@ == state@.checked(now),
{
    if state.failures >= MAX_HEARTBEAT_FAILURES {
        ActorState { last_heartbeat: now, mode: Mode::Resetting, ..state }
    } else if is_due(state.last_heartbeat, now, HEARTBEAT_INTERVAL_MS) {
        let exchange = Exchange::begin("AT\r\n".to_string(), HEARTBEAT_TIMEOUT_MS);
        ActorState { mode: Mode::Beating { exchange }, ..state }
    } else {
        ActorState { mode: Mode::Polling, ..state }
    }
}

/// The state once the modem has said `text` on its own accord.
fn heard_state(
    state: ActorState<String, Vec<String>>,
    text: &str,
    now: u128,
) -> (r: ActorState<String, Vec<String>>)
    ensures
        r@ == state@.after_hearing(text@, now),
        notifications(text@) == notifications_once_trimmed(text@),
{
    let lines = find_notifications(text);
    assert(lines.deep_view().len() == lines.len());
    if lines.len() > 0 {
        ActorState { mode: Mode::Broadcasting { lines }, ..state }
    } else {
        checked_state(state, now)
    }
}

/// The mode in which the set-up command of the given number begins.
fn init_mode(index: usize) -> (r: Mode<String, Vec<String>>)
    requires
        index < INIT_COMMANDS,
    ensures
        r@ == (ModeView::Initializing { index, exchange: init_exchange(index) }),
{
    let request = frame_command(init_command(index));
    Mode::Initializing { index, exchange: Exchange::begin(request, CMD_TIMEOUT_MS) }
}

/// The mode in which a client's command begins.
fn command_mode(command: &str) -> (r: Mode<String, Vec<String>>)
    ensures
        r@ == (ModeView::Commanding {
            echo: trimmed(command@),
            exchange: command_exchange(command@),
        }),
{
    let chars = to_chars(command);
    let echo = to_text(trim(&chars));
    let request = frame_command(command);
    Mode::Commanding { echo, exchange: Exchange::begin(request, CMD_TIMEOUT_MS) }
}

/// The state after an event.
fn next_state(
    state: ActorState<String, Vec<String>>,
    event: Event,
    now: u128,
) -> (r: ActorState<String, Vec<String>>)
    requires
        state@.wf(),
    ensures
        r@ == state@.after(event, now),
        state@.heard(event) matches Some(text) ==> notifications(text)
            == notifications_once_trimmed(text),
{
    match state.mode {
        Mode::Connecting => match event {
            Event::Done => ActorState {
                failures: 0,
                heartbeat_error: None,
                last_heartbeat: now,
                mode: init_mode(0),
            },
            Event::Failed(_) | Event::TimedOut => ActorState { mode: Mode::Pausing, ..state },
            _ => state,
        },
        Mode::Pausing | Mode::Resetting => match event {
            Event::Done => ActorState { mode: Mode::Connecting, ..state },
            _ => state,
        },
        Mode::Initializing { index, exchange } => match exchange.step(event, now) {
            Progress::Pending(x) => ActorState {
                mode: Mode::Initializing { index, exchange: x },
                ..state
            },
            Progress::Finished { .. } => if index + 1 < INIT_COMMANDS {
                ActorState { mode: init_mode(index + 1), ..state }
            } else {
                ActorState { mode: Mode::Polling, ..state }
            },
        },
        Mode::Polling => match event {
            Event::Command(command) => ActorState { mode: command_mode(command.as_str()), ..state },
            Event::NoCommand => ActorState { mode: Mode::Listening, ..state },
            Event::Closed => ActorState { mode: Mode::Stopped, ..state },
            _ => state,
        },
        Mode::Commanding { echo, exchange } => match exchange.step(event, now) {
            Progress::Pending(x) => ActorState {
                mode: Mode::Commanding { echo, exchange: x },
                ..state
            },
            Progress::Finished { text, ended } => ActorState {
                mode: Mode::Replying {
                    outcome: command_result(echo.as_str(), text.as_str(), &ended),
                },
                ..state
            },
        },
        Mode::Replying { outcome } => match event {
            Event::Done => ActorState { mode: Mode::Polling, ..state },
            _ => ActorState { mode: Mode::Replying { outcome }, ..state },
        },
        Mode::Listening => match event {
            Event::Data(bytes) => {
                if bytes.len() > 0 {
                    let text = decode_lossy(&bytes);
                    heard_state(state, text.as_str(), now)
                } else {
                    checked_state(state, now)
                }
            },
            Event::TimedOut => checked_state(state, now),
            Event::Failed(_) => ActorState { mode: Mode::Resetting, ..state },
            _ => state,
        },
        Mode::Broadcasting { lines } => match event {
            Event::Done => {
                let mut rest = lines;
                assert(rest.deep_view().len() == rest.len());
                let ghost all = rest.deep_view();
                rest.remove(0);
                assert(rest.deep_view() == all.skip(1));
                let more = rest.len() > 0;
                let next = ActorState { mode: Mode::Broadcasting { lines: rest }, ..state };
                if more {
                    next
                } else {
                    checked_state(next, now)
                }
            },
            _ => ActorState { mode: Mode::Broadcasting { lines }, ..state },
        },
        Mode::Beating { exchange } => match exchange.step(event, now) {
            Progress::Pending(x) => ActorState {
                mode: Mode::Beating { exchange: x },
                ..state
            },
            Progress::Finished { text, ended } => {
                match heartbeat_result(text.as_str(), &ended) {
                    Ok(_) => ActorState {
                        failures: 0,
                        heartbeat_error: None,
                        last_heartbeat: now,
                        mode: Mode::Polling,
                    },
                    Err(error) => ActorState {
                        failures: state.failures + 1,
                        heartbeat_error: Some(error),
                        last_heartbeat: now,
                        mode: Mode::Polling,
                    },
                }
            },
        },
        Mode::Stopped => state,
    }
}

impl ConnectionActor {
    #[verifier::type_invariant]
    spec fn well_formed(self) -> bool {
        self.state@.wf()
    }

    /// An actor that starts at `now`, with the connection not yet opened.
    pub fn new(now: u128) -> (r: Self)
        ensures
            r@ == ActorView::started(now),
    {
        ConnectionActor {
            state: ActorState {
                failures: 0,
                heartbeat_error: None,
                last_heartbeat: now,
                mode: Mode::Connecting,
            },
        }
    }

    /// What has to be done next.
    pub fn action(&self) -> (r: Action<String>)
        ensures
            r@ == self@.wants(),
    {
        proof {
            use_type_invariant(self);
        }
        match &self.state.mode {
            Mode::Connecting => Action::Connect { limit_ms: CONNECT_TIMEOUT_MS },
            Mode::Pausing => Action::Pause { ms: RECONNECT_DELAY_MS },
            Mode::Resetting => Action::Reset { pause_ms: RECONNECT_DELAY_MS },
            Mode::Initializing { exchange, .. } => exchange.action(),
            Mode::Polling => Action::Poll,
            Mode::Commanding { exchange, .. } => exchange.action(),
            Mode::Replying { outcome } => Action::Reply {
                outcome: match outcome {
                    Ok(t) => Ok(t.clone()),
                    Err(e) => Err(e.clone()),
                },
            },
            Mode::Listening => Action::Receive { limit: None },
            Mode::Broadcasting { lines } => {
                assert(lines.deep_view().len() == lines.len());
                Action::Broadcast { line: lines[0].clone() }
            },
            Mode::Beating { exchange } => exchange.action(),
            Mode::Stopped => Action::Stop,
        }
    }

    /// Takes in what came of the action. White space around the lines of what
    /// was heard has no part in which of them are notifications.
    pub fn step(self, event: Event, now: u128) -> (r: Self)
        ensures
            r@ == self@.after(event, now),
            self@.heard(event) matches Some(text) ==> notifications(text)
                == notifications_once_trimmed(text),
    {
        proof {
            use_type_invariant(&self);
            law_invariant(self@, event, now);
        }
        ConnectionActor { state: next_state(self.state, event, now) }
    }

    /// Takes in what the modem has said on its own accord, as text. Nothing
    /// changes unless the actor is listening.
    pub fn hear(self, text: &str, now: u128) -> (r: Self)
        ensures
            r@ == if self@.mode is Listening {
                self@.after_hearing(text@, now)
            } else {
                self@
            },
            self@.mode is Listening ==> notifications(text@) == notifications_once_trimmed(text@),
    {
        proof {
            use_type_invariant(&self);
        }
        match &self.state.mode {
            Mode::Listening => ConnectionActor { state: heard_state(self.state, text, now) },
            _ => self,
        }
    }

    /// The number of heartbeats that failed in a row.
    pub fn heartbeat_failures(&self) -> (r: u32)
        ensures
            r == self@.failures,
    {
        self.state.failures
    }

    /// Why the last heartbeat failed, where it did.
    pub fn heartbeat_error(&self) -> (r: Option<String>)
        ensures
            match r {
                Some(error) => self@.heartbeat_error == Some(error@),
                None => self@.heartbeat_error is None,
            },
    {
        match &self.state.heartbeat_error {
            Some(error) => Some(error.clone()),
            None => None,
        }
    }

    /// Whether the connection is open.
    pub fn is_connected(&self) -> (r: bool)
        ensures
            r == self@.connected(),
    {
        match &self.state.mode {
            Mode::Connecting | Mode::Pausing | Mode::Resetting => false,
            _ => true,
        }
    }
}

// ---------------------------------------------------------------------------
// Laws
// ---------------------------------------------------------------------------

/// Whatever comes, the actor stays well-formed: in particular no more heartbeats
/// than the limit fail in a row, and a heartbeat is carried out only below it.
pub proof fn law_invariant(s: ActorView, event: Event, now: u128)
    requires
        s.wf(),
    ensures
        s.after(event, now).wf(),
{
    if let Mode::Polling = s.mode {
        if let Event::Command(command) = event {
            law_framing(command@);
        }
    }
    lemma_nothing_is_no_answer();
}

impl ActorView {
    /// The state after a row of events, each with its time.
    pub open spec fn run(self, inputs: Seq<(Event, u128)>) -> Self
        decreases inputs.len(),
    {
        if inputs.len() == 0 {
            self
        } else {
            self.run(inputs.drop_last()).after(inputs.last().0, inputs.last().1)
        }
    }
}

/// An actor is well-formed whatever has come since it started.
pub proof fn law_always_well_formed(start: u128, inputs: Seq<(Event, u128)>)
    ensures
        ActorView::started(start).run(inputs).wf(),
    decreases inputs.len(),
{
    if inputs.len() > 0 {
        law_always_well_formed(start, inputs.drop_last());
        let s = ActorView::started(start).run(inputs.drop_last());
        law_invariant(s, inputs.last().0, inputs.last().1);
    }
}

/// The connection is opened only by a successful attempt to connect, after
/// which the modem is set up from the start with no heartbeat failed; and it is
/// closed only by being given up.
pub proof fn law_connection(s: ActorView, event: Event, now: u128)
    ensures
        !s.connected() && s.after(event, now).connected() ==> {
            &&& s.mode is Connecting
            &&& event is Done
            &&& s.after(event, now).failures == 0
            &&& s.after(event, now).heartbeat_error is None
            &&& s.after(event, now).last_heartbeat == now
            &&& s.after(event, now).mode == (ModeView::Initializing {
                index: 0,
                exchange: init_exchange(0),
            })
        },
        s.connected() && !s.after(event, now).connected() ==> s.after(event, now).mode is Resetting,
{
}

/// Once no command can come any more the actor does nothing.
pub proof fn law_stopped_is_final(s: ActorView, inputs: Seq<(Event, u128)>)
    requires
        s.mode is Stopped,
    ensures
        s.run(inputs) == s,
        s.run(inputs).wants() is Stop,
    decreases inputs.len(),
{
    if inputs.len() > 0 {
        law_stopped_is_final(s, inputs.drop_last());
    }
}

/// The actor stops only once it looked for a command and was told that none can
/// come any more.
pub proof fn law_stops_only_when_closed(s: ActorView, inputs: Seq<(Event, u128)>)
    requires
        !(s.mode is Stopped),
        s.run(inputs).mode is Stopped,
    ensures
        exists|n: int|
            0 <= n < inputs.len() && (#[trigger] inputs[n]).0 is Closed && s.run(
                inputs.take(n),
            ).mode is Polling,
    decreases inputs.len(),
{
    let fewer = inputs.drop_last();
    if s.run(fewer).mode is Stopped {
        law_stops_only_when_closed(s, fewer);
        let n = choose|n: int|
            0 <= n < fewer.len() && (#[trigger] fewer[n]).0 is Closed && s.run(
                fewer.take(n),
            ).mode is Polling;
        assert(inputs[n] == fewer[n]);
        assert(inputs.take(n) == fewer.take(n));
    } else {
        let n = inputs.len() - 1;
        assert(inputs.take(n) == fewer);
        assert(inputs[n].0 is Closed);
    }
}

/// The connection serves one purpose at a time, and commands come first: a
/// command that was taken is carried out to its end, answered, and followed by
/// a look for the next; the modem is listened to only when no command waits,
/// and heartbeats are carried out only after listening.
pub proof fn law_one_purpose_at_a_time(s: ActorView, event: Event, now: u128)
    ensures
        ({
            let next = s.after(event, now).mode;
            &&& s.mode is Commanding ==> next is Commanding || next is Replying
            &&& s.mode is Replying ==> next == s.mode || next is Polling
            &&& next is Listening && !(s.mode is Listening) ==> s.mode is Polling
                && event is NoCommand
            &&& next is Beating && !(s.mode is Beating) ==> s.mode is Listening
                || s.mode is Broadcasting
            &&& next is Commanding && !(s.mode is Commanding) ==> s.mode is Polling
                && event is Command
        }),
{
}

/// A heartbeat begins only when the interval since the last one is over, and
/// never at the limit of failures.
pub proof fn law_heartbeats_keep_their_interval(s: ActorView, event: Event, now: u128)
    requires
        !(s.mode is Beating),
        s.after(event, now).mode is Beating,
    ensures
        due(s.last_heartbeat, now, HEARTBEAT_INTERVAL_MS),
        s.failures < MAX_HEARTBEAT_FAILURES,
        s.after(event, now).mode == (ModeView::Beating { exchange: heartbeat_exchange() }),
{
}

/// The count of failures goes up by one exactly with a heartbeat that failed,
/// whose error is kept, and back to none exactly with one that did not or with a
/// new connection.
pub proof fn law_failures_are_counted(s: ActorView, event: Event, now: u128)
    requires
        s.wf(),
    ensures
        ({
            let next = s.after(event, now);
            let same = next.failures == s.failures && next.heartbeat_error == s.heartbeat_error;
            let none = next.failures == 0 && next.heartbeat_error is None;
            match s.mode {
                Mode::Beating { exchange } => match exchange.after(event, now) {
                    Progress::Finished { text, ended } => match heartbeat_outcome(text, ended) {
                        Ok(_) => none,
                        Err(error) => {
                            &&& next.failures == s.failures + 1
                            &&& next.heartbeat_error == Some(error)
                        },
                    },
                    Progress::Pending(_) => same,
                },
                Mode::Connecting => if event is Done {
                    none
                } else {
                    same
                },
                _ => same,
            }
        }),
{
}

/// How the heartbeats have ended in a row of events, since the connection was
/// last opened.
pub open spec fn beats(s: ActorView, inputs: Seq<(Event, u128)>) -> Seq<Result<(), Seq<char>>>
    decreases inputs.len(),
{
    if inputs.len() == 0 {
        Seq::empty()
    } else {
        let before = beats(s, inputs.drop_last());
        let (event, now) = inputs.last();
        match s.run(inputs.drop_last()).mode {
            Mode::Connecting if event is Done => Seq::empty(),
            Mode::Beating { exchange } => match exchange.after(event, now) {
                Progress::Finished { text, ended } => before.push(heartbeat_outcome(text, ended)),
                Progress::Pending(_) => before,
            },
            _ => before,
        }
    }
}

/// The number of failures at the end of a row of outcomes.
pub open spec fn failed_in_a_row(outcomes: Seq<Result<(), Seq<char>>>) -> nat
    decreases outcomes.len(),
{
    if outcomes.len() > 0 && outcomes.last() is Err {
        failed_in_a_row(outcomes.drop_last()) + 1
    } else {
        0
    }
}

/// The count of failures is the number of heartbeats that failed in a row since
/// the connection was opened, and the error kept is that of the last of them.
pub proof fn law_failures_in_a_row(start: u128, inputs: Seq<(Event, u128)>)
    ensures
        ({
            let s = ActorView::started(start);
            let r = s.run(inputs);
            let outcomes = beats(s, inputs);
            &&& r.failures == failed_in_a_row(outcomes)
            &&& r.failures > 0 ==> r.heartbeat_error == Some(outcomes.last()->Err_0)
            &&& r.failures == 0 ==> r.heartbeat_error is None
        }),
    decreases inputs.len(),
{
    if inputs.len() > 0 {
        let fewer = inputs.drop_last();
        let s = ActorView::started(start);
        law_failures_in_a_row(start, fewer);
        law_always_well_formed(start, fewer);
        law_failures_are_counted(s.run(fewer), inputs.last().0, inputs.last().1);
        let before = beats(s, fewer);
        if beats(s, inputs).len() > before.len() {
            assert(beats(s, inputs).drop_last() == before);
        }
    }
}

/// `n` times the event that an action is done.
pub open spec fn done(times: Seq<u128>) -> Seq<(Event, u128)> {
    times.map_values(|t: u128| (Event::Done, t))
}

/// Notifications are passed on one after the other, in their order, and after
/// the last the connection is checked.
pub proof fn law_notifications_are_passed_on(s: ActorView, times: Seq<u128>)
    requires
        s.mode is Broadcasting,
        0 < s.mode->lines.len(),
        times.len() <= s.mode->lines.len(),
    ensures
        ({
            let lines = s.mode->lines;
            let r = s.run(done(times));
            if times.len() < lines.len() {
                &&& r == s.in_mode(Mode::Broadcasting { lines: lines.skip(times.len() as int) })
                &&& r.wants() == Action::Broadcast { line: lines[times.len() as int] }
            } else {
                r == s.checked(times.last())
            }
        }),
    decreases times.len(),
{
    let lines = s.mode->lines;
    if times.len() == 0 {
        assert(lines.skip(0) == lines);
    } else {
        let fewer = times.drop_last();
        law_notifications_are_passed_on(s, fewer);
        assert(done(times).drop_last() == done(fewer));
        assert(done(times).last() == (Event::Done, times.last()));
        let n = fewer.len() as int;
        assert(lines.skip(n).skip(1) == lines.skip(n + 1));
    }
}

/// What the modem says while the actor listens reaches the clients as the
/// notifications in it, one action for each, before anything else is done.
pub proof fn law_listening(s: ActorView, bytes: Vec<u8>, now: u128, times: Seq<u128>)
    requires
        s.mode is Listening,
        bytes@.len() > 0,
        times.len() < notifications(lossy_text(bytes@)).len(),
    ensures
        s.after(Event::Data(bytes), now).run(done(times)).wants() == (Action::Broadcast {
            line: notifications(lossy_text(bytes@))[times.len() as int],
        }),
{
    law_notifications_are_passed_on(s.after(Event::Data(bytes), now), times);
}

/// The lines that the actor has passed on in a row of events.
pub open spec fn passed_on(s: ActorView, inputs: Seq<(Event, u128)>) -> Seq<Seq<char>>
    decreases inputs.len(),
{
    if inputs.len() == 0 {
        Seq::empty()
    } else {
        let before = passed_on(s, inputs.drop_last());
        match s.run(inputs.drop_last()).wants() {
            Action::Broadcast { line } if inputs.last().0 is Done => before.push(line),
            _ => before,
        }
    }
}

/// Of what the modem says while the actor listens, exactly the lines with a mark
/// of a result code and without `ping` in their lower-case form are passed on,
/// as they stand, once each and in their order; then the connection is checked.
pub proof fn law_marked_lines_are_passed_on(
    s: ActorView,
    bytes: Vec<u8>,
    now: u128,
    times: Seq<u128>,
)
    requires
        s.mode is Listening,
        bytes@.len() > 0,
        times.len() == notifications(lossy_text(bytes@)).len(),
    ensures
        passed_on(s.after(Event::Data(bytes), now), done(times)) == lines_of(
            lossy_text(bytes@),
        ).filter(
            |line: Seq<char>|
                (line.contains('^') || line.contains('+')) && !occurs(
                    lowercase_text(line),
                    "ping"@,
                ),
        ),
        s.after(Event::Data(bytes), now).run(done(times)) == s.checked(
            if times.len() > 0 {
                times.last()
            } else {
                now
            },
        ),
{
    let lines = notifications(lossy_text(bytes@));
    let marked = |line: Seq<char>|
        (line.contains('^') || line.contains('+')) && !occurs(lowercase_text(line), "ping"@);
    assert(marked == (|line: Seq<char>| notification(line)));
    let heard = s.after(Event::Data(bytes), now);
    if times.len() > 0 {
        law_notifications_are_passed_on(heard, times);
        lemma_passed_on_so_far(heard, times);
        assert(lines.take(times.len() as int) == lines);
    } else {
        assert(done(times).len() == 0);
        assert(lines == Seq::<Seq<char>>::empty());
    }
}

/// While notifications are passed on, the first of them have been.
proof fn lemma_passed_on_so_far(s: ActorView, times: Seq<u128>)
    requires
        s.mode is Broadcasting,
        0 < s.mode->lines.len(),
        times.len() <= s.mode->lines.len(),
    ensures
        passed_on(s, done(times)) == s.mode->lines.take(times.len() as int),
    decreases times.len(),
{
    let lines = s.mode->lines;
    if times.len() == 0 {
        assert(done(times).len() == 0);
        assert(lines.take(0) == Seq::<Seq<char>>::empty());
    } else {
        let fewer = times.drop_last();
        lemma_passed_on_so_far(s, fewer);
        law_notifications_are_passed_on(s, fewer);
        assert(done(times).drop_last() == done(fewer));
        assert(done(times).last() == (Event::Done, times.last()));
        let n = fewer.len() as int;
        assert(lines.take(n).push(lines[n]) == lines.take(n + 1));
    }
}

/// At the limit of failures the connection is given up as soon as the modem was
/// listened to and what it said was passed on.
pub proof fn law_dead_connection_is_given_up(
    s: ActorView,
    event: Event,
    now: u128,
    times: Seq<u128>,
)
    requires
        s.mode is Listening,
        s.failures >= MAX_HEARTBEAT_FAILURES,
        event is Data || event is TimedOut || event is Failed,
        event matches Event::Data(bytes) ==> times.len() == if bytes@.len() > 0 {
            notifications(lossy_text(bytes@)).len()
        } else {
            0
        },
        !(event is Data) ==> times.len() == 0,
    ensures
        s.after(event, now).run(done(times)).mode is Resetting,
{
    if times.len() > 0 {
        law_notifications_are_passed_on(s.after(event, now), times);
    } else {
        assert(done(times).len() == 0);
    }
}

/// The requests of a modem's set-up, in their order.
pub open spec fn setup_requests() -> Seq<Seq<char>> {
    Seq::new(INIT_COMMANDS as nat, |i: int| framed(init_text(i as usize)))
}

/// The requests that the actor has had written, or tried to, in a row of
/// events.
pub open spec fn attempted(s: ActorView, inputs: Seq<(Event, u128)>) -> Seq<Seq<char>>
    decreases inputs.len(),
{
    if inputs.len() == 0 {
        Seq::empty()
    } else {
        let before = attempted(s, inputs.drop_last());
        let event = inputs.last().0;
        match s.run(inputs.drop_last()).wants() {
            Action::Send { data, .. } if event is Done || event is TimedOut || event is Failed =>
                before.push(data),
            _ => before,
        }
    }
}

/// After connecting, the set-up commands go to the modem in their order, all of
/// them, before any command of a client is looked for.
pub proof fn law_setup_comes_first(s: ActorView, inputs: Seq<(Event, u128)>)
    requires
        s.mode == (ModeView::Initializing { index: 0, exchange: init_exchange(0) }),
        forall|n: int|
            0 <= n < inputs.len() ==> (#[trigger] s.run(inputs.take(n))).mode is Initializing,
    ensures
        match s.run(inputs).mode {
            Mode::Initializing { index, exchange } => {
                let n = if exchange.stage is Collecting {
                    index + 1
                } else {
                    index as int
                };
                &&& index < INIT_COMMANDS
                &&& exchange.request == setup_requests()[index as int]
                &&& attempted(s, inputs) == setup_requests().take(n)
            },
            Mode::Polling => attempted(s, inputs) == setup_requests(),
            _ => false,
        },
    decreases inputs.len(),
{
    let all = setup_requests();
    if inputs.len() == 0 {
        assert(all.take(0) == Seq::<Seq<char>>::empty());
    } else {
        let fewer = inputs.drop_last();
        assert forall|n: int| 0 <= n < fewer.len() implies (#[trigger] s.run(
            fewer.take(n),
        )).mode is Initializing by {
            assert(fewer.take(n) == inputs.take(n));
        }
        assert(inputs.take(inputs.len() - 1) == fewer);
        law_setup_comes_first(s, fewer);
        let before = s.run(fewer);
        let index = before.mode->index;
        assert(all.take(index as int).push(all[index as int]) == all.take(index + 1));
        assert(all.take(INIT_COMMANDS as int) == all);
    }
}

/// The commands that the actor has taken from clients in a row of events.
pub open spec fn accepted(s: ActorView, inputs: Seq<(Event, u128)>) -> Seq<Seq<char>>
    decreases inputs.len(),
{
    if inputs.len() == 0 {
        Seq::empty()
    } else {
        let before = accepted(s, inputs.drop_last());
        match inputs.last().0 {
            Event::Command(command) if s.run(inputs.drop_last()).mode is Polling => before.push(
                command@,
            ),
            _ => before,
        }
    }
}

/// What the actor has told clients in a row of events.
pub open spec fn replied(s: ActorView, inputs: Seq<(Event, u128)>) -> Seq<
    Result<Seq<char>, Seq<char>>,
>
    decreases inputs.len(),
{
    if inputs.len() == 0 {
        Seq::empty()
    } else {
        let before = replied(s, inputs.drop_last());
        match s.run(inputs.drop_last()).wants() {
            Action::Reply { outcome } if inputs.last().0 is Done => before.push(outcome),
            _ => before,
        }
    }
}

/// How the round trips of clients' commands have ended in a row of events, each
/// with the text that had come.
pub open spec fn endings(s: ActorView, inputs: Seq<(Event, u128)>) -> Seq<
    (Seq<char>, Ended<Seq<char>>),
>
    decreases inputs.len(),
{
    if inputs.len() == 0 {
        Seq::empty()
    } else {
        let before = endings(s, inputs.drop_last());
        match s.run(inputs.drop_last()).mode {
            Mode::Commanding { exchange, .. } => match exchange.after(
                inputs.last().0,
                inputs.last().1,
            ) {
                Progress::Finished { text, ended } => before.push((text, ended)),
                Progress::Pending(_) => before,
            },
            _ => before,
        }
    }
}

/// Every command of a client is answered once, and before the next is taken:
/// there is one more command than answers exactly while a command is carried
/// out or answered, and the command carried out is the last that was taken.
/// Each answer tells how the command of the same number ended.
pub proof fn law_every_command_is_answered_once(s: ActorView, inputs: Seq<(Event, u128)>)
    requires
        s.mode is Connecting,
    ensures
        ({
            let commands = accepted(s, inputs);
            let ends = endings(s, inputs);
            let answers = replied(s, inputs);
            &&& match s.run(inputs).mode {
                Mode::Commanding { echo, exchange } => {
                    &&& commands.len() == answers.len() + 1
                    &&& ends.len() == answers.len()
                    &&& echo == trimmed(commands.last())
                    &&& exchange.request == framed(commands.last())
                },
                Mode::Replying { outcome } => {
                    &&& commands.len() == answers.len() + 1
                    &&& ends.len() == answers.len() + 1
                    &&& outcome == command_outcome(
                        trimmed(commands.last()),
                        ends.last().0,
                        ends.last().1,
                    )
                },
                _ => commands.len() == answers.len() && ends.len() == answers.len(),
            }
            &&& forall|i: int|
                0 <= i < answers.len() ==> #[trigger] answers[i] == command_outcome(
                    trimmed(commands[i]),
                    ends[i].0,
                    ends[i].1,
                )
        }),
    decreases inputs.len(),
{
    if inputs.len() > 0 {
        law_every_command_is_answered_once(s, inputs.drop_last());
    }
}

/// A command is carried out as a round trip of its own, whose end decides what
/// the client is told.
pub proof fn law_command_is_carried_out(
    s: ActorView,
    command: String,
    taken: u128,
    inputs: Seq<(Event, u128)>,
)
    requires
        s.mode is Polling,
        inputs.len() > 0 ==> command_exchange(command@).run(inputs.drop_last()) is Pending,
    ensures
        s.after(Event::Command(command), taken).run(inputs) == match command_exchange(
            command@,
        ).run(inputs) {
            Progress::Pending(x) => s.in_mode(
                Mode::Commanding { echo: trimmed(command@), exchange: x },
            ),
            Progress::Finished { text, ended } => s.in_mode(
                Mode::Replying { outcome: command_outcome(trimmed(command@), text, ended) },
            ),
        },
    decreases inputs.len(),
{
    if inputs.len() > 0 {
        let fewer = inputs.drop_last();
        law_command_is_carried_out(s, command, taken, fewer);
    }
}

/// A client is told what the modem said after its command was written, piece by
/// piece; data left over from before does not show.
pub proof fn law_reply_is_what_the_modem_said(
    s: ActorView,
    command: String,
    taken: u128,
    left_over: Seq<(Event, u128)>,
    quiet: (Event, u128),
    written: u128,
    answer: Seq<(Event, u128)>,
)
    requires
        s.mode is Polling,
        forall|i: int| 0 <= i < left_over.len() ==> brings_data((#[trigger] left_over[i]).0),
        brings_nothing(quiet.0),
        answer.len() > 0,
        gathering(command@, written).run(answer.drop_last()) is Pending,
        gathering(command@, written).run(answer) is Finished,
    ensures
        ({
            let inputs = left_over.push(quiet).push((Event::Done, written)) + answer;
            let ended = gathering(command@, written).run(answer)->ended;
            s.after(Event::Command(command), taken).run(inputs) == s.in_mode(
                Mode::Replying {
                    outcome: command_outcome(trimmed(command@), gathered(answer), ended),
                },
            )
        }),
{
    let x = command_exchange(command@);
    let y = gathering(command@, written);
    let head = left_over.push(quiet).push((Event::Done, written));
    let inputs = head + answer;
    let fewer = answer.drop_last();
    law_left_over_data_is_dropped(x.request, x.limit_ms, left_over, quiet, written);
    lemma_run_in_two(x, head, answer);
    lemma_run_in_two(x, head, fewer);
    assert(inputs.drop_last() == head + fewer);
    law_command_is_carried_out(s, command, taken, inputs);
    lemma_nothing_is_no_answer();
    law_answer_is_what_came(y, fewer);
    assert(Seq::<char>::empty() + gathered(fewer) == gathered(fewer));
}

/// The round trip of a client's command once it was written.
pub open spec fn gathering(command: Seq<char>, written: u128) -> Exchange<Seq<char>> {
    command_exchange(command).at(Stage::Collecting { text: Seq::empty(), started: written })
}

/// An answer of which nothing has come is incomplete.
proof fn lemma_nothing_is_no_answer()
    ensures
        !answered(Seq::<char>::empty()),
{
    reveal_strlit("OK\r\n");
    reveal_strlit("ERROR");
    assert("OK\r\n"@.len() == 4 && "ERROR"@.len() == 5);
}

/// A heartbeat is carried out as a round trip of its own, whose end decides
/// whether it counts as failed.
pub proof fn law_heartbeat_is_carried_out(s: ActorView, inputs: Seq<(Event, u128)>)
    requires
        s.wf(),
        s.mode == (ModeView::Beating { exchange: heartbeat_exchange() }),
        inputs.len() > 0 ==> heartbeat_exchange().run(inputs.drop_last()) is Pending,
    ensures
        match heartbeat_exchange().run(inputs) {
            Progress::Pending(x) => s.run(inputs) == s.in_mode(Mode::Beating { exchange: x }),
            Progress::Finished { text, ended } => {
                &&& s.run(inputs).mode is Polling
                &&& s.run(inputs).last_heartbeat == inputs.last().1
                &&& match heartbeat_outcome(text, ended) {
                    Ok(_) => s.run(inputs).failures == 0 && s.run(inputs).heartbeat_error is None,
                    Err(error) => {
                        &&& s.run(inputs).failures == s.failures + 1
                        &&& s.run(inputs).heartbeat_error == Some(error)
                    },
                }
            },
        },
    decreases inputs.len(),
{
    if inputs.len() > 0 {
        law_heartbeat_is_carried_out(s, inputs.drop_last());
    }
}

// ---------------------------------------------------------------------------
// One step at a time
// ---------------------------------------------------------------------------

/// The set-up commands turn the echo off, ask for notifications of short
/// messages, for their raw format and for caller identification, in this order.
pub proof fn law_setup_commands(index: usize)
    requires
        index < INIT_COMMANDS,
    ensures
        index < 4,
        init_text(index) == seq![
            "ATE0"@,
            "AT+CNMI=2,1,0,2,0"@,
            "AT+CMGF=0"@,
            "AT+CLIP=1"@,
        ][index as int],
        init_exchange(index).request == framed(init_text(index)),
        init_exchange(index).limit_ms == 3000,
        init_exchange(index).stage is Draining,
        INIT_COMMANDS == 4,
{
}

/// A client's command goes to the modem framed, and a heartbeat is the bare `AT`;
/// either may take 3 s to be answered, and left-over data is dropped first.
pub proof fn law_requests(command: Seq<char>)
    ensures
        command_exchange(command).request == framed(command),
        command_exchange(command).limit_ms == 3000,
        command_exchange(command).stage is Draining,
        heartbeat_exchange().request == seq!['A', 'T', '\r', '\n'],
        heartbeat_exchange().limit_ms == 3000,
        heartbeat_exchange().stage is Draining,
{
    reveal_strlit("AT\r\n");
    assert("AT\r\n"@ == seq!['A', 'T', '\r', '\n']);
}

/// What the actor does goes by its mode: it connects within 10 s, pauses for 5 s
/// after a failure and after giving a connection up, listens without a limit of
/// its own, and passes on what it holds as it is.
pub proof fn law_what_the_actor_does(s: ActorView)
    ensures
        match s.mode {
            Mode::Connecting => s.wants() == (Action::<Seq<char>>::Connect { limit_ms: 10000 }),
            Mode::Pausing => s.wants() == (Action::<Seq<char>>::Pause { ms: 5000 }),
            Mode::Resetting => s.wants() == (Action::<Seq<char>>::Reset { pause_ms: 5000 }),
            Mode::Initializing { exchange, .. } => s.wants() == exchange.wants(),
            Mode::Polling => s.wants() is Poll,
            Mode::Commanding { exchange, .. } => s.wants() == exchange.wants(),
            Mode::Replying { outcome } => s.wants() == (Action::Reply { outcome }),
            Mode::Listening => s.wants() == (Action::<Seq<char>>::Receive { limit: None }),
            Mode::Broadcasting { lines } => s.wants() == (Action::Broadcast { line: lines[0] }),
            Mode::Beating { exchange } => s.wants() == exchange.wants(),
            Mode::Stopped => s.wants() is Stop,
        },
        s.connected() <==> {
            ||| s.mode is Initializing
            ||| s.mode is Polling
            ||| s.mode is Commanding
            ||| s.mode is Replying
            ||| s.mode is Listening
            ||| s.mode is Broadcasting
            ||| s.mode is Beating
            ||| s.mode is Stopped
        },
{
}

/// An actor starts with a connection to open and no heartbeat failed, and a mode
/// changes nothing else.
pub proof fn law_start(now: u128, s: ActorView, mode: ModeView)
    ensures
        ActorView::started(now).mode is Connecting,
        ActorView::started(now).failures == 0,
        ActorView::started(now).heartbeat_error is None,
        ActorView::started(now).last_heartbeat == now,
        s.in_mode(mode).mode == mode,
        s.in_mode(mode).failures == s.failures,
        s.in_mode(mode).heartbeat_error == s.heartbeat_error,
        s.in_mode(mode).last_heartbeat == s.last_heartbeat,
{
}

/// A connection that was opened is set up from the first command on; an attempt
/// that failed is followed by a pause, and a pause by another attempt, with
/// everything else as it was.
pub proof fn law_connecting(s: ActorView, event: Event, now: u128)
    requires
        !s.connected(),
    ensures
        ({
            let next = s.after(event, now);
            let same = next.failures == s.failures && next.heartbeat_error == s.heartbeat_error
                && next.last_heartbeat == s.last_heartbeat;
            match event {
                Event::Done => if s.mode is Connecting {
                    &&& next.failures == 0
                    &&& next.heartbeat_error is None
                    &&& next.last_heartbeat == now
                    &&& next.mode is Initializing
                    &&& next.mode->index == 0
                    &&& next.mode->Initializing_exchange == init_exchange(0)
                } else {
                    same && next.mode is Connecting
                },
                Event::Failed(_) | Event::TimedOut => if s.mode is Connecting {
                    same && next.mode is Pausing
                } else {
                    next == s
                },
                Event::Data(_) | Event::Command(_) | Event::NoCommand | Event::Closed => next == s,
            }
        }),
{
}

/// The set-up goes on with each round trip until it is over, however it ended,
/// then with the next command, and after the fourth clients are served.
pub proof fn law_setting_up(s: ActorView, event: Event, now: u128)
    requires
        s.mode is Initializing,
        s.mode->index < 4,
    ensures
        ({
            let next = s.after(event, now);
            let index = s.mode->index;
            &&& next.failures == s.failures
            &&& next.heartbeat_error == s.heartbeat_error
            &&& next.last_heartbeat == s.last_heartbeat
            &&& match s.mode->Initializing_exchange.after(event, now) {
                Progress::Pending(x) => next.mode == (ModeView::Initializing {
                    index,
                    exchange: x,
                }),
                Progress::Finished { .. } => if index < 3 {
                    &&& next.mode is Initializing
                    &&& next.mode->index == index + 1
                    &&& next.mode->Initializing_exchange == init_exchange((index + 1) as usize)
                } else {
                    next.mode is Polling
                },
            }
        }),
{
}

/// A client's command begins a round trip of its own; without one the modem is
/// listened to; and the actor stops where none can come any more.
pub proof fn law_polling(s: ActorView, event: Event, now: u128)
    requires
        s.mode is Polling,
    ensures
        ({
            let next = s.after(event, now);
            &&& next.failures == s.failures
            &&& next.heartbeat_error == s.heartbeat_error
            &&& next.last_heartbeat == s.last_heartbeat
            &&& match event {
                Event::Command(command) => next.mode == (ModeView::Commanding {
                    echo: trimmed(command@),
                    exchange: command_exchange(command@),
                }),
                Event::NoCommand => next.mode is Listening,
                Event::Closed => next.mode is Stopped,
                Event::Done | Event::Failed(_) | Event::TimedOut | Event::Data(_) =>
                    next.mode is Polling,
            }
        }),
{
}

/// A command's round trip goes on until it is over; the client is then told how
/// it ended, once, before anything else is done.
pub proof fn law_commanding(s: ActorView, event: Event, now: u128)
    requires
        s.mode is Commanding || s.mode is Replying,
    ensures
        ({
            let next = s.after(event, now);
            &&& next.failures == s.failures
            &&& next.heartbeat_error == s.heartbeat_error
            &&& next.last_heartbeat == s.last_heartbeat
            &&& match s.mode {
                Mode::Commanding { echo, exchange } => match exchange.after(event, now) {
                    Progress::Pending(x) => next.mode == (ModeView::Commanding {
                        echo,
                        exchange: x,
                    }),
                    Progress::Finished { text, ended } => next.mode == (ModeView::Replying {
                        outcome: command_outcome(echo, text, ended),
                    }),
                },
                _ => if event is Done {
                    next.mode is Polling
                } else {
                    next.mode == s.mode
                },
            }
        }),
{
}

/// What the modem says while it is listened to is passed on, if there is a
/// notification in it, before the connection is checked; a read that fails gives
/// the connection up.
pub proof fn law_hearing(s: ActorView, event: Event, now: u128)
    requires
        s.mode is Listening,
    ensures
        ({
            let next = s.after(event, now);
            match event {
                Event::Data(bytes) => {
                    let lines = notifications(lossy_text(bytes@));
                    if bytes@.len() > 0 && lines.len() > 0 {
                        &&& next.mode == (ModeView::Broadcasting { lines })
                        &&& next.failures == s.failures
                        &&& next.heartbeat_error == s.heartbeat_error
                        &&& next.last_heartbeat == s.last_heartbeat
                    } else {
                        next == s.checked(now)
                    }
                },
                Event::TimedOut => next == s.checked(now),
                Event::Failed(_) => {
                    &&& next.mode is Resetting
                    &&& next.failures == s.failures
                    &&& next.heartbeat_error == s.heartbeat_error
                    &&& next.last_heartbeat == s.last_heartbeat
                },
                Event::Done | Event::Command(_) | Event::NoCommand | Event::Closed => next == s,
            }
        }),
{
}

/// Text that was heard is taken in as the data it came from.
pub proof fn law_hearing_text(s: ActorView, bytes: Vec<u8>, now: u128)
    requires
        s.mode is Listening,
        bytes@.len() > 0,
    ensures
        s.after_hearing(lossy_text(bytes@), now) == s.after(Event::Data(bytes), now),
        s.heard(Event::Data(bytes)) == Some(lossy_text(bytes@)),
{
}

/// The notifications in a text that was heard are passed on, and else the
/// connection is checked.
pub proof fn law_heard_text(s: ActorView, text: Seq<char>, now: u128)
    ensures
        ({
            let next = s.after_hearing(text, now);
            if notifications(text).len() > 0 {
                &&& next.mode == (ModeView::Broadcasting { lines: notifications(text) })
                &&& next.failures == s.failures
                &&& next.heartbeat_error == s.heartbeat_error
                &&& next.last_heartbeat == s.last_heartbeat
            } else {
                next == s.checked(now)
            }
        }),
{
}

/// Once a notification is passed on the next is, and after the last the
/// connection is checked.
pub proof fn law_passing_on(s: ActorView, event: Event, now: u128)
    requires
        s.mode is Broadcasting,
        s.mode->lines.len() > 0,
    ensures
        ({
            let next = s.after(event, now);
            let lines = s.mode->lines;
            if event is Done {
                if lines.len() > 1 {
                    &&& next.mode is Broadcasting
                    &&& seq![lines[0]] + next.mode->lines == lines
                    &&& next.failures == s.failures
                    &&& next.heartbeat_error == s.heartbeat_error
                    &&& next.last_heartbeat == s.last_heartbeat
                } else {
                    next == s.checked(now)
                }
            } else {
                next == s
            }
        }),
{
    let lines = s.mode->lines;
    if lines.len() > 1 {
        assert(seq![lines[0]] + lines.skip(1) == lines);
    }
}

/// Checking gives the connection up exactly where 3 heartbeats have failed in a
/// row; else it begins a heartbeat exactly where the last one is 30 s ago, and
/// else clients are served. The failures stay counted either way.
pub proof fn law_checking(s: ActorView, now: u128)
    ensures
        ({
            let next = s.checked(now);
            let late = now >= s.last_heartbeat + 30_000_000_000;
            &&& next.failures == s.failures
            &&& next.heartbeat_error == s.heartbeat_error
            &&& next.mode is Resetting <==> s.failures >= 3
            &&& next.mode is Beating <==> s.failures < 3 && late
            &&& next.mode is Polling <==> s.failures < 3 && !late
            &&& next.mode is Beating ==> next.mode == (ModeView::Beating {
                exchange: heartbeat_exchange(),
            })
            &&& next.last_heartbeat == if s.failures >= 3 {
                now
            } else {
                s.last_heartbeat
            }
        }),
{
}

/// A heartbeat goes on until its round trip is over. One that was good clears
/// the count of failures, any other adds one and keeps its error; either way the
/// interval to the next runs from then.
pub proof fn law_beating(s: ActorView, event: Event, now: u128)
    requires
        s.mode is Beating,
        s.failures < u32::MAX,
    ensures
        ({
            let next = s.after(event, now);
            match s.mode->Beating_exchange.after(event, now) {
                Progress::Pending(x) => {
                    &&& next.mode == (ModeView::Beating { exchange: x })
                    &&& next.failures == s.failures
                    &&& next.heartbeat_error == s.heartbeat_error
                    &&& next.last_heartbeat == s.last_heartbeat
                },
                Progress::Finished { text, ended } => {
                    &&& next.mode is Polling
                    &&& next.last_heartbeat == now
                    &&& match heartbeat_outcome(text, ended) {
                        Ok(_) => next.failures == 0 && next.heartbeat_error is None,
                        Err(e) => next.failures == s.failures + 1 && next.heartbeat_error == Some(
                            e,
                        ),
                    }
                },
            }
        }),
{
}

/// An open connection is given up only for cause: a read failed while the modem
/// was listened to, or 3 heartbeats have failed in a row and the modem was
/// listened to since.
pub proof fn law_given_up_only_for_cause(s: ActorView, event: Event, now: u128)
    requires
        s.connected(),
        !s.after(event, now).connected(),
    ensures
        s.mode is Listening || s.mode is Broadcasting,
        (s.mode is Listening && event is Failed) || s.failures >= 3,
        s.after(event, now).mode is Resetting,
{
}

/// An open connection below the limit of failures is kept, whatever comes but a
/// read that fails: after listening the actor begins a heartbeat exactly where
/// 30 s are over since the last, and else serves clients.
pub proof fn law_connection_is_kept(s: ActorView, event: Event, now: u128)
    requires
        s.connected(),
        s.failures < 3,
        !(event is Failed),
    ensures
        s.after(event, now).connected(),
        s.mode is Listening && (event is TimedOut || (event matches Event::Data(bytes)
            && bytes@.len() == 0)) ==> {
            &&& s.after(event, now).mode is Beating <==> now >= s.last_heartbeat + 30_000_000_000
            &&& s.after(event, now).mode is Polling <==> now < s.last_heartbeat + 30_000_000_000
        },
{
}

} // verus!
