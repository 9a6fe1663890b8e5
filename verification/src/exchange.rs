//! One round trip with the modem: left-over data is dropped, a request is
//! written, and the answer is gathered until it is complete or the time is up.
use crate::at::{answered, is_answered, law_complete_answers, Ended};
use crate::link::{
    due, is_due, Action, Event, DRAIN_TIMEOUT_MS, READ_TIMEOUT_MS, WRITE_TIMEOUT_MS,
};
use crate::text::{decode_lossy, lossy_text};
use vstd::prelude::*;
use vstd::string::*;

verus! {

/// How far a round trip has come.
#[derive(Debug, PartialEq, Eq)]
pub enum Stage<T> {
    /// Data left over from before is read and dropped.
    Draining,
    /// The request is written.
    Sending,
    /// The answer comes in. `text` is what has come, `started` when the request
    /// had been written.
    Collecting { text: T, started: u128 },
}

/// A round trip that is under way.
#[derive(Debug, PartialEq, Eq)]
pub struct Exchange<T> {
    /// What is written to the modem.
    pub request: T,
    /// How long the answer may take, in milliseconds.
    pub limit_ms: u64,
    /// How far the round trip has come.
    pub stage: Stage<T>,
}

/// A round trip after an event.
#[derive(Debug, PartialEq, Eq)]
pub enum Progress<T> {
    /// It goes on.
    Pending(Exchange<T>),
    /// It is over. `text` is what the modem sent.
    Finished { text: T, ended: Ended<T> },
}

impl View for Stage<String> {
    type V = Stage<Seq<char>>;

    open spec fn view(&self) -> Stage<Seq<char>> {
        match self {
            Stage::Draining => Stage::Draining,
            Stage::Sending => Stage::Sending,
            Stage::Collecting { text, started } => Stage::Collecting {
                text: text@,
                started: *started,
            },
        }
    }
}

impl View for Exchange<String> {
    type V = Exchange<Seq<char>>;

    open spec fn view(&self) -> Exchange<Seq<char>> {
        Exchange { request: self.request@, limit_ms: self.limit_ms, stage: self.stage@ }
    }
}

impl View for Progress<String> {
    type V = Progress<Seq<char>>;

    open spec fn view(&self) -> Progress<Seq<char>> {
        match self {
            Progress::Pending(x) => Progress::Pending(x@),
            Progress::Finished { text, ended } => Progress::Finished { text: text@, ended: ended@ },
        }
    }
}

impl Exchange<Seq<char>> {
    /// A round trip that has just begun.
    pub open spec fn begun(request: Seq<char>, limit_ms: u64) -> Self {
        Exchange { request, limit_ms, stage: Stage::Draining }
    }

    /// The same round trip at another stage.
    pub open spec fn at(self, stage: Stage<Seq<char>>) -> Self {
        Exchange { stage, ..self }
    }

    /// What has to be done next.
    pub open spec fn wants(self) -> Action<Seq<char>> {
        match self.stage {
            Stage::Draining => Action::Receive { limit: Some(DRAIN_TIMEOUT_MS) },
            Stage::Sending => Action::Send { data: self.request, limit_ms: WRITE_TIMEOUT_MS },
            Stage::Collecting { .. } => Action::Receive { limit: Some(READ_TIMEOUT_MS) },
        }
    }

    /// The round trip once `chunk` has come in at `now` while the answer is
    /// gathered: over with a complete answer or when the time is up.
    pub open spec fn after_text(self, chunk: Seq<char>, now: u128) -> Progress<Seq<char>> {
        match self.stage {
            Stage::Collecting { text, started } => if answered(text + chunk) {
                Progress::Finished { text: text + chunk, ended: Ended::Answered }
            } else if due(started, now, self.limit_ms) {
                Progress::Finished { text: text + chunk, ended: Ended::Expired }
            } else {
                Progress::Pending(self.at(Stage::Collecting { text: text + chunk, started }))
            },
            _ => Progress::Pending(self),
        }
    }

    /// The round trip once a read has brought nothing at `now` while the
    /// answer is gathered: over when the time is up.
    pub open spec fn after_silence(self, now: u128) -> Progress<Seq<char>> {
        match self.stage {
            Stage::Collecting { text, started } if due(started, now, self.limit_ms) =>
                Progress::Finished { text, ended: Ended::Expired },
            _ => Progress::Pending(self),
        }
    }

    /// The round trip after an event at `now`. An event that is no answer to
    /// what had to be done changes nothing.
    pub open spec fn after(self, event: Event, now: u128) -> Progress<Seq<char>> {
        match self.stage {
            Stage::Draining => match event {
                Event::Data(bytes) if bytes@.len() > 0 => Progress::Pending(self),
                Event::Data(_) | Event::TimedOut | Event::Failed(_) => Progress::Pending(
                    self.at(Stage::Sending),
                ),
                _ => Progress::Pending(self),
            },
            Stage::Sending => match event {
                Event::Done => Progress::Pending(
                    self.at(Stage::Collecting { text: Seq::empty(), started: now }),
                ),
                Event::TimedOut => Progress::Finished {
                    text: Seq::empty(),
                    ended: Ended::SendTimedOut,
                },
                Event::Failed(e) => Progress::Finished {
                    text: Seq::empty(),
                    ended: Ended::SendFailed(e@),
                },
                _ => Progress::Pending(self),
            },
            Stage::Collecting { text, .. } => match event {
                Event::Data(bytes) if bytes@.len() > 0 => self.after_text(lossy_text(bytes@), now),
                Event::Data(_) | Event::TimedOut => self.after_silence(now),
                Event::Failed(e) => Progress::Finished { text, ended: Ended::ReadFailed(e@) },
                _ => Progress::Pending(self),
            },
        }
    }
}

impl Exchange<String> {
    /// Begins a round trip with the given request.
    pub fn begin(request: String, limit_ms: u64) -> (r: Self)
        ensures
            r@ == Exchange::begun(request@, limit_ms),
    {
        Exchange { request, limit_ms, stage: Stage::Draining }
    }

    /// What has to be done next.
    pub fn action(&self) -> (r: Action<String>)
        ensures
            r@ == self@.wants(),
    {
        match &self.stage {
            Stage::Draining => Action::Receive { limit: Some(DRAIN_TIMEOUT_MS) },
            Stage::Sending => Action::Send {
                data: self.request.clone(),
                limit_ms: WRITE_TIMEOUT_MS,
            },
            Stage::Collecting { .. } => Action::Receive { limit: Some(READ_TIMEOUT_MS) },
        }
    }

    /// Takes in a decoded piece of the answer.
    pub fn take_text(self, chunk: &str, now: u128) -> (r: Progress<String>)
        ensures
            r@ == self@.after_text(chunk@, now),
    {
        match self.stage {
            Stage::Collecting { text, started } => {
                let mut text = text;
                text.append(chunk);
                if is_answered(text.as_str()) {
                    Progress::Finished { text, ended: Ended::Answered }
                } else if is_due(started, now, self.limit_ms) {
                    Progress::Finished { text, ended: Ended::Expired }
                } else {
                    Progress::Pending(
                        Exchange {
                            request: self.request,
                            limit_ms: self.limit_ms,
                            stage: Stage::Collecting { text, started },
                        },
                    )
                }
            },
            _ => Progress::Pending(self),
        }
    }

    /// Takes in that a read brought nothing.
    pub fn take_silence(self, now: u128) -> (r: Progress<String>)
        ensures
            r@ == self@.after_silence(now),
    {
        let expired = match &self.stage {
            Stage::Collecting { started, .. } => is_due(*started, now, self.limit_ms),
            _ => false,
        };
        if !expired {
            return Progress::Pending(self);
        }
        match self.stage {
            Stage::Collecting { text, .. } => Progress::Finished { text, ended: Ended::Expired },
            _ => Progress::Pending(self),
        }
    }

    /// Takes in what came of the action.
    pub fn step(self, event: Event, now: u128) -> (r: Progress<String>)
        ensures
            r@ == self@.after(event, now),
    {
        match &self.stage {
            Stage::Draining => match event {
                Event::Data(bytes) => {
                    if bytes.len() > 0 {
                        Progress::Pending(self)
                    } else {
                        Progress::Pending(Exchange { stage: Stage::Sending, ..self })
                    }
                },
                Event::TimedOut | Event::Failed(_) => Progress::Pending(
                    Exchange { stage: Stage::Sending, ..self },
                ),
                _ => Progress::Pending(self),
            },
            Stage::Sending => match event {
                Event::Done => Progress::Pending(
                    Exchange {
                        stage: Stage::Collecting { text: String::new(), started: now },
                        ..self
                    },
                ),
                Event::TimedOut => Progress::Finished {
                    text: String::new(),
                    ended: Ended::SendTimedOut,
                },
                Event::Failed(e) => Progress::Finished {
                    text: String::new(),
                    ended: Ended::SendFailed(e),
                },
                _ => Progress::Pending(self),
            },
            Stage::Collecting { .. } => match event {
                Event::Data(bytes) => {
                    if bytes.len() > 0 {
                        let chunk = decode_lossy(&bytes);
                        self.take_text(chunk.as_str(), now)
                    } else {
                        self.take_silence(now)
                    }
                },
                Event::TimedOut => self.take_silence(now),
                Event::Failed(e) => self.take_failure(e),
                _ => Progress::Pending(self),
            },
        }
    }

    /// Takes in that the answer could not be read.
    fn take_failure(self, e: String) -> (r: Progress<String>)
        ensures
            r@ == match self@.stage {
                Stage::Collecting { text, .. } => Progress::Finished {
                    text,
                    ended: Ended::ReadFailed(e@),
                },
                _ => Progress::Pending(self@),
            },
    {
        match self.stage {
            Stage::Collecting { text, .. } => Progress::Finished {
                text,
                ended: Ended::ReadFailed(e),
            },
            _ => Progress::Pending(self),
        }
    }
}

// ---------------------------------------------------------------------------
// Laws
// ---------------------------------------------------------------------------

impl Exchange<Seq<char>> {
    /// The round trip after a row of events, each with its time.
    pub open spec fn run(self, inputs: Seq<(Event, u128)>) -> Progress<Seq<char>>
        decreases inputs.len(),
    {
        if inputs.len() == 0 {
            Progress::Pending(self)
        } else {
            match self.run(inputs.drop_last()) {
                Progress::Pending(x) => x.after(inputs.last().0, inputs.last().1),
                over => over,
            }
        }
    }
}

/// The event brings data.
pub open spec fn brings_data(event: Event) -> bool {
    event matches Event::Data(bytes) && bytes@.len() > 0
}

/// The event tells that a read brought nothing.
pub open spec fn brings_nothing(event: Event) -> bool {
    match event {
        Event::Data(bytes) => bytes@.len() == 0,
        Event::TimedOut | Event::Failed(_) => true,
        _ => false,
    }
}

/// The decoded data of a row of events, one piece after the other.
pub open spec fn gathered(inputs: Seq<(Event, u128)>) -> Seq<char>
    decreases inputs.len(),
{
    if inputs.len() == 0 {
        Seq::empty()
    } else {
        let rest = gathered(inputs.drop_last());
        match inputs.last().0 {
            Event::Data(bytes) if bytes@.len() > 0 => rest + lossy_text(bytes@),
            _ => rest,
        }
    }
}

/// Events may be taken in one row or in two.
pub proof fn lemma_run_in_two(
    x: Exchange<Seq<char>>,
    first: Seq<(Event, u128)>,
    second: Seq<(Event, u128)>,
)
    ensures
        x.run(first + second) == match x.run(first) {
            Progress::Pending(y) => y.run(second),
            over => over,
        },
    decreases second.len(),
{
    if second.len() == 0 {
        assert(first + second == first);
    } else {
        lemma_run_in_two(x, first, second.drop_last());
        assert((first + second).drop_last() == first + second.drop_last());
        assert((first + second).last() == second.last());
    }
}

/// The request never changes while a round trip is under way.
pub proof fn law_request_is_kept(x: Exchange<Seq<char>>, inputs: Seq<(Event, u128)>)
    ensures
        x.run(inputs) matches Progress::Pending(y) ==> y.request == x.request && y.limit_ms
            == x.limit_ms,
    decreases inputs.len(),
{
    if inputs.len() > 0 {
        law_request_is_kept(x, inputs.drop_last());
    }
}

/// Data left over from before is dropped: however much of it comes, once a read
/// brings nothing and the request is written, the round trip stands where it
/// would without.
pub proof fn law_left_over_data_is_dropped(
    request: Seq<char>,
    limit_ms: u64,
    left_over: Seq<(Event, u128)>,
    quiet: (Event, u128),
    written: u128,
)
    requires
        forall|i: int| 0 <= i < left_over.len() ==> brings_data((#[trigger] left_over[i]).0),
        brings_nothing(quiet.0),
    ensures
        ({
            let x = Exchange::begun(request, limit_ms);
            &&& x.run(left_over) == Progress::Pending(x)
            &&& x.run(left_over.push(quiet)) == Progress::Pending(x.at(Stage::Sending))
            &&& x.run(left_over.push(quiet).push((Event::Done, written))) == Progress::Pending(
                x.at(Stage::Collecting { text: Seq::empty(), started: written }),
            )
        }),
    decreases left_over.len(),
{
    let x = Exchange::begun(request, limit_ms);
    if left_over.len() > 0 {
        let fewer = left_over.drop_last();
        assert forall|i: int| 0 <= i < fewer.len() implies brings_data(
            (#[trigger] fewer[i]).0,
        ) by {
            assert(fewer[i] == left_over[i]);
        }
        law_left_over_data_is_dropped(request, limit_ms, fewer, quiet, written);
        assert(brings_data(left_over.last().0));
    }
    assert(left_over.push(quiet).drop_last() == left_over);
    let sent = left_over.push(quiet).push((Event::Done, written));
    assert(sent.drop_last() == left_over.push(quiet));
    assert(x.run(left_over.push(quiet)) == Progress::Pending(x.at(Stage::Sending)));
}

/// The round trip that was gathering at `x` ended with the `n`-th event: `text`
/// is what had come by then, complete exactly where it ended as answered, and
/// the time was up where it ended as expired.
pub open spec fn ended_with(
    x: Exchange<Seq<char>>,
    inputs: Seq<(Event, u128)>,
    n: int,
    text: Seq<char>,
    ended: Ended<Seq<char>>,
) -> bool {
    &&& 0 < n <= inputs.len()
    &&& x.run(inputs.take(n - 1)) is Pending
    &&& text == x.stage->text + gathered(inputs.take(n))
    &&& answered(text) <==> ended is Answered
    &&& match ended {
        Ended::Answered => true,
        Ended::Expired => due(x.stage->started, inputs[n - 1].1, x.limit_ms),
        Ended::ReadFailed(e) => inputs[n - 1].0 matches Event::Failed(said) && e == said@,
        Ended::SendTimedOut | Ended::SendFailed(_) => false,
    }
}

/// The answer is what came after the request, piece by piece, up to the event
/// that ended the round trip; until then it is incomplete.
pub proof fn law_answer_is_what_came(x: Exchange<Seq<char>>, inputs: Seq<(Event, u128)>)
    requires
        x.stage is Collecting,
        !answered(x.stage->text),
    ensures
        match x.run(inputs) {
            Progress::Pending(y) => {
                let text = x.stage->text + gathered(inputs);
                y == x.at(Stage::Collecting { text, started: x.stage->started }) && !answered(text)
            },
            Progress::Finished { text, ended } => exists|n: int|
                ended_with(x, inputs, n, text, ended),
        },
    decreases inputs.len(),
{
    if inputs.len() == 0 {
        assert(x.stage->text + gathered(inputs) == x.stage->text);
    } else {
        let fewer = inputs.drop_last();
        law_answer_is_what_came(x, fewer);
        let last = inputs.last();
        match x.run(fewer) {
            Progress::Pending(y) => {
                if brings_data(last.0) {
                    assert(x.stage->text + gathered(fewer) + lossy_text(last.0->Data_0@)
                        == x.stage->text + gathered(inputs));
                }
                if let Progress::Finished { text, ended } = x.run(inputs) {
                    let n = inputs.len() as int;
                    assert(inputs.take(n - 1) == fewer);
                    assert(inputs.take(n) == inputs);
                    assert(ended_with(x, inputs, n, text, ended));
                }
            },
            Progress::Finished { text, ended } => {
                let n = choose|n: int| ended_with(x, fewer, n, text, ended);
                assert(inputs.take(n - 1) == fewer.take(n - 1));
                assert(inputs.take(n) == fewer.take(n));
                assert(ended_with(x, inputs, n, text, ended));
            },
        }
    }
}

/// No read that comes back once the time is up is followed by another.
pub proof fn law_deadline(x: Exchange<Seq<char>>, event: Event, now: u128)
    requires
        x.stage is Collecting,
        brings_data(event) || brings_nothing(event),
        due(x.stage->started, now, x.limit_ms),
    ensures
        x.after(event, now) is Finished,
{
}

/// A round trip drops what it can read within 10 ms, writes its request within
/// 5 s, and then reads its answer, 50 ms at a time.
pub proof fn law_what_a_round_trip_does(x: Exchange<Seq<char>>)
    ensures
        x.stage is Draining ==> x.wants() == (Action::<Seq<char>>::Receive { limit: Some(10) }),
        x.stage is Sending ==> x.wants() == (Action::Send { data: x.request, limit_ms: 5000 }),
        x.stage is Collecting ==> x.wants() == (Action::<Seq<char>>::Receive { limit: Some(50) }),
{
}

/// A round trip begins with left-over data, and its request and its limit are
/// those it was given.
pub proof fn law_round_trips_begin_by_draining(
    request: Seq<char>,
    limit_ms: u64,
    stage: Stage<Seq<char>>,
)
    ensures
        ({
            let x = Exchange::begun(request, limit_ms);
            &&& x.request == request
            &&& x.limit_ms == limit_ms
            &&& x.stage is Draining
            &&& x.at(stage).request == request
            &&& x.at(stage).limit_ms == limit_ms
            &&& x.at(stage).stage == stage
        }),
{
}

/// Left-over data is read until a read brings none; none of it ends the round
/// trip, and the request is not written before.
pub proof fn law_draining(x: Exchange<Seq<char>>, event: Event, now: u128)
    requires
        x.stage is Draining,
    ensures
        match x.after(event, now) {
            Progress::Pending(y) => {
                &&& y.request == x.request
                &&& y.limit_ms == x.limit_ms
                &&& match event {
                    Event::Data(bytes) => if bytes@.len() > 0 {
                        y.stage is Draining
                    } else {
                        y.stage is Sending
                    },
                    Event::TimedOut | Event::Failed(_) => y.stage is Sending,
                    Event::Done | Event::Command(_) | Event::NoCommand | Event::Closed =>
                        y.stage is Draining,
                }
            },
            Progress::Finished { .. } => false,
        },
{
}

/// Once the request is written the answer is gathered from nothing, and the time
/// for it runs from then; a request that cannot be written ends the round trip.
pub proof fn law_sending(x: Exchange<Seq<char>>, event: Event, now: u128)
    requires
        x.stage is Sending,
    ensures
        match x.after(event, now) {
            Progress::Pending(y) => {
                &&& y.request == x.request
                &&& y.limit_ms == x.limit_ms
                &&& event is Done ==> y.stage is Collecting && y.stage->text.len() == 0
                    && y.stage->started == now
                &&& !(event is Done) ==> y.stage is Sending
                &&& !(event is TimedOut) && !(event is Failed)
            },
            Progress::Finished { text, ended } => {
                &&& text.len() == 0
                &&& match event {
                    Event::TimedOut => ended is SendTimedOut,
                    Event::Failed(e) => ended == Ended::SendFailed(e@),
                    _ => false,
                }
            },
        },
{
}

/// A read that brings data puts it behind what had come. The round trip is then
/// over as answered exactly where `OK` and a line end, or `ERROR`, stand in all
/// that came; else it is over as expired exactly where the time is up, and else
/// it goes on with all that came.
pub proof fn law_gathering_data(
    x: Exchange<Seq<char>>,
    bytes: Vec<u8>,
    now: u128,
    whole: Seq<char>,
)
    requires
        x.stage is Collecting,
        bytes@.len() > 0,
        whole == x.stage->text + lossy_text(bytes@),
    ensures
        ({
            let said = {
                ||| exists|i: int|
                    0 <= i && i + 4 <= whole.len() && #[trigger] whole[i] == 'O' && whole[i + 1]
                        == 'K' && whole[i + 2] == '\r' && whole[i + 3] == '\n'
                ||| exists|i: int|
                    0 <= i && i + 5 <= whole.len() && #[trigger] whole[i] == 'E' && whole[i + 1]
                        == 'R' && whole[i + 2] == 'R' && whole[i + 3] == 'O' && whole[i + 4] == 'R'
            };
            let late = now >= x.stage->started + x.limit_ms * 1_000_000 || x.limit_ms == 0;
            match x.after(Event::Data(bytes), now) {
                Progress::Pending(y) => {
                    &&& !said && !late
                    &&& y.request == x.request
                    &&& y.limit_ms == x.limit_ms
                    &&& y.stage is Collecting
                    &&& y.stage->text == whole
                    &&& y.stage->started == x.stage->started
                },
                Progress::Finished { text, ended } => {
                    &&& text == whole
                    &&& ended is Answered || ended is Expired
                    &&& ended is Answered <==> said
                    &&& ended is Expired <==> !said && late
                },
            }
        }),
{
    law_complete_answers(whole);
}

/// A read that brings nothing ends the round trip exactly where the time is up,
/// one that fails ends it, and nothing else does; what had come stays.
pub proof fn law_gathering_nothing(x: Exchange<Seq<char>>, event: Event, now: u128)
    requires
        x.stage is Collecting,
        event matches Event::Data(bytes) ==> bytes@.len() == 0,
    ensures
        ({
            let late = now >= x.stage->started + x.limit_ms * 1_000_000 || x.limit_ms == 0;
            match x.after(event, now) {
                Progress::Pending(y) => {
                    &&& y == x
                    &&& !(event is Failed)
                    &&& event is Data || event is TimedOut ==> !late
                },
                Progress::Finished { text, ended } => {
                    &&& text == x.stage->text
                    &&& match event {
                        Event::Data(_) | Event::TimedOut => late && ended is Expired,
                        Event::Failed(e) => ended == Ended::ReadFailed(e@),
                        _ => false,
                    }
                },
            }
        }),
{
}

/// A decoded piece of the answer is taken in as the data it came from.
pub proof fn law_pieces_and_data(x: Exchange<Seq<char>>, bytes: Vec<u8>, now: u128)
    requires
        x.stage is Collecting,
    ensures
        bytes@.len() > 0 ==> x.after_text(lossy_text(bytes@), now) == x.after(
            Event::Data(bytes),
            now,
        ),
        x.after_silence(now) == x.after(Event::TimedOut, now),
{
}

/// A decoded piece goes behind what had come, and ends the round trip exactly
/// where the answer is complete or the time is up.
pub proof fn law_pieces_are_put_together(x: Exchange<Seq<char>>, piece: Seq<char>, now: u128)
    requires
        x.stage is Collecting,
    ensures
        match x.after_text(piece, now) {
            Progress::Pending(y) => {
                &&& !answered(x.stage->text + piece)
                &&& !due(x.stage->started, now, x.limit_ms)
                &&& y.request == x.request
                &&& y.limit_ms == x.limit_ms
                &&& y.stage == (Stage::Collecting {
                    text: x.stage->text + piece,
                    started: x.stage->started,
                })
            },
            Progress::Finished { text, ended } => {
                &&& text == x.stage->text + piece
                &&& answered(text) ==> ended is Answered
                &&& !answered(text) ==> ended is Expired && due(x.stage->started, now, x.limit_ms)
            },
        },
{
}

/// Pieces and silence out of turn change nothing.
pub proof fn law_pieces_out_of_turn(x: Exchange<Seq<char>>, piece: Seq<char>, now: u128)
    requires
        !(x.stage is Collecting),
    ensures
        x.after_text(piece, now) == Progress::Pending(x),
        x.after_silence(now) == Progress::Pending(x),
{
}

/// A round trip is the same over strings and over plain texts.
pub proof fn law_exchange_view(x: Exchange<String>, p: Progress<String>)
    ensures
        x@.request == x.request@,
        x@.limit_ms == x.limit_ms,
        match x.stage {
            Stage::Draining => x@.stage is Draining,
            Stage::Sending => x@.stage is Sending,
            Stage::Collecting { text, started } => x@.stage == (Stage::Collecting {
                text: text@,
                started,
            }),
        },
        match p {
            Progress::Pending(y) => p@ == Progress::Pending(y@),
            Progress::Finished { text, ended } => p@ == (Progress::Finished {
                text: text@,
                ended: ended@,
            }),
        },
{
}

} // verus!
