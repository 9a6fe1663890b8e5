//! One client's WebSocket session: notifications are passed on, and commands
//! are handed to the actor and answered one at a time.
use crate::message::{
    notification_message, notification_text, object_text, reply_message, reply_text,
};
use vstd::prelude::*;

verus! {

/// How far a session has come.
#[derive(Debug, PartialEq, Eq)]
pub enum SessionState<T> {
    /// Nothing is under way.
    Open,
    /// A command is handed to the actor.
    Submitting { command: T },
    /// The actor's answer is waited for.
    Awaiting,
    /// A message goes to the client.
    Sending { message: T },
    /// The session is over.
    Closed,
}

/// What has to be done next in a session.
#[derive(Debug, PartialEq, Eq)]
pub enum SessionAction<T> {
    /// Wait for a notification or for the client, whichever comes first.
    Wait,
    /// Hand a command to the actor.
    Submit { command: T },
    /// Wait for the actor's answer.
    AwaitReply,
    /// Send a message to the client.
    Send { message: T },
    /// Nothing any more.
    Close,
}

/// What came of a session's action.
#[derive(Debug, PartialEq, Eq)]
pub enum SessionEvent {
    /// A notification came.
    Notification(String),
    /// Notifications were missed.
    NotificationLost,
    /// The client sent a text.
    ClientText(String),
    /// The client sent anything else, or is gone.
    ClientGone,
    /// The actor has the command.
    Accepted,
    /// The actor takes no commands any more.
    Rejected,
    /// The actor has answered.
    Replied(Result<String, String>),
    /// The actor is gone without an answer.
    ReplyLost,
    /// The message is sent.
    Sent,
    /// The message could not be sent.
    SendFailed,
}

impl View for SessionState<String> {
    type V = SessionState<Seq<char>>;

    open spec fn view(&self) -> SessionState<Seq<char>> {
        match self {
            SessionState::Open => SessionState::Open,
            SessionState::Submitting { command } => SessionState::Submitting { command: command@ },
            SessionState::Awaiting => SessionState::Awaiting,
            SessionState::Sending { message } => SessionState::Sending { message: message@ },
            SessionState::Closed => SessionState::Closed,
        }
    }
}

impl View for SessionAction<String> {
    type V = SessionAction<Seq<char>>;

    open spec fn view(&self) -> SessionAction<Seq<char>> {
        match self {
            SessionAction::Wait => SessionAction::Wait,
            SessionAction::Submit { command } => SessionAction::Submit { command: command@ },
            SessionAction::AwaitReply => SessionAction::AwaitReply,
            SessionAction::Send { message } => SessionAction::Send { message: message@ },
            SessionAction::Close => SessionAction::Close,
        }
    }
}

impl SessionState<Seq<char>> {
    /// What has to be done next.
    pub open spec fn wants(self) -> SessionAction<Seq<char>> {
        match self {
            SessionState::Open => SessionAction::Wait,
            SessionState::Submitting { command } => SessionAction::Submit { command },
            SessionState::Awaiting => SessionAction::AwaitReply,
            SessionState::Sending { message } => SessionAction::Send { message },
            SessionState::Closed => SessionAction::Close,
        }
    }

    /// The session after an event. An event that is no answer to what had to be
    /// done changes nothing.
    pub open spec fn after(self, event: SessionEvent) -> Self {
        match self {
            SessionState::Open => match event {
                SessionEvent::Notification(line) => SessionState::Sending {
                    message: notification_text(line@),
                },
                SessionEvent::ClientText(command) => SessionState::Submitting { command: command@ },
                SessionEvent::ClientGone => SessionState::Closed,
                _ => self,
            },
            SessionState::Submitting { .. } => match event {
                SessionEvent::Accepted => SessionState::Awaiting,
                SessionEvent::Rejected => SessionState::Closed,
                _ => self,
            },
            SessionState::Awaiting => match event {
                SessionEvent::Replied(Ok(data)) => SessionState::Sending {
                    message: reply_text(Ok(data@)),
                },
                SessionEvent::Replied(Err(error)) => SessionState::Sending {
                    message: reply_text(Err(error@)),
                },
                SessionEvent::ReplyLost => SessionState::Sending {
                    message: reply_text(Err("ACTOR_GONE"@)),
                },
                _ => self,
            },
            SessionState::Sending { .. } => match event {
                SessionEvent::Sent => SessionState::Open,
                SessionEvent::SendFailed => SessionState::Closed,
                _ => self,
            },
            SessionState::Closed => self,
        }
    }
}

impl SessionState<String> {
    /// What has to be done next.
    pub fn action(&self) -> (r: SessionAction<String>)
        ensures
            r@ == self@.wants(),
    {
        match self {
            SessionState::Open => SessionAction::Wait,
            SessionState::Submitting { command } => SessionAction::Submit {
                command: command.clone(),
            },
            SessionState::Awaiting => SessionAction::AwaitReply,
            SessionState::Sending { message } => SessionAction::Send { message: message.clone() },
            SessionState::Closed => SessionAction::Close,
        }
    }

    /// Takes in what came of the action.
    pub fn step(self, event: SessionEvent) -> (r: Self)
        ensures
            r@ == self@.after(event),
    {
        match &self {
            SessionState::Open => match event {
                SessionEvent::Notification(line) => SessionState::Sending {
                    message: notification_message(line.as_str()),
                },
                SessionEvent::ClientText(command) => SessionState::Submitting { command },
                SessionEvent::ClientGone => SessionState::Closed,
                _ => self,
            },
            SessionState::Submitting { .. } => match event {
                SessionEvent::Accepted => SessionState::Awaiting,
                SessionEvent::Rejected => SessionState::Closed,
                _ => self,
            },
            SessionState::Awaiting => match event {
                SessionEvent::Replied(Ok(data)) => SessionState::Sending {
                    message: reply_message(Ok(data.as_str())),
                },
                SessionEvent::Replied(Err(error)) => SessionState::Sending {
                    message: reply_message(Err(error.as_str())),
                },
                SessionEvent::ReplyLost => SessionState::Sending {
                    message: reply_message(Err("ACTOR_GONE")),
                },
                _ => self,
            },
            SessionState::Sending { .. } => match event {
                SessionEvent::Sent => SessionState::Open,
                SessionEvent::SendFailed => SessionState::Closed,
                _ => self,
            },
            SessionState::Closed => self,
        }
    }
}

// ---------------------------------------------------------------------------
// Laws
// ---------------------------------------------------------------------------

impl SessionState<Seq<char>> {
    /// The session after a row of events.
    pub open spec fn run(self, inputs: Seq<SessionEvent>) -> Self
        decreases inputs.len(),
    {
        if inputs.len() == 0 {
            self
        } else {
            self.run(inputs.drop_last()).after(inputs.last())
        }
    }
}

/// The commands that a client has given in a session that began open.
pub open spec fn given(inputs: Seq<SessionEvent>) -> Seq<Seq<char>>
    decreases inputs.len(),
{
    if inputs.len() == 0 {
        Seq::empty()
    } else {
        let before = given(inputs.drop_last());
        match inputs.last() {
            SessionEvent::ClientText(command) if SessionState::Open.run(
                inputs.drop_last(),
            ) is Open => before.push(command@),
            _ => before,
        }
    }
}

/// The answers to its commands that a client was sent, or was about to be sent,
/// in a session that began open.
pub open spec fn answers(inputs: Seq<SessionEvent>) -> Seq<Seq<char>>
    decreases inputs.len(),
{
    if inputs.len() == 0 {
        Seq::empty()
    } else {
        let before = answers(inputs.drop_last());
        match SessionState::Open.run(inputs) {
            SessionState::Sending { message } if SessionState::Open.run(
                inputs.drop_last(),
            ) is Awaiting => before.push(message),
            _ => before,
        }
    }
}

/// What came of the commands of a client in a session that began open: what the
/// actor answered, or that it was gone without an answer.
pub open spec fn outcomes(inputs: Seq<SessionEvent>) -> Seq<Result<Seq<char>, Seq<char>>>
    decreases inputs.len(),
{
    if inputs.len() == 0 {
        Seq::empty()
    } else {
        let before = outcomes(inputs.drop_last());
        if SessionState::Open.run(inputs.drop_last()) is Awaiting {
            match inputs.last() {
                SessionEvent::Replied(Ok(data)) => before.push(Ok(data@)),
                SessionEvent::Replied(Err(error)) => before.push(Err(error@)),
                SessionEvent::ReplyLost => before.push(Err("ACTOR_GONE"@)),
                _ => before,
            }
        } else {
            before
        }
    }
}

/// Each answer that a client is sent tells what came of the command of the same
/// number.
pub proof fn law_answers_tell_the_outcomes(inputs: Seq<SessionEvent>)
    ensures
        answers(inputs) == outcomes(inputs).map_values(
            |outcome: Result<Seq<char>, Seq<char>>| reply_text(outcome),
        ),
    decreases inputs.len(),
{
    let tell = |outcome: Result<Seq<char>, Seq<char>>| reply_text(outcome);
    if inputs.len() == 0 {
        assert(answers(inputs) == outcomes(inputs).map_values(tell));
    } else {
        let fewer = inputs.drop_last();
        law_answers_tell_the_outcomes(fewer);
        if outcomes(inputs).len() > outcomes(fewer).len() {
            assert(outcomes(inputs).map_values(tell) == outcomes(fewer).map_values(tell).push(
                reply_text(outcomes(inputs).last()),
            ));
        }
    }
}

/// A client's commands are answered one at a time, each once: there is one more
/// command than answers while a command is handed over or waited for, and where
/// the actor no longer took the last one; else there are as many. Each answer
/// tells what came of the command of the same number.
pub proof fn law_commands_are_answered_in_turn(inputs: Seq<SessionEvent>)
    ensures
        ({
            let open = given(inputs).len() - answers(inputs).len();
            match SessionState::Open.run(inputs) {
                SessionState::Open | SessionState::Sending { .. } => open == 0,
                SessionState::Submitting { command } => open == 1 && command == given(
                    inputs,
                ).last(),
                SessionState::Awaiting => open == 1,
                SessionState::Closed => open == 0 || open == 1,
            }
        }),
        answers(inputs).len() == outcomes(inputs).len(),
        forall|i: int|
            0 <= i < answers(inputs).len() ==> #[trigger] answers(inputs)[i] == reply_text(
                outcomes(inputs)[i],
            ),
    decreases inputs.len(),
{
    law_answers_tell_the_outcomes(inputs);
    if inputs.len() > 0 {
        law_commands_are_answered_in_turn(inputs.drop_last());
    }
}

/// A session that is over stays so.
pub proof fn law_closed_is_final(inputs: Seq<SessionEvent>)
    ensures
        SessionState::<Seq<char>>::Closed.run(inputs) is Closed,
    decreases inputs.len(),
{
    if inputs.len() > 0 {
        law_closed_is_final(inputs.drop_last());
    }
}

/// What a session does goes by its state, and nothing of a command or a message
/// is lost on the way.
pub proof fn law_what_a_session_does(s: SessionState<Seq<char>>)
    ensures
        s is Open <==> s.wants() is Wait,
        s is Awaiting <==> s.wants() is AwaitReply,
        s is Closed <==> s.wants() is Close,
        s is Submitting <==> s.wants() is Submit,
        s is Sending <==> s.wants() is Send,
        s is Submitting ==> s.wants()->command == s->command,
        s is Sending ==> s.wants()->message == s->message,
{
}

/// An open session sends a notification on as it came, takes a client's text for
/// a command as it came, and ends with the client; a missed notification and
/// anything out of turn change nothing.
pub proof fn law_open_session(event: SessionEvent)
    ensures
        ({
            let next = SessionState::<Seq<char>>::Open.after(event);
            match event {
                SessionEvent::Notification(line) => next == (SessionState::Sending {
                    message: object_text(
                        seq![("type"@, Some("raw_data"@)), ("data"@, Some(line@))],
                        seq![],
                    ),
                }),
                SessionEvent::ClientText(command) => next == (SessionState::Submitting {
                    command: command@,
                }),
                SessionEvent::ClientGone => next is Closed,
                SessionEvent::NotificationLost
                | SessionEvent::Accepted
                | SessionEvent::Rejected
                | SessionEvent::Replied(_)
                | SessionEvent::ReplyLost
                | SessionEvent::Sent
                | SessionEvent::SendFailed => next is Open,
            }
        }),
{
}

/// A command that was handed over is waited for, or ends the session where the
/// actor takes none any more; until then the session holds on to it.
pub proof fn law_submitting_session(command: Seq<char>, event: SessionEvent)
    ensures
        ({
            let s = SessionState::Submitting { command };
            &&& event is Accepted ==> s.after(event) is Awaiting
            &&& event is Rejected ==> s.after(event) is Closed
            &&& !(event is Accepted) && !(event is Rejected) ==> s.after(event) == s
        }),
{
}

/// A client is told what the actor answered, as a success or as a failure, or
/// that the actor is gone; until then the session waits.
pub proof fn law_awaiting_session(event: SessionEvent)
    ensures
        ({
            let next = SessionState::<Seq<char>>::Awaiting.after(event);
            match event {
                SessionEvent::Replied(Ok(data)) => next == (SessionState::Sending {
                    message: object_text(
                        seq![("data"@, Some(data@)), ("error"@, None)],
                        seq![("success"@, true)],
                    ),
                }),
                SessionEvent::Replied(Err(error)) => next == (SessionState::Sending {
                    message: object_text(
                        seq![("data"@, None), ("error"@, Some(error@))],
                        seq![("success"@, false)],
                    ),
                }),
                SessionEvent::ReplyLost => next == (SessionState::Sending {
                    message: object_text(
                        seq![("data"@, None), ("error"@, Some("ACTOR_GONE"@))],
                        seq![("success"@, false)],
                    ),
                }),
                SessionEvent::Notification(_)
                | SessionEvent::NotificationLost
                | SessionEvent::ClientText(_)
                | SessionEvent::ClientGone
                | SessionEvent::Accepted
                | SessionEvent::Rejected
                | SessionEvent::Sent
                | SessionEvent::SendFailed => next is Awaiting,
            }
        }),
{
}

/// A message that was sent leaves the session open, one that cannot be sent ends
/// it, and until then the session holds on to it; a session that is over takes
/// nothing in.
pub proof fn law_sending_session(message: Seq<char>, event: SessionEvent)
    ensures
        ({
            let s = SessionState::Sending { message };
            &&& event is Sent ==> s.after(event) is Open
            &&& event is SendFailed ==> s.after(event) is Closed
            &&& !(event is Sent) && !(event is SendFailed) ==> s.after(event) == s
            &&& SessionState::<Seq<char>>::Closed.after(event) is Closed
        }),
{
}

/// A session is the same over strings and over plain texts.
pub proof fn law_session_view(s: SessionState<String>, a: SessionAction<String>)
    ensures
        match s {
            SessionState::Open => s@ is Open,
            SessionState::Submitting { command } => s@ == (SessionState::Submitting {
                command: command@,
            }),
            SessionState::Awaiting => s@ is Awaiting,
            SessionState::Sending { message } => s@ == (SessionState::Sending {
                message: message@,
            }),
            SessionState::Closed => s@ is Closed,
        },
        match a {
            SessionAction::Wait => a@ is Wait,
            SessionAction::Submit { command } => a@ == (SessionAction::Submit {
                command: command@,
            }),
            SessionAction::AwaitReply => a@ is AwaitReply,
            SessionAction::Send { message } => a@ == (SessionAction::Send { message: message@ }),
            SessionAction::Close => a@ is Close,
        },
{
}

} // verus!
