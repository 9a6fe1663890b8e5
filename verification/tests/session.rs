use at_gateway::message::{notification_message, reply_message};
use at_gateway::session::{SessionAction, SessionEvent, SessionState};

fn text(s: &str) -> String {
    s.to_string()
}

fn awaiting() -> SessionState<String> {
    SessionState::Open.step(SessionEvent::ClientText(text("AT"))).step(SessionEvent::Accepted)
}

#[test]
fn a_command_is_submitted_and_answered() {
    let s: SessionState<String> = SessionState::Open;
    assert_eq!(s.action(), SessionAction::Wait);
    let s = s.step(SessionEvent::ClientText(text("AT+CSQ")));
    assert_eq!(s.action(), SessionAction::Submit { command: text("AT+CSQ") });
    let s = s.step(SessionEvent::Accepted);
    assert_eq!(s.action(), SessionAction::AwaitReply);
    let s = s.step(SessionEvent::Replied(Ok(text("OK"))));
    assert_eq!(s.action(), SessionAction::Send { message: reply_message(Ok("OK")) });
    assert_eq!(s.step(SessionEvent::Sent), SessionState::Open);
}

#[test]
fn a_failed_command_is_answered_with_its_error() {
    let s = awaiting().step(SessionEvent::Replied(Err(text("ERROR"))));
    assert_eq!(s.action(), SessionAction::Send { message: reply_message(Err("ERROR")) });
}

#[test]
fn a_lost_actor_is_told() {
    let s = awaiting().step(SessionEvent::ReplyLost);
    assert_eq!(s.action(), SessionAction::Send { message: reply_message(Err("ACTOR_GONE")) });
    assert_eq!(s.step(SessionEvent::Sent), SessionState::Open);
}

#[test]
fn a_notification_is_passed_on() {
    let s: SessionState<String> = SessionState::Open;
    let s = s.step(SessionEvent::Notification(text("+CMTI: 1")));
    assert_eq!(s.action(), SessionAction::Send { message: notification_message("+CMTI: 1") });
    assert_eq!(s.step(SessionEvent::Sent), SessionState::Open);
}

#[test]
fn missed_notifications_do_no_harm() {
    let s: SessionState<String> = SessionState::Open;
    assert_eq!(s.step(SessionEvent::NotificationLost), SessionState::Open);
}

#[test]
fn a_session_ends_with_its_client_or_the_actor() {
    let open: SessionState<String> = SessionState::Open;
    assert_eq!(open.step(SessionEvent::ClientGone), SessionState::Closed);
    let submitting: SessionState<String> = SessionState::Submitting { command: text("AT") };
    assert_eq!(submitting.step(SessionEvent::Rejected), SessionState::Closed);
    let sending: SessionState<String> = SessionState::Sending { message: text("{}") };
    let closed = sending.step(SessionEvent::SendFailed);
    assert_eq!(closed.action(), SessionAction::Close);
    assert_eq!(closed.step(SessionEvent::ClientText(text("AT"))), SessionState::Closed);
}

#[test]
fn events_out_of_turn_change_nothing() {
    assert_eq!(awaiting().step(SessionEvent::ClientText(text("AT"))), SessionState::Awaiting);
    assert_eq!(awaiting().step(SessionEvent::Sent), SessionState::Awaiting);
    let open: SessionState<String> = SessionState::Open;
    assert_eq!(open.step(SessionEvent::ReplyLost), SessionState::Open);
}

#[test]
fn each_command_of_a_client_gets_its_own_answer() {
    let mut s: SessionState<String> = SessionState::Open;
    for (reply, told) in [
        (SessionEvent::Replied(Ok(text("1"))), reply_message(Ok("1"))),
        (SessionEvent::ReplyLost, reply_message(Err("ACTOR_GONE"))),
        (SessionEvent::Replied(Err(text("E"))), reply_message(Err("E"))),
    ] {
        s = s.step(SessionEvent::ClientText(text("AT"))).step(SessionEvent::Accepted);
        s = s.step(reply);
        assert_eq!(s.action(), SessionAction::Send { message: told });
        s = s.step(SessionEvent::Sent);
    }
    assert_eq!(s, SessionState::Open);
}
