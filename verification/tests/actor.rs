use at_gateway::actor::{init_command, ConnectionActor};
use at_gateway::link::{Action, Event};

const MS: u128 = 1_000_000;

fn data(s: &str) -> Event {
    Event::Data(s.as_bytes().to_vec())
}

fn send(s: &str) -> Action<String> {
    Action::Send { data: s.to_string(), limit_ms: 5000 }
}

/// Carries one round trip out with the given answer, and checks the request.
fn answer(actor: ConnectionActor, request: &str, said: &str, now: u128) -> ConnectionActor {
    assert_eq!(actor.action(), Action::Receive { limit: Some(10) });
    let actor = actor.step(Event::TimedOut, now);
    assert_eq!(actor.action(), send(request));
    let actor = actor.step(Event::Done, now);
    assert_eq!(actor.action(), Action::Receive { limit: Some(50) });
    actor.step(data(said), now)
}

/// An actor whose modem is set up.
fn ready(now: u128) -> ConnectionActor {
    let mut actor = ConnectionActor::new(now).step(Event::Done, now);
    for request in ["ATE0\r\n", "AT+CNMI=2,1,0,2,0\r\n", "AT+CMGF=0\r\n", "AT+CLIP=1\r\n"] {
        actor = answer(actor, request, "OK\r\n", now);
    }
    assert_eq!(actor.action(), Action::Poll);
    actor
}

fn listening(now: u128) -> ConnectionActor {
    let actor = ready(now).step(Event::NoCommand, now);
    assert_eq!(actor.action(), Action::Receive { limit: None });
    actor
}

/// One round of listening in silence, with a heartbeat that gets no answer.
fn failed_heartbeat(actor: ConnectionActor, now: u128) -> ConnectionActor {
    let actor = actor.step(Event::NoCommand, now).step(data(""), now);
    answer(actor, "AT\r\n", "ERROR", now)
}

#[test]
fn a_connection_is_tried_again_after_a_pause() {
    let actor = ConnectionActor::new(0);
    assert_eq!(actor.action(), Action::Connect { limit_ms: 10000 });
    assert!(!actor.is_connected());
    let actor = actor.step(Event::Failed("refused".to_string()), 1);
    assert_eq!(actor.action(), Action::Pause { ms: 5000 });
    let actor = actor.step(Event::Done, 2).step(Event::TimedOut, 3);
    assert_eq!(actor.action(), Action::Pause { ms: 5000 });
    let actor = actor.step(Event::Done, 4);
    assert_eq!(actor.action(), Action::Connect { limit_ms: 10000 });
    assert!(actor.step(Event::Done, 5).is_connected());
}

#[test]
fn the_modem_is_set_up_before_commands() {
    assert!(ready(0).is_connected());
    assert_eq!(init_command(0), "ATE0");
    assert_eq!(init_command(1), "AT+CNMI=2,1,0,2,0");
    assert_eq!(init_command(2), "AT+CMGF=0");
    assert_eq!(init_command(3), "AT+CLIP=1");
}

#[test]
fn the_set_up_goes_on_after_failures() {
    let mut actor = ConnectionActor::new(0).step(Event::Done, 0);
    for _ in 0..4 {
        actor = actor.step(Event::TimedOut, 1).step(Event::Failed("no".to_string()), 2);
    }
    assert_eq!(actor.action(), Action::Poll);
}

#[test]
fn a_command_is_carried_out_and_answered() {
    let actor = ready(0).step(Event::Command(" AT+CSQ".to_string()), 1);
    let actor = answer(actor, " AT+CSQ\r\n", "AT+CSQ\r\n+CSQ: 20\r\nOK\r\n", 2);
    assert_eq!(actor.action(), Action::Reply { outcome: Ok("+CSQ: 20\r\nOK".to_string()) });
    let actor = actor.step(Event::Done, 3);
    assert_eq!(actor.action(), Action::Poll);
}

#[test]
fn a_silent_modem_gives_a_timeout() {
    let actor = ready(0).step(Event::Command("AT".to_string()), 0);
    let actor = actor.step(data("left over OK\r\n"), 0).step(data(""), 0).step(Event::Done, 0);
    let actor = actor.step(Event::TimedOut, 2999 * MS);
    assert_eq!(actor.action(), Action::Receive { limit: Some(50) });
    let actor = actor.step(Event::TimedOut, 3000 * MS);
    assert_eq!(actor.action(), Action::Reply { outcome: Err("TIMEOUT".to_string()) });
}

#[test]
fn commands_go_on_until_none_waits() {
    let mut actor = ready(0);
    for n in 0..3 {
        let command = format!("AT+N={}", n);
        actor = actor.step(Event::Command(command.clone()), 1);
        actor = answer(actor, &format!("{}\r\n", command), "ERROR", 1);
        assert_eq!(actor.action(), Action::Reply { outcome: Err("ERROR".to_string()) });
        actor = actor.step(Event::Done, 1);
    }
    assert_eq!(actor.step(Event::NoCommand, 2).action(), Action::Receive { limit: None });
}

#[test]
fn notifications_are_broadcast_in_order() {
    let actor = listening(0).step(data("+A: 1\r\nOK\r\n ^B \r\nping+\r\n"), 1);
    assert_eq!(actor.action(), Action::Broadcast { line: "+A: 1".to_string() });
    let actor = actor.step(Event::Done, 2);
    assert_eq!(actor.action(), Action::Broadcast { line: " ^B ".to_string() });
    assert_eq!(actor.step(Event::Done, 3).action(), Action::Poll);
}

#[test]
fn text_without_notifications_is_dropped() {
    assert_eq!(listening(0).step(data("RING\r\n"), 1).action(), Action::Poll);
    assert_eq!(listening(0).hear("RING\r\n", 1).action(), Action::Poll);
    assert_eq!(
        listening(0).hear("+X", 1).action(),
        Action::Broadcast { line: "+X".to_string() }
    );
    assert_eq!(ready(0).hear("+X", 1).action(), Action::Poll);
}

#[test]
fn a_read_error_resets_the_connection() {
    let actor = listening(0).step(Event::Failed("reset".to_string()), 1);
    assert_eq!(actor.action(), Action::Reset { pause_ms: 5000 });
    assert!(!actor.is_connected());
    let actor = actor.step(Event::Done, 2);
    assert_eq!(actor.action(), Action::Connect { limit_ms: 10000 });
}

#[test]
fn a_heartbeat_waits_for_its_interval() {
    assert_eq!(listening(0).step(Event::TimedOut, 30000 * MS - 1).action(), Action::Poll);
    let actor = listening(0).step(Event::TimedOut, 30000 * MS);
    let actor = answer(actor, "AT\r\n", "\r\nOK\r\n", 30001 * MS);
    assert_eq!(actor.action(), Action::Poll);
    assert_eq!(actor.heartbeat_failures(), 0);
    let actor = actor.step(Event::NoCommand, 0).step(data(""), 60000 * MS);
    assert_eq!(actor.action(), Action::Poll);
    let actor = actor.step(Event::NoCommand, 0).step(data(""), 60001 * MS);
    assert_eq!(actor.action(), Action::Receive { limit: Some(10) });
}

#[test]
fn failed_heartbeats_are_counted_and_forgotten() {
    let actor = failed_heartbeat(ready(0), 30000 * MS);
    let actor = failed_heartbeat(actor, 60000 * MS);
    assert_eq!(actor.heartbeat_failures(), 2);
    assert_eq!(actor.heartbeat_error(), Some("AT returned ERROR".to_string()));
    let actor = actor.step(Event::NoCommand, 0).step(data(""), 90000 * MS);
    let actor = answer(actor, "AT\r\n", "OK\r\n", 90000 * MS);
    assert_eq!(actor.heartbeat_failures(), 0);
    assert_eq!(actor.heartbeat_error(), None);
}

#[test]
fn the_error_of_the_last_failed_heartbeat_is_kept() {
    let actor = ready(0);
    assert_eq!(actor.heartbeat_error(), None);
    let actor = failed_heartbeat(actor, 30000 * MS);
    let actor = actor.step(Event::NoCommand, 0).step(data(""), 60000 * MS);
    let actor = actor.step(Event::TimedOut, 60000 * MS);
    let actor = actor.step(Event::Failed("gone".to_string()), 60000 * MS);
    assert_eq!(actor.heartbeat_failures(), 2);
    assert_eq!(actor.heartbeat_error(), Some("send error: gone".to_string()));
}

#[test]
fn each_answer_belongs_to_its_command() {
    let mut actor = ready(0);
    for (command, said, told) in [
        ("AT+A", "+A: 1\r\nOK\r\n", Ok("+A: 1\r\nOK".to_string())),
        ("AT+B", "ERROR\r\n", Err("ERROR".to_string())),
    ] {
        actor = actor.step(Event::Command(command.to_string()), 1);
        let request = format!("{}\r\n", command);
        actor = answer(actor, &request, said, 2);
        assert_eq!(actor.action(), Action::Reply { outcome: told });
        actor = actor.step(Event::Done, 3);
        assert_eq!(actor.action(), Action::Poll);
    }
}

#[test]
fn the_connection_is_given_up_at_the_limit() {
    let mut actor = ready(0);
    for n in 1..=3u32 {
        actor = failed_heartbeat(actor, u128::from(n) * 30000 * MS);
        assert_eq!(actor.heartbeat_failures(), n);
    }
    let actor = actor.step(Event::NoCommand, 0).step(data("+LAST\r\n"), 90001 * MS);
    assert_eq!(actor.action(), Action::Broadcast { line: "+LAST".to_string() });
    let actor = actor.step(Event::Done, 90002 * MS);
    assert_eq!(actor.action(), Action::Reset { pause_ms: 5000 });
    assert_eq!(actor.heartbeat_failures(), 3);
    let actor = actor.step(Event::Done, 95002 * MS).step(Event::Done, 95003 * MS);
    assert_eq!(actor.heartbeat_failures(), 0);
}

#[test]
fn the_actor_stops_when_no_command_can_come() {
    let actor = ready(0).step(Event::Closed, 1);
    assert_eq!(actor.action(), Action::Stop);
    assert_eq!(actor.step(Event::Done, 2).action(), Action::Stop);
}

#[test]
fn answers_to_nothing_are_ignored() {
    assert_eq!(ready(0).step(Event::Done, 1).action(), Action::Poll);
    assert_eq!(ready(0).step(data("+X"), 1).action(), Action::Poll);
    assert_eq!(
        ConnectionActor::new(0).step(Event::NoCommand, 1).action(),
        Action::Connect { limit_ms: 10000 }
    );
}

#[test]
fn exactly_the_marked_lines_are_passed_on() {
    let mut actor = listening(0).step(data("+A\r\nRING\n  ^b \n+PiNg\n\n+A\n"), 1);
    let mut lines = Vec::new();
    while let Action::Broadcast { line } = actor.action() {
        lines.push(line);
        actor = actor.step(Event::Done, 2);
    }
    assert_eq!(lines, vec!["+A".to_string(), "  ^b ".to_string(), "+A".to_string()]);
    assert_eq!(actor.action(), Action::Poll);
}

#[test]
fn the_actor_stops_only_where_it_looks_for_a_command() {
    let actor = listening(0).step(Event::Closed, 1);
    assert_eq!(actor.action(), Action::Receive { limit: None });
    let actor = actor.step(data(""), 2);
    assert_eq!(actor.step(Event::Closed, 3).action(), Action::Stop);
}
