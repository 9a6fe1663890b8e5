use at_gateway::at::Ended;
use at_gateway::exchange::{Exchange, Progress, Stage};
use at_gateway::link::{is_due, read_result, Action, Event, ReadOutcome};

const MS: u128 = 1_000_000;

fn begin() -> Exchange<String> {
    Exchange::begin("AT\r\n".to_string(), 3000)
}

fn data(s: &[u8]) -> Event {
    Event::Data(s.to_vec())
}

fn pending(p: Progress<String>) -> Exchange<String> {
    match p {
        Progress::Pending(x) => x,
        Progress::Finished { text, ended } => panic!("finished: {:?} {:?}", text, ended),
    }
}

fn finished(p: Progress<String>) -> (String, Ended<String>) {
    match p {
        Progress::Pending(x) => panic!("pending: {:?}", x),
        Progress::Finished { text, ended } => (text, ended),
    }
}

fn collecting(at: u128) -> Exchange<String> {
    let x = pending(begin().step(Event::TimedOut, 0));
    pending(x.step(Event::Done, at))
}

#[test]
fn left_over_data_is_dropped_first() {
    let x = begin();
    assert_eq!(x.action(), Action::Receive { limit: Some(10) });
    let x = pending(x.step(data(b"OK\r\n"), 1));
    let x = pending(x.step(data(b"ERROR"), 2));
    assert_eq!(x, begin());
    let x = pending(x.step(data(b""), 3));
    assert_eq!(x.action(), Action::Send { data: "AT\r\n".to_string(), limit_ms: 5000 });
    let x = pending(x.step(Event::Done, 4));
    assert_eq!(x.stage, Stage::Collecting { text: String::new(), started: 4 });
    assert_eq!(x.action(), Action::Receive { limit: Some(50) });
}

#[test]
fn draining_ends_with_an_error_too() {
    let x = pending(begin().step(Event::Failed("gone".to_string()), 1));
    assert_eq!(x.stage, Stage::Sending);
}

#[test]
fn an_answer_is_gathered_in_pieces() {
    let x = collecting(0);
    let x = pending(x.step(data(b"\r\nO"), 10 * MS));
    let x = pending(x.step(Event::TimedOut, 60 * MS));
    let x = pending(x.step(data(b"K\r"), 70 * MS));
    let (text, ended) = finished(x.step(data(b"\n"), 80 * MS));
    assert_eq!(text, "\r\nOK\r\n");
    assert_eq!(ended, Ended::Answered);
}

#[test]
fn an_answer_at_the_deadline_counts() {
    let (text, ended) = finished(collecting(0).step(data(b"ERROR"), 9000 * MS));
    assert_eq!(text, "ERROR");
    assert_eq!(ended, Ended::Answered);
}

#[test]
fn time_runs_out_after_the_limit() {
    let x = pending(collecting(MS).step(Event::TimedOut, 3001 * MS - 1));
    let (text, ended) = finished(x.step(data(b"half"), 3001 * MS));
    assert_eq!(text, "half");
    assert_eq!(ended, Ended::Expired);
    let (text, ended) = finished(collecting(MS).step(data(b""), 3001 * MS));
    assert_eq!(text, "");
    assert_eq!(ended, Ended::Expired);
}

#[test]
fn failures_end_a_round_trip() {
    let sending = pending(begin().step(Event::TimedOut, 0));
    let (_, ended) = finished(sending.step(Event::TimedOut, 1));
    assert_eq!(ended, Ended::SendTimedOut);
    let sending = pending(begin().step(Event::TimedOut, 0));
    let (_, ended) = finished(sending.step(Event::Failed("no".to_string()), 1));
    assert_eq!(ended, Ended::SendFailed("no".to_string()));
    let x = pending(collecting(0).step(data(b"part"), 1));
    let (text, ended) = finished(x.step(Event::Failed("reset".to_string()), 2));
    assert_eq!(text, "part");
    assert_eq!(ended, Ended::ReadFailed("reset".to_string()));
}

#[test]
fn each_piece_is_decoded_on_its_own() {
    let x = collecting(0);
    let x = pending(x.step(data(&[0xe4, 0xbd, 0xa0]), 1));
    let x = pending(x.step(data(&[0xff, b'a']), 2));
    assert_eq!(x.stage, Stage::Collecting { text: "\u{4f60}\u{fffd}a".to_string(), started: 0 });
    let split = pending(collecting(0).step(data(&[0xe4, 0xbd]), 1));
    let split = pending(split.step(data(&[0xa0]), 2));
    assert_eq!(
        split.stage,
        Stage::Collecting { text: "\u{fffd}\u{fffd}".to_string(), started: 0 }
    );
}

#[test]
fn other_events_change_nothing() {
    assert_eq!(pending(begin().step(Event::Done, 1)), begin());
    assert_eq!(pending(collecting(5).step(Event::NoCommand, 9)), collecting(5));
    assert_eq!(pending(begin().take_text("OK\r\n", 1)), begin());
    assert_eq!(pending(begin().take_silence(u128::MAX)), begin());
}

#[test]
fn time_does_not_run_backwards() {
    assert!(is_due(0, 30_000 * MS, 30_000));
    assert!(!is_due(0, 30_000 * MS - 1, 30_000));
    assert!(!is_due(10, 5, 1));
    assert!(is_due(10, 5, 0));
}

#[test]
fn a_read_gives_the_filled_part() {
    let buffer = vec![1u8, 2, 3, 0, 0];
    assert_eq!(read_result(buffer.clone(), ReadOutcome::Read(3)), Ok(vec![1, 2, 3]));
    assert_eq!(read_result(buffer.clone(), ReadOutcome::Read(0)), Ok(vec![]));
    assert_eq!(read_result(buffer.clone(), ReadOutcome::Read(9)), Ok(buffer.clone()));
    assert_eq!(read_result(buffer.clone(), ReadOutcome::TimedOut), Ok(vec![]));
    assert_eq!(
        read_result(buffer, ReadOutcome::Failed("reset".to_string())),
        Err("reset".to_string())
    );
}
