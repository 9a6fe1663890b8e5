use at_gateway::at::{
    clean_response, command_result, frame_command, heartbeat_result, is_answered, Ended,
};

fn ok(s: &str) -> Result<String, String> {
    Ok(s.to_string())
}

fn err(s: &str) -> Result<String, String> {
    Err(s.to_string())
}

#[test]
fn a_command_gets_a_line_end() {
    assert_eq!(frame_command("AT"), "AT\r\n");
    assert_eq!(frame_command("AT \n"), "AT\r\n");
    assert_eq!(frame_command(" AT\t"), " AT\r\n");
    assert_eq!(frame_command(""), "\r\n");
}

#[test]
fn a_command_that_ends_its_line_is_kept() {
    assert_eq!(frame_command("AT\r\n"), "AT\r\n");
    assert_eq!(frame_command("AT \r\n"), "AT \r\n");
    let once = frame_command("AT+CSQ  ");
    assert_eq!(frame_command(&once), once);
    assert_eq!(once.trim(), "AT+CSQ");
}

#[test]
fn an_answer_is_complete_with_a_result_code() {
    assert!(is_answered("\r\nOK\r\n"));
    assert!(is_answered("+CME ERROR: 3"));
    assert!(!is_answered("OK"));
    assert!(!is_answered("OK\r"));
    assert!(!is_answered("ERRO"));
    assert!(!is_answered(""));
}

#[test]
fn the_echo_is_taken_off() {
    assert_eq!(
        clean_response("AT+CSQ", "AT+CSQ\r\n\r\n+CSQ: 20,99\r\n\r\nOK\r\n"),
        "+CSQ: 20,99\r\n\r\nOK"
    );
    assert_eq!(clean_response("AT", "\r\nAT\r\nOK\r\n"), "OK");
}

#[test]
fn an_echo_alone_is_kept() {
    assert_eq!(clean_response("AT", "AT\r\n"), "AT");
}

#[test]
fn a_response_without_an_echo_is_trimmed() {
    assert_eq!(clean_response("AT+CSQ", "\r\n+CSQ: 20,99\r\n"), "+CSQ: 20,99");
}

#[test]
fn a_blank_command_costs_the_first_line() {
    assert_eq!(clean_response("", "one\r\ntwo\r\n"), "two");
}

#[test]
fn keep_alive_noise_is_taken_out() {
    assert_eq!(clean_response("AT", "pingAT\r\npingOK\r\nping"), "OK");
    assert_eq!(clean_response("AT", "pipingng"), "ping");
    assert_eq!(clean_response("AT", "PING"), "PING");
}

#[test]
fn a_success_is_told_with_what_was_said() {
    assert_eq!(command_result("ATE0", "ATE0\r\nOK\r\n", &Ended::Answered), ok("OK"));
    assert_eq!(command_result("ATI", "Modem\r\n", &Ended::Expired), ok("Modem"));
    assert_eq!(command_result("ATI", "", &Ended::Answered), ok(""));
}

#[test]
fn an_error_is_told_by_its_word() {
    assert_eq!(command_result("AT+X", "AT+X\r\n+CME ERROR: 3\r\n", &Ended::Answered), err("ERROR"));
    assert_eq!(command_result("AT+X", "ERpingROR", &Ended::Expired), err("ERROR"));
}

#[test]
fn an_error_in_the_echo_does_not_count() {
    assert_eq!(command_result("AT=ERROR", "AT=ERROR\r\nfine\r\n", &Ended::Answered), ok("fine"));
}

#[test]
fn silence_is_told_as_a_timeout() {
    assert_eq!(command_result("AT", "", &Ended::Expired), err("TIMEOUT"));
    assert_eq!(command_result("AT", " ping\r\nping ", &Ended::Expired), err("TIMEOUT"));
}

#[test]
fn failures_of_the_connection_are_told() {
    assert_eq!(command_result("AT", "", &Ended::SendTimedOut), err("SEND_TIMEOUT"));
    assert_eq!(
        command_result("AT", "", &Ended::SendFailed("Disconnected".to_string())),
        err("SEND_ERROR: Disconnected")
    );
    assert_eq!(
        command_result("AT", "OK", &Ended::ReadFailed("reset".to_string())),
        err("READ_ERROR: reset")
    );
}

#[test]
fn a_heartbeat_wants_ok() {
    assert_eq!(heartbeat_result("\r\nOK\r\n", &Ended::Answered), Ok(()));
    assert_eq!(heartbeat_result("ERROR OK\r\n", &Ended::Answered), Ok(()));
    assert_eq!(heartbeat_result("ERROR", &Ended::Answered), Err("AT returned ERROR".to_string()));
    assert_eq!(heartbeat_result("", &Ended::Expired), Err("heartbeat response timeout".to_string()));
    assert_eq!(heartbeat_result("", &Ended::SendTimedOut), Err("send timeout".to_string()));
    assert_eq!(
        heartbeat_result("", &Ended::SendFailed("x".to_string())),
        Err("send error: x".to_string())
    );
    assert_eq!(
        heartbeat_result("", &Ended::ReadFailed("y".to_string())),
        Err("read error: y".to_string())
    );
}
