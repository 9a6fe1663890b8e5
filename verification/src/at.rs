//! The text of an AT dialogue: what is sent to the modem, when its answer is
//! complete, and what an answer means.
use crate::text::{
    before, begins_with, blank, contains, ends_in, ends_with, find, join,
    law_standing_at, law_trim_empties_only_blank_text, law_trim_is_idempotent, lemma_before, lemma_occurs_in_part,
    lemma_occurs_in_rest, lemma_trim_end_past_blank, lemma_trim_splits, lemma_trimmed_between,
    lemma_without_absent, lemma_without_keeps, occurs, occurs_at, remove_all, starts_with, to_chars,
    to_text, trim, trim_end, trimmed, trimmed_end, white, without,
};
use vstd::prelude::*;
use vstd::string::*;

verus! {

// ---------------------------------------------------------------------------
// Requests
// ---------------------------------------------------------------------------

/// A command as it goes to the modem: as it stands where it ends a line
/// already, else with a line end in place of its trailing white space.
pub open spec fn framed(command: Seq<char>) -> Seq<char> {
    if ends_in(command, "\r\n"@) {
        command
    } else {
        trimmed_end(command) + "\r\n"@
    }
}

/// Frames a command for the modem.
pub fn frame_command(command: &str) -> (r: String)
    ensures
        r@ == framed(command@),
{
    let chars = to_chars(command);
    let line_end = to_chars("\r\n");
    if ends_with(&chars, &line_end) {
        command.to_string()
    } else {
        let mut out = to_text(trim_end(&chars));
        out.append("\r\n");
        out
    }
}

// ---------------------------------------------------------------------------
// Answers
// ---------------------------------------------------------------------------

/// The answer is complete: it holds a final result code.
pub open spec fn answered(text: Seq<char>) -> bool {
    occurs(text, "OK\r\n"@) || occurs(text, "ERROR"@)
}

/// Whether the answer is complete.
pub fn is_answered(text: &str) -> (r: bool)
    ensures
        r == answered(text@),
        r <==> {
            ||| exists|i: int|
                0 <= i && i + 4 <= text@.len() && #[trigger] text@[i] == 'O' && text@[i + 1] == 'K'
                    && text@[i + 2] == '\r' && text@[i + 3] == '\n'
            ||| exists|i: int|
                0 <= i && i + 5 <= text@.len() && #[trigger] text@[i] == 'E' && text@[i + 1] == 'R'
                    && text@[i + 2] == 'R' && text@[i + 3] == 'O' && text@[i + 4] == 'R'
        },
{
    proof {
        law_complete_answers(text@);
    }
    let chars = to_chars(text);
    let ok = to_chars("OK\r\n");
    let error = to_chars("ERROR");
    contains(&chars, &ok) || contains(&chars, &error)
}

/// What the modem's text says once keep-alive noise and the echo of the
/// command are gone: every `ping` is taken out, and where the rest begins with
/// the command its first line is dropped.
pub open spec fn response_body(echo: Seq<char>, text: Seq<char>) -> Seq<char> {
    let kept = trimmed(without(text, "ping"@));
    let k = before(kept, '\n');
    if begins_with(kept, echo) && k < kept.len() {
        trimmed(kept.skip(k + 1))
    } else {
        kept
    }
}

/// Takes keep-alive noise and the echo of the command off the modem's text.
pub fn clean_response(echo: &str, text: &str) -> (r: String)
    ensures
        r@ == response_body(echo@, text@),
{
    let chars = to_chars(text);
    let ping = to_chars("ping");
    let quiet = remove_all(&chars, &ping);
    let kept = trim(&quiet);
    let echo_chars = to_chars(echo);
    if starts_with(kept, &echo_chars) {
        let k: usize = find(kept, '\n');
        if k < kept.len() {
            let rest = vstd::slice::slice_subrange(kept, k + 1, kept.len());
            assert(rest@ == kept@.skip(k + 1));
            return to_text(trim(rest));
        }
    }
    to_text(kept)
}

/// How a round trip with the modem ended.
#[derive(Debug, PartialEq, Eq)]
pub enum Ended<T> {
    /// A final result code came.
    Answered,
    /// None came in time.
    Expired,
    /// The request could not be written in time.
    SendTimedOut,
    /// The request could not be written.
    SendFailed(T),
    /// The answer could not be read.
    ReadFailed(T),
}

impl View for Ended<String> {
    type V = Ended<Seq<char>>;

    open spec fn view(&self) -> Ended<Seq<char>> {
        match self {
            Ended::Answered => Ended::Answered,
            Ended::Expired => Ended::Expired,
            Ended::SendTimedOut => Ended::SendTimedOut,
            Ended::SendFailed(e) => Ended::SendFailed(e@),
            Ended::ReadFailed(e) => Ended::ReadFailed(e@),
        }
    }
}

/// The texts of a result.
pub open spec fn result_text(r: Result<String, String>) -> Result<Seq<char>, Seq<char>> {
    match r {
        Ok(t) => Ok(t@),
        Err(e) => Err(e@),
    }
}

/// What a client is told of its command. `echo` is the trimmed command, `text`
/// what the modem sent.
pub open spec fn command_outcome(
    echo: Seq<char>,
    text: Seq<char>,
    ended: Ended<Seq<char>>,
) -> Result<Seq<char>, Seq<char>> {
    match ended {
        Ended::SendTimedOut => Err("SEND_TIMEOUT"@),
        Ended::SendFailed(e) => Err("SEND_ERROR: "@ + e),
        Ended::ReadFailed(e) => Err("READ_ERROR: "@ + e),
        Ended::Answered | Ended::Expired => {
            let body = response_body(echo, text);
            if occurs(body, "ERROR"@) {
                Err("ERROR"@)
            } else if body.len() == 0 && ended is Expired {
                Err("TIMEOUT"@)
            } else {
                Ok(body)
            }
        },
    }
}

/// What a client is told of its command.
pub fn command_result(echo: &str, text: &str, ended: &Ended<String>) -> (r: Result<String, String>)
    ensures
        result_text(r) == command_outcome(echo@, text@, ended@),
        r matches Ok(data) ==> data@ == response_body(echo@, text@) && !occurs(data@, "ERROR"@),
        (ended is Answered || ended is Expired) && occurs(response_body(echo@, text@), "ERROR"@)
            ==> r is Err && r->Err_0@ == "ERROR"@,
{
    let expired = match ended {
        Ended::SendTimedOut => {
            return Err("SEND_TIMEOUT".to_string());
        },
        Ended::SendFailed(e) => {
            return Err(join("SEND_ERROR: ", e.as_str()));
        },
        Ended::ReadFailed(e) => {
            return Err(join("READ_ERROR: ", e.as_str()));
        },
        Ended::Answered => false,
        Ended::Expired => true,
    };
    let body = clean_response(echo, text);
    let chars = to_chars(body.as_str());
    let error = to_chars("ERROR");
    if contains(&chars, &error) {
        return Err("ERROR".to_string());
    }
    if chars.len() == 0 && expired {
        return Err("TIMEOUT".to_string());
    }
    Ok(body)
}

/// What a heartbeat found: the modem answered `OK`, or what went wrong.
pub open spec fn heartbeat_outcome(text: Seq<char>, ended: Ended<Seq<char>>) -> Result<
    (),
    Seq<char>,
> {
    match ended {
        Ended::SendTimedOut => Err("send timeout"@),
        Ended::SendFailed(e) => Err("send error: "@ + e),
        Ended::ReadFailed(e) => Err("read error: "@ + e),
        Ended::Expired => Err("heartbeat response timeout"@),
        Ended::Answered => if occurs(text, "OK\r\n"@) {
            Ok(())
        } else {
            Err("AT returned ERROR"@)
        },
    }
}

/// What a heartbeat found.
pub fn heartbeat_result(text: &str, ended: &Ended<String>) -> (r: Result<(), String>)
    ensures
        match r {
            Ok(u) => heartbeat_outcome(text@, ended@) == Ok::<(), Seq<char>>(u),
            Err(e) => heartbeat_outcome(text@, ended@) == Err::<(), Seq<char>>(e@),
        },
{
    match ended {
        Ended::SendTimedOut => Err("send timeout".to_string()),
        Ended::SendFailed(e) => Err(join("send error: ", e.as_str())),
        Ended::ReadFailed(e) => Err(join("read error: ", e.as_str())),
        Ended::Expired => Err("heartbeat response timeout".to_string()),
        Ended::Answered => {
            let chars = to_chars(text);
            let ok = to_chars("OK\r\n");
            if contains(&chars, &ok) {
                Ok(())
            } else {
                Err("AT returned ERROR".to_string())
            }
        },
    }
}

// ---------------------------------------------------------------------------
// Laws
// ---------------------------------------------------------------------------

/// A framed command ends its line, framing it again changes nothing, and it
/// trims to what the command trims to.
pub proof fn law_framing(command: Seq<char>)
    ensures
        ends_in(framed(command), "\r\n"@),
        framed(framed(command)) == framed(command),
        trimmed(framed(command)) == trimmed(command),
{
    reveal_strlit("\r\n");
    let line_end = "\r\n"@;
    let kept = trimmed_end(command);
    if !ends_in(command, line_end) {
        let n = kept.len() as int;
        assert((kept + line_end).subrange(n, n + line_end.len()) == line_end);
        let (a, b) = lemma_trim_splits(command);
        let m = trimmed(command);
        lemma_trim_end_past_blank(a + m, b);
        if m.len() > 0 {
            assert((a + m).last() == m.last());
            lemma_trimmed_between(a, m, line_end);
        } else {
            let none = Seq::<char>::empty();
            assert(none + a == a);
            assert(a + m == none + a);
            lemma_trim_end_past_blank(none, a);
            lemma_trimmed_between(none, none, line_end);
            assert(none + none + line_end == kept + line_end);
        }
    }
}

/// A client that is told of success gets a trimmed text without the word
/// `ERROR`.
pub proof fn law_success_is_clean(echo: Seq<char>, text: Seq<char>, ended: Ended<Seq<char>>)
    requires
        command_outcome(echo, text, ended) is Ok,
    ensures
        ({
            let body = command_outcome(echo, text, ended)->Ok_0;
            trimmed(body) == body && !occurs(body, "ERROR"@)
        }),
{
    let kept = trimmed(without(text, "ping"@));
    law_trim_is_idempotent(without(text, "ping"@));
    law_trim_is_idempotent(kept.skip(before(kept, '\n') + 1));
}

/// Nothing is left of a response exactly where it held only white space once
/// `ping` is taken out.
pub proof fn law_empty_response(echo: Seq<char>, text: Seq<char>)
    ensures
        response_body(echo, text).len() == 0 <==> blank(without(text, "ping"@)),
{
    let quiet = without(text, "ping"@);
    let kept = trimmed(quiet);
    let k = before(kept, '\n');
    law_trim_empties_only_blank_text(quiet);
    lemma_before(kept, '\n');
    let r = lemma_trim_splits(quiet);
    if begins_with(kept, echo) && k < kept.len() {
        let rest = kept.skip(k + 1);
        law_trim_empties_only_blank_text(rest);
        assert(white('\n'));
        assert(k + 1 < kept.len());
        assert(rest.last() == kept.last());
        assert(!blank(rest));
    }
}

/// A client is told `TIMEOUT` exactly where the time ran out with nothing
/// received but white space and keep-alive noise.
pub proof fn law_timeout(echo: Seq<char>, text: Seq<char>, ended: Ended<Seq<char>>)
    requires
        ended is Answered || ended is Expired,
    ensures
        command_outcome(echo, text, ended) == Err::<Seq<char>, Seq<char>>("TIMEOUT"@)
            <==> ended is Expired && blank(without(text, "ping"@)),
{
    law_empty_response(echo, text);
    reveal_strlit("TIMEOUT");
    reveal_strlit("ERROR");
    assert("TIMEOUT"@.len() == 7);
    assert("ERROR"@.len() == 5);
    let body = response_body(echo, text);
    if body.len() == 0 {
        assert(!occurs(body, "ERROR"@));
    }
}

/// A client is told `ERROR` only where the modem said so, keep-alive noise taken
/// out.
pub proof fn law_error_was_said(echo: Seq<char>, text: Seq<char>)
    requires
        occurs(response_body(echo, text), "ERROR"@),
    ensures
        occurs(without(text, "ping"@), "ERROR"@),
{
    let error = "ERROR"@;
    let quiet = without(text, "ping"@);
    let kept = trimmed(quiet);
    let k = before(kept, '\n');
    if begins_with(kept, echo) && k < kept.len() {
        lemma_before(kept, '\n');
        let rest = kept.skip(k + 1);
        let (a, b) = lemma_trim_splits(rest);
        lemma_occurs_in_part(a, trimmed(rest), b, error);
        let none = Seq::<char>::empty();
        lemma_occurs_in_part(kept.take(k + 1), rest, none, error);
        assert(kept.take(k + 1) + rest + none == kept);
    }
    let (a, b) = lemma_trim_splits(quiet);
    lemma_occurs_in_part(a, kept, b, error);
}

/// A client whose command the modem answered without an error is told of
/// success, and something was said.
pub proof fn law_answer_without_error_succeeds(echo: Seq<char>, text: Seq<char>)
    requires
        answered(text),
        !occurs(without(text, "ping"@), "ERROR"@),
    ensures
        command_outcome(echo, text, Ended::Answered) == Ok::<Seq<char>, Seq<char>>(
            response_body(echo, text),
        ),
        response_body(echo, text).len() > 0,
{
    law_answer_is_not_silence(echo, text);
    if occurs(response_body(echo, text), "ERROR"@) {
        law_error_was_said(echo, text);
    }
}

/// A complete answer is never taken for silence, however late it was.
pub proof fn law_answer_is_not_silence(echo: Seq<char>, text: Seq<char>)
    requires
        answered(text),
    ensures
        response_body(echo, text).len() > 0,
{
    reveal_strlit("OK\r\n");
    reveal_strlit("ERROR");
    reveal_strlit("ping");
    let pat = if occurs(text, "OK\r\n"@) {
        "OK\r\n"@
    } else {
        "ERROR"@
    };
    let i = choose|i: int| occurs_at(text, pat, i);
    let c = if occurs(text, "OK\r\n"@) {
        'O'
    } else {
        'E'
    };
    assert(text.subrange(i, i + pat.len())[0] == c);
    assert(text[i] == c);
    let quiet = without(text, "ping"@);
    lemma_without_keeps(text, "ping"@, c);
    let j = choose|j: int| 0 <= j < quiet.len() && quiet[j] == c;
    assert(!white(quiet[j]));
    law_empty_response(echo, text);
}

/// The echo of a command is taken off its response: where the modem repeats
/// the command on a line of its own and then says something, what it says is
/// left.
pub proof fn law_echo_is_removed(echo: Seq<char>, said: Seq<char>)
    requires
        echo.len() > 0,
        trimmed(echo) == echo,
        !echo.contains('\n'),
        !blank(said),
        !occurs(echo + "\r\n"@ + said, "ping"@),
    ensures
        response_body(echo, echo + "\r\n"@ + said) == trimmed(said),
{
    reveal_strlit("\r\n");
    let line_end = "\r\n"@;
    let text = echo + line_end + said;
    lemma_without_absent(text, "ping"@);
    law_trim_empties_only_blank_text(said);
    let none = Seq::<char>::empty();
    let (a, b) = lemma_trim_splits(said);
    let m = trimmed(said);
    let e = lemma_trim_splits(echo);
    let kept = echo + line_end + a + m;
    lemma_trimmed_between(none, kept, b);
    assert(none + kept + b == text);
    assert(kept.subrange(0, echo.len() as int) == echo);
    let k = before(kept, '\n');
    lemma_before(kept, '\n');
    assert(kept[echo.len() as int + 1] == '\n');
    assert(kept.contains('\n'));
    assert(k == echo.len() + 1) by {
        if k < echo.len() {
            assert(kept[k] == echo[k]);
        } else if k == echo.len() {
            assert(kept[k] == '\r');
        }
    }
    assert(kept.skip(k + 1) == a + m + none);
    lemma_trimmed_between(a, m, none);
}

/// A response that does not begin with the command is only trimmed.
pub proof fn law_plain_response(echo: Seq<char>, text: Seq<char>)
    requires
        !occurs(text, "ping"@),
        !begins_with(trimmed(text), echo),
    ensures
        response_body(echo, text) == trimmed(text),
{
    lemma_without_absent(text, "ping"@);
}

/// Keep-alive noise in the middle of a response is taken out.
pub proof fn law_ping_is_removed(head: Seq<char>, tail: Seq<char>)
    requires
        !occurs(head, "ping"@),
    ensures
        without(head + "ping"@ + tail, "ping"@) == head + without(tail, "ping"@),
    decreases head.len(),
{
    reveal_strlit("ping");
    let ping = "ping"@;
    let s = head + ping + tail;
    if head.len() == 0 {
        assert(s.subrange(0, 4) == ping);
        assert(s.skip(4) == tail);
        assert(head + without(tail, ping) == without(tail, ping));
    } else {
        let n = head.len() as int;
        assert(!begins_with(s, ping)) by {
            if begins_with(s, ping) {
                assert(s.subrange(0, 4) == ping);
                if n >= 4 {
                    assert(head.subrange(0, 4) == ping);
                    assert(occurs_at(head, ping, 0));
                } else {
                    assert(s.subrange(0, 4)[n] == s[n]);
                    assert(s[n] == 'p');
                }
            }
        }
        let rest = head.skip(1);
        assert(!occurs(rest, ping)) by {
            if occurs(rest, ping) {
                let j = choose|j: int| occurs_at(rest, ping, j);
                lemma_occurs_in_rest(head, ping, 1, j);
            }
        }
        assert(s.skip(1) == rest + ping + tail);
        law_ping_is_removed(rest, tail);
        assert(seq![s[0]] + (rest + without(tail, ping)) == head + without(tail, ping));
    }
}

/// A command that ends its line goes to the modem as it stands.
pub proof fn law_ended_commands_are_kept(command: Seq<char>)
    requires
        command.len() >= 2,
        command[command.len() - 2] == '\r',
        command[command.len() - 1] == '\n',
    ensures
        framed(command) == command,
{
    reveal_strlit("\r\n");
    let k = command.len() - 2;
    assert(command.subrange(k, k + 2) == "\r\n"@);
}

/// Any other command goes to the modem with its trailing white space taken off
/// and a carriage return and a line feed behind it.
pub proof fn law_open_commands_are_ended(command: Seq<char>, spaces: Seq<char>)
    requires
        command.len() > 0 ==> !white(command[command.len() - 1]),
        forall|i: int| 0 <= i < spaces.len() ==> white(#[trigger] spaces[i]),
        ({
            let whole = command + spaces;
            let n = whole.len();
            n >= 2 ==> !(whole[n - 2] == '\r' && whole[n - 1] == '\n')
        }),
    ensures
        framed(command + spaces) == command + seq!['\r', '\n'],
{
    reveal_strlit("\r\n");
    let whole = command + spaces;
    if ends_in(whole, "\r\n"@) {
        let part = whole.subrange(whole.len() - 2, whole.len() as int);
        assert(part[0] == '\r' && part[1] == '\n');
    }
    lemma_trim_end_past_blank(command, spaces);
    assert("\r\n"@ == seq!['\r', '\n']);
}

/// An answer is complete exactly where the letters `OK` and a line end, or the
/// letters `ERROR`, stand in it one after the other.
pub proof fn law_complete_answers(text: Seq<char>)
    ensures
        answered(text) <==> {
            ||| exists|i: int|
                0 <= i && i + 4 <= text.len() && #[trigger] text[i] == 'O' && text[i + 1] == 'K'
                    && text[i + 2] == '\r' && text[i + 3] == '\n'
            ||| exists|i: int|
                0 <= i && i + 5 <= text.len() && #[trigger] text[i] == 'E' && text[i + 1] == 'R'
                    && text[i + 2] == 'R' && text[i + 3] == 'O' && text[i + 4] == 'R'
        },
{
    law_ok_in_letters(text);
    law_error_in_letters(text);
}

/// `OK` and a line end stand in a text exactly where its letters do.
pub proof fn law_ok_in_letters(text: Seq<char>)
    ensures
        occurs(text, "OK\r\n"@) <==> exists|i: int|
            0 <= i && i + 4 <= text.len() && #[trigger] text[i] == 'O' && text[i + 1] == 'K'
                && text[i + 2] == '\r' && text[i + 3] == '\n',
{
    reveal_strlit("OK\r\n");
    let ok = "OK\r\n"@;
    if occurs(text, ok) {
        let i = choose|i: int| occurs_at(text, ok, i);
        law_standing_at(text, ok, i);
        assert(ok[0] == 'O' && ok[1] == 'K' && ok[2] == '\r' && ok[3] == '\n');
        assert(text[i] == 'O');
    }
    if exists|i: int|
        0 <= i && i + 4 <= text.len() && #[trigger] text[i] == 'O' && text[i + 1] == 'K' && text[i
            + 2] == '\r' && text[i + 3] == '\n' {
        let i = choose|i: int|
            0 <= i && i + 4 <= text.len() && #[trigger] text[i] == 'O' && text[i + 1] == 'K'
                && text[i + 2] == '\r' && text[i + 3] == '\n';
        assert(text.subrange(i, i + 4) =~= ok);
        assert(occurs_at(text, ok, i));
    }
}

/// The word `ERROR` stands in a text exactly where its letters do.
pub proof fn law_error_in_letters(text: Seq<char>)
    ensures
        occurs(text, "ERROR"@) <==> exists|i: int|
            0 <= i && i + 5 <= text.len() && #[trigger] text[i] == 'E' && text[i + 1] == 'R'
                && text[i + 2] == 'R' && text[i + 3] == 'O' && text[i + 4] == 'R',
{
    reveal_strlit("ERROR");
    let error = "ERROR"@;
    if occurs(text, error) {
        let i = choose|i: int| occurs_at(text, error, i);
        law_standing_at(text, error, i);
        assert(error[0] == 'E' && error[1] == 'R' && error[2] == 'R' && error[3] == 'O' && error[4]
            == 'R');
        assert(text[i] == 'E');
    }
    if exists|i: int|
        0 <= i && i + 5 <= text.len() && #[trigger] text[i] == 'E' && text[i + 1] == 'R' && text[i
            + 2] == 'R' && text[i + 3] == 'O' && text[i + 4] == 'R' {
        let i = choose|i: int|
            0 <= i && i + 5 <= text.len() && #[trigger] text[i] == 'E' && text[i + 1] == 'R'
                && text[i + 2] == 'R' && text[i + 3] == 'O' && text[i + 4] == 'R';
        assert(text.subrange(i, i + 5) =~= error);
        assert(occurs_at(text, error, i));
    }
}

/// A response whose text, keep-alive noise taken out, begins with the command
/// and goes on behind a line feed is what stands behind the first line feed,
/// trimmed.
pub proof fn law_first_line_goes_with_the_echo(
    echo: Seq<char>,
    text: Seq<char>,
    line: Seq<char>,
    spaces: Seq<char>,
    said: Seq<char>,
)
    requires
        trimmed(without(text, "ping"@)) == line + seq!['\n'] + spaces + said,
        begins_with(trimmed(without(text, "ping"@)), echo),
        forall|i: int| 0 <= i < line.len() ==> #[trigger] line[i] != '\n',
        forall|i: int| 0 <= i < spaces.len() ==> white(#[trigger] spaces[i]),
        said.len() > 0,
        !white(said[0]),
    ensures
        response_body(echo, text) == said,
{
    let quiet = without(text, "ping"@);
    let kept = trimmed(quiet);
    let k = before(kept, '\n');
    lemma_before(kept, '\n');
    assert(kept[line.len() as int] == '\n');
    assert(k == line.len()) by {
        if k < line.len() {
            assert(kept[k] == line[k]);
        }
    }
    let r = lemma_trim_splits(quiet);
    assert(kept.last() == said.last());
    let none = Seq::<char>::empty();
    assert(kept.skip(k + 1) == spaces + said + none);
    lemma_trimmed_between(spaces, said, none);
}

/// Any other response is the modem's text, keep-alive noise taken out and
/// trimmed, the whole of it.
pub proof fn law_other_responses_are_whole(
    echo: Seq<char>,
    text: Seq<char>,
    a: Seq<char>,
    said: Seq<char>,
    b: Seq<char>,
)
    requires
        without(text, "ping"@) == a + said + b,
        forall|i: int| 0 <= i < a.len() ==> white(#[trigger] a[i]),
        forall|i: int| 0 <= i < b.len() ==> white(#[trigger] b[i]),
        said.len() > 0 ==> !white(said[0]) && !white(said[said.len() - 1]),
        !begins_with(said, echo) || forall|i: int|
            0 <= i < said.len() ==> #[trigger] said[i] != '\n',
    ensures
        response_body(echo, text) == said,
{
    lemma_trimmed_between(a, said, b);
    lemma_before(said, '\n');
}

/// A command that the modem was given and may have answered is told as an error
/// wherever the cleaned response holds the word, on any line.
pub proof fn law_refusals_are_errors(
    echo: Seq<char>,
    text: Seq<char>,
    ended: Ended<Seq<char>>,
    i: int,
)
    requires
        ended is Answered || ended is Expired,
        0 <= i,
        i + 5 <= response_body(echo, text).len(),
        response_body(echo, text)[i] == 'E',
        response_body(echo, text)[i + 1] == 'R',
        response_body(echo, text)[i + 2] == 'R',
        response_body(echo, text)[i + 3] == 'O',
        response_body(echo, text)[i + 4] == 'R',
    ensures
        command_outcome(echo, text, ended) == Err::<Seq<char>, Seq<char>>("ERROR"@),
{
    law_error_in_letters(response_body(echo, text));
}

/// Every other command that the modem was given is told as a success, with the
/// whole cleaned response, unless the time ran out with nothing in it.
pub proof fn law_successes_are_whole(
    echo: Seq<char>,
    text: Seq<char>,
    ended: Ended<Seq<char>>,
)
    requires
        ended is Answered || ended is Expired,
        !occurs(response_body(echo, text), "ERROR"@),
    ensures
        command_outcome(echo, text, ended) == if response_body(echo, text).len() == 0
            && ended is Expired {
            Err::<Seq<char>, Seq<char>>("TIMEOUT"@)
        } else {
            Ok(response_body(echo, text))
        },
        command_outcome(echo, text, ended) matches Ok(data) ==> data == response_body(echo, text),
{
}

/// A round trip that failed is told with what went wrong, whatever had come.
pub proof fn law_failures_are_told(echo: Seq<char>, text: Seq<char>, e: Seq<char>)
    ensures
        command_outcome(echo, text, Ended::SendTimedOut) == Err::<Seq<char>, Seq<char>>(
            "SEND_TIMEOUT"@,
        ),
        command_outcome(echo, text, Ended::SendFailed(e)) == Err::<Seq<char>, Seq<char>>(
            "SEND_ERROR: "@ + e,
        ),
        command_outcome(echo, text, Ended::ReadFailed(e)) == Err::<Seq<char>, Seq<char>>(
            "READ_ERROR: "@ + e,
        ),
        heartbeat_outcome(text, Ended::SendTimedOut) == Err::<(), Seq<char>>("send timeout"@),
        heartbeat_outcome(text, Ended::SendFailed(e)) == Err::<(), Seq<char>>("send error: "@ + e),
        heartbeat_outcome(text, Ended::ReadFailed(e)) == Err::<(), Seq<char>>("read error: "@ + e),
        heartbeat_outcome(text, Ended::Expired) == Err::<(), Seq<char>>(
            "heartbeat response timeout"@,
        ),
{
}

/// A heartbeat is good exactly where it was answered and the answer holds `OK`
/// and a line end; an answer without is an error.
pub proof fn law_heartbeats(text: Seq<char>, ended: Ended<Seq<char>>)
    ensures
        heartbeat_outcome(text, ended) is Ok <==> ended is Answered && exists|i: int|
            0 <= i && i + 4 <= text.len() && #[trigger] text[i] == 'O' && text[i + 1] == 'K'
                && text[i + 2] == '\r' && text[i + 3] == '\n',
        ended is Answered && heartbeat_outcome(text, ended) is Err ==> heartbeat_outcome(text, ended)
            == Err::<(), Seq<char>>("AT returned ERROR"@),
{
    law_ok_in_letters(text);
}

/// The end of a round trip and the texts of a result are the same over strings
/// and over plain texts.
pub proof fn law_ended_view(e: Ended<String>, r: Result<String, String>)
    ensures
        match e {
            Ended::Answered => e@ == Ended::<Seq<char>>::Answered,
            Ended::Expired => e@ == Ended::<Seq<char>>::Expired,
            Ended::SendTimedOut => e@ == Ended::<Seq<char>>::SendTimedOut,
            Ended::SendFailed(t) => e@ == Ended::SendFailed(t@),
            Ended::ReadFailed(t) => e@ == Ended::ReadFailed(t@),
        },
        match r {
            Ok(t) => result_text(r) == Ok::<Seq<char>, Seq<char>>(t@),
            Err(t) => result_text(r) == Err::<Seq<char>, Seq<char>>(t@),
        },
{
}

} // verus!
