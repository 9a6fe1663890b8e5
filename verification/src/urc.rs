//! Unsolicited result codes: the lines that a modem sends on its own accord and
//! that every client is told of.
use crate::text::{
    ascii_lower, contains, contains_char, law_last_line, law_line_feeds_end_lines, law_standing_at,
    law_trim_takes_the_ends_off, lemma_contains_between, lemma_occurs_between, lemma_padding, lines,
    lines_of, lowercase_text, occurs, occurs_at, padded_as, to_chars, to_lower, trimmed, white,
};
use vstd::prelude::*;
use vstd::utf8::*;

verus! {

/// A line, given with its lower-case form, is a notification: it holds one of
/// the marks of a result code and is not keep-alive noise.
pub open spec fn notifies(line: Seq<char>, lower: Seq<char>) -> bool {
    &&& line.contains('^') || line.contains('+')
    &&& !occurs(lower, "ping"@)
}

/// The line is a notification.
pub open spec fn notification(line: Seq<char>) -> bool {
    notifies(line, lowercase_text(line))
}

/// The line, trimmed, is not empty and is a notification.
pub open spec fn notification_once_trimmed(line: Seq<char>) -> bool {
    trimmed(line).len() > 0 && notification(trimmed(line))
}

/// The notifications in a text: the lines that are one, as they stand and in
/// their order.
pub open spec fn notifications(text: Seq<char>) -> Seq<Seq<char>> {
    lines_of(text).filter(|line: Seq<char>| notification(line))
}

/// The lines of a text that are a notification once they are trimmed, as they
/// stand and in their order.
pub open spec fn notifications_once_trimmed(text: Seq<char>) -> Seq<Seq<char>> {
    lines_of(text).filter(|line: Seq<char>| notification_once_trimmed(line))
}

/// White space around a line has no part in whether it is a notification, where
/// it has none in how the line is lowered.
proof fn lemma_trimming_does_not_matter(line: Seq<char>)
    requires
        lowercase_text(line) == padded_as(line, lowercase_text(trimmed(line))),
    ensures
        notification(line) == notification_once_trimmed(line),
{
    reveal_strlit("ping");
    let lower = lowercase_text(trimmed(line));
    let r = lemma_padding(line, lower);
    lemma_contains_between(r.0, trimmed(line), r.1, '^');
    lemma_contains_between(r.0, trimmed(line), r.1, '+');
    lemma_occurs_between(r.0, lower, r.1, "ping"@);
}

/// Whether a line, given with its lower-case form, is a notification.
pub fn notifies_client(line: &str, lower: &str) -> (r: bool)
    ensures
        r == notifies(line@, lower@),
{
    let chars = to_chars(line);
    let lower_chars = to_chars(lower);
    let ping = to_chars("ping");
    (contains_char(&chars, '^') || contains_char(&chars, '+')) && !contains(&lower_chars, &ping)
}

/// Whether a line is a notification. White space around it does not matter, and
/// on an ASCII line neither does the case of `ping`.
pub fn is_notification(line: &str) -> (r: bool)
    ensures
        r == notification(line@),
        r == notification_once_trimmed(line@),
        is_ascii_chars(line@) ==> r == notifies(
            line@,
            line@.map_values(|c: char| ascii_lower(c)),
        ),
{
    let lower = to_lower(line);
    proof {
        lemma_trimming_does_not_matter(line@);
    }
    notifies_client(line, lower.as_str())
}

/// The notifications in a text. White space around the lines does not matter.
pub fn find_notifications(text: &str) -> (r: Vec<String>)
    ensures
        r.deep_view() == notifications(text@),
        r.deep_view() == notifications_once_trimmed(text@),
{
    let chars = to_chars(text);
    let all = lines(&chars);
    let ghost found = |line: Seq<char>| notification(line);
    let ghost once_trimmed = |line: Seq<char>| notification_once_trimmed(line);
    let ghost every = all.deep_view();
    let mut out: Vec<String> = Vec::new();
    reveal(Seq::filter);
    assert(every.take(0).filter(found) == Seq::<Seq<char>>::empty());
    assert(every.take(0).filter(once_trimmed) == Seq::<Seq<char>>::empty());
    for i in 0..all.len()
        invariant
            every == all.deep_view(),
            found == (|line: Seq<char>| notification(line)),
            once_trimmed == (|line: Seq<char>| notification_once_trimmed(line)),
            out.deep_view() == every.take(i as int).filter(found),
            out.deep_view() == every.take(i as int).filter(once_trimmed),
    {
        let ghost done = out.deep_view();
        assert(every[i as int] == all[i as int]@);
        assert(every.take(i + 1) == every.take(i as int).push(every[i as int]));
        assert(every.take(i + 1).drop_last() == every.take(i as int));
        reveal(Seq::filter);
        if is_notification(all[i].as_str()) {
            out.push(all[i].clone());
            assert(out.deep_view() == done.push(every[i as int]));
        }
    }
    assert(every.take(all.len() as int) == every);
    out
}

/// Every notification is a line of the text with a mark of a result code, and
/// every line that is a notification is among them.
pub proof fn law_notifications_are_marked_lines(text: Seq<char>)
    ensures
        forall|i: int|
            0 <= i < notifications(text).len() ==> {
                let line = #[trigger] notifications(text)[i];
                &&& lines_of(text).contains(line)
                &&& line.contains('^') || line.contains('+')
                &&& !occurs(lowercase_text(line), "ping"@)
            },
        forall|i: int|
            0 <= i < lines_of(text).len() && notification(lines_of(text)[i])
                ==> #[trigger] notifications(text).contains(lines_of(text)[i]),
{
    let found = |line: Seq<char>| notification(line);
    assert forall|i: int| 0 <= i < notifications(text).len() implies {
        let line = #[trigger] notifications(text)[i];
        &&& lines_of(text).contains(line)
        &&& line.contains('^') || line.contains('+')
        &&& !occurs(lowercase_text(line), "ping"@)
    } by {
        let line = notifications(text)[i];
        lines_of(text).lemma_filter_pred(found, i);
        assert(notifications(text).contains(line));
        lines_of(text).lemma_filter_contains_rev(found, line);
    }
    assert forall|i: int|
        0 <= i < lines_of(text).len() && notification(
            lines_of(text)[i],
        ) implies #[trigger] notifications(text).contains(lines_of(text)[i]) by {
        lines_of(text).lemma_filter_contains(found, i);
    }
}

/// A line is a notification exactly where it holds a `^` or a `+` and its
/// lower-case form nowhere has the letters `ping` one after the other.
pub proof fn law_notification_in_letters(line: Seq<char>, lower: Seq<char>)
    requires
        lower == lowercase_text(line),
    ensures
        notification(line) <==> {
            &&& exists|i: int|
                0 <= i < line.len() && (#[trigger] line[i] == '^' || line[i] == '+')
            &&& forall|i: int|
                0 <= i && i + 4 <= lower.len() && #[trigger] lower[i] == 'p' ==> !(lower[i + 1]
                    == 'i' && lower[i + 2] == 'n' && lower[i + 3] == 'g')
        },
{
    law_notifies_in_letters(line, lower);
}

/// What decides on a line, given with its lower-case form, are its marks and the
/// letters `ping`.
pub proof fn law_notifies_in_letters(line: Seq<char>, lower: Seq<char>)
    ensures
        notifies(line, lower) <==> {
            &&& exists|i: int|
                0 <= i < line.len() && (#[trigger] line[i] == '^' || line[i] == '+')
            &&& forall|i: int|
                0 <= i && i + 4 <= lower.len() && #[trigger] lower[i] == 'p' ==> !(lower[i + 1]
                    == 'i' && lower[i + 2] == 'n' && lower[i + 3] == 'g')
        },
{
    reveal_strlit("ping");
    let ping = "ping"@;
    if occurs(lower, ping) {
        let i = choose|i: int| occurs_at(lower, ping, i);
        law_standing_at(lower, ping, i);
        assert(ping[0] == 'p' && ping[1] == 'i' && ping[2] == 'n' && ping[3] == 'g');
        assert(lower[i] == 'p');
    } else {
        assert forall|i: int|
            0 <= i && i + 4 <= lower.len() && #[trigger] lower[i] == 'p' implies !(lower[i + 1]
            == 'i' && lower[i + 2] == 'n' && lower[i + 3] == 'g') by {
            if lower[i + 1] == 'i' && lower[i + 2] == 'n' && lower[i + 3] == 'g' {
                assert(lower.subrange(i, i + 4) =~= ping);
                assert(occurs_at(lower, ping, i));
            }
        }
    }
    if exists|i: int| 0 <= i < line.len() && (#[trigger] line[i] == '^' || line[i] == '+') {
        let i = choose|i: int| 0 <= i < line.len() && (#[trigger] line[i] == '^' || line[i] == '+');
        assert(line.contains(line[i]));
    }
}

/// A line is a notification once it is trimmed exactly where something is left
/// of it that is one.
pub proof fn law_notification_between_blanks(a: Seq<char>, line: Seq<char>, b: Seq<char>)
    requires
        forall|i: int| 0 <= i < a.len() ==> white(#[trigger] a[i]),
        forall|i: int| 0 <= i < b.len() ==> white(#[trigger] b[i]),
        line.len() > 0 ==> !white(line[0]) && !white(line[line.len() - 1]),
    ensures
        notification_once_trimmed(a + line + b) <==> line.len() > 0 && notification(line),
{
    law_trim_takes_the_ends_off(a, line, b);
}

/// The notifications in a text are told line by line: the first line comes
/// first, whole, where it is one, and the others follow.
pub proof fn law_notifications_line_by_line(line: Seq<char>, rest: Seq<char>)
    requires
        forall|i: int| 0 <= i < line.len() ==> #[trigger] line[i] != '\n',
    ensures
        ({
            let first = if notification(line) {
                seq![line]
            } else {
                seq![]
            };
            &&& notifications(line + seq!['\r', '\n'] + rest) == first + notifications(rest)
            &&& line.len() == 0 || line[line.len() - 1] != '\r' ==> notifications(
                line + seq!['\n'] + rest,
            ) == first + notifications(rest)
            &&& line.len() > 0 ==> notifications(line) == first
            &&& line.len() == 0 ==> notifications(line).len() == 0
        }),
{
    law_line_feeds_end_lines(line, rest);
    law_last_line(line);
    let found = |line: Seq<char>| notification(line);
    lemma_filter_one_more(line, lines_of(rest), found);
    lemma_filter_one_more(line, Seq::empty(), found);
    reveal(Seq::filter);
    assert(seq![line] + Seq::<Seq<char>>::empty() == seq![line]);
    assert(Seq::<Seq<char>>::empty().filter(found) == Seq::<Seq<char>>::empty());
}

/// Filtering looks at one line after the other.
proof fn lemma_filter_one_more(
    line: Seq<char>,
    rest: Seq<Seq<char>>,
    found: spec_fn(Seq<char>) -> bool,
)
    ensures
        (seq![line] + rest).filter(found) == if found(line) {
            seq![line] + rest.filter(found)
        } else {
            rest.filter(found)
        },
    decreases rest.len(),
{
    reveal(Seq::filter);
    let all = seq![line] + rest;
    if rest.len() == 0 {
        assert(all.drop_last() == Seq::<Seq<char>>::empty());
        assert(all.drop_last().filter(found) == Seq::<Seq<char>>::empty());
        assert(rest.filter(found) == Seq::<Seq<char>>::empty());
        assert(all.last() == line);
    } else {
        assert(all.drop_last() == seq![line] + rest.drop_last());
        assert(all.last() == rest.last());
        lemma_filter_one_more(line, rest.drop_last(), found);
        let fewer = rest.drop_last().filter(found);
        assert((seq![line] + fewer).push(rest.last()) == seq![line] + fewer.push(rest.last()));
    }
}

} // verus!
