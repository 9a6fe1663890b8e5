//! The messages that a client gets, as JSON text.
use vstd::prelude::*;

verus! {

/// The type of errors of the JSON serializer.
#[verifier::external_type_specification]
#[verifier::external_body]
pub struct ExJsonError(serde_json::Error);

/// The JSON text of an object with the given members: first those that hold a
/// string or null, then those that hold a Boolean.
pub uninterp spec fn object_text(
    texts: Seq<(Seq<char>, Option<Seq<char>>)>,
    flags: Seq<(Seq<char>, bool)>,
) -> Seq<char>;

/// Calls `serde_json::to_string` on the object with the given members. It
/// succeeds, since neither the keys nor the values can be refused and the text
/// is written to memory, and its result depends on the members alone. The text
/// itself (the order of the members, how strings are quoted) is not stated.
#[verifier::external_body]
fn object_to_string(
    texts: Vec<(String, Option<String>)>,
    flags: Vec<(String, bool)>,
) -> (r: Result<String, serde_json::Error>)
    ensures
        r is Ok,
        r->Ok_0@ == object_text(texts.deep_view(), flags.deep_view()),
{
    let mut object = serde_json::Map::new();
    object.extend(texts.into_iter().map(|(key, value)| (key, serde_json::Value::from(value))));
    object.extend(flags.into_iter().map(|(key, value)| (key, serde_json::Value::from(value))));
    serde_json::to_string(&serde_json::Value::Object(object))
}

/// What a client is told of a notification.
pub open spec fn notification_text(line: Seq<char>) -> Seq<char> {
    object_text(seq![("type"@, Some("raw_data"@)), ("data"@, Some(line))], seq![])
}

/// What a client is told of its command.
pub open spec fn reply_text(outcome: Result<Seq<char>, Seq<char>>) -> Seq<char> {
    match outcome {
        Ok(data) => object_text(
            seq![("data"@, Some(data)), ("error"@, None)],
            seq![("success"@, true)],
        ),
        Err(error) => object_text(
            seq![("data"@, None), ("error"@, Some(error))],
            seq![("success"@, false)],
        ),
    }
}

/// The message that tells a client of a notification.
pub fn notification_message(line: &str) -> (r: String)
    ensures
        r@ == notification_text(line@),
        r@ == object_text(
            seq![("type"@, Some("raw_data"@)), ("data"@, Some(line@))],
            seq![],
        ),
{
    let mut texts: Vec<(String, Option<String>)> = Vec::new();
    texts.push(("type".to_string(), Some("raw_data".to_string())));
    texts.push(("data".to_string(), Some(line.to_string())));
    let flags: Vec<(String, bool)> = Vec::new();
    assert(texts.deep_view() == seq![("type"@, Some("raw_data"@)), ("data"@, Some(line@))]);
    assert(flags.deep_view() == Seq::<(Seq<char>, bool)>::empty());
    object_to_string(texts, flags).unwrap()
}

/// The message that tells a client how its command went.
pub fn reply_message(outcome: Result<&str, &str>) -> (r: String)
    ensures
        r@ == reply_text(
            match outcome {
                Ok(data) => Ok(data@),
                Err(error) => Err(error@),
            },
        ),
        outcome matches Ok(data) ==> r@ == object_text(
            seq![("data"@, Some(data@)), ("error"@, None)],
            seq![("success"@, true)],
        ),
        outcome matches Err(error) ==> r@ == object_text(
            seq![("data"@, None), ("error"@, Some(error@))],
            seq![("success"@, false)],
        ),
{
    let (success, data, error) = match outcome {
        Ok(data) => (true, Some(data.to_string()), None),
        Err(error) => (false, None, Some(error.to_string())),
    };
    let mut texts: Vec<(String, Option<String>)> = Vec::new();
    let ghost data_text = data.deep_view();
    let ghost error_text = error.deep_view();
    texts.push(("data".to_string(), data));
    texts.push(("error".to_string(), error));
    let mut flags: Vec<(String, bool)> = Vec::new();
    flags.push(("success".to_string(), success));
    assert(texts.deep_view() == seq![("data"@, data_text), ("error"@, error_text)]);
    assert(flags.deep_view() == seq![("success"@, success)]);
    object_to_string(texts, flags).unwrap()
}

/// A client is told of success exactly where its command succeeded: the member
/// `success` is true and `data` is what the modem said, or it is false and
/// `error` is what went wrong; the other of the two is null.
pub proof fn law_replies_tell_success_and_failure(told: Seq<char>)
    ensures
        reply_text(Ok(told)) == object_text(
            seq![("data"@, Some(told)), ("error"@, None)],
            seq![("success"@, true)],
        ),
        reply_text(Err(told)) == object_text(
            seq![("data"@, None), ("error"@, Some(told))],
            seq![("success"@, false)],
        ),
{
}

/// A client is told of a notification with the whole line, as raw data.
pub proof fn law_notifications_are_told_as_raw_data(line: Seq<char>)
    ensures
        notification_text(line) == object_text(
            seq![("type"@, Some("raw_data"@)), ("data"@, Some(line))],
            seq![],
        ),
{
}

} // verus!
