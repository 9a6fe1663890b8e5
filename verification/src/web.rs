//! The web pages: which file a request asks for, and how it is answered.
use crate::text::{
    begins_with, lemma_without_one_more_prefix, lemma_without_prefixes, strip_prefixes, to_chars,
    to_text, without_prefixes,
};
use vstd::prelude::*;
use vstd::string::*;

verus! {

/// The media type that `mime_guess` gives a path.
pub uninterp spec fn guessed_type(path: Seq<char>) -> Seq<char>;

/// A path whose parts are told apart in the same way on every system: on some, a
/// backslash or a colon parts it too, and two slashes at its front begin the
/// name of a network share.
pub open spec fn portable(path: Seq<char>) -> bool {
    !path.contains('\\') && !path.contains(':') && !begins_with(path, "//"@)
}

/// Calls `mime_guess::from_path` and takes the first guess, or
/// `application/octet-stream` where there is none. The guess goes by the path's
/// extension and reads nothing else; a path without a dot has none. What the
/// table of extensions holds is not stated, nor anything more of paths with a
/// backslash, a colon or two slashes at the front, whose extension depends on
/// the system.
#[verifier::external_body]
fn guess_type(path: &str) -> (r: String)
    ensures
        portable(path@) ==> r@ == guessed_type(path@),
        !path@.contains('.') ==> r@ == "application/octet-stream"@,
{
    mime_guess::from_path(path).first_or_octet_stream().as_ref().to_string()
}

/// The path without the prefixes under which the pages are served.
pub open spec fn relative_path(path: Seq<char>) -> Seq<char> {
    without_prefixes(without_prefixes(path, "/5700/"@), "/"@)
}

/// The file that a request path asks for: that of the path, or the index page
/// of a directory.
pub open spec fn target(path: Seq<char>) -> Seq<char> {
    let rest = relative_path(path);
    if rest.len() == 0 || rest.last() == '/' {
        rest + "index.html"@
    } else {
        rest
    }
}

/// The file that a request path asks for.
pub fn target_path(path: &str) -> (r: String)
    ensures
        r@ == target(path@),
{
    let chars = to_chars(path);
    let prefix = to_chars("/5700/");
    let slash = to_chars("/");
    let rest = strip_prefixes(strip_prefixes(&chars, &prefix), &slash);
    let mut out = to_text(rest);
    if rest.len() == 0 || rest[rest.len() - 1] == '/' {
        out.append("index.html");
    }
    out
}

/// The answer to a request for a file.
#[derive(Debug, PartialEq, Eq)]
pub enum StaticResponse {
    /// The page is sent, with its media type.
    Page { content_type: String, body: Vec<u8> },
    /// There is no such page.
    NotFound,
}

/// What a file holds, where it exists.
pub open spec fn held(file: Option<Vec<u8>>) -> Option<Seq<u8>> {
    match file {
        Some(data) => Some(data@),
        None => None,
    }
}

/// `r` is the answer to a request for a file of the given media type, given what
/// that file holds and what the index page holds, where they exist: the file,
/// else the index page, else that there is none.
pub open spec fn page(
    r: StaticResponse,
    media_type: Seq<char>,
    file: Option<Seq<u8>>,
    index: Option<Seq<u8>>,
) -> bool {
    match r {
        StaticResponse::Page { content_type, body } => match file {
            Some(data) => content_type@ == media_type && body@ == data,
            None => content_type@ == "text/html"@ && index == Some(body@),
        },
        StaticResponse::NotFound => file is None && index is None,
    }
}

/// Answers a request for a file of the given media type, given what that file
/// holds and what the index page holds, where they exist.
pub fn page_response(
    content_type: String,
    file: Option<Vec<u8>>,
    index: Option<Vec<u8>>,
) -> (r: StaticResponse)
    ensures
        page(r, content_type@, held(file), held(index)),
{
    match file {
        Some(body) => StaticResponse::Page { content_type, body },
        None => match index {
            Some(body) => StaticResponse::Page { content_type: "text/html".to_string(), body },
            None => StaticResponse::NotFound,
        },
    }
}

/// A media type that the file `target` can be sent with.
pub open spec fn media_type_of(target: Seq<char>, media_type: Seq<char>) -> bool {
    &&& portable(target) ==> media_type == guessed_type(target)
    &&& !target.contains('.') ==> media_type == "application/octet-stream"@
}

/// Answers a request for the file `target`, given what that file holds and what
/// the index page holds, where they exist.
pub fn static_response(
    target: &str,
    file: Option<Vec<u8>>,
    index: Option<Vec<u8>>,
) -> (r: StaticResponse)
    ensures
        exists|media_type: Seq<char>| #[trigger]
            media_type_of(target@, media_type) && page(r, media_type, held(file), held(index)),
{
    let content_type = guess_type(target);
    assert(media_type_of(target@, content_type@));
    page_response(content_type, file, index)
}

// ---------------------------------------------------------------------------
// Laws
// ---------------------------------------------------------------------------

/// The path of the file that a request asks for is not empty, does not begin
/// with a slash, and does not end with one.
pub proof fn law_target_names_a_file(path: Seq<char>)
    ensures
        target(path).len() > 0,
        target(path)[0] != '/',
        target(path).last() != '/',
{
    reveal_strlit("/");
    reveal_strlit("index.html");
    let inner = without_prefixes(path, "/5700/"@);
    let rest = relative_path(path);
    lemma_without_prefixes(inner, "/"@);
    if rest.len() > 0 && rest[0] == '/' {
        assert(rest.subrange(0, 1) == "/"@);
        assert(begins_with(rest, "/"@));
    }
    assert("index.html"@[0] == 'i');
    assert("index.html"@.last() == 'l');
}

/// The prefix under which the pages are served does not matter.
pub proof fn law_prefix_does_not_matter(path: Seq<char>)
    ensures
        target("/5700/"@ + path) == target(path),
{
    reveal_strlit("/5700/");
    lemma_without_one_more_prefix(path, "/5700/"@);
}

/// A leading slash does not matter where it does not make up the prefix.
pub proof fn law_leading_slash_does_not_matter(path: Seq<char>)
    requires
        !begins_with("/"@ + path, "/5700/"@),
        !begins_with(path, "/5700/"@),
    ensures
        target("/"@ + path) == target(path),
{
    reveal_strlit("/");
    lemma_without_one_more_prefix(path, "/"@);
}

/// What the embedded files hold under a name, where there is such a file.
pub open spec fn embedded(files: Map<Seq<char>, Seq<u8>>, name: Seq<char>) -> Option<Seq<u8>> {
    if files.contains_key(name) {
        Some(files[name])
    } else {
        None
    }
}

/// `r` is the answer to a request with the given path, where `files` are the
/// files that there are and `guess` gives each path its media type.
pub open spec fn serves(
    r: StaticResponse,
    path: Seq<char>,
    files: Map<Seq<char>, Seq<u8>>,
    guess: spec_fn(Seq<char>) -> Seq<char>,
) -> bool {
    let name = target(path);
    page(r, guess(name), embedded(files, name), embedded(files, "index.html"@))
}

/// The prefix and a plain slash lead to the same file.
proof fn lemma_prefix_and_slash(tail: Seq<char>)
    requires
        !begins_with(tail, "/"@),
        !begins_with(tail, "5700/"@),
    ensures
        target("/5700/"@ + tail) == target("/"@ + tail),
{
    reveal_strlit("/");
    reveal_strlit("5700/");
    reveal_strlit("/5700/");
    let slashed = "/"@ + tail;
    assert(!begins_with(slashed, "/5700/"@)) by {
        if begins_with(slashed, "/5700/"@) {
            assert(slashed.subrange(0, 6).skip(1) == tail.subrange(0, 5));
            assert("/5700/"@.skip(1) == "5700/"@);
        }
    }
    assert(!begins_with(tail, "/5700/"@)) by {
        if begins_with(tail, "/5700/"@) {
            assert(tail.subrange(0, 6)[0] == '/');
            assert(tail.subrange(0, 1) == "/"@);
        }
    }
    law_prefix_does_not_matter(tail);
    law_leading_slash_does_not_matter(tail);
}

/// A page is served alike with the prefix and with a plain slash: whatever the
/// files are, and however media types are told by the path, the status, the
/// media type and the body are the same.
pub proof fn law_prefix_and_slash_are_alike(
    tail: Seq<char>,
    files: Map<Seq<char>, Seq<u8>>,
    guess: spec_fn(Seq<char>) -> Seq<char>,
    with_prefix: StaticResponse,
    with_slash: StaticResponse,
)
    requires
        !begins_with(tail, "/"@),
        !begins_with(tail, "5700/"@),
        serves(with_prefix, "/5700/"@ + tail, files, guess),
        serves(with_slash, "/"@ + tail, files, guess),
    ensures
        target("/5700/"@ + tail) == target("/"@ + tail),
        with_prefix is Page == with_slash is Page,
        with_prefix is Page ==> with_prefix->content_type@ == with_slash->content_type@
            && with_prefix->body@ == with_slash->body@,
{
    lemma_prefix_and_slash(tail);
}

/// `r` is what `static_response` can answer to a request with the given path,
/// where `files` are the files that there are.
pub open spec fn served(
    r: StaticResponse,
    path: Seq<char>,
    files: Map<Seq<char>, Seq<u8>>,
) -> bool {
    let name = target(path);
    exists|media_type: Seq<char>| #[trigger]
        media_type_of(name, media_type) && page(
            r,
            media_type,
            embedded(files, name),
            embedded(files, "index.html"@),
        )
}

/// What is served with the prefix and with a plain slash has the same status and
/// the same body, and the same media type too unless it is that of a file whose
/// extension depends on the system.
pub proof fn law_served_pages_are_alike(
    tail: Seq<char>,
    files: Map<Seq<char>, Seq<u8>>,
    with_prefix: StaticResponse,
    with_slash: StaticResponse,
)
    requires
        !begins_with(tail, "/"@),
        !begins_with(tail, "5700/"@),
        served(with_prefix, "/5700/"@ + tail, files),
        served(with_slash, "/"@ + tail, files),
    ensures
        with_prefix is Page == with_slash is Page,
        with_prefix is Page ==> with_prefix->body@ == with_slash->body@,
        with_prefix is Page && ({
            let name = target("/"@ + tail);
            !files.contains_key(name) || portable(name) || !name.contains('.')
        }) ==> with_prefix->content_type@ == with_slash->content_type@,
{
    lemma_prefix_and_slash(tail);
}

/// The media type of the file that a request asks for does not depend on the
/// system, unless its path holds a backslash or a colon.
pub proof fn law_target_is_portable(path: Seq<char>)
    requires
        !target(path).contains('\\'),
        !target(path).contains(':'),
    ensures
        portable(target(path)),
{
    reveal_strlit("//");
    law_target_names_a_file(path);
    if begins_with(target(path), "//"@) {
        assert(target(path).subrange(0, 2)[0] == '/');
    }
}

/// The answer to a request is the file where there is one, with its media type,
/// else the index page, as a web page, and else that there is none; what is sent
/// is the whole of it.
pub proof fn law_answers(
    r: StaticResponse,
    media_type: Seq<char>,
    file: Option<Seq<u8>>,
    index: Option<Seq<u8>>,
)
    requires
        page(r, media_type, file, index),
    ensures
        r is NotFound <==> file is None && index is None,
        file matches Some(data) ==> r->content_type@ == media_type && r->body@ == data,
        file is None && index is Some ==> r->content_type@ == "text/html"@ && r->body@ == index->0,
{
}

/// A file is sent with the media type that is guessed from its path, where that
/// does not depend on the system, and with that of any bytes where its path has
/// no dot.
pub proof fn law_media_types(target: Seq<char>, media_type: Seq<char>)
    requires
        media_type_of(target, media_type),
    ensures
        (forall|i: int| 0 <= i < target.len() ==> #[trigger] target[i] != '.') ==> media_type
            == "application/octet-stream"@,
        (forall|i: int|
            0 <= i < target.len() ==> #[trigger] target[i] != '\\' && target[i] != ':') && (
        target.len() < 2 || target[0] != '/' || target[1] != '/') ==> media_type == guessed_type(
            target,
        ),
{
    reveal_strlit("//");
    if begins_with(target, "//"@) {
        let front = target.subrange(0, 2);
        assert(front[0] == target[0] && front[1] == target[1]);
    }
}

/// What a file holds is told as it is.
pub proof fn law_held(file: Option<Vec<u8>>)
    ensures
        file matches Some(data) ==> held(file) == Some(data@),
        file is None ==> held(file) is None,
{
}

/// Leading slashes lead to the file behind them, or to the index page where
/// nothing or a directory is named, unless the prefix of the pages stands first.
pub proof fn law_target_behind_slashes(slashes: Seq<char>, rest: Seq<char>)
    requires
        forall|i: int| 0 <= i < slashes.len() ==> #[trigger] slashes[i] == '/',
        rest.len() > 0 ==> rest[0] != '/',
        ({
            let path = slashes + rest;
            path.len() < 6 || path.subrange(0, 6) != seq!['/', '5', '7', '0', '0', '/']
        }),
    ensures
        rest.len() > 0 && rest[rest.len() - 1] != '/' ==> target(slashes + rest) == rest,
        rest.len() == 0 || rest[rest.len() - 1] == '/' ==> target(slashes + rest) == rest
            + "index.html"@,
{
    reveal_strlit("/5700/");
    let path = slashes + rest;
    assert("/5700/"@ == seq!['/', '5', '7', '0', '0', '/']);
    assert(!begins_with(path, "/5700/"@));
    lemma_slashes_are_taken_off(slashes, rest);
}

/// Slashes at the front are taken off.
proof fn lemma_slashes_are_taken_off(slashes: Seq<char>, rest: Seq<char>)
    requires
        forall|i: int| 0 <= i < slashes.len() ==> #[trigger] slashes[i] == '/',
        rest.len() > 0 ==> rest[0] != '/',
    ensures
        without_prefixes(slashes + rest, "/"@) == rest,
    decreases slashes.len(),
{
    reveal_strlit("/");
    if slashes.len() == 0 {
        assert(slashes + rest == rest);
        if begins_with(rest, "/"@) {
            assert(rest.subrange(0, 1)[0] == rest[0]);
        }
    } else {
        let fewer = slashes.skip(1);
        lemma_slashes_are_taken_off(fewer, rest);
        assert("/"@ == seq![slashes[0]]);
        assert("/"@ + (fewer + rest) == slashes + rest);
        lemma_without_one_more_prefix(fewer + rest, "/"@);
    }
}

/// The prefix of the pages is taken off a path, however often it stands there.
pub proof fn law_target_behind_the_prefix(path: Seq<char>)
    ensures
        target(seq!['/', '5', '7', '0', '0', '/'] + path) == target(path),
{
    reveal_strlit("/5700/");
    assert("/5700/"@ == seq!['/', '5', '7', '0', '0', '/']);
    law_prefix_does_not_matter(path);
}

/// A path is told apart alike on every system exactly where it holds neither a
/// backslash nor a colon and does not begin with two slashes.
pub proof fn law_portable(path: Seq<char>)
    ensures
        portable(path) <==> {
            &&& forall|i: int|
                0 <= i < path.len() ==> #[trigger] path[i] != '\\' && path[i] != ':'
            &&& path.len() < 2 || path[0] != '/' || path[1] != '/'
        },
{
    reveal_strlit("//");
    if path.len() >= 2 {
        let front = path.subrange(0, 2);
        assert(front[0] == path[0] && front[1] == path[1]);
        if path[0] == '/' && path[1] == '/' {
            assert(front == "//"@);
        }
    }
}

} // verus!
