//! Operations on text, stated over sequences of characters.
//!
//! The rest of the crate reads modem output, client commands and request paths
//! through the functions of this module.
use vstd::prelude::*;
use vstd::string::*;
use vstd::utf8::*;

verus! {

// ---------------------------------------------------------------------------
// Characters and strings
// ---------------------------------------------------------------------------

/// `String::push` appends the given character at the end of the string.
pub assume_specification[ String::push ](s: &mut String, c: char)
    ensures
        final(s)@ == old(s)@.push(c),
;

/// The characters of a string, in order.
pub fn to_chars(s: &str) -> (r: Vec<char>)
    ensures
        r@ == s@,
{
    let mut out: Vec<char> = Vec::new();
    for c in it: s.chars()
        invariant
            out@ == it.seq().take(it.index() as int),
            it.seq() == s@,
    {
        out.push(c);
    }
    out
}

/// The string made of the given characters.
pub fn to_text(chars: &[char]) -> (r: String)
    ensures
        r@ == chars@,
{
    let mut out = String::new();
    for i in 0..chars.len()
        invariant
            out@ == chars@.take(i as int),
    {
        out.push(chars[i]);
    }
    assert(chars@.take(chars.len() as int) == chars@);
    out
}

/// The two strings, one after the other.
pub fn join(head: &str, tail: &str) -> (r: String)
    ensures
        r@ == head@ + tail@,
{
    let mut out = head.to_string();
    out.append(tail);
    out
}

// ---------------------------------------------------------------------------
// Decoding and lower case
// ---------------------------------------------------------------------------

/// What `String::from_utf8_lossy` makes of a byte string.
pub uninterp spec fn lossy_text(bytes: Seq<u8>) -> Seq<char>;

/// Calls `String::from_utf8_lossy`. The result depends on the bytes alone, and
/// on valid UTF-8 it is the text that the bytes encode. How many replacement
/// characters stand for an invalid stretch is not stated.
#[verifier::external_body]
pub(crate) fn decode_lossy(bytes: &[u8]) -> (r: String)
    ensures
        r@ == lossy_text(bytes@),
        valid_utf8(bytes@) ==> r@ == decode_utf8(bytes@),
{
    String::from_utf8_lossy(bytes).into_owned()
}

/// What `str::to_lowercase` makes of a text.
pub uninterp spec fn lowercase_text(s: Seq<char>) -> Seq<char>;

/// The lower-case form of an ASCII letter; any other character unchanged.
pub open spec fn ascii_lower(c: char) -> char {
    if 'A' <= c <= 'Z' {
        ((c as u8) + 32) as char
    } else {
        c
    }
}

/// Calls `str::to_lowercase`. The result depends on the text alone, and on
/// ASCII text it maps `A` to `Z` onto `a` to `z` and keeps everything else.
/// White space around a text has no case and is kept, and it does not change how
/// the rest is lowered: a sigma at the end of a word is at its end with and
/// without white space behind it. The Unicode mapping of other characters is not
/// stated.
#[verifier::external_body]
pub(crate) fn to_lower(s: &str) -> (r: String)
    ensures
        r@ == lowercase_text(s@),
        is_ascii_chars(s@) ==> r@ == s@.map_values(|c: char| ascii_lower(c)),
        r@ == padded_as(s@, lowercase_text(trimmed(s@))),
{
    s.to_lowercase()
}

// ---------------------------------------------------------------------------
// White space
// ---------------------------------------------------------------------------

/// The characters with the Unicode property `White_Space`.
pub open spec fn white(c: char) -> bool {
    ||| '\u{9}' <= c <= '\u{d}'
    ||| c == ' '
    ||| c == '\u{85}'
    ||| c == '\u{a0}'
    ||| c == '\u{1680}'
    ||| '\u{2000}' <= c <= '\u{200a}'
    ||| c == '\u{2028}'
    ||| c == '\u{2029}'
    ||| c == '\u{202f}'
    ||| c == '\u{205f}'
    ||| c == '\u{3000}'
}

/// Whether the character is white space.
pub fn is_white(c: char) -> (r: bool)
    ensures
        r == white(c),
{
    ('\u{9}' <= c && c <= '\u{d}') || c == ' ' || c == '\u{85}' || c == '\u{a0}' || c
        == '\u{1680}' || ('\u{2000}' <= c && c <= '\u{200a}') || c == '\u{2028}' || c
        == '\u{2029}' || c == '\u{202f}' || c == '\u{205f}' || c == '\u{3000}'
}

/// `s` without its leading white space.
pub open spec fn trimmed_start(s: Seq<char>) -> Seq<char>
    decreases s.len(),
{
    if s.len() > 0 && white(s[0]) {
        trimmed_start(s.skip(1))
    } else {
        s
    }
}

/// `s` without its trailing white space.
pub open spec fn trimmed_end(s: Seq<char>) -> Seq<char>
    decreases s.len(),
{
    if s.len() > 0 && white(s.last()) {
        trimmed_end(s.drop_last())
    } else {
        s
    }
}

/// `s` without white space at either end.
pub open spec fn trimmed(s: Seq<char>) -> Seq<char> {
    trimmed_end(trimmed_start(s))
}

/// Every character of `s` is white space.
pub open spec fn blank(s: Seq<char>) -> bool {
    forall|i: int| 0 <= i < s.len() ==> white(#[trigger] s[i])
}

/// `t` with the white space that stands around `s`.
pub open spec fn padded_as(s: Seq<char>, t: Seq<char>) -> Seq<char> {
    let leading = s.len() - trimmed_start(s).len();
    s.take(leading) + t + s.skip(leading + trimmed(s).len())
}

/// Leading white space in front of a text does not show once it is trimmed.
pub proof fn lemma_trim_start_past_blank(a: Seq<char>, m: Seq<char>)
    requires
        blank(a),
    ensures
        trimmed_start(a + m) == trimmed_start(m),
    decreases a.len(),
{
    if a.len() == 0 {
        assert(a + m == m);
    } else {
        assert((a + m)[0] == a[0]);
        assert((a + m).skip(1) == a.skip(1) + m);
        lemma_trim_start_past_blank(a.skip(1), m);
    }
}

/// Trailing white space behind a text does not show once it is trimmed.
pub proof fn lemma_trim_end_past_blank(m: Seq<char>, b: Seq<char>)
    requires
        blank(b),
    ensures
        trimmed_end(m + b) == trimmed_end(m),
    decreases b.len(),
{
    if b.len() == 0 {
        assert(m + b == m);
    } else {
        assert((m + b).last() == b.last());
        assert((m + b).drop_last() == m + b.drop_last());
        lemma_trim_end_past_blank(m, b.drop_last());
    }
}

/// What is left between two blank stretches is the trimmed text, where it
/// neither begins nor ends with white space.
pub proof fn lemma_trimmed_between(a: Seq<char>, m: Seq<char>, b: Seq<char>)
    requires
        blank(a),
        blank(b),
        m.len() > 0 ==> !white(m[0]) && !white(m.last()),
    ensures
        trimmed(a + m + b) == m,
{
    assert(a + m + b == a + (m + b));
    lemma_trim_start_past_blank(a, m + b);
    if m.len() > 0 {
        assert((m + b)[0] == m[0]);
        lemma_trim_end_past_blank(m, b);
    } else {
        assert(m + b == b + m);
        lemma_trim_start_past_blank(b, m);
    }
}

/// The blank stretches that trimming takes off: the text is the first of them,
/// the trimmed text, and the second.
pub proof fn lemma_trim_splits(s: Seq<char>) -> (r: (Seq<char>, Seq<char>))
    ensures
        blank(r.0),
        blank(r.1),
        s == r.0 + trimmed(s) + r.1,
        trimmed(s).len() > 0 ==> !white(trimmed(s)[0]) && !white(trimmed(s).last()),
{
    let a = lemma_trim_start_splits(s);
    let m = trimmed_start(s);
    let b = lemma_trim_end_splits(m);
    let t = trimmed_end(m);
    assert(s == a + t + b) by {
        assert(a + (t + b) == a + t + b);
    }
    if t.len() > 0 {
        assert(t[0] == m[0]);
    }
    (a, b)
}

/// What `padded_as` puts around a text is white space.
pub proof fn lemma_padding(s: Seq<char>, t: Seq<char>) -> (r: (Seq<char>, Seq<char>))
    ensures
        blank(r.0),
        blank(r.1),
        s == r.0 + trimmed(s) + r.1,
        padded_as(s, t) == r.0 + t + r.1,
{
    let a = lemma_trim_start_splits(s);
    let m = trimmed_start(s);
    let b = lemma_trim_end_splits(m);
    assert(s == a + trimmed(s) + b);
    let leading = s.len() - m.len();
    assert(s.take(leading) == a);
    assert(s.skip(leading + trimmed(s).len()) == b);
    (a, b)
}

proof fn lemma_trim_start_splits(s: Seq<char>) -> (a: Seq<char>)
    ensures
        blank(a),
        s == a + trimmed_start(s),
        trimmed_start(s).len() > 0 ==> !white(trimmed_start(s)[0]),
    decreases s.len(),
{
    if s.len() > 0 && white(s[0]) {
        let a = lemma_trim_start_splits(s.skip(1));
        assert(s == seq![s[0]] + s.skip(1));
        assert(s == seq![s[0]] + a + trimmed_start(s));
        seq![s[0]] + a
    } else {
        assert(s == Seq::<char>::empty() + s);
        Seq::empty()
    }
}

proof fn lemma_trim_end_splits(s: Seq<char>) -> (b: Seq<char>)
    ensures
        blank(b),
        s == trimmed_end(s) + b,
        trimmed_end(s).len() > 0 ==> !white(trimmed_end(s).last()),
    decreases s.len(),
{
    if s.len() > 0 && white(s.last()) {
        let b = lemma_trim_end_splits(s.drop_last());
        assert(s == s.drop_last().push(s.last()));
        assert(s == trimmed_end(s) + b.push(s.last()));
        b.push(s.last())
    } else {
        assert(s == s + Seq::<char>::empty());
        Seq::empty()
    }
}

/// Trimming twice is trimming once.
pub proof fn law_trim_is_idempotent(s: Seq<char>)
    ensures
        trimmed(trimmed(s)) == trimmed(s),
{
    let r = lemma_trim_splits(s);
    let none = Seq::<char>::empty();
    lemma_trimmed_between(none, trimmed(s), none);
    assert(none + trimmed(s) + none == trimmed(s));
}

/// Trimming leaves nothing exactly of the texts that are all white space.
pub proof fn law_trim_empties_only_blank_text(s: Seq<char>)
    ensures
        trimmed(s).len() == 0 <==> blank(s),
{
    let r = lemma_trim_splits(s);
    if blank(s) {
        let none = Seq::<char>::empty();
        lemma_trimmed_between(s, none, none);
        assert(s + none + none == s);
    }
    if trimmed(s).len() == 0 {
        assert(s == r.0 + r.1);
    }
}

/// Drops leading white space.
pub fn trim_start(s: &[char]) -> (r: &[char])
    ensures
        r@ == trimmed_start(s@),
{
    let mut i: usize = 0;
    assert(s@.skip(0) == s@);
    while i < s.len() && is_white(s[i])
        invariant
            i <= s.len(),
            trimmed_start(s@.skip(i as int)) == trimmed_start(s@),
        ensures
            i <= s.len(),
            i < s.len() ==> !white(s@[i as int]),
            trimmed_start(s@.skip(i as int)) == trimmed_start(s@),
        decreases s.len() - i,
    {
        assert(s@.skip(i as int).skip(1) == s@.skip(i + 1));
        i += 1;
    }
    assert(s@.subrange(i as int, s.len() as int) == s@.skip(i as int));
    vstd::slice::slice_subrange(s, i, s.len())
}

/// Drops trailing white space.
pub fn trim_end(s: &[char]) -> (r: &[char])
    ensures
        r@ == trimmed_end(s@),
{
    let mut n: usize = s.len();
    assert(s@.take(n as int) == s@);
    while n > 0 && is_white(s[n - 1])
        invariant
            n <= s.len(),
            trimmed_end(s@.take(n as int)) == trimmed_end(s@),
        ensures
            n <= s.len(),
            n > 0 ==> !white(s@[n - 1]),
            trimmed_end(s@.take(n as int)) == trimmed_end(s@),
        decreases n,
    {
        assert(s@.take(n as int).drop_last() == s@.take(n - 1));
        n -= 1;
    }
    assert(s@.subrange(0, n as int) == s@.take(n as int));
    vstd::slice::slice_subrange(s, 0, n)
}

/// Drops white space at both ends.
pub fn trim(s: &[char]) -> (r: &[char])
    ensures
        r@ == trimmed(s@),
{
    trim_end(trim_start(s))
}

// ---------------------------------------------------------------------------
// Searching
// ---------------------------------------------------------------------------

/// `pat` stands in `s` at position `i`.
pub open spec fn occurs_at(s: Seq<char>, pat: Seq<char>, i: int) -> bool {
    &&& 0 <= i
    &&& i + pat.len() <= s.len()
    &&& s.subrange(i, i + pat.len()) == pat
}

/// `pat` stands somewhere in `s`.
pub open spec fn occurs(s: Seq<char>, pat: Seq<char>) -> bool {
    exists|i: int| occurs_at(s, pat, i)
}

/// `s` begins with `pat`.
pub open spec fn begins_with(s: Seq<char>, pat: Seq<char>) -> bool {
    occurs_at(s, pat, 0)
}

/// `s` ends with `pat`.
pub open spec fn ends_in(s: Seq<char>, pat: Seq<char>) -> bool {
    occurs_at(s, pat, s.len() - pat.len())
}

/// The number of characters before the first `c` in `s`; the length of `s`
/// where there is none.
pub open spec fn before(s: Seq<char>, c: char) -> int
    decreases s.len(),
{
    if s.len() == 0 || s[0] == c {
        0
    } else {
        1 + before(s.skip(1), c)
    }
}

/// `before` counts up to the first `c`.
pub proof fn lemma_before(s: Seq<char>, c: char)
    ensures
        0 <= before(s, c) <= s.len(),
        forall|j: int| 0 <= j < before(s, c) ==> s[j] != c,
        before(s, c) < s.len() ==> s[before(s, c)] == c,
        before(s, c) < s.len() <==> s.contains(c),
    decreases s.len(),
{
    if s.len() > 0 && s[0] != c {
        let rest = s.skip(1);
        lemma_before(rest, c);
        assert forall|j: int| 0 <= j < before(s, c) implies s[j] != c by {
            if j > 0 {
                assert(rest[j - 1] == s[j]);
            }
        }
        if s.contains(c) {
            let j = choose|j: int| 0 <= j < s.len() && s[j] == c;
            assert(rest[j - 1] == c);
        }
    }
}

/// What stands at `j` after dropping `i` characters stood at `i + j` before.
pub proof fn lemma_occurs_in_rest(s: Seq<char>, pat: Seq<char>, i: int, j: int)
    requires
        0 <= i <= s.len(),
        0 <= j,
    ensures
        occurs_at(s.skip(i), pat, j) == occurs_at(s, pat, i + j),
{
    if i + j + pat.len() <= s.len() {
        assert(s.skip(i).subrange(j, j + pat.len()) == s.subrange(i + j, i + j + pat.len()));
    }
}

/// A word without white space stands in a text exactly where it stands in what
/// lies between blank stretches.
pub proof fn lemma_occurs_between(a: Seq<char>, m: Seq<char>, b: Seq<char>, pat: Seq<char>)
    requires
        blank(a),
        blank(b),
        pat.len() > 0,
        forall|i: int| 0 <= i < pat.len() ==> !white(#[trigger] pat[i]),
    ensures
        occurs(a + m + b, pat) == occurs(m, pat),
{
    let s = a + m + b;
    if occurs(s, pat) {
        let i = choose|i: int| occurs_at(s, pat, i);
        let found = s.subrange(i, i + pat.len());
        let j = i - a.len();
        assert(found[0] == s[i] && found.last() == s[i + pat.len() - 1]);
        assert(!white(pat[0]) && !white(pat[pat.len() - 1]));
        assert(a.len() <= i) by {
            if i < a.len() {
                assert(s[i] == a[i]);
            }
        }
        assert(j + pat.len() <= m.len()) by {
            let k = i + pat.len() - 1 - a.len() - m.len();
            if k >= 0 {
                assert(s[i + pat.len() - 1] == b[k]);
            }
        }
        assert(m.subrange(j, j + pat.len()) == found);
        assert(occurs_at(m, pat, j));
    }
    if occurs(m, pat) {
        lemma_occurs_in_part(a, m, b, pat);
    }
}

/// A character that is no white space stands in a text exactly where it stands
/// in what lies between blank stretches.
pub proof fn lemma_contains_between(a: Seq<char>, m: Seq<char>, b: Seq<char>, c: char)
    requires
        blank(a),
        blank(b),
        !white(c),
    ensures
        (a + m + b).contains(c) == m.contains(c),
{
    let s = a + m + b;
    if s.contains(c) {
        let i = choose|i: int| 0 <= i < s.len() && s[i] == c;
        if i < a.len() {
            assert(s[i] == a[i]);
        } else if i >= a.len() + m.len() {
            assert(s[i] == b[i - a.len() - m.len()]);
        } else {
            assert(m[i - a.len()] == c);
        }
    }
    if m.contains(c) {
        let i = choose|i: int| 0 <= i < m.len() && m[i] == c;
        assert(s[a.len() + i] == c);
    }
}

/// What stands in a part of a text stands in the text.
pub proof fn lemma_occurs_in_part(a: Seq<char>, m: Seq<char>, b: Seq<char>, pat: Seq<char>)
    requires
        occurs(m, pat),
    ensures
        occurs(a + m + b, pat),
{
    let i = choose|i: int| occurs_at(m, pat, i);
    let j = a.len() + i;
    assert((a + m + b).subrange(j, j + pat.len()) == m.subrange(i, i + pat.len()));
    assert(occurs_at(a + m + b, pat, j));
}

/// Whether `pat` stands in `s` at position `i`.
pub fn matches_at(s: &[char], pat: &[char], i: usize) -> (r: bool)
    ensures
        r == occurs_at(s@, pat@, i as int),
{
    if i > s.len() || s.len() - i < pat.len() {
        return false;
    }
    for k in 0..pat.len()
        invariant
            i + pat.len() <= s.len(),
            s@.subrange(i as int, i + k) == pat@.take(k as int),
    {
        if s[i + k] != pat[k] {
            assert(s@.subrange(i as int, i + pat.len())[k as int] != pat@[k as int]);
            return false;
        }
        assert(s@.subrange(i as int, i + k + 1) == s@.subrange(i as int, i + k).push(
            s@[i + k],
        ));
        assert(pat@.take(k + 1) == pat@.take(k as int).push(pat@[k as int]));
    }
    assert(pat@.take(pat.len() as int) == pat@);
    true
}

/// Whether `pat` stands somewhere in `s`.
pub fn contains(s: &[char], pat: &[char]) -> (r: bool)
    ensures
        r == occurs(s@, pat@),
{
    for i in 0..s.len()
        invariant
            forall|j: int| 0 <= j < i ==> !occurs_at(s@, pat@, j),
    {
        if matches_at(s, pat, i) {
            return true;
        }
    }
    matches_at(s, pat, s.len())
}

/// Whether the character `c` stands in `s`.
pub fn contains_char(s: &[char], c: char) -> (r: bool)
    ensures
        r == s@.contains(c),
{
    for i in 0..s.len()
        invariant
            forall|j: int| 0 <= j < i ==> s@[j] != c,
    {
        if s[i] == c {
            return true;
        }
    }
    false
}

/// Whether `s` begins with `pat`.
pub fn starts_with(s: &[char], pat: &[char]) -> (r: bool)
    ensures
        r == begins_with(s@, pat@),
{
    matches_at(s, pat, 0)
}

/// Whether `s` ends with `pat`.
pub fn ends_with(s: &[char], pat: &[char]) -> (r: bool)
    ensures
        r == ends_in(s@, pat@),
{
    s.len() >= pat.len() && matches_at(s, pat, s.len() - pat.len())
}

/// The position of the first `c` in `s`, or the length of `s`.
pub fn find(s: &[char], c: char) -> (r: usize)
    ensures
        r == before(s@, c),
        r <= s.len(),
        r < s.len() <==> s@.contains(c),
{
    let mut i: usize = 0;
    assert(s@.skip(0) == s@);
    while i < s.len() && s[i] != c
        invariant
            i <= s.len(),
            forall|j: int| 0 <= j < i ==> s@[j] != c,
            i + before(s@.skip(i as int), c) == before(s@, c),
        ensures
            i <= s.len(),
            i < s.len() ==> s@[i as int] == c,
            forall|j: int| 0 <= j < i ==> s@[j] != c,
            i + before(s@.skip(i as int), c) == before(s@, c),
        decreases s.len() - i,
    {
        assert(s@.skip(i as int).skip(1) == s@.skip(i + 1));
        i += 1;
    }
    i
}

// ---------------------------------------------------------------------------
// Rewriting
// ---------------------------------------------------------------------------

/// `s` with every occurrence of `pat` taken out, from left to right and without
/// going back over what was kept.
pub open spec fn without(s: Seq<char>, pat: Seq<char>) -> Seq<char>
    decreases s.len(),
{
    if s.len() == 0 || pat.len() == 0 {
        s
    } else if begins_with(s, pat) {
        without(s.skip(pat.len() as int), pat)
    } else {
        seq![s[0]] + without(s.skip(1), pat)
    }
}

/// Takes every occurrence of `pat` out of `s`.
pub fn remove_all(s: &[char], pat: &[char]) -> (r: Vec<char>)
    ensures
        r@ == without(s@, pat@),
{
    if pat.len() == 0 {
        return vstd::slice::slice_to_vec(s);
    }
    let mut out: Vec<char> = Vec::new();
    let mut i: usize = 0;
    assert(s@.skip(0) == s@);
    while i < s.len()
        invariant
            i <= s.len(),
            pat.len() > 0,
            out@ + without(s@.skip(i as int), pat@) == without(s@, pat@),
        decreases s.len() - i,
    {
        let ghost rest = s@.skip(i as int);
        proof {
            lemma_occurs_in_rest(s@, pat@, i as int, 0);
        }
        if matches_at(s, pat, i) {
            assert(rest.skip(pat@.len() as int) == s@.skip(i + pat@.len()));
            i += pat.len();
        } else {
            assert(rest.skip(1) == s@.skip(i + 1));
            assert(out@ + (seq![rest[0]] + without(rest.skip(1), pat@)) == out@.push(rest[0])
                + without(rest.skip(1), pat@));
            out.push(s[i]);
            i += 1;
        }
    }
    assert(s@.skip(i as int) == Seq::<char>::empty());
    out
}

/// Where `pat` does not occur nothing is taken out.
pub proof fn lemma_without_absent(s: Seq<char>, pat: Seq<char>)
    requires
        !occurs(s, pat),
    ensures
        without(s, pat) == s,
    decreases s.len(),
{
    if s.len() > 0 && pat.len() > 0 {
        assert(!occurs_at(s, pat, 0));
        let rest = s.skip(1);
        assert(!occurs(rest, pat)) by {
            if occurs(rest, pat) {
                let j = choose|j: int| occurs_at(rest, pat, j);
                lemma_occurs_in_rest(s, pat, 1, j);
            }
        }
        lemma_without_absent(rest, pat);
        assert(seq![s[0]] + rest == s);
    }
}

/// A character that `pat` does not hold stays when `pat` is taken out.
pub proof fn lemma_without_keeps(s: Seq<char>, pat: Seq<char>, c: char)
    requires
        s.contains(c),
        !pat.contains(c),
    ensures
        without(s, pat).contains(c),
    decreases s.len(),
{
    let i = choose|i: int| 0 <= i < s.len() && s[i] == c;
    if pat.len() > 0 {
        if begins_with(s, pat) {
            let n = pat.len() as int;
            if i < n {
                assert(s.subrange(0, n)[i] == pat[i]);
            }
            assert(s.skip(n)[i - n] == c);
            lemma_without_keeps(s.skip(n), pat, c);
        } else {
            let rest = without(s.skip(1), pat);
            if i == 0 {
                assert((seq![s[0]] + rest)[0] == c);
            } else {
                assert(s.skip(1)[i - 1] == c);
                lemma_without_keeps(s.skip(1), pat, c);
                let j = choose|j: int| 0 <= j < rest.len() && rest[j] == c;
                assert((seq![s[0]] + rest)[j + 1] == c);
            }
        }
    }
}

/// `s` with `pat` taken off its front as often as it stands there.
pub open spec fn without_prefixes(s: Seq<char>, pat: Seq<char>) -> Seq<char>
    decreases s.len(),
{
    if pat.len() > 0 && begins_with(s, pat) {
        without_prefixes(s.skip(pat.len() as int), pat)
    } else {
        s
    }
}

/// Nothing is left on the front to take off.
pub proof fn lemma_without_prefixes(s: Seq<char>, pat: Seq<char>)
    requires
        pat.len() > 0,
    ensures
        !begins_with(without_prefixes(s, pat), pat),
    decreases s.len(),
{
    if begins_with(s, pat) {
        lemma_without_prefixes(s.skip(pat.len() as int), pat);
    }
}

/// One more prefix on the front is taken off too.
pub proof fn lemma_without_one_more_prefix(s: Seq<char>, pat: Seq<char>)
    requires
        pat.len() > 0,
    ensures
        without_prefixes(pat + s, pat) == without_prefixes(s, pat),
{
    let n = pat.len() as int;
    assert((pat + s).subrange(0, n) == pat);
    assert(begins_with(pat + s, pat));
    assert((pat + s).skip(n) == s);
}

/// Takes `pat` off the front of `s` as often as it stands there.
pub fn strip_prefixes<'a>(s: &'a [char], pat: &[char]) -> (r: &'a [char])
    ensures
        r@ == without_prefixes(s@, pat@),
{
    if pat.len() == 0 {
        return s;
    }
    let mut i: usize = 0;
    assert(s@.skip(0) == s@);
    while matches_at(s, pat, i)
        invariant
            i <= s.len(),
            pat.len() > 0,
            without_prefixes(s@.skip(i as int), pat@) == without_prefixes(s@, pat@),
        ensures
            i <= s.len(),
            !occurs_at(s@, pat@, i as int),
            without_prefixes(s@.skip(i as int), pat@) == without_prefixes(s@, pat@),
        decreases s.len() - i,
    {
        proof {
            lemma_occurs_in_rest(s@, pat@, i as int, 0);
        }
        assert(s@.skip(i as int).skip(pat@.len() as int) == s@.skip(i + pat@.len()));
        i += pat.len();
    }
    proof {
        lemma_occurs_in_rest(s@, pat@, i as int, 0);
    }
    assert(s@.subrange(i as int, s.len() as int) == s@.skip(i as int));
    vstd::slice::slice_subrange(s, i, s.len())
}

// ---------------------------------------------------------------------------
// Lines
// ---------------------------------------------------------------------------

/// `s` without one carriage return at its end.
pub open spec fn without_return(s: Seq<char>) -> Seq<char> {
    if s.len() > 0 && s.last() == '\r' {
        s.drop_last()
    } else {
        s
    }
}

/// The lines of `s`. A line ends at a line feed, which takes a carriage return
/// before it along; the last line needs no line feed, and keeps its carriage
/// return where it has none.
pub open spec fn lines_of(s: Seq<char>) -> Seq<Seq<char>>
    decreases s.len(),
{
    let k = before(s, '\n');
    if s.len() == 0 {
        seq![]
    } else if k >= s.len() {
        seq![s]
    } else {
        proof {
            lemma_before(s, '\n');
        }
        seq![without_return(s.take(k))] + lines_of(s.skip(k + 1))
    }
}

/// Splits `s` into its lines.
pub fn lines(s: &[char]) -> (r: Vec<String>)
    ensures
        r.deep_view() == lines_of(s@),
{
    let mut out: Vec<String> = Vec::new();
    let mut start: usize = 0;
    assert(s@.skip(0) == s@);
    while start < s.len()
        invariant
            start <= s.len(),
            out.deep_view() + lines_of(s@.skip(start as int)) == lines_of(s@),
        decreases s.len() - start,
    {
        let ghost done = out.deep_view();
        let ghost rest = s@.skip(start as int);
        let tail = vstd::slice::slice_subrange(s, start, s.len());
        assert(tail@ == rest);
        let k: usize = find(tail, '\n');
        if k == tail.len() {
            out.push(to_text(tail));
            assert(out.deep_view() == done.push(rest));
            start = s.len();
            assert(s@.skip(start as int) == Seq::<char>::empty());
        } else {
            let end: usize = if k > 0 && tail[k - 1] == '\r' {
                k - 1
            } else {
                k
            };
            let line = vstd::slice::slice_subrange(tail, 0, end);
            assert(line@ == without_return(rest.take(k as int)));
            out.push(to_text(line));
            assert(out.deep_view() == done.push(line@));
            assert(rest.skip(k + 1) == s@.skip(start + k + 1));
            assert(done + (seq![line@] + lines_of(rest.skip(k + 1))) == done.push(line@)
                + lines_of(rest.skip(k + 1)));
            start = start + k + 1;
        }
    }
    assert(s@.skip(start as int) == Seq::<char>::empty());
    out
}

// ---------------------------------------------------------------------------
// Numbers
// ---------------------------------------------------------------------------

/// The decimal digits of `n`, the most significant first.
pub open spec fn decimal(n: nat) -> Seq<char>
    decreases n,
{
    let digit = (48 + n % 10) as char;
    if n < 10 {
        seq![digit]
    } else {
        decimal(n / 10).push(digit)
    }
}

/// Writes a number in decimal.
pub fn to_decimal(n: u16) -> (r: String)
    ensures
        r@ == decimal(n as nat),
    decreases n,
{
    let digit = (48u8 + (n % 10) as u8) as char;
    let mut out = if n < 10 {
        String::new()
    } else {
        to_decimal(n / 10)
    };
    out.push(digit);
    out
}

// ---------------------------------------------------------------------------
// Laws
// ---------------------------------------------------------------------------

/// White space is made of these code points and no others.
pub proof fn law_white_space(c: char)
    ensures
        white(c) <==> seq![
            0x9int,
            0xa,
            0xb,
            0xc,
            0xd,
            0x20,
            0x85,
            0xa0,
            0x1680,
            0x2000,
            0x2001,
            0x2002,
            0x2003,
            0x2004,
            0x2005,
            0x2006,
            0x2007,
            0x2008,
            0x2009,
            0x200a,
            0x2028,
            0x2029,
            0x202f,
            0x205f,
            0x3000,
        ].contains(c as int),
{
    let points = seq![
        0x9int,
        0xa,
        0xb,
        0xc,
        0xd,
        0x20,
        0x85,
        0xa0,
        0x1680,
        0x2000,
        0x2001,
        0x2002,
        0x2003,
        0x2004,
        0x2005,
        0x2006,
        0x2007,
        0x2008,
        0x2009,
        0x200a,
        0x2028,
        0x2029,
        0x202f,
        0x205f,
        0x3000,
    ];
    assert(points.len() == 25);
    if white(c) {
        assert(points[0] == 9 && points[1] == 10 && points[2] == 11 && points[3] == 12 && points[4]
            == 13 && points[5] == 0x20 && points[6] == 0x85 && points[7] == 0xa0 && points[8]
            == 0x1680);
        assert(points[9] == 0x2000 && points[10] == 0x2001 && points[11] == 0x2002 && points[12]
            == 0x2003 && points[13] == 0x2004 && points[14] == 0x2005 && points[15] == 0x2006
            && points[16] == 0x2007 && points[17] == 0x2008 && points[18] == 0x2009 && points[19]
            == 0x200a);
        assert(points[20] == 0x2028 && points[21] == 0x2029 && points[22] == 0x202f && points[23]
            == 0x205f && points[24] == 0x3000);
    }
}

/// Trimming takes the white space at the ends off, all of it and nothing else.
pub proof fn law_trim_takes_the_ends_off(a: Seq<char>, m: Seq<char>, b: Seq<char>)
    requires
        forall|i: int| 0 <= i < a.len() ==> white(#[trigger] a[i]),
        forall|i: int| 0 <= i < b.len() ==> white(#[trigger] b[i]),
        m.len() > 0 ==> !white(m[0]) && !white(m[m.len() - 1]),
    ensures
        trimmed(a + m + b) == m,
        trimmed_start(a + m) == m,
        trimmed_end(m + b) == m,
{
    lemma_trimmed_between(a, m, b);
    lemma_trim_start_past_blank(a, m);
    lemma_trim_end_past_blank(m, b);
}

/// Leading white space is taken off whatever stands at the end, and trailing
/// white space whatever stands at the front.
pub proof fn law_trim_keeps_the_other_end(a: Seq<char>, m: Seq<char>, n: Seq<char>, b: Seq<char>)
    requires
        forall|i: int| 0 <= i < a.len() ==> white(#[trigger] a[i]),
        forall|i: int| 0 <= i < b.len() ==> white(#[trigger] b[i]),
        m.len() > 0 ==> !white(m[0]),
        n.len() > 0 ==> !white(n[n.len() - 1]),
    ensures
        trimmed_start(a + m) == m,
        trimmed_end(n + b) == n,
{
    lemma_trim_start_past_blank(a, m);
    lemma_trim_end_past_blank(n, b);
}

/// A text that is all white space is trimmed to nothing, and only such a text
/// is blank.
pub proof fn law_blank_text(s: Seq<char>)
    ensures
        blank(s) <==> forall|i: int| 0 <= i < s.len() ==> white(#[trigger] s[i]),
        trimmed(s).len() == 0 <==> forall|i: int| 0 <= i < s.len() ==> white(#[trigger] s[i]),
{
    law_trim_empties_only_blank_text(s);
}

/// The white space around a text can be put around another.
pub proof fn law_padding_is_kept(a: Seq<char>, m: Seq<char>, b: Seq<char>, t: Seq<char>)
    requires
        forall|i: int| 0 <= i < a.len() ==> white(#[trigger] a[i]),
        forall|i: int| 0 <= i < b.len() ==> white(#[trigger] b[i]),
        m.len() > 0,
        !white(m[0]),
        !white(m[m.len() - 1]),
    ensures
        padded_as(a + m + b, t) == a + t + b,
{
    let s = a + m + b;
    lemma_trimmed_between(a, m, b);
    assert(s == a + (m + b));
    lemma_trim_start_past_blank(a, m + b);
    assert((m + b)[0] == m[0]);
    assert(trimmed_start(s) == m + b);
    assert(s.take(a.len() as int) == a);
    assert(s.skip((a.len() + m.len()) as int) == b);
}

/// Only the letters `A` to `Z` have another lower-case form, 32 code points up.
pub proof fn law_ascii_lower(c: char)
    ensures
        65 <= c as int <= 90 ==> ascii_lower(c) as int == c as int + 32,
        !(65 <= c as int <= 90) ==> ascii_lower(c) == c,
{
}

/// A pattern stands at a position exactly where the text has its characters,
/// one after the other.
pub proof fn law_standing_at(s: Seq<char>, pat: Seq<char>, i: int)
    ensures
        occurs_at(s, pat, i) <==> {
            &&& 0 <= i
            &&& i + pat.len() <= s.len()
            &&& forall|j: int| 0 <= j < pat.len() ==> s[i + j] == #[trigger] pat[j]
        },
{
    if 0 <= i && i + pat.len() <= s.len() {
        let part = s.subrange(i, i + pat.len());
        if part == pat {
            assert forall|j: int| 0 <= j < pat.len() implies s[i + j] == #[trigger] pat[j] by {
                assert(part[j] == s[i + j]);
            }
        }
        if forall|j: int| 0 <= j < pat.len() ==> s[i + j] == #[trigger] pat[j] {
            assert(part =~= pat);
        }
    }
}

/// A text with a pattern in it can be told: whatever stands around the pattern,
/// it is found.
pub proof fn law_what_stands_in_a_text_is_found(a: Seq<char>, pat: Seq<char>, b: Seq<char>)
    ensures
        occurs(a + pat + b, pat),
        begins_with(pat + b, pat),
        ends_in(a + pat, pat),
{
    let n = pat.len() as int;
    assert((a + pat + b).subrange(a.len() as int, a.len() + n) == pat);
    assert(occurs_at(a + pat + b, pat, a.len() as int));
    assert((pat + b).subrange(0, n) == pat);
    assert((a + pat).subrange(a.len() as int, a.len() + n) == pat);
}

/// What is found in a text stands in it: the text is what stands before, the
/// pattern, and what stands behind.
pub proof fn law_what_is_found_stands_in_a_text(s: Seq<char>, pat: Seq<char>) -> (r: (
    Seq<char>,
    Seq<char>,
))
    requires
        occurs(s, pat),
    ensures
        s == r.0 + pat + r.1,
        begins_with(s, pat) ==> s == pat + s.skip(pat.len() as int),
        ends_in(s, pat) ==> s == s.take(s.len() - pat.len()) + pat,
{
    let i = choose|i: int| occurs_at(s, pat, i);
    let n = pat.len() as int;
    assert(s.subrange(i, i + n) == pat);
    assert(s.take(i) + s.subrange(i, i + n) + s.skip(i + n) =~= s);
    if begins_with(s, pat) {
        assert(s.subrange(0, n) == pat);
        assert(s.subrange(0, n) + s.skip(n) =~= s);
    }
    if ends_in(s, pat) {
        let k = s.len() - n;
        assert(s.subrange(k, k + n) == pat);
        assert(s.take(k) + s.subrange(k, k + n) =~= s);
    }
    (s.take(i), s.skip(i + n))
}

/// A text begins or ends with a pattern exactly where it is long enough and has
/// the pattern's characters there.
pub proof fn law_ends_of_a_text(s: Seq<char>, pat: Seq<char>)
    ensures
        begins_with(s, pat) <==> pat.len() <= s.len() && s.take(pat.len() as int) == pat,
        ends_in(s, pat) <==> pat.len() <= s.len() && s.skip(s.len() - pat.len()) == pat,
{
    let n = pat.len() as int;
    let k = s.len() - n;
    if n <= s.len() {
        assert(s.take(n) == s.subrange(0, n));
        assert(s.skip(k) == s.subrange(k, k + n));
    }
}

/// A pattern is taken out wherever it stands, and every other character stays in
/// its place.
pub proof fn law_taking_out(s: Seq<char>, pat: Seq<char>)
    requires
        pat.len() > 0,
    ensures
        without(pat + s, pat) == without(s, pat),
        s.len() > 0 && !begins_with(s, pat) ==> without(s, pat) == seq![s[0]] + without(
            s.subrange(1, s.len() as int),
            pat,
        ),
        s.len() == 0 ==> without(s, pat) == s,
{
    let n = pat.len() as int;
    assert((pat + s).subrange(0, n) == pat);
    assert(begins_with(pat + s, pat));
    assert((pat + s).skip(n) == s);
    if s.len() > 0 {
        assert(s.skip(1) == s.subrange(1, s.len() as int));
    }
}

/// A text without the pattern at its front stays as it is when prefixes are
/// taken off, and each that stands there is taken off.
pub proof fn law_taking_prefixes_off(s: Seq<char>, pat: Seq<char>)
    requires
        pat.len() > 0,
    ensures
        !begins_with(s, pat) ==> without_prefixes(s, pat) == s,
        without_prefixes(pat + s, pat) == without_prefixes(s, pat),
{
    lemma_without_one_more_prefix(s, pat);
}

/// A line feed ends a line and takes one carriage return before it along: what
/// stood before it is the first line, as it is, and the other lines are those of
/// what stands behind it.
pub proof fn law_line_feeds_end_lines(line: Seq<char>, rest: Seq<char>)
    requires
        forall|i: int| 0 <= i < line.len() ==> #[trigger] line[i] != '\n',
    ensures
        lines_of(line + seq!['\r', '\n'] + rest) == seq![line] + lines_of(rest),
        line.len() == 0 || line[line.len() - 1] != '\r' ==> lines_of(line + seq!['\n'] + rest)
            == seq![line] + lines_of(rest),
{
    let n = line.len() as int;
    let s = line + seq!['\n'] + rest;
    lemma_before(s, '\n');
    assert(s[n] == '\n');
    assert(before(s, '\n') == n) by {
        let k = before(s, '\n');
        if k < n {
            assert(s[k] == line[k]);
        }
    }
    assert(s.take(n) == line);
    assert(s.skip(n + 1) == rest);
    let t = line + seq!['\r', '\n'] + rest;
    lemma_before(t, '\n');
    assert(t[n] == '\r' && t[n + 1] == '\n');
    assert(before(t, '\n') == n + 1) by {
        let k = before(t, '\n');
        if k < n {
            assert(t[k] == line[k]);
        }
    }
    assert(t.take(n + 1) == line.push('\r'));
    assert(t.take(n + 1).drop_last() == line);
    assert(t.skip(n + 2) == rest);
}

/// What stands behind the last line feed is a line, as it is, unless it is
/// empty.
pub proof fn law_last_line(line: Seq<char>)
    requires
        forall|i: int| 0 <= i < line.len() ==> #[trigger] line[i] != '\n',
    ensures
        line.len() > 0 ==> lines_of(line) == seq![line],
        line.len() == 0 ==> lines_of(line).len() == 0,
{
    lemma_before(line, '\n');
}

/// No line holds a line feed.
pub proof fn law_no_line_holds_a_line_feed(s: Seq<char>, i: int)
    requires
        0 <= i < lines_of(s).len(),
    ensures
        !lines_of(s)[i].contains('\n'),
    decreases s.len(),
{
    lemma_before(s, '\n');
    let k = before(s, '\n');
    if k < s.len() {
        if i > 0 {
            law_no_line_holds_a_line_feed(s.skip(k + 1), i - 1);
        } else {
            let line = lines_of(s)[0];
            if line.contains('\n') {
                let j = choose|j: int| 0 <= j < line.len() && line[j] == '\n';
                assert(line[j] == s[j]);
            }
        }
    }
}

/// A number is written with the digits of its tenth, then its last digit.
pub proof fn law_decimal(tens: nat, digit: nat)
    requires
        digit < 10,
    ensures
        decimal(digit).len() == 1,
        decimal(digit)[0] as int == 48 + digit,
        tens > 0 ==> decimal(10 * tens + digit) == decimal(tens) + decimal(digit),
{
    let n = 10 * tens + digit;
    if tens > 0 {
        assert(n / 10 == tens && n % 10 == digit);
        assert(decimal(n) == decimal(tens) + decimal(digit));
    }
}

} // verus!
