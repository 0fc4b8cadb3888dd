//! The request-line parser: isolate the first line of the framed header
//! text and extract its first two whitespace-separated tokens.
use vstd::prelude::*;

use crate::HttpError;
use crate::text::is_space;
use crate::text::is_space_char;

verus! {

/// A parsed request: the first two tokens of the request line, taken
/// verbatim. The method is not validated against any known set, and the
/// path is kept as sent, query strings and all.
#[derive(Debug)]
pub struct HttpRequest {
    pub method: String,
    pub path: String,
}

/// The number of characters before the first `'\n'` (all of `s` when there
/// is none): the extent of the first line.
pub open spec fn line_len(s: Seq<char>) -> nat
    decreases s.len(),
{
    if s.len() > 0 && s[0] != '\n' {
        1 + line_len(s.drop_first())
    } else {
        0
    }
}

/// The first line of `s`, exclusive of its terminator.
pub open spec fn first_line(s: Seq<char>) -> Seq<char> {
    s.take(line_len(s) as int)
}

/// The length of the leading run of whitespace.
pub open spec fn ws_len(s: Seq<char>) -> nat
    decreases s.len(),
{
    if s.len() > 0 && is_space_char(s[0]) {
        1 + ws_len(s.drop_first())
    } else {
        0
    }
}

/// `s` with its leading whitespace removed.
pub open spec fn skip_ws(s: Seq<char>) -> Seq<char> {
    s.skip(ws_len(s) as int)
}

/// The length of the leading run of non-whitespace characters.
pub open spec fn token_len(s: Seq<char>) -> nat
    decreases s.len(),
{
    if s.len() > 0 && !is_space_char(s[0]) {
        1 + token_len(s.drop_first())
    } else {
        0
    }
}

/// The leading token of `s` (empty when `s` starts with whitespace).
pub open spec fn first_token(s: Seq<char>) -> Seq<char> {
    s.take(token_len(s) as int)
}

/// `s` with its leading token removed.
pub open spec fn after_token(s: Seq<char>) -> Seq<char> {
    s.skip(token_len(s) as int)
}

/// What parsing yields: the first two whitespace-separated tokens of the
/// first line, or nothing when the line has fewer than two.
pub open spec fn spec_parse(s: Seq<char>) -> Option<(Seq<char>, Seq<char>)> {
    let at_method = skip_ws(first_line(s));
    let method = first_token(at_method);
    let at_path = skip_ws(after_token(at_method));
    let path = first_token(at_path);
    if method.len() > 0 && path.len() > 0 {
        Some((method, path))
    } else {
        None
    }
}

/// The leading run of whitespace never reaches past the end.
proof fn lemma_ws_len_le(s: Seq<char>)
    ensures
        ws_len(s) <= s.len(),
    decreases s.len(),
{
    if s.len() > 0 && is_space_char(s[0]) {
        lemma_ws_len_le(s.drop_first());
    }
}

/// The leading token never reaches past the end.
proof fn lemma_token_len_le(s: Seq<char>)
    ensures
        token_len(s) <= s.len(),
    decreases s.len(),
{
    if s.len() > 0 && !is_space_char(s[0]) {
        lemma_token_len_le(s.drop_first());
    }
}

/// Whatever whitespace is skipped, what remains starts with a
/// non-whitespace character — or is empty.
proof fn lemma_skip_ws_head(s: Seq<char>)
    ensures
        skip_ws(s).len() > 0 ==> !is_space_char(skip_ws(s)[0]),
    decreases s.len(),
{
    lemma_ws_len_le(s);
    if s.len() > 0 && is_space_char(s[0]) {
        lemma_skip_ws_head(s.drop_first());
        lemma_ws_len_le(s.drop_first());
        assert(skip_ws(s) =~= skip_ws(s.drop_first()));
    }
}

/// How many whitespace-separated tokens the sequence holds.
pub open spec fn token_count(s: Seq<char>) -> nat
    decreases s.len(),
    via token_count_decreases
{
    if skip_ws(s).len() == 0 {
        0
    } else {
        1 + token_count(after_token(skip_ws(s)))
    }
}

#[via_fn]
proof fn token_count_decreases(s: Seq<char>) {
    lemma_ws_len_le(s);
    let t = skip_ws(s);
    if t.len() != 0 {
        lemma_skip_ws_head(s);
        lemma_token_len_le(t);
        assert(token_len(t) >= 1);
    }
}

/// Parsing succeeds exactly when the first line holds at least two
/// whitespace-separated tokens; the parsed method and path are the first
/// two of them.
pub proof fn lemma_parse_iff_two_tokens(s: Seq<char>)
    ensures
        spec_parse(s) is Some <==> token_count(first_line(s)) >= 2,
        spec_parse(s) matches Some(pr) ==> pr.0 == first_token(skip_ws(first_line(s))) && pr.1
            == first_token(skip_ws(after_token(skip_ws(first_line(s))))),
{
    let line = first_line(s);
    let at_method = skip_ws(line);
    let at_path = skip_ws(after_token(at_method));
    lemma_ws_len_le(line);
    lemma_token_len_le(at_method);
    lemma_skip_ws_head(line);
    lemma_token_len_le(after_token(at_method));
    lemma_token_len_le(at_path);
    lemma_skip_ws_head(after_token(at_method));
    assert(first_token(at_method).len() == token_len(at_method));
    assert(first_token(at_path).len() == token_len(at_path));
    assert(at_method.len() > 0 ==> token_len(at_method) >= 1);
    assert(at_path.len() > 0 ==> token_len(at_path) >= 1);
    assert(token_count(line) == if at_method.len() == 0 {
        0nat
    } else {
        1nat + token_count(after_token(at_method))
    });
}

/// A scan that stopped at the first `'\n'` has measured `line_len`.
proof fn lemma_line_len_at(s: Seq<char>, k: int)
    requires
        0 <= k <= s.len(),
        forall|j: int| 0 <= j < k ==> s[j] != '\n',
        k == s.len() || s[k] == '\n',
    ensures
        line_len(s) == k,
    decreases k,
{
    if k == 0 {
    } else {
        assert(s[0] != '\n');
        lemma_line_len_at(s.drop_first(), k - 1);
    }
}

/// A scan that stopped at the first non-whitespace character has measured
/// `ws_len`.
proof fn lemma_ws_len_at(s: Seq<char>, k: int)
    requires
        0 <= k <= s.len(),
        forall|j: int| 0 <= j < k ==> is_space_char(s[j]),
        k == s.len() || !is_space_char(s[k]),
    ensures
        ws_len(s) == k,
    decreases k,
{
    if k == 0 {
    } else {
        assert(is_space_char(s[0]));
        lemma_ws_len_at(s.drop_first(), k - 1);
    }
}

/// A scan that stopped at the first whitespace character has measured
/// `token_len`.
proof fn lemma_token_len_at(s: Seq<char>, k: int)
    requires
        0 <= k <= s.len(),
        forall|j: int| 0 <= j < k ==> !is_space_char(s[j]),
        k == s.len() || is_space_char(s[k]),
    ensures
        token_len(s) == k,
    decreases k,
{
    if k == 0 {
    } else {
        assert(!is_space_char(s[0]));
        lemma_token_len_at(s.drop_first(), k - 1);
    }
}

/// Extract method and path from the framed header text.
///
/// Succeeds exactly when the first line of the input holds at least two
/// whitespace-separated tokens; the first becomes the method and the second
/// the path, both taken verbatim. Anything else is `Malformed`.
pub fn parse_request(request_str: &str) -> (r: Result<HttpRequest, HttpError>)
    ensures
        match r {
            Ok(req) => spec_parse(request_str@) == Some((req.method@, req.path@)),
            Err(e) => spec_parse(request_str@) is None && e == HttpError::Malformed,
        },
{
    let s = request_str;
    let n = s.unicode_len();

    // Extent of the first line.
    let mut line_end: usize = 0;
    while line_end < n && s.get_char(line_end) != '\n'
        invariant
            s@.len() == n,
            line_end <= n,
            forall|j: int| 0 <= j < line_end ==> s@[j] != '\n',
        decreases n - line_end,
    {
        line_end = line_end + 1;
    }
    proof {
        lemma_line_len_at(s@, line_end as int);
    }
    let ghost line = first_line(s@);
    proof {
        assert(line =~= s@.subrange(0, line_end as int));
    }

    // Start of the method token.
    let mut m0: usize = 0;
    while m0 < line_end && is_space(s.get_char(m0))
        invariant
            s@.len() == n,
            line_end <= n,
            m0 <= line_end,
            forall|j: int| 0 <= j < m0 ==> is_space_char(s@[j]),
        decreases line_end - m0,
    {
        m0 = m0 + 1;
    }
    // End of the method token.
    let mut m1: usize = m0;
    while m1 < line_end && !is_space(s.get_char(m1))
        invariant
            s@.len() == n,
            m0 <= m1 <= line_end <= n,
            forall|j: int| m0 <= j < m1 ==> !is_space_char(s@[j]),
        decreases line_end - m1,
    {
        m1 = m1 + 1;
    }
    // Start of the path token.
    let mut p0: usize = m1;
    while p0 < line_end && is_space(s.get_char(p0))
        invariant
            s@.len() == n,
            m1 <= p0 <= line_end <= n,
            forall|j: int| m1 <= j < p0 ==> is_space_char(s@[j]),
        decreases line_end - p0,
    {
        p0 = p0 + 1;
    }
    // End of the path token.
    let mut p1: usize = p0;
    while p1 < line_end && !is_space(s.get_char(p1))
        invariant
            s@.len() == n,
            p0 <= p1 <= line_end <= n,
            forall|j: int| p0 <= j < p1 ==> !is_space_char(s@[j]),
        decreases line_end - p1,
    {
        p1 = p1 + 1;
    }

    proof {
        let at_method = skip_ws(line);
        lemma_ws_len_at(line, m0 as int);
        assert(at_method =~= s@.subrange(m0 as int, line_end as int));
        lemma_token_len_at(at_method, m1 - m0);
        assert(first_token(at_method) =~= s@.subrange(m0 as int, m1 as int));
        let at_path = skip_ws(after_token(at_method));
        assert(after_token(at_method) =~= s@.subrange(m1 as int, line_end as int));
        lemma_ws_len_at(after_token(at_method), p0 - m1);
        assert(at_path =~= s@.subrange(p0 as int, line_end as int));
        lemma_token_len_at(at_path, p1 - p0);
        assert(first_token(at_path) =~= s@.subrange(p0 as int, p1 as int));
    }

    if m1 > m0 && p1 > p0 {
        let method_str = s.substring_char(m0, m1);
        let path_str = s.substring_char(p0, p1);
        Ok(HttpRequest { method: method_str.to_owned(), path: path_str.to_owned() })
    } else {
        Err(HttpError::Malformed)
    }
}

} // verus!
