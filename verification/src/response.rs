//! Path resolution, content typing, and response building: map a request
//! path to a filesystem path under the root, infer the MIME type from the
//! extension, and assemble status line, headers, and body.
use vstd::prelude::*;

use crate::HttpError;
use crate::decimal::decimal_string;
use crate::decimal::spec_decimal;
use crate::request::HttpRequest;
use crate::request::parse_request;
use crate::request::spec_parse;
use crate::text::lemma_suffix_after_last_at;
use crate::text::str_eq;
use crate::text::suffix_after_last;
use vstd::string::StringSliceAdditionalSpecFns;

verus! {

/// The length of the leading run of `'/'` characters.
pub open spec fn slashes_len(s: Seq<char>) -> nat
    decreases s.len(),
{
    if s.len() > 0 && s[0] == '/' {
        1 + slashes_len(s.drop_first())
    } else {
        0
    }
}

/// `s` with all leading `'/'` characters removed.
pub open spec fn skip_slashes(s: Seq<char>) -> Seq<char> {
    s.skip(slashes_len(s) as int)
}

/// The path relative to the root that a request path selects: the two
/// index aliases select `index.html`; any other path is taken as it is,
/// leading slashes removed.
pub open spec fn spec_rel_target(path: Seq<char>) -> Seq<char> {
    if path == "/"@ || path == "/index"@ {
        "index.html"@
    } else {
        skip_slashes(path)
    }
}

/// The filesystem path a request path resolves to under `root`: the
/// relative target appended after a single separator. No `..` segment is
/// rejected or normalized; the path is concatenated as sent.
pub open spec fn spec_resolved_path(root: Seq<char>, path: Seq<char>) -> Seq<char> {
    root + "/"@ + spec_rel_target(path)
}

/// A scan that stopped at the first character other than `'/'` has
/// measured `slashes_len`.
proof fn lemma_slashes_len_at(s: Seq<char>, k: int)
    requires
        0 <= k <= s.len(),
        forall|j: int| 0 <= j < k ==> s[j] == '/',
        k == s.len() || s[k] != '/',
    ensures
        slashes_len(s) == k,
    decreases k,
{
    if k == 0 {
    } else {
        assert(s[0] == '/');
        lemma_slashes_len_at(s.drop_first(), k - 1);
    }
}

/// Map a request path to a filesystem path under `root`, joining with a
/// single `'/'`. `/` and `/index` select `root/index.html`; any other
/// path is appended verbatim with its leading slashes removed.
pub fn generate_path(request: &HttpRequest, root: &str) -> (p: String)
    ensures
        p@ == spec_resolved_path(root@, request.path@),
{
    let mut p = String::from_str(root);
    p.append("/");
    let path = request.path.as_str();
    if str_eq(path, "/") || str_eq(path, "/index") {
        p.append("index.html");
    } else {
        let n = path.unicode_len();
        let mut i: usize = 0;
        while i < n && path.get_char(i) == '/'
            invariant
                path@.len() == n,
                i <= n,
                forall|j: int| 0 <= j < i ==> path@[j] == '/',
            decreases n - i,
        {
            i = i + 1;
        }
        proof {
            lemma_slashes_len_at(path@, i as int);
        }
        let rest = path.substring_char(i, n);
        p.append(rest);
        proof {
            assert(path@.subrange(i as int, n as int) =~= skip_slashes(path@));
        }
    }
    p
}

/// Both index aliases resolve to the root's `index.html`.
pub proof fn lemma_resolve_index(root: Seq<char>)
    ensures
        spec_resolved_path(root, "/"@) == root + "/"@ + "index.html"@,
        spec_resolved_path(root, "/index"@) == root + "/"@ + "index.html"@,
{
}

/// Prepending one more `'/'` to a request path does not change where it
/// resolves, as long as neither form is one of the index aliases. Repeated
/// application covers any number of leading slashes.
pub proof fn lemma_resolve_extra_slash(root: Seq<char>, path: Seq<char>)
    requires
        path != "/"@,
        path != "/index"@,
        seq!['/'] + path != "/"@,
        seq!['/'] + path != "/index"@,
    ensures
        spec_resolved_path(root, seq!['/'] + path) == spec_resolved_path(root, path),
{
    let q = seq!['/'] + path;
    assert(q[0] == '/');
    assert(q.drop_first() =~= path);
    assert(slashes_len(q) == 1 + slashes_len(path));
    assert(slashes_len(path) <= path.len()) by {
        lemma_slashes_len_bound(path);
    }
    assert(skip_slashes(q) =~= skip_slashes(path));
}

/// The leading run of slashes never reaches past the end of the sequence.
proof fn lemma_slashes_len_bound(s: Seq<char>)
    ensures
        slashes_len(s) <= s.len(),
    decreases s.len(),
{
    if s.len() > 0 && s[0] == '/' {
        lemma_slashes_len_bound(s.drop_first());
    }
}

/// The extension of the file a path names: what follows the last `'.'` of
/// the final path segment, provided that dot is not the segment's first
/// character; absent otherwise.
pub open spec fn spec_extension(p: Seq<char>) -> Option<Seq<char>> {
    let name = suffix_after_last(p, '/');
    if exists|i: int| 1 <= i < name.len() && name[i] == '.' {
        Some(suffix_after_last(name, '.'))
    } else {
        None
    }
}

/// The MIME type for an extension: the fixed, case-sensitive table, with
/// the binary default for any other or missing extension.
pub open spec fn spec_mime_type(ext: Option<Seq<char>>) -> Seq<char> {
    if ext == Some("html"@) {
        "text/html"@
    } else if ext == Some("css"@) {
        "text/css"@
    } else if ext == Some("js"@) {
        "application/javascript"@
    } else if ext == Some("png"@) {
        "image/png"@
    } else if ext == Some("jpg"@) || ext == Some("jpeg"@) {
        "image/jpeg"@
    } else if ext == Some("gif"@) {
        "image/gif"@
    } else {
        "application/octet-stream"@
    }
}

/// Content typing is total: whatever the extension, even a missing one,
/// the type is one of the seven fixed MIME strings or the binary default.
pub proof fn lemma_mime_total(ext: Option<Seq<char>>)
    ensures
        spec_mime_type(ext) == "text/html"@ || spec_mime_type(ext) == "text/css"@ || spec_mime_type(
            ext,
        ) == "application/javascript"@ || spec_mime_type(ext) == "image/png"@ || spec_mime_type(ext)
            == "image/jpeg"@ || spec_mime_type(ext) == "image/gif"@ || spec_mime_type(ext)
            == "application/octet-stream"@,
{
}

/// The fixed table: each of the seven known extensions maps to its MIME
/// string, and every other extension, or none, maps to the binary default.
pub proof fn lemma_mime_table(ext: Option<Seq<char>>)
    ensures
        spec_mime_type(Some("html"@)) == "text/html"@,
        spec_mime_type(Some("css"@)) == "text/css"@,
        spec_mime_type(Some("js"@)) == "application/javascript"@,
        spec_mime_type(Some("png"@)) == "image/png"@,
        spec_mime_type(Some("jpg"@)) == "image/jpeg"@,
        spec_mime_type(Some("jpeg"@)) == "image/jpeg"@,
        spec_mime_type(Some("gif"@)) == "image/gif"@,
        ext != Some("html"@) && ext != Some("css"@) && ext != Some("js"@) && ext != Some("png"@)
            && ext != Some("jpg"@) && ext != Some("jpeg"@) && ext != Some("gif"@) ==> spec_mime_type(
            ext,
        ) == "application/octet-stream"@,
{
    reveal_strlit("html");
    reveal_strlit("css");
    reveal_strlit("js");
    reveal_strlit("png");
    reveal_strlit("jpg");
    reveal_strlit("jpeg");
    reveal_strlit("gif");
    assert("html"@ =~= seq!['h', 't', 'm', 'l']);
    assert("css"@ =~= seq!['c', 's', 's']);
    assert("js"@ =~= seq!['j', 's']);
    assert("png"@ =~= seq!['p', 'n', 'g']);
    assert("jpg"@ =~= seq!['j', 'p', 'g']);
    assert("jpeg"@ =~= seq!['j', 'p', 'e', 'g']);
    assert("gif"@ =~= seq!['g', 'i', 'f']);
}

/// The MIME type for the file a path names, from its extension alone.
/// Total: every path gets a type, unknown extensions falling back to the
/// binary default.
pub fn detect_mime_type(path: &str) -> (m: &'static str)
    ensures
        m@ == spec_mime_type(spec_extension(path@)),
{
    let n = path.unicode_len();

    // Where the final path segment begins: just past the last '/'.
    let mut name_start: usize = n;
    while name_start > 0 && path.get_char(name_start - 1) != '/'
        invariant
            path@.len() == n,
            name_start <= n,
            forall|j: int| name_start <= j < n ==> path@[j] != '/',
        decreases name_start,
    {
        name_start = name_start - 1;
    }
    let ghost name = suffix_after_last(path@, '/');
    proof {
        lemma_suffix_after_last_at(path@, '/', name_start as int);
        assert(name =~= path@.subrange(name_start as int, n as int));
    }

    // The last '.' strictly inside the segment, scanning from the end.
    let mut dot_end: usize = n;
    while dot_end > 0 && dot_end - 1 > name_start && path.get_char(dot_end - 1) != '.'
        invariant
            path@.len() == n,
            name_start <= n,
            dot_end <= n,
            forall|j: int| dot_end <= j < n ==> path@[j] != '.',
        decreases dot_end,
    {
        dot_end = dot_end - 1;
    }

    if dot_end > 0 && dot_end - 1 > name_start && path.get_char(dot_end - 1) == '.' {
        proof {
            assert(name[dot_end - 1 - name_start as int] == '.');
            assert forall|j: int| (dot_end - name_start as int) <= j < name.len() implies name[j]
                != '.' by {
                assert(name[j] == path@[name_start + j]);
            }
            lemma_suffix_after_last_at(name, '.', dot_end - name_start as int);
            assert(name.skip(dot_end - name_start as int) =~= path@.subrange(
                dot_end as int,
                n as int,
            ));
            assert(spec_extension(path@) == Some(path@.subrange(dot_end as int, n as int)));
        }
        let ext = path.substring_char(dot_end, n);
        if str_eq(ext, "html") {
            "text/html"
        } else if str_eq(ext, "css") {
            "text/css"
        } else if str_eq(ext, "js") {
            "application/javascript"
        } else if str_eq(ext, "png") {
            "image/png"
        } else if str_eq(ext, "jpg") {
            "image/jpeg"
        } else if str_eq(ext, "jpeg") {
            "image/jpeg"
        } else if str_eq(ext, "gif") {
            "image/gif"
        } else {
            "application/octet-stream"
        }
    } else {
        proof {
            assert forall|i: int| 1 <= i < name.len() implies name[i] != '.' by {
                assert(name[i] == path@[name_start + i]);
            }
            assert(spec_extension(path@) is None);
        }
        "application/octet-stream"
    }
}

/// The body written when even the root's `404.html` page cannot be read.
pub open spec fn default_404_body() -> Seq<u8> {
    "<h1>404 Not Found</h1>".spec_bytes()
}

/// Choose the body of a `404` response: the root's `404.html` page when it
/// could be read, the fixed minimal page otherwise.
pub fn handle_404(page: Option<Vec<u8>>) -> (body: Vec<u8>)
    ensures
        page matches Some(c) ==> body@ == c@,
        page is None ==> body@ == default_404_body(),
{
    match page {
        Some(contents) => contents,
        None => ("<h1>404 Not Found</h1>").as_bytes_vec(),
    }
}

/// The header block of a response: status line, `Content-Type`, a
/// `Content-Length` holding the decimal numeral of `len`, and the blank
/// line that ends the headers.
pub open spec fn spec_header(status_line: Seq<char>, content_type: Seq<char>, len: nat) -> Seq<
    char,
> {
    status_line + "\r\nContent-Type: "@ + content_type + "\r\nContent-Length: "@ + spec_decimal(len)
        + "\r\n\r\n"@
}

/// One assembled response: the status line, the content type, and the body
/// whose exact byte length the header will carry.
pub struct HttpResponse {
    pub status_line: String,
    pub content_type: String,
    pub body: Vec<u8>,
}

impl HttpResponse {
    /// The header block to write before the body, its `Content-Length`
    /// the exact byte length of this response's body.
    pub fn header_string(&self) -> (h: String)
        ensures
            h@ == spec_header(self.status_line@, self.content_type@, self.body@.len()),
    {
        let mut h = String::from_str(self.status_line.as_str());
        h.append("\r\nContent-Type: ");
        h.append(self.content_type.as_str());
        h.append("\r\nContent-Length: ");
        let numeral = decimal_string(self.body.len());
        h.append(numeral.as_str());
        h.append("\r\n\r\n");
        h
    }
}

/// Assemble the response for a resolved file: `200 OK` with the file's
/// bytes when it could be read, `404 NOT FOUND` with the fallback body
/// otherwise. `not_found_page` is what reading the root's `404.html`
/// produced; the content type is the one inferred from the resolved path.
pub fn build_response(content: Option<Vec<u8>>, not_found_page: Option<Vec<u8>>, content_type: &str) -> (r:
    HttpResponse)
    ensures
        r.content_type@ == content_type@,
        content matches Some(c) ==> r.status_line@ == "HTTP/1.1 200 OK"@ && r.body@ == c@,
        content is None ==> r.status_line@ == "HTTP/1.1 404 NOT FOUND"@ && (not_found_page matches
            Some(p) ==> r.body@ == p@) && (not_found_page is None ==> r.body@
            == default_404_body()),
{
    match content {
        Some(contents) => HttpResponse {
            status_line: String::from_str("HTTP/1.1 200 OK"),
            content_type: String::from_str(content_type),
            body: contents,
        },
        None => HttpResponse {
            status_line: String::from_str("HTTP/1.1 404 NOT FOUND"),
            content_type: String::from_str(content_type),
            body: handle_404(not_found_page),
        },
    }
}

/// The pure core of one connection, between the reads and the writes:
/// parse the framed header text, then resolve the filesystem path and the
/// content type under `root`.
pub fn resolve_request(request_str: &str, root: &str) -> (r: Result<(String, String), HttpError>)
    ensures
        match r {
            Ok(target) => spec_parse(request_str@) matches Some(pr) && target.0@
                == spec_resolved_path(root@, pr.1) && target.1@ == spec_mime_type(
                spec_extension(target.0@),
            ),
            Err(e) => spec_parse(request_str@) is None && e == HttpError::Malformed,
        },
{
    let request = parse_request(request_str)?;
    let path = generate_path(&request, root);
    let mime = detect_mime_type(path.as_str());
    Ok((path, String::from_str(mime)))
}

} // verus!

