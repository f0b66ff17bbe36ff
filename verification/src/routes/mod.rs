//! The health check endpoint: what a request line is answered, and the text of an answer.

use crate::text::{chars_of, decimal_string, push_decimal, string_from_chars, words_exec, words_from};
use vstd::prelude::*;

verus! {

/// The answer to a request: a status code and a body of plain text.
#[derive(Debug, Clone, Copy)]
pub struct Response {
    pub status: u16,
    pub body: &'static str,
}

/// The status and body that answer a request line: `GET /health` is healthy, another path
/// is not found, and another method, or a line without a method, a path and a version, is a
/// bad request.
pub open spec fn response_for(request_line: Seq<char>) -> (u16, Seq<char>) {
    let parts = words_from(request_line, 0);
    if parts.len() < 3 {
        (400, "Bad Request"@)
    } else if parts[0] == "GET"@ && parts[1] == "/health"@ {
        (200, "Healthy\n"@)
    } else if parts[0] == "GET"@ {
        (404, "Not Found\n"@)
    } else {
        (400, "Bad Request\n"@)
    }
}

/// A request line with a method, a path and a version whose method is not `GET` is a bad
/// request, whatever its path.
pub proof fn law_other_method_is_bad_request(request_line: Seq<char>)
    requires
        words_from(request_line, 0).len() >= 3,
        words_from(request_line, 0)[0] != "GET"@,
    ensures
        response_for(request_line) == (400u16, "Bad Request\n"@),
{
}

/// `GET` of a path other than `/health` is not found.
pub proof fn law_other_path_is_not_found(request_line: Seq<char>)
    requires
        words_from(request_line, 0).len() >= 3,
        words_from(request_line, 0)[0] == "GET"@,
        words_from(request_line, 0)[1] != "/health"@,
    ensures
        response_for(request_line) == (404u16, "Not Found\n"@),
{
}

/// `GET /health` is healthy, and only it: every other line is answered with 400 or 404.
pub proof fn law_only_health_is_healthy(request_line: Seq<char>)
    ensures
        response_for(request_line).0 == 200 <==> (words_from(request_line, 0).len() >= 3
            && words_from(request_line, 0)[0] == "GET"@ && words_from(request_line, 0)[1]
            == "/health"@),
        response_for(request_line).0 != 200 ==> response_for(request_line).0 == 400
            || response_for(request_line).0 == 404,
{
}

/// A line without a method, a path and a version is a bad request.
pub proof fn law_short_line_is_bad_request(request_line: Seq<char>)
    requires
        words_from(request_line, 0).len() < 3,
    ensures
        response_for(request_line).0 == 400,
{
}

/// The reason phrase of a status code.
pub open spec fn status_text_spec(status: u16) -> Seq<char> {
    if status == 200 {
        "OK"@
    } else if status == 400 {
        "Bad Request"@
    } else if status == 404 {
        "Not Found"@
    } else {
        "Internal Server Error"@
    }
}

/// The text of an HTTP/1.1 answer with a status, a content type and a body whose UTF-8
/// encoding has `body_len` bytes; the connection closes after it.
pub open spec fn response_text(
    status: u16,
    content_type: Seq<char>,
    body: Seq<char>,
    body_len: nat,
) -> Seq<char> {
    "HTTP/1.1 "@ + decimal_string(status as nat) + " "@ + status_text_spec(status) + "\r\nContent-Type: "@
        + content_type + "\r\nContent-Length: "@ + decimal_string(body_len) + "\r\nConnection: close\r\n\r\n"@
        + body
}

/// `v[lo..hi]` is the text `word`.
fn range_is(v: &Vec<char>, lo: usize, hi: usize, word: &str) -> (res: bool)
    requires
        lo <= hi <= v.len(),
    ensures
        res == (v@.subrange(lo as int, hi as int) == word@),
{
    let w = chars_of(word);
    if hi - lo != w.len() {
        return false;
    }
    let mut i: usize = 0;
    while i < w.len()
        invariant
            lo + w.len() == hi <= v.len(),
            w@ == word@,
            i <= w.len(),
            forall|j: int| 0 <= j < i ==> v@[lo + j] == w@[j],
        decreases w.len() - i,
    {
        if v[lo + i] != w[i] {
            assert(v@.subrange(lo as int, hi as int)[i as int] != w@[i as int]);
            return false;
        }
        i += 1;
    }
    assert(v@.subrange(lo as int, hi as int) =~= w@);
    true
}

/// The answer to the first line of a request.
pub fn handle_request_line(request_line: &str) -> (res: Response)
    ensures
        (res.status, res.body@) == response_for(request_line@),
{
    let v = chars_of(request_line);
    let parts = words_exec(&v);
    assert(crate::text::ranges_view(v@, parts@) == words_from(request_line@, 0));
    if parts.len() < 3 {
        return Response { status: 400, body: "Bad Request" };
    }
    let (m0, m1) = parts[0];
    let (p0, p1) = parts[1];
    let is_get = range_is(&v, m0, m1, "GET");
    if is_get && range_is(&v, p0, p1, "/health") {
        Response { status: 200, body: "Healthy\n" }
    } else if is_get {
        Response { status: 404, body: "Not Found\n" }
    } else {
        Response { status: 400, body: "Bad Request\n" }
    }
}

/// The reason phrase of a status code.
pub fn status_text(status: u16) -> (res: &'static str)
    ensures
        res@ == status_text_spec(status),
{
    if status == 200 {
        "OK"
    } else if status == 400 {
        "Bad Request"
    } else if status == 404 {
        "Not Found"
    } else {
        "Internal Server Error"
    }
}

/// The decimal digits of `n` as a `String`.
fn decimal(n: u64) -> (res: String)
    ensures
        res@ == decimal_string(n as nat),
{
    let mut digits: Vec<char> = Vec::new();
    push_decimal(&mut digits, n);
    assert(digits@ =~= decimal_string(n as nat));
    let res = string_from_chars(&digits, 0, digits.len());
    assert(digits@.subrange(0, digits@.len() as int) =~= digits@);
    res
}

/// The text of the answer with `status`, `content_type` and `body`: its status line, its
/// headers (`Content-Length` counts the bytes of the body) and its body.
pub fn render_response(status: u16, content_type: &str, body: &str) -> (res: String)
    ensures
        res@ == response_text(status, content_type@, body@, body.len() as nat),
{
    let mut res = String::from_str("HTTP/1.1 ");
    let code = decimal(status as u64);
    res.append(code.as_str());
    res.append(" ");
    res.append(status_text(status));
    res.append("\r\nContent-Type: ");
    res.append(content_type);
    res.append("\r\nContent-Length: ");
    let length = decimal(body.len() as u64);
    res.append(length.as_str());
    res.append("\r\nConnection: close\r\n\r\n");
    res.append(body);
    assert(res@ =~= response_text(status, content_type@, body@, body.len() as nat));
    res
}

} // verus!
