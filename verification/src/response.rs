//! Responses and their form on the wire: a status line, the two headers
//! `Content-Type` and `Content-Length`, a blank line and the body.

use vstd::prelude::*;
use vstd::string::*;
use vstd::utf8::*;

verus! {

/// A response, assembled in full before any of it is written.
#[derive(Clone, Debug, PartialEq, Eq)]
pub struct Response {
    /// Status code and reason phrase, such as `200 OK`.
    pub status: String,
    pub content_type: String,
    pub body: Vec<u8>,
}

/// A response as plain values.
pub struct ResponseView {
    pub status: Seq<char>,
    pub content_type: Seq<char>,
    pub body: Seq<u8>,
}

impl View for Response {
    type V = ResponseView;

    open spec fn view(&self) -> ResponseView {
        ResponseView { status: self.status@, content_type: self.content_type@, body: self.body@ }
    }
}

/// The character for a single decimal digit.
pub open spec fn digit_char(d: nat) -> char {
    if d == 0 {
        '0'
    } else if d == 1 {
        '1'
    } else if d == 2 {
        '2'
    } else if d == 3 {
        '3'
    } else if d == 4 {
        '4'
    } else if d == 5 {
        '5'
    } else if d == 6 {
        '6'
    } else if d == 7 {
        '7'
    } else if d == 8 {
        '8'
    } else {
        '9'
    }
}

/// A number in decimal, without leading zeros.
pub open spec fn decimal(n: nat) -> Seq<char>
    decreases n,
{
    if n < 10 {
        seq![digit_char(n)]
    } else {
        decimal(n / 10).push(digit_char(n % 10))
    }
}

/// Everything of a response that precedes its body.
pub open spec fn head_of(response: ResponseView) -> Seq<char> {
    "HTTP/1.1 "@ + response.status + "\r\nContent-Type: "@ + response.content_type
        + "\r\nContent-Length: "@ + decimal(response.body.len()) + "\r\n\r\n"@
}

/// The bytes that go out for a response: the head in UTF-8, then the body
/// untouched.
pub open spec fn wire_of(response: ResponseView) -> Seq<u8> {
    encode_utf8(head_of(response)) + response.body
}

/// A response whose body is text, sent as its UTF-8 bytes.
pub open spec fn text_response(
    status: Seq<char>,
    content_type: Seq<char>,
    body: Seq<char>,
) -> ResponseView {
    ResponseView { status, content_type, body: encode_utf8(body) }
}

/// The answer to a request for what is not there.
pub open spec fn not_found() -> ResponseView {
    text_response("404 Not Found"@, "text/html"@, "Not Found"@)
}

/// The answer to a request with any method but `GET`.
pub open spec fn method_not_allowed() -> ResponseView {
    text_response("405 Method Not Allowed"@, "text/html"@, "Method Not Allowed"@)
}

/// The answer to a request for a path outside the root.
pub open spec fn forbidden() -> ResponseView {
    text_response("403 Forbidden"@, "text/html"@, "Forbidden"@)
}

/// The answer to a request for a file that is there but cannot be read.
pub open spec fn internal_server_error() -> ResponseView {
    text_response("500 Internal Server Error"@, "text/html"@, "Internal Server Error"@)
}

/// The response that carries a rendered page.
pub open spec fn page(html: Seq<char>) -> ResponseView {
    text_response("200 OK"@, "text/html"@, html)
}

/// The media type that sniffing the leading bytes of `content` finds, if it
/// finds one.
pub uninterp spec fn sniffed_type(content: Seq<u8>) -> Option<Seq<char>>;

/// The media type to announce: the sniffed one, or the generic binary type
/// where sniffing found nothing.
pub open spec fn media_type_of(sniffed: Option<Seq<char>>) -> Seq<char> {
    match sniffed {
        Some(media_type) => media_type,
        None => "application/octet-stream"@,
    }
}

/// The response that serves a file's content under the type that was sniffed.
pub open spec fn file_response(content: Seq<u8>, sniffed: Option<Seq<char>>) -> ResponseView {
    ResponseView { status: "200 OK"@, content_type: media_type_of(sniffed), body: content }
}

/// Calls `infer::get` and takes the MIME type of what it found. Trusted: the
/// outcome depends on the bytes alone; which signatures are known is left to
/// `infer`. Some of its matchers add a 32-bit length read from the content to
/// an offset in `usize`, which only a 64-bit `usize` is sure to hold: with a
/// narrower one the call may panic or never return, so it is not made there.
#[verifier::external_body]
fn sniff(content: &[u8]) -> (found: Option<&'static str>)
    requires
        usize::BITS == 64,
    ensures
        match found {
            Some(media_type) => sniffed_type(content@) == Some(media_type@),
            None => sniffed_type(content@) is None,
        },
{
    match infer::get(content) {
        Some(kind) => Some(kind.mime_type()),
        None => None,
    }
}

fn digit_text(d: usize) -> (text: &'static str)
    requires
        d < 10,
    ensures
        text@ == seq![digit_char(d as nat)],
{
    proof {
        reveal_strlit("0");
        reveal_strlit("1");
        reveal_strlit("2");
        reveal_strlit("3");
        reveal_strlit("4");
        reveal_strlit("5");
        reveal_strlit("6");
        reveal_strlit("7");
        reveal_strlit("8");
        reveal_strlit("9");
    }
    let text = if d == 0 {
        "0"
    } else if d == 1 {
        "1"
    } else if d == 2 {
        "2"
    } else if d == 3 {
        "3"
    } else if d == 4 {
        "4"
    } else if d == 5 {
        "5"
    } else if d == 6 {
        "6"
    } else if d == 7 {
        "7"
    } else if d == 8 {
        "8"
    } else {
        "9"
    };
    assert(text@ =~= seq![digit_char(d as nat)]);
    text
}

fn append_decimal(out: &mut String, n: usize)
    ensures
        final(out)@ == old(out)@ + decimal(n as nat),
    decreases n,
{
    if n >= 10 {
        append_decimal(out, n / 10);
    }
    out.append(digit_text(n % 10));
    assert(final(out)@ =~= old(out)@ + decimal(n as nat));
}

/// Writes a number in decimal.
pub fn decimal_text(n: usize) -> (text: String)
    ensures
        text@ == decimal(n as nat),
{
    let mut text = String::new();
    append_decimal(&mut text, n);
    assert(text@ =~= decimal(n as nat));
    text
}

/// The media type to announce for content, given what sniffing found.
pub fn media_type(sniffed: Option<&str>) -> (media_type: String)
    ensures
        media_type@ == media_type_of(
            match sniffed {
                Some(found) => Some(found@),
                None => None,
            },
        ),
{
    match sniffed {
        Some(found) => found.to_owned(),
        None => "application/octet-stream".to_owned(),
    }
}

impl Response {
    /// A response with a textual body.
    pub fn text(status: &str, content_type: &str, body: &str) -> (response: Response)
        ensures
            response@ == text_response(status@, content_type@, body@),
    {
        Response {
            status: status.to_owned(),
            content_type: content_type.to_owned(),
            body: body.as_bytes_vec(),
        }
    }

    /// `404 Not Found`.
    pub fn not_found() -> (response: Response)
        ensures
            response@ == not_found(),
    {
        Response::text("404 Not Found", "text/html", "Not Found")
    }

    /// `405 Method Not Allowed`.
    pub fn method_not_allowed() -> (response: Response)
        ensures
            response@ == method_not_allowed(),
    {
        Response::text("405 Method Not Allowed", "text/html", "Method Not Allowed")
    }

    /// `403 Forbidden`.
    pub fn forbidden() -> (response: Response)
        ensures
            response@ == forbidden(),
    {
        Response::text("403 Forbidden", "text/html", "Forbidden")
    }

    /// `500 Internal Server Error`.
    pub fn internal_server_error() -> (response: Response)
        ensures
            response@ == internal_server_error(),
    {
        Response::text("500 Internal Server Error", "text/html", "Internal Server Error")
    }

    /// The response that carries a rendered page.
    pub fn page(html: &str) -> (response: Response)
        ensures
            response@ == page(html@),
    {
        Response::text("200 OK", "text/html", html)
    }

    /// The response that serves `content` under the media type that was
    /// sniffed from it, or as generic binary data where `sniffed` is `None`.
    pub fn with_sniffed_type(content: Vec<u8>, sniffed: Option<&str>) -> (response: Response)
        ensures
            response@ == file_response(
                content@,
                match sniffed {
                    Some(found) => Some(found@),
                    None => None,
                },
            ),
    {
        Response { status: "200 OK".to_owned(), content_type: media_type(sniffed), body: content }
    }

    /// The response that serves a file: its content, byte for byte, under the
    /// media type that its leading bytes give away. Sniffing needs a 64-bit
    /// `usize`.
    pub fn file(content: Vec<u8>) -> (response: Response)
        requires
            usize::BITS == 64,
        ensures
            response@ == file_response(content@, sniffed_type(content@)),
            response.body@ == content@,
    {
        let sniffed = sniff(content.as_slice());
        Response::with_sniffed_type(content, sniffed)
    }

    /// The bytes to write to the connection.
    pub fn to_bytes(&self) -> (bytes: Vec<u8>)
        ensures
            bytes@ == wire_of(self@),
    {
        let mut head = "HTTP/1.1 ".to_owned();
        head.append(self.status.as_str());
        head.append("\r\nContent-Type: ");
        head.append(self.content_type.as_str());
        head.append("\r\nContent-Length: ");
        append_decimal(&mut head, self.body.len());
        head.append("\r\n\r\n");
        assert(head@ =~= head_of(self@));
        let mut bytes = head.as_str().as_bytes_vec();
        bytes.extend_from_slice(self.body.as_slice());
        bytes
    }
}

} // verus!
