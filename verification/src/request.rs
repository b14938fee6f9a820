//! Reading the request line: the first line of what a client sent, and the
//! method and target on it.

use crate::codec::{from_utf8_lossy, lossy_text};
use crate::text::to_chars;
use vstd::prelude::*;

verus! {

/// The characters that separate the parts of a request line: those with the
/// Unicode property `White_Space`.
pub open spec fn is_whitespace(c: char) -> bool {
    let code = c as u32;
    ||| 0x09 <= code <= 0x0d
    ||| code == 0x20
    ||| code == 0x85
    ||| code == 0xa0
    ||| code == 0x1680
    ||| 0x2000 <= code <= 0x200a
    ||| code == 0x2028
    ||| code == 0x2029
    ||| code == 0x202f
    ||| code == 0x205f
    ||| code == 0x3000
}

/// The first position at or after `from` that holds no whitespace, or the end.
pub open spec fn skip_whitespace(line: Seq<char>, from: int) -> int
    decreases line.len() - from,
{
    if 0 <= from < line.len() && is_whitespace(line[from]) {
        skip_whitespace(line, from + 1)
    } else {
        from
    }
}

/// The first position at or after `from` that holds whitespace, or the end.
pub open spec fn skip_token(line: Seq<char>, from: int) -> int
    decreases line.len() - from,
{
    if 0 <= from < line.len() && !is_whitespace(line[from]) {
        skip_token(line, from + 1)
    } else {
        from
    }
}

/// The first run of characters other than whitespace at or after `from`;
/// empty when there is none.
pub open spec fn token_from(line: Seq<char>, from: int) -> Seq<char> {
    let start = skip_whitespace(line, from);
    line.subrange(start, skip_token(line, start))
}

/// Where the token that `token_from` finds ends.
pub open spec fn token_end(line: Seq<char>, from: int) -> int {
    skip_token(line, skip_whitespace(line, from))
}

/// The method of a request line: its first token.
pub open spec fn method_of(line: Seq<char>) -> Seq<char> {
    token_from(line, 0)
}

/// The target of a request line: its second token.
pub open spec fn target_of(line: Seq<char>) -> Seq<char> {
    token_from(line, token_end(line, 0))
}

/// The position of the first line feed at or after `from`, or the end.
pub open spec fn line_feed(text: Seq<char>, from: int) -> int
    decreases text.len() - from,
{
    if 0 <= from < text.len() && text[from] != '\n' {
        line_feed(text, from + 1)
    } else {
        from
    }
}

/// The first line of a text, without the line feed that ends it nor a
/// carriage return just before that line feed. A text without a line feed is
/// its own first line.
pub open spec fn first_line_of(text: Seq<char>) -> Seq<char> {
    let end = line_feed(text, 0);
    if 0 < end < text.len() && text[end - 1] == '\r' {
        text.subrange(0, end - 1)
    } else {
        text.subrange(0, end)
    }
}

proof fn lemma_skip_whitespace(line: Seq<char>, from: int)
    requires
        0 <= from <= line.len(),
    ensures
        from <= skip_whitespace(line, from) <= line.len(),
        skip_whitespace(line, from) < line.len() ==> !is_whitespace(
            line[skip_whitespace(line, from)],
        ),
    decreases line.len() - from,
{
    if from < line.len() && is_whitespace(line[from]) {
        lemma_skip_whitespace(line, from + 1);
    }
}

proof fn lemma_skip_token(line: Seq<char>, from: int)
    requires
        0 <= from <= line.len(),
    ensures
        from <= skip_token(line, from) <= line.len(),
        forall|i: int| from <= i < skip_token(line, from) ==> !is_whitespace(#[trigger] line[i]),
        from < line.len() && !is_whitespace(line[from]) ==> from < skip_token(line, from),
    decreases line.len() - from,
{
    if from < line.len() && !is_whitespace(line[from]) {
        lemma_skip_token(line, from + 1);
    }
}

proof fn lemma_token_from(line: Seq<char>, from: int)
    requires
        0 <= from <= line.len(),
    ensures
        from <= token_end(line, from) <= line.len(),
        forall|i: int|
            0 <= i < token_from(line, from).len() ==> !is_whitespace(
                #[trigger] token_from(line, from)[i],
            ),
        token_from(line, from).len() == 0 ==> token_end(line, from) == line.len(),
{
    let start = skip_whitespace(line, from);
    lemma_skip_whitespace(line, from);
    lemma_skip_token(line, start);
    let token = token_from(line, from);
    assert forall|i: int| 0 <= i < token.len() implies !is_whitespace(#[trigger] token[i]) by {
        assert(token[i] == line[start + i]);
    }
}

/// Neither part of a request line holds whitespace, and a line without a
/// method has no target either.
pub proof fn lemma_parts_hold_no_whitespace(line: Seq<char>)
    ensures
        forall|i: int|
            0 <= i < method_of(line).len() ==> !is_whitespace(#[trigger] method_of(line)[i]),
        forall|i: int|
            0 <= i < target_of(line).len() ==> !is_whitespace(#[trigger] target_of(line)[i]),
        method_of(line).len() == 0 ==> target_of(line).len() == 0,
{
    lemma_token_from(line, 0);
    lemma_token_from(line, token_end(line, 0));
    if method_of(line).len() == 0 {
        let end = line.len() as int;
        assert(skip_whitespace(line, end) == end);
        assert(skip_token(line, end) == end);
    }
}

/// Whether `c` separates the parts of a request line.
pub fn is_separator(c: char) -> (b: bool)
    ensures
        b == is_whitespace(c),
{
    let code: u32 = c as u32;
    (0x09 <= code && code <= 0x0d) || code == 0x20 || code == 0x85 || code == 0xa0 || code
        == 0x1680 || (0x2000 <= code && code <= 0x200a) || code == 0x2028 || code == 0x2029
        || code == 0x202f || code == 0x205f || code == 0x3000
}

fn scan_whitespace(line: &Vec<char>, from: usize) -> (to: usize)
    requires
        from <= line.len(),
    ensures
        to == skip_whitespace(line@, from as int),
        from <= to <= line.len(),
{
    let mut i: usize = from;
    while i < line.len() && is_separator(line[i])
        invariant
            from <= i <= line.len(),
            skip_whitespace(line@, from as int) == skip_whitespace(line@, i as int),
        decreases line.len() - i,
    {
        i += 1;
    }
    i
}

fn scan_token(line: &Vec<char>, from: usize) -> (to: usize)
    requires
        from <= line.len(),
    ensures
        to == skip_token(line@, from as int),
        from <= to <= line.len(),
{
    let mut i: usize = from;
    while i < line.len() && !is_separator(line[i])
        invariant
            from <= i <= line.len(),
            skip_token(line@, from as int) == skip_token(line@, i as int),
        decreases line.len() - i,
    {
        i += 1;
    }
    i
}

/// Splits a request line on whitespace into method and target. A part that
/// is missing comes back empty; nothing is rejected here.
pub fn parse_request_line(request_line: &str) -> (parts: (&str, &str))
    ensures
        parts.0@ == method_of(request_line@),
        parts.1@ == target_of(request_line@),
{
    let chars = to_chars(request_line);
    let method_start = scan_whitespace(&chars, 0);
    let method_end = scan_token(&chars, method_start);
    let target_start = scan_whitespace(&chars, method_end);
    let target_end = scan_token(&chars, target_start);
    let method = request_line.substring_char(method_start, method_end);
    let target = request_line.substring_char(target_start, target_end);
    (method, target)
}

/// The first line of `text`.
pub fn first_line(text: &str) -> (line: &str)
    ensures
        line@ == first_line_of(text@),
{
    let chars = to_chars(text);
    let mut end: usize = 0;
    while end < chars.len() && chars[end] != '\n'
        invariant
            end <= chars.len(),
            line_feed(chars@, 0) == line_feed(chars@, end as int),
        decreases chars.len() - end,
    {
        end += 1;
    }
    if 0 < end && end < chars.len() && chars[end - 1] == '\r' {
        text.substring_char(0, end - 1)
    } else {
        text.substring_char(0, end)
    }
}

/// A parsed request: the two parts of the request line that the server reads.
#[derive(Clone, Debug, PartialEq, Eq)]
pub struct Request {
    pub method: String,
    pub target: String,
}

/// A request as plain text.
pub struct RequestView {
    pub method: Seq<char>,
    pub target: Seq<char>,
}

impl View for Request {
    type V = RequestView;

    open spec fn view(&self) -> RequestView {
        RequestView { method: self.method@, target: self.target@ }
    }
}

/// The request that raw bytes from a connection hold: the bytes are read as
/// UTF-8, lossily, and only their first line counts.
pub open spec fn request_of(bytes: Seq<u8>) -> RequestView {
    let line = first_line_of(lossy_text(bytes));
    RequestView { method: method_of(line), target: target_of(line) }
}

/// Reads the request out of the bytes that a connection delivered.
pub fn parse_request(bytes: &[u8]) -> (request: Request)
    ensures
        request@ == request_of(bytes@),
{
    let text = from_utf8_lossy(bytes);
    let line = first_line(text.as_str());
    let (method, target) = parse_request_line(line);
    Request { method: method.to_owned(), target: target.to_owned() }
}

} // verus!
