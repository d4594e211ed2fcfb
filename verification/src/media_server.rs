//! The local media server: where it listens, and the HTTP responses it
//! sends.

use crate::chars::chars_of;
use crate::chars::find_char;
use crate::chars::index_of;
use crate::chars::lines_of;
use crate::chars::lowercase;
use crate::chars::lowered;
use crate::chars::spells;
use crate::chars::split_lines;
use crate::chars::split_words;
use crate::chars::string_of;
use crate::chars::trim;
use crate::chars::trimmed;
use crate::chars::words_of;
use crate::text::decimal;
use crate::text::to_decimal;
use http_range::HttpRange;
use http_range::HttpRangeParseError;
use vstd::prelude::*;
use vstd::slice::slice_subrange;
use vstd::utf8::encode_utf8;

verus! {

/// Where the media server listens.
#[derive(Debug, Clone)]
pub struct MediaServerConfig {
    pub port: u16,
    pub host: String,
}

/// The running media server, as the rest of the application sees it.
#[derive(Debug)]
pub struct MediaServerState {
    config: MediaServerConfig,
}

/// The address under which a server on `host` and `port` serves files.
pub open spec fn base_url(host: Seq<char>, port: u16) -> Seq<char> {
    "http://"@ + host + ":"@ + decimal(port as nat)
}

/// The head of a response that carries, or announces, a whole file of
/// `length` bytes.
pub open spec fn full_head(mime_type: Seq<char>, length: nat) -> Seq<char> {
    "HTTP/1.1 200 OK\r\nContent-Type: "@ + mime_type + "\r\nContent-Length: "@ + decimal(length)
        + "\r\nAccept-Ranges: bytes\r\nAccess-Control-Allow-Origin: *\r\n\r\n"@
}

/// The body of an error response: the status and the message.
pub open spec fn error_body(status: u16, message: Seq<char>) -> Seq<char> {
    decimal(status as nat) + " "@ + message
}

/// A whole error response: its head, which announces the body's length in
/// bytes, and its body.
pub open spec fn error_text(status: u16, message: Seq<char>) -> Seq<char> {
    "HTTP/1.1 "@ + decimal(status as nat) + " "@ + message
        + "\r\nContent-Type: text/plain\r\nContent-Length: "@ + decimal(
        encode_utf8(error_body(status, message)).len(),
    ) + "\r\nAccess-Control-Allow-Origin: *\r\n\r\n"@ + error_body(status, message)
}

/// The last byte that a range of `length` bytes from `start` covers in a
/// file of `len` bytes.
pub open spec fn range_end(start: u64, length: u64, len: u64) -> int {
    if start + length - 1 < len - 1 {
        start + length - 1
    } else {
        len - 1
    }
}

/// The head of a response that carries the bytes `start` to `end` of a file
/// of `len` bytes.
pub open spec fn partial_head(mime_type: Seq<char>, start: nat, end: nat, len: nat) -> Seq<char> {
    "HTTP/1.1 206 Partial Content\r\nContent-Type: "@ + mime_type + "\r\nContent-Range: bytes "@
        + decimal(start) + "-"@ + decimal(end) + "/"@ + decimal(len) + "\r\nContent-Length: "@
        + decimal((end - start + 1) as nat)
        + "\r\nAccept-Ranges: bytes\r\nAccess-Control-Allow-Origin: *\r\nAccess-Control-Expose-Headers: content-range\r\n\r\n"@
}

impl MediaServerState {
    /// The configuration the server runs with.
    pub closed spec fn config(self) -> MediaServerConfig {
        self.config
    }

    /// The state of a server that runs with `config`.
    pub fn new(config: MediaServerConfig) -> (state: Self)
        ensures
            state.config() == config,
    {
        MediaServerState { config }
    }

    /// The address under which the server serves files: `http://`, the
    /// host, a colon, and the port in decimal.
    pub fn get_base_url(&self) -> (url: String)
        ensures
            url@ == base_url(self.config().host@, self.config().port),
    {
        let mut url = String::from_str("http://");
        url.append(self.config.host.as_str());
        url.append(":");
        let port = to_decimal(self.config.port as u64);
        url.append(port.as_str());
        url
    }
}

/// The head of a response for a whole file, as text.
fn full_head_text(mime_type: &str, length: u64) -> (head: String)
    ensures
        head@ == full_head(mime_type@, length as nat),
{
    let mut head = String::from_str("HTTP/1.1 200 OK\r\nContent-Type: ");
    head.append(mime_type);
    head.append("\r\nContent-Length: ");
    let digits = to_decimal(length);
    head.append(digits.as_str());
    head.append("\r\nAccept-Ranges: bytes\r\nAccess-Control-Allow-Origin: *\r\n\r\n");
    head
}

/// Appends `more` to `bytes`.
fn extend_bytes(bytes: &mut Vec<u8>, more: &Vec<u8>)
    ensures
        final(bytes)@ == old(bytes)@ + more@,
{
    let mut i: usize = 0;
    while i < more.len()
        invariant
            i <= more.len(),
            bytes@ == old(bytes)@ + more@.take(i as int),
        decreases more.len() - i,
    {
        bytes.push(more[i]);
        assert(more@.take(i + 1) =~= more@.take(i as int).push(more@[i as int]));
        i += 1;
    }
    assert(more@.take(more.len() as int) =~= more@);
}

/// The response to a request for a whole file: status 200 with the file's
/// type and length, then the content.
pub fn create_full_response(content: Vec<u8>, mime_type: &str) -> (response: Vec<u8>)
    ensures
        response@ == encode_utf8(full_head(mime_type@, content.len() as nat)) + content@,
{
    let head = full_head_text(mime_type, content.len() as u64);
    let mut response = head.as_str().as_bytes_vec();
    extend_bytes(&mut response, &content);
    response
}

/// The response to a `HEAD` request for a file of `len` bytes: the head of
/// the full response, and no content.
pub fn create_head_response(len: u64, mime_type: &str) -> (response: Vec<u8>)
    ensures
        response@ == encode_utf8(full_head(mime_type@, len as nat)),
{
    let head = full_head_text(mime_type, len);
    head.as_str().as_bytes_vec()
}

/// An error response in plain text: its body is the status and the message.
pub fn create_error_response(status: u16, message: &str) -> (response: Vec<u8>)
    ensures
        response@ == encode_utf8(error_text(status, message@)),
{
    let code = to_decimal(status as u64);
    let mut body = String::from_str(code.as_str());
    body.append(" ");
    body.append(message);
    assert(body@ =~= error_body(status, message@));
    let body_bytes = body.as_str().as_bytes_vec();
    let body_length = to_decimal(body_bytes.len() as u64);
    let mut text = String::from_str("HTTP/1.1 ");
    text.append(code.as_str());
    text.append(" ");
    text.append(message);
    text.append("\r\nContent-Type: text/plain\r\nContent-Length: ");
    text.append(body_length.as_str());
    text.append("\r\nAccess-Control-Allow-Origin: *\r\n\r\n");
    text.append(body.as_str());
    assert(text@ =~= error_text(status, message@));
    text.as_str().as_bytes_vec()
}

/// A run of bytes of a file.
#[derive(Debug, Clone, Copy, PartialEq, Eq, Structural)]
pub struct ByteRange {
    /// Position of the first byte.
    pub start: u64,
    /// Number of bytes.
    pub length: u64,
}

/// Why a `Range` header names no bytes of a file.
#[derive(Debug, Clone, Copy, PartialEq, Eq, Structural)]
pub enum RangeError {
    /// The header is malformed.
    InvalidRange,
    /// Every range of the header starts behind the end of the file.
    NoOverlap,
}

/// Why a request cannot be answered.
#[derive(Debug, Clone, Copy, PartialEq, Eq, Structural)]
pub enum RequestError {
    /// The request holds no line.
    Empty,
    /// The first line holds no method and target.
    InvalidRequestLine,
    /// The `Range` header could not be read.
    Range(RangeError),
}

/// What a request asks for.
#[derive(Debug)]
pub struct Request {
    /// The method, as written.
    pub method: String,
    /// The path of the file: the target without its leading slash,
    /// percent-decoded.
    pub file_path: String,
    /// The value of the `Range` header, if the request has one.
    pub range: Option<String>,
}

/// How a request for a file is answered.
#[derive(Debug, PartialEq, Eq)]
pub enum Answer {
    /// The response is complete as it stands.
    Complete(Vec<u8>),
    /// The response is this head, followed by a run of bytes of the file.
    Partial { head: Vec<u8>, body: ByteRange },
    /// The response is the full response for the content of the file.
    Whole,
}

/// The ranges that `http_range::HttpRange::parse` reads from a `Range`
/// header for a file of `size` bytes, or its error.
pub uninterp spec fn parsed_ranges(header: Seq<char>, size: u64) -> Result<
    Seq<ByteRange>,
    RangeError,
>;

/// The text that `percent_encoding::percent_decode` followed by
/// `decode_utf8_lossy` makes of a text.
pub uninterp spec fn percent_decoded(text: Seq<char>) -> Seq<char>;

/// Calls `http_range::HttpRange::parse`. Every range that the outside
/// function hands out lies within the file, and holds at least one byte
/// unless the file is empty.
#[verifier::external_body]
fn parse_ranges(header: &str, size: u64) -> (ranges: Result<Vec<ByteRange>, RangeError>)
    ensures
        match ranges {
            Ok(list) => {
                &&& parsed_ranges(header@, size) == Ok::<Seq<ByteRange>, RangeError>(list@)
                &&& forall|i: int|
                    0 <= i < list.len() ==> (#[trigger] list[i]).start + list[i].length <= size
                        && (size > 0 ==> list[i].length >= 1)
            },
            Err(error) => parsed_ranges(header@, size) == Err::<Seq<ByteRange>, RangeError>(error),
        },
{
    match HttpRange::parse(header, size) {
        Ok(ranges) => Ok(
            ranges.iter().map(|r| ByteRange { start: r.start, length: r.length }).collect(),
        ),
        Err(HttpRangeParseError::InvalidRange) => Err(RangeError::InvalidRange),
        Err(HttpRangeParseError::NoOverlap) => Err(RangeError::NoOverlap),
    }
}

/// Calls `percent_encoding::percent_decode` and `decode_utf8_lossy`: every
/// `%` with two hexadecimal digits becomes the byte they denote, and the
/// bytes are read as UTF-8, with the replacement character for what is
/// none.
#[verifier::external_body]
fn percent_decode(text: &str) -> (decoded: String)
    ensures
        decoded@ == percent_decoded(text@),
{
    percent_encoding::percent_decode(text.as_bytes()).decode_utf8_lossy().to_string()
}

/// The name and value of a header line: the lower-case form of what stands
/// before the first colon, and what stands after it, both without white
/// space around them. A line without a colon is no header.
pub open spec fn header_of(line: Seq<char>) -> Option<(Seq<char>, Seq<char>)> {
    let at = index_of(line, ':');
    if 0 <= at < line.len() {
        Some((lowercase(trimmed(line.take(at))), trimmed(line.skip(at + 1))))
    } else {
        None
    }
}

/// The number of lines before the first empty one.
pub open spec fn header_count(lines: Seq<Seq<char>>) -> int
    decreases lines.len(),
{
    if lines.len() == 0 || lines[0].len() == 0 {
        0
    } else {
        1 + header_count(lines.skip(1))
    }
}

/// The value of the last `Range` header among the first `upto` lines.
pub open spec fn range_among(lines: Seq<Seq<char>>, upto: int) -> Option<Seq<char>>
    decreases upto,
{
    if upto <= 0 {
        None
    } else {
        match header_of(lines[upto - 1]) {
            Some((name, value)) => if name == "range"@ {
                Some(value)
            } else {
                range_among(lines, upto - 1)
            },
            None => range_among(lines, upto - 1),
        }
    }
}

/// The target of a request without its leading slash.
pub open spec fn without_slash(target: Seq<char>) -> Seq<char> {
    if target.len() > 0 && target[0] == '/' {
        target.skip(1)
    } else {
        target
    }
}

/// What the text of a request asks for: the method and target are the first
/// two words of the first line; the headers are the lines after it, up to
/// the first empty one.
pub open spec fn is_request_of(request: Request, text: Seq<char>) -> bool {
    let lines = lines_of(text);
    let parts = words_of(lines[0]);
    let headers = lines.skip(1);
    &&& lines.len() > 0
    &&& parts.len() >= 2
    &&& request.method@ == parts[0]
    &&& request.file_path@ == percent_decoded(without_slash(parts[1]))
    &&& match range_among(headers, header_count(headers)) {
        Some(value) => request.range is Some && request.range->0@ == value,
        None => request.range is None,
    }
}

/// The error, if any, with which the text of a request is refused.
pub open spec fn request_error(text: Seq<char>) -> Option<RequestError> {
    let lines = lines_of(text);
    if lines.len() == 0 {
        Some(RequestError::Empty)
    } else if words_of(lines[0]).len() < 2 {
        Some(RequestError::InvalidRequestLine)
    } else {
        None
    }
}

/// Lines that are not empty count as headers: after `seen` of them, the
/// count goes on with the lines that follow.
proof fn lemma_header_count_step(lines: Seq<Seq<char>>, seen: int)
    requires
        0 <= seen <= lines.len(),
        forall|i: int| 0 <= i < seen ==> (#[trigger] lines[i]).len() > 0,
    ensures
        header_count(lines) == seen + header_count(lines.skip(seen)),
    decreases seen,
{
    if seen > 0 {
        let rest = lines.skip(1);
        assert(lines[0].len() > 0);
        assert forall|i: int| 0 <= i < seen - 1 implies (#[trigger] rest[i]).len() > 0 by {
            assert(rest[i] == lines[i + 1]);
        }
        lemma_header_count_step(rest, seen - 1);
        assert(rest.skip(seen - 1) =~= lines.skip(seen));
    } else {
        assert(lines.skip(0) =~= lines);
    }
}

/// Reads a request: its method, the path of the file it names, and the
/// value of its `Range` header.
///
/// Refused are a request without a line, and one whose first line has
/// fewer than two words. Of several `Range` headers the last one counts;
/// header names are matched in any case.
pub fn parse_request(text: &str) -> (parsed: Result<Request, RequestError>)
    ensures
        match parsed {
            Ok(request) => request_error(text@) is None && is_request_of(request, text@),
            Err(error) => request_error(text@) == Some(error),
        },
{
    let chars = chars_of(text);
    let lines = split_lines(chars.as_slice());
    if lines.len() == 0 {
        return Err(RequestError::Empty);
    }
    let parts = split_words(lines[0].as_slice());
    if parts.len() < 2 {
        return Err(RequestError::InvalidRequestLine);
    }
    let method = string_of(parts[0].as_slice());
    let target = parts[1].as_slice();
    let bare = if target.len() > 0 && target[0] == '/' {
        slice_subrange(target, 1, target.len())
    } else {
        target
    };
    assert(bare@ =~= without_slash(target@));
    let bare_text = string_of(bare);
    let file_path = percent_decode(bare_text.as_str());
    let ghost headers = lines_of(text@).skip(1);
    let mut range: Option<String> = None;
    let mut i: usize = 1;
    while i < lines.len() && lines[i].len() > 0
        invariant
            1 <= i <= lines.len(),
            lines.len() == lines_of(text@).len(),
            forall|k: int| 0 <= k < lines.len() ==> (#[trigger] lines[k])@ == lines_of(text@)[k],
            headers == lines_of(text@).skip(1),
            forall|k: int| 0 <= k < i - 1 ==> (#[trigger] headers[k]).len() > 0,
            match range_among(headers, i - 1) {
                Some(value) => range is Some && range->0@ == value,
                None => range is None,
            },
        decreases lines.len() - i,
    {
        let line = lines[i].as_slice();
        assert(line@ == headers[i - 1]);
        let at = find_char(line, ':');
        if at < line.len() {
            let before = slice_subrange(line, 0, at);
            assert(before@ =~= line@.take(at as int));
            let name = lowered(trim(before));
            let wanted = String::from_str("range");
            if name == wanted {
                let rest = slice_subrange(line, at + 1, line.len());
                assert(rest@ =~= line@.skip(at + 1));
                range = Some(string_of(trim(rest)));
            }
        }
        i += 1;
    }
    proof {
        lemma_header_count_step(headers, i - 1);
        let rest = headers.skip(i - 1);
        if i < lines.len() {
            assert(rest[0] == headers[i - 1]);
            assert(rest[0].len() == 0);
        } else {
            assert(rest.len() == 0);
        }
        assert(header_count(headers) == i - 1);
    }
    Ok(Request { method, file_path, range })
}

/// The response to a request for one range of a file, of which the range
/// holds at least one byte: status 206, the range and the length in the
/// head, and the bytes of the range unless only the head was asked for.
pub fn range_response(range: ByteRange, len: u64, mime_type: &str, is_head: bool) -> (answer:
    Answer)
    requires
        range.length >= 1,
        range.start + range.length <= len,
    ensures
        is_range_answer(answer, range, len, mime_type@, is_head),
{
    let start = range.start;
    let last = range.start + range.length - 1;
    let end = if last < len - 1 {
        last
    } else {
        len - 1
    };
    let content_length = end - start + 1;
    let mut head = String::from_str("HTTP/1.1 206 Partial Content\r\nContent-Type: ");
    head.append(mime_type);
    head.append("\r\nContent-Range: bytes ");
    head.append(to_decimal(start).as_str());
    head.append("-");
    head.append(to_decimal(end).as_str());
    head.append("/");
    head.append(to_decimal(len).as_str());
    head.append("\r\nContent-Length: ");
    head.append(to_decimal(content_length).as_str());
    head.append(
        "\r\nAccept-Ranges: bytes\r\nAccess-Control-Allow-Origin: *\r\nAccess-Control-Expose-Headers: content-range\r\n\r\n",
    );
    assert(head@ =~= partial_head(mime_type@, start as nat, end as nat, len as nat));
    let bytes = head.as_str().as_bytes_vec();
    if is_head {
        Answer::Complete(bytes)
    } else {
        Answer::Partial { head: bytes, body: ByteRange { start, length: content_length } }
    }
}

/// `answer` is the answer to a request for the one range `range` of a file
/// of `len` bytes.
pub open spec fn is_range_answer(
    answer: Answer,
    range: ByteRange,
    len: u64,
    mime_type: Seq<char>,
    is_head: bool,
) -> bool {
    let end = range_end(range.start, range.length, len);
    let wanted = encode_utf8(partial_head(mime_type, range.start as nat, end as nat, len as nat));
    if is_head {
        answer matches Answer::Complete(bytes) && bytes@ == wanted
    } else {
        answer matches Answer::Partial { head, body } && head@ == wanted && body == (ByteRange {
            start: range.start,
            length: (end - range.start + 1) as u64,
        })
    }
}

/// `outcome` is how a request with a `Range` header is answered, given what
/// the header was read as. A malformed header, or one without overlap, is
/// an error. One range is answered with its bytes; any other number of
/// ranges with status 416. The one case without an answer is a range
/// without bytes, which only an empty file can have.
pub open spec fn is_ranged_outcome(
    outcome: Option<Result<Answer, RequestError>>,
    ranges: Result<Seq<ByteRange>, RangeError>,
    len: u64,
    mime_type: Seq<char>,
    is_head: bool,
) -> bool {
    match ranges {
        Err(error) => outcome == Some(Err::<Answer, RequestError>(RequestError::Range(error))),
        Ok(list) => if list.len() == 1 {
            if list[0].length >= 1 {
                outcome matches Some(Ok(answer)) && is_range_answer(
                    answer,
                    list[0],
                    len,
                    mime_type,
                    is_head,
                )
            } else {
                outcome is None
            }
        } else {
            outcome matches Some(Ok(Answer::Complete(bytes))) && bytes@ == encode_utf8(
                error_text(416, "Range Not Satisfiable"@),
            )
        },
    }
}

/// Answers a request that has a `Range` header, for a file of `len` bytes.
///
/// Returns `None` in the one case that has no answer: the header names a
/// single range without bytes.
pub fn handle_range_request(len: u64, mime_type: &str, range_header: &str, is_head: bool) -> (outcome:
    Option<Result<Answer, RequestError>>)
    ensures
        is_ranged_outcome(outcome, parsed_ranges(range_header@, len), len, mime_type@, is_head),
{
    match parse_ranges(range_header, len) {
        Err(error) => Some(Err(RequestError::Range(error))),
        Ok(ranges) => {
            if ranges.len() == 1 {
                let range = ranges[0];
                if range.length >= 1 {
                    Some(Ok(range_response(range, len, mime_type, is_head)))
                } else {
                    None
                }
            } else {
                Some(Ok(Answer::Complete(create_error_response(416, "Range Not Satisfiable"))))
            }
        },
    }
}

/// `outcome` is how a request for an existing file of `len` bytes is
/// answered: by its `Range` header if it has one; else with the head alone
/// if the method is `HEAD`, and with the whole file otherwise.
pub open spec fn is_outcome_of(
    outcome: Option<Result<Answer, RequestError>>,
    request: Request,
    len: u64,
    mime_type: Seq<char>,
) -> bool {
    match request.range {
        Some(header) => is_ranged_outcome(
            outcome,
            parsed_ranges(header@, len),
            len,
            mime_type,
            request.method@ == "HEAD"@,
        ),
        None => if request.method@ == "HEAD"@ {
            outcome matches Some(Ok(Answer::Complete(bytes))) && bytes@ == encode_utf8(
                full_head(mime_type, len as nat),
            )
        } else {
            outcome == Some(Ok::<Answer, RequestError>(Answer::Whole))
        },
    }
}

/// Answers a request for a file that exists and may be served, given the
/// file's length and type.
///
/// Returns `None` in the one case that has no answer: the `Range` header
/// names a single range without bytes.
pub fn answer_request(request: &Request, len: u64, mime_type: &str) -> (outcome: Option<
    Result<Answer, RequestError>,
>)
    ensures
        is_outcome_of(outcome, *request, len, mime_type@),
{
    let method = chars_of(request.method.as_str());
    let is_head = spells(method.as_slice(), "HEAD");
    match &request.range {
        Some(header) => handle_range_request(len, mime_type, header.as_str(), is_head),
        None => {
            if is_head {
                Some(Ok(Answer::Complete(create_head_response(len, mime_type))))
            } else {
                Some(Ok(Answer::Whole))
            }
        },
    }
}

/// The message of a refused request.
pub fn request_error_message(error: RequestError) -> (message: String)
    ensures
        message@ == match error {
            RequestError::Empty => "Empty request"@,
            RequestError::InvalidRequestLine => "Invalid request line"@,
            RequestError::Range(RangeError::InvalidRange) => "Range parse error: InvalidRange"@,
            RequestError::Range(RangeError::NoOverlap) => "Range parse error: NoOverlap"@,
        },
{
    match error {
        RequestError::Empty => String::from_str("Empty request"),
        RequestError::InvalidRequestLine => String::from_str("Invalid request line"),
        RequestError::Range(RangeError::InvalidRange) => String::from_str(
            "Range parse error: InvalidRange",
        ),
        RequestError::Range(RangeError::NoOverlap) => String::from_str(
            "Range parse error: NoOverlap",
        ),
    }
}

/// The ports that a server which prefers `start_port` may try: that port
/// and the 99 after it, in increasing order.
pub fn port_candidates(start_port: u16) -> (ports: Vec<u16>)
    requires
        start_port <= 65435,
    ensures
        ports.len() == 100,
        forall|i: int| 0 <= i < 100 ==> #[trigger] ports[i] == start_port + i,
{
    let mut ports: Vec<u16> = Vec::with_capacity(100);
    let mut i: u16 = 0;
    while i < 100
        invariant
            start_port <= 65435,
            i <= 100,
            ports.len() == i,
            forall|k: int| 0 <= k < i ==> #[trigger] ports[k] == start_port + k,
        decreases 100 - i,
    {
        ports.push(start_port + i);
        i += 1;
    }
    ports
}

/// The address of the built-in file protocol of the host application, which
/// serves media where no media server runs.
pub open spec fn asset_url(via_http: bool) -> Seq<char> {
    if via_http {
        "http://asset.localhost/"@
    } else {
        "asset://localhost/"@
    }
}

/// The address under which media files are served: that of the media
/// server if one runs, else that of the host's file protocol, which is
/// reached over HTTP on some platforms.
pub fn get_media_base_url(state: Option<&MediaServerState>, via_http: bool) -> (url: String)
    ensures
        url@ == (match state {
            Some(server) => base_url(server.config().host@, server.config().port),
            None => asset_url(via_http),
        }),
{
    match state {
        Some(server) => server.get_base_url(),
        None => {
            if via_http {
                String::from_str("http://asset.localhost/")
            } else {
                String::from_str("asset://localhost/")
            }
        },
    }
}

} // verus!
