//! HTTP and WebSocket on one port: which connection is which, what a request
//! asks for, and the bytes of each answer.
//!
//! A connection that asks for an upgrade is a WebSocket, every other one is
//! answered over HTTP. Unknown paths fall back to `index.html`, so that the
//! dashboard can route on the client.

use vstd::prelude::*;

use crate::paths;
use crate::text;

verus! {

// ---------------------------------------------------------------------------
// Text out of bytes
// ---------------------------------------------------------------------------

/// The text that `String::from_utf8_lossy` makes of bytes.
pub uninterp spec fn lossy(bytes: Seq<u8>) -> Seq<char>;

/// `String::from_utf8_lossy`: the text of the bytes, with a replacement character
/// in place of what is not UTF-8. Bytes that are UTF-8 come out as the text that
/// they encode. What is replaced by how many characters is not stated.
#[verifier::external_body]
fn lossy_text(bytes: &Vec<u8>) -> (s: String)
    ensures
        s@ == lossy(bytes@),
        vstd::utf8::valid_utf8(bytes@) ==> s@ == vstd::utf8::decode_utf8(bytes@),
{
    String::from_utf8_lossy(bytes).into_owned()
}

/// The text that `str::to_lowercase` makes of a text.
pub uninterp spec fn lowercase(s: Seq<char>) -> Seq<char>;

/// `str::to_lowercase`: the text in lower case by the rules of Unicode. Which
/// character becomes which is not stated.
#[verifier::external_body]
fn lower(s: &str) -> (r: String)
    ensures
        r@ == lowercase(s@),
{
    s.to_lowercase()
}

/// The text that `str::to_uppercase` makes of a text.
pub uninterp spec fn uppercase(s: Seq<char>) -> Seq<char>;

/// `str::to_uppercase`: the text in upper case by the rules of Unicode. Which
/// character becomes which is not stated.
#[verifier::external_body]
fn upper(s: &str) -> (r: String)
    ensures
        r@ == uppercase(s@),
{
    s.to_uppercase()
}

/// The bytes of a text in UTF-8.
fn bytes_of(s: &str) -> (v: Vec<u8>)
    ensures
        v@ == vstd::utf8::encode_utf8(s@),
{
    vstd::slice::slice_to_vec(s.as_bytes())
}

// ---------------------------------------------------------------------------
// The request line
// ---------------------------------------------------------------------------

/// The path in the first line of a request: what stands between the first two
/// spaces, without the query. A line without a space asks for the root.
pub open spec fn path_of(request: Seq<char>) -> Seq<char> {
    let line = text::first_line(request);
    let first = text::find(line, ' ');
    if first == line.len() {
        seq!['/']
    } else {
        let rest = line.skip(first + 1);
        let target = rest.take(text::find(rest, ' '));
        target.take(text::find(target, '?'))
    }
}

/// The path in the first line of a request.
pub fn parse_path(request: &str) -> (path: String)
    ensures
        path@ == path_of(request@),
{
    let chars = text::chars_of(request);
    let line = text::first_line_of(&chars);
    let first = text::find_from(&line, ' ', 0);
    proof {
        assert(line@.skip(0) == line@);
    }
    if first == line.len() {
        let mut root: String = String::new();
        root.push('/');
        proof {
            assert(root@ == seq!['/']);
        }
        return root;
    }
    let end = text::find_from(&line, ' ', first + 1);
    let target = text::chars_between(&line, first + 1, end);
    let query = text::find_from(&target, '?', 0);
    proof {
        let rest = line@.skip(first as int + 1);
        assert(rest.take(text::find(rest, ' ')) == target@);
        assert(target@.skip(0) == target@);
        assert(target@.take(query as int) == target@.subrange(0, query as int));
    }
    text::text_between(&target, 0, query)
}

/// The method as the first line of a request writes it; empty if it writes none.
pub open spec fn method_word(request: Seq<char>) -> Seq<char> {
    text::first_word(text::first_line(request))
}

/// The method of a request, in upper case; empty if the request has none.
pub fn request_method(request: &str) -> (method: String)
    ensures
        method@ == uppercase(method_word(request@)),
{
    let chars = text::chars_of(request);
    let line = text::first_line_of(&chars);
    let word = text::first_word_of(&line);
    upper(&word)
}

// ---------------------------------------------------------------------------
// Which connection is which
// ---------------------------------------------------------------------------

/// What a new connection is.
#[derive(Debug, Clone, Copy, PartialEq, Eq, Structural)]
pub enum Connection {
    /// The uplink of an agent.
    Agent,
    /// The WebSocket of a viewer.
    Viewer,
    /// A plain HTTP request.
    Http,
}

/// What a connection is whose first bytes read, in lower case, `preview`.
/// The uplink is told apart from a viewer by its path, and only a relay has one.
pub open spec fn connection_of(preview: Seq<char>, is_relay: bool) -> Connection {
    if !text::contains(preview, "upgrade: websocket"@) {
        Connection::Http
    } else if is_relay && path_of(preview) == "/uplink"@ {
        Connection::Agent
    } else {
        Connection::Viewer
    }
}

/// What a connection is whose first bytes read, in lower case, `preview`.
pub fn classify_preview(preview: &str, is_relay: bool) -> (c: Connection)
    ensures
        c == connection_of(preview@, is_relay),
{
    if !text::text_contains(preview, "upgrade: websocket") {
        Connection::Http
    } else if is_relay && text::same(&parse_path(preview), "/uplink") {
        Connection::Agent
    } else {
        Connection::Viewer
    }
}

/// What a connection is that begins with these bytes.
pub fn classify_connection(first_bytes: &Vec<u8>, is_relay: bool) -> (c: Connection)
    ensures
        c == connection_of(lowercase(lossy(first_bytes@)), is_relay),
{
    let preview = lower(&lossy_text(first_bytes));
    classify_preview(&preview, is_relay)
}

/// Without a relay nobody is taken for an agent.
pub proof fn law_only_a_relay_has_an_uplink(preview: Seq<char>)
    ensures
        connection_of(preview, false) != Connection::Agent,
{
}

// ---------------------------------------------------------------------------
// Reading a request
// ---------------------------------------------------------------------------

/// A request whose headers are longer than this is refused.
pub const MAX_REQUEST: usize = 32_768;

/// The blank line that ends the headers.
pub open spec fn blank_line() -> Seq<u8> {
    seq![13u8, 10u8, 13u8, 10u8]
}

/// The first index of `needle` in `s` at or after `from`.
pub open spec fn first_from(s: Seq<u8>, needle: Seq<u8>, from: int) -> Option<int>
    decreases s.len() - from,
{
    if from + needle.len() > s.len() {
        None
    } else if text::occurs_at(s, needle, from) {
        Some(from)
    } else if from < s.len() {
        first_from(s, needle, from + 1)
    } else {
        None
    }
}

/// The index of the first blank line in `v`.
fn find_blank_line(v: &[u8]) -> (r: Option<usize>)
    ensures
        match r {
            Some(i) => first_from(v@, blank_line(), 0) == Some(i as int) && i + 4 <= v@.len(),
            None => first_from(v@, blank_line(), 0) is None,
        },
{
    let mut i: usize = 0;
    while i < v.len() && v.len() - i >= 4
        invariant
            i <= v@.len(),
            first_from(v@, blank_line(), 0) == first_from(v@, blank_line(), i as int),
        decreases v@.len() - i,
    {
        let here = v[i] == 13 && v[i + 1] == 10 && v[i + 2] == 13 && v[i + 3] == 10;
        proof {
            let s = v@.subrange(i as int, i + 4);
            assert(s[0] == v@[i as int] && s[1] == v@[i + 1] && s[2] == v@[i + 2] && s[3] == v@[i
                + 3]);
            if here {
                assert(s == blank_line());
            }
            assert(here == text::occurs_at(v@, blank_line(), i as int));
        }
        if here {
            return Some(i);
        }
        i += 1;
    }
    None
}

/// A first occurrence is an occurrence, and there is one if there is any.
proof fn lemma_first_from(s: Seq<u8>, needle: Seq<u8>, from: int)
    requires
        0 <= from <= s.len(),
    ensures
        match first_from(s, needle, from) {
            Some(i) => from <= i && text::occurs_at(s, needle, i) && forall|j: int|
                from <= j < i ==> !text::occurs_at(s, needle, j),
            None => forall|j: int| from <= j ==> !text::occurs_at(s, needle, j),
        },
    decreases s.len() - from,
{
    if from + needle.len() <= s.len() && !text::occurs_at(s, needle, from) && from < s.len() {
        lemma_first_from(s, needle, from + 1);
    }
}

/// What to do after a read.
#[derive(Debug, Clone, Copy, PartialEq, Eq, Structural)]
pub enum ReadStep {
    /// Read on.
    More,
    /// The request is there.
    Complete,
    /// The request is too large.
    TooLarge,
}

/// Takes in what one read delivered; an empty read is the end of the stream.
pub fn after_read(request: &mut Vec<u8>, chunk: &Vec<u8>) -> (step: ReadStep)
    ensures
        final(request)@ == old(request)@ + chunk@,
        step == (if chunk@.len() == 0 || text::contains(final(request)@, blank_line()) {
            ReadStep::Complete
        } else if final(request)@.len() > MAX_REQUEST {
            ReadStep::TooLarge
        } else {
            ReadStep::More
        }),
{
    if chunk.len() == 0 {
        proof {
            assert(request@ + chunk@ == request@);
        }
        return ReadStep::Complete;
    }
    request.extend_from_slice(chunk.as_slice());
    let end = find_blank_line(request.as_slice());
    proof {
        assert(request@ == old(request)@ + chunk@);
        lemma_first_from(request@, blank_line(), 0);
        if end is None {
            assert(!text::contains(request@, blank_line()));
        }
    }
    if end.is_some() {
        ReadStep::Complete
    } else if request.len() > MAX_REQUEST {
        ReadStep::TooLarge
    } else {
        ReadStep::More
    }
}

// ---------------------------------------------------------------------------
// Routes
// ---------------------------------------------------------------------------

/// What a request asks for.
#[derive(Debug, Clone, Copy, PartialEq, Eq, Structural)]
pub enum Route {
    /// A cross-origin preflight.
    Preflight,
    /// Where the dashboard can be reached.
    NetworkInfo,
    /// The version of the bridge.
    Version,
    /// A route that a public relay does not have.
    Refused,
    /// Stop the process.
    Shutdown,
    /// Move to another port.
    SetPort,
    /// A file of the dashboard.
    File,
}

/// What a request with this method and path asks for. The two routes that hand
/// over control of the process do not exist on a public relay.
pub open spec fn route_of(method: Seq<char>, path: Seq<char>, server_mode: bool) -> Route {
    if method == "OPTIONS"@ {
        Route::Preflight
    } else if path == "/api/network-info"@ {
        Route::NetworkInfo
    } else if path == "/api/version"@ {
        Route::Version
    } else if server_mode && (path == "/api/shutdown"@ || path == "/api/set-port"@) {
        Route::Refused
    } else if path == "/api/shutdown"@ && method == "POST"@ {
        Route::Shutdown
    } else if path == "/api/set-port"@ && method == "POST"@ {
        Route::SetPort
    } else {
        Route::File
    }
}

/// What a request with this method and path asks for.
pub fn route(method: &str, path: &str, server_mode: bool) -> (r: Route)
    ensures
        r == route_of(method@, path@, server_mode),
{
    let is_shutdown = text::same(path, "/api/shutdown");
    let is_set_port = text::same(path, "/api/set-port");
    let is_post = text::same(method, "POST");
    if text::same(method, "OPTIONS") {
        Route::Preflight
    } else if text::same(path, "/api/network-info") {
        Route::NetworkInfo
    } else if text::same(path, "/api/version") {
        Route::Version
    } else if server_mode && (is_shutdown || is_set_port) {
        Route::Refused
    } else if is_shutdown && is_post {
        Route::Shutdown
    } else if is_set_port && is_post {
        Route::SetPort
    } else {
        Route::File
    }
}

/// What a request asks for, and its path.
pub fn route_request(request: &Vec<u8>, server_mode: bool) -> (r: (Route, String))
    ensures
        r.0 == route_of(
            uppercase(method_word(lossy(request@))),
            path_of(lossy(request@)),
            server_mode,
        ),
        r.1@ == path_of(lossy(request@)),
{
    let request_text = lossy_text(request);
    let method = request_method(&request_text);
    let path = parse_path(&request_text);
    (route(&method, &path, server_mode), path)
}

/// Whatever is asked of a public relay, it never stops and never moves to
/// another port.
pub proof fn law_a_relay_cannot_be_controlled(method: Seq<char>, path: Seq<char>)
    ensures
        route_of(method, path, true) != Route::Shutdown,
        route_of(method, path, true) != Route::SetPort,
{
}

/// Process control takes a `POST` to its own path, nothing else.
pub proof fn law_control_takes_a_post(method: Seq<char>, path: Seq<char>, server_mode: bool)
    ensures
        route_of(method, path, server_mode) == Route::Shutdown ==> method == "POST"@ && path
            == "/api/shutdown"@,
        route_of(method, path, server_mode) == Route::SetPort ==> method == "POST"@ && path
            == "/api/set-port"@,
{
}

// ---------------------------------------------------------------------------
// The body of a request
// ---------------------------------------------------------------------------

/// The length that a header line gives: the number after its first colon, if it
/// is one.
pub open spec fn header_value(line: Seq<char>) -> int {
    let parts = text::split(line, ':');
    if parts.len() < 2 {
        0
    } else {
        match text::parse_unsigned(
            text::trim_end(text::trim_start(parts[1])),
            usize::MAX as int,
        ) {
            Some(n) => n,
            None => 0,
        }
    }
}

/// The content length that the header lines give, where `lowered` holds the same
/// lines in lower case: that of the first content-length line, or zero.
pub open spec fn length_among(lines: Seq<Seq<char>>, lowered: Seq<Seq<char>>) -> int
    decreases lines.len(),
{
    if lines.len() == 0 || lowered.len() == 0 {
        0
    } else if text::starts_with(lowered[0], "content-length:"@) {
        header_value(lines[0])
    } else {
        length_among(lines.skip(1), lowered.skip(1))
    }
}

/// The length that a header line gives.
fn value_of_header(line: &Vec<char>) -> (n: usize)
    ensures
        n == header_value(line@),
{
    let parts = text::split_on(line, ':');
    proof {
        assert(text::texts(parts@).len() == parts@.len());
    }
    if parts.len() < 2 {
        return 0;
    }
    proof {
        assert(text::texts(parts@)[1] == parts@[1]@);
    }
    let value = text::trimmed(&parts[1]);
    match text::parse_number(&value, usize::MAX as u64) {
        Some(n) => n as usize,
        None => 0,
    }
}

/// The content length that the header lines give, where `lowered` holds the same
/// lines in lower case.
pub fn length_in_headers(lines: &Vec<Vec<char>>, lowered: &Vec<String>) -> (n: usize)
    requires
        lines@.len() == lowered@.len(),
    ensures
        n == length_among(text::texts(lines@), text::views(lowered@)),
{
    let mut i: usize = 0;
    proof {
        assert(text::texts(lines@).skip(0) == text::texts(lines@));
        assert(text::views(lowered@).skip(0) == text::views(lowered@));
    }
    while i < lines.len()
        invariant
            i <= lines@.len(),
            lines@.len() == lowered@.len(),
            length_among(text::texts(lines@), text::views(lowered@)) == length_among(
                text::texts(lines@).skip(i as int),
                text::views(lowered@).skip(i as int),
            ),
        decreases lines@.len() - i,
    {
        proof {
            let a = text::texts(lines@).skip(i as int);
            let b = text::views(lowered@).skip(i as int);
            assert(a[0] == lines@[i as int]@);
            assert(b[0] == lowered@[i as int]@);
            assert(a.skip(1) == text::texts(lines@).skip(i + 1));
            assert(b.skip(1) == text::views(lowered@).skip(i + 1));
        }
        if text::text_starts_with(&lowered[i], "content-length:") {
            return value_of_header(&lines[i]);
        }
        i += 1;
    }
    0
}

/// The lines in lower case.
pub open spec fn all_lowercase(lines: Seq<Seq<char>>) -> Seq<Seq<char>> {
    Seq::new(lines.len(), |i: int| lowercase(lines[i]))
}

/// The content length that a request gives.
pub fn content_length(request: &str) -> (n: usize)
    ensures
        n == length_among(text::lines(request@), all_lowercase(text::lines(request@))),
{
    let chars = text::chars_of(request);
    let lines = text::lines_of(&chars);
    let mut lowered: Vec<String> = Vec::new();
    let mut i: usize = 0;
    while i < lines.len()
        invariant
            i <= lines@.len(),
            lowered@.len() == i,
            forall|k: int| 0 <= k < i ==> (#[trigger] lowered@[k])@ == lowercase(lines@[k]@),
        decreases lines@.len() - i,
    {
        let line = text::text_between(&lines[i], 0, lines[i].len());
        proof {
            assert(line@ == lines@[i as int]@);
        }
        lowered.push(lower(&line));
        i += 1;
    }
    proof {
        assert(text::views(lowered@) == all_lowercase(text::texts(lines@)));
    }
    length_in_headers(&lines, &lowered)
}

/// Where the body of a request of `len` bytes begins whose text is `request`:
/// after the first blank line, or at its end.
pub open spec fn body_start(request: Seq<char>, len: int) -> int {
    match first_from(vstd::utf8::encode_utf8(request), blank_line(), 0) {
        Some(i) => i + 4,
        None => len,
    }
}

/// Whether the body of a request lies within its bytes.
pub open spec fn body_fits(bytes: Seq<u8>, request: Seq<char>, length: int) -> bool {
    body_start(request, bytes.len() as int) <= bytes.len() && body_start(
        request,
        bytes.len() as int,
    ) + length <= usize::MAX
}

/// The body of a request: as many bytes as it says, or as came.
pub open spec fn body_of(bytes: Seq<u8>, request: Seq<char>, length: int) -> Seq<u8> {
    let start = body_start(request, bytes.len() as int);
    bytes.subrange(
        start,
        if start + length < bytes.len() {
            start + length
        } else {
            bytes.len() as int
        },
    )
}

/// Where the body of a request of `len` bytes begins.
fn start_of_body(request: &str, len: usize) -> (n: usize)
    ensures
        n == body_start(request@, len as int),
{
    let bytes = bytes_of(request);
    match find_blank_line(bytes.as_slice()) {
        Some(i) => {
            proof {
                assert(i + 4 <= bytes.len());
            }
            i + 4
        },
        None => len,
    }
}

/// The body of a request whose text is `request` and whose headers say `length`.
pub fn cut_body(bytes: &Vec<u8>, request: &str, length: usize) -> (body: Vec<u8>)
    requires
        body_fits(bytes@, request@, length as int),
    ensures
        body@ == body_of(bytes@, request@, length as int),
{
    let start = start_of_body(request, bytes.len());
    let end: usize = if start + length < bytes.len() {
        start + length
    } else {
        bytes.len()
    };
    let mut body: Vec<u8> = Vec::new();
    let mut i: usize = start;
    while i < end
        invariant
            start <= i <= end <= bytes@.len(),
            body@ == bytes@.subrange(start as int, i as int),
        decreases end - i,
    {
        proof {
            assert(bytes@.subrange(start as int, i as int).push(bytes@[i as int])
                == bytes@.subrange(start as int, i + 1));
        }
        body.push(bytes[i]);
        i += 1;
    }
    body
}

/// The content length of a request.
pub open spec fn length_of(bytes: Seq<u8>) -> int {
    length_among(text::lines(lossy(bytes)), all_lowercase(text::lines(lossy(bytes))))
}

/// The body of a request, if it lies within the bytes.
pub fn request_body(bytes: &Vec<u8>) -> (body: Option<Vec<u8>>)
    ensures
        match body {
            Some(b) => body_fits(bytes@, lossy(bytes@), length_of(bytes@)) && b@ == body_of(
                bytes@,
                lossy(bytes@),
                length_of(bytes@),
            ),
            None => !body_fits(bytes@, lossy(bytes@), length_of(bytes@)),
        },
{
    let request = lossy_text(bytes);
    let length = content_length(&request);
    let start = start_of_body(&request, bytes.len());
    if start <= bytes.len() && length <= usize::MAX - start {
        Some(cut_body(bytes, &request, length))
    } else {
        None
    }
}

/// The body of a request that is UTF-8 always begins within its bytes.
pub proof fn law_a_body_of_text_begins_within_the_request(bytes: Seq<u8>)
    requires
        vstd::utf8::valid_utf8(bytes),
    ensures
        body_start(vstd::utf8::decode_utf8(bytes), bytes.len() as int) <= bytes.len(),
{
    vstd::utf8::decode_utf8_encode_utf8(bytes);
    lemma_first_from(bytes, blank_line(), 0);
}

// ---------------------------------------------------------------------------
// The port
// ---------------------------------------------------------------------------

/// The lowest port that the dashboard can be moved to.
pub const MIN_PORT: u16 = 1024;

/// The port to move to, where the body of the request asked for `asked`; none
/// if the body asks for no port or for one that is refused.
pub fn accepted_port(asked: Option<u16>) -> (port: Option<u16>)
    ensures
        port == (match asked {
            Some(p) if p >= MIN_PORT => Some(p),
            _ => None,
        }),
{
    match asked {
        Some(p) => if p >= MIN_PORT {
            Some(p)
        } else {
            None
        },
        None => None,
    }
}

// ---------------------------------------------------------------------------
// Answers
// ---------------------------------------------------------------------------

/// An answer to a request.
#[derive(Debug)]
pub struct Response {
    pub status: u16,
    pub content_type: String,
    pub body: Vec<u8>,
    /// Further headers, by name and value.
    pub headers: Vec<(String, String)>,
}

/// What an answer says.
pub struct Answer {
    pub status: int,
    pub content_type: Seq<char>,
    pub body: Seq<u8>,
    pub headers: Seq<(Seq<char>, Seq<char>)>,
}

/// The headers as text.
pub open spec fn header_views(headers: Seq<(String, String)>) -> Seq<(Seq<char>, Seq<char>)> {
    Seq::new(headers.len(), |i: int| (headers[i].0@, headers[i].1@))
}

impl View for Response {
    type V = Answer;

    open spec fn view(&self) -> Answer {
        Answer {
            status: self.status as int,
            content_type: self.content_type@,
            body: self.body@,
            headers: header_views(self.headers@),
        }
    }
}

/// The words for a status.
pub open spec fn status_text(status: int) -> Seq<char> {
    if status == 200 {
        "OK"@
    } else if status == 204 {
        "No Content"@
    } else if status == 404 {
        "Not Found"@
    } else if status == 413 {
        "Request Entity Too Large"@
    } else {
        "Unknown"@
    }
}

/// One header per line.
pub open spec fn header_lines(headers: Seq<(Seq<char>, Seq<char>)>) -> Seq<char>
    decreases headers.len(),
{
    if headers.len() == 0 {
        Seq::empty()
    } else {
        header_lines(headers.drop_last()) + headers.last().0 + ": "@ + headers.last().1 + "\r\n"@
    }
}

/// What comes before the body of an answer.
pub open spec fn head_of(a: Answer) -> Seq<char> {
    "HTTP/1.1 "@ + text::decimal(a.status) + " "@ + status_text(a.status) + "\r\nContent-Type: "@
        + a.content_type + "\r\nContent-Length: "@ + text::decimal(a.body.len() as int)
        + "\r\nConnection: close\r\n"@ + header_lines(a.headers) + "\r\n"@
}

/// What an answer is on the wire.
pub open spec fn wire_of(a: Answer) -> Seq<u8> {
    vstd::utf8::encode_utf8(head_of(a)) + a.body
}

impl Response {
    /// What comes before the body.
    pub fn head(&self) -> (s: String)
        ensures
            s@ == head_of(self@),
    {
        let words = match self.status {
            200 => "OK",
            204 => "No Content",
            404 => "Not Found",
            413 => "Request Entity Too Large",
            _ => "Unknown",
        };
        let mut s: String = "HTTP/1.1 ".to_owned();
        s.append(text::decimal_text(self.status as u64).as_str());
        s.append(" ");
        s.append(words);
        s.append("\r\nContent-Type: ");
        s.append(self.content_type.as_str());
        s.append("\r\nContent-Length: ");
        s.append(text::decimal_text(self.body.len() as u64).as_str());
        s.append("\r\nConnection: close\r\n");
        let ghost start = s@;
        proof {
            assert(start + header_lines(self@.headers.take(0)) == start);
        }
        let mut i: usize = 0;
        while i < self.headers.len()
            invariant
                i <= self.headers@.len(),
                s@ == start + header_lines(self@.headers.take(i as int)),
            decreases self.headers@.len() - i,
        {
            s.append(self.headers[i].0.as_str());
            s.append(": ");
            s.append(self.headers[i].1.as_str());
            s.append("\r\n");
            proof {
                let t = self@.headers.take(i + 1);
                assert(t.drop_last() == self@.headers.take(i as int));
                assert(t.last() == (self.headers@[i as int].0@, self.headers@[i as int].1@));
                assert(s@ == start + header_lines(t));
            }
            i += 1;
        }
        proof {
            assert(self@.headers.take(i as int) == self@.headers);
        }
        s.append("\r\n");
        proof {
            assert(s@ == head_of(self@));
        }
        s
    }

    /// The answer on the wire.
    pub fn to_bytes(&self) -> (bytes: Vec<u8>)
        ensures
            bytes@ == wire_of(self@),
    {
        let mut bytes = bytes_of(&self.head());
        bytes.extend_from_slice(self.body.as_slice());
        proof {
            assert(bytes@ == wire_of(self@));
        }
        bytes
    }
}

/// The header that lets any origin in.
pub open spec fn any_origin() -> (Seq<char>, Seq<char>) {
    ("Access-Control-Allow-Origin"@, "*"@)
}

/// The header that lists the methods.
pub open spec fn methods(list: Seq<char>) -> (Seq<char>, Seq<char>) {
    ("Access-Control-Allow-Methods"@, list)
}

/// One header.
fn header(name: &str, value: &str) -> (h: (String, String))
    ensures
        h.0@ == name@,
        h.1@ == value@,
{
    (name.to_owned(), value.to_owned())
}

/// An answer that any origin may read.
fn answer(
    status: u16,
    content_type: &str,
    body: Vec<u8>,
    allowed_methods: Option<&str>,
    extra: Option<(String, String)>,
) -> (r: Response)
    ensures
        r@.status == status,
        r@.content_type == content_type@,
        r@.body == body@,
        r@.headers == seq![any_origin()] + (match allowed_methods {
            Some(m) => seq![methods(m@)],
            None => Seq::empty(),
        }) + (match extra {
            Some(h) => seq![(h.0@, h.1@)],
            None => Seq::empty(),
        }),
{
    let mut headers: Vec<(String, String)> = Vec::new();
    headers.push(header("Access-Control-Allow-Origin", "*"));
    if let Some(m) = allowed_methods {
        headers.push(header("Access-Control-Allow-Methods", m));
    }
    if let Some(h) = extra {
        headers.push(h);
    }
    let r = Response { status, content_type: content_type.to_owned(), body, headers };
    proof {
        assert(r@.headers == seq![any_origin()] + (match allowed_methods {
            Some(m) => seq![methods(m@)],
            None => Seq::empty(),
        }) + (match extra {
            Some(h) => seq![(h.0@, h.1@)],
            None => Seq::empty(),
        }));
    }
    r
}

/// The answer to a preflight.
pub open spec fn preflight_answer() -> Answer {
    Answer {
        status: 204,
        content_type: "text/plain"@,
        body: Seq::empty(),
        headers: seq![
            any_origin(),
            methods("GET, POST, OPTIONS"@),
            ("Access-Control-Allow-Headers"@, "*"@),
        ],
    }
}

/// The answer to a preflight.
pub fn preflight_response() -> (r: Response)
    ensures
        r@ == preflight_answer(),
{
    let r = answer(
        204,
        "text/plain",
        Vec::new(),
        Some("GET, POST, OPTIONS"),
        Some(header("Access-Control-Allow-Headers", "*")),
    );
    proof {
        assert(r@.headers == seq![
            any_origin(),
            methods("GET, POST, OPTIONS"@),
            ("Access-Control-Allow-Headers"@, "*"@),
        ]);
    }
    r
}

/// A JSON answer of the API.
pub open spec fn json_answer(status: int, body: Seq<char>, allowed: Seq<char>) -> Answer {
    Answer {
        status,
        content_type: "application/json"@,
        body: vstd::utf8::encode_utf8(body),
        headers: seq![any_origin(), methods(allowed)],
    }
}

/// A JSON answer of the API.
fn json_response(status: u16, body: &str, allowed: &str) -> (r: Response)
    ensures
        r@ == json_answer(status as int, body@, allowed@),
{
    let r = answer(status, "application/json", bytes_of(body), Some(allowed), None);
    proof {
        assert(r@.headers == seq![any_origin(), methods(allowed@)]);
    }
    r
}

/// Where the dashboard can be reached; `ip` is the address on the local network,
/// if it could be found.
pub fn network_info_response(ip: Option<String>, port: u16) -> (r: Response)
    ensures
        r@ == json_answer(
            200,
            "{\"ip\":\""@ + (match ip {
                Some(a) => a@,
                None => "unknown"@,
            }) + "\",\"port\":"@ + text::decimal(port as int) + "}"@,
            "GET, OPTIONS"@,
        ),
{
    let address = match ip {
        Some(a) => a,
        None => "unknown".to_owned(),
    };
    let mut body: String = "{\"ip\":\"".to_owned();
    body.append(address.as_str());
    body.append("\",\"port\":");
    body.append(text::decimal_text(port as u64).as_str());
    body.append("}");
    json_response(200, &body, "GET, OPTIONS")
}

/// The version of the bridge.
pub fn version_response(version: &str) -> (r: Response)
    ensures
        r@ == json_answer(200, "{\"version\":\""@ + version@ + "\"}"@, "GET, OPTIONS"@),
{
    let mut body: String = "{\"version\":\"".to_owned();
    body.append(version);
    body.append("\"}");
    json_response(200, &body, "GET, OPTIONS")
}

/// The answer for a route that a public relay does not have.
pub open spec fn refused_answer() -> Answer {
    Answer {
        status: 404,
        content_type: "text/plain"@,
        body: vstd::utf8::encode_utf8("Not Found"@),
        headers: seq![any_origin()],
    }
}

/// The answer for a route that a public relay does not have.
pub fn refused_response() -> (r: Response)
    ensures
        r@ == refused_answer(),
{
    let r = answer(404, "text/plain", bytes_of("Not Found"), None, None);
    proof {
        assert(r@.headers == seq![any_origin()]);
    }
    r
}

/// The answer to a request that is too large.
pub fn too_large_response() -> (r: Response)
    ensures
        r@ == (Answer {
            status: 413,
            content_type: "text/plain"@,
            body: vstd::utf8::encode_utf8("Request Too Large"@),
            headers: Seq::empty(),
        }),
{
    let r = Response {
        status: 413,
        content_type: "text/plain".to_owned(),
        body: bytes_of("Request Too Large"),
        headers: Vec::new(),
    };
    proof {
        assert(r@.headers == Seq::<(Seq<char>, Seq<char>)>::empty());
    }
    r
}

/// The answer before the process stops.
pub fn shutdown_response() -> (r: Response)
    ensures
        r@ == json_answer(200, "{\"ok\":true}"@, "POST, OPTIONS"@),
{
    json_response(200, "{\"ok\":true}", "POST, OPTIONS")
}

/// The answer before the process moves to another port.
pub fn port_moved_response(port: u16) -> (r: Response)
    ensures
        r@ == json_answer(
            200,
            "{\"ok\":true,\"port\":"@ + text::decimal(port as int) + "}"@,
            "POST, OPTIONS"@,
        ),
{
    let mut body: String = "{\"ok\":true,\"port\":".to_owned();
    body.append(text::decimal_text(port as u64).as_str());
    body.append("}");
    json_response(200, &body, "POST, OPTIONS")
}

/// The answer when the new port could not be stored.
pub fn port_not_stored_response(error: &str) -> (r: Response)
    ensures
        r@ == json_answer(
            500,
            "{\"ok\":false,\"error\":\""@ + error@ + "\"}"@,
            "POST, OPTIONS"@,
        ),
{
    let mut body: String = "{\"ok\":false,\"error\":\"".to_owned();
    body.append(error);
    body.append("\"}");
    json_response(500, &body, "POST, OPTIONS")
}

/// The answer when no port was asked for, or one that is refused.
pub fn port_refused_response() -> (r: Response)
    ensures
        r@ == json_answer(
            400,
            "{\"ok\":false,\"error\":\"port must be 1024-65535\"}"@,
            "POST, OPTIONS"@,
        ),
{
    json_response(400, "{\"ok\":false,\"error\":\"port must be 1024-65535\"}", "POST, OPTIONS")
}

// ---------------------------------------------------------------------------
// Files of the dashboard
// ---------------------------------------------------------------------------

/// The file that a path names.
pub open spec fn file_of(path: Seq<char>) -> Seq<char> {
    if path == "/"@ {
        "index.html"@
    } else {
        text::trim_leading(path, '/')
    }
}

/// The file that a path names.
pub fn file_path(path: &str) -> (file: String)
    ensures
        file@ == file_of(path@),
{
    if text::same(path, "/") {
        "index.html".to_owned()
    } else {
        text::without_leading(path, '/')
    }
}

/// The media type of the file at a path, by its extension.
pub open spec fn media_type(path: Seq<char>) -> Seq<char> {
    match paths::extension(path) {
        None => "application/octet-stream"@,
        Some(e) => if e == "html"@ || e == "htm"@ {
            "text/html; charset=utf-8"@
        } else if e == "js"@ || e == "mjs"@ {
            "application/javascript; charset=utf-8"@
        } else if e == "css"@ {
            "text/css; charset=utf-8"@
        } else if e == "json"@ {
            "application/json"@
        } else if e == "svg"@ {
            "image/svg+xml"@
        } else if e == "png"@ {
            "image/png"@
        } else if e == "jpg"@ || e == "jpeg"@ {
            "image/jpeg"@
        } else if e == "gif"@ {
            "image/gif"@
        } else if e == "ico"@ {
            "image/x-icon"@
        } else if e == "woff"@ {
            "font/woff"@
        } else if e == "woff2"@ {
            "font/woff2"@
        } else if e == "ttf"@ {
            "font/ttf"@
        } else if e == "webmanifest"@ {
            "application/manifest+json"@
        } else if e == "txt"@ {
            "text/plain; charset=utf-8"@
        } else {
            "application/octet-stream"@
        },
    }
}

/// The media type of the file at a path, by its extension.
pub fn mime_type(path: &str) -> (mime: &'static str)
    ensures
        mime@ == media_type(path@),
{
    match paths::extension_of(path) {
        None => "application/octet-stream",
        Some(e) => if text::same(&e, "html") || text::same(&e, "htm") {
            "text/html; charset=utf-8"
        } else if text::same(&e, "js") || text::same(&e, "mjs") {
            "application/javascript; charset=utf-8"
        } else if text::same(&e, "css") {
            "text/css; charset=utf-8"
        } else if text::same(&e, "json") {
            "application/json"
        } else if text::same(&e, "svg") {
            "image/svg+xml"
        } else if text::same(&e, "png") {
            "image/png"
        } else if text::same(&e, "jpg") || text::same(&e, "jpeg") {
            "image/jpeg"
        } else if text::same(&e, "gif") {
            "image/gif"
        } else if text::same(&e, "ico") {
            "image/x-icon"
        } else if text::same(&e, "woff") {
            "font/woff"
        } else if text::same(&e, "woff2") {
            "font/woff2"
        } else if text::same(&e, "ttf") {
            "font/ttf"
        } else if text::same(&e, "webmanifest") {
            "application/manifest+json"
        } else if text::same(&e, "txt") {
            "text/plain; charset=utf-8"
        } else {
            "application/octet-stream"
        },
    }
}

/// How long a file may be kept: the files under `assets/` have their content in
/// their name.
pub open spec fn cache_of(file: Seq<char>) -> Seq<char> {
    if text::starts_with(file, "assets/"@) {
        "public, max-age=31536000, immutable"@
    } else {
        "no-cache"@
    }
}

/// An answer that carries a file.
pub open spec fn file_answer(content_type: Seq<char>, data: Seq<u8>, cache: Seq<char>) -> Answer {
    Answer {
        status: 200,
        content_type,
        body: data,
        headers: seq![any_origin(), methods("GET, OPTIONS"@), ("Cache-Control"@, cache)],
    }
}

/// The answer where there is no dashboard at all.
pub open spec fn missing_answer() -> Answer {
    Answer {
        status: 404,
        content_type: "text/plain"@,
        body: vstd::utf8::encode_utf8("Not Found"@),
        headers: seq![any_origin(), methods("GET, OPTIONS"@)],
    }
}

/// The answer to a request for the file at `path`, where `data` is the content of
/// `file_path(path)` and `index` that of `index.html`, as far as they are there.
/// A path that names no file is answered with the index.
pub fn file_response(path: &str, data: Option<Vec<u8>>, index: Option<Vec<u8>>) -> (r: Response)
    ensures
        r@ == (match data {
            Some(d) => file_answer(media_type(file_of(path@)), d@, cache_of(file_of(path@))),
            None => match index {
                Some(d) => file_answer("text/html; charset=utf-8"@, d@, "no-cache"@),
                None => missing_answer(),
            },
        }),
{
    let file = file_path(path);
    match data {
        Some(d) => {
            let cache = if text::text_starts_with(&file, "assets/") {
                "public, max-age=31536000, immutable"
            } else {
                "no-cache"
            };
            let r = answer(
                200,
                mime_type(&file),
                d,
                Some("GET, OPTIONS"),
                Some(header("Cache-Control", cache)),
            );
            proof {
                assert(r@.headers == seq![
                    any_origin(),
                    methods("GET, OPTIONS"@),
                    ("Cache-Control"@, cache@),
                ]);
            }
            r
        },
        None => match index {
            Some(d) => {
                let r = answer(
                    200,
                    "text/html; charset=utf-8",
                    d,
                    Some("GET, OPTIONS"),
                    Some(header("Cache-Control", "no-cache")),
                );
                proof {
                    assert(r@.headers == seq![
                        any_origin(),
                        methods("GET, OPTIONS"@),
                        ("Cache-Control"@, "no-cache"@),
                    ]);
                }
                r
            },
            None => {
                let r = answer(
                    404,
                    "text/plain",
                    bytes_of("Not Found"),
                    Some("GET, OPTIONS"),
                    None,
                );
                proof {
                    assert(r@.headers == seq![any_origin(), methods("GET, OPTIONS"@)]);
                }
                r
            },
        },
    }
}

// ---------------------------------------------------------------------------
// One request
// ---------------------------------------------------------------------------

/// What to do about a request.
#[derive(Debug)]
pub enum Plan {
    /// Send this answer.
    Reply(Response),
    /// Find the address on the local network and answer with it.
    NetworkInfo,
    /// Send this answer, then stop the process.
    Stop(Response),
    /// Move to the port that this body asks for; none if the body is cut off.
    MovePort(Option<Vec<u8>>),
    /// Answer with the file at this path.
    File(String),
}

/// Whether `plan` is what to do about a request that asks for `route` at `path`.
pub open spec fn follows(
    plan: Plan,
    route: Route,
    path: Seq<char>,
    request: Seq<u8>,
    version: Seq<char>,
) -> bool {
    match route {
        Route::Preflight => plan matches Plan::Reply(r) && r@ == preflight_answer(),
        Route::NetworkInfo => plan is NetworkInfo,
        Route::Version => plan matches Plan::Reply(r) && r@ == json_answer(
            200,
            "{\"version\":\""@ + version + "\"}"@,
            "GET, OPTIONS"@,
        ),
        Route::Refused => plan matches Plan::Reply(r) && r@ == refused_answer(),
        Route::Shutdown => plan matches Plan::Stop(r) && r@ == json_answer(
            200,
            "{\"ok\":true}"@,
            "POST, OPTIONS"@,
        ),
        Route::SetPort => plan matches Plan::MovePort(body) && match body {
            Some(b) => b@ == body_of(request, lossy(request), length_of(request)),
            None => !body_fits(request, lossy(request), length_of(request)),
        },
        Route::File => plan matches Plan::File(p) && p@ == path,
    }
}

/// What to do about a request for this route and path.
pub fn plan_route(
    route: Route,
    path: String,
    request: &Vec<u8>,
    version: &str,
) -> (plan: Plan)
    ensures
        follows(plan, route, path@, request@, version@),
{
    match route {
        Route::Preflight => Plan::Reply(preflight_response()),
        Route::NetworkInfo => Plan::NetworkInfo,
        Route::Version => Plan::Reply(version_response(version)),
        Route::Refused => Plan::Reply(refused_response()),
        Route::Shutdown => Plan::Stop(shutdown_response()),
        Route::SetPort => Plan::MovePort(request_body(request)),
        Route::File => Plan::File(path),
    }
}

/// What to do about a request.
pub fn handle_http(request: &Vec<u8>, server_mode: bool, version: &str) -> (plan: Plan)
    ensures
        follows(
            plan,
            route_of(
                uppercase(method_word(lossy(request@))),
                path_of(lossy(request@)),
                server_mode,
            ),
            path_of(lossy(request@)),
            request@,
            version@,
        ),
        server_mode ==> !(plan is Stop) && !(plan is MovePort),
{
    let (route, path) = route_request(request, server_mode);
    plan_route(route, path, request, version)
}

/// Whether a browser lets a page of any origin read an answer.
pub open spec fn readable_from_anywhere(a: Answer) -> bool {
    a.headers.contains(any_origin())
}

/// A dashboard on any other device can read what it asked for: an answer that a
/// plan holds, every JSON answer and every answer about a file lets any origin in.
pub proof fn law_answers_are_readable_from_anywhere(
    plan: Plan,
    route: Route,
    path: Seq<char>,
    request: Seq<u8>,
    version: Seq<char>,
    status: int,
    content: Seq<char>,
    allowed: Seq<char>,
    data: Seq<u8>,
    cache: Seq<char>,
)
    requires
        follows(plan, route, path, request, version),
    ensures
        plan matches Plan::Reply(r) ==> readable_from_anywhere(r@),
        plan matches Plan::Stop(r) ==> readable_from_anywhere(r@),
        readable_from_anywhere(json_answer(status, content, allowed)),
        readable_from_anywhere(file_answer(content, data, cache)),
        readable_from_anywhere(missing_answer()),
{
    assert(missing_answer().headers[0] == any_origin());
    assert(preflight_answer().headers[0] == any_origin());
    assert(refused_answer().headers[0] == any_origin());
    assert forall|n: int, t: Seq<char>, m: Seq<char>| readable_from_anywhere(
        #[trigger] json_answer(n, t, m),
    ) by {
        assert(json_answer(n, t, m).headers[0] == any_origin());
    }
    assert(file_answer(content, data, cache).headers[0] == any_origin());
}

// ---------------------------------------------------------------------------
// Laws
// ---------------------------------------------------------------------------

/// The path of a request is what stands between the first two spaces of its first
/// line, up to a question mark.
pub proof fn law_the_path_stands_between_two_spaces(
    method: Seq<char>,
    path: Seq<char>,
    query: Seq<char>,
    version: Seq<char>,
    rest: Seq<char>,
)
    requires
        forall|i: int| 0 <= i < method.len() ==> method[i] != ' ' && method[i] != '\n',
        forall|i: int|
            0 <= i < path.len() ==> path[i] != ' ' && path[i] != '\n' && path[i] != '?',
        forall|i: int| 0 <= i < query.len() ==> query[i] != ' ' && query[i] != '\n',
        forall|i: int| 0 <= i < version.len() ==> version[i] != '\n',
    ensures
        path_of(
            method + seq![' '] + path + seq![' '] + version + seq!['\r', '\n'] + rest,
        ) == path,
        path_of(
            method + seq![' '] + path + seq!['?'] + query + seq![' '] + version + seq!['\r', '\n']
                + rest,
        ) == path,
{
    let plain = method + seq![' '] + path + seq![' '] + version;
    let asked = method + seq![' '] + path + seq!['?'] + query + seq![' '] + version;
    let n = method.len() as int;
    let m = path.len() as int;
    assert forall|i: int| 0 <= i < plain.len() implies plain[i] != '\n' by {
        if i < n {
            assert(plain[i] == method[i]);
        } else if n < i <= n + m {
            assert(plain[i] == path[i - n - 1]);
        } else if i > n + 1 + m {
            assert(plain[i] == version[i - n - m - 2]);
        }
    }
    text::law_the_first_line_ends_at_a_line_feed(plain, rest);
    text::lemma_find_is(plain, ' ', n);
    let tail = plain.skip(n + 1);
    assert(tail =~= path + seq![' '] + version);
    text::lemma_find_is(tail, ' ', m);
    assert(tail.take(m) =~= path);
    text::lemma_find_is(path, '?', m);
    assert(path.take(m) =~= path);
    let q = query.len() as int;
    assert forall|i: int| 0 <= i < asked.len() implies asked[i] != '\n' by {
        if i < n {
            assert(asked[i] == method[i]);
        } else if n < i <= n + m {
            assert(asked[i] == path[i - n - 1]);
        } else if n + m + 1 < i <= n + m + 1 + q {
            assert(asked[i] == query[i - n - m - 2]);
        } else if i > n + m + q + 2 {
            assert(asked[i] == version[i - n - m - q - 3]);
        }
    }
    text::law_the_first_line_ends_at_a_line_feed(asked, rest);
    text::lemma_find_is(asked, ' ', n);
    let more = asked.skip(n + 1);
    let target = path + seq!['?'] + query;
    assert(more =~= target + seq![' '] + version);
    assert forall|i: int| 0 <= i < target.len() implies target[i] != ' ' by {
        if i < m {
            assert(target[i] == path[i]);
        } else if i > m {
            assert(target[i] == query[i - m - 1]);
        }
    }
    text::lemma_find_is(more, ' ', target.len() as int);
    assert(more.take(target.len() as int) =~= target);
    text::lemma_find_is(target, '?', m);
    assert(target.take(m) =~= path);
    assert(plain + seq!['\r', '\n'] + rest =~= method + seq![' '] + path + seq![' '] + version
        + seq!['\r', '\n'] + rest);
    assert(asked + seq!['\r', '\n'] + rest =~= method + seq![' '] + path + seq!['?'] + query
        + seq![' '] + version + seq!['\r', '\n'] + rest);
}

/// A request without a space in its first line asks for the root.
pub proof fn law_a_line_without_a_space_asks_for_the_root(line: Seq<char>, rest: Seq<char>)
    requires
        forall|i: int| 0 <= i < line.len() ==> line[i] != ' ' && line[i] != '\n',
    ensures
        path_of(line) == seq!['/'],
        path_of(line + seq!['\r', '\n'] + rest) == seq!['/'],
{
    text::law_the_first_line_ends_at_a_line_feed(line, rest);
    text::lemma_find_is(line, ' ', line.len() as int);
}

/// The method of a request is the first word of its first line.
pub proof fn law_the_method_is_the_first_word(
    method: Seq<char>,
    after: Seq<char>,
    rest: Seq<char>,
)
    requires
        method.len() > 0,
        forall|i: int| 0 <= i < method.len() ==> !text::is_space(#[trigger] method[i]),
        forall|i: int| 0 <= i < after.len() ==> after[i] != '\n',
    ensures
        method_word(method + seq![' '] + after + seq!['\r', '\n'] + rest) == method,
{
    let line = method + seq![' '] + after;
    text::law_whitespace_by_code_point('\n');
    text::law_whitespace_by_code_point(' ');
    assert forall|i: int| 0 <= i < line.len() implies line[i] != '\n' by {
        if i < method.len() {
            assert(line[i] == method[i]);
            assert(!text::is_space(method[i]));
        } else if i > method.len() {
            assert(line[i] == after[i - method.len() - 1]);
        }
    }
    text::law_the_first_line_ends_at_a_line_feed(line, rest);
    let none = Seq::<char>::empty();
    text::law_the_first_word_ends_at_whitespace(none, method, seq![' '] + after);
    assert(none + method + (seq![' '] + after) =~= line);
    assert(line + seq!['\r', '\n'] + rest =~= method + seq![' '] + after + seq!['\r', '\n'] + rest);
}

/// A connection that asks for no upgrade is a plain request. One that does is the
/// uplink of an agent at its own path of a relay, and a viewer everywhere else.
pub proof fn law_the_upgrade_and_the_path_decide(preview: Seq<char>, is_relay: bool)
    ensures
        connection_of(preview, is_relay) == Connection::Http <==> !text::contains(
            preview,
            "upgrade: websocket"@,
        ),
        connection_of(preview, is_relay) == Connection::Agent <==> text::contains(
            preview,
            "upgrade: websocket"@,
        ) && is_relay && path_of(preview) == "/uplink"@,
        connection_of(preview, is_relay) == Connection::Viewer <==> text::contains(
            preview,
            "upgrade: websocket"@,
        ) && (!is_relay || path_of(preview) != "/uplink"@),
{
}

/// The headers end with a carriage return and a line feed, twice, and are refused above
/// 32 KiB.
pub proof fn law_headers_end_with_a_blank_line()
    ensures
        blank_line() == seq![13u8, 10u8, 13u8, 10u8],
        MAX_REQUEST == 32 * 1024,
{
}

/// What a request asks for, by its method and its path: a preflight by its method
/// alone, the two questions by their paths alone, process control by a `POST` to its
/// path where this is no relay, which refuses those paths, and else a file.
pub proof fn law_method_and_path_decide_the_route(
    method: Seq<char>,
    path: Seq<char>,
    server_mode: bool,
)
    ensures
        method == "OPTIONS"@ ==> route_of(method, path, server_mode) == Route::Preflight,
        method != "OPTIONS"@ && path == "/api/network-info"@ ==> route_of(method, path, server_mode)
            == Route::NetworkInfo,
        method != "OPTIONS"@ && path == "/api/version"@ ==> route_of(method, path, server_mode)
            == Route::Version,
        method != "OPTIONS"@ && server_mode && path == "/api/shutdown"@ ==> route_of(
            method,
            path,
            server_mode,
        ) == Route::Refused,
        method != "OPTIONS"@ && server_mode && path == "/api/set-port"@ ==> route_of(
            method,
            path,
            server_mode,
        ) == Route::Refused,
        method == "POST"@ && !server_mode && path == "/api/shutdown"@ ==> route_of(
            method,
            path,
            server_mode,
        ) == Route::Shutdown,
        method == "POST"@ && !server_mode && path == "/api/set-port"@ ==> route_of(
            method,
            path,
            server_mode,
        ) == Route::SetPort,
        method != "OPTIONS"@ && method != "POST"@ && !server_mode && (path == "/api/shutdown"@
            || path == "/api/set-port"@) ==> route_of(method, path, server_mode) == Route::File,
        method != "OPTIONS"@ && path != "/api/network-info"@ && path != "/api/version"@ && path
            != "/api/shutdown"@ && path != "/api/set-port"@ ==> route_of(method, path, server_mode)
            == Route::File,
{
    reveal_strlit("OPTIONS");
    reveal_strlit("POST");
    reveal_strlit("/api/network-info");
    reveal_strlit("/api/version");
    reveal_strlit("/api/shutdown");
    reveal_strlit("/api/set-port");
    assert("OPTIONS"@.len() == 7 && "POST"@.len() == 4);
    assert("/api/network-info"@.len() == 17 && "/api/version"@.len() == 12
        && "/api/shutdown"@.len() == 13 && "/api/set-port"@.len() == 13);
    assert("/api/shutdown"@[6] == 'h' && "/api/set-port"@[6] == 'e');
}

/// A header line gives the number after its first colon, with whitespace around it or
/// not; what is no number gives nothing.
pub proof fn law_a_header_gives_the_number_after_its_colon(
    name: Seq<char>,
    before: Seq<char>,
    n: int,
    after: Seq<char>,
)
    requires
        forall|i: int| 0 <= i < name.len() ==> name[i] != ':',
        forall|i: int| 0 <= i < before.len() ==> text::is_space(#[trigger] before[i]),
        forall|i: int| 0 <= i < after.len() ==> text::is_space(#[trigger] after[i]),
        0 <= n <= usize::MAX,
    ensures
        header_value(name + seq![':'] + (before + text::decimal(n) + after)) == n,
        header_value(name) == 0,
{
    let digits = text::decimal(n);
    let value = before + digits + after;
    text::law_numbers_are_written_in_decimal(n);
    text::law_whitespace_by_code_point(':');
    assert forall|i: int| 0 <= i < value.len() implies value[i] != ':' by {
        if i < before.len() {
            assert(value[i] == before[i]);
            assert(text::is_space(before[i]));
        } else if i < before.len() + digits.len() {
            assert(value[i] == digits[i - before.len()]);
        } else {
            assert(value[i] == after[i - before.len() - digits.len()]);
            assert(text::is_space(after[i - before.len() - digits.len()]));
        }
    }
    text::law_split_at_the_first_separator(name, ':', value);
    text::law_split_at_the_first_separator(value, ':', Seq::empty());
    assert((seq![name] + seq![value])[1] == value);
    text::law_whitespace_by_code_point(digits[0]);
    text::law_whitespace_by_code_point(digits[digits.len() - 1]);
    text::law_trimming_takes_whitespace_from_the_ends(before, digits, after);
    text::law_parse_of_decimal(n, usize::MAX as int);
}

/// The content length is that of the first line that begins so, in lower case; without
/// one it is zero.
pub proof fn law_the_first_content_length_counts(
    lines: Seq<Seq<char>>,
    lowered: Seq<Seq<char>>,
    k: int,
)
    requires
        lines.len() == lowered.len(),
        0 <= k <= lines.len(),
        forall|i: int|
            0 <= i < k ==> !text::starts_with(#[trigger] lowered[i], "content-length:"@),
        k < lines.len() ==> text::starts_with(lowered[k], "content-length:"@),
    ensures
        k < lines.len() ==> length_among(lines, lowered) == header_value(lines[k]),
        k == lines.len() ==> length_among(lines, lowered) == 0,
    decreases k,
{
    if k > 0 {
        let a = lines.skip(1);
        let b = lowered.skip(1);
        assert(!text::starts_with(lowered[0], "content-length:"@));
        assert forall|i: int| 0 <= i < k - 1 implies !text::starts_with(
            #[trigger] b[i],
            "content-length:"@,
        ) by {
            assert(b[i] == lowered[i + 1]);
        }
        if k < lines.len() {
            assert(b[k - 1] == lowered[k] && a[k - 1] == lines[k]);
        }
        law_the_first_content_length_counts(a, b, k - 1);
    }
}

/// The body of a request of text is what follows its first blank line: as many bytes as
/// the headers say, or as there are.
pub proof fn law_the_body_follows_the_blank_line(
    bytes: Seq<u8>,
    request: Seq<char>,
    length: int,
    i: int,
)
    requires
        vstd::utf8::encode_utf8(request) == bytes,
        0 <= length,
        0 <= i,
        i + 4 <= bytes.len(),
        bytes[i] == 13,
        bytes[i + 1] == 10,
        bytes[i + 2] == 13,
        bytes[i + 3] == 10,
        forall|j: int|
            0 <= j < i ==> !((#[trigger] bytes[j]) == 13 && bytes[j + 1] == 10 && bytes[j + 2] == 13
                && bytes[j + 3] == 10),
    ensures
        body_start(request, bytes.len() as int) == i + 4,
        i + 4 + length <= bytes.len() ==> body_of(bytes, request, length) == bytes.subrange(
            i + 4,
            i + 4 + length,
        ),
        i + 4 + length > bytes.len() ==> body_of(bytes, request, length) == bytes.subrange(
            i + 4,
            bytes.len() as int,
        ),
        body_fits(bytes, request, length) <==> i + 4 + length <= usize::MAX,
{
    lemma_first_from(bytes, blank_line(), 0);
    assert(bytes.subrange(i, i + 4) =~= blank_line());
    assert(text::occurs_at(bytes, blank_line(), i));
    let f = first_from(bytes, blank_line(), 0)->Some_0;
    if f < i {
        let s = bytes.subrange(f, f + 4);
        assert(s[0] == bytes[f] && s[1] == bytes[f + 1] && s[2] == bytes[f + 2] && s[3] == bytes[f
            + 3]);
        assert(s[0] == blank_line()[0] && s[1] == blank_line()[1] && s[2] == blank_line()[2]
            && s[3] == blank_line()[3]);
    }
}

/// A request of text without a blank line has no body.
pub proof fn law_no_body_without_a_blank_line(bytes: Seq<u8>, request: Seq<char>, length: int)
    requires
        vstd::utf8::encode_utf8(request) == bytes,
        0 <= length,
        forall|j: int|
            0 <= j < bytes.len() - 3 ==> !((#[trigger] bytes[j]) == 13 && bytes[j + 1] == 10
                && bytes[j + 2] == 13 && bytes[j + 3] == 10),
    ensures
        body_of(bytes, request, length).len() == 0,
{
    lemma_first_from(bytes, blank_line(), 0);
    if first_from(bytes, blank_line(), 0) is Some {
        let f = first_from(bytes, blank_line(), 0)->Some_0;
        let s = bytes.subrange(f, f + 4);
        assert(s[0] == bytes[f] && s[1] == bytes[f + 1] && s[2] == bytes[f + 2] && s[3] == bytes[f
            + 3]);
        assert(s[0] == blank_line()[0] && s[1] == blank_line()[1] && s[2] == blank_line()[2]
            && s[3] == blank_line()[3]);
    }
}

/// The dashboard moves to the port that was asked for if that is 1024 or above, and to
/// no other.
pub proof fn law_low_ports_are_refused(asked: Option<u16>, port: Option<u16>)
    requires
        call_ensures(accepted_port, (asked,), port),
    ensures
        asked is Some && asked->Some_0 >= 1024 ==> port == asked,
        asked is None || asked->Some_0 < 1024 ==> port is None,
{
}

/// An answer on the wire: its status, its type, the length of its body, that the
/// connection closes, its headers line by line, a blank line, and the body.
pub proof fn law_an_answer_on_the_wire(r: &Response, bytes: Vec<u8>)
    requires
        call_ensures(Response::to_bytes, (r,), bytes),
    ensures
        bytes@ == vstd::utf8::encode_utf8(
            "HTTP/1.1 "@ + text::decimal(r.status as int) + " "@ + status_text(r.status as int)
                + "\r\nContent-Type: "@ + r.content_type@ + "\r\nContent-Length: "@
                + text::decimal(r.body@.len() as int) + "\r\nConnection: close\r\n"@ + header_lines(
                header_views(r.headers@),
            ) + "\r\n"@,
        ) + r.body@,
{
}

/// Each header is a line of its own, in order: its name, a colon, a space and its value.
pub proof fn law_each_header_is_a_line(
    headers: Seq<(String, String)>,
    name: String,
    value: String,
)
    ensures
        header_lines(header_views(Seq::empty())).len() == 0,
        header_lines(header_views(headers.push((name, value)))) == header_lines(
            header_views(headers),
        ) + name@ + ": "@ + value@ + "\r\n"@,
{
    assert(header_views(headers.push((name, value))).drop_last() =~= header_views(headers));
    assert(header_views(headers.push((name, value))).last() == (name@, value@));
    assert(header_views(Seq::empty()).len() == 0);
}

/// The words for each status.
pub proof fn law_each_status_has_its_words(status: int)
    ensures
        status_text(200) == "OK"@,
        status_text(204) == "No Content"@,
        status_text(404) == "Not Found"@,
        status_text(413) == "Request Entity Too Large"@,
        status != 200 && status != 204 && status != 404 && status != 413 ==> status_text(status)
            == "Unknown"@,
{
}

/// A JSON answer is its text with its status, which any origin may read.
pub proof fn law_a_json_answer_is_its_text(status: int, body: Seq<char>, allowed: Seq<char>)
    ensures
        ({
            let a = json_answer(status, body, allowed);
            &&& a.status == status
            &&& a.content_type == "application/json"@
            &&& a.body == vstd::utf8::encode_utf8(body)
            &&& a.headers.len() == 2
            &&& a.headers[0] == ("Access-Control-Allow-Origin"@, "*"@)
            &&& a.headers[1] == ("Access-Control-Allow-Methods"@, allowed)
        }),
{
}

/// What the fixed answers say: a preflight nothing but what is allowed, a refusal and a
/// dashboard that is not there that nothing was found.
pub proof fn law_the_fixed_answers()
    ensures
        preflight_answer().status == 204,
        preflight_answer().content_type == "text/plain"@,
        preflight_answer().body.len() == 0,
        preflight_answer().headers.len() == 3,
        preflight_answer().headers[0] == ("Access-Control-Allow-Origin"@, "*"@),
        preflight_answer().headers[1] == (
            "Access-Control-Allow-Methods"@,
            "GET, POST, OPTIONS"@,
        ),
        preflight_answer().headers[2] == ("Access-Control-Allow-Headers"@, "*"@),
        refused_answer().status == 404,
        refused_answer().content_type == "text/plain"@,
        refused_answer().body == vstd::utf8::encode_utf8("Not Found"@),
        refused_answer().headers.len() == 1,
        refused_answer().headers[0] == ("Access-Control-Allow-Origin"@, "*"@),
        missing_answer().status == 404,
        missing_answer().content_type == "text/plain"@,
        missing_answer().body == vstd::utf8::encode_utf8("Not Found"@),
        missing_answer().headers.len() == 2,
        missing_answer().headers[0] == ("Access-Control-Allow-Origin"@, "*"@),
        missing_answer().headers[1] == ("Access-Control-Allow-Methods"@, "GET, OPTIONS"@),
{
}

/// A file is sent as it is, with its type and how long it may be kept, and any origin
/// may read it.
pub proof fn law_a_file_is_sent_as_it_is(
    content_type: Seq<char>,
    data: Seq<u8>,
    cache: Seq<char>,
)
    ensures
        ({
            let a = file_answer(content_type, data, cache);
            &&& a.status == 200
            &&& a.content_type == content_type
            &&& a.body == data
            &&& a.headers.len() == 3
            &&& a.headers[0] == ("Access-Control-Allow-Origin"@, "*"@)
            &&& a.headers[1] == ("Access-Control-Allow-Methods"@, "GET, OPTIONS"@)
            &&& a.headers[2] == ("Cache-Control"@, cache)
        }),
{
}

/// The root names the index; every other path names the file behind its slashes.
pub proof fn law_a_path_names_its_file(n: nat, file: Seq<char>)
    requires
        file.len() > 0,
        file[0] != '/',
    ensures
        file_of(seq!['/']) == "index.html"@,
        file_of(Seq::new(n, |i: int| '/') + file) == file,
{
    reveal_strlit("/");
    assert("/"@ =~= seq!['/']);
    let run = Seq::new(n, |i: int| '/');
    let path = run + file;
    if path == seq!['/'] {
        assert(path.last() == file.last());
        assert(path.len() == 1);
        assert(n == 0);
        assert(path[0] == file[0]);
    }
    text::law_leading_characters_go(n, '/', file);
}

/// Which media type each extension has; what is not known is sent as bytes.
pub proof fn law_each_extension_has_its_media_type(path: Seq<char>)
    ensures
        paths::extension(path) == Some("html"@) ==> media_type(path) == "text/html; charset=utf-8"@,
        paths::extension(path) == Some("htm"@) ==> media_type(path) == "text/html; charset=utf-8"@,
        paths::extension(path) == Some("js"@) ==> media_type(path)
            == "application/javascript; charset=utf-8"@,
        paths::extension(path) == Some("mjs"@) ==> media_type(path)
            == "application/javascript; charset=utf-8"@,
        paths::extension(path) == Some("css"@) ==> media_type(path) == "text/css; charset=utf-8"@,
        paths::extension(path) == Some("json"@) ==> media_type(path) == "application/json"@,
        paths::extension(path) == Some("svg"@) ==> media_type(path) == "image/svg+xml"@,
        paths::extension(path) == Some("png"@) ==> media_type(path) == "image/png"@,
        paths::extension(path) == Some("jpg"@) ==> media_type(path) == "image/jpeg"@,
        paths::extension(path) == Some("jpeg"@) ==> media_type(path) == "image/jpeg"@,
        paths::extension(path) == Some("gif"@) ==> media_type(path) == "image/gif"@,
        paths::extension(path) == Some("ico"@) ==> media_type(path) == "image/x-icon"@,
        paths::extension(path) == Some("woff"@) ==> media_type(path) == "font/woff"@,
        paths::extension(path) == Some("woff2"@) ==> media_type(path) == "font/woff2"@,
        paths::extension(path) == Some("ttf"@) ==> media_type(path) == "font/ttf"@,
        paths::extension(path) == Some("webmanifest"@) ==> media_type(path) == "application/manifest+json"@,
        paths::extension(path) == Some("txt"@) ==> media_type(path) == "text/plain; charset=utf-8"@,
        paths::extension(path) is None ==> media_type(path) == "application/octet-stream"@,
        paths::extension(path) is Some
            && paths::extension(path) != Some("html"@)
            && paths::extension(path) != Some("htm"@)
            && paths::extension(path) != Some("js"@)
            && paths::extension(path) != Some("mjs"@)
            && paths::extension(path) != Some("css"@)
            && paths::extension(path) != Some("json"@)
            && paths::extension(path) != Some("svg"@)
            && paths::extension(path) != Some("png"@)
            && paths::extension(path) != Some("jpg"@)
            && paths::extension(path) != Some("jpeg"@)
            && paths::extension(path) != Some("gif"@)
            && paths::extension(path) != Some("ico"@)
            && paths::extension(path) != Some("woff"@)
            && paths::extension(path) != Some("woff2"@)
            && paths::extension(path) != Some("ttf"@)
            && paths::extension(path) != Some("webmanifest"@)
            && paths::extension(path) != Some("txt"@)
            ==> media_type(path) == "application/octet-stream"@,
{
    reveal_strlit("html");
    reveal_strlit("htm");
    reveal_strlit("js");
    reveal_strlit("mjs");
    reveal_strlit("css");
    reveal_strlit("json");
    reveal_strlit("svg");
    reveal_strlit("png");
    reveal_strlit("jpg");
    reveal_strlit("jpeg");
    reveal_strlit("gif");
    reveal_strlit("ico");
    reveal_strlit("woff");
    reveal_strlit("woff2");
    reveal_strlit("ttf");
    reveal_strlit("webmanifest");
    reveal_strlit("txt");
    assert("html"@.len() == 4);
    assert("htm"@.len() == 3);
    assert("js"@.len() == 2);
    assert("mjs"@.len() == 3);
    assert("css"@.len() == 3);
    assert("json"@.len() == 4);
    assert("svg"@.len() == 3);
    assert("png"@.len() == 3);
    assert("jpg"@.len() == 3);
    assert("jpeg"@.len() == 4);
    assert("gif"@.len() == 3);
    assert("ico"@.len() == 3);
    assert("woff"@.len() == 4);
    assert("woff2"@.len() == 5);
    assert("ttf"@.len() == 3);
    assert("webmanifest"@.len() == 11);
    assert("txt"@.len() == 3);
    assert("html"@[0] != "json"@[0]);
    assert("html"@[0] != "jpeg"@[0]);
    assert("html"@[0] != "woff"@[0]);
    assert("htm"@[0] != "mjs"@[0]);
    assert("htm"@[0] != "css"@[0]);
    assert("htm"@[0] != "svg"@[0]);
    assert("htm"@[0] != "png"@[0]);
    assert("htm"@[0] != "jpg"@[0]);
    assert("htm"@[0] != "gif"@[0]);
    assert("htm"@[0] != "ico"@[0]);
    assert("htm"@[0] != "ttf"@[0]);
    assert("htm"@[0] != "txt"@[0]);
    assert("mjs"@[0] != "css"@[0]);
    assert("mjs"@[0] != "svg"@[0]);
    assert("mjs"@[0] != "png"@[0]);
    assert("mjs"@[0] != "jpg"@[0]);
    assert("mjs"@[0] != "gif"@[0]);
    assert("mjs"@[0] != "ico"@[0]);
    assert("mjs"@[0] != "ttf"@[0]);
    assert("mjs"@[0] != "txt"@[0]);
    assert("css"@[0] != "svg"@[0]);
    assert("css"@[0] != "png"@[0]);
    assert("css"@[0] != "jpg"@[0]);
    assert("css"@[0] != "gif"@[0]);
    assert("css"@[0] != "ico"@[0]);
    assert("css"@[0] != "ttf"@[0]);
    assert("css"@[0] != "txt"@[0]);
    assert("json"@[1] != "jpeg"@[1]);
    assert("json"@[0] != "woff"@[0]);
    assert("svg"@[0] != "png"@[0]);
    assert("svg"@[0] != "jpg"@[0]);
    assert("svg"@[0] != "gif"@[0]);
    assert("svg"@[0] != "ico"@[0]);
    assert("svg"@[0] != "ttf"@[0]);
    assert("svg"@[0] != "txt"@[0]);
    assert("png"@[0] != "jpg"@[0]);
    assert("png"@[0] != "gif"@[0]);
    assert("png"@[0] != "ico"@[0]);
    assert("png"@[0] != "ttf"@[0]);
    assert("png"@[0] != "txt"@[0]);
    assert("jpg"@[0] != "gif"@[0]);
    assert("jpg"@[0] != "ico"@[0]);
    assert("jpg"@[0] != "ttf"@[0]);
    assert("jpg"@[0] != "txt"@[0]);
    assert("jpeg"@[0] != "woff"@[0]);
    assert("gif"@[0] != "ico"@[0]);
    assert("gif"@[0] != "ttf"@[0]);
    assert("gif"@[0] != "txt"@[0]);
    assert("ico"@[0] != "ttf"@[0]);
    assert("ico"@[0] != "txt"@[0]);
    assert("ttf"@[1] != "txt"@[1]);
}

/// Files under `assets/` may be kept for a year, and all others for no time.
pub proof fn law_only_assets_are_kept(file: Seq<char>)
    ensures
        text::starts_with(file, "assets/"@) ==> cache_of(file)
            == "public, max-age=31536000, immutable"@,
        !text::starts_with(file, "assets/"@) ==> cache_of(file) == "no-cache"@,
{
}

/// A path that names a file is answered with that file and its own type; one that names
/// none is answered with the index, and only where there is none either is nothing
/// found.
pub proof fn law_what_is_not_there_is_answered_with_the_index(
    path: &str,
    data: Option<Vec<u8>>,
    index: Option<Vec<u8>>,
    r: Response,
)
    requires
        call_ensures(file_response, (path, data, index), r),
    ensures
        data is Some ==> r.status == 200 && r.body@ == data->Some_0@ && r.content_type@
            == media_type(file_of(path@)),
        data is None && index is Some ==> r.status == 200 && r.body@ == index->Some_0@
            && r.content_type@ == "text/html; charset=utf-8"@,
        data is None && index is None ==> r.status == 404 && r.body@ == vstd::utf8::encode_utf8(
            "Not Found"@,
        ),
{
}

/// What is done about each kind of request: what can be answered is answered, a stop
/// comes with its answer, a port with the body that asks for it and a file with its
/// path.
pub proof fn law_each_route_has_its_plan(
    plan: Plan,
    route: Route,
    path: Seq<char>,
    request: Seq<u8>,
    version: Seq<char>,
)
    requires
        follows(plan, route, path, request, version),
    ensures
        plan is Reply <==> route == Route::Preflight || route == Route::Version || route
            == Route::Refused,
        plan is NetworkInfo <==> route == Route::NetworkInfo,
        plan is Stop <==> route == Route::Shutdown,
        plan is MovePort <==> route == Route::SetPort,
        plan is File <==> route == Route::File,
        plan matches Plan::File(p) ==> p@ == path,
        route == Route::Preflight ==> plan->Reply_0@.status == 204,
        route == Route::Refused ==> plan->Reply_0@.status == 404,
        route == Route::Version ==> plan->Reply_0@.status == 200 && plan->Reply_0@.body
            == vstd::utf8::encode_utf8("{\"version\":\""@ + version + "\"}"@),
        route == Route::Shutdown ==> plan->Stop_0@.status == 200 && plan->Stop_0@.body
            == vstd::utf8::encode_utf8("{\"ok\":true}"@),
{
}

// ---------------------------------------------------------------------------
// Laws of the operations
// ---------------------------------------------------------------------------

/// The path of a request is what stands between the first two spaces of its first line,
/// without its query.
pub proof fn law_the_path_is_read_from_the_first_line(
    request: &str,
    path: String,
    method: Seq<char>,
    target: Seq<char>,
    query: Seq<char>,
    version: Seq<char>,
    rest: Seq<char>,
)
    requires
        call_ensures(parse_path, (request,), path),
        forall|i: int| 0 <= i < method.len() ==> method[i] != ' ' && method[i] != '\n',
        forall|i: int|
            0 <= i < target.len() ==> target[i] != ' ' && target[i] != '\n' && target[i] != '?',
        forall|i: int| 0 <= i < query.len() ==> query[i] != ' ' && query[i] != '\n',
        forall|i: int| 0 <= i < version.len() ==> version[i] != '\n',
        request@ == method + seq![' '] + target + seq![' '] + version + seq!['\r', '\n'] + rest
            || request@ == method + seq![' '] + target + seq!['?'] + query + seq![' '] + version
            + seq!['\r', '\n'] + rest,
    ensures
        path@ == target,
{
    law_the_path_stands_between_two_spaces(method, target, query, version, rest);
}

/// A connection that asks for an upgrade is a viewer, or at the uplink of a relay an
/// agent; every other one is an ordinary request.
pub proof fn law_a_connection_is_what_it_asks_for(preview: &str, is_relay: bool, c: Connection)
    requires
        call_ensures(classify_preview, (preview, is_relay), c),
    ensures
        c is Http <==> !text::contains(preview@, "upgrade: websocket"@),
        c is Agent <==> text::contains(preview@, "upgrade: websocket"@) && is_relay && path_of(
            preview@,
        ) == "/uplink"@,
        c is Viewer <==> text::contains(preview@, "upgrade: websocket"@) && (!is_relay || path_of(
            preview@,
        ) != "/uplink"@),
{
    law_the_upgrade_and_the_path_decide(preview@, is_relay);
}

/// A request is read until its headers end or no more comes, and refused where it gets
/// larger than thirty-two kibibytes before that.
pub proof fn law_a_request_is_read_to_its_blank_line(
    request: &mut Vec<u8>,
    chunk: Vec<u8>,
    step: ReadStep,
)
    requires
        call_ensures(after_read, (request, &chunk), step),
    ensures
        final(request)@ == old(request)@ + chunk@,
        step is Complete <==> chunk@.len() == 0 || text::contains(
            final(request)@,
            seq![13u8, 10u8, 13u8, 10u8],
        ),
        step is TooLarge <==> !(step is Complete) && final(request)@.len() > 32 * 1024,
        step is More <==> !(step is Complete) && final(request)@.len() <= 32 * 1024,
{
    law_headers_end_with_a_blank_line();
}

/// The method and the path decide what a request asks for. A relay refuses what would
/// control it, and elsewhere control takes a `POST`.
pub proof fn law_a_request_is_routed(method: &str, path: &str, server_mode: bool, r: Route)
    requires
        call_ensures(route, (method, path, server_mode), r),
    ensures
        r is Preflight <==> method@ == "OPTIONS"@,
        r is NetworkInfo <==> method@ != "OPTIONS"@ && path@ == "/api/network-info"@,
        r is Version <==> method@ != "OPTIONS"@ && path@ == "/api/version"@,
        r is Refused <==> method@ != "OPTIONS"@ && server_mode && (path@ == "/api/shutdown"@
            || path@ == "/api/set-port"@),
        r is Shutdown <==> method@ == "POST"@ && !server_mode && path@ == "/api/shutdown"@,
        r is SetPort <==> method@ == "POST"@ && !server_mode && path@ == "/api/set-port"@,
{
    reveal_strlit("OPTIONS");
    reveal_strlit("POST");
    reveal_strlit("/api/network-info");
    reveal_strlit("/api/version");
    reveal_strlit("/api/shutdown");
    reveal_strlit("/api/set-port");
    assert("OPTIONS"@.len() != "POST"@.len());
    assert("/api/network-info"@.len() == 17);
    assert("/api/version"@.len() == 12);
    assert("/api/shutdown"@.len() == 13);
    assert("/api/set-port"@.len() == 13);
    assert("/api/shutdown"@[6] != "/api/set-port"@[6]);
    law_method_and_path_decide_the_route(method@, path@, server_mode);
}

/// The length of a body is that of the first header that gives one, and none is zero.
pub proof fn law_the_first_length_counts(
    lines: Vec<Vec<char>>,
    lowered: Vec<String>,
    n: usize,
    k: int,
)
    requires
        lines@.len() == lowered@.len(),
        call_ensures(length_in_headers, (&lines, &lowered), n),
        0 <= k <= lines@.len(),
        forall|i: int|
            0 <= i < k ==> !text::starts_with((#[trigger] lowered@[i])@, "content-length:"@),
        k < lines@.len() ==> text::starts_with(lowered@[k]@, "content-length:"@),
    ensures
        k == lines@.len() ==> n == 0,
        k < lines@.len() ==> n == header_value(lines@[k]@),
{
    let a = text::texts(lines@);
    let b = text::views(lowered@);
    assert forall|i: int| 0 <= i < k implies !text::starts_with(
        #[trigger] b[i],
        "content-length:"@,
    ) by {
        assert(b[i] == lowered@[i]@);
    }
    if k < lines@.len() {
        assert(b[k] == lowered@[k]@);
        assert(a[k] == lines@[k]@);
    }
    law_the_first_content_length_counts(a, b, k);
}

/// The body is as many bytes as its length says, from behind the first blank line, or
/// as many as there are.
pub proof fn law_a_body_is_cut_out(
    bytes: Vec<u8>,
    request: &str,
    length: usize,
    body: Vec<u8>,
    i: int,
)
    requires
        call_ensures(cut_body, (&bytes, request, length), body),
        vstd::utf8::encode_utf8(request@) == bytes@,
        0 <= i,
        i + 4 <= bytes@.len(),
        bytes@[i] == 13,
        bytes@[i + 1] == 10,
        bytes@[i + 2] == 13,
        bytes@[i + 3] == 10,
        forall|j: int|
            0 <= j < i ==> !((#[trigger] bytes@[j]) == 13 && bytes@[j + 1] == 10 && bytes@[j + 2]
                == 13 && bytes@[j + 3] == 10),
    ensures
        i + 4 + length <= bytes@.len() ==> body@ == bytes@.subrange(i + 4, i + 4 + length),
        i + 4 + length > bytes@.len() ==> body@ == bytes@.subrange(i + 4, bytes@.len() as int),
{
    law_the_body_follows_the_blank_line(bytes@, request@, length as int, i);
}

/// An answer on the wire is its head, as text, and then its body.
pub proof fn law_an_answer_is_its_head_and_its_body(r: Response, head: String, bytes: Vec<u8>)
    requires
        call_ensures(Response::head, (&r,), head),
        call_ensures(Response::to_bytes, (&r,), bytes),
    ensures
        bytes@ == vstd::utf8::encode_utf8(head@) + r.body@,
        head@ == "HTTP/1.1 "@ + text::decimal(r.status as int) + " "@ + status_text(r.status as int)
            + "\r\nContent-Type: "@ + r.content_type@ + "\r\nContent-Length: "@ + text::decimal(
            r.body@.len() as int,
        ) + "\r\nConnection: close\r\n"@ + header_lines(header_views(r.headers@)) + "\r\n"@,
{
}

/// What is asked before a request from elsewhere is answered: everything is allowed.
pub proof fn law_every_origin_is_allowed(r: Response)
    requires
        call_ensures(preflight_response, (), r),
    ensures
        r.status == 204,
        r.content_type@ == "text/plain"@,
        r.body@.len() == 0,
        r.headers@.len() == 3,
        r.headers@[0].0@ == "Access-Control-Allow-Origin"@ && r.headers@[0].1@ == "*"@,
        r.headers@[1].0@ == "Access-Control-Allow-Methods"@ && r.headers@[1].1@
            == "GET, POST, OPTIONS"@,
        r.headers@[2].0@ == "Access-Control-Allow-Headers"@ && r.headers@[2].1@ == "*"@,
{
    law_the_fixed_answers();
    let h = header_views(r.headers@);
    assert(h == preflight_answer().headers);
    assert(h.len() == r.headers@.len());
    assert(h[0] == (r.headers@[0].0@, r.headers@[0].1@));
    assert(h[1] == (r.headers@[1].0@, r.headers@[1].1@));
    assert(h[2] == (r.headers@[2].0@, r.headers@[2].1@));
}

/// The address is told with its port; one that could not be found is unknown.
pub proof fn law_the_address_is_told(ip: Option<String>, port: u16, r: Response)
    requires
        call_ensures(network_info_response, (ip, port), r),
    ensures
        r.status == 200,
        r.content_type@ == "application/json"@,
        ip is Some ==> r.body@ == vstd::utf8::encode_utf8(
            "{\"ip\":\""@ + ip->Some_0@ + "\",\"port\":"@ + text::decimal(port as int) + "}"@,
        ),
        ip is None ==> r.body@ == vstd::utf8::encode_utf8(
            "{\"ip\":\""@ + "unknown"@ + "\",\"port\":"@ + text::decimal(port as int) + "}"@,
        ),
{
}

/// The version is told as it is.
pub proof fn law_the_version_is_told(version: &str, r: Response)
    requires
        call_ensures(version_response, (version,), r),
    ensures
        r.status == 200,
        r.content_type@ == "application/json"@,
        r.body@ == vstd::utf8::encode_utf8("{\"version\":\""@ + version@ + "\"}"@),
{
}

/// What is refused, too large or not there is answered as such.
pub proof fn law_refusals_say_why(refused: Response, large: Response, low: Response)
    requires
        call_ensures(refused_response, (), refused),
        call_ensures(too_large_response, (), large),
        call_ensures(port_refused_response, (), low),
    ensures
        refused.status == 404,
        refused.body@ == vstd::utf8::encode_utf8("Not Found"@),
        large.status == 413,
        large.body@ == vstd::utf8::encode_utf8("Request Too Large"@),
        low.status == 400,
        low.body@ == vstd::utf8::encode_utf8(
            "{\"ok\":false,\"error\":\"port must be 1024-65535\"}"@,
        ),
{
    law_the_fixed_answers();
}

/// Control is answered with whether it went well, the new port or the error.
pub proof fn law_control_is_answered(
    stop: Response,
    port: u16,
    moved: Response,
    error: &str,
    failed: Response,
)
    requires
        call_ensures(shutdown_response, (), stop),
        call_ensures(port_moved_response, (port,), moved),
        call_ensures(port_not_stored_response, (error,), failed),
    ensures
        stop.status == 200,
        stop.body@ == vstd::utf8::encode_utf8("{\"ok\":true}"@),
        moved.status == 200,
        moved.body@ == vstd::utf8::encode_utf8(
            "{\"ok\":true,\"port\":"@ + text::decimal(port as int) + "}"@,
        ),
        failed.status == 500,
        failed.body@ == vstd::utf8::encode_utf8("{\"ok\":false,\"error\":\""@ + error@ + "\"}"@),
{
}

/// A path without its leading slashes names the file; the root is the index.
pub proof fn law_a_path_is_its_file(path: &str, file: String, n: nat, name: Seq<char>)
    requires
        call_ensures(file_path, (path,), file),
        name.len() > 0,
        name[0] != '/',
    ensures
        path@ == seq!['/'] ==> file@ == "index.html"@,
        path@ == Seq::new(n, |i: int| '/') + name ==> file@ == name,
{
    law_a_path_names_its_file(n, name);
}

/// The extension of a file decides its media type.
pub proof fn law_the_media_type_follows_the_extension(path: &str, mime: &'static str)
    requires
        call_ensures(mime_type, (path,), mime),
    ensures
        paths::extension(path@) == Some("html"@) ==> mime@ == "text/html; charset=utf-8"@,
        paths::extension(path@) == Some("htm"@) ==> mime@ == "text/html; charset=utf-8"@,
        paths::extension(path@) == Some("js"@) ==> mime@
            == "application/javascript; charset=utf-8"@,
        paths::extension(path@) == Some("mjs"@) ==> mime@
            == "application/javascript; charset=utf-8"@,
        paths::extension(path@) == Some("css"@) ==> mime@ == "text/css; charset=utf-8"@,
        paths::extension(path@) == Some("json"@) ==> mime@ == "application/json"@,
        paths::extension(path@) == Some("svg"@) ==> mime@ == "image/svg+xml"@,
        paths::extension(path@) == Some("png"@) ==> mime@ == "image/png"@,
        paths::extension(path@) == Some("jpg"@) ==> mime@ == "image/jpeg"@,
        paths::extension(path@) == Some("jpeg"@) ==> mime@ == "image/jpeg"@,
        paths::extension(path@) == Some("gif"@) ==> mime@ == "image/gif"@,
        paths::extension(path@) == Some("ico"@) ==> mime@ == "image/x-icon"@,
        paths::extension(path@) == Some("woff"@) ==> mime@ == "font/woff"@,
        paths::extension(path@) == Some("woff2"@) ==> mime@ == "font/woff2"@,
        paths::extension(path@) == Some("ttf"@) ==> mime@ == "font/ttf"@,
        paths::extension(path@) == Some("webmanifest"@) ==> mime@ == "application/manifest+json"@,
        paths::extension(path@) == Some("txt"@) ==> mime@ == "text/plain; charset=utf-8"@,
        paths::extension(path@) is None ==> mime@ == "application/octet-stream"@,
        paths::extension(path@) is Some
            && paths::extension(path@) != Some("html"@)
            && paths::extension(path@) != Some("htm"@)
            && paths::extension(path@) != Some("js"@)
            && paths::extension(path@) != Some("mjs"@)
            && paths::extension(path@) != Some("css"@)
            && paths::extension(path@) != Some("json"@)
            && paths::extension(path@) != Some("svg"@)
            && paths::extension(path@) != Some("png"@)
            && paths::extension(path@) != Some("jpg"@)
            && paths::extension(path@) != Some("jpeg"@)
            && paths::extension(path@) != Some("gif"@)
            && paths::extension(path@) != Some("ico"@)
            && paths::extension(path@) != Some("woff"@)
            && paths::extension(path@) != Some("woff2"@)
            && paths::extension(path@) != Some("ttf"@)
            && paths::extension(path@) != Some("webmanifest"@)
            && paths::extension(path@) != Some("txt"@)
            ==> mime@ == "application/octet-stream"@,
{
    law_each_extension_has_its_media_type(path@);
}

/// A file that is there is sent with its media type, and kept by the browser where it is
/// an asset, and only there.
pub proof fn law_a_file_is_sent_with_its_type(
    path: &str,
    data: Vec<u8>,
    index: Option<Vec<u8>>,
    r: Response,
)
    requires
        call_ensures(file_response, (path, Some(data), index), r),
    ensures
        r.status == 200,
        r.body@ == data@,
        r.content_type@ == media_type(file_of(path@)),
        r.headers@.len() == 3,
        r.headers@[2].0@ == "Cache-Control"@,
        text::starts_with(file_of(path@), "assets/"@) ==> r.headers@[2].1@
            == "public, max-age=31536000, immutable"@,
        !text::starts_with(file_of(path@), "assets/"@) ==> r.headers@[2].1@ == "no-cache"@,
{
    let a = file_answer(media_type(file_of(path@)), data@, cache_of(file_of(path@)));
    law_a_file_is_sent_as_it_is(media_type(file_of(path@)), data@, cache_of(file_of(path@)));
    law_only_assets_are_kept(file_of(path@));
    let h = header_views(r.headers@);
    assert(h == a.headers);
    assert(h.len() == r.headers@.len());
    assert(h[2] == (r.headers@[2].0@, r.headers@[2].1@));
}

/// What is done follows from what is asked for: a request is answered, stops the
/// process, moves the port or is served a file.
pub proof fn law_a_route_is_planned(
    route: Route,
    path: String,
    request: Vec<u8>,
    version: &str,
    plan: Plan,
)
    requires
        call_ensures(plan_route, (route, path, &request, version), plan),
    ensures
        plan is Reply <==> route is Preflight || route is Version || route is Refused,
        plan is NetworkInfo <==> route is NetworkInfo,
        plan is Stop <==> route is Shutdown,
        plan is MovePort <==> route is SetPort,
        plan is File <==> route is File,
        plan is File ==> plan->File_0@ == path@,
        route is Preflight ==> plan->Reply_0.status == 204,
        route is Refused ==> plan->Reply_0.status == 404,
        route is Version ==> plan->Reply_0.status == 200 && plan->Reply_0.body@
            == vstd::utf8::encode_utf8("{\"version\":\""@ + version@ + "\"}"@),
        route is Shutdown ==> plan->Stop_0.status == 200 && plan->Stop_0.body@
            == vstd::utf8::encode_utf8("{\"ok\":true}"@),
{
    law_each_route_has_its_plan(plan, route, path@, request@, version@);
}

/// A request is handled as its route says, and its port is moved to what its own body
/// asks for.
pub proof fn law_a_request_is_handled_by_its_route(
    request: Vec<u8>,
    server_mode: bool,
    version: &str,
    routed: (Route, String),
    body: Option<Vec<u8>>,
    plan: Plan,
)
    requires
        call_ensures(route_request, (&request, server_mode), routed),
        call_ensures(request_body, (&request,), body),
        call_ensures(handle_http, (&request, server_mode, version), plan),
    ensures
        plan is Reply <==> routed.0 is Preflight || routed.0 is Version || routed.0 is Refused,
        plan is NetworkInfo <==> routed.0 is NetworkInfo,
        plan is Stop <==> routed.0 is Shutdown,
        plan is MovePort <==> routed.0 is SetPort,
        plan is File <==> routed.0 is File,
        plan is File ==> plan->File_0@ == routed.1@,
        plan is MovePort && plan->MovePort_0 is Some && body is Some ==> plan->MovePort_0->Some_0@
            == body->Some_0@,
        plan is MovePort && plan->MovePort_0 is None ==> body is None,
        server_mode ==> !(plan is Stop) && !(plan is MovePort),
{
    law_each_route_has_its_plan(plan, routed.0, routed.1@, request@, version@);
}

/// The route of a request is that of its method, in capitals, and its path.
pub proof fn law_a_raw_request_is_routed_by_its_words(
    request: Vec<u8>,
    words: &str,
    server_mode: bool,
    method: String,
    capitals: &str,
    path: String,
    target: &str,
    r: Route,
    routed: (Route, String),
)
    requires
        words@ == lossy(request@),
        call_ensures(request_method, (words,), method),
        call_ensures(parse_path, (words,), path),
        capitals@ == method@,
        target@ == path@,
        call_ensures(route, (capitals, target, server_mode), r),
        call_ensures(route_request, (&request, server_mode), routed),
    ensures
        routed.0 == r,
        routed.1@ == path@,
{
}

/// The method of a request is its first word, in capitals.
pub proof fn law_the_method_is_read_in_capitals(
    request: &str,
    r: String,
    method: Seq<char>,
    after: Seq<char>,
    rest: Seq<char>,
)
    requires
        call_ensures(request_method, (request,), r),
        method.len() > 0,
        forall|i: int| 0 <= i < method.len() ==> !text::is_space(#[trigger] method[i]),
        forall|i: int| 0 <= i < after.len() ==> after[i] != '\n',
        request@ == method + seq![' '] + after + seq!['\r', '\n'] + rest,
    ensures
        r@ == uppercase(method),
{
    law_the_method_is_the_first_word(method, after, rest);
}

/// The length of a body is the number in the first line that begins with
/// `content-length:`, in whatever case, and zero without one.
pub proof fn law_the_length_is_read_in_any_case(request: &str, n: usize, k: int)
    requires
        call_ensures(content_length, (request,), n),
        0 <= k <= text::lines(request@).len(),
        forall|i: int|
            0 <= i < k ==> !text::starts_with(
                lowercase(#[trigger] text::lines(request@)[i]),
                "content-length:"@,
            ),
        k < text::lines(request@).len() ==> text::starts_with(
            lowercase(text::lines(request@)[k]),
            "content-length:"@,
        ),
    ensures
        k == text::lines(request@).len() ==> n == 0,
        k < text::lines(request@).len() ==> n == header_value(text::lines(request@)[k]),
{
    let lines = text::lines(request@);
    let lowered = all_lowercase(lines);
    assert(lowered.len() == lines.len());
    assert forall|i: int| 0 <= i < k implies !text::starts_with(
        #[trigger] lowered[i],
        "content-length:"@,
    ) by {
        assert(lowered[i] == lowercase(lines[i]));
    }
    if k < lines.len() {
        assert(lowered[k] == lowercase(lines[k]));
    }
    law_the_first_content_length_counts(lines, lowered, k);
}

/// A connection is told by its first bytes, read as text in small letters.
pub proof fn law_a_connection_is_told_in_any_case(
    bytes: Vec<u8>,
    preview: &str,
    is_relay: bool,
    c: Connection,
    told: Connection,
)
    requires
        preview@ == lowercase(lossy(bytes@)),
        call_ensures(classify_connection, (&bytes, is_relay), c),
        call_ensures(classify_preview, (preview, is_relay), told),
    ensures
        c == told,
{
}

/// The body of a request is cut out of it by the length that its headers give.
pub proof fn law_a_body_is_as_long_as_its_headers_say(
    bytes: Vec<u8>,
    request: &str,
    length: usize,
    body: Option<Vec<u8>>,
    cut: Vec<u8>,
)
    requires
        request@ == lossy(bytes@),
        call_ensures(content_length, (request,), length),
        call_ensures(request_body, (&bytes,), body),
        call_ensures(cut_body, (&bytes, request, length), cut),
    ensures
        body is Some ==> body->Some_0@ == cut@,
        body is None <==> !body_fits(bytes@, request@, length as int),
{
}

} // verus!
