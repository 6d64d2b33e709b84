//! A parsed request head, the errors of parsing one, and the parser.

use vstd::prelude::*;

use crate::server::grammar::{
    all_of, header_line, lemma_request_line_shape, lowercase, parse_header, parse_request_line,
    request_line, CharClass,
};
use crate::server::headers::HeaderMap;
use crate::server::socket::{
    decode_lossy, lemma_find_lf, lemma_find_lf_skipped, lemma_line_shortens, lossy_text, scan_lf,
    trim_cr, LinePoll, Polled, ReadState, Socket, CR,
};
use crate::server::stream::{lines_of, text_lines};

verus! {

/// The protocol versions that a request line may name.
#[derive(Clone, Copy, Debug, PartialEq, Eq, Structural)]
pub enum HTTPVersion {
    V1_1,
    V2,
    V3,
}

impl HTTPVersion {
    /// The token that names the version in a request line.
    pub open spec fn literal(self) -> Seq<char> {
        match self {
            HTTPVersion::V1_1 => "HTTP/1.1"@,
            HTTPVersion::V2 => "HTTP/2"@,
            HTTPVersion::V3 => "HTTP/3"@,
        }
    }

    /// The version that `token` names, if it is one of the three literals.
    pub open spec fn of_literal(token: Seq<char>) -> Option<HTTPVersion> {
        if token == HTTPVersion::V1_1.literal() {
            Some(HTTPVersion::V1_1)
        } else if token == HTTPVersion::V2.literal() {
            Some(HTTPVersion::V2)
        } else if token == HTTPVersion::V3.literal() {
            Some(HTTPVersion::V3)
        } else {
            None
        }
    }

    /// The version as the host is told it.
    pub open spec fn number(self) -> Seq<char> {
        match self {
            HTTPVersion::V1_1 => "1.1"@,
            HTTPVersion::V2 => "2.0"@,
            HTTPVersion::V3 => "3.0"@,
        }
    }

    /// Reads a version token: `HTTP/1.1`, `HTTP/2` or `HTTP/3`, letter for
    /// letter; nothing else names a version.
    pub fn from_literal(token: &str) -> (version: Option<HTTPVersion>)
        ensures
            version == HTTPVersion::of_literal(token@),
    {
        let token: String = token.to_owned();
        if token == "HTTP/1.1".to_owned() {
            Some(HTTPVersion::V1_1)
        } else if token == "HTTP/2".to_owned() {
            Some(HTTPVersion::V2)
        } else if token == "HTTP/3".to_owned() {
            Some(HTTPVersion::V3)
        } else {
            None
        }
    }

    /// The version as the host is told it: `1.1`, `2.0` or `3.0`.
    pub fn as_str(&self) -> (number: &'static str)
        ensures
            number@ == self.number(),
    {
        match self {
            HTTPVersion::V1_1 => "1.1",
            HTTPVersion::V2 => "2.0",
            HTTPVersion::V3 => "3.0",
        }
    }

    /// The version as one byte: 0, 1 and 2, in the order of the variants.
    pub fn code(&self) -> (code: u8)
        ensures
            code == match *self {
                HTTPVersion::V1_1 => 0u8,
                HTTPVersion::V2 => 1u8,
                HTTPVersion::V3 => 2u8,
            },
    {
        match self {
            HTTPVersion::V1_1 => 0,
            HTTPVersion::V2 => 1,
            HTTPVersion::V3 => 2,
        }
    }
}

/// The three literals name three versions: each is read back as itself.
pub proof fn lemma_literal_names_version(version: HTTPVersion)
    ensures
        HTTPVersion::of_literal(version.literal()) == Some(version),
{
    reveal_strlit("HTTP/1.1");
    reveal_strlit("HTTP/2");
    reveal_strlit("HTTP/3");
    assert("HTTP/1.1"@.len() == 8);
    assert("HTTP/2"@[5] == '2');
}

/// Why a request head could not be read.
#[derive(Debug, PartialEq, Eq)]
pub enum RequestError {
    /// A line between the request line and the blank line is no header; the
    /// line is kept as it was read.
    RequestHeaderBadlyFormated(String),
    /// The first line is no request line.
    RequestTargetBadlyFormated,
    /// The stream ended before its first line.
    NoTargetLine,
}

/// A `RequestError` as contracts speak of it.
pub enum HeadError {
    HeaderBadlyFormated(Seq<char>),
    TargetBadlyFormated,
    NoTargetLine,
}

impl View for RequestError {
    type V = HeadError;

    open spec fn view(&self) -> HeadError {
        match self {
            RequestError::RequestHeaderBadlyFormated(line) => HeadError::HeaderBadlyFormated(
                line@,
            ),
            RequestError::RequestTargetBadlyFormated => HeadError::TargetBadlyFormated,
            RequestError::NoTargetLine => HeadError::NoTargetLine,
        }
    }
}

/// A request head as contracts speak of it.
pub struct RequestView {
    pub method: Seq<char>,
    pub url: Seq<char>,
    pub version: HTTPVersion,
    pub headers: Map<Seq<char>, Seq<char>>,
}

/// The head of a request: its method, its target, its version and its
/// headers, each header under the lower-case form of its name.
#[derive(Debug)]
pub struct Request {
    method: String,
    url: String,
    version: HTTPVersion,
    headers: HeaderMap,
}

impl View for Request {
    type V = RequestView;

    closed spec fn view(&self) -> RequestView {
        RequestView {
            method: self.method@,
            url: self.url@,
            version: self.version,
            headers: self.headers@,
        }
    }
}

/// The headers that `lines` set on top of `headers`, up to the first empty
/// line or the end of the lines: each line is read as a header and stored
/// under the lower-case form of its name, a later value replacing an earlier
/// one. The first line that is no header is the error, and ends the reading.
pub open spec fn read_headers(lines: Seq<Seq<char>>, headers: Map<Seq<char>, Seq<char>>) -> Result<
    Map<Seq<char>, Seq<char>>,
    HeadError,
>
    decreases lines.len(),
{
    if lines.len() == 0 || lines[0].len() == 0 {
        Ok(headers)
    } else {
        match header_line(lines[0]) {
            Some(h) => read_headers(lines.drop_first(), headers.insert(lowercase(h.name), h.value)),
            None => Err(HeadError::HeaderBadlyFormated(lines[0])),
        }
    }
}

/// The request head that `lines` hold: the first line is the request line,
/// the lines behind it are headers up to the first empty line.
pub open spec fn read_head(lines: Seq<Seq<char>>) -> Result<RequestView, HeadError> {
    if lines.len() == 0 {
        Err(HeadError::NoTargetLine)
    } else {
        match request_line(lines[0]) {
            None => Err(HeadError::TargetBadlyFormated),
            Some(first) => match read_headers(lines.drop_first(), Map::empty()) {
                Ok(headers) => Ok(
                    RequestView {
                        method: first.method,
                        url: first.target,
                        version: first.version,
                        headers,
                    },
                ),
                Err(error) => Err(error),
            },
        }
    }
}

/// The characters of each line.
pub open spec fn texts(lines: Seq<String>) -> Seq<Seq<char>> {
    Seq::new(lines.len(), |i: int| lines[i]@)
}

/// The result of parsing as contracts speak of it.
pub open spec fn result_view(result: Result<Request, RequestError>) -> Result<
    RequestView,
    HeadError,
> {
    match result {
        Ok(request) => Ok(request@),
        Err(error) => Err(error@),
    }
}

impl Request {
    /// The invariant of the type: that of its headers.
    pub closed spec fn wf(&self) -> bool {
        self.headers.wf()
    }

    /// Parses a request head from the lines of a connection, in order. Lines
    /// behind the first empty line, or behind the line that fails, are not
    /// looked at.
    pub fn parse(lines: &Vec<String>) -> (result: Result<Request, RequestError>)
        ensures
            result_view(result) == read_head(texts(lines@)),
            result matches Ok(request) ==> request.wf(),
    {
        let mut parser = HeadParser::new();
        let mut i: usize = 0;
        assert(texts(lines@).skip(0) =~= texts(lines@));
        while i < lines.len() && parser.wants_line()
            invariant
                i <= lines.len(),
                parser.wf(),
                feed_all(parser@, texts(lines@).skip(i as int)) == feed_all(
                    Progress::AwaitingRequestLine,
                    texts(lines@),
                ),
            decreases lines.len() - i,
        {
            proof {
                let rest = texts(lines@).skip(i as int);
                assert(rest.drop_first() =~= texts(lines@).skip(i + 1));
            }
            parser.feed(lines[i].as_str());
            i += 1;
        }
        proof {
            lemma_settled_stays(parser@, texts(lines@).skip(i as int));
            lemma_feeding_is_reading(texts(lines@));
        }
        parser.finish()
    }

    /// Parses a request head from the bytes of a stream that are all at
    /// hand: the head that the lines of the bytes hold, each line decoded with
    /// every ill-formed sequence replaced. Bytes behind the head are not
    /// looked at.
    pub fn from_bytes(bytes: &[u8]) -> (result: Result<Request, RequestError>)
        ensures
            result_view(result) == read_head(text_lines(lines_of(bytes@))),
            result matches Ok(request) ==> request.wf(),
    {
        let mut parser = HeadParser::new();
        let mut offset: usize = 0;
        let ghost start = Progress::AwaitingRequestLine;
        assert(bytes@.skip(0) =~= bytes@);
        while offset < bytes.len() && parser.wants_line()
            invariant
                offset <= bytes@.len(),
                parser.wf(),
                feed_all(parser@, text_lines(lines_of(bytes@.skip(offset as int)))) == feed_all(
                    start,
                    text_lines(lines_of(bytes@)),
                ),
            decreases bytes@.len() - offset,
        {
            let ghost rest = bytes@.skip(offset as int);
            let at: usize = scan_lf(bytes, offset);
            let ended: bool = at < bytes.len();
            let end: usize = if ended && at > offset && bytes[at - 1] == CR {
                at - 1
            } else {
                at
            };
            let line: String = decode_lossy(vstd::slice::slice_subrange(bytes, offset, end));
            proof {
                lemma_find_lf(bytes@, offset as int);
                lemma_find_lf_skipped(bytes@, offset as int);
                let cut = at - offset;
                let raw = bytes@.subrange(offset as int, end as int);
                let lines = lines_of(rest);
                if ended {
                    assert(raw =~= trim_cr(rest.take(cut)));
                    assert(rest.skip(cut + 1) =~= bytes@.skip(at + 1));
                }
                let behind = if ended {
                    lines_of(bytes@.skip(at + 1))
                } else {
                    lines_of(bytes@.skip(at as int))
                };
                assert(text_lines(lines).drop_first() =~= text_lines(behind));
            }
            parser.feed(line.as_str());
            offset = if ended {
                at + 1
            } else {
                at
            };
        }
        proof {
            let rest = text_lines(lines_of(bytes@.skip(offset as int)));
            lemma_settled_stays(parser@, rest);
            lemma_feeding_is_reading(text_lines(lines_of(bytes@)));
        }
        parser.finish()
    }

    /// The method, as the request line gave it.
    pub fn method(&self) -> (method: &String)
        ensures
            method@ == self@.method,
    {
        &self.method
    }

    /// The target, as the request line gave it.
    pub fn url(&self) -> (url: &String)
        ensures
            url@ == self@.url,
    {
        &self.url
    }

    /// The version that the request line named.
    pub fn version(&self) -> (version: &HTTPVersion)
        ensures
            *version == self@.version,
    {
        &self.version
    }

    /// The headers, each under the lower-case form of its name.
    pub fn headers(&self) -> (headers: &HeaderMap)
        requires
            self.wf(),
        ensures
            headers.wf(),
            headers@ == self@.headers,
    {
        &self.headers
    }
}

/// How far the reading of a request head has come.
pub enum Progress {
    /// Nothing has been read; the next line is the request line.
    AwaitingRequestLine,
    /// The request line has been read; the next line is a header or the
    /// empty line. The request holds the headers read so far.
    InHeaders(RequestView),
    /// The head has been read to its end.
    Complete(RequestView),
    /// A line could not be read: the error, and the headers read before it.
    Failed { error: HeadError, headers: Map<Seq<char>, Seq<char>> },
}

impl Progress {
    /// Whether the reading has ended, well or not. No line changes it then.
    pub open spec fn settled(self) -> bool {
        self is Complete || self is Failed
    }

    /// The headers read so far.
    pub open spec fn headers(self) -> Map<Seq<char>, Seq<char>> {
        match self {
            Progress::AwaitingRequestLine => Map::empty(),
            Progress::InHeaders(request) => request.headers,
            Progress::Complete(request) => request.headers,
            Progress::Failed { error, headers } => headers,
        }
    }

    /// What the reading has come to, once it has ended.
    pub open spec fn outcome(self) -> Option<Result<RequestView, HeadError>> {
        match self {
            Progress::Complete(request) => Some(Ok(request)),
            Progress::Failed { error, headers } => Some(Err(error)),
            _ => None,
        }
    }
}

/// The progress after one more line.
pub open spec fn feed(progress: Progress, line: Seq<char>) -> Progress {
    match progress {
        Progress::AwaitingRequestLine => match request_line(line) {
            Some(first) => Progress::InHeaders(
                RequestView {
                    method: first.method,
                    url: first.target,
                    version: first.version,
                    headers: Map::empty(),
                },
            ),
            None => Progress::Failed {
                error: HeadError::TargetBadlyFormated,
                headers: Map::empty(),
            },
        },
        Progress::InHeaders(request) => if line.len() == 0 {
            Progress::Complete(request)
        } else {
            match header_line(line) {
                Some(h) => Progress::InHeaders(
                    RequestView {
                        headers: request.headers.insert(lowercase(h.name), h.value),
                        ..request
                    },
                ),
                None => Progress::Failed {
                    error: HeadError::HeaderBadlyFormated(line),
                    headers: request.headers,
                },
            }
        },
        _ => progress,
    }
}

/// The progress once the stream has ended: without a request line there is
/// no request, and a head that no empty line closed is closed by the end.
pub open spec fn close(progress: Progress) -> Progress {
    match progress {
        Progress::AwaitingRequestLine => Progress::Failed {
            error: HeadError::NoTargetLine,
            headers: Map::empty(),
        },
        Progress::InHeaders(request) => Progress::Complete(request),
        _ => progress,
    }
}

/// The progress after `lines`, fed in order.
pub open spec fn feed_all(progress: Progress, lines: Seq<Seq<char>>) -> Progress
    decreases lines.len(),
{
    if lines.len() == 0 {
        progress
    } else {
        feed_all(feed(progress, lines[0]), lines.drop_first())
    }
}

/// Once the reading has ended, further lines change nothing: what stands
/// behind the blank line, or behind the line that failed, is never parsed.
pub proof fn lemma_settled_stays(progress: Progress, lines: Seq<Seq<char>>)
    requires
        progress.settled() || lines.len() == 0,
    ensures
        feed_all(progress, lines) == progress,
    decreases lines.len(),
{
    if lines.len() > 0 {
        lemma_settled_stays(progress, lines.drop_first());
    }
}

/// Feeding header lines one by one and then ending the stream comes to what
/// `read_headers` says of the lines as a whole.
pub proof fn lemma_feeding_is_reading_headers(request: RequestView, lines: Seq<Seq<char>>)
    ensures
        close(feed_all(Progress::InHeaders(request), lines)).outcome() == Some(
            match read_headers(lines, request.headers) {
                Ok(headers) => Ok(RequestView { headers, ..request }),
                Err(error) => Err(error),
            },
        ),
    decreases lines.len(),
{
    if lines.len() > 0 {
        let next = feed(Progress::InHeaders(request), lines[0]);
        if next is InHeaders {
            lemma_feeding_is_reading_headers(next->InHeaders_0, lines.drop_first());
        } else {
            lemma_settled_stays(next, lines.drop_first());
        }
    }
}

/// Feeding lines one by one and then ending the stream comes to what
/// `read_head` says of the lines as a whole.
pub proof fn lemma_feeding_is_reading(lines: Seq<Seq<char>>)
    ensures
        close(feed_all(Progress::AwaitingRequestLine, lines)).outcome() == Some(read_head(lines)),
{
    if lines.len() > 0 {
        let next = feed(Progress::AwaitingRequestLine, lines[0]);
        if next is InHeaders {
            lemma_feeding_is_reading_headers(next->InHeaders_0, lines.drop_first());
        } else {
            lemma_settled_stays(next, lines.drop_first());
        }
    }
}

/// Whether line `i` of `lines` is a header line that sets `key` to `value`.
pub open spec fn sets_header(lines: Seq<Seq<char>>, i: int, key: Seq<char>, value: Seq<char>) -> bool {
    &&& 0 <= i < lines.len()
    &&& header_line(lines[i]) matches Some(h)
    &&& lowercase(h.name) == key
    &&& h.value == value
}

/// Every header that `read_headers` hands out was there before or was set
/// by one of the lines, under the lower-case form of the name in that line
/// and with the value of that line.
pub proof fn lemma_headers_come_from_lines(
    lines: Seq<Seq<char>>,
    headers: Map<Seq<char>, Seq<char>>,
    key: Seq<char>,
)
    requires
        read_headers(lines, headers) is Ok,
        read_headers(lines, headers)->Ok_0.contains_key(key),
    ensures
        ({
            let read = read_headers(lines, headers)->Ok_0;
            (headers.contains_key(key) && read[key] == headers[key]) || exists|i: int|
                sets_header(lines, i, key, read[key])
        }),
    decreases lines.len(),
{
    if lines.len() > 0 && lines[0].len() > 0 {
        let h = header_line(lines[0])->0;
        let rest = lines.drop_first();
        let next = headers.insert(lowercase(h.name), h.value);
        let read = read_headers(lines, headers)->Ok_0;
        lemma_headers_come_from_lines(rest, next, key);
        if next.contains_key(key) && read[key] == next[key] {
            if key == lowercase(h.name) {
                assert(sets_header(lines, 0, key, read[key]));
            }
        } else {
            let j = choose|j: int| sets_header(rest, j, key, read[key]);
            assert(sets_header(lines, j + 1, key, read[key]));
        }
    }
}

/// What a request is made of. Its method is one or more upper-case
/// letters, its target one or more characters other than a space, and each
/// of its headers stands under the lower-case form of a name that a header
/// line gave, with the value of that line.
pub proof fn lemma_request_shape(lines: Seq<Seq<char>>)
    requires
        read_head(lines) is Ok,
    ensures
        ({
            let request = read_head(lines)->Ok_0;
            &&& request.method.len() > 0
            &&& all_of(request.method, CharClass::Upper)
            &&& request.url.len() > 0
            &&& all_of(request.url, CharClass::NonSpace)
            &&& forall|key: Seq<char>| #[trigger]
                request.headers.contains_key(key) ==> exists|i: int|
                    1 <= i && sets_header(lines, i, key, request.headers[key])
        }),
{
    let request = read_head(lines)->Ok_0;
    lemma_request_line_shape(lines[0]);
    assert forall|key: Seq<char>| #[trigger] request.headers.contains_key(key) implies exists|
        i: int,
    | 1 <= i && sets_header(lines, i, key, request.headers[key]) by {
        let rest = lines.drop_first();
        lemma_headers_come_from_lines(rest, Map::empty(), key);
        let j = choose|j: int| sets_header(rest, j, key, request.headers[key]);
        assert(sets_header(lines, j + 1, key, request.headers[key]));
    }
}

/// Lines add up: feeding `lines` and then `more` is feeding both in a row.
pub proof fn lemma_feed_all_concat(progress: Progress, lines: Seq<Seq<char>>, more: Seq<Seq<char>>)
    ensures
        feed_all(progress, lines + more) == feed_all(feed_all(progress, lines), more),
    decreases lines.len(),
{
    if lines.len() > 0 {
        assert((lines + more).drop_first() =~= lines.drop_first() + more);
        lemma_feed_all_concat(feed(progress, lines[0]), lines.drop_first(), more);
    }
}

/// Once a line has been fed, the reading is past the request line.
pub proof fn lemma_fed_is_past_start(progress: Progress, lines: Seq<Seq<char>>)
    requires
        lines.len() > 0,
    ensures
        !(feed_all(progress, lines) is AwaitingRequestLine),
    decreases lines.len(),
{
    if lines.len() > 1 {
        lemma_fed_is_past_start(feed(progress, lines[0]), lines.drop_first());
    } else {
        lemma_settled_stays(feed(progress, lines[0]), lines.drop_first());
    }
}

/// The body is left alone: whatever stands behind the empty line that ends
/// the head has no part in what the head is read as.
pub proof fn lemma_blank_line_ends_head(head: Seq<Seq<char>>, rest: Seq<Seq<char>>)
    ensures
        read_head(head.push(Seq::empty()) + rest) == read_head(head.push(Seq::empty())),
{
    let start = Progress::AwaitingRequestLine;
    let closed = head.push(Seq::<char>::empty());
    lemma_feeding_is_reading(closed);
    lemma_feeding_is_reading(closed + rest);
    lemma_feed_all_concat(start, closed, rest);
    lemma_feed_all_concat(start, head, seq![Seq::<char>::empty()]);
    assert(closed =~= head + seq![Seq::<char>::empty()]);
    let before = feed_all(start, head);
    assert(feed_all(before, seq![Seq::<char>::empty()]) == feed(before, Seq::<char>::empty())) by {
        let one = seq![Seq::<char>::empty()];
        lemma_settled_stays(feed(before, one[0]), one.drop_first());
    }
    lemma_settled_stays(feed_all(start, closed), rest);
}

/// Parsing stops at the first line that fails: where lines are read as an
/// error, no line behind them changes that.
pub proof fn lemma_error_ends_head(lines: Seq<Seq<char>>, rest: Seq<Seq<char>>)
    requires
        lines.len() > 0,
        read_head(lines) is Err,
    ensures
        read_head(lines + rest) == read_head(lines),
{
    let start = Progress::AwaitingRequestLine;
    lemma_feeding_is_reading(lines);
    lemma_feeding_is_reading(lines + rest);
    lemma_feed_all_concat(start, lines, rest);
    lemma_fed_is_past_start(start, lines);
    lemma_settled_stays(feed_all(start, lines), rest);
}

/// The last value wins: of two header lines in a row whose names have the
/// same lower-case form, the first leaves no trace.
pub proof fn lemma_later_header_replaces(request: RequestView, first: Seq<char>, second: Seq<char>)
    requires
        header_line(first) is Some,
        header_line(second) is Some,
        first.len() > 0,
        second.len() > 0,
        lowercase(header_line(first)->0.name) == lowercase(header_line(second)->0.name),
    ensures
        feed(feed(Progress::InHeaders(request), first), second) == feed(
            Progress::InHeaders(request),
            second,
        ),
        feed(Progress::InHeaders(request), second).headers()[lowercase(
            header_line(second)->0.name,
        )] == header_line(second)->0.value,
{
    let key = lowercase(header_line(second)->0.name);
    let v1 = header_line(first)->0.value;
    let v2 = header_line(second)->0.value;
    assert(request.headers.insert(key, v1).insert(key, v2) =~= request.headers.insert(key, v2));
}

/// Where reading on in the buffered bytes of a socket leads: the parser
/// takes line after line until the head has ended, until the bytes hold no
/// further line, or until the stream has ended, which ends the head too.
pub open spec fn advanced(progress: Progress, state: ReadState) -> (Progress, ReadState)
    decreases state.window.len() + state.partial.len(),
{
    if progress.settled() {
        (progress, state)
    } else {
        match state.polled() {
            Polled::Line(raw) => {
                proof {
                    lemma_line_shortens(state);
                }
                advanced(feed(progress, lossy_text(raw)), state.after_poll())
            },
            Polled::NeedFill => (progress, state.after_poll()),
            Polled::End => (close(progress), state.after_poll()),
        }
    }
}

/// The stages of reading a head.
#[derive(Clone, Copy, Debug, PartialEq, Eq, Structural)]
pub enum Stage {
    RequestLine,
    Headers,
    Complete,
    Failed,
}

/// Reads a request head line by line, so that whoever owns the connection
/// reads no further than the head: it hands over a line whenever
/// [`HeadParser::wants_line`] says so, and stops when it does not.
#[derive(Debug)]
pub struct HeadParser {
    stage: Stage,
    request: Request,
    error: RequestError,
}

impl View for HeadParser {
    type V = Progress;

    closed spec fn view(&self) -> Progress {
        match self.stage {
            Stage::RequestLine => Progress::AwaitingRequestLine,
            Stage::Headers => Progress::InHeaders(self.request@),
            Stage::Complete => Progress::Complete(self.request@),
            Stage::Failed => Progress::Failed {
                error: self.error@,
                headers: self.request.headers@,
            },
        }
    }
}

impl HeadParser {
    /// The invariant of the type: that of the headers read so far, of which
    /// there are none before the request line.
    pub closed spec fn wf(&self) -> bool {
        &&& self.request.wf()
        &&& self.stage == Stage::RequestLine ==> self.request.headers@ == Map::<
            Seq<char>,
            Seq<char>,
        >::empty()
    }

    /// A parser that has read nothing.
    pub fn new() -> (parser: Self)
        ensures
            parser.wf(),
            parser@ == Progress::AwaitingRequestLine,
    {
        HeadParser {
            stage: Stage::RequestLine,
            request: Request {
                method: String::new(),
                url: String::new(),
                version: HTTPVersion::V1_1,
                headers: HeaderMap::new(),
            },
            error: RequestError::NoTargetLine,
        }
    }

    /// Whether the head is still open, so that one more line is to be fed.
    pub fn wants_line(&self) -> (open: bool)
        ensures
            open == !self@.settled(),
    {
        match self.stage {
            Stage::RequestLine => true,
            Stage::Headers => true,
            Stage::Complete => false,
            Stage::Failed => false,
        }
    }

    /// Takes the next line of the connection, without its line ending.
    pub fn feed(&mut self, line: &str)
        requires
            old(self).wf(),
        ensures
            final(self).wf(),
            final(self)@ == feed(old(self)@, line@),
    {
        match self.stage {
            Stage::RequestLine => match parse_request_line(line) {
                Some((method, url, version)) => {
                    self.request.method = method;
                    self.request.url = url;
                    self.request.version = version;
                    self.stage = Stage::Headers;
                },
                None => {
                    self.error = RequestError::RequestTargetBadlyFormated;
                    self.stage = Stage::Failed;
                },
            },
            Stage::Headers => {
                if line.is_empty() {
                    self.stage = Stage::Complete;
                } else {
                    match parse_header(line) {
                        Some((name, value)) => {
                            let key: String = name.as_str().to_lowercase();
                            self.request.headers.insert(key, value);
                        },
                        None => {
                            self.error = RequestError::RequestHeaderBadlyFormated(line.to_owned());
                            self.stage = Stage::Failed;
                        },
                    }
                }
            },
            Stage::Complete => {},
            Stage::Failed => {},
        }
    }

    /// Takes the end of the stream.
    pub fn end_of_input(&mut self)
        requires
            old(self).wf(),
        ensures
            final(self).wf(),
            final(self)@ == close(old(self)@),
    {
        match self.stage {
            Stage::RequestLine => {
                self.error = RequestError::NoTargetLine;
                self.stage = Stage::Failed;
            },
            Stage::Headers => {
                self.stage = Stage::Complete;
            },
            Stage::Complete => {},
            Stage::Failed => {},
        }
    }

    /// Reads on in what the socket has buffered: line after line goes from
    /// the socket to the parser until the head has ended, the buffered bytes
    /// hold no further line, or the stream has ended. Nothing behind the head
    /// is taken out of the socket. The result says whether the head is still
    /// open, so that the stream is to be read and the socket filled.
    pub fn advance(&mut self, socket: &mut Socket) -> (open: bool)
        requires
            old(self).wf(),
            old(socket).wf(),
        ensures
            final(self).wf(),
            final(socket).wf(),
            final(socket).spec_read_buf().capacity() == old(socket).spec_read_buf().capacity(),
            final(socket).spec_is_closed() == old(socket).spec_is_closed(),
            final(socket).remote_addr() == old(socket).remote_addr(),
            final(socket).local_addr() == old(socket).local_addr(),
            (final(self)@, final(socket)@) == advanced(old(self)@, old(socket)@),
            open == !final(self)@.settled(),
    {
        loop
            invariant
                self.wf(),
                socket.wf(),
                socket.spec_read_buf().capacity() == old(socket).spec_read_buf().capacity(),
                socket.spec_is_closed() == old(socket).spec_is_closed(),
                socket.remote_addr() == old(socket).remote_addr(),
                socket.local_addr() == old(socket).local_addr(),
                advanced(self@, socket@) == advanced(old(self)@, old(socket)@),
            ensures
                self.wf(),
                socket.wf(),
                socket.spec_read_buf().capacity() == old(socket).spec_read_buf().capacity(),
                socket.spec_is_closed() == old(socket).spec_is_closed(),
                socket.remote_addr() == old(socket).remote_addr(),
                socket.local_addr() == old(socket).local_addr(),
                (self@, socket@) == advanced(old(self)@, old(socket)@),
            decreases socket@.window.len() + socket@.partial.len(),
        {
            if !self.wants_line() {
                break;
            }
            proof {
                if socket@.polled() is Line {
                    lemma_line_shortens(socket@);
                }
            }
            match socket.poll_line() {
                LinePoll::Line(line) => {
                    self.feed(line.as_str());
                },
                LinePoll::NeedFill => {
                    break;
                },
                LinePoll::End => {
                    self.end_of_input();
                    break;
                },
            }
        }
        self.wants_line()
    }

    /// The headers read so far. After a failure they are those that stood
    /// before the line that failed.
    pub fn headers(&self) -> (headers: &HeaderMap)
        requires
            self.wf(),
        ensures
            headers.wf(),
            headers@ == self@.headers(),
    {
        &self.request.headers
    }

    /// Ends the reading and hands out the request, or the error. A head that
    /// is still open is closed as by the end of the stream.
    pub fn finish(self) -> (result: Result<Request, RequestError>)
        requires
            self.wf(),
        ensures
            Some(result_view(result)) == close(self@).outcome(),
            result matches Ok(request) ==> request.wf(),
    {
        match self.stage {
            Stage::RequestLine => Err(RequestError::NoTargetLine),
            Stage::Headers => Ok(self.request),
            Stage::Complete => Ok(self.request),
            Stage::Failed => Err(self.error),
        }
    }
}

} // verus!
