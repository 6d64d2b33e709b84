use http_engine::server::buffer::{ReadBuffer, DEFAULT_CAPACITY};
use http_engine::server::request::{HTTPVersion, HeadParser, Request, RequestError};
use http_engine::server::socket::{IpAddress, LinePoll, Socket, SocketAddress};

fn peer() -> SocketAddress {
    SocketAddress::new(IpAddress::V4([192, 168, 0, 7]), 50123)
}

fn here() -> SocketAddress {
    SocketAddress::new(IpAddress::V4([127, 0, 0, 1]), 8080)
}

fn in_order(buffer: &ReadBuffer) -> bool {
    buffer.capacity() >= 1
        && buffer.pos() <= buffer.filled()
        && buffer.filled() <= buffer.initialized()
        && buffer.initialized() <= buffer.capacity()
}

fn read_all_lines(socket: &mut Socket, chunks: &[&[u8]]) -> Vec<String> {
    let mut lines = Vec::new();
    let mut next = 0;
    let mut offset = 0;
    loop {
        match socket.poll_line() {
            LinePoll::Line(line) => lines.push(line),
            LinePoll::End => return lines,
            LinePoll::NeedFill => {
                if next == chunks.len() {
                    socket.fill(&[]);
                } else {
                    let taken = socket.fill(&chunks[next][offset..]);
                    offset += taken;
                    if offset == chunks[next].len() {
                        next += 1;
                        offset = 0;
                    }
                }
            }
        }
        assert!(in_order(socket.read_buf()));
    }
}

#[test]
fn buffer_starts_empty_with_the_default_capacity() {
    let buffer = ReadBuffer::new();
    assert_eq!(DEFAULT_CAPACITY, 8192);
    assert_eq!(buffer.capacity(), 8192);
    assert_eq!(buffer.initialized(), 0);
    assert_eq!(buffer.filled(), 0);
    assert_eq!(buffer.pos(), 0);
    assert_eq!(buffer.peek(), &[] as &[u8]);
    assert_eq!(buffer.room(), 8192);
}

#[test]
fn buffer_counters_stay_in_order_through_fills_and_consumes() {
    let mut buffer = ReadBuffer::with_capacity(4);
    assert!(in_order(&buffer));
    assert_eq!(buffer.fill(b"abcdef"), 4);
    assert!(in_order(&buffer));
    assert_eq!((buffer.pos(), buffer.filled(), buffer.initialized()), (0, 4, 4));
    assert_eq!(buffer.peek(), b"abcd");
    buffer.consume(1);
    assert!(in_order(&buffer));
    assert_eq!(buffer.peek(), b"bcd");
    assert_eq!(buffer.room(), 0);
    assert_eq!(buffer.fill(b"xy"), 0);
    assert_eq!(buffer.peek(), b"bcd");
    buffer.consume(100);
    assert!(in_order(&buffer));
    assert_eq!((buffer.pos(), buffer.filled(), buffer.initialized()), (4, 4, 4));
    assert_eq!(buffer.room(), 4);
    assert_eq!(buffer.fill(b"xy"), 2);
    assert!(in_order(&buffer));
    assert_eq!((buffer.pos(), buffer.filled(), buffer.initialized()), (0, 2, 4));
    assert_eq!(buffer.peek(), b"xy");
    buffer.consume(2);
    assert_eq!(buffer.fill(b""), 0);
    assert!(in_order(&buffer));
    assert_eq!((buffer.pos(), buffer.filled(), buffer.initialized()), (0, 0, 4));
    assert_eq!(buffer.peek(), b"");
}

#[test]
fn buffer_of_one_byte_keeps_its_invariant() {
    let mut buffer = ReadBuffer::with_capacity(1);
    for byte in b"hello" {
        assert_eq!(buffer.fill(&[*byte]), 1);
        assert!(in_order(&buffer));
        assert_eq!(buffer.peek(), &[*byte]);
        buffer.consume(1);
        assert!(in_order(&buffer));
        assert_eq!(buffer.peek(), b"");
    }
    assert_eq!(buffer.initialized(), 1);
}

#[test]
fn consume_of_nothing_changes_nothing() {
    let mut buffer = ReadBuffer::with_capacity(8);
    buffer.fill(b"abc");
    buffer.consume(0);
    assert_eq!(buffer.peek(), b"abc");
    assert_eq!(buffer.pos(), 0);
}

#[test]
fn socket_keeps_its_addresses() {
    let socket = Socket::new(peer(), here());
    assert_eq!(socket.remote_addr(), peer());
    assert_eq!(socket.local_addr(), here());
    assert_eq!(socket.remote_addr().port, 50123);
    assert_eq!(socket.remote_addr().ip, IpAddress::V4([192, 168, 0, 7]));
    assert_eq!(socket.read_buf().capacity(), 8192);
    assert!(!socket.is_closed());
}

#[test]
fn address_family_is_named() {
    assert_eq!(peer().family(), "IPv4");
    let v6 = SocketAddress::new(IpAddress::V6([0, 0, 0, 0, 0, 0, 0, 1]), 443);
    assert_eq!(v6.family(), "IPv6");
    assert_eq!(v6.port, 443);
}

#[test]
fn lines_end_at_line_feed_with_or_without_carriage_return() {
    let mut socket = Socket::new(peer(), here());
    let lines = read_all_lines(&mut socket, &[b"one\r\ntwo\n\nthree\r\n"]);
    assert_eq!(lines, vec!["one", "two", "", "three"]);
}

#[test]
fn last_line_without_line_feed_is_handed_out_at_the_end() {
    let mut socket = Socket::new(peer(), here());
    let lines = read_all_lines(&mut socket, &[b"one\ntail\r"]);
    assert_eq!(lines, vec!["one", "tail\r"]);
    assert_eq!(socket.poll_line(), LinePoll::End);
}

#[test]
fn only_one_carriage_return_is_stripped() {
    let mut socket = Socket::new(peer(), here());
    let lines = read_all_lines(&mut socket, &[b"a\r\r\n\r\n"]);
    assert_eq!(lines, vec!["a\r", ""]);
}

#[test]
fn stream_that_ends_at_once_has_no_line() {
    let mut socket = Socket::new(peer(), here());
    assert_eq!(socket.poll_line(), LinePoll::NeedFill);
    assert_eq!(socket.room(), 8192);
    assert_eq!(socket.fill(&[]), 0);
    assert_eq!(socket.room(), 0);
    assert_eq!(socket.poll_line(), LinePoll::End);
    assert_eq!(socket.fill(b"late\n"), 0);
    assert_eq!(socket.poll_line(), LinePoll::End);
}

#[test]
fn lines_do_not_depend_on_how_the_stream_is_cut() {
    let text: &[u8] = b"GET / HTTP/1.1\r\nHost: a\r\n\r\nbody";
    let whole = read_all_lines(&mut Socket::new(peer(), here()), &[text]);
    assert_eq!(whole, vec!["GET / HTTP/1.1", "Host: a", "", "body"]);
    for capacity in 1..12 {
        for cut in 1..text.len() {
            let mut socket = Socket::with_capacity(capacity, peer(), here());
            let lines = read_all_lines(&mut socket, &[&text[..cut], &text[cut..]]);
            assert_eq!(lines, whole);
        }
    }
}

#[test]
fn carriage_return_and_line_feed_may_come_in_different_reads() {
    let mut socket = Socket::with_capacity(16, peer(), here());
    let lines = read_all_lines(&mut socket, &[b"abc\r", b"\ndef", b"\n"]);
    assert_eq!(lines, vec!["abc", "def"]);
}

#[test]
fn ill_formed_bytes_are_replaced() {
    let mut socket = Socket::new(peer(), here());
    let lines = read_all_lines(&mut socket, &[b"a\xffb\n\xc3\xa9\n\xc3\n"]);
    assert_eq!(lines, vec!["a\u{fffd}b", "\u{e9}", "\u{fffd}"]);
}

#[test]
fn fill_takes_nothing_while_bytes_are_buffered() {
    let mut socket = Socket::with_capacity(8, peer(), here());
    assert_eq!(socket.fill(b"ab\ncd"), 5);
    assert_eq!(socket.room(), 0);
    assert_eq!(socket.fill(b"zz"), 0);
    assert_eq!(socket.fill(&[]), 0);
    assert_eq!(socket.poll_line(), LinePoll::Line("ab".to_string()));
    assert_eq!(socket.read_buf().peek(), b"cd");
    assert_eq!(socket.poll_line(), LinePoll::NeedFill);
    assert_eq!(socket.room(), 8);
}

#[test]
fn read_hands_out_what_follows_the_head() {
    let mut socket = Socket::with_capacity(64, peer(), here());
    socket.fill(b"GET / HTTP/1.1\r\n\r\nhello world");
    let mut parser = HeadParser::new();
    assert!(!parser.advance(&mut socket));
    let request = parser.finish().unwrap();
    assert_eq!(request.method(), "GET");
    assert_eq!(socket.read_buf().peek(), b"hello world");
    assert_eq!(socket.read(5), b"hello");
    assert_eq!(socket.read(0), b"");
    assert_eq!(socket.read(100), b" world");
    assert_eq!(socket.read(100), b"");
    assert_eq!(socket.room(), 64);
}

#[test]
fn read_begins_with_the_line_that_was_begun() {
    let mut socket = Socket::with_capacity(8, peer(), here());
    socket.fill(b"abc");
    assert_eq!(socket.poll_line(), LinePoll::NeedFill);
    socket.fill(b"defg");
    assert_eq!(socket.read(2), b"ab");
    assert_eq!(socket.read(10), b"c");
    assert_eq!(socket.read(10), b"defg");
}

#[test]
fn advance_reads_a_head_across_fills() {
    let mut socket = Socket::with_capacity(8, peer(), here());
    let mut parser = HeadParser::new();
    let text: &[u8] = b"POST /p HTTP/1.1\r\nContent-Length: 3\r\n\r\nabc";
    let mut offset = 0;
    while parser.advance(&mut socket) {
        let room = socket.room();
        assert_eq!(room, 8);
        let end = (offset + room).min(text.len());
        offset += socket.fill(&text[offset..end]);
    }
    let request = parser.finish().unwrap();
    assert_eq!(request.method(), "POST");
    assert_eq!(request.url(), "/p");
    assert_eq!(*request.version(), HTTPVersion::V1_1);
    assert_eq!(request.headers().get("content-length"), Some(&"3".to_string()));
    let mut body = socket.read(100);
    body.extend_from_slice(&text[offset..]);
    assert_eq!(body, b"abc");
}

#[test]
fn advance_ends_the_head_with_the_stream() {
    let mut socket = Socket::new(peer(), here());
    let mut parser = HeadParser::new();
    assert!(parser.advance(&mut socket));
    socket.fill(&[]);
    assert!(!parser.advance(&mut socket));
    assert_eq!(parser.finish().unwrap_err(), RequestError::NoTargetLine);
}

#[test]
fn advance_stops_at_the_line_that_fails() {
    let mut socket = Socket::new(peer(), here());
    let mut parser = HeadParser::new();
    socket.fill(b"GET / HTTP/1.1\nA: 1\nNoColonHere\nB: 2\n\n");
    assert!(!parser.advance(&mut socket));
    assert_eq!(parser.headers().len(), 1);
    assert_eq!(socket.read_buf().peek(), b"B: 2\n\n");
    assert_eq!(
        parser.finish().unwrap_err(),
        RequestError::RequestHeaderBadlyFormated("NoColonHere".to_string())
    );
}

#[test]
fn socket_is_shut_down_once() {
    let mut socket = Socket::new(peer(), here());
    assert!(!socket.is_closed());
    assert!(socket.close());
    assert!(socket.is_closed());
    assert!(!socket.close());
    assert!(socket.is_closed());
}

#[test]
fn lines_hands_out_what_the_buffered_bytes_hold() {
    let mut socket = Socket::with_capacity(32, peer(), here());
    assert_eq!(socket.lines(), Vec::<String>::new());
    socket.fill(b"one\r\ntwo\nthr");
    assert_eq!(socket.lines(), vec!["one", "two"]);
    assert_eq!(socket.read_buf().peek(), b"");
    assert_eq!(socket.lines(), Vec::<String>::new());
    socket.fill(b"ee\nfour");
    assert_eq!(socket.lines(), vec!["three"]);
    socket.fill(&[]);
    assert_eq!(socket.lines(), vec!["four"]);
    assert_eq!(socket.lines(), Vec::<String>::new());
    assert_eq!(socket.poll_line(), LinePoll::End);
}

#[test]
fn head_from_a_stream_is_the_head_of_its_bytes() {
    let texts: [&[u8]; 5] = [
        b"GET /index.html HTTP/1.1\r\nHost: a\r\nAccept: */*\r\n\r\nbody",
        b"GET / HTTP/1.1\nA: 1\nNoColonHere\nB: 2\n\n",
        b"BAD\r\n",
        b"",
        b"POST /p HTTP/2\r\nX: \xff\xfe",
    ];
    for text in texts {
        let whole = Request::from_bytes(text);
        for capacity in [1, 2, 3, 7, 64] {
            let mut socket = Socket::with_capacity(capacity, peer(), here());
            let mut parser = HeadParser::new();
            let mut offset = 0;
            while parser.advance(&mut socket) {
                let end = (offset + socket.room()).min(text.len());
                offset += socket.fill(&text[offset..end]);
            }
            let streamed = parser.finish();
            match (&whole, &streamed) {
                (Ok(a), Ok(b)) => {
                    assert_eq!(a.method(), b.method());
                    assert_eq!(a.url(), b.url());
                    assert_eq!(a.version(), b.version());
                    assert_eq!(a.headers().entries(), b.headers().entries());
                }
                (Err(a), Err(b)) => assert_eq!(a, b),
                _ => panic!("{:?} is not {:?}", whole, streamed),
            }
        }
    }
}
