//! One accepted connection as the engine sees it: who is at each end, the
//! buffered bytes of the stream, and the lines that are read out of them.
//!
//! The stream itself is not here. Whoever owns it reads from it when the
//! socket has room, hands the bytes to [`Socket::fill`], and shuts the stream
//! down when [`Socket::close`] says so.

use vstd::prelude::*;
use vstd::utf8::{decode_utf8, valid_utf8};

use crate::server::buffer::ReadBuffer;

verus! {

/// The line feed that ends a line.
pub const LF: u8 = 10;

/// The carriage return that may stand before the line feed.
pub const CR: u8 = 13;

/// The text that `bytes` decode to when every ill-formed sequence is
/// replaced by U+FFFD: what `String::from_utf8_lossy` returns for them.
pub uninterp spec fn lossy_text(bytes: Seq<u8>) -> Seq<char>;

/// `String::from_utf8_lossy` of std: the result depends on the bytes alone,
/// and bytes that are well-formed UTF-8 decode to the characters that they
/// encode.
#[verifier::external_body]
pub(crate) fn decode_lossy(bytes: &[u8]) -> (text: String)
    ensures
        text@ == lossy_text(bytes@),
        valid_utf8(bytes@) ==> text@ == decode_utf8(bytes@),
{
    String::from_utf8_lossy(bytes).into_owned()
}

/// An IP address, by its octets or its segments.
#[derive(Clone, Copy, Debug, PartialEq, Eq)]
pub enum IpAddress {
    V4([u8; 4]),
    V6([u16; 8]),
}

/// One end of a connection.
#[derive(Clone, Copy, Debug, PartialEq, Eq)]
pub struct SocketAddress {
    pub ip: IpAddress,
    pub port: u16,
}

impl SocketAddress {
    /// The address of `port` at `ip`.
    pub fn new(ip: IpAddress, port: u16) -> (address: Self)
        ensures
            address.ip == ip,
            address.port == port,
    {
        SocketAddress { ip, port }
    }

    /// The name of the address family as the host is told it.
    pub open spec fn spec_family(&self) -> Seq<char> {
        match self.ip {
            IpAddress::V4(_) => "IPv4"@,
            IpAddress::V6(_) => "IPv6"@,
        }
    }

    /// The name of the address family: `IPv4` or `IPv6`.
    pub fn family(&self) -> (family: &'static str)
        ensures
            family@ == self.spec_family(),
    {
        match self.ip {
            IpAddress::V4(_) => "IPv4",
            IpAddress::V6(_) => "IPv6",
        }
    }
}

/// The reading side of a socket as contracts speak of it.
pub struct ReadState {
    /// The bytes of a line that has begun and not yet ended.
    pub partial: Seq<u8>,
    /// The window of the buffer: read from the stream, not yet looked at.
    pub window: Seq<u8>,
    /// Whether the stream has ended.
    pub ended: bool,
}

/// What asking for a line comes to.
pub enum Polled {
    /// A line: its bytes, without the line ending.
    Line(Seq<u8>),
    /// No line yet: the window holds no line feed and the stream may go on.
    NeedFill,
    /// No line any more: the stream has ended and nothing is left of it.
    End,
}

/// Where the first line feed of `bytes` at or behind `from` stands, or the
/// length of `bytes` where there is none.
pub open spec fn find_lf(bytes: Seq<u8>, from: int) -> int
    decreases bytes.len() - from,
{
    if 0 <= from < bytes.len() && bytes[from] != LF {
        find_lf(bytes, from + 1)
    } else {
        from
    }
}

/// What `find_lf` is: from `from` up to it there is no line feed, and at it
/// there is one unless the bytes end there.
pub proof fn lemma_find_lf(bytes: Seq<u8>, from: int)
    requires
        0 <= from <= bytes.len(),
    ensures
        from <= find_lf(bytes, from) <= bytes.len(),
        forall|i: int| from <= i < find_lf(bytes, from) ==> bytes[i] != LF,
        find_lf(bytes, from) < bytes.len() ==> bytes[find_lf(bytes, from)] == LF,
    decreases bytes.len() - from,
{
    if from < bytes.len() && bytes[from] != LF {
        lemma_find_lf(bytes, from + 1);
    }
}

/// The first line feed is where one stands with none before it.
pub proof fn lemma_find_lf_is(bytes: Seq<u8>, from: int, at: int)
    requires
        0 <= from <= at <= bytes.len(),
        forall|i: int| from <= i < at ==> bytes[i] != LF,
        at < bytes.len() ==> bytes[at] == LF,
    ensures
        find_lf(bytes, from) == at,
    decreases at - from,
{
    if from < at {
        lemma_find_lf_is(bytes, from + 1, at);
    }
}

/// Where the first line feed stands does not depend on where the count
/// begins: it is as far behind `from` in the bytes as it is from the front
/// of the bytes behind `from`.
pub proof fn lemma_find_lf_skipped(bytes: Seq<u8>, from: int)
    requires
        0 <= from <= bytes.len(),
    ensures
        find_lf(bytes.skip(from), 0) == find_lf(bytes, from) - from,
{
    lemma_find_lf(bytes, from);
    lemma_find_lf_is(bytes.skip(from), 0, find_lf(bytes, from) - from);
}

/// A line without the carriage return that stood before its line feed.
pub open spec fn trim_cr(line: Seq<u8>) -> Seq<u8> {
    if line.len() > 0 && line.last() == CR {
        line.drop_last()
    } else {
        line
    }
}

impl ReadState {
    /// What asking for a line comes to in this state.
    ///
    /// A line feed in the window ends a line: the line is what had been
    /// gathered and the window up to the line feed, without a carriage return
    /// before it. Without a line feed the window is gathered too. If the
    /// stream has ended, what has been gathered is the last line, unless it is
    /// empty.
    pub open spec fn polled(self) -> Polled {
        let at = find_lf(self.window, 0);
        if at < self.window.len() {
            Polled::Line(trim_cr(self.partial + self.window.take(at)))
        } else if !self.ended {
            Polled::NeedFill
        } else if (self.partial + self.window).len() > 0 {
            Polled::Line(self.partial + self.window)
        } else {
            Polled::End
        }
    }

    /// The state after asking for a line.
    pub open spec fn after_poll(self) -> ReadState {
        let at = find_lf(self.window, 0);
        if at < self.window.len() {
            ReadState { partial: Seq::empty(), window: self.window.skip(at + 1), ..self }
        } else if !self.ended {
            ReadState { partial: self.partial + self.window, window: Seq::empty(), ..self }
        } else {
            ReadState { partial: Seq::empty(), window: Seq::empty(), ..self }
        }
    }

    /// How many bytes of `incoming` a refill takes in this state, with a
    /// buffer that can hold `capacity`: none while the window holds bytes or
    /// after the stream has ended, else as many as the buffer can hold.
    pub open spec fn takes(self, incoming: Seq<u8>, capacity: int) -> int {
        if self.ended || self.window.len() > 0 {
            0
        } else if incoming.len() <= capacity {
            incoming.len() as int
        } else {
            capacity
        }
    }

    /// The state after one read of the stream gave `incoming`. A read that
    /// gives nothing, asked for while the window is empty, is the end of the
    /// stream.
    pub open spec fn after_fill(self, incoming: Seq<u8>, capacity: int) -> ReadState {
        if self.ended || self.window.len() > 0 {
            self
        } else if incoming.len() == 0 {
            ReadState { ended: true, ..self }
        } else {
            ReadState { window: incoming.take(self.takes(incoming, capacity)), ..self }
        }
    }

    /// How many bytes a raw read of at most `limit` bytes hands out: the
    /// oldest unread bytes, from the line that has begun if there is one,
    /// else from the window.
    pub open spec fn read_len(self, limit: int) -> int {
        let held = if self.partial.len() > 0 {
            self.partial.len()
        } else {
            self.window.len()
        };
        if limit <= held {
            limit
        } else {
            held as int
        }
    }

    /// The bytes that a raw read of at most `limit` bytes hands out.
    pub open spec fn read_bytes(self, limit: int) -> Seq<u8> {
        if self.partial.len() > 0 {
            self.partial.take(self.read_len(limit))
        } else {
            self.window.take(self.read_len(limit))
        }
    }

    /// The state after a raw read of at most `limit` bytes.
    pub open spec fn after_read(self, limit: int) -> ReadState {
        if self.partial.len() > 0 {
            ReadState { partial: self.partial.skip(self.read_len(limit)), ..self }
        } else {
            ReadState { window: self.window.skip(self.read_len(limit)), ..self }
        }
    }
}

/// A line that is handed out leaves fewer bytes behind than there were.
pub proof fn lemma_line_shortens(state: ReadState)
    requires
        state.polled() is Line,
    ensures
        state.after_poll().window.len() + state.after_poll().partial.len() < state.window.len()
            + state.partial.len(),
{
    lemma_find_lf(state.window, 0);
}

/// The lines that come out of a socket in `state` when it is asked again and
/// again until it has none to give, and the state it is in then.
pub open spec fn drained(state: ReadState) -> (Seq<Seq<u8>>, ReadState)
    decreases state.window.len() + state.partial.len(),
{
    match state.polled() {
        Polled::Line(raw) => {
            proof {
                lemma_line_shortens(state);
            }
            let (lines, end) = drained(state.after_poll());
            (seq![raw] + lines, end)
        },
        _ => (Seq::empty(), state.after_poll()),
    }
}

/// What [`Socket::poll_line`] answers.
#[derive(Debug, PartialEq, Eq)]
pub enum LinePoll {
    /// The next line, decoded, without its line ending.
    Line(String),
    /// No line yet: read from the stream and fill the socket.
    NeedFill,
    /// The stream has ended and every line has been handed out.
    End,
}

/// One accepted connection: the addresses of its two ends, its read buffer,
/// and whether it has been shut down.
#[derive(Debug)]
pub struct Socket {
    remote_addr: SocketAddress,
    local_addr: SocketAddress,
    buffer: ReadBuffer,
    partial: Vec<u8>,
    ended: bool,
    closed: bool,
}

impl View for Socket {
    type V = ReadState;

    closed spec fn view(&self) -> ReadState {
        ReadState { partial: self.partial@, window: self.buffer@, ended: self.ended }
    }
}

/// Appends the bytes of `source` to `target`.
fn append_bytes(target: &mut Vec<u8>, source: &[u8])
    ensures
        final(target)@ == old(target)@ + source@,
{
    let mut i: usize = 0;
    while i < source.len()
        invariant
            i <= source@.len(),
            target@ == old(target)@ + source@.take(i as int),
        decreases source.len() - i,
    {
        target.push(source[i]);
        i += 1;
    }
}

/// Finds the first line feed of `bytes` at or behind `from`.
pub(crate) fn scan_lf(bytes: &[u8], from: usize) -> (at: usize)
    requires
        from <= bytes@.len(),
    ensures
        at == find_lf(bytes@, from as int),
        from <= at <= bytes@.len(),
{
    let mut i: usize = from;
    while i < bytes.len() && bytes[i] != LF
        invariant
            from <= i <= bytes@.len(),
            find_lf(bytes@, from as int) == find_lf(bytes@, i as int),
        decreases bytes.len() - i,
    {
        i += 1;
    }
    i
}

impl Socket {
    /// The invariant of the type: that of its buffer.
    pub closed spec fn wf(&self) -> bool {
        self.buffer.inv()
    }

    /// The buffer as contracts speak of it.
    pub closed spec fn spec_read_buf(&self) -> ReadBuffer {
        self.buffer
    }

    /// Whether the socket has been shut down.
    pub closed spec fn spec_is_closed(&self) -> bool {
        self.closed
    }

    /// The far end, as contracts speak of it.
    pub closed spec fn spec_remote_addr(&self) -> SocketAddress {
        self.remote_addr
    }

    /// The near end, as contracts speak of it.
    pub closed spec fn spec_local_addr(&self) -> SocketAddress {
        self.local_addr
    }

    /// What a well-formed socket's buffer and view have to do with each
    /// other: the buffer keeps its invariant, and its window is the view's.
    pub proof fn lemma_buffer(&self)
        requires
            self.wf(),
        ensures
            self.spec_read_buf().inv(),
            self.spec_read_buf()@ == self@.window,
    {
    }

    /// A socket for a connection that has just been accepted, with a buffer
    /// of the default capacity: nothing read, nothing buffered, not shut down.
    pub fn new(remote_addr: SocketAddress, local_addr: SocketAddress) -> (socket: Self)
        ensures
            socket.wf(),
            socket@ == (ReadState { partial: Seq::empty(), window: Seq::empty(), ended: false }),
            socket.spec_read_buf().capacity() == crate::server::buffer::DEFAULT_CAPACITY,
            !socket.spec_is_closed(),
            socket.spec_remote_addr() == remote_addr,
            socket.spec_local_addr() == local_addr,
    {
        Socket {
            remote_addr,
            local_addr,
            buffer: ReadBuffer::new(),
            partial: Vec::new(),
            ended: false,
            closed: false,
        }
    }

    /// As [`Socket::new`], with a buffer that can hold `capacity` bytes.
    pub fn with_capacity(
        capacity: usize,
        remote_addr: SocketAddress,
        local_addr: SocketAddress,
    ) -> (socket: Self)
        requires
            capacity >= 1,
        ensures
            socket.wf(),
            socket@ == (ReadState { partial: Seq::empty(), window: Seq::empty(), ended: false }),
            socket.spec_read_buf().capacity() == capacity,
            !socket.spec_is_closed(),
            socket.spec_remote_addr() == remote_addr,
            socket.spec_local_addr() == local_addr,
    {
        Socket {
            remote_addr,
            local_addr,
            buffer: ReadBuffer::with_capacity(capacity),
            partial: Vec::new(),
            ended: false,
            closed: false,
        }
    }

    /// The far end of the connection.
    #[verifier::when_used_as_spec(spec_remote_addr)]
    pub fn remote_addr(&self) -> (address: SocketAddress)
        ensures
            address == self.spec_remote_addr(),
    {
        self.remote_addr
    }

    /// The near end of the connection.
    #[verifier::when_used_as_spec(spec_local_addr)]
    pub fn local_addr(&self) -> (address: SocketAddress)
        ensures
            address == self.spec_local_addr(),
    {
        self.local_addr
    }

    /// The read buffer.
    pub fn read_buf(&self) -> (buffer: &ReadBuffer)
        ensures
            *buffer == self.spec_read_buf(),
    {
        &self.buffer
    }

    /// How many bytes to ask of the stream now: none while the window holds
    /// bytes or after the stream has ended, else what the buffer can hold.
    pub fn room(&self) -> (room: usize)
        requires
            self.wf(),
        ensures
            room == if self@.ended || self@.window.len() > 0 {
                0
            } else {
                self.spec_read_buf().capacity()
            },
    {
        if self.ended {
            0
        } else {
            self.buffer.room()
        }
    }

    /// Takes what one read of the stream gave, and returns how many bytes of
    /// it went into the buffer. Nothing is taken while the window holds bytes
    /// or after the stream has ended. A read that gives nothing, asked for
    /// while the window is empty, is the end of the stream.
    pub fn fill(&mut self, incoming: &[u8]) -> (taken: usize)
        requires
            old(self).wf(),
        ensures
            final(self).wf(),
            final(self).spec_read_buf().capacity() == old(self).spec_read_buf().capacity(),
            final(self).spec_is_closed() == old(self).spec_is_closed(),
            final(self).remote_addr() == old(self).remote_addr(),
            final(self).local_addr() == old(self).local_addr(),
            taken == old(self)@.takes(incoming@, old(self).spec_read_buf().capacity() as int),
            final(self)@ == old(self)@.after_fill(
                incoming@,
                old(self).spec_read_buf().capacity() as int,
            ),
    {
        if self.ended {
            return 0;
        }
        if incoming.len() == 0 {
            if self.buffer.room() > 0 {
                self.ended = true;
            }
            return 0;
        }
        self.buffer.fill(incoming)
    }

    /// Asks for the next line. The answer, and what becomes of the buffered
    /// bytes, is what [`ReadState::polled`] and [`ReadState::after_poll`] say;
    /// a line is decoded with every ill-formed sequence replaced, so that
    /// bytes which are well-formed UTF-8 give the characters they encode.
    pub fn poll_line(&mut self) -> (polled: LinePoll)
        requires
            old(self).wf(),
        ensures
            final(self).wf(),
            final(self).spec_read_buf().capacity() == old(self).spec_read_buf().capacity(),
            final(self).spec_is_closed() == old(self).spec_is_closed(),
            final(self).remote_addr() == old(self).remote_addr(),
            final(self).local_addr() == old(self).local_addr(),
            final(self)@ == old(self)@.after_poll(),
            match polled {
                LinePoll::Line(text) => old(self)@.polled() matches Polled::Line(raw)
                    && text@ == lossy_text(raw) && (valid_utf8(raw) ==> text@ == decode_utf8(raw)),
                LinePoll::NeedFill => old(self)@.polled() is NeedFill,
                LinePoll::End => old(self)@.polled() is End,
            },
    {
        let window: &[u8] = self.buffer.peek();
        let len: usize = window.len();
        let at: usize = scan_lf(window, 0);
        if at < len {
            append_bytes(&mut self.partial, vstd::slice::slice_subrange(window, 0, at));
            self.buffer.consume(at + 1);
            let gathered: usize = self.partial.len();
            if gathered > 0 && self.partial[gathered - 1] == CR {
                self.partial.truncate(gathered - 1);
            }
            let text: String = decode_lossy(self.partial.as_slice());
            self.partial.clear();
            LinePoll::Line(text)
        } else {
            append_bytes(&mut self.partial, window);
            self.buffer.consume(len);
            assert(self.buffer@ =~= Seq::<u8>::empty());
            if !self.ended {
                LinePoll::NeedFill
            } else if self.partial.len() > 0 {
                let text: String = decode_lossy(self.partial.as_slice());
                self.partial.clear();
                LinePoll::Line(text)
            } else {
                assert(self.partial@ =~= Seq::<u8>::empty());
                LinePoll::End
            }
        }
    }

    /// Hands out, decoded, the lines that the buffered bytes hold: every line
    /// that a line feed ends and, once the stream has ended, what is left as
    /// the last line. The socket is left as [`drained`] says: with an empty
    /// window, ready to be filled.
    pub fn lines(&mut self) -> (lines: Vec<String>)
        requires
            old(self).wf(),
        ensures
            final(self).wf(),
            final(self).spec_read_buf().capacity() == old(self).spec_read_buf().capacity(),
            final(self).spec_is_closed() == old(self).spec_is_closed(),
            final(self).remote_addr() == old(self).remote_addr(),
            final(self).local_addr() == old(self).local_addr(),
            final(self)@ == drained(old(self)@).1,
            lines@.len() == drained(old(self)@).0.len(),
            forall|i: int|
                0 <= i < lines@.len() ==> (#[trigger] lines@[i])@ == lossy_text(
                    drained(old(self)@).0[i],
                ),
            forall|i: int|
                0 <= i < lines@.len() && valid_utf8(drained(old(self)@).0[i]) ==> (
                #[trigger] lines@[i])@ == decode_utf8(drained(old(self)@).0[i]),
    {
        let mut lines: Vec<String> = Vec::new();
        loop
            invariant
                self.wf(),
                self.spec_read_buf().capacity() == old(self).spec_read_buf().capacity(),
                self.spec_is_closed() == old(self).spec_is_closed(),
                self.remote_addr() == old(self).remote_addr(),
                self.local_addr() == old(self).local_addr(),
                drained(old(self)@).1 == drained(self@).1,
                drained(old(self)@).0.len() == lines@.len() + drained(self@).0.len(),
                forall|i: int|
                    0 <= i < lines@.len() ==> (#[trigger] lines@[i])@ == lossy_text(
                        drained(old(self)@).0[i],
                    ),
                forall|i: int|
                    0 <= i < lines@.len() && valid_utf8(drained(old(self)@).0[i]) ==> (
                    #[trigger] lines@[i])@ == decode_utf8(drained(old(self)@).0[i]),
                forall|i: int|
                    0 <= i < drained(self@).0.len() ==> #[trigger] drained(self@).0[i] == drained(
                        old(self)@,
                    ).0[lines@.len() + i],
            ensures
                self.wf(),
                self.spec_read_buf().capacity() == old(self).spec_read_buf().capacity(),
                self.spec_is_closed() == old(self).spec_is_closed(),
                self.remote_addr() == old(self).remote_addr(),
                self.local_addr() == old(self).local_addr(),
                self@ == drained(old(self)@).1,
                lines@.len() == drained(old(self)@).0.len(),
                forall|i: int|
                    0 <= i < lines@.len() ==> (#[trigger] lines@[i])@ == lossy_text(
                        drained(old(self)@).0[i],
                    ),
                forall|i: int|
                    0 <= i < lines@.len() && valid_utf8(drained(old(self)@).0[i]) ==> (
                    #[trigger] lines@[i])@ == decode_utf8(drained(old(self)@).0[i]),
            decreases self@.window.len() + self@.partial.len(),
        {
            let ghost before = self@;
            proof {
                if before.polled() is Line {
                    lemma_line_shortens(before);
                }
            }
            match self.poll_line() {
                LinePoll::Line(line) => {
                    lines.push(line);
                    proof {
                        let raw = before.polled()->Line_0;
                        assert(drained(before).0[0] == raw);
                        assert forall|i: int| 0 <= i < drained(self@).0.len() implies #[trigger] drained(
                            self@,
                        ).0[i] == drained(old(self)@).0[lines@.len() + i] by {
                            assert(drained(self@).0[i] == drained(before).0[i + 1]);
                        }
                    }
                },
                _ => {
                    break;
                },
            }
        }
        lines
    }

    /// Hands out the oldest unread bytes as they are, at most `limit` of
    /// them: from the line that has begun if there is one, else from the
    /// window. This is how what follows the head is read.
    pub fn read(&mut self, limit: usize) -> (bytes: Vec<u8>)
        requires
            old(self).wf(),
        ensures
            final(self).wf(),
            final(self).spec_read_buf().capacity() == old(self).spec_read_buf().capacity(),
            final(self).spec_is_closed() == old(self).spec_is_closed(),
            final(self).remote_addr() == old(self).remote_addr(),
            final(self).local_addr() == old(self).local_addr(),
            bytes@ == old(self)@.read_bytes(limit as int),
            final(self)@ == old(self)@.after_read(limit as int),
    {
        if self.partial.len() > 0 {
            let count: usize = if limit <= self.partial.len() {
                limit
            } else {
                self.partial.len()
            };
            let mut rest: Vec<u8> = self.partial.split_off(count);
            core::mem::swap(&mut self.partial, &mut rest);
            rest
        } else {
            let window: &[u8] = self.buffer.peek();
            let count: usize = if limit <= window.len() {
                limit
            } else {
                window.len()
            };
            let mut bytes: Vec<u8> = Vec::new();
            append_bytes(&mut bytes, vstd::slice::slice_subrange(window, 0, count));
            self.buffer.consume(count);
            bytes
        }
    }

    /// Whether the socket has been shut down.
    #[verifier::when_used_as_spec(spec_is_closed)]
    pub fn is_closed(&self) -> (closed: bool)
        ensures
            closed == self.spec_is_closed(),
    {
        self.closed
    }

    /// Shuts the socket down. The result says whether the stream is to be
    /// shut down now, in both directions: it is `true` for the first call and
    /// `false` for every later one, so that a stream is shut down once.
    pub fn close(&mut self) -> (shut_down: bool)
        ensures
            shut_down == !old(self).is_closed(),
            final(self).is_closed(),
            final(self).wf() == old(self).wf(),
            final(self)@ == old(self)@,
            final(self).spec_read_buf() == old(self).spec_read_buf(),
            final(self).remote_addr() == old(self).remote_addr(),
            final(self).local_addr() == old(self).local_addr(),
    {
        let shut_down: bool = !self.closed;
        self.closed = true;
        shut_down
    }
}

} // verus!
