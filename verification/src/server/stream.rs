//! What a connection is read as does not depend on how its bytes arrive.
//!
//! A stream gives its bytes in reads of any size. The laws here say that the
//! lines that come out of a socket, and the request head that is parsed from
//! them, are those of the bytes as a whole, however the reads cut them.

use vstd::prelude::*;

use crate::server::request::{
    advanced, close, feed, feed_all, lemma_feed_all_concat, lemma_feeding_is_reading,
    lemma_settled_stays, read_head, Progress,
};
use crate::server::socket::{
    drained, find_lf, lemma_find_lf, lemma_find_lf_is, lemma_line_shortens, lossy_text, trim_cr,
    Polled, ReadState, LF,
};

verus! {

/// The lines of a stream that holds `bytes` and then ends: each line ends at
/// a line feed, and is handed out without it and without a carriage return
/// before it; what stands behind the last line feed is the last line, unless
/// it is empty.
pub open spec fn lines_of(bytes: Seq<u8>) -> Seq<Seq<u8>>
    decreases bytes.len(),
{
    let at = find_lf(bytes, 0);
    if at < bytes.len() {
        proof {
            lemma_find_lf(bytes, 0);
        }
        seq![trim_cr(bytes.take(at))] + lines_of(bytes.skip(at + 1))
    } else if bytes.len() > 0 {
        seq![bytes]
    } else {
        Seq::empty()
    }
}

/// Whether `bytes` hold no line feed.
pub open spec fn no_lf(bytes: Seq<u8>) -> bool {
    forall|i: int| 0 <= i < bytes.len() ==> bytes[i] != LF
}

/// The bytes of `chunks`, one chunk after the other.
pub open spec fn joined(chunks: Seq<Seq<u8>>) -> Seq<u8>
    decreases chunks.len(),
{
    if chunks.len() == 0 {
        Seq::empty()
    } else {
        chunks[0] + joined(chunks.drop_first())
    }
}

/// Whether each of `chunks` is what one read can give to a buffer that
/// holds `capacity` bytes: a byte at least, and no more than the buffer
/// holds.
pub open spec fn fits(chunks: Seq<Seq<u8>>, capacity: int) -> bool {
    forall|i: int| 0 <= i < chunks.len() ==> 1 <= (#[trigger] chunks[i]).len() <= capacity
}

/// The lines that come out of a socket in `state` when the reads of its
/// stream give `chunks`, one after the other, and the stream then ends. The
/// socket is drained before each read and after the last.
pub open spec fn read_through(state: ReadState, chunks: Seq<Seq<u8>>, capacity: int) -> Seq<
    Seq<u8>,
>
    decreases chunks.len(),
{
    let (lines, waiting) = drained(state);
    if chunks.len() == 0 {
        lines + drained(waiting.after_fill(Seq::empty(), capacity)).0
    } else {
        lines + read_through(
            waiting.after_fill(chunks[0], capacity),
            chunks.drop_first(),
            capacity,
        )
    }
}

/// Draining a socket hands out the lines that are complete and keeps what
/// stands behind the last line feed: whatever bytes follow, the lines of all
/// the bytes are the lines handed out and then the lines of what was kept
/// with what follows.
pub proof fn lemma_drained(state: ReadState, rest: Seq<u8>)
    requires
        no_lf(state.partial),
        !state.ended,
    ensures
        drained(state).1.window.len() == 0,
        no_lf(drained(state).1.partial),
        !drained(state).1.ended,
        lines_of(state.partial + state.window + rest) == drained(state).0 + lines_of(
            drained(state).1.partial + rest,
        ),
    decreases state.window.len() + state.partial.len(),
{
    let at = find_lf(state.window, 0);
    lemma_find_lf(state.window, 0);
    let all = state.partial + state.window + rest;
    if at < state.window.len() {
        let next = state.after_poll();
        lemma_line_shortens(state);
        lemma_drained(next, rest);
        let cut = state.partial.len() + at;
        assert(find_lf(all, 0) == cut) by {
            lemma_find_lf_is(all, 0, cut);
        }
        assert(all.take(cut) =~= state.partial + state.window.take(at));
        assert(all.skip(cut + 1) =~= next.partial + next.window + rest);
    }
}

/// At the end of the stream a socket hands out what it had kept as the last
/// line, unless it had kept nothing.
pub proof fn lemma_drained_at_end(state: ReadState)
    requires
        no_lf(state.partial),
        state.window.len() == 0,
        state.ended,
    ensures
        drained(state).0 == lines_of(state.partial),
        drained(state).1 == (ReadState {
            partial: Seq::empty(),
            window: Seq::empty(),
            ended: true,
        }),
{
    lemma_find_lf_is(state.partial, 0, state.partial.len() as int);
    if state.partial.len() > 0 {
        let after = state.after_poll();
        assert(drained(after).0 =~= Seq::<Seq<u8>>::empty());
    }
}

/// The lines of a connection do not depend on how its bytes arrive. However
/// the reads cut the stream, the lines that come out of the socket are the
/// lines of the bytes it held and of all that was read, taken as a whole.
pub proof fn lemma_lines_whatever_the_reads(
    state: ReadState,
    chunks: Seq<Seq<u8>>,
    capacity: int,
)
    requires
        no_lf(state.partial),
        !state.ended,
        fits(chunks, capacity),
    ensures
        read_through(state, chunks, capacity) == lines_of(
            state.partial + state.window + joined(chunks),
        ),
    decreases chunks.len(),
{
    let (lines, waiting) = drained(state);
    lemma_drained(state, joined(chunks));
    if chunks.len() == 0 {
        let ended = waiting.after_fill(Seq::empty(), capacity);
        lemma_drained_at_end(ended);
    } else {
        let filled = waiting.after_fill(chunks[0], capacity);
        lemma_lines_whatever_the_reads(filled, chunks.drop_first(), capacity);
        assert(filled.partial + filled.window + joined(chunks.drop_first()) =~= waiting.partial
            + joined(chunks));
    }
}

/// The text of each line.
pub open spec fn text_lines(lines: Seq<Seq<u8>>) -> Seq<Seq<char>> {
    Seq::new(lines.len(), |i: int| lossy_text(lines[i]))
}

/// Where the reading of a head has come when the reads of the stream give
/// `chunks`, one after the other, and the stream then ends. The parser reads
/// on before each read and after the last, and no read is made once the head
/// has ended.
pub open spec fn parsed_through(
    progress: Progress,
    state: ReadState,
    chunks: Seq<Seq<u8>>,
    capacity: int,
) -> Progress
    decreases chunks.len(),
{
    let (reached, waiting) = advanced(progress, state);
    if reached.settled() {
        reached
    } else if chunks.len() == 0 {
        advanced(reached, waiting.after_fill(Seq::empty(), capacity)).0
    } else {
        parsed_through(
            reached,
            waiting.after_fill(chunks[0], capacity),
            chunks.drop_first(),
            capacity,
        )
    }
}

/// Reading on feeds the parser the lines that draining the socket hands
/// out, and ends the head where the stream has ended. While the head is
/// open, the socket is left as draining leaves it.
pub proof fn lemma_advanced(progress: Progress, state: ReadState)
    ensures
        advanced(progress, state).0 == if state.ended {
            close(feed_all(progress, text_lines(drained(state).0)))
        } else {
            feed_all(progress, text_lines(drained(state).0))
        },
        !advanced(progress, state).0.settled() ==> advanced(progress, state).1 == drained(
            state,
        ).1,
    decreases state.window.len() + state.partial.len(),
{
    let lines = drained(state).0;
    if progress.settled() {
        lemma_settled_stays(progress, text_lines(lines));
    } else {
        match state.polled() {
            Polled::Line(raw) => {
                lemma_line_shortens(state);
                let next = state.after_poll();
                lemma_advanced(feed(progress, lossy_text(raw)), next);
                assert(text_lines(lines).drop_first() =~= text_lines(drained(next).0));
            },
            _ => {},
        }
    }
}

/// The request head of a connection does not depend on how its bytes
/// arrive. However the reads cut the stream, the parser comes to where the
/// lines of all the bytes, fed one by one and followed by the end of the
/// stream, bring it.
pub proof fn lemma_head_whatever_the_reads(
    progress: Progress,
    state: ReadState,
    chunks: Seq<Seq<u8>>,
    capacity: int,
)
    requires
        no_lf(state.partial),
        !state.ended,
        fits(chunks, capacity),
    ensures
        parsed_through(progress, state, chunks, capacity) == close(
            feed_all(
                progress,
                text_lines(lines_of(state.partial + state.window + joined(chunks))),
            ),
        ),
    decreases chunks.len(),
{
    let (reached, waiting) = advanced(progress, state);
    let (lines, kept) = drained(state);
    let behind = lines_of(kept.partial + joined(chunks));
    lemma_advanced(progress, state);
    lemma_drained(state, joined(chunks));
    assert(text_lines(lines + behind) =~= text_lines(lines) + text_lines(behind));
    lemma_feed_all_concat(progress, text_lines(lines), text_lines(behind));
    if reached.settled() {
        lemma_settled_stays(reached, text_lines(behind));
    } else if chunks.len() == 0 {
        let ended = waiting.after_fill(Seq::empty(), capacity);
        lemma_advanced(reached, ended);
        lemma_drained_at_end(ended);
    } else {
        let filled = waiting.after_fill(chunks[0], capacity);
        lemma_head_whatever_the_reads(reached, filled, chunks.drop_first(), capacity);
        assert(filled.partial + filled.window + joined(chunks.drop_first()) =~= kept.partial
            + joined(chunks));
    }
}

/// From the bytes of a connection to its request: a fresh parser on a fresh
/// socket comes, however the reads cut the stream, to the head that the
/// lines of the bytes hold.
pub proof fn lemma_request_whatever_the_reads(chunks: Seq<Seq<u8>>, capacity: int)
    requires
        fits(chunks, capacity),
    ensures
        parsed_through(
            Progress::AwaitingRequestLine,
            ReadState { partial: Seq::empty(), window: Seq::empty(), ended: false },
            chunks,
            capacity,
        ).outcome() == Some(read_head(text_lines(lines_of(joined(chunks))))),
{
    let fresh = ReadState { partial: Seq::empty(), window: Seq::empty(), ended: false };
    lemma_head_whatever_the_reads(Progress::AwaitingRequestLine, fresh, chunks, capacity);
    lemma_feeding_is_reading(text_lines(lines_of(joined(chunks))));
}

} // verus!
