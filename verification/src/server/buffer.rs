//! The read buffer of a connection: a window of bytes that have been read
//! from the stream and not yet been consumed.

use vstd::prelude::*;

verus! {

/// The capacity of a buffer that is made without one: 8 KiB.
pub const DEFAULT_CAPACITY: usize = 8192;

/// A buffer of fixed capacity that holds one read window at a time. The
/// bytes from `pos` up to `filled` are the window: read from the stream, not
/// yet consumed. The buffer is refilled only when the window is empty.
#[derive(Debug)]
pub struct ReadBuffer {
    data: Vec<u8>,
    capacity: usize,
    pos: usize,
    filled: usize,
}

impl View for ReadBuffer {
    type V = Seq<u8>;

    /// The window: the bytes that are buffered and not yet consumed.
    closed spec fn view(&self) -> Seq<u8> {
        self.data@.subrange(self.pos as int, self.filled as int)
    }
}

impl ReadBuffer {
    /// How many bytes the buffer can hold.
    pub closed spec fn spec_capacity(&self) -> usize {
        self.capacity
    }

    /// How many bytes of the buffer have ever been written.
    pub closed spec fn spec_initialized(&self) -> usize {
        self.data.len()
    }

    /// Where the bytes of the last refill end.
    pub closed spec fn spec_filled(&self) -> usize {
        self.filled
    }

    /// Where the window begins: the bytes before it have been consumed.
    pub closed spec fn spec_pos(&self) -> usize {
        self.pos
    }

    /// The invariant of the type: the buffer can hold a byte, and
    /// `pos <= filled <= initialized <= capacity`.
    pub open spec fn inv(&self) -> bool {
        &&& 1 <= self.spec_capacity()
        &&& self.spec_pos() <= self.spec_filled()
        &&& self.spec_filled() <= self.spec_initialized()
        &&& self.spec_initialized() <= self.spec_capacity()
    }

    /// The window is what lies between `pos` and `filled`.
    pub proof fn lemma_window_len(&self)
        requires
            self.inv(),
        ensures
            self@.len() == self.spec_filled() - self.spec_pos(),
    {
    }

    /// An empty buffer of the default capacity.
    pub fn new() -> (buffer: Self)
        ensures
            buffer.inv(),
            buffer.spec_capacity() == DEFAULT_CAPACITY,
            buffer.spec_initialized() == 0,
            buffer.spec_filled() == 0,
            buffer.spec_pos() == 0,
            buffer@ == Seq::<u8>::empty(),
    {
        ReadBuffer::with_capacity(DEFAULT_CAPACITY)
    }

    /// An empty buffer that can hold `capacity` bytes.
    pub fn with_capacity(capacity: usize) -> (buffer: Self)
        requires
            capacity >= 1,
        ensures
            buffer.inv(),
            buffer.spec_capacity() == capacity,
            buffer.spec_initialized() == 0,
            buffer.spec_filled() == 0,
            buffer.spec_pos() == 0,
            buffer@ == Seq::<u8>::empty(),
    {
        ReadBuffer { data: Vec::new(), capacity, pos: 0, filled: 0 }
    }

    /// How many bytes the buffer can hold.
    #[verifier::when_used_as_spec(spec_capacity)]
    pub fn capacity(&self) -> (capacity: usize)
        ensures
            capacity == self.spec_capacity(),
    {
        self.capacity
    }

    /// How many bytes of the buffer have ever been written.
    #[verifier::when_used_as_spec(spec_initialized)]
    pub fn initialized(&self) -> (initialized: usize)
        ensures
            initialized == self.spec_initialized(),
    {
        self.data.len()
    }

    /// Where the bytes of the last refill end.
    #[verifier::when_used_as_spec(spec_filled)]
    pub fn filled(&self) -> (filled: usize)
        ensures
            filled == self.spec_filled(),
    {
        self.filled
    }

    /// Where the window begins.
    #[verifier::when_used_as_spec(spec_pos)]
    pub fn pos(&self) -> (pos: usize)
        ensures
            pos == self.spec_pos(),
    {
        self.pos
    }

    /// The window: the bytes that are buffered and not yet consumed. Looking
    /// at them consumes nothing.
    pub fn peek(&self) -> (window: &[u8])
        requires
            self.inv(),
        ensures
            window@ == self@,
    {
        vstd::slice::slice_subrange(self.data.as_slice(), self.pos, self.filled)
    }

    /// How many bytes a refill would take now: the capacity where the window
    /// is empty, and none where it is not.
    pub fn room(&self) -> (room: usize)
        requires
            self.inv(),
        ensures
            room == if self@.len() == 0 {
                self.capacity()
            } else {
                0
            },
    {
        if self.pos == self.filled {
            self.capacity
        } else {
            0
        }
    }

    /// Refills the buffer with what one read of the stream gave. A buffer
    /// whose window is not empty takes nothing and stays as it is. An empty
    /// one takes the bytes of `incoming` from the front, as many as it can
    /// hold, and they become the window. The result is the number of bytes
    /// taken.
    pub fn fill(&mut self, incoming: &[u8]) -> (taken: usize)
        requires
            old(self).inv(),
        ensures
            final(self).inv(),
            final(self).capacity() == old(self).capacity(),
            old(self)@.len() > 0 ==> taken == 0 && *final(self) == *old(self),
            old(self)@.len() == 0 ==> {
                &&& taken == if incoming@.len() <= old(self).capacity() {
                    incoming@.len()
                } else {
                    old(self).capacity() as nat
                }
                &&& final(self)@ == incoming@.take(taken as int)
                &&& final(self).pos() == 0
                &&& final(self).filled() == taken
                &&& final(self).initialized() == if taken <= old(self).initialized() {
                    old(self).initialized()
                } else {
                    taken
                }
            },
    {
        if self.pos < self.filled {
            return 0;
        }
        let taken: usize = if incoming.len() <= self.capacity {
            incoming.len()
        } else {
            self.capacity
        };
        let ghost before: nat = self.data@.len();
        self.pos = 0;
        self.filled = 0;
        let mut i: usize = 0;
        while i < taken
            invariant
                i <= taken <= incoming@.len(),
                taken <= self.capacity,
                before <= self.capacity,
                self.capacity == old(self).capacity,
                self.pos == 0,
                self.filled == 0,
                self.data@.len() == if i <= before {
                    before
                } else {
                    i as nat
                },
                forall|k: int| 0 <= k < i ==> self.data@[k] == incoming@[k],
            decreases taken - i,
        {
            if i < self.data.len() {
                self.data.set(i, incoming[i]);
            } else {
                self.data.push(incoming[i]);
            }
            i += 1;
        }
        self.filled = taken;
        taken
    }

    /// Consumes `amount` bytes of the window from its front, or the whole
    /// window where it holds fewer.
    pub fn consume(&mut self, amount: usize)
        requires
            old(self).inv(),
        ensures
            final(self).inv(),
            final(self).capacity() == old(self).capacity(),
            final(self).initialized() == old(self).initialized(),
            final(self).filled() == old(self).filled(),
            final(self).pos() == if amount <= old(self)@.len() {
                old(self).pos() + amount
            } else {
                old(self).filled() as int
            },
            final(self)@ == old(self)@.skip(
                if amount <= old(self)@.len() {
                    amount as int
                } else {
                    old(self)@.len() as int
                },
            ),
    {
        let left: usize = self.filled - self.pos;
        if amount <= left {
            self.pos = self.pos + amount;
        } else {
            self.pos = self.filled;
        }
    }
}

} // verus!
