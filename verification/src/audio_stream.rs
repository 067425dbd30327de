//! The hand-off buffer between the decoder, which writes PCM bytes into it,
//! and the voice connection, which reads them out. Reads never wait: a
//! starved stream yields silence and a drained closed stream yields end of
//! stream. A write that does not fit must wait for readers to make room.

use std::collections::VecDeque;
use vstd::prelude::*;

verus! {

/// The most bytes the stream holds at once (16 MiB).
pub const BUFFER_SIZE: usize = 16 * 1024 * 1024;

/// The state of a stream: the bytes written and not yet read, in order, and
/// whether the stream was closed.
pub struct StreamState {
    pub buffered: Seq<u8>,
    pub closed: bool,
}

/// A state the stream can be in: never more than [`BUFFER_SIZE`] bytes buffered.
pub open spec fn valid(s: StreamState) -> bool {
    s.buffered.len() <= BUFFER_SIZE
}

/// The state of a new stream.
pub open spec fn initial_state() -> StreamState {
    StreamState { buffered: Seq::empty(), closed: false }
}

/// What became of a write.
#[derive(Debug, PartialEq, Eq, Structural)]
pub enum WriteOutcome {
    /// All the bytes were appended; holds how many.
    Written(usize),
    /// The bytes do not fit and the stream is still open: wait for a read.
    Full,
    /// The bytes do not fit and the stream is closed: the writer must stop.
    Closed,
}

/// Whether `n` more bytes fit beside those buffered in `s`.
pub open spec fn fits(s: StreamState, n: nat) -> bool {
    s.buffered.len() + n <= BUFFER_SIZE
}

/// A write of `data`: appended whole when it fits, otherwise nothing changes.
pub open spec fn write_step(s: StreamState, data: Seq<u8>) -> (StreamState, WriteOutcome) {
    if fits(s, data.len()) {
        (
            StreamState { buffered: s.buffered + data, closed: s.closed },
            WriteOutcome::Written(data.len() as usize),
        )
    } else if s.closed {
        (s, WriteOutcome::Closed)
    } else {
        (s, WriteOutcome::Full)
    }
}

/// How many bytes a read into a buffer of `want` bytes takes out.
pub open spec fn taken(s: StreamState, want: nat) -> nat {
    if s.buffered.len() < want {
        s.buffered.len()
    } else {
        want
    }
}

/// What a read into a buffer of `want` bytes reports: the bytes taken out;
/// when nothing is buffered, 0 on a closed stream (end of stream) and `want`
/// on an open one (a buffer of silence).
pub open spec fn read_count(s: StreamState, want: nat) -> nat {
    if s.buffered.len() == 0 {
        if s.closed {
            0
        } else {
            want
        }
    } else {
        taken(s, want)
    }
}

/// The read buffer after a read into `buf`: the oldest buffered bytes at its
/// front, the rest untouched; all zeros when an open stream is empty;
/// untouched at end of stream.
pub open spec fn read_fill(s: StreamState, buf: Seq<u8>) -> Seq<u8> {
    if s.buffered.len() == 0 {
        if s.closed {
            buf
        } else {
            Seq::new(buf.len(), |i: int| 0u8)
        }
    } else {
        let n = taken(s, buf.len()) as int;
        s.buffered.take(n) + buf.skip(n)
    }
}

/// The stream after a read into a buffer of `want` bytes: the bytes taken out are gone.
pub open spec fn read_rest(s: StreamState, want: nat) -> StreamState {
    StreamState { buffered: s.buffered.skip(taken(s, want) as int), closed: s.closed }
}

/// The stream after a flush: everything buffered is dropped.
pub open spec fn flush_step(s: StreamState) -> StreamState {
    StreamState { buffered: Seq::empty(), closed: s.closed }
}

/// The stream after it is closed: the buffered bytes stay readable.
pub open spec fn close_step(s: StreamState) -> StreamState {
    StreamState { buffered: s.buffered, closed: true }
}

/// A bounded byte stream from one decoder to the voice connection.
pub struct AudioStream {
    buffer: VecDeque<u8>,
    closed: bool,
}

impl View for AudioStream {
    type V = StreamState;

    closed spec fn view(&self) -> StreamState {
        StreamState { buffered: self.buffer@, closed: self.closed }
    }
}

impl AudioStream {
    /// Whether the stream is in a valid state (true of every stream the library makes).
    pub open spec fn wf(&self) -> bool {
        valid(self@)
    }

    /// An empty, open stream.
    pub fn new() -> (s: AudioStream)
        ensures
            s@ == initial_state(),
            s.wf(),
    {
        AudioStream { buffer: VecDeque::new(), closed: false }
    }

    /// Closes the stream: writes that do not fit now fail instead of waiting,
    /// and once the buffered bytes are read, reads report end of stream.
    pub fn close(&mut self)
        requires
            old(self).wf(),
        ensures
            final(self)@ == close_step(old(self)@),
            final(self).wf(),
    {
        self.closed = true;
    }

    /// Whether the stream was closed.
    pub fn is_closed(&self) -> (b: bool)
        ensures
            b == self@.closed,
    {
        self.closed
    }

    /// Reads into `buf` (see [`read_count`], [`read_fill`], [`read_rest`]).
    pub fn read(&mut self, buf: &mut [u8]) -> (n: usize)
        requires
            old(self).wf(),
        ensures
            n == read_count(old(self)@, old(buf)@.len()),
            final(buf)@ == read_fill(old(self)@, old(buf)@),
            final(self)@ == read_rest(old(self)@, old(buf)@.len()),
            final(self).wf(),
    {
        let ghost s0 = self@;
        let ghost b0 = buf@;
        let want = buf.len();
        if self.buffer.len() == 0 {
            assert(s0.buffered.skip(0) =~= s0.buffered);
            if self.closed {
                return 0;
            }
            let mut i: usize = 0;
            while i < want
                invariant
                    i <= want == buf@.len(),
                    forall|j: int| 0 <= j < i ==> buf@[j] == 0u8,
                decreases want - i,
            {
                buf[i] = 0u8;
                i = i + 1;
            }
            assert(buf@ =~= Seq::new(b0.len(), |i: int| 0u8));
            return want;
        }
        let n = if self.buffer.len() < want {
            self.buffer.len()
        } else {
            want
        };
        let mut i: usize = 0;
        while i < n
            invariant
                n == taken(s0, b0.len()),
                i <= n <= want == buf@.len() == b0.len(),
                n <= s0.buffered.len(),
                self.buffer@ == s0.buffered.skip(i as int),
                self.closed == s0.closed,
                buf@ == s0.buffered.take(i as int) + b0.skip(i as int),
            decreases n - i,
        {
            let ghost before = self.buffer@;
            let b = self.buffer.pop_front().unwrap();
            assert(b == s0.buffered[i as int]);
            buf[i] = b;
            assert(self.buffer@ =~= s0.buffered.skip(i + 1));
            assert(buf@ =~= s0.buffered.take(i + 1) + b0.skip(i + 1));
            i = i + 1;
        }
        n
    }

    /// Writes `data` whole if it fits (see [`write_step`]).
    pub fn write(&mut self, data: &[u8]) -> (r: WriteOutcome)
        requires
            old(self).wf(),
        ensures
            (final(self)@, r) == write_step(old(self)@, data@),
            final(self).wf(),
    {
        let ghost s0 = self@;
        if data.len() > BUFFER_SIZE - self.buffer.len() {
            if self.closed {
                return WriteOutcome::Closed;
            } else {
                return WriteOutcome::Full;
            }
        }
        let mut i: usize = 0;
        while i < data.len()
            invariant
                i <= data@.len(),
                s0.buffered.len() + data@.len() <= BUFFER_SIZE,
                self.buffer@ == s0.buffered + data@.take(i as int),
                self.closed == s0.closed,
            decreases data@.len() - i,
        {
            self.buffer.push_back(data[i]);
            assert(self.buffer@ =~= s0.buffered + data@.take(i + 1));
            i = i + 1;
        }
        assert(data@.take(data@.len() as int) =~= data@);
        WriteOutcome::Written(data.len())
    }

    /// Drops every buffered byte (see [`flush_step`]).
    pub fn flush(&mut self)
        requires
            old(self).wf(),
        ensures
            final(self)@ == flush_step(old(self)@),
            final(self).wf(),
    {
        self.buffer.clear();
    }
}

/// No operation lets the stream hold more than [`BUFFER_SIZE`] bytes.
pub proof fn law_capacity_is_never_exceeded(s: StreamState, data: Seq<u8>, want: nat)
    requires
        valid(s),
    ensures
        valid(write_step(s, data).0),
        valid(read_rest(s, want)),
        valid(flush_step(s)),
        valid(close_step(s)),
{
}

/// Bytes come out in the order they went in: a read after a write that fits
/// takes the oldest of the bytes buffered before it followed by the written ones.
pub proof fn law_reads_return_writes_in_order(s: StreamState, data: Seq<u8>, buf: Seq<u8>)
    requires
        fits(s, data.len()),
        s.buffered.len() + data.len() > 0,
    ensures
        ({
            let after = write_step(s, data).0;
            let n = read_count(after, buf.len());
            &&& n == taken(after, buf.len())
            &&& read_fill(after, buf).take(n as int) == (s.buffered + data).take(n as int)
            &&& read_rest(after, buf.len()).buffered == (s.buffered + data).skip(n as int)
        }),
{
    let after = write_step(s, data).0;
    let n = taken(after, buf.len()) as int;
    assert(read_fill(after, buf).take(n) =~= (s.buffered + data).take(n));
}

/// What a read gives back of a write: on an empty stream, writing `data` and
/// then reading into a buffer of the same length returns exactly `data` and
/// leaves the stream empty again.
pub proof fn law_read_gives_back_write(s: StreamState, data: Seq<u8>, buf: Seq<u8>)
    requires
        s.buffered.len() == 0,
        0 < data.len() <= BUFFER_SIZE,
        buf.len() == data.len(),
    ensures
        write_step(s, data).1 == WriteOutcome::Written(data.len() as usize),
        read_count(write_step(s, data).0, buf.len()) == data.len(),
        read_fill(write_step(s, data).0, buf) == data,
        read_rest(write_step(s, data).0, buf.len()).buffered.len() == 0,
        read_rest(write_step(s, data).0, buf.len()).closed == s.closed,
{
    let after = write_step(s, data).0;
    assert(after.buffered =~= data);
    assert(read_fill(after, buf) =~= data);
}

/// A write is all or nothing: either every byte is appended, or the stream
/// is left exactly as it was.
pub proof fn law_write_is_all_or_nothing(s: StreamState, data: Seq<u8>)
    ensures
        write_step(s, data).1 == WriteOutcome::Written(data.len() as usize) ==> write_step(
            s,
            data,
        ).0.buffered == s.buffered + data,
        write_step(s, data).1 != WriteOutcome::Written(data.len() as usize) ==> write_step(
            s,
            data,
        ).0 == s,
{
}

/// Once closed, a stream stays closed, and only closing closes it.
pub proof fn law_closed_is_permanent(s: StreamState, data: Seq<u8>, want: nat)
    ensures
        write_step(s, data).0.closed == s.closed,
        read_rest(s, want).closed == s.closed,
        flush_step(s).closed == s.closed,
        close_step(s).closed,
{
}

/// A closed stream whose bytes were all read is at end of stream for good:
/// every read reports 0 bytes and changes nothing.
pub proof fn law_drained_closed_stream_ends(s: StreamState, buf: Seq<u8>)
    requires
        s.closed,
        s.buffered.len() == 0,
    ensures
        read_count(s, buf.len()) == 0,
        read_fill(s, buf) == buf,
        read_rest(s, buf.len()) == s,
{
    assert(s.buffered.skip(0) =~= s.buffered);
}

/// An open stream with nothing buffered hands out a full buffer of silence
/// instead of waiting, and stays as it was.
pub proof fn law_starved_stream_plays_silence(s: StreamState, buf: Seq<u8>)
    requires
        !s.closed,
        s.buffered.len() == 0,
    ensures
        read_count(s, buf.len()) == buf.len(),
        forall|i: int| 0 <= i < buf.len() ==> #[trigger] read_fill(s, buf)[i] == 0u8,
        read_rest(s, buf.len()) == s,
{
    assert(s.buffered.skip(0) =~= s.buffered);
}

/// A write that must wait fits once a read has taken out enough bytes.
pub proof fn law_reads_make_room_for_waiting_writes(s: StreamState, data: Seq<u8>, want: nat)
    requires
        valid(s),
        data.len() <= BUFFER_SIZE,
        write_step(s, data).1 == WriteOutcome::Full,
        want >= s.buffered.len() + data.len() - BUFFER_SIZE,
    ensures
        write_step(read_rest(s, want), data).1 == WriteOutcome::Written(data.len() as usize),
{
}

/// Flushing discards what was buffered: reading an open stream right after a
/// flush yields silence, never the discarded bytes.
pub proof fn law_flush_discards(s: StreamState, buf: Seq<u8>)
    requires
        !s.closed,
    ensures
        flush_step(s).buffered.len() == 0,
        read_count(flush_step(s), buf.len()) == buf.len(),
        read_fill(flush_step(s), buf) == Seq::new(buf.len(), |i: int| 0u8),
{
}

} // verus!
