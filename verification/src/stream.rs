use vstd::prelude::*;

use crate::frame::{Frame, FrameModel, FrameType};

verus! {

/// Why a stream operation did not go through.
#[derive(Clone, Copy, Debug, PartialEq, Eq, Structural)]
pub enum StreamError {
    /// A write on a stream that was closed locally.
    WriteOnClosed,
    /// A read with nothing buffered after the remote side half-closed.
    UnexpectedEof,
    /// A read with nothing buffered on a stream that was closed locally.
    BrokenPipe,
    /// A read with nothing buffered on a live stream: the caller waits for
    /// more data and tries again.
    WouldBlock,
}

/// One virtual bidirectional channel inside the tunnel connection: the
/// bytes received for it and not read yet, and its two closed flags.
pub struct Stream {
    id: u32,
    buf: Vec<u8>,
    closed: bool,
    remote_eof: bool,
}

/// A stream as mathematical values.
pub struct StreamModel {
    pub id: u32,
    /// Bytes received from the remote side and not read yet, oldest first.
    pub buf: Seq<u8>,
    /// Closed locally: writes fail.
    pub closed: bool,
    /// The remote side half-closed: no more data is coming.
    pub remote_eof: bool,
}

impl View for Stream {
    type V = StreamModel;

    closed spec fn view(&self) -> StreamModel {
        StreamModel { id: self.id, buf: self.buf@, closed: self.closed, remote_eof: self.remote_eof }
    }
}

/// A fresh stream: nothing buffered, open in both directions.
pub open spec fn new_stream_spec(id: u32) -> StreamModel {
    StreamModel { id, buf: Seq::empty(), closed: false, remote_eof: false }
}

/// A frame with no payload.
pub open spec fn control_frame(t: FrameType, id: u32) -> FrameModel {
    FrameModel { frame_type: t, stream_id: id, payload: Seq::empty() }
}

/// A write: the data frame that carries `p`, unless the stream is closed.
pub open spec fn write_spec(s: StreamModel, p: Seq<u8>) -> Result<FrameModel, StreamError> {
    if s.closed {
        Err(StreamError::WriteOnClosed)
    } else {
        Ok(FrameModel { frame_type: FrameType::FrameData, stream_id: s.id, payload: p })
    }
}

/// A read into a buffer of `cap` bytes: the next state and either the bytes
/// delivered or why none are.
pub open spec fn read_spec(s: StreamModel, cap: nat) -> (StreamModel, Result<Seq<u8>, StreamError>) {
    if s.buf.len() > 0 {
        let n = if cap < s.buf.len() { cap } else { s.buf.len() };
        (StreamModel { buf: s.buf.skip(n as int), ..s }, Ok(s.buf.take(n as int)))
    } else if s.remote_eof {
        (s, Err(StreamError::UnexpectedEof))
    } else if s.closed {
        (s, Err(StreamError::BrokenPipe))
    } else {
        (s, Err(StreamError::WouldBlock))
    }
}

/// A local close: the next state and the reset frame to send, if any.
pub open spec fn close_spec(s: StreamModel) -> (StreamModel, Option<FrameModel>) {
    if s.closed {
        (s, None)
    } else {
        (StreamModel { closed: true, ..s }, Some(control_frame(FrameType::FrameReset, s.id)))
    }
}

/// Data from the network appended to the stream.
pub open spec fn ingest_spec(s: StreamModel, data: Seq<u8>) -> StreamModel {
    StreamModel { buf: s.buf + data, ..s }
}

/// The remote side's half-close recorded.
pub open spec fn signal_eof_spec(s: StreamModel) -> StreamModel {
    StreamModel { remote_eof: true, ..s }
}

impl Stream {
    /// A stream with the given id, open and empty.
    pub fn new(id: u32) -> (s: Stream)
        ensures
            s@ == new_stream_spec(id),
    {
        Stream { id, buf: Vec::new(), closed: false, remote_eof: false }
    }

    /// The stream's identifier.
    pub fn id(&self) -> (r: u32)
        ensures
            r == self@.id,
    {
        self.id
    }

    /// Sends `p` to the remote side: gives the data frame to put on the
    /// connection, whose payload length is the count written. Fails on a
    /// stream closed locally.
    pub fn write(&self, p: Vec<u8>) -> (r: Result<Frame, StreamError>)
        ensures
            match r {
                Ok(f) => write_spec(self@, p@) == Ok::<FrameModel, StreamError>(f@),
                Err(e) => write_spec(self@, p@) == Err::<FrameModel, StreamError>(e),
            },
    {
        if self.closed {
            return Err(StreamError::WriteOnClosed);
        }
        Ok(Frame { frame_type: FrameType::FrameData, stream_id: self.id, payload: p })
    }

    /// Copies the oldest buffered bytes into the front of `p`, as many as fit,
    /// and drops them from the buffer; returns how many. With nothing
    /// buffered it fails: `UnexpectedEof` after the remote half-close, else
    /// `BrokenPipe` once closed locally, else `WouldBlock`.
    pub fn read(&mut self, p: &mut Vec<u8>) -> (r: Result<usize, StreamError>)
        ensures
            final(self)@ == read_spec(old(self)@, old(p)@.len()).0,
            match read_spec(old(self)@, old(p)@.len()).1 {
                Ok(d) => r == Ok::<usize, StreamError>(d.len() as usize) && final(p)@ == d + old(
                    p,
                )@.skip(d.len() as int),
                Err(e) => r == Err::<usize, StreamError>(e) && final(p)@ == old(p)@,
            },
    {
        if self.buf.len() == 0 {
            if self.remote_eof {
                return Err(StreamError::UnexpectedEof);
            }
            if self.closed {
                return Err(StreamError::BrokenPipe);
            }
            return Err(StreamError::WouldBlock);
        }
        let n: usize = if p.len() < self.buf.len() {
            p.len()
        } else {
            self.buf.len()
        };
        let mut i: usize = 0;
        while i < n
            invariant
                n <= old(p)@.len(),
                n <= self.buf@.len(),
                0 <= i <= n,
                self.buf@ == old(self)@.buf,
                p@.len() == old(p)@.len(),
                forall|j: int| 0 <= j < i ==> p@[j] == self.buf@[j],
                forall|j: int| i <= j < p@.len() ==> p@[j] == old(p)@[j],
            decreases n - i,
        {
            p.set(i, self.buf[i]);
            i = i + 1;
        }
        let rest: Vec<u8> = self.buf.split_off(n);
        self.buf = rest;
        assert(p@ =~= old(self)@.buf.take(n as int) + old(p)@.skip(n as int));
        assert(self.buf@ =~= old(self)@.buf.skip(n as int));
        Ok(n)
    }

    /// Sends EOF to the remote side: gives the frame that says no more data
    /// comes from this side.
    pub fn close_write(&self) -> (f: Frame)
        ensures
            f@ == control_frame(FrameType::FrameEOF, self@.id),
    {
        Frame { frame_type: FrameType::FrameEOF, stream_id: self.id, payload: Vec::new() }
    }

    /// Closes the stream locally. The first close gives the reset frame that
    /// notifies the remote side; closing again changes nothing and sends
    /// nothing.
    pub fn close(&mut self) -> (r: Option<Frame>)
        ensures
            final(self)@ == close_spec(old(self)@).0,
            match r {
                Some(f) => close_spec(old(self)@).1 == Some(f@),
                None => close_spec(old(self)@).1 is None,
            },
    {
        if self.closed {
            return None;
        }
        self.closed = true;
        Some(Frame { frame_type: FrameType::FrameReset, stream_id: self.id, payload: Vec::new() })
    }

    /// Appends data received from the network to the stream's buffer.
    pub fn ingest(&mut self, data: Vec<u8>)
        ensures
            final(self)@ == ingest_spec(old(self)@, data@),
    {
        let mut data = data;
        self.buf.append(&mut data);
    }

    /// Records that the remote side half-closed the stream.
    pub fn signal_eof(&mut self)
        ensures
            final(self)@ == signal_eof_spec(old(self)@),
    {
        self.remote_eof = true;
    }
}

/// A read delivers the oldest buffered bytes and keeps the rest in order:
/// what it delivers followed by what stays buffered is exactly what was
/// buffered, and it delivers as many bytes as fit.
pub proof fn lemma_read_keeps_order(s: StreamModel, cap: nat)
    requires
        s.buf.len() > 0,
    ensures
        read_spec(s, cap).1 is Ok,
        read_spec(s, cap).1->Ok_0 + read_spec(s, cap).0.buf == s.buf,
        read_spec(s, cap).1->Ok_0.len() == if cap < s.buf.len() { cap } else { s.buf.len() },
        read_spec(s, cap).0.id == s.id,
        read_spec(s, cap).0.closed == s.closed,
        read_spec(s, cap).0.remote_eof == s.remote_eof,
{
    let n = if cap < s.buf.len() { cap } else { s.buf.len() };
    assert(s.buf.take(n as int) + s.buf.skip(n as int) =~= s.buf);
}

/// Data ingested after what is already buffered is read after it: reading
/// an ingested stream in one go returns the old buffer followed by the new
/// data, and empties the buffer.
pub proof fn lemma_ingest_then_read(s: StreamModel, data: Seq<u8>, cap: nat)
    requires
        s.buf.len() + data.len() > 0,
        cap >= s.buf.len() + data.len(),
    ensures
        read_spec(ingest_spec(s, data), cap).1 == Ok::<Seq<u8>, StreamError>(s.buf + data),
        read_spec(ingest_spec(s, data), cap).0.buf.len() == 0,
{
    let t = ingest_spec(s, data);
    assert(t.buf.take(t.buf.len() as int) =~= s.buf + data);
}

/// The remote half-close does not drop buffered data: while bytes remain, a
/// read after it delivers what a read before it would have.
pub proof fn lemma_eof_keeps_buffer(s: StreamModel, cap: nat)
    requires
        s.buf.len() > 0,
    ensures
        read_spec(signal_eof_spec(s), cap).1 == read_spec(s, cap).1,
        read_spec(signal_eof_spec(s), cap).0 == signal_eof_spec(read_spec(s, cap).0),
{
}

/// Once the remote side half-closed and the buffer is drained, every read
/// reports the end of the stream.
pub proof fn lemma_drained_after_eof(s: StreamModel, cap: nat)
    requires
        s.remote_eof,
        s.buf.len() == 0,
    ensures
        read_spec(s, cap) == (s, Err::<Seq<u8>, StreamError>(StreamError::UnexpectedEof)),
{
}

/// Closing is idempotent: a second close leaves the stream as the first left
/// it and sends nothing; after a close every write fails.
pub proof fn lemma_close_idempotent(s: StreamModel, p: Seq<u8>)
    ensures
        close_spec(close_spec(s).0) == (close_spec(s).0, None::<FrameModel>),
        write_spec(close_spec(s).0, p) == Err::<FrameModel, StreamError>(StreamError::WriteOnClosed),
        close_spec(s).0.buf == s.buf,
{
}

/// A new stream carries its id, buffers nothing and is open both ways.
pub proof fn lemma_new_stream(id: u32)
    ensures
        new_stream_spec(id).id == id,
        new_stream_spec(id).buf.len() == 0,
        !new_stream_spec(id).closed,
        !new_stream_spec(id).remote_eof,
{
}

/// A write fails exactly when the stream was closed locally; otherwise it
/// gives a data frame for the stream's id carrying the written bytes as they
/// are, whatever the remote side did.
pub proof fn lemma_write_result(s: StreamModel, p: Seq<u8>)
    ensures
        s.closed ==> write_spec(s, p) == Err::<FrameModel, StreamError>(StreamError::WriteOnClosed),
        !s.closed ==> write_spec(s, p) == Ok::<FrameModel, StreamError>(
            FrameModel { frame_type: FrameType::FrameData, stream_id: s.id, payload: p },
        ),
{
}

/// The first close marks the stream closed, keeps its id, its buffer and
/// its remote half-close, and gives a reset frame with no payload for its
/// id, whatever the remote side did; a close of a closed stream changes
/// nothing and gives nothing.
pub proof fn lemma_close_result(s: StreamModel)
    ensures
        !s.closed ==> {
            let (t, f) = close_spec(s);
            &&& t.closed
            &&& t.id == s.id
            &&& t.buf == s.buf
            &&& t.remote_eof == s.remote_eof
            &&& f == Some(
                FrameModel {
                    frame_type: FrameType::FrameReset,
                    stream_id: s.id,
                    payload: Seq::<u8>::empty(),
                },
            )
        },
        s.closed ==> close_spec(s) == (s, None::<FrameModel>),
{
}

/// A control frame carries the given type and stream id and no payload.
pub proof fn lemma_control_frame(t: FrameType, id: u32)
    ensures
        control_frame(t, id).frame_type == t,
        control_frame(t, id).stream_id == id,
        control_frame(t, id).payload.len() == 0,
{
}

/// A read with nothing buffered changes nothing and fails: end of stream
/// after the remote half-close, else a broken pipe once closed locally,
/// else the caller waits.
pub proof fn lemma_read_empty(s: StreamModel, cap: nat)
    requires
        s.buf.len() == 0,
    ensures
        read_spec(s, cap).0 == s,
        read_spec(s, cap).1 == Err::<Seq<u8>, StreamError>(
            if s.remote_eof {
                StreamError::UnexpectedEof
            } else if s.closed {
                StreamError::BrokenPipe
            } else {
                StreamError::WouldBlock
            },
        ),
{
}

/// Ingesting appends the data after what is buffered and changes nothing
/// else; the remote half-close sets only its flag.
pub proof fn lemma_ingest_and_eof(s: StreamModel, data: Seq<u8>)
    ensures
        ingest_spec(s, data).buf == s.buf + data,
        ingest_spec(s, data).id == s.id,
        ingest_spec(s, data).closed == s.closed,
        ingest_spec(s, data).remote_eof == s.remote_eof,
        signal_eof_spec(s).remote_eof,
        signal_eof_spec(s).buf == s.buf,
        signal_eof_spec(s).id == s.id,
        signal_eof_spec(s).closed == s.closed,
{
}

} // verus!
