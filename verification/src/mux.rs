use vstd::prelude::*;

use std::collections::HashMap;
use std::collections::VecDeque;

use crate::frame::{decode_spec, decoded_view, decode_frame, Frame, FrameError, FrameModel, FrameType};
use crate::stream::{
    control_frame, ingest_spec, new_stream_spec, signal_eof_spec, Stream, StreamModel,
};

verus! {

broadcast use vstd::std_specs::hash::group_hash_axioms;

/// Why the next frame could not be read from the connection.
#[derive(Clone, Copy, Debug, PartialEq, Eq, Structural)]
pub enum ReadError {
    /// The connection failed or was closed.
    Disconnected,
    /// The bytes on the connection are not a frame.
    Malformed(FrameError),
}

/// What an accept hands out: the id of a stream opened by the remote side,
/// or the error that ended the connection.
pub type Accept = Result<u32, ReadError>;

/// Multiplexes many streams over one connection: the streams by id, the
/// inbound streams and the final error waiting to be accepted, and whether
/// the connection has ended.
pub struct Mux {
    streams: HashMap<u32, Stream>,
    pending: VecDeque<Accept>,
    closed: bool,
}

/// A mux as mathematical values.
pub struct MuxModel {
    pub streams: Map<u32, StreamModel>,
    /// What accept will hand out, oldest first.
    pub pending: Seq<Accept>,
    /// The connection ended: nothing more is queued for accept.
    pub closed: bool,
}

/// Every stream is kept under its own id.
pub open spec fn ids_match(streams: Map<u32, StreamModel>) -> bool {
    forall|k: u32| #[trigger] streams.contains_key(k) ==> streams[k].id == k
}

impl View for Mux {
    type V = MuxModel;

    closed spec fn view(&self) -> MuxModel {
        MuxModel {
            streams: self.streams@.map_values(|s: Stream| s@),
            pending: self.pending@,
            closed: self.closed,
        }
    }
}

/// What the connection loop does after one step of `serve`.
pub enum ServeAction {
    /// Send this frame to the remote side.
    Reply(Frame),
    /// Data went to the stream with this id; `opened` when the stream was
    /// new and was queued for accept.
    Delivered { stream_id: u32, opened: bool },
    /// The remote side half-closed the stream with this id.
    Eof(u32),
    /// The remote side reset this stream; it left the mux, and readers of it
    /// see the end of the stream once its buffer is drained.
    Reset(Stream),
    /// Nothing to do.
    Ignored,
    /// The connection ended: stop reading.
    Stop,
}

/// A serve action as mathematical values.
pub enum ActionModel {
    Reply(FrameModel),
    Delivered { stream_id: u32, opened: bool },
    Eof(u32),
    Reset(StreamModel),
    Ignored,
    Stop,
}

impl View for ServeAction {
    type V = ActionModel;

    open spec fn view(&self) -> ActionModel {
        match self {
            ServeAction::Reply(f) => ActionModel::Reply(f@),
            ServeAction::Delivered { stream_id, opened } => ActionModel::Delivered {
                stream_id: *stream_id,
                opened: *opened,
            },
            ServeAction::Eof(id) => ActionModel::Eof(*id),
            ServeAction::Reset(s) => ActionModel::Reset(s@),
            ServeAction::Ignored => ActionModel::Ignored,
            ServeAction::Stop => ActionModel::Stop,
        }
    }
}

/// A fresh mux: no streams, nothing to accept, connection live.
pub open spec fn new_mux_spec() -> MuxModel {
    MuxModel { streams: Map::empty(), pending: Seq::empty(), closed: false }
}

/// A new stream for `id` replaces whatever was kept under it.
pub open spec fn open_stream_spec(m: MuxModel, id: u32) -> MuxModel {
    MuxModel { streams: m.streams.insert(id, new_stream_spec(id)), ..m }
}

/// The mux with the stream under `id` taken out.
pub open spec fn without_stream(m: MuxModel, id: u32) -> MuxModel {
    MuxModel { streams: m.streams.remove(id), ..m }
}

/// The mux with `s` kept under its own id.
pub open spec fn with_stream(m: MuxModel, s: StreamModel) -> MuxModel {
    MuxModel { streams: m.streams.insert(s.id, s), ..m }
}

/// The stream for `id` is looked up, or opened and queued for accept.
pub open spec fn get_or_create_spec(m: MuxModel, id: u32) -> (MuxModel, bool) {
    if m.streams.contains_key(id) {
        (m, false)
    } else {
        (
            MuxModel {
                streams: m.streams.insert(id, new_stream_spec(id)),
                pending: m.pending.push(Ok(id)),
                ..m
            },
            true,
        )
    }
}

/// The inputs on which one serve step is defined: end-of-stream and reset
/// frames name a known stream, and a data frame opens a stream only while
/// the connection is live.
pub open spec fn serve_allowed(m: MuxModel, ev: Result<FrameModel, ReadError>) -> bool {
    match ev {
        Err(_) => true,
        Ok(f) => match f.frame_type {
            FrameType::FrameData => !m.streams.contains_key(f.stream_id) ==> !m.closed,
            FrameType::FrameEOF => m.streams.contains_key(f.stream_id),
            FrameType::FrameReset => m.streams.contains_key(f.stream_id),
            _ => true,
        },
    }
}

/// One step of the connection loop: the next state and what to do, given
/// the result of reading the next frame.
pub open spec fn serve_spec(m: MuxModel, ev: Result<FrameModel, ReadError>) -> (MuxModel, ActionModel) {
    match ev {
        Err(e) => if m.closed {
            (m, ActionModel::Stop)
        } else {
            (MuxModel { pending: m.pending.push(Err(e)), closed: true, ..m }, ActionModel::Stop)
        },
        Ok(f) => {
            let id = f.stream_id;
            match f.frame_type {
                FrameType::FramePing => (
                    m,
                    ActionModel::Reply(control_frame(FrameType::FramePong, id)),
                ),
                FrameType::FramePong => (m, ActionModel::Ignored),
                FrameType::FrameData => {
                    let (m1, opened) = get_or_create_spec(m, id);
                    (
                        MuxModel {
                            streams: m1.streams.insert(id, ingest_spec(m1.streams[id], f.payload)),
                            ..m1
                        },
                        ActionModel::Delivered { stream_id: id, opened },
                    )
                },
                FrameType::FrameEOF => (
                    MuxModel {
                        streams: m.streams.insert(id, signal_eof_spec(m.streams[id])),
                        ..m
                    },
                    ActionModel::Eof(id),
                ),
                FrameType::FrameReset => (
                    MuxModel { streams: m.streams.remove(id), ..m },
                    ActionModel::Reset(signal_eof_spec(m.streams[id])),
                ),
            }
        },
    }
}

/// What an accept hands out and the state after it; `None` when the caller
/// has to wait.
pub open spec fn accept_spec(m: MuxModel) -> (MuxModel, Option<Accept>) {
    if m.pending.len() > 0 {
        (MuxModel { pending: m.pending.drop_first(), ..m }, Some(m.pending[0]))
    } else {
        (m, None)
    }
}

/// The result of a frame read, with the frame taken by its model.
pub open spec fn event_view(ev: Result<Frame, ReadError>) -> Result<FrameModel, ReadError> {
    match ev {
        Ok(f) => Ok(f@),
        Err(e) => Err(e),
    }
}

impl Mux {
    /// The mux keeps every stream under its own id.
    pub open spec fn wf(&self) -> bool {
        ids_match(self@.streams)
    }

    /// A mux with no streams on a live connection.
    pub fn new() -> (m: Mux)
        ensures
            m@ == new_mux_spec(),
            m.wf(),
    {
        let m = Mux { streams: HashMap::new(), pending: VecDeque::new(), closed: false };
        assert(m@.streams =~= Map::<u32, StreamModel>::empty());
        m
    }

    /// Reads the frame at the start of `bytes`, with the number of bytes it
    /// takes.
    pub fn read_frame(&self, bytes: &[u8]) -> (r: Result<(Frame, usize), FrameError>)
        ensures
            decoded_view(r) == decode_spec(bytes@),
    {
        decode_frame(bytes)
    }

    /// Whether a stream is kept under `id`.
    pub fn has_stream(&self, id: u32) -> (r: bool)
        ensures
            r == self@.streams.contains_key(id),
    {
        self.streams.contains_key(&id)
    }

    /// Whether the connection ended and everything queued for accept was
    /// handed out, so that nothing can be accepted any more.
    pub fn accept_exhausted(&self) -> (r: bool)
        ensures
            r == (self@.closed && self@.pending.len() == 0),
    {
        self.closed && self.pending.len() == 0
    }

    /// Creates a new stream with the given id.
    fn open_stream(&mut self, id: u32)
        requires
            old(self).wf(),
        ensures
            final(self).wf(),
            final(self)@ == open_stream_spec(old(self)@, id),
    {
        self.streams.insert(id, Stream::new(id));
        assert(self@.streams =~= old(self)@.streams.insert(id, new_stream_spec(id)));
    }

    /// The stream for `id`, opened and queued for accept when it is new;
    /// returns whether it was new.
    fn get_or_create(&mut self, id: u32) -> (opened: bool)
        requires
            old(self).wf(),
            !old(self)@.streams.contains_key(id) ==> !old(self)@.closed,
        ensures
            final(self).wf(),
            (final(self)@, opened) == get_or_create_spec(old(self)@, id),
    {
        if self.streams.contains_key(&id) {
            return false;
        }
        self.open_stream(id);
        self.pending.push_back(Ok(id));
        true
    }

    /// Takes the stream kept under `id` out of the mux, if there is one.
    pub fn take_stream(&mut self, id: u32) -> (r: Option<Stream>)
        requires
            old(self).wf(),
        ensures
            final(self).wf(),
            match r {
                Some(s) => old(self)@.streams.contains_key(id) && s@ == old(self)@.streams[id]
                    && final(self)@ == without_stream(old(self)@, id),
                None => !old(self)@.streams.contains_key(id) && final(self)@ == old(self)@,
            },
    {
        let r = self.streams.remove(&id);
        assert(self@.streams =~= old(self)@.streams.remove(id));
        proof {
            if r is Some {
                assert(old(self).streams@.contains_key(id));
                assert(r->Some_0 == old(self).streams@[id]);
                assert(old(self)@.streams[id] == old(self).streams@[id]@);
            } else {
                assert(self@.streams =~= old(self)@.streams);
            }
        }
        r
    }

    /// Puts a stream back under its own id, replacing whatever was kept there.
    pub fn restore_stream(&mut self, s: Stream)
        requires
            old(self).wf(),
        ensures
            final(self).wf(),
            final(self)@ == with_stream(old(self)@, s@),
    {
        let ghost sv = s@;
        let id = s.id();
        self.streams.insert(id, s);
        assert(self@.streams =~= old(self)@.streams.insert(sv.id, sv));
    }

    /// One step of the connection loop, given the result of reading the next
    /// frame: a ping is answered with a pong on the same stream, data goes
    /// to its stream (opened and queued for accept when new), an EOF
    /// half-closes its stream, a reset takes its stream out, and a read
    /// error ends the connection and is queued for accept once.
    pub fn serve(&mut self, event: Result<Frame, ReadError>) -> (r: ServeAction)
        requires
            old(self).wf(),
            serve_allowed(old(self)@, event_view(event)),
        ensures
            final(self).wf(),
            (final(self)@, r@) == serve_spec(old(self)@, event_view(event)),
    {
        let fr = match event {
            Err(e) => {
                if !self.closed {
                    self.pending.push_back(Err(e));
                    self.closed = true;
                }
                return ServeAction::Stop;
            },
            Ok(fr) => fr,
        };
        let id = fr.stream_id;
        match fr.frame_type {
            FrameType::FramePing => ServeAction::Reply(
                Frame { frame_type: FrameType::FramePong, stream_id: id, payload: Vec::new() },
            ),
            FrameType::FramePong => ServeAction::Ignored,
            FrameType::FrameData => {
                let opened = self.get_or_create(id);
                let ghost mid = self@;
                let mut s = match self.take_stream(id) {
                    Some(s) => s,
                    None => {
                        assert(false);
                        return ServeAction::Ignored;
                    },
                };
                s.ingest(fr.payload);
                self.restore_stream(s);
                assert(self@.streams =~= mid.streams.insert(id, ingest_spec(mid.streams[id], fr.payload@)));
                ServeAction::Delivered { stream_id: id, opened }
            },
            FrameType::FrameEOF => {
                let ghost before = self@;
                let mut s = match self.take_stream(id) {
                    Some(s) => s,
                    None => {
                        assert(false);
                        return ServeAction::Ignored;
                    },
                };
                s.signal_eof();
                self.restore_stream(s);
                assert(self@.streams =~= before.streams.insert(id, signal_eof_spec(before.streams[id])));
                ServeAction::Eof(id)
            },
            FrameType::FrameReset => {
                let mut s = match self.take_stream(id) {
                    Some(s) => s,
                    None => {
                        assert(false);
                        return ServeAction::Ignored;
                    },
                };
                s.signal_eof();
                ServeAction::Reset(s)
            },
        }
    }

    /// The next inbound stream opened by the remote side, or the error that
    /// ended the connection, oldest first; `None` when there is nothing yet
    /// and the caller has to wait for the connection loop.
    pub fn accept(&mut self) -> (r: Option<Accept>)
        requires
            old(self).wf(),
            !(old(self)@.closed && old(self)@.pending.len() == 0),
        ensures
            final(self).wf(),
            (final(self)@, r) == accept_spec(old(self)@),
    {
        let r = self.pending.pop_front();
        proof {
            if old(self)@.pending.len() > 0 {
                assert(self@.pending =~= old(self)@.pending.drop_first());
            }
        }
        r
    }
}

/// A data frame as a model.
pub open spec fn data_frame(id: u32, payload: Seq<u8>) -> FrameModel {
    FrameModel { frame_type: FrameType::FrameData, stream_id: id, payload }
}

/// A ping is answered with a pong on the same stream id, with no payload,
/// and changes nothing; a pong changes nothing and asks for nothing.
pub proof fn lemma_ping_pong(m: MuxModel, id: u32, payload: Seq<u8>)
    ensures
        serve_spec(m, Ok(FrameModel { frame_type: FrameType::FramePing, stream_id: id, payload }))
            == (m, ActionModel::Reply(control_frame(FrameType::FramePong, id))),
        serve_spec(m, Ok(FrameModel { frame_type: FrameType::FramePong, stream_id: id, payload }))
            == (m, ActionModel::Ignored),
{
}

/// The first data frame for an unknown id opens a stream that holds its
/// payload and queues that id for accept exactly once; a second data frame
/// for the same id appends to the same stream and queues nothing.
pub proof fn lemma_data_opens_once(m: MuxModel, id: u32, p1: Seq<u8>, p2: Seq<u8>)
    requires
        !m.closed,
        !m.streams.contains_key(id),
    ensures
        ({
            let (m1, a1) = serve_spec(m, Ok(data_frame(id, p1)));
            let (m2, a2) = serve_spec(m1, Ok(data_frame(id, p2)));
            &&& a1 == ActionModel::Delivered { stream_id: id, opened: true }
            &&& a2 == ActionModel::Delivered { stream_id: id, opened: false }
            &&& m1.pending == m.pending.push(Ok(id))
            &&& m2.pending == m1.pending
            &&& m2.streams.contains_key(id)
            &&& m2.streams[id].buf == p1 + p2
            &&& m2.streams[id].id == id
            &&& !m2.streams[id].closed
            &&& !m2.streams[id].remote_eof
        }),
{
    let (m1, a1) = serve_spec(m, Ok(data_frame(id, p1)));
    assert(m1.streams[id].buf =~= p1);
}

/// Streams opened by the remote side are accepted in the order in which
/// their first data frames arrived.
pub proof fn lemma_accept_in_arrival_order(a: u32, b: u32, pa: Seq<u8>, pb: Seq<u8>)
    requires
        a != b,
    ensures
        ({
            let (m1, _) = serve_spec(new_mux_spec(), Ok(data_frame(a, pa)));
            let (m2, _) = serve_spec(m1, Ok(data_frame(b, pb)));
            let (m3, first) = accept_spec(m2);
            let (m4, second) = accept_spec(m3);
            &&& first == Some(Ok::<u32, ReadError>(a))
            &&& second == Some(Ok::<u32, ReadError>(b))
            &&& accept_spec(m4).1 is None
        }),
{
    let (m1, _) = serve_spec(new_mux_spec(), Ok(data_frame(a, pa)));
    let (m2, _) = serve_spec(m1, Ok(data_frame(b, pb)));
    assert(m2.pending =~= seq![Ok::<u32, ReadError>(a), Ok::<u32, ReadError>(b)]);
    let (m3, _) = accept_spec(m2);
    assert(m3.pending =~= seq![Ok::<u32, ReadError>(b)]);
}

/// A read error ends the connection and is queued for accept once; later
/// read errors queue nothing and leave the mux as it is.
pub proof fn lemma_failure_reported_once(m: MuxModel, e1: ReadError, e2: ReadError)
    requires
        !m.closed,
    ensures
        ({
            let (m1, a1) = serve_spec(m, Err(e1));
            let (m2, a2) = serve_spec(m1, Err(e2));
            &&& a1 == ActionModel::Stop && a2 == ActionModel::Stop
            &&& m1.closed
            &&& m1.pending == m.pending.push(Err(e1))
            &&& m1.streams == m.streams
            &&& m2 == m1
        }),
{
}

/// A reset takes its stream out of the mux and hands it back half-closed,
/// with everything it had buffered.
pub proof fn lemma_reset_detaches(m: MuxModel, id: u32, payload: Seq<u8>)
    requires
        m.streams.contains_key(id),
    ensures
        ({
            let (m1, a) = serve_spec(
                m,
                Ok(FrameModel { frame_type: FrameType::FrameReset, stream_id: id, payload }),
            );
            &&& !m1.streams.contains_key(id)
            &&& m1.pending == m.pending
            &&& a == ActionModel::Reset(signal_eof_spec(m.streams[id]))
            &&& signal_eof_spec(m.streams[id]).buf == m.streams[id].buf
            &&& signal_eof_spec(m.streams[id]).remote_eof
        }),
{
}

/// Every serve step keeps each stream under its own id.
pub proof fn lemma_serve_keeps_ids(m: MuxModel, ev: Result<FrameModel, ReadError>)
    requires
        ids_match(m.streams),
        serve_allowed(m, ev),
    ensures
        ids_match(serve_spec(m, ev).0.streams),
{
    let m1 = serve_spec(m, ev).0;
    assert forall|k: u32| #[trigger] m1.streams.contains_key(k) implies m1.streams[k].id == k by {
        if m.streams.contains_key(k) {
        }
    }
}

/// `b` keeps every stream of `a` except the one under `i` as it was, and
/// holds no other stream except possibly one under `i`.
pub open spec fn same_except(a: Map<u32, StreamModel>, b: Map<u32, StreamModel>, i: u32) -> bool {
    forall|k: u32|
        k != i ==> (#[trigger] b.contains_key(k) <==> a.contains_key(k)) && (a.contains_key(k)
            ==> b[k] == a[k])
}

/// A new mux holds no stream, has nothing to accept and is live.
pub proof fn lemma_new_mux()
    ensures
        new_mux_spec().streams.dom().len() == 0,
        forall|k: u32| !(#[trigger] new_mux_spec().streams.contains_key(k)),
        new_mux_spec().pending.len() == 0,
        !new_mux_spec().closed,
{
    assert(new_mux_spec().streams.dom() =~= Set::<u32>::empty());
}

/// A data frame for stream `i` appends its payload to the bytes that stream
/// buffered (none when it is new), leaves the stream's flags as they were
/// (open both ways when new), leaves every other stream as it was, queues
/// `i` for accept exactly when the stream is new, and reports that.
pub proof fn lemma_data_frame(m: MuxModel, i: u32, p: Seq<u8>)
    requires
        ids_match(m.streams),
        serve_allowed(m, Ok(data_frame(i, p))),
    ensures
        ({
            let (m1, a) = serve_spec(m, Ok(data_frame(i, p)));
            let known = m.streams.contains_key(i);
            &&& a == ActionModel::Delivered { stream_id: i, opened: !known }
            &&& m1.streams.contains_key(i)
            &&& m1.streams[i].id == i
            &&& known ==> m1.streams[i].buf == m.streams[i].buf + p
            &&& known ==> m1.streams[i].closed == m.streams[i].closed
            &&& known ==> m1.streams[i].remote_eof == m.streams[i].remote_eof
            &&& !known ==> m1.streams[i].buf == p
            &&& !known ==> !m1.streams[i].closed && !m1.streams[i].remote_eof
            &&& same_except(m.streams, m1.streams, i)
            &&& m1.pending == if known { m.pending } else { m.pending.push(Ok(i)) }
            &&& m1.closed == m.closed
        }),
{
    let (m1, a) = serve_spec(m, Ok(data_frame(i, p)));
    if !m.streams.contains_key(i) {
        assert(m1.streams[i].buf =~= p);
    }
}

/// An end-of-stream frame for a known stream sets that stream's remote
/// half-close and changes nothing else in it or in the mux.
pub proof fn lemma_eof_frame(m: MuxModel, i: u32, p: Seq<u8>)
    requires
        m.streams.contains_key(i),
    ensures
        ({
            let (m1, a) = serve_spec(
                m,
                Ok(FrameModel { frame_type: FrameType::FrameEOF, stream_id: i, payload: p }),
            );
            &&& a == ActionModel::Eof(i)
            &&& m1.streams.contains_key(i)
            &&& m1.streams[i].remote_eof
            &&& m1.streams[i].buf == m.streams[i].buf
            &&& m1.streams[i].id == m.streams[i].id
            &&& m1.streams[i].closed == m.streams[i].closed
            &&& same_except(m.streams, m1.streams, i)
            &&& m1.pending == m.pending
            &&& m1.closed == m.closed
        }),
{
}

/// A reset for a known stream removes only that stream and hands it back
/// with its id, buffer and local close as they were and the remote
/// half-close set.
pub proof fn lemma_reset_frame(m: MuxModel, i: u32, p: Seq<u8>)
    requires
        m.streams.contains_key(i),
    ensures
        ({
            let (m1, a) = serve_spec(
                m,
                Ok(FrameModel { frame_type: FrameType::FrameReset, stream_id: i, payload: p }),
            );
            &&& !m1.streams.contains_key(i)
            &&& same_except(m.streams, m1.streams, i)
            &&& a is Reset
            &&& a->Reset_0.id == m.streams[i].id
            &&& a->Reset_0.buf == m.streams[i].buf
            &&& a->Reset_0.closed == m.streams[i].closed
            &&& a->Reset_0.remote_eof
            &&& m1.pending == m.pending
            &&& m1.closed == m.closed
        }),
{
}

/// A ping is answered with a pong frame for the same stream id with no
/// payload, whatever the ping carried, and changes nothing.
pub proof fn lemma_ping_reply(m: MuxModel, i: u32, p: Seq<u8>)
    ensures
        serve_spec(m, Ok(FrameModel { frame_type: FrameType::FramePing, stream_id: i, payload: p }))
            == (
            m,
            ActionModel::Reply(
                FrameModel {
                    frame_type: FrameType::FramePong,
                    stream_id: i,
                    payload: Seq::<u8>::empty(),
                },
            ),
        ),
{
}

/// A read error on a live connection queues that error for accept after
/// everything queued before, ends the connection and leaves the streams as
/// they were.
pub proof fn lemma_error_event(m: MuxModel, e: ReadError)
    requires
        !m.closed,
    ensures
        serve_spec(m, Err(e)).0.pending == m.pending.push(Err(e)),
        serve_spec(m, Err(e)).0.closed,
        serve_spec(m, Err(e)).0.streams == m.streams,
        serve_spec(m, Err(e)).1 == ActionModel::Stop,
{
}

/// Accept hands out the oldest queued entry and drops exactly it, leaving
/// the streams and the connection state alone; with nothing queued it hands
/// out nothing and changes nothing.
pub proof fn lemma_accept_result(m: MuxModel)
    ensures
        m.pending.len() > 0 ==> {
            let (m1, r) = accept_spec(m);
            &&& r == Some(m.pending[0])
            &&& seq![m.pending[0]] + m1.pending == m.pending
            &&& m1.streams == m.streams
            &&& m1.closed == m.closed
        },
        m.pending.len() == 0 ==> accept_spec(m) == (m, None::<Accept>),
{
    if m.pending.len() > 0 {
        assert(seq![m.pending[0]] + m.pending.drop_first() =~= m.pending);
    }
}

/// Opening a stream puts a fresh stream under its id and leaves every other
/// stream and the accept queue alone; looking a stream up or creating it
/// changes nothing for a known id, and for a new id opens it and queues it
/// for accept.
pub proof fn lemma_open_and_get_or_create(m: MuxModel, i: u32)
    ensures
        open_stream_spec(m, i).streams.contains_key(i),
        open_stream_spec(m, i).streams[i] == new_stream_spec(i),
        same_except(m.streams, open_stream_spec(m, i).streams, i),
        open_stream_spec(m, i).pending == m.pending,
        open_stream_spec(m, i).closed == m.closed,
        m.streams.contains_key(i) ==> get_or_create_spec(m, i) == (m, false),
        !m.streams.contains_key(i) ==> {
            let (m1, opened) = get_or_create_spec(m, i);
            &&& opened
            &&& m1.streams.contains_key(i)
            &&& m1.streams[i] == new_stream_spec(i)
            &&& same_except(m.streams, m1.streams, i)
            &&& m1.pending == m.pending.push(Ok(i))
            &&& m1.closed == m.closed
        },
{
}

/// Taking a stream out removes only that stream; putting one back stores it
/// under its own id and leaves every other stream alone.
pub proof fn lemma_take_and_restore(m: MuxModel, i: u32, s: StreamModel)
    ensures
        !without_stream(m, i).streams.contains_key(i),
        same_except(m.streams, without_stream(m, i).streams, i),
        without_stream(m, i).pending == m.pending,
        without_stream(m, i).closed == m.closed,
        with_stream(m, s).streams.contains_key(s.id),
        with_stream(m, s).streams[s.id] == s,
        same_except(m.streams, with_stream(m, s).streams, s.id),
        with_stream(m, s).pending == m.pending,
        with_stream(m, s).closed == m.closed,
{
}

} // verus!
