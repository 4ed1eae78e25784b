use vstd::prelude::*;

verus! {

/// The purpose of a frame, carried in the first byte of its header.
#[derive(Clone, Copy, Debug, PartialEq, Eq, Structural)]
pub enum FrameType {
    /// Raw request or response bytes for a stream.
    FrameData,
    /// The sender's write side of a stream is done (half-close).
    FrameEOF,
    /// The stream is terminated abruptly.
    FrameReset,
    /// Keepalive sent by the server; answered with `FramePong`.
    FramePing,
    /// Reply to a ping.
    FramePong,
}

/// The byte that encodes a frame type on the wire.
pub open spec fn type_code(t: FrameType) -> u8 {
    match t {
        FrameType::FrameData => 0,
        FrameType::FrameEOF => 1,
        FrameType::FrameReset => 2,
        FrameType::FramePing => 3,
        FrameType::FramePong => 4,
    }
}

/// The frame type that a byte encodes, if any.
pub open spec fn type_of_code(v: u8) -> Option<FrameType> {
    if v == 0 {
        Some(FrameType::FrameData)
    } else if v == 1 {
        Some(FrameType::FrameEOF)
    } else if v == 2 {
        Some(FrameType::FrameReset)
    } else if v == 3 {
        Some(FrameType::FramePing)
    } else if v == 4 {
        Some(FrameType::FramePong)
    } else {
        None
    }
}

impl FrameType {
    /// The wire byte of this frame type.
    pub fn to_u8(self) -> (b: u8)
        ensures
            b == type_code(self),
    {
        match self {
            FrameType::FrameData => 0,
            FrameType::FrameEOF => 1,
            FrameType::FrameReset => 2,
            FrameType::FramePing => 3,
            FrameType::FramePong => 4,
        }
    }

    /// The frame type encoded by `v`; an error for any byte above 4.
    pub fn try_from(v: u8) -> (r: Result<FrameType, ()>)
        ensures
            match type_of_code(v) {
                Some(t) => r == Ok::<FrameType, ()>(t),
                None => r == Err::<FrameType, ()>(()),
            },
            r is Ok <==> v <= 4,
    {
        match v {
            0 => Ok(FrameType::FrameData),
            1 => Ok(FrameType::FrameEOF),
            2 => Ok(FrameType::FrameReset),
            3 => Ok(FrameType::FramePing),
            4 => Ok(FrameType::FramePong),
            _ => Err(()),
        }
    }
}

/// Decoding a frame type from its wire byte gives back the same type.
pub proof fn lemma_type_code_roundtrip(t: FrameType)
    ensures
        type_of_code(type_code(t)) == Some(t),
{
}

/// Length of a frame header: one type byte, a big-endian stream id and a
/// big-endian payload length.
pub const HEADER_SIZE: usize = 9;

/// The four big-endian bytes of `x`.
pub open spec fn be32(x: u32) -> Seq<u8> {
    seq![(x >> 24u32) as u8, (x >> 16u32) as u8, (x >> 8u32) as u8, x as u8]
}

/// The number whose big-endian bytes are `b0 b1 b2 b3`.
pub open spec fn from_be32(b0: u8, b1: u8, b2: u8, b3: u8) -> u32 {
    ((b0 as u32) << 24u32) | ((b1 as u32) << 16u32) | ((b2 as u32) << 8u32) | (b3 as u32)
}

/// Reading back the big-endian bytes of a number gives the number.
pub proof fn lemma_be32_roundtrip(x: u32)
    ensures
        from_be32(be32(x)[0], be32(x)[1], be32(x)[2], be32(x)[3]) == x,
{
    assert((((((x >> 24u32) as u8) as u32) << 24u32) | ((((x >> 16u32) as u8) as u32) << 16u32)
        | ((((x >> 8u32) as u8) as u32) << 8u32) | ((x as u8) as u32)) == x) by (bit_vector);
}

/// A single multiplexed message.
#[derive(Debug, PartialEq, Eq)]
pub struct Frame {
    pub frame_type: FrameType,
    pub stream_id: u32,
    pub payload: Vec<u8>,
}

/// What a frame holds, as mathematical values.
pub struct FrameModel {
    pub frame_type: FrameType,
    pub stream_id: u32,
    pub payload: Seq<u8>,
}

impl View for Frame {
    type V = FrameModel;

    open spec fn view(&self) -> FrameModel {
        FrameModel { frame_type: self.frame_type, stream_id: self.stream_id, payload: self.payload@ }
    }
}

/// Why bytes could not be turned into a frame, or a frame into bytes.
#[derive(Clone, Copy, Debug, PartialEq, Eq, Structural)]
pub enum FrameError {
    /// The first byte names no frame type.
    InvalidFrameType(u8),
    /// The bytes end before the header or the payload is complete.
    Incomplete,
    /// The payload is longer than a 32-bit length field can describe.
    PayloadTooLarge,
}

/// A frame can be put on the wire: its payload length fits the length field.
pub open spec fn encodable(f: FrameModel) -> bool {
    f.payload.len() <= u32::MAX
}

/// The wire form of a frame: type byte, stream id and payload length, both
/// big-endian, then the payload.
pub open spec fn frame_bytes(f: FrameModel) -> Seq<u8> {
    seq![type_code(f.frame_type)] + be32(f.stream_id) + be32(f.payload.len() as u32) + f.payload
}

/// The header fields that the first nine bytes of `s` describe.
pub open spec fn header_spec(s: Seq<u8>) -> Result<(FrameType, u32, u32), FrameError> {
    if s.len() == 0 {
        Err(FrameError::Incomplete)
    } else {
        match type_of_code(s[0]) {
            None => Err(FrameError::InvalidFrameType(s[0])),
            Some(t) => if s.len() < 9 {
                Err(FrameError::Incomplete)
            } else {
                Ok((t, from_be32(s[1], s[2], s[3], s[4]), from_be32(s[5], s[6], s[7], s[8])))
            },
        }
    }
}

/// The frame at the start of `s` and the number of bytes it takes.
pub open spec fn decode_spec(s: Seq<u8>) -> Result<(FrameModel, nat), FrameError> {
    match header_spec(s) {
        Err(e) => Err(e),
        Ok((t, id, len)) => if s.len() < 9 + len {
            Err(FrameError::Incomplete)
        } else {
            Ok(
                (
                    FrameModel { frame_type: t, stream_id: id, payload: s.subrange(9, 9 + len) },
                    (9 + len) as nat,
                ),
            )
        },
    }
}

/// The result of decoding, with the frame taken by its model.
pub open spec fn decoded_view(r: Result<(Frame, usize), FrameError>) -> Result<(FrameModel, nat), FrameError> {
    match r {
        Ok((f, n)) => Ok((f@, n as nat)),
        Err(e) => Err(e),
    }
}

fn push_be32(out: &mut Vec<u8>, x: u32)
    ensures
        final(out)@ == old(out)@ + be32(x),
{
    out.push((x >> 24u32) as u8);
    out.push((x >> 16u32) as u8);
    out.push((x >> 8u32) as u8);
    out.push(x as u8);
    assert(final(out)@ =~= old(out)@ + be32(x));
}

/// Serialises a frame. Fails exactly when the payload is too long for the
/// 32-bit length field.
pub fn encode_frame(frame: &Frame) -> (r: Result<Vec<u8>, FrameError>)
    ensures
        match r {
            Ok(bytes) => encodable(frame@) && bytes@ == frame_bytes(frame@),
            Err(e) => !encodable(frame@) && e == FrameError::PayloadTooLarge,
        },
{
    let n: usize = frame.payload.len();
    if n as u64 > 0xFFFF_FFFFu64 {
        return Err(FrameError::PayloadTooLarge);
    }
    let len: u32 = n as u32;
    let mut out: Vec<u8> = Vec::new();
    out.push(frame.frame_type.to_u8());
    push_be32(&mut out, frame.stream_id);
    push_be32(&mut out, len);
    let ghost head: Seq<u8> = out@;
    let mut i: usize = 0;
    while i < n
        invariant
            n == frame.payload@.len(),
            0 <= i <= n,
            out@ == head + frame.payload@.subrange(0, i as int),
        decreases n - i,
    {
        out.push(frame.payload[i]);
        i = i + 1;
        assert(out@ =~= head + frame.payload@.subrange(0, i as int));
    }
    assert(frame.payload@.subrange(0, n as int) =~= frame.payload@);
    assert(out@ =~= frame_bytes(frame@));
    Ok(out)
}

/// Reads the header at the start of `bytes`: the frame type, the stream id
/// and the payload length.
pub fn decode_header(bytes: &[u8]) -> (r: Result<(FrameType, u32, u32), FrameError>)
    ensures
        r == header_spec(bytes@),
{
    if bytes.len() == 0 {
        return Err(FrameError::Incomplete);
    }
    let t = match FrameType::try_from(bytes[0]) {
        Ok(t) => t,
        Err(()) => return Err(FrameError::InvalidFrameType(bytes[0])),
    };
    if bytes.len() < HEADER_SIZE {
        return Err(FrameError::Incomplete);
    }
    let id: u32 = ((bytes[1] as u32) << 24u32) | ((bytes[2] as u32) << 16u32)
        | ((bytes[3] as u32) << 8u32) | (bytes[4] as u32);
    let len: u32 = ((bytes[5] as u32) << 24u32) | ((bytes[6] as u32) << 16u32)
        | ((bytes[7] as u32) << 8u32) | (bytes[8] as u32);
    Ok((t, id, len))
}

/// Reads the frame at the start of `bytes`, returning it with the number of
/// bytes it takes. Fails on an unknown type byte, and when the bytes end
/// before the frame does.
pub fn decode_frame(bytes: &[u8]) -> (r: Result<(Frame, usize), FrameError>)
    ensures
        decoded_view(r) == decode_spec(bytes@),
{
    let (t, id, len) = match decode_header(bytes) {
        Ok(h) => h,
        Err(e) => return Err(e),
    };
    let avail: usize = bytes.len() - HEADER_SIZE;
    if (avail as u64) < (len as u64) {
        return Err(FrameError::Incomplete);
    }
    let end: usize = HEADER_SIZE + len as usize;
    let mut payload: Vec<u8> = Vec::new();
    let mut i: usize = HEADER_SIZE;
    while i < end
        invariant
            end == 9 + len,
            end <= bytes@.len(),
            9 <= i <= end,
            payload@ == bytes@.subrange(9, i as int),
        decreases end - i,
    {
        payload.push(bytes[i]);
        i = i + 1;
        assert(payload@ =~= bytes@.subrange(9, i as int));
    }
    Ok((Frame { frame_type: t, stream_id: id, payload }, end))
}

/// Decoding the wire form of an encodable frame, followed by any further
/// bytes, gives back that frame and the exact length of its wire form.
pub proof fn lemma_decode_encode(f: FrameModel, rest: Seq<u8>)
    requires
        encodable(f),
    ensures
        frame_bytes(f).len() == 9 + f.payload.len(),
        decode_spec(frame_bytes(f) + rest) == Ok::<(FrameModel, nat), FrameError>(
            (f, frame_bytes(f).len()),
        ),
{
    let s = frame_bytes(f) + rest;
    let len = f.payload.len() as u32;
    lemma_type_code_roundtrip(f.frame_type);
    lemma_be32_roundtrip(f.stream_id);
    lemma_be32_roundtrip(len);
    assert(s[0] == type_code(f.frame_type));
    assert(s[1] == be32(f.stream_id)[0] && s[2] == be32(f.stream_id)[1] && s[3] == be32(
        f.stream_id,
    )[2] && s[4] == be32(f.stream_id)[3]);
    assert(s[5] == be32(len)[0] && s[6] == be32(len)[1] && s[7] == be32(len)[2] && s[8] == be32(
        len,
    )[3]);
    assert(s.subrange(9, 9 + len) =~= f.payload);
}

/// Every proper prefix of the wire form of a frame is incomplete: a reader
/// never mistakes a partial frame for a whole one.
pub proof fn lemma_decode_prefix_incomplete(f: FrameModel, k: int)
    requires
        encodable(f),
        0 <= k < frame_bytes(f).len(),
    ensures
        decode_spec(frame_bytes(f).subrange(0, k)) == Err::<(FrameModel, nat), FrameError>(
            FrameError::Incomplete,
        ),
{
    let full = frame_bytes(f);
    let s = full.subrange(0, k);
    let len = f.payload.len() as u32;
    lemma_type_code_roundtrip(f.frame_type);
    lemma_be32_roundtrip(len);
    if k >= 9 {
        assert(s[5] == be32(len)[0] && s[6] == be32(len)[1] && s[7] == be32(len)[2] && s[8]
            == be32(len)[3]);
    }
}

/// The wire codes of the frame types: data 0, EOF 1, reset 2, ping 3,
/// pong 4; exactly the bytes below 5 name a type, and each names the type
/// whose code it is.
pub proof fn lemma_type_codes()
    ensures
        type_code(FrameType::FrameData) == 0,
        type_code(FrameType::FrameEOF) == 1,
        type_code(FrameType::FrameReset) == 2,
        type_code(FrameType::FramePing) == 3,
        type_code(FrameType::FramePong) == 4,
        forall|v: u8| (#[trigger] type_of_code(v) is Some) <==> v < 5,
        forall|v: u8| #[trigger] type_of_code(v) is Some ==> type_code(type_of_code(v)->Some_0) == v,
        forall|t: FrameType| #[trigger] type_of_code(type_code(t)) == Some(t),
{
}

/// The number that four bytes at `i` spell in big-endian order.
pub open spec fn be_int(s: Seq<u8>, i: int) -> int {
    s[i] as int * 16777216 + s[i + 1] as int * 65536 + s[i + 2] as int * 256 + s[i + 3] as int
}

/// `be32` spells its argument in four big-endian bytes, and `from_be32`
/// reads four big-endian bytes back as a number.
pub proof fn lemma_be32_value(x: u32, b0: u8, b1: u8, b2: u8, b3: u8)
    ensures
        be32(x).len() == 4,
        be_int(be32(x), 0) == x as int,
        from_be32(b0, b1, b2, b3) as int == be_int(seq![b0, b1, b2, b3], 0),
{
    let c0 = (x >> 24u32) as u8;
    let c1 = (x >> 16u32) as u8;
    let c2 = (x >> 8u32) as u8;
    let c3 = x as u8;
    assert(c0 as int * 16777216 + c1 as int * 65536 + c2 as int * 256 + c3 as int == x as int)
        by (bit_vector)
        requires
            c0 == (x >> 24u32) as u8,
            c1 == (x >> 16u32) as u8,
            c2 == (x >> 8u32) as u8,
            c3 == x as u8,
    ;
    assert(((((b0 as u32) << 24u32) | ((b1 as u32) << 16u32) | ((b2 as u32) << 8u32) | (b3 as u32)) as int)
        == b0 as int * 16777216 + b1 as int * 65536 + b2 as int * 256 + b3 as int) by (bit_vector);
}

/// A frame can be encoded exactly when its payload is shorter than 2^32
/// bytes.
pub proof fn lemma_encodable_bound(f: FrameModel)
    ensures
        encodable(f) <==> f.payload.len() < 0x1_0000_0000,
{
}

/// The wire form of a frame: its type's code, then the stream id and the
/// payload length in big-endian order, then the payload itself, byte for
/// byte.
pub proof fn lemma_frame_bytes_layout(f: FrameModel)
    requires
        encodable(f),
    ensures
        frame_bytes(f).len() == 9 + f.payload.len(),
        frame_bytes(f)[0] == type_code(f.frame_type),
        be_int(frame_bytes(f), 1) == f.stream_id as int,
        be_int(frame_bytes(f), 5) == f.payload.len() as int,
        frame_bytes(f).subrange(9, frame_bytes(f).len() as int) == f.payload,
{
    let b = frame_bytes(f);
    lemma_be32_value(f.stream_id, 0, 0, 0, 0);
    lemma_be32_value(f.payload.len() as u32, 0, 0, 0, 0);
    let id = be32(f.stream_id);
    let ln = be32(f.payload.len() as u32);
    assert(b[1] == id[0] && b[2] == id[1] && b[3] == id[2] && b[4] == id[3]);
    assert(b[5] == ln[0] && b[6] == ln[1] && b[7] == ln[2] && b[8] == ln[3]);
    assert(b.subrange(9, b.len() as int) =~= f.payload);
}

/// What reading a header gives, in terms of the bytes: the type whose code
/// is the first byte, and the big-endian numbers in bytes 1-4 and 5-8; an
/// unknown type byte is reported as it is, and fewer than nine bytes with a
/// known type byte are incomplete.
pub proof fn lemma_header_fields(s: Seq<u8>)
    ensures
        match header_spec(s) {
            Ok((t, id, len)) => {
                &&& s.len() >= 9
                &&& type_code(t) == s[0]
                &&& id as int == be_int(s, 1)
                &&& len as int == be_int(s, 5)
            },
            Err(FrameError::InvalidFrameType(b)) => s.len() > 0 && b == s[0] && s[0] >= 5,
            Err(FrameError::Incomplete) => s.len() == 0 || (s[0] < 5 && s.len() < 9),
            Err(FrameError::PayloadTooLarge) => false,
        },
{
    lemma_type_codes();
    if s.len() >= 9 {
        lemma_be32_value(0, s[1], s[2], s[3], s[4]);
        lemma_be32_value(0, s[5], s[6], s[7], s[8]);
        assert(be_int(seq![s[1], s[2], s[3], s[4]], 0) == be_int(s, 1));
        assert(be_int(seq![s[5], s[6], s[7], s[8]], 0) == be_int(s, 5));
    }
}

/// What decoding gives, in terms of the bytes: a frame whose type has the
/// first byte as its code, whose id and payload length are the big-endian
/// numbers in bytes 1-4 and 5-8, and whose payload is the bytes right after
/// the header, in order; an unknown type byte is reported as it is; and
/// bytes that end before the header or the payload do are incomplete.
pub proof fn lemma_decode_fields(s: Seq<u8>)
    ensures
        match decode_spec(s) {
            Ok((f, n)) => {
                &&& s.len() >= 9
                &&& s[0] < 5
                &&& type_code(f.frame_type) == s[0]
                &&& f.stream_id as int == be_int(s, 1)
                &&& n == 9 + be_int(s, 5)
                &&& n <= s.len()
                &&& f.payload == s.subrange(9, n as int)
            },
            Err(FrameError::InvalidFrameType(b)) => s.len() > 0 && b == s[0] && s[0] >= 5,
            Err(FrameError::Incomplete) => s.len() == 0 || (s[0] < 5 && (s.len() < 9 || s.len()
                < 9 + be_int(s, 5))),
            Err(FrameError::PayloadTooLarge) => false,
        },
{
    lemma_type_codes();
    if s.len() >= 9 {
        lemma_be32_value(0, s[1], s[2], s[3], s[4]);
        lemma_be32_value(0, s[5], s[6], s[7], s[8]);
        assert(be_int(seq![s[1], s[2], s[3], s[4]], 0) == be_int(s, 1));
        assert(be_int(seq![s[5], s[6], s[7], s[8]], 0) == be_int(s, 5));
    }
}

} // verus!
