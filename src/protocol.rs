//! The wire protocol: connection classification, the length-prefixed frames
//! of event sources, the observer's setup request and the framing of the
//! batches sent to observers.
use vstd::prelude::*;
use crate::joules::RaplMeasurementJoules;

verus! {

/// Marks the end of the repository reference that an observer sends.
pub const REPO_DELIMITER: u8 = 0x23;

/// The longest setup request read before giving up on its delimiter.
pub const MAX_REPO_SIZE: usize = 1024;

/// A serialized batch above this many bytes is written in blocking mode.
pub const BLOCKING_WRITE_THRESHOLD: usize = 1000;

/// Whether a probe marks the start or the end of a measured piece of work.
#[derive(Clone, Copy, Debug, PartialEq, Eq, Structural)]
pub enum ProcessUnderTestPacketOperation {
    Start,
    Stop,
}

/// A start or stop event reported by an instrumented process.
#[derive(Clone, Debug)]
pub struct ProcessUnderTestPacket {
    pub id: String,
    pub process_id: u32,
    pub thread_id: usize,
    pub operation: ProcessUnderTestPacketOperation,
    pub timestamp: u128,
}

/// An event paired with the energy snapshot that covered its timestamp.
#[derive(Clone, Debug)]
pub struct ClientPacket {
    pub process_under_test_packet: ProcessUnderTestPacket,
    pub rapl_measurement: RaplMeasurementJoules,
    pub pkg_overflow: u32,
}

/// The kind of a connection, chosen by its first byte.
#[derive(Clone, Copy, Debug, PartialEq, Eq, Structural)]
pub enum ConnectionType {
    /// An instrumented process that sends events and never receives.
    ProcessUnderTest,
    /// An observer that receives the correlated batches.
    Client,
}

impl ConnectionType {
    /// The byte that announces this kind of connection.
    pub fn tag(&self) -> (r: u8)
        ensures
            r == (match self {
                ConnectionType::ProcessUnderTest => 0u8,
                ConnectionType::Client => 1u8,
            }),
    {
        match self {
            ConnectionType::ProcessUnderTest => 0,
            ConnectionType::Client => 1,
        }
    }

    /// The kind announced by a connection's first byte: 0 is an event
    /// source, anything else an observer.
    pub fn from_tag(tag: u8) -> (r: ConnectionType)
        ensures
            r == (if tag == 0 {
                ConnectionType::ProcessUnderTest
            } else {
                ConnectionType::Client
            }),
    {
        if tag == 0 {
            ConnectionType::ProcessUnderTest
        } else {
            ConnectionType::Client
        }
    }
}

/// Failure to frame a payload.
#[derive(Clone, Copy, Debug, PartialEq, Eq, Structural)]
pub enum FrameError {
    /// The payload is longer than its length prefix can state.
    PayloadTooLong,
}

/// The complete frames at the front of `data`: each is one length byte `L`
/// followed by `L` payload bytes. A trailing partial frame is left out.
pub open spec fn frames_spec(data: Seq<u8>) -> Seq<Seq<u8>>
    decreases data.len(),
{
    if data.len() == 0 || data.len() < 1 + data[0] {
        seq![]
    } else {
        seq![data.subrange(1, 1 + data[0])] + frames_spec(
            data.subrange(1 + data[0], data.len() as int),
        )
    }
}

/// The number of bytes that the complete frames at the front of `data` take.
pub open spec fn consumed_spec(data: Seq<u8>) -> nat
    decreases data.len(),
{
    if data.len() == 0 || data.len() < 1 + data[0] {
        0
    } else {
        (1 + data[0] + consumed_spec(data.subrange(1 + data[0], data.len() as int))) as nat
    }
}

/// The payloads of a sequence of byte vectors.
pub open spec fn payloads(v: Seq<Vec<u8>>) -> Seq<Seq<u8>> {
    v.map_values(|b: Vec<u8>| b@)
}

/// The bytes `data[start..end]`.
fn copy_range(data: &Vec<u8>, start: usize, end: usize) -> (r: Vec<u8>)
    requires
        start <= end <= data.len(),
    ensures
        r@ == data@.subrange(start as int, end as int),
{
    let mut r: Vec<u8> = Vec::new();
    let mut i: usize = start;
    while i < end
        invariant
            start <= i <= end <= data.len(),
            r@ == data@.subrange(start as int, i as int),
        decreases end - i,
    {
        r.push(data[i]);
        i = i + 1;
        assert(r@ =~= data@.subrange(start as int, i as int));
    }
    r
}

/// Splits the bytes received from an event source into its complete frames'
/// payloads. Also returns how many bytes those frames took; the rest is the
/// start of a frame still arriving.
pub fn split_frames(data: &Vec<u8>) -> (r: (Vec<Vec<u8>>, usize))
    ensures
        payloads(r.0@) == frames_spec(data@),
        r.1 == consumed_spec(data@),
{
    let mut out: Vec<Vec<u8>> = Vec::new();
    let mut pos: usize = 0;
    assert(data@.subrange(0, data.len() as int) =~= data@);
    while pos < data.len()
        invariant_except_break
            pos <= data.len(),
            frames_spec(data@) == payloads(out@) + frames_spec(
                data@.subrange(pos as int, data.len() as int),
            ),
            consumed_spec(data@) == pos + consumed_spec(
                data@.subrange(pos as int, data.len() as int),
            ),
        ensures
            payloads(out@) == frames_spec(data@),
            pos == consumed_spec(data@),
        decreases data.len() - pos,
    {
        let ghost rest = data@.subrange(pos as int, data.len() as int);
        let len = data[pos] as usize;
        if data.len() - pos < 1 + len {
            assert(payloads(out@) + seq![] =~= payloads(out@));
            break;
        }
        let frame = copy_range(data, pos + 1, pos + 1 + len);
        proof {
            assert(rest[0] == len);
            assert(rest.subrange(1, 1 + rest[0]) =~= frame@);
            assert(rest.subrange(1 + rest[0], rest.len() as int) =~= data@.subrange(
                (pos + 1 + len) as int,
                data.len() as int,
            ));
            assert(payloads(out@.push(frame)) =~= payloads(out@).push(frame@));
        }
        out.push(frame);
        pos = pos + 1 + len;
        proof {
            assert(payloads(out@) + frames_spec(data@.subrange(pos as int, data.len() as int))
                =~= payloads(out@.drop_last()) + frames_spec(rest));
        }
    }
    proof {
        if pos == data.len() {
            assert(data@.subrange(pos as int, data.len() as int).len() == 0);
            assert(payloads(out@) + seq![] =~= payloads(out@));
        }
    }
    (out, pos)
}

/// One frame: the payload's length in one byte, then the payload.
pub open spec fn frame_spec(payload: Seq<u8>) -> Seq<u8> {
    seq![payload.len() as u8] + payload
}

/// Frames one serialized event for the wire. Fails when the payload is
/// longer than 255 bytes.
pub fn encode_frame(payload: &Vec<u8>) -> (r: Result<Vec<u8>, FrameError>)
    ensures
        payload.len() <= 255 <==> r.is_ok(),
        r matches Ok(bytes) ==> bytes@ == frame_spec(payload@),
{
    if payload.len() > 255 {
        return Err(FrameError::PayloadTooLong);
    }
    let mut out: Vec<u8> = Vec::new();
    out.push(payload.len() as u8);
    let mut i: usize = 0;
    while i < payload.len()
        invariant
            i <= payload.len() <= 255,
            out@ == seq![payload.len() as u8] + payload@.subrange(0, i as int),
        decreases payload.len() - i,
    {
        out.push(payload[i]);
        i = i + 1;
        assert(out@ =~= seq![payload.len() as u8] + payload@.subrange(0, i as int));
    }
    assert(payload@.subrange(0, i as int) =~= payload@);
    Ok(out)
}

/// A framed payload splits back into exactly that payload.
pub proof fn lemma_frame_round_trip(payload: Seq<u8>)
    requires
        payload.len() <= 255,
    ensures
        frames_spec(frame_spec(payload)) == seq![payload],
        consumed_spec(frame_spec(payload)) == payload.len() + 1,
{
    let f = frame_spec(payload);
    assert(f.subrange(1, 1 + f[0]) =~= payload);
    let rest = f.subrange(1 + f[0], f.len() as int);
    assert(rest.len() == 0);
    assert(frames_spec(rest) == Seq::<Seq<u8>>::empty());
    assert(consumed_spec(rest) == 0);
    assert(seq![payload] + Seq::<Seq<u8>>::empty() =~= seq![payload]);
}


/// What an observer asked for when it connected.
#[derive(Clone, Debug)]
pub enum RepoRequest {
    /// Only receive the correlated batches.
    ObserverOnly,
    /// Build and run the process under test found at this reference, and
    /// close this observer once it is done.
    Build(String),
}

/// A setup request that cannot be used.
#[derive(Clone, Copy, Debug, PartialEq, Eq, Structural)]
pub enum SetupError {
    /// The request ended without its delimiter.
    Unterminated,
    /// The reference is not valid UTF-8.
    InvalidUtf8,
}

/// The string that `bytes` decode to as UTF-8, or `None` where they are not
/// valid UTF-8.
pub uninterp spec fn utf8_decode(bytes: Seq<u8>) -> Option<Seq<char>>;

/// Relies on std's String::from_utf8: a string exactly when the bytes are
/// valid UTF-8, holding what they decode to.
#[verifier::external_body]
fn string_from_utf8(bytes: Vec<u8>) -> (r: Option<String>)
    ensures
        r.is_some() == utf8_decode(bytes@).is_some(),
        r matches Some(s) ==> s@ == utf8_decode(bytes@).unwrap(),
{
    String::from_utf8(bytes).ok()
}

/// Whether the setup request read so far is complete: it ends with the
/// delimiter, or has reached the size limit.
pub fn repo_request_complete(buf: &Vec<u8>) -> (r: bool)
    ensures
        r == ((buf.len() > 0 && buf@.last() == REPO_DELIMITER) || buf.len() >= MAX_REPO_SIZE),
{
    (buf.len() > 0 && buf[buf.len() - 1] == REPO_DELIMITER) || buf.len() >= MAX_REPO_SIZE
}

/// `s` without its leading NUL bytes.
pub open spec fn trim_nul_front(s: Seq<u8>) -> Seq<u8>
    decreases s.len(),
{
    if s.len() > 0 && s[0] == 0 {
        trim_nul_front(s.drop_first())
    } else {
        s
    }
}

/// `s` without its trailing NUL bytes.
pub open spec fn trim_nul_back(s: Seq<u8>) -> Seq<u8>
    decreases s.len(),
{
    if s.len() > 0 && s.last() == 0 {
        trim_nul_back(s.drop_last())
    } else {
        s
    }
}

/// The reference in a terminated setup request: the bytes before the
/// delimiter, without NUL padding at either end.
pub open spec fn repo_reference(buf: Seq<u8>) -> Seq<u8> {
    trim_nul_back(trim_nul_front(buf.drop_last()))
}

/// The reference that asks for no build.
pub open spec fn none_token() -> Seq<u8> {
    seq![0x6eu8, 0x6fu8, 0x6eu8, 0x65u8]
}

/// Reads an observer's setup request. An empty reference or the token
/// `none` asks for no build; anything else names what to build.
pub fn parse_repo_request(buf: &Vec<u8>) -> (r: Result<RepoRequest, SetupError>)
    ensures
        !(buf.len() > 0 && buf@.last() == REPO_DELIMITER) ==> r == Err::<
            RepoRequest,
            SetupError,
        >(SetupError::Unterminated),
        buf.len() > 0 && buf@.last() == REPO_DELIMITER ==> {
            let reference = repo_reference(buf@);
            if reference.len() == 0 || reference == none_token() {
                r matches Ok(RepoRequest::ObserverOnly)
            } else {
                match utf8_decode(reference) {
                    Some(text) => r matches Ok(RepoRequest::Build(s)) && s@ == text,
                    None => r == Err::<RepoRequest, SetupError>(SetupError::InvalidUtf8),
                }
            }
        },
{
    if !(buf.len() > 0 && buf[buf.len() - 1] == REPO_DELIMITER) {
        return Err(SetupError::Unterminated);
    }
    let end0 = buf.len() - 1;
    let ghost body = buf@.drop_last();
    let mut start: usize = 0;
    assert(body.subrange(0, end0 as int) =~= body);
    while start < end0 && buf[start] == 0
        invariant
            start <= end0 == body.len(),
            end0 + 1 == buf.len(),
            body == buf@.subrange(0, end0 as int),
            trim_nul_front(body) == trim_nul_front(body.subrange(start as int, end0 as int)),
        decreases end0 - start,
    {
        let ghost rest = body.subrange(start as int, end0 as int);
        assert(rest[0] == 0);
        assert(rest.drop_first() =~= body.subrange(start + 1, end0 as int));
        assert(trim_nul_front(rest) == trim_nul_front(rest.drop_first()));
        start = start + 1;
    }
    let ghost front = body.subrange(start as int, end0 as int);
    assert(trim_nul_front(front) == front);
    let mut end: usize = end0;
    assert(front =~= buf@.subrange(start as int, end as int));
    while end > start && buf[end - 1] == 0
        invariant
            start <= end <= end0 == body.len(),
            end0 + 1 == buf.len(),
            body == buf@.subrange(0, end0 as int),
            front == body.subrange(start as int, end0 as int),
            trim_nul_back(front) == trim_nul_back(buf@.subrange(start as int, end as int)),
        decreases end - start,
    {
        let ghost rest = buf@.subrange(start as int, end as int);
        assert(rest.last() == 0);
        assert(rest.drop_last() =~= buf@.subrange(start as int, end - 1));
        assert(trim_nul_back(rest) == trim_nul_back(rest.drop_last()));
        end = end - 1;
    }
    let reference = copy_range(buf, start, end);
    assert(trim_nul_back(reference@) == reference@);
    assert(reference@ == repo_reference(buf@));
    if reference.len() == 0 {
        return Ok(RepoRequest::ObserverOnly);
    }
    if reference.len() == 4 && reference[0] == 0x6e && reference[1] == 0x6f && reference[2] == 0x6e
        && reference[3] == 0x65 {
        assert(reference@ =~= none_token());
        return Ok(RepoRequest::ObserverOnly);
    }
    assert(reference@ != none_token()) by {
        if reference@ == none_token() {
            assert(reference@[0] == none_token()[0]);
            assert(reference@[1] == none_token()[1]);
            assert(reference@[2] == none_token()[2]);
            assert(reference@[3] == none_token()[3]);
        }
    }
    match string_from_utf8(reference) {
        Some(s) => Ok(RepoRequest::Build(s)),
        None => Err(SetupError::InvalidUtf8),
    }
}

/// A batch for an observer: its length as four big-endian bytes, then the
/// batch.
pub open spec fn batch_frame_spec(payload: Seq<u8>) -> Seq<u8> {
    let n = payload.len();
    seq![
        (n / 0x100_0000 % 0x100) as u8,
        (n / 0x1_0000 % 0x100) as u8,
        (n / 0x100 % 0x100) as u8,
        (n % 0x100) as u8,
    ] + payload
}

/// Frames a serialized batch for an observer. Fails when the batch is
/// longer than a 32-bit length can state.
pub fn frame_batch(payload: &Vec<u8>) -> (r: Result<Vec<u8>, FrameError>)
    ensures
        payload.len() <= u32::MAX <==> r.is_ok(),
        r matches Ok(bytes) ==> bytes@ == batch_frame_spec(payload@),
{
    if payload.len() > u32::MAX as usize {
        return Err(FrameError::PayloadTooLong);
    }
    let n = payload.len() as u32;
    let b0 = (n >> 24u32) as u8;
    let b1 = ((n >> 16u32) & 0xffu32) as u8;
    let b2 = ((n >> 8u32) & 0xffu32) as u8;
    let b3 = (n & 0xffu32) as u8;
    assert(b0 == n / 0x100_0000 % 0x100 && b1 == n / 0x1_0000 % 0x100 && b2 == n / 0x100 % 0x100
        && b3 == n % 0x100) by (bit_vector)
        requires
            b0 == (n >> 24u32) as u8,
            b1 == ((n >> 16u32) & 0xffu32) as u8,
            b2 == ((n >> 8u32) & 0xffu32) as u8,
            b3 == (n & 0xffu32) as u8,
    ;
    let mut out: Vec<u8> = Vec::new();
    out.push(b0);
    out.push(b1);
    out.push(b2);
    out.push(b3);
    let ghost head = out@;
    let mut i: usize = 0;
    while i < payload.len()
        invariant
            i <= payload.len(),
            head.len() == 4,
            out@ == head + payload@.subrange(0, i as int),
        decreases payload.len() - i,
    {
        out.push(payload[i]);
        i = i + 1;
        assert(out@ =~= head + payload@.subrange(0, i as int));
    }
    assert(payload@.subrange(0, i as int) =~= payload@);
    assert(out@ =~= batch_frame_spec(payload@));
    Ok(out)
}

/// Whether a serialized batch of `len` bytes is written in blocking mode,
/// so that a slow observer's send buffer does not grow without bound.
pub fn needs_blocking_write(len: usize) -> (r: bool)
    ensures
        r == (len > BLOCKING_WRITE_THRESHOLD),
{
    len > BLOCKING_WRITE_THRESHOLD
}

} // verus!
