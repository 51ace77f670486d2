use vstd::prelude::*;

use crate::text::{decimal, decimal_text};

verus! {

/// The largest payload a frame may carry: 10 MiB.
pub const MAX_MESSAGE_SIZE: u32 = 10 * 1024 * 1024;

#[verifier::external_type_specification]
#[verifier::external_body]
pub struct ExIoError(std::io::Error);

/// A failure of the wire layer; each ends the connection.
#[derive(Debug)]
pub enum NetworkError {
    /// A frame announced a payload larger than the limit.
    MessageTooLarge { size: u32, max: u32 },
    /// Reading or writing the stream failed.
    IoError(std::io::Error),
    /// A payload could not be encoded or decoded.
    SerializationError(String),
}

impl From<std::io::Error> for NetworkError {
    fn from(err: std::io::Error) -> (r: NetworkError)
        ensures
            r == NetworkError::IoError(err),
    {
        NetworkError::IoError(err)
    }
}

impl vstd::std_specs::convert::FromSpecImpl<std::io::Error> for NetworkError {
    open spec fn obeys_from_spec() -> bool {
        true
    }

    open spec fn from_spec(v: std::io::Error) -> NetworkError {
        NetworkError::IoError(v)
    }
}

impl NetworkError {
    /// A description of the error for people.
    pub fn to_string(&self) -> (r: String)
        ensures
            match *self {
                NetworkError::MessageTooLarge { size, max } => r@ == "Message size "@ + decimal(
                    size as nat,
                ) + " bytes exceeds maximum "@ + decimal(max as nat) + " bytes"@,
                NetworkError::IoError(_) => r@.len() >= "IO error: "@.len() && r@.take(
                    "IO error: "@.len() as int,
                ) == "IO error: "@,
                NetworkError::SerializationError(m) => r@ == "Serialization error: "@ + m@,
            },
    {
        match self {
            NetworkError::MessageTooLarge { size, max } => {
                let s = String::from_str("Message size ");
                let s = s.concat(decimal_text(*size).as_str());
                let s = s.concat(" bytes exceeds maximum ");
                let s = s.concat(decimal_text(*max).as_str());
                s.concat(" bytes")
            },
            NetworkError::IoError(e) => {
                let s = String::from_str("IO error: ");
                let r = s.concat(crate::text::io_error_text(e).as_str());
                assert(r@.take("IO error: "@.len() as int) =~= "IO error: "@);
                r
            },
            NetworkError::SerializationError(m) => {
                let s = String::from_str("Serialization error: ");
                s.concat(m.as_str())
            },
        }
    }
}

/// Accepts a frame length within the limit; a larger one is `MessageTooLarge`.
pub fn validate_message_size(length: u32) -> (r: Result<(), NetworkError>)
    ensures
        length <= MAX_MESSAGE_SIZE <==> r is Ok,
        length > MAX_MESSAGE_SIZE ==> (r matches Err(NetworkError::MessageTooLarge { size, max })
            && size == length && max == MAX_MESSAGE_SIZE),
{
    if length > MAX_MESSAGE_SIZE {
        return Err(NetworkError::MessageTooLarge { size: length, max: MAX_MESSAGE_SIZE });
    }
    Ok(())
}

/// The number that four bytes stand for, least significant first.
pub open spec fn le_value(b: Seq<u8>) -> int {
    b[0] + 256 * b[1] + 65536 * b[2] + 16777216 * b[3]
}

/// The four bytes of `n`, least significant first.
pub open spec fn le_bytes(n: u32) -> Seq<u8> {
    seq![
        (n % 256) as u8,
        ((n / 256) % 256) as u8,
        ((n / 65536) % 256) as u8,
        (n / 16777216) as u8,
    ]
}

proof fn lemma_le_round_trip(n: u32)
    ensures
        le_value(le_bytes(n)) == n,
{
    let b = le_bytes(n);
    assert(b[0] == n % 256);
    assert(b[1] == (n / 256) % 256);
    assert(b[2] == (n / 65536) % 256);
    assert(b[3] == n / 16777216);
    assert(n % 256 + 256 * ((n / 256) % 256) + 65536 * ((n / 65536) % 256) + 16777216 * (n
        / 16777216) == n) by (nonlinear_arith);
}

/// The number in the first four bytes of `b`, least significant first.
pub fn read_u32_le(b: &[u8]) -> (r: u32)
    requires
        b@.len() >= 4,
    ensures
        r == le_value(b@),
{
    (b[0] as u32) + (b[1] as u32) * 256 + (b[2] as u32) * 65536 + (b[3] as u32) * 16777216
}

/// A frame: the payload's length in four bytes, least significant first, then
/// the payload.
pub open spec fn frame(payload: Seq<u8>) -> Seq<u8> {
    le_bytes(payload.len() as u32) + payload
}

/// Frames `payload`.
pub fn encode_frame(payload: &[u8]) -> (r: Vec<u8>)
    requires
        payload@.len() <= u32::MAX,
    ensures
        r@ == frame(payload@),
{
    let n = payload.len() as u32;
    let mut out: Vec<u8> = Vec::new();
    out.push((n % 256) as u8);
    out.push(((n / 256) % 256) as u8);
    out.push(((n / 65536) % 256) as u8);
    out.push((n / 16777216) as u8);
    let mut i: usize = 0;
    while i < payload.len()
        invariant
            i <= payload@.len(),
            out@ == le_bytes(n) + payload@.take(i as int),
            n == payload@.len(),
        decreases payload@.len() - i,
    {
        out.push(payload[i]);
        assert(payload@.take(i + 1) == payload@.take(i as int).push(payload@[i as int]));
        i = i + 1;
    }
    assert(payload@.take(payload@.len() as int) == payload@);
    out
}

/// What the four bytes of a frame's length prefix call for.
pub enum FrameHeader {
    /// The peer has closed the stream.
    End,
    /// A payload of this many bytes follows.
    Payload(u32),
}

/// Reads a frame's length prefix: zero means the peer closed the stream, a
/// length over the limit is refused before any payload is read.
pub fn read_frame_header(header: &[u8]) -> (r: Result<FrameHeader, NetworkError>)
    requires
        header@.len() == 4,
    ensures
        le_value(header@) == 0 ==> r matches Ok(FrameHeader::End),
        0 < le_value(header@) <= MAX_MESSAGE_SIZE ==> (r matches Ok(FrameHeader::Payload(n)) && n
            == le_value(header@)),
        le_value(header@) > MAX_MESSAGE_SIZE ==> (r matches Err(
            NetworkError::MessageTooLarge { size, max },
        ) && size == le_value(header@) && max == MAX_MESSAGE_SIZE),
{
    let length = read_u32_le(header);
    if length == 0 {
        return Ok(FrameHeader::End);
    }
    match validate_message_size(length) {
        Ok(()) => Ok(FrameHeader::Payload(length)),
        Err(e) => Err(e),
    }
}

/// What the start of a buffer holds.
pub enum FrameSplit {
    /// Not yet a whole frame.
    Incomplete,
    /// The peer has closed the stream.
    End,
    /// A frame whose payload is too large; nothing past its prefix was read.
    TooLarge { size: u32, max: u32 },
    /// A whole frame: its payload and the number of bytes it takes.
    Frame { payload: Vec<u8>, consumed: usize },
}

/// Splits the first frame off `buf`.
pub fn split_frame(buf: &[u8]) -> (r: FrameSplit)
    ensures
        buf@.len() < 4 ==> r is Incomplete,
        buf@.len() >= 4 ==> ({
            let n = le_value(buf@.take(4));
            &&& n == 0 ==> r is End
            &&& n > MAX_MESSAGE_SIZE ==> (r matches FrameSplit::TooLarge { size, max } && size == n
                && max == MAX_MESSAGE_SIZE)
            &&& 0 < n <= MAX_MESSAGE_SIZE && buf@.len() < 4 + n ==> r is Incomplete
            &&& 0 < n <= MAX_MESSAGE_SIZE && buf@.len() >= 4 + n ==> (r matches FrameSplit::Frame {
                payload,
                consumed,
            } && payload@ == buf@.subrange(4, 4 + n) && consumed == 4 + n)
        }),
{
    if buf.len() < 4 {
        return FrameSplit::Incomplete;
    }
    let length = read_u32_le(buf);
    assert(le_value(buf@.take(4)) == le_value(buf@));
    if length == 0 {
        return FrameSplit::End;
    }
    if length > MAX_MESSAGE_SIZE {
        return FrameSplit::TooLarge { size: length, max: MAX_MESSAGE_SIZE };
    }
    let n = length as usize;
    if buf.len() - 4 < n {
        return FrameSplit::Incomplete;
    }
    let blen = buf.len();
    let mut payload: Vec<u8> = Vec::new();
    let mut i: usize = 0;
    while i < n
        invariant
            blen == buf@.len(),
            i <= n,
            4 + n <= buf@.len(),
            payload@ == buf@.subrange(4, 4 + i),
        decreases n - i,
    {
        payload.push(buf[4 + i]);
        assert(buf@.subrange(4, 4 + i + 1) == buf@.subrange(4, 4 + i).push(buf@[4 + i]));
        i = i + 1;
    }
    FrameSplit::Frame { payload, consumed: 4 + n }
}

/// Splitting a framed payload gives the payload back, with the whole frame
/// consumed.
pub proof fn lemma_frame_round_trip(payload: Seq<u8>)
    requires
        0 < payload.len() <= MAX_MESSAGE_SIZE,
    ensures
        frame(payload).len() == 4 + payload.len(),
        le_value(frame(payload).take(4)) == payload.len(),
        frame(payload).subrange(4, 4 + payload.len() as int) == payload,
{
    let n = payload.len() as u32;
    lemma_le_round_trip(n);
    assert(frame(payload).take(4) =~= le_bytes(n));
    assert(frame(payload).subrange(4, 4 + payload.len() as int) =~= payload);
}

/// A length prefix over the limit is refused whatever follows it.
pub proof fn lemma_oversized_refused(header: Seq<u8>, rest: Seq<u8>)
    requires
        header.len() == 4,
        le_value(header) > MAX_MESSAGE_SIZE,
    ensures
        le_value((header + rest).take(4)) == le_value(header),
{
    assert((header + rest).take(4) =~= header);
}

} // verus!
