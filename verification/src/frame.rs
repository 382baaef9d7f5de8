//! Framing: a little-endian `u32` length, then a UTF-8 JSON payload.
//!
//! A zero length, more than 1 MiB, invalid UTF-8 and an unknown protocol
//! major are refused. A frame cut short is never taken as a whole message:
//! until its declared length has arrived it is [`FrameRead::Incomplete`].
//! Reading the JSON into a message is the caller's step; this module hands
//! over the payload's text once it has passed these checks.

use vstd::prelude::*;
use vstd::utf8::{decode_utf8, valid_utf8};
use crate::handshake::PROTOCOL_MAJOR;
use crate::remote::{JsonMember, MemberView};

verus! {

/// The largest payload, in bytes.
pub const MAX_FRAME_BYTES: usize = 1_048_576;

/// The bytes of the length prefix.
pub const LENGTH_PREFIX_BYTES: usize = 4;

/// Why a frame was refused. Every one of them closes the connection.
#[derive(Debug, Clone, PartialEq, Eq)]
pub enum FrameError {
    ZeroLength,
    /// Over the limit; the connection is closed rather than the rest skipped.
    TooLarge { declared: usize },
    InvalidUtf8,
    /// Not JSON, or not a known kind of message.
    MalformedPayload { detail: String },
    /// An unknown protocol major: refused rather than acted on wrongly.
    UnknownProtocolMajor { found: u32 },
}

/// One attempt at reading a frame from the front of a buffer.
#[derive(Debug, Clone, PartialEq, Eq)]
pub enum FrameRead {
    /// The frame has not fully arrived; wait for the next read.
    Incomplete,
    /// One frame: its payload's text, and how many bytes to remove from the
    /// front of the buffer.
    Frame { text: String, consumed: usize },
}

/// The value of four little-endian bytes.
pub open spec fn le_value(b: Seq<u8>) -> nat {
    b[0] as nat + 256 * b[1] as nat + 65536 * b[2] as nat + 16777216 * b[3] as nat
}

/// The four little-endian bytes of a `u32`.
pub open spec fn le_bytes(n: nat) -> Seq<u8> {
    seq![(n % 256) as u8, ((n / 256) % 256) as u8, ((n / 65536) % 256) as u8, ((n / 16777216) % 256) as u8]
}

/// What reading the front of `buffer` gives: `Incomplete` until the prefix
/// and then the declared payload have arrived; a zero or too large declared
/// length, or a payload that is not UTF-8, is refused; otherwise the
/// payload's text and the frame's length.
pub open spec fn read_outcome(buffer: Seq<u8>, r: Result<FrameRead, FrameError>) -> bool {
    if buffer.len() < 4 {
        r == Ok::<FrameRead, FrameError>(FrameRead::Incomplete)
    } else {
        let declared = le_value(buffer);
        if declared == 0 {
            r == Err::<FrameRead, FrameError>(FrameError::ZeroLength)
        } else if declared > MAX_FRAME_BYTES {
            r == Err::<FrameRead, FrameError>(FrameError::TooLarge { declared: declared as usize })
        } else if buffer.len() < 4 + declared {
            r == Ok::<FrameRead, FrameError>(FrameRead::Incomplete)
        } else {
            let payload = buffer.subrange(4, 4 + declared as int);
            if valid_utf8(payload) {
                r matches Ok(FrameRead::Frame { text, consumed }) && text@ == decode_utf8(payload)
                    && consumed == 4 + declared
            } else {
                r == Err::<FrameRead, FrameError>(FrameError::InvalidUtf8)
            }
        }
    }
}

/// `std::str::from_utf8` on `bytes`, copied into a `String`: `Some` exactly
/// when the bytes are valid UTF-8, holding the characters they encode.
#[verifier::external_body]
fn utf8_text(bytes: &[u8]) -> (r: Option<String>)
    ensures
        match r {
            Some(s) => valid_utf8(bytes@) && s@ == decode_utf8(bytes@),
            None => !valid_utf8(bytes@),
        },
{
    match std::str::from_utf8(bytes) {
        Ok(text) => Some(text.to_owned()),
        Err(_) => None,
    }
}

/// Reads one frame from the front of `buffer`, which the caller keeps and
/// shortens by `consumed` bytes.
///
/// # Errors
///
/// A zero length, a length over [`MAX_FRAME_BYTES`] and invalid UTF-8.
pub fn read_frame(buffer: &[u8]) -> (r: Result<FrameRead, FrameError>)
    ensures
        read_outcome(buffer@, r),
{
    if buffer.len() < LENGTH_PREFIX_BYTES {
        return Ok(FrameRead::Incomplete);
    }
    let declared: usize = buffer[0] as usize + 256 * (buffer[1] as usize) + 65536 * (buffer[2] as usize)
        + 16777216 * (buffer[3] as usize);
    proof {
        assert(declared == le_value(buffer@));
    }
    if declared == 0 {
        return Err(FrameError::ZeroLength);
    }
    if declared > MAX_FRAME_BYTES {
        return Err(FrameError::TooLarge { declared });
    }
    let end = LENGTH_PREFIX_BYTES + declared;
    if buffer.len() < end {
        // Short of the declared length: a fragment cut off by a disconnect
        // is not a whole message.
        return Ok(FrameRead::Incomplete);
    }
    let payload = slice_range(buffer, LENGTH_PREFIX_BYTES, end);
    match utf8_text(payload.as_slice()) {
        Some(text) => Ok(FrameRead::Frame { text, consumed: end }),
        None => Err(FrameError::InvalidUtf8),
    }
}

/// The bytes of `buffer` from `start` up to `end`.
fn slice_range(buffer: &[u8], start: usize, end: usize) -> (r: Vec<u8>)
    requires
        start <= end <= buffer@.len(),
    ensures
        r@ == buffer@.subrange(start as int, end as int),
{
    let mut out: Vec<u8> = Vec::new();
    let mut i = start;
    while i < end
        invariant
            start <= i <= end,
            end <= buffer@.len(),
            out@ == buffer@.subrange(start as int, i as int),
        decreases end - i,
    {
        out.push(buffer[i]);
        i = i + 1;
        proof {
            assert(out@ =~= buffer@.subrange(start as int, i as int));
        }
    }
    out
}

/// The `protocolMajor` member of a JSON text, as the framing reads it.
#[derive(Debug, Clone, PartialEq, Eq)]
pub enum MajorField {
    /// The text is not JSON; the parser's diagnostic.
    NotJson(String),
    /// No `protocolMajor`, or not a number that fits in a `u64`.
    Missing,
    Found(u64),
}

pub enum MajorFieldView {
    NotJson(Seq<char>),
    Missing,
    Found(u64),
}

impl View for MajorField {
    type V = MajorFieldView;

    open spec fn view(&self) -> MajorFieldView {
        match self {
            MajorField::NotJson(d) => MajorFieldView::NotJson(d@),
            MajorField::Missing => MajorFieldView::Missing,
            MajorField::Found(m) => MajorFieldView::Found(*m),
        }
    }
}

/// What `serde_json` finds at `key` in a JSON text: the member's shape, or
/// the parser's message when the text is not JSON.
pub uninterp spec fn json_text_member(text: Seq<char>, key: Seq<char>) -> Result<MemberView, Seq<char>>;

/// Parses `text` with `serde_json::from_str` into a `serde_json::Value` and
/// looks up `key` with `Value::get`, telling apart the JSON type of what it
/// finds one arm per JSON type (a number read with
/// `Number::as_u64`). A parse failure keeps the parser's message. The
/// result is named [`json_text_member`] of the text and the key.
#[verifier::external_body]
fn text_member(text: &str, key: &str) -> (r: Result<JsonMember, String>)
    ensures
        match r {
            Ok(m) => json_text_member(text@, key@) == Ok::<MemberView, Seq<char>>(m@),
            Err(e) => json_text_member(text@, key@) == Err::<MemberView, Seq<char>>(e@),
        },
{
    match serde_json::from_str::<serde_json::Value>(text) {
        Err(error) => Err(error.to_string()),
        Ok(value) => Ok(match value.get(key) {
            None => JsonMember::Missing,
            Some(serde_json::Value::Null) => JsonMember::Null,
            Some(serde_json::Value::Bool(b)) => JsonMember::Bool(*b),
            Some(serde_json::Value::String(t)) => JsonMember::Str(t.clone()),
            Some(serde_json::Value::Number(n)) => match n.as_u64() {
                Some(u) => JsonMember::Unsigned(u),
                None => JsonMember::Other,
            },
            Some(_) => JsonMember::Other,
        }),
    }
}

/// The `protocolMajor` of a text as the framing reads it: only a number
/// that fits in a `u64` is a major; anything else there, or nothing, is
/// missing.
pub open spec fn major_field_of(read: Result<MemberView, Seq<char>>) -> MajorFieldView {
    match read {
        Err(d) => MajorFieldView::NotJson(d),
        Ok(MemberView::Unsigned(m)) => MajorFieldView::Found(m),
        Ok(_) => MajorFieldView::Missing,
    }
}

/// The name of the member that carries the protocol major.
pub open spec fn major_key() -> Seq<char> {
    "protocolMajor"@
}

/// Reads the `protocolMajor` member of a JSON text.
pub fn protocol_major_field(text: &str) -> (r: MajorField)
    ensures
        r@ == major_field_of(json_text_member(text@, major_key())),
{
    match text_member(text, "protocolMajor") {
        Err(detail) => MajorField::NotJson(detail),
        Ok(JsonMember::Unsigned(m)) => MajorField::Found(m),
        Ok(_) => MajorField::Missing,
    }
}

/// The verdict on a frame's `protocolMajor`.
pub open spec fn major_outcome(field: MajorFieldView, r: Result<(), FrameError>) -> bool {
    match field {
        MajorFieldView::Found(m) => if m == PROTOCOL_MAJOR {
            r is Ok
        } else {
            r == Err::<(), FrameError>(
                FrameError::UnknownProtocolMajor {
                    found: if m > u32::MAX {
                        u32::MAX
                    } else {
                        m as u32
                    },
                },
            )
        },
        MajorFieldView::Missing => r matches Err(FrameError::MalformedPayload { detail })
            && detail@ == "protocolMajor がない"@,
        MajorFieldView::NotJson(d) => r matches Err(FrameError::MalformedPayload { detail })
            && detail@ == d,
    }
}

/// Judges the major before anything else: the body of an unknown major is
/// never fitted to the known types.
pub fn check_major(field: &MajorField) -> (r: Result<(), FrameError>)
    ensures
        major_outcome(field@, r),
{
    match field {
        MajorField::Found(major) => {
            if *major == PROTOCOL_MAJOR as u64 {
                Ok(())
            } else {
                let found: u32 = if *major > u32::MAX as u64 {
                    u32::MAX
                } else {
                    *major as u32
                };
                Err(FrameError::UnknownProtocolMajor { found })
            }
        },
        MajorField::Missing => Err(
            FrameError::MalformedPayload { detail: String::from_str("protocolMajor がない") },
        ),
        MajorField::NotJson(detail) => Err(FrameError::MalformedPayload { detail: detail.clone() }),
    }
}

/// Reads one frame and checks its protocol major.
///
/// # Errors
///
/// Those of [`read_frame`], then those of [`check_major`].
pub fn read_checked_frame(buffer: &[u8]) -> (r: Result<FrameRead, FrameError>)
    ensures
        exists|read: Result<FrameRead, FrameError>|
            read_outcome(buffer@, read) && match read {
                Ok(FrameRead::Frame { text, consumed }) => exists|verdict: Result<(), FrameError>|
                    major_outcome(major_field_of(json_text_member(text@, major_key())), verdict) && match verdict {
                        Ok(()) => r == read,
                        Err(e) => r == Err::<FrameRead, FrameError>(e),
                    },
                _ => r == read,
            },
{
    let read = read_frame(buffer);
    match read {
        Ok(FrameRead::Frame { text, consumed }) => {
            let field = protocol_major_field(text.as_str());
            let verdict = check_major(&field);
            match verdict {
                Ok(()) => Ok(FrameRead::Frame { text, consumed }),
                Err(e) => Err(e),
            }
        },
        other => other,
    }
}

/// Why a message could not be put into a frame.
#[derive(Debug, Clone, PartialEq, Eq)]
pub enum EncodeError {
    /// The serialised message is over the limit.
    TooLarge { size: usize },
    /// Serialising failed.
    Serialization { detail: String },
}

/// Puts a serialised payload into one frame.
///
/// # Errors
///
/// [`EncodeError::TooLarge`] when the payload is over [`MAX_FRAME_BYTES`].
pub fn frame_payload(payload: &[u8]) -> (r: Result<Vec<u8>, EncodeError>)
    ensures
        payload@.len() > MAX_FRAME_BYTES ==> r == Err::<Vec<u8>, EncodeError>(
            EncodeError::TooLarge { size: payload@.len() as usize },
        ),
        payload@.len() <= MAX_FRAME_BYTES ==> (r matches Ok(framed) && framed@ == le_bytes(
            payload@.len() as nat,
        ) + payload@),
{
    let len = payload.len();
    if len > MAX_FRAME_BYTES {
        return Err(EncodeError::TooLarge { size: len });
    }
    let mut framed: Vec<u8> = Vec::new();
    framed.push((len % 256) as u8);
    framed.push(((len / 256) % 256) as u8);
    framed.push(((len / 65536) % 256) as u8);
    framed.push(((len / 16777216) % 256) as u8);
    let mut i: usize = 0;
    while i < len
        invariant
            len == payload@.len(),
            i <= len,
            framed@ == le_bytes(len as nat) + payload@.subrange(0, i as int),
        decreases len - i,
    {
        framed.push(payload[i]);
        i = i + 1;
        proof {
            assert(framed@ =~= le_bytes(len as nat) + payload@.subrange(0, i as int));
        }
    }
    proof {
        assert(payload@.subrange(0, len as int) =~= payload@);
    }
    Ok(framed)
}

proof fn lemma_le_round_trip(n: nat)
    requires
        n < 0x1_0000_0000,
    ensures
        le_value(le_bytes(n)) == n,
{
    let b = le_bytes(n);
    assert(b[0] as nat == n % 256);
    assert(b[1] as nat == (n / 256) % 256);
    assert(b[2] as nat == (n / 65536) % 256);
    assert(b[3] as nat == (n / 16777216) % 256);
    assert(n % 256 + 256 * ((n / 256) % 256) + 65536 * ((n / 65536) % 256) + 16777216 * ((n
        / 16777216) % 256) == n) by (nonlinear_arith)
        requires
            n < 0x1_0000_0000,
    ;
}

/// A framed payload reads back as the same text, whatever follows it in the
/// buffer: several frames arriving in one read are not lost.
pub proof fn lemma_frame_round_trip(payload: Seq<u8>, rest: Seq<u8>, r: Result<FrameRead, FrameError>)
    requires
        0 < payload.len() <= MAX_FRAME_BYTES,
        valid_utf8(payload),
        read_outcome(le_bytes(payload.len()) + payload + rest, r),
    ensures
        r matches Ok(FrameRead::Frame { text, consumed }) && text@ == decode_utf8(payload) && consumed
            == payload.len() + 4,
{
    let buffer = le_bytes(payload.len()) + payload + rest;
    lemma_le_round_trip(payload.len());
    assert(buffer.subrange(0, 4) =~= le_bytes(payload.len()));
    assert(le_value(buffer) == le_value(le_bytes(payload.len())));
    assert(buffer.subrange(4, 4 + payload.len() as int) =~= payload);
}

} // verus!
