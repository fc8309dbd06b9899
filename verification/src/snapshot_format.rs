//! Durable snapshot wire format: a self-describing, versioned envelope.
//!
//! ```text
//! offset  bytes  field
//! 0..4      4    magic           = b"SYRS"
//! 4         1    format_version  = 1
//! 5         1    codec_id        (1 = JSON, 2 = rkyv)
//! 6..       N    payload         = codec output of the snapshot
//! ```
//!
//! The header is a fixed 6 bytes. `format_version` advances independently of the
//! magic, so that an incompatible layout bumps the version while the magic stays
//! stable for identification.
use crate::codec::{CodecIdentity, DecodeValue, EncodeValue};
use crate::error::BoxError;
use crate::snapshot::WorkflowSnapshot;
use crate::text;
use crate::text::{concat, concat3, decimal_text};
use vstd::prelude::*;

verus! {

/// Magic bytes at the start of every snapshot blob: `SYRS`.
pub const SNAPSHOT_MAGIC: [u8; 4] = [83, 89, 82, 83];

/// The format version that is written and understood.
pub const SNAPSHOT_FORMAT_VERSION: u8 = 1;

/// Length of the header.
pub const HEADER_LEN: usize = 6;

/// Identity of the codec that wrote a payload.
#[derive(Debug, Clone, Copy, PartialEq, Eq, Hash, Structural)]
pub enum CodecId {
    /// JSON (1).
    Json,
    /// rkyv (2).
    Rkyv,
}

/// The byte of a codec.
pub open spec fn codec_byte(c: CodecId) -> u8 {
    match c {
        CodecId::Json => 1,
        CodecId::Rkyv => 2,
    }
}

/// The codec of a byte.
pub open spec fn codec_of(byte: u8) -> Result<CodecId, FormatError> {
    if byte == 1 {
        Ok(CodecId::Json)
    } else if byte == 2 {
        Ok(CodecId::Rkyv)
    } else {
        Err(FormatError::UnknownCodec(byte))
    }
}

/// The name of a codec.
pub open spec fn codec_name(c: CodecId) -> Seq<char> {
    match c {
        CodecId::Json => "json"@,
        CodecId::Rkyv => "rkyv"@,
    }
}

impl CodecId {
    /// The byte of the codec in the header.
    pub fn as_u8(self) -> (r: u8)
        ensures
            r == codec_byte(self),
    {
        match self {
            CodecId::Json => 1,
            CodecId::Rkyv => 2,
        }
    }

    /// The codec of a byte in the header.
    pub fn from_u8(byte: u8) -> (r: Result<Self, FormatError>)
        ensures
            r == codec_of(byte),
    {
        match byte {
            1 => Ok(CodecId::Json),
            2 => Ok(CodecId::Rkyv),
            other => Err(FormatError::UnknownCodec(other)),
        }
    }

    /// The name of the codec.
    pub fn name(self) -> (r: &'static str)
        ensures
            r@ == codec_name(self),
    {
        match self {
            CodecId::Json => "json",
            CodecId::Rkyv => "rkyv",
        }
    }
}

/// A parsed snapshot blob.
#[derive(Debug, Clone, Copy, PartialEq, Eq)]
pub struct SnapshotFrame<'a> {
    /// The format version of the blob.
    pub format_version: u8,
    /// The codec that wrote the payload.
    pub codec_id: CodecId,
    /// The payload.
    pub payload: &'a [u8],
}

/// Why a blob is no snapshot that can be read.
#[derive(Debug, Clone, Copy, PartialEq, Eq, Structural)]
pub enum FormatError {
    /// The blob does not start with the magic bytes.
    MissingMagic,
    /// The blob ends within the header.
    Truncated,
    /// The blob has another format version.
    UnsupportedVersion(u8),
    /// The codec byte is not known.
    UnknownCodec(u8),
    /// Another codec wrote the blob.
    CodecMismatch {
        /// The codec that is configured.
        expected: CodecId,
        /// The codec that wrote the blob.
        found: CodecId,
    },
}

/// The message of a format error.
pub open spec fn format_text(e: FormatError) -> Seq<char> {
    match e {
        FormatError::MissingMagic =>
            "not a Sayiir 1.0+ snapshot (missing magic header). This looks like a pre-1.0 snapshot, which the 1.0 wire format does not read: drain in-flight workflows on the old version before upgrading."@,
        FormatError::Truncated =>
            "snapshot blob is truncated (shorter than the 6-byte header)"@,
        FormatError::UnsupportedVersion(v) => "unsupported snapshot format version "@
            + text::decimal(v as nat)
            + " (this build understands version 1); upgrade Sayiir to read it"@,
        FormatError::UnknownCodec(b) => "unknown snapshot codec id: "@ + text::decimal(b as nat),
        FormatError::CodecMismatch { expected, found } =>
            "snapshot codec mismatch: blob was written with `"@ + codec_name(found)
                + "` but this backend is configured with `"@ + codec_name(expected)
                + "`. Configure the matching codec, or drain and re-run these workflows under the new codec."@,
    }
}

impl FormatError {
    /// The message of the error.
    pub fn to_string(&self) -> (r: String)
        ensures
            r@ == format_text(*self),
    {
        match *self {
            FormatError::MissingMagic => String::from_str(
                "not a Sayiir 1.0+ snapshot (missing magic header). This looks like a pre-1.0 snapshot, which the 1.0 wire format does not read: drain in-flight workflows on the old version before upgrading.",
            ),
            FormatError::Truncated => String::from_str(
                "snapshot blob is truncated (shorter than the 6-byte header)",
            ),
            FormatError::UnsupportedVersion(v) => concat3(
                "unsupported snapshot format version ",
                decimal_text(v as u128).as_str(),
                " (this build understands version 1); upgrade Sayiir to read it",
            ),
            FormatError::UnknownCodec(b) => concat(
                "unknown snapshot codec id: ",
                decimal_text(b as u128).as_str(),
            ),
            FormatError::CodecMismatch { expected, found } => {
                let mut s = concat3(
                    "snapshot codec mismatch: blob was written with `",
                    found.name(),
                    "` but this backend is configured with `",
                );
                s.append(expected.name());
                s.append(
                    "`. Configure the matching codec, or drain and re-run these workflows under the new codec.",
                );
                s
            },
        }
    }
}

/// The magic bytes.
pub open spec fn magic() -> Seq<u8> {
    seq![83u8, 89u8, 82u8, 83u8]
}

/// A payload with its header.
pub open spec fn framed(codec_id: CodecId, payload: Seq<u8>) -> Seq<u8> {
    magic() + seq![1u8, codec_byte(codec_id)] + payload
}

/// The codec and the payload of a blob, or why it cannot be read.
pub open spec fn unframed(b: Seq<u8>) -> Result<(CodecId, Seq<u8>), FormatError> {
    if b.len() < 4 || b.take(4) != magic() {
        Err(FormatError::MissingMagic)
    } else if b.len() == 4 {
        Err(FormatError::Truncated)
    } else if b[4] != 1 {
        Err(FormatError::UnsupportedVersion(b[4]))
    } else if b.len() == 5 {
        Err(FormatError::Truncated)
    } else {
        match codec_of(b[5]) {
            Ok(c) => Ok((c, b.skip(6))),
            Err(e) => Err(e),
        }
    }
}

/// As [`unframed`], for one codec only.
pub open spec fn unframed_as(b: Seq<u8>, expected: CodecId) -> Result<
    (CodecId, Seq<u8>),
    FormatError,
> {
    match unframed(b) {
        Ok((c, p)) => if c == expected {
            Ok((c, p))
        } else {
            Err(FormatError::CodecMismatch { expected, found: c })
        },
        Err(e) => Err(e),
    }
}

/// A frame says what a parse of the blob comes to.
pub open spec fn frame_outcome(
    r: Result<SnapshotFrame, FormatError>,
    wanted: Result<(CodecId, Seq<u8>), FormatError>,
) -> bool {
    match r {
        Ok(f) => wanted == Ok::<(CodecId, Seq<u8>), FormatError>((f.codec_id, f.payload@))
            && f.format_version == 1,
        Err(e) => wanted == Err::<(CodecId, Seq<u8>), FormatError>(e),
    }
}

/// Put the header before a payload.
pub fn frame_snapshot(codec_id: CodecId, payload: &[u8]) -> (r: Vec<u8>)
    ensures
        r@ == framed(codec_id, payload@),
{
    let mut buf: Vec<u8> = Vec::new();
    buf.push(83);
    buf.push(89);
    buf.push(82);
    buf.push(83);
    buf.push(SNAPSHOT_FORMAT_VERSION);
    buf.push(codec_id.as_u8());
    let mut i: usize = 0;
    proof {
        assert(buf@ =~= framed(codec_id, payload@.take(0)));
    }
    while i < payload.len()
        invariant
            i <= payload@.len(),
            buf@ == framed(codec_id, payload@.take(i as int)),
        decreases payload@.len() - i,
    {
        buf.push(payload[i]);
        i = i + 1;
        proof {
            assert(buf@ =~= framed(codec_id, payload@.take(i as int)));
        }
    }
    proof {
        assert(payload@.take(i as int) =~= payload@);
    }
    buf
}

/// Parse the header of a blob.
pub fn unframe_snapshot(bytes: &[u8]) -> (r: Result<SnapshotFrame<'_>, FormatError>)
    ensures
        frame_outcome(r, unframed(bytes@)),
{
    if bytes.len() < 4 || bytes[0] != 83 || bytes[1] != 89 || bytes[2] != 82 || bytes[3] != 83 {
        proof {
            if bytes@.len() >= 4 {
                let t = bytes@.take(4);
                assert(t[0] == bytes@[0] && t[1] == bytes@[1] && t[2] == bytes@[2] && t[3]
                    == bytes@[3]);
                assert(magic()[0] == 83 && magic()[1] == 89 && magic()[2] == 82 && magic()[3]
                    == 83);
            }
        }
        return Err(FormatError::MissingMagic);
    }
    proof {
        assert(bytes@.take(4) =~= magic());
    }
    if bytes.len() == 4 {
        return Err(FormatError::Truncated);
    }
    let format_version = bytes[4];
    if format_version != SNAPSHOT_FORMAT_VERSION {
        return Err(FormatError::UnsupportedVersion(format_version));
    }
    if bytes.len() == 5 {
        return Err(FormatError::Truncated);
    }
    match CodecId::from_u8(bytes[5]) {
        Ok(codec_id) => {
            let payload = vstd::slice::slice_subrange(bytes, 6, bytes.len());
            proof {
                assert(payload@ =~= bytes@.skip(6));
            }
            Ok(SnapshotFrame { format_version, codec_id, payload })
        },
        Err(e) => Err(e),
    }
}

/// Parse the header of a blob that a given codec should have written.
pub fn unframe_snapshot_checked(bytes: &[u8], expected: CodecId) -> (r: Result<
    SnapshotFrame<'_>,
    FormatError,
>)
    ensures
        frame_outcome(r, unframed_as(bytes@, expected)),
{
    match unframe_snapshot(bytes) {
        Ok(frame) => {
            if frame.codec_id != expected {
                return Err(FormatError::CodecMismatch { expected, found: frame.codec_id });
            }
            Ok(frame)
        },
        Err(e) => Err(e),
    }
}

/// Encode a snapshot and put the header before it. The blob is the frame of what the
/// codec made of the snapshot; a codec's error is handed on.
pub fn encode_framed<C: EncodeValue<WorkflowSnapshot> + CodecIdentity>(
    codec: &C,
    snapshot: &WorkflowSnapshot,
) -> (r: Result<Vec<u8>, BoxError>)
    ensures
        match r {
            Ok(b) => exists|payload: Vec<u8>, id: CodecId|
                #![trigger call_ensures(C::encode_value, (codec, snapshot), Ok(payload)),
                    call_ensures(C::codec_id, (codec,), id)]
                call_ensures(C::encode_value, (codec, snapshot), Ok(payload)) && call_ensures(
                    C::codec_id,
                    (codec,),
                    id,
                ) && b@ == framed(id, payload@),
            Err(e) => call_ensures(C::encode_value, (codec, snapshot), Err(e)),
        },
{
    match codec.encode_value(snapshot) {
        Ok(payload) => {
            let id = codec.codec_id();
            Ok(frame_snapshot(id, payload.as_slice()))
        },
        Err(e) => Err(e),
    }
}

/// Decode a snapshot from a blob: check the header, then hand the payload to the
/// codec. A blob that another codec wrote never reaches the codec.
pub fn decode_framed<C: DecodeValue<WorkflowSnapshot> + CodecIdentity>(
    codec: &C,
    data: &[u8],
) -> (r: Result<WorkflowSnapshot, BoxError>)
    ensures
        exists|id: CodecId| #[trigger]
            call_ensures(C::codec_id, (codec,), id) && (match unframed_as(data@, id) {
                Ok((_, p)) => exists|payload: &[u8]|
                    payload@ == p && #[trigger] call_ensures(C::decode_value, (codec, payload), r),
                Err(e) => r matches Err(b) && b.message@ == format_text(e),
            }),
{
    let id = codec.codec_id();
    match unframe_snapshot_checked(data, id) {
        Ok(frame) => codec.decode_value(frame.payload),
        Err(e) => Err(BoxError { message: e.to_string() }),
    }
}

/// A blob gives back the codec and the payload that it was made of.
pub proof fn law_frame_round_trip(codec_id: CodecId, payload: Seq<u8>)
    ensures
        unframed(framed(codec_id, payload)) == Ok::<(CodecId, Seq<u8>), FormatError>(
            (codec_id, payload),
        ),
        framed(codec_id, payload).len() == HEADER_LEN + payload.len(),
{
    let b = framed(codec_id, payload);
    assert(b.take(4) =~= magic());
    assert(b.skip(6) =~= payload);
}

/// A blob that can be read is the frame of its codec and payload: there is only one
/// way to write it.
pub proof fn law_unframed_is_framed(b: Seq<u8>)
    requires
        unframed(b) is Ok,
    ensures
        framed(unframed(b)->Ok_0.0, unframed(b)->Ok_0.1) == b,
{
    let (c, p) = unframed(b)->Ok_0;
    assert(b.take(4)[0] == b[0] && b.take(4)[1] == b[1] && b.take(4)[2] == b[2] && b.take(4)[3]
        == b[3]);
    assert(framed(c, p) =~= b);
}

/// A blob of one codec is refused for another, and the error names both.
pub proof fn law_codec_mismatch(codec_id: CodecId, payload: Seq<u8>, expected: CodecId)
    ensures
        unframed_as(framed(codec_id, payload), expected) == (if codec_id == expected {
            Ok::<(CodecId, Seq<u8>), FormatError>((codec_id, payload))
        } else {
            Err(FormatError::CodecMismatch { expected, found: codec_id })
        }),
{
    law_frame_round_trip(codec_id, payload);
}

/// A codec is found again under its byte, and a byte that names a codec is its byte.
pub proof fn law_codec_byte_round_trip(c: CodecId, b: u8)
    ensures
        codec_of(codec_byte(c)) == Ok::<CodecId, FormatError>(c),
        codec_of(b) matches Ok(k) ==> codec_byte(k) == b,
{
}

} // verus!
