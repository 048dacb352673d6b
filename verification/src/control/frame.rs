//! Messages on a byte stream: the length in four bytes, most significant first, then the payload.
use crate::bytes;
use crate::text;
use vstd::prelude::*;

verus! {

/// How far a frame has arrived.
#[derive(Debug)]
pub enum FrameProgress {
    /// The frame, as far as it is known, takes this many bytes in all.
    NeedBytes(u64),
    /// The payload of a whole frame.
    Payload(Vec<u8>),
}

/// What the end of a stream means for the frame that was being read.
#[derive(Clone, Copy, Debug, PartialEq, Eq, Structural)]
pub enum StreamEnd {
    /// No frame had begun: the stream is over.
    Over,
    /// The payload is cut short.
    CutShort,
}

/// Tells what it means that the stream ended after `received` bytes of a frame. A length that is
/// not there as a whole counts as no frame.
pub fn end_of_stream(received: usize) -> (r: StreamEnd)
    ensures
        r == if received < 4 {
            StreamEnd::Over
        } else {
            StreamEnd::CutShort
        },
{
    if received < 4 {
        StreamEnd::Over
    } else {
        StreamEnd::CutShort
    }
}

/// The payload length that a frame announces.
pub open spec fn announced(buffer: Seq<u8>) -> nat {
    bytes::be_value(buffer.subrange(0, 4))
}

/// Why a frame of this length is not read, if it is not.
pub open spec fn length_error(len: nat, max_payload_bytes: usize) -> Option<Seq<char>> {
    if len == 0 {
        Some("payload length must be > 0"@)
    } else if len > max_payload_bytes {
        Some(
            "payload length "@ + text::decimal(len) + " exceeds max "@ + text::decimal(
                max_payload_bytes as nat,
            ),
        )
    } else {
        None
    }
}

/// Reads the frame that `buffer` starts with, as far as it is there. The length is checked before
/// any of the payload is asked for.
pub fn read_frame(buffer: &[u8], max_payload_bytes: usize) -> (r: Result<FrameProgress, String>)
    ensures
        if buffer@.len() < 4 {
            r == Ok::<FrameProgress, String>(FrameProgress::NeedBytes(4))
        } else {
            match length_error(announced(buffer@), max_payload_bytes) {
                Some(message) => r matches Err(e) && e@ == message,
                None => if buffer@.len() < 4 + announced(buffer@) {
                    r == Ok::<FrameProgress, String>(
                        FrameProgress::NeedBytes((4 + announced(buffer@)) as u64),
                    )
                } else {
                    r matches Ok(progress) && progress matches FrameProgress::Payload(payload)
                        && payload@ == buffer@.subrange(4, 4 + announced(buffer@) as int)
                },
            }
        },
{
    if buffer.len() < 4 {
        return Ok(FrameProgress::NeedBytes(4));
    }
    let len: u32 = bytes::read_u32(buffer, 0);
    if len == 0 {
        return Err("payload length must be > 0".to_owned());
    }
    if len as u64 > max_payload_bytes as u64 {
        return Err(
            text::cat4(
                "payload length ",
                text::decimal_u64(len as u64).as_str(),
                " exceeds max ",
                text::decimal_usize(max_payload_bytes).as_str(),
            ),
        );
    }
    let total: u64 = 4 + len as u64;
    if (buffer.len() as u64) < total {
        return Ok(FrameProgress::NeedBytes(total));
    }
    let payload: Vec<u8> = vstd::slice::slice_to_vec(
        vstd::slice::slice_subrange(buffer, 4, total as usize),
    );
    Ok(FrameProgress::Payload(payload))
}

/// Whether `frame` carries `payload`.
pub open spec fn is_frame(frame: Seq<u8>, payload: Seq<u8>) -> bool {
    &&& frame.len() == 4 + payload.len()
    &&& announced(frame) == payload.len()
    &&& frame.subrange(4, frame.len() as int) == payload
}

/// The frame that carries `payload`.
pub fn write_frame(payload: &[u8]) -> (r: Result<Vec<u8>, String>)
    ensures
        match r {
            Ok(frame) => payload@.len() <= u32::MAX && is_frame(frame@, payload@),
            Err(e) => payload@.len() > u32::MAX && e@ == "payload exceeds u32::MAX"@,
        },
{
    if payload.len() as u64 > u32::MAX as u64 {
        return Err("payload exceeds u32::MAX".to_owned());
    }
    let mut frame: Vec<u8> = bytes::u32_bytes(payload.len() as u32);
    let ghost prefix = frame@;
    frame.extend_from_slice(payload);
    assert(frame@.subrange(0, 4) =~= prefix);
    assert(frame@.subrange(4, frame@.len() as int) =~= payload@);
    Ok(frame)
}

/// What is written as a frame is read back as it was, whatever follows it on the stream; only an
/// empty payload, or one over the reader's limit, is not.
pub proof fn law_frame_round_trip(payload: Seq<u8>, frame: Seq<u8>, rest: Seq<u8>, max: usize)
    requires
        is_frame(frame, payload),
        0 < payload.len() <= max,
    ensures
        (frame + rest).len() >= 4 + announced(frame + rest),
        length_error(announced(frame + rest), max) is None,
        (frame + rest).subrange(4, 4 + announced(frame + rest) as int) == payload,
{
    assert((frame + rest).subrange(0, 4) =~= frame.subrange(0, 4));
    assert((frame + rest).subrange(4, frame.len() as int) =~= frame.subrange(
        4,
        frame.len() as int,
    ));
}

} // verus!
