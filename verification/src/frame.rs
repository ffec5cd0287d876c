//! Framing: every message travels as a 4-byte little-endian length followed
//! by exactly that many bytes.

use crate::endian::{
    get_le, le_bytes, le_bytes_len, le_value, le_value_of_le_bytes, put_le,
    radix_of_machine_widths,
};
use vstd::prelude::*;

verus! {

/// Bytes in a frame's length prefix.
pub const HEADER_LEN: usize = 4;

/// The longest body a frame may carry (64 MiB). A peer that declares more
/// is refused before any of the body is read.
pub const MAX_FRAME_LEN: usize = 0x0400_0000;

/// Why a connection's bytes were not accepted.
#[derive(Debug, Clone, Copy, PartialEq, Eq, Structural)]
pub enum ProtocolError {
    /// The stream ended before the frame did.
    Truncated,
    /// The frame's body is longer than `MAX_FRAME_LEN`.
    Oversized,
    /// The frame's body is not a message.
    Malformed,
}

/// The frame that carries `body`.
pub open spec fn frame(body: Seq<u8>) -> Seq<u8> {
    le_bytes(body.len(), HEADER_LEN as nat) + body
}

/// The first frame of `input`: its body and the number of bytes it takes
/// up, or the reason there is none.
pub open spec fn parse_frame(input: Seq<u8>) -> Result<(Seq<u8>, nat), ProtocolError> {
    if input.len() < HEADER_LEN {
        Err(ProtocolError::Truncated)
    } else {
        let declared = le_value(input.take(HEADER_LEN as int));
        if declared > MAX_FRAME_LEN {
            Err(ProtocolError::Oversized)
        } else if input.len() < HEADER_LEN + declared {
            Err(ProtocolError::Truncated)
        } else {
            Ok(
                (
                    input.subrange(HEADER_LEN as int, HEADER_LEN + declared),
                    (HEADER_LEN + declared) as nat,
                ),
            )
        }
    }
}

/// The view of what `read_frame` returns.
pub open spec fn frame_view(r: Result<(Vec<u8>, usize), ProtocolError>) -> Result<
    (Seq<u8>, nat),
    ProtocolError,
> {
    match r {
        Ok((body, used)) => Ok((body@, used as nat)),
        Err(e) => Err(e),
    }
}

/// Appends `bytes` to `out`.
pub(crate) fn append_bytes(out: &mut Vec<u8>, bytes: &[u8])
    ensures
        final(out)@ == old(out)@ + bytes@,
{
    let mut i: usize = 0;
    while i < bytes.len()
        invariant
            i <= bytes@.len(),
            out@ == old(out)@ + bytes@.take(i as int),
        decreases bytes@.len() - i,
    {
        out.push(bytes[i]);
        i += 1;
        assert(bytes@.take(i as int) == bytes@.take(i - 1).push(bytes@[i - 1]));
    }
    assert(bytes@.take(bytes@.len() as int) == bytes@);
}

/// A copy of `bytes[from..to]`.
pub(crate) fn copy_range(bytes: &[u8], from: usize, to: usize) -> (r: Vec<u8>)
    requires
        from <= to <= bytes@.len(),
    ensures
        r@ == bytes@.subrange(from as int, to as int),
{
    let mut out: Vec<u8> = Vec::new();
    let mut i: usize = from;
    while i < to
        invariant
            from <= i <= to <= bytes@.len(),
            out@ == bytes@.subrange(from as int, i as int),
        decreases to - i,
    {
        out.push(bytes[i]);
        i += 1;
        assert(bytes@.subrange(from as int, i as int) == bytes@.subrange(from as int, i - 1).push(
            bytes@[i - 1],
        ));
    }
    out
}

/// Appends the frame that carries `body` to `out`.
///
/// A body longer than `MAX_FRAME_LEN` is refused and `out` is left as it was.
pub fn write_frame(out: &mut Vec<u8>, body: &[u8]) -> (r: Result<(), ProtocolError>)
    ensures
        body@.len() <= MAX_FRAME_LEN ==> r == Ok::<(), ProtocolError>(()) && final(out)@ == old(out)@
            + frame(body@),
        body@.len() > MAX_FRAME_LEN ==> r == Err::<(), ProtocolError>(ProtocolError::Oversized)
            && final(out)@ == old(out)@,
{
    if body.len() > MAX_FRAME_LEN {
        return Err(ProtocolError::Oversized);
    }
    put_le(out, body.len() as u64, HEADER_LEN);
    append_bytes(out, body);
    assert(final(out)@ == old(out)@ + frame(body@)) by {
        assert((old(out)@ + le_bytes(body@.len(), HEADER_LEN as nat)) + body@ == old(out)@ + (
        le_bytes(body@.len(), HEADER_LEN as nat) + body@));
    }
    Ok(())
}

/// Reads a frame's length prefix: the number of body bytes that follow.
///
/// A length above `MAX_FRAME_LEN` is refused.
pub fn frame_len(header: &[u8; 4]) -> (r: Result<usize, ProtocolError>)
    ensures
        match r {
            Ok(declared) => declared == le_value(header@) && declared <= MAX_FRAME_LEN,
            Err(e) => e == ProtocolError::Oversized && le_value(header@) > MAX_FRAME_LEN,
        },
{
    let declared = get_le(header.as_slice(), 0, HEADER_LEN);
    assert(header@.subrange(0, 4) == header@);
    if declared > MAX_FRAME_LEN as u64 {
        Err(ProtocolError::Oversized)
    } else {
        Ok(declared as usize)
    }
}

/// Reads the first frame of `input`: a copy of its body and the number of
/// bytes the frame takes up.
///
/// Fails with `Truncated` where `input` ends before the frame does and with
/// `Oversized` where the frame declares more than `MAX_FRAME_LEN`.
pub fn read_frame(input: &[u8]) -> (r: Result<(Vec<u8>, usize), ProtocolError>)
    ensures
        frame_view(r) == parse_frame(input@),
{
    if input.len() < HEADER_LEN {
        return Err(ProtocolError::Truncated);
    }
    let declared = get_le(input, 0, HEADER_LEN);
    assert(input@.subrange(0, 4) == input@.take(4));
    if declared > MAX_FRAME_LEN as u64 {
        return Err(ProtocolError::Oversized);
    }
    let declared = declared as usize;
    if input.len() - HEADER_LEN < declared {
        return Err(ProtocolError::Truncated);
    }
    let end = HEADER_LEN + declared;
    let body = copy_range(input, HEADER_LEN, end);
    Ok((body, end))
}

/// Frame fidelity: reading a written frame gives the body back, and says
/// where the frame ends, whatever follows it.
pub proof fn frame_round_trip(body: Seq<u8>, rest: Seq<u8>)
    requires
        body.len() <= MAX_FRAME_LEN,
    ensures
        parse_frame(frame(body) + rest) == Ok::<(Seq<u8>, nat), ProtocolError>(
            (body, (HEADER_LEN + body.len()) as nat),
        ),
{
    let header = le_bytes(body.len(), HEADER_LEN as nat);
    let input = frame(body) + rest;
    le_bytes_len(body.len(), HEADER_LEN as nat);
    radix_of_machine_widths();
    le_value_of_le_bytes(body.len(), HEADER_LEN as nat);
    assert(input.take(HEADER_LEN as int) == header);
    assert(input.subrange(HEADER_LEN as int, HEADER_LEN + body.len()) == body);
}

/// A frame cut short anywhere, in its header or in its body, is reported
/// as truncated.
pub proof fn truncated_frame_is_rejected(body: Seq<u8>, kept: int)
    requires
        body.len() <= MAX_FRAME_LEN,
        0 <= kept < frame(body).len(),
    ensures
        parse_frame(frame(body).take(kept)) == Err::<(Seq<u8>, nat), ProtocolError>(
            ProtocolError::Truncated,
        ),
{
    let header = le_bytes(body.len(), HEADER_LEN as nat);
    let input = frame(body).take(kept);
    le_bytes_len(body.len(), HEADER_LEN as nat);
    if kept >= HEADER_LEN {
        radix_of_machine_widths();
        le_value_of_le_bytes(body.len(), HEADER_LEN as nat);
        assert(input.take(HEADER_LEN as int) == header);
    }
}

/// A frame never runs past the input it was read from, and its body is
/// never longer than `MAX_FRAME_LEN`.
pub proof fn parsed_frame_is_bounded(input: Seq<u8>)
    requires
        parse_frame(input) is Ok,
    ensures
        parse_frame(input)->Ok_0.0.len() <= MAX_FRAME_LEN,
        parse_frame(input)->Ok_0.1 == HEADER_LEN + parse_frame(input)->Ok_0.0.len(),
        parse_frame(input)->Ok_0.1 <= input.len(),
{
}

} // verus!
