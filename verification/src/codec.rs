//! The byte encoding of requests and responses.
//!
//! A message is a 4-byte little-endian variant number followed by the
//! variant's fields in order. A byte string is its length as 8 little-endian
//! bytes followed by the bytes; text is the byte string of its UTF-8
//! encoding; a copy source is a 4-byte little-endian variant number.
//! Decoding accepts exactly the byte strings that encoding produces.

use crate::endian::{
    get_le, le_bytes, le_bytes_len, le_bytes_of_le_value, le_value, le_value_of_le_bytes, put_le,
    radix, radix_of_machine_widths,
};
use crate::frame::{
    append_bytes, copy_range, frame, frame_round_trip, parse_frame, ProtocolError, MAX_FRAME_LEN,
};
use crate::message::{CopySource, Request, RequestView, Response, ResponseView};
use crate::text::{utf8_encoding_is_injective, utf8_string};
use vstd::prelude::*;
use vstd::utf8::{encode_utf8, encode_utf8_valid_utf8};

verus! {

/// Bytes in a variant number.
pub const TAG_WIDTH: usize = 4;

/// Bytes in the length that precedes a byte string.
pub const LEN_WIDTH: usize = 8;

/// The variant number of a copy source.
pub open spec fn source_tag(source: CopySource) -> nat {
    match source {
        CopySource::User => 0,
        CopySource::Wayland => 1,
    }
}

/// The encoding of a byte string: its length, then its bytes.
pub open spec fn bytes_field(data: Seq<u8>) -> Seq<u8> {
    le_bytes(data.len(), LEN_WIDTH as nat) + data
}

/// The encoding of a request.
pub open spec fn encode_request_spec(m: RequestView) -> Seq<u8> {
    match m {
        RequestView::Copy { payload, source } => le_bytes(0, TAG_WIDTH as nat) + bytes_field(
            payload,
        ) + le_bytes(source_tag(source), TAG_WIDTH as nat),
        RequestView::Paste => le_bytes(1, TAG_WIDTH as nat),
    }
}

/// The encoding of a response.
pub open spec fn encode_response_spec(m: ResponseView) -> Seq<u8> {
    match m {
        ResponseView::Stored => le_bytes(0, TAG_WIDTH as nat),
        ResponseView::Payload { data } => le_bytes(1, TAG_WIDTH as nat) + bytes_field(data),
        ResponseView::Error { message } => le_bytes(2, TAG_WIDTH as nat) + bytes_field(
            encode_utf8(message),
        ),
    }
}

/// A request whose byte string has a length that eight bytes can hold.
/// Every request held in memory is one.
pub open spec fn request_fits(m: RequestView) -> bool {
    m matches RequestView::Copy { payload, .. } ==> payload.len() < radix(LEN_WIDTH as nat)
}

/// A response whose byte string has a length that eight bytes can hold.
/// Every response held in memory is one.
pub open spec fn response_fits(m: ResponseView) -> bool {
    &&& m matches ResponseView::Payload { data } ==> data.len() < radix(LEN_WIDTH as nat)
    &&& m matches ResponseView::Error { message } ==> encode_utf8(message).len() < radix(
        LEN_WIDTH as nat,
    )
}

/// The request that `bytes` encode, if they encode one.
pub open spec fn decode_request_spec(bytes: Seq<u8>) -> Result<RequestView, ProtocolError> {
    if exists|m: RequestView| request_fits(m) && #[trigger] encode_request_spec(m) == bytes {
        Ok(choose|m: RequestView| request_fits(m) && #[trigger] encode_request_spec(m) == bytes)
    } else {
        Err(ProtocolError::Malformed)
    }
}

/// The response that `bytes` encode, if they encode one.
pub open spec fn decode_response_spec(bytes: Seq<u8>) -> Result<ResponseView, ProtocolError> {
    if exists|m: ResponseView| response_fits(m) && #[trigger] encode_response_spec(m) == bytes {
        Ok(choose|m: ResponseView| response_fits(m) && #[trigger] encode_response_spec(m) == bytes)
    } else {
        Err(ProtocolError::Malformed)
    }
}

/// The view of a decoded request.
pub open spec fn request_result_view(r: Result<Request, ProtocolError>) -> Result<
    RequestView,
    ProtocolError,
> {
    match r {
        Ok(m) => Ok(m@),
        Err(e) => Err(e),
    }
}

/// The view of a decoded response.
pub open spec fn response_result_view(r: Result<Response, ProtocolError>) -> Result<
    ResponseView,
    ProtocolError,
> {
    match r {
        Ok(m) => Ok(m@),
        Err(e) => Err(e),
    }
}

/// Where the parts of `head + bytes_field(data) + tail` lie.
proof fn field_layout(head: Seq<u8>, data: Seq<u8>, tail: Seq<u8>)
    requires
        data.len() < radix(LEN_WIDTH as nat),
    ensures
        ({
            let all = head + bytes_field(data) + tail;
            let at = head.len() as int;
            &&& all.len() == at + LEN_WIDTH + data.len() + tail.len()
            &&& all.take(at) == head
            &&& le_value(all.subrange(at, at + LEN_WIDTH)) == data.len()
            &&& all.subrange(at + LEN_WIDTH, at + LEN_WIDTH + data.len()) == data
            &&& all.subrange(at + LEN_WIDTH + data.len(), all.len() as int) == tail
        }),
{
    let all = head + bytes_field(data) + tail;
    let at = head.len() as int;
    let len_bytes = le_bytes(data.len(), LEN_WIDTH as nat);
    le_bytes_len(data.len(), LEN_WIDTH as nat);
    le_value_of_le_bytes(data.len(), LEN_WIDTH as nat);
    assert(all.take(at) == head);
    assert(all.subrange(at, at + LEN_WIDTH) == len_bytes);
    assert(all.subrange(at + LEN_WIDTH, at + LEN_WIDTH + data.len()) == data);
    assert(all.subrange(at + LEN_WIDTH + data.len(), all.len() as int) == tail);
}

/// What a variant number's four bytes spell.
proof fn tag_value(tag: nat)
    requires
        tag < 0x1_0000_0000,
    ensures
        le_bytes(tag, TAG_WIDTH as nat).len() == TAG_WIDTH,
        le_value(le_bytes(tag, TAG_WIDTH as nat)) == tag,
{
    radix_of_machine_widths();
    le_bytes_len(tag, TAG_WIDTH as nat);
    le_value_of_le_bytes(tag, TAG_WIDTH as nat);
}

/// What the bytes `all` must look like to be the encoding of `m`.
spec fn request_shape(m: RequestView, all: Seq<u8>) -> bool {
    &&& all.len() >= TAG_WIDTH
    &&& match m {
        RequestView::Paste => all.len() == TAG_WIDTH && le_value(all.take(TAG_WIDTH as int)) == 1,
        RequestView::Copy { payload, source } => {
            &&& le_value(all.take(TAG_WIDTH as int)) == 0
            &&& all.len() == TAG_WIDTH + LEN_WIDTH + payload.len() + TAG_WIDTH
            &&& le_value(all.subrange(TAG_WIDTH as int, TAG_WIDTH + LEN_WIDTH)) == payload.len()
            &&& all.subrange(TAG_WIDTH + LEN_WIDTH, TAG_WIDTH + LEN_WIDTH + payload.len())
                == payload
            &&& le_value(all.subrange(TAG_WIDTH + LEN_WIDTH + payload.len(), all.len() as int))
                == source_tag(source)
        },
    }
}

/// What the bytes `all` must look like to be the encoding of `m`.
spec fn response_shape(m: ResponseView, all: Seq<u8>) -> bool {
    &&& all.len() >= TAG_WIDTH
    &&& match m {
        ResponseView::Stored => all.len() == TAG_WIDTH && le_value(all.take(TAG_WIDTH as int)) == 0,
        ResponseView::Payload { data } => {
            &&& le_value(all.take(TAG_WIDTH as int)) == 1
            &&& all.len() == TAG_WIDTH + LEN_WIDTH + data.len()
            &&& le_value(all.subrange(TAG_WIDTH as int, TAG_WIDTH + LEN_WIDTH)) == data.len()
            &&& all.subrange(TAG_WIDTH + LEN_WIDTH, all.len() as int) == data
        },
        ResponseView::Error { message } => {
            &&& le_value(all.take(TAG_WIDTH as int)) == 2
            &&& all.len() == TAG_WIDTH + LEN_WIDTH + encode_utf8(message).len()
            &&& le_value(all.subrange(TAG_WIDTH as int, TAG_WIDTH + LEN_WIDTH)) == encode_utf8(
                message,
            ).len()
            &&& all.subrange(TAG_WIDTH + LEN_WIDTH, all.len() as int) == encode_utf8(message)
        },
    }
}

/// An encoded request has the shape of its request.
proof fn request_layout(m: RequestView)
    requires
        request_fits(m),
    ensures
        request_shape(m, encode_request_spec(m)),
{
    match m {
        RequestView::Paste => {
            tag_value(1);
            let all = encode_request_spec(m);
            assert(all.take(TAG_WIDTH as int) == all);
        },
        RequestView::Copy { payload, source } => {
            tag_value(0);
            tag_value(source_tag(source));
            field_layout(
                le_bytes(0, TAG_WIDTH as nat),
                payload,
                le_bytes(source_tag(source), TAG_WIDTH as nat),
            );
        },
    }
}

/// An encoded response has the shape of its response.
proof fn response_layout(m: ResponseView)
    requires
        response_fits(m),
    ensures
        response_shape(m, encode_response_spec(m)),
{
    match m {
        ResponseView::Stored => {
            tag_value(0);
            let all = encode_response_spec(m);
            assert(all.take(TAG_WIDTH as int) == all);
        },
        ResponseView::Payload { data } => {
            tag_value(1);
            field_layout(le_bytes(1, TAG_WIDTH as nat), data, Seq::empty());
            let all = encode_response_spec(m);
            assert(le_bytes(1, TAG_WIDTH as nat) + bytes_field(data) + Seq::<u8>::empty() == all);
        },
        ResponseView::Error { message } => {
            tag_value(2);
            let text = encode_utf8(message);
            field_layout(le_bytes(2, TAG_WIDTH as nat), text, Seq::empty());
            let all = encode_response_spec(m);
            assert(le_bytes(2, TAG_WIDTH as nat) + bytes_field(text) + Seq::<u8>::empty() == all);
        },
    }
}

/// No two requests share an encoding.
pub proof fn request_encoding_is_injective(a: RequestView, b: RequestView)
    requires
        request_fits(a),
        request_fits(b),
        encode_request_spec(a) == encode_request_spec(b),
    ensures
        a == b,
{
    request_layout(a);
    request_layout(b);
    if let RequestView::Copy { payload: pa, source: sa } = a {
        if let RequestView::Copy { payload: pb, source: sb } = b {
            assert(pa == pb);
            assert(source_tag(sa) == source_tag(sb));
        }
    }
}

/// No two responses share an encoding.
pub proof fn response_encoding_is_injective(a: ResponseView, b: ResponseView)
    requires
        response_fits(a),
        response_fits(b),
        encode_response_spec(a) == encode_response_spec(b),
    ensures
        a == b,
{
    response_layout(a);
    response_layout(b);
    if let ResponseView::Error { message: ma } = a {
        if let ResponseView::Error { message: mb } = b {
            utf8_encoding_is_injective(ma, mb);
        }
    }
}

/// Message fidelity for requests: decoding the encoding of a request gives
/// that request.
pub proof fn request_round_trip(m: RequestView)
    requires
        request_fits(m),
    ensures
        decode_request_spec(encode_request_spec(m)) == Ok::<RequestView, ProtocolError>(m),
{
    let bytes = encode_request_spec(m);
    let found = choose|x: RequestView| request_fits(x) && #[trigger] encode_request_spec(x) == bytes;
    request_encoding_is_injective(found, m);
}

/// Message fidelity for responses: decoding the encoding of a response gives
/// that response.
pub proof fn response_round_trip(m: ResponseView)
    requires
        response_fits(m),
    ensures
        decode_response_spec(encode_response_spec(m)) == Ok::<ResponseView, ProtocolError>(m),
{
    let bytes = encode_response_spec(m);
    let found = choose|x: ResponseView|
        response_fits(x) && #[trigger] encode_response_spec(x) == bytes;
    response_encoding_is_injective(found, m);
}

/// Frame fidelity for requests: a request that was encoded and framed is
/// read back exactly, whatever follows the frame.
pub proof fn framed_request_round_trip(m: RequestView, rest: Seq<u8>)
    requires
        request_fits(m),
        encode_request_spec(m).len() <= MAX_FRAME_LEN,
    ensures
        parse_frame(frame(encode_request_spec(m)) + rest) matches Ok(read)
            && decode_request_spec(read.0) == Ok::<RequestView, ProtocolError>(m),
{
    frame_round_trip(encode_request_spec(m), rest);
    request_round_trip(m);
}

/// Frame fidelity for responses: a response that was encoded and framed is
/// read back exactly, whatever follows the frame.
pub proof fn framed_response_round_trip(m: ResponseView, rest: Seq<u8>)
    requires
        response_fits(m),
        encode_response_spec(m).len() <= MAX_FRAME_LEN,
    ensures
        parse_frame(frame(encode_response_spec(m)) + rest) matches Ok(read)
            && decode_response_spec(read.0) == Ok::<ResponseView, ProtocolError>(m),
{
    frame_round_trip(encode_response_spec(m), rest);
    response_round_trip(m);
}

/// An encoded request cut short is not a request.
pub proof fn truncated_request_is_rejected(m: RequestView, kept: int)
    requires
        request_fits(m),
        0 <= kept < encode_request_spec(m).len(),
    ensures
        decode_request_spec(encode_request_spec(m).take(kept)) == Err::<
            RequestView,
            ProtocolError,
        >(ProtocolError::Malformed),
{
    let all = encode_request_spec(m);
    let cut = all.take(kept);
    request_layout(m);
    assert forall|x: RequestView| request_fits(x) && #[trigger] encode_request_spec(x)
        == cut implies false by {
        request_layout(x);
        assert(cut.len() == kept);
        assert(cut.take(TAG_WIDTH as int) == all.take(TAG_WIDTH as int));
        if let RequestView::Copy { payload, source } = x {
            assert(cut.subrange(TAG_WIDTH as int, TAG_WIDTH + LEN_WIDTH) == all.subrange(
                TAG_WIDTH as int,
                TAG_WIDTH + LEN_WIDTH,
            ));
        }
    }
}

/// An encoded response cut short is not a response.
pub proof fn truncated_response_is_rejected(m: ResponseView, kept: int)
    requires
        response_fits(m),
        0 <= kept < encode_response_spec(m).len(),
    ensures
        decode_response_spec(encode_response_spec(m).take(kept)) == Err::<
            ResponseView,
            ProtocolError,
        >(ProtocolError::Malformed),
{
    let all = encode_response_spec(m);
    let cut = all.take(kept);
    response_layout(m);
    assert forall|x: ResponseView| response_fits(x) && #[trigger] encode_response_spec(x)
        == cut implies false by {
        response_layout(x);
        assert(cut.len() == kept);
        assert(cut.take(TAG_WIDTH as int) == all.take(TAG_WIDTH as int));
        if kept >= TAG_WIDTH + LEN_WIDTH {
            assert(cut.subrange(TAG_WIDTH as int, TAG_WIDTH + LEN_WIDTH) == all.subrange(
                TAG_WIDTH as int,
                TAG_WIDTH + LEN_WIDTH,
            ));
        }
    }
}

/// Appends the encoding of a byte string to `out`.
fn put_bytes_field(out: &mut Vec<u8>, data: &[u8])
    ensures
        final(out)@ == old(out)@ + bytes_field(data@),
        data@.len() <= usize::MAX,
{
    put_le(out, data.len() as u64, LEN_WIDTH);
    append_bytes(out, data);
    assert((old(out)@ + le_bytes(data@.len(), LEN_WIDTH as nat)) + data@ == old(out)@ + (le_bytes(
        data@.len(),
        LEN_WIDTH as nat,
    ) + data@));
}

/// Encodes a request.
pub fn encode_request(m: &Request) -> (r: Vec<u8>)
    ensures
        r@ == encode_request_spec(m@),
        request_fits(m@),
{
    proof {
        radix_of_machine_widths();
    }
    let mut out: Vec<u8> = Vec::new();
    match m {
        Request::Copy { payload, source } => {
            put_le(&mut out, 0, TAG_WIDTH);
            put_bytes_field(&mut out, payload.as_slice());
            let tag: u64 = match source {
                CopySource::User => 0,
                CopySource::Wayland => 1,
            };
            put_le(&mut out, tag, TAG_WIDTH);
            assert(out@ == encode_request_spec(m@));
        },
        Request::Paste => {
            put_le(&mut out, 1, TAG_WIDTH);
            assert(out@ == encode_request_spec(m@));
        },
    }
    out
}

/// Encodes a response.
pub fn encode_response(m: &Response) -> (r: Vec<u8>)
    ensures
        r@ == encode_response_spec(m@),
        response_fits(m@),
{
    proof {
        radix_of_machine_widths();
    }
    let mut out: Vec<u8> = Vec::new();
    match m {
        Response::Stored => {
            put_le(&mut out, 0, TAG_WIDTH);
            assert(out@ == encode_response_spec(m@));
        },
        Response::Payload { data } => {
            put_le(&mut out, 1, TAG_WIDTH);
            put_bytes_field(&mut out, data.as_slice());
            assert(out@ == encode_response_spec(m@));
        },
        Response::Error { message } => {
            put_le(&mut out, 2, TAG_WIDTH);
            let text = message.as_str().as_bytes();
            put_bytes_field(&mut out, text);
            assert(out@ == encode_response_spec(m@));
        },
    }
    out
}

/// Decodes a request: succeeds on exactly the encodings of requests.
pub fn decode_request(bytes: &[u8]) -> (r: Result<Request, ProtocolError>)
    ensures
        request_result_view(r) == decode_request_spec(bytes@),
        r matches Ok(m) ==> encode_request_spec(m@) == bytes@,
{
    let total = bytes.len();
    proof {
        radix_of_machine_widths();
        assert forall|x: RequestView| request_fits(x) && #[trigger] encode_request_spec(x)
            == bytes@ implies request_shape(x, bytes@) by {
            request_layout(x);
        }
    }
    if total < TAG_WIDTH {
        return Err(ProtocolError::Malformed);
    }
    let tag = get_le(bytes, 0, TAG_WIDTH);
    assert(bytes@.subrange(0, TAG_WIDTH as int) == bytes@.take(TAG_WIDTH as int));
    if tag == 1 {
        if total != TAG_WIDTH {
            return Err(ProtocolError::Malformed);
        }
        let m = Request::Paste;
        proof {
            assert(bytes@.take(TAG_WIDTH as int) == bytes@);
            le_bytes_of_le_value(bytes@);
            assert(encode_request_spec(m@) == bytes@);
            request_round_trip(m@);
        }
        return Ok(m);
    }
    if tag != 0 {
        return Err(ProtocolError::Malformed);
    }
    if total < TAG_WIDTH + LEN_WIDTH + TAG_WIDTH {
        return Err(ProtocolError::Malformed);
    }
    let declared = get_le(bytes, TAG_WIDTH, LEN_WIDTH);
    if declared != (total - (TAG_WIDTH + LEN_WIDTH + TAG_WIDTH)) as u64 {
        return Err(ProtocolError::Malformed);
    }
    let data_end = total - TAG_WIDTH;
    let payload = copy_range(bytes, TAG_WIDTH + LEN_WIDTH, data_end);
    let source_number = get_le(bytes, data_end, TAG_WIDTH);
    let source = if source_number == 0 {
        CopySource::User
    } else if source_number == 1 {
        CopySource::Wayland
    } else {
        return Err(ProtocolError::Malformed);
    };
    let m = Request::Copy { payload, source };
    proof {
        let head = bytes@.take(TAG_WIDTH as int);
        let len_bytes = bytes@.subrange(TAG_WIDTH as int, TAG_WIDTH + LEN_WIDTH);
        let tail = bytes@.subrange(data_end as int, total as int);
        le_bytes_of_le_value(head);
        le_bytes_of_le_value(len_bytes);
        le_bytes_of_le_value(tail);
        assert(source_tag(source) == source_number);
        assert(bytes@ == head + (len_bytes + payload@) + tail);
        assert(encode_request_spec(m@) == bytes@);
        request_round_trip(m@);
    }
    Ok(m)
}

/// Decodes a response: succeeds on exactly the encodings of responses.
pub fn decode_response(bytes: &[u8]) -> (r: Result<Response, ProtocolError>)
    ensures
        response_result_view(r) == decode_response_spec(bytes@),
        r matches Ok(m) ==> encode_response_spec(m@) == bytes@,
{
    let total = bytes.len();
    proof {
        radix_of_machine_widths();
        assert forall|x: ResponseView| response_fits(x) && #[trigger] encode_response_spec(x)
            == bytes@ implies response_shape(x, bytes@) by {
            response_layout(x);
        }
    }
    if total < TAG_WIDTH {
        return Err(ProtocolError::Malformed);
    }
    let tag = get_le(bytes, 0, TAG_WIDTH);
    assert(bytes@.subrange(0, TAG_WIDTH as int) == bytes@.take(TAG_WIDTH as int));
    if tag == 0 {
        if total != TAG_WIDTH {
            return Err(ProtocolError::Malformed);
        }
        let m = Response::Stored;
        proof {
            assert(bytes@.take(TAG_WIDTH as int) == bytes@);
            le_bytes_of_le_value(bytes@);
            assert(encode_response_spec(m@) == bytes@);
            response_round_trip(m@);
        }
        return Ok(m);
    }
    if tag != 1 && tag != 2 {
        return Err(ProtocolError::Malformed);
    }
    if total < TAG_WIDTH + LEN_WIDTH {
        return Err(ProtocolError::Malformed);
    }
    let declared = get_le(bytes, TAG_WIDTH, LEN_WIDTH);
    if declared != (total - (TAG_WIDTH + LEN_WIDTH)) as u64 {
        return Err(ProtocolError::Malformed);
    }
    let data = copy_range(bytes, TAG_WIDTH + LEN_WIDTH, total);
    let ghost head = bytes@.take(TAG_WIDTH as int);
    let ghost len_bytes = bytes@.subrange(TAG_WIDTH as int, TAG_WIDTH + LEN_WIDTH);
    proof {
        le_bytes_of_le_value(head);
        le_bytes_of_le_value(len_bytes);
        assert(bytes@ == head + (len_bytes + data@));
    }
    if tag == 1 {
        let m = Response::Payload { data };
        proof {
            assert(encode_response_spec(m@) == bytes@);
            response_round_trip(m@);
        }
        Ok(m)
    } else {
        let ghost text = data@;
        match utf8_string(data) {
            Some(message) => {
                let m = Response::Error { message };
                proof {
                    assert(encode_response_spec(m@) == bytes@);
                    response_round_trip(m@);
                }
                Ok(m)
            },
            None => {
                proof {
                    assert forall|x: ResponseView| response_fits(x) && #[trigger] encode_response_spec(
                        x,
                    ) == bytes@ implies false by {
                        if let ResponseView::Error { message } = x {
                            encode_utf8_valid_utf8(message);
                        }
                    }
                }
                Err(ProtocolError::Malformed)
            },
        }
    }
}

} // verus!
