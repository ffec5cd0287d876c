use clipto::codec::{decode_request, decode_response, encode_request, encode_response};
use clipto::frame::{frame_len, read_frame, write_frame, MAX_FRAME_LEN};
use clipto::{CopySource, ProtocolError, Request, Response};
use serde::ser::SerializeStructVariant;
use serde::{Serialize, Serializer};

fn framed(body: &[u8]) -> Vec<u8> {
    let mut out: Vec<u8> = Vec::new();
    assert_eq!(write_frame(&mut out, body), Ok(()));
    out
}

#[test]
fn frame_is_length_then_body() {
    assert_eq!(framed(b"abc"), vec![3, 0, 0, 0, 97, 98, 99]);
    assert_eq!(framed(b""), vec![0, 0, 0, 0]);
    let body: Vec<u8> = vec![7u8; 0x0102];
    let frame = framed(&body);
    assert_eq!(&frame[..4], &[0x02, 0x01, 0, 0]);
    assert_eq!(&frame[4..], body.as_slice());
    let body: Vec<u8> = vec![7u8; 0x0003_0201];
    assert_eq!(&framed(&body)[..4], &[0x01, 0x02, 0x03, 0]);
}

#[test]
fn write_frame_appends_to_what_is_there() {
    let mut out: Vec<u8> = vec![1, 2];
    assert_eq!(write_frame(&mut out, b"z"), Ok(()));
    assert_eq!(out, vec![1, 2, 1, 0, 0, 0, 122]);
}

#[test]
fn read_frame_returns_the_body_and_the_frame_length() {
    let frame = framed(b"hello");
    assert_eq!(read_frame(&frame), Ok((b"hello".to_vec(), 9)));
    assert_eq!(read_frame(&framed(b"")), Ok((Vec::new(), 4)));
}

#[test]
fn read_frame_leaves_what_follows_the_frame() {
    let mut input = framed(b"one");
    input.extend_from_slice(&framed(b"second"));
    let (body, used) = read_frame(&input).expect("the first frame is whole");
    assert_eq!(body, b"one".to_vec());
    assert_eq!(used, 7);
    assert_eq!(read_frame(&input[used..]), Ok((b"second".to_vec(), 10)));
}

#[test]
fn every_truncation_of_a_frame_is_reported() {
    let frame = framed(b"payload");
    for kept in 0..frame.len() {
        assert_eq!(read_frame(&frame[..kept]), Err(ProtocolError::Truncated));
    }
    assert!(read_frame(&frame).is_ok());
}

#[test]
fn oversized_declared_length_is_refused() {
    let limit: u32 = MAX_FRAME_LEN as u32;
    assert_eq!(limit, 64 * 1024 * 1024);
    let too_long = (limit + 1).to_le_bytes();
    assert_eq!(frame_len(&too_long), Err(ProtocolError::Oversized));
    assert_eq!(read_frame(&too_long), Err(ProtocolError::Oversized));
    assert_eq!(frame_len(&[0xFF; 4]), Err(ProtocolError::Oversized));
    assert_eq!(read_frame(&[0xFF, 0xFF, 0xFF, 0xFF, 1, 2, 3]), Err(ProtocolError::Oversized));
}

#[test]
fn longest_declared_length_is_accepted() {
    let limit: u32 = MAX_FRAME_LEN as u32;
    assert_eq!(frame_len(&limit.to_le_bytes()), Ok(MAX_FRAME_LEN));
    assert_eq!(frame_len(&[0, 0, 0, 0]), Ok(0));
    assert_eq!(frame_len(&[5, 1, 0, 0]), Ok(261));
    assert_eq!(frame_len(&[0x04, 0x03, 0x02, 0x01]), Ok(0x0102_0304));
    assert_eq!(read_frame(&limit.to_le_bytes()), Err(ProtocolError::Truncated));
}

#[test]
fn oversized_body_is_not_written() {
    let body: Vec<u8> = vec![0u8; MAX_FRAME_LEN + 1];
    let mut out: Vec<u8> = vec![5];
    assert_eq!(write_frame(&mut out, &body), Err(ProtocolError::Oversized));
    assert_eq!(out, vec![5]);
}

#[test]
fn longest_body_round_trips() {
    let body: Vec<u8> = vec![0xABu8; MAX_FRAME_LEN];
    let frame = framed(&body);
    assert_eq!(frame.len(), MAX_FRAME_LEN + 4);
    let (read, used) = read_frame(&frame).expect("the frame is whole");
    assert_eq!(used, frame.len());
    assert!(read == body);
}

#[test]
fn requests_encode_as_variant_then_fields() {
    assert_eq!(encode_request(&Request::Paste), vec![1, 0, 0, 0]);
    assert_eq!(
        encode_request(&Request::Copy { payload: b"hi".to_vec(), source: CopySource::User }),
        vec![0, 0, 0, 0, 2, 0, 0, 0, 0, 0, 0, 0, 104, 105, 0, 0, 0, 0]
    );
    assert_eq!(
        encode_request(&Request::Copy { payload: Vec::new(), source: CopySource::Wayland }),
        vec![0, 0, 0, 0, 0, 0, 0, 0, 0, 0, 0, 0, 1, 0, 0, 0]
    );
}

#[test]
fn responses_encode_as_variant_then_fields() {
    assert_eq!(encode_response(&Response::Stored), vec![0, 0, 0, 0]);
    assert_eq!(
        encode_response(&Response::Payload { data: vec![9, 8, 7] }),
        vec![1, 0, 0, 0, 3, 0, 0, 0, 0, 0, 0, 0, 9, 8, 7]
    );
    assert_eq!(
        encode_response(&Response::Error { message: String::from("n\u{e9}") }),
        vec![2, 0, 0, 0, 3, 0, 0, 0, 0, 0, 0, 0, 110, 0xC3, 0xA9]
    );
}

/// A request as serde sees it: an enum with a struct variant and a unit
/// variant, serialized the way a derived impl does.
enum SerdeRequest {
    Copy { payload: Vec<u8>, source: SerdeSource },
    Paste,
}

enum SerdeSource {
    User,
    Wayland,
}

enum SerdeResponse {
    Stored,
    Payload { data: Vec<u8> },
    Error { message: String },
}

impl Serialize for SerdeSource {
    fn serialize<S: Serializer>(&self, serializer: S) -> Result<S::Ok, S::Error> {
        match self {
            SerdeSource::User => serializer.serialize_unit_variant("CopySource", 0, "User"),
            SerdeSource::Wayland => serializer.serialize_unit_variant("CopySource", 1, "Wayland"),
        }
    }
}

impl Serialize for SerdeRequest {
    fn serialize<S: Serializer>(&self, serializer: S) -> Result<S::Ok, S::Error> {
        match self {
            SerdeRequest::Copy { payload, source } => {
                let mut variant = serializer.serialize_struct_variant("Request", 0, "Copy", 2)?;
                variant.serialize_field("payload", payload)?;
                variant.serialize_field("source", source)?;
                variant.end()
            }
            SerdeRequest::Paste => serializer.serialize_unit_variant("Request", 1, "Paste"),
        }
    }
}

impl Serialize for SerdeResponse {
    fn serialize<S: Serializer>(&self, serializer: S) -> Result<S::Ok, S::Error> {
        match self {
            SerdeResponse::Stored => serializer.serialize_unit_variant("Response", 0, "Stored"),
            SerdeResponse::Payload { data } => {
                let mut variant = serializer.serialize_struct_variant("Response", 1, "Payload", 1)?;
                variant.serialize_field("data", data)?;
                variant.end()
            }
            SerdeResponse::Error { message } => {
                let mut variant = serializer.serialize_struct_variant("Response", 2, "Error", 1)?;
                variant.serialize_field("message", message)?;
                variant.end()
            }
        }
    }
}

fn bincode_of<T: Serialize>(value: &T) -> Vec<u8> {
    bincode::serialize(value).expect("serializes")
}

#[test]
fn requests_encode_as_bincode_encodes_the_same_enum() {
    let payloads: [Vec<u8>; 3] = [Vec::new(), b"hello".to_vec(), (0u8..=255).collect()];
    for payload in payloads {
        assert_eq!(
            encode_request(&Request::Copy { payload: payload.clone(), source: CopySource::User }),
            bincode_of(&SerdeRequest::Copy { payload: payload.clone(), source: SerdeSource::User })
        );
        assert_eq!(
            encode_request(&Request::Copy { payload: payload.clone(), source: CopySource::Wayland }),
            bincode_of(&SerdeRequest::Copy { payload, source: SerdeSource::Wayland })
        );
    }
    assert_eq!(encode_request(&Request::Paste), bincode_of(&SerdeRequest::Paste));
}

#[test]
fn responses_encode_as_bincode_encodes_the_same_enum() {
    assert_eq!(encode_response(&Response::Stored), bincode_of(&SerdeResponse::Stored));
    let payloads: [Vec<u8>; 3] = [Vec::new(), b"hello".to_vec(), (0u8..=255).collect()];
    for data in payloads {
        assert_eq!(
            encode_response(&Response::Payload { data: data.clone() }),
            bincode_of(&SerdeResponse::Payload { data })
        );
    }
    for message in ["", "clipboard is empty", "clipboard is empty \u{2014} na\u{ef}ve"] {
        assert_eq!(
            encode_response(&Response::Error { message: String::from(message) }),
            bincode_of(&SerdeResponse::Error { message: String::from(message) })
        );
    }
}

#[test]
fn what_bincode_encodes_is_decoded() {
    let request = bincode_of(&SerdeRequest::Copy {
        payload: b"from another client".to_vec(),
        source: SerdeSource::Wayland,
    });
    assert_eq!(
        decode_request(&request),
        Ok(Request::Copy { payload: b"from another client".to_vec(), source: CopySource::Wayland })
    );
    assert_eq!(decode_request(&bincode_of(&SerdeRequest::Paste)), Ok(Request::Paste));
    let response = bincode_of(&SerdeResponse::Error { message: String::from("decryption failed") });
    assert_eq!(
        decode_response(&response),
        Ok(Response::Error { message: String::from("decryption failed") })
    );
    let payload = bincode_of(&SerdeResponse::Payload { data: vec![0, 1, 2] });
    assert_eq!(decode_response(&payload), Ok(Response::Payload { data: vec![0, 1, 2] }));
}

#[test]
fn requests_round_trip() {
    let cases = vec![
        Request::Paste,
        Request::Copy { payload: Vec::new(), source: CopySource::User },
        Request::Copy { payload: b"hello".to_vec(), source: CopySource::User },
        Request::Copy { payload: (0u8..=255).collect(), source: CopySource::Wayland },
    ];
    for request in cases {
        let bytes = encode_request(&request);
        assert_eq!(decode_request(&bytes), Ok(request));
    }
}

#[test]
fn responses_round_trip() {
    let cases = vec![
        Response::Stored,
        Response::Payload { data: Vec::new() },
        Response::Payload { data: (0u8..=255).collect() },
        Response::Error { message: String::new() },
        Response::Error { message: String::from("clipboard is empty") },
        Response::Error { message: String::from("\u{1F4CB} \u{fc}ber") },
    ];
    for response in cases {
        let bytes = encode_response(&response);
        assert_eq!(decode_response(&bytes), Ok(response));
    }
}

#[test]
fn framed_request_round_trips() {
    let request = Request::Copy { payload: b"over the wire".to_vec(), source: CopySource::Wayland };
    let frame = framed(&encode_request(&request));
    let (body, used) = read_frame(&frame).expect("the frame is whole");
    assert_eq!(used, frame.len());
    assert_eq!(decode_request(&body), Ok(request));
}

#[test]
fn every_truncation_of_a_request_is_malformed() {
    let bytes = encode_request(&Request::Copy { payload: b"abc".to_vec(), source: CopySource::User });
    for kept in 0..bytes.len() {
        assert_eq!(decode_request(&bytes[..kept]), Err(ProtocolError::Malformed));
    }
}

#[test]
fn every_truncation_of_a_response_is_malformed() {
    let payload = encode_response(&Response::Payload { data: b"abc".to_vec() });
    for kept in 0..payload.len() {
        assert_eq!(decode_response(&payload[..kept]), Err(ProtocolError::Malformed));
    }
    let error = encode_response(&Response::Error { message: String::from("no") });
    for kept in 0..error.len() {
        assert_eq!(decode_response(&error[..kept]), Err(ProtocolError::Malformed));
    }
}

#[test]
fn request_with_unknown_variant_is_malformed() {
    assert_eq!(decode_request(&[2, 0, 0, 0]), Err(ProtocolError::Malformed));
    assert_eq!(decode_request(&[1, 1, 0, 0]), Err(ProtocolError::Malformed));
    assert_eq!(decode_request(&[0, 0, 0, 1]), Err(ProtocolError::Malformed));
    assert_eq!(decode_request(&[]), Err(ProtocolError::Malformed));
}

#[test]
fn request_with_trailing_bytes_is_malformed() {
    assert_eq!(decode_request(&[1, 0, 0, 0, 0]), Err(ProtocolError::Malformed));
    let mut bytes = encode_request(&Request::Copy { payload: b"x".to_vec(), source: CopySource::User });
    bytes.push(0);
    assert_eq!(decode_request(&bytes), Err(ProtocolError::Malformed));
}

#[test]
fn request_with_wrong_payload_length_is_malformed() {
    let declared_too_long: Vec<u8> = vec![0, 0, 0, 0, 3, 0, 0, 0, 0, 0, 0, 0, 104, 105, 0, 0, 0, 0];
    assert_eq!(decode_request(&declared_too_long), Err(ProtocolError::Malformed));
    let declared_too_short: Vec<u8> = vec![0, 0, 0, 0, 1, 0, 0, 0, 0, 0, 0, 0, 104, 105, 0, 0, 0, 0];
    assert_eq!(decode_request(&declared_too_short), Err(ProtocolError::Malformed));
    let declared_huge: Vec<u8> = vec![0, 0, 0, 0, 2, 0, 0, 0, 0, 0, 0, 0x80, 104, 105, 0, 0, 0, 0];
    assert_eq!(decode_request(&declared_huge), Err(ProtocolError::Malformed));
}

#[test]
fn request_with_unknown_source_is_malformed() {
    let bytes: Vec<u8> = vec![0, 0, 0, 0, 2, 0, 0, 0, 0, 0, 0, 0, 104, 105, 2, 0, 0, 0];
    assert_eq!(decode_request(&bytes), Err(ProtocolError::Malformed));
    let high: Vec<u8> = vec![0, 0, 0, 0, 2, 0, 0, 0, 0, 0, 0, 0, 104, 105, 0, 0, 0, 1];
    assert_eq!(decode_request(&high), Err(ProtocolError::Malformed));
}

#[test]
fn response_with_unknown_variant_is_malformed() {
    assert_eq!(decode_response(&[3, 0, 0, 0]), Err(ProtocolError::Malformed));
    assert_eq!(decode_response(&[0, 0, 0, 0, 0]), Err(ProtocolError::Malformed));
    assert_eq!(decode_response(&[1, 0, 0, 0]), Err(ProtocolError::Malformed));
    assert_eq!(decode_response(&[2, 0, 0]), Err(ProtocolError::Malformed));
}

#[test]
fn response_with_invalid_text_is_malformed() {
    let bytes: Vec<u8> = vec![2, 0, 0, 0, 2, 0, 0, 0, 0, 0, 0, 0, 0xC3, 0x28];
    assert_eq!(decode_response(&bytes), Err(ProtocolError::Malformed));
    let lone_continuation: Vec<u8> = vec![2, 0, 0, 0, 1, 0, 0, 0, 0, 0, 0, 0, 0x80];
    assert_eq!(decode_response(&lone_continuation), Err(ProtocolError::Malformed));
}

#[test]
fn payload_bytes_need_not_be_text() {
    let bytes: Vec<u8> = vec![1, 0, 0, 0, 2, 0, 0, 0, 0, 0, 0, 0, 0xC3, 0x28];
    assert_eq!(decode_response(&bytes), Ok(Response::Payload { data: vec![0xC3, 0x28] }));
}
