use comet::codec::{add_status, build_response_frame, decode_frame, decode_header, encode_frame,
    encode_header, encode_varint, parse_pairs, take_varint, CodecError, Header, ProtoPayload};
use comet::msg::{encode_fields, parse_fields, Field, FieldVal};

fn header(sort: u32, type_: u32, oseq: Option<u32>, unknown: Vec<(u32, u64)>) -> Header {
    let mut h = Header::new();
    h.sort = sort;
    h.type_ = type_;
    h.oseq = oseq;
    h.unknown = unknown;
    h
}

#[test]
fn varint_small_value_is_one_byte() {
    let mut out: Vec<u8> = Vec::new();
    encode_varint(&mut out, 5);
    assert_eq!(out, vec![5u8]);
    assert_eq!(take_varint(&out, 0), Some((5u64, 1usize)));
}

#[test]
fn varint_multi_byte_round_trip() {
    let mut out: Vec<u8> = Vec::new();
    encode_varint(&mut out, 300);
    assert_eq!(out, vec![0xACu8, 0x02]);
    assert_eq!(take_varint(&out, 0), Some((300u64, 2usize)));
    let mut big: Vec<u8> = Vec::new();
    encode_varint(&mut big, u64::MAX);
    assert_eq!(big.len(), 10);
    assert_eq!(take_varint(&big, 0), Some((u64::MAX, 10usize)));
}

#[test]
fn header_round_trips_through_bytes() {
    let h = header(1, 42, Some(9), vec![(100, 7)]);
    let bytes = encode_header(&h);
    let h2 = decode_header(&bytes).expect("header must decode");
    assert_eq!(h2.sort, 1);
    assert_eq!(h2.type_, 42);
    assert_eq!(h2.size, 0);
    assert_eq!(h2.oseq, Some(9));
    assert_eq!(h2.unknown, vec![(100u32, 7u64)]);
}

#[test]
fn frame_round_trips_and_sets_size() {
    let mut h = header(1, 42, Some(9), vec![(100, 7)]);
    let payload = vec![1u8, 2, 3];
    let frame = encode_frame(&mut h, &payload);
    assert_eq!(h.size, 3);
    let pp = decode_frame(&frame).expect("frame must decode");
    assert_eq!(pp.header.sort, 1);
    assert_eq!(pp.header.type_, 42);
    assert_eq!(pp.header.size, 3);
    assert_eq!(pp.header.oseq, Some(9));
    assert_eq!(pp.header.unknown, vec![(100u32, 7u64)]);
    assert_eq!(pp.payload, payload);
}

#[test]
fn frame_round_trips_with_empty_payload_and_no_oseq() {
    let mut h = header(2, 11, None, vec![]);
    let frame = encode_frame(&mut h, &Vec::new());
    let pp = decode_frame(&frame).expect("frame must decode");
    assert_eq!(pp.header.size, 0);
    assert_eq!(pp.header.oseq, None);
    assert!(pp.payload.is_empty());
}

#[test]
fn short_input_is_truncated() {
    assert!(matches!(decode_frame(&[]), Err(CodecError::Truncated)));
    assert!(matches!(decode_frame(&[0u8]), Err(CodecError::Truncated)));
    // Length prefix promises two header bytes, none follow.
    assert!(matches!(decode_frame(&[0u8, 2]), Err(CodecError::Truncated)));
}

#[test]
fn bad_header_bytes_are_refused() {
    // One header byte that is an unterminated varint.
    assert!(matches!(decode_frame(&[0u8, 1, 0x80]), Err(CodecError::BadHeader)));
    // A key with a wire kind the header grammar does not allow.
    assert!(matches!(decode_frame(&[0u8, 1, 0x0D]), Err(CodecError::BadHeader)));
}

#[test]
fn truncated_payload_is_detected() {
    let mut h = header(1, 1, None, vec![]);
    let frame = encode_frame(&mut h, &vec![1u8, 2, 3, 4]);
    let cut = &frame[..frame.len() - 1];
    assert!(matches!(decode_frame(cut), Err(CodecError::Truncated)));
}

#[test]
fn response_mirrors_oseq_in_field_100() {
    let request = header(1, 5, Some(77), vec![]);
    let mut response = ProtoPayload { header: header(0, 6, None, vec![]), payload: vec![9u8] };
    let bytes = build_response_frame(&request, &mut response);
    assert_eq!(response.header.sort, 1);
    let pp = decode_frame(&bytes).expect("response frame must decode");
    assert!(pp.header.unknown.contains(&(100u32, 77u64)));
    assert_eq!(pp.payload, vec![9u8]);
}

#[test]
fn response_without_oseq_gets_no_correlation_field() {
    let request = header(1, 5, None, vec![]);
    let mut response = ProtoPayload { header: header(0, 6, None, vec![]), payload: Vec::new() };
    let bytes = build_response_frame(&request, &mut response);
    let pp = decode_frame(&bytes).expect("response frame must decode");
    assert!(pp.header.unknown.iter().all(|f| f.0 != 100));
}

#[test]
fn status_mirror_uses_field_101() {
    let mut h = header(1, 5, None, vec![]);
    add_status(&mut h, 409);
    assert_eq!(h.unknown, vec![(101u32, 409u64)]);
}

#[test]
fn pairs_parse_rejects_zero_field_number() {
    // Key 0 means field number zero, which no message has.
    assert!(parse_pairs(&[0u8, 0]).is_none());
}

#[test]
fn message_fields_round_trip() {
    let fields = vec![
        Field { num: 1, val: FieldVal::Bytes(b"hello".to_vec()) },
        Field { num: 2, val: FieldVal::Varint(300) },
        Field { num: 3, val: FieldVal::Bytes(Vec::new()) },
    ];
    let bytes = encode_fields(&fields);
    let parsed = parse_fields(&bytes).expect("fields must parse");
    assert_eq!(parsed.len(), 3);
    match &parsed[0].val {
        FieldVal::Bytes(b) => assert_eq!(b, b"hello"),
        _ => panic!("field 1 must be bytes"),
    }
    match &parsed[1].val {
        FieldVal::Varint(v) => assert_eq!(*v, 300),
        _ => panic!("field 2 must be a varint"),
    }
}

#[test]
fn message_fields_reject_truncated_bytes() {
    let fields = vec![Field { num: 1, val: FieldVal::Bytes(b"hello".to_vec()) }];
    let bytes = encode_fields(&fields);
    assert!(parse_fields(&bytes[..bytes.len() - 1]).is_none());
}
