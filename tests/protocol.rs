use shelly::protocol::{
    decode_header, decode_request_payload, decode_response_payload, encode_packet, encode_request,
    encode_request_ack, encode_response, encode_response_payload, CommError, MsgType, RequestPayload,
    ResponsePayload,
};

#[test]
fn test_request_encode_decode() {
    let payload = RequestPayload { content: "hello".to_string() };
    let seq = 1u32;

    let packet = encode_request(seq, &payload).unwrap();
    let (decoded_type, decoded_seq) = decode_header(&packet).unwrap();

    assert_eq!(decoded_type, MsgType::Request);
    assert_eq!(decoded_seq, seq);

    let decoded_payload = decode_request_payload(&packet[5..]).unwrap();
    assert_eq!(decoded_payload.content, "hello");
}

#[test]
fn test_request_ack_no_payload() {
    let seq = 42u32;
    let packet = encode_request_ack(seq).unwrap();

    assert_eq!(packet.len(), 5);
    let (msg_type, decoded_seq) = decode_header(&packet).unwrap();
    assert_eq!(msg_type, MsgType::RequestAck);
    assert_eq!(decoded_seq, seq);
}

#[test]
fn test_response_encode_decode() {
    let payload = ResponsePayload { content: "result".to_string(), is_error: false };
    let seq = 1u32;

    let packet = encode_response(seq, &payload).unwrap();
    let (decoded_type, decoded_seq) = decode_header(&packet).unwrap();

    assert_eq!(decoded_type, MsgType::Response);
    assert_eq!(decoded_seq, seq);

    let decoded_payload = decode_response_payload(&packet[5..]).unwrap();
    assert_eq!(decoded_payload.content, "result");
    assert!(!decoded_payload.is_error);
}

#[test]
fn test_response_error() {
    let payload = ResponsePayload { content: "command not found".to_string(), is_error: true };
    let seq = 1u32;

    let packet = encode_response(seq, &payload).unwrap();
    let decoded_payload = decode_response_payload(&packet[5..]).unwrap();

    assert!(decoded_payload.is_error);
    assert_eq!(decoded_payload.content, "command not found");
}

#[test]
fn test_empty_content_request() {
    let payload = RequestPayload { content: "".to_string() };
    let seq = 1u32;

    let packet = encode_request(seq, &payload).unwrap();
    let decoded_payload = decode_request_payload(&packet[5..]).unwrap();

    assert_eq!(decoded_payload.content, "");
}

#[test]
fn test_large_payload() {
    let large_content = "x".repeat(60000);
    let payload = RequestPayload { content: large_content.clone() };
    let seq = 1u32;

    let packet = encode_request(seq, &payload).unwrap();
    let decoded_payload = decode_request_payload(&packet[5..]).unwrap();

    assert_eq!(decoded_payload.content.len(), 60000);
    assert_eq!(decoded_payload.content, large_content);
}

#[test]
fn test_invalid_msg_type() {
    let mut packet = vec![0xFFu8];
    packet.extend_from_slice(&1u32.to_be_bytes());

    let result = decode_header(&packet);
    assert!(result.is_err());
    assert!(matches!(result.unwrap_err(), CommError::DecodeError(_)));
}

#[test]
fn test_truncated_packet() {
    let result = decode_header(&[0x01, 0x00, 0x00]);
    assert!(result.is_err());

    let result = decode_header(&[0x01, 0x00, 0x00, 0x00, 0x01]);
    assert!(result.is_ok());
}

#[test]
fn test_seq_boundary_values() {
    let packet = encode_request_ack(0).unwrap();
    let (_, seq) = decode_header(&packet).unwrap();
    assert_eq!(seq, 0);

    let packet = encode_request_ack(u32::MAX).unwrap();
    let (_, seq) = decode_header(&packet).unwrap();
    assert_eq!(seq, u32::MAX);

    let packet = encode_request_ack(256).unwrap();
    let (_, seq) = decode_header(&packet).unwrap();
    assert_eq!(seq, 256);
    assert_eq!([packet[1], packet[2], packet[3], packet[4]], [0x00, 0x00, 0x01, 0x00]);
}

#[test]
fn test_special_characters() {
    let payload = RequestPayload { content: "你好🌮🎉".to_string() };
    let seq = 1u32;

    let packet = encode_request(seq, &payload).unwrap();
    let decoded_payload = decode_request_payload(&packet[5..]).unwrap();

    assert_eq!(decoded_payload.content, "你好🌮🎉");

    let payload = RequestPayload { content: "line1\nline2\r\nnull\0end".to_string() };
    let packet = encode_request(seq, &payload).unwrap();
    let decoded_payload = decode_request_payload(&packet[5..]).unwrap();

    assert_eq!(decoded_payload.content, "line1\nline2\r\nnull\0end");
}

#[test]
fn header_round_trip_for_every_kind() {
    for (t, tag) in [(MsgType::Request, 1u8), (MsgType::RequestAck, 2u8), (MsgType::Response, 3u8)] {
        for seq in [0u32, 1, 255, 256, 65535, 0x01020304, u32::MAX] {
            let payload = vec![9u8, 8, 7];
            let packet = encode_packet(t, seq, &payload);
            assert_eq!(packet[0], tag);
            assert_eq!(&packet[1..5], &seq.to_be_bytes());
            assert_eq!(&packet[5..], &payload[..]);
            assert_eq!(decode_header(&packet).unwrap(), (t, seq));
        }
    }
}

#[test]
fn header_rejects_short_and_unknown() {
    for len in 0..5usize {
        let data = vec![1u8; len];
        assert!(matches!(decode_header(&data), Err(CommError::DecodeError(_))));
    }
    for tag in [0u8, 4, 0x7f, 0xff] {
        let data = [tag, 0, 0, 0, 1];
        assert!(matches!(decode_header(&data), Err(CommError::DecodeError(_))));
    }
    match decode_header(&[0x09, 0, 0, 0, 0]) {
        Err(CommError::DecodeError(msg)) => assert_eq!(msg, "Unknown msg type: 9"),
        other => panic!("unexpected {:?}", other),
    }
    match decode_header(&[0x01, 0]) {
        Err(CommError::DecodeError(msg)) => assert_eq!(msg, "Packet too short"),
        other => panic!("unexpected {:?}", other),
    }
}

#[test]
fn response_payload_is_a_compact_array() {
    let payload = ResponsePayload { content: "pong".to_string(), is_error: false };
    let bytes = encode_response_payload(&payload).unwrap();
    assert_eq!(bytes, vec![0x92, 0xa4, b'p', b'o', b'n', b'g', 0xc2]);
    let packet = encode_response(7, &payload).unwrap();
    assert_eq!(&packet[..5], &[0x03, 0, 0, 0, 7]);
    assert_eq!(&packet[5..], &bytes[..]);
}

#[test]
fn request_payload_is_a_compact_array() {
    let packet = encode_request(1, &RequestPayload { content: "ping".to_string() }).unwrap();
    assert_eq!(packet, vec![0x01, 0, 0, 0, 1, 0x91, 0xa4, b'p', b'i', b'n', b'g']);
}

#[test]
fn garbage_payload_is_a_decode_error() {
    assert!(matches!(decode_request_payload(&[0xc1]), Err(CommError::DecodeError(_))));
    assert!(matches!(decode_response_payload(&[]), Err(CommError::DecodeError(_))));
}

#[test]
fn kind_tags() {
    assert_eq!(MsgType::from_u8(1), Some(MsgType::Request));
    assert_eq!(MsgType::from_u8(2), Some(MsgType::RequestAck));
    assert_eq!(MsgType::from_u8(3), Some(MsgType::Response));
    assert_eq!(MsgType::from_u8(0), None);
    assert_eq!(MsgType::Response.as_u8(), 3);
}

#[test]
fn request_payload_as_a_map_is_accepted() {
    let mut data = vec![0x81, 0xa7];
    data.extend_from_slice(b"content");
    data.push(0xa4);
    data.extend_from_slice(b"ping");
    assert_eq!(decode_request_payload(&data).unwrap().content, "ping");
    let mut other = vec![0x81, 0xa5];
    other.extend_from_slice(b"other");
    other.push(0xa1);
    other.push(b'x');
    assert!(matches!(decode_request_payload(&other), Err(CommError::DecodeError(_))));
}

#[test]
fn request_map_with_other_fields_is_accepted() {
    // {"content": "hi", "n": 1}
    let mut data = vec![0x82, 0xa7];
    data.extend_from_slice(b"content");
    data.push(0xa2);
    data.extend_from_slice(b"hi");
    data.push(0xa1);
    data.push(b'n');
    data.push(0x01);
    assert_eq!(decode_request_payload(&data).unwrap().content, "hi");
    // {"content": 5}
    let mut bad = vec![0x81, 0xa7];
    bad.extend_from_slice(b"content");
    bad.push(0x05);
    assert!(matches!(decode_request_payload(&bad), Err(CommError::DecodeError(_))));
}
