use bifrost::frame::{CommandBuilder, FrameError, RespCodec};
use bifrost::resp::{RespError, RespType};
use bytes::BytesMut;

fn bulk(s: &str) -> RespType {
    RespType::BulkString(s.to_string())
}

fn samples() -> Vec<RespType> {
    vec![
        RespType::Null,
        RespType::Integer(-17),
        RespType::SimpleString("OK".to_string()),
        RespType::Error("ERR no".to_string()),
        bulk("hello"),
        bulk("a\r\nb"),
        bulk("\u{1f600} smile"),
        RespType::Array(vec![bulk("SET"), bulk("key"), bulk("value")]),
        RespType::Array(vec![
            RespType::Array(vec![RespType::Integer(1), RespType::Null]),
            RespType::Array(vec![]),
            bulk("tail"),
        ]),
    ]
}

#[test]
fn nothing_buffered_means_wait() {
    let mut codec = RespCodec;
    let mut buffer = BytesMut::new();
    assert!(matches!(codec.decode(&mut buffer), Ok(None)));
    assert!(buffer.is_empty());
}

#[test]
fn a_whole_value_is_taken_off_the_buffer() {
    let mut codec = RespCodec;
    let mut buffer = BytesMut::from("+OK\r\n:12\r\n$3\r\nab");
    assert_eq!(
        codec.decode(&mut buffer).unwrap(),
        Some(RespType::SimpleString("OK".to_string()))
    );
    assert_eq!(&buffer[..], b":12\r\n$3\r\nab");
    assert_eq!(codec.decode(&mut buffer).unwrap(), Some(RespType::Integer(12)));
    assert_eq!(&buffer[..], b"$3\r\nab");
    assert_eq!(codec.decode(&mut buffer).unwrap(), None);
    assert_eq!(&buffer[..], b"$3\r\nab");
    buffer.extend_from_slice(b"c\r\n");
    assert_eq!(codec.decode(&mut buffer).unwrap(), Some(bulk("abc")));
    assert!(buffer.is_empty());
}

#[test]
fn any_split_in_two_gives_the_same_value() {
    for value in samples() {
        let wire = value.to_bytes();
        for cut in 0..=wire.len() {
            let mut codec = RespCodec;
            let mut buffer = BytesMut::new();
            buffer.extend_from_slice(&wire[..cut]);
            let first = codec.decode(&mut buffer).unwrap();
            if cut < wire.len() {
                assert_eq!(first, None, "split at {} of {:?}", cut, value);
                assert_eq!(&buffer[..], &wire[..cut]);
                buffer.extend_from_slice(&wire[cut..]);
                assert_eq!(codec.decode(&mut buffer).unwrap(), Some(value.clone()));
            } else {
                assert_eq!(first, Some(value.clone()));
            }
            assert!(buffer.is_empty());
        }
    }
}

#[test]
fn byte_by_byte_delivery() {
    let values = samples();
    let mut wire = Vec::new();
    for value in &values {
        wire.extend_from_slice(&value.to_bytes());
    }
    let mut codec = RespCodec;
    let mut buffer = BytesMut::new();
    let mut seen = Vec::new();
    for byte in wire {
        buffer.extend_from_slice(&[byte]);
        if let Some(value) = codec.decode(&mut buffer).unwrap() {
            seen.push(value);
        }
    }
    assert_eq!(seen, values);
    assert!(buffer.is_empty());
}

#[test]
fn a_broken_frame_is_an_error_and_stays_buffered() {
    let mut codec = RespCodec;
    let mut buffer = BytesMut::from("x5\r\nhello\r\n");
    let error = codec.decode(&mut buffer).unwrap_err();
    assert_eq!(error.message(), "Other error: Invalid RESP data type!");
    assert_eq!(&buffer[..], b"x5\r\nhello\r\n");
}

#[test]
fn encoding_appends_to_the_buffer() {
    let mut codec = RespCodec;
    let mut buffer = BytesMut::from("+OK\r\n");
    codec.encode(bulk("hi"), &mut buffer).unwrap();
    assert_eq!(&buffer[..], b"+OK\r\n$2\r\nhi\r\n");
    codec
        .encode(RespType::Array(vec![RespType::Integer(1)]), &mut buffer)
        .unwrap();
    assert_eq!(&buffer[..], b"+OK\r\n$2\r\nhi\r\n*1\r\n:1\r\n");
}

#[test]
fn frame_error_carries_the_decoding_error() {
    let error = FrameError::from(RespError::InvalidInteger("Invalid integer format".to_string()));
    assert_eq!(error.message(), "Invalid integer: Invalid integer format");
    assert_eq!(FrameError::from(RespError::Incomplete).message(), "Incomplete RESP data");
}

#[test]
fn command_builder_collects_parts() {
    let mut builder = CommandBuilder::new(2);
    assert!(!builder.all_parts_received());
    assert_eq!(builder.build(), Vec::<RespType>::new());
    builder.add_part(bulk("GET"));
    assert!(!builder.all_parts_received());
    builder.add_part(bulk("key"));
    assert!(builder.all_parts_received());
    assert_eq!(builder.build(), vec![bulk("GET"), bulk("key")]);
    builder.add_part(RespType::Integer(1));
    assert!(!builder.all_parts_received());
    assert_eq!(builder.build().len(), 3);
}

#[test]
fn command_builder_without_parts_is_complete() {
    let builder = CommandBuilder::new(0);
    assert!(builder.all_parts_received());
    assert!(builder.build().is_empty());
}
