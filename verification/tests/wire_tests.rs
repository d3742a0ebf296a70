use dfs_node::transport::encoding::{Decoder, DefaultDecoder, FrameError, LengthPrefixedDecoder, DEFAULT_MAX_FRAME_LEN};
use dfs_node::transport::message::{Message, PeerAddr};
use dfs_node::wire::{DecodeError, MessageData, MessageType, Payload};

fn addr(port: u16) -> PeerAddr {
    PeerAddr::V4 { ip: 0x7f00_0001, port }
}

#[test]
fn envelope_bytes_are_exact() {
    let p = Payload { from: "ab".to_string(), msg_type: MessageType::Store, msg: vec![7, 8, 9] };
    let expected: Vec<u8> = vec![
        2, 0, 0, 0, 0, 0, 0, 0, b'a', b'b', 0, 0, 0, 0, 3, 0, 0, 0, 0, 0, 0, 0, 7, 8, 9,
    ];
    assert_eq!(p.to_buffer(), expected);
}

#[test]
fn envelope_bytes_match_bincode() {
    let p = Payload { from: "127.0.0.1:4000".to_string(), msg_type: MessageType::Store, msg: vec![1, 2, 3, 4] };
    let reference = bincode::serialize(&("127.0.0.1:4000".to_string(), 0u32, vec![1u8, 2, 3, 4])).unwrap();
    assert_eq!(p.to_buffer(), reference);
    let d = MessageData { key: "k\u{e9}y".to_string(), data: vec![0xab; 300] };
    let reference = bincode::serialize(&("k\u{e9}y".to_string(), vec![0xabu8; 300])).unwrap();
    assert_eq!(d.to_buffer(), reference);
}

#[test]
fn envelope_is_read_as_bincode_reads_it() {
    let bytes = bincode::serialize(&("origin".to_string(), 0u32, vec![5u8, 6])).unwrap();
    let ours = Payload::from_buffer(bytes.clone()).unwrap();
    let theirs: (String, u32, Vec<u8>) = bincode::deserialize(&bytes).unwrap();
    assert_eq!(ours.from, theirs.0);
    assert_eq!(ours.msg, theirs.2);
}

#[test]
fn envelope_round_trip() {
    let p = Payload { from: "127.0.0.1:3000".to_string(), msg_type: MessageType::Store, msg: vec![1, 2, 3] };
    let back = Payload::from_buffer(p.to_buffer()).unwrap();
    assert_eq!(back.from, "127.0.0.1:3000");
    assert_eq!(back.msg_type, MessageType::Store);
    assert_eq!(back.msg, vec![1, 2, 3]);
    let mut with_tail = p.to_buffer();
    with_tail.extend_from_slice(&[1, 1, 1]);
    let back = Payload::from_buffer(with_tail).unwrap();
    assert_eq!(back.msg, vec![1, 2, 3]);
}

#[test]
fn store_request_round_trip() {
    let d = MessageData { key: "k1".to_string(), data: vec![] };
    assert_eq!(d.to_buffer(), vec![2, 0, 0, 0, 0, 0, 0, 0, b'k', b'1', 0, 0, 0, 0, 0, 0, 0, 0]);
    let back = MessageData::from_buffer(d.to_buffer()).unwrap();
    assert_eq!(back.key, "k1");
    assert_eq!(back.data, Vec::<u8>::new());
}

#[test]
fn truncated_envelope_is_refused() {
    assert_eq!(Payload::from_buffer(vec![]).unwrap_err(), DecodeError::Truncated);
    assert_eq!(Payload::from_buffer(vec![3, 0, 0, 0, 0, 0, 0, 0, b'a']).unwrap_err(), DecodeError::Truncated);
    assert_eq!(Payload::from_buffer(vec![0, 0, 0, 0, 0, 0, 0, 0, 0, 0]).unwrap_err(), DecodeError::Truncated);
    assert_eq!(
        Payload::from_buffer(vec![0, 0, 0, 0, 0, 0, 0, 0, 0, 0, 0, 0, 1, 0, 0, 0, 0, 0, 0, 0]).unwrap_err(),
        DecodeError::Truncated
    );
    assert_eq!(
        Payload::from_buffer(vec![255, 255, 255, 255, 255, 255, 255, 255, 1]).unwrap_err(),
        DecodeError::Truncated
    );
    assert_eq!(MessageData::from_buffer(vec![1, 0, 0, 0, 0, 0, 0, 0, b'k']).unwrap_err(), DecodeError::Truncated);
}

#[test]
fn invalid_utf8_is_refused() {
    let bytes = vec![1, 0, 0, 0, 0, 0, 0, 0, 0xff, 0, 0, 0, 0, 0, 0, 0, 0, 0, 0, 0, 0];
    assert_eq!(Payload::from_buffer(bytes).unwrap_err(), DecodeError::InvalidUtf8);
    let bytes = vec![2, 0, 0, 0, 0, 0, 0, 0, 0xc3, 0x28, 0, 0, 0, 0, 0, 0, 0, 0];
    assert_eq!(MessageData::from_buffer(bytes).unwrap_err(), DecodeError::InvalidUtf8);
}

#[test]
fn unknown_kind_is_refused() {
    let bytes = vec![0, 0, 0, 0, 0, 0, 0, 0, 1, 0, 0, 0, 0, 0, 0, 0, 0, 0, 0, 0];
    assert_eq!(Payload::from_buffer(bytes).unwrap_err(), DecodeError::UnknownKind);
}

#[test]
fn frame_bytes_are_exact() {
    let d = LengthPrefixedDecoder::new(DEFAULT_MAX_FRAME_LEN);
    assert_eq!(d.encode(&[10, 20, 30]), Ok(vec![0, 0, 0, 3, 10, 20, 30]));
    assert_eq!(d.encode(&[]), Ok(vec![0, 0, 0, 0]));
    let big = vec![1u8; 0x1_02_03];
    let framed = d.encode(&big).unwrap();
    assert_eq!(&framed[..4], &[0, 1, 2, 3]);
    assert_eq!(framed.len(), 4 + 0x1_02_03);
}

#[test]
fn frame_round_trip() {
    let d = LengthPrefixedDecoder::new(16);
    let mut bytes = d.encode(&[1, 2, 3]).unwrap();
    bytes.extend_from_slice(&[0, 0, 0, 1, 9]);
    let mut msg = Message::new(addr(4000));
    assert_eq!(d.decode(&bytes, &mut msg), Ok(7));
    assert_eq!(msg.payload, vec![1, 2, 3]);
    assert_eq!(msg.from, addr(4000));
    assert_eq!(d.decode(&bytes[7..], &mut msg), Ok(5));
    assert_eq!(msg.payload, vec![9]);
}

#[test]
fn empty_frame_delivers_empty_payload() {
    let d = LengthPrefixedDecoder::new(16);
    let mut msg = Message::new(addr(1));
    msg.payload = vec![1];
    assert_eq!(d.decode(&[0, 0, 0, 0], &mut msg), Ok(4));
    assert_eq!(msg.payload, Vec::<u8>::new());
}

#[test]
fn oversize_frame_is_refused() {
    let d = LengthPrefixedDecoder::new(0x1_0000);
    let blob = vec![0u8; 0x2_0000];
    assert_eq!(d.encode(&blob), Err(FrameError::FrameTooLarge));
    let mut bytes = vec![0, 2, 0, 0];
    bytes.extend_from_slice(&blob);
    let mut msg = Message::new(addr(1));
    assert_eq!(d.decode(&bytes, &mut msg), Err(FrameError::FrameTooLarge));
    assert_eq!(d.decode(&[0, 1, 0, 1], &mut msg), Err(FrameError::FrameTooLarge));
    assert_eq!(d.decode(&[255, 255, 255, 255], &mut msg), Err(FrameError::FrameTooLarge));
    assert_eq!(msg.payload, Vec::<u8>::new());
    let exact = vec![7u8; 0x1_0000];
    let framed = d.encode(&exact).unwrap();
    assert_eq!(d.decode(&framed, &mut msg), Ok(4 + 0x1_0000));
    assert_eq!(msg.payload, exact);
}

#[test]
fn short_frame_is_unexpected_eof() {
    let d = LengthPrefixedDecoder::new(16);
    let mut msg = Message::new(addr(1));
    assert_eq!(d.decode(&[], &mut msg), Err(FrameError::UnexpectedEof));
    assert_eq!(d.decode(&[0, 0, 0], &mut msg), Err(FrameError::UnexpectedEof));
    assert_eq!(d.decode(&[0, 0, 0, 2, 1], &mut msg), Err(FrameError::UnexpectedEof));
}

#[test]
fn default_decoder_takes_everything() {
    let d = DefaultDecoder {};
    let mut msg = Message::new(addr(3000));
    assert_eq!(d.decode(&[1, 2, 3, 4], &mut msg), Ok(4));
    assert_eq!(msg.payload, vec![1, 2, 3, 4]);
    assert_eq!(msg.from, addr(3000));
    assert_eq!(d.decode(&[], &mut msg), Ok(0));
    assert_eq!(msg.payload, Vec::<u8>::new());
}

#[test]
fn new_message_is_empty() {
    let msg = Message::new(PeerAddr::V6 { ip: 1, port: 3000, flowinfo: 0, scope_id: 0 });
    assert_eq!(msg.from, PeerAddr::V6 { ip: 1, port: 3000, flowinfo: 0, scope_id: 0 });
    assert!(msg.payload.is_empty());
}

#[test]
fn envelopes_are_accepted_as_bincode_accepts_them() {
    let good = bincode::serialize(&("n\u{f6}de".to_string(), 0u32, vec![1u8, 2, 3])).unwrap();
    let mut samples: Vec<Vec<u8>> = Vec::new();
    for cut in 0..=good.len() {
        samples.push(good[..cut].to_vec());
    }
    let mut trailing = good.clone();
    trailing.extend_from_slice(&[9, 9]);
    samples.push(trailing);
    let mut bad_text = good.clone();
    bad_text[9] = 0xff;
    samples.push(bad_text);
    let mut long_field = good.clone();
    long_field[7] = 0x80;
    samples.push(long_field);
    for bytes in samples {
        let theirs: Result<(String, u32, Vec<u8>), _> = bincode::deserialize(&bytes);
        match Payload::from_buffer(bytes.clone()) {
            Ok(ours) => {
                let theirs = theirs.unwrap();
                assert_eq!((ours.from, 0u32, ours.msg), theirs);
            }
            Err(_) => assert!(theirs.is_err()),
        }
    }
}
