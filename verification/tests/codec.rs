use bytes::BytesMut;
use chat_core::codec::{encode_frame, FrameDecoder, FrameError, HEADER_LEN, MAX_FRAME_LEN};
use tokio_util::codec::{Decoder, Encoder, LengthDelimitedCodec};

#[test]
fn frame_is_big_endian_length_then_payload() {
    assert_eq!(encode_frame(b"hello"), Ok(vec![0, 0, 0, 5, b'h', b'e', b'l', b'l', b'o']));
    assert_eq!(encode_frame(b""), Ok(vec![0, 0, 0, 0]));
    let long = vec![7u8; 0x01_02_03];
    let frame = encode_frame(&long).unwrap();
    assert_eq!(&frame[..HEADER_LEN], &[0, 1, 2, 3]);
    assert_eq!(&frame[HEADER_LEN..], &long[..]);
}

#[test]
fn payload_of_the_maximum_length_is_framed() {
    let payload = vec![1u8; MAX_FRAME_LEN];
    let frame = encode_frame(&payload).unwrap();
    assert_eq!(&frame[..4], &[0, 0x80, 0, 0]);
    assert_eq!(frame.len(), MAX_FRAME_LEN + 4);
    let mut decoder = FrameDecoder::new();
    decoder.push(&frame);
    assert_eq!(decoder.next_frame(), Ok(Some(payload)));
}

#[test]
fn payload_over_the_maximum_is_refused() {
    let payload = vec![1u8; MAX_FRAME_LEN + 1];
    assert_eq!(encode_frame(&payload), Err(FrameError::TooLarge));
}

#[test]
fn decoder_gives_back_what_was_framed() {
    let mut decoder = FrameDecoder::new();
    decoder.push(&encode_frame(b"one").unwrap());
    decoder.push(&encode_frame(b"").unwrap());
    decoder.push(&encode_frame(b"three").unwrap());
    assert_eq!(decoder.next_frame(), Ok(Some(b"one".to_vec())));
    assert_eq!(decoder.next_frame(), Ok(Some(vec![])));
    assert_eq!(decoder.next_frame(), Ok(Some(b"three".to_vec())));
    assert_eq!(decoder.next_frame(), Ok(None));
    assert_eq!(decoder.buffered(), 0);
}

#[test]
fn decoder_yields_nothing_until_the_frame_is_whole() {
    let frame = encode_frame(b"hello world").unwrap();
    let mut decoder = FrameDecoder::new();
    assert_eq!(decoder.next_frame(), Ok(None));
    for (i, byte) in frame.iter().enumerate() {
        assert_eq!(decoder.next_frame(), Ok(None));
        assert_eq!(decoder.buffered(), i);
        decoder.push(&[*byte]);
    }
    assert_eq!(decoder.next_frame(), Ok(Some(b"hello world".to_vec())));
    assert_eq!(decoder.next_frame(), Ok(None));
}

#[test]
fn decoder_keeps_the_beginning_of_the_next_frame() {
    let mut stream = encode_frame(b"first").unwrap();
    stream.extend(encode_frame(b"second").unwrap());
    let mut decoder = FrameDecoder::new();
    decoder.push(&stream[..12]);
    assert_eq!(decoder.next_frame(), Ok(Some(b"first".to_vec())));
    assert_eq!(decoder.buffered(), 3);
    assert_eq!(decoder.next_frame(), Ok(None));
    decoder.push(&stream[12..]);
    assert_eq!(decoder.next_frame(), Ok(Some(b"second".to_vec())));
}

#[test]
fn header_that_announces_too_much_is_an_error() {
    let mut decoder = FrameDecoder::new();
    decoder.push(&[0, 0x80, 0, 1]);
    assert_eq!(decoder.next_frame(), Err(FrameError::TooLarge));
    assert_eq!(decoder.next_frame(), Err(FrameError::TooLarge));
    assert_eq!(decoder.buffered(), 4);

    let mut decoder = FrameDecoder::new();
    decoder.push(&[0xff, 0xff, 0xff, 0xff, 1, 2, 3]);
    assert_eq!(decoder.next_frame(), Err(FrameError::TooLarge));

    let mut decoder = FrameDecoder::new();
    decoder.push(&[0, 0x80, 0, 0]);
    assert_eq!(decoder.next_frame(), Ok(None));
}

#[test]
fn three_header_bytes_are_not_yet_an_error() {
    let mut decoder = FrameDecoder::new();
    decoder.push(&[0xff, 0xff, 0xff]);
    assert_eq!(decoder.next_frame(), Ok(None));
}

#[test]
fn frames_are_read_by_the_length_delimited_codec() {
    let mut codec = LengthDelimitedCodec::new();
    let mut stream = BytesMut::new();
    let payloads: [&[u8]; 4] = [b"", b"a", b"hello world", &[0u8; 70000]];
    for payload in payloads {
        stream.extend_from_slice(&encode_frame(payload).unwrap());
    }
    for payload in payloads {
        let frame = codec.decode(&mut stream).unwrap().unwrap();
        assert_eq!(&frame[..], payload);
    }
    assert!(codec.decode(&mut stream).unwrap().is_none());
}

#[test]
fn frames_of_the_length_delimited_codec_are_read() {
    let mut codec = LengthDelimitedCodec::new();
    let mut stream = BytesMut::new();
    let payloads: [&[u8]; 4] = [b"", b"a", b"hello world", &[9u8; 70000]];
    for payload in payloads {
        codec.encode(bytes::Bytes::copy_from_slice(payload), &mut stream).unwrap();
    }
    let mut decoder = FrameDecoder::new();
    for chunk in stream.chunks(1000) {
        decoder.push(chunk);
    }
    for payload in payloads {
        assert_eq!(decoder.next_frame(), Ok(Some(payload.to_vec())));
    }
    assert_eq!(decoder.next_frame(), Ok(None));
}

#[test]
fn both_codecs_refuse_the_same_lengths() {
    for header in [[0u8, 0x80, 0, 0], [0, 0x80, 0, 1], [1, 0, 0, 0], [0, 0x7f, 0xff, 0xff]] {
        let mut codec = LengthDelimitedCodec::new();
        let mut stream = BytesMut::from(&header[..]);
        let theirs = codec.decode(&mut stream).is_err();
        let mut decoder = FrameDecoder::new();
        decoder.push(&header);
        let ours = decoder.next_frame().is_err();
        assert_eq!(ours, theirs, "{:?}", header);
    }
}

#[test]
fn drain_gives_all_whole_frames_and_keeps_the_rest() {
    let mut stream = Vec::new();
    for payload in [&b"one"[..], b"", b"three"] {
        stream.extend(encode_frame(payload).unwrap());
    }
    stream.extend_from_slice(&[0, 0, 0, 9, b'p', b'a']);
    let mut decoder = FrameDecoder::new();
    decoder.push(&stream);
    assert_eq!(decoder.drain(), (vec![b"one".to_vec(), vec![], b"three".to_vec()], false));
    assert_eq!(decoder.buffered(), 6);
    assert_eq!(decoder.drain(), (vec![], false));
    decoder.push(b"rtial!!");
    assert_eq!(decoder.drain(), (vec![b"partial!!".to_vec()], false));
    assert_eq!(decoder.buffered(), 0);
}

#[test]
fn drain_reports_a_header_that_announces_too_much() {
    let mut stream = encode_frame(b"fine").unwrap();
    stream.extend_from_slice(&[0xff, 0, 0, 0, 1, 2]);
    let mut decoder = FrameDecoder::new();
    decoder.push(&stream);
    assert_eq!(decoder.drain(), (vec![b"fine".to_vec()], true));
    assert_eq!(decoder.buffered(), 6);
    assert_eq!(decoder.drain(), (vec![], true));
}
