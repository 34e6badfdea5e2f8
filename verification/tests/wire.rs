use ndk_glue::event::Event;
use ndk_glue::wire::{
    decode_wake_message, encode_wake_message, usize_from_le_bytes, usize_to_le_bytes,
    wake_message_len,
};

const WORD: usize = std::mem::size_of::<usize>();

#[test]
fn le_bytes_match_std() {
    for x in [0usize, 1, 255, 256, 0x0102_0304, usize::MAX, usize::MAX / 3] {
        assert_eq!(usize_to_le_bytes(x), x.to_le_bytes().to_vec());
        assert_eq!(usize_from_le_bytes(&x.to_le_bytes()), x);
    }
}

#[test]
fn le_bytes_exact_value() {
    let bytes = usize_to_le_bytes(0x0102_0304);
    assert_eq!(bytes.len(), WORD);
    assert_eq!(&bytes[..4], &[4u8, 3, 2, 1]);
    assert!(bytes[4..].iter().all(|b| *b == 0));
}

#[test]
fn wake_message_layout() {
    assert_eq!(wake_message_len(), 1 + WORD);
    let msg = encode_wake_message(0xdead_beef, Event::WindowCreated);
    assert_eq!(msg.len(), 1 + WORD);
    assert_eq!(msg[0], 10);
    assert_eq!(&msg[1..5], &[0xef, 0xbe, 0xad, 0xde]);
    assert_eq!(msg[1..].to_vec(), 0xdead_beefusize.to_le_bytes().to_vec());
}

#[test]
fn wake_message_round_trip() {
    for (a, e) in [
        (0usize, Event::Start),
        (0x7f00_1234, Event::Destroy),
        (usize::MAX, Event::ContentRectChanged),
        (42, Event::InputQueueDestroyed),
    ] {
        let msg = encode_wake_message(a, e);
        assert_eq!(decode_wake_message(&msg), Some((a, e)));
    }
}

#[test]
fn wake_message_rejects_wrong_length() {
    let msg = encode_wake_message(5, Event::Pause);
    assert_eq!(decode_wake_message(&msg[..WORD]), None);
    assert_eq!(decode_wake_message(&[]), None);
    let mut longer = msg.clone();
    longer.push(0);
    assert_eq!(decode_wake_message(&longer), None);
}

#[test]
fn wake_message_rejects_unknown_event() {
    let mut msg = encode_wake_message(5, Event::Pause);
    msg[0] = 17;
    assert_eq!(decode_wake_message(&msg), None);
    msg[0] = 0xff;
    assert_eq!(decode_wake_message(&msg), None);
}

#[test]
fn canonical_message_re_encodes() {
    let mut msg = vec![3u8];
    msg.extend_from_slice(&0x1234usize.to_le_bytes());
    let (a, e) = decode_wake_message(&msg).unwrap();
    assert_eq!((a, e), (0x1234, Event::Pause));
    assert_eq!(encode_wake_message(a, e), msg);
}
