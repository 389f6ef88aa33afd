use bytes::BytesMut;
use robots::codec::Codec;
use robots::{Cmd, Error, PostcardError};

#[test]
fn decode_waits_for_a_whole_frame() {
    let mut codec = Codec;
    let mut buf = BytesMut::from(&[3u8, 4, 42][..]);
    assert_eq!(codec.decode(&mut buf), Ok(None));
    assert_eq!(&buf[..], &[3, 4, 42]);
}

#[test]
fn decode_takes_one_frame_and_leaves_the_rest() {
    let mut codec = Codec;
    let mut buf = BytesMut::from(&[3u8, 4, 42, 0, 2, 1, 0, 7][..]);
    assert_eq!(codec.decode(&mut buf), Ok(Some(Cmd::Hue(42))));
    assert_eq!(&buf[..], &[2, 1, 0, 7]);
    assert_eq!(codec.decode(&mut buf), Ok(Some(Cmd::Ping)));
    assert_eq!(&buf[..], &[7]);
    assert_eq!(codec.decode(&mut buf), Ok(None));
}

#[test]
fn decode_bad_frame_is_consumed() {
    let mut codec = Codec;
    let mut buf = BytesMut::from(&[2u8, 9, 0, 2, 2, 0][..]);
    assert_eq!(
        codec.decode(&mut buf),
        Err(Error::Postcard(PostcardError::SerdeDeCustom))
    );
    assert_eq!(codec.decode(&mut buf), Ok(Some(Cmd::Pong)));
    assert!(buf.is_empty());
}

#[test]
fn encode_appends_frames() {
    let mut codec = Codec;
    let mut buf = BytesMut::from(&[9u8][..]);
    assert_eq!(codec.encode(Cmd::Led(true), &mut buf), Ok(()));
    assert_eq!(&buf[..], &[9, 3, 5, 1, 0]);
}

#[test]
fn encoded_stream_decodes_in_order() {
    let mut codec = Codec;
    let cmds = [Cmd::Hello, Cmd::Weather(1000, 70000), Cmd::Relay(false), Cmd::Button];
    let mut buf = BytesMut::new();
    for cmd in cmds {
        codec.encode(cmd, &mut buf).unwrap();
    }
    for cmd in cmds {
        assert_eq!(codec.decode(&mut buf), Ok(Some(cmd)));
    }
    assert!(buf.is_empty());
    assert_eq!(codec.decode(&mut buf), Ok(None));
}

#[test]
fn encode_keeps_existing_bytes() {
    let mut codec = Codec;
    let mut buf = BytesMut::from(&[1u8, 2, 3][..]);
    assert_eq!(codec.encode(Cmd::Weather(u32::MAX, u32::MAX), &mut buf), Ok(()));
    assert_eq!(&buf[..3], &[1, 2, 3]);
    assert_eq!(buf.len(), 3 + robots::CMD_MAX_SIZE);
}
