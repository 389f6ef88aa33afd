use robots::cmd::CMD_MAX_SIZE;
use robots::{Cmd, Error, PostcardError};

#[test]
fn cmd_to_vec_to_cmd() {
    let cmd_in = Cmd::Hue(42);
    println!("{cmd_in:?}");
    let data = cmd_in.to_vec();
    assert!(data.is_ok(), "data is not ok: {data:?}");
    let mut data = data.unwrap();
    println!("{data:?}");
    println!("data len: {}", data.len());
    println!("max len: {}", Cmd::POSTCARD_MAX_SIZE + 2);
    let cmd_out = Cmd::from_vec(data.as_mut());
    assert!(cmd_out.is_ok(), "cmd_out is not ok: {cmd_out:?}");
    let cmd_out = cmd_out.unwrap();
    println!("{cmd_out:?}");
    assert_eq!(cmd_out, cmd_in);
}

fn frame_of(cmd: Cmd) -> Vec<u8> {
    cmd.to_vec().unwrap().as_slice().to_vec()
}

#[test]
fn to_vec_bytes_of_each_variant() {
    assert_eq!(frame_of(Cmd::Hello), vec![1, 1, 0]);
    assert_eq!(frame_of(Cmd::Ping), vec![2, 1, 0]);
    assert_eq!(frame_of(Cmd::Pong), vec![2, 2, 0]);
    assert_eq!(frame_of(Cmd::Button), vec![2, 3, 0]);
    assert_eq!(frame_of(Cmd::Hue(42)), vec![3, 4, 42, 0]);
    assert_eq!(frame_of(Cmd::Hue(0)), vec![2, 4, 1, 0]);
    assert_eq!(frame_of(Cmd::Led(true)), vec![3, 5, 1, 0]);
    assert_eq!(frame_of(Cmd::Led(false)), vec![2, 5, 1, 0]);
    assert_eq!(frame_of(Cmd::Relay(true)), vec![3, 6, 1, 0]);
    assert_eq!(frame_of(Cmd::Weather(300, 1)), vec![5, 7, 0xac, 0x02, 0x01, 0]);
}

#[test]
fn postcard_bytes_of_weather() {
    assert_eq!(Cmd::Weather(300, 1).to_postcard(), vec![7, 0xac, 0x02, 0x01]);
    assert_eq!(Cmd::Weather(0, 127).to_postcard(), vec![7, 0, 0x7f]);
    assert_eq!(
        Cmd::Weather(u32::MAX, 128).to_postcard(),
        vec![7, 0xff, 0xff, 0xff, 0xff, 0x0f, 0x80, 0x01]
    );
}

#[test]
fn largest_command_fills_the_buffer() {
    let cmd = Cmd::Weather(u32::MAX, u32::MAX);
    let mut data = cmd.to_vec().unwrap();
    assert_eq!(data.len(), CMD_MAX_SIZE);
    assert_eq!(Cmd::from_vec(data.as_mut()), Ok(cmd));
}

#[test]
fn every_variant_round_trips() {
    let cmds = [
        Cmd::Hello,
        Cmd::Ping,
        Cmd::Pong,
        Cmd::Button,
        Cmd::Hue(0),
        Cmd::Hue(255),
        Cmd::Led(true),
        Cmd::Led(false),
        Cmd::Relay(true),
        Cmd::Relay(false),
        Cmd::Weather(0, 0),
        Cmd::Weather(127, 128),
        Cmd::Weather(16384, 2_097_152),
        Cmd::Weather(u32::MAX, 1),
    ];
    for cmd in cmds {
        let mut data = cmd.to_vec().unwrap();
        assert_eq!(Cmd::from_vec(data.as_mut()), Ok(cmd));
    }
}

#[test]
fn from_vec_ignores_bytes_after_the_frame() {
    let mut data = vec![3, 4, 42, 0, 9, 9, 9];
    assert_eq!(Cmd::from_vec(&mut data), Ok(Cmd::Hue(42)));
}

#[test]
fn from_vec_without_terminator_still_decodes() {
    let mut data = vec![3, 4, 42];
    assert_eq!(Cmd::from_vec(&mut data), Ok(Cmd::Hue(42)));
}

#[test]
fn from_vec_empty_is_bad_encoding() {
    let mut data: Vec<u8> = vec![];
    assert_eq!(
        Cmd::from_vec(&mut data),
        Err(Error::Postcard(PostcardError::DeserializeBadEncoding))
    );
}

#[test]
fn from_vec_overrunning_block_is_bad_encoding() {
    let mut data = vec![5, 4, 42, 0];
    assert_eq!(
        Cmd::from_vec(&mut data),
        Err(Error::Postcard(PostcardError::DeserializeBadEncoding))
    );
}

#[test]
fn from_vec_unknown_variant() {
    let mut data = vec![2, 8, 0];
    assert_eq!(
        Cmd::from_vec(&mut data),
        Err(Error::Postcard(PostcardError::SerdeDeCustom))
    );
}

#[test]
fn from_vec_missing_payload() {
    let mut data = vec![2, 4, 0];
    assert_eq!(
        Cmd::from_vec(&mut data),
        Err(Error::Postcard(PostcardError::DeserializeUnexpectedEnd))
    );
    let mut empty_body = vec![1, 0];
    assert_eq!(
        Cmd::from_vec(&mut empty_body),
        Err(Error::Postcard(PostcardError::DeserializeUnexpectedEnd))
    );
}

#[test]
fn from_vec_bad_bool() {
    let mut data = vec![3, 5, 2, 0];
    assert_eq!(
        Cmd::from_vec(&mut data),
        Err(Error::Postcard(PostcardError::DeserializeBadBool))
    );
}

#[test]
fn from_vec_bad_varint() {
    // fifth varint byte above 15
    let mut data = vec![7, 7, 0xff, 0xff, 0xff, 0xff, 0x1f, 0];
    assert_eq!(
        Cmd::from_vec(&mut data),
        Err(Error::Postcard(PostcardError::DeserializeBadVarint))
    );
    // varint that does not end after five bytes
    let mut long = vec![8, 7, 0xff, 0xff, 0xff, 0xff, 0xff, 1, 0];
    assert_eq!(
        Cmd::from_vec(&mut long),
        Err(Error::Postcard(PostcardError::DeserializeBadVarint))
    );
}

#[test]
fn from_postcard_reads_non_minimal_varint() {
    assert_eq!(Cmd::from_postcard(&[7, 0x80, 0x00, 5]), Ok(Cmd::Weather(0, 5)));
    assert_eq!(Cmd::from_postcard(&[0x84, 0x00, 9]), Ok(Cmd::Hue(9)));
}

#[test]
fn from_vec_leaves_decoded_bytes_at_start() {
    let mut data = vec![3, 4, 42, 0];
    let _ = Cmd::from_vec(&mut data);
    assert_eq!(data.len(), 4);
    assert_eq!(&data[..2], &[4, 42]);
}

#[test]
fn from_vec_leaves_following_frame_untouched() {
    let mut data = Cmd::Hue(7).to_vec().unwrap().as_slice().to_vec();
    let n = data.len();
    let next = Cmd::Weather(300, 2).to_vec().unwrap().as_slice().to_vec();
    data.extend_from_slice(&next);
    assert_eq!(Cmd::from_vec(&mut data), Ok(Cmd::Hue(7)));
    assert_eq!(data[n - 1], 0);
    assert_eq!(&data[n..], &next[..]);
}
