use robots::Cmd;

fn frame_of(cmd: Cmd) -> Vec<u8> {
    cmd.to_vec().unwrap().as_slice().to_vec()
}

#[test]
fn to_vec_agrees_with_postcard_on_unit_variants() {
    for (index, cmd) in [(0u32, Cmd::Hello), (1, Cmd::Ping), (2, Cmd::Pong), (3, Cmd::Button)] {
        assert_eq!(frame_of(cmd), postcard::to_allocvec_cobs(&index).unwrap());
    }
}

#[test]
fn to_vec_agrees_with_postcard_on_fields() {
    for h in [0u8, 1, 42, 127, 128, 255] {
        assert_eq!(frame_of(Cmd::Hue(h)), postcard::to_allocvec_cobs(&(4u32, h)).unwrap());
    }
    for b in [false, true] {
        assert_eq!(frame_of(Cmd::Led(b)), postcard::to_allocvec_cobs(&(5u32, b)).unwrap());
        assert_eq!(frame_of(Cmd::Relay(b)), postcard::to_allocvec_cobs(&(6u32, b)).unwrap());
    }
    for (t, h) in [(0u32, 0u32), (127, 128), (300, 65_535), (1 << 21, 1 << 28), (u32::MAX, u32::MAX)] {
        assert_eq!(
            frame_of(Cmd::Weather(t, h)),
            postcard::to_allocvec_cobs(&(7u32, t, h)).unwrap()
        );
    }
}

#[test]
fn from_vec_agrees_with_postcard() {
    let mut ours = postcard::to_allocvec_cobs(&(7u32, 1234u32, 99u32)).unwrap();
    assert_eq!(Cmd::from_vec(&mut ours), Ok(Cmd::Weather(1234, 99)));
    let mut theirs = frame_of(Cmd::Hue(200));
    let decoded: (u32, u8) = postcard::from_bytes_cobs(&mut theirs).unwrap();
    assert_eq!(decoded, (4, 200));
}
