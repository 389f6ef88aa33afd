use smart_leds::hsv::{hsv2rgb, Hsv};
use smart_leds::{brightness, gamma};
use robots::aht20::{SensorErr, SensorOk, SensorResult};
use robots::driver::{demo_commands, driver_step, DriverEvent, DriverStep};
use robots::firmware::{esp_rx_frame, usb_rx_packet, Disconnected, EndpointError, EspRxAction, UsbRxAction};
use robots::led::led_pixel;
use robots::{Cmd, Error, PostcardError, Relay};

#[test]
fn relay_from_bool() {
    assert_eq!(Relay::from(true), Relay::Close);
    assert_eq!(Relay::from(false), Relay::Open);
}

#[test]
fn sensor_types_hold_their_values() {
    let ok = SensorOk { h: 1 << 19, t: 3 };
    assert_eq!(SensorResult::Success(ok), SensorResult::Success(SensorOk { h: 524288, t: 3 }));
    assert_ne!(SensorResult::Failure(SensorErr::Bus), SensorResult::Failure(SensorErr::CheckSum));
}

#[test]
fn driver_answers_ping_and_forwards() {
    assert_eq!(
        driver_step(DriverEvent::FromSerial(Cmd::Ping)),
        DriverStep { broadcast: Some(Cmd::Ping), to_serial: Some(Cmd::Pong) }
    );
    assert_eq!(
        driver_step(DriverEvent::FromSerial(Cmd::Button)),
        DriverStep { broadcast: Some(Cmd::Button), to_serial: None }
    );
    assert_eq!(
        driver_step(DriverEvent::FromApp(Cmd::Hue(7))),
        DriverStep { broadcast: None, to_serial: Some(Cmd::Hue(7)) }
    );
    assert_eq!(
        driver_step(DriverEvent::FromApp(Cmd::Ping)),
        DriverStep { broadcast: None, to_serial: Some(Cmd::Ping) }
    );
}

#[test]
fn esp_reacts_to_frames() {
    assert_eq!(esp_rx_frame(&[2, 1, 0]), EspRxAction::Send(Cmd::Pong));
    assert_eq!(esp_rx_frame(&[3, 4, 42, 0]), EspRxAction::SetHue(42));
    assert_eq!(esp_rx_frame(&[2, 3, 0]), EspRxAction::Ignore);
    assert_eq!(
        esp_rx_frame(&[2, 8, 0]),
        EspRxAction::Report(Error::Postcard(PostcardError::SerdeDeCustom))
    );
    assert_eq!(
        esp_rx_frame(&[]),
        EspRxAction::Report(Error::Postcard(PostcardError::DeserializeBadEncoding))
    );
}

#[test]
fn usb_reacts_to_packets() {
    assert_eq!(usb_rx_packet(&[2, 1, 0]), UsbRxAction::Reply(Cmd::Pong));
    assert_eq!(usb_rx_packet(&[3, 6, 1, 0]), UsbRxAction::Received(Cmd::Relay(true)));
    assert_eq!(usb_rx_packet(&[0u8; 14]), UsbRxAction::TooLong);
    assert_eq!(
        usb_rx_packet(&[3, 5, 7, 0]),
        UsbRxAction::DecodeFailed(Error::Postcard(PostcardError::DeserializeBadBool))
    );
}

#[test]
fn disabled_endpoint_is_a_disconnection() {
    assert_eq!(Disconnected::from(EndpointError::Disabled), Disconnected {});
}

#[test]
fn led_pixel_values() {
    // red at full brightness is 255, dimmed to 255 * 11 / 256
    assert_eq!(led_pixel(0), (10, 0, 0));
    // green
    assert_eq!(led_pixel(85), (0, 10, 0));
    // blue
    assert_eq!(led_pixel(170), (0, 0, 10));
}

#[test]
fn led_pixel_matches_smart_leds() {
    for hue in [0u8, 21, 42, 64, 100, 128, 150, 200, 255] {
        let rgb = hsv2rgb(Hsv { hue, sat: 255, val: 255 });
        let out = brightness(gamma(core::iter::once(rgb)), 10).next().unwrap();
        assert_eq!(led_pixel(hue), (out.r, out.g, out.b));
    }
}

#[test]
fn boards_act_on_encoded_commands() {
    for cmd in [Cmd::Ping, Cmd::Hue(99), Cmd::Weather(5, 6), Cmd::Led(true)] {
        let frame = cmd.to_vec().unwrap();
        let expected_esp = match cmd {
            Cmd::Ping => EspRxAction::Send(Cmd::Pong),
            Cmd::Hue(h) => EspRxAction::SetHue(h),
            _ => EspRxAction::Ignore,
        };
        assert_eq!(esp_rx_frame(frame.as_slice()), expected_esp);
        let expected_usb = match cmd {
            Cmd::Ping => UsbRxAction::Reply(Cmd::Pong),
            c => UsbRxAction::Received(c),
        };
        assert_eq!(usb_rx_packet(frame.as_slice()), expected_usb);
    }
}

#[test]
fn demo_sends_ping_then_hues() {
    let cmds = demo_commands(true);
    assert_eq!(cmds.len(), 257);
    assert_eq!(&cmds[..4], &[Cmd::Ping, Cmd::Ping, Cmd::Hue(0), Cmd::Hue(1)]);
    assert_eq!(cmds[256], Cmd::Hue(254));
}

#[test]
fn demo_sends_ping_then_led_toggles() {
    let cmds = demo_commands(false);
    assert_eq!(cmds.len(), 31);
    assert_eq!(&cmds[..5], &[Cmd::Ping, Cmd::Ping, Cmd::Led(false), Cmd::Led(true), Cmd::Led(false)]);
    assert_eq!(cmds[30], Cmd::Led(false));
}

#[test]
fn hsv_formula_samples() {
    // led_pixel dims the gamma-corrected hsv2rgb colour; compare a mid hue
    assert_eq!(led_pixel(21), {
        let c = hsv2rgb(Hsv { hue: 21, sat: 255, val: 255 });
        let o = brightness(gamma(core::iter::once(c)), 10).next().unwrap();
        (o.r, o.g, o.b)
    });
}
