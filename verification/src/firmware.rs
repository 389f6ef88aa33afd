//! The decisions of the board firmwares on each serial or USB packet.
use vstd::prelude::*;
use crate::cmd::{Cmd, CMD_MAX_SIZE, cmd_frame, cmd_from_frame, lemma_cmd_frame_len, lemma_to_vec_from_vec};
use crate::error::Error;
use crate::frame::{cmd_vec_as_mut_slice, cmd_vec_from_slice};

verus! {

/// What the ESP32 board does with a frame read from its serial port.
#[derive(Debug, Clone, Copy, PartialEq, Eq, Structural)]
pub enum EspRxAction {
    /// Report the error on the monitor line.
    Report(Error),
    /// Signal this command to the transmit task.
    Send(Cmd),
    /// Signal this hue to the LED task.
    SetHue(u8),
    /// Nothing to do.
    Ignore,
}

/// The ESP32 action for the outcome of decoding a frame: an error is
/// reported, a `Ping` is answered with a `Pong`, a hue goes to the LED.
pub open spec fn esp_rx_action_spec(decoded: Result<Cmd, Error>) -> EspRxAction {
    match decoded {
        Err(e) => EspRxAction::Report(e),
        Ok(Cmd::Ping) => EspRxAction::Send(Cmd::Pong),
        Ok(Cmd::Hue(h)) => EspRxAction::SetHue(h),
        Ok(_) => EspRxAction::Ignore,
    }
}

/// Decodes a frame read by the ESP32 board (at most `CMD_MAX_SIZE` bytes, the
/// size of its read buffer) and decides what to do with it.
pub fn esp_rx_frame(frame: &[u8]) -> (res: EspRxAction)
    requires
        frame@.len() <= CMD_MAX_SIZE,
    ensures
        res == esp_rx_action_spec(cmd_from_frame(frame@)),
        res is Send <==> cmd_from_frame(frame@) == Ok::<Cmd, Error>(Cmd::Ping),
        res is Send ==> res == EspRxAction::Send(Cmd::Pong),
        res is SetHue <==> cmd_from_frame(frame@) matches Ok(Cmd::Hue(_)),
        cmd_from_frame(frame@) matches Ok(Cmd::Hue(h)) ==> res == EspRxAction::SetHue(h),
        cmd_from_frame(frame@) matches Ok(c) && c != Cmd::Ping && !(c is Hue) ==> res
            == EspRxAction::Ignore,
        cmd_from_frame(frame@) matches Err(e) ==> res == EspRxAction::Report(e),
{
    let mut v = match cmd_vec_from_slice(frame) {
        Ok(v) => v,
        Err(()) => {
            assert(false);
            return EspRxAction::Ignore;
        },
    };
    let bytes = cmd_vec_as_mut_slice(&mut v);
    match Cmd::from_vec(bytes) {
        Err(e) => EspRxAction::Report(e),
        Ok(Cmd::Ping) => EspRxAction::Send(Cmd::Pong),
        Ok(Cmd::Hue(h)) => EspRxAction::SetHue(h),
        Ok(_) => EspRxAction::Ignore,
    }
}

/// What the STM32 board does with a packet read from its USB serial class.
#[derive(Debug, Clone, Copy, PartialEq, Eq, Structural)]
pub enum UsbRxAction {
    /// The packet does not fit in a command buffer: log it.
    TooLong,
    /// The packet is not a framed command: log the error.
    DecodeFailed(Error),
    /// Signal this command to be sent back.
    Reply(Cmd),
    /// Log the command received.
    Received(Cmd),
}

/// The STM32 action for a packet: one longer than a command buffer is
/// refused, then the frame is decoded; a `Ping` is answered with a `Pong`.
pub open spec fn usb_rx_action_spec(packet: Seq<u8>) -> UsbRxAction {
    if packet.len() > CMD_MAX_SIZE {
        UsbRxAction::TooLong
    } else {
        match cmd_from_frame(packet) {
            Err(e) => UsbRxAction::DecodeFailed(e),
            Ok(Cmd::Ping) => UsbRxAction::Reply(Cmd::Pong),
            Ok(c) => UsbRxAction::Received(c),
        }
    }
}

/// Decides what the STM32 board does with a USB packet.
pub fn usb_rx_packet(packet: &[u8]) -> (res: UsbRxAction)
    ensures
        res == usb_rx_action_spec(packet@),
        res is TooLong <==> packet@.len() > CMD_MAX_SIZE,
        res is Reply <==> packet@.len() <= CMD_MAX_SIZE && cmd_from_frame(packet@) == Ok::<
            Cmd,
            Error,
        >(Cmd::Ping),
        res is Reply ==> res == UsbRxAction::Reply(Cmd::Pong),
        packet@.len() <= CMD_MAX_SIZE ==> (cmd_from_frame(packet@) matches Ok(c) ==> (c
            != Cmd::Ping ==> res == UsbRxAction::Received(c))),
        packet@.len() <= CMD_MAX_SIZE ==> (cmd_from_frame(packet@) matches Err(e) ==> res
            == UsbRxAction::DecodeFailed(e)),
{
    let mut v = match cmd_vec_from_slice(packet) {
        Ok(v) => v,
        Err(()) => return UsbRxAction::TooLong,
    };
    let bytes = cmd_vec_as_mut_slice(&mut v);
    match Cmd::from_vec(bytes) {
        Err(e) => UsbRxAction::DecodeFailed(e),
        Ok(Cmd::Ping) => UsbRxAction::Reply(Cmd::Pong),
        Ok(c) => UsbRxAction::Received(c),
    }
}

/// A board that receives the frame of a command acts on that very command:
/// both boards answer a framed `Ping` with a `Pong`, and the ESP32 board
/// shows the hue of a framed `Hue`.
pub proof fn lemma_boards_act_on_frames(c: Cmd)
    ensures
        cmd_frame(c).len() <= CMD_MAX_SIZE,
        esp_rx_action_spec(cmd_from_frame(cmd_frame(c))) == esp_rx_action_spec(
            Ok::<Cmd, Error>(c),
        ),
        usb_rx_action_spec(cmd_frame(c)) == (if c == Cmd::Ping {
            UsbRxAction::Reply(Cmd::Pong)
        } else {
            UsbRxAction::Received(c)
        }),
        c == Cmd::Ping ==> esp_rx_action_spec(cmd_from_frame(cmd_frame(c))) == EspRxAction::Send(
            Cmd::Pong,
        ),
{
    lemma_cmd_frame_len(c);
    lemma_to_vec_from_vec(c);
}

/// The ESP32 board sends only in answer to a `Ping`, and then a `Pong`; it
/// sets the LED hue only on a `Hue`, to that hue; it reports every decoding
/// error as it is; and every other command leaves it idle.
pub proof fn lemma_esp_reacts_only_to_ping_and_hue(decoded: Result<Cmd, Error>)
    ensures
        esp_rx_action_spec(decoded) is Send <==> decoded == Ok::<Cmd, Error>(Cmd::Ping),
        esp_rx_action_spec(decoded) is Send ==> esp_rx_action_spec(decoded) == EspRxAction::Send(
            Cmd::Pong,
        ),
        esp_rx_action_spec(decoded) is SetHue <==> decoded matches Ok(Cmd::Hue(_)),
        decoded matches Ok(Cmd::Hue(h)) ==> esp_rx_action_spec(decoded) == EspRxAction::SetHue(h),
        decoded matches Ok(c) && c != Cmd::Ping && !(c is Hue) ==> esp_rx_action_spec(decoded)
            == EspRxAction::Ignore,
        esp_rx_action_spec(decoded) is Report <==> decoded is Err,
        decoded matches Err(e) ==> esp_rx_action_spec(decoded) == EspRxAction::Report(e),
{
}

/// The STM32 board answers only a `Ping`, and with a `Pong`; it logs every
/// other command it decodes as received, unchanged.
pub proof fn lemma_usb_answers_only_ping(packet: Seq<u8>)
    ensures
        usb_rx_action_spec(packet) is Reply <==> packet.len() <= CMD_MAX_SIZE && cmd_from_frame(
            packet,
        ) == Ok::<Cmd, Error>(Cmd::Ping),
        usb_rx_action_spec(packet) is Reply ==> usb_rx_action_spec(packet) == UsbRxAction::Reply(
            Cmd::Pong,
        ),
        packet.len() <= CMD_MAX_SIZE ==> (cmd_from_frame(packet) matches Ok(c) ==> (c
            != Cmd::Ping ==> usb_rx_action_spec(packet) == UsbRxAction::Received(c))),
{
}

/// On the frame of any command, the ESP32 board ignores everything but a
/// `Ping` (answered with a `Pong`) and a `Hue` (shown on the LED).
pub proof fn lemma_esp_on_frames(c: Cmd)
    ensures
        c == Cmd::Ping ==> esp_rx_action_spec(cmd_from_frame(cmd_frame(c))) == EspRxAction::Send(
            Cmd::Pong,
        ),
        c matches Cmd::Hue(h) ==> esp_rx_action_spec(cmd_from_frame(cmd_frame(c)))
            == EspRxAction::SetHue(h),
        c != Cmd::Ping && !(c is Hue) ==> esp_rx_action_spec(cmd_from_frame(cmd_frame(c)))
            == EspRxAction::Ignore,
{
    lemma_to_vec_from_vec(c);
}

/// The errors of a USB endpoint, as the embassy USB stack reports them.
#[derive(Debug, Clone, Copy, PartialEq, Eq, Structural)]
pub enum EndpointError {
    /// A packet did not fit in the buffer given to read it.
    BufferOverflow,
    /// The endpoint is disabled: the host is gone.
    Disabled,
}

/// The USB host went away.
#[derive(Debug, Clone, Copy, PartialEq, Eq, Structural)]
pub struct Disconnected {}

impl Disconnected {
    /// A disabled endpoint means the host disconnected. A buffer overflow is
    /// a programming error of the firmware, for which it stops; it is not
    /// accepted here.
    pub fn from(val: EndpointError) -> (res: Disconnected)
        requires
            val == EndpointError::Disabled,
        ensures
            res == (Disconnected {}),
    {
        Disconnected {}
    }
}

} // verus!
