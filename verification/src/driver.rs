//! The decisions of the serial driver that links the server to a board:
//! what is forwarded where when a command arrives from either side.
use vstd::prelude::*;
use crate::cmd::Cmd;

verus! {

/// A command that reached the driver.
#[derive(Debug, Clone, Copy, PartialEq, Eq, Structural)]
pub enum DriverEvent {
    /// Read and decoded from the serial line.
    FromSerial(Cmd),
    /// Queued by the server for the board.
    FromApp(Cmd),
}

/// What the driver does with one event, in this order: broadcast a command
/// to the server's listeners, then write a command to the serial line.
#[derive(Debug, Clone, Copy, PartialEq, Eq, Structural)]
pub struct DriverStep {
    pub broadcast: Option<Cmd>,
    pub to_serial: Option<Cmd>,
}

/// The step for an event: every command from the board is broadcast, and a
/// `Ping` from it is answered on the line with a `Pong`; every command from
/// the server is written to the line.
pub open spec fn driver_step_spec(event: DriverEvent) -> DriverStep {
    match event {
        DriverEvent::FromSerial(c) => DriverStep {
            broadcast: Some(c),
            to_serial: if c == Cmd::Ping {
                Some(Cmd::Pong)
            } else {
                None
            },
        },
        DriverEvent::FromApp(c) => DriverStep { broadcast: None, to_serial: Some(c) },
    }
}

/// Decides what the driver does with one event.
pub fn driver_step(event: DriverEvent) -> (res: DriverStep)
    ensures
        res == driver_step_spec(event),
{
    match event {
        DriverEvent::FromSerial(c) => {
            let reply = match c {
                Cmd::Ping => Some(Cmd::Pong),
                _ => None,
            };
            DriverStep { broadcast: Some(c), to_serial: reply }
        },
        DriverEvent::FromApp(c) => DriverStep { broadcast: None, to_serial: Some(c) },
    }
}

/// The driver answers a board's `Ping` with a `Pong` and nothing else, and
/// never answers any other command from the board.
pub proof fn lemma_driver_answers_ping(c: Cmd)
    ensures
        driver_step_spec(DriverEvent::FromSerial(c)).broadcast == Some(c),
        (driver_step_spec(DriverEvent::FromSerial(c)).to_serial == Some(Cmd::Pong)) <==> (c
            == Cmd::Ping),
        driver_step_spec(DriverEvent::FromSerial(c)).to_serial is Some ==> c == Cmd::Ping,
{
}

/// Commands from the server reach the board unchanged and are not echoed
/// back to the server's listeners.
pub proof fn lemma_driver_forwards_app(c: Cmd)
    ensures
        driver_step_spec(DriverEvent::FromApp(c)) == (DriverStep {
            broadcast: None,
            to_serial: Some(c),
        }),
{
}

/// The `i`-th command of the driver program's demonstration: a `Ping`,
/// sent at once and again on the first tick, then either the hues 0 to 254
/// (`rgb`) or the LED switched off and on by turns.
pub open spec fn demo_cmd(rgb: bool, i: int) -> Cmd {
    if i < 2 {
        Cmd::Ping
    } else if rgb {
        Cmd::Hue((i - 2) as u8)
    } else {
        Cmd::Led((i - 1) % 2 == 0)
    }
}

/// How many commands the demonstration sends: one at once, then one per
/// tick, 256 ticks for the hue sweep and 30 for the LED.
pub open spec fn demo_len(rgb: bool) -> nat {
    if rgb {
        257
    } else {
        31
    }
}

/// The shape of the demonstration: it opens with two `Ping`s; the hue sweep
/// then goes up one hue at a time from hue 0 to hue 254, and the LED demo
/// switches the LED off first and then flips it at every tick.
pub proof fn lemma_demo_shape(rgb: bool)
    ensures
        demo_cmd(rgb, 0) == Cmd::Ping,
        demo_cmd(rgb, 1) == Cmd::Ping,
        rgb ==> demo_cmd(rgb, 2) == Cmd::Hue(0),
        rgb ==> demo_cmd(rgb, demo_len(rgb) - 1) == Cmd::Hue(254),
        !rgb ==> demo_cmd(rgb, 2) == Cmd::Led(false),
        forall|i: int|
            2 <= i < demo_len(rgb) ==> (rgb ==> #[trigger] demo_cmd(rgb, i) is Hue) && (!rgb
                ==> demo_cmd(rgb, i) is Led),
        forall|i: int|
            2 <= i < demo_len(rgb) - 1 ==> (#[trigger] demo_cmd(rgb, i) matches Cmd::Hue(h) ==> h
                < 254 && demo_cmd(rgb, i + 1) == Cmd::Hue((h + 1) as u8)),
        forall|i: int|
            2 <= i < demo_len(rgb) - 1 ==> (#[trigger] demo_cmd(rgb, i) matches Cmd::Led(b)
                ==> demo_cmd(rgb, i + 1) == Cmd::Led(!b)),
{
    assert forall|i: int| 2 <= i < demo_len(rgb) - 1 implies (#[trigger] demo_cmd(
        rgb,
        i,
    ) matches Cmd::Led(b) ==> demo_cmd(rgb, i + 1) == Cmd::Led(!b)) by {
        if !rgb {
            assert((i - 1) % 2 == 0 <==> !(i % 2 == 0));
        }
    }
}

/// The commands that the driver program sends to the board, in order.
pub fn demo_commands(rgb: bool) -> (res: Vec<Cmd>)
    ensures
        res@.len() == demo_len(rgb),
        forall|i: int| 0 <= i < res@.len() ==> #[trigger] res@[i] == demo_cmd(rgb, i),
        res@[0] == Cmd::Ping,
        res@[1] == Cmd::Ping,
        rgb ==> res@[2] == Cmd::Hue(0) && res@.last() == Cmd::Hue(254),
        !rgb ==> res@[2] == Cmd::Led(false),
        forall|i: int|
            2 <= i < res@.len() - 1 ==> (#[trigger] res@[i] matches Cmd::Hue(h) ==> h < 254
                && res@[i + 1] == Cmd::Hue((h + 1) as u8)),
        forall|i: int|
            2 <= i < res@.len() - 1 ==> (#[trigger] res@[i] matches Cmd::Led(b) ==> res@[i + 1]
                == Cmd::Led(!b)),
        forall|i: int|
            2 <= i < res@.len() ==> (rgb ==> #[trigger] res@[i] is Hue) && (!rgb ==> res@[i] is Led),
{
    proof {
        lemma_demo_shape(rgb);
    }
    let mut out: Vec<Cmd> = Vec::new();
    let mut cmd = Cmd::Ping;
    out.push(cmd);
    if rgb {
        let mut hue: u16 = 0;
        while hue <= 255
            invariant
                hue <= 256,
                out@.len() == hue + 1,
                cmd == demo_cmd(true, hue + 1),
                forall|i: int| 0 <= i < out@.len() ==> #[trigger] out@[i] == demo_cmd(true, i),
            decreases 256 - hue,
        {
            out.push(cmd);
            cmd = Cmd::Hue(hue as u8);
            hue = hue + 1;
        }
    } else {
        let mut led = true;
        let mut k: u8 = 0;
        while k < 30
            invariant
                k <= 30,
                out@.len() == k + 1,
                led == (k % 2 == 0),
                cmd == demo_cmd(false, k + 1),
                forall|i: int| 0 <= i < out@.len() ==> #[trigger] out@[i] == demo_cmd(false, i),
            decreases 30 - k,
        {
            out.push(cmd);
            led = !led;
            cmd = Cmd::Led(led);
            k = k + 1;
        }
    }
    assert forall|i: int| 2 <= i < out@.len() - 1 implies (#[trigger] out@[i] matches Cmd::Led(
        b,
    ) ==> out@[i + 1] == Cmd::Led(!b)) by {
        assert(demo_cmd(rgb, i) == out@[i]);
        assert(demo_cmd(rgb, i + 1) == out@[i + 1]);
    }
    assert forall|i: int| 2 <= i < out@.len() - 1 implies (#[trigger] out@[i] matches Cmd::Hue(
        h,
    ) ==> h < 254 && out@[i + 1] == Cmd::Hue((h + 1) as u8)) by {
        assert(demo_cmd(rgb, i) == out@[i]);
        assert(demo_cmd(rgb, i + 1) == out@[i + 1]);
    }
    assert(out@[out@.len() - 1] == demo_cmd(rgb, demo_len(rgb) - 1));
    out
}

} // verus!
