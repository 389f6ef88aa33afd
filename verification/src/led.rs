//! The color that the ESP32 board shows on its RGB LED for a hue command.
use vstd::prelude::*;
use smart_leds::hsv::{hsv2rgb, Hsv};
use smart_leds::{brightness, gamma, RGB8};

verus! {

/// The brightness, out of 255, at which the board drives its LED.
pub const LED_BRIGHTNESS: u8 = 10;

/// The red, green and blue that `smart_leds::hsv::hsv2rgb` computes for a
/// hue, saturation and value: the hue falls in one of six sectors, where one
/// channel is the value `v`, one the floor `p`, and one rises (`t`) or falls
/// (`q`) across the sector; hue 255 wraps round to the first sector.
pub open spec fn hsv2rgb_result(hue: u8, sat: u8, val: u8) -> (u8, u8, u8) {
    let v: int = val as int;
    let s: int = sat as int;
    let f: int = (hue as int * 2 % 85) * 3;
    let p: int = v * (255 - s) / 255;
    let q: int = v * (255 - (s * f) / 255) / 255;
    let t: int = v * (255 - (s * (255 - f)) / 255) / 255;
    if hue <= 42 {
        (v as u8, t as u8, p as u8)
    } else if hue <= 84 {
        (q as u8, v as u8, p as u8)
    } else if hue <= 127 {
        (p as u8, v as u8, t as u8)
    } else if hue <= 169 {
        (p as u8, q as u8, v as u8)
    } else if hue <= 212 {
        (t as u8, p as u8, v as u8)
    } else if hue <= 254 {
        (v as u8, p as u8, q as u8)
    } else {
        (v as u8, t as u8, p as u8)
    }
}

/// The entry for `c` of the gamma table that `smart_leds::gamma` applies to
/// each channel.
pub uninterp spec fn gamma8(c: u8) -> u8;

/// A channel scaled down to a brightness, as `smart_leds::brightness` does:
/// multiplied by `level + 1`, divided by 256.
pub open spec fn dim(c: u8, level: u8) -> u8 {
    ((c as nat * (level as nat + 1)) / 256) as u8
}

/// The pixel for a hue: full saturation and value, gamma corrected, then
/// dimmed to `LED_BRIGHTNESS`.
pub open spec fn led_pixel_spec(hue: u8) -> (u8, u8, u8) {
    let rgb = hsv2rgb_result(hue, 255, 255);
    (
        dim(gamma8(rgb.0), LED_BRIGHTNESS),
        dim(gamma8(rgb.1), LED_BRIGHTNESS),
        dim(gamma8(rgb.2), LED_BRIGHTNESS),
    )
}

/// Dimming to a brightness `level` never gives more than `level`, and keeps
/// the order of the channels.
pub proof fn lemma_dim_bounds(c: u8, d: u8, level: u8)
    ensures
        dim(c, level) <= level,
        c <= d ==> dim(c, level) <= dim(d, level),
        dim(255, level) == level,
{
    assert(c as nat * (level as nat + 1) <= 255 * (level as nat + 1)) by (nonlinear_arith);
    assert(255 * (level as nat + 1) < 256 * (level as nat + 1)) by (nonlinear_arith);
    assert(c as nat * (level as nat + 1) / 256 <= level) by (nonlinear_arith)
        requires
            c as nat * (level as nat + 1) < 256 * (level as nat + 1),
    ;
    assert(d as nat * (level as nat + 1) / 256 <= level) by (nonlinear_arith)
        requires
            d <= 255,
    ;
    if c <= d {
        assert(c as nat * (level as nat + 1) <= d as nat * (level as nat + 1)) by (nonlinear_arith)
            requires
                c <= d,
        ;
        assert(c as nat * (level as nat + 1) / 256 <= d as nat * (level as nat + 1) / 256)
            by (nonlinear_arith)
            requires
                c as nat * (level as nat + 1) <= d as nat * (level as nat + 1),
        ;
    }
    assert(255 * (level as nat + 1) / 256 == level) by (nonlinear_arith)
        requires
            level <= 255,
    ;
}

/// The LED is driven dim: every channel of the pixel for any hue is the
/// gamma-corrected channel of the full colour of that hue, times 11 over 256,
/// so never above 10 out of 255, and a brighter corrected channel is never
/// shown dimmer than a darker one.
pub proof fn lemma_led_pixel_dimmed(hue: u8)
    ensures
        led_pixel_spec(hue).0 <= 10 && led_pixel_spec(hue).1 <= 10 && led_pixel_spec(hue).2 <= 10,
        led_pixel_spec(hue).0 == gamma8(hsv2rgb_result(hue, 255, 255).0) as nat * 11 / 256,
        led_pixel_spec(hue).1 == gamma8(hsv2rgb_result(hue, 255, 255).1) as nat * 11 / 256,
        led_pixel_spec(hue).2 == gamma8(hsv2rgb_result(hue, 255, 255).2) as nat * 11 / 256,
        gamma8(hsv2rgb_result(hue, 255, 255).0) <= gamma8(hsv2rgb_result(hue, 255, 255).1)
            ==> led_pixel_spec(hue).0 <= led_pixel_spec(hue).1,
{
    let rgb = hsv2rgb_result(hue, 255, 255);
    lemma_dim_bounds(gamma8(rgb.0), gamma8(rgb.1), LED_BRIGHTNESS);
    lemma_dim_bounds(gamma8(rgb.1), gamma8(rgb.2), LED_BRIGHTNESS);
    lemma_dim_bounds(gamma8(rgb.2), gamma8(rgb.0), LED_BRIGHTNESS);
    assert(dim(gamma8(rgb.0), 10) == gamma8(rgb.0) as nat * 11 / 256);
    assert(dim(gamma8(rgb.1), 10) == gamma8(rgb.1) as nat * 11 / 256);
    assert(dim(gamma8(rgb.2), 10) == gamma8(rgb.2) as nat * 11 / 256);
}

/// `smart_leds::hsv::hsv2rgb`, with the color taken apart into channels.
/// Claimed: it computes `hsv2rgb_result` (its `u16` arithmetic never
/// overflows, as every product is at most 255 * 255, and every channel is at
/// most 255, so the casts to `u8` keep the values).
#[verifier::external_body]
fn hsv_to_rgb(hue: u8, sat: u8, val: u8) -> (res: (u8, u8, u8))
    ensures
        res == hsv2rgb_result(hue, sat, val),
{
    let c = hsv2rgb(Hsv { hue, sat, val });
    (c.r, c.g, c.b)
}

/// `smart_leds::gamma` on a single color: each channel goes through the
/// gamma table (the adaptor yields one color for the one it is given).
#[verifier::external_body]
fn gamma_correct(r: u8, g: u8, b: u8) -> (res: Option<(u8, u8, u8)>)
    ensures
        res == Some((gamma8(r), gamma8(g), gamma8(b))),
{
    gamma(core::iter::once(RGB8 { r, g, b })).next().map(|c| (c.r, c.g, c.b))
}

/// `smart_leds::brightness` on a single color: each channel is scaled by
/// `level + 1` over 256 (the adaptor yields one color for the one it is
/// given).
#[verifier::external_body]
fn dim_color(r: u8, g: u8, b: u8, level: u8) -> (res: Option<(u8, u8, u8)>)
    ensures
        res == Some((dim(r, level), dim(g, level), dim(b, level))),
{
    brightness(core::iter::once(RGB8 { r, g, b }), level).next().map(|c| (c.r, c.g, c.b))
}

/// The red, green and blue values the board writes to its LED for `hue`.
pub fn led_pixel(hue: u8) -> (res: (u8, u8, u8))
    ensures
        res == led_pixel_spec(hue),
        res.0 <= 10 && res.1 <= 10 && res.2 <= 10,
        res.0 == gamma8(hsv2rgb_result(hue, 255, 255).0) as nat * 11 / 256,
        res.1 == gamma8(hsv2rgb_result(hue, 255, 255).1) as nat * 11 / 256,
        res.2 == gamma8(hsv2rgb_result(hue, 255, 255).2) as nat * 11 / 256,
{
    proof {
        lemma_led_pixel_dimmed(hue);
    }
    let (r, g, b) = hsv_to_rgb(hue, 255, 255);
    let (r, g, b) = match gamma_correct(r, g, b) {
        Some(c) => c,
        None => (r, g, b),
    };
    match dim_color(r, g, b, LED_BRIGHTNESS) {
        Some(c) => c,
        None => (r, g, b),
    }
}

} // verus!
