//! Dimming of RGBW pixels for the WS2812 clock display, and the colour the
//! display shows at each step of its demo cycle.
use vstd::prelude::*;

verus! {

/// One RGBW pixel: red, green, blue and white channels.
#[derive(Clone, Copy, Debug, PartialEq, Eq, Structural)]
pub struct Rgbw {
    pub r: u8,
    pub g: u8,
    pub b: u8,
    pub w: u8,
}

/// A pixel that can be shown at a reduced brightness.
pub trait Brightness: Sized {
    /// The value shown at `brigtness` out of 255.
    fn brightness(&self, brigtness: u8) -> Self;
}

/// One channel `c` at `brightness` out of 255: `c * (brightness + 1) / 256`,
/// rounded down.
pub open spec fn scale(c: u8, brightness: u8) -> u8 {
    (c * (brightness + 1) / 256) as u8
}

/// A pixel with every channel scaled to `brightness`.
pub open spec fn dimmed(p: Rgbw, brightness: u8) -> Rgbw {
    Rgbw {
        r: scale(p.r, brightness),
        g: scale(p.g, brightness),
        b: scale(p.b, brightness),
        w: scale(p.w, brightness),
    }
}

fn scale_channel(c: u8, brightness: u8) -> (v: u8)
    ensures
        v == scale(c, brightness),
{
    assert((c as u16) * (brightness as u16 + 1) <= 255 * 256) by (nonlinear_arith)
        requires
            c <= 255,
            brightness <= 255,
    ;
    assert((c as int) * (brightness + 1) / 256 <= 255) by (nonlinear_arith)
        requires
            c <= 255,
            brightness <= 255,
    ;
    ((c as u16) * (brightness as u16 + 1) / 256) as u8
}

impl Brightness for Rgbw {
    fn brightness(&self, brightness: u8) -> (p: Rgbw)
        ensures
            p == dimmed(*self, brightness),
    {
        Rgbw {
            r: scale_channel(self.r, brightness),
            g: scale_channel(self.g, brightness),
            b: scale_channel(self.b, brightness),
            w: scale_channel(self.w, brightness),
        }
    }
}

/// Dimming never makes a channel brighter.
pub proof fn lemma_scale_never_brightens(c: u8, brightness: u8)
    ensures
        scale(c, brightness) <= c,
{
    assert((c as int) * (brightness + 1) / 256 <= c) by (nonlinear_arith)
        requires
            c <= 255,
            brightness <= 255,
    ;
}

/// Full brightness shows the channel unchanged.
pub proof fn lemma_full_brightness_is_identity(c: u8)
    ensures
        scale(c, 255) == c,
{
}

/// A brighter setting never gives a darker channel.
pub proof fn lemma_scale_monotonic(c: u8, b1: u8, b2: u8)
    requires
        b1 <= b2,
    ensures
        scale(c, b1) <= scale(c, b2),
{
    assert((c as int) * (b1 + 1) / 256 <= (c as int) * (b2 + 1) / 256) by (nonlinear_arith)
        requires
            c <= 255,
            b1 <= b2,
    {
        vstd::arithmetic::mul::lemma_mul_inequality(b1 + 1, b2 + 1, c as int);
        vstd::arithmetic::div_mod::lemma_div_is_ordered(
            (c as int) * (b1 + 1),
            (c as int) * (b2 + 1),
            256,
        );
    }
    assert((c as int) * (b2 + 1) / 256 <= 255) by (nonlinear_arith)
        requires
            c <= 255,
            b2 <= 255,
    ;
}

/// A dark channel stays dark, and brightness 0 turns every channel off.
pub proof fn lemma_dark_stays_dark(c: u8, brightness: u8)
    ensures
        scale(0, brightness) == 0,
        scale(c, 0) == 0,
{
}

/// The brightness at which the clock display shows its colours.
pub open spec fn demo_brightness() -> u8 {
    32
}

/// The colours the display cycles through: red, green, blue, then white.
pub open spec fn demo_base_color(step: int) -> Rgbw {
    if step % 4 == 0 {
        Rgbw { r: 255, g: 0, b: 0, w: 0 }
    } else if step % 4 == 1 {
        Rgbw { r: 0, g: 255, b: 0, w: 0 }
    } else if step % 4 == 2 {
        Rgbw { r: 0, g: 0, b: 255, w: 0 }
    } else {
        Rgbw { r: 0, g: 0, b: 0, w: 255 }
    }
}

/// The pixel the clock display shows at step `step` of its demo cycle: the
/// step's base colour dimmed to brightness 32.
pub fn demo_color(step: usize) -> (p: Rgbw)
    ensures
        p == dimmed(demo_base_color(step as int), demo_brightness()),
{
    let base = if step % 4 == 0 {
        Rgbw { r: 255, g: 0, b: 0, w: 0 }
    } else if step % 4 == 1 {
        Rgbw { r: 0, g: 255, b: 0, w: 0 }
    } else if step % 4 == 2 {
        Rgbw { r: 0, g: 0, b: 255, w: 0 }
    } else {
        Rgbw { r: 0, g: 0, b: 0, w: 255 }
    };
    base.brightness(32)
}

/// A scaled channel is `c * (brightness + 1) / 256` rounded down: it is the
/// largest value whose 256-fold does not exceed `c * (brightness + 1)`.
pub proof fn lemma_scale_rounds_down(c: u8, brightness: u8)
    ensures
        scale(c, brightness) * 256 <= c * (brightness + 1) < (scale(c, brightness) + 1) * 256,
{
    assert((c as int) * (brightness + 1) / 256 <= 255) by (nonlinear_arith)
        requires
            c <= 255,
            brightness <= 255,
    ;
    vstd::arithmetic::div_mod::lemma_fundamental_div_mod((c as int) * (brightness + 1), 256);
}

/// The demo shows red, green, blue and white in turn, each at 32 of 255:
/// the lit channel is `255 * 33 / 256 = 32` and the others are dark.
pub proof fn lemma_demo_cycle(step: int)
    ensures
        step % 4 == 0 ==> dimmed(demo_base_color(step), demo_brightness()) == (Rgbw { r: 32, g: 0, b: 0, w: 0 }),
        step % 4 == 1 ==> dimmed(demo_base_color(step), demo_brightness()) == (Rgbw { r: 0, g: 32, b: 0, w: 0 }),
        step % 4 == 2 ==> dimmed(demo_base_color(step), demo_brightness()) == (Rgbw { r: 0, g: 0, b: 32, w: 0 }),
        step % 4 == 3 ==> dimmed(demo_base_color(step), demo_brightness()) == (Rgbw { r: 0, g: 0, b: 0, w: 32 }),
{
}

} // verus!
