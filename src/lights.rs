//! Output reports: the light report and the screen-clear report.
//!
//! Brightness is a level in `0..=255`, where 255 stands for full brightness.
use vstd::prelude::*;

use crate::button::MaschineButton;

verus! {

/// Length of the light report.
pub const LIGHT_REPORT_LEN: usize = 79;

/// Kind byte of the light report, its first byte.
pub const LIGHT_REPORT_KIND: u8 = 0x80;

/// Offset of the first pad's red byte; each pad takes three bytes.
pub const PAD_LIGHT_OFFSET: usize = 31;

/// Length of a screen-clear report.
pub const SCREEN_REPORT_LEN: usize = 265;

/// Kind byte of a screen-clear report.
pub const SCREEN_REPORT_KIND: u8 = 0xE0;

/// The light report byte of each button that has a light.
pub open spec fn light_offset(btn: MaschineButton) -> Option<int> {
    match btn {
        MaschineButton::F1 => Some(1),
        MaschineButton::F2 => Some(2),
        MaschineButton::F3 => Some(3),
        MaschineButton::Control => Some(4),
        MaschineButton::Nav => Some(5),
        MaschineButton::NavLeft => Some(6),
        MaschineButton::NavRight => Some(7),
        MaschineButton::Main => Some(8),
        MaschineButton::Group => Some(9),
        MaschineButton::Browse => Some(12),
        MaschineButton::Sampling => Some(13),
        MaschineButton::NoteRepeat => Some(14),
        MaschineButton::Restart => Some(15),
        MaschineButton::StepLeft => Some(16),
        MaschineButton::StepRight => Some(17),
        MaschineButton::Grid => Some(18),
        MaschineButton::Play => Some(19),
        MaschineButton::Rec => Some(20),
        MaschineButton::Erase => Some(21),
        MaschineButton::Shift => Some(22),
        MaschineButton::Scene => Some(23),
        MaschineButton::Pattern => Some(24),
        MaschineButton::PadMode => Some(25),
        MaschineButton::View => Some(26),
        MaschineButton::Duplicate => Some(27),
        MaschineButton::Select => Some(28),
        MaschineButton::Solo => Some(29),
        MaschineButton::Mute => Some(30),
        MaschineButton::Encoder => None,
    }
}

/// Looks up the light report byte of a button; `None` for a button without a light.
pub fn button_light_offset(btn: MaschineButton) -> (r: Option<usize>)
    ensures
        r matches Some(o) ==> light_offset(btn) == Some(o as int),
        r is None <==> light_offset(btn) is None,
{
    match btn {
        MaschineButton::F1 => Some(1),
        MaschineButton::F2 => Some(2),
        MaschineButton::F3 => Some(3),
        MaschineButton::Control => Some(4),
        MaschineButton::Nav => Some(5),
        MaschineButton::NavLeft => Some(6),
        MaschineButton::NavRight => Some(7),
        MaschineButton::Main => Some(8),
        // 9, 10 and 11 are the colour of the group button
        MaschineButton::Group => Some(9),
        MaschineButton::Browse => Some(12),
        MaschineButton::Sampling => Some(13),
        MaschineButton::NoteRepeat => Some(14),
        MaschineButton::Restart => Some(15),
        MaschineButton::StepLeft => Some(16),
        MaschineButton::StepRight => Some(17),
        MaschineButton::Grid => Some(18),
        MaschineButton::Play => Some(19),
        MaschineButton::Rec => Some(20),
        MaschineButton::Erase => Some(21),
        MaschineButton::Shift => Some(22),
        MaschineButton::Scene => Some(23),
        MaschineButton::Pattern => Some(24),
        MaschineButton::PadMode => Some(25),
        MaschineButton::View => Some(26),
        MaschineButton::Duplicate => Some(27),
        MaschineButton::Select => Some(28),
        MaschineButton::Solo => Some(29),
        MaschineButton::Mute => Some(30),
        MaschineButton::Encoder => None,
    }
}

/// Byte `k` of a 24-bit colour: 0 blue, 1 green, 2 red.
pub open spec fn color_channel(color: u32, k: u32) -> u8 {
    ((color >> (8 * k)) & 0xFF) as u8
}

/// A pad channel at half the given brightness: `floor(brightness / 255 * 0.5 * c)`.
pub open spec fn pad_channel(brightness: u8, c: u8) -> u8 {
    (brightness as int * c as int / 510) as u8
}

/// The first light report byte of pad `pad`.
pub open spec fn pad_light_offset(pad: int) -> int {
    PAD_LIGHT_OFFSET + 3 * pad
}

/// The screen-clear report of one display quarter.
pub open spec fn screen_clear_bytes(quadrant: u8) -> Seq<u8> {
    Seq::new(
        SCREEN_REPORT_LEN as nat,
        |i: int|
            if i == 0 {
                SCREEN_REPORT_KIND
            } else if i == 1 {
                (quadrant * 32) as u8
            } else if i == 5 {
                0x20u8
            } else if i == 7 {
                0x08u8
            } else {
                0u8
            },
    )
}

/// One channel of a pad light.
pub fn scale_pad_channel(brightness: u8, c: u8) -> (r: u8)
    ensures
        r == pad_channel(brightness, c),
{
    assert(brightness as u32 * c as u32 <= 255 * 255) by (nonlinear_arith)
        requires
            brightness <= 255,
            c <= 255,
    ;
    let product: u32 = brightness as u32 * c as u32;
    assert(product / 510 <= 255);
    (product / 510) as u8
}

/// Writes the three channels of `color` at `offset`, at half of `brightness`.
pub fn set_rgb_light(buf: &mut Vec<u8>, offset: usize, color: u32, brightness: u8)
    requires
        offset + 3 <= old(buf)@.len(),
    ensures
        final(buf)@ == old(buf)@.update(offset as int, pad_channel(brightness, color_channel(color, 2)))
            .update(offset + 1, pad_channel(brightness, color_channel(color, 1)))
            .update(offset + 2, pad_channel(brightness, color_channel(color, 0))),
{
    let len = buf.len();
    assert(len >= offset + 3);
    assert(color >> 0 == color) by (bit_vector);
    assert((color >> 16) & 0xFF <= 0xFF) by (bit_vector);
    assert((color >> 8) & 0xFF <= 0xFF) by (bit_vector);
    assert(color & 0xFF <= 0xFF) by (bit_vector);
    buf[offset] = scale_pad_channel(brightness, ((color >> 16) & 0xFF) as u8);
    buf[offset + 1] = scale_pad_channel(brightness, ((color >> 8) & 0xFF) as u8);
    buf[offset + 2] = scale_pad_channel(brightness, (color & 0xFF) as u8);
}

/// The screen-clear report of display quarter `quadrant` (`0..4`).
pub fn screen_clear_report(quadrant: u8) -> (r: Vec<u8>)
    requires
        quadrant < 4,
    ensures
        r@ == screen_clear_bytes(quadrant),
{
    let mut buf: Vec<u8> = vec![0u8; SCREEN_REPORT_LEN];
    buf[0] = SCREEN_REPORT_KIND;
    buf[1] = quadrant * 32;
    buf[5] = 0x20;
    buf[7] = 0x08;
    assert(buf@ =~= screen_clear_bytes(quadrant));
    buf
}

} // verus!
