//! What decoding a report hands back: events, or why the report was refused.
use vstd::prelude::*;

use crate::button::MaschineButton;

verus! {

/// One transition seen in an input report. Pad pressures are 12-bit levels
/// (`0..=4095`); the normalized pressure is the level over 4095.
#[derive(Clone, Copy, Debug, PartialEq, Eq, Structural)]
pub enum MikroEvent {
    ButtonDown(MaschineButton),
    ButtonUp(MaschineButton),
    PadPressed(usize, u16),
    PadAftertouch(usize, u16),
    PadReleased(usize),
    /// Encoder index and direction: `1` clockwise, `-1` counter-clockwise.
    EncoderStep(usize, i8),
}

/// Why an input report could not be decoded.
#[derive(Clone, Copy, Debug, PartialEq, Eq, Structural)]
pub enum ReportError {
    /// The report is shorter than its kind requires (or empty).
    Truncated,
    /// A changed bit maps to no button: the device broke the report format.
    UnknownButton { group: usize, bit: u8 },
}

/// The pad index given to a pressure query lies outside `0..16`.
#[derive(Clone, Copy, Debug, PartialEq, Eq, Structural)]
pub struct PadIndexError {
    pub index: usize,
}

} // verus!
