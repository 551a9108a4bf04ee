//! Report decoding and encoding for a grid controller with sixteen
//! pressure-sensitive pads, lit buttons and a rotary encoder.
//!
//! `mikro::Mikro` holds a device's decode state and light report; input
//! reports go in through `Mikro::handle_report` and come out as
//! `event::MikroEvent`s. The transport is the caller's.
pub mod button;
pub mod event;
pub mod lights;
pub mod mikro;
pub mod pad;
