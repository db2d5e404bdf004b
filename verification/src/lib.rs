//! Control-to-photons pipeline for an addressable LED lamp.
//!
//! Clients set a small lamp state through a [`ControlChannel`]; a render loop turns the
//! state into one frame of colors for each tick; the frame travels as raw color words to
//! the process that owns the LED strip, which copies it to the hardware.

pub mod args;
pub mod daemon;
pub mod firelight_api;
pub mod layout;
pub mod ledstrip;
pub mod ledtest;
pub mod renderer;
pub mod rest;

pub use firelight_api::{Control, ControlChannel, Effect, InvalidEffect};
