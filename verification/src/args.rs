//! What the two programs are started with.

use crate::layout::{led_count, StrandLayout};
use crate::ledstrip::{ConfigError, DeviceController, FULL_BRIGHTNESS, MAX_LEDS, PWM_CHANNELS};
use vstd::prelude::*;

verus! {

/// What the process that drives the LEDs is started with.
#[derive(Debug)]
pub struct DaemonArgs {
    /// Path to the listening socket of the daemon.
    pub unix_socket: String,
    /// The PWM channel to which the LED strip is connected. Usually 0 or 1.
    pub channel: usize,
    /// The DMA offset number.
    pub dma: i32,
    /// The pin to which the LED strip is attached.
    pub pin: i32,
    /// How many LEDs the strip contains.
    pub leds_count: usize,
}

/// What the control server is started with.
#[derive(Debug)]
pub struct ServerArgs {
    /// Path to the listening socket of the daemon.
    pub daemon_socket: String,
    /// The listen address to bind to.
    pub bind: String,
    /// A unique identifier for this server instance.
    pub instance_name: String,
    /// The logical arrangement of the strip into vertical strands.
    pub strands: Vec<usize>,
}

impl DaemonArgs {
    /// Opens the sink that the arguments describe.
    pub fn open(&self) -> (made: Result<DeviceController, ConfigError>)
        ensures
            self.channel >= PWM_CHANNELS ==> (made matches Err(e) && e
                == ConfigError::NoSuchChannel),
            self.channel < PWM_CHANNELS && self.leds_count > MAX_LEDS ==> (made matches Err(e) && e
                == ConfigError::TooManyLeds),
            self.channel < PWM_CHANNELS && self.leds_count <= MAX_LEDS ==> match made {
                Ok(device) => {
                    &&& device.pwm_channel() == self.channel
                    &&& device.leds() == Seq::new(self.leds_count as nat, |i: int| 0u32)
                    &&& device.pin() == self.pin
                    &&& device.dma() == self.dma
                    &&& device.hardware_brightness() == FULL_BRIGHTNESS
                },
                Err(e) => e == ConfigError::DeviceRefused,
            },
    {
        DeviceController::new(self.dma, self.channel, self.pin, self.leds_count)
    }
}

impl ServerArgs {
    /// The layout that the arguments describe, if its LEDs can be counted.
    pub fn layout(&self) -> (layout: Option<StrandLayout>)
        ensures
            layout is Some <==> led_count(self.strands@) <= usize::MAX,
            layout matches Some(l) ==> l@ == self.strands@,
    {
        StrandLayout::new(self.strands.clone())
    }
}

} // verus!
