//! The hardware sink: one PWM channel of a WS281x strip, driven through the `ws281x` crate.

use vstd::prelude::*;

verus! {

/// The number of PWM channels that a device has.
pub const PWM_CHANNELS: usize = 2;

/// The highest LED count that a device can be opened with. The device sizes its transmit
/// buffer from 96 signal bits for each LED, counted in a 32-bit C integer: this is the
/// highest count whose bits can still be counted.
pub const MAX_LEDS: usize = 22_369_621;

/// The brightness at which the hardware passes colors through unchanged.
pub const FULL_BRIGHTNESS: i32 = 255;

/// `ws281x::handle::Handle`: an open device. Nothing of its inside is known here; what its
/// LED buffers hold goes by the name `channel_leds`, and what it was opened with by the
/// names `device_dma`, `device_pin` and `device_brightness`.
#[verifier::external_type_specification]
#[verifier::external_body]
pub struct ExHandle(ws281x::handle::Handle);

/// `ws281x::channel::Channel`: the description of one channel, from which a device is
/// opened. Nothing of its inside is known here but what it was made with: the LED count,
/// the pin and the brightness.
#[verifier::external_type_specification]
#[verifier::external_body]
pub struct ExChannel(ws281x::channel::Channel);

/// The LED buffer of one channel of an open device, one color word for each LED.
pub uninterp spec fn channel_leds(hw: ws281x::handle::Handle, index: int) -> Seq<u32>;

/// The number of LEDs that a channel was described with.
pub uninterp spec fn channel_count(channel: ws281x::channel::Channel) -> nat;

/// The pin that a channel was described with.
pub uninterp spec fn channel_pin(channel: ws281x::channel::Channel) -> i32;

/// The brightness that a channel was described with.
pub uninterp spec fn channel_brightness(channel: ws281x::channel::Channel) -> i32;

/// The DMA number that a device was opened with.
pub uninterp spec fn device_dma(hw: ws281x::handle::Handle) -> i32;

/// The pin of one channel of an open device.
pub uninterp spec fn device_pin(hw: ws281x::handle::Handle, index: int) -> i32;

/// The brightness by which the hardware scales the colors of one channel of an open device.
pub uninterp spec fn device_brightness(hw: ws281x::handle::Handle, index: int) -> i32;

/// Whether the LED buffers of all channels of a device are within what a device can
/// transmit.
pub open spec fn buffers_fit(hw: ws281x::handle::Handle) -> bool {
    forall|index: int|
        0 <= index < PWM_CHANNELS ==> (#[trigger] channel_leds(hw, index)).len() <= MAX_LEDS
}

/// Whether two states of a device differ in nothing but the LED buffer of one channel: the
/// buffers of the other channels, the DMA number, the pins and the brightnesses are the
/// same.
pub open spec fn same_but_leds(before: ws281x::handle::Handle, after: ws281x::handle::Handle, index: int) -> bool {
    &&& device_dma(after) == device_dma(before)
    &&& forall|other: int| #[trigger] device_pin(after, other) == device_pin(before, other)
    &&& forall|other: int|
        #[trigger] device_brightness(after, other) == device_brightness(before, other)
    &&& forall|other: int|
        other != index ==> #[trigger] channel_leds(after, other) == channel_leds(before, other)
}

/// Why a sink could not be set up.
#[derive(Copy, Clone, Debug, PartialEq, Eq, Structural)]
pub enum ConfigError {
    /// The device has no PWM channel of that index.
    NoSuchChannel,
    /// The LED count is beyond what a channel can be described with.
    TooManyLeds,
    /// The channel could not be described.
    ChannelRefused,
    /// The device could not be opened with that pin, DMA number or channel.
    DeviceRefused,
}

/// Why a frame did not reach the LEDs.
#[derive(Copy, Clone, Debug, PartialEq, Eq, Structural)]
pub enum SinkError {
    /// The transmission could not be started.
    Render,
    /// The transmission did not run to its end.
    Wait,
}

/// `ws281x::channel::new()` with `pin`, `count`, `brightness` and `build`: describes a
/// channel. The contract claims that the channel is always built, and that it has the LED
/// count, the pin and the brightness it was asked for: the builder stores each as it is
/// given. The count has to fit the C integer that it is stored in.
#[verifier::external_body]
fn describe_channel(pin: i32, count: usize, brightness: i32) -> (built: Result<
    ws281x::channel::Channel,
    (),
>)
    requires
        count <= MAX_LEDS,
    ensures
        built is Ok,
        built matches Ok(channel) ==> {
            &&& channel_count(channel) == count
            &&& channel_pin(channel) == pin
            &&& channel_brightness(channel) == brightness
        },
{
    ws281x::channel::new().pin(pin).count(count).brightness(brightness).build()
}

/// `ws281x::handle::new()` with `dma`, `channel` and `build`: opens the device with one
/// channel. The contract claims of a device that was opened that the channel's LED buffer
/// holds one zero word for each LED of the channel, that the other channels have no LEDs,
/// and that the device has the DMA number it was asked for and the channel the pin and the
/// brightness it was described with. The index has to be that of a PWM channel, or the call
/// panics; the LED count has to be one that the device can size its buffers for.
#[verifier::external_body]
fn open_device(dma: i32, index: usize, channel: ws281x::channel::Channel) -> (opened: Result<
    ws281x::handle::Handle,
    (),
>)
    requires
        index < PWM_CHANNELS,
        channel_count(channel) <= MAX_LEDS,
    ensures
        opened matches Ok(hw) ==> {
            &&& channel_leds(hw, index as int) == Seq::new(channel_count(channel), |i: int| 0u32)
            &&& forall|other: int|
                0 <= other < PWM_CHANNELS && other != index ==> (#[trigger] channel_leds(
                    hw,
                    other,
                )).len() == 0
            &&& device_dma(hw) == dma
            &&& device_pin(hw, index as int) == channel_pin(channel)
            &&& device_brightness(hw, index as int) == channel_brightness(channel)
        },
{
    ws281x::handle::new().dma(dma).channel(index, channel).build()
}

/// `Handle::channel` and `ChannelRef::leds`: the length of a channel's LED buffer.
#[verifier::external_body]
fn buffer_len(hw: &ws281x::handle::Handle, index: usize) -> (n: usize)
    requires
        index < PWM_CHANNELS,
    ensures
        n == channel_leds(*hw, index as int).len(),
{
    hw.channel(index).leds().len()
}

/// `Handle::channel_mut` and `ChannelMut::leds_mut`: stores one color word in a channel's
/// LED buffer. The contract claims that this word changes and nothing else of the device.
#[verifier::external_body]
fn store_led(hw: &mut ws281x::handle::Handle, index: usize, led: usize, color: u32)
    requires
        index < PWM_CHANNELS,
        buffers_fit(*old(hw)),
        led < channel_leds(*old(hw), index as int).len(),
    ensures
        channel_leds(*final(hw), index as int) == channel_leds(*old(hw), index as int).update(
            led as int,
            color,
        ),
        same_but_leds(*old(hw), *final(hw), index as int),
    no_unwind
{
    hw.channel_mut(index).leds_mut()[led] = color;
}

/// `Handle::render`: starts the transmission of the LED buffers. The contract claims that
/// the buffers and what the device was opened with stay as they are, whether the start
/// succeeds or not. The buffers have to be within what the device sized its transmit
/// buffer for.
#[verifier::external_body]
fn start_transmit(hw: &mut ws281x::handle::Handle) -> (started: Result<(), ()>)
    requires
        buffers_fit(*old(hw)),
    ensures
        forall|index: int| channel_leds(*final(hw), index) == channel_leds(*old(hw), index),
        same_but_leds(*old(hw), *final(hw), -1),
    no_unwind
{
    hw.render()
}

/// `Handle::wait`: blocks until the transmission has ended. The contract claims that the
/// buffers and what the device was opened with stay as they are, whether the transmission
/// ended well or not.
#[verifier::external_body]
fn await_transmit(hw: &mut ws281x::handle::Handle) -> (ended: Result<(), ()>)
    requires
        buffers_fit(*old(hw)),
    ensures
        forall|index: int| channel_leds(*final(hw), index) == channel_leds(*old(hw), index),
        same_but_leds(*old(hw), *final(hw), -1),
    no_unwind
{
    hw.wait()
}

/// An LED buffer after a frame was copied into it: the frame's colors as far as the buffer
/// reaches, and what the buffer held before on the LEDs that the frame does not reach.
pub open spec fn loaded(buffer: Seq<u32>, colors: Seq<u32>) -> Seq<u32> {
    Seq::new(buffer.len(), |i: int| if i < colors.len() { colors[i] } else { buffer[i] })
}

/// Loading keeps the buffer's length; a frame as long as the buffer, or longer, replaces
/// all of it, and an empty frame none of it.
pub proof fn lemma_loaded(buffer: Seq<u32>, colors: Seq<u32>)
    ensures
        loaded(buffer, colors).len() == buffer.len(),
        colors.len() >= buffer.len() ==> loaded(buffer, colors) == colors.take(buffer.len() as int),
        colors.len() == 0 ==> loaded(buffer, colors) == buffer,
        loaded(loaded(buffer, colors), colors) == loaded(buffer, colors),
{
    if colors.len() >= buffer.len() {
        assert(loaded(buffer, colors) =~= colors.take(buffer.len() as int));
    }
    if colors.len() == 0 {
        assert(loaded(buffer, colors) =~= buffer);
    }
    assert(loaded(loaded(buffer, colors), colors) =~= loaded(buffer, colors));
}

/// What a call of `apply` returns for each outcome of the two steps of a transmission.
/// The wait is not made when the start failed, so its outcome then counts for nothing.
pub fn transmission(started: Result<(), ()>, ended: Result<(), ()>) -> (sent: Result<
    (),
    SinkError,
>)
    ensures
        sent == (match (started, ended) {
            (Err(_), _) => Err::<(), SinkError>(SinkError::Render),
            (Ok(_), Err(_)) => Err::<(), SinkError>(SinkError::Wait),
            (Ok(_), Ok(_)) => Ok::<(), SinkError>(()),
        }),
{
    match started {
        Err(_) => Err(SinkError::Render),
        Ok(_) => match ended {
            Err(_) => Err(SinkError::Wait),
            Ok(_) => Ok(()),
        },
    }
}

/// Checks a channel index and an LED count against what any device can have, before the
/// hardware is asked. The channel index is looked at first.
pub fn check_config(rpi_channel: usize, leds_count: usize) -> (checked: Result<(), ConfigError>)
    ensures
        checked == (if rpi_channel >= PWM_CHANNELS {
            Err::<(), ConfigError>(ConfigError::NoSuchChannel)
        } else if leds_count > MAX_LEDS {
            Err::<(), ConfigError>(ConfigError::TooManyLeds)
        } else {
            Ok::<(), ConfigError>(())
        }),
{
    if rpi_channel >= PWM_CHANNELS {
        Err(ConfigError::NoSuchChannel)
    } else if leds_count > MAX_LEDS {
        Err(ConfigError::TooManyLeds)
    } else {
        Ok(())
    }
}

/// Whether the LED buffers of all channels of a device are within what a device can
/// transmit.
fn within_limits(hw: &ws281x::handle::Handle) -> (fit: bool)
    ensures
        fit == buffers_fit(*hw),
{
    let mut index: usize = 0;
    while index < PWM_CHANNELS
        invariant
            index <= PWM_CHANNELS,
            forall|seen: int|
                0 <= seen < index ==> (#[trigger] channel_leds(*hw, seen)).len() <= MAX_LEDS,
        decreases PWM_CHANNELS - index,
    {
        if buffer_len(hw, index) > MAX_LEDS {
            assert(channel_leds(*hw, index as int).len() > MAX_LEDS);
            return false;
        }
        index += 1;
    }
    true
}

/// One PWM channel of an open device. The sink owns the device: nothing else writes to the
/// LED buffer or starts a transmission.
pub struct DeviceController {
    hw: ws281x::handle::Handle,
    channel: usize,
}

impl DeviceController {
    #[verifier::type_invariant]
    spec fn well_formed(self) -> bool {
        &&& self.channel < PWM_CHANNELS
        &&& buffers_fit(self.hw)
    }

    /// The colors in the LED buffer, one word for each LED of the strip.
    pub closed spec fn leds(&self) -> Seq<u32> {
        channel_leds(self.hw, self.channel as int)
    }

    /// The index of the PWM channel that the strip is connected to.
    pub closed spec fn pwm_channel(&self) -> usize {
        self.channel
    }

    /// The pin that the strip is attached to.
    pub closed spec fn pin(&self) -> i32 {
        device_pin(self.hw, self.channel as int)
    }

    /// The DMA number that the device uses.
    pub closed spec fn dma(&self) -> i32 {
        device_dma(self.hw)
    }

    /// The brightness by which the hardware scales the colors that it is given.
    pub closed spec fn hardware_brightness(&self) -> i32 {
        device_brightness(self.hw, self.channel as int)
    }

    /// Whether two states of a sink are the same device on the same channel, opened with
    /// the same pin, DMA number and brightness.
    pub open spec fn same_setup(&self, other: &DeviceController) -> bool {
        &&& self.pwm_channel() == other.pwm_channel()
        &&& self.pin() == other.pin()
        &&& self.dma() == other.dma()
        &&& self.hardware_brightness() == other.hardware_brightness()
    }

    /// Opens the device.
    ///
    /// * `rpi_dma`: the DMA number, 0 to 15, that no other process or hardware uses.
    /// * `rpi_channel`: the PWM channel that the strip is connected to, 0 or 1.
    /// * `rpi_pin`: the pin that the strip is attached to.
    /// * `leds_count`: the number of LEDs on the strip.
    ///
    /// The channel is set up at full brightness, so that colors pass through as they are
    /// given. Whether the device opens is for the hardware to say; a channel index or an LED
    /// count that no device has is refused before the hardware is asked.
    pub fn new(rpi_dma: i32, rpi_channel: usize, rpi_pin: i32, leds_count: usize) -> (made: Result<
        DeviceController,
        ConfigError,
    >)
        ensures
            rpi_channel >= PWM_CHANNELS ==> (made matches Err(e) && e
                == ConfigError::NoSuchChannel),
            rpi_channel < PWM_CHANNELS && leds_count > MAX_LEDS ==> (made matches Err(e) && e
                == ConfigError::TooManyLeds),
            rpi_channel < PWM_CHANNELS && leds_count <= MAX_LEDS ==> match made {
                Ok(device) => {
                    &&& device.pwm_channel() == rpi_channel
                    &&& device.leds() == Seq::new(leds_count as nat, |i: int| 0u32)
                    &&& device.pin() == rpi_pin
                    &&& device.dma() == rpi_dma
                    &&& device.hardware_brightness() == FULL_BRIGHTNESS
                },
                Err(e) => e == ConfigError::DeviceRefused,
            },
    {
        match check_config(rpi_channel, leds_count) {
            Err(e) => Err(e),
            Ok(_) => match describe_channel(rpi_pin, leds_count, FULL_BRIGHTNESS) {
                Err(_) => Err(ConfigError::ChannelRefused),
                Ok(hw_channel) => DeviceController::opened(
                    open_device(rpi_dma, rpi_channel, hw_channel),
                    rpi_channel,
                ),
            },
        }
    }

    /// The sink for a device that was asked to open with the strip on `rpi_channel`: the
    /// device as it is if it opened, and the error if it did not. A device with more LEDs on
    /// one of its channels than a device can transmit is refused.
    #[inline]
    pub fn opened(handler: Result<ws281x::handle::Handle, ()>, rpi_channel: usize) -> (made: Result<
        DeviceController,
        ConfigError,
    >)
        requires
            rpi_channel < PWM_CHANNELS,
        ensures
            match handler {
                Ok(hw) => if buffers_fit(hw) {
                    &&& made matches Ok(device)
                    &&& device.pwm_channel() == rpi_channel
                    &&& device.leds() == channel_leds(hw, rpi_channel as int)
                    &&& device.pin() == device_pin(hw, rpi_channel as int)
                    &&& device.dma() == device_dma(hw)
                    &&& device.hardware_brightness() == device_brightness(hw, rpi_channel as int)
                } else {
                    made matches Err(e) && e == ConfigError::TooManyLeds
                },
                Err(_) => made matches Err(e) && e == ConfigError::DeviceRefused,
            },
    {
        match handler {
            Ok(hw) => {
                if within_limits(&hw) {
                    Ok(DeviceController { hw, channel: rpi_channel })
                } else {
                    Err(ConfigError::TooManyLeds)
                }
            },
            Err(_) => Err(ConfigError::DeviceRefused),
        }
    }

    /// The number of LEDs that the sink drives.
    pub fn capacity(&self) -> (n: usize)
        ensures
            n == self.leds().len(),
    {
        proof {
            use_type_invariant(self);
        }
        buffer_len(&self.hw, self.channel)
    }

    /// Copies a frame into the LED buffer: as many colors as the buffer and the frame both
    /// have. Colors beyond the buffer are dropped, and LEDs beyond the frame keep what they
    /// held.
    pub fn load(&mut self, led_colors: &[u32])
        ensures
            final(self).leds() == loaded(old(self).leds(), led_colors@),
            final(self).leds().len() == old(self).leds().len(),
            final(self).same_setup(old(self)),
    {
        proof {
            use_type_invariant(&*self);
        }
        let bound: usize = led_colors.len();
        let count: usize = buffer_len(&self.hw, self.channel);
        let mut i: usize = 0;
        while i < count && i < bound
            invariant
                i <= count,
                i <= bound,
                bound == led_colors.len(),
                self.channel < PWM_CHANNELS,
                buffers_fit(self.hw),
                self.same_setup(old(self)),
                count == old(self).leds().len(),
                self.leds() == loaded(old(self).leds(), led_colors@.take(i as int)),
            decreases count - i,
        {
            store_led(&mut self.hw, self.channel, i, led_colors[i]);
            assert(self.leds() =~= loaded(old(self).leds(), led_colors@.take(i + 1)));
            i += 1;
        }
        assert(self.leds() =~= loaded(old(self).leds(), led_colors@));
    }

    /// Shows a frame on the strip: copies it into the LED buffer, starts the transmission
    /// and blocks until the transmission has ended, so that no transmission is ever started
    /// while another one is in flight. The buffer holds the frame whatever the hardware
    /// then reports.
    pub fn apply(&mut self, led_colors: &[u32]) -> (sent: Result<(), SinkError>)
        ensures
            final(self).leds() == loaded(old(self).leds(), led_colors@),
            final(self).leds().len() == old(self).leds().len(),
            final(self).same_setup(old(self)),
    {
        self.load(led_colors);
        proof {
            use_type_invariant(&*self);
        }
        let started: Result<(), ()> = start_transmit(&mut self.hw);
        let ended: Result<(), ()> = match started {
            Ok(_) => await_transmit(&mut self.hw),
            Err(_) => Err(()),
        };
        transmission(started, ended)
    }
}

} // verus!
