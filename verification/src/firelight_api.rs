//! The lamp state that clients set, and the channel through which they set it.

use crate::renderer::RendererCommand;
use vstd::prelude::*;
use vstd::string::StringExecFns;

verus! {

/// The visual effect that the lamp shows while it is on.
#[derive(Copy, Clone, Debug, PartialEq, Eq, Structural)]
pub enum Effect {
    /// Every LED shows the configured color.
    Static,
    /// Each strand flickers like an ember line.
    Fire,
}

/// An effect token that names no effect.
#[derive(Debug, PartialEq, Eq)]
pub struct InvalidEffect {
    /// The token as it was given.
    pub token: String,
}

impl InvalidEffect {
    /// The error as a line for an operator.
    pub fn message(&self) -> (text: String)
        ensures
            text@ == "invalid effect "@ + self.token@,
    {
        String::from_str("invalid effect ").concat(self.token.as_str())
    }
}

impl Effect {
    /// The token that names the effect on the control interface.
    pub open spec fn token(self) -> Seq<char> {
        match self {
            Effect::Static => "static"@,
            Effect::Fire => "fire"@,
        }
    }

    /// The token that names the effect.
    pub fn to_string(&self) -> (s: String)
        ensures
            s@ == self.token(),
    {
        match self {
            Effect::Static => String::from_str("static"),
            Effect::Fire => String::from_str("fire"),
        }
    }

    /// The effect that a token names. Tokens are matched exactly: no other case or spacing
    /// is accepted.
    pub fn from_string(s: &str) -> (parsed: Result<Effect, InvalidEffect>)
        ensures
            s@ == Effect::Static.token() <==> parsed == Ok::<Effect, InvalidEffect>(Effect::Static),
            s@ == Effect::Fire.token() <==> parsed == Ok::<Effect, InvalidEffect>(Effect::Fire),
            parsed matches Ok(effect) ==> s@ == effect.token(),
            parsed matches Err(e) ==> e.token@ == s@,
    {
        proof {
            lemma_tokens_differ();
        }
        let given: String = String::from_str(s);
        if given == String::from_str("static") {
            Ok(Effect::Static)
        } else if given == String::from_str("fire") {
            Ok(Effect::Fire)
        } else {
            Err(InvalidEffect { token: given })
        }
    }
}

/// No token names two effects.
pub proof fn lemma_tokens_differ()
    ensures
        Effect::Static.token() != Effect::Fire.token(),
{
    reveal_strlit("static");
    reveal_strlit("fire");
    assert("static"@.len() == 6);
    assert("fire"@.len() == 4);
}

/// Brightness `v` brought into the range of a byte.
pub open spec fn clamp_brightness(v: int) -> u8 {
    if v < 0 {
        0u8
    } else if v > 255 {
        255u8
    } else {
        v as u8
    }
}

/// A complete snapshot of what the lamp is asked to show. Clients send whole snapshots;
/// the renderer replaces its state with each one it receives.
#[derive(Copy, Clone, Debug, PartialEq, Eq)]
pub struct Control {
    /// Whether the lamp is on.
    pub on: bool,
    /// The effect shown while the lamp is on.
    pub effect: Effect,
    /// Brightness from 0 (dark) to 255 (colors as configured).
    pub brightness: u8,
    /// Hue in degrees, in [0, 360), and saturation in percent, in [0, 100], each held as
    /// the bit pattern of a single-precision number.
    pub color_hs: (u32, u32),
}

impl Control {
    /// The state of a lamp that has not been told anything yet.
    pub open spec fn initial() -> Control {
        Control { on: false, effect: Effect::Static, brightness: 255, color_hs: (0u32, 0u32) }
    }

    /// The snapshot with the lamp switched the other way.
    pub open spec fn toggled(self) -> Control {
        Control { on: !self.on, ..self }
    }

    /// The snapshot with another brightness.
    pub open spec fn with_brightness(self, brightness: u8) -> Control {
        Control { brightness, ..self }
    }

    /// The snapshot with `delta` added to the brightness, stopping at 0 and at 255.
    pub open spec fn adjusted(self, delta: int) -> Control {
        self.with_brightness(clamp_brightness(self.brightness + delta))
    }

    /// The state at startup: off, full brightness, static effect, hue and saturation zero.
    pub fn default() -> (c: Control)
        ensures
            c == Control::initial(),
    {
        Control { on: false, effect: Effect::Static, brightness: 255, color_hs: (0, 0) }
    }
}

/// Toggling twice gives back the snapshot one started with.
pub proof fn lemma_toggle_twice(c: Control)
    ensures
        c.toggled().toggled() == c,
        c.toggled().on != c.on,
{
}

/// An adjusted brightness never leaves the range and moves in the direction of `delta`,
/// by `delta` exactly wherever that stays in range.
pub proof fn lemma_adjusted_saturates(c: Control, delta: int)
    ensures
        c.adjusted(delta).brightness == c.brightness + delta || c.adjusted(delta).brightness == 0
            || c.adjusted(delta).brightness == 255,
        0 <= c.brightness + delta <= 255 ==> c.adjusted(delta).brightness == c.brightness + delta,
        delta >= 0 ==> c.adjusted(delta).brightness >= c.brightness,
        delta <= 0 ==> c.adjusted(delta).brightness <= c.brightness,
        c.adjusted(delta).with_brightness(c.brightness) == c,
{
}

/// The client's end of the control channel. It remembers the snapshot it sent last, so that
/// partial changes can be made against it; every change yields the command to enqueue for
/// the renderer.
pub struct ControlChannel {
    state: Control,
    attached: bool,
}

impl View for ControlChannel {
    type V = Control;

    /// The snapshot sent last.
    closed spec fn view(&self) -> Control {
        self.state
    }
}

impl ControlChannel {
    /// Whether the render thread has still to be joined.
    pub closed spec fn attached(&self) -> bool {
        self.attached
    }

    /// The channel to a renderer that has just been started.
    pub fn new() -> (channel: ControlChannel)
        ensures
            channel@ == Control::initial(),
            channel.attached(),
    {
        ControlChannel { state: Control::default(), attached: true }
    }

    /// Replaces the whole state. Returns the command to enqueue.
    pub fn control(&mut self, control: Control) -> (command: RendererCommand)
        ensures
            final(self)@ == control,
            final(self).attached() == old(self).attached(),
            command == RendererCommand::ControlMsg(control),
    {
        self.state = control;
        RendererCommand::ControlMsg(control)
    }

    /// Switches the lamp on if it was off and off if it was on.
    pub fn toggle(&mut self) -> (command: RendererCommand)
        ensures
            final(self)@ == old(self)@.toggled(),
            final(self).attached() == old(self).attached(),
            command == RendererCommand::ControlMsg(old(self)@.toggled()),
    {
        let mut toggled: Control = self.state;
        toggled.on = !self.state.on;
        self.control(toggled)
    }

    /// Sets the brightness.
    pub fn set_brightness(&mut self, brightness: u8) -> (command: RendererCommand)
        ensures
            final(self)@ == old(self)@.with_brightness(brightness),
            final(self).attached() == old(self).attached(),
            command == RendererCommand::ControlMsg(old(self)@.with_brightness(brightness)),
    {
        let mut adjusted: Control = self.state;
        adjusted.brightness = brightness;
        self.control(adjusted)
    }

    /// Adds `brightness_delta` to the brightness; the result stops at 0 and at 255.
    pub fn adjust_brightness(&mut self, brightness_delta: i32) -> (command: RendererCommand)
        ensures
            final(self)@ == old(self)@.adjusted(brightness_delta as int),
            final(self).attached() == old(self).attached(),
            command == RendererCommand::ControlMsg(old(self)@.adjusted(brightness_delta as int)),
    {
        let sum: i64 = self.state.brightness as i64 + brightness_delta as i64;
        let brightness: u8 = if sum < 0 {
            0
        } else if sum > 255 {
            255
        } else {
            sum as u8
        };
        let mut adjusted: Control = self.state;
        adjusted.brightness = brightness;
        self.control(adjusted)
    }

    /// Whether the lamp was last told to be on.
    pub fn is_on(&self) -> (on: bool)
        ensures
            on == self@.on,
    {
        self.state.on
    }

    /// The brightness sent last.
    pub fn brightness(&self) -> (brightness: u8)
        ensures
            brightness == self@.brightness,
    {
        self.state.brightness
    }

    /// The hue and saturation sent last.
    pub fn color_hs(&self) -> (color_hs: (u32, u32))
        ensures
            color_hs == self@.color_hs,
    {
        self.state.color_hs
    }

    /// The effect sent last.
    pub fn effect(&self) -> (effect: Effect)
        ensures
            effect == self@.effect,
    {
        self.state.effect
    }

    /// Ends the session: returns the shutdown command to enqueue, and whether the caller
    /// has to join the render thread afterwards. Only the first call asks for the join.
    pub fn drop(&mut self) -> (out: (RendererCommand, bool))
        ensures
            out.0 == RendererCommand::Shutdown,
            out.1 == old(self).attached(),
            !final(self).attached(),
            final(self)@ == old(self)@,
    {
        let join: bool = self.attached;
        self.attached = false;
        (RendererCommand::Shutdown, join)
    }
}

} // verus!
