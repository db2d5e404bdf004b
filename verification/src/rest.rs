//! What the control server keeps and decides: the snapshot it reports, and how a control
//! request is merged into it.

use crate::firelight_api::{Control, ControlChannel, Effect};
use crate::renderer::RendererCommand;
use vstd::prelude::*;
use vstd::string::StringExecFns;

verus! {

/// The lamp's state as the server reports it.
#[derive(Debug)]
pub struct StatusResponse {
    /// Whether the lamp is on.
    pub on: bool,
    /// The brightness, 0 to 255.
    pub brightness: u8,
    /// The token of the effect.
    pub effect: String,
    /// Hue and saturation, as the snapshot holds them.
    pub color_hs: (u32, u32),
}

impl StatusResponse {
    /// The report of a snapshot.
    pub fn from_control(control: Control) -> (status: StatusResponse)
        ensures
            status.on == control.on,
            status.brightness == control.brightness,
            status.effect@ == control.effect.token(),
            status.color_hs == control.color_hs,
    {
        StatusResponse {
            on: control.on,
            brightness: control.brightness,
            effect: control.effect.to_string(),
            color_hs: control.color_hs,
        }
    }
}

/// A control request as it arrives. Only `on` has to be there; what is left out stays as
/// it was.
#[derive(Debug)]
pub struct ControlInput {
    /// `True` or `False`.
    pub on: String,
    /// The new brightness, if any.
    pub brightness: Option<u8>,
    /// The new hue and saturation, each as the bit pattern of a single-precision number;
    /// empty if they stay.
    pub color_hs: Vec<u32>,
    /// The token of the new effect, if any.
    pub effect: Option<String>,
}

/// Why a control request is refused.
#[derive(Copy, Clone, Debug, PartialEq, Eq, Structural)]
pub enum InputError {
    /// `on` is neither `True` nor `False`.
    InvalidOn,
    /// The effect token names no effect.
    InvalidEffect,
    /// The color is there, but is no pair of hue and saturation.
    InvalidColor,
}

/// What the value of `on` asks for.
pub open spec fn switch_of(on: Seq<char>) -> Option<bool> {
    if on == "True"@ {
        Some(true)
    } else if on == "False"@ {
        Some(false)
    } else {
        None
    }
}

/// The effect that a token names.
pub open spec fn effect_named(token: Seq<char>) -> Option<Effect> {
    if token == Effect::Static.token() {
        Some(Effect::Static)
    } else if token == Effect::Fire.token() {
        Some(Effect::Fire)
    } else {
        None
    }
}

/// The snapshot that a request makes of the last one, or why the request is refused. The
/// fields are looked at in the order `on`, `effect`, `color_hs`, and the first one that is
/// wrong decides.
pub open spec fn merged(last: Control, input: ControlInput) -> Result<Control, InputError> {
    if switch_of(input.on@) is None {
        Err(InputError::InvalidOn)
    } else if input.effect is Some && effect_named(input.effect->0@) is None {
        Err(InputError::InvalidEffect)
    } else if input.color_hs@.len() != 0 && input.color_hs@.len() != 2 {
        Err(InputError::InvalidColor)
    } else {
        Ok(
            Control {
                on: switch_of(input.on@)->0,
                brightness: match input.brightness {
                    Some(brightness) => brightness,
                    None => last.brightness,
                },
                effect: match input.effect {
                    Some(token) => effect_named(token@)->0,
                    None => last.effect,
                },
                color_hs: if input.color_hs@.len() == 2 {
                    (input.color_hs@[0], input.color_hs@[1])
                } else {
                    last.color_hs
                },
            },
        )
    }
}

/// Merges a control request into the last snapshot.
pub fn merge(last: Control, input: &ControlInput) -> (next: Result<Control, InputError>)
    ensures
        next == merged(last, *input),
{
    let mut control: Control = last;
    if input.on == String::from_str("True") {
        control.on = true;
    } else if input.on == String::from_str("False") {
        control.on = false;
    } else {
        return Err(InputError::InvalidOn);
    }
    if let Some(brightness) = input.brightness {
        control.brightness = brightness;
    }
    if let Some(effect) = &input.effect {
        match Effect::from_string(effect.as_str()) {
            Ok(effect) => {
                control.effect = effect;
            },
            Err(_) => {
                return Err(InputError::InvalidEffect);
            },
        }
    }
    if input.color_hs.len() != 0 {
        if input.color_hs.len() != 2 {
            return Err(InputError::InvalidColor);
        }
        control.color_hs = (input.color_hs[0], input.color_hs[1]);
    }
    Ok(control)
}

/// A request that leaves out everything but `on` changes nothing but the switch.
pub proof fn lemma_merge_keeps_what_is_left_out(last: Control, input: ControlInput)
    requires
        switch_of(input.on@) is Some,
        input.brightness is None,
        input.effect is None,
        input.color_hs@.len() == 0,
    ensures
        merged(last, input) == Ok::<Control, InputError>(
            Control { on: switch_of(input.on@)->0, ..last },
        ),
{
}

/// What the server keeps between requests: the snapshot it reports, and its end of the
/// control channel.
pub struct ServerState {
    /// The snapshot that the last accepted request made.
    pub last_state: Control,
    /// The channel to the renderer.
    pub firelight: ControlChannel,
}

impl ServerState {
    /// The state of a server whose renderer has just been started.
    pub fn new() -> (state: ServerState)
        ensures
            state.last_state == Control::initial(),
            state.firelight@ == Control::initial(),
            state.firelight.attached(),
    {
        ServerState { last_state: Control::default(), firelight: ControlChannel::new() }
    }

    /// The report of the last snapshot.
    pub fn status(&self) -> (status: StatusResponse)
        ensures
            status.on == self.last_state.on,
            status.brightness == self.last_state.brightness,
            status.effect@ == self.last_state.effect.token(),
            status.color_hs == self.last_state.color_hs,
    {
        StatusResponse::from_control(self.last_state)
    }

    /// Serves a control request: merges it into the last snapshot and hands the result to
    /// the control channel. Returns the command to enqueue. A request that is refused
    /// changes nothing.
    pub fn control(&mut self, input: &ControlInput) -> (command: Result<
        RendererCommand,
        InputError,
    >)
        ensures
            final(self).firelight.attached() == old(self).firelight.attached(),
            match merged(old(self).last_state, *input) {
                Ok(control) => {
                    &&& command == Ok::<RendererCommand, InputError>(
                        RendererCommand::ControlMsg(control),
                    )
                    &&& final(self).last_state == control
                    &&& final(self).firelight@ == control
                },
                Err(e) => {
                    &&& command == Err::<RendererCommand, InputError>(e)
                    &&& final(self).last_state == old(self).last_state
                    &&& final(self).firelight@ == old(self).firelight@
                },
            },
    {
        match merge(self.last_state, input) {
            Ok(control) => {
                self.last_state = control;
                Ok(self.firelight.control(control))
            },
            Err(e) => Err(e),
        }
    }
}

} // verus!
