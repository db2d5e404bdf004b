use firelight::renderer::RendererCommand;
use firelight::{Control, ControlChannel, Effect, InvalidEffect};

#[test]
fn effect_tokens() {
    assert_eq!(Effect::Static.to_string(), "static");
    assert_eq!(Effect::Fire.to_string(), "fire");
}

#[test]
fn effect_from_its_token() {
    assert_eq!(Effect::from_string("static"), Ok(Effect::Static));
    assert_eq!(Effect::from_string("fire"), Ok(Effect::Fire));
}

#[test]
fn effect_token_round_trip() {
    for e in [Effect::Static, Effect::Fire] {
        assert_eq!(Effect::from_string(&e.to_string()), Ok(e));
    }
}

#[test]
fn unknown_effect_is_refused() {
    assert_eq!(
        Effect::from_string("rainbow"),
        Err(InvalidEffect { token: "rainbow".to_string() })
    );
    assert!(Effect::from_string("Fire").is_err());
    assert!(Effect::from_string("static ").is_err());
    assert!(Effect::from_string("").is_err());
}

#[test]
fn invalid_effect_message_names_the_token() {
    let e = Effect::from_string("rainbow").unwrap_err();
    assert_eq!(e.message(), "invalid effect rainbow");
}

#[test]
fn default_state_is_off_at_full_brightness() {
    let c = Control::default();
    assert_eq!(c.on, false);
    assert_eq!(c.brightness, 255);
    assert_eq!(c.effect, Effect::Static);
    assert_eq!(c.color_hs, (0.0f32.to_bits(), 0.0f32.to_bits()));
}

#[test]
fn new_channel_reports_the_default_state() {
    let h = ControlChannel::new();
    assert_eq!(h.is_on(), false);
    assert_eq!(h.brightness(), 255);
    assert_eq!(h.effect(), Effect::Static);
    assert_eq!(h.color_hs(), (0, 0));
}

#[test]
fn control_replaces_the_state_and_yields_the_snapshot() {
    let mut h = ControlChannel::new();
    let c = Control {
        on: true,
        effect: Effect::Fire,
        brightness: 17,
        color_hs: (30.0f32.to_bits(), 80.0f32.to_bits()),
    };
    assert_eq!(h.control(c), RendererCommand::ControlMsg(c));
    assert_eq!(h.is_on(), true);
    assert_eq!(h.brightness(), 17);
    assert_eq!(h.effect(), Effect::Fire);
    assert_eq!(h.color_hs(), (30.0f32.to_bits(), 80.0f32.to_bits()));
}

#[test]
fn toggle_flips_the_switch_only() {
    let mut h = ControlChannel::new();
    let c = Control {
        on: false,
        effect: Effect::Fire,
        brightness: 99,
        color_hs: (200.0f32.to_bits(), 50.0f32.to_bits()),
    };
    h.control(c);
    let sent = h.toggle();
    assert_eq!(sent, RendererCommand::ControlMsg(Control { on: true, ..c }));
    assert_eq!(h.is_on(), true);
    assert_eq!(h.brightness(), 99);
    assert_eq!(h.effect(), Effect::Fire);
    assert_eq!(h.color_hs(), c.color_hs);
}

#[test]
fn toggle_twice_restores_the_state() {
    for on in [false, true] {
        let mut h = ControlChannel::new();
        let c = Control {
            on,
            effect: Effect::Fire,
            brightness: 42,
            color_hs: (359.0f32.to_bits(), 100.0f32.to_bits()),
        };
        h.control(c);
        h.toggle();
        assert_eq!(h.is_on(), !on);
        let sent = h.toggle();
        assert_eq!(sent, RendererCommand::ControlMsg(c));
        assert_eq!(h.is_on(), on);
        assert_eq!(h.brightness(), 42);
        assert_eq!(h.effect(), Effect::Fire);
        assert_eq!(h.color_hs(), c.color_hs);
    }
}

#[test]
fn set_brightness_is_verbatim() {
    let mut h = ControlChannel::new();
    for b in [0u8, 1, 128, 255] {
        let sent = h.set_brightness(b);
        assert_eq!(h.brightness(), b);
        assert_eq!(
            sent,
            RendererCommand::ControlMsg(Control { brightness: b, ..Control::default() })
        );
    }
}

#[test]
fn adjust_brightness_saturates_at_the_top() {
    let mut h = ControlChannel::new();
    h.set_brightness(250);
    h.adjust_brightness(20);
    assert_eq!(h.brightness(), 255);
}

#[test]
fn adjust_brightness_saturates_at_zero() {
    let mut h = ControlChannel::new();
    h.set_brightness(5);
    h.adjust_brightness(-20);
    assert_eq!(h.brightness(), 0);
}

#[test]
fn adjust_brightness_adds_within_the_range() {
    let mut h = ControlChannel::new();
    h.set_brightness(100);
    let sent = h.adjust_brightness(20);
    assert_eq!(h.brightness(), 120);
    assert_eq!(
        sent,
        RendererCommand::ControlMsg(Control { brightness: 120, ..Control::default() })
    );
    h.adjust_brightness(-50);
    assert_eq!(h.brightness(), 70);
    h.adjust_brightness(0);
    assert_eq!(h.brightness(), 70);
}

#[test]
fn adjust_brightness_does_not_wrap_on_large_deltas() {
    let mut h = ControlChannel::new();
    h.set_brightness(10);
    h.adjust_brightness(300);
    assert_eq!(h.brightness(), 255);
    h.adjust_brightness(-256);
    assert_eq!(h.brightness(), 0);
    h.adjust_brightness(i32::MAX);
    assert_eq!(h.brightness(), 255);
    h.adjust_brightness(i32::MIN);
    assert_eq!(h.brightness(), 0);
}

#[test]
fn adjust_brightness_leaves_the_other_fields() {
    let mut h = ControlChannel::new();
    let c = Control {
        on: true,
        effect: Effect::Fire,
        brightness: 200,
        color_hs: (10.0f32.to_bits(), 20.0f32.to_bits()),
    };
    h.control(c);
    let sent = h.adjust_brightness(-1);
    assert_eq!(sent, RendererCommand::ControlMsg(Control { brightness: 199, ..c }));
}

#[test]
fn drop_asks_for_the_join_once() {
    let mut h = ControlChannel::new();
    h.set_brightness(3);
    assert_eq!(h.drop(), (RendererCommand::Shutdown, true));
    assert_eq!(h.drop(), (RendererCommand::Shutdown, false));
    assert_eq!(h.brightness(), 3);
}

#[test]
fn control_after_drop_still_updates_the_cache() {
    let mut h = ControlChannel::new();
    h.drop();
    let c = Control { on: true, ..Control::default() };
    assert_eq!(h.control(c), RendererCommand::ControlMsg(c));
    assert_eq!(h.is_on(), true);
}
