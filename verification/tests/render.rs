use firelight::daemon::ByteOrder;
use firelight::layout::StrandLayout;
use firelight::renderer::{
    frame_words, render_fire, render_frame, render_static, words_frame, LedColor, Phase,
    RenderThreadData, RendererCommand, TICKS_PER_CLOCK_UNIT, TICK_MILLIS,
};
use firelight::{Control, Effect};

const BLACK: LedColor = LedColor { r: 0, g: 0, b: 0 };
const AMBER: LedColor = LedColor { r: 255, g: 128, b: 1 };

fn lamp() -> StrandLayout {
    StrandLayout::new(vec![39, 31, 38, 20]).unwrap()
}

#[test]
fn static_frame_is_the_color_on_every_led() {
    let l = StrandLayout::new(vec![2, 0, 3]).unwrap();
    assert_eq!(render_static(AMBER, &l), vec![AMBER; 5]);
    assert_eq!(render_static(AMBER, &StrandLayout::new(vec![]).unwrap()), vec![]);
}

#[test]
fn fire_frame_darkens_the_foot_of_each_strand() {
    let l = StrandLayout::new(vec![3, 2, 4]).unwrap();
    let frame = render_fire(AMBER, &l, &[1, 0, 3]);
    assert_eq!(
        frame,
        vec![BLACK, AMBER, AMBER, AMBER, AMBER, BLACK, BLACK, BLACK, AMBER]
    );
}

#[test]
fn fire_frame_with_full_height_is_dark() {
    let l = StrandLayout::new(vec![3, 2]).unwrap();
    assert_eq!(render_fire(AMBER, &l, &[3, 2]), vec![BLACK; 5]);
}

#[test]
fn fire_height_beyond_the_strand_darkens_only_that_strand() {
    let l = StrandLayout::new(vec![3, 2]).unwrap();
    let frame = render_fire(AMBER, &l, &[1000, 1]);
    assert_eq!(frame, vec![BLACK, BLACK, BLACK, BLACK, AMBER]);
}

#[test]
fn fire_without_embers_is_the_static_frame() {
    let l = lamp();
    assert_eq!(render_fire(AMBER, &l, &[0, 0, 0, 0]), render_static(AMBER, &l));
}

#[test]
fn frame_length_is_the_led_count() {
    let l = lamp();
    for unlit in [[0usize, 0, 0, 0], [39, 31, 38, 20], [5, 40, 0, 19], [usize::MAX; 4]] {
        for effect in [Effect::Static, Effect::Fire] {
            for on in [false, true] {
                let c = Control { on, effect, brightness: 77, color_hs: (0, 0) };
                assert_eq!(render_frame(&c, AMBER, &l, &unlit).len(), 128);
            }
        }
    }
    assert_eq!(render_fire(AMBER, &l, &[1, 2, 3, 4]).len(), l.total());
    assert_eq!(render_static(AMBER, &l).len(), l.total());
}

#[test]
fn off_overrides_fire() {
    let l = lamp();
    for unlit in [[0usize, 0, 0, 0], [39, 31, 38, 20], [5, 40, 0, 19]] {
        for brightness in [0u8, 1, 128, 255] {
            let c = Control { on: false, effect: Effect::Fire, brightness, color_hs: (0, 0) };
            assert_eq!(render_frame(&c, AMBER, &l, &unlit), vec![BLACK; 128]);
        }
    }
}

#[test]
fn off_overrides_static() {
    let c = Control { on: false, effect: Effect::Static, brightness: 255, color_hs: (0, 0) };
    assert_eq!(render_frame(&c, AMBER, &lamp(), &[]), vec![BLACK; 128]);
}

#[test]
fn static_at_full_brightness_is_unattenuated() {
    let c = Control { on: true, effect: Effect::Static, brightness: 255, color_hs: (0, 0) };
    let frame = render_frame(&c, AMBER, &lamp(), &[]);
    assert_eq!(frame.len(), 128);
    assert!(frame.iter().all(|led| *led == AMBER));
    assert_eq!(frame_words(&frame), vec![0x00ff_8001u32; 128]);
}

#[test]
fn brightness_is_applied_to_every_led() {
    let l = StrandLayout::new(vec![2, 2]).unwrap();
    let c = Control { on: true, effect: Effect::Fire, brightness: 127, color_hs: (0, 0) };
    let dim = LedColor { r: 127, g: 64, b: 0 };
    assert_eq!(render_frame(&c, AMBER, &l, &[1, 2]), vec![BLACK, dim, BLACK, BLACK]);
    let dark = Control { brightness: 0, ..c };
    assert_eq!(render_frame(&dark, AMBER, &l, &[0, 0]), vec![BLACK; 4]);
}

#[test]
fn frame_words_pack_each_color() {
    let frame = vec![AMBER, BLACK, LedColor { r: 1, g: 2, b: 3 }];
    let words = frame_words(&frame);
    assert_eq!(words, vec![0x00ff_8001, 0, 0x0001_0203]);
    assert_eq!(words_frame(&words), frame);
}

#[test]
fn render_loop_starts_idle() {
    let data = RenderThreadData::new(lamp());
    assert_eq!(data.state, Control::default());
    assert_eq!(data.ticks, 0);
    assert_eq!(data.stopped, false);
    assert_eq!(data.phase(), Phase::Idle);
    assert_eq!(data.strands.total(), 128);
}

#[test]
fn snapshot_replaces_the_state() {
    let mut data = RenderThreadData::new(lamp());
    let first = Control { on: true, effect: Effect::Fire, brightness: 1, color_hs: (7, 8) };
    let second = Control { on: true, effect: Effect::Static, brightness: 2, color_hs: (9, 10) };
    assert!(data.receive(Some(RendererCommand::ControlMsg(first))));
    assert_eq!(data.state, first);
    assert_eq!(data.phase(), Phase::Active(Effect::Fire));
    assert!(data.receive(Some(RendererCommand::ControlMsg(second))));
    assert_eq!(data.state, second);
    assert_eq!(data.phase(), Phase::Active(Effect::Static));
    let off = Control { on: false, ..second };
    assert!(data.receive(Some(RendererCommand::ControlMsg(off))));
    assert_eq!(data.phase(), Phase::Idle);
}

#[test]
fn timeout_changes_nothing() {
    let mut data = RenderThreadData::new(lamp());
    let c = Control { on: true, effect: Effect::Fire, brightness: 1, color_hs: (7, 8) };
    data.receive(Some(RendererCommand::ControlMsg(c)));
    data.advance();
    assert!(data.receive(None));
    assert_eq!(data.state, c);
    assert_eq!(data.ticks, 1);
    assert_eq!(data.stopped, false);
}

#[test]
fn shutdown_stops_the_loop_for_good() {
    let mut data = RenderThreadData::new(lamp());
    let c = Control { on: true, effect: Effect::Fire, brightness: 1, color_hs: (7, 8) };
    data.receive(Some(RendererCommand::ControlMsg(c)));
    assert!(!data.receive(Some(RendererCommand::Shutdown)));
    assert_eq!(data.phase(), Phase::Stopped);
    assert_eq!(data.state, c);
    let later = Control { on: false, ..c };
    assert!(!data.receive(Some(RendererCommand::ControlMsg(later))));
    assert_eq!(data.state, c);
    assert!(!data.receive(None));
    assert_eq!(data.phase(), Phase::Stopped);
}

#[test]
fn clock_counts_ticks() {
    let mut data = RenderThreadData::new(lamp());
    for expected in 1..=5u64 {
        data.advance();
        assert_eq!(data.ticks, expected);
    }
    assert_eq!(data.state, Control::default());
}

#[test]
fn clock_wraps_at_the_end_of_its_range() {
    let mut data = RenderThreadData::new(lamp());
    data.ticks = u64::MAX;
    data.advance();
    assert_eq!(data.ticks, 0);
}

#[test]
fn loop_renders_its_own_state() {
    let mut data = RenderThreadData::new(StrandLayout::new(vec![2, 1]).unwrap());
    assert_eq!(data.render(AMBER, &[0, 0]), vec![BLACK; 3]);
    let c = Control { on: true, effect: Effect::Fire, brightness: 255, color_hs: (0, 0) };
    data.receive(Some(RendererCommand::ControlMsg(c)));
    assert_eq!(data.render(AMBER, &[1, 0]), vec![BLACK, AMBER, AMBER]);
}

#[test]
fn payload_is_four_bytes_for_each_led() {
    let mut data = RenderThreadData::new(StrandLayout::new(vec![1, 1]).unwrap());
    let c = Control { on: true, effect: Effect::Static, brightness: 127, color_hs: (0, 0) };
    data.receive(Some(RendererCommand::ControlMsg(c)));
    assert_eq!(
        data.payload(AMBER, &[], ByteOrder::LittleEndian),
        vec![0x00, 0x40, 0x7f, 0x00, 0x00, 0x40, 0x7f, 0x00]
    );
    assert_eq!(
        data.payload(AMBER, &[], ByteOrder::BigEndian),
        vec![0x00, 0x7f, 0x40, 0x00, 0x00, 0x7f, 0x40, 0x00]
    );
    let lamp = RenderThreadData::new(lamp());
    assert_eq!(lamp.payload(AMBER, &[], ByteOrder::native()), vec![0u8; 512]);
}

#[test]
fn tick_is_a_sixtieth_of_a_second() {
    assert_eq!(TICK_MILLIS, 1000 / 60);
    assert_eq!(TICK_MILLIS, 16);
    assert_eq!(TICKS_PER_CLOCK_UNIT, 100);
}

#[test]
fn written_frame_keeps_the_loop_running() {
    let mut data = RenderThreadData::new(lamp());
    let c = Control { on: true, effect: Effect::Fire, brightness: 1, color_hs: (7, 8) };
    data.receive(Some(RendererCommand::ControlMsg(c)));
    data.advance();
    assert!(data.delivered(true));
    assert_eq!(data.stopped, false);
    assert_eq!(data.state, c);
    assert_eq!(data.ticks, 1);
    assert_eq!(data.phase(), Phase::Active(Effect::Fire));
}

#[test]
fn failed_write_stops_the_loop_for_good() {
    let mut data = RenderThreadData::new(lamp());
    let c = Control { on: true, effect: Effect::Fire, brightness: 1, color_hs: (7, 8) };
    data.receive(Some(RendererCommand::ControlMsg(c)));
    data.advance();
    assert!(!data.delivered(false));
    assert_eq!(data.stopped, true);
    assert_eq!(data.phase(), Phase::Stopped);
    assert_eq!(data.state, c);
    assert_eq!(data.ticks, 1);
    assert!(!data.delivered(true));
    assert_eq!(data.phase(), Phase::Stopped);
    let later = Control { on: false, ..c };
    assert!(!data.receive(Some(RendererCommand::ControlMsg(later))));
    assert_eq!(data.state, c);
}

#[test]
fn write_after_shutdown_does_not_restart_the_loop() {
    let mut data = RenderThreadData::new(lamp());
    data.receive(Some(RendererCommand::Shutdown));
    assert!(!data.delivered(true));
    assert_eq!(data.stopped, true);
}
