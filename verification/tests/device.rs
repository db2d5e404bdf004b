use firelight::layout::StrandLayout;
use firelight::ledstrip::{
    check_config, transmission, ConfigError, DeviceController, SinkError, FULL_BRIGHTNESS,
    MAX_LEDS, PWM_CHANNELS,
};
use firelight::ledtest::{draw_blink, identify_strands};

#[test]
fn sink_limits() {
    assert_eq!(PWM_CHANNELS, 2);
    assert_eq!(MAX_LEDS, 22_369_621);
    assert!(MAX_LEDS as u64 * 96 <= i32::MAX as u64);
    assert!((MAX_LEDS as u64 + 1) * 96 > i32::MAX as u64);
    assert_eq!(FULL_BRIGHTNESS, 255);
}

#[test]
fn channel_that_no_device_has_is_refused() {
    for channel in [2usize, 3, 100, usize::MAX] {
        assert_eq!(check_config(channel, 128), Err(ConfigError::NoSuchChannel));
    }
}

#[test]
fn led_count_beyond_the_limit_is_refused() {
    assert_eq!(check_config(0, MAX_LEDS + 1), Err(ConfigError::TooManyLeds));
    assert_eq!(check_config(1, usize::MAX), Err(ConfigError::TooManyLeds));
    assert_eq!(check_config(0, 22_369_622), Err(ConfigError::TooManyLeds));
    assert_eq!(check_config(0, 44_739_243), Err(ConfigError::TooManyLeds));
    assert_eq!(check_config(1, i32::MAX as usize), Err(ConfigError::TooManyLeds));
    assert_eq!(check_config(2, usize::MAX), Err(ConfigError::NoSuchChannel));
}

#[test]
fn configuration_within_the_limits_is_accepted() {
    assert_eq!(check_config(0, 128), Ok(()));
    assert_eq!(check_config(1, 0), Ok(()));
    assert_eq!(check_config(1, MAX_LEDS), Ok(()));
    assert_eq!(check_config(0, 22_369_621), Ok(()));
}

#[test]
fn device_that_did_not_open_is_a_configuration_error() {
    assert!(matches!(DeviceController::opened(Err(()), 0), Err(ConfigError::DeviceRefused)));
    assert!(matches!(DeviceController::opened(Err(()), 1), Err(ConfigError::DeviceRefused)));
}

#[test]
fn transmission_outcomes() {
    assert_eq!(transmission(Ok(()), Ok(())), Ok(()));
    assert_eq!(transmission(Ok(()), Err(())), Err(SinkError::Wait));
    assert_eq!(transmission(Err(()), Ok(())), Err(SinkError::Render));
    assert_eq!(transmission(Err(()), Err(())), Err(SinkError::Render));
}

#[test]
fn identification_frame_colors_each_strand() {
    let l = StrandLayout::new(vec![2, 0, 3, 1]).unwrap();
    assert_eq!(
        identify_strands(&l, &[0xff_ffff, 0xff_0000, 0x00_ff00, 0x00_00ff]),
        vec![0xff_ffff, 0xff_ffff, 0x00_ff00, 0x00_ff00, 0x00_ff00, 0x00_00ff]
    );
}

#[test]
fn identification_frame_ends_with_the_last_color() {
    let l = StrandLayout::new(vec![2, 1, 3]).unwrap();
    assert_eq!(identify_strands(&l, &[1, 2]), vec![1, 1, 2]);
    assert_eq!(identify_strands(&l, &[]), Vec::<u32>::new());
    assert_eq!(identify_strands(&l, &[1, 2, 3, 4, 5]), vec![1, 1, 2, 3, 3, 3]);
}

#[test]
fn identification_frame_of_the_lamp() {
    let l = StrandLayout::new(vec![39, 31, 38, 20]).unwrap();
    let frame = identify_strands(&l, &[0xff_ffff, 0xff_0000, 0x00_ff00, 0x00_00ff]);
    assert_eq!(frame.len(), 128);
    assert!(frame[..39].iter().all(|w| *w == 0xff_ffff));
    assert!(frame[39..70].iter().all(|w| *w == 0xff_0000));
    assert!(frame[70..108].iter().all(|w| *w == 0x00_ff00));
    assert!(frame[108..].iter().all(|w| *w == 0x00_00ff));
}

#[test]
fn blink_frame_alternates() {
    assert_eq!(draw_blink(5, 0), vec![0, 0xff_ffff, 0, 0xff_ffff, 0]);
    assert_eq!(draw_blink(5, 1), vec![0xff_ffff, 0, 0xff_ffff, 0, 0xff_ffff]);
    assert_eq!(draw_blink(0, 0), Vec::<u32>::new());
    assert_eq!(draw_blink(3, 2), vec![0xff_ffff; 3]);
}
