use rtiow::img::{push_pixel_color, render_buffer, ConfigError, RenderSettings};
use std::cell::Cell;

fn settings(width: u32, height: u32, samples_per_pixel: u32, alpha: bool) -> RenderSettings {
    RenderSettings {
        width,
        height,
        samples_per_pixel,
        max_depth: 50,
        alpha,
    }
}

#[test]
fn valid_settings_give_buffer_length() {
    assert_eq!(settings(600, 400, 500, false).validate(), Ok(720_000));
    assert_eq!(settings(2, 2, 1, true).validate(), Ok(16));
    assert_eq!(settings(600, 400, 500, true).channels(), 4);
    assert_eq!(settings(600, 400, 500, false).channels(), 3);
}

#[test]
fn bad_resolution_is_refused() {
    assert_eq!(settings(1, 400, 10, false).validate(), Err(ConfigError::BadResolution));
    assert_eq!(settings(400, 0, 10, false).validate(), Err(ConfigError::BadResolution));
    assert_eq!(settings(0, 0, 0, false).validate(), Err(ConfigError::BadResolution));
}

#[test]
fn zero_samples_is_refused() {
    assert_eq!(settings(10, 10, 0, false).validate(), Err(ConfigError::BadSampleCount));
}

#[test]
fn oversized_buffer_is_refused() {
    let r = settings(u32::MAX, u32::MAX, 1, true).validate();
    if usize::MAX as u128 >= (u32::MAX as u128) * (u32::MAX as u128) * 4 {
        assert!(r.is_ok());
    } else {
        assert_eq!(r, Err(ConfigError::BufferTooLarge));
    }
}

#[test]
fn pixels_append_in_channel_order() {
    let mut buf: Vec<u8> = vec![9];
    push_pixel_color(&mut buf, [10, 20, 30], None);
    assert_eq!(buf, vec![9, 10, 20, 30]);
    push_pixel_color(&mut buf, [1, 2, 3], Some(255));
    assert_eq!(buf, vec![9, 10, 20, 30, 1, 2, 3, 255]);
}

#[test]
fn buffer_rows_top_first() {
    let s = settings(2, 2, 1, false);
    let buf = render_buffer(&s, |x, y| [x as u8, y as u8, 7, 9]);
    assert_eq!(buf, vec![0, 1, 7, 1, 1, 7, 0, 0, 7, 1, 0, 7]);
}

#[test]
fn buffer_with_alpha_byte() {
    let s = settings(3, 2, 1, true);
    let buf = render_buffer(&s, |x, y| [10 * x as u8, 10 * y as u8, 5, 255]);
    assert_eq!(
        buf,
        vec![
            0, 10, 5, 255, 10, 10, 5, 255, 20, 10, 5, 255, //
            0, 0, 5, 255, 10, 0, 5, 255, 20, 0, 5, 255,
        ]
    );
    assert_eq!(buf.len(), s.validate().unwrap());
}

#[test]
fn every_pixel_shaded_once() {
    let s = settings(7, 5, 3, false);
    let calls = Cell::new(0u32);
    let buf = render_buffer(&s, |x, y| {
        calls.set(calls.get() + 1);
        [(x * 5 + y) as u8, 0, 0, 0]
    });
    assert_eq!(calls.get(), 35);
    for y in 0..5u32 {
        for x in 0..7u32 {
            let at = (((4 - y) * 7 + x) * 3) as usize;
            assert_eq!(buf[at], (x * 5 + y) as u8);
        }
    }
}
