use lumameter::gpio::{cmd_leds_test, pin_value_for, GPIO};
use lumameter::level::level_for;
use lumameter::sampler::{annotate_frame, brightness_count, PixelFormat, Rgb8};
use lumameter::session::{CaptureConfig, CaptureSession};
use lumameter::slot::SharedFrameSlot;

fn uniform_frame(width: usize, height: usize, luma: u8) -> Vec<u8> {
    let mut frame = Vec::new();
    for _ in 0..width * height {
        frame.push(luma);
        frame.push(128);
    }
    frame
}

#[test]
fn bright_frame_saturates_the_bar() {
    // 640x480 frame, every luma sample 255, threshold 230, divisor 100,
    // 8 pins: the count is the full sample count, the raw level 3072 clamps
    // to 7, and all 8 pins are active.
    let frame = uniform_frame(640, 480, 255);
    let count = brightness_count(&frame, 640, 480, 230, PixelFormat::yuyv());
    assert_eq!(count, 307200);
    assert_eq!(count / 100, 3072);
    let level = level_for(count, 100, 8);
    assert_eq!(level, 7);
    for i in 0..8 {
        assert_eq!(pin_value_for(i, level), 0);
    }
}

#[test]
fn dark_frame_lights_only_the_first_pin() {
    let frame = uniform_frame(640, 480, 0);
    let count = brightness_count(&frame, 640, 480, 230, PixelFormat::yuyv());
    assert_eq!(count, 0);
    let level = level_for(count, 100, 8);
    assert_eq!(level, 0);
    assert_eq!(pin_value_for(0, level), 0);
    for i in 1..8 {
        assert_eq!(pin_value_for(i, level), 1);
    }
}

#[test]
fn count_reads_only_luma_bytes() {
    // Two-by-two frame; the chroma bytes are far above the threshold and
    // must not be counted. Samples: 240, 10, 231, 230 against threshold 230.
    let frame = vec![240, 255, 10, 255, 231, 255, 230, 255];
    let count = brightness_count(&frame, 2, 2, 230, PixelFormat::yuyv());
    assert_eq!(count, 2);
}

#[test]
fn count_is_strictly_greater_than_threshold() {
    let frame = uniform_frame(4, 1, 230);
    assert_eq!(brightness_count(&frame, 4, 1, 230, PixelFormat::yuyv()), 0);
    let frame = uniform_frame(4, 1, 231);
    assert_eq!(brightness_count(&frame, 4, 1, 230, PixelFormat::yuyv()), 4);
}

#[test]
fn level_divides_and_clamps() {
    assert_eq!(level_for(0, 100, 8), 0);
    assert_eq!(level_for(99, 100, 8), 0);
    assert_eq!(level_for(100, 100, 8), 1);
    assert_eq!(level_for(699, 100, 8), 6);
    assert_eq!(level_for(700, 100, 8), 7);
    assert_eq!(level_for(307200, 100, 8), 7);
    assert_eq!(level_for(usize::MAX, 100, 8), 7);
}

#[test]
fn level_is_monotone_over_a_sweep() {
    let mut previous = level_for(0, 100, 8);
    for count in 1..2000 {
        let level = level_for(count, 100, 8);
        assert!(level >= previous);
        previous = level;
    }
}

#[test]
fn annotation_highlights_bright_samples() {
    let frame = vec![240, 255, 10, 255, 231, 255, 230, 255];
    let pixels = annotate_frame(&frame, 2, 2, 230, PixelFormat::yuyv());
    assert_eq!(pixels.len(), 4);
    assert_eq!(pixels[0], Rgb8 { r: 255, g: 0, b: 0 });
    assert_eq!(pixels[1], Rgb8 { r: 10, g: 10, b: 10 });
    assert_eq!(pixels[2], Rgb8 { r: 255, g: 0, b: 0 });
    assert_eq!(pixels[3], Rgb8 { r: 230, g: 230, b: 230 });
}

#[test]
fn default_bank_uses_eight_consecutive_pins() {
    let bank = GPIO::new();
    assert_eq!(bank.pin_count(), 8);
    for i in 0..8 {
        assert_eq!(bank.pin_id(i), 11 + i as u64);
    }
}

#[test]
fn bank_accepts_explicit_pin_numbers() {
    let bank = GPIO::with_pins(vec![2, 3, 5, 7]);
    assert_eq!(bank.pin_count(), 4);
    assert_eq!(bank.pin_id(2), 5);
}

#[test]
fn sweep_failure_names_a_bank_pin() {
    // Without pin hardware the sweep fails on some pin of the bank; with
    // hardware it succeeds. Either way the outcome names no foreign pin.
    match cmd_leds_test() {
        Ok(bank) => {
            assert_eq!(bank.pin_count(), 8);
        }
        Err(e) => {
            assert!(e.pin >= 11 && e.pin <= 18);
        }
    }
}

#[test]
fn single_pin_drive_names_its_own_pin() {
    // Without pin hardware the write fails; with hardware it succeeds. The
    // error, if any, names exactly the driven pin.
    let mut bank = GPIO::with_pins(vec![5]);
    match bank.drive_pin(0, true) {
        Ok(()) => {}
        Err(e) => {
            assert_eq!(e.pin, 5);
        }
    }
}

#[test]
fn slot_starts_zeroed_and_keeps_its_size() {
    let slot = SharedFrameSlot::new(6);
    assert_eq!(slot.size(), 6);
    let frame = slot.try_read().expect("no writer holds the slot");
    assert_eq!(frame, vec![0, 0, 0, 0, 0, 0]);
}

#[test]
fn reader_hands_on_only_complete_frames() {
    let slot = SharedFrameSlot::new(3);
    assert_eq!(slot.accept_read(Some(vec![7, 8, 9])), Some(vec![7, 8, 9]));
    assert_eq!(slot.accept_read(Some(vec![7, 8])), None);
    assert_eq!(slot.accept_read(Some(vec![7, 8, 9, 10])), None);
    assert_eq!(slot.accept_read(None), None);
}

#[test]
fn reader_sees_the_latest_published_frame() {
    let slot = SharedFrameSlot::new(4);
    slot.publish(&vec![1, 2, 3, 4]);
    assert_eq!(slot.try_read().unwrap(), vec![1, 2, 3, 4]);
    slot.publish(&vec![9, 8, 7, 6]);
    assert_eq!(slot.try_read().unwrap(), vec![9, 8, 7, 6]);
    assert_eq!(slot.try_read().unwrap(), vec![9, 8, 7, 6]);
}

#[test]
fn session_counts_frames_and_publishes() {
    let config = CaptureConfig {
        width: 2,
        height: 2,
        fps: 30,
        threshold: 230,
        divisor: 100,
        format: PixelFormat::yuyv(),
    };
    let mut session = CaptureSession::new(config, None);
    let slot = SharedFrameSlot::new(8);
    assert_eq!(session.counter(), 0);

    let frame = vec![240, 255, 10, 255, 231, 255, 230, 255];
    let count = session.on_frame(&frame, Some(&slot)).expect("no bank, no failure");
    assert_eq!(count, 2);
    assert_eq!(session.counter(), 1);
    assert_eq!(slot.try_read().unwrap(), frame);

    let dark = vec![0, 0, 0, 0, 0, 0, 0, 0];
    let count = session.on_frame(&dark, Some(&slot)).expect("no bank, no failure");
    assert_eq!(count, 0);
    assert_eq!(session.counter(), 2);
    assert_eq!(slot.try_read().unwrap(), dark);
}

#[test]
fn session_configurations_match_the_deployments() {
    let signal = CaptureConfig::default_signal();
    assert_eq!(signal.width, 640);
    assert_eq!(signal.height, 480);
    assert_eq!(signal.fps, 10);
    assert_eq!(signal.threshold, 230);
    assert_eq!(signal.divisor, 100);
    assert_eq!(signal.format.bytes_per_sample, 2);
    assert_eq!(signal.format.luma_offset, 0);

    let preview = CaptureConfig::default_preview();
    assert_eq!(preview.fps, 30);
    assert_eq!(preview.threshold, 200);
    assert_eq!(preview.divisor, 100);
}

#[test]
fn frame_bytes_matches_the_negotiated_format() {
    let config = CaptureConfig::default_signal();
    assert_eq!(config.frame_bytes(), 614400);
}

#[test]
fn thermometer_bar_has_level_plus_one_active_pins() {
    for level in 0..8 {
        let mut active = 0;
        for i in 0..8 {
            if pin_value_for(i, level) == 0 {
                active += 1;
            }
        }
        assert_eq!(active, level + 1);
    }
}
