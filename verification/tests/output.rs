use raytracer::output::try_gen_image;
use raytracer::dispatch::plan_compute_pass;
use raytracer::output::gen_image;

#[test]
fn pixels_come_from_their_row_and_column() {
    // 2 x 2 frame, rows 48 bytes (12 channels) apart: 8 channels of pixels, 4 of padding.
    let channels: Vec<u8> = (0u8..24).collect();
    let raw = gen_image(&channels, 2, 2, 48).into_raw();
    assert_eq!(
        raw,
        vec![0, 1, 2, 3, 4, 5, 6, 7, 12, 13, 14, 15, 16, 17, 18, 19]
    );
}

#[test]
fn padding_is_skipped() {
    let mut channels = vec![9u8; 8];
    channels[0] = 10;
    channels[1] = 20;
    channels[2] = 30;
    channels[3] = 40;
    channels[4] = 50;
    channels[5] = 60;
    channels[6] = 70;
    channels[7] = 80;
    // one pixel per row, rows 16 bytes (4 channels) apart
    let raw = gen_image(&channels, 1, 2, 16).into_raw();
    assert_eq!(raw, vec![10, 20, 30, 40, 50, 60, 70, 80]);
}

#[test]
fn empty_frame_gives_empty_image() {
    let channels: Vec<u8> = Vec::new();
    assert!(gen_image(&channels, 0, 0, 0).into_raw().is_empty());
    assert!(gen_image(&channels, 0, 5, 0).into_raw().is_empty());
    assert!(gen_image(&channels, 3, 0, 256).into_raw().is_empty());
}

#[test]
fn a_planned_read_back_fills_the_whole_image() {
    let (width, height) = (10u32, 3u32);
    let plan = plan_compute_pass(width, height);
    let len = (plan.output_size / 4) as usize;
    let channels: Vec<u8> = (0..len).map(|i| (i % 251) as u8).collect();
    let raw = gen_image(&channels, width, height, plan.stride).into_raw();
    assert_eq!(raw.len(), (4 * width * height) as usize);
    let floats_per_row = plan.stride / 4;
    for y in 0..height as usize {
        for x in 0..width as usize {
            for c in 0..4 {
                let expected = channels[y * floats_per_row + x * 4 + c];
                assert_eq!(raw[(y * width as usize + x) * 4 + c], expected);
            }
        }
    }
}

#[test]
fn try_gen_image_refuses_short_reads() {
    let channels: Vec<u8> = (0u8..23).collect();
    // the last channel of a 2 x 2 frame with 12 channels per row is at 12 + 4 + 3 = 19
    assert!(try_gen_image(&channels, 2, 2, 48).is_some());
    let short: Vec<u8> = (0u8..19).collect();
    assert!(try_gen_image(&short, 2, 2, 48).is_none());
    let exact: Vec<u8> = (0u8..20).collect();
    let raw = try_gen_image(&exact, 2, 2, 48).unwrap().into_raw();
    assert_eq!(raw, vec![0, 1, 2, 3, 4, 5, 6, 7, 12, 13, 14, 15, 16, 17, 18, 19]);
    assert!(try_gen_image(&short, 0, 7, usize::MAX).is_none());
    assert!(try_gen_image(&short, 0, 1, usize::MAX).is_some());
}

#[test]
fn pixels_of_a_planned_frame_read_distinct_channels() {
    let (width, height) = (17usize, 5usize);
    let plan = plan_compute_pass(width as u32, height as u32);
    let floats_per_row = plan.stride / 4;
    let mut seen = std::collections::HashSet::new();
    for y in 0..height {
        for x in 0..width {
            for c in 0..4 {
                assert!(seen.insert(y * floats_per_row + x * 4 + c));
            }
        }
    }
    assert_eq!(seen.len(), 4 * width * height);
}

#[test]
fn unread_channels_do_not_change_the_image() {
    // 2 x 2 frame, 12 channels per row: channels 8..12 and 20.. are never read.
    let a: Vec<u8> = (0u8..30).collect();
    let mut b = a.clone();
    for i in [8usize, 9, 10, 11, 20, 21, 29] {
        b[i] = 200;
    }
    let ra = gen_image(&a, 2, 2, 48).into_raw();
    let rb = gen_image(&b, 2, 2, 48).into_raw();
    assert_eq!(ra, rb);
    b[19] = 200;
    assert_ne!(ra, gen_image(&b, 2, 2, 48).into_raw());
}
