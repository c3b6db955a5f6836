use raytracer::dispatch::{try_plan_compute_pass, try_readback_size};
use raytracer::dispatch::{
    output_buffer_size, padded_bytes_per_row, plan_compute_pass, workgroup_count, workgroups,
    BYTES_PER_TEXEL, ROW_ALIGNMENT, WORKGROUP_SIZE,
};

#[test]
fn workgroup_count_rounds_up() {
    assert_eq!(workgroup_count(0), 0);
    assert_eq!(workgroup_count(1), 1);
    assert_eq!(workgroup_count(15), 1);
    assert_eq!(workgroup_count(16), 1);
    assert_eq!(workgroup_count(17), 2);
    assert_eq!(workgroup_count(800), 50);
    assert_eq!(workgroup_count(401), 26);
    assert_eq!(workgroup_count(u32::MAX - WORKGROUP_SIZE), 268_435_455);
    assert_eq!(workgroup_count(u32::MAX - 15), 268_435_455);
}

#[test]
fn workgroups_cover_every_pixel() {
    for extent in 0u32..300 {
        let n = workgroup_count(extent);
        assert!(n * WORKGROUP_SIZE >= extent);
        assert!(n * WORKGROUP_SIZE < extent + WORKGROUP_SIZE);
    }
}

#[test]
fn workgroups_of_a_frame() {
    assert_eq!(workgroups(800, 400), (50, 25, 1));
    assert_eq!(workgroups(1, 33), (1, 3, 1));
    assert_eq!(workgroups(0, 0), (0, 0, 1));
}

#[test]
fn padded_rows_are_aligned() {
    assert_eq!(padded_bytes_per_row(0), 0);
    assert_eq!(padded_bytes_per_row(1), 256);
    assert_eq!(padded_bytes_per_row(16), 256);
    assert_eq!(padded_bytes_per_row(17), 512);
    assert_eq!(padded_bytes_per_row(800), 12_800);
    assert_eq!(padded_bytes_per_row(801), 13_056);
    assert_eq!(padded_bytes_per_row(268_435_440), 4_294_967_040);
    for width in 0u32..200 {
        let b = padded_bytes_per_row(width);
        assert_eq!(b % ROW_ALIGNMENT, 0);
        assert!(b >= width * BYTES_PER_TEXEL);
        assert!(b < width * BYTES_PER_TEXEL + ROW_ALIGNMENT);
    }
}

#[test]
fn output_buffer_size_is_rows_times_pitch() {
    assert_eq!(output_buffer_size(12_800, 400), 5_120_000);
    assert_eq!(output_buffer_size(256, 0), 0);
    assert_eq!(output_buffer_size(65_536, 65_535), 4_294_901_760);
}

#[test]
fn plan_of_the_default_frame() {
    let plan = plan_compute_pass(800, 400);
    assert_eq!(plan.workgroups, (50, 25, 1));
    assert_eq!(plan.bytes_per_row, 12_800);
    assert_eq!(plan.output_size, 5_120_000);
    assert_eq!(plan.stride, 12_800);
}

#[test]
fn plan_of_a_narrow_frame() {
    let plan = plan_compute_pass(10, 3);
    assert_eq!(plan.workgroups, (1, 1, 1));
    assert_eq!(plan.bytes_per_row, 256);
    assert_eq!(plan.output_size, 768);
    assert_eq!(plan.stride, 256);
}

#[test]
fn try_plan_refuses_frames_that_overflow() {
    assert!(try_plan_compute_pass(u32::MAX - 15, 1).is_none());
    assert!(try_plan_compute_pass(1, u32::MAX - 15).is_none());
    assert!(try_plan_compute_pass(268_435_441, 1).is_none());
    assert!(try_plan_compute_pass(4096, 65_536).is_none());
    let plan = try_plan_compute_pass(4096, 65_535).unwrap();
    assert_eq!(plan.bytes_per_row, 65_536);
    assert_eq!(plan.output_size, 4_294_901_760);
    let plan = try_plan_compute_pass(268_435_440, 1).unwrap();
    assert_eq!(plan.bytes_per_row, 4_294_967_040);
    let plan = try_plan_compute_pass(800, 400).unwrap();
    assert_eq!(plan.workgroups, (50, 25, 1));
    assert_eq!(plan.output_size, 5_120_000);
}

#[test]
fn workgroups_of_the_widest_frame() {
    assert_eq!(workgroups(u32::MAX - 15, u32::MAX - 15), (268_435_455, 268_435_455, 1));
}

#[test]
fn readback_sizes() {
    assert_eq!(try_readback_size(800, 400), Some((12_800, 5_120_000)));
    assert_eq!(try_readback_size(0, u32::MAX), Some((0, 0)));
    assert_eq!(try_readback_size(268_435_440, 1), Some((4_294_967_040, 4_294_967_040)));
    assert_eq!(try_readback_size(268_435_441, 1), None);
    assert_eq!(try_readback_size(4096, 65_536), None);
    assert_eq!(try_readback_size(u32::MAX, 0), None);
}
