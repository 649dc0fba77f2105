use chip8_hw::clock;
use chip8_hw::display;

#[test]
fn epoch_is_day_zero() {
    assert_eq!(clock::days_from_civil(1970, 1, 1), 0);
}

#[test]
fn leap_year_boundary_days() {
    assert_eq!(clock::days_from_civil(2000, 2, 29), 11016);
    assert_eq!(clock::days_from_civil(2000, 3, 1), 11017);
    assert_eq!(clock::days_from_civil(1999, 12, 31), 10956);
    assert_eq!(clock::days_from_civil(2024, 2, 29), 19782);
}

#[test]
fn epoch_clock_is_zero() {
    assert_eq!(clock::clock_from_civil(1970, 1, 1, 0, 0, 0, 0), 0);
}

#[test]
fn reference_timestamp_nanos() {
    // 2000-03-01T00:00:00 is 951868800 seconds after the epoch
    assert_eq!(
        clock::clock_from_civil(2000, 3, 1, 0, 0, 0, 0),
        951_868_800_000_000_000
    );
}

#[test]
fn time_of_day_parts_add_up() {
    assert_eq!(
        clock::clock_from_civil(1970, 1, 2, 1, 2, 3, 4),
        86_400_000_000_000 + 3_600_000_000_000 + 2 * 60_000_000_000 + 3 * 1_000_000_000 + 4
    );
}

#[test]
fn counter_ticks_are_halved() {
    assert_eq!(clock::ticks_from_counter(11), 5);
    assert_eq!(clock::ticks_from_counter(0), 0);
    assert_eq!(clock::ticks_from_counter(u64::MAX), u64::MAX / 2);
}

#[test]
fn scale_params_for_640x400() {
    assert_eq!(display::scale_params(640, 400), (5, 6, 160, 104));
}

#[test]
fn cell_block_for_origin_640x400() {
    let px = display::cell_pixels(640, 400, 0, 0);
    assert_eq!(px.len(), 30);
    assert_eq!(px[0], (160, 104));
    assert_eq!(px[4], (164, 104));
    assert_eq!(px[29], (164, 109));
    for &(x, y) in px.iter() {
        assert!((160..165).contains(&x));
        assert!((104..110).contains(&y));
    }
}

#[test]
fn neighbor_cell_block_is_shifted() {
    let px = display::cell_pixels(640, 400, 1, 0);
    assert_eq!(px[0], (165, 104));
    let px = display::cell_pixels(640, 400, 0, 1);
    assert_eq!(px[0], (160, 110));
}

#[test]
fn zero_scale_draws_nothing() {
    assert_eq!(display::scale_params(63, 400).0, 0);
    assert!(display::cell_pixels(63, 400, 10, 10).is_empty());
}

#[test]
fn pixel_offset_matches_stride_layout() {
    assert_eq!(display::pixel_offset(640, 10, 2), 4 * (2 * 640 + 10));
    assert_eq!(display::pixel_offset(0, 0, 0), 0);
}

#[test]
fn pixel_colors_are_two_tone() {
    assert_eq!(display::pixel_color(true), (255, 255, 255));
    assert_eq!(display::pixel_color(false), (0, 0, 0));
}
