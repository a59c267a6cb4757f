use wmutil::monitor::Point;
use wmutil::query::{
    dpi_or_baseline, frequency_to_millihertz, monitor_size, position_or_origin,
    wide_prefix_before_nul,
};
use wmutil::{has_flag, BASE_DPI};

#[test]
fn baseline_dpi_is_ninety_six() {
    assert_eq!(BASE_DPI, 96);
}

#[test]
fn scale_factor_at_one_and_a_half() {
    // A monitor reporting 144 DPI scales by 144 / 96 = 1.5.
    let dpi: u32 = 144;
    assert_eq!(dpi as f64 / BASE_DPI as f64, 1.5);
}

#[test]
fn has_flag_requires_every_bit() {
    assert!(has_flag(0b1011, 0b1010));
    assert!(!has_flag(0b1011, 0b1100));
    assert!(has_flag(0xFFFF_FFFF, 0x8000_0001));
    assert!(has_flag(0, 0));
}

#[test]
fn monitor_size_from_rectangle_bounds() {
    assert_eq!(monitor_size(0, 0, 1920, 1080), (1920, 1080));
    assert_eq!(monitor_size(-800, 600, 1120, 1680), (1920, 1080));
    assert_eq!(monitor_size(5, 5, 5, 5), (0, 0));
}

#[test]
fn refresh_rate_in_millihertz() {
    assert_eq!(frequency_to_millihertz(60), 60_000);
    assert_eq!(frequency_to_millihertz(144), 144_000);
    assert_eq!(frequency_to_millihertz(0), 0);
}

#[test]
fn unqueryable_dpi_falls_back_to_the_baseline() {
    assert_eq!(dpi_or_baseline(None), 96);
    assert_eq!(dpi_or_baseline(Some(144)), 144);
}

#[test]
fn unqueryable_position_falls_back_to_origin() {
    assert_eq!(position_or_origin(None), Point { x: 0, y: 0 });
    assert_eq!(position_or_origin(Some(Point { x: 3, y: -4 })), Point { x: 3, y: -4 });
}

#[test]
fn wide_string_content_stops_at_the_first_nul() {
    assert_eq!(wide_prefix_before_nul(&[72, 105, 0, 88]), vec![72, 105]);
    assert_eq!(wide_prefix_before_nul(&[0, 1, 2]), Vec::<u16>::new());
    assert_eq!(wide_prefix_before_nul(&[72, 105]), vec![72, 105]);
    assert_eq!(wide_prefix_before_nul(&[]), Vec::<u16>::new());
}
