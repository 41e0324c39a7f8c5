use ledhost::color::hsv_to_rgb;

#[test]
fn test_hue_zero_is_red() {
    assert_eq!(hsv_to_rgb(0), (255, 0, 0));
}

#[test]
fn test_hue_wraps_toward_red() {
    // 255 lies in the last sector: offset = (255 mod 43) * 6 = 240, so the
    // blue channel has almost faded back out.
    assert_eq!(hsv_to_rgb(255), (255, 0, 15));
}

#[test]
fn test_hue_sector_boundaries() {
    assert_eq!(hsv_to_rgb(43), (255, 255, 0));
    assert_eq!(hsv_to_rgb(86), (0, 255, 0));
    assert_eq!(hsv_to_rgb(129), (0, 255, 255));
    assert_eq!(hsv_to_rgb(172), (0, 0, 255));
    assert_eq!(hsv_to_rgb(215), (255, 0, 255));
}

#[test]
fn test_hue_ramp_within_first_sector() {
    // Inside sector 0 the green channel rises linearly: offset = (h mod 43) * 6.
    assert_eq!(hsv_to_rgb(1), (255, 6, 0));
    assert_eq!(hsv_to_rgb(42), (255, 252, 0));
}
