use ledhost::demo::fib;
use ledhost::demo::fill_slow;
use ledhost::demo::host_fill;
use ledhost::demo::host_set_pixel;
use ledhost::demo::render;
use ledhost::host::ticks_from_millis;
use ledhost::timing::derived_frame;

#[test]
fn test_fib_small_values() {
    assert_eq!(fib(0), 1);
    assert_eq!(fib(1), 1);
    assert_eq!(fib(2), 2);
    assert_eq!(fib(3), 3);
    assert_eq!(fib(10), 89);
}

#[test]
fn test_fib_resets_at_cap() {
    // The 86th value of the sequence 1, 1, 2, 3, ... passes 10^18, so the
    // iteration resets and starts over; the run never overflows.
    let long = fib(10_000);
    assert!(long <= 1_000_000_000_000_000_000);
}

#[test]
fn test_add() {
    assert_eq!(ledhost::demo::add(41, 1), 42);
    assert_eq!(ledhost::demo::add(-5, 3), -2);
}

#[test]
fn test_host_set_pixel_writes_grb() {
    let mut pixels = vec![0u8; 768];
    host_set_pixel(&mut pixels, 2, 1, 10, 20, 30);
    let o = 3 * (16 + 2);
    assert_eq!(&pixels[o..o + 3], &[20, 10, 30]);
    assert_eq!(pixels.iter().map(|&b| b as u32).sum::<u32>(), 60);
}

#[test]
fn test_host_fill_writes_grb_everywhere() {
    let mut pixels = vec![0u8; 768];
    host_fill(&mut pixels, 1, 2, 3);
    for p in 0..256 {
        assert_eq!(&pixels[3 * p..3 * p + 3], &[2, 1, 3]);
    }
}

#[test]
fn test_fill_slow_covers_rectangle_only() {
    let mut pixels = vec![9u8; 768];
    fill_slow(&mut pixels, 2, 1, 10, 20, 30);
    // Pixels (0, 0) and (1, 0) are written in G, R, B order.
    assert_eq!(&pixels[0..3], &[20, 10, 30]);
    assert_eq!(&pixels[3..6], &[20, 10, 30]);
    // Everything outside the 2 x 1 rectangle is untouched.
    assert!(pixels[6..].iter().all(|&b| b == 9));
}

#[test]
fn test_render_ramp_first_steps() {
    let mut pixels = vec![0u8; 768];
    render(&mut pixels, 1);
    // After one step the colour is (2, 3, 5), stored as G, R, B.
    assert_eq!(&pixels[0..3], &[3, 2, 5]);
    render(&mut pixels, 2);
    assert_eq!(&pixels[0..3], &[6, 4, 10]);
}

#[test]
fn test_render_ramp_stays_in_byte_range() {
    let mut pixels = vec![0u8; 768];
    // Far beyond the first reflection of every channel.
    render(&mut pixels, 1000);
    // The red channel bounces between 0 and 255 with step 2: after 1000
    // steps it sits at 2 * 1000 mod 510 reflected; just check the fill is
    // uniform and a legal byte.
    let g = pixels[0];
    let r = pixels[1];
    let b = pixels[2];
    for p in 0..256 {
        assert_eq!(&pixels[3 * p..3 * p + 3], &[g, r, b]);
    }
}

#[test]
fn test_ticks_from_millis() {
    assert_eq!(ticks_from_millis(0), 0);
    assert_eq!(ticks_from_millis(999), 255);
    assert_eq!(ticks_from_millis(1000), 256);
    assert_eq!(ticks_from_millis(2500), 640);
}

#[test]
fn test_derived_frame_divisor() {
    assert_eq!(derived_frame(0), 0);
    assert_eq!(derived_frame(256), 60);
    assert_eq!(derived_frame(255), 59);
    assert_eq!(derived_frame(4), 0);
    assert_eq!(derived_frame(5), 1);
}
