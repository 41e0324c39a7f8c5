use ledhost::host::map_frame;
use ledhost::serpentine::serpentine_index;

#[test]
fn test_serpentine_index() {
    // Starts at the bottom-left, goes right on the bottom row, then left on the second row up, and so on...
    assert_eq!(serpentine_index(0, 0, 16, 16), 255);
    assert_eq!(serpentine_index(15, 0, 16, 16), 240);
    assert_eq!(serpentine_index(15, 1, 16, 16), 239);
    assert_eq!(serpentine_index(15, 14, 16, 16), 16);
    assert_eq!(serpentine_index(0, 15, 16, 16), 0);
    assert_eq!(serpentine_index(15, 15, 16, 16), 15);
}

#[test]
fn test_serpentine_bijection_16x16() {
    let mut seen = [false; 256];
    for y in 0..16 {
        for x in 0..16 {
            let i = serpentine_index(x, y, 16, 16);
            assert!(i < 256, "index out of range for ({}, {})", x, y);
            assert!(!seen[i], "index {} hit twice", i);
            seen[i] = true;
        }
    }
    assert!(seen.iter().all(|&s| s), "not every strip index was hit");
}

#[test]
fn test_serpentine_other_grid() {
    // 4x2 grid: physical row 1 is the logical top row, scanned right to left.
    assert_eq!(serpentine_index(0, 0, 4, 2), 7);
    assert_eq!(serpentine_index(3, 0, 4, 2), 4);
    assert_eq!(serpentine_index(0, 1, 4, 2), 0);
    assert_eq!(serpentine_index(3, 1, 4, 2), 3);
}

#[test]
fn test_map_frame_reorders_pixels() {
    let mut frame = vec![0u8; 768];
    // Logical top-left pixel red, logical bottom-right pixel blue.
    frame[0] = 255;
    let bottom_right = (15 * 16 + 15) * 3;
    frame[bottom_right + 2] = 255;
    let out = map_frame(&frame);
    assert_eq!(out.len(), 768);
    // (0, 0) maps to strip index 255, (15, 15) to strip index 15.
    assert_eq!(out[255 * 3], 255);
    assert_eq!(out[255 * 3 + 1], 0);
    assert_eq!(out[15 * 3 + 2], 255);
    // Everything else stays dark.
    assert_eq!(out.iter().map(|&b| b as u32).sum::<u32>(), 510);
}
