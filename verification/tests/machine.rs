use ledhost::error::FatalError;
use ledhost::guest::FrameSpan;
use ledhost::guest::Guest;
use ledhost::host::HostRunner;
use ledhost::host::run_frames;

fn demo_assets() -> (Vec<Vec<u8>>, Vec<u8>, Vec<FrameSpan>) {
    let frames: Vec<Vec<u8>> = (0..6).map(|k| vec![10 + k as u8; 768]).collect();
    let mut data = vec![100u8; 768];
    data.extend(vec![200u8; 768]);
    let table = vec![
        FrameSpan { start: 0, end_ticks: 10 },
        FrameSpan { start: 768, end_ticks: 30 },
    ];
    (frames, data, table)
}

fn demo_guest() -> (Guest, usize) {
    let (frames, data, table) = demo_assets();
    let mut g = Guest::new(&frames, &data, &table).expect("valid assets");
    let host_base = g.memory_size();
    g.grow_memory(1).expect("one page");
    g.init();
    (g, host_base)
}

fn frame_at(g: &mut Guest, host_base: usize, ticks: u64) -> (usize, Vec<u8>) {
    let ret = g.update(ticks, 0, host_base);
    let frame = g.copy_frame(ret).expect("offset returned by update is valid");
    (ret, frame)
}

#[test]
fn test_rejects_malformed_assets() {
    let (frames, data, table) = demo_assets();
    let no_frames: Vec<Vec<u8>> = Vec::new();
    assert_eq!(
        Guest::new(&no_frames, &data, &table).err(),
        Some(FatalError::Configuration)
    );
    let short_frame = vec![vec![0u8; 767]];
    assert_eq!(
        Guest::new(&short_frame, &data, &table).err(),
        Some(FatalError::Configuration)
    );
    let empty_table: Vec<FrameSpan> = Vec::new();
    assert_eq!(
        Guest::new(&frames, &data, &empty_table).err(),
        Some(FatalError::Configuration)
    );
    // Cumulative end ticks must be strictly increasing.
    let bad_order = vec![
        FrameSpan { start: 0, end_ticks: 30 },
        FrameSpan { start: 768, end_ticks: 10 },
    ];
    assert_eq!(
        Guest::new(&frames, &data, &bad_order).err(),
        Some(FatalError::Configuration)
    );
    // A span must leave room for a whole frame inside the asset.
    let bad_span = vec![FrameSpan { start: 1000, end_ticks: 10 }];
    assert_eq!(
        Guest::new(&frames, &data, &bad_span).err(),
        Some(FatalError::Configuration)
    );
}

#[test]
fn test_boot_white_flash() {
    let (mut g, host_base) = demo_guest();
    for &ticks in &[0u64, 1, 100, 255] {
        let (ret, frame) = frame_at(&mut g, host_base, ticks);
        assert_eq!(ret, host_base);
        assert!(frame.iter().all(|&b| b == 255), "ticks {} not white", ticks);
    }
}

#[test]
fn test_boot_corner_test() {
    let (mut g, host_base) = demo_guest();
    for &ticks in &[256u64, 300, 511] {
        let (ret, frame) = frame_at(&mut g, host_base, ticks);
        assert_eq!(ret, host_base);
        assert_eq!(&frame[0..3], &[255, 0, 0], "top-left red");
        assert_eq!(&frame[45..48], &[0, 255, 0], "top-right green");
        assert_eq!(&frame[720..723], &[0, 0, 255], "bottom-left blue");
        assert_eq!(&frame[765..768], &[200, 200, 0], "bottom-right yellow");
        let coloured = [0usize, 1, 2, 45, 46, 47, 720, 721, 722, 765, 766, 767];
        for (i, &b) in frame.iter().enumerate() {
            if !coloured.contains(&i) {
                assert_eq!(b, 0, "byte {} not black at ticks {}", i, ticks);
            }
        }
    }
}

#[test]
fn test_hue_sweep_after_boot() {
    let (mut g, host_base) = demo_guest();
    let (ret, frame) = frame_at(&mut g, host_base, 512);
    assert_eq!(ret, host_base);
    // Pixel (0, 0): hue 0 is pure red.
    assert_eq!(&frame[0..3], &[255, 0, 0]);
    // Pixel (15, 15): hue (15 + 15) * 8 = 240, deep in the magenta sector.
    assert_eq!(&frame[765..768], &[255, 0, 105]);
}

#[test]
fn test_checkerboard_colours_odd_cells() {
    let (mut g, host_base) = demo_guest();
    let (ret, frame) = frame_at(&mut g, host_base, 512 + 1024);
    // The checkerboard renders into the guest's private buffer.
    assert_eq!(ret, 0);
    // Pixel (1, 1): hue 1 with derived frame 0.
    let o = (16 + 1) * 3;
    assert_eq!(&frame[o..o + 3], &[255, 6, 0]);
    // Pixel (0, 0) is even and keeps the buffer's prior contents (zeroed).
    assert_eq!(&frame[0..3], &[0, 0, 0]);
}

#[test]
fn test_checkerboard_keeps_prior_even_cells() {
    let (mut g, host_base) = demo_guest();
    // Poke a value into an even cell of the private buffer through the
    // guest's memory ABI, then render the checkerboard over it.
    g.mem_write(0, 7);
    let (_, frame) = frame_at(&mut g, host_base, 512 + 1024);
    assert_eq!(frame[0], 7, "even cells must keep their prior contents");
    assert_eq!(g.mem_read(0), 7);
}

#[test]
fn test_pre_rendered_sequence_selects_frames() {
    let (mut g, host_base) = demo_guest();
    // Segment tick 0: derived frame 0 selects stored frame 0.
    let (ret, frame) = frame_at(&mut g, host_base, 512 + 2048);
    assert_eq!(ret, 768);
    assert!(frame.iter().all(|&b| b == 10));
    // Derived frame advances by 60/256 per tick and is slowed by 16, so
    // stored frame 1 starts at segment tick ceil(16 * 256 / 60) = 69.
    let (ret2, frame2) = frame_at(&mut g, host_base, 512 + 2048 + 69);
    assert_eq!(ret2, 768 + 768);
    assert!(frame2.iter().all(|&b| b == 11));
}

#[test]
fn test_sprite_sheet_uses_span_table() {
    let (mut g, host_base) = demo_guest();
    // Segment tick 0 falls before the first cumulative end (10).
    let (_, frame) = frame_at(&mut g, host_base, 512 + 3072);
    assert!(frame.iter().all(|&b| b == 100));
    // Segment tick 15 falls in the second span (ends at 30).
    let (_, frame2) = frame_at(&mut g, host_base, 512 + 3072 + 15);
    assert!(frame2.iter().all(|&b| b == 200));
    // The sequence loops with period 30.
    let (_, frame3) = frame_at(&mut g, host_base, 512 + 3072 + 30);
    assert!(frame3.iter().all(|&b| b == 100));
}

#[test]
fn test_anim0001_is_pure_address_selection() {
    let (mut g, host_base) = demo_guest();
    assert_eq!(g.anim0001(0), 768);
    assert_eq!(g.anim0001(68), 768);
    assert_eq!(g.anim0001(69), 768 + 768);
    // Six frames, slowdown 16: the sequence wraps after 6 * 16 derived
    // frames, i.e. 96 * 256 / 60 = 409.6 segment ticks.
    assert_eq!(g.anim0001(410), 768);
    let before = g.memory_size();
    let _ = g.update(512 + 2048, 0, host_base);
    assert_eq!(g.memory_size(), before, "no pixel written, only selected");
}

#[test]
fn test_anim0002_scans_and_falls_back_never() {
    let (mut g, host_base) = demo_guest();
    let base = 768 + 6 * 768;
    assert_eq!(g.anim0002(0, host_base), base);
    assert_eq!(g.anim0002(9, host_base), base);
    assert_eq!(g.anim0002(10, host_base), base + 768);
    assert_eq!(g.anim0002(29, host_base), base + 768);
    // The lookup wraps at the table's total duration, so the fallback is
    // unreachable for a well-formed table.
    assert_eq!(g.anim0002(30, host_base), base);
    assert_eq!(g.anim0002(u64::MAX, host_base), base + 768);
}

#[test]
fn test_cycle_selection_repeats() {
    // Pattern selection cycles every 4096 ticks; the patterns themselves
    // receive the running segment tick, so only the chosen segment (seen
    // in the returned offset) repeats, not the rendered bytes.
    let (mut g, host_base) = demo_guest();
    for &base in &[512u64, 1536, 2560, 3584] {
        let r1 = g.update(base, 0, host_base);
        let r2 = g.update(base + 4096, 0, host_base);
        let same_region = |r: usize| {
            if r == host_base {
                0
            } else if r < 768 {
                1
            } else if r < 768 + 6 * 768 {
                2
            } else {
                3
            }
        };
        assert_eq!(same_region(r1), same_region(r2), "segment at {}", base);
    }
}

#[test]
fn test_update_is_deterministic() {
    let (mut g1, host1) = demo_guest();
    let (mut g2, host2) = demo_guest();
    for &ticks in &[0u64, 300, 600, 2000, 3000, 4000] {
        let (r1, f1) = frame_at(&mut g1, host1, ticks);
        let (r2, f2) = frame_at(&mut g2, host2, ticks);
        assert_eq!(r1, r2);
        assert_eq!(f1, f2, "ticks {} differ between identical guests", ticks);
    }
}

#[test]
fn test_runs_are_reproducible() {
    let (mut g1, host1) = demo_guest();
    let (mut g2, _) = demo_guest();
    let ticks: Vec<u64> = vec![0, 200, 256, 500, 512, 900, 1536, 2560, 3584, 4700, 9000];
    let out1 = run_frames(&mut g1, &ticks, host1);
    let out2 = run_frames(&mut g2, &ticks, host1);
    assert_eq!(out1.len(), ticks.len());
    assert_eq!(out1, out2, "same seed and ticks must render the same frames");
}

#[test]
fn test_copy_out_rejects_out_of_range_offset() {
    let (g, _) = demo_guest();
    let size = g.memory_size();
    assert_eq!(g.copy_frame(size).err(), Some(FatalError::BoundsViolation));
    assert_eq!(
        g.copy_frame(size - 767).err(),
        Some(FatalError::BoundsViolation)
    );
    assert!(g.copy_frame(size - 768).is_ok());
}

#[test]
fn test_runner_drives_cycles() {
    let (frames, data, table) = demo_assets();
    let mut g = Guest::new(&frames, &data, &table).expect("valid assets");
    let mut runner = HostRunner::setup(&mut g).expect("setup fits");
    let out = runner.cycle(&mut g, 0);
    assert_eq!(runner.frame_count, 1);
    assert_eq!(runner.last_ticks, 0);
    // The white flash is white wherever the strip order puts each pixel.
    assert!(out.iter().all(|&b| b == 255));
    let out2 = runner.cycle(&mut g, 512);
    assert_eq!(runner.frame_count, 2);
    // Logical (0, 0) is red and lands at strip index 255.
    assert_eq!(&out2[765..768], &[255, 0, 0]);
}

#[test]
fn test_buffer_ptr_names_private_buffer() {
    let (g, _) = demo_guest();
    assert_eq!(g.buffer_ptr(), 0);
}

#[test]
fn test_describe_names_conditions() {
    assert_eq!(FatalError::Configuration.describe(), "configuration error");
    assert_eq!(
        FatalError::BoundsViolation.describe(),
        "pixel buffer bounds violation"
    );
}
