use ledhost::error::FatalError;
use ledhost::mem::GuestMemory;
use ledhost::segments::PatternId;
use ledhost::segments::Segment;
use ledhost::segments::SegmentTable;

#[test]
fn test_memory_new_is_zeroed() {
    let m = GuestMemory::new(100);
    assert_eq!(m.size(), 100);
    for i in 0..100 {
        assert_eq!(m.read_byte(i), 0);
    }
}

#[test]
fn test_memory_write_and_fill() {
    let mut m = GuestMemory::new(16);
    m.write_byte(3, 9);
    assert_eq!(m.read_byte(3), 9);
    m.fill_region(4, 8, 7);
    assert_eq!(m.read_byte(3), 9);
    assert_eq!(m.read_byte(4), 7);
    assert_eq!(m.read_byte(11), 7);
    assert_eq!(m.read_byte(12), 0);
}

#[test]
fn test_memory_grows_by_pages() {
    let mut m = GuestMemory::new(10);
    m.grow_pages(1).expect("one page fits");
    assert_eq!(m.size(), 10 + 65536);
    assert_eq!(m.read_byte(10 + 65535), 0);
    // The limit is a u32's range: 65536 pages from here cannot fit.
    assert_eq!(
        m.grow_pages(65536).err(),
        Some(FatalError::ResourceExhaustion)
    );
    assert_eq!(m.size(), 10 + 65536);
}

#[test]
fn test_memory_copy_out_bounds() {
    let mut m = GuestMemory::new(20);
    m.write_byte(5, 42);
    let copy = m.copy_out(4, 3).expect("4 + 3 fits in 20");
    assert_eq!(copy, vec![0, 42, 0]);
    assert_eq!(m.copy_out(18, 3).err(), Some(FatalError::BoundsViolation));
    assert_eq!(m.copy_out(21, 0).err(), Some(FatalError::BoundsViolation));
}

#[test]
fn test_segment_table_first_match_wins() {
    let table = SegmentTable {
        entries: vec![
            Segment { start: 0, pattern: PatternId::Rainbow },
            Segment { start: 1024, pattern: PatternId::Checker },
            Segment { start: 2048, pattern: PatternId::PreRendered },
            Segment { start: 3072, pattern: PatternId::SpriteSheet },
        ],
    };
    assert_eq!(table.select(0), 0);
    assert_eq!(table.select(1023), 0);
    assert_eq!(table.select(1024), 1);
    assert_eq!(table.select(2047), 1);
    assert_eq!(table.select(3072), 3);
    // The final range is open and absorbs everything beyond the cycle.
    assert_eq!(table.select(u64::MAX), 3);
}
