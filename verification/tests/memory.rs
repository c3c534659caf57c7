use ternvale::memory::{GuestMemory, MemoryError};

#[test]
fn numbers_are_little_endian_and_read_back() {
    let mut mem = GuestMemory::new();
    mem.add_region(0x1000, 0x20).expect("region");
    mem.write_u64(0x1003, 0x0102_0304_0506_0708).expect("write");
    assert_eq!(mem.read_u8(0x1003), Ok(0x08));
    assert_eq!(mem.read_u16(0x1003), Ok(0x0708));
    assert_eq!(mem.read_u32(0x1007), Ok(0x0102_0304));
    assert_eq!(mem.read_u64(0x1003), Ok(0x0102_0304_0506_0708));
    mem.write_u16(0x1000, 0xbeef).expect("write");
    assert_eq!(mem.read_bytes(0x1000, 3), Ok(vec![0xef, 0xbe, 0]));
}

#[test]
fn an_access_that_leaves_a_region_changes_nothing() {
    let mut mem = GuestMemory::new();
    mem.add_region(0x1000, 4).expect("region");
    assert_eq!(
        mem.write_u32(0x1002, u32::MAX),
        Err(MemoryError::Unmapped { addr: 0x1002 })
    );
    assert_eq!(mem.read_u32(0x1000), Ok(0));
    assert_eq!(mem.read_u16(0xfff), Err(MemoryError::Unmapped { addr: 0xfff }));
    assert_eq!(mem.read_u8(u64::MAX), Err(MemoryError::Unmapped { addr: u64::MAX }));
    assert!(mem.read_bytes(0x9000, 0).expect("nothing").is_empty());
}

#[test]
fn an_access_may_span_two_regions_that_touch() {
    let mut mem = GuestMemory::new();
    mem.add_region(0x2000, 2).expect("high");
    mem.add_region(0x1ffe, 2).expect("low");
    mem.write_bytes(0x1ffe, &[1, 2, 3, 4]).expect("write");
    assert_eq!(mem.read_u32(0x1ffe), Ok(0x0403_0201));
    assert!(mem.covers(0x1ffe, 4));
    assert!(!mem.covers(0x1ffe, 5));
}

#[test]
fn regions_are_checked() {
    let mut mem = GuestMemory::new();
    assert_eq!(mem.add_region(0, 0), Err(MemoryError::EmptyRegion));
    assert_eq!(mem.add_region(u64::MAX, 2), Err(MemoryError::RegionTooLarge));
    mem.add_region(u64::MAX, 1).expect("last byte");
    mem.add_region(0x1000, 0x10).expect("region");
    assert_eq!(
        mem.add_region(0x100f, 1),
        Err(MemoryError::Overlap { base: 0x1000 })
    );
    assert_eq!(
        mem.add_region(0x0ff0, 0x40),
        Err(MemoryError::Overlap { base: 0x1000 })
    );
    mem.add_region(0x1010, 1).expect("next");
    assert_eq!(mem.read_u8(u64::MAX), Ok(0));
}
