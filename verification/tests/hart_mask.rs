use arceboot::hart_mask::HartMask;
use arceboot::memory_range::Physical;

#[test]
fn hart_mask_rustsbi_hart_mask() {
    let mask = HartMask::from_mask_base(0b1, 400);
    assert!(!mask.has_bit(0));
    assert!(mask.has_bit(400));
    assert!(!mask.has_bit(401));
    let mask = HartMask::from_mask_base(0b110, 500);
    assert!(!mask.has_bit(0));
    assert!(!mask.has_bit(500));
    assert!(mask.has_bit(501));
    assert!(mask.has_bit(502));
    assert!(!mask.has_bit(500 + (usize::BITS as usize)));
    let max_bit = 1 << (usize::BITS - 1);
    let mask = HartMask::from_mask_base(max_bit, 600);
    assert!(mask.has_bit(600 + (usize::BITS as usize) - 1));
    assert!(!mask.has_bit(600 + (usize::BITS as usize)));
    let mask = HartMask::from_mask_base(0b11, usize::MAX - 1);
    assert!(!mask.has_bit(usize::MAX - 2));
    assert!(mask.has_bit(usize::MAX - 1));
    assert!(mask.has_bit(usize::MAX));
    assert!(!mask.has_bit(0));
    // hart_mask_base == usize::MAX is special, it means hart_mask should be ignored
    // and this hart mask contains all harts available
    let mask = HartMask::from_mask_base(0, usize::MAX);
    for i in 0..5 {
        assert!(mask.has_bit(i));
    }
    assert!(mask.has_bit(usize::MAX));
}

#[test]
fn memory_range_physical_fields() {
    let p: Physical<&mut [u8]> = Physical::new(64, 0x1000, 0);
    assert_eq!(p.num_bytes(), 64);
    assert_eq!(p.phys_addr_lo(), 0x1000);
    assert_eq!(p.phys_addr_hi(), 0);
}
