use diskfs::interrupts::{InterruptIndex, PIC_1_OFFSET, PIC_2_OFFSET};

#[test]
fn vector_numbers_follow_the_remap_offset() {
    assert_eq!(PIC_1_OFFSET, 32);
    assert_eq!(PIC_2_OFFSET, 40);
    assert_eq!(InterruptIndex::Timer.as_u8(), 32);
    assert_eq!(InterruptIndex::Keyboard.as_u8(), 33);
    assert_eq!(InterruptIndex::SecondaryATAHardDisk.as_u8(), 47);
}

#[test]
fn disk_completion_vector_is_the_primary_ata_line() {
    assert_eq!(InterruptIndex::PrimaryATAHardDisk.as_u8(), 46);
    assert_eq!(InterruptIndex::PrimaryATAHardDisk.as_usize(), 46);
}
