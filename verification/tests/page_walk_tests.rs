use kernel::page_walk::{AddressTranslation, WalkStep};

const OFFSET: u64 = 0x0000_0180_0000_0000;

#[test]
fn translation_walks_four_levels() {
    // 0x40_1234_5678: indexes 0, 256, 145, 325 and page offset 0x678
    let mut t = AddressTranslation::new(0x40_1234_5678, 0x1000, OFFSET);
    assert_eq!(t.start(), WalkStep::ReadEntry(OFFSET + 0x1000));
    assert_eq!(t.step(0x2003), WalkStep::ReadEntry(OFFSET + 0x2000 + 256 * 8));
    assert_eq!(t.step(0x3003), WalkStep::ReadEntry(OFFSET + 0x3000 + 145 * 8));
    assert_eq!(t.step(0x4003), WalkStep::ReadEntry(OFFSET + 0x4000 + 325 * 8));
    assert_eq!(t.step(0x8000_0000_0abc_d063), WalkStep::Translated(0xabcd000 + 0x678));
}

#[test]
fn unused_entries_mean_unmapped() {
    let mut t = AddressTranslation::new(0x40_1234_5678, 0x1000, OFFSET);
    assert_eq!(t.step(0x2003), WalkStep::ReadEntry(OFFSET + 0x2000 + 256 * 8));
    assert_eq!(t.step(0), WalkStep::Unmapped);
    // the walk stays where it was
    assert_eq!(t.entry_address(), OFFSET + 0x2000 + 256 * 8);
}

#[test]
fn higher_half_addresses() {
    let t = AddressTranslation::new(0xffff_8000_0000_1000, 0x5000, 0);
    // level 4 index 256 for the first higher-half address
    assert_eq!(t.entry_address(), 0x5000 + 256 * 8);
}
