use fl16_inputmodules::flash::{Flash, FlashError, FlashStorage, FLASH_BASE, FLASH_SIZE};

fn region() -> FlashStorage {
    FlashStorage::new(FLASH_BASE + 0x1000, 0x2000)
}

#[test]
fn new_device_is_erased() {
    let flash = Flash::new_erased();
    assert_eq!(flash.image().len(), FLASH_SIZE);
    assert!(flash.image().iter().all(|b| *b == 0xFF));
}

#[test]
fn image_of_wrong_size_is_refused() {
    assert!(Flash::from_image(vec![0xFF; 16]).is_none());
    assert!(Flash::from_image(vec![0xFF; FLASH_SIZE]).is_some());
}

#[test]
fn capacity_is_region_size() {
    assert_eq!(region().capacity(), 0x2000);
}

#[test]
fn write_then_read_back() {
    let mut flash = Flash::new_erased();
    let r = region();
    assert_eq!(r.write_at(&mut flash, 16, &[1, 2, 3]), Ok(()));
    let mut buf = [0u8; 5];
    r.read_at(&flash, 15, &mut buf);
    assert_eq!(buf, [0xFF, 1, 2, 3, 0xFF]);
    // the write landed at the region's start plus the offset
    assert_eq!(flash.image()[0x1000 + 16], 1);
}

#[test]
fn programming_only_clears_bits() {
    let mut flash = Flash::new_erased();
    let r = region();
    r.write_at(&mut flash, 0, &[0b1100_1100]).unwrap();
    r.write_at(&mut flash, 0, &[0b1010_1010]).unwrap();
    let mut buf = [0u8; 1];
    r.read_at(&flash, 0, &mut buf);
    assert_eq!(buf[0], 0b1000_1000);
}

#[test]
fn write_is_truncated_to_one_page() {
    let mut flash = Flash::new_erased();
    let r = region();
    let data = vec![0u8; 300];
    r.write_at(&mut flash, 0, &data).unwrap();
    let mut buf = [1u8; 300];
    r.read_at(&flash, 0, &mut buf);
    assert!(buf[..256].iter().all(|b| *b == 0));
    assert!(buf[256..].iter().all(|b| *b == 0xFF));
}

#[test]
fn write_out_of_bounds_fails() {
    let mut flash = Flash::new_erased();
    let r = region();
    assert_eq!(r.write_at(&mut flash, 0x2000 - 2, &[0, 0, 0]), Err(FlashError::OutOfBounds));
    assert!(flash.image().iter().all(|b| *b == 0xFF));
}

#[test]
fn read_out_of_bounds_leaves_buffer() {
    let flash = Flash::new_erased();
    let mut buf = [7u8; 4];
    region().read_at(&flash, 0x2000 - 2, &mut buf);
    assert_eq!(buf, [7, 7, 7, 7]);
}

#[test]
fn erase_sector_checks_bounds_then_alignment() {
    let mut flash = Flash::new_erased();
    let r = region();
    assert_eq!(r.erase_sector(&mut flash, 0x1000 + 1), Err(FlashError::OutOfBounds));
    assert_eq!(r.erase_sector(&mut flash, 0x10), Err(FlashError::NotAligned));
    r.write_at(&mut flash, 0x1004, &[0]).unwrap();
    r.write_at(&mut flash, 0x4, &[0]).unwrap();
    assert_eq!(r.erase_sector(&mut flash, 0x1000), Ok(()));
    let mut buf = [0u8; 1];
    r.read_at(&flash, 0x1004, &mut buf);
    assert_eq!(buf[0], 0xFF);
    r.read_at(&flash, 0x4, &mut buf);
    assert_eq!(buf[0], 0);
}
