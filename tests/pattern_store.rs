use fl16_inputmodules::flash::Flash;
use fl16_inputmodules::matrix::{Grid, HEIGHT, WIDTH};
use fl16_inputmodules::patterns::{
    calculate_crc, delete_pattern, list_patterns, load_pattern, save_pattern, PatternHeader,
    PatternSlotInfo, PatternType, StoredPattern, PATTERN_START,
};

fn grid(seed: u8) -> Grid {
    let mut g = Grid::default();
    for x in 0..WIDTH {
        for y in 0..HEIGHT {
            g.0[x][y] = seed.wrapping_add((x * HEIGHT + y) as u8);
        }
    }
    g
}

fn entry_at(slot: usize, entry: usize) -> usize {
    PATTERN_START + slot * 8192 + entry * 512
}

#[test]
fn crc_is_byte_sum_xor_key() {
    assert_eq!(calculate_crc(&[1, 2, 3]), 6 ^ 0xB5B5);
    assert_eq!(calculate_crc(&[0; 306]), 0xB5B5);
}

#[test]
fn header_bytes_layout() {
    let h = PatternHeader {
        slot: 3,
        pattern_type: PatternType::Animation,
        frame_count: 4,
        frame_delay_ms: 50,
        data_crc: 0x1234,
        sequence: 0xABCD,
    };
    let b = h.to_bytes();
    assert_eq!(&b[..10], &[0xAA, 0x01, 3, 1, 4, 50, 0x34, 0x12, 0xCD, 0xAB]);
    assert!(b[10..].iter().all(|x| *x == 0xFF));
    assert_eq!(PatternHeader::from_bytes(&b), Some(h));
}

#[test]
fn header_from_bad_bytes_is_none() {
    let h = PatternHeader {
        slot: 0,
        pattern_type: PatternType::Static,
        frame_count: 1,
        frame_delay_ms: 0,
        data_crc: 0,
        sequence: 1,
    };
    let mut b = h.to_bytes();
    assert_eq!(PatternHeader::from_bytes(&b[..31]), None);
    b[3] = 2;
    assert_eq!(PatternHeader::from_bytes(&b), None);
    let mut b = h.to_bytes();
    b[0] = 0xAB;
    assert_eq!(PatternHeader::from_bytes(&b), None);
}

#[test]
fn stored_pattern_from_grid() {
    let g = grid(5);
    let p = StoredPattern::from_grid(2, &g, 7);
    assert_eq!(p.header.slot, 2);
    assert_eq!(p.header.sequence, 7);
    assert_eq!(p.header.frame_count, 1);
    assert!(!p.is_animation());
    assert_eq!(p.frames[0][HEIGHT + 1], g.0[1][1]);
    assert_eq!(p.header.data_crc, calculate_crc(&p.frames[0]));
    assert_eq!(p.first_frame(), g);
    // a frame beyond the frame count is an empty grid
    assert_eq!(p.frame_to_grid(1), Grid::default());
}

#[test]
fn empty_slot_loads_none() {
    let flash = Flash::new_erased();
    assert!(load_pattern(&flash, 0).is_none());
    assert_eq!(list_patterns(&flash), [PatternSlotInfo::default(); 8]);
}

#[test]
fn slot_out_of_range_is_refused() {
    let mut flash = Flash::new_erased();
    assert!(!save_pattern(&mut flash, 8, &grid(1)));
    assert!(load_pattern(&flash, 8).is_none());
    assert!(!delete_pattern(&mut flash, 8));
    assert!(flash.image().iter().all(|b| *b == 0xFF));
}

#[test]
fn save_then_load_pattern() {
    let mut flash = Flash::new_erased();
    let g = grid(9);
    assert!(save_pattern(&mut flash, 4, &g));
    let p = load_pattern(&flash, 4).unwrap();
    assert_eq!(p.first_frame(), g);
    assert_eq!(p.header.sequence, 1);
    assert_eq!(p.header.slot, 4);
}

#[test]
fn slots_are_isolated() {
    let mut flash = Flash::new_erased();
    let a = grid(1);
    let b = grid(100);
    assert!(save_pattern(&mut flash, 0, &a));
    assert!(save_pattern(&mut flash, 1, &b));
    assert_eq!(load_pattern(&flash, 0).unwrap().first_frame(), a);
    assert_eq!(load_pattern(&flash, 1).unwrap().first_frame(), b);
}

#[test]
fn highest_sequence_wins() {
    let mut flash = Flash::new_erased();
    for i in 0..10u8 {
        assert!(save_pattern(&mut flash, 2, &grid(i)));
    }
    let p = load_pattern(&flash, 2).unwrap();
    assert_eq!(p.header.sequence, 10);
    assert_eq!(p.first_frame(), grid(9));
}

#[test]
fn full_slot_is_erased_and_restarted() {
    let mut flash = Flash::new_erased();
    for i in 0..16u8 {
        assert!(save_pattern(&mut flash, 3, &grid(i)));
    }
    assert!(save_pattern(&mut flash, 3, &grid(200)));
    let p = load_pattern(&flash, 3).unwrap();
    assert_eq!(p.header.sequence, 17);
    assert_eq!(p.first_frame(), grid(200));
    // only the first entry is written after the erase
    assert_eq!(flash.image()[entry_at(3, 1)], 0xFF);
}

#[test]
fn corrupted_checksum_loads_none() {
    let mut flash = Flash::new_erased();
    save_pattern(&mut flash, 0, &grid(1));
    save_pattern(&mut flash, 0, &grid(2));
    let mut img = flash.image().clone();
    // flip a byte of the latest entry's checksum field
    img[entry_at(0, 1) + 6] ^= 0x10;
    let flash = Flash::from_image(img).unwrap();
    assert!(load_pattern(&flash, 0).is_none());
}

#[test]
fn sequence_wrap_at_full_slot_loads_newest() {
    let mut flash = Flash::new_erased();
    for i in 0..16u8 {
        save_pattern(&mut flash, 5, &grid(i));
    }
    // drive the latest sequence number to its maximum
    let mut img = flash.image().clone();
    img[entry_at(5, 15) + 8] = 0xFF;
    img[entry_at(5, 15) + 9] = 0xFF;
    let mut flash = Flash::from_image(img).unwrap();
    assert!(save_pattern(&mut flash, 5, &grid(42)));
    let p = load_pattern(&flash, 5).unwrap();
    assert_eq!(p.header.sequence, 0);
    assert_eq!(p.first_frame(), grid(42));
}

#[test]
fn sequence_wrap_mid_slot_keeps_older_entry() {
    let mut flash = Flash::new_erased();
    save_pattern(&mut flash, 1, &grid(1));
    let mut img = flash.image().clone();
    img[entry_at(1, 0) + 8] = 0xFF;
    img[entry_at(1, 0) + 9] = 0xFF;
    let mut flash = Flash::from_image(img).unwrap();
    assert!(save_pattern(&mut flash, 1, &grid(2)));
    // the new entry got sequence 0, below the old 0xFFFF
    let p = load_pattern(&flash, 1).unwrap();
    assert_eq!(p.header.sequence, 0xFFFF);
    assert_eq!(p.first_frame(), grid(1));
}

#[test]
fn list_reports_occupied_slots() {
    let mut flash = Flash::new_erased();
    save_pattern(&mut flash, 2, &grid(3));
    let list = list_patterns(&flash);
    assert_eq!(
        list[2],
        PatternSlotInfo { occupied: true, pattern_type: 0, frame_count: 1, frame_delay_ms: 0 }
    );
    assert!(!list[0].occupied);
    assert!(!list[7].occupied);
}

#[test]
fn delete_empties_slot() {
    let mut flash = Flash::new_erased();
    save_pattern(&mut flash, 6, &grid(3));
    save_pattern(&mut flash, 5, &grid(4));
    assert!(delete_pattern(&mut flash, 6));
    assert!(load_pattern(&flash, 6).is_none());
    assert_eq!(load_pattern(&flash, 5).unwrap().first_frame(), grid(4));
}

#[test]
fn last_slot_reclaims_its_page() {
    let mut flash = Flash::new_erased();
    for i in 0..7u8 {
        assert!(save_pattern(&mut flash, 7, &grid(i)));
    }
    // entry 7's header lies in the region, but its frame tail does not
    assert!(!save_pattern(&mut flash, 7, &grid(7)));
    assert_eq!(flash.image()[entry_at(7, 7)], 0xAA);
    // that entry has the highest sequence and fails its checksum
    assert!(load_pattern(&flash, 7).is_none());
    // the slot is now full: the next save reclaims its one page
    assert!(save_pattern(&mut flash, 7, &grid(8)));
    let p = load_pattern(&flash, 7).unwrap();
    assert_eq!(p.first_frame(), grid(8));
    assert_eq!(p.header.sequence, 9);
    assert_eq!(flash.image()[entry_at(7, 1)], 0xFF);
    assert!(load_pattern(&flash, 6).is_none());
    assert!(delete_pattern(&mut flash, 7));
    assert!(load_pattern(&flash, 7).is_none());
}
