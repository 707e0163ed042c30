use fl16_inputmodules::config::{
    calculate_checksum, load_config, reset_config, save_config, StoredConfig, CONFIG_START,
    CONFIG_VERSION,
};
use fl16_inputmodules::flash::Flash;

fn config(brightness: u8, period: u32) -> StoredConfig {
    StoredConfig {
        version: CONFIG_VERSION,
        brightness,
        sleep_timeout_secs: 300,
        animation_period_us: period,
        pwm_freq: 2,
        startup_animation: false,
        startup_pattern_idx: 3,
        _reserved: [0; 5],
    }
}

#[test]
fn default_config_values() {
    let d = StoredConfig::default();
    assert_eq!(d.version, 1);
    assert_eq!(d.brightness, 51);
    assert_eq!(d.sleep_timeout_secs, 60);
    assert_eq!(d.animation_period_us, 31_250);
    assert_eq!(d.pwm_freq, 0);
    assert!(d.startup_animation);
    assert_eq!(d.startup_pattern_idx, 0xFF);
}

#[test]
fn checksum_is_byte_sum_xor_key() {
    assert_eq!(calculate_checksum(&[1, 2, 3]), 6 ^ 0xA5A5);
    assert_eq!(calculate_checksum(&[]), 0xA5A5);
    // the sum wraps at 16 bits
    let data = vec![0xFFu8; 300];
    assert_eq!(calculate_checksum(&data), ((300u32 * 255) as u16) ^ 0xA5A5);
}

#[test]
fn config_bytes_layout() {
    let c = config(200, 0x0102_0304);
    assert_eq!(
        c.to_bytes(),
        [1, 200, 0x2C, 0x01, 0x04, 0x03, 0x02, 0x01, 2, 0, 3, 0, 0, 0, 0, 0]
    );
    assert_eq!(StoredConfig::from_bytes(&c.to_bytes()), Some(c));
}

#[test]
fn config_from_short_or_other_version_is_none() {
    assert_eq!(StoredConfig::from_bytes(&[1; 15]), None);
    let mut b = config(1, 1).to_bytes();
    b[0] = 2;
    assert_eq!(StoredConfig::from_bytes(&b), None);
}

#[test]
fn erased_region_loads_default() {
    let flash = Flash::new_erased();
    assert_eq!(load_config(&flash), StoredConfig::default());
}

#[test]
fn save_then_load_round_trip() {
    let mut flash = Flash::new_erased();
    let c = config(10, 1000);
    assert!(save_config(&mut flash, &c));
    assert_eq!(load_config(&flash), c);
    // the entry is at the start of the region
    let img = flash.image();
    assert_eq!(&img[CONFIG_START..CONFIG_START + 4], &[0xCF, 0x01, 0x01, 0x00]);
}

#[test]
fn last_of_many_saves_wins() {
    let mut flash = Flash::new_erased();
    for i in 0..300u32 {
        assert!(save_config(&mut flash, &config((i % 256) as u8, i)));
    }
    assert_eq!(load_config(&flash), config((299 % 256) as u8, 299));
}

#[test]
fn reserved_bytes_round_trip() {
    let mut flash = Flash::new_erased();
    let mut c = config(5, 5);
    c._reserved = [9, 8, 7, 6, 5];
    assert_eq!(c.to_bytes()[11..], [9, 8, 7, 6, 5]);
    save_config(&mut flash, &c);
    assert_eq!(load_config(&flash), c);
}

#[test]
fn corrupted_config_entry_falls_back_to_older() {
    let mut flash = Flash::new_erased();
    save_config(&mut flash, &config(1, 1));
    save_config(&mut flash, &config(2, 2));
    let mut img = flash.image().clone();
    // flip a checksum byte of the second entry
    img[CONFIG_START + 32 + 20] ^= 0x01;
    let flash = Flash::from_image(img).unwrap();
    assert_eq!(load_config(&flash), config(1, 1));
}

#[test]
fn invalidated_entry_is_skipped() {
    let mut flash = Flash::new_erased();
    save_config(&mut flash, &config(1, 1));
    let mut img = flash.image().clone();
    img[CONFIG_START + 2] = 0;
    let flash = Flash::from_image(img).unwrap();
    assert_eq!(load_config(&flash), StoredConfig::default());
}

#[test]
fn full_region_is_reclaimed() {
    let mut flash = Flash::new_erased();
    for i in 0..2048u32 {
        assert!(save_config(&mut flash, &config(1, i)));
    }
    assert_eq!(load_config(&flash), config(1, 2047));
    let c = config(77, 123_456);
    assert!(save_config(&mut flash, &c));
    assert_eq!(load_config(&flash), c);
    // every earlier entry is gone: only the new one at offset 0 remains
    let img = flash.image();
    assert_eq!(&img[CONFIG_START..CONFIG_START + 4], &[0xCF, 0x01, 0x01, 0x00]);
    assert!(img[CONFIG_START + 32..CONFIG_START + 0x1_0000].iter().all(|b| *b == 0xFF));
}

#[test]
fn saves_past_capacity_keep_latest() {
    let mut flash = Flash::new_erased();
    for i in 0..2200u32 {
        assert!(save_config(&mut flash, &config((i % 256) as u8, i)));
        if i >= 2040 {
            assert_eq!(load_config(&flash), config((i % 256) as u8, i));
        }
    }
}

#[test]
fn reset_restores_default() {
    let mut flash = Flash::new_erased();
    save_config(&mut flash, &config(9, 9));
    save_config(&mut flash, &config(8, 8));
    assert!(reset_config(&mut flash));
    assert_eq!(load_config(&flash), StoredConfig::default());
    let img = flash.image();
    assert_eq!(img[CONFIG_START + 32], 0xFF);
}
