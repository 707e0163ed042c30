//! Device configuration kept as an append-only log of 32-byte entries.
//!
//! Each save appends an entry at the first free slot; when no slot is free,
//! the whole region is erased and the log restarts at offset 0, so each
//! sector is erased once per full pass over the region.
//! The latest valid entry in address order is the current configuration.

use vstd::prelude::*;
use crate::checksum::{byte_of, le16, le32, read_le16, read_le32, sum16, wrapping_byte_sum};
use crate::flash::{erased, programmed, Flash, FlashStorage, FLASH_SIZE};
use crate::layout::{CONFIG_STORAGE_ADDR, CONFIG_STORAGE_SIZE, PAGE_SIZE};

verus! {

/// Configuration format version.
pub const CONFIG_VERSION: u8 = 1;

/// Default brightness (0-255).
pub const DEFAULT_BRIGHTNESS: u8 = 51;

/// Default sleep timeout in seconds.
pub const DEFAULT_SLEEP_TIMEOUT_SECS: u16 = 60;

/// Default animation period in microseconds (32 frames per second).
pub const DEFAULT_ANIMATION_PERIOD_US: u32 = 31_250;

/// Default PWM frequency setting.
pub const DEFAULT_PWM_FREQ: u8 = 0;

/// No startup pattern selected (use the built-in animation).
pub const NO_STARTUP_PATTERN: u8 = 0xFF;

/// Size of one log entry.
pub const CONFIG_ENTRY_SIZE: usize = 32;

/// Size of the serialized configuration.
pub const CONFIG_PAYLOAD_SIZE: usize = 16;

/// Number of entries in the config region.
pub const CONFIG_ENTRIES: usize = CONFIG_STORAGE_SIZE / CONFIG_ENTRY_SIZE;

/// First magic byte of a config entry.
pub const CONFIG_MAGIC_0: u8 = 0xCF;

/// Second magic byte of a config entry.
pub const CONFIG_MAGIC_1: u8 = 0x01;

/// Value XORed into the byte sum of the payload.
pub const CONFIG_CHECKSUM_KEY: u16 = 0xA5A5;

/// Start of the config region from the start of the device
/// (`CONFIG_STORAGE_ADDR - FLASH_BASE`).
pub const CONFIG_START: usize = 0xE_F000;

/// Persistent device settings.
#[derive(Clone, Copy, Debug, Eq)]
pub struct StoredConfig {
    /// Format version.
    pub version: u8,
    /// Default brightness (0-255).
    pub brightness: u8,
    /// Sleep timeout in seconds (0 = disabled).
    pub sleep_timeout_secs: u16,
    /// Animation period in microseconds.
    pub animation_period_us: u32,
    /// PWM frequency setting.
    pub pwm_freq: u8,
    /// Play the built-in animation at startup.
    pub startup_animation: bool,
    /// Pattern slot shown at startup (`NO_STARTUP_PATTERN` = none).
    pub startup_pattern_idx: u8,
    /// Reserved for later use; stored and read back as is.
    pub _reserved: [u8; 5],
}

/// Five zero bytes: the default configuration's reserved field.
pub open spec fn zero_reserved() -> [u8; 5] {
    vstd::array::spec_array_fill_for_copy_type::<u8, 5>(0u8)
}

impl PartialEq for StoredConfig {
    fn eq(&self, o: &StoredConfig) -> (r: bool) {
        let r = self.version == o.version && self.brightness == o.brightness && self.sleep_timeout_secs
            == o.sleep_timeout_secs && self.animation_period_us == o.animation_period_us
            && self.pwm_freq == o.pwm_freq && self.startup_animation == o.startup_animation
            && self.startup_pattern_idx == o.startup_pattern_idx && self._reserved[0]
            == o._reserved[0] && self._reserved[1] == o._reserved[1] && self._reserved[2]
            == o._reserved[2] && self._reserved[3] == o._reserved[3] && self._reserved[4]
            == o._reserved[4];
        proof {
            if r {
                assert(self._reserved =~= o._reserved);
            }
        }
        r
    }
}

impl vstd::std_specs::cmp::PartialEqSpecImpl for StoredConfig {
    open spec fn obeys_eq_spec() -> bool {
        true
    }

    open spec fn eq_spec(&self, o: &StoredConfig) -> bool {
        *self == *o
    }
}

/// The configuration used when none is stored.
pub open spec fn default_config() -> StoredConfig {
    StoredConfig {
        version: CONFIG_VERSION,
        brightness: DEFAULT_BRIGHTNESS,
        sleep_timeout_secs: DEFAULT_SLEEP_TIMEOUT_SECS,
        animation_period_us: DEFAULT_ANIMATION_PERIOD_US,
        pwm_freq: DEFAULT_PWM_FREQ,
        startup_animation: true,
        startup_pattern_idx: NO_STARTUP_PATTERN,
        _reserved: zero_reserved(),
    }
}

impl Default for StoredConfig {
    fn default() -> (r: Self)
        ensures
            r == default_config(),
    {
        StoredConfig {
            version: CONFIG_VERSION,
            brightness: DEFAULT_BRIGHTNESS,
            sleep_timeout_secs: DEFAULT_SLEEP_TIMEOUT_SECS,
            animation_period_us: DEFAULT_ANIMATION_PERIOD_US,
            pwm_freq: DEFAULT_PWM_FREQ,
            startup_animation: true,
            startup_pattern_idx: NO_STARTUP_PATTERN,
            _reserved: [0u8; 5],
        }
    }
}

/// The 16 bytes that store `c`: the fields in order, integers little-endian,
/// the flag as 0 or 1, then the five reserved bytes.
pub open spec fn config_payload(c: StoredConfig) -> Seq<u8> {
    seq![
        c.version,
        c.brightness,
        byte_of(c.sleep_timeout_secs as int, 0),
        byte_of(c.sleep_timeout_secs as int, 1),
        byte_of(c.animation_period_us as int, 0),
        byte_of(c.animation_period_us as int, 1),
        byte_of(c.animation_period_us as int, 2),
        byte_of(c.animation_period_us as int, 3),
        c.pwm_freq,
        if c.startup_animation { 1u8 } else { 0u8 },
        c.startup_pattern_idx,
        c._reserved[0],
        c._reserved[1],
        c._reserved[2],
        c._reserved[3],
        c._reserved[4],
    ]
}

/// The five bytes `b[11..16]` as an array.
pub open spec fn reserved_from(b: Seq<u8>) -> [u8; 5] {
    choose|a: [u8; 5]| a@ == b.subrange(11, 16)
}

/// The configuration stored in `b`, if `b` is long enough and of the
/// current version.
pub open spec fn config_from_payload(b: Seq<u8>) -> Option<StoredConfig> {
    if b.len() < CONFIG_PAYLOAD_SIZE || b[0] != CONFIG_VERSION {
        None
    } else {
        Some(
            StoredConfig {
                version: b[0],
                brightness: b[1],
                sleep_timeout_secs: le16(b[2], b[3]),
                animation_period_us: le32(b[4], b[5], b[6], b[7]),
                pwm_freq: b[8],
                startup_animation: b[9] != 0,
                startup_pattern_idx: b[10],
                _reserved: reserved_from(b),
            },
        )
    }
}

/// Checksum of a config payload.
pub open spec fn config_checksum(payload: Seq<u8>) -> u16 {
    sum16(payload) ^ CONFIG_CHECKSUM_KEY
}

impl StoredConfig {
    /// Serializes the configuration.
    pub fn to_bytes(&self) -> (r: [u8; 16])
        ensures
            r@ == config_payload(*self),
    {
        let mut bytes = [0u8; 16];
        bytes[0] = self.version;
        bytes[1] = self.brightness;
        bytes[2] = (self.sleep_timeout_secs % 256) as u8;
        bytes[3] = (self.sleep_timeout_secs / 256) as u8;
        bytes[4] = (self.animation_period_us % 256) as u8;
        bytes[5] = (self.animation_period_us / 0x100 % 256) as u8;
        bytes[6] = (self.animation_period_us / 0x1_0000 % 256) as u8;
        bytes[7] = (self.animation_period_us / 0x100_0000 % 256) as u8;
        bytes[8] = self.pwm_freq;
        bytes[9] = if self.startup_animation { 1 } else { 0 };
        bytes[10] = self.startup_pattern_idx;
        bytes[11] = self._reserved[0];
        bytes[12] = self._reserved[1];
        bytes[13] = self._reserved[2];
        bytes[14] = self._reserved[3];
        bytes[15] = self._reserved[4];
        proof {
            reveal_with_fuel(crate::checksum::pow256, 4);
        }
        assert(bytes@ =~= config_payload(*self));
        bytes
    }

    /// Deserializes a configuration; `None` if `bytes` is shorter than 16
    /// bytes or of another version.
    pub fn from_bytes(bytes: &[u8]) -> (r: Option<Self>)
        ensures
            r == config_from_payload(bytes@),
    {
        if bytes.len() < CONFIG_PAYLOAD_SIZE {
            return None;
        }
        let version = bytes[0];
        if version != CONFIG_VERSION {
            return None;
        }
        let reserved = [bytes[11], bytes[12], bytes[13], bytes[14], bytes[15]];
        proof {
            let b = bytes@;
            assert(reserved@ =~= b.subrange(11, 16));
            let a = reserved_from(b);
            assert(a@ == b.subrange(11, 16));
            assert(a =~= reserved);
        }
        Some(
            StoredConfig {
                version,
                brightness: bytes[1],
                sleep_timeout_secs: read_le16(bytes[2], bytes[3]),
                animation_period_us: read_le32(bytes[4], bytes[5], bytes[6], bytes[7]),
                pwm_freq: bytes[8],
                startup_animation: bytes[9] != 0,
                startup_pattern_idx: bytes[10],
                _reserved: reserved,
            },
        )
    }
}

/// Checksum of a config payload: its 16-bit byte sum XOR `0xA5A5`.
pub fn calculate_checksum(data: &[u8]) -> (r: u16)
    ensures
        r == config_checksum(data@),
{
    wrapping_byte_sum(data) ^ CONFIG_CHECKSUM_KEY
}

/// The 32 bytes of an entry that stores `c`: magic, valid marker, a reserved
/// zero, the payload, its checksum little-endian, then erased padding.
pub open spec fn config_entry(c: StoredConfig) -> Seq<u8> {
    let ck = config_checksum(config_payload(c));
    seq![CONFIG_MAGIC_0, CONFIG_MAGIC_1, 1u8, 0u8] + config_payload(c) + seq![
        byte_of(ck as int, 0),
        byte_of(ck as int, 1),
    ] + Seq::new(10, |i: int| 0xFFu8)
}

/// The configuration that a 32-byte entry holds, if it is valid: the magic
/// matches, the valid marker is not zero, the payload is of the current
/// version and the stored checksum matches it.
pub open spec fn config_from_entry(e: Seq<u8>) -> Option<StoredConfig> {
    let payload = e.subrange(4, 20);
    if e[0] == CONFIG_MAGIC_0 && e[1] == CONFIG_MAGIC_1 && e[2] != 0 && le16(e[20], e[21])
        == config_checksum(payload) {
        config_from_payload(payload)
    } else {
        None
    }
}

/// The config region's bytes in the device content `m`.
pub open spec fn config_region(m: Seq<u8>) -> Seq<u8> {
    m.subrange(CONFIG_START as int, CONFIG_START + CONFIG_STORAGE_SIZE)
}

/// Entry `k` of a config region.
pub open spec fn config_entry_at(r: Seq<u8>, k: int) -> Seq<u8> {
    r.subrange(k * 32, k * 32 + 32)
}

/// Entry `k` of a config region is free: its magic bytes are erased.
pub open spec fn config_slot_free(r: Seq<u8>, k: int) -> bool {
    r[k * 32] == 0xFF && r[k * 32 + 1] == 0xFF
}

/// The last valid entry among the first `n` of a config region: its index
/// and the configuration it holds.
pub open spec fn latest_config(r: Seq<u8>, n: nat) -> Option<(nat, StoredConfig)>
    decreases n,
{
    if n == 0 {
        None
    } else {
        match config_from_entry(config_entry_at(r, n - 1)) {
            Some(c) => Some(((n - 1) as nat, c)),
            None => latest_config(r, (n - 1) as nat),
        }
    }
}

/// The first free entry among the first `n` of a config region.
pub open spec fn first_free_config(r: Seq<u8>, n: nat) -> Option<nat>
    decreases n,
{
    if n == 0 {
        None
    } else {
        match first_free_config(r, (n - 1) as nat) {
            Some(k) => Some(k),
            None => if config_slot_free(r, n - 1) {
                Some((n - 1) as nat)
            } else {
                None
            },
        }
    }
}

/// The configuration that `load_config` returns on device content `m`.
pub open spec fn loaded_config(m: Seq<u8>) -> StoredConfig {
    match latest_config(config_region(m), CONFIG_ENTRIES as nat) {
        Some((_, c)) => c,
        None => default_config(),
    }
}

/// Device content after `save_config(c)` on content `m`: the entry for `c`
/// programmed at the first free slot or, when none is free, at offset 0
/// after the whole region was erased.
pub open spec fn config_after_save(m: Seq<u8>, c: StoredConfig) -> Seq<u8> {
    match first_free_config(config_region(m), CONFIG_ENTRIES as nat) {
        Some(k) => programmed(m, CONFIG_START + 32 * k, config_entry(c)),
        None => programmed(
            erased(m, CONFIG_START as int, CONFIG_STORAGE_SIZE as int),
            CONFIG_START as int,
            config_entry(c),
        ),
    }
}

/// A first free slot found among the first `i` entries stays the first
/// among more.
pub proof fn lemma_first_free_stable(r: Seq<u8>, i: nat, n: nat)
    requires
        i <= n,
        first_free_config(r, i) is Some,
    ensures
        first_free_config(r, n) == first_free_config(r, i),
    decreases n - i,
{
    if i < n {
        lemma_first_free_stable(r, i, (n - 1) as nat);
    }
}

/// The first free slot is one of the slots searched, and it is free.
pub proof fn lemma_first_free_found(r: Seq<u8>, n: nat)
    ensures
        first_free_config(r, n) matches Some(k) ==> k < n && config_slot_free(r, k as int),
    decreases n,
{
    if n > 0 {
        lemma_first_free_found(r, (n - 1) as nat);
    }
}

/// The config region as a window.
fn config_storage() -> (r: FlashStorage)
    ensures
        r.wf(),
        r.start() == CONFIG_START,
        r.size() == CONFIG_STORAGE_SIZE,
{
    FlashStorage::new(CONFIG_STORAGE_ADDR, CONFIG_STORAGE_SIZE as u32)
}

/// Finds the last valid config entry: its offset and configuration.
fn find_latest_config(flash: &Flash) -> (r: Option<(usize, StoredConfig)>)
    requires
        flash.wf(),
    ensures
        match latest_config(config_region(flash@), CONFIG_ENTRIES as nat) {
            None => r is None,
            Some((k, c)) => r == Some(((32 * k) as usize, c)),
        },
{
    let storage = config_storage();
    let ghost reg = config_region(flash@);
    assert(storage.region(flash@) == reg);
    let mut latest: Option<(usize, StoredConfig)> = None;
    let mut entry_idx: usize = 0;
    while entry_idx < CONFIG_ENTRIES
        invariant
            entry_idx <= CONFIG_ENTRIES,
            storage.wf(),
            flash.wf(),
            storage.start() == CONFIG_START,
            storage.size() == CONFIG_STORAGE_SIZE,
            reg == storage.region(flash@),
            reg.len() == CONFIG_STORAGE_SIZE,
            match latest_config(reg, entry_idx as nat) {
                None => latest is None,
                Some((k, c)) => latest == Some(((32 * k) as usize, c)),
            },
        decreases CONFIG_ENTRIES - entry_idx,
    {
        let offset = entry_idx * CONFIG_ENTRY_SIZE;
        let mut entry = [0u8; 32];
        storage.read_at(flash, offset as u32, &mut entry);
        assert(entry@ == config_entry_at(reg, entry_idx as int));
        if entry[0] == CONFIG_MAGIC_0 && entry[1] == CONFIG_MAGIC_1 {
            if entry[2] != 0x00 {
                let payload = &entry[4..20];
                assert(payload@ == entry@.subrange(4, 20));
                if let Some(config) = StoredConfig::from_bytes(payload) {
                    let stored_checksum = read_le16(entry[20], entry[21]);
                    let calc_checksum = calculate_checksum(payload);
                    if stored_checksum == calc_checksum {
                        latest = Some((offset, config));
                    }
                }
            }
        }
        entry_idx = entry_idx + 1;
    }
    latest
}

/// Finds the offset of the first free config entry.
fn find_free_slot(flash: &Flash) -> (r: Option<usize>)
    requires
        flash.wf(),
    ensures
        match first_free_config(config_region(flash@), CONFIG_ENTRIES as nat) {
            None => r is None,
            Some(k) => r == Some((32 * k) as usize),
        },
{
    let storage = config_storage();
    let ghost reg = config_region(flash@);
    assert(storage.region(flash@) == reg);
    let mut entry_idx: usize = 0;
    while entry_idx < CONFIG_ENTRIES
        invariant
            entry_idx <= CONFIG_ENTRIES,
            storage.wf(),
            flash.wf(),
            storage.start() == CONFIG_START,
            storage.size() == CONFIG_STORAGE_SIZE,
            reg == storage.region(flash@),
            reg.len() == CONFIG_STORAGE_SIZE,
            first_free_config(reg, entry_idx as nat) is None,
        decreases CONFIG_ENTRIES - entry_idx,
    {
        let offset = entry_idx * CONFIG_ENTRY_SIZE;
        let mut magic = [0u8; 2];
        storage.read_at(flash, offset as u32, &mut magic);
        assert(magic@ == reg.subrange(offset as int, offset + 2));
        if magic[0] == 0xFF && magic[1] == 0xFF {
            proof {
                lemma_first_free_stable(reg, (entry_idx + 1) as nat, CONFIG_ENTRIES as nat);
            }
            return Some(offset);
        }
        entry_idx = entry_idx + 1;
    }
    None
}

/// Loads the current configuration: the last valid entry's, or the default
/// when no entry is valid.
pub fn load_config(flash: &Flash) -> (r: StoredConfig)
    requires
        flash.wf(),
    ensures
        r == loaded_config(flash@),
{
    match find_latest_config(flash) {
        Some((_, config)) => config,
        None => StoredConfig::default(),
    }
}

/// Builds the entry that stores `config`.
fn build_config_entry(config: &StoredConfig) -> (r: [u8; 32])
    ensures
        r@ == config_entry(*config),
{
    let mut entry = [0xFFu8; 32];
    entry[0] = CONFIG_MAGIC_0;
    entry[1] = CONFIG_MAGIC_1;
    entry[2] = 0x01;
    entry[3] = 0x00;
    let config_bytes = config.to_bytes();
    let mut i: usize = 0;
    while i < CONFIG_PAYLOAD_SIZE
        invariant
            i <= CONFIG_PAYLOAD_SIZE,
            config_bytes@ == config_payload(*config),
            entry@.subrange(0, 4) == seq![CONFIG_MAGIC_0, CONFIG_MAGIC_1, 1u8, 0u8],
            forall|j: int| 0 <= j < i ==> entry@[4 + j] == config_bytes@[j],
            forall|j: int| 20 <= j < 32 ==> entry@[j] == 0xFF,
        decreases CONFIG_PAYLOAD_SIZE - i,
    {
        entry[4 + i] = config_bytes[i];
        i = i + 1;
    }
    let checksum = calculate_checksum(&config_bytes);
    entry[20] = (checksum % 256) as u8;
    entry[21] = (checksum / 256) as u8;
    proof {
        reveal_with_fuel(crate::checksum::pow256, 2);
    }
    assert(entry@ =~= config_entry(*config));
    entry
}

/// Erases every sector of the config region.
fn erase_config_region(storage: &FlashStorage, flash: &mut Flash) -> (r: bool)
    requires
        old(flash).wf(),
        storage.wf(),
        storage.start() == CONFIG_START,
        storage.size() == CONFIG_STORAGE_SIZE,
    ensures
        r,
        final(flash).wf(),
        final(flash)@ == erased(old(flash)@, CONFIG_START as int, CONFIG_STORAGE_SIZE as int),
{
    let total_pages = CONFIG_STORAGE_SIZE / PAGE_SIZE;
    let mut page: usize = 0;
    while page < total_pages
        invariant
            page <= total_pages,
            total_pages == 16,
            storage.wf(),
            storage.start() == CONFIG_START,
            storage.size() == CONFIG_STORAGE_SIZE,
            flash.wf(),
            flash@ == erased(old(flash)@, CONFIG_START as int, page * PAGE_SIZE),
        decreases total_pages - page,
    {
        let page_offset = (page * PAGE_SIZE) as u32;
        if storage.erase_sector(flash, page_offset).is_err() {
            return false;
        }
        page = page + 1;
        assert(flash@ =~= erased(old(flash)@, CONFIG_START as int, page * PAGE_SIZE));
    }
    true
}

/// Appends an entry for `config` at the first free slot; when none is free,
/// erases the whole region (every prior entry is lost) and writes at
/// offset 0. Returns whether the flash operations succeeded (always, for
/// this fixed region).
pub fn save_config(flash: &mut Flash, config: &StoredConfig) -> (r: bool)
    requires
        old(flash).wf(),
    ensures
        r,
        final(flash).wf(),
        final(flash)@ == config_after_save(old(flash)@, *config),
{
    let storage = config_storage();
    proof {
        lemma_first_free_found(config_region(flash@), CONFIG_ENTRIES as nat);
    }
    let offset = match find_free_slot(flash) {
        Some(off) => off,
        None => {
            if !erase_config_region(&storage, flash) {
                return false;
            }
            0
        },
    };
    let entry = build_config_entry(config);
    assert(offset + 32 <= CONFIG_STORAGE_SIZE);
    let res = storage.write_at(flash, offset as u32, &entry);
    res.is_ok()
}

/// Erases the whole config region, then saves the default configuration.
pub fn reset_config(flash: &mut Flash) -> (r: bool)
    requires
        old(flash).wf(),
    ensures
        r,
        final(flash).wf(),
        final(flash)@ == config_after_save(
            erased(old(flash)@, CONFIG_START as int, CONFIG_STORAGE_SIZE as int),
            default_config(),
        ),
{
    let storage = config_storage();
    if !erase_config_region(&storage, flash) {
        return false;
    }
    save_config(flash, &StoredConfig::default())
}

/// The config log with `k` entries: the first `k` slots are taken and every
/// byte from slot `k` on is erased.
pub open spec fn config_log_at(r: Seq<u8>, k: nat) -> bool {
    &&& r.len() == CONFIG_STORAGE_SIZE
    &&& k <= CONFIG_ENTRIES
    &&& forall|j: int| 0 <= j < k ==> !config_slot_free(r, j)
    &&& crate::flash::is_erased(r, 32 * k as int, CONFIG_STORAGE_SIZE - 32 * k)
}

/// A configuration that `load_config` can return: of the current version.
pub open spec fn config_storable(c: StoredConfig) -> bool {
    c.version == CONFIG_VERSION
}

/// Device content after saving each of `cs` in turn, starting from `m`.
pub open spec fn configs_after_saves(m: Seq<u8>, cs: Seq<StoredConfig>) -> Seq<u8>
    decreases cs.len(),
{
    if cs.len() == 0 {
        m
    } else {
        config_after_save(configs_after_saves(m, cs.drop_last()), cs.last())
    }
}

/// The first free slot is the lowest free one.
proof fn lemma_first_free_is(r: Seq<u8>, k: nat, n: nat)
    requires
        k < n,
        config_slot_free(r, k as int),
        forall|j: int| 0 <= j < k ==> !config_slot_free(r, j),
    ensures
        first_free_config(r, n) == Some(k),
    decreases n,
{
    if n - 1 > k {
        lemma_first_free_is(r, k, (n - 1) as nat);
    } else {
        lemma_first_free_none(r, k);
    }
}

/// No slot is free among the first `n` exactly when the search finds none.
proof fn lemma_first_free_none(r: Seq<u8>, n: nat)
    requires
        forall|j: int| 0 <= j < n ==> !config_slot_free(r, j),
    ensures
        first_free_config(r, n) is None,
    decreases n,
{
    if n > 0 {
        lemma_first_free_none(r, (n - 1) as nat);
    }
}

/// No valid entry among the first `n`: none is found.
proof fn lemma_latest_none(r: Seq<u8>, n: nat)
    requires
        forall|j: int| 0 <= j < n ==> config_from_entry(#[trigger] config_entry_at(r, j)) is None,
    ensures
        latest_config(r, n) is None,
    decreases n,
{
    if n > 0 {
        lemma_latest_none(r, (n - 1) as nat);
    }
}

/// Entry `k` is valid and none after it among the first `n` is: entry `k`
/// is the latest.
proof fn lemma_latest_is(r: Seq<u8>, k: nat, n: nat)
    requires
        k < n,
        config_from_entry(config_entry_at(r, k as int)) is Some,
        forall|j: int| k < j < n ==> config_from_entry(#[trigger] config_entry_at(r, j)) is None,
    ensures
        latest_config(r, n) == Some((k, config_from_entry(config_entry_at(r, k as int))->0)),
    decreases n,
{
    if n - 1 > k {
        lemma_latest_is(r, k, (n - 1) as nat);
    }
}

/// An entry whose magic is erased is not valid.
proof fn lemma_free_entry_invalid(r: Seq<u8>, j: int)
    requires
        0 <= j,
        32 * j + 32 <= r.len(),
        r[32 * j] == 0xFF,
    ensures
        config_from_entry(config_entry_at(r, j)) is None,
{
    assert(config_entry_at(r, j)[0] == r[32 * j]);
}

/// The entry written for a storable configuration decodes to it.
pub proof fn lemma_config_entry_decodes(c: StoredConfig)
    requires
        config_storable(c),
    ensures
        config_from_entry(config_entry(c)) == Some(c),
{
    let e = config_entry(c);
    let p = config_payload(c);
    assert(e.subrange(4, 20) =~= p);
    crate::checksum::lemma_le16_round_trip(config_checksum(p));
    crate::checksum::lemma_le16_round_trip(c.sleep_timeout_secs);
    crate::checksum::lemma_le32_round_trip(c.animation_period_us);
    assert(c._reserved@ =~= p.subrange(11, 16));
    let d = config_from_payload(p)->0;
    assert(d._reserved =~= c._reserved);
    assert(d == c);
}

/// Programming a storable configuration's entry into erased slot `k` of
/// the log with `k` entries gives the log with `k + 1` entries, whose
/// latest entry holds it.
proof fn lemma_save_appends(m: Seq<u8>, k: nat, c: StoredConfig)
    requires
        m.len() == FLASH_SIZE,
        config_log_at(config_region(m), k),
        k < CONFIG_ENTRIES,
        config_storable(c),
    ensures
        config_after_save(m, c) == programmed(m, CONFIG_START + 32 * k, config_entry(c)),
        config_log_at(config_region(config_after_save(m, c)), k + 1),
        latest_config(config_region(config_after_save(m, c)), CONFIG_ENTRIES as nat) == Some(
            (k, c),
        ),
{
    let r = config_region(m);
    lemma_first_free_is(r, k, CONFIG_ENTRIES as nat);
    let m2 = programmed(m, CONFIG_START + 32 * k, config_entry(c));
    let r2 = config_region(m2);
    let e = config_entry(c);
    assert(r2 =~= programmed(r, 32 * k as int, e));
    assert forall|i: int| 32 * k <= i < 32 * k + 32 implies r2[i] == e[i - 32 * k] by {
        crate::flash::lemma_program_erased_byte(e[i - 32 * k]);
    }
    assert(config_entry_at(r2, k as int) =~= e);
    lemma_config_entry_decodes(c);
    assert forall|j: int| k < j < CONFIG_ENTRIES implies config_from_entry(
        #[trigger] config_entry_at(r2, j),
    ) is None by {
        lemma_free_entry_invalid(r2, j);
    }
    lemma_latest_is(r2, k, CONFIG_ENTRIES as nat);
    assert(!config_slot_free(r2, k as int));
    assert forall|j: int| 0 <= j < k + 1 implies !config_slot_free(r2, j) by {
        if j < k {
            assert(!config_slot_free(r, j));
        }
    }
}

/// Saving into a full log erases the whole region first, so it acts as a
/// save into an empty log.
proof fn lemma_save_into_full(m: Seq<u8>, c: StoredConfig)
    requires
        m.len() == FLASH_SIZE,
        forall|j: int| 0 <= j < CONFIG_ENTRIES ==> !config_slot_free(config_region(m), j),
    ensures
        config_after_save(m, c) == config_after_save(
            erased(m, CONFIG_START as int, CONFIG_STORAGE_SIZE as int),
            c,
        ),
        config_log_at(
            config_region(erased(m, CONFIG_START as int, CONFIG_STORAGE_SIZE as int)),
            0,
        ),
{
    let me = erased(m, CONFIG_START as int, CONFIG_STORAGE_SIZE as int);
    lemma_first_free_none(config_region(m), CONFIG_ENTRIES as nat);
    let re = config_region(me);
    assert forall|i: int| 0 <= i < CONFIG_STORAGE_SIZE implies re[i] == 0xFF by {}
    lemma_first_free_is(re, 0, CONFIG_ENTRIES as nat);
}

/// One save of a storable configuration into the log with `k` entries
/// gives the log with one entry more, or, from a full log, the log with one
/// entry; either way its latest entry holds the saved configuration.
proof fn lemma_save_next(m: Seq<u8>, k: nat, c: StoredConfig)
    requires
        m.len() == FLASH_SIZE,
        config_log_at(config_region(m), k),
        config_storable(c),
    ensures
        config_after_save(m, c).len() == FLASH_SIZE,
        config_log_at(
            config_region(config_after_save(m, c)),
            if k < CONFIG_ENTRIES {
                k + 1
            } else {
                1
            },
        ),
        latest_config(config_region(config_after_save(m, c)), CONFIG_ENTRIES as nat) == Some(
            (
                if k < CONFIG_ENTRIES {
                    k
                } else {
                    0
                },
                c,
            ),
        ),
{
    if k < CONFIG_ENTRIES {
        lemma_save_appends(m, k, c);
    } else {
        lemma_save_into_full(m, c);
        lemma_save_appends(erased(m, CONFIG_START as int, CONFIG_STORAGE_SIZE as int), 0, c);
    }
}

/// Saving a storable configuration into a well-formed log (its used slots
/// first, everything after them erased), then loading, gives that
/// configuration back; a full log counts as well formed.
pub proof fn lemma_config_round_trip(m: Seq<u8>, c: StoredConfig)
    requires
        m.len() == FLASH_SIZE,
        exists|k: nat| config_log_at(config_region(m), k),
        config_storable(c),
    ensures
        loaded_config(config_after_save(m, c)) == c,
{
    let k = choose|k: nat| config_log_at(config_region(m), k);
    lemma_save_next(m, k, c);
}

/// A config region that is erased throughout loads as the default.
pub proof fn lemma_erased_config_is_default(m: Seq<u8>)
    requires
        m.len() == FLASH_SIZE,
        crate::flash::is_erased(config_region(m), 0, CONFIG_STORAGE_SIZE as int),
    ensures
        loaded_config(m) == default_config(),
{
    let r = config_region(m);
    assert forall|j: int| 0 <= j < CONFIG_ENTRIES implies config_from_entry(
        #[trigger] config_entry_at(r, j),
    ) is None by {
        lemma_free_entry_invalid(r, j);
    }
    lemma_latest_none(r, CONFIG_ENTRIES as nat);
}

/// The entry count after one more save, for the `n`-th save with `n >= 2`.
proof fn lemma_log_count_step(n: int)
    requires
        n >= 2,
    ensures
        ((n - 2) % 2048 + 1 < 2048 ==> (n - 2) % 2048 + 2 == (n - 1) % 2048 + 1),
        ((n - 2) % 2048 + 1 >= 2048 ==> 1 == (n - 1) % 2048 + 1),
{
}

/// After any number `n >= 1` of saves on an erased config region, the log
/// holds `(n - 1) % CONFIG_ENTRIES + 1` entries and loads as the last saved
/// value.
pub proof fn lemma_config_latest_save_wins(m: Seq<u8>, cs: Seq<StoredConfig>)
    requires
        m.len() == FLASH_SIZE,
        crate::flash::is_erased(config_region(m), 0, CONFIG_STORAGE_SIZE as int),
        1 <= cs.len(),
        forall|i: int| 0 <= i < cs.len() ==> config_storable(#[trigger] cs[i]),
    ensures
        configs_after_saves(m, cs).len() == FLASH_SIZE,
        config_log_at(
            config_region(configs_after_saves(m, cs)),
            ((cs.len() - 1) % (CONFIG_ENTRIES as int) + 1) as nat,
        ),
        loaded_config(configs_after_saves(m, cs)) == cs.last(),
    decreases cs.len(),
{
    let prev = cs.drop_last();
    let mp = configs_after_saves(m, prev);
    let k: nat = if cs.len() == 1 {
        0
    } else {
        ((prev.len() - 1) % (CONFIG_ENTRIES as int) + 1) as nat
    };
    if cs.len() == 1 {
        assert(prev.len() == 0);
        assert(mp == m);
        assert(config_log_at(config_region(m), 0));
    } else {
        assert forall|i: int| 0 <= i < prev.len() implies config_storable(#[trigger] prev[i]) by {
            assert(prev[i] == cs[i]);
        }
        lemma_config_latest_save_wins(m, prev);
        lemma_log_count_step(cs.len() as int);
    }
    lemma_save_next(mp, k, cs.last());
}

/// Saving into a full config log (no free slot) erases the whole region,
/// so no earlier entry survives, and loading afterwards gives the newly
/// saved value.
pub proof fn lemma_config_full_log_restarts(m: Seq<u8>, c: StoredConfig)
    requires
        m.len() == FLASH_SIZE,
        forall|j: int| 0 <= j < CONFIG_ENTRIES ==> !config_slot_free(config_region(m), j),
        config_storable(c),
    ensures
        config_after_save(m, c) == programmed(
            erased(m, CONFIG_START as int, CONFIG_STORAGE_SIZE as int),
            CONFIG_START as int,
            config_entry(c),
        ),
        loaded_config(config_after_save(m, c)) == c,
{
    lemma_first_free_none(config_region(m), CONFIG_ENTRIES as nat);
    lemma_save_into_full(m, c);
    lemma_save_appends(erased(m, CONFIG_START as int, CONFIG_STORAGE_SIZE as int), 0, c);
}

} // verus!
