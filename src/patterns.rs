//! Saved display patterns: eight slots, each an append-only log of 512-byte
//! entries ordered by a 16-bit sequence number.
//!
//! A save appends at the first empty entry of the slot, with the sequence
//! number one above the highest found; when the slot is full it is erased
//! first. The entry with the highest sequence number is the current one.
//!
//! Sequence numbers compare as plain integers: when the counter wraps to 0
//! in a slot that still holds older entries, those keep winning until the
//! slot is erased. The region holds 60 KiB for eight 8 KiB slots, so the
//! last slot has only its first page. All sixteen entries of every slot are
//! searched; those of the last slot past the region read as zeros, so they
//! are never empty and never parse. A save into that slot's entry 7 fails
//! once its header and first frame page are written, as the frame's tail
//! would leave the region; a full last slot is reclaimed by erasing its
//! one page.

use vstd::prelude::*;
use crate::checksum::{byte_of, le16, read_le16, sum16, wrapping_byte_sum};
use crate::flash::{erased, programmed, read_window, Flash, FlashStorage, FLASH_SIZE};
use crate::layout::{PAGE_SIZE, PATTERN_STORAGE_ADDR, PATTERN_STORAGE_SIZE};
use crate::matrix::{grid_leds, Grid, HEIGHT, WIDTH};

verus! {

/// Number of pattern slots.
pub const MAX_PATTERN_SLOTS: usize = 8;

/// Number of frames a stored pattern holds.
pub const MAX_ANIMATION_FRAMES: usize = 16;

/// Size of one frame (`WIDTH * HEIGHT`).
pub const FRAME_SIZE: usize = WIDTH * HEIGHT;

/// Pages per slot.
pub const PAGES_PER_SLOT: usize = 2;

/// Size of a slot: `PAGES_PER_SLOT` pages of `PAGE_SIZE` bytes.
pub const SLOT_SIZE: usize = 8192;

/// Size of one entry: a 32-byte header, then the first frame.
pub const ENTRY_SIZE: usize = 512;

/// Entries per slot that lies wholly in the region: `SLOT_SIZE / ENTRY_SIZE`.
pub const MAX_ENTRIES_PER_SLOT: usize = 16;

/// Size of an entry header.
pub const HEADER_SIZE: usize = 32;

/// First magic byte of a pattern header.
pub const PATTERN_MAGIC_0: u8 = 0xAA;

/// Second magic byte of a pattern header.
pub const PATTERN_MAGIC_1: u8 = 0x01;

/// Value XORed into the byte sum of a frame.
pub const FRAME_CHECKSUM_KEY: u16 = 0xB5B5;

/// Start of the pattern region from the start of the device
/// (`PATTERN_STORAGE_ADDR - FLASH_BASE`).
pub const PATTERN_START: usize = 0xE_0000;

/// Kind of a stored pattern.
#[derive(Clone, Copy, Debug, PartialEq, Eq, Structural)]
pub enum PatternType {
    /// A single static frame.
    Static,
    /// Several frames shown in turn.
    Animation,
}

/// The byte that stores a pattern type.
pub open spec fn pattern_type_byte(t: PatternType) -> u8 {
    match t {
        PatternType::Static => 0,
        PatternType::Animation => 1,
    }
}

impl PatternType {
    /// The byte that stores this type.
    pub fn to_byte(&self) -> (r: u8)
        ensures
            r == pattern_type_byte(*self),
    {
        match self {
            PatternType::Static => 0,
            PatternType::Animation => 1,
        }
    }
}

/// Header of a pattern entry.
#[derive(Clone, Copy, Debug, PartialEq, Eq, Structural)]
pub struct PatternHeader {
    /// Slot index (0-7).
    pub slot: u8,
    /// Static frame or animation.
    pub pattern_type: PatternType,
    /// Number of frames.
    pub frame_count: u8,
    /// Delay between frames in milliseconds.
    pub frame_delay_ms: u8,
    /// Checksum of the frame data.
    pub data_crc: u16,
    /// Sequence number (higher is newer).
    pub sequence: u16,
}

/// The 32 bytes that store header `h`: magic, slot, type, frame count,
/// delay, checksum and sequence little-endian, then erased padding.
pub open spec fn header_bytes(h: PatternHeader) -> Seq<u8> {
    seq![
        PATTERN_MAGIC_0,
        PATTERN_MAGIC_1,
        h.slot,
        pattern_type_byte(h.pattern_type),
        h.frame_count,
        h.frame_delay_ms,
        byte_of(h.data_crc as int, 0),
        byte_of(h.data_crc as int, 1),
        byte_of(h.sequence as int, 0),
        byte_of(h.sequence as int, 1),
    ] + Seq::new(22, |i: int| 0xFFu8)
}

/// The header stored in `b`: `None` if `b` is shorter than 32 bytes, its
/// magic does not match or its type byte is neither 0 nor 1.
pub open spec fn header_from_bytes(b: Seq<u8>) -> Option<PatternHeader> {
    if b.len() < HEADER_SIZE || b[0] != PATTERN_MAGIC_0 || b[1] != PATTERN_MAGIC_1 || b[3] > 1 {
        None
    } else {
        Some(
            PatternHeader {
                slot: b[2],
                pattern_type: if b[3] == 0 {
                    PatternType::Static
                } else {
                    PatternType::Animation
                },
                frame_count: b[4],
                frame_delay_ms: b[5],
                data_crc: le16(b[6], b[7]),
                sequence: le16(b[8], b[9]),
            },
        )
    }
}

impl PatternHeader {
    /// Serializes the header.
    pub fn to_bytes(&self) -> (r: [u8; 32])
        ensures
            r@ == header_bytes(*self),
    {
        let mut bytes = [0xFFu8; 32];
        bytes[0] = PATTERN_MAGIC_0;
        bytes[1] = PATTERN_MAGIC_1;
        bytes[2] = self.slot;
        bytes[3] = self.pattern_type.to_byte();
        bytes[4] = self.frame_count;
        bytes[5] = self.frame_delay_ms;
        bytes[6] = (self.data_crc % 256) as u8;
        bytes[7] = (self.data_crc / 256) as u8;
        bytes[8] = (self.sequence % 256) as u8;
        bytes[9] = (self.sequence / 256) as u8;
        proof {
            reveal_with_fuel(crate::checksum::pow256, 2);
        }
        assert(bytes@ =~= header_bytes(*self));
        bytes
    }

    /// Deserializes a header.
    pub fn from_bytes(bytes: &[u8]) -> (r: Option<Self>)
        ensures
            r == header_from_bytes(bytes@),
    {
        if bytes.len() < HEADER_SIZE {
            return None;
        }
        if bytes[0] != PATTERN_MAGIC_0 || bytes[1] != PATTERN_MAGIC_1 {
            return None;
        }
        let pattern_type = match bytes[3] {
            0 => PatternType::Static,
            1 => PatternType::Animation,
            _ => return None,
        };
        Some(
            PatternHeader {
                slot: bytes[2],
                pattern_type,
                frame_count: bytes[4],
                frame_delay_ms: bytes[5],
                data_crc: read_le16(bytes[6], bytes[7]),
                sequence: read_le16(bytes[8], bytes[9]),
            },
        )
    }
}

/// Checksum of frame data.
pub open spec fn frame_checksum(data: Seq<u8>) -> u16 {
    sum16(data) ^ FRAME_CHECKSUM_KEY
}

/// Checksum of frame data: its 16-bit byte sum XOR `0xB5B5`.
pub fn calculate_crc(data: &[u8]) -> (r: u16)
    ensures
        r == frame_checksum(data@),
{
    wrapping_byte_sum(data) ^ FRAME_CHECKSUM_KEY
}

/// A stored pattern: its header and its frames.
pub struct StoredPattern {
    pub header: PatternHeader,
    pub frames: [[u8; FRAME_SIZE]; MAX_ANIMATION_FRAMES],
}

/// A static pattern's header for slot `slot`, first frame `frame` and
/// sequence number `sequence`.
pub open spec fn static_header(slot: u8, frame: Seq<u8>, sequence: u16) -> PatternHeader {
    PatternHeader {
        slot,
        pattern_type: PatternType::Static,
        frame_count: 1,
        frame_delay_ms: 0,
        data_crc: frame_checksum(frame),
        sequence,
    }
}

/// `FRAME_SIZE` zero bytes.
pub open spec fn zero_frame() -> Seq<u8> {
    Seq::new(FRAME_SIZE as nat, |i: int| 0u8)
}

impl StoredPattern {
    /// A static pattern holding `grid` as its first frame; the other frames
    /// are zero.
    pub fn from_grid(slot: u8, grid: &Grid, sequence: u16) -> (r: Self)
        ensures
            r.header == static_header(slot, grid_leds(*grid), sequence),
            r.frames[0]@ == grid_leds(*grid),
            forall|k: int| 1 <= k < MAX_ANIMATION_FRAMES ==> r.frames[k]@ == zero_frame(),
    {
        let mut frames = [[0u8; FRAME_SIZE]; MAX_ANIMATION_FRAMES];
        let mut frame = [0u8; FRAME_SIZE];
        let mut i: usize = 0;
        while i < FRAME_SIZE
            invariant
                i <= FRAME_SIZE,
                forall|j: int| 0 <= j < i ==> frame@[j] == grid_leds(*grid)[j],
            decreases FRAME_SIZE - i,
        {
            frame[i] = grid.0[i / HEIGHT][i % HEIGHT];
            i = i + 1;
        }
        assert(frame@ =~= grid_leds(*grid));
        assert forall|k: int| 1 <= k < MAX_ANIMATION_FRAMES implies frames[k]@ == zero_frame() by {
            assert(frames[k]@ =~= zero_frame());
        }
        frames[0] = frame;
        let crc = calculate_crc(&frame);
        StoredPattern {
            header: PatternHeader {
                slot,
                pattern_type: PatternType::Static,
                frame_count: 1,
                frame_delay_ms: 0,
                data_crc: crc,
                sequence,
            },
            frames,
        }
    }

    /// The first frame as a grid.
    pub fn first_frame(&self) -> (r: Grid)
        ensures
            forall|x: int, y: int|
                0 <= x < WIDTH && 0 <= y < HEIGHT ==> r.0[x][y] == if 0 < self.header.frame_count {
                    self.frames[0][x * HEIGHT + y]
                } else {
                    0
                },
    {
        self.frame_to_grid(0)
    }

    /// Frame `index` as a grid; an empty grid when the pattern has no such
    /// frame.
    pub fn frame_to_grid(&self, index: usize) -> (r: Grid)
        requires
            index < MAX_ANIMATION_FRAMES || index >= self.header.frame_count,
        ensures
            forall|x: int, y: int|
                0 <= x < WIDTH && 0 <= y < HEIGHT ==> r.0[x][y] == if index
                    < self.header.frame_count {
                    self.frames[index as int][x * HEIGHT + y]
                } else {
                    0
                },
    {
        let mut grid = Grid::default();
        if index < self.header.frame_count as usize {
            let mut x: usize = 0;
            while x < WIDTH
                invariant
                    x <= WIDTH,
                    index < MAX_ANIMATION_FRAMES,
                    forall|a: int, y: int|
                        0 <= a < x && 0 <= y < HEIGHT ==> grid.0[a][y] == self.frames[index as int][a
                            * HEIGHT + y],
                decreases WIDTH - x,
            {
                let mut col = [0u8; HEIGHT];
                let mut y: usize = 0;
                while y < HEIGHT
                    invariant
                        y <= HEIGHT,
                        x < WIDTH,
                        index < MAX_ANIMATION_FRAMES,
                        forall|b: int| 0 <= b < y ==> col[b] == self.frames[index as int][x * HEIGHT
                            + b],
                    decreases HEIGHT - y,
                {
                    col[y] = self.frames[index][x * HEIGHT + y];
                    y = y + 1;
                }
                grid.0[x] = col;
                x = x + 1;
            }
        }
        grid
    }

    /// Whether the pattern is an animation.
    pub fn is_animation(&self) -> (r: bool)
        ensures
            r == (self.header.pattern_type == PatternType::Animation),
    {
        self.header.pattern_type == PatternType::Animation
    }
}

/// What `list_patterns` reports for one slot.
#[derive(Clone, Copy, Debug, PartialEq, Eq, Structural)]
pub struct PatternSlotInfo {
    /// Whether the slot holds a pattern.
    pub occupied: bool,
    /// Pattern type byte (if occupied).
    pub pattern_type: u8,
    /// Number of frames.
    pub frame_count: u8,
    /// Delay between frames in milliseconds.
    pub frame_delay_ms: u8,
}

/// An unoccupied slot's report.
pub open spec fn empty_slot_info() -> PatternSlotInfo {
    PatternSlotInfo { occupied: false, pattern_type: 0, frame_count: 0, frame_delay_ms: 0 }
}

impl Default for PatternSlotInfo {
    fn default() -> (r: Self)
        ensures
            r == empty_slot_info(),
    {
        PatternSlotInfo { occupied: false, pattern_type: 0, frame_count: 0, frame_delay_ms: 0 }
    }
}

/// Offset of slot `slot` in the pattern region.
pub open spec fn slot_base(slot: int) -> int {
    slot * SLOT_SIZE
}

/// Offset of entry `entry` of slot `slot` in the pattern region.
pub open spec fn entry_base(slot: int, entry: int) -> int {
    slot * SLOT_SIZE + entry * ENTRY_SIZE
}

/// Offset of a slot in the pattern region.
fn slot_offset(slot: u8) -> (r: u32)
    requires
        slot < MAX_PATTERN_SLOTS,
    ensures
        r == slot_base(slot as int),
{
    (slot as usize * SLOT_SIZE) as u32
}

/// Offset of an entry of a slot in the pattern region.
fn entry_offset(slot: u8, entry: usize) -> (r: u32)
    requires
        slot < MAX_PATTERN_SLOTS,
        entry < MAX_ENTRIES_PER_SLOT,
    ensures
        r == entry_base(slot as int, entry as int),
{
    slot_offset(slot) + (entry * ENTRY_SIZE) as u32
}

/// `n` zero bytes.
pub open spec fn zeros(n: nat) -> Seq<u8> {
    Seq::new(n, |i: int| 0u8)
}

/// The pattern region's bytes in the device content `m`.
pub open spec fn pattern_region(m: Seq<u8>) -> Seq<u8> {
    m.subrange(PATTERN_START as int, PATTERN_START + PATTERN_STORAGE_SIZE)
}

/// The header that parses from entry `e` of slot `slot` (read into a zeroed
/// buffer, which stays zeroed where the entry lies outside the region).
pub open spec fn header_at(r: Seq<u8>, slot: int, e: int) -> Option<PatternHeader> {
    header_from_bytes(read_window(r, entry_base(slot, e), zeros(32)))
}

/// Entry `e` of slot `slot` is empty: its magic bytes read as erased.
pub open spec fn entry_empty(r: Seq<u8>, slot: int, e: int) -> bool {
    let b = read_window(r, entry_base(slot, e), zeros(2));
    b[0] == 0xFF && b[1] == 0xFF
}

/// Among the first `n` entries of slot `slot`, the one with the highest
/// sequence number (the first such) whose header parses and names the slot:
/// its index and sequence number.
pub open spec fn latest_entry(r: Seq<u8>, slot: u8, n: nat) -> Option<(nat, u16)>
    decreases n,
{
    if n == 0 {
        None
    } else {
        let prev = latest_entry(r, slot, (n - 1) as nat);
        let h = header_at(r, slot as int, n - 1);
        let newer = match prev {
            None => true,
            Some((_, s)) => h->0.sequence > s,
        };
        if h is Some && h->0.slot == slot && newer {
            Some(((n - 1) as nat, h->0.sequence))
        } else {
            prev
        }
    }
}

/// The first empty entry among the first `n` of slot `slot`.
pub open spec fn first_empty_entry(r: Seq<u8>, slot: u8, n: nat) -> Option<nat>
    decreases n,
{
    if n == 0 {
        None
    } else {
        match first_empty_entry(r, slot, (n - 1) as nat) {
            Some(k) => Some(k),
            None => if entry_empty(r, slot as int, n - 1) {
                Some((n - 1) as nat)
            } else {
                None
            },
        }
    }
}

/// Sequence number of the next save into slot `slot`: one above the latest
/// (wrapping), or 1 when the slot holds none.
pub open spec fn next_sequence(r: Seq<u8>, slot: u8) -> u16 {
    match latest_entry(r, slot, MAX_ENTRIES_PER_SLOT as nat) {
        Some((_, s)) => if s == 0xFFFF {
            0
        } else {
            (s + 1) as u16
        },
        None => 1,
    }
}

/// Number of entries of slot `slot` into which a save succeeds: those whose
/// whole write (header, frame and the padding of its last page write) stays
/// in the pattern region.
pub open spec fn slot_capacity(slot: int) -> nat {
    if slot_base(slot) + SLOT_SIZE + 32 <= PATTERN_STORAGE_SIZE {
        MAX_ENTRIES_PER_SLOT as nat
    } else {
        ((PATTERN_STORAGE_SIZE - slot_base(slot) - 544) / ENTRY_SIZE as int + 1) as nat
    }
}

/// Each entry a slot uses lies, with its whole write, in the region.
pub proof fn lemma_slot_capacity(slot: int)
    requires
        0 <= slot < MAX_PATTERN_SLOTS,
    ensures
        1 <= slot_capacity(slot) <= MAX_ENTRIES_PER_SLOT,
        forall|e: int|
            0 <= e < slot_capacity(slot) ==> #[trigger] entry_base(slot, e) + 544
                <= PATTERN_STORAGE_SIZE,
{
}

/// Device content after erasing the pages of slot `slot` that lie in the
/// region: both, or the first only for the slot that runs past its end.
pub open spec fn slot_erased(m: Seq<u8>, slot: int) -> Seq<u8> {
    let m1 = erased(m, PATTERN_START + slot_base(slot), PAGE_SIZE as int);
    if slot_base(slot) + 2 * PAGE_SIZE > PATTERN_STORAGE_SIZE {
        m1
    } else {
        erased(m1, PATTERN_START + slot_base(slot) + PAGE_SIZE, PAGE_SIZE as int)
    }
}

/// The second write of a frame: its last 50 bytes padded with erased bytes
/// to a full page.
pub open spec fn frame_tail(frame: Seq<u8>) -> Seq<u8> {
    frame.subrange(256, FRAME_SIZE as int) + Seq::new(206, |i: int| 0xFFu8)
}

/// Device content after writing an entry with header `h` and first frame
/// `frame` at region offset `o`, and whether all three writes succeeded
/// (the header, the frame's first 256 bytes, then its rest padded to 256).
/// A write that would leave the region fails and stops the sequence.
pub open spec fn entry_written(m: Seq<u8>, o: int, h: PatternHeader, frame: Seq<u8>) -> (
    Seq<u8>,
    bool,
) {
    if o + HEADER_SIZE > PATTERN_STORAGE_SIZE {
        (m, false)
    } else {
        let m1 = programmed(m, PATTERN_START + o, header_bytes(h));
        if o + 288 > PATTERN_STORAGE_SIZE {
            (m1, false)
        } else {
            let m2 = programmed(m1, PATTERN_START + o + 32, frame.subrange(0, 256));
            if o + 544 > PATTERN_STORAGE_SIZE {
                (m2, false)
            } else {
                (programmed(m2, PATTERN_START + o + 288, frame_tail(frame)), true)
            }
        }
    }
}

/// Device content after `save_pattern(slot, g)` on content `m`, and its
/// result.
pub open spec fn pattern_after_save(m: Seq<u8>, slot: u8, g: Grid) -> (Seq<u8>, bool) {
    if slot >= MAX_PATTERN_SLOTS {
        (m, false)
    } else {
        let r = pattern_region(m);
        let h = static_header(slot, grid_leds(g), next_sequence(r, slot));
        match first_empty_entry(r, slot, MAX_ENTRIES_PER_SLOT as nat) {
            Some(e) => entry_written(m, entry_base(slot as int, e as int), h, grid_leds(g)),
            None => entry_written(slot_erased(m, slot as int), slot_base(slot as int), h, grid_leds(g)),
        }
    }
}

/// The first frame read from an entry at region offset `o`: 256 bytes, then
/// the first 50 of the next 256 (each read into a zeroed buffer).
pub open spec fn frame_read(r: Seq<u8>, o: int) -> Seq<u8> {
    read_window(r, o + 32, zeros(256)) + read_window(r, o + 288, zeros(256)).subrange(0, 50)
}

/// What `load_pattern(slot)` finds on device content `m`: the latest
/// entry's header and first frame, if that frame matches the header's
/// checksum.
pub open spec fn loaded_pattern(m: Seq<u8>, slot: u8) -> Option<(PatternHeader, Seq<u8>)> {
    let r = pattern_region(m);
    if slot >= MAX_PATTERN_SLOTS {
        None
    } else {
        match latest_entry(r, slot, MAX_ENTRIES_PER_SLOT as nat) {
            None => None,
            Some((e, _)) => match header_at(r, slot as int, e as int) {
                None => None,
                Some(h) => {
                    let f = frame_read(r, entry_base(slot as int, e as int));
                    if frame_checksum(f) != h.data_crc {
                        None
                    } else {
                        Some((h, f))
                    }
                },
            },
        }
    }
}

/// What `list_patterns` reports for slot `slot` of pattern region `r`.
pub open spec fn slot_info(r: Seq<u8>, slot: u8) -> PatternSlotInfo {
    match latest_entry(r, slot, MAX_ENTRIES_PER_SLOT as nat) {
        None => empty_slot_info(),
        Some((e, _)) => match header_at(r, slot as int, e as int) {
            None => empty_slot_info(),
            Some(h) => PatternSlotInfo {
                occupied: true,
                pattern_type: pattern_type_byte(h.pattern_type),
                frame_count: h.frame_count,
                frame_delay_ms: h.frame_delay_ms,
            },
        },
    }
}

/// The latest entry is one of the entries searched.
pub proof fn lemma_latest_entry_bound(r: Seq<u8>, slot: u8, n: nat)
    ensures
        latest_entry(r, slot, n) matches Some((e, s)) ==> {
            &&& e < n
            &&& header_at(r, slot as int, e as int) is Some
            &&& header_at(r, slot as int, e as int)->0.slot == slot
            &&& header_at(r, slot as int, e as int)->0.sequence == s
        },
    decreases n,
{
    if n > 0 {
        lemma_latest_entry_bound(r, slot, (n - 1) as nat);
    }
}

/// The first empty entry is one of the entries searched.
pub proof fn lemma_first_empty_bound(r: Seq<u8>, slot: u8, n: nat)
    ensures
        first_empty_entry(r, slot, n) matches Some(e) ==> e < n,
    decreases n,
{
    if n > 0 {
        lemma_first_empty_bound(r, slot, (n - 1) as nat);
    }
}

/// A first empty entry found among the first `i` stays the first among more.
proof fn lemma_first_empty_stable(r: Seq<u8>, slot: u8, i: nat, n: nat)
    requires
        i <= n,
        first_empty_entry(r, slot, i) is Some,
    ensures
        first_empty_entry(r, slot, n) == first_empty_entry(r, slot, i),
    decreases n - i,
{
    if i < n {
        lemma_first_empty_stable(r, slot, i, (n - 1) as nat);
    }
}

/// The pattern region as a window.
fn pattern_storage() -> (r: FlashStorage)
    ensures
        r.wf(),
        r.start() == PATTERN_START,
        r.size() == PATTERN_STORAGE_SIZE,
{
    FlashStorage::new(PATTERN_STORAGE_ADDR, PATTERN_STORAGE_SIZE as u32)
}

/// Finds the latest entry of a slot: its index and sequence number.
fn find_latest_entry(storage: &FlashStorage, flash: &Flash, slot: u8) -> (r: Option<(usize, u16)>)
    requires
        flash.wf(),
        storage.wf(),
        storage.start() == PATTERN_START,
        storage.size() == PATTERN_STORAGE_SIZE,
        slot < MAX_PATTERN_SLOTS,
    ensures
        match latest_entry(pattern_region(flash@), slot, MAX_ENTRIES_PER_SLOT as nat) {
            None => r is None,
            Some((e, s)) => r == Some((e as usize, s)),
        },
{
    let ghost reg = pattern_region(flash@);
    assert(storage.region(flash@) == reg);
    let mut latest: Option<(usize, u16)> = None;
    let mut entry: usize = 0;
    while entry < MAX_ENTRIES_PER_SLOT
        invariant
            entry <= MAX_ENTRIES_PER_SLOT,
            slot < MAX_PATTERN_SLOTS,
            storage.wf(),
            flash.wf(),
            reg == storage.region(flash@),
            reg == pattern_region(flash@),
            match latest_entry(reg, slot, entry as nat) {
                None => latest is None,
                Some((e, s)) => latest == Some((e as usize, s)),
            },
        decreases MAX_ENTRIES_PER_SLOT - entry,
    {
        let offset = entry_offset(slot, entry);
        let mut header_bytes = [0u8; 32];
        proof {
            assert(header_bytes@ =~= zeros(32));
        }
        storage.read_at(flash, offset, &mut header_bytes);
        if let Some(header) = PatternHeader::from_bytes(&header_bytes) {
            if header.slot == slot {
                match latest {
                    None => {
                        latest = Some((entry, header.sequence));
                    },
                    Some((_, seq)) => {
                        if header.sequence > seq {
                            latest = Some((entry, header.sequence));
                        }
                    },
                }
            }
        }
        entry = entry + 1;
    }
    latest
}

/// Finds the first empty entry of a slot.
fn find_empty_entry(storage: &FlashStorage, flash: &Flash, slot: u8) -> (r: Option<usize>)
    requires
        flash.wf(),
        storage.wf(),
        storage.start() == PATTERN_START,
        storage.size() == PATTERN_STORAGE_SIZE,
        slot < MAX_PATTERN_SLOTS,
    ensures
        match first_empty_entry(pattern_region(flash@), slot, MAX_ENTRIES_PER_SLOT as nat) {
            None => r is None,
            Some(e) => r == Some(e as usize),
        },
{
    let ghost reg = pattern_region(flash@);
    assert(storage.region(flash@) == reg);
    let mut entry: usize = 0;
    while entry < MAX_ENTRIES_PER_SLOT
        invariant
            entry <= MAX_ENTRIES_PER_SLOT,
            slot < MAX_PATTERN_SLOTS,
            storage.wf(),
            flash.wf(),
            reg == storage.region(flash@),
            reg == pattern_region(flash@),
            first_empty_entry(reg, slot, entry as nat) is None,
        decreases MAX_ENTRIES_PER_SLOT - entry,
    {
        let offset = entry_offset(slot, entry);
        let mut magic = [0u8; 2];
        proof {
            assert(magic@ =~= zeros(2));
        }
        storage.read_at(flash, offset, &mut magic);
        assert(magic@ == read_window(reg, entry_base(slot as int, entry as int), zeros(2)));
        if magic[0] == 0xFF && magic[1] == 0xFF {
            proof {
                assert(entry_empty(reg, slot as int, entry as int));
                assert(first_empty_entry(reg, slot, (entry + 1) as nat) == Some(entry as nat));
                lemma_first_empty_stable(reg, slot, (entry + 1) as nat, MAX_ENTRIES_PER_SLOT as nat);
                assert(first_empty_entry(reg, slot, MAX_ENTRIES_PER_SLOT as nat) == Some(entry as nat));
            }
            return Some(entry);
        }
        entry = entry + 1;
    }
    None
}

/// Writes `pattern`'s header and first frame into entry `entry` of its slot.
fn save_pattern_at_entry(
    storage: &FlashStorage,
    flash: &mut Flash,
    pattern: &StoredPattern,
    entry: usize,
) -> (r: bool)
    requires
        old(flash).wf(),
        storage.wf(),
        storage.start() == PATTERN_START,
        storage.size() == PATTERN_STORAGE_SIZE,
        pattern.header.slot < MAX_PATTERN_SLOTS,
        entry < MAX_ENTRIES_PER_SLOT,
    ensures
        final(flash).wf(),
        (final(flash)@, r) == entry_written(
            old(flash)@,
            entry_base(pattern.header.slot as int, entry as int),
            pattern.header,
            pattern.frames[0]@,
        ),
{
    let offset = entry_offset(pattern.header.slot, entry);
    let header_bytes = pattern.header.to_bytes();
    if storage.write_at(flash, offset, &header_bytes).is_err() {
        return false;
    }
    let frame_offset = offset + 32;
    let first = &pattern.frames[0][0..256];
    assert(first@ == pattern.frames[0]@.subrange(0, 256));
    if storage.write_at(flash, frame_offset, first).is_err() {
        return false;
    }
    let mut remaining = [0xFFu8; 256];
    let mut i: usize = 0;
    while i < 50
        invariant
            i <= 50,
            forall|j: int| 0 <= j < i ==> remaining[j] == pattern.frames[0][256 + j],
            forall|j: int| 50 <= j < 256 ==> remaining[j] == 0xFF,
        decreases 50 - i,
    {
        remaining[i] = pattern.frames[0][256 + i];
        i = i + 1;
    }
    assert(remaining@ =~= frame_tail(pattern.frames[0]@));
    if storage.write_at(flash, frame_offset + 256, &remaining).is_err() {
        return false;
    }
    true
}

/// Erases the pages of a slot that lie in the region.
fn erase_slot(storage: &FlashStorage, flash: &mut Flash, slot: u8) -> (r: bool)
    requires
        old(flash).wf(),
        storage.wf(),
        storage.start() == PATTERN_START,
        storage.size() == PATTERN_STORAGE_SIZE,
        slot < MAX_PATTERN_SLOTS,
    ensures
        r,
        final(flash).wf(),
        final(flash)@ == slot_erased(old(flash)@, slot as int),
{
    let base_offset = slot_offset(slot);
    let pages: usize = if base_offset as usize + PAGES_PER_SLOT * PAGE_SIZE <= PATTERN_STORAGE_SIZE {
        PAGES_PER_SLOT
    } else {
        1
    };
    let mut page: usize = 0;
    while page < pages
        invariant
            page <= pages,
            pages == 1 || pages == 2,
            pages == 2 <==> slot_base(slot as int) + 2 * PAGE_SIZE <= PATTERN_STORAGE_SIZE,
            slot < MAX_PATTERN_SLOTS,
            base_offset == slot_base(slot as int),
            storage.wf(),
            storage.start() == PATTERN_START,
            storage.size() == PATTERN_STORAGE_SIZE,
            flash.wf(),
            page == 0 ==> flash@ == old(flash)@,
            page == 1 ==> flash@ == erased(
                old(flash)@,
                PATTERN_START + slot_base(slot as int),
                PAGE_SIZE as int,
            ),
            page == 2 ==> flash@ == slot_erased(old(flash)@, slot as int),
        decreases pages - page,
    {
        let page_offset = base_offset + (page * PAGE_SIZE) as u32;
        if storage.erase_sector(flash, page_offset).is_err() {
            return false;
        }
        page = page + 1;
    }
    true
}

/// Saves `grid` as a static pattern in slot `slot`, with the next sequence
/// number, at the slot's first empty entry; a full slot is erased first and
/// written from its first entry. Returns `false` for a slot out of range or
/// when a write would leave the region (entry 7 of the last slot, whose
/// header lies in the region but whose frame does not).
pub fn save_pattern(flash: &mut Flash, slot: u8, grid: &Grid) -> (r: bool)
    requires
        old(flash).wf(),
    ensures
        final(flash).wf(),
        (final(flash)@, r) == pattern_after_save(old(flash)@, slot, *grid),
{
    if slot >= MAX_PATTERN_SLOTS as u8 {
        return false;
    }
    let storage = pattern_storage();
    let next_sequence = match find_latest_entry(&storage, flash, slot) {
        Some((_, seq)) => seq.wrapping_add(1),
        None => 1,
    };
    proof {
        lemma_first_empty_bound(pattern_region(flash@), slot, MAX_ENTRIES_PER_SLOT as nat);
    }
    let entry_idx = match find_empty_entry(&storage, flash, slot) {
        Some(idx) => idx,
        None => {
            if !erase_slot(&storage, flash, slot) {
                return false;
            }
            0
        },
    };
    let pattern = StoredPattern::from_grid(slot, grid, next_sequence);
    save_pattern_at_entry(&storage, flash, &pattern, entry_idx)
}

/// Loads the latest pattern of slot `slot`: `None` for a slot out of range,
/// an empty slot, or a first frame that does not match its checksum.
pub fn load_pattern(flash: &Flash, slot: u8) -> (r: Option<StoredPattern>)
    requires
        flash.wf(),
    ensures
        match loaded_pattern(flash@, slot) {
            None => r is None,
            Some((h, f)) => r matches Some(p) && p.header == h && p.frames[0]@ == f && forall|k: int|
                1 <= k < MAX_ANIMATION_FRAMES ==> p.frames[k]@ == zero_frame(),
        },
{
    if slot >= MAX_PATTERN_SLOTS as u8 {
        return None;
    }
    let storage = pattern_storage();
    let ghost reg = pattern_region(flash@);
    assert(storage.region(flash@) == reg);
    proof {
        lemma_latest_entry_bound(reg, slot, MAX_ENTRIES_PER_SLOT as nat);
    }
    let (entry_idx, _) = match find_latest_entry(&storage, flash, slot) {
        Some(p) => p,
        None => return None,
    };
    let offset = entry_offset(slot, entry_idx);
    let mut header_bytes = [0u8; 32];
    assert(header_bytes@ =~= zeros(32));
    storage.read_at(flash, offset, &mut header_bytes);
    let header = match PatternHeader::from_bytes(&header_bytes) {
        Some(h) => h,
        None => return None,
    };
    let mut frames = [[0u8; FRAME_SIZE]; MAX_ANIMATION_FRAMES];
    let frame_offset = offset + 32;
    let mut first = [0u8; 256];
    assert(first@ =~= zeros(256));
    storage.read_at(flash, frame_offset, &mut first);
    let mut remaining = [0u8; 256];
    assert(remaining@ =~= zeros(256));
    storage.read_at(flash, frame_offset + 256, &mut remaining);
    let mut frame = [0u8; FRAME_SIZE];
    let mut i: usize = 0;
    while i < FRAME_SIZE
        invariant
            i <= FRAME_SIZE,
            forall|j: int|
                0 <= j < i ==> frame[j] == if j < 256 {
                    first[j]
                } else {
                    remaining[j - 256]
                },
        decreases FRAME_SIZE - i,
    {
        frame[i] = if i < 256 { first[i] } else { remaining[i - 256] };
        i = i + 1;
    }
    assert(frame@ =~= frame_read(reg, entry_base(slot as int, entry_idx as int)));
    let calc_crc = calculate_crc(&frame);
    if calc_crc != header.data_crc {
        return None;
    }
    assert forall|k: int| 1 <= k < MAX_ANIMATION_FRAMES implies frames[k]@ == zero_frame() by {
        assert(frames[k]@ =~= zero_frame());
    }
    frames[0] = frame;
    Some(StoredPattern { header, frames })
}

/// Device content after `delete_pattern(slot)` on content `m`, and its
/// result.
pub open spec fn pattern_after_delete(m: Seq<u8>, slot: u8) -> (Seq<u8>, bool) {
    if slot >= MAX_PATTERN_SLOTS {
        (m, false)
    } else {
        (slot_erased(m, slot as int), true)
    }
}

/// Erases the pages of slot `slot` that lie in the region. Returns `false`
/// exactly for a slot out of range.
pub fn delete_pattern(flash: &mut Flash, slot: u8) -> (r: bool)
    requires
        old(flash).wf(),
    ensures
        final(flash).wf(),
        r == (slot < MAX_PATTERN_SLOTS),
        (final(flash)@, r) == pattern_after_delete(old(flash)@, slot),
{
    if slot >= MAX_PATTERN_SLOTS as u8 {
        return false;
    }
    let storage = pattern_storage();
    erase_slot(&storage, flash, slot)
}

/// Reports, for each slot, whether it holds a pattern and the latest
/// entry's type, frame count and frame delay.
pub fn list_patterns(flash: &Flash) -> (r: [PatternSlotInfo; MAX_PATTERN_SLOTS])
    requires
        flash.wf(),
    ensures
        forall|s: int|
            0 <= s < MAX_PATTERN_SLOTS ==> r[s] == slot_info(pattern_region(flash@), s as u8),
{
    let mut result = [PatternSlotInfo::default();MAX_PATTERN_SLOTS];
    let storage = pattern_storage();
    let ghost reg = pattern_region(flash@);
    assert(storage.region(flash@) == reg);
    let mut slot: u8 = 0;
    while slot < MAX_PATTERN_SLOTS as u8
        invariant
            slot <= MAX_PATTERN_SLOTS,
            storage.wf(),
            storage.start() == PATTERN_START,
            storage.size() == PATTERN_STORAGE_SIZE,
            flash.wf(),
            reg == storage.region(flash@),
            reg == pattern_region(flash@),
            forall|s: int| 0 <= s < slot ==> result[s] == slot_info(reg, s as u8),
            forall|s: int| slot <= s < MAX_PATTERN_SLOTS ==> result[s] == empty_slot_info(),
        decreases MAX_PATTERN_SLOTS - slot,
    {
        proof {
            lemma_latest_entry_bound(reg, slot, MAX_ENTRIES_PER_SLOT as nat);
        }
        if let Some((entry_idx, _)) = find_latest_entry(&storage, flash, slot) {
            let offset = entry_offset(slot, entry_idx);
            let mut header_bytes = [0u8; 32];
            assert(header_bytes@ =~= zeros(32));
            storage.read_at(flash, offset, &mut header_bytes);
            if let Some(header) = PatternHeader::from_bytes(&header_bytes) {
                result[slot as usize] = PatternSlotInfo {
                    occupied: true,
                    pattern_type: header.pattern_type.to_byte(),
                    frame_count: header.frame_count,
                    frame_delay_ms: header.frame_delay_ms,
                };
            }
        }
        slot = slot + 1;
    }
    result
}

/// End of slot `slot`'s bytes within the pattern region.
pub open spec fn slot_end(slot: int) -> int {
    if slot_base(slot) + SLOT_SIZE <= PATTERN_STORAGE_SIZE {
        slot_base(slot) + SLOT_SIZE
    } else {
        PATTERN_STORAGE_SIZE as int
    }
}

/// Pattern regions `r1` and `r2` agree on slot `slot`'s bytes.
pub open spec fn same_slot_bytes(r1: Seq<u8>, r2: Seq<u8>, slot: int) -> bool {
    &&& r1.len() == PATTERN_STORAGE_SIZE
    &&& r2.len() == PATTERN_STORAGE_SIZE
    &&& forall|j: int| slot_base(slot) <= j < slot_end(slot) ==> r1[j] == r2[j]
}

/// The log of slot `slot` with `k` entries, room for one more: the first
/// `k` entries are taken, everything from entry `k` to the end of the slot
/// is erased, and a whole entry write at entry `k` stays in the region.
pub open spec fn pattern_log_at(r: Seq<u8>, slot: u8, k: nat) -> bool {
    &&& r.len() == PATTERN_STORAGE_SIZE
    &&& slot < MAX_PATTERN_SLOTS
    &&& k < slot_capacity(slot as int)
    &&& forall|e: int| 0 <= e < k ==> !entry_empty(r, slot as int, e)
    &&& crate::flash::is_erased(
        r,
        entry_base(slot as int, k as int),
        slot_end(slot as int) - entry_base(slot as int, k as int),
    )
}

/// A stored header reads back as itself.
pub proof fn lemma_header_round_trip(h: PatternHeader)
    ensures
        header_from_bytes(header_bytes(h)) == Some(h),
{
    crate::checksum::lemma_le16_round_trip(h.data_crc);
    crate::checksum::lemma_le16_round_trip(h.sequence);
}

/// Regions that agree on an entry's header bytes parse the same header there.
proof fn lemma_header_at_same(r1: Seq<u8>, r2: Seq<u8>, slot: int, e: int)
    requires
        0 <= slot,
        0 <= e,
        r1.len() == r2.len(),
        forall|j: int|
            entry_base(slot, e) <= j < entry_base(slot, e) + 32 && j < r1.len() ==> r1[j] == r2[j],
    ensures
        header_at(r1, slot, e) == header_at(r2, slot, e),
{
    let o = entry_base(slot, e);
    if o + 32 <= r1.len() {
        assert(read_window(r1, o, zeros(32)) =~= read_window(r2, o, zeros(32)));
    }
}

/// Regions whose headers agree in presence, slot and sequence on the first
/// `n` entries have the same latest entry.
proof fn lemma_latest_entry_same(r1: Seq<u8>, r2: Seq<u8>, slot: u8, n: nat)
    requires
        forall|e: int|
            0 <= e < n ==> (#[trigger] header_at(r1, slot as int, e) is Some) == header_at(
                r2,
                slot as int,
                e,
            ) is Some,
        forall|e: int|
            0 <= e < n && #[trigger] header_at(r1, slot as int, e) is Some ==> header_at(
                r1,
                slot as int,
                e,
            )->0.slot == header_at(r2, slot as int, e)->0.slot && header_at(
                r1,
                slot as int,
                e,
            )->0.sequence == header_at(r2, slot as int, e)->0.sequence,
    ensures
        latest_entry(r1, slot, n) == latest_entry(r2, slot, n),
    decreases n,
{
    if n > 0 {
        lemma_latest_entry_same(r1, r2, slot, (n - 1) as nat);
        assert(header_at(r1, slot as int, n - 1) is Some == header_at(r2, slot as int, n - 1) is Some);
    }
}

/// Entries `a..n` that parse no header change nothing about the latest one.
proof fn lemma_latest_entry_tail(r: Seq<u8>, slot: u8, a: nat, n: nat)
    requires
        a <= n,
        forall|e: int| a <= e < n ==> #[trigger] header_at(r, slot as int, e) is None,
    ensures
        latest_entry(r, slot, n) == latest_entry(r, slot, a),
    decreases n,
{
    if n > a {
        lemma_latest_entry_tail(r, slot, a, (n - 1) as nat);
    }
}

/// An entry whose first byte lies in the region and is erased parses no
/// header; nor does one whose header lies outside the region.
proof fn lemma_erased_entry_no_header(r: Seq<u8>, slot: int, e: int)
    requires
        0 <= entry_base(slot, e),
        entry_base(slot, e) + 32 <= r.len() ==> r[entry_base(slot, e)] == 0xFF,
    ensures
        header_at(r, slot, e) is None,
{
}

/// The first empty entry is the lowest empty one.
proof fn lemma_first_empty_is(r: Seq<u8>, slot: u8, k: nat, n: nat)
    requires
        k < n,
        entry_empty(r, slot as int, k as int),
        forall|j: int| 0 <= j < k ==> !entry_empty(r, slot as int, j),
    ensures
        first_empty_entry(r, slot, n) == Some(k),
    decreases n,
{
    if n - 1 > k {
        lemma_first_empty_is(r, slot, k, (n - 1) as nat);
    } else {
        lemma_first_empty_none(r, slot, k);
    }
}

/// No empty entry among the first `n`: the search finds none.
proof fn lemma_first_empty_none(r: Seq<u8>, slot: u8, n: nat)
    requires
        forall|j: int| 0 <= j < n ==> !entry_empty(r, slot as int, j),
    ensures
        first_empty_entry(r, slot, n) is None,
    decreases n,
{
    if n > 0 {
        lemma_first_empty_none(r, slot, (n - 1) as nat);
    }
}

/// Writing an entry at `o` changes no byte outside `[o, o + 338)` of the
/// region: past the frame, only erased padding is programmed.
proof fn lemma_entry_written_local(m: Seq<u8>, o: int, h: PatternHeader, f: Seq<u8>, i: int)
    requires
        f.len() == FRAME_SIZE,
        0 <= i < m.len(),
        i < PATTERN_START + o || PATTERN_START + o + 338 <= i,
    ensures
        entry_written(m, o, h, f).0[i] == m[i],
{
    if PATTERN_START + o + 288 <= i < PATTERN_START + o + 544 {
        crate::flash::lemma_program_with_erased(m[i]);
    }
}

/// Saving into slot `t` leaves the bytes of every other slot unchanged.
pub proof fn lemma_save_keeps_other_slots(m: Seq<u8>, t: u8, g: Grid, s: u8)
    requires
        m.len() == FLASH_SIZE,
        s < MAX_PATTERN_SLOTS,
        s != t,
    ensures
        same_slot_bytes(pattern_region(pattern_after_save(m, t, g).0), pattern_region(m), s as int),
{
    let m2 = pattern_after_save(m, t, g).0;
    if t < MAX_PATTERN_SLOTS {
        let r = pattern_region(m);
        let f = grid_leds(g);
        let h = static_header(t, f, next_sequence(r, t));
        lemma_first_empty_bound(r, t, MAX_ENTRIES_PER_SLOT as nat);
        assert forall|j: int| slot_base(s as int) <= j < slot_end(s as int) implies pattern_region(
            m2,
        )[j] == pattern_region(m)[j] by {
            let i = PATTERN_START + j;
            match first_empty_entry(r, t, MAX_ENTRIES_PER_SLOT as nat) {
                Some(e) => {
                    lemma_entry_written_local(m, entry_base(t as int, e as int), h, f, i);
                },
                None => {
                    let m1 = slot_erased(m, t as int);
                    lemma_entry_written_local(m1, slot_base(t as int), h, f, i);
                },
            }
        }
    }
    assert(m2.len() == FLASH_SIZE);
}

/// What `load_pattern(slot)` finds depends on the slot's own bytes only.
pub proof fn lemma_loaded_pattern_local(m1: Seq<u8>, m2: Seq<u8>, slot: u8)
    requires
        m1.len() == FLASH_SIZE,
        m2.len() == FLASH_SIZE,
        slot < MAX_PATTERN_SLOTS,
        same_slot_bytes(pattern_region(m1), pattern_region(m2), slot as int),
    ensures
        loaded_pattern(m1, slot) == loaded_pattern(m2, slot),
{
    let r1 = pattern_region(m1);
    let r2 = pattern_region(m2);
    assert forall|e: int| 0 <= e < MAX_ENTRIES_PER_SLOT implies #[trigger] header_at(
        r1,
        slot as int,
        e,
    ) == header_at(r2, slot as int, e) by {
        lemma_header_at_same(r1, r2, slot as int, e);
    }
    lemma_latest_entry_same(r1, r2, slot, MAX_ENTRIES_PER_SLOT as nat);
    lemma_latest_entry_bound(r1, slot, MAX_ENTRIES_PER_SLOT as nat);
    if let Some((e, _)) = latest_entry(r1, slot, MAX_ENTRIES_PER_SLOT as nat) {
        let o = entry_base(slot as int, e as int);
        if o + 288 <= r1.len() {
            assert(read_window(r1, o + 32, zeros(256)) =~= read_window(r2, o + 32, zeros(256)));
        }
        if o + 544 <= r1.len() {
            assert(read_window(r1, o + 288, zeros(256)).subrange(0, 50) =~= read_window(
                r2,
                o + 288,
                zeros(256),
            ).subrange(0, 50));
        }
        assert(frame_read(r1, o) =~= frame_read(r2, o));
    }
}

/// Saving into one slot does not change what another slot loads.
pub proof fn lemma_pattern_slots_isolated(m: Seq<u8>, t: u8, g: Grid, s: u8)
    requires
        m.len() == FLASH_SIZE,
        s < MAX_PATTERN_SLOTS,
        s != t,
    ensures
        loaded_pattern(pattern_after_save(m, t, g).0, s) == loaded_pattern(m, s),
{
    lemma_save_keeps_other_slots(m, t, g, s);
    lemma_loaded_pattern_local(pattern_after_save(m, t, g).0, m, s);
}

/// The three writes of an entry at `o` onto erased bytes: the header and
/// the frame land as given, and nothing else changes.
proof fn lemma_entry_bytes(r: Seq<u8>, o: int, h: PatternHeader, f: Seq<u8>)
    requires
        f.len() == FRAME_SIZE,
        0 <= o,
        o + 544 <= r.len(),
        forall|j: int| o <= j < o + 338 ==> r[j] == 0xFF,
    ensures
        ({
            let r2 = programmed(
                programmed(programmed(r, o, header_bytes(h)), o + 32, f.subrange(0, 256)),
                o + 288,
                frame_tail(f),
            );
            &&& r2.len() == r.len()
            &&& forall|j: int| o <= j < o + 32 ==> r2[j] == header_bytes(h)[j - o]
            &&& forall|j: int| o + 32 <= j < o + 338 ==> r2[j] == f[j - o - 32]
            &&& forall|j: int| 0 <= j < r.len() && (j < o || o + 338 <= j) ==> r2[j] == r[j]
        }),
{
    let hb = header_bytes(h);
    let r2 = programmed(
        programmed(programmed(r, o, hb), o + 32, f.subrange(0, 256)),
        o + 288,
        frame_tail(f),
    );
    assert forall|j: int| o <= j < o + 32 implies r2[j] == hb[j - o] by {
        crate::flash::lemma_program_erased_byte(hb[j - o]);
        crate::flash::lemma_program_with_erased(hb[j - o]);
    }
    assert forall|j: int| o + 32 <= j < o + 338 implies r2[j] == f[j - o - 32] by {
        crate::flash::lemma_program_erased_byte(f[j - o - 32]);
        crate::flash::lemma_program_with_erased(f[j - o - 32]);
    }
    assert forall|j: int| 0 <= j < r.len() && (j < o || o + 338 <= j) implies r2[j] == r[j] by {
        crate::flash::lemma_program_with_erased(r[j]);
    }
}

/// Writing an entry with header `h` and frame `f` at entry `k` of a slot
/// log with `k` entries succeeds, and the slot then loads as `h` and `f`
/// when `h` names the slot, carries `f`'s checksum and a sequence number
/// above that of the slot's latest entry.
#[verifier::rlimit(40)]
proof fn lemma_entry_written_loads(m: Seq<u8>, slot: u8, k: nat, h: PatternHeader, f: Seq<u8>)
    requires
        m.len() == FLASH_SIZE,
        pattern_log_at(pattern_region(m), slot, k),
        h.slot == slot,
        f.len() == FRAME_SIZE,
        h.data_crc == frame_checksum(f),
        latest_entry(pattern_region(m), slot, k) matches Some((_, s)) ==> h.sequence > s,
    ensures
        entry_written(m, entry_base(slot as int, k as int), h, f).1,
        loaded_pattern(entry_written(m, entry_base(slot as int, k as int), h, f).0, slot) == Some(
            (h, f),
        ),
{
    let r = pattern_region(m);
    let o = entry_base(slot as int, k as int);
    let hb = header_bytes(h);
    let m2 = entry_written(m, o, h, f).0;
    let r2 = pattern_region(m2);
    lemma_slot_capacity(slot as int);
    assert(o + 544 <= PATTERN_STORAGE_SIZE);
    assert(o + 338 <= slot_end(slot as int));
    assert(r2 =~= programmed(
        programmed(programmed(r, o, hb), o + 32, f.subrange(0, 256)),
        o + 288,
        frame_tail(f),
    ));
    assert forall|j: int| o <= j < o + 338 implies r[j] == 0xFF by {}
    lemma_entry_bytes(r, o, h, f);
    // the new entry
    assert(read_window(r2, o, zeros(32)) =~= hb);
    lemma_header_round_trip(h);
    assert(header_at(r2, slot as int, k as int) == Some(h));
    assert(frame_read(r2, o) =~= f);
    // the entries before it are unchanged
    assert forall|e: int| 0 <= e < k implies #[trigger] header_at(r2, slot as int, e) == header_at(
        r,
        slot as int,
        e,
    ) by {
        lemma_header_at_same(r2, r, slot as int, e);
    }
    lemma_latest_entry_same(r2, r, slot, k);
    // the entries after it are erased or outside the region
    assert forall|e: int| k < e < MAX_ENTRIES_PER_SLOT as nat implies #[trigger] header_at(
        r2,
        slot as int,
        e,
    ) is None by {
        lemma_erased_entry_no_header(r2, slot as int, e);
    }
    lemma_latest_entry_tail(r2, slot, k + 1, MAX_ENTRIES_PER_SLOT as nat);
}

/// Saving a grid into a slot whose log has a free entry, erased to the end
/// of the slot, then loading the slot, gives back the grid as a static
/// pattern with the next sequence number. This needs the next sequence
/// number not to wrap to 0: a wrapped number is not above the older ones.
pub proof fn lemma_pattern_round_trip(m: Seq<u8>, slot: u8, g: Grid)
    requires
        m.len() == FLASH_SIZE,
        exists|k: nat| pattern_log_at(pattern_region(m), slot, k),
        next_sequence(pattern_region(m), slot) != 0,
    ensures
        pattern_after_save(m, slot, g).1,
        loaded_pattern(pattern_after_save(m, slot, g).0, slot) == Some(
            (
                static_header(slot, grid_leds(g), next_sequence(pattern_region(m), slot)),
                grid_leds(g),
            ),
        ),
{
    let k = choose|k: nat| pattern_log_at(pattern_region(m), slot, k);
    let r = pattern_region(m);
    let o = entry_base(slot as int, k as int);
    let f = grid_leds(g);
    let h = static_header(slot, f, next_sequence(r, slot));
    assert(read_window(r, o, zeros(2)) =~= r.subrange(o, o + 2));
    lemma_first_empty_is(r, slot, k, MAX_ENTRIES_PER_SLOT as nat);
    assert forall|e: int| k <= e < MAX_ENTRIES_PER_SLOT implies #[trigger] header_at(
        r,
        slot as int,
        e,
    ) is None by {
        lemma_erased_entry_no_header(r, slot as int, e);
    }
    lemma_latest_entry_tail(r, slot, k, MAX_ENTRIES_PER_SLOT as nat);
    lemma_entry_written_loads(m, slot, k, h, f);
}

/// Saving a grid into a full slot (one with no empty entry) erases the
/// slot's pages in the region, writes its first entry, and the slot then
/// loads as that grid, whatever the sequence number, also one that wrapped
/// past `0xFFFF` to 0.
pub proof fn lemma_pattern_full_slot_restarts(m: Seq<u8>, slot: u8, g: Grid)
    requires
        m.len() == FLASH_SIZE,
        slot < MAX_PATTERN_SLOTS,
        first_empty_entry(pattern_region(m), slot, MAX_ENTRIES_PER_SLOT as nat) is None,
    ensures
        pattern_after_save(m, slot, g).1,
        loaded_pattern(pattern_after_save(m, slot, g).0, slot) == Some(
            (
                static_header(slot, grid_leds(g), next_sequence(pattern_region(m), slot)),
                grid_leds(g),
            ),
        ),
{
    let r = pattern_region(m);
    let f = grid_leds(g);
    let h = static_header(slot, f, next_sequence(r, slot));
    let m1 = slot_erased(m, slot as int);
    let r1 = pattern_region(m1);
    assert forall|j: int| slot_base(slot as int) <= j < slot_end(slot as int) implies r1[j]
        == 0xFF by {}
    assert(pattern_log_at(r1, slot, 0));
    lemma_entry_written_loads(m1, slot, 0, h, f);
}

/// Index of the latest entry of slot `slot` (0 when it has none).
pub open spec fn latest_entry_index(r: Seq<u8>, slot: u8) -> nat {
    match latest_entry(r, slot, MAX_ENTRIES_PER_SLOT as nat) {
        Some((e, _)) => e,
        None => 0,
    }
}

/// Changing a byte of the checksum field in the header of the entry that a
/// slot loads from makes the slot load nothing: the latest entry is still
/// chosen, and its frame no longer matches its checksum.
pub proof fn lemma_corrupt_checksum_loads_none(m: Seq<u8>, slot: u8, b: int, v: u8)
    requires
        m.len() == FLASH_SIZE,
        loaded_pattern(m, slot) is Some,
        b == entry_base(slot as int, latest_entry_index(pattern_region(m), slot) as int) + 6 || b
            == entry_base(slot as int, latest_entry_index(pattern_region(m), slot) as int) + 7,
        v != pattern_region(m)[b],
    ensures
        loaded_pattern(m.update(PATTERN_START + b, v), slot) is None,
{
    let r = pattern_region(m);
    let m2 = m.update(PATTERN_START + b, v);
    let r2 = pattern_region(m2);
    assert(r2 =~= r.update(b, v));
    lemma_latest_entry_bound(r, slot, MAX_ENTRIES_PER_SLOT as nat);
    let e = latest_entry_index(r, slot);
    let o = entry_base(slot as int, e as int);
    let h = header_at(r, slot as int, e as int)->0;
    assert(o + 32 <= r.len());
    let hb = read_window(r, o, zeros(32));
    let hb2 = read_window(r2, o, zeros(32));
    assert(hb2 =~= hb.update(b - o, v));
    let h2 = header_at(r2, slot as int, e as int)->0;
    assert(header_at(r2, slot as int, e as int) is Some);
    assert(h2.data_crc != h.data_crc);
    assert forall|x: int| 0 <= x < MAX_ENTRIES_PER_SLOT && x != e implies #[trigger] header_at(
        r2,
        slot as int,
        x,
    ) == header_at(r, slot as int, x) by {
        lemma_header_at_same(r2, r, slot as int, x);
    }
    lemma_latest_entry_same(r2, r, slot, MAX_ENTRIES_PER_SLOT as nat);
    if o + 288 <= r.len() {
        assert(read_window(r2, o + 32, zeros(256)) =~= read_window(r, o + 32, zeros(256)));
    }
    if o + 544 <= r.len() {
        assert(read_window(r2, o + 288, zeros(256)) =~= read_window(r, o + 288, zeros(256)));
    }
    assert(frame_read(r2, o) =~= frame_read(r, o));
}

/// A save into slot `slot` of region `r` loads back: the slot is full
/// (the save reclaims it), or its log has a free entry with everything
/// after it erased and the next sequence number does not wrap to 0.
pub open spec fn slot_ready(r: Seq<u8>, slot: u8) -> bool {
    ||| first_empty_entry(r, slot, MAX_ENTRIES_PER_SLOT as nat) is None
    ||| (exists|k: nat| pattern_log_at(r, slot, k)) && next_sequence(r, slot) != 0
}

/// Saving a grid into a ready slot succeeds, and the slot then loads as
/// that grid, a static pattern with the next sequence number.
pub proof fn lemma_pattern_save_load(m: Seq<u8>, slot: u8, g: Grid)
    requires
        m.len() == FLASH_SIZE,
        slot < MAX_PATTERN_SLOTS,
        slot_ready(pattern_region(m), slot),
    ensures
        pattern_after_save(m, slot, g).1,
        loaded_pattern(pattern_after_save(m, slot, g).0, slot) == Some(
            (
                static_header(slot, grid_leds(g), next_sequence(pattern_region(m), slot)),
                grid_leds(g),
            ),
        ),
{
    if first_empty_entry(pattern_region(m), slot, MAX_ENTRIES_PER_SLOT as nat) is None {
        lemma_pattern_full_slot_restarts(m, slot, g);
    } else {
        lemma_pattern_round_trip(m, slot, g);
    }
}

/// Whether a slot is ready, and its next sequence number, depend on the
/// slot's own bytes only.
proof fn lemma_slot_state_local(r1: Seq<u8>, r2: Seq<u8>, slot: u8)
    requires
        slot < MAX_PATTERN_SLOTS,
        same_slot_bytes(r1, r2, slot as int),
    ensures
        first_empty_entry(r1, slot, MAX_ENTRIES_PER_SLOT as nat) == first_empty_entry(
            r2,
            slot,
            MAX_ENTRIES_PER_SLOT as nat,
        ),
        next_sequence(r1, slot) == next_sequence(r2, slot),
        forall|k: nat| pattern_log_at(r1, slot, k) ==> pattern_log_at(r2, slot, k),
        slot_ready(r1, slot) ==> slot_ready(r2, slot),
{
    let n = MAX_ENTRIES_PER_SLOT as nat;
    assert forall|e: int| 0 <= e < MAX_ENTRIES_PER_SLOT implies #[trigger] header_at(
        r1,
        slot as int,
        e,
    ) == header_at(r2, slot as int, e) by {
        lemma_header_at_same(r1, r2, slot as int, e);
    }
    assert forall|e: int| 0 <= e < MAX_ENTRIES_PER_SLOT implies #[trigger] entry_empty(
        r1,
        slot as int,
        e,
    ) == entry_empty(r2, slot as int, e) by {
        let o = entry_base(slot as int, e);
        if o + 2 <= r1.len() {
            assert(read_window(r1, o, zeros(2)) =~= read_window(r2, o, zeros(2)));
        }
    }
    lemma_first_empty_same(r1, r2, slot, n);
    lemma_latest_entry_same(r1, r2, slot, n);
    assert forall|k: nat| pattern_log_at(r1, slot, k) implies pattern_log_at(r2, slot, k) by {
        assert forall|e: int| 0 <= e < k implies !entry_empty(r2, slot as int, e) by {
            assert(!entry_empty(r1, slot as int, e));
        }
        assert forall|j: int|
            entry_base(slot as int, k as int) <= j < entry_base(slot as int, k as int) + (slot_end(
                slot as int,
            ) - entry_base(slot as int, k as int)) implies r2[j] == 0xFF by {
            assert(r1[j] == 0xFF);
        }
    }
}

/// Regions whose entries agree in being empty have the same first empty
/// entry.
proof fn lemma_first_empty_same(r1: Seq<u8>, r2: Seq<u8>, slot: u8, n: nat)
    requires
        forall|e: int| 0 <= e < n ==> #[trigger] entry_empty(r1, slot as int, e) == entry_empty(
            r2,
            slot as int,
            e,
        ),
    ensures
        first_empty_entry(r1, slot, n) == first_empty_entry(r2, slot, n),
    decreases n,
{
    if n > 0 {
        lemma_first_empty_same(r1, r2, slot, (n - 1) as nat);
        assert(entry_empty(r1, slot as int, n - 1) == entry_empty(r2, slot as int, n - 1));
    }
}

/// Saving one grid into slot 0 and another into slot 1, both ready, then
/// loading each slot gives back its own grid.
pub proof fn lemma_two_slots_keep_their_grids(m: Seq<u8>, a: Grid, b: Grid)
    requires
        m.len() == FLASH_SIZE,
        slot_ready(pattern_region(m), 0),
        slot_ready(pattern_region(m), 1),
    ensures
        ({
            let m1 = pattern_after_save(m, 0, a);
            let m2 = pattern_after_save(m1.0, 1, b);
            &&& m1.1
            &&& m2.1
            &&& loaded_pattern(m2.0, 0) == Some(
                (
                    static_header(0, grid_leds(a), next_sequence(pattern_region(m), 0)),
                    grid_leds(a),
                ),
            )
            &&& loaded_pattern(m2.0, 1) == Some(
                (
                    static_header(1, grid_leds(b), next_sequence(pattern_region(m), 1)),
                    grid_leds(b),
                ),
            )
        }),
{
    let m1 = pattern_after_save(m, 0, a).0;
    lemma_pattern_save_load(m, 0, a);
    lemma_save_keeps_other_slots(m, 0, a, 1);
    assert(m1.len() == FLASH_SIZE);
    lemma_slot_state_local(pattern_region(m), pattern_region(m1), 1);
    lemma_pattern_save_load(m1, 1, b);
    lemma_pattern_slots_isolated(m1, 1, b, 0);
}

/// Saving a grid into a ready slot, then changing a byte of the checksum
/// field of the entry just written, makes the slot load nothing.
pub proof fn lemma_saved_then_corrupted_loads_none(m: Seq<u8>, slot: u8, g: Grid, b: int, v: u8)
    requires
        m.len() == FLASH_SIZE,
        slot < MAX_PATTERN_SLOTS,
        slot_ready(pattern_region(m), slot),
        ({
            let r2 = pattern_region(pattern_after_save(m, slot, g).0);
            let o = entry_base(slot as int, latest_entry_index(r2, slot) as int);
            (b == o + 6 || b == o + 7) && v != r2[b]
        }),
    ensures
        loaded_pattern(pattern_after_save(m, slot, g).0.update(PATTERN_START + b, v), slot) is None,
{
    lemma_pattern_save_load(m, slot, g);
    let m2 = pattern_after_save(m, slot, g).0;
    assert(m2.len() == FLASH_SIZE);
    lemma_corrupt_checksum_loads_none(m2, slot, b, v);
}

} // verus!
