//! The NOR flash device and bounds-checked windows over it.
//!
//! Programming can only clear bits (a byte becomes `old & new`); erasing a
//! sector sets every byte in it back to `0xFF`.

use vstd::prelude::*;

verus! {

/// Address at which the flash is mapped (XIP region).
pub const FLASH_BASE: u32 = 0x1000_0000;

/// Program granularity: at most this many bytes are programmed per write.
pub const FLASH_PAGE_SIZE: usize = 256;

/// Erase granularity.
pub const FLASH_SECTOR_SIZE: usize = 4096;

/// Total size of the flash device (2 MiB).
pub const FLASH_SIZE: usize = 0x20_0000;

/// Value of an erased byte.
pub const ERASED: u8 = 0xFF;

/// `m` after programming `data` at `off`: each covered byte keeps only the
/// bits set in both the old and the new value.
pub open spec fn programmed(m: Seq<u8>, off: int, data: Seq<u8>) -> Seq<u8> {
    Seq::new(
        m.len(),
        |i: int|
            if off <= i < off + data.len() {
                m[i] & data[i - off]
            } else {
                m[i]
            },
    )
}

/// `m` after erasing the `len` bytes at `off`.
pub open spec fn erased(m: Seq<u8>, off: int, len: int) -> Seq<u8> {
    Seq::new(m.len(), |i: int| if off <= i < off + len { ERASED } else { m[i] })
}

/// Whether the `len` bytes of `m` at `off` are all erased.
pub open spec fn is_erased(m: Seq<u8>, off: int, len: int) -> bool {
    forall|i: int| off <= i < off + len ==> m[i] == ERASED
}

/// Programming a byte that is still erased stores the new value unchanged.
pub proof fn lemma_program_erased_byte(b: u8)
    ensures
        ERASED & b == b,
{
    assert(0xFFu8 & b == b) by (bit_vector);
}

/// Programming `0xFF` leaves a byte unchanged.
pub proof fn lemma_program_with_erased(b: u8)
    ensures
        b & ERASED == b,
{
    assert(b & 0xFFu8 == b) by (bit_vector);
}

/// The whole content of the flash device.
pub struct Flash {
    data: Vec<u8>,
}

impl View for Flash {
    type V = Seq<u8>;

    closed spec fn view(&self) -> Seq<u8> {
        self.data@
    }
}

impl Flash {
    /// The device holds exactly `FLASH_SIZE` bytes.
    pub open spec fn wf(&self) -> bool {
        self@.len() == FLASH_SIZE
    }

    /// A device that is erased throughout.
    pub fn new_erased() -> (r: Flash)
        ensures
            r.wf(),
            is_erased(r@, 0, FLASH_SIZE as int),
    {
        let mut data: Vec<u8> = Vec::with_capacity(FLASH_SIZE);
        while data.len() < FLASH_SIZE
            invariant
                data.len() <= FLASH_SIZE,
                is_erased(data@, 0, data.len() as int),
            decreases FLASH_SIZE - data.len(),
        {
            data.push(ERASED);
        }
        Flash { data }
    }

    /// A device holding `image`, which must be exactly one device in size.
    pub fn from_image(image: Vec<u8>) -> (r: Option<Flash>)
        ensures
            r is Some <==> image@.len() == FLASH_SIZE,
            r matches Some(f) ==> f@ == image@,
    {
        if image.len() == FLASH_SIZE {
            Some(Flash { data: image })
        } else {
            None
        }
    }

    /// The device's content.
    pub fn image(&self) -> (r: &Vec<u8>)
        ensures
            r@ == self@,
    {
        &self.data
    }

    /// Programs the first `len` bytes of `bytes` at `addr`.
    fn program(&mut self, addr: usize, bytes: &[u8], len: usize)
        requires
            old(self).wf(),
            len <= bytes@.len(),
            addr + len <= FLASH_SIZE,
        ensures
            final(self).wf(),
            final(self)@ == programmed(old(self)@, addr as int, bytes@.subrange(0, len as int)),
    {
        let ghost data = bytes@.subrange(0, len as int);
        let mut i: usize = 0;
        while i < len
            invariant
                i <= len,
                len <= bytes@.len(),
                addr + len <= FLASH_SIZE,
                data == bytes@.subrange(0, len as int),
                self.data@.len() == FLASH_SIZE,
                self@ == programmed(old(self)@, addr as int, data.subrange(0, i as int)),
            decreases len - i,
        {
            let v = self.data[addr + i] & bytes[i];
            self.data.set(addr + i, v);
            i = i + 1;
            assert(self@ =~= programmed(old(self)@, addr as int, data.subrange(0, i as int)));
        }
        assert(data.subrange(0, len as int) =~= data);
    }

    /// Erases the `len` bytes at `addr`.
    fn erase(&mut self, addr: usize, len: usize)
        requires
            old(self).wf(),
            addr + len <= FLASH_SIZE,
        ensures
            final(self).wf(),
            final(self)@ == erased(old(self)@, addr as int, len as int),
    {
        let mut i: usize = 0;
        while i < len
            invariant
                i <= len,
                addr + len <= FLASH_SIZE,
                self.data@.len() == FLASH_SIZE,
                self@ == erased(old(self)@, addr as int, i as int),
            decreases len - i,
        {
            self.data.set(addr + i, ERASED);
            i = i + 1;
            assert(self@ =~= erased(old(self)@, addr as int, i as int));
        }
    }
}

/// Error of a flash window operation.
#[derive(Clone, Copy, Debug, PartialEq, Eq, Structural)]
pub enum FlashError {
    /// Operation would exceed the window's bounds.
    OutOfBounds,
    /// Offset not aligned to a sector.
    NotAligned,
}

/// A bounds-checked window `[start_offset, start_offset + size)` of the device.
pub struct FlashStorage {
    /// Start offset from `FLASH_BASE`.
    start_offset: u32,
    /// Size of the window in bytes.
    size: u32,
}

/// What a read of `buf.len()` bytes at `off` of `region` leaves in `buf`: the
/// bytes read, or `buf` unchanged when the read would leave the region.
pub open spec fn read_window(region: Seq<u8>, off: int, buf: Seq<u8>) -> Seq<u8> {
    if off + buf.len() <= region.len() {
        region.subrange(off, off + buf.len())
    } else {
        buf
    }
}

impl FlashStorage {
    /// Start of the window, from the start of the device.
    pub closed spec fn start(&self) -> nat {
        self.start_offset as nat
    }

    /// Size of the window.
    pub closed spec fn size(&self) -> nat {
        self.size as nat
    }

    /// The window lies within the device.
    pub open spec fn wf(&self) -> bool {
        self.start() + self.size() <= FLASH_SIZE
    }

    /// The bytes of `m` that the window covers.
    pub open spec fn region(&self, m: Seq<u8>) -> Seq<u8> {
        m.subrange(self.start() as int, (self.start() + self.size()) as int)
    }

    /// A window of `size` bytes at absolute address `start_addr`.
    pub fn new(start_addr: u32, size: u32) -> (r: Self)
        requires
            start_addr >= FLASH_BASE,
            start_addr - FLASH_BASE + size <= FLASH_SIZE,
        ensures
            r.wf(),
            r.start() == start_addr - FLASH_BASE,
            r.size() == size,
    {
        let start_offset = start_addr - FLASH_BASE;
        FlashStorage { start_offset, size }
    }

    /// Offset from the start of the device of `offset` in the window.
    fn flash_offset(&self, offset: u32) -> (r: usize)
        requires
            self.wf(),
            offset <= self.size(),
        ensures
            r == self.start() + offset,
    {
        self.start_offset as usize + offset as usize
    }

    /// Size of the window in bytes.
    pub fn capacity(&self) -> (r: usize)
        ensures
            r == self.size(),
    {
        self.size as usize
    }

    /// Fills `bytes` from `offset`; leaves it unchanged if the read would
    /// leave the window.
    pub fn read_at(&self, flash: &Flash, offset: u32, bytes: &mut [u8])
        requires
            self.wf(),
            flash.wf(),
        ensures
            final(bytes)@ == read_window(self.region(flash@), offset as int, old(bytes)@),
    {
        if offset > self.size || bytes.len() > (self.size - offset) as usize {
            return;
        }
        let base = self.flash_offset(offset);
        let n = bytes.len();
        let mut i: usize = 0;
        while i < n
            invariant
                i <= n,
                n == bytes@.len(),
                base == self.start() + offset,
                offset + n <= self.size(),
                self.wf(),
                flash.wf(),
                forall|j: int| 0 <= j < i ==> bytes@[j] == flash@[base + j],
            decreases n - i,
        {
            bytes[i] = flash.data[base + i];
            i = i + 1;
        }
        assert(bytes@ =~= self.region(flash@).subrange(offset as int, offset + n));
    }

    /// Programs up to one page of `bytes` (the rest is dropped) at `offset`.
    /// Programming can only clear bits, so the target should be erased.
    pub fn write_at(&self, flash: &mut Flash, offset: u32, bytes: &[u8]) -> (r: Result<(), FlashError>)
        requires
            self.wf(),
            old(flash).wf(),
        ensures
            final(flash).wf(),
            offset + bytes@.len() > self.size() ==> r == Err::<(), FlashError>(FlashError::OutOfBounds)
                && final(flash)@ == old(flash)@,
            offset + bytes@.len() <= self.size() ==> r is Ok && final(flash)@ == programmed(
                old(flash)@,
                self.start() + offset,
                page_prefix(bytes@),
            ),
    {
        if offset > self.size || bytes.len() > (self.size - offset) as usize {
            return Err(FlashError::OutOfBounds);
        }
        let addr = self.flash_offset(offset);
        let len = if bytes.len() < FLASH_PAGE_SIZE { bytes.len() } else { FLASH_PAGE_SIZE };
        flash.program(addr, bytes, len);
        Ok(())
    }

    /// Erases the sector at `offset`, which must be sector-aligned.
    pub fn erase_sector(&self, flash: &mut Flash, offset: u32) -> (r: Result<(), FlashError>)
        requires
            self.wf(),
            old(flash).wf(),
        ensures
            final(flash).wf(),
            r == sector_erase_result(self.size(), offset as int),
            r is Ok ==> final(flash)@ == erased(old(flash)@, self.start() + offset, FLASH_SECTOR_SIZE as int),
            r is Err ==> final(flash)@ == old(flash)@,
    {
        if offset > self.size || FLASH_SECTOR_SIZE > (self.size - offset) as usize {
            return Err(FlashError::OutOfBounds);
        }
        if offset as usize % FLASH_SECTOR_SIZE != 0 {
            return Err(FlashError::NotAligned);
        }
        let addr = self.flash_offset(offset);
        flash.erase(addr, FLASH_SECTOR_SIZE);
        Ok(())
    }
}

/// The part of `data` that one write programs: its first page at most.
pub open spec fn page_prefix(data: Seq<u8>) -> Seq<u8> {
    if data.len() <= FLASH_PAGE_SIZE {
        data
    } else {
        data.subrange(0, FLASH_PAGE_SIZE as int)
    }
}

/// Outcome of erasing the sector at `offset` in a window of `size` bytes.
pub open spec fn sector_erase_result(size: nat, offset: int) -> Result<(), FlashError> {
    if offset + FLASH_SECTOR_SIZE > size {
        Err(FlashError::OutOfBounds)
    } else if offset % (FLASH_SECTOR_SIZE as int) != 0 {
        Err(FlashError::NotAligned)
    } else {
        Ok(())
    }
}

} // verus!
