//! Fixed placement of the record regions in flash.

use vstd::prelude::*;

verus! {

/// Flash page size as seen by the stores (4 KiB).
pub const PAGE_SIZE: usize = 4096;

/// Flash sector size (4 KiB, same as a page).
pub const SECTOR_SIZE: usize = 4096;

/// Pattern region start address.
pub const PATTERN_STORAGE_ADDR: u32 = 0x100E_0000;

/// Pattern region size (60 KiB = 15 pages).
pub const PATTERN_STORAGE_SIZE: usize = 0xF000;

/// Config region start address.
pub const CONFIG_STORAGE_ADDR: u32 = 0x100E_F000;

/// Config region size (64 KiB = 16 pages).
pub const CONFIG_STORAGE_SIZE: usize = 0x1_0000;

} // verus!
