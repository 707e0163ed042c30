//! Firmware version as reported to the USB host.

use vstd::prelude::*;

verus! {

/// The USB device release number of version `major.minor.patch`:
/// `0xJJMN` for major `JJ`, minor `M` and patch `N`, i.e.
/// `(major << 8) + (minor << 4) + patch` on 16 bits.
pub open spec fn release_number(major: u16, minor: u16, patch: u16) -> int {
    (major * 256) % 0x1_0000 + (minor * 16) % 0x1_0000 + patch
}

/// The device release number of version `major.minor.patch`; the parts must
/// fit the 16-bit result.
pub fn device_release(major: u16, minor: u16, patch: u16) -> (r: u16)
    requires
        release_number(major, minor, patch) <= u16::MAX,
    ensures
        r == release_number(major, minor, patch),
{
    major.wrapping_mul(256) + minor.wrapping_mul(16) + patch
}

/// Whether the version with pre-release tag `pre` is a pre-release: the
/// tag is not empty.
pub fn is_pre_release(pre: &str) -> (r: bool)
    ensures
        r == (pre@.len() != 0),
{
    !pre.is_empty()
}

} // verus!
