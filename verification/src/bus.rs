//! How a device is reached on the guest's bus.

use vstd::prelude::*;

verus! {

/// One access of the guest to a device.
#[derive(Clone, Copy, Debug, PartialEq, Eq, Structural)]
pub struct BusAccessInfo {
    /// The offset within the device's region.
    pub offset: u64,
    /// The address on the bus.
    pub address: u64,
    /// The number of the virtual processor that makes the access.
    pub id: usize,
}

/// The platform devices of this crate.
#[derive(Clone, Copy, Debug, PartialEq, Eq, Structural)]
pub enum PlatformDeviceId {
    NvidiaBpmpHost,
    NvidiaDceHost,
}

/// The stretch of `len` bytes at `offset`, where it ends by `limit`.
pub fn checked_range(offset: u64, len: usize, limit: usize) -> (r: Option<core::ops::Range<usize>>)
    ensures
        r is Some <==> offset + len <= limit,
        r matches Some(range) ==> range.start == offset && range.end == offset + len,
{
    let start: usize = match usize::try_from(offset) {
        Ok(start) => start,
        Err(_) => return None,
    };
    match start.checked_add(len) {
        Some(end) => if end <= limit {
            Some(start..end)
        } else {
            None
        },
        None => None,
    }
}

} // verus!
