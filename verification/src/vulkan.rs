//! The rules of the Vulkan backend, on plain values: whether a native
//! session yields a backend, which kind a device is, and how its memory
//! statistics follow from what the driver reports.

use vstd::prelude::*;

use crate::native::infos;
use crate::native::select;
use crate::native::selected;
use crate::native::spoiled;
use crate::native::DeviceInfo;
use crate::native::NativeKind;
use crate::native::Probe;
use crate::DeviceKind;
use crate::GPUKind;
use crate::MemoryStats;

verus! {

/// Whether a native session yields no backend: it could not be opened, its
/// device list could not be read, an entry of the list is unusable, or no
/// entry of the list reports memory.
pub open spec fn absent(status: i32, listing: Option<Vec<Probe>>) -> bool {
    ||| status != 0
    ||| listing.is_none()
    ||| spoiled(listing.unwrap()@)
    ||| selected(listing.unwrap()@).len() == 0
}

/// Decides what a native session yields.
///
/// `status` is what opening the session returned, zero for success.
/// `listing` is the session's device list, asked entry by entry, or nothing
/// where the list could not be read. The backend is absent if the session
/// did not open, the list could not be read, or an entry has no handle or
/// no name. Otherwise its devices are the entries that report memory; a
/// backend without such an entry is absent too.
pub fn discover(status: i32, listing: Option<Vec<Probe>>) -> (found: Option<Vec<DeviceInfo>>)
    ensures
        found.is_none() <==> absent(status, listing),
        found matches Some(list) ==> list@.len() > 0 && infos(list@) == selected(
            listing.unwrap()@,
        ),
{
    if status != 0 {
        return None;
    }
    match listing {
        None => None,
        Some(probes) => match select(&probes) {
            None => None,
            Some(list) => if list.len() == 0 {
                None
            } else {
                Some(list)
            },
        },
    }
}

/// The hardware type that a native kind stands for.
pub open spec fn kind_of(native: NativeKind) -> DeviceKind {
    match native {
        NativeKind::IntegratedGPU => DeviceKind::GPU(GPUKind::Integrated),
        NativeKind::DiscreteGPU => DeviceKind::GPU(GPUKind::Discrete),
        NativeKind::VirtualGPU => DeviceKind::GPU(GPUKind::Virtual),
        NativeKind::CPU => DeviceKind::CPU,
        NativeKind::Other => DeviceKind::Other,
    }
}

/// The hardware type of a device, from the kind that the driver reports.
pub fn device_kind(native: NativeKind) -> (kind: DeviceKind)
    ensures
        kind == kind_of(native),
{
    match native {
        NativeKind::IntegratedGPU => DeviceKind::GPU(GPUKind::Integrated),
        NativeKind::DiscreteGPU => DeviceKind::GPU(GPUKind::Discrete),
        NativeKind::VirtualGPU => DeviceKind::GPU(GPUKind::Virtual),
        NativeKind::CPU => DeviceKind::CPU,
        NativeKind::Other => DeviceKind::Other,
    }
}

/// The memory statistics of a device with `total` bytes of local memory,
/// of which the driver grants this process a `budget` that includes the
/// `used` bytes the process holds already.
///
/// What is available is the budget less what is used; what counts as used
/// is the rest of the total. So available and used add up to the total.
pub fn memory_stats(total: usize, budget: usize, used: usize) -> (stats: MemoryStats)
    requires
        used <= budget,
        budget - used <= total,
    ensures
        stats.total == total,
        stats.available == budget - used,
        stats.used == total - (budget - used),
        stats.available + stats.used == stats.total,
{
    let available = budget - used;
    MemoryStats { total, available, used: total - available }
}

} // verus!
