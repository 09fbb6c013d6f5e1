//! The rules of the Cuda backend, on plain values: whether a native session
//! yields a backend, which kind a device is, and how its memory statistics
//! follow from what the driver reports.

use vstd::prelude::*;

use crate::native::infos;
use crate::native::select;
use crate::native::selected;
use crate::native::spoiled;
use crate::native::DeviceInfo;
use crate::native::NativeKind;
use crate::native::Probe;
use crate::DeviceKind;
use crate::GPUKind;
use crate::MemoryStats;

verus! {

/// Whether a native session yields no backend: it could not be opened, it
/// lists no device, an entry of its list is unusable, or no entry of the
/// list reports memory.
pub open spec fn absent(status: i32, probes: Seq<Probe>) -> bool {
    ||| status != 0
    ||| probes.len() == 0
    ||| spoiled(probes)
    ||| selected(probes).len() == 0
}

/// Decides what a native session yields.
///
/// `status` is what opening the session returned, zero for success.
/// `probes` is the session's device list, asked entry by entry. The backend
/// is absent if the session did not open, the list is empty, or an entry
/// has no handle or no name. Otherwise its devices are the entries that
/// report memory; a backend without such an entry is absent too.
pub fn discover(status: i32, probes: Vec<Probe>) -> (found: Option<Vec<DeviceInfo>>)
    ensures
        found.is_none() <==> absent(status, probes@),
        found matches Some(list) ==> list@.len() > 0 && infos(list@) == selected(probes@),
{
    if status != 0 || probes.len() == 0 {
        return None;
    }
    match select(&probes) {
        None => None,
        Some(list) => if list.len() == 0 {
            None
        } else {
            Some(list)
        },
    }
}

/// The hardware type that a native kind stands for. This driver knows
/// graphics cards only: every other kind counts as unknown.
pub open spec fn kind_of(native: NativeKind) -> DeviceKind {
    match native {
        NativeKind::IntegratedGPU => DeviceKind::GPU(GPUKind::Integrated),
        NativeKind::DiscreteGPU => DeviceKind::GPU(GPUKind::Discrete),
        _ => DeviceKind::Other,
    }
}

/// The hardware type of a device, from the kind that the driver reports.
pub fn device_kind(native: NativeKind) -> (kind: DeviceKind)
    ensures
        kind == kind_of(native),
{
    match native {
        NativeKind::IntegratedGPU => DeviceKind::GPU(GPUKind::Integrated),
        NativeKind::DiscreteGPU => DeviceKind::GPU(GPUKind::Discrete),
        NativeKind::VirtualGPU => DeviceKind::Other,
        NativeKind::CPU => DeviceKind::Other,
        NativeKind::Other => DeviceKind::Other,
    }
}

/// The memory statistics of a device with `total` bytes of local memory,
/// of which the driver reports `budget` bytes as free and `used` as taken.
pub fn memory_stats(total: usize, budget: usize, used: usize) -> (stats: MemoryStats)
    ensures
        stats == (MemoryStats { total, available: budget, used }),
{
    MemoryStats { total, available: budget, used }
}

} // verus!
