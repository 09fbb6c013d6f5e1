//! The mathematical model of a registry: which identities its backends and
//! devices carry, what it means for them to be consistent, and what
//! registering one more backend does to them.

use vstd::prelude::*;

verus! {

/// The identities of one registered device.
pub struct DeviceView {
    pub global_id: nat,
    pub local_id: nat,
    pub backend_id: nat,
}

/// The identities of one registered backend.
pub struct BackendView {
    pub id: nat,
    pub device_ids: Seq<nat>,
}

/// The identities held by a registry, in registration order.
pub struct Catalog {
    pub backends: Seq<BackendView>,
    pub devices: Seq<DeviceView>,
}

/// The number of devices in `devices` that name `backend` as their owner.
pub open spec fn owned_count(devices: Seq<DeviceView>, backend: nat) -> nat
    decreases devices.len(),
{
    if devices.len() == 0 {
        0
    } else {
        let rest = owned_count(devices.drop_last(), backend);
        if devices.last().backend_id == backend {
            rest + 1
        } else {
            rest
        }
    }
}

/// The devices of a batch of `count` devices that is registered when
/// `first` devices and `backend` backends are there already.
pub open spec fn batch_devices(first: nat, backend: nat, count: nat) -> Seq<DeviceView> {
    Seq::new(
        count,
        |j: int| DeviceView { global_id: (first + j) as nat, local_id: j as nat, backend_id: backend },
    )
}

/// The global ids of that batch.
pub open spec fn batch_ids(first: nat, count: nat) -> Seq<nat> {
    Seq::new(count, |j: int| (first + j) as nat)
}

impl Catalog {
    /// The registry in which nothing is registered.
    pub open spec fn empty() -> Catalog {
        Catalog { backends: Seq::empty(), devices: Seq::empty() }
    }

    /// The registry after one more backend with `count` devices is registered.
    pub open spec fn register(self, count: nat) -> Catalog {
        Catalog {
            backends: self.backends.push(
                BackendView {
                    id: self.backends.len(),
                    device_ids: batch_ids(self.devices.len(), count),
                },
            ),
            devices: self.devices + batch_devices(self.devices.len(), self.backends.len(), count),
        }
    }

    /// The registry after a discovery: one more backend with the devices
    /// found, or the same registry where nothing was found.
    pub open spec fn register_found(self, found: Option<nat>) -> Catalog {
        match found {
            Some(count) => self.register(count),
            None => self,
        }
    }

    /// Every backend's id is its position.
    pub open spec fn backend_ids_dense(self) -> bool {
        forall|b: int| 0 <= b < self.backends.len() ==> (#[trigger] self.backends[b]).id == b
    }

    /// Every device's global id is its position.
    pub open spec fn global_ids_dense(self) -> bool {
        forall|g: int| 0 <= g < self.devices.len() ==> (#[trigger] self.devices[g]).global_id == g
    }

    /// Every device names a registered backend, and that backend lists the
    /// device's global id at the device's local id.
    pub open spec fn devices_resolve(self) -> bool {
        forall|g: int|
            0 <= g < self.devices.len() ==> {
                let d = #[trigger] self.devices[g];
                &&& d.backend_id < self.backends.len()
                &&& d.local_id < self.backends[d.backend_id as int].device_ids.len()
                &&& self.backends[d.backend_id as int].device_ids[d.local_id as int] == g
            }
    }

    /// Every id that a backend lists is that of a registered device, which
    /// names this backend as its owner and the id's position as its local id.
    pub open spec fn backends_resolve(self) -> bool {
        forall|b: int, j: int|
            0 <= b < self.backends.len() && 0 <= j < self.backends[b].device_ids.len() ==> {
                let g = #[trigger] self.backends[b].device_ids[j];
                &&& g < self.devices.len()
                &&& self.devices[g as int].backend_id == b
                &&& self.devices[g as int].local_id == j
            }
    }

    /// Every backend lists as many ids as there are devices that name it.
    pub open spec fn counts_agree(self) -> bool {
        forall|b: int|
            0 <= b < self.backends.len() ==> (#[trigger] self.backends[b]).device_ids.len()
                == owned_count(self.devices, b as nat)
    }

    /// The devices stand in registration order: those of an earlier backend
    /// before those of a later one, and those of one backend by local id.
    pub open spec fn devices_ordered(self) -> bool {
        forall|g: int, h: int|
            0 <= g < h < self.devices.len() ==> {
                let d = #[trigger] self.devices[g];
                let e = #[trigger] self.devices[h];
                ||| d.backend_id < e.backend_id
                ||| d.backend_id == e.backend_id && d.local_id < e.local_id
            }
    }

    /// The identities are consistent.
    pub open spec fn wf(self) -> bool {
        &&& self.backend_ids_dense()
        &&& self.global_ids_dense()
        &&& self.devices_resolve()
        &&& self.backends_resolve()
        &&& self.counts_agree()
        &&& self.devices_ordered()
    }
}

/// What initializing does to a registry: one that holds a backend stays as
/// it is; an empty one gets one backend, with however many devices that
/// backend found.
pub open spec fn initialized(before: Catalog, after: Catalog) -> bool {
    if before.backends.len() > 0 {
        after == before
    } else {
        exists|count: nat| after == before.register(count)
    }
}

/// Devices that all name other backends add nothing to a backend's count.
pub proof fn lemma_owned_count_none(devices: Seq<DeviceView>, backend: nat)
    requires
        forall|g: int| 0 <= g < devices.len() ==> (#[trigger] devices[g]).backend_id != backend,
    ensures
        owned_count(devices, backend) == 0,
    decreases devices.len(),
{
    if devices.len() > 0 {
        lemma_owned_count_none(devices.drop_last(), backend);
    }
}

/// A batch appended to a device list adds its length to the count of the
/// backend it belongs to, and nothing to the count of any other.
pub proof fn lemma_owned_count_batch(
    devices: Seq<DeviceView>,
    first: nat,
    owner: nat,
    count: nat,
    backend: nat,
)
    ensures
        owned_count(devices + batch_devices(first, owner, count), backend) == owned_count(
            devices,
            backend,
        ) + (if backend == owner {
            count
        } else {
            0
        }),
    decreases count,
{
    let all = devices + batch_devices(first, owner, count);
    if count == 0 {
        assert(all =~= devices);
    } else {
        let fewer = (count - 1) as nat;
        assert(all.drop_last() =~= devices + batch_devices(first, owner, fewer));
        assert(all.last() == batch_devices(first, owner, count)[count - 1]);
        lemma_owned_count_batch(devices, first, owner, fewer, backend);
    }
}

/// Registering a backend keeps the identities consistent.
pub proof fn lemma_register_keeps_wf(c: Catalog, count: nat)
    requires
        c.wf(),
    ensures
        c.register(count).wf(),
{
    let r = c.register(count);
    let nb = c.backends.len();
    let nd = c.devices.len();
    assert forall|b: int| 0 <= b < r.backends.len() implies (#[trigger] r.backends[b]).device_ids.len()
        == owned_count(r.devices, b as nat) by {
        lemma_owned_count_batch(c.devices, nd, nb, count, b as nat);
        if b == nb {
            lemma_owned_count_none(c.devices, nb);
        } else {
            assert(r.backends[b] == c.backends[b]);
        }
    }
    assert forall|g: int| 0 <= g < r.devices.len() implies {
        let d = #[trigger] r.devices[g];
        &&& d.backend_id < r.backends.len()
        &&& d.local_id < r.backends[d.backend_id as int].device_ids.len()
        &&& r.backends[d.backend_id as int].device_ids[d.local_id as int] == g
    } by {
        if g < nd {
            let d = c.devices[g];
            assert(r.devices[g] == d);
            assert(r.backends[d.backend_id as int] == c.backends[d.backend_id as int]);
        }
    }
    assert forall|g: int, h: int| 0 <= g < h < r.devices.len() implies {
        let d = #[trigger] r.devices[g];
        let e = #[trigger] r.devices[h];
        ||| d.backend_id < e.backend_id
        ||| d.backend_id == e.backend_id && d.local_id < e.local_id
    } by {
        if g < nd {
            assert(r.devices[g] == c.devices[g]);
        }
        if h < nd {
            assert(r.devices[h] == c.devices[h]);
        }
    }
    assert forall|b: int, j: int|
        0 <= b < r.backends.len() && 0 <= j < r.backends[b].device_ids.len() implies {
        let g = #[trigger] r.backends[b].device_ids[j];
        &&& g < r.devices.len()
        &&& r.devices[g as int].backend_id == b
        &&& r.devices[g as int].local_id == j
    } by {
        if b < nb {
            assert(r.backends[b] == c.backends[b]);
            let g = c.backends[b].device_ids[j];
            assert(r.devices[g as int] == c.devices[g as int]);
        }
    }
}

/// After initializing, the registry holds a backend.
pub proof fn lemma_initialized_is_populated(before: Catalog, after: Catalog)
    requires
        initialized(before, after),
    ensures
        after.backends.len() > 0,
{
}

/// Initializing a second time changes nothing: the registry after two
/// rounds is the registry after one.
pub proof fn lemma_initialized_twice(before: Catalog, once: Catalog, twice: Catalog)
    requires
        initialized(before, once),
        initialized(once, twice),
    ensures
        twice == once,
{
}

/// The global ids, read in order, are the numbers from zero up to the
/// device count: the device at position `g` has id `g`, so none is missing
/// and none occurs twice.
pub proof fn lemma_global_ids_are_a_range(c: Catalog)
    requires
        c.wf(),
    ensures
        forall|g: int| 0 <= g < c.devices.len() ==> (#[trigger] c.devices[g]).global_id == g,
        forall|g: int, h: int|
            0 <= g < c.devices.len() && 0 <= h < c.devices.len() && g != h ==> c.devices[g].global_id
                != c.devices[h].global_id,
        c.devices.map_values(|d: DeviceView| d.global_id) == Seq::new(
            c.devices.len(),
            |g: int| g as nat,
        ),
{
    assert(c.devices.map_values(|d: DeviceView| d.global_id) =~= Seq::new(
        c.devices.len(),
        |g: int| g as nat,
    ));
}

/// The backend that a device names lists the device's global id.
pub proof fn lemma_owner_lists_device(c: Catalog, g: int)
    requires
        c.wf(),
        0 <= g < c.devices.len(),
    ensures
        c.devices[g].backend_id < c.backends.len(),
        c.backends[c.devices[g].backend_id as int].device_ids.contains(c.devices[g].global_id),
{
    let d = c.devices[g];
    let ids = c.backends[d.backend_id as int].device_ids;
    assert(ids[d.local_id as int] == d.global_id);
}

/// A backend lists the global ids of its devices in rising order, each at
/// the position that is the device's local id.
pub proof fn lemma_backend_lists_in_order(c: Catalog, b: int, j: int, k: int)
    requires
        c.wf(),
        0 <= b < c.backends.len(),
        0 <= j < k < c.backends[b].device_ids.len(),
    ensures
        c.backends[b].device_ids[j] < c.backends[b].device_ids[k],
        c.devices[c.backends[b].device_ids[j] as int].local_id == j,
        c.devices[c.backends[b].device_ids[k] as int].local_id == k,
{
    let g = c.backends[b].device_ids[j];
    let h = c.backends[b].device_ids[k];
    if h < g {
        assert(c.devices[h as int].local_id < c.devices[g as int].local_id);
    }
}

/// A backend lists as many ids as there are devices that name it.
pub proof fn lemma_backend_counts_its_devices(c: Catalog, b: int)
    requires
        c.wf(),
        0 <= b < c.backends.len(),
    ensures
        c.backends[b].device_ids.len() == owned_count(c.devices, c.backends[b].id),
{
}

/// Registering changes nothing that was registered before: every backend
/// and every device keeps its place and its identities.
pub proof fn lemma_register_appends(c: Catalog, count: nat)
    ensures
        c.register(count).backends.len() == c.backends.len() + 1,
        c.register(count).devices.len() == c.devices.len() + count,
        forall|b: int| 0 <= b < c.backends.len() ==> c.register(count).backends[b] == c.backends[b],
        forall|g: int| 0 <= g < c.devices.len() ==> c.register(count).devices[g] == c.devices[g],
{
}

} // verus!
