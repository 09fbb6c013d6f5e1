//! A small catalog of the compute devices of a machine and of the backends
//! that report them, with live memory statistics for each device.
//!
//! A [`Context`] is the registry: an append-only list of backends and of the
//! devices they own. Registration hands out the identities (`id`,
//! `global_id`, `local_id`, `backend_id`); every function that changes a
//! registry is proved to keep them dense and consistent.

use vstd::prelude::*;

pub mod catalog;
pub mod cpu;
pub mod cuda;
pub mod native;
pub mod vulkan;

use crate::catalog::BackendView;
use crate::catalog::Catalog;
use crate::catalog::DeviceView;
use crate::catalog::batch_devices;
use crate::catalog::batch_ids;
use crate::catalog::initialized;
use crate::catalog::lemma_register_keeps_wf;
use crate::cpu::Host;

verus! {

/// The name of the always present CPU backend.
pub const CPU_NAME: &'static str = "Host";

/// The name of the Vulkan backend.
pub const VULKAN_NAME: &'static str = "Vulkan";

/// The name of the Cuda backend.
pub const CUDA_NAME: &'static str = "Cuda";

/// The type of a Graphics Card.
#[derive(Copy, Clone, Debug, PartialEq, Eq, Structural)]
pub enum GPUKind {
    /// A Graphics Card physically integrated into the CPU (probably sharing the same memory).
    Integrated,
    /// A discrete Graphics Card, probably connected through PCIE.
    Discrete,
    /// A virtual Graphics Card.
    Virtual,
}

/// The hardware type of a [`Device`].
#[derive(Copy, Clone, Debug, PartialEq, Eq, Structural)]
pub enum DeviceKind {
    /// A Graphics Processing Unit a.k.a. a Graphics Card.
    GPU(GPUKind),
    /// A Central Processing Unit.
    CPU,
    /// Some other, unknown type.
    Other,
}

impl DeviceKind {
    /// The text that a kind is shown as.
    pub open spec fn label(self) -> Seq<char> {
        match self {
            DeviceKind::GPU(GPUKind::Integrated) => "Integrated Graphics Card"@,
            DeviceKind::GPU(GPUKind::Discrete) => "Discrete Graphics Card"@,
            DeviceKind::GPU(GPUKind::Virtual) => "Virtual Graphics Card"@,
            DeviceKind::CPU => "CPU"@,
            DeviceKind::Other => "Other"@,
        }
    }

    /// The kind as display text.
    pub fn to_string(&self) -> (text: String)
        ensures
            text@ == self.label(),
    {
        match self {
            DeviceKind::GPU(GPUKind::Integrated) => "Integrated Graphics Card".to_owned(),
            DeviceKind::GPU(GPUKind::Discrete) => "Discrete Graphics Card".to_owned(),
            DeviceKind::GPU(GPUKind::Virtual) => "Virtual Graphics Card".to_owned(),
            DeviceKind::CPU => "CPU".to_owned(),
            DeviceKind::Other => "Other".to_owned(),
        }
    }
}

/// Memory information of a device at some point in time.
#[derive(Copy, Clone, Debug, PartialEq, Eq, Structural)]
pub struct MemoryStats {
    /// The total local memory, in bytes. This value should always be the same for the same [`Device`].
    pub total: usize,
    /// The current amount of local memory that is available for new allocations, in bytes.
    pub available: usize,
    /// The current amount of local memory in use by the system, in bytes.
    pub used: usize,
}

/// Trait for internal backend handles.
pub trait BackendHandle: Send + Sync {
    /// Returns the name of this backend.
    fn name(&self) -> &str;
}

/// Trait for internal device handles.
pub trait DeviceHandle: Send + Sync {
    /// Return the name of this device.
    fn name(&self) -> &str;

    /// Return the hardware type of this device.
    fn kind(&self) -> DeviceKind;

    /// Return the name of the [`Backend`] that owns this device handle.
    fn backend_name(&self) -> &str;

    /// Return the memory statistics of this device at this point in time.
    fn current_memory_stats(&self) -> MemoryStats;
}

/// High-level abstraction over a backend.
pub struct Backend {
    inner: Box<dyn BackendHandle>,
    id: usize,
    device_ids: Vec<usize>,
}

impl View for Backend {
    type V = BackendView;

    closed spec fn view(&self) -> BackendView {
        BackendView { id: self.id as nat, device_ids: self.device_ids@.map_values(|g: usize| g as nat) }
    }
}

impl Backend {
    /// The handle that this backend was registered with.
    pub closed spec fn handle(&self) -> &Box<dyn BackendHandle> {
        &self.inner
    }

    fn new<B: BackendHandle + 'static>(handle: B, id: usize, device_ids: Vec<usize>) -> (backend: Self)
        ensures
            backend@.id == id,
            backend@.device_ids == device_ids@.map_values(|g: usize| g as nat),
            ({
                let given: Box<dyn BackendHandle> = Box::new(handle);
                *backend.handle() == given
            }),
    {
        Backend { inner: Box::new(handle), id, device_ids }
    }

    /// Return the *id* of this backend within the context.
    ///
    /// Used for indexing into slices returned by [`list_backends`].
    pub fn id(&self) -> (id: usize)
        ensures
            id == self@.id,
    {
        self.id
    }

    /// Return the *id*s of [Device]s owned by this backend.
    ///
    /// Used for indexing into slices returned by [`list_all_devices`].
    pub fn device_ids(&self) -> (ids: &[usize])
        ensures
            ids@.len() == self@.device_ids.len(),
            forall|j: int| 0 <= j < ids@.len() ==> ids@[j] == self@.device_ids[j],
    {
        self.device_ids.as_slice()
    }
}

impl PartialEq for Backend {
    /// Two backends are equal if their ids are: names may collide, ids cannot.
    fn eq(&self, other: &Self) -> (equal: bool) {
        self.id == other.id
    }
}

impl Eq for Backend {}

impl vstd::std_specs::cmp::PartialEqSpecImpl for Backend {
    open spec fn obeys_eq_spec() -> bool {
        true
    }

    open spec fn eq_spec(&self, other: &Self) -> bool {
        self@.id == other@.id
    }
}

impl std::ops::Deref for Backend {
    type Target = Box<dyn BackendHandle>;

    /// The backend's own handle: what it reports is asked of it.
    fn deref(&self) -> (handle: &Box<dyn BackendHandle>)
        ensures
            handle == self.handle(),
    {
        &self.inner
    }
}

/// High-level abstraction over a hardware device.
pub struct Device {
    inner: Box<dyn DeviceHandle>,
    global_id: usize,
    local_id: usize,
    backend_id: usize,
}

impl View for Device {
    type V = DeviceView;

    closed spec fn view(&self) -> DeviceView {
        DeviceView {
            global_id: self.global_id as nat,
            local_id: self.local_id as nat,
            backend_id: self.backend_id as nat,
        }
    }
}

impl Device {
    /// The handle that this device was registered with.
    pub closed spec fn handle(&self) -> &Box<dyn DeviceHandle> {
        &self.inner
    }

    fn new<D: DeviceHandle + 'static>(
        handle: D,
        global_id: usize,
        local_id: usize,
        backend_id: usize,
    ) -> (device: Self)
        ensures
            device@ == (DeviceView {
                global_id: global_id as nat,
                local_id: local_id as nat,
                backend_id: backend_id as nat,
            }),
            ({
                let given: Box<dyn DeviceHandle> = Box::new(handle);
                *device.handle() == given
            }),
    {
        Device { inner: Box::new(handle), global_id, local_id, backend_id }
    }

    /// Return the *id* of this device within the global context.
    ///
    /// Used for indexing into slices returned by [`list_all_devices`].
    pub fn global_id(&self) -> (id: usize)
        ensures
            id == self@.global_id,
    {
        self.global_id
    }

    /// Return the *id*/index of this device within its owning [`Backend`].
    ///
    /// This could be used, for example: to select this device in a CUDA context.
    pub fn local_id(&self) -> (id: usize)
        ensures
            id == self@.local_id,
    {
        self.local_id
    }

    /// Return the *id* of this device's owning [`Backend`].
    ///
    /// Used for indexing into slices returned by [`list_backends`].
    pub fn backend_id(&self) -> (id: usize)
        ensures
            id == self@.backend_id,
    {
        self.backend_id
    }
}

impl std::ops::Deref for Device {
    type Target = Box<dyn DeviceHandle>;

    /// The device's own handle: what it reports is asked of it.
    fn deref(&self) -> (handle: &Box<dyn DeviceHandle>)
        ensures
            handle == self.handle(),
    {
        &self.inner
    }
}

/// The registry: every backend found, and every device of every backend.
///
/// Nothing is ever taken out of a registry. When the registry itself goes,
/// its devices go before its backends: a device's handle may only be valid
/// while its backend is there.
pub struct Context {
    // Fields are dropped in the order they are declared in.
    devices: Vec<Device>,
    backends: Vec<Backend>,
}

impl View for Context {
    type V = Catalog;

    open spec fn view(&self) -> Catalog {
        Catalog {
            backends: self.backend_seq().map_values(|b: Backend| b@),
            devices: self.device_seq().map_values(|d: Device| d@),
        }
    }
}

impl Context {
    /// The registered backends, in registration order.
    pub closed spec fn backend_seq(&self) -> Seq<Backend> {
        self.backends@
    }

    /// The registered devices, in registration order.
    pub closed spec fn device_seq(&self) -> Seq<Device> {
        self.devices@
    }

    #[verifier::type_invariant]
    closed spec fn consistent(&self) -> bool {
        self@.wf()
    }

    /// A registry in which nothing is registered yet.
    pub fn default() -> (ctx: Self)
        ensures
            ctx@ == Catalog::empty(),
            ctx@.wf(),
    {
        let ctx = Context { backends: Vec::new(), devices: Vec::new() };
        assert(ctx@.backends =~= Seq::empty());
        assert(ctx@.devices =~= Seq::empty());
        ctx
    }

    /// Registers `backend` and its `devices`, in the order given, behind
    /// everything that is registered already.
    ///
    /// The backend's id is the number of backends registered before it. The
    /// device at position `j` of `devices` gets `j` as its local id and, as
    /// its global id, `j` plus the number of devices registered before.
    /// Each new entry holds the handle it was given. Every backend and every
    /// device that was registered before stays as it was, handle included,
    /// and at its place.
    pub fn register_backend<B, D>(&mut self, backend: B, devices: Vec<D>)
        where B: BackendHandle + 'static, D: DeviceHandle + 'static
        ensures
            final(self)@ == old(self)@.register(devices@.len()),
            final(self)@.wf(),
            final(self).backend_seq().len() == old(self).backend_seq().len() + 1,
            final(self).device_seq().len() == old(self).device_seq().len() + devices@.len(),
            forall|b: int|
                0 <= b < old(self).backend_seq().len() ==> final(self).backend_seq()[b] == old(
                    self,
                ).backend_seq()[b],
            forall|g: int|
                0 <= g < old(self).device_seq().len() ==> final(self).device_seq()[g] == old(
                    self,
                ).device_seq()[g],
            ({
                let given: Box<dyn BackendHandle> = Box::new(backend);
                *final(self).backend_seq()[old(self).backend_seq().len() as int].handle() == given
            }),
            forall|j: int|
                0 <= j < devices@.len() ==> ({
                    let given: Box<dyn DeviceHandle> = Box::new(devices@[j]);
                    *(#[trigger] final(self).device_seq()[old(self).device_seq().len() + j]).handle()
                        == given
                }),
    {
        proof {
            use_type_invariant(&*self);
        }
        let ghost before = self@;
        let ghost old_devices = self.devices@;
        let ghost count = devices@.len();
        let ghost given = devices@;
        let mut taken = Context::default();
        std::mem::swap(self, &mut taken);
        let Context { backends: mut backends, devices: mut all } = taken;
        let backend_id = backends.len();
        let ghost first = all@.len();
        let mut new_device_ids: Vec<usize> = Vec::with_capacity(devices.len());
        for device in batch: devices
            invariant
                batch.seq() == given,
                given.len() == count,
                forall|j: int|
                    0 <= j < batch.index() ==> ({
                        let wanted: Box<dyn DeviceHandle> = Box::new(given[j]);
                        *(#[trigger] all@[first + j]).handle() == wanted
                    }),
                backend_id == before.backends.len(),
                first == before.devices.len(),
                all@.len() == first + batch.index(),
                new_device_ids@.len() == batch.index(),
                first == old_devices.len(),
                forall|g: int| 0 <= g < first ==> all@[g] == old_devices[g],
                forall|g: int| 0 <= g < first ==> (#[trigger] all@[g])@ == before.devices[g],
                forall|j: int|
                    0 <= j < batch.index() ==> (#[trigger] all@[first + j])@ == batch_devices(
                        first,
                        backend_id as nat,
                        count,
                    )[j],
                forall|j: int|
                    0 <= j < batch.index() ==> (#[trigger] new_device_ids@[j]) == first + j,
        {
            let global_id = all.len();
            let local_id = new_device_ids.len();
            all.push(Device::new(device, global_id, local_id, backend_id));
            new_device_ids.push(global_id);
        }
        let backend = Backend::new(backend, backend_id, new_device_ids);
        proof {
            assert(backend@.device_ids =~= batch_ids(first, count));
            assert(backends@.map_values(|b: Backend| b@).push(backend@) =~= backends@.push(
                backend,
            ).map_values(|b: Backend| b@));
            assert(all@.map_values(|d: Device| d@) =~= before.devices + batch_devices(
                first,
                backend_id as nat,
                count,
            ));
        }
        backends.push(backend);
        let ghost after = Catalog {
            backends: backends@.map_values(|b: Backend| b@),
            devices: all@.map_values(|d: Device| d@),
        };
        proof {
            assert(after == before.register(count));
            lemma_register_keeps_wf(before, count);
        }
        *self = Context { backends, devices: all };
    }

    /// Fills an empty registry with the host backend and its devices, and
    /// leaves a registry that holds a backend as it is.
    ///
    /// Returns whether the registry was empty, that is, whether this call
    /// filled it.
    pub fn init(&mut self) -> (fresh: bool)
        ensures
            fresh == (old(self)@.backends.len() == 0),
            initialized(old(self)@, final(self)@),
            final(self)@.backends.len() > 0,
            final(self)@.wf(),
    {
        proof {
            use_type_invariant(&*self);
        }
        if self.backends.len() > 0 {
            return false;
        }
        let (system, cpus) = Host::init();
        self.register_backend(system, cpus);
        true
    }

    /// Fills an empty registry with the host backend and then with the
    /// accelerator backends that `vulkan` and `cuda` discover, in this
    /// order; leaves a registry that holds a backend as it is, and then
    /// calls neither.
    ///
    /// A discovery that yields nothing is no error: that backend is left
    /// out. Returns whether the registry was empty, that is, whether this
    /// call filled it.
    pub fn init_with<VB, VD, V, CB, CD, C>(&mut self, vulkan: V, cuda: C) -> (fresh: bool)
        where
            VB: BackendHandle + 'static,
            VD: DeviceHandle + 'static,
            V: FnOnce() -> Option<(VB, Vec<VD>)>,
            CB: BackendHandle + 'static,
            CD: DeviceHandle + 'static,
            C: FnOnce() -> Option<(CB, Vec<CD>)>,
        requires
            call_requires(vulkan, ()),
            call_requires(cuda, ()),
        ensures
            fresh == (old(self)@.backends.len() == 0),
            !fresh ==> final(self)@ == old(self)@,
            fresh ==> exists|host: nat, first: Option<(VB, Vec<VD>)>, second: Option<(CB, Vec<CD>)>|
                #[trigger] filled_with(old(self)@, final(self)@, vulkan, cuda, host, first, second),
            final(self)@.backends.len() > 0,
            final(self)@.wf(),
    {
        let ghost before = self@;
        if !self.init() {
            return false;
        }
        let ghost host = choose|host: nat| self@ == before.register(host);
        let first = vulkan();
        let ghost first_found = first;
        if let Some((backend, devices)) = first {
            self.register_backend(backend, devices);
        }
        let second = cuda();
        let ghost second_found = second;
        if let Some((backend, devices)) = second {
            self.register_backend(backend, devices);
        }
        assert(filled_with(before, self@, vulkan, cuda, host, first_found, second_found));
        true
    }
}

/// How many devices a discovery found, or nothing where it found no backend.
pub open spec fn found_count<B, D>(found: Option<(B, Vec<D>)>) -> Option<nat> {
    match found {
        Some(pair) => Some(pair.1@.len()),
        None => None,
    }
}

/// Whether `after` is `before` with the host backend of `host` devices
/// registered, then what `vulkan` yields if it is `first`, then what `cuda`
/// yields if it is `second`.
pub open spec fn filled_with<VB, VD, V, CB, CD, C>(
    before: Catalog,
    after: Catalog,
    vulkan: V,
    cuda: C,
    host: nat,
    first: Option<(VB, Vec<VD>)>,
    second: Option<(CB, Vec<CD>)>,
) -> bool where V: FnOnce() -> Option<(VB, Vec<VD>)>, C: FnOnce() -> Option<(CB, Vec<CD>)> {
    &&& call_ensures(vulkan, (), first)
    &&& call_ensures(cuda, (), second)
    &&& after == before.register(host).register_found(found_count(first)).register_found(
        found_count(second),
    )
}

/// Initialize the context. This **MUST** be called before any other functions.
///
/// This function is ideally called at the start of execution. If already called at least once, does nothing.
pub fn init(context: &mut Context) -> (fresh: bool)
    ensures
        fresh == (old(context)@.backends.len() == 0),
        initialized(old(context)@, final(context)@),
        final(context)@.backends.len() > 0,
        final(context)@.wf(),
{
    context.init()
}

/// Returns a view of every [`Backend`] found, indexable by [`Backend::id`].
///
/// While the view is held the registry cannot change.
pub fn list_backends(context: &Context) -> (found: SliceGuard<'_, Backend>)
    ensures
        found@ == context.backend_seq(),
        found@.len() == context@.backends.len(),
        forall|b: int| 0 <= b < found@.len() ==> (#[trigger] found@[b])@ == context@.backends[b],
        forall|b: int| 0 <= b < found@.len() ==> (#[trigger] found@[b])@.id == b,
        context@.wf(),
{
    proof {
        use_type_invariant(context);
        assert forall|b: int| 0 <= b < context.backend_seq().len() implies (#[trigger] context.backend_seq()[b])@.id
            == b by {
            assert(context@.backends[b] == context.backend_seq()[b]@);
        }
    }
    SliceGuard::over(context.backends.as_slice())
}

/// Returns a view of *every* [`Device`] found, indexable by [`Device::global_id`].
/// Depending on the [`Backend`]s present, there may be several representations for the same hardware device.
///
/// While the view is held the registry cannot change.
pub fn list_all_devices(context: &Context) -> (found: SliceGuard<'_, Device>)
    ensures
        found@ == context.device_seq(),
        found@.len() == context@.devices.len(),
        forall|g: int| 0 <= g < found@.len() ==> (#[trigger] found@[g])@ == context@.devices[g],
        forall|g: int| 0 <= g < found@.len() ==> (#[trigger] found@[g])@.global_id == g,
        context@.wf(),
{
    proof {
        use_type_invariant(context);
        assert forall|g: int| 0 <= g < context.device_seq().len() implies (#[trigger] context.device_seq()[g])@.global_id
            == g by {
            assert(context@.devices[g] == context.device_seq()[g]@);
        }
    }
    SliceGuard::over(context.devices.as_slice())
}

/// A read view of one of a registry's two lists. It borrows the registry:
/// nothing can be registered until the view is let go.
pub struct SliceGuard<'s, T> {
    items: &'s [T],
}

impl<'s, T> View for SliceGuard<'s, T> {
    type V = Seq<T>;

    closed spec fn view(&self) -> Seq<T> {
        self.items@
    }
}

impl<'s, T> SliceGuard<'s, T> {
    fn over(items: &'s [T]) -> (guard: Self)
        ensures
            guard@ == items@,
    {
        SliceGuard { items }
    }

    /// The items in view, for as long as the registry is borrowed.
    pub fn as_slice(&self) -> (items: &'s [T])
        ensures
            items@ == self@,
    {
        self.items
    }

    /// The item with the given id, or `None` where no item has it.
    pub fn get(&self, id: usize) -> (item: Option<&'s T>)
        ensures
            id < self@.len() ==> item == Some(&self@[id as int]),
            id >= self@.len() ==> item.is_none(),
    {
        if id < self.items.len() {
            Some(&self.items[id])
        } else {
            None
        }
    }
}

impl<'s, T> std::ops::Deref for SliceGuard<'s, T> {
    type Target = [T];

    fn deref(&self) -> (items: &[T])
        ensures
            items@ == self@,
    {
        self.items
    }
}

} // verus!
