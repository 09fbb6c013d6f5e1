//! The host backend: the machine's processors, one device per processor
//! model, all reporting the machine's main memory.
//!
//! What the operating system reports comes from `sysinfo`, through the
//! trusted items at the end of this file. Which values they hand back is
//! not claimed; what this module does with them is verified.

use std::sync::Arc;
use std::sync::PoisonError;
use std::sync::RwLock;
use std::sync::RwLockWriteGuard;
use sysinfo::System;
use vstd::prelude::*;

use crate::BackendHandle;
use crate::DeviceHandle;
use crate::DeviceKind;
use crate::MemoryStats;
use crate::CPU_NAME;

verus! {

/// The distinct entries of `names`, each at the place of its first occurrence.
pub open spec fn first_occurrences(names: Seq<Seq<char>>) -> Seq<Seq<char>>
    decreases names.len(),
{
    if names.len() == 0 {
        Seq::empty()
    } else {
        let earlier = first_occurrences(names.drop_last());
        if earlier.contains(names.last()) {
            earlier
        } else {
            earlier.push(names.last())
        }
    }
}

/// The texts that a list of strings holds.
pub open spec fn texts(names: Seq<String>) -> Seq<Seq<char>> {
    names.map_values(|name: String| name@)
}

/// `first_occurrences` holds exactly the entries of its argument.
pub proof fn lemma_first_occurrences_same_entries(names: Seq<Seq<char>>, name: Seq<char>)
    ensures
        first_occurrences(names).contains(name) <==> names.contains(name),
    decreases names.len(),
{
    if names.len() > 0 {
        let front = names.drop_last();
        let earlier = first_occurrences(front);
        lemma_first_occurrences_same_entries(front, name);
        lemma_first_occurrences_same_entries(front, names.last());
        if names.contains(name) {
            let i = choose|i: int| 0 <= i < names.len() && names[i] == name;
            if i < front.len() {
                assert(front[i] == name);
            } else {
                assert(name == names.last());
            }
            if !earlier.contains(names.last()) {
                let grown = earlier.push(names.last());
                if earlier.contains(name) {
                    let k = choose|k: int| 0 <= k < earlier.len() && earlier[k] == name;
                    assert(grown[k] == name);
                } else {
                    assert(grown[earlier.len() as int] == name);
                }
            }
        }
        if first_occurrences(names).contains(name) {
            let found = first_occurrences(names);
            let k = choose|k: int| 0 <= k < found.len() && found[k] == name;
            if k < earlier.len() {
                assert(earlier[k] == name);
                let i = choose|i: int| 0 <= i < front.len() && front[i] == name;
                assert(names[i] == name);
            } else {
                assert(names[names.len() - 1] == name);
            }
        }
    }
}

/// No entry occurs twice in `first_occurrences`.
pub proof fn lemma_first_occurrences_distinct(names: Seq<Seq<char>>)
    ensures
        forall|i: int, j: int|
            0 <= i < j < first_occurrences(names).len() ==> first_occurrences(names)[i]
                != first_occurrences(names)[j],
    decreases names.len(),
{
    if names.len() > 0 {
        let earlier = first_occurrences(names.drop_last());
        let found = first_occurrences(names);
        lemma_first_occurrences_distinct(names.drop_last());
        assert forall|i: int, j: int| 0 <= i < j < found.len() implies found[i] != found[j] by {
            if j < earlier.len() {
                assert(found[i] == earlier[i] && found[j] == earlier[j]);
            } else {
                assert(found[j] == names.last());
                assert(earlier[i] == found[i]);
            }
        }
    }
}

/// Where there is an entry there is a first occurrence, and only there.
pub proof fn lemma_first_occurrences_nonempty(names: Seq<Seq<char>>)
    ensures
        first_occurrences(names).len() > 0 <==> names.len() > 0,
    decreases names.len(),
{
    if names.len() > 0 {
        lemma_first_occurrences_nonempty(names.drop_last());
    }
}

/// Cores that all report one model name make exactly one entry: a machine
/// with one processor model has one device.
pub proof fn lemma_first_occurrences_one_model(names: Seq<Seq<char>>, model: Seq<char>)
    requires
        names.len() > 0,
        forall|i: int| 0 <= i < names.len() ==> names[i] == model,
    ensures
        first_occurrences(names) == seq![model],
    decreases names.len(),
{
    let front = names.drop_last();
    if front.len() == 0 {
        assert(first_occurrences(front) =~= Seq::empty());
        assert(first_occurrences(names) =~= seq![model]);
    } else {
        lemma_first_occurrences_one_model(front, model);
        assert(first_occurrences(front)[0] == model);
    }
}

/// Whether one of `names` holds the text of `name`.
fn holds_name(names: &Vec<String>, name: &String) -> (found: bool)
    ensures
        found == texts(names@).contains(name@),
{
    let mut i: usize = 0;
    while i < names.len()
        invariant
            i <= names.len(),
            forall|k: int| 0 <= k < i ==> texts(names@)[k] != name@,
        decreases names.len() - i,
    {
        if names[i] == *name {
            assert(texts(names@)[i as int] == name@);
            return true;
        }
        i = i + 1;
    }
    false
}

/// Drops every processor model name that occurred before in `brands`, and
/// keeps the others in their order.
///
/// Cores that report one model name become one device.
pub fn distinct_names(brands: Vec<String>) -> (names: Vec<String>)
    ensures
        texts(names@) == first_occurrences(texts(brands@)),
{
    let mut names: Vec<String> = Vec::new();
    let mut i: usize = 0;
    assert(texts(brands@).take(0) =~= Seq::empty());
    assert(texts(names@) =~= Seq::empty());
    while i < brands.len()
        invariant
            i <= brands.len(),
            texts(names@) == first_occurrences(texts(brands@).take(i as int)),
        decreases brands.len() - i,
    {
        let ghost seen = texts(brands@).take(i as int);
        let ghost next = texts(brands@).take(i + 1);
        assert(next.drop_last() =~= seen);
        assert(next.last() == brands@[i as int]@);
        if !holds_name(&names, &brands[i]) {
            let ghost before = texts(names@);
            names.push(brands[i].clone());
            assert(texts(names@) =~= before.push(brands@[i as int]@));
        }
        i = i + 1;
    }
    assert(texts(brands@).take(i as int) =~= texts(brands@));
    names
}

/// The backend of the machine itself.
pub struct Host {
    _system: Arc<RwLock<System>>,
}

/// One processor model of the machine.
pub struct Processor {
    system: Arc<RwLock<System>>,
    name: String,
    memory: usize,
}

impl Processor {
    /// The model name of this processor.
    pub closed spec fn model(&self) -> Seq<char> {
        self.name@
    }

    /// The size of the machine's main memory when the backend was made, in bytes.
    pub closed spec fn total(&self) -> usize {
        self.memory
    }

    fn new(system: Arc<RwLock<System>>, name: String, memory: usize) -> (cpu: Self)
        ensures
            cpu.model() == name@,
            cpu.total() == memory,
    {
        Processor { system, name, memory }
    }
}

/// The model names of `cpus`, in order.
pub open spec fn models(cpus: Seq<Processor>) -> Seq<Seq<char>> {
    cpus.map_values(|cpu: Processor| cpu.model())
}

impl Host {
    /// Takes a snapshot of the machine's processors and memory, and makes
    /// the host backend and its devices from it.
    ///
    /// What the machine reports is not known beforehand. Whatever it is, no
    /// two devices have the same model name, and all report one total.
    pub fn init() -> (found: (Self, Vec<Processor>))
        ensures
            forall|i: int, j: int|
                0 <= i < j < found.1@.len() ==> found.1@[i].model() != found.1@[j].model(),
            forall|i: int, j: int|
                0 <= i < found.1@.len() && 0 <= j < found.1@.len() ==> found.1@[i].total()
                    == found.1@[j].total(),
    {
        let mut system = new_system();
        refresh_cpu(&mut system);
        let brands = Host::core_brands(&system);
        refresh_memory(&mut system);
        let total_memory = total_memory(&system);
        let found = Host::assemble(system, brands, total_memory);
        proof {
            lemma_first_occurrences_distinct(texts(brands@));
            assert forall|i: int, j: int| 0 <= i < j < found.1@.len() implies found.1@[i].model()
                != found.1@[j].model() by {
                assert(models(found.1@)[i] == found.1@[i].model());
                assert(models(found.1@)[j] == found.1@[j].model());
            }
        }
        found
    }

    /// The model name of every core in `system`, in the order of the cores.
    fn core_brands(system: &System) -> (brands: Vec<String>)
        ensures
            texts(brands@) == core_brands_of(*system),
    {
        let count = core_count(system);
        let mut brands: Vec<String> = Vec::new();
        for i in 0..count
            invariant
                count == core_brands_of(*system).len(),
                brands@.len() == i,
                forall|k: int| 0 <= k < i ==> (#[trigger] brands@[k])@ == core_brands_of(*system)[k],
        {
            brands.push(core_brand(system, i));
        }
        assert(texts(brands@) =~= core_brands_of(*system));
        brands
    }

    /// Makes the host backend and its devices from a snapshot `system` in
    /// which `brands` are the model names of the cores and `total_memory`
    /// is the size of main memory in bytes.
    ///
    /// There is one device for each distinct name, in the order of first
    /// occurrence; each reports `total_memory` as its total. So there is a
    /// device whenever there is a core.
    pub fn assemble(system: System, brands: Vec<String>, total_memory: u64) -> (found: (Self, Vec<Processor>))
        ensures
            models(found.1@) == first_occurrences(texts(brands@)),
            found.1@.len() > 0 <==> brands@.len() > 0,
            forall|i: int| 0 <= i < found.1@.len() ==> found.1@[i].total() == total_memory as usize,
    {
        proof {
            lemma_first_occurrences_nonempty(texts(brands@));
        }
        let names = distinct_names(brands);
        let system = Arc::new(guarded(system));
        let mut cpus: Vec<Processor> = Vec::new();
        for name in each: names
            invariant
                each.seq() == names@,
                cpus@.len() == each.index(),
                forall|i: int| 0 <= i < cpus@.len() ==> (#[trigger] cpus@[i]).model() == names@[i]@,
                forall|i: int|
                    0 <= i < cpus@.len() ==> (#[trigger] cpus@[i]).total() == total_memory as usize,
        {
            cpus.push(Processor::new(shared(&system), name, total_memory as usize));
        }
        assert(models(cpus@) =~= texts(names@));
        (Host { _system: system }, cpus)
    }
}

impl BackendHandle for Host {
    fn name(&self) -> (name: &str)
        ensures
            name@ == CPU_NAME@,
    {
        CPU_NAME
    }
}

impl DeviceHandle for Processor {
    fn name(&self) -> (name: &str)
        ensures
            name@ == self.model(),
    {
        self.name.as_str()
    }

    fn kind(&self) -> (kind: DeviceKind)
        ensures
            kind == DeviceKind::CPU,
    {
        DeviceKind::CPU
    }

    fn backend_name(&self) -> (name: &str)
        ensures
            name@ == CPU_NAME@,
    {
        CPU_NAME
    }

    /// Asks the operating system anew. The total is the one recorded when
    /// the backend was made; what is available and used is whatever the
    /// system reports now. Queries of devices that share a snapshot take
    /// turns. A lock that an interrupted query left poisoned is taken all
    /// the same: the refresh replaces what the snapshot held. Where the
    /// system reports more memory available than it has in all, nothing
    /// counts as used.
    fn current_memory_stats(&self) -> (stats: MemoryStats)
        ensures
            stats.total == self.total(),
    {
        let mut guard = match write(&self.system) {
            Ok(guard) => guard,
            Err(poisoned) => into_inner(poisoned),
        };
        let system = snapshot(&mut guard);
        refresh_memory(system);
        let total_now = total_memory(system);
        let available = available_memory(system);
        let used = if available <= total_now {
            used_memory(system)
        } else {
            0
        };
        memory_stats(self.memory, available, used)
    }
}

/// The memory statistics of a host device that recorded `total` bytes of
/// main memory, when the system reports `available` bytes as available and
/// `used` bytes as used.
pub fn memory_stats(total: usize, available: u64, used: u64) -> (stats: MemoryStats)
    ensures
        stats == (MemoryStats { total, available: available as usize, used: used as usize }),
{
    MemoryStats { total, available: available as usize, used: used as usize }
}

/// `sysinfo::System`, the snapshot of the machine that `sysinfo` keeps.
/// Opaque here: it is only made, refreshed and asked.
#[verifier::external_type_specification]
#[verifier::external_body]
pub struct ExSystem(sysinfo::System);

/// `std::sync::RwLock`. Opaque here: nothing is claimed of what it guards.
#[verifier::external_type_specification]
#[verifier::external_body]
#[verifier::reject_recursive_types(T)]
pub struct ExRwLock<T: ?Sized>(std::sync::RwLock<T>);

/// `std::sync::RwLockWriteGuard`, the exclusive access that a `RwLock` hands out.
#[verifier::external_type_specification]
#[verifier::external_body]
#[verifier::reject_recursive_types(T)]
pub struct ExRwLockWriteGuard<'a, T: ?Sized + 'a>(std::sync::RwLockWriteGuard<'a, T>);

/// `std::sync::PoisonError`, which a lock hands out in place of its guard
/// after a holder panicked.
#[verifier::external_type_specification]
#[verifier::external_body]
#[verifier::reject_recursive_types(T)]
pub struct ExPoisonError<T>(std::sync::PoisonError<T>);

/// `System::new_with_specifics`, asked for processors and main memory.
/// Nothing is claimed of the snapshot it returns.
#[verifier::external_body]
fn new_system() -> System {
    System::new_with_specifics(
        sysinfo::RefreshKind::new().with_cpu(sysinfo::CpuRefreshKind::default()).with_memory(
            sysinfo::MemoryRefreshKind::default().with_ram(),
        ),
    )
}

/// `System::refresh_cpu`. Nothing is claimed of the snapshot afterwards.
#[verifier::external_body]
fn refresh_cpu(system: &mut System) {
    system.refresh_cpu()
}

/// `System::refresh_memory`. Nothing is claimed of the snapshot afterwards.
#[verifier::external_body]
fn refresh_memory(system: &mut System) {
    system.refresh_memory()
}

/// What a snapshot holds of its cores: the model name of each, as
/// `Cpu::brand` gives it, in the order of `System::cpus`. Which names these
/// are is not claimed; a snapshot that is not refreshed keeps them.
pub uninterp spec fn core_brands_of(system: sysinfo::System) -> Seq<Seq<char>>;

/// `System::cpus`, counted: the number of cores that the snapshot holds.
#[verifier::external_body]
fn core_count(system: &System) -> (count: usize)
    ensures
        count == core_brands_of(*system).len(),
{
    system.cpus().len()
}

/// `System::cpus` at `index`, given by its `Cpu::brand`: the model name of
/// that core. The index must be that of a core.
#[verifier::external_body]
fn core_brand(system: &System, index: usize) -> (brand: String)
    requires
        index < core_brands_of(*system).len(),
    ensures
        brand@ == core_brands_of(*system)[index as int],
{
    system.cpus()[index].brand().to_string()
}

/// The size of main memory that a snapshot holds, in bytes, as
/// `System::total_memory` gives it. Which number it is is not claimed.
pub uninterp spec fn total_memory_of(system: sysinfo::System) -> u64;

/// The available memory that a snapshot holds, in bytes, as
/// `System::available_memory` gives it. Which number it is is not claimed.
pub uninterp spec fn available_memory_of(system: sysinfo::System) -> u64;

/// `System::total_memory`: reads the snapshot.
#[verifier::external_body]
fn total_memory(system: &System) -> (bytes: u64)
    ensures
        bytes == total_memory_of(*system),
{
    system.total_memory()
}

/// `System::available_memory`: reads the snapshot.
#[verifier::external_body]
fn available_memory(system: &System) -> (bytes: u64)
    ensures
        bytes == available_memory_of(*system),
{
    system.available_memory()
}

/// `System::used_memory`. Nothing is claimed of the number. On some
/// platforms it is the snapshot's total less its available memory, taken
/// without a check: so it is asked only of a snapshot whose available
/// memory is within its total.
#[verifier::external_body]
fn used_memory(system: &System) -> u64
    requires
        available_memory_of(*system) <= total_memory_of(*system),
{
    system.used_memory()
}

/// `RwLock::new`. Nothing is claimed of the lock.
#[verifier::external_body]
fn guarded(system: System) -> RwLock<System> {
    RwLock::new(system)
}

/// `Arc::clone`: one more handle on the same lock.
#[verifier::external_body]
fn shared(system: &Arc<RwLock<System>>) -> Arc<RwLock<System>> {
    Arc::clone(system)
}

/// `RwLock::write`: waits for exclusive access. The guard comes back in
/// `Err` where an earlier holder panicked. No caller here holds a guard of
/// the same lock while it asks for another.
#[verifier::external_body]
fn write(system: &RwLock<System>) -> Result<
    RwLockWriteGuard<'_, System>,
    PoisonError<RwLockWriteGuard<'_, System>>,
> {
    system.write()
}

/// `PoisonError::into_inner`: the guard that the error carries.
#[verifier::external_body]
fn into_inner<'a>(poisoned: PoisonError<RwLockWriteGuard<'a, System>>) -> RwLockWriteGuard<
    'a,
    System,
> {
    poisoned.into_inner()
}

/// `DerefMut::deref_mut` of the guard: the snapshot behind it.
#[verifier::external_body]
fn snapshot<'a, 'b>(guard: &'a mut RwLockWriteGuard<'b, System>) -> &'a mut System {
    &mut *guard
}

} // verus!
