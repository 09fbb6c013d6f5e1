//! What the accelerator backends have in common: the plain values that a
//! native device list is read into, and the rule that says which of its
//! entries become devices and which make the whole list unusable.

use vstd::prelude::*;

verus! {

/// The hardware type of a device as a native interface reports it.
#[derive(Copy, Clone, Debug, PartialEq, Eq, Structural)]
pub enum NativeKind {
    IntegratedGPU,
    DiscreteGPU,
    VirtualGPU,
    CPU,
    Other,
}

/// What a native interface reports of one device.
pub struct Properties {
    /// The device's name; empty where the interface gave none.
    pub name: String,
    pub kind: NativeKind,
    /// The device's local memory, in bytes.
    pub total_memory: usize,
}

/// What came of asking a native device list for one of its entries.
pub enum Probe {
    /// The list gave no handle for the entry.
    NullHandle,
    /// The list gave a handle, and the handle these properties.
    Found(Properties),
}

/// An entry of a native device list that becomes a device.
pub struct DeviceInfo {
    /// The entry's position in the native list.
    pub slot: usize,
    pub name: String,
    pub kind: NativeKind,
    /// The device's local memory, in bytes; never zero.
    pub memory: usize,
}

/// A [`DeviceInfo`] with its name as text.
pub struct DeviceInfoView {
    pub slot: usize,
    pub name: Seq<char>,
    pub kind: NativeKind,
    pub memory: usize,
}

impl View for DeviceInfo {
    type V = DeviceInfoView;

    open spec fn view(&self) -> DeviceInfoView {
        DeviceInfoView { slot: self.slot, name: self.name@, kind: self.kind, memory: self.memory }
    }
}

/// The infos of a list, each by its view.
pub open spec fn infos(kept: Seq<DeviceInfo>) -> Seq<DeviceInfoView> {
    kept.map_values(|info: DeviceInfo| info@)
}

/// An entry without a handle or without a name makes the list unusable.
pub open spec fn spoils(probe: Probe) -> bool {
    match probe {
        Probe::NullHandle => true,
        Probe::Found(properties) => properties.name@.len() == 0,
    }
}

/// Whether any entry makes the list unusable.
pub open spec fn spoiled(probes: Seq<Probe>) -> bool {
    exists|i: int| 0 <= i < probes.len() && spoils(#[trigger] probes[i])
}

/// The entries that become devices, in the order of the list: those that
/// report memory. An entry that reports none is left out.
pub open spec fn selected(probes: Seq<Probe>) -> Seq<DeviceInfoView>
    decreases probes.len(),
{
    if probes.len() == 0 {
        Seq::empty()
    } else {
        let earlier = selected(probes.drop_last());
        match probes.last() {
            Probe::Found(properties) => if properties.total_memory != 0 {
                earlier.push(
                    DeviceInfoView {
                        slot: (probes.len() - 1) as usize,
                        name: properties.name@,
                        kind: properties.kind,
                        memory: properties.total_memory,
                    },
                )
            } else {
                earlier
            },
            Probe::NullHandle => earlier,
        }
    }
}

/// Every selected entry reports memory, has a place in the list, and comes
/// after the entries selected before it.
pub proof fn lemma_selected_entries(probes: Seq<Probe>)
    requires
        probes.len() <= usize::MAX,
    ensures
        selected(probes).len() <= probes.len(),
        forall|k: int|
            0 <= k < selected(probes).len() ==> {
                let info = #[trigger] selected(probes)[k];
                &&& info.memory != 0
                &&& info.slot < probes.len()
                &&& probes[info.slot as int] matches Probe::Found(properties)
                &&& properties.total_memory == info.memory
                &&& properties.name@ == info.name
            },
        forall|k: int, l: int|
            0 <= k < l < selected(probes).len() ==> selected(probes)[k].slot < selected(
                probes,
            )[l].slot,
    decreases probes.len(),
{
    if probes.len() > 0 {
        lemma_selected_entries(probes.drop_last());
        let earlier = selected(probes.drop_last());
        assert forall|k: int| 0 <= k < earlier.len() implies selected(probes)[k] == earlier[k] by {}
    }
}

/// Whether `probe` makes its list unusable: once it does, no further entry
/// needs to be asked.
pub fn unusable(probe: &Probe) -> (spoilt: bool)
    ensures
        spoilt == spoils(*probe),
{
    match probe {
        Probe::NullHandle => true,
        Probe::Found(properties) => properties.name.as_str().is_empty(),
    }
}

/// Reads a native device list that was asked entry by entry.
///
/// Gives nothing if an entry has no handle or no name: then the list cannot
/// be used at all. Otherwise gives the entries that report memory, in the
/// order of the list, each with its position.
pub fn select(probes: &Vec<Probe>) -> (kept: Option<Vec<DeviceInfo>>)
    ensures
        kept.is_none() <==> spoiled(probes@),
        kept matches Some(list) ==> infos(list@) == selected(probes@),
{
    let mut list: Vec<DeviceInfo> = Vec::new();
    let mut i: usize = 0;
    assert(probes@.take(0) =~= Seq::empty());
    assert(infos(list@) =~= Seq::empty());
    while i < probes.len()
        invariant
            i <= probes.len(),
            !spoiled(probes@.take(i as int)),
            infos(list@) == selected(probes@.take(i as int)),
        decreases probes.len() - i,
    {
        let ghost seen = probes@.take(i as int);
        let ghost next = probes@.take(i + 1);
        assert(next.drop_last() =~= seen);
        assert(next.last() == probes@[i as int]);
        if unusable(&probes[i]) {
            assert(spoils(probes@[i as int]));
            return None;
        }
        match &probes[i] {
            Probe::NullHandle => {},
            Probe::Found(properties) => {
                if properties.total_memory != 0 {
                    let ghost before = infos(list@);
                    let info = DeviceInfo {
                        slot: i,
                        name: properties.name.clone(),
                        kind: properties.kind,
                        memory: properties.total_memory,
                    };
                    list.push(info);
                    assert(infos(list@) =~= before.push(info@));
                }
            },
        }
        assert(!spoiled(next)) by {
            if spoiled(next) {
                let k = choose|k: int| 0 <= k < next.len() && spoils(#[trigger] next[k]);
                if k < i {
                    assert(spoils(seen[k]));
                }
            }
        }
        i = i + 1;
    }
    assert(probes@.take(i as int) =~= probes@);
    Some(list)
}

} // verus!
