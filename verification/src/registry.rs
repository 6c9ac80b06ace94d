//! The registry: which devices belong to which model.

use crate::color::RgbColor;
use crate::command::Command;
use crate::device::GDeviceRef;
use crate::dispatch::{
    answers_all, deliver, distinct_names, names, slot_attempts, total_devices, Delivery, Slot,
};
use vstd::prelude::*;
use vstd::std_specs::cmp::PartialEqSpecImpl;

verus! {

/// What is known of a model without asking it again: the name that tells it
/// from the others, its number of sectors and its default color.
///
/// The name alone says which model it is: two descriptions are equal, `==`,
/// when they give the same name, whatever else they say.
#[derive(Debug)]
pub struct ModelInfo {
    pub name: String,
    pub sectors: u8,
    pub default_color: RgbColor,
}

impl PartialEq for ModelInfo {
    fn eq(&self, other: &Self) -> (r: bool) {
        self.name == other.name
    }
}

impl PartialEqSpecImpl for ModelInfo {
    open spec fn obeys_eq_spec() -> bool {
        true
    }

    open spec fn eq_spec(&self, other: &Self) -> bool {
        self.name@ == other.name@
    }
}

impl Eq for ModelInfo {

}

impl ModelInfo {
    /// The slot of the model in a registry where `devices` of its devices are
    /// attached.
    pub open spec fn slot(self, devices: nat) -> Slot {
        Slot {
            name: self.name@,
            sectors: self.sectors,
            default_color: self.default_color,
            devices,
        }
    }
}

/// A model and the devices of it that are attached.
struct ModelDevices {
    info: ModelInfo,
    devices: Vec<GDeviceRef>,
}

/// The models that a manager knows, each with its attached devices, in the
/// order in which they were registered. It is well formed,
/// [`DeviceRegistry::wf`], when no two of its models have the same name; every
/// registry that this module hands out is.
pub struct DeviceRegistry {
    entries: Vec<ModelDevices>,
}

/// The position of the slot of the given name.
pub open spec fn slot_of(slots: Seq<Slot>, name: Seq<char>) -> int {
    choose|i: int| 0 <= i < slots.len() && (#[trigger] slots[i]).name == name
}

/// The slots after a model was registered: `model` says what it called
/// itself, its sectors and color, and how many devices it found.
///
/// A model of a new name gets its slot after the others. For a name that is
/// already there, the slot that has it keeps its place, its sectors and its
/// color, and counts the new devices in place of the old ones.
pub open spec fn registered(slots: Seq<Slot>, model: Slot) -> Seq<Slot> {
    if names(slots, model.name) {
        let at = slot_of(slots, model.name);
        slots.update(at, Slot { devices: model.devices, ..slots[at] })
    } else {
        slots.push(model)
    }
}

/// The slots after several models were registered one after the other, each
/// as its slot in `found` says.
pub open spec fn collected(found: Seq<Slot>) -> Seq<Slot>
    decreases found.len(),
{
    if found.len() == 0 {
        Seq::empty()
    } else {
        registered(collected(found.drop_last()), found.last())
    }
}

impl DeviceRegistry {
    /// The registry as slots: one for each model, in order.
    pub closed spec fn slots(&self) -> Seq<Slot> {
        Seq::new(
            self.entries.len() as nat,
            |i: int|
                Slot {
                    name: self.entries[i].info.name@,
                    sectors: self.entries[i].info.sectors,
                    default_color: self.entries[i].info.default_color,
                    devices: self.entries[i].devices.len() as nat,
                },
        )
    }

    /// The device handles of the model at position `at`.
    pub closed spec fn handles(&self, at: int) -> Seq<GDeviceRef> {
        self.entries[at].devices@
    }

    /// No two models have the same name.
    pub open spec fn wf(&self) -> bool {
        distinct_names(self.slots())
    }

    /// A registry without any model.
    pub fn new() -> (registry: DeviceRegistry)
        ensures
            registry.wf(),
            registry.slots() == Seq::<Slot>::empty(),
    {
        let registry = DeviceRegistry { entries: Vec::new() };
        registry
    }

    /// The number of models.
    pub fn len(&self) -> (n: usize)
        ensures
            n == self.slots().len(),
    {
        self.entries.len()
    }

    /// What is known of the model at position `at`.
    pub fn info(&self, at: usize) -> (info: &ModelInfo)
        requires
            at < self.slots().len(),
        ensures
            info.name@ == self.slots()[at as int].name,
            info.sectors == self.slots()[at as int].sectors,
            info.default_color == self.slots()[at as int].default_color,
    {
        &self.entries[at].info
    }

    /// The number of attached devices of the model at position `at`.
    pub fn device_count(&self, at: usize) -> (n: usize)
        requires
            at < self.slots().len(),
        ensures
            n == self.slots()[at as int].devices,
            n == self.handles(at as int).len(),
    {
        self.entries[at].devices.len()
    }

    /// Where the model of the description is, if it is there.
    fn position(&self, info: &ModelInfo) -> (at: Option<usize>)
        ensures
            match at {
                Some(i) => i < self.slots().len() && self.slots()[i as int].name == info.name@,
                None => !names(self.slots(), info.name@),
            },
    {
        let mut i: usize = 0;
        while i < self.entries.len()
            invariant
                i <= self.entries.len(),
                forall|k: int| 0 <= k < i ==> (#[trigger] self.slots()[k]).name != info.name@,
            decreases self.entries.len() - i,
        {
            if self.entries[i].info == *info {
                return Some(i);
            }
            i += 1;
        }
        None
    }

    /// Records a model with the devices of it that were found.
    ///
    /// The slots change as [`registered`] says. The handles of the model are
    /// then the given ones; a model of the same name that was there before
    /// loses its handles, every other model keeps its own.
    pub fn register(&mut self, info: ModelInfo, devices: Vec<GDeviceRef>)
        requires
            old(self).wf(),
        ensures
            final(self).wf(),
            final(self).slots() == registered(old(self).slots(), info.slot(devices.len() as nat)),
            final(self).handles(slot_of(final(self).slots(), info.name@)) == devices@,
            forall|k: int|
                0 <= k < old(self).slots().len() && old(self).slots()[k].name != info.name@
                    ==> final(self).handles(k) == old(self).handles(k),
    {
        let ghost before = *self;
        let ghost target = registered(before.slots(), info.slot(devices.len() as nat));
        match self.position(&info) {
            Some(i) => {
                self.entries[i].devices = devices;
                assert(self.slots() =~= target);
                proof {
                    lemma_slot_of(self.slots(), i as int);
                }
            },
            None => {
                self.entries.push(ModelDevices { info, devices });
                assert(self.slots() =~= target);
                proof {
                    lemma_slot_of(self.slots(), before.slots().len() as int);
                }
            },
        }
    }

    /// Sends one command to every device of the model at position `at`, in the
    /// order of the devices, and reports on each.
    ///
    /// A failure with one device does not keep the command from the next. No
    /// model gains or loses a device. A command that does not fit the model's
    /// sectors reaches no device: all handles of the model are then as they
    /// were. The handles of the other models are as they were in any case.
    pub fn deliver_to_model(&mut self, at: usize, cmd: Command) -> (report: Vec<Delivery>)
        requires
            at < old(self).slots().len(),
        ensures
            final(self).slots() == old(self).slots(),
            answers_all(report@, slot_attempts(old(self).slots()[at as int], cmd)),
            forall|k: int|
                0 <= k < old(self).slots().len() && k != at ==> final(self).handles(k) == old(
                    self,
                ).handles(k),
            !cmd.fits(old(self).slots()[at as int].sectors) ==> final(self).handles(at as int)
                == old(self).handles(at as int),
    {
        let ghost slot = self.slots()[at as int];
        let ghost attempts = slot_attempts(slot, cmd);
        let mut report: Vec<Delivery> = Vec::new();
        let sectors = self.entries[at].info.sectors;
        let count = self.entries[at].devices.len();
        let mut j: usize = 0;
        while j < count
            invariant
                j <= count,
                at < self.entries.len(),
                self.entries.len() == old(self).entries.len(),
                forall|k: int|
                    0 <= k < self.entries.len() && k != at ==> #[trigger] self.entries[k] == old(
                        self,
                    ).entries[k],
                self.entries[at as int].info == old(self).entries[at as int].info,
                self.entries[at as int].devices.len() == count,
                !cmd.fits(sectors) ==> self.entries[at as int].devices@ == old(
                    self,
                ).entries[at as int].devices@,
                slot == old(self).slots()[at as int],
                sectors == slot.sectors,
                count == slot.devices,
                attempts == slot_attempts(slot, cmd),
                report@.len() == j,
                forall|k: int| 0 <= k < j ==> (#[trigger] report@[k]).answers(attempts[k]),
            decreases count - j,
        {
            let ghost handles = self.entries[at as int].devices@;
            let outcome = deliver(&mut self.entries[at].devices[j], sectors, cmd);
            let model = self.entries[at].info.name.clone();
            report.push(Delivery { model, device: j, command: cmd, outcome });
            j += 1;
        }
        report
    }

    /// What every device says of itself, model after model and device after
    /// device.
    pub fn debug_info(&self) -> (infos: Vec<String>)
        ensures
            infos@.len() == total_devices(self.slots()),
    {
        let mut infos: Vec<String> = Vec::new();
        let mut i: usize = 0;
        while i < self.entries.len()
            invariant
                i <= self.entries.len(),
                infos@.len() == total_devices(self.slots().take(i as int)),
            decreases self.entries.len() - i,
        {
            let mut j: usize = 0;
            while j < self.entries[i].devices.len()
                invariant
                    i < self.entries.len(),
                    j <= self.entries[i as int].devices.len(),
                    infos@.len() == total_devices(self.slots().take(i as int)) + j,
                decreases self.entries[i as int].devices.len() - j,
            {
                infos.push(self.entries[i].devices[j].get_debug_info());
                j += 1;
            }
            assert(self.slots().take(i + 1).drop_last() =~= self.slots().take(i as int));
            i += 1;
        }
        assert(self.slots().take(self.entries.len() as int) =~= self.slots());
        infos
    }
}

/// Registering keeps names apart, and a model of a new name keeps every slot
/// that was there in its place.
pub proof fn lemma_registered(slots: Seq<Slot>, model: Slot)
    requires
        distinct_names(slots),
    ensures
        distinct_names(registered(slots, model)),
        names(registered(slots, model), model.name),
        registered(slots, model).len() == if names(slots, model.name) {
            slots.len()
        } else {
            slots.len() + 1
        },
        forall|i: int|
            0 <= i < slots.len() ==> (#[trigger] registered(slots, model)[i]).name
                == slots[i].name,
{
    let after = registered(slots, model);
    if names(slots, model.name) {
        let at = slot_of(slots, model.name);
        assert(after[at].name == model.name);
    } else {
        assert(after[slots.len() as int].name == model.name);
    }
}

/// Models are collected under distinct names: no more slots than models, and
/// at least one where there is a model at all.
pub proof fn lemma_collected(found: Seq<Slot>)
    ensures
        distinct_names(collected(found)),
        collected(found).len() <= found.len(),
        found.len() > 0 ==> collected(found).len() > 0,
    decreases found.len(),
{
    if found.len() > 0 {
        lemma_collected(found.drop_last());
    }
}

/// Models that all call themselves differently are collected as they come:
/// one slot for each, in their order.
pub proof fn lemma_collected_of_distinct(found: Seq<Slot>)
    requires
        distinct_names(found),
    ensures
        collected(found) == found,
    decreases found.len(),
{
    if found.len() > 0 {
        lemma_collected_of_distinct(found.drop_last());
    }
}

/// Among slots of distinct names, the slot of a name is the one that has it.
pub proof fn lemma_slot_of(slots: Seq<Slot>, at: int)
    requires
        distinct_names(slots),
        0 <= at < slots.len(),
    ensures
        names(slots, slots[at].name),
        slot_of(slots, slots[at].name) == at,
{
}

} // verus!
