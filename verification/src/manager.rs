//! The manager: it owns the devices, broadcasts commands to them and replays
//! the commands that were saved.

use crate::command::{
    Command, CommandError, CommandErrorView, CommandResult, CREATING_CONTEXT, LISTING_DEVICES,
};
use crate::config::{commands_of, Config};
use crate::device::GDeviceModelRef;
use crate::dispatch::{
    answers_all, broadcast_attempts, lemma_answers_all_concat,
    lemma_broadcast_reaches_every_device, none_fits, replay_attempts, saved_for_all,
    slot_attempts, slot_replay, total_devices, Delivery, Slot,
};
use crate::registry::{collected, DeviceRegistry, ModelInfo};
use vstd::prelude::*;

verus! {

/// How the USB transport came up: `T` is its context, `B` its list of the
/// attached devices.
pub enum Transport<T, B> {
    /// No context could be had: the platform's USB subsystem is not available.
    Unavailable(rusb::Error),
    /// A context was had, but the attached devices could not be listed.
    Unlisted(rusb::Error),
    /// The context, and the attached devices as they were listed once.
    Listed(T, B),
}

/// The manager of all attached devices.
///
/// It keeps the transport's context for as long as it lives, the snapshot of
/// the saved commands, and the registry of models with their devices. The
/// devices are found once, when the manager is made, and never again.
#[verifier::reject_recursive_types(T)]
pub struct GDeviceManager<T> {
    _context: T,
    config: Config,
    devices: DeviceRegistry,
}

impl<T> GDeviceManager<T> {
    /// The snapshot of the saved commands that the manager holds.
    pub closed spec fn snapshot(&self) -> Config {
        self.config
    }

    /// The registry of models and devices that the manager holds.
    pub closed spec fn registry(&self) -> DeviceRegistry {
        self.devices
    }

    /// The models of the manager as slots.
    pub open spec fn slots(&self) -> Seq<Slot> {
        self.registry().slots()
    }

    /// The snapshot and the registry are well formed.
    pub open spec fn wf(&self) -> bool {
        self.snapshot().wf() && self.registry().wf()
    }

    /// Asks every model for its devices on the bus and registers what it
    /// finds, in the order of the models.
    ///
    /// What a model calls itself and what it finds is the model's affair:
    /// `found` stands for the answers, one slot for each model. The registry
    /// is what [`collected`] makes of them. So of two models that give the
    /// same name, the first keeps its place and its description, with the
    /// devices that the second found; and a model that finds no device is
    /// registered without devices.
    pub fn find_devices<B>(models: Vec<GDeviceModelRef<B>>, usb_devices: &B) -> (registry:
        DeviceRegistry)
        ensures
            registry.wf(),
            exists|found: Seq<Slot>|
                found.len() == models.len() && registry.slots() == #[trigger] collected(found),
    {
        let mut registry = DeviceRegistry::new();
        let ghost mut found: Seq<Slot> = Seq::empty();
        let mut i: usize = 0;
        while i < models.len()
            invariant
                i <= models.len(),
                registry.wf(),
                found.len() == i,
                registry.slots() == collected(found),
            decreases models.len() - i,
        {
            let info = ModelInfo {
                name: models[i].get_name().to_owned(),
                sectors: models[i].get_sectors(),
                default_color: models[i].get_default_color(),
            };
            let devices = models[i].find(usb_devices);
            proof {
                let slot = info.slot(devices.len() as nat);
                assert(found.push(slot).drop_last() =~= found);
                found = found.push(slot);
            }
            registry.register(info, devices);
            i += 1;
        }
        registry
    }

    /// Makes a manager of a context, a registry and a snapshot, and replays the
    /// snapshot on the devices at once.
    ///
    /// The report holds one delivery for each attempt of the replay. A device
    /// that fails is reported and keeps nothing from the others.
    pub fn new(context: T, devices: DeviceRegistry, config: Config) -> (made: (
        Self,
        Vec<Delivery>,
    ))
        requires
            devices.wf(),
            config.wf(),
        ensures
            made.0.wf(),
            made.0.snapshot() == config,
            made.0.slots() == devices.slots(),
            answers_all(made.1@, replay_attempts(devices.slots(), config@)),
            forall|k: int|
                0 <= k < devices.slots().len() && none_fits(
                    commands_of(config@, devices.slots()[k].name),
                    devices.slots()[k].sectors,
                ) ==> made.0.registry().handles(k) == devices.handles(k),
    {
        let mut manager = GDeviceManager { _context: context, config, devices };
        let report = manager.send();
        (manager, report)
    }

    /// Makes a manager from the way the transport came up.
    ///
    /// Without a context, or without the list of attached devices, there is no
    /// manager: the error names the step that failed and carries the
    /// transport's code. With both there always is one: each model is asked
    /// for its devices, see [`GDeviceManager::find_devices`], and the snapshot
    /// is replayed on them; a model without devices, or a device that fails in
    /// the replay, is no error.
    pub fn try_new<B>(
        transport: Transport<T, B>,
        models: Vec<GDeviceModelRef<B>>,
        config: Config,
    ) -> (r: CommandResult<(Self, Vec<Delivery>)>)
        requires
            config.wf(),
        ensures
            match transport {
                Transport::Unavailable(code) => r is Err && r->Err_0@ == CommandErrorView::Usb(
                    CREATING_CONTEXT@,
                    code,
                ),
                Transport::Unlisted(code) => r is Err && r->Err_0@ == CommandErrorView::Usb(
                    LISTING_DEVICES@,
                    code,
                ),
                Transport::Listed(_, _) => {
                    &&& r is Ok
                    &&& (r->Ok_0).0.wf()
                    &&& (r->Ok_0).0.snapshot() == config
                    &&& exists|found: Seq<Slot>|
                        found.len() == models.len() && (r->Ok_0).0.slots() == #[trigger] collected(
                            found,
                        )
                    &&& answers_all((r->Ok_0).1@, replay_attempts((r->Ok_0).0.slots(), config@))
                },
            },
    {
        match transport {
            Transport::Unavailable(code) => Err(CommandError::usb(CREATING_CONTEXT, code)),
            Transport::Unlisted(code) => Err(CommandError::usb(LISTING_DEVICES, code)),
            Transport::Listed(context, usb_devices) => {
                let devices = Self::find_devices(models, &usb_devices);
                Ok(Self::new(context, devices, config))
            },
        }
    }

    /// The snapshot of the saved commands, as it is to be persisted.
    pub fn config(&self) -> (config: &Config)
        ensures
            *config == self.snapshot(),
    {
        &self.config
    }

    /// The registry of models and devices.
    pub fn devices(&self) -> (devices: &DeviceRegistry)
        ensures
            *devices == self.registry(),
    {
        &self.devices
    }

    /// Sends the command to every device of every model, and saves it as the
    /// current command of every model.
    ///
    /// Every device is attempted, in the order of the registry, whatever
    /// became of the devices before it: the report holds one delivery for each
    /// device, and the call itself never fails. A model whose sectors the
    /// command does not fit gets the sector error for each of its devices, and
    /// none of them is touched. The command is saved for a model after all of
    /// its devices were attempted, under the model's name, in place of what was
    /// saved for it before. No device is added or dropped.
    pub fn send_command(&mut self, cmd: Command) -> (report: Vec<Delivery>)
        requires
            old(self).wf(),
        ensures
            final(self).wf(),
            final(self).slots() == old(self).slots(),
            answers_all(report@, broadcast_attempts(old(self).slots(), cmd)),
            report@.len() == total_devices(old(self).slots()),
            final(self).snapshot()@ == saved_for_all(
                old(self).snapshot()@,
                old(self).slots(),
                cmd,
            ),
            forall|k: int|
                0 <= k < old(self).slots().len() && !cmd.fits(old(self).slots()[k].sectors)
                    ==> final(self).registry().handles(k) == old(self).registry().handles(k),
    {
        let ghost slots = self.slots();
        let ghost saved = self.snapshot()@;
        let mut report: Vec<Delivery> = Vec::new();
        let count = self.devices.len();
        let mut i: usize = 0;
        while i < count
            invariant
                i <= count,
                count == slots.len(),
                slots == old(self).slots(),
                saved == old(self).snapshot()@,
                self.devices.slots() == slots,
                self.config.wf(),
                self.config@ == saved_for_all(saved, slots.take(i as int), cmd),
                answers_all(report@, broadcast_attempts(slots.take(i as int), cmd)),
                forall|k: int|
                    0 <= k < slots.len() && !cmd.fits(slots[k].sectors) ==> self.devices.handles(k)
                        == old(self).registry().handles(k),
            decreases count - i,
        {
            let ghost so_far = report@;
            let mut part = self.devices.deliver_to_model(i, cmd);
            proof {
                assert(slots.take(i + 1).drop_last() =~= slots.take(i as int));
                lemma_answers_all_concat(
                    so_far,
                    broadcast_attempts(slots.take(i as int), cmd),
                    part@,
                    slot_attempts(slots[i as int], cmd),
                );
            }
            report.append(&mut part);
            self.config.save_command(self.devices.info(i).name.as_str(), cmd);
            i += 1;
        }
        proof {
            assert(slots.take(count as int) =~= slots);
            lemma_broadcast_reaches_every_device(slots, cmd);
        }
        report
    }

    /// Replays the snapshot: every model's saved commands, in their order, to
    /// every device of the model.
    ///
    /// Every attempt is made, whatever became of those before it; the report
    /// holds one delivery for each. Neither the snapshot nor the number of
    /// devices changes. The devices of a model are not touched where the
    /// snapshot holds no command for the model, or none that fits its sectors.
    pub fn send(&mut self) -> (report: Vec<Delivery>)
        requires
            old(self).wf(),
        ensures
            final(self).wf(),
            final(self).slots() == old(self).slots(),
            final(self).snapshot() == old(self).snapshot(),
            answers_all(report@, replay_attempts(old(self).slots(), old(self).snapshot()@)),
            forall|k: int|
                0 <= k < old(self).slots().len() && none_fits(
                    commands_of(old(self).snapshot()@, old(self).slots()[k].name),
                    old(self).slots()[k].sectors,
                ) ==> final(self).registry().handles(k) == old(self).registry().handles(k),
    {
        let ghost slots = self.slots();
        let ghost saved = self.snapshot()@;
        let mut report: Vec<Delivery> = Vec::new();
        let count = self.devices.len();
        let mut i: usize = 0;
        while i < count
            invariant
                i <= count,
                count == slots.len(),
                slots == old(self).slots(),
                saved == old(self).snapshot()@,
                self.devices.slots() == slots,
                self.config == old(self).snapshot(),
                self.config.wf(),
                answers_all(report@, replay_attempts(slots.take(i as int), saved)),
                forall|k: int|
                    0 <= k < slots.len() && (k >= i || none_fits(
                        commands_of(saved, slots[k].name),
                        slots[k].sectors,
                    )) ==> self.devices.handles(k) == old(self).registry().handles(k),
            decreases count - i,
        {
            let commands = self.config.commands_for(self.devices.info(i).name.as_str());
            let ghost slot = slots[i as int];
            let ghost before = report@;
            let ghost mut done: Seq<Delivery> = Seq::empty();
            let mut c: usize = 0;
            while c < commands.len()
                invariant
                    c <= commands.len(),
                    i < count,
                    count == slots.len(),
                    slot == slots[i as int],
                    commands@ == commands_of(saved, slot.name),
                    self.devices.slots() == slots,
                    self.config == old(self).snapshot(),
                    answers_all(before, replay_attempts(slots.take(i as int), saved)),
                    report@ == before + done,
                    answers_all(done, slot_replay(slot, commands@.take(c as int))),
                    forall|k: int|
                        0 <= k < slots.len() && (k > i || (k < i && none_fits(
                            commands_of(saved, slots[k].name),
                            slots[k].sectors,
                        ))) ==> self.devices.handles(k) == old(self).registry().handles(k),
                    none_fits(commands@.take(c as int), slot.sectors) ==> self.devices.handles(
                        i as int,
                    ) == old(self).registry().handles(i as int),
                decreases commands.len() - c,
            {
                let cmd = commands[c];
                let mut part = self.devices.deliver_to_model(i, cmd);
                proof {
                    let next = commands@.take(c + 1);
                    assert(next.drop_last() =~= commands@.take(c as int));
                    lemma_answers_all_concat(
                        done,
                        slot_replay(slot, commands@.take(c as int)),
                        part@,
                        slot_attempts(slot, cmd),
                    );
                    done = done + part@;
                }
                report.append(&mut part);
                c += 1;
            }
            proof {
                assert(commands@.take(commands.len() as int) =~= commands@);
                assert(slots.take(i + 1).drop_last() =~= slots.take(i as int));
                lemma_answers_all_concat(
                    before,
                    replay_attempts(slots.take(i as int), saved),
                    done,
                    slot_replay(slot, commands@),
                );
            }
            i += 1;
        }
        proof {
            assert(slots.take(count as int) =~= slots);
        }
        report
    }

    /// Takes a freshly loaded snapshot in place of the one held, and replays
    /// it as [`GDeviceManager::send`] does.
    ///
    /// The old snapshot is dropped whole, nothing of it is merged. The devices
    /// are those that were found when the manager was made: none is added,
    /// none is dropped, the bus is not asked again.
    pub fn refresh(&mut self, loaded: Config) -> (report: Vec<Delivery>)
        requires
            old(self).wf(),
            loaded.wf(),
        ensures
            final(self).wf(),
            final(self).slots() == old(self).slots(),
            final(self).snapshot() == loaded,
            answers_all(report@, replay_attempts(old(self).slots(), loaded@)),
            forall|k: int|
                0 <= k < old(self).slots().len() && none_fits(
                    commands_of(loaded@, old(self).slots()[k].name),
                    old(self).slots()[k].sectors,
                ) ==> final(self).registry().handles(k) == old(self).registry().handles(k),
    {
        self.config = loaded;
        self.send()
    }

    /// What every device says of itself, for diagnostics: one text for each
    /// device, in the order of the registry.
    pub fn debug_info(&self) -> (infos: Vec<String>)
        ensures
            infos@.len() == total_devices(self.slots()),
    {
        self.devices.debug_info()
    }
}

} // verus!
