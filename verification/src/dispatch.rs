//! What a broadcast and a replay attempt, as mathematics.
//!
//! A registry of models is summed up as a sequence of [`Slot`]s. From the
//! slots alone, and the commands, follows which device is asked what and in
//! which order: a sequence of [`Attempt`]s. The executable functions of the
//! library report one [`Delivery`] for each attempt.

use crate::color::RgbColor;
use crate::command::{Command, CommandError, CommandResult};
use crate::config::commands_of;
use crate::device::GDeviceRef;
use vstd::prelude::*;

verus! {

/// One model of a registry: its name, its number of sectors, its default
/// color, and how many of its devices are attached.
pub struct Slot {
    pub name: Seq<char>,
    pub sectors: u8,
    pub default_color: RgbColor,
    pub devices: nat,
}

/// One command for one device: the device is the one at index `device` among
/// those of the model `model`, which has `sectors` sectors.
pub struct Attempt {
    pub model: Seq<char>,
    pub sectors: u8,
    pub device: int,
    pub command: Command,
}

/// What became of one attempt.
#[derive(Debug, PartialEq)]
pub struct Delivery {
    /// The name of the device's model.
    pub model: String,
    /// The index of the device among those of its model.
    pub device: usize,
    /// The command that was to be sent.
    pub command: Command,
    /// `Ok` where the device took the command, else the reason.
    pub outcome: CommandResult<()>,
}

impl Delivery {
    /// The delivery is the report of `attempt`: it names the same model, device
    /// and command, and where the command does not fit the model, the outcome
    /// is the sector error.
    pub open spec fn answers(self, attempt: Attempt) -> bool {
        &&& self.model@ == attempt.model
        &&& self.device as int == attempt.device
        &&& self.command == attempt.command
        &&& !attempt.command.fits(attempt.sectors) ==> {
            &&& self.outcome is Err
            &&& self.outcome->Err_0@ == CommandError::sector_out_of_range()
        }
    }
}

/// The report holds one delivery for each attempt, in the order of the attempts.
pub open spec fn answers_all(report: Seq<Delivery>, attempts: Seq<Attempt>) -> bool {
    &&& report.len() == attempts.len()
    &&& forall|k: int| 0 <= k < report.len() ==> (#[trigger] report[k]).answers(attempts[k])
}

/// Every command of the sequence names a sector that a model with `sectors`
/// sectors does not have.
pub open spec fn none_fits(commands: Seq<Command>, sectors: u8) -> bool {
    forall|c: int| 0 <= c < commands.len() ==> !(#[trigger] commands[c]).fits(sectors)
}

/// Reports that answer two runs of attempts answer, one after the other, the
/// two runs one after the other.
pub proof fn lemma_answers_all_concat(
    first: Seq<Delivery>,
    first_attempts: Seq<Attempt>,
    second: Seq<Delivery>,
    second_attempts: Seq<Attempt>,
)
    requires
        answers_all(first, first_attempts),
        answers_all(second, second_attempts),
    ensures
        answers_all(first + second, first_attempts + second_attempts),
{
}

/// No two slots have the same name.
pub open spec fn distinct_names(slots: Seq<Slot>) -> bool {
    forall|i: int, j: int|
        0 <= i < j < slots.len() ==> (#[trigger] slots[i]).name != (#[trigger] slots[j]).name
}

/// The number of devices of all slots together.
pub open spec fn total_devices(slots: Seq<Slot>) -> nat
    decreases slots.len(),
{
    if slots.len() == 0 {
        0
    } else {
        total_devices(slots.drop_last()) + slots.last().devices
    }
}

/// One command for each device of a slot, in the order of the devices.
pub open spec fn slot_attempts(slot: Slot, command: Command) -> Seq<Attempt> {
    Seq::new(
        slot.devices,
        |j: int| Attempt { model: slot.name, sectors: slot.sectors, device: j, command },
    )
}

/// Several commands for the devices of a slot: the first command for each
/// device, then the second for each, and so on.
pub open spec fn slot_replay(slot: Slot, commands: Seq<Command>) -> Seq<Attempt>
    decreases commands.len(),
{
    if commands.len() == 0 {
        Seq::empty()
    } else {
        slot_replay(slot, commands.drop_last()) + slot_attempts(slot, commands.last())
    }
}

/// A broadcast: the command for every device of every slot, slot after slot.
pub open spec fn broadcast_attempts(slots: Seq<Slot>, command: Command) -> Seq<Attempt>
    decreases slots.len(),
{
    if slots.len() == 0 {
        Seq::empty()
    } else {
        broadcast_attempts(slots.drop_last(), command) + slot_attempts(slots.last(), command)
    }
}

/// A replay: for slot after slot, the commands that the snapshot holds under
/// the slot's name, for the devices of that slot.
pub open spec fn replay_attempts(
    slots: Seq<Slot>,
    config: Map<Seq<char>, Seq<Command>>,
) -> Seq<Attempt>
    decreases slots.len(),
{
    if slots.len() == 0 {
        Seq::empty()
    } else {
        replay_attempts(slots.drop_last(), config) + slot_replay(
            slots.last(),
            commands_of(config, slots.last().name),
        )
    }
}

/// The snapshot after a broadcast: the command is the one current command of
/// every slot's model, and the other models keep what they had.
pub open spec fn saved_for_all(
    config: Map<Seq<char>, Seq<Command>>,
    slots: Seq<Slot>,
    command: Command,
) -> Map<Seq<char>, Seq<Command>>
    decreases slots.len(),
{
    if slots.len() == 0 {
        config
    } else {
        saved_for_all(config, slots.drop_last(), command).insert(slots.last().name, seq![command])
    }
}

/// Some slot has the name.
pub open spec fn names(slots: Seq<Slot>, name: Seq<char>) -> bool {
    exists|i: int| 0 <= i < slots.len() && (#[trigger] slots[i]).name == name
}

/// A broadcast attempts exactly as many sends as there are devices.
pub proof fn lemma_broadcast_reaches_every_device(slots: Seq<Slot>, command: Command)
    ensures
        broadcast_attempts(slots, command).len() == total_devices(slots),
    decreases slots.len(),
{
    if slots.len() > 0 {
        lemma_broadcast_reaches_every_device(slots.drop_last(), command);
    }
}

/// After a broadcast the snapshot holds, for every model of the registry, the
/// command that was broadcast as the only and so the most recent one; what it
/// holds for any other name is what it held before.
pub proof fn lemma_broadcast_saves_command(
    config: Map<Seq<char>, Seq<Command>>,
    slots: Seq<Slot>,
    command: Command,
    name: Seq<char>,
)
    ensures
        names(slots, name) ==> commands_of(saved_for_all(config, slots, command), name)
            == seq![command],
        !names(slots, name) ==> {
            &&& saved_for_all(config, slots, command).contains_key(name) == config.contains_key(
                name,
            )
            &&& commands_of(saved_for_all(config, slots, command), name) == commands_of(
                config,
                name,
            )
        },
    decreases slots.len(),
{
    if slots.len() > 0 {
        let rest = slots.drop_last();
        lemma_broadcast_saves_command(config, rest, command, name);
        if names(slots, name) {
            let i = choose|i: int| 0 <= i < slots.len() && (#[trigger] slots[i]).name == name;
            if i < slots.len() - 1 {
                assert(rest[i].name == name);
            }
        }
    }
}

/// The attempts of a run that go to devices of the model `name`, in their order.
pub open spec fn attempts_on(attempts: Seq<Attempt>, name: Seq<char>) -> Seq<Attempt> {
    attempts.filter(|attempt: Attempt| attempt.model == name)
}

/// Every attempt of the run goes to a device of the model `name`.
pub open spec fn all_on(attempts: Seq<Attempt>, name: Seq<char>) -> bool {
    forall|k: int| 0 <= k < attempts.len() ==> (#[trigger] attempts[k]).model == name
}

/// A run that goes to one model only is, as a whole, what goes to that model,
/// and nothing of it goes to a model of another name.
proof fn lemma_attempts_on_one_model(attempts: Seq<Attempt>, model: Seq<char>, name: Seq<char>)
    requires
        all_on(attempts, model),
    ensures
        model == name ==> attempts_on(attempts, name) == attempts,
        model != name ==> attempts_on(attempts, name) == Seq::<Attempt>::empty(),
    decreases attempts.len(),
{
    reveal(Seq::filter);
    if attempts.len() > 0 {
        lemma_attempts_on_one_model(attempts.drop_last(), model, name);
    }
}

/// Whatever is replayed on a slot goes to the slot's model.
proof fn lemma_slot_replay_on_slot(slot: Slot, commands: Seq<Command>)
    ensures
        all_on(slot_replay(slot, commands), slot.name),
    decreases commands.len(),
{
    if commands.len() > 0 {
        lemma_slot_replay_on_slot(slot, commands.drop_last());
    }
}

/// What a replay sends to the devices of one model is what the snapshot holds
/// for that model and nothing else: each of the model's commands, in their
/// order, for each of the model's devices.
pub proof fn lemma_replay_on_model(
    slots: Seq<Slot>,
    config: Map<Seq<char>, Seq<Command>>,
    at: int,
)
    requires
        distinct_names(slots),
        0 <= at < slots.len(),
    ensures
        attempts_on(replay_attempts(slots, config), slots[at].name) == slot_replay(
            slots[at],
            commands_of(config, slots[at].name),
        ),
    decreases slots.len(),
{
    let name = slots[at].name;
    let rest = slots.drop_last();
    let last = slots.last();
    let head = replay_attempts(rest, config);
    let tail = slot_replay(last, commands_of(config, last.name));
    Seq::filter_distributes_over_add(head, tail, |attempt: Attempt| attempt.model == name);
    lemma_slot_replay_on_slot(last, commands_of(config, last.name));
    lemma_attempts_on_one_model(tail, last.name, name);
    if at == slots.len() - 1 {
        lemma_replay_misses_other_models(rest, config, name);
    } else {
        lemma_replay_on_model(rest, config, at);
    }
}

/// A replay sends nothing to a model that is not among the slots.
proof fn lemma_replay_misses_other_models(
    slots: Seq<Slot>,
    config: Map<Seq<char>, Seq<Command>>,
    name: Seq<char>,
)
    requires
        forall|i: int| 0 <= i < slots.len() ==> (#[trigger] slots[i]).name != name,
    ensures
        attempts_on(replay_attempts(slots, config), name) == Seq::<Attempt>::empty(),
    decreases slots.len(),
{
    if slots.len() > 0 {
        let rest = slots.drop_last();
        let last = slots.last();
        let head = replay_attempts(rest, config);
        let tail = slot_replay(last, commands_of(config, last.name));
        lemma_replay_misses_other_models(rest, config, name);
        Seq::filter_distributes_over_add(head, tail, |attempt: Attempt| attempt.model == name);
        lemma_slot_replay_on_slot(last, commands_of(config, last.name));
        lemma_attempts_on_one_model(tail, last.name, name);
    }
}

/// A command that was saved for a model comes back in the next replay: the
/// devices of that model, all of them and in their order, are sent the saved
/// command and nothing else. The replay asks for no device that the slots do
/// not already count.
pub proof fn lemma_replay_of_saved_command(
    slots: Seq<Slot>,
    config: Map<Seq<char>, Seq<Command>>,
    at: int,
    command: Command,
)
    requires
        distinct_names(slots),
        0 <= at < slots.len(),
    ensures
        attempts_on(
            replay_attempts(slots, config.insert(slots[at].name, seq![command])),
            slots[at].name,
        ) == slot_attempts(slots[at], command),
{
    let saved = config.insert(slots[at].name, seq![command]);
    lemma_replay_on_model(slots, saved, at);
    lemma_slot_replay_of_one(slots[at], command);
}

/// One command, replayed on a slot, is that command for each of its devices.
proof fn lemma_slot_replay_of_one(slot: Slot, command: Command)
    ensures
        slot_replay(slot, seq![command]) == slot_attempts(slot, command),
{
    let commands = seq![command];
    assert(slot_replay(slot, commands.drop_last()) =~= Seq::<Attempt>::empty());
}

/// Replaying a snapshot that holds one and the same command for every model
/// is a broadcast of that command.
proof fn lemma_replay_of_one_command(
    slots: Seq<Slot>,
    config: Map<Seq<char>, Seq<Command>>,
    command: Command,
)
    requires
        forall|i: int|
            0 <= i < slots.len() ==> commands_of(config, (#[trigger] slots[i]).name)
                == seq![command],
    ensures
        replay_attempts(slots, config) == broadcast_attempts(slots, command),
    decreases slots.len(),
{
    if slots.len() > 0 {
        lemma_replay_of_one_command(slots.drop_last(), config, command);
        lemma_slot_replay_of_one(slots.last(), command);
    }
}

/// What was broadcast is what the next replay sends: replaying the snapshot
/// as a broadcast left it repeats the broadcast, attempt for attempt.
pub proof fn lemma_replay_repeats_broadcast(
    config: Map<Seq<char>, Seq<Command>>,
    slots: Seq<Slot>,
    command: Command,
)
    ensures
        replay_attempts(slots, saved_for_all(config, slots, command)) == broadcast_attempts(
            slots,
            command,
        ),
{
    let saved = saved_for_all(config, slots, command);
    assert forall|i: int| 0 <= i < slots.len() implies commands_of(
        saved,
        (#[trigger] slots[i]).name,
    ) == seq![command] by {
        lemma_broadcast_saves_command(config, slots, command, slots[i].name);
    }
    lemma_replay_of_one_command(slots, saved, command);
}

/// Of a broadcast, each model's devices get the command once each, in their
/// order, and nothing else.
pub proof fn lemma_broadcast_on_model(slots: Seq<Slot>, command: Command, at: int)
    requires
        distinct_names(slots),
        0 <= at < slots.len(),
    ensures
        attempts_on(broadcast_attempts(slots, command), slots[at].name) == slot_attempts(
            slots[at],
            command,
        ),
{
    let saved = saved_for_all(Map::empty(), slots, command);
    lemma_replay_repeats_broadcast(Map::empty(), slots, command);
    lemma_replay_on_model(slots, saved, at);
    lemma_broadcast_saves_command(Map::empty(), slots, command, slots[at].name);
    lemma_slot_replay_of_one(slots[at], command);
}

/// The positions of the deliveries of a report that failed, in rising order:
/// these, and no others, are what a caller has to tell of.
pub fn failures(report: &Vec<Delivery>) -> (failed: Vec<usize>)
    ensures
        forall|k: int|
            0 <= k < failed.len() ==> (#[trigger] failed[k]) < report.len()
                && report[failed[k] as int].outcome is Err,
        forall|j: int, k: int| 0 <= j < k < failed.len() ==> failed[j] < failed[k],
        forall|i: int|
            0 <= i < report.len() && (#[trigger] report[i]).outcome is Err ==> failed@.contains(
                i as usize,
            ),
{
    let mut failed: Vec<usize> = Vec::new();
    let mut i: usize = 0;
    while i < report.len()
        invariant
            i <= report.len(),
            forall|k: int|
                0 <= k < failed.len() ==> (#[trigger] failed[k]) < i
                    && report[failed[k] as int].outcome is Err,
            forall|j: int, k: int| 0 <= j < k < failed.len() ==> failed[j] < failed[k],
            forall|x: int|
                0 <= x < i && (#[trigger] report[x]).outcome is Err ==> failed@.contains(
                    x as usize,
                ),
        decreases report.len() - i,
    {
        if report[i].outcome.is_err() {
            let ghost before = failed@;
            failed.push(i);
            assert forall|x: int|
                0 <= x < i + 1 && (#[trigger] report[x]).outcome is Err implies failed@.contains(
                x as usize,
            ) by {
                if x < i {
                    let at = choose|at: int| 0 <= at < before.len() && before[at] == x as usize;
                    assert(failed@[at] == x as usize);
                } else {
                    assert(failed@[before.len() as int] == i);
                }
            }
        }
        i += 1;
    }
    failed
}

/// Sends one command to one device of a model with `sectors` sectors.
///
/// A command that names a sector which the model does not have is refused
/// with the sector error before the device is touched: the device is then as
/// it was. Any other command is handed to the device, whose answer is the
/// outcome.
pub fn deliver(device: &mut GDeviceRef, sectors: u8, cmd: Command) -> (outcome: CommandResult<()>)
    ensures
        !cmd.fits(sectors) ==> {
            &&& outcome is Err
            &&& outcome->Err_0@ == CommandError::sector_out_of_range()
            &&& *final(device) == *old(device)
        },
{
    match cmd.check_sectors(sectors) {
        Ok(()) => device.send_command(cmd),
        Err(e) => Err(e),
    }
}

} // verus!
