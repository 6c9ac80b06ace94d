//! The commands last applied, by model.

use crate::command::Command;
use vstd::prelude::*;

verus! {

/// The commands of one model.
#[derive(Debug)]
struct ModelCommands {
    model: String,
    commands: Vec<Command>,
}

/// A snapshot of the persisted commands: for each model name the commands to
/// replay, in order. A snapshot is well formed, [`Config::wf`], when no name
/// occurs twice in it; every snapshot that this module hands out is.
#[derive(Debug)]
pub struct Config {
    entries: Vec<ModelCommands>,
}

/// The commands that a snapshot holds for a model: none where it does not know
/// the name.
pub open spec fn commands_of(config: Map<Seq<char>, Seq<Command>>, model: Seq<char>) -> Seq<
    Command,
> {
    if config.contains_key(model) {
        config[model]
    } else {
        Seq::empty()
    }
}

impl Config {
    /// No model name occurs twice.
    pub closed spec fn wf(&self) -> bool {
        forall|i: int, j: int|
            0 <= i < j < self.entries.len() ==> (#[trigger] self.entries[i]).model@ != (
            #[trigger] self.entries[j]).model@
    }

    /// The entry at position `i` is that of the model.
    spec fn holds_at(self, model: Seq<char>, i: int) -> bool {
        0 <= i < self.entries.len() && self.entries[i].model@ == model
    }

    /// The snapshot as a map from model name to commands.
    pub closed spec fn view(&self) -> Map<Seq<char>, Seq<Command>> {
        Map::new(
            |model: Seq<char>| exists|i: int| self.holds_at(model, i),
            |model: Seq<char>| self.entries[choose|i: int| self.holds_at(model, i)].commands@,
        )
    }

    /// A snapshot without any model.
    pub fn new() -> (config: Config)
        ensures
            config.wf(),
            config@ == Map::<Seq<char>, Seq<Command>>::empty(),
    {
        let config = Config { entries: Vec::new() };
        config
    }

    /// Where the entry of the model is, if there is one.
    fn position(&self, model: &str) -> (at: Option<usize>)
        ensures
            match at {
                Some(i) => self.holds_at(model@, i as int),
                None => forall|i: int| !self.holds_at(model@, i),
            },
    {
        let wanted = model.to_owned();
        let mut i: usize = 0;
        while i < self.entries.len()
            invariant
                i <= self.entries.len(),
                wanted@ == model@,
                forall|k: int| 0 <= k < i ==> !self.holds_at(model@, k),
            decreases self.entries.len() - i,
        {
            if self.entries[i].model == wanted {
                return Some(i);
            }
            i += 1;
        }
        None
    }

    /// The commands to replay on the devices of a model, in order: none for a
    /// model that the snapshot does not know.
    pub fn commands_for(&self, model: &str) -> (commands: Vec<Command>)
        requires
            self.wf(),
        ensures
            commands@ == commands_of(self@, model@),
    {
        match self.position(model) {
            Some(i) => {
                copy_commands(&self.entries[i].commands)
            },
            None => Vec::new(),
        }
    }

    /// The names of the models that the snapshot holds commands for, each
    /// of them once.
    pub fn models(&self) -> (models: Vec<String>)
        requires
            self.wf(),
        ensures
            forall|name: Seq<char>|
                self@.contains_key(name) <==> exists|i: int|
                    0 <= i < models.len() && (#[trigger] models[i])@ == name,
            forall|i: int, j: int|
                0 <= i < j < models.len() ==> (#[trigger] models[i])@ != (#[trigger] models[j])@,
    {
        let mut models: Vec<String> = Vec::new();
        let mut i: usize = 0;
        while i < self.entries.len()
            invariant
                i <= self.entries.len(),
                models.len() == i,
                forall|k: int| 0 <= k < i ==> (#[trigger] models[k])@ == self.entries[k].model@,
            decreases self.entries.len() - i,
        {
            models.push(self.entries[i].model.clone());
            i += 1;
        }
        assert forall|name: Seq<char>| self@.contains_key(name) implies exists|i: int|
            0 <= i < models.len() && (#[trigger] models[i])@ == name by {
            let k = choose|k: int| self.holds_at(name, k);
            assert(models[k]@ == name);
        }
        assert forall|name: Seq<char>|
            (exists|i: int| 0 <= i < models.len() && (#[trigger] models[i])@ == name)
                implies self@.contains_key(name) by {
            let k = choose|i: int| 0 <= i < models.len() && (#[trigger] models[i])@ == name;
            assert(self.holds_at(name, k));
        }
        models
    }

    /// In a well-formed snapshot the map holds, under each entry's name, that
    /// entry's commands.
    proof fn lemma_lookup(self, i: int)
        requires
            self.wf(),
            0 <= i < self.entries.len(),
        ensures
            self@.contains_key(self.entries[i].model@),
            self@[self.entries[i].model@] == self.entries[i].commands@,
    {
        assert(self.holds_at(self.entries[i].model@, i));
    }

    /// Replaces what the snapshot holds for a model by the given commands;
    /// the other models keep theirs.
    pub fn set_commands(&mut self, model: &str, commands: Vec<Command>)
        requires
            old(self).wf(),
        ensures
            final(self).wf(),
            final(self)@ == old(self)@.insert(model@, commands@),
    {
        let ghost before = *self;
        let ghost target = before@.insert(model@, commands@);
        match self.position(model) {
            Some(i) => {
                self.entries[i].commands = commands;
                assert forall|name: Seq<char>| #[trigger] self@.contains_key(name) implies {
                    &&& target.contains_key(name)
                    &&& self@[name] == target[name]
                } by {
                    let k = choose|k: int| self.holds_at(name, k);
                    before.lemma_lookup(k);
                }
                assert forall|name: Seq<char>| target.contains_key(name) implies self@.contains_key(
                    name,
                ) by {
                    if name == model@ {
                        self.lemma_lookup(i as int);
                    } else {
                        let k = choose|k: int| before.holds_at(name, k);
                        self.lemma_lookup(k);
                    }
                }
            },
            None => {
                self.entries.push(ModelCommands { model: model.to_owned(), commands });
                let ghost last = before.entries.len() as int;
                assert(self.wf()) by {
                    assert forall|i: int, j: int| 0 <= i < j < self.entries.len() implies (
                    #[trigger] self.entries[i]).model@ != (#[trigger] self.entries[j]).model@ by {
                        if j == last {
                            assert(!before.holds_at(model@, i));
                        }
                    }
                }
                assert forall|name: Seq<char>| #[trigger] self@.contains_key(name) implies {
                    &&& target.contains_key(name)
                    &&& self@[name] == target[name]
                } by {
                    let k = choose|k: int| self.holds_at(name, k);
                    if k < last {
                        before.lemma_lookup(k);
                    }
                }
                assert forall|name: Seq<char>| target.contains_key(name) implies self@.contains_key(
                    name,
                ) by {
                    if name == model@ {
                        self.lemma_lookup(last);
                    } else {
                        let k = choose|k: int| before.holds_at(name, k);
                        self.lemma_lookup(k);
                    }
                }
            },
        }
    }

    /// Records `cmd` as the one current command of a model: whatever the
    /// snapshot held for the model before is superseded.
    pub fn save_command(&mut self, model: &str, cmd: Command)
        requires
            old(self).wf(),
        ensures
            final(self).wf(),
            final(self)@ == old(self)@.insert(model@, seq![cmd]),
    {
        let mut commands: Vec<Command> = Vec::new();
        commands.push(cmd);
        self.set_commands(model, commands);
    }
}

/// A copy of the commands, in their order.
fn copy_commands(commands: &Vec<Command>) -> (copy: Vec<Command>)
    ensures
        copy@ == commands@,
{
    let mut copy: Vec<Command> = Vec::new();
    let mut i: usize = 0;
    while i < commands.len()
        invariant
            i <= commands.len(),
            copy@ == commands@.take(i as int),
        decreases commands.len() - i,
    {
        copy.push(commands[i]);
        i += 1;
    }
    copy
}

} // verus!
