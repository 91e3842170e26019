//! The table of commands.
//!
//! A table is viewed as a map from a command's name and a variant kind to the
//! handler registered there. A command exists exactly while one of its two
//! slots holds a handler.

use crate::handler::{CliCommandSystems, HandlerId, VariantKind};
use crate::store::{
    store_contains_key, store_entries, store_get, store_insert, store_keys, store_new,
    store_remove, CommandStore,
};
use vstd::prelude::*;

verus! {

/// What a table holds: the handler in each occupied slot.
pub type Slots = Map<(Seq<char>, VariantKind), HandlerId>;

/// Whether a command of this name exists.
pub open spec fn has_command(slots: Slots, name: Seq<char>) -> bool {
    slots.contains_key((name, VariantKind::NoArgs)) || slots.contains_key((name, VariantKind::Args))
}

/// The handler in a slot, if it holds one.
pub open spec fn handler_at(slots: Slots, name: Seq<char>, kind: VariantKind) -> Option<
    HandlerId,
> {
    if slots.contains_key((name, kind)) {
        Some(slots[(name, kind)])
    } else {
        None
    }
}

/// The table without the command `name`.
pub open spec fn without_command(slots: Slots, name: Seq<char>) -> Slots {
    slots.remove((name, VariantKind::NoArgs)).remove((name, VariantKind::Args))
}

/// The table in which the command `from` goes by the name `to`: the slots of
/// `from` are found under `to`, nothing is left under `from`, and every other
/// command is as it was.
pub open spec fn renamed(slots: Slots, from: Seq<char>, to: Seq<char>) -> Slots {
    Map::new(
        |key: (Seq<char>, VariantKind)|
            if key.0 == to {
                slots.contains_key((from, key.1))
            } else {
                key.0 != from && slots.contains_key(key)
            },
        |key: (Seq<char>, VariantKind)|
            if key.0 == to {
                slots[(from, key.1)]
            } else {
                slots[key]
            },
    )
}

/// Why a command could not be renamed.
#[derive(Clone, Copy, Debug, PartialEq, Eq, Structural)]
pub enum RenameError {
    /// The new name already names a command.
    NameConflict,
    /// There is no command of the old name.
    UnknownCommand,
}

/// Whether the command `from` can be given the name `to`, and if not, why.
pub open spec fn rename_outcome(slots: Slots, from: Seq<char>, to: Seq<char>) -> Result<
    (),
    RenameError,
> {
    if has_command(slots, to) {
        Err(RenameError::NameConflict)
    } else if !has_command(slots, from) {
        Err(RenameError::UnknownCommand)
    } else {
        Ok(())
    }
}

/// The table after an attempt to give the command `from` the name `to`.
pub open spec fn after_rename(slots: Slots, from: Seq<char>, to: Seq<char>) -> Slots {
    if rename_outcome(slots, from, to) is Ok {
        renamed(slots, from, to)
    } else {
        slots
    }
}

/// Stores all the known commands that can be called.
///
/// For each command the table holds the handlers that implement it, under the
/// command's name. The table is a resource: a host keeps one per world.
pub struct CliCommands {
    commands: CommandStore,
}

impl bevy::ecs::system::Resource for CliCommands {

}

/// The occupied slots of a map from names to pairs of slots.
spec fn occupied(entries: Map<Seq<char>, CliCommandSystems>) -> Slots {
    Map::new(
        |key: (Seq<char>, VariantKind)|
            entries.contains_key(key.0) && entries[key.0].slot(key.1) is Some,
        |key: (Seq<char>, VariantKind)| entries[key.0].slot(key.1)->0,
    )
}

/// No name is stored with both slots vacant.
spec fn no_vacant_entry(entries: Map<Seq<char>, CliCommandSystems>) -> bool {
    forall|name: Seq<char>| #[trigger] entries.contains_key(name) ==> !entries[name].is_vacant()
}

proof fn lemma_occupied_empty()
    ensures
        occupied(Map::empty()) == Slots::empty(),
{
    assert(occupied(Map::empty()) =~= Slots::empty());
}

/// Storing `slots.with_slot(kind, Some(handler))` under `name` fills exactly
/// that slot.
proof fn lemma_occupied_fill(
    entries: Map<Seq<char>, CliCommandSystems>,
    name: Seq<char>,
    slots: CliCommandSystems,
    kind: VariantKind,
    handler: HandlerId,
)
    requires
        entries.contains_key(name) ==> entries[name] == slots,
        !entries.contains_key(name) ==> slots.is_vacant(),
    ensures
        occupied(entries.insert(name, slots.with_slot(kind, Some(handler)))) == occupied(
            entries,
        ).insert((name, kind), handler),
{
    assert(occupied(entries.insert(name, slots.with_slot(kind, Some(handler)))) =~= occupied(
        entries,
    ).insert((name, kind), handler));
}

/// Emptying one slot of the entry under `name`, and dropping the entry when
/// that leaves it vacant, removes exactly that slot.
proof fn lemma_occupied_clear(
    entries: Map<Seq<char>, CliCommandSystems>,
    name: Seq<char>,
    kind: VariantKind,
)
    requires
        entries.contains_key(name),
    ensures
        ({
            let rest = entries[name].with_slot(kind, None);
            let after = if rest.is_vacant() {
                entries.remove(name)
            } else {
                entries.insert(name, rest)
            };
            occupied(after) == occupied(entries).remove((name, kind))
        }),
{
    let rest = entries[name].with_slot(kind, None);
    let after = if rest.is_vacant() {
        entries.remove(name)
    } else {
        entries.insert(name, rest)
    };
    assert(occupied(after) =~= occupied(entries).remove((name, kind)));
}

proof fn lemma_occupied_remove(entries: Map<Seq<char>, CliCommandSystems>, name: Seq<char>)
    ensures
        occupied(entries.remove(name)) == without_command(occupied(entries), name),
{
    assert(occupied(entries.remove(name)) =~= without_command(occupied(entries), name));
}

proof fn lemma_occupied_rename(
    entries: Map<Seq<char>, CliCommandSystems>,
    from: Seq<char>,
    to: Seq<char>,
)
    requires
        entries.contains_key(from),
        !entries.contains_key(to),
    ensures
        occupied(entries.remove(from).insert(to, entries[from])) == renamed(
            occupied(entries),
            from,
            to,
        ),
{
    assert(occupied(entries.remove(from).insert(to, entries[from])) =~= renamed(
        occupied(entries),
        from,
        to,
    ));
}

/// Under the invariant a name is stored exactly when its command exists.
proof fn lemma_stored_iff_command(entries: Map<Seq<char>, CliCommandSystems>, name: Seq<char>)
    requires
        no_vacant_entry(entries),
    ensures
        entries.contains_key(name) == has_command(occupied(entries), name),
{
}

impl View for CliCommands {
    type V = Slots;

    closed spec fn view(&self) -> Slots {
        occupied(store_entries(self.commands))
    }
}

impl CliCommands {
    #[verifier::type_invariant]
    spec fn inv(self) -> bool {
        no_vacant_entry(store_entries(self.commands))
    }

    /// A table without commands.
    pub fn new() -> (table: CliCommands)
        ensures
            table@ == Slots::empty(),
    {
        let commands = store_new();
        proof {
            lemma_occupied_empty();
        }
        CliCommands { commands }
    }

    /// Puts `handler` into the slot `kind` of the command `name`, in place of
    /// the handler that was there if there was one. The command is created if
    /// it did not exist; its other slot is left alone.
    pub fn register(&mut self, name: &str, kind: VariantKind, handler: HandlerId)
        ensures
            final(self)@ == old(self)@.insert((name@, kind), handler),
    {
        proof {
            use_type_invariant(&*self);
        }
        // The map is moved out of the table while it changes, and an empty one
        // stands in for it: the invariant holds of the table at every step.
        let mut commands = store_new();
        std::mem::swap(&mut commands, &mut self.commands);
        let ghost before = store_entries(commands);
        let mut slots = match store_get(&commands, name) {
            Some(slots) => slots,
            None => CliCommandSystems::vacant(),
        };
        let ghost found = slots;
        slots.set(kind, Some(handler));
        store_insert(&mut commands, name.to_owned(), slots);
        proof {
            lemma_occupied_fill(before, name@, found, kind, handler);
        }
        self.commands = commands;
    }

    /// Empties the slot `kind` of the command `name`. A command whose other
    /// slot is empty too ceases to exist. Where the slot holds nothing, the
    /// table is left as it is.
    pub fn deregister(&mut self, name: &str, kind: VariantKind)
        ensures
            final(self)@ == old(self)@.remove((name@, kind)),
    {
        let _ = self.take(name, kind);
    }

    /// Removes the command `name` with both of its handlers, if it exists.
    pub fn unregister_clicommand(&mut self, name: &str)
        ensures
            final(self)@ == without_command(old(self)@, name@),
    {
        proof {
            use_type_invariant(&*self);
        }
        let mut commands = store_new();
        std::mem::swap(&mut commands, &mut self.commands);
        proof {
            lemma_occupied_remove(store_entries(commands), name@);
        }
        let _ = store_remove(&mut commands, name);
        self.commands = commands;
    }

    /// The handler in the slot `kind` of the command `name`.
    pub fn lookup(&self, name: &str, kind: VariantKind) -> (handler: Option<HandlerId>)
        ensures
            handler == handler_at(self@, name@, kind),
    {
        match store_get(&self.commands, name) {
            Some(slots) => slots.get(kind),
            None => None,
        }
    }

    /// Takes the handler out of the slot `kind` of the command `name` and
    /// returns it. The slot is empty afterwards, as after `deregister`, until
    /// the handler is put back.
    pub fn take(&mut self, name: &str, kind: VariantKind) -> (handler: Option<HandlerId>)
        ensures
            handler == handler_at(old(self)@, name@, kind),
            final(self)@ == old(self)@.remove((name@, kind)),
    {
        proof {
            use_type_invariant(&*self);
        }
        let mut commands = store_new();
        std::mem::swap(&mut commands, &mut self.commands);
        let ghost before = store_entries(commands);
        let handler = match store_get(&commands, name) {
            Some(slots) => {
                let handler = slots.get(kind);
                let mut rest = slots;
                rest.set(kind, None);
                proof {
                    lemma_occupied_clear(before, name@, kind);
                }
                if rest.is_empty() {
                    let _ = store_remove(&mut commands, name);
                } else {
                    store_insert(&mut commands, name.to_owned(), rest);
                }
                handler
            },
            None => {
                assert(occupied(before) =~= occupied(before).remove((name@, kind)));
                None
            },
        };
        self.commands = commands;
        handler
    }

    /// Puts a handler that `take` removed back into its slot. The command is
    /// created again if it has ceased to exist in the meantime, and a handler
    /// registered in the slot since is replaced.
    pub fn put_back(&mut self, name: &str, kind: VariantKind, handler: HandlerId)
        ensures
            final(self)@ == old(self)@.insert((name@, kind), handler),
    {
        self.register(name, kind, handler);
    }

    /// Whether a command of this name exists.
    pub fn command_available(&self, name: &str) -> (available: bool)
        ensures
            available == has_command(self@, name@),
    {
        proof {
            use_type_invariant(self);
            lemma_stored_iff_command(store_entries(self.commands), name@);
        }
        store_contains_key(&self.commands, name)
    }

    /// The names of all commands, each once, in no particular order.
    pub fn iter_names(&self) -> (names: Vec<String>)
        ensures
            forall|i: int| 0 <= i < names@.len() ==> has_command(self@, #[trigger] names@[i]@),
            forall|name: Seq<char>|
                has_command(self@, name) ==> exists|i: int|
                    0 <= i < names@.len() && #[trigger] names@[i]@ == name,
            forall|i: int, j: int| 0 <= i < j < names@.len() ==> names@[i]@ != names@[j]@,
    {
        let names = store_keys(&self.commands);
        proof {
            use_type_invariant(self);
            let entries = store_entries(self.commands);
            assert forall|i: int| 0 <= i < names@.len() implies has_command(
                self@,
                #[trigger] names@[i]@,
            ) by {
                lemma_stored_iff_command(entries, names@[i]@);
            }
            assert forall|name: Seq<char>| has_command(self@, name) implies exists|i: int|
                0 <= i < names@.len() && #[trigger] names@[i]@ == name by {
                lemma_stored_iff_command(entries, name);
                assert(entries.contains_key(name));
            }
        }
        names
    }

    /// Gives the command `old_name` the name `new_name`.
    ///
    /// Fails, and leaves the table as it is, where `new_name` already names a
    /// command (the same one too), or else where no command is called
    /// `old_name`.
    pub fn rename_command(&mut self, old_name: &str, new_name: &str) -> (outcome: Result<
        (),
        RenameError,
    >)
        ensures
            outcome == rename_outcome(old(self)@, old_name@, new_name@),
            final(self)@ == after_rename(old(self)@, old_name@, new_name@),
    {
        proof {
            use_type_invariant(&*self);
            lemma_stored_iff_command(store_entries(self.commands), new_name@);
            lemma_stored_iff_command(store_entries(self.commands), old_name@);
        }
        if store_contains_key(&self.commands, new_name) {
            return Err(RenameError::NameConflict);
        }
        let mut commands = store_new();
        std::mem::swap(&mut commands, &mut self.commands);
        let ghost before = store_entries(commands);
        let outcome = match store_remove(&mut commands, old_name) {
            Some(slots) => {
                store_insert(&mut commands, new_name.to_owned(), slots);
                proof {
                    lemma_occupied_rename(before, old_name@, new_name@);
                }
                Ok(())
            },
            None => {
                assert(store_entries(commands) =~= before);
                Err(RenameError::UnknownCommand)
            },
        };
        self.commands = commands;
        outcome
    }
}

impl Default for CliCommands {
    fn default() -> (table: CliCommands)
        ensures
            table@ == Slots::empty(),
    {
        CliCommands::new()
    }
}

} // verus!
