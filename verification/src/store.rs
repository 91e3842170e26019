//! The hash map that holds the commands.
//!
//! The map is bevy's `HashMap`, which is hashbrown's with a hasher of fixed
//! state. Verus cannot look inside it, so this file is taken on trust: each
//! function makes one call of the map and states what that call does to the
//! map's entries, as hashbrown's source has it. Keys are `String`s, which the
//! map hashes and compares by their characters.

use crate::handler::CliCommandSystems;
use vstd::prelude::*;

verus! {

/// A `bevy::utils::HashMap` from command names to their handlers.
///
/// The map is held in a struct that is opaque to Verus rather than declared
/// as it is, because of its allocator parameter. What is known of it is what
/// the functions of this file state over `store_entries`.
#[verifier::external_body]
pub struct CommandStore {
    inner: bevy::utils::HashMap<String, CliCommandSystems>,
}

/// The entries of the map, keyed by the characters of the name.
pub uninterp spec fn store_entries(store: CommandStore) -> Map<Seq<char>, CliCommandSystems>;

/// `HashMap::default`: a map without entries.
#[verifier::external_body]
pub(crate) fn store_new() -> (fresh: CommandStore)
    ensures
        store_entries(fresh) =~= Map::empty(),
{
    CommandStore { inner: bevy::utils::HashMap::default() }
}

/// `HashMap::get`: a copy of the value stored under `name`, if there is one.
#[verifier::external_body]
pub(crate) fn store_get(store: &CommandStore, name: &str) -> (found: Option<CliCommandSystems>)
    ensures
        found == (if store_entries(*store).contains_key(name@) {
            Some(store_entries(*store)[name@])
        } else {
            None
        }),
{
    store.inner.get(name).copied()
}

/// `HashMap::contains_key`: whether a value is stored under `name`.
#[verifier::external_body]
pub(crate) fn store_contains_key(store: &CommandStore, name: &str) -> (found: bool)
    ensures
        found == store_entries(*store).contains_key(name@),
{
    store.inner.contains_key(name)
}

/// `HashMap::insert`: stores `slots` under `name`, in place of the value that
/// was there if there was one. No other entry changes.
#[verifier::external_body]
pub(crate) fn store_insert(store: &mut CommandStore, name: String, slots: CliCommandSystems)
    ensures
        store_entries(*final(store)) == store_entries(*old(store)).insert(name@, slots),
{
    store.inner.insert(name, slots);
}

/// `HashMap::remove`: removes the entry under `name`, if there is one, and
/// returns its value. No other entry changes.
#[verifier::external_body]
pub(crate) fn store_remove(store: &mut CommandStore, name: &str) -> (removed: Option<
    CliCommandSystems,
>)
    ensures
        store_entries(*final(store)) == store_entries(*old(store)).remove(name@),
        removed == (if store_entries(*old(store)).contains_key(name@) {
            Some(store_entries(*old(store))[name@])
        } else {
            None
        }),
{
    store.inner.remove(name)
}

/// `HashMap::keys`: every key of the map, each once and each cloned, in the
/// order in which the map happens to hold them.
#[verifier::external_body]
pub(crate) fn store_keys(store: &CommandStore) -> (names: Vec<String>)
    ensures
        forall|i: int|
            0 <= i < names@.len() ==> store_entries(*store).contains_key(#[trigger] names@[i]@),
        forall|name: Seq<char>| #[trigger]
            store_entries(*store).contains_key(name) ==> exists|i: int|
                0 <= i < names@.len() && #[trigger] names@[i]@ == name,
        forall|i: int, j: int|
            0 <= i < j < names@.len() ==> #[trigger] names@[i]@ != #[trigger] names@[j]@,
{
    store.inner.keys().cloned().collect()
}

} // verus!
