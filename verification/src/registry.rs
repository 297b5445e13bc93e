//! The registry from client identifiers to player entities.

use std::collections::HashMap;
use vstd::prelude::*;
use crate::protocol::ClientId;

verus! {

/// A reference to an entity of the simulation.
#[derive(Debug, Clone, Copy, PartialEq, Eq, Structural)]
pub struct Entity(pub u64);

/// Which entity stands for which client.
pub struct ClientIds {
    entities: HashMap<u64, Entity>,
}

impl View for ClientIds {
    type V = Map<ClientId, Entity>;

    closed spec fn view(&self) -> Map<ClientId, Entity> {
        Map::new(
            |id: ClientId| self.entities@.contains_key(id.0),
            |id: ClientId| self.entities@[id.0],
        )
    }
}

impl ClientIds {
    /// What resolving `id` gives in the registry `entries`.
    pub open spec fn lookup(entries: Map<ClientId, Entity>, id: ClientId) -> Option<Entity> {
        if entries.contains_key(id) {
            Some(entries[id])
        } else {
            None
        }
    }

    /// A registry that knows no client.
    pub fn new() -> (ids: ClientIds)
        ensures
            ids@ == Map::<ClientId, Entity>::empty(),
    {
        let ids = ClientIds { entities: HashMap::new() };
        assert(ids@ =~= Map::<ClientId, Entity>::empty());
        ids
    }

    /// Registers `entity` for `id`, in place of any entity registered before.
    pub fn register(&mut self, id: ClientId, entity: Entity)
        ensures
            final(self)@ == old(self)@.insert(id, entity),
    {
        broadcast use vstd::std_specs::hash::group_hash_axioms;
        self.entities.insert(id.0, entity);
        assert(self@ =~= old(self)@.insert(id, entity));
    }

    /// The entity registered for `id`, or nothing for an unknown client.
    pub fn resolve(&self, id: ClientId) -> (entity: Option<Entity>)
        ensures
            entity == ClientIds::lookup(self@, id),
    {
        broadcast use vstd::std_specs::hash::group_hash_axioms;
        match self.entities.get(&id.0) {
            Some(entity) => Some(*entity),
            None => None,
        }
    }
}

/// Resolving gives what was registered: after `entity` is registered for `id`,
/// `id` resolves to `entity`, and every other client resolves as before.
pub proof fn lemma_registered_resolves(
    entries: Map<ClientId, Entity>,
    id: ClientId,
    entity: Entity,
    other: ClientId,
)
    ensures
        ClientIds::lookup(entries.insert(id, entity), id) == Some(entity),
        other != id ==> ClientIds::lookup(entries.insert(id, entity), other) == ClientIds::lookup(
            entries,
            other,
        ),
{
}

/// A client that was never registered resolves to nothing.
pub proof fn lemma_unregistered_resolves_to_nothing(entries: Map<ClientId, Entity>, id: ClientId)
    requires
        !entries.contains_key(id),
    ensures
        ClientIds::lookup(entries, id) is None,
        ClientIds::lookup(Map::<ClientId, Entity>::empty(), id) is None,
{
}

} // verus!
