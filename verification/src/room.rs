//! A room handle: a universally unique id and the players it started with.

use vstd::prelude::*;
use std::sync::Arc;
use crate::ids::PlayerId;

verus! {

/// `uuid::Uuid`, carried through as an opaque value.
#[verifier::external_type_specification]
#[verifier::external_body]
pub struct ExUuid(uuid::Uuid);

/// A fresh random (version 4) UUID.
///
/// Trusted: calls `uuid::Uuid::new_v4`. The value is random; Verus sees
/// nothing inside a `Uuid`, so the contract says nothing of it (in
/// particular not its version and variant bits).
#[verifier::external_body]
fn new_v4_uuid() -> (r: uuid::Uuid) {
    uuid::Uuid::new_v4()
}

/// A room handle.
pub struct Room {
    id: uuid::Uuid,
    players: Arc<Vec<PlayerId>>,
}

impl Room {
    /// The players the room holds.
    pub closed spec fn player_list(&self) -> Seq<PlayerId> {
        self.players@
    }

    /// The room's id.
    pub closed spec fn id_spec(&self) -> uuid::Uuid {
        self.id
    }

    /// A room with a fresh random id and no players.
    fn new() -> (r: Self)
        ensures
            r.player_list().len() == 0,
    {
        Room { id: new_v4_uuid(), players: Arc::new(Vec::new()) }
    }

    /// The room's id.
    pub fn id(&self) -> (r: uuid::Uuid)
        ensures
            r == self.id_spec(),
    {
        self.id
    }
}

} // verus!
