//! The directory of live rooms: room id to mailbox, and room code to room
//! id. It holds no game state. (The server keeps it behind a lock; each
//! access is a short lookup or update, never held across a send.)
//!
//! The code table is a concurrent `DashMap`. The mailboxes are kept in a
//! std `HashMap`: their type is the server's, and what a `DashMap` holds can
//! only be named for a fixed key and value type.

use vstd::prelude::*;
use dashmap::DashMap;
use std::collections::HashMap;
use crate::ids::{spec_decode, PlayerId, RoomCode, RoomId};
use crate::text::{append_str, decimal, u64_to_decimal};

verus! {

broadcast use vstd::std_specs::hash::group_hash_axioms;

/// The code key of a room id: the lower 30 bits its room code stands for.
pub open spec fn code_key(id: u64) -> u64 {
    (id % 0x4000_0000) as u64
}

/// What a code table holds: code key to room id.
pub uninterp spec fn code_table(m: DashMap<u64, u64>) -> Map<u64, u64>;

/// An empty code table.
///
/// Trusted: calls `DashMap::new`, which makes an empty map.
#[verifier::external_body]
fn codes_new() -> (m: DashMap<u64, u64>)
    ensures
        code_table(m).is_empty(),
{
    DashMap::new()
}

/// The room id a code key leads to, if any.
///
/// Trusted: calls `DashMap::get`, which finds the entry whose key equals
/// `key`, if there is one; the id is copied out.
#[verifier::external_body]
fn codes_get(m: &DashMap<u64, u64>, key: u64) -> (r: Option<u64>)
    ensures
        match r {
            Some(v) => code_table(*m).contains_key(key) && code_table(*m)[key] == v,
            None => !code_table(*m).contains_key(key),
        },
{
    match m.get(&key) {
        Some(v) => Some(*v),
        None => None,
    }
}

/// Maps a code key to a room id, replacing any previous entry.
///
/// Trusted: calls `DashMap::insert`, which maps `key` to `value`, replacing
/// any previous value for an equal key.
#[verifier::external_body]
fn codes_insert(m: &mut DashMap<u64, u64>, key: u64, value: u64)
    ensures
        code_table(*final(m)) == code_table(*old(m)).insert(key, value),
{
    m.insert(key, value);
}

/// Removes a code key if present.
///
/// Trusted: calls `DashMap::remove`, which removes the entry whose key
/// equals `key`, if any.
#[verifier::external_body]
fn codes_remove(m: &mut DashMap<u64, u64>, key: u64)
    ensures
        code_table(*final(m)) == code_table(*old(m)).remove(key),
{
    m.remove(&key);
}

/// Room id to mailbox (`S`), and code key to room id.
pub struct RoomRegistry<S> {
    rooms: HashMap<u64, S>,
    codes: DashMap<u64, u64>,
}

impl<S> RoomRegistry<S> {
    /// The live rooms and their mailboxes.
    pub closed spec fn rooms(&self) -> Map<u64, S> {
        self.rooms@
    }

    /// Code keys and the room each one leads to.
    pub closed spec fn codes(&self) -> Map<u64, u64> {
        code_table(self.codes)
    }

    /// Finitely many live rooms, and every code leads to a live room, under
    /// that room's own code key.
    pub open spec fn wf(&self) -> bool {
        &&& self.rooms().dom().finite()
        &&& forall|k: u64| #[trigger] self.codes().contains_key(k) ==>
            self.rooms().contains_key(self.codes()[k]) && k == code_key(self.codes()[k])
    }

    /// An empty registry.
    pub fn new() -> (r: Self)
        ensures
            r.wf(),
            r.rooms().is_empty(),
            r.codes().is_empty(),
    {
        RoomRegistry { rooms: HashMap::new(), codes: codes_new() }
    }

    /// Registers a room's mailbox under its id and its room code.
    pub fn register(&mut self, id: RoomId, sender: S)
        requires
            old(self).wf(),
        ensures
            final(self).wf(),
            final(self).rooms() == old(self).rooms().insert(id.0, sender),
            final(self).codes() == old(self).codes().insert(code_key(id.0), id.0),
    {
        self.rooms.insert(id.0, sender);
        let key: u64 = id.0 % 0x4000_0000;
        codes_insert(&mut self.codes, key, id.0);
        assert forall|k: u64| #[trigger] self.codes().contains_key(k) implies
            self.rooms().contains_key(self.codes()[k]) && k == code_key(self.codes()[k]) by {
            if k != key {
                assert(old(self).codes().contains_key(k));
            }
        }
    }

    /// Looks up a room id by its shareable room code.
    pub fn get_id_by_code(&self, code: &RoomCode) -> (r: Option<RoomId>)
        ensures
            r == match spec_decode(code.0@) {
                Some(k) => if self.codes().contains_key(k) { Some(RoomId(self.codes()[k])) } else { None },
                None => None,
            },
    {
        match code.decode() {
            None => None,
            Some(k) => match codes_get(&self.codes, k) {
                Some(id) => Some(RoomId(id)),
                None => None,
            },
        }
    }

    /// The mailbox of a room, or `room_not_found`.
    pub fn route_target(&self, id: RoomId) -> (r: Result<&S, String>)
        ensures
            self.rooms().contains_key(id.0) ==> (r matches Ok(s) && *s == self.rooms()[id.0]),
            !self.rooms().contains_key(id.0) ==> (r matches Err(e) && e@ == "room_not_found"@),
    {
        match self.rooms.get(&id.0) {
            Some(s) => Ok(s),
            None => Err(String::from_str("room_not_found")),
        }
    }

    /// The mailbox of the room with this code, or `room_not_found`.
    pub fn route_target_by_code(&self, code: &RoomCode) -> (r: Result<(RoomId, &S), String>)
        requires
            self.wf(),
        ensures
            match spec_decode(code.0@) {
                Some(k) if self.codes().contains_key(k) =>
                    r matches Ok((id, s)) && id.0 == self.codes()[k] && *s == self.rooms()[id.0],
                _ => r matches Err(e) && e@ == "room_not_found"@,
            },
    {
        match self.get_id_by_code(code) {
            None => Err(String::from_str("room_not_found")),
            Some(id) => match self.route_target(id) {
                Ok(s) => Ok((id, s)),
                Err(e) => Err(e),
            },
        }
    }

    /// Removes a room and every code that leads to it.
    pub fn remove(&mut self, id: RoomId)
        requires
            old(self).wf(),
        ensures
            final(self).wf(),
            final(self).rooms() == old(self).rooms().remove(id.0),
            final(self).rooms().len() == if old(self).rooms().contains_key(id.0) {
                old(self).rooms().len() - 1
            } else {
                old(self).rooms().len() as int
            },
            final(self).codes() == old(self).codes().restrict(
                old(self).codes().dom().filter(|k: u64| old(self).codes()[k] != id.0),
            ),
    {
        self.rooms.remove(&id.0);
        proof {
            assert(self.rooms().dom() =~= old(self).rooms().dom().remove(id.0));
        }
        let key: u64 = id.0 % 0x4000_0000;
        let points_here = match codes_get(&self.codes, key) {
            Some(v) => v == id.0,
            None => false,
        };
        if points_here {
            codes_remove(&mut self.codes, key);
        }
        assert(self.codes() =~= old(self).codes().restrict(
            old(self).codes().dom().filter(|k: u64| old(self).codes()[k] != id.0),
        )) by {
            assert forall|k: u64| old(self).codes().contains_key(k) && old(self).codes()[k] == id.0 implies k == key by {}
        }
        assert forall|k: u64| #[trigger] self.codes().contains_key(k) implies
            self.rooms().contains_key(self.codes()[k]) && k == code_key(self.codes()[k]) by {
            assert(old(self).codes().contains_key(k));
        }
    }

    /// Number of live rooms.
    pub fn len(&self) -> (n: usize)
        ensures
            n == self.rooms().len(),
    {
        self.rooms.len()
    }

    /// Whether no room is live.
    pub fn is_empty(&self) -> (b: bool)
        ensures
            b == (self.rooms().len() == 0),
    {
        self.rooms.len() == 0
    }
}

/// A random `u16`.
///
/// Trusted: calls `rand::random::<u16>()`; the value is random.
#[verifier::external_body]
fn random_u16() -> u16 {
    rand::random::<u16>()
}

/// `n` in decimal, padded with leading zeros to at least four digits.
pub open spec fn four_digits(n: nat) -> Seq<char> {
    let d = decimal(n);
    if d.len() >= 4 { d } else { Seq::new((4 - d.len()) as nat, |i: int| '0') + d }
}

/// The join code drawn from `r`: `r mod 10000` as four digits.
pub open spec fn join_code_text(r: u16) -> Seq<char> {
    four_digits((r % 10000) as nat)
}

/// The host token drawn from `r`: `host_tok_` and `r` in decimal.
pub open spec fn host_token_text(r: u64) -> Seq<char> {
    "host_tok_"@ + decimal(r as nat)
}

/// The join code drawn from `r`.
pub fn join_code_from(r: u16) -> (s: String)
    ensures
        s@ == join_code_text(r),
{
    let n: u64 = (r % 10000) as u64;
    let d = u64_to_decimal(n);
    let ghost dv = decimal(n as nat);
    let mut s = String::new();
    let len = crate::text::chars_of(d.as_str()).len();
    if len < 4 {
        let mut k: usize = 0;
        while k < 4 - len
            invariant
                len == dv.len(),
                len < 4,
                0 <= k <= 4 - len,
                s@ == Seq::new(k as nat, |i: int| '0'),
            decreases 4 - len - k,
        {
            crate::text::push_char(&mut s, '0');
            assert(s@ =~= Seq::new((k + 1) as nat, |i: int| '0'));
            k = k + 1;
        }
    }
    append_str(&mut s, d.as_str());
    s
}

/// The host token drawn from `r`.
pub fn host_token_from(r: u64) -> (s: String)
    ensures
        s@ == host_token_text(r),
{
    let mut s = String::from_str("host_tok_");
    let d = u64_to_decimal(r);
    append_str(&mut s, d.as_str());
    s
}

/// The identity of a new room: a random id, its room code, a random
/// four-digit join code and a random host token.
pub fn new_room_identity() -> (r: (RoomId, RoomCode, String, String))
    ensures
        r.1.0@ == crate::ids::room_code_of(r.0.0),
        exists|j: u16| r.2@ == #[trigger] join_code_text(j),
        exists|h: u64| r.3@ == #[trigger] host_token_text(h),
{
    let id = RoomId::new();
    let code = id.to_room_code();
    let j = random_u16();
    let join_code = join_code_from(j);
    let h = crate::ids::random_u64();
    let host_token = host_token_from(h);
    (id, code, join_code, host_token)
}

/// A registered room is found by its code: after registering room `id`
/// with mailbox `sender`, its room code decodes to a key that leads to `id`,
/// whose mailbox is `sender`.
pub proof fn lemma_registered_room_found<S>(before: RoomRegistry<S>, after: RoomRegistry<S>, id: RoomId, sender: S)
    requires
        after.rooms() == before.rooms().insert(id.0, sender),
        after.codes() == before.codes().insert(code_key(id.0), id.0),
    ensures
        spec_decode(crate::ids::room_code_of(id.0)) == Some(code_key(id.0)),
        after.codes().contains_key(code_key(id.0)) && after.codes()[code_key(id.0)] == id.0,
        after.rooms().contains_key(id.0) && after.rooms()[id.0] == sender,
{
    crate::ids::lemma_room_code_round_trip(id.0);
}

/// A removed room is no longer reachable, by id or by any code.
pub proof fn lemma_removed_room_unreachable<S>(before: RoomRegistry<S>, after: RoomRegistry<S>, id: RoomId, k: u64)
    requires
        after.rooms() == before.rooms().remove(id.0),
        after.codes() == before.codes().restrict(before.codes().dom().filter(|c: u64| before.codes()[c] != id.0)),
    ensures
        !after.rooms().contains_key(id.0),
        after.codes().contains_key(k) ==> after.codes()[k] != id.0,
{
}

} // verus!
