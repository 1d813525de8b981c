//! The relay's side: the rooms one relay hosts, up to a ceiling.
//!
//! The ceiling check and the insert are one call on `&mut self`. However many
//! tasks ask for a room at once, they are served one after the other, and the
//! registry never holds more rooms than its ceiling.

use crate::consts::{MAX_CLIENTS, MAX_ROOMS};
use crate::ident::{fresh_room_id, is_room_id};
use crate::registry::{
    after_remove, has_key, lemma_insert_keeps_well_formed, lemma_key_count,
    lemma_position_unique, lemma_remove_keeps_well_formed, lookup, position, slot, well_formed,
    Cache, Slot,
};
use vstd::prelude::*;

verus! {

/// Who may see a room.
#[derive(Clone, Copy, Debug, PartialEq, Eq, Structural)]
pub enum RoomPrivacy {
    Public,
    Private,
}

impl RoomPrivacy {
    /// The name of the privacy on the wire.
    pub open spec fn wire_name(self) -> Seq<char> {
        match self {
            RoomPrivacy::Public => "public"@,
            RoomPrivacy::Private => "private"@,
        }
    }

    /// The name of the privacy on the wire: `public` or `private`.
    pub fn as_str(&self) -> (name: &'static str)
        ensures
            name@ == self.wire_name(),
    {
        match self {
            RoomPrivacy::Public => "public",
            RoomPrivacy::Private => "private",
        }
    }

    /// Reads a privacy from its wire name.
    pub fn parse(name: &String) -> (privacy: Option<RoomPrivacy>)
        ensures
            name@ == "public"@ ==> privacy == Some(RoomPrivacy::Public),
            name@ == "private"@ ==> privacy == Some(RoomPrivacy::Private),
            name@ != "public"@ && name@ != "private"@ ==> privacy is None,
    {
        proof {
            reveal_strlit("public");
            reveal_strlit("private");
            assert("public"@.len() == 6);
            assert("private"@.len() == 7);
        }
        if *name == String::from_str("public") {
            Some(RoomPrivacy::Public)
        } else if *name == String::from_str("private") {
            Some(RoomPrivacy::Private)
        } else {
            None
        }
    }
}

/// What a relay answers when it has created a room.
pub struct CreateRoom {
    pub id: String,
    pub privacy: RoomPrivacy,
}

/// What the hub answers when a relay has created a room: the relay's answer
/// and the address of the relay, for the client to connect to.
pub struct CreateRoomResponse {
    pub id: String,
    pub privacy: RoomPrivacy,
    pub relay_addr: String,
}

impl CreateRoomResponse {
    /// The hub's answer for a room that the relay at `relay_addr` created.
    pub fn new(room: CreateRoom, relay_addr: String) -> (response: Self)
        ensures
            response.id == room.id,
            response.privacy == room.privacy,
            response.relay_addr == relay_addr,
    {
        CreateRoomResponse { id: room.id, privacy: room.privacy, relay_addr }
    }
}

/// Why a room was not created.
#[derive(Clone, Debug, PartialEq, Eq)]
pub enum RoomError {
    /// The relay hosts as many rooms as it may.
    CapacityExceeded,
    /// This id is in use on this relay.
    IdTaken(String),
}

/// Why a connection did not join a room.
#[derive(Clone, Copy, Debug, PartialEq, Eq, Structural)]
pub enum JoinError {
    /// The relay hosts no room with this id.
    NoSuchRoom,
    /// The connection is in a room already.
    AlreadyJoined,
    /// The relay's rooms hold as many connections as they may.
    Full,
}

/// The memberships that a registry of them stands for: each connection id
/// with the id of the room the connection is in.
pub open spec fn member_map(s: Seq<Slot<String>>) -> Map<Seq<char>, Seq<char>> {
    Map::new(|c: Seq<char>| has_key(s, c), |c: Seq<char>| s[position(s, c)].value@)
}

/// The connections that are in `room`.
pub open spec fn members_of(members: Map<Seq<char>, Seq<char>>, room: Seq<char>) -> Set<Seq<char>> {
    Set::new(|c: Seq<char>| members.dom().contains(c) && members[c] == room)
}

/// Some connection is in `room`.
pub open spec fn occupied(members: Map<Seq<char>, Seq<char>>, room: Seq<char>) -> bool {
    exists|c: Seq<char>| members.dom().contains(c) && #[trigger] members[c] == room
}

/// The memberships without those of `room`.
pub open spec fn without_room(members: Map<Seq<char>, Seq<char>>, room: Seq<char>) -> Map<
    Seq<char>,
    Seq<char>,
> {
    Map::new(|c: Seq<char>| members.dom().contains(c) && members[c] != room, |c: Seq<char>| members[c])
}

/// A room creation with this id goes through: there is room left and the id
/// is new.
pub open spec fn create_accepts(rooms: Seq<Slot<RoomPrivacy>>, ceiling: Option<usize>, id: Seq<char>) -> bool {
    &&& !(ceiling is Some && rooms.len() >= ceiling->0)
    &&& !has_key(rooms, id)
}

/// The rooms after a creation with this id: the new room at the end if the
/// creation goes through, the same rooms if not.
pub open spec fn after_create(
    rooms: Seq<Slot<RoomPrivacy>>,
    ceiling: Option<usize>,
    id: Seq<char>,
    privacy: RoomPrivacy,
) -> Seq<Slot<RoomPrivacy>> {
    if create_accepts(rooms, ceiling, id) {
        rooms.push(slot(id, privacy, None))
    } else {
        rooms
    }
}

/// The rooms a relay hosts, and who is in them. Its view is the rooms in
/// creation order, each with its privacy; the members of all rooms are a map
/// from connection id to room id, so a connection is in one room at most.
pub struct RoomRegistry {
    rooms: Cache<RoomPrivacy>,
    members: Cache<String>,
}

impl View for RoomRegistry {
    type V = Seq<Slot<RoomPrivacy>>;

    closed spec fn view(&self) -> Seq<Slot<RoomPrivacy>> {
        self.rooms@
    }
}

impl RoomRegistry {
    /// The most rooms the relay hosts.
    pub closed spec fn ceiling(&self) -> Option<usize> {
        self.rooms.ceiling()
    }

    /// Who is in which room: connection id to room id.
    pub closed spec fn members(&self) -> Map<Seq<char>, Seq<char>> {
        member_map(self.members@)
    }

    /// The most connections the rooms of the relay hold, all rooms taken
    /// together.
    pub closed spec fn member_ceiling(&self) -> usize {
        match self.members.ceiling() {
            Some(c) => c,
            None => 0,
        }
    }

    /// The memberships are kept one per connection, within their ceiling.
    pub closed spec fn members_wf(&self) -> bool {
        &&& well_formed(self.members@, self.members.ceiling())
        &&& self.members.ceiling() is Some
    }

    /// No room id is in use twice, the ceilings hold, and every member is in
    /// a room that exists.
    pub open spec fn wf(&self) -> bool {
        &&& well_formed(self@, self.ceiling())
        &&& self.ceiling() is Some
        &&& self.members_wf()
        &&& self.members().dom().finite()
        &&& self.members().dom().len() <= self.member_ceiling()
        &&& forall|c: Seq<char>|
            self.members().dom().contains(c) ==> has_key(self@, #[trigger] self.members()[c])
    }

    proof fn lemma_members_counted(&self)
        requires
            self.members_wf(),
        ensures
            self.members().dom().finite(),
            self.members().dom().len() == self.members@.len(),
            self.members().dom().len() <= self.member_ceiling(),
    {
        lemma_key_count(self.members@);
        assert(self.members().dom() =~= crate::registry::key_set(self.members@));
    }

    /// A registry for a relay that hosts up to [`MAX_ROOMS`] rooms, with up
    /// to [`MAX_CLIENTS`] connections in them.
    pub fn new() -> (r: Self)
        ensures
            r.wf(),
            r@.len() == 0,
            r.ceiling() == Some(MAX_ROOMS),
            r.member_ceiling() == MAX_CLIENTS,
            r.members() == Map::<Seq<char>, Seq<char>>::empty(),
    {
        let r = RoomRegistry {
            rooms: Cache::with_capacity(MAX_ROOMS),
            members: Cache::with_capacity(MAX_CLIENTS),
        };
        proof {
            r.lemma_members_counted();
            assert(r.members() =~= Map::<Seq<char>, Seq<char>>::empty());
        }
        r
    }

    /// A registry for a relay that hosts up to `max_rooms` rooms, with up to
    /// [`MAX_CLIENTS`] connections in them.
    pub fn with_capacity(max_rooms: usize) -> (r: Self)
        ensures
            r.wf(),
            r@.len() == 0,
            r.ceiling() == Some(max_rooms),
            r.member_ceiling() == MAX_CLIENTS,
            r.members() == Map::<Seq<char>, Seq<char>>::empty(),
    {
        let r = RoomRegistry {
            rooms: Cache::with_capacity(max_rooms),
            members: Cache::with_capacity(MAX_CLIENTS),
        };
        proof {
            r.lemma_members_counted();
            assert(r.members() =~= Map::<Seq<char>, Seq<char>>::empty());
        }
        r
    }

    /// The number of rooms.
    pub fn len(&self) -> (n: usize)
        ensures
            n == self@.len(),
    {
        self.rooms.len()
    }

    /// Creates a room under the given id.
    ///
    /// A full relay refuses, whatever the id. Otherwise an id that is in use
    /// is refused, and a new id gets a room at the end of the order.
    pub fn create_with_id(&mut self, id: String, privacy: RoomPrivacy) -> (r: Result<
        CreateRoom,
        RoomError,
    >)
        requires
            old(self).wf(),
        ensures
            final(self).wf(),
            final(self).ceiling() == old(self).ceiling(),
            final(self).members() == old(self).members(),
            final(self).member_ceiling() == old(self).member_ceiling(),
            final(self)@ == after_create(old(self)@, old(self).ceiling(), id@, privacy),
            r is Ok <==> create_accepts(old(self)@, old(self).ceiling(), id@),
            r is Ok ==> r->Ok_0.id == id && r->Ok_0.privacy == privacy,
            r is Err && old(self)@.len() >= old(self).ceiling()->0 ==> r->Err_0
                == RoomError::CapacityExceeded,
            r is Err && old(self)@.len() < old(self).ceiling()->0 ==> r->Err_0 == RoomError::IdTaken(
                id,
            ),
    {
        if self.rooms.is_full() {
            return Err(RoomError::CapacityExceeded);
        }
        if self.rooms.contains_key(&id) {
            return Err(RoomError::IdTaken(id));
        }
        let _ = self.rooms.insert(id.clone(), privacy);
        proof {
            let before = old(self)@;
            assert forall|k: Seq<char>| has_key(before, k) implies has_key(self@, k) by {
                let p = position(before, k);
                assert(0 <= p < before.len() && before[p].key == k);
                assert(self@[p] == before[p]);
            }
        }
        Ok(CreateRoom { id, privacy })
    }

    /// Creates a public room under a fresh random id and hands back the
    /// room.
    ///
    /// A full relay refuses. Otherwise a room is owed, and the only thing
    /// that can stand in its way is chance: an id is drawn, and a second one
    /// if the first is in use on this relay. If that one is in use too,
    /// nothing changes and the id comes back with the error. A relay without
    /// rooms has no id in use, so there a room is created for certain.
    pub fn create(&mut self) -> (r: Result<CreateRoom, RoomError>)
        requires
            old(self).wf(),
        ensures
            final(self).wf(),
            final(self).ceiling() == old(self).ceiling(),
            final(self).members() == old(self).members(),
            final(self).member_ceiling() == old(self).member_ceiling(),
            old(self)@.len() >= old(self).ceiling()->0 ==> r == Err::<CreateRoom, RoomError>(
                RoomError::CapacityExceeded,
            ),
            old(self)@.len() == 0 && old(self).ceiling()->0 > 0 ==> r is Ok,
            r is Err ==> final(self)@ == old(self)@,
            r is Err && old(self)@.len() < old(self).ceiling()->0 ==> r->Err_0 is IdTaken
                && is_room_id(r->Err_0->IdTaken_0@) && has_key(old(self)@, r->Err_0->IdTaken_0@),
            r is Ok ==> is_room_id(r->Ok_0.id@) && r->Ok_0.privacy == RoomPrivacy::Public,
            r is Ok ==> !has_key(old(self)@, r->Ok_0.id@),
            r is Ok ==> final(self)@ == old(self)@.push(
                slot(r->Ok_0.id@, RoomPrivacy::Public, None),
            ),
    {
        if self.rooms.is_full() {
            return Err(RoomError::CapacityExceeded);
        }
        let first = fresh_room_id();
        match self.create_with_id(first, RoomPrivacy::Public) {
            Err(RoomError::IdTaken(_)) => {
                let second = fresh_room_id();
                self.create_with_id(second, RoomPrivacy::Public)
            },
            settled => settled,
        }
    }

    fn evict_room(&mut self, room_id: &String)
        requires
            old(self).members_wf(),
        ensures
            final(self).members_wf(),
            final(self).rooms == old(self).rooms,
            final(self).members.ceiling() == old(self).members.ceiling(),
            final(self).members() == without_room(old(self).members(), room_id@),
    {
        let ids = self.members.keys();
        let ghost start = self.members@;
        let mut i: usize = 0;
        while i < ids.len()
            invariant
                i <= ids.len(),
                self.rooms == old(self).rooms,
                self.members.ceiling() == old(self).members.ceiling(),
                self.members_wf(),
                well_formed(start, old(self).members.ceiling()),
                ids@.len() == start.len(),
                forall|j: int| 0 <= j < ids@.len() ==> (#[trigger] ids@[j])@ == start[j].key,
                forall|k: Seq<char>|
                    has_key(self.members@, k) ==> has_key(start, k) && lookup(self.members@, k)
                        == #[trigger] lookup(start, k),
                forall|k: Seq<char>|
                    has_key(start, k) && !has_key(self.members@, k) ==> (#[trigger] lookup(
                        start,
                        k,
                    ))->0@ == room_id@,
                forall|j: int|
                    0 <= j < i && has_key(self.members@, (#[trigger] start[j]).key) ==> lookup(
                        start,
                        start[j].key,
                    )->0@ != room_id@,
            decreases ids.len() - i,
        {
            let ghost current = self.members@;
            let ghost key = ids@[i as int]@;
            let found = self.members.get(&ids[i]);
            let doomed = match found {
                Some(room) => *room == *room_id,
                None => false,
            };
            proof {
                assert(key == start[i as int].key);
                if has_key(current, key) {
                    assert(lookup(current, key) == lookup(start, key));
                }
            }
            if doomed {
                proof {
                    lemma_remove_keeps_well_formed(current, self.members.ceiling(), key);
                }
                let _ = self.members.remove(&ids[i]);
                proof {
                    let after = self.members@;
                    assert forall|k: Seq<char>| has_key(after, k) implies has_key(start, k) && lookup(
                        after,
                        k,
                    ) == #[trigger] lookup(start, k) by {
                        assert(k != key);
                        assert(lookup(after, k) == lookup(current, k));
                        assert(has_key(current, k));
                    }
                    assert forall|k: Seq<char>| has_key(start, k) && !has_key(after, k) implies (
                    #[trigger] lookup(start, k))->0@ == room_id@ by {
                        if k != key {
                            assert(lookup(after, k) == lookup(current, k));
                            assert(!has_key(current, k));
                        }
                    }
                    assert forall|j: int|
                        0 <= j < i + 1 && has_key(after, (#[trigger] start[j]).key) implies lookup(
                        start,
                        start[j].key,
                    )->0@ != room_id@ by {
                        let k = start[j].key;
                        assert(k != key);
                        assert(lookup(after, k) == lookup(current, k));
                        assert(has_key(current, k));
                    }
                }
            }
            i += 1;
        }
        proof {
            let now = self.members();
            let then = without_room(old(self).members(), room_id@);
            let cur = self.members@;
            assert forall|c: Seq<char>| now.dom().contains(c) == then.dom().contains(c) by {
                if has_key(cur, c) {
                    assert(lookup(cur, c) == lookup(start, c));
                    let p = position(start, c);
                    assert(0 <= p < start.len() && start[p].key == c);
                    assert(has_key(cur, start[p].key));
                    assert(lookup(start, start[p].key)->0@ != room_id@);
                }
                if has_key(start, c) && !has_key(cur, c) {
                    assert(lookup(start, c)->0@ == room_id@);
                }
            }
            assert forall|c: Seq<char>| now.dom().contains(c) implies now[c] == then[c] by {
                assert(lookup(cur, c) == lookup(start, c));
            }
            assert(now =~= then);
        }
    }

    /// Whether some connection is in the room.
    pub fn has_members(&self, room_id: &String) -> (b: bool)
        requires
            self.wf(),
        ensures
            b == occupied(self.members(), room_id@),
    {
        let all = self.members.iter();
        let mut i: usize = 0;
        while i < all.len()
            invariant
                i <= all.len(),
                self.members_wf(),
                all@.len() == self.members@.len(),
                forall|j: int|
                    0 <= j < all@.len() ==> (#[trigger] all@[j]).0@ == self.members@[j].key && *all@[j].1
                        == self.members@[j].value,
                forall|j: int| 0 <= j < i ==> (#[trigger] self.members@[j]).value@ != room_id@,
            decreases all.len() - i,
        {
            if *all[i].1 == *room_id {
                proof {
                    lemma_position_unique(self.members@, i as int);
                    let c = self.members@[i as int].key;
                    assert(self.members().dom().contains(c));
                    assert(self.members()[c] == room_id@);
                }
                return true;
            }
            i += 1;
        }
        proof {
            if occupied(self.members(), room_id@) {
                let c = choose|c: Seq<char>|
                    self.members().dom().contains(c) && #[trigger] self.members()[c] == room_id@;
                let p = position(self.members@, c);
                assert(0 <= p < self.members@.len() && self.members@[p].key == c);
                assert(self.members@[p].value@ != room_id@);
            }
        }
        false
    }

    /// Destroys the room and hands back its privacy; the other rooms keep
    /// their order. Whoever was in the room is in no room afterwards.
    pub fn destroy(&mut self, room_id: &String) -> (privacy: Option<RoomPrivacy>)
        requires
            old(self).wf(),
        ensures
            final(self).wf(),
            final(self).ceiling() == old(self).ceiling(),
            final(self).member_ceiling() == old(self).member_ceiling(),
            final(self)@ == after_remove(old(self)@, room_id@),
            final(self).members() == without_room(old(self).members(), room_id@),
            privacy == lookup(old(self)@, room_id@),
    {
        proof {
            lemma_remove_keeps_well_formed(self@, self.ceiling(), room_id@);
        }
        self.evict_room(room_id);
        let privacy = self.rooms.remove(room_id);
        proof {
            self.lemma_members_counted();
            let before = old(self)@;
            assert forall|c: Seq<char>| self.members().dom().contains(c) implies has_key(
                self@,
                #[trigger] self.members()[c],
            ) by {
                let room = self.members()[c];
                assert(old(self).members().dom().contains(c));
                assert(has_key(before, old(self).members()[c]));
                assert(lookup(self@, room) == lookup(before, room));
            }
        }
        privacy
    }

    /// Destroys every room, as a relay does when it shuts down. Nobody is in
    /// a room afterwards.
    pub fn clear(&mut self)
        requires
            old(self).wf(),
        ensures
            final(self).wf(),
            final(self).ceiling() == old(self).ceiling(),
            final(self).member_ceiling() == old(self).member_ceiling(),
            final(self)@.len() == 0,
            final(self).members() == Map::<Seq<char>, Seq<char>>::empty(),
    {
        self.rooms.clear();
        self.members.clear();
        proof {
            self.lemma_members_counted();
            assert(self.members() =~= Map::<Seq<char>, Seq<char>>::empty());
        }
    }

    /// Puts the connection in the room.
    ///
    /// The room has to exist, the connection may not be in a room yet, and
    /// the rooms of the relay may not be full of connections.
    pub fn join(&mut self, room_id: &String, connection_id: String) -> (r: Result<(), JoinError>)
        requires
            old(self).wf(),
        ensures
            final(self).wf(),
            final(self).ceiling() == old(self).ceiling(),
            final(self).member_ceiling() == old(self).member_ceiling(),
            final(self)@ == old(self)@,
            r is Ok <==> has_key(old(self)@, room_id@) && !old(self).members().dom().contains(
                connection_id@,
            ) && old(self).members().dom().len() < old(self).member_ceiling(),
            r is Ok ==> final(self).members() == old(self).members().insert(
                connection_id@,
                room_id@,
            ),
            r is Err ==> final(self).members() == old(self).members(),
            !has_key(old(self)@, room_id@) ==> r == Err::<(), JoinError>(JoinError::NoSuchRoom),
            has_key(old(self)@, room_id@) && old(self).members().dom().contains(connection_id@) ==> r
                == Err::<(), JoinError>(JoinError::AlreadyJoined),
            r is Err && has_key(old(self)@, room_id@) && !old(self).members().dom().contains(
                connection_id@,
            ) ==> r == Err::<(), JoinError>(JoinError::Full),
    {
        proof {
            self.lemma_members_counted();
        }
        if !self.rooms.contains_key(room_id) {
            return Err(JoinError::NoSuchRoom);
        }
        if self.members.contains_key(&connection_id) {
            return Err(JoinError::AlreadyJoined);
        }
        if self.members.is_full() {
            return Err(JoinError::Full);
        }
        let ghost before = self.members@;
        let room = room_id.clone();
        proof {
            lemma_insert_keeps_well_formed(before, self.members.ceiling(), slot(connection_id@, room, None));
        }
        let _ = self.members.insert(connection_id, room);
        proof {
            self.lemma_members_counted();
            let now = self.members();
            let then = old(self).members().insert(connection_id@, room_id@);
            let after = self.members@;
            assert(after == before.push(slot(connection_id@, room, None)));
            assert forall|c: Seq<char>| now.dom().contains(c) == then.dom().contains(c) by {
                if has_key(before, c) {
                    let p = position(before, c);
                    assert(0 <= p < before.len() && before[p].key == c);
                    assert(after[p].key == c);
                }
                if has_key(after, c) && c != connection_id@ {
                    let p = position(after, c);
                    assert(0 <= p < after.len() && after[p].key == c);
                    assert(before[p].key == c);
                }
                if c == connection_id@ {
                    assert(after[after.len() - 1].key == c);
                }
            }
            assert forall|c: Seq<char>| now.dom().contains(c) implies now[c] == then[c] by {
                if c == connection_id@ {
                    lemma_position_unique(after, after.len() - 1);
                } else {
                    let p = position(before, c);
                    assert(has_key(before, c));
                    assert(0 <= p < before.len() && before[p].key == c);
                    assert(after[p] == before[p]);
                    lemma_position_unique(after, p);
                }
            }
            assert(now =~= then);
        }
        Ok(())
    }

    /// Takes the connection out of the room it is in and hands back the id
    /// of that room. A room that is left without a connection is destroyed.
    pub fn leave(&mut self, connection_id: &String) -> (room: Option<String>)
        requires
            old(self).wf(),
        ensures
            final(self).wf(),
            final(self).ceiling() == old(self).ceiling(),
            final(self).member_ceiling() == old(self).member_ceiling(),
            final(self).members() == old(self).members().remove(connection_id@),
            room is Some <==> old(self).members().dom().contains(connection_id@),
            room is Some ==> room->0@ == old(self).members()[connection_id@],
            room is None ==> final(self)@ == old(self)@,
            room is Some && occupied(final(self).members(), room->0@) ==> final(self)@ == old(self)@,
            room is Some && !occupied(final(self).members(), room->0@) ==> final(self)@
                == after_remove(old(self)@, room->0@),
    {
        let ghost before = self.members@;
        proof {
            lemma_remove_keeps_well_formed(before, self.members.ceiling(), connection_id@);
        }
        let left = self.members.remove(connection_id);
        proof {
            self.lemma_members_counted();
            let now = self.members();
            let then = old(self).members().remove(connection_id@);
            let after = self.members@;
            assert forall|c: Seq<char>| now.dom().contains(c) == then.dom().contains(c) by {
                if c != connection_id@ {
                    assert(lookup(after, c) == lookup(before, c));
                }
            }
            assert forall|c: Seq<char>| now.dom().contains(c) implies now[c] == then[c] by {
                assert(lookup(after, c) == lookup(before, c));
            }
            assert(now =~= then);
        }
        match left {
            None => None,
            Some(room) => {
                if !self.has_members(&room) {
                    proof {
                        lemma_remove_keeps_well_formed(self@, self.ceiling(), room@);
                    }
                    let ghost rooms_before = self@;
                    let _ = self.rooms.remove(&room);
                    proof {
                        assert forall|c: Seq<char>| self.members().dom().contains(c) implies has_key(
                            self@,
                            #[trigger] self.members()[c],
                        ) by {
                            let r = self.members()[c];
                            assert(old(self).members().dom().contains(c));
                            assert(has_key(rooms_before, old(self).members()[c]));
                            assert(r != room@);
                            assert(lookup(self@, r) == lookup(rooms_before, r));
                        }
                    }
                }
                Some(room)
            },
        }
    }

    /// The room that the connection is in.
    pub fn room_of(&self, connection_id: &String) -> (room: Option<String>)
        requires
            self.wf(),
        ensures
            room is Some <==> self.members().dom().contains(connection_id@),
            room is Some ==> room->0@ == self.members()[connection_id@],
    {
        match self.members.get(connection_id) {
            Some(room) => Some(room.clone()),
            None => None,
        }
    }

    /// The connections that are in the room, each once.
    pub fn members_in(&self, room_id: &String) -> (ids: Vec<String>)
        requires
            self.wf(),
        ensures
            forall|i: int|
                0 <= i < ids@.len() ==> members_of(self.members(), room_id@).contains(
                    (#[trigger] ids@[i])@,
                ),
            forall|c: Seq<char>|
                members_of(self.members(), room_id@).contains(c) ==> exists|i: int|
                    0 <= i < ids@.len() && (#[trigger] ids@[i])@ == c,
            forall|i: int, j: int|
                0 <= i < j < ids@.len() ==> (#[trigger] ids@[i])@ != (#[trigger] ids@[j])@,
    {
        let all = self.members.iter();
        let ghost held = self.members@;
        let mut ids: Vec<String> = Vec::new();
        let ghost mut places: Seq<int> = Seq::empty();
        let mut i: usize = 0;
        while i < all.len()
            invariant
                i <= all.len(),
                held == self.members@,
                self.members_wf(),
                all@.len() == held.len(),
                forall|j: int|
                    0 <= j < all@.len() ==> (#[trigger] all@[j]).0@ == held[j].key && *all@[j].1
                        == held[j].value,
                places.len() == ids@.len(),
                forall|k: int|
                    0 <= k < places.len() ==> 0 <= (#[trigger] places[k]) < i && ids@[k]@
                        == held[places[k]].key && held[places[k]].value@ == room_id@,
                forall|k: int, l: int|
                    0 <= k < l < places.len() ==> (#[trigger] places[k]) < (#[trigger] places[l]),
                forall|j: int|
                    0 <= j < i && (#[trigger] held[j]).value@ == room_id@ ==> exists|k: int|
                        0 <= k < places.len() && #[trigger] places[k] == j,
            decreases all.len() - i,
        {
            if *all[i].1 == *room_id {
                ids.push(all[i].0.clone());
                proof {
                    let before = places;
                    places = places.push(i as int);
                    assert forall|j: int|
                        0 <= j < i + 1 && (#[trigger] held[j]).value@ == room_id@ implies exists|k: int|
                        0 <= k < places.len() && #[trigger] places[k] == j by {
                        if j < i {
                            let k = choose|k: int| 0 <= k < before.len() && #[trigger] before[k] == j;
                            assert(places[k] == j);
                        } else {
                            assert(places[places.len() - 1] == j);
                        }
                    }
                }
            }
            i += 1;
        }
        proof {
            let members = self.members();
            assert forall|k: int| 0 <= k < ids@.len() implies members_of(members, room_id@).contains(
                (#[trigger] ids@[k])@,
            ) by {
                let p = places[k];
                lemma_position_unique(held, p);
            }
            assert forall|c: Seq<char>| members_of(members, room_id@).contains(c) implies exists|
                k: int,
            |
                0 <= k < ids@.len() && (#[trigger] ids@[k])@ == c by {
                let p = position(held, c);
                assert(0 <= p < held.len() && held[p].key == c);
                let k = choose|k: int| 0 <= k < places.len() && #[trigger] places[k] == p;
                assert(ids@[k]@ == c);
            }
            assert forall|a: int, b: int| 0 <= a < b < ids@.len() implies (#[trigger] ids@[a])@ != (
            #[trigger] ids@[b])@ by {
                assert(places[a] < places[b]);
                assert(held[places[a]].key != held[places[b]].key);
            }
        }
        ids
    }

    /// The room with this id, as the relay would answer for it.
    pub fn get(&self, room_id: &String) -> (room: Option<CreateRoom>)
        requires
            self.wf(),
        ensures
            room is Some <==> has_key(self@, room_id@),
            room is Some ==> room->0.id@ == room_id@ && Some(room->0.privacy) == lookup(
                self@,
                room_id@,
            ),
    {
        match self.rooms.get(room_id) {
            Some(privacy) => Some(CreateRoom { id: room_id.clone(), privacy: *privacy }),
            None => None,
        }
    }

    /// The ids of the rooms, in creation order.
    pub fn room_ids(&self) -> (ids: Vec<String>)
        ensures
            ids@.len() == self@.len(),
            forall|i: int| 0 <= i < ids@.len() ==> (#[trigger] ids@[i])@ == self@[i].key,
    {
        self.rooms.keys()
    }
}

/// The rooms after creations with the given ids, one after the other, on a
/// relay that starts with `rooms`.
pub open spec fn after_creates(rooms: Seq<Slot<RoomPrivacy>>, ceiling: Option<usize>, ids: Seq<Seq<char>>) -> Seq<
    Slot<RoomPrivacy>,
>
    decreases ids.len(),
{
    if ids.len() == 0 {
        rooms
    } else {
        after_create(
            after_creates(rooms, ceiling, ids.drop_last()),
            ceiling,
            ids.last(),
            RoomPrivacy::Public,
        )
    }
}

/// On an empty relay with a ceiling of `max_rooms`, creations with ids that
/// differ from one another succeed until the relay is full and fail from
/// then on: the creation at place `i` succeeds exactly when `i < max_rooms`,
/// so of `max_rooms + k` creations exactly `max_rooms` succeed.
pub proof fn lemma_creates_fill_to_ceiling(max_rooms: usize, ids: Seq<Seq<char>>)
    requires
        forall|i: int, j: int| 0 <= i < j < ids.len() ==> ids[i] != ids[j],
    ensures
        after_creates(Seq::empty(), Some(max_rooms), ids).len() == if ids.len() <= max_rooms {
            ids.len()
        } else {
            max_rooms as nat
        },
        forall|i: int|
            0 <= i < ids.len() ==> (create_accepts(
                after_creates(Seq::empty(), Some(max_rooms), #[trigger] ids.take(i)),
                Some(max_rooms),
                ids[i],
            ) <==> i < max_rooms),
{
    assert forall|i: int| 0 <= i < ids.len() implies (create_accepts(
        after_creates(Seq::empty(), Some(max_rooms), #[trigger] ids.take(i)),
        Some(max_rooms),
        ids[i],
    ) <==> i < max_rooms) by {
        lemma_creates_prefix(max_rooms, ids.take(i));
        let rooms = after_creates(Seq::empty(), Some(max_rooms), ids.take(i));
        if has_key(rooms, ids[i]) {
            let p = crate::registry::position(rooms, ids[i]);
            assert(0 <= p < rooms.len() && rooms[p].key == ids[i]);
            assert(rooms[p].key == ids.take(i)[p]);
        }
    }
    lemma_creates_prefix(max_rooms, ids);
}

/// After creations with ids that differ from one another, an empty relay
/// holds the first ids, in order, as far as its ceiling lets it.
pub proof fn lemma_creates_prefix(max_rooms: usize, ids: Seq<Seq<char>>)
    requires
        forall|i: int, j: int| 0 <= i < j < ids.len() ==> ids[i] != ids[j],
    ensures
        after_creates(Seq::empty(), Some(max_rooms), ids).len() == if ids.len() <= max_rooms {
            ids.len()
        } else {
            max_rooms as nat
        },
        forall|p: int|
            0 <= p < after_creates(Seq::empty(), Some(max_rooms), ids).len() ==> (
            #[trigger] after_creates(Seq::empty(), Some(max_rooms), ids)[p]).key == ids[p],
    decreases ids.len(),
{
    if ids.len() > 0 {
        let earlier = ids.drop_last();
        lemma_creates_prefix(max_rooms, earlier);
        let rooms = after_creates(Seq::empty(), Some(max_rooms), earlier);
        if has_key(rooms, ids.last()) {
            let p = crate::registry::position(rooms, ids.last());
            assert(0 <= p < rooms.len() && rooms[p].key == ids.last());
            assert(rooms[p].key == earlier[p]);
            assert(ids[p] != ids[ids.len() - 1]);
        }
    }
}

} // verus!
