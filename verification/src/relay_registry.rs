//! The hub's side: the relays it knows, in the order they were registered,
//! and the index from room id to the relay that owns the room.
//!
//! The hub never makes an HTTP call here. A liveness probe is made by the
//! caller, who reports whether the relay answered. Room creation is a scan
//! over the relays: [`RoomScan`] says which relay to ask next, the caller
//! asks it, and hands the reply back.

use crate::consts::MAX_RELAYS;
use crate::registry::{
    after_insert, after_remove, distinct_keys, has_key, insert_refused, keys_of,
    lemma_insert_keeps_well_formed, lemma_insert_known_key, lookup, slot, well_formed, Cache, Slot,
};
use crate::room_index::ConcurrentHashMap;
use crate::room_registry::{CreateRoom, RoomPrivacy};
use vstd::prelude::*;

verus! {

/// Why a relay was not registered.
#[derive(Clone, Copy, Debug, PartialEq, Eq, Structural)]
pub enum RegisterError {
    /// The liveness probe failed; nothing was stored.
    Unreachable,
    /// The registry is full and the address is new to it.
    CapacityExceeded,
}

/// Why no room was created.
#[derive(Clone, Copy, Debug, PartialEq, Eq, Structural)]
pub enum CreateRoomError {
    /// Every relay failed, or none is registered.
    NoCapacity,
    /// A relay reported success, but its answer could not be read.
    MalformedReply,
}

impl CreateRoomError {
    /// The HTTP status the hub answers with.
    pub open spec fn spec_status(self) -> u16 {
        match self {
            CreateRoomError::NoCapacity => 500,
            CreateRoomError::MalformedReply => 400,
        }
    }

    /// The HTTP status the hub answers with: 500 when no relay can take the
    /// room, 400 when a relay's answer could not be read.
    pub fn status(&self) -> (code: u16)
        ensures
            code == self.spec_status(),
    {
        match self {
            CreateRoomError::NoCapacity => 500,
            CreateRoomError::MalformedReply => 400,
        }
    }

    /// The plain-text body that goes with the status.
    pub fn message(&self) -> (text: &'static str)
        ensures
            *self == CreateRoomError::NoCapacity ==> text@ == "no rooms available"@,
            *self == CreateRoomError::MalformedReply ==> text@ == "malformed relay reply"@,
    {
        match self {
            CreateRoomError::NoCapacity => "no rooms available",
            CreateRoomError::MalformedReply => "malformed relay reply",
        }
    }
}

/// What a relay answered to a room-creation call.
pub enum RelayReply {
    /// The relay created a room with this id and this privacy.
    Created(String, RoomPrivacy),
    /// The call failed: a network error or a status that is no success.
    Failed,
    /// The relay reported success, but its body could not be read.
    Malformed,
}

/// The status is one of the success codes, 200 to 299.
pub open spec fn is_success(status: u16) -> bool {
    200 <= status < 300
}

/// Whether a liveness probe was passed: the request went through and the
/// relay answered 200.
pub fn probe_passed(answered: bool, status: u16) -> (passed: bool)
    ensures
        passed == (answered && status == 200),
{
    answered && status == 200
}

impl RelayReply {
    /// Reads the outcome of a room-creation call: whether the relay answered
    /// at all, the status it answered with, and the room found in its body,
    /// if the body could be read.
    ///
    /// No answer, or a status that is no success, is a failure, whatever
    /// else came. A success without a readable body is malformed. A success
    /// with one created the room.
    pub fn from_call(answered: bool, status: u16, room: Option<CreateRoom>) -> (reply: RelayReply)
        ensures
            !answered || !is_success(status) ==> reply@ is Failed,
            answered && is_success(status) && room is None ==> reply@ is Malformed,
            answered && is_success(status) && room is Some ==> reply == RelayReply::Created(
                room->0.id,
                room->0.privacy,
            ),
    {
        if !answered || status < 200 || status >= 300 {
            RelayReply::Failed
        } else {
            match room {
                Some(room) => RelayReply::Created(room.id, room.privacy),
                None => RelayReply::Malformed,
            }
        }
    }
}

/// A reply as a mathematical value.
pub enum Reply {
    Created(Seq<char>),
    Failed,
    Malformed,
}

impl View for RelayReply {
    type V = Reply;

    open spec fn view(&self) -> Reply {
        match self {
            RelayReply::Created(id, _) => Reply::Created(id@),
            RelayReply::Failed => Reply::Failed,
            RelayReply::Malformed => Reply::Malformed,
        }
    }
}

/// The replies of a list, each as a mathematical value.
pub open spec fn reply_views(replies: Seq<RelayReply>) -> Seq<Reply> {
    Seq::new(replies.len(), |i: int| replies[i]@)
}

/// The reply of the relay at place `i`. A relay that gave none has failed.
pub open spec fn reply_at(replies: Seq<Reply>, i: int) -> Reply {
    if 0 <= i < replies.len() {
        replies[i]
    } else {
        Reply::Failed
    }
}

/// How a scan ends that starts at the relay at place `from`: the first relay
/// that does not fail decides. If it created a room, the scan yields the
/// room's id and that relay's address; if its answer could not be read, the
/// scan fails on that. With no relay left, there is no capacity.
pub open spec fn scan_from(candidates: Seq<Seq<char>>, replies: Seq<Reply>, from: int) -> Result<
    (Seq<char>, Seq<char>),
    CreateRoomError,
>
    decreases candidates.len() - from,
{
    if from < 0 || from >= candidates.len() {
        Err(CreateRoomError::NoCapacity)
    } else {
        match reply_at(replies, from) {
            Reply::Created(id) => Ok((id, candidates[from])),
            Reply::Malformed => Err(CreateRoomError::MalformedReply),
            Reply::Failed => scan_from(candidates, replies, from + 1),
        }
    }
}

/// How a scan over all of `candidates` ends.
pub open spec fn scan_outcome(candidates: Seq<Seq<char>>, replies: Seq<Reply>) -> Result<
    (Seq<char>, Seq<char>),
    CreateRoomError,
> {
    scan_from(candidates, replies, 0)
}

/// The room index after a scan: a room that was created is recorded under
/// its relay, anything else leaves the index as it was.
pub open spec fn rooms_after(
    rooms: Map<Seq<char>, Seq<char>>,
    outcome: Result<(Seq<char>, Seq<char>), CreateRoomError>,
) -> Map<Seq<char>, Seq<char>> {
    match outcome {
        Ok(pair) => rooms.insert(pair.0, pair.1),
        Err(_) => rooms,
    }
}

/// What a finished or unfinished scan says after a reply.
pub enum ScanVerdict {
    /// The relay failed and another one is left to ask.
    Continue,
    /// A room was created: its id, the address of the relay that owns it,
    /// and its privacy as the relay gave it.
    Won(String, String, RoomPrivacy),
    /// The scan is over without a room.
    Lost(CreateRoomError),
}

/// A scan over the relays for one room-creation request: the addresses as
/// they stood when the scan began, and how far it has come.
pub struct RoomScan {
    candidates: Vec<String>,
    next: usize,
}

impl RoomScan {
    /// The addresses to ask, in order.
    pub closed spec fn candidates(&self) -> Seq<Seq<char>> {
        Seq::new(self.candidates@.len(), |i: int| self.candidates@[i]@)
    }

    /// The place of the relay to ask next; the number of candidates once the
    /// scan is over.
    pub closed spec fn position(&self) -> nat {
        self.next as nat
    }

    /// The scan has not run past its candidates.
    pub open spec fn wf(&self) -> bool {
        self.position() <= self.candidates().len()
    }

    /// Whether the scan is over.
    pub open spec fn finished(&self) -> bool {
        self.position() >= self.candidates().len()
    }

    /// A scan over `candidates`, first to last.
    pub fn new(candidates: Vec<String>) -> (scan: Self)
        ensures
            scan.wf(),
            scan.position() == 0,
            scan.candidates() == Seq::new(candidates@.len(), |i: int| candidates@[i]@),
    {
        RoomScan { candidates, next: 0 }
    }

    /// The address of the relay to ask now, or `None` when the scan is over.
    pub fn pending(&self) -> (address: Option<String>)
        requires
            self.wf(),
        ensures
            address is None <==> self.finished(),
            address is Some ==> address->0@ == self.candidates()[self.position() as int],
    {
        if self.next < self.candidates.len() {
            Some(self.candidates[self.next].clone())
        } else {
            None
        }
    }

    /// Takes the reply of the relay that [`RoomScan::pending`] named.
    ///
    /// A failure moves the scan on to the next relay, and ends it for want
    /// of capacity when that was the last one. A created room ends the scan
    /// with the room's id and the relay's address; an answer that could not
    /// be read ends it with that error.
    pub fn advance(&mut self, reply: &RelayReply) -> (verdict: ScanVerdict)
        requires
            old(self).wf(),
            !old(self).finished(),
        ensures
            final(self).wf(),
            final(self).candidates() == old(self).candidates(),
            reply@ is Failed ==> final(self).position() == old(self).position() + 1,
            !(reply@ is Failed) ==> final(self).finished(),
            reply@ is Failed && !final(self).finished() ==> verdict is Continue,
            reply@ is Failed && final(self).finished() ==> verdict is Lost && verdict->Lost_0
                == CreateRoomError::NoCapacity,
            reply@ is Malformed ==> verdict is Lost && verdict->Lost_0
                == CreateRoomError::MalformedReply,
            reply@ is Created ==> verdict is Won && verdict->Won_0@ == reply@->Created_0
                && verdict->Won_1@ == old(self).candidates()[old(self).position() as int],
            reply@ is Created ==> verdict->Won_2 == reply->Created_1,
    {
        match reply {
            RelayReply::Created(id, privacy) => {
                let address = self.candidates[self.next].clone();
                self.next = self.candidates.len();
                ScanVerdict::Won(id.clone(), address, *privacy)
            },
            RelayReply::Malformed => {
                self.next = self.candidates.len();
                ScanVerdict::Lost(CreateRoomError::MalformedReply)
            },
            RelayReply::Failed => {
                assert(self.next < self.candidates.len());
                self.next = self.next + 1;
                if self.next < self.candidates.len() {
                    ScanVerdict::Continue
                } else {
                    ScanVerdict::Lost(CreateRoomError::NoCapacity)
                }
            },
        }
    }
}

/// The outcome of a scan, with each string taken by its characters.
pub open spec fn outcome_view(outcome: Result<(String, String), CreateRoomError>) -> Result<
    (Seq<char>, Seq<char>),
    CreateRoomError,
> {
    match outcome {
        Ok(pair) => Ok((pair.0@, pair.1@)),
        Err(e) => Err(e),
    }
}

/// The relays a hub knows and the rooms it has routed. `C` is whatever the
/// hub keeps per relay to call it again, such as an HTTP client.
pub struct RelayRegistry<C> {
    relays: Cache<C>,
    room_cache: ConcurrentHashMap,
}

impl<C> RelayRegistry<C> {
    /// The registered relays, in registration order.
    pub closed spec fn relays(&self) -> Seq<Slot<C>> {
        self.relays@
    }

    /// The ceiling on the number of relays.
    pub closed spec fn ceiling(&self) -> Option<usize> {
        self.relays.ceiling()
    }

    /// The addresses of the registered relays, in registration order.
    pub open spec fn addresses(&self) -> Seq<Seq<char>> {
        keys_of(self.relays())
    }

    /// The room index: room id to the address of the relay that owns it.
    pub closed spec fn rooms(&self) -> Map<Seq<char>, Seq<char>> {
        self.room_cache@
    }

    /// No address is registered twice, the ceiling holds, and the room index
    /// is finite.
    pub open spec fn wf(&self) -> bool {
        &&& well_formed(self.relays(), self.ceiling())
        &&& self.rooms().dom().finite()
    }

    /// A hub's registry with room for [`MAX_RELAYS`] relays.
    pub fn new() -> (r: Self)
        ensures
            r.wf(),
            r.relays().len() == 0,
            r.ceiling() == Some(MAX_RELAYS),
            r.rooms() == Map::<Seq<char>, Seq<char>>::empty(),
    {
        RelayRegistry { relays: Cache::with_capacity(MAX_RELAYS), room_cache: ConcurrentHashMap::new() }
    }

    /// A registry with room for `max_relays` relays.
    pub fn with_capacity(max_relays: usize) -> (r: Self)
        ensures
            r.wf(),
            r.relays().len() == 0,
            r.ceiling() == Some(max_relays),
            r.rooms() == Map::<Seq<char>, Seq<char>>::empty(),
    {
        RelayRegistry { relays: Cache::with_capacity(max_relays), room_cache: ConcurrentHashMap::new() }
    }

    /// Registers the relay at `address`, given the result of its liveness
    /// probe.
    ///
    /// A relay that did not answer the probe is not stored. One that did is
    /// stored at the end of the order, unless the address is known already:
    /// then it keeps its place and takes the new client. A new address is
    /// refused when the registry is full.
    pub fn register(&mut self, address: String, client: C, reachable: bool) -> (r: Result<
        (),
        RegisterError,
    >)
        requires
            old(self).wf(),
        ensures
            final(self).wf(),
            final(self).ceiling() == old(self).ceiling(),
            final(self).rooms() == old(self).rooms(),
            !reachable ==> r == Err::<(), RegisterError>(RegisterError::Unreachable),
            !reachable ==> final(self).relays() == old(self).relays(),
            reachable ==> final(self).relays() == after_insert(
                old(self).relays(),
                old(self).ceiling(),
                slot(address@, client, None),
            ),
            reachable && insert_refused(old(self).relays(), old(self).ceiling(), address@) ==> r
                == Err::<(), RegisterError>(RegisterError::CapacityExceeded),
            reachable && !insert_refused(old(self).relays(), old(self).ceiling(), address@)
                ==> r is Ok,
    {
        if !reachable {
            return Err(RegisterError::Unreachable);
        }
        match self.relays.insert(address, client) {
            Ok(_) => Ok(()),
            Err(_) => Err(RegisterError::CapacityExceeded),
        }
    }

    /// Takes the relay at `address` out of the registry and hands back its
    /// client. Rooms already routed to it stay in the index.
    pub fn unregister(&mut self, address: &String) -> (client: Option<C>)
        requires
            old(self).wf(),
        ensures
            final(self).wf(),
            final(self).ceiling() == old(self).ceiling(),
            final(self).rooms() == old(self).rooms(),
            final(self).relays() == after_remove(old(self).relays(), address@),
            client == lookup(old(self).relays(), address@),
    {
        self.relays.remove(address)
    }

    /// The addresses of the registered relays, in registration order.
    pub fn list(&self) -> (addresses: Vec<String>)
        ensures
            addresses@.len() == self.addresses().len(),
            forall|i: int|
                0 <= i < addresses@.len() ==> (#[trigger] addresses@[i])@ == self.addresses()[i],
    {
        self.relays.keys()
    }

    /// The number of registered relays.
    pub fn relay_count(&self) -> (n: usize)
        ensures
            n == self.relays().len(),
    {
        self.relays.len()
    }

    /// What the hub keeps for the relay at `address`.
    pub fn client(&self, address: &String) -> (client: Option<&C>)
        requires
            self.wf(),
        ensures
            client is Some <==> has_key(self.relays(), address@),
            client is Some ==> Some(*client->0) == lookup(self.relays(), address@),
    {
        self.relays.get(address)
    }

    /// The address of the relay that owns the room, if the hub routed it.
    pub fn route_room(&self, room_id: &String) -> (address: Option<String>)
        ensures
            address is Some <==> self.rooms().dom().contains(room_id@),
            address is Some ==> address->0@ == self.rooms()[room_id@],
    {
        self.room_cache.get(room_id)
    }

    /// Records that the room is owned by the relay at `address`.
    pub fn record_room(&mut self, room_id: String, address: String)
        requires
            old(self).wf(),
        ensures
            final(self).wf(),
            final(self).relays() == old(self).relays(),
            final(self).ceiling() == old(self).ceiling(),
            final(self).rooms() == old(self).rooms().insert(room_id@, address@),
    {
        let _ = self.room_cache.insert(room_id, address);
    }

    /// Drops the room from the index and hands back the address it was
    /// routed to.
    pub fn forget_room(&mut self, room_id: &String) -> (address: Option<String>)
        requires
            old(self).wf(),
        ensures
            final(self).wf(),
            final(self).relays() == old(self).relays(),
            final(self).ceiling() == old(self).ceiling(),
            final(self).rooms() == old(self).rooms().remove(room_id@),
            address is Some <==> old(self).rooms().dom().contains(room_id@),
            address is Some ==> address->0@ == old(self).rooms()[room_id@],
    {
        self.room_cache.remove(room_id)
    }

    /// The number of rooms in the index.
    pub fn room_count(&self) -> (n: usize)
        ensures
            n == self.rooms().len(),
    {
        self.room_cache.len()
    }

    /// Begins a scan for a relay that will take a new room: the registered
    /// addresses, in registration order.
    pub fn begin_scan(&self) -> (scan: RoomScan)
        ensures
            scan.wf(),
            scan.position() == 0,
            scan.candidates() == self.addresses(),
    {
        let scan = RoomScan::new(self.relays.keys());
        assert(scan.candidates() =~= self.addresses());
        scan
    }

    /// Takes the reply of the relay that the scan named, and records the
    /// room in the index when one was created.
    pub fn on_reply(&mut self, scan: &mut RoomScan, reply: &RelayReply) -> (verdict: ScanVerdict)
        requires
            old(self).wf(),
            old(scan).wf(),
            !old(scan).finished(),
        ensures
            final(self).wf(),
            final(self).relays() == old(self).relays(),
            final(self).ceiling() == old(self).ceiling(),
            final(scan).wf(),
            final(scan).candidates() == old(scan).candidates(),
            reply@ is Failed ==> final(scan).position() == old(scan).position() + 1,
            !(reply@ is Failed) ==> final(scan).finished(),
            reply@ is Failed && !final(scan).finished() ==> verdict is Continue,
            reply@ is Failed && final(scan).finished() ==> verdict is Lost && verdict->Lost_0
                == CreateRoomError::NoCapacity,
            reply@ is Malformed ==> verdict is Lost && verdict->Lost_0
                == CreateRoomError::MalformedReply,
            reply@ is Created ==> verdict is Won && verdict->Won_0@ == reply@->Created_0
                && verdict->Won_1@ == old(scan).candidates()[old(scan).position() as int],
            reply@ is Created ==> verdict->Won_2 == reply->Created_1,
            reply@ is Created ==> final(self).rooms() == old(self).rooms().insert(
                reply@->Created_0,
                old(scan).candidates()[old(scan).position() as int],
            ),
            !(reply@ is Created) ==> final(self).rooms() == old(self).rooms(),
    {
        let verdict = scan.advance(reply);
        match &verdict {
            ScanVerdict::Won(room_id, address, _) => {
                self.record_room(room_id.clone(), address.clone());
            },
            _ => {},
        }
        verdict
    }

    /// Runs a whole scan over replies that are already at hand: `replies[i]`
    /// is what the relay at place `i` answers when asked, and a relay
    /// without a reply counts as failed.
    ///
    /// The first relay that does not fail decides the outcome, and a room
    /// that was created can be routed at once.
    pub fn create_room_from(&mut self, replies: &Vec<RelayReply>) -> (outcome: Result<
        (String, String),
        CreateRoomError,
    >)
        requires
            old(self).wf(),
        ensures
            final(self).wf(),
            final(self).relays() == old(self).relays(),
            final(self).ceiling() == old(self).ceiling(),
            outcome_view(outcome) == scan_outcome(old(self).addresses(), reply_views(replies@)),
            final(self).rooms() == rooms_after(old(self).rooms(), outcome_view(outcome)),
    {
        let mut scan = self.begin_scan();
        let ghost candidates = scan.candidates();
        let ghost given = reply_views(replies@);
        let mut i: usize = 0;
        if scan.candidates.len() == 0 {
            return Err(CreateRoomError::NoCapacity);
        }
        loop
            invariant
                self.wf(),
                self.relays() == old(self).relays(),
                self.ceiling() == old(self).ceiling(),
                self.rooms() == old(self).rooms(),
                scan.wf(),
                !scan.finished(),
                scan.candidates() == candidates,
                candidates == old(self).addresses(),
                given == reply_views(replies@),
                scan.position() == i,
                scan_from(candidates, given, 0) == scan_from(candidates, given, i as int),
            decreases candidates.len() - i,
        {
            let failed = RelayReply::Failed;
            let reply = if i < replies.len() {
                &replies[i]
            } else {
                &failed
            };
            assert(reply@ == reply_at(given, i as int));
            let verdict = self.on_reply(&mut scan, reply);
            match verdict {
                ScanVerdict::Won(room_id, address, _) => {
                    return Ok((room_id, address));
                },
                ScanVerdict::Lost(e) => {
                    proof {
                        if reply@ is Failed {
                            assert(scan_from(candidates, given, i + 1) == Err::<
                                (Seq<char>, Seq<char>),
                                CreateRoomError,
                            >(CreateRoomError::NoCapacity));
                        }
                    }
                    return Err(e);
                },
                ScanVerdict::Continue => {
                    i = i + 1;
                },
            }
        }
    }
}

/// If the relays before place `m` all fail and the relay at place `m`
/// creates a room, the scan yields that room on that relay, and the room is
/// in the index afterwards, routed to that relay.
pub proof fn lemma_scan_skips_failed_relays(
    candidates: Seq<Seq<char>>,
    replies: Seq<Reply>,
    rooms: Map<Seq<char>, Seq<char>>,
    m: int,
)
    requires
        0 <= m < candidates.len(),
        forall|i: int| 0 <= i < m ==> reply_at(replies, i) is Failed,
        reply_at(replies, m) is Created,
    ensures
        scan_outcome(candidates, replies) == Ok::<(Seq<char>, Seq<char>), CreateRoomError>(
            (reply_at(replies, m)->Created_0, candidates[m]),
        ),
        rooms_after(rooms, scan_outcome(candidates, replies)).dom().contains(
            reply_at(replies, m)->Created_0,
        ),
        rooms_after(rooms, scan_outcome(candidates, replies))[reply_at(replies, m)->Created_0]
            == candidates[m],
{
    lemma_scan_from_skips(candidates, replies, 0, m);
}

/// A scan that starts among failing relays ends as the scan that starts
/// behind them.
pub proof fn lemma_scan_from_skips(candidates: Seq<Seq<char>>, replies: Seq<Reply>, from: int, m: int)
    requires
        0 <= from <= m < candidates.len(),
        forall|i: int| from <= i < m ==> reply_at(replies, i) is Failed,
    ensures
        scan_from(candidates, replies, from) == scan_from(candidates, replies, m),
    decreases m - from,
{
    if from < m {
        assert(reply_at(replies, from) is Failed);
        lemma_scan_from_skips(candidates, replies, from + 1, m);
    }
}

/// A scan fails for want of capacity exactly when no relay is registered or
/// every relay fails.
pub proof fn lemma_no_capacity_iff_all_fail(candidates: Seq<Seq<char>>, replies: Seq<Reply>, from: int)
    requires
        0 <= from <= candidates.len(),
    ensures
        scan_from(candidates, replies, from) == Err::<(Seq<char>, Seq<char>), CreateRoomError>(
            CreateRoomError::NoCapacity,
        ) <==> forall|i: int| from <= i < candidates.len() ==> reply_at(replies, i) is Failed,
    decreases candidates.len() - from,
{
    if from < candidates.len() {
        lemma_no_capacity_iff_all_fail(candidates, replies, from + 1);
        if reply_at(replies, from) is Failed {
            assert forall|i: int| from <= i < candidates.len() && (forall|j: int|
                from + 1 <= j < candidates.len() ==> reply_at(replies, j) is Failed) implies reply_at(
                replies,
                i,
            ) is Failed by {}
        }
    }
}

/// Registering an address that is registered already adds no entry: the
/// addresses, and their order, stay as they were.
pub proof fn lemma_register_known_address<C>(relays: Seq<Slot<C>>, ceiling: Option<usize>, again: Slot<C>)
    requires
        well_formed(relays, ceiling),
        has_key(relays, again.key),
    ensures
        keys_of(after_insert(relays, ceiling, again)) == keys_of(relays),
        distinct_keys(after_insert(relays, ceiling, again)),
{
    lemma_insert_known_key(relays, ceiling, again);
    lemma_insert_keeps_well_formed(relays, ceiling, again);
}

/// Registering the same address twice in a row leaves one entry for it.
pub proof fn lemma_register_twice<C>(relays: Seq<Slot<C>>, ceiling: Option<usize>, first: Slot<C>, second: Slot<C>)
    requires
        well_formed(relays, ceiling),
        first.key == second.key,
    ensures
        keys_of(after_insert(after_insert(relays, ceiling, first), ceiling, second)) == keys_of(
            after_insert(relays, ceiling, first),
        ),
        distinct_keys(after_insert(after_insert(relays, ceiling, first), ceiling, second)),
{
    let once = after_insert(relays, ceiling, first);
    lemma_insert_keeps_well_formed(relays, ceiling, first);
    lemma_insert_keeps_well_formed(once, ceiling, second);
    if has_key(once, second.key) {
        lemma_insert_known_key(once, ceiling, second);
    } else {
        assert(insert_refused(relays, ceiling, first.key));
        assert(once == relays);
        assert(insert_refused(once, ceiling, second.key));
    }
}

} // verus!
