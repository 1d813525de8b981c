//! The relay's live connections: the registry that fan-out reads, and the
//! life of one connection from accept to close.
//!
//! Nothing here touches a socket. The task that owns a socket hands each
//! frame it reads to [`Connection::on_frame`] and does what the answer says.
//! The outbound half of the socket is the handle `H` that the registry keeps;
//! what writes to it takes it from the registry and locks it for each send.

use crate::consts::MAX_CLIENTS;
use crate::ident::{fresh_connection_id, is_connection_id};
use crate::payload::{ChatMessage, TextPayload};
use crate::registry::{
    after_insert, after_remove, has_key, insert_refused, lookup, slot, well_formed, Cache,
    CapacityExceeded, Slot,
};
use crate::wire::{decode_binary, decoded, encode_hello, hello_frame, ProtocolViolation};
use vstd::prelude::*;

verus! {

/// The live connections of a relay, by connection id. Its view is the
/// connections in the order they were admitted, each with its handle.
pub struct ConnectionRegistry<H> {
    clients: Cache<H>,
}

impl<H> View for ConnectionRegistry<H> {
    type V = Seq<Slot<H>>;

    closed spec fn view(&self) -> Seq<Slot<H>> {
        self.clients@
    }
}

impl<H> ConnectionRegistry<H> {
    /// The most connections the relay tracks.
    pub closed spec fn ceiling(&self) -> Option<usize> {
        self.clients.ceiling()
    }

    /// Each id stands for one connection, and the ceiling holds.
    pub open spec fn wf(&self) -> bool {
        well_formed(self@, self.ceiling())
    }

    /// A registry for up to [`MAX_CLIENTS`] connections.
    pub fn new() -> (r: Self)
        ensures
            r.wf(),
            r@.len() == 0,
            r.ceiling() == Some(MAX_CLIENTS),
    {
        ConnectionRegistry { clients: Cache::with_capacity(MAX_CLIENTS) }
    }

    /// A registry for up to `max_clients` connections.
    pub fn with_capacity(max_clients: usize) -> (r: Self)
        ensures
            r.wf(),
            r@.len() == 0,
            r.ceiling() == Some(max_clients),
    {
        ConnectionRegistry { clients: Cache::with_capacity(max_clients) }
    }

    /// Stores the handle under the id. An id that is known keeps its place
    /// and takes the new handle, and the old one comes back: the last writer
    /// wins. A new id is refused when the registry is full.
    pub fn insert(&mut self, id: String, handle: H) -> (r: Result<Option<H>, CapacityExceeded>)
        requires
            old(self).wf(),
        ensures
            final(self).wf(),
            final(self).ceiling() == old(self).ceiling(),
            final(self)@ == after_insert(old(self)@, old(self).ceiling(), slot(id@, handle, None)),
            r is Err <==> insert_refused(old(self)@, old(self).ceiling(), id@),
            r is Ok ==> r->Ok_0 == lookup(old(self)@, id@),
    {
        self.clients.insert(id, handle)
    }

    /// Whether a connection under this id would be refused for want of room.
    pub fn would_refuse(&self, id: &String) -> (b: bool)
        requires
            self.wf(),
        ensures
            b == insert_refused(self@, self.ceiling(), id@),
    {
        self.clients.is_full() && !self.clients.contains_key(id)
    }

    /// Takes the connection out and hands back its handle.
    pub fn remove(&mut self, id: &String) -> (handle: Option<H>)
        requires
            old(self).wf(),
        ensures
            final(self).wf(),
            final(self).ceiling() == old(self).ceiling(),
            final(self)@ == after_remove(old(self)@, id@),
            handle == lookup(old(self)@, id@),
    {
        self.clients.remove(id)
    }

    /// A shared view of the handle of the connection.
    pub fn get(&self, id: &String) -> (handle: Option<&H>)
        requires
            self.wf(),
        ensures
            handle is Some <==> has_key(self@, id@),
            handle is Some ==> Some(*handle->0) == lookup(self@, id@),
    {
        self.clients.get(id)
    }

    /// The number of connections.
    pub fn len(&self) -> (n: usize)
        ensures
            n == self@.len(),
    {
        self.clients.len()
    }

    /// The ids of the connections, in the order they were admitted.
    pub fn ids(&self) -> (ids: Vec<String>)
        ensures
            ids@.len() == self@.len(),
            forall|i: int| 0 <= i < ids@.len() ==> (#[trigger] ids@[i])@ == self@[i].key,
    {
        self.clients.keys()
    }

    /// A snapshot of the connections: each id with a shared view of its
    /// handle.
    pub fn iter(&self) -> (r: Vec<(&String, &H)>)
        ensures
            r@.len() == self@.len(),
            forall|i: int|
                0 <= i < r@.len() ==> (#[trigger] r@[i]).0@ == self@[i].key && *r@[i].1
                    == self@[i].value,
    {
        self.clients.iter()
    }
}

/// The number of live connections.
pub fn client_count<H>(clients: &ConnectionRegistry<H>) -> (n: u64)
    ensures
        n == clients@.len(),
{
    clients.len() as u64
}

/// Stores a connection, replacing the one that had the id and handing that
/// one back. A new id is refused when the registry is full, and nothing is
/// stored.
pub fn insert_client<H>(clients: &mut ConnectionRegistry<H>, id: String, handle: H) -> (r: Result<
    Option<H>,
    CapacityExceeded,
>)
    requires
        old(clients).wf(),
    ensures
        final(clients).wf(),
        final(clients).ceiling() == old(clients).ceiling(),
        final(clients)@ == after_insert(old(clients)@, old(clients).ceiling(), slot(id@, handle, None)),
        r is Err <==> insert_refused(old(clients)@, old(clients).ceiling(), id@),
        r is Ok ==> r->Ok_0 == lookup(old(clients)@, id@),
{
    clients.insert(id, handle)
}

/// Takes a connection out of the registry.
pub fn remove_client<H>(clients: &mut ConnectionRegistry<H>, id: &String)
    requires
        old(clients).wf(),
    ensures
        final(clients).wf(),
        final(clients).ceiling() == old(clients).ceiling(),
        final(clients)@ == after_remove(old(clients)@, id@),
{
    let _ = clients.remove(id);
}

/// Where a connection stands in its life.
#[derive(Clone, Copy, Debug, PartialEq, Eq, Structural)]
pub enum ConnState {
    /// The raw socket was accepted.
    Connecting,
    /// The socket speaks the socket protocol; the hello is awaited.
    Handshaking,
    /// The connection has its id and is in the registry.
    Active,
    /// The connection is on its way out.
    Closing,
    /// The connection is out of the registry and its handle is gone.
    Closed,
}

/// What the task that reads a socket has to report.
pub enum Inbound {
    /// A close frame.
    Close,
    /// A binary frame with its payload.
    Binary(Vec<u8>),
    /// A text frame: the message that its JSON holds, or nothing when the
    /// JSON could not be read.
    Text(Option<TextPayload>),
    /// A frame that carries no message, such as a ping.
    Other,
    /// Reading from the socket failed.
    ReadError,
    /// The shutdown signal fired.
    Shutdown,
}

/// What the task that owns the socket has to do next.
pub enum Action {
    /// Nothing: go on reading.
    Ignore,
    /// Send this binary frame to the client.
    SendHello(Vec<u8>),
    /// Hand this message to the fan-out channel.
    Publish(TextPayload),
    /// Stop reading, attempt a close handshake and finish the connection.
    Close,
}

/// Why a connection was dropped before it became active.
#[derive(Clone, Copy, Debug, PartialEq, Eq, Structural)]
pub enum DropReason {
    /// The connection is not waiting for a hello.
    NotHandshaking,
    /// The first frame is not a well-formed hello.
    Violation(ProtocolViolation),
    /// The registry is full.
    Full,
}

/// How a handshake ended.
pub enum Handshake<H> {
    /// The connection is active: the hello frame to send back, and the
    /// handle of the connection that had the id before, if there was one.
    Admitted(Vec<u8>, Option<H>),
    /// The connection was dropped; its handle comes back.
    Dropped(DropReason, H),
}

/// What is wrong with a frame as the first frame of a connection: nothing,
/// if it is a well-formed hello in either encoding.
pub open spec fn first_frame_violation(frame: Inbound) -> Option<ProtocolViolation> {
    match frame {
        Inbound::Binary(bytes) => match decoded(bytes@) {
            Ok(_) => None,
            Err(v) => Some(v),
        },
        Inbound::Text(Some(TextPayload::Hello(_))) => None,
        Inbound::Text(Some(TextPayload::ChatMessage(_))) => Some(ProtocolViolation::UnknownOpcode(1)),
        Inbound::Text(None) => Some(ProtocolViolation::InvalidText),
        _ => Some(ProtocolViolation::MissingOpcode),
    }
}

/// The frame ends a connection whatever it holds: a close frame, a read
/// error, or the shutdown signal.
pub open spec fn ends_connection(frame: Inbound) -> bool {
    frame is Close || frame is ReadError || frame is Shutdown
}

/// What is wrong with a frame that reaches an active connection, if it is
/// wrong enough to end the connection: a binary frame that is empty, that
/// holds nothing behind its opcode, or whose payload is not UTF-8. An
/// opcode that is not known is no such violation, and neither is a text
/// frame that could not be read.
pub open spec fn frame_violation(frame: Inbound) -> Option<ProtocolViolation> {
    match frame {
        Inbound::Binary(bytes) => match decoded(bytes@) {
            Err(ProtocolViolation::UnknownOpcode(_)) => None,
            Err(v) => Some(v),
            Ok(_) => None,
        },
        _ => None,
    }
}

/// One connection.
pub struct Connection {
    state: ConnState,
    id: Option<String>,
}

impl Connection {
    /// Where the connection stands.
    pub closed spec fn state(&self) -> ConnState {
        self.state
    }

    /// The id that the relay assigned, once it has.
    pub closed spec fn id(&self) -> Option<Seq<char>> {
        match self.id {
            Some(id) => Some(id@),
            None => None,
        }
    }

    /// A connection has its id exactly from the moment it becomes active.
    pub open spec fn wf(&self) -> bool {
        &&& (self.state() is Connecting || self.state() is Handshaking) ==> self.id() is None
        &&& (self.state() is Active || self.state() is Closing) ==> self.id() is Some
    }

    /// A connection whose raw socket was just accepted.
    pub fn new() -> (c: Self)
        ensures
            c.wf(),
            c.state() == ConnState::Connecting,
            c.id() is None,
    {
        Connection { state: ConnState::Connecting, id: None }
    }

    /// Where the connection stands.
    pub fn current(&self) -> (s: ConnState)
        ensures
            s == self.state(),
    {
        self.state
    }

    /// The id that the relay assigned, once it has.
    pub fn assigned_id(&self) -> (id: Option<String>)
        ensures
            id is Some <==> self.id() is Some,
            id is Some ==> id->0@ == self.id()->0,
    {
        match &self.id {
            Some(id) => Some(id.clone()),
            None => None,
        }
    }

    /// The protocol upgrade is done: a connecting connection now awaits its
    /// hello. In any other state nothing changes, and the answer is `false`.
    pub fn upgraded(&mut self) -> (moved: bool)
        requires
            old(self).wf(),
        ensures
            final(self).wf(),
            moved == (old(self).state() is Connecting),
            moved ==> final(self).state() == ConnState::Handshaking,
            !moved ==> final(self).state() == old(self).state(),
            final(self).id() == old(self).id(),
    {
        match self.state {
            ConnState::Connecting => {
                self.state = ConnState::Handshaking;
                true
            },
            _ => false,
        }
    }

    /// Takes the first frame of a connection that awaits its hello, and
    /// admits the connection under the given id.
    ///
    /// A well-formed hello makes the connection active: its handle goes into
    /// the registry under the id, and the hello frame that tells the client
    /// its id comes back. Anything else drops the connection before it ever
    /// was active: a malformed first frame, or a registry that is full.
    pub fn handshake_with_id<H>(
        &mut self,
        clients: &mut ConnectionRegistry<H>,
        first: &Inbound,
        handle: H,
        id: String,
    ) -> (outcome: Handshake<H>)
        requires
            old(self).wf(),
            old(clients).wf(),
        ensures
            final(self).wf(),
            final(clients).wf(),
            final(clients).ceiling() == old(clients).ceiling(),
            outcome is Admitted <==> old(self).state() is Handshaking && first_frame_violation(*first)
                is None && !insert_refused(old(clients)@, old(clients).ceiling(), id@),
            outcome is Admitted ==> final(self).state() == ConnState::Active && final(self).id()
                == Some(id@),
            outcome is Admitted ==> final(clients)@ == after_insert(
                old(clients)@,
                old(clients).ceiling(),
                slot(id@, handle, None),
            ),
            outcome is Admitted ==> outcome->Admitted_0@ == hello_frame(id@) && outcome->Admitted_1
                == lookup(old(clients)@, id@),
            outcome is Dropped ==> final(clients)@ == old(clients)@ && outcome->Dropped_1 == handle
                && final(self).id() == old(self).id(),
            outcome is Dropped && !(old(self).state() is Handshaking) ==> outcome->Dropped_0
                == DropReason::NotHandshaking && final(self).state() == old(self).state(),
            outcome is Dropped && old(self).state() is Handshaking ==> final(self).state()
                == ConnState::Closed,
            outcome is Dropped && old(self).state() is Handshaking && first_frame_violation(*first)
                is Some ==> outcome->Dropped_0 == DropReason::Violation(
                first_frame_violation(*first)->0,
            ),
            outcome is Dropped && old(self).state() is Handshaking && first_frame_violation(*first)
                is None ==> outcome->Dropped_0 == DropReason::Full,
    {
        match self.state {
            ConnState::Handshaking => {},
            _ => {
                return Handshake::Dropped(DropReason::NotHandshaking, handle);
            },
        }
        let violation = match first {
            Inbound::Binary(bytes) => match decode_binary(bytes) {
                Ok(_) => None,
                Err(v) => Some(v),
            },
            Inbound::Text(Some(TextPayload::Hello(_))) => None,
            Inbound::Text(Some(TextPayload::ChatMessage(_))) => Some(
                ProtocolViolation::UnknownOpcode(1),
            ),
            Inbound::Text(None) => Some(ProtocolViolation::InvalidText),
            _ => Some(ProtocolViolation::MissingOpcode),
        };
        match violation {
            Some(v) => {
                self.state = ConnState::Closed;
                return Handshake::Dropped(DropReason::Violation(v), handle);
            },
            None => {},
        }
        if clients.would_refuse(&id) {
            self.state = ConnState::Closed;
            return Handshake::Dropped(DropReason::Full, handle);
        }
        let hello = encode_hello(&id);
        let stored = clients.insert(id.clone(), handle);
        self.state = ConnState::Active;
        self.id = Some(id);
        match stored {
            Ok(replaced) => Handshake::Admitted(hello, replaced),
            Err(_) => Handshake::Admitted(hello, None),
        }
    }

    /// As [`Connection::handshake_with_id`], under a fresh random id.
    pub fn handshake<H>(&mut self, clients: &mut ConnectionRegistry<H>, first: &Inbound, handle: H) -> (outcome:
        Handshake<H>)
        requires
            old(self).wf(),
            old(clients).wf(),
        ensures
            final(self).wf(),
            final(clients).wf(),
            final(clients).ceiling() == old(clients).ceiling(),
            outcome is Admitted ==> old(self).state() is Handshaking && first_frame_violation(*first)
                is None,
            outcome is Admitted ==> final(self).state() == ConnState::Active && final(self).id()
                is Some && is_connection_id(final(self).id()->0),
            outcome is Admitted ==> final(clients)@ == after_insert(
                old(clients)@,
                old(clients).ceiling(),
                slot(final(self).id()->0, handle, None),
            ),
            outcome is Admitted ==> outcome->Admitted_0@ == hello_frame(final(self).id()->0)
                && outcome->Admitted_1 == lookup(old(clients)@, final(self).id()->0),
            outcome is Dropped ==> final(clients)@ == old(clients)@ && outcome->Dropped_1 == handle
                && final(self).id() == old(self).id(),
            outcome is Dropped && !(old(self).state() is Handshaking) ==> outcome->Dropped_0
                == DropReason::NotHandshaking && final(self).state() == old(self).state(),
            outcome is Dropped && old(self).state() is Handshaking ==> final(self).state()
                == ConnState::Closed,
            outcome is Dropped && old(self).state() is Handshaking && first_frame_violation(*first)
                is Some ==> outcome->Dropped_0 == DropReason::Violation(
                first_frame_violation(*first)->0,
            ),
            outcome is Dropped && old(self).state() is Handshaking && first_frame_violation(*first)
                is None ==> outcome->Dropped_0 == DropReason::Full,
            old(self).state() is Handshaking && first_frame_violation(*first) is None && !(old(clients).ceiling() is Some && old(clients)@.len() >= old(clients).ceiling()->0)
                ==> outcome is Admitted,
    {
        let id = fresh_connection_id();
        self.handshake_with_id(clients, first, handle, id)
    }

    /// Takes what the reading task reports and says what to do.
    ///
    /// While the connection is active: a close frame, a read error or the
    /// shutdown signal starts the close, and so does a malformed binary
    /// frame, which ends this connection and no other; a binary hello is
    /// answered with the connection's id; a chat message goes to fan-out
    /// under this connection's id, whatever author it claimed; anything else
    /// is ignored, an unknown opcode and a text frame that could not be read
    /// included. Before the connection is active, what would end it closes
    /// it at once. On the way out, everything is ignored.
    pub fn on_frame(&mut self, frame: &Inbound) -> (action: Action)
        requires
            old(self).wf(),
        ensures
            final(self).wf(),
            final(self).id() == old(self).id(),
            final(self).state() == next_state(old(self).state(), *frame),
            action_matches(action, old(self).state(), old(self).id(), *frame),
    {
        match self.state {
            ConnState::Active => {
                match frame {
                    Inbound::Close | Inbound::ReadError | Inbound::Shutdown => {
                        self.state = ConnState::Closing;
                        Action::Close
                    },
                    Inbound::Binary(bytes) => match decode_binary(bytes) {
                        Ok(_) => match &self.id {
                            Some(id) => Action::SendHello(encode_hello(id)),
                            None => Action::Ignore,
                        },
                        Err(ProtocolViolation::UnknownOpcode(_)) => Action::Ignore,
                        Err(_) => {
                            self.state = ConnState::Closing;
                            Action::Close
                        },
                    },
                    Inbound::Text(Some(TextPayload::ChatMessage(m))) => match &self.id {
                        Some(id) => Action::Publish(
                            TextPayload::ChatMessage(
                                ChatMessage { author_id: id.clone(), content: m.content.clone() },
                            ),
                        ),
                        None => Action::Ignore,
                    },
                    _ => Action::Ignore,
                }
            },
            ConnState::Connecting | ConnState::Handshaking => {
                match frame {
                    Inbound::Close | Inbound::ReadError | Inbound::Shutdown => {
                        self.state = ConnState::Closed;
                        Action::Close
                    },
                    _ => Action::Ignore,
                }
            },
            _ => Action::Ignore,
        }
    }

    /// Finishes the connection: takes it out of the registry, if it is in
    /// there, and hands back its handle to be dropped.
    ///
    /// A connection that is closed already stays as it is and the registry
    /// is not touched, so however many triggers race to close a connection,
    /// it leaves the registry once.
    pub fn finish<H>(&mut self, clients: &mut ConnectionRegistry<H>) -> (handle: Option<H>)
        requires
            old(self).wf(),
            old(clients).wf(),
        ensures
            final(self).wf(),
            final(self).state() == ConnState::Closed,
            final(self).id() == old(self).id(),
            final(clients).wf(),
            final(clients).ceiling() == old(clients).ceiling(),
            final(clients)@ == clients_after_finish(old(self).state(), old(self).id(), old(clients)@),
            handle == handle_after_finish(old(self).state(), old(self).id(), old(clients)@),
    {
        match self.state {
            ConnState::Closed => None,
            _ => {
                self.state = ConnState::Closed;
                match &self.id {
                    Some(id) => clients.remove(id),
                    None => None,
                }
            },
        }
    }
}

/// The state a connection is in after the reading task reported `frame`.
pub open spec fn next_state(state: ConnState, frame: Inbound) -> ConnState {
    match state {
        ConnState::Active => if ends_connection(frame) || frame_violation(frame) is Some {
            ConnState::Closing
        } else {
            ConnState::Active
        },
        ConnState::Connecting | ConnState::Handshaking => if ends_connection(frame) {
            ConnState::Closed
        } else {
            state
        },
        _ => state,
    }
}

/// `action` is what a connection in `state` with the id `id` answers to
/// `frame`.
pub open spec fn action_matches(action: Action, state: ConnState, id: Option<Seq<char>>, frame: Inbound) -> bool {
    if state is Closing || state is Closed {
        action is Ignore
    } else if ends_connection(frame) {
        action is Close
    } else if !(state is Active) {
        action is Ignore
    } else if frame_violation(frame) is Some {
        action is Close
    } else if id is None {
        action is Ignore
    } else {
        match frame {
            Inbound::Binary(bytes) => if decoded(bytes@) is Ok {
                action is SendHello && action->SendHello_0@ == hello_frame(id->0)
            } else {
                action is Ignore
            },
            Inbound::Text(Some(TextPayload::ChatMessage(m))) => {
                &&& action is Publish
                &&& action->Publish_0 is ChatMessage
                &&& action->Publish_0->ChatMessage_0.author_id@ == id->0
                &&& action->Publish_0->ChatMessage_0.content@ == m.content@
            },
            _ => action is Ignore,
        }
    }
}

/// The registry after a connection in `state` with the id `id` was finished:
/// the connection is out, unless it was closed already or never had an id.
pub open spec fn clients_after_finish<H>(state: ConnState, id: Option<Seq<char>>, clients: Seq<Slot<H>>) -> Seq<
    Slot<H>,
> {
    if state is Closed || id is None {
        clients
    } else {
        after_remove(clients, id->0)
    }
}

/// The handle that finishing such a connection hands back.
pub open spec fn handle_after_finish<H>(state: ConnState, id: Option<Seq<char>>, clients: Seq<Slot<H>>) -> Option<
    H,
> {
    if state is Closed || id is None {
        None
    } else {
        lookup(clients, id->0)
    }
}

/// Finishing a connection twice is finishing it once: the second time
/// neither the registry nor the connection changes, and no handle comes
/// back.
pub proof fn lemma_finish_is_idempotent<H>(state: ConnState, id: Option<Seq<char>>, clients: Seq<Slot<H>>)
    ensures
        clients_after_finish(ConnState::Closed, id, clients_after_finish(state, id, clients))
            == clients_after_finish(state, id, clients),
        handle_after_finish(ConnState::Closed, id, clients_after_finish(state, id, clients))
            == None::<H>,
{
}

/// Once a connection with unique ids in the registry is finished, its id is
/// no longer in the registry.
pub proof fn lemma_finished_connection_is_gone<H>(
    state: ConnState,
    id: Seq<char>,
    clients: Seq<Slot<H>>,
    ceiling: Option<usize>,
)
    requires
        well_formed(clients, ceiling),
        !(state is Closed),
    ensures
        !has_key(clients_after_finish(state, Some(id), clients), id),
        lookup(clients_after_finish(state, Some(id), clients), id) == None::<H>,
{
    crate::registry::lemma_remove_keeps_well_formed(clients, ceiling, id);
}

/// A malformed frame ends the active connection it came on and no other:
/// the connection starts to close, its id is out of the registry once it is
/// finished, and every other connection is in the registry as before.
pub proof fn lemma_violation_ends_only_this_connection<H>(
    frame: Inbound,
    id: Seq<char>,
    clients: Seq<Slot<H>>,
    ceiling: Option<usize>,
    other: Seq<char>,
)
    requires
        well_formed(clients, ceiling),
        frame_violation(frame) is Some,
        other != id,
    ensures
        next_state(ConnState::Active, frame) == ConnState::Closing,
        !has_key(clients_after_finish(ConnState::Closing, Some(id), clients), id),
        lookup(clients_after_finish(ConnState::Closing, Some(id), clients), other) == lookup(
            clients,
            other,
        ),
{
    crate::registry::lemma_remove_keeps_well_formed(clients, ceiling, id);
}

} // verus!
