//! Fan-out on a relay: who gets a message, and what one connection's
//! deliver loop does with what reaches it.
//!
//! The channel that carries the messages between tasks belongs to the
//! process around this library. It is bounded: a subscriber that falls more
//! than the bound behind is told how many messages it missed and goes on
//! from there, and the publisher never waits. What is decided here is only
//! who a message is for.

use crate::connection::ConnectionRegistry;
use crate::consts::BROADCAST_CAPACITY;
use crate::payload::TextPayload;
use vstd::prelude::*;

verus! {

/// A message is for every connection but the one it came from.
pub open spec fn delivers_to(message: TextPayload, connection: Seq<char>) -> bool {
    message.author() != Some(connection)
}

/// Whether the deliver loop of `connection_id` sends `message` on.
pub fn should_deliver(message: &TextPayload, connection_id: &String) -> (deliver: bool)
    ensures
        deliver == delivers_to(*message, connection_id@),
{
    match message.author_id() {
        Some(author) => !(*author == *connection_id),
        None => true,
    }
}

/// The connections among `ids` that get a message from `author`: all of
/// them but the author, in order.
pub open spec fn recipients_of(ids: Seq<Seq<char>>, author: Option<Seq<char>>) -> Seq<Seq<char>>
    decreases ids.len(),
{
    if ids.len() == 0 {
        ids
    } else if Some(ids.last()) == author {
        recipients_of(ids.drop_last(), author)
    } else {
        recipients_of(ids.drop_last(), author).push(ids.last())
    }
}

/// The settings of a relay's fan-out channel.
#[derive(Clone, Copy, Debug, PartialEq, Eq, Structural)]
pub struct BroadcastHub {
    capacity: usize,
}

/// The fan-out channel of a relay: it buffers [`BROADCAST_CAPACITY`]
/// pending messages.
pub fn broadcast() -> (hub: BroadcastHub)
    ensures
        hub.bound() == BROADCAST_CAPACITY,
{
    BroadcastHub::new()
}

impl BroadcastHub {
    /// How many pending messages the channel buffers.
    pub closed spec fn bound(&self) -> usize {
        self.capacity
    }

    /// The settings of a relay's channel: it buffers [`BROADCAST_CAPACITY`]
    /// pending messages.
    pub fn new() -> (hub: BroadcastHub)
        ensures
            hub.bound() == BROADCAST_CAPACITY,
    {
        BroadcastHub { capacity: BROADCAST_CAPACITY }
    }

    /// A channel that buffers `capacity` pending messages, or `None` for a
    /// capacity of zero, which no channel can have.
    pub fn with_capacity(capacity: usize) -> (hub: Option<BroadcastHub>)
        ensures
            hub is Some <==> capacity > 0,
            hub is Some ==> hub->0.bound() == capacity,
    {
        if capacity > 0 {
            Some(BroadcastHub { capacity })
        } else {
            None
        }
    }

    /// How many pending messages the channel buffers.
    pub fn capacity(&self) -> (n: usize)
        ensures
            n == self.bound(),
    {
        self.capacity
    }

    /// The ids of the connections that `message` is delivered to: every
    /// connection in the registry but the one it came from.
    pub fn recipients<H>(&self, clients: &ConnectionRegistry<H>, message: &TextPayload) -> (ids: Vec<
        String,
    >)
        ensures
            Seq::new(ids@.len(), |i: int| ids@[i]@) == recipients_of(
                crate::registry::keys_of(clients@),
                message.author(),
            ),
    {
        let all = clients.ids();
        let ghost keys = crate::registry::keys_of(clients@);
        let mut out: Vec<String> = Vec::new();
        let mut i: usize = 0;
        proof {
            assert(keys.take(0) =~= Seq::<Seq<char>>::empty());
        }
        while i < all.len()
            invariant
                i <= all.len(),
                all@.len() == keys.len(),
                forall|j: int| 0 <= j < all@.len() ==> (#[trigger] all@[j])@ == keys[j],
                Seq::new(out@.len(), |k: int| out@[k]@) == recipients_of(
                    keys.take(i as int),
                    message.author(),
                ),
            decreases all.len() - i,
        {
            let ghost before = Seq::new(out@.len(), |k: int| out@[k]@);
            proof {
                assert(keys.take(i + 1).drop_last() =~= keys.take(i as int));
                assert(keys.take(i + 1).last() == all@[i as int]@);
            }
            if should_deliver(message, &all[i]) {
                out.push(all[i].clone());
                assert(Seq::new(out@.len(), |k: int| out@[k]@) =~= before.push(all@[i as int]@));
            }
            i += 1;
        }
        proof {
            assert(keys.take(i as int) =~= keys);
        }
        out
    }
}

/// A message never goes back to the connection it came from, and it goes to
/// every other connection: a connection gets it exactly when it is
/// registered and is not the author. Connections with distinct ids get it
/// once each.
pub proof fn lemma_recipients(ids: Seq<Seq<char>>, author: Option<Seq<char>>)
    ensures
        forall|id: Seq<char>| #[trigger]
            recipients_of(ids, author).contains(id) <==> ids.contains(id) && Some(id) != author,
        ids.no_duplicates() ==> recipients_of(ids, author).no_duplicates(),
        recipients_of(ids, author).len() <= ids.len(),
    decreases ids.len(),
{
    let r = recipients_of(ids, author);
    if ids.len() > 0 {
        let rest = ids.drop_last();
        let last = ids.last();
        let rr = recipients_of(rest, author);
        lemma_recipients(rest, author);
        assert forall|id: Seq<char>| #[trigger]
            r.contains(id) <==> ids.contains(id) && Some(id) != author by {
            if r.contains(id) {
                let k = choose|k: int| 0 <= k < r.len() && r[k] == id;
                if k < rr.len() {
                    assert(rr[k] == id);
                    assert(rr.contains(id));
                    let m = choose|m: int| 0 <= m < rest.len() && rest[m] == id;
                    assert(ids[m] == id);
                } else {
                    assert(id == last);
                    assert(ids[ids.len() - 1] == id);
                }
            }
            if ids.contains(id) && Some(id) != author {
                let m = choose|m: int| 0 <= m < ids.len() && ids[m] == id;
                if m < rest.len() {
                    assert(rest[m] == id);
                    assert(rest.contains(id));
                    assert(rr.contains(id));
                    let k = choose|k: int| 0 <= k < rr.len() && rr[k] == id;
                    assert(r[k] == id);
                } else {
                    assert(r[r.len() - 1] == id);
                }
            }
        }
        if ids.no_duplicates() {
            assert(rest.no_duplicates()) by {
                assert forall|a: int, b: int| 0 <= a < rest.len() && 0 <= b < rest.len() && a
                    != b implies rest[a] != rest[b] by {
                    assert(ids[a] != ids[b]);
                }
            }
            assert forall|a: int, b: int| 0 <= a < r.len() && 0 <= b < r.len() && a != b implies r[a]
                != r[b] by {
                if a < rr.len() && b < rr.len() {
                    assert(rr[a] != rr[b]);
                } else {
                    let inner = if a < rr.len() { a } else { b };
                    assert(r[inner] == rr[inner]);
                    if rr[inner] == last {
                        assert(rr.contains(last));
                        assert(rest.contains(last));
                        let m = choose|m: int| 0 <= m < rest.len() && rest[m] == last;
                        assert(ids[m] != ids[ids.len() - 1]);
                    }
                }
            }
        }
    }
}

/// A message is never delivered back to the connection it came from: the
/// deliver loop of that connection does not send it on.
pub proof fn lemma_message_never_returns_to_its_author(message: TextPayload, connection: Seq<char>)
    requires
        message.author() == Some(connection),
    ensures
        !delivers_to(message, connection),
{
}

/// The message from `author` is never for `author`.
pub proof fn lemma_author_is_no_recipient(ids: Seq<Seq<char>>, author: Seq<char>)
    ensures
        !recipients_of(ids, Some(author)).contains(author),
{
    lemma_recipients(ids, Some(author));
}

/// What reaches one connection's deliver loop.
pub enum Delivery {
    /// A message came out of the channel.
    Message(TextPayload),
    /// The connection fell behind: this many messages were missed.
    Lagged(u64),
    /// The channel is closed: no publisher is left.
    ChannelClosed,
    /// The last send on the connection's socket failed.
    SendFailed,
    /// The shutdown signal fired.
    Shutdown,
}

/// What the deliver loop does next.
pub enum DeliverAction {
    /// Send the message over this connection's socket.
    Send(TextPayload),
    /// Nothing to send; wait for the next message.
    Skip,
    /// Leave the loop. Other connections and the channel are not touched.
    Stop,
}

/// The deliver loop of one connection.
pub struct DeliverLoop {
    connection_id: String,
    running: bool,
    missed: u64,
}

impl DeliverLoop {
    /// The id of the connection that the loop delivers to.
    pub closed spec fn connection(&self) -> Seq<char> {
        self.connection_id@
    }

    /// Whether the loop is still going.
    pub closed spec fn running(&self) -> bool {
        self.running
    }

    /// How many messages the connection missed by falling behind, counted
    /// up to the largest number that fits.
    pub closed spec fn missed(&self) -> u64 {
        self.missed
    }

    /// The deliver loop for the connection with this id.
    pub fn new(connection_id: String) -> (l: Self)
        ensures
            l.connection() == connection_id@,
            l.running(),
            l.missed() == 0,
    {
        DeliverLoop { connection_id, running: true, missed: 0 }
    }

    /// Whether the loop is still going.
    pub fn is_running(&self) -> (b: bool)
        ensures
            b == self.running(),
    {
        self.running
    }

    /// How many messages the connection missed by falling behind.
    pub fn missed_count(&self) -> (n: u64)
        ensures
            n == self.missed(),
    {
        self.missed
    }

    /// Takes what reached the loop and says what to do.
    ///
    /// A message is sent on unless it came from this connection. Missed
    /// messages are counted and the loop goes on. A closed channel, a failed
    /// send or the shutdown signal ends the loop, and once it has ended it
    /// stays ended.
    pub fn on_event(&mut self, event: Delivery) -> (action: DeliverAction)
        ensures
            final(self).connection() == old(self).connection(),
            final(self).running() == (old(self).running() && (event is Message || event is Lagged)),
            !final(self).running() ==> action is Stop,
            final(self).running() && event is Lagged ==> action is Skip,
            final(self).running() && event is Message && !delivers_to(
                event->Message_0,
                old(self).connection(),
            ) ==> action is Skip,
            final(self).running() && event is Message && delivers_to(
                event->Message_0,
                old(self).connection(),
            ) ==> action is Send && action->Send_0 == event->Message_0,
            action is Send ==> action->Send_0.author() != Some(old(self).connection()),
            old(self).running() && event is Lagged ==> final(self).missed() == if old(self).missed()
                + event->Lagged_0 > u64::MAX {
                u64::MAX
            } else {
                (old(self).missed() + event->Lagged_0) as u64
            },
            !(old(self).running() && event is Lagged) ==> final(self).missed() == old(self).missed(),
    {
        if !self.running {
            return DeliverAction::Stop;
        }
        match event {
            Delivery::Message(message) => {
                if should_deliver(&message, &self.connection_id) {
                    DeliverAction::Send(message)
                } else {
                    DeliverAction::Skip
                }
            },
            Delivery::Lagged(n) => {
                self.missed = if n > u64::MAX - self.missed {
                    u64::MAX
                } else {
                    self.missed + n
                };
                DeliverAction::Skip
            },
            _ => {
                self.running = false;
                DeliverAction::Stop
            },
        }
    }
}

} // verus!
