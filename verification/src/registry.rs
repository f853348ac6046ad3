//! The peer registry: which peers are live, and for each its outbound queue.
//! Every operation is one step under the lock that guards the registry.

use crate::message::{Message, MessageView};
use crate::queue::{OutboundQueue, QueueView};
use vstd::prelude::*;

verus! {

/// The transport address of one connection: the host as the 128 bits of its
/// IPv6 form, and the port.
#[derive(Clone, Copy, PartialEq, Eq, Structural, Debug, Hash)]
pub struct PeerId {
    pub host: u128,
    pub port: u16,
}

/// Why a peer could not be registered.
#[derive(Clone, Copy, PartialEq, Eq, Structural, Debug)]
pub enum RegistryError {
    /// The id belongs to a session that is still live.
    DuplicatePeer,
}

/// One entry of the registry, as plain values.
pub struct PeerView {
    pub id: PeerId,
    pub queue: QueueView,
}

/// No id stands twice.
pub open spec fn distinct(r: Seq<PeerView>) -> bool {
    forall|i: int, j: int| 0 <= i < j < r.len() ==> r[i].id != r[j].id
}

/// `id` is registered.
pub open spec fn listed(r: Seq<PeerView>, id: PeerId) -> bool {
    exists|i: int| 0 <= i < r.len() && r[i].id == id
}

/// Where `id` stands, if it is registered.
pub open spec fn position(r: Seq<PeerView>, id: PeerId) -> int {
    choose|i: int| 0 <= i < r.len() && r[i].id == id
}

/// The queue of `id`, if it is registered.
pub open spec fn queue_of(r: Seq<PeerView>, id: PeerId) -> QueueView {
    r[position(r, id)].queue
}

/// The registry with the queue at `i` replaced.
pub open spec fn with_queue(r: Seq<PeerView>, i: int, queue: QueueView) -> Seq<PeerView> {
    r.update(i, PeerView { id: r[i].id, queue: queue })
}

/// The registry with `id` added behind all others.
pub open spec fn registered(r: Seq<PeerView>, id: PeerId, queue: QueueView) -> Seq<PeerView> {
    r.push(PeerView { id: id, queue: queue })
}

/// The registry without `id`; the registry itself where `id` is absent.
pub open spec fn unregistered(r: Seq<PeerView>, id: PeerId) -> Seq<PeerView> {
    if listed(r, id) {
        r.remove(position(r, id))
    } else {
        r
    }
}

/// The registry after `from` has broadcast `message`: every other peer has
/// been offered it, and `from` has not.
pub open spec fn broadcasted(r: Seq<PeerView>, from: PeerId, message: MessageView) -> Seq<
    PeerView,
> {
    Seq::new(
        r.len(),
        |i: int|
            if r[i].id != from {
                PeerView { id: r[i].id, queue: r[i].queue.offered(message) }
            } else {
                r[i]
            },
    )
}

/// How many peers a broadcast by `from` reaches: the others whose consumer is
/// there.
pub open spec fn audience(r: Seq<PeerView>, from: PeerId) -> nat
    decreases r.len(),
{
    if r.len() == 0 {
        0
    } else {
        audience(r.drop_last(), from) + if r.last().id != from && r.last().queue.open {
            1nat
        } else {
            0nat
        }
    }
}

/// The registry after `message` was sent to `id` alone.
pub open spec fn sent(r: Seq<PeerView>, id: PeerId, message: MessageView) -> Seq<PeerView> {
    if listed(r, id) {
        with_queue(r, position(r, id), queue_of(r, id).offered(message))
    } else {
        r
    }
}

/// The registry after `id` took its oldest message.
pub open spec fn advanced(r: Seq<PeerView>, id: PeerId) -> Seq<PeerView> {
    if listed(r, id) {
        with_queue(r, position(r, id), queue_of(r, id).advanced())
    } else {
        r
    }
}

/// The registry after the consumer of `id` has gone.
pub open spec fn hung_up(r: Seq<PeerView>, id: PeerId) -> Seq<PeerView> {
    if listed(r, id) {
        with_queue(r, position(r, id), queue_of(r, id).shut())
    } else {
        r
    }
}

#[derive(Debug)]
struct Peer {
    id: PeerId,
    queue: OutboundQueue,
}

/// The peers that are live, in the order in which they registered.
#[derive(Debug)]
pub struct Registry {
    peers: Vec<Peer>,
}

impl View for Registry {
    type V = Seq<PeerView>;

    closed spec fn view(&self) -> Seq<PeerView> {
        Seq::new(
            self.peers@.len(),
            |i: int| PeerView { id: self.peers@[i].id, queue: self.peers@[i].queue@ },
        )
    }
}

impl Registry {
    /// The registry is well formed: an id maps to at most one live session.
    pub open spec fn wf(&self) -> bool {
        distinct(self@)
    }

    /// A registry without peers.
    pub fn new() -> (registry: Registry)
        ensures
            registry.wf(),
            registry@ == Seq::<PeerView>::empty(),
    {
        let registry = Registry { peers: Vec::new() };
        registry
    }

    /// How many peers are registered.
    pub fn len(&self) -> (n: usize)
        ensures
            n == self@.len(),
    {
        self.peers.len()
    }

    fn find(&self, id: PeerId) -> (at: Option<usize>)
        requires
            self.wf(),
        ensures
            match at {
                Some(i) => listed(self@, id) && i == position(self@, id) && i < self.peers.len(),
                None => !listed(self@, id),
            },
    {
        let mut i: usize = 0;
        while i < self.peers.len()
            invariant
                self.wf(),
                i <= self.peers.len(),
                forall|k: int| 0 <= k < i ==> self@[k].id != id,
            decreases self.peers.len() - i,
        {
            if self.peers[i].id == id {
                assert(self@[i as int].id == id);
                return Some(i);
            }
            i = i + 1;
        }
        None
    }

    /// Whether `id` is registered.
    pub fn contains(&self, id: PeerId) -> (found: bool)
        requires
            self.wf(),
        ensures
            found == listed(self@, id),
    {
        self.find(id).is_some()
    }

    /// How many messages wait for `id`; none where `id` is absent.
    pub fn pending(&self, id: PeerId) -> (n: usize)
        requires
            self.wf(),
        ensures
            n == if listed(self@, id) {
                queue_of(self@, id).pending.len()
            } else {
                0
            },
    {
        match self.find(id) {
            Some(i) => self.peers[i].queue.len(),
            None => 0,
        }
    }

    /// Adds a peer with its queue. An id that is registered already is
    /// refused and the registry stays as it was.
    pub fn register(&mut self, id: PeerId, queue: OutboundQueue) -> (done: Result<
        (),
        RegistryError,
    >)
        requires
            old(self).wf(),
        ensures
            final(self).wf(),
            match done {
                Ok(_) => !listed(old(self)@, id) && final(self)@ == registered(
                    old(self)@,
                    id,
                    queue@,
                ),
                Err(e) => e == RegistryError::DuplicatePeer && listed(old(self)@, id)
                    && final(self)@ == old(self)@,
            },
    {
        match self.find(id) {
            Some(_) => Err(RegistryError::DuplicatePeer),
            None => {
                self.peers.push(Peer { id: id, queue: queue });
                assert(self@ =~= registered(old(self)@, id, queue@));
                Ok(())
            },
        }
    }

    /// Removes a peer and says whether it was there. An absent id changes
    /// nothing.
    pub fn unregister(&mut self, id: PeerId) -> (removed: bool)
        requires
            old(self).wf(),
        ensures
            final(self).wf(),
            removed == listed(old(self)@, id),
            final(self)@ == unregistered(old(self)@, id),
            !listed(final(self)@, id),
    {
        match self.find(id) {
            Some(i) => {
                self.peers.remove(i);
                assert(self@ =~= unregistered(old(self)@, id));
                true
            },
            None => false,
        }
    }

    /// Offers a copy of `message` to every registered peer but `from`, in
    /// the order of registration, and says how many took it. A peer whose
    /// consumer has gone takes nothing; that is no error.
    pub fn broadcast(&mut self, from: PeerId, message: &Message) -> (delivered: usize)
        requires
            old(self).wf(),
        ensures
            final(self).wf(),
            final(self)@ == broadcasted(old(self)@, from, message@),
            delivered == audience(old(self)@, from),
    {
        let mut delivered: usize = 0;
        let mut i: usize = 0;
        while i < self.peers.len()
            invariant
                i <= self.peers.len(),
                self@.len() == old(self)@.len(),
                self.peers.len() == self@.len(),
                distinct(old(self)@),
                forall|k: int| 0 <= k < i ==> self@[k] == broadcasted(old(self)@, from, message@)[k],
                forall|k: int| i <= k < self@.len() ==> self@[k] == old(self)@[k],
                delivered == audience(old(self)@.take(i as int), from),
                delivered <= i,
            decreases self.peers.len() - i,
        {
            let ghost before = self@;
            if self.peers[i].id != from {
                let taken = self.peers[i].queue.push(message.clone());
                if taken {
                    delivered = delivered + 1;
                }
            }
            assert forall|k: int| 0 <= k < i + 1 implies self@[k] == broadcasted(
                old(self)@,
                from,
                message@,
            )[k] by {
                if k < i {
                    assert(self@[k] == before[k]);
                }
            }
            assert(old(self)@.take(i + 1).drop_last() =~= old(self)@.take(i as int));
            i = i + 1;
        }
        assert(old(self)@.take(i as int) =~= old(self)@);
        delivered
    }

    /// Offers `message` to `id` alone and says whether it was taken: `id`
    /// is registered and its consumer is there.
    pub fn send_to(&mut self, id: PeerId, message: Message) -> (taken: bool)
        requires
            old(self).wf(),
        ensures
            final(self).wf(),
            final(self)@ == sent(old(self)@, id, message@),
            taken == (listed(old(self)@, id) && queue_of(old(self)@, id).open),
    {
        match self.find(id) {
            Some(i) => {
                let taken = self.peers[i].queue.push(message);
                assert(self@ =~= sent(old(self)@, id, message@));
                taken
            },
            None => false,
        }
    }

    /// Takes the oldest message that waits for `id`. `None` where nothing
    /// waits or `id` is absent.
    pub fn next_outbound(&mut self, id: PeerId) -> (message: Option<Message>)
        requires
            old(self).wf(),
        ensures
            final(self).wf(),
            final(self)@ == advanced(old(self)@, id),
            message is None ==> final(self)@ == old(self)@,
            match message {
                Some(m) => listed(old(self)@, id) && queue_of(old(self)@, id).pending.len() > 0
                    && m@ == queue_of(old(self)@, id).pending[0],
                None => !listed(old(self)@, id) || queue_of(old(self)@, id).pending.len() == 0,
            },
    {
        match self.find(id) {
            Some(i) => {
                let message = self.peers[i].queue.pop();
                assert(self@ =~= advanced(old(self)@, id));
                message
            },
            None => None,
        }
    }

    /// Records that the consumer of `id` has gone: from now on what is
    /// offered to `id` is dropped.
    pub fn hang_up(&mut self, id: PeerId)
        requires
            old(self).wf(),
        ensures
            final(self).wf(),
            final(self)@ == hung_up(old(self)@, id),
    {
        match self.find(id) {
            Some(i) => {
                self.peers[i].queue.close();
                assert(self@ =~= hung_up(old(self)@, id));
            },
            None => {},
        }
    }
}

/// A peer that registers where it was absent and then unregisters leaves
/// the registry as it found it.
pub proof fn lemma_register_then_unregister(r: Seq<PeerView>, id: PeerId, queue: QueueView)
    requires
        distinct(r),
        !listed(r, id),
    ensures
        distinct(registered(r, id, queue)),
        listed(registered(r, id, queue), id),
        unregistered(registered(r, id, queue), id) == r,
{
    let after = registered(r, id, queue);
    assert(after[r.len() as int].id == id);
}

/// Registering in an empty registry and unregistering again leaves it empty.
pub proof fn lemma_register_then_unregister_empty(id: PeerId, queue: QueueView)
    ensures
        unregistered(registered(Seq::<PeerView>::empty(), id, queue), id) == Seq::<
            PeerView,
        >::empty(),
{
    lemma_register_then_unregister(Seq::<PeerView>::empty(), id, queue);
}

/// Unregistering is idempotent: an absent id changes nothing, and after one
/// removal the id is absent.
pub proof fn lemma_unregister_idempotent(r: Seq<PeerView>, id: PeerId)
    requires
        distinct(r),
    ensures
        !listed(r, id) ==> unregistered(r, id) == r,
        distinct(unregistered(r, id)),
        !listed(unregistered(r, id), id),
        unregistered(unregistered(r, id), id) == unregistered(r, id),
        forall|other: PeerId|
            other != id ==> listed(unregistered(r, id), other) == #[trigger] listed(r, other),
{
    let after = unregistered(r, id);
    if listed(r, id) {
        let at = position(r, id);
        assert forall|other: PeerId| other != id implies listed(after, other) == #[trigger] listed(
            r,
            other,
        ) by {
            if listed(r, other) {
                let k = position(r, other);
                if k < at {
                    assert(after[k].id == other);
                } else {
                    assert(after[k - 1].id == other);
                }
            }
        }
    }
}

/// A broadcast reaches every registered peer but its sender, and no one
/// else: the peers and their order stay; each other peer whose consumer is
/// there has the message behind all that waited for it; the sender's queue
/// and the queues whose consumer has gone stay as they were. With no other
/// peer registered nothing changes.
pub proof fn lemma_broadcast_reaches_the_others(
    r: Seq<PeerView>,
    from: PeerId,
    message: MessageView,
)
    ensures
        broadcasted(r, from, message).len() == r.len(),
        distinct(r) ==> distinct(broadcasted(r, from, message)),
        forall|i: int|
            0 <= i < r.len() ==> (#[trigger] broadcasted(r, from, message)[i]).id == r[i].id,
        forall|i: int|
            0 <= i < r.len() && r[i].id != from && r[i].queue.open ==> (#[trigger] broadcasted(
                r,
                from,
                message,
            )[i]).queue == (QueueView {
                pending: r[i].queue.pending.push(message),
                open: true,
            }),
        forall|i: int|
            0 <= i < r.len() && (r[i].id == from || !r[i].queue.open) ==> #[trigger] broadcasted(
                r,
                from,
                message,
            )[i] == r[i],
        forall|id: PeerId| listed(broadcasted(r, from, message), id) == #[trigger] listed(r, id),
        (forall|i: int| 0 <= i < r.len() ==> (#[trigger] r[i]).id == from) ==> broadcasted(
            r,
            from,
            message,
        ) == r,
        (forall|i: int| 0 <= i < r.len() ==> (#[trigger] r[i]).id == from) ==> audience(r, from)
            == 0,
{
    let after = broadcasted(r, from, message);
    assert forall|id: PeerId| listed(after, id) == #[trigger] listed(r, id) by {
        if listed(r, id) {
            assert(after[position(r, id)].id == id);
        }
    }
    if forall|i: int| 0 <= i < r.len() ==> (#[trigger] r[i]).id == from {
        lemma_audience_of_none(r, from);
    }
}

proof fn lemma_audience_of_none(r: Seq<PeerView>, from: PeerId)
    requires
        forall|i: int| 0 <= i < r.len() ==> (#[trigger] r[i]).id == from,
    ensures
        audience(r, from) == 0,
    decreases r.len(),
{
    if r.len() > 0 {
        lemma_audience_of_none(r.drop_last(), from);
    }
}

/// What one sender broadcasts reaches every other peer in the order in which
/// it was sent: after `first` and then `second`, each peer that takes them
/// holds `first` directly before `second`, behind all that waited before.
pub proof fn lemma_broadcasts_arrive_in_order(
    r: Seq<PeerView>,
    from: PeerId,
    first: MessageView,
    second: MessageView,
)
    ensures
        forall|i: int|
            0 <= i < r.len() && r[i].id != from && r[i].queue.open ==> (#[trigger] broadcasted(
                broadcasted(r, from, first),
                from,
                second,
            )[i]).queue.pending == r[i].queue.pending + seq![first, second],
        forall|i: int|
            0 <= i < r.len() && (r[i].id == from || !r[i].queue.open) ==> #[trigger] broadcasted(
                broadcasted(r, from, first),
                from,
                second,
            )[i] == r[i],
{
    let once = broadcasted(r, from, first);
    assert forall|i: int| 0 <= i < r.len() && r[i].id != from && r[i].queue.open implies (
    #[trigger] broadcasted(once, from, second)[i]).queue.pending == r[i].queue.pending + seq![
        first,
        second,
    ] by {
        assert(once[i].queue.pending == r[i].queue.pending.push(first));
        assert(r[i].queue.pending.push(first).push(second) =~= r[i].queue.pending + seq![
            first,
            second,
        ]);
    }
}

/// Each recipient sees the broadcasts of one sender in the order in which
/// they were sent: after `first` and then `second` the queue of `id` holds
/// what it held with `first` and `second` behind it, and taking a message
/// takes the oldest. So a recipient whose queue was empty takes `first`,
/// then `second`.
pub proof fn lemma_recipient_takes_in_order(
    r: Seq<PeerView>,
    from: PeerId,
    id: PeerId,
    first: MessageView,
    second: MessageView,
)
    requires
        distinct(r),
        listed(r, id),
        id != from,
        queue_of(r, id).open,
    ensures
        listed(broadcasted(broadcasted(r, from, first), from, second), id),
        queue_of(broadcasted(broadcasted(r, from, first), from, second), id).pending == queue_of(
            r,
            id,
        ).pending + seq![first, second],
        queue_of(r, id).pending.len() == 0 ==> {
            let twice = broadcasted(broadcasted(r, from, first), from, second);
            &&& queue_of(twice, id).pending[0] == first
            &&& listed(advanced(twice, id), id)
            &&& queue_of(advanced(twice, id), id).pending =~= seq![second]
        },
{
    let twice = broadcasted(broadcasted(r, from, first), from, second);
    let at = position(r, id);
    lemma_broadcasts_arrive_in_order(r, from, first, second);
    lemma_broadcast_reaches_the_others(r, from, first);
    lemma_broadcast_reaches_the_others(broadcasted(r, from, first), from, second);
    assert(twice[at].id == id);
    assert(position(twice, id) == at);
    assert(twice[at].queue.pending == r[at].queue.pending + seq![first, second]);
    if queue_of(r, id).pending.len() == 0 {
        let after = advanced(twice, id);
        assert(after[at].id == id);
        assert(position(after, id) == at) by {
            lemma_ids_stay(twice, id, first);
        }
    }
}

/// Registering, sending, taking and hanging up leave every other peer
/// registered as it was, and keep the ids distinct.
pub proof fn lemma_ids_stay(r: Seq<PeerView>, id: PeerId, message: MessageView)
    requires
        distinct(r),
    ensures
        distinct(sent(r, id, message)),
        distinct(advanced(r, id)),
        distinct(hung_up(r, id)),
        forall|other: PeerId| listed(sent(r, id, message), other) == #[trigger] listed(r, other),
        forall|other: PeerId| listed(advanced(r, id), other) == #[trigger] listed(r, other),
        forall|other: PeerId| listed(hung_up(r, id), other) == #[trigger] listed(r, other),
        forall|queue: QueueView|
            !listed(r, id) ==> distinct(#[trigger] registered(r, id, queue)) && listed(
                registered(r, id, queue),
                id,
            ),
        forall|queue: QueueView, other: PeerId|
            other != id ==> listed(#[trigger] registered(r, id, queue), other) == #[trigger] listed(
                r,
                other,
            ),
{
    if listed(r, id) {
        lemma_same_ids(r, sent(r, id, message));
        lemma_same_ids(r, advanced(r, id));
        lemma_same_ids(r, hung_up(r, id));
    }
    assert forall|queue: QueueView| !listed(r, id) implies distinct(
        #[trigger] registered(r, id, queue),
    ) && listed(registered(r, id, queue), id) by {
        assert(registered(r, id, queue)[r.len() as int].id == id);
    }
    assert forall|queue: QueueView, other: PeerId| other != id implies listed(
        #[trigger] registered(r, id, queue),
        other,
    ) == #[trigger] listed(r, other) by {
        let after = registered(r, id, queue);
        if listed(r, other) {
            assert(after[position(r, other)].id == other);
        }
    }
}

proof fn lemma_same_ids(r: Seq<PeerView>, after: Seq<PeerView>)
    requires
        after.len() == r.len(),
        forall|i: int| 0 <= i < r.len() ==> (#[trigger] after[i]).id == r[i].id,
    ensures
        distinct(r) ==> distinct(after),
        forall|other: PeerId| listed(after, other) == #[trigger] listed(r, other),
{
    assert forall|other: PeerId| listed(after, other) == #[trigger] listed(r, other) by {
        if listed(r, other) {
            assert(after[position(r, other)].id == other);
        }
    }
}

} // verus!
