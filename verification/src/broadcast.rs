//! The broadcaster: the one owner of the registry of connected clients, and
//! the place where a chat message is fanned out to all of them.
//!
//! The broadcaster decides; it does no input or output itself. It is handed
//! the control messages of its queue one by one and answers each with what
//! its caller has to do: keep a client's sink, drop it, or write a response
//! to the sinks of the clients it names.

use crate::message::{Message, MessageView};
use crate::response::{response_view, Response, ResponseView};
use crate::views;
use vstd::prelude::*;

verus! {

/// A control message in the broadcaster's queue.
#[derive(Debug, PartialEq, Eq)]
pub enum BroadcastMessage {
    /// Broadcast a message to all connected clients.
    ChatMessage(Message),
    /// Add the client with this id.
    AddClient(usize),
    /// Remove the client with this id.
    RemoveClient(usize),
}

/// What a `BroadcastMessage` holds, as mathematical data.
pub enum BroadcastMessageView {
    ChatMessage(MessageView),
    AddClient(usize),
    RemoveClient(usize),
}

impl View for BroadcastMessage {
    type V = BroadcastMessageView;

    open spec fn view(&self) -> BroadcastMessageView {
        match self {
            BroadcastMessage::ChatMessage(message) => BroadcastMessageView::ChatMessage(message@),
            BroadcastMessage::AddClient(id) => BroadcastMessageView::AddClient(*id),
            BroadcastMessage::RemoveClient(id) => BroadcastMessageView::RemoveClient(*id),
        }
    }
}

impl Clone for BroadcastMessage {
    fn clone(&self) -> (r: Self)
        ensures
            r@ == self@,
    {
        match self {
            BroadcastMessage::ChatMessage(message) => BroadcastMessage::ChatMessage(
                message.clone(),
            ),
            BroadcastMessage::AddClient(id) => BroadcastMessage::AddClient(*id),
            BroadcastMessage::RemoveClient(id) => BroadcastMessage::RemoveClient(*id),
        }
    }
}

/// What the owner of the sinks has to do after a control message.
#[derive(Debug, PartialEq, Eq)]
pub enum BroadcastAction {
    /// Keep the sink that came with the message under this id, in place of
    /// an older one under the same id.
    Attach(usize),
    /// Drop the sink kept under this id, if there is one.
    Detach(usize),
    /// Write the response to the sink of each recipient, in this order; a
    /// write that fails is passed over, and the next recipient is served.
    Deliver { recipients: Vec<usize>, response: Response },
}

/// What a `BroadcastAction` holds, as mathematical data.
pub enum BroadcastActionView {
    Attach(usize),
    Detach(usize),
    Deliver { recipients: Seq<usize>, response: ResponseView },
}

impl View for BroadcastAction {
    type V = BroadcastActionView;

    open spec fn view(&self) -> BroadcastActionView {
        match self {
            BroadcastAction::Attach(id) => BroadcastActionView::Attach(*id),
            BroadcastAction::Detach(id) => BroadcastActionView::Detach(*id),
            BroadcastAction::Deliver { recipients, response } => BroadcastActionView::Deliver {
                recipients: recipients@,
                response: response_view(*response),
            },
        }
    }
}

/// The ids of `registry` without `id`, in their order.
pub open spec fn without(registry: Seq<usize>, id: usize) -> Seq<usize>
    decreases registry.len(),
{
    if registry.len() == 0 {
        registry
    } else if registry.last() == id {
        without(registry.drop_last(), id)
    } else {
        without(registry.drop_last(), id).push(registry.last())
    }
}

/// The registry after a control message: an added id goes to the end unless
/// it is registered already, a removed id leaves, and a chat message changes
/// nothing.
pub open spec fn registry_after(registry: Seq<usize>, message: BroadcastMessageView) -> Seq<
    usize,
> {
    match message {
        BroadcastMessageView::ChatMessage(_) => registry,
        BroadcastMessageView::AddClient(id) => if registry.contains(id) {
            registry
        } else {
            registry.push(id)
        },
        BroadcastMessageView::RemoveClient(id) => without(registry, id),
    }
}

/// What a control message asks for: a chat message is delivered, as a
/// success response, to every registered client.
pub open spec fn action_for(registry: Seq<usize>, message: BroadcastMessageView)
    -> BroadcastActionView {
    match message {
        BroadcastMessageView::ChatMessage(chat) => BroadcastActionView::Deliver {
            recipients: registry,
            response: Ok(chat),
        },
        BroadcastMessageView::AddClient(id) => BroadcastActionView::Attach(id),
        BroadcastMessageView::RemoveClient(id) => BroadcastActionView::Detach(id),
    }
}

/// The registry after the first `n` messages of `queue`, taken in order.
pub open spec fn registry_at(registry: Seq<usize>, queue: Seq<BroadcastMessageView>, n: int)
    -> Seq<usize>
    decreases n,
{
    if n <= 0 {
        registry
    } else {
        registry_after(registry_at(registry, queue, n - 1), queue[n - 1])
    }
}

/// Something that a message can be broadcast through.
pub trait Broadcast {
    /// The ids of the clients that a broadcast reaches, in order.
    spec fn reached(&self) -> Seq<usize>;

    /// Broadcasts `message` to all clients: says that it is to be
    /// delivered, as a success response, to every client that is reached.
    /// Who is reached does not change by it.
    fn broadcast(&mut self, message: Message) -> (action: BroadcastAction)
        ensures
            final(self).reached() == old(self).reached(),
            action@ == (BroadcastActionView::Deliver {
                recipients: old(self).reached(),
                response: Ok(message@),
            }),
    ;
}

/// The registry of connected clients: their ids, in the order in which they
/// were added, each id once.
pub struct Broadcaster {
    clients: Vec<usize>,
}

impl View for Broadcaster {
    type V = Seq<usize>;

    closed spec fn view(&self) -> Seq<usize> {
        self.clients@
    }
}

impl Default for Broadcaster {
    /// The broadcaster with no client.
    fn default() -> (r: Self)
        ensures
            r@ == Seq::<usize>::empty(),
    {
        Broadcaster { clients: Vec::new() }
    }
}

impl Broadcaster {
    #[verifier::type_invariant]
    spec fn well_formed(&self) -> bool {
        self.clients@.no_duplicates()
    }

    /// The ids of the registered clients, in the order in which they were
    /// added.
    pub fn clients(&self) -> (r: &Vec<usize>)
        ensures
            r@ == self@,
            r@.no_duplicates(),
    {
        proof {
            use_type_invariant(self);
        }
        &self.clients
    }

    /// Whether the client `id` is registered.
    pub fn is_registered(&self, id: usize) -> (r: bool)
        ensures
            r == self@.contains(id),
    {
        let mut i: usize = 0;
        while i < self.clients.len()
            invariant
                i <= self.clients@.len(),
                forall|j: int| 0 <= j < i ==> self.clients@[j] != id,
            decreases self.clients@.len() - i,
        {
            if self.clients[i] == id {
                return true;
            }
            i += 1;
        }
        false
    }

    fn remove(&mut self, id: usize)
        ensures
            final(self)@ == without(old(self)@, id),
    {
        proof {
            use_type_invariant(&*self);
        }
        let mut kept: Vec<usize> = Vec::new();
        let mut i: usize = 0;
        proof {
            assert(self.clients@.take(0) == Seq::<usize>::empty());
        }
        while i < self.clients.len()
            invariant
                i <= self.clients@.len(),
                self.clients@ == old(self).clients@,
                kept@ == without(self.clients@.take(i as int), id),
            decreases self.clients@.len() - i,
        {
            let k: usize = self.clients[i];
            proof {
                let longer = self.clients@.take(i + 1);
                assert(longer.drop_last() == self.clients@.take(i as int));
                assert(longer.last() == k);
            }
            if k != id {
                kept.push(k);
            }
            i += 1;
        }
        proof {
            assert(self.clients@.take(self.clients@.len() as int) == self.clients@);
            lemma_without(self.clients@, id);
        }
        self.clients = kept;
    }

    /// Takes one control message and says what is to be done. The registry
    /// changes on `AddClient` and `RemoveClient` only; a `ChatMessage` goes,
    /// wrapped as a success response, to every registered client.
    pub fn handle(&mut self, message: BroadcastMessage) -> (action: BroadcastAction)
        ensures
            final(self)@ == registry_after(old(self)@, message@),
            action@ == action_for(old(self)@, message@),
    {
        match message {
            BroadcastMessage::ChatMessage(chat) => {
                let recipients = self.clients.clone();
                assert(recipients@ =~= self.clients@);
                BroadcastAction::Deliver { recipients, response: Ok(chat) }
            },
            BroadcastMessage::AddClient(id) => {
                proof {
                    use_type_invariant(&*self);
                }
                if !self.is_registered(id) {
                    let mut clients = self.clients.clone();
                    assert(clients@ =~= self.clients@);
                    clients.push(id);
                    self.clients = clients;
                }
                BroadcastAction::Attach(id)
            },
            BroadcastMessage::RemoveClient(id) => {
                self.remove(id);
                BroadcastAction::Detach(id)
            },
        }
    }

    /// Takes the control messages of `queue` strictly in their order, first
    /// in, first out, and says for each what is to be done.
    pub fn run(&mut self, queue: Vec<BroadcastMessage>) -> (actions: Vec<BroadcastAction>)
        ensures
            final(self)@ == registry_at(old(self)@, views(queue@), queue@.len() as int),
            actions@.len() == queue@.len(),
            forall|i: int|
                0 <= i < queue@.len() ==> (#[trigger] actions@[i])@ == action_for(
                    registry_at(old(self)@, views(queue@), i),
                    queue@[i]@,
                ),
    {
        let ghost start = self@;
        let ghost all = views(queue@);
        let mut actions: Vec<BroadcastAction> = Vec::new();
        for message in it: queue
            invariant
                it.seq() == queue@,
                all == views(queue@),
                self@ == registry_at(start, all, it.index()),
                actions@.len() == it.index(),
                forall|i: int|
                    0 <= i < it.index() ==> (#[trigger] actions@[i])@ == action_for(
                        registry_at(start, all, i),
                        queue@[i]@,
                    ),
        {
            let action = self.handle(message);
            actions.push(action);
        }
        actions
    }
}

impl Broadcast for Broadcaster {
    open spec fn reached(&self) -> Seq<usize> {
        self@
    }

    fn broadcast(&mut self, message: Message) -> (action: BroadcastAction) {
        self.handle(BroadcastMessage::ChatMessage(message))
    }
}

/// What removing an id leaves: the id is gone, every other id is there as
/// before, and no id is there twice where none was.
pub proof fn lemma_without(registry: Seq<usize>, id: usize)
    ensures
        !without(registry, id).contains(id),
        forall|k: usize| k != id ==> (without(registry, id).contains(k) <==> registry.contains(k)),
        registry.no_duplicates() ==> without(registry, id).no_duplicates(),
        !registry.contains(id) ==> without(registry, id) == registry,
    decreases registry.len(),
{
    let kept = without(registry, id);
    if registry.len() > 0 {
        let shorter = registry.drop_last();
        let last = registry.last();
        let base = without(shorter, id);
        lemma_without(shorter, id);
        assert(registry == shorter.push(last));
        assert forall|k: usize| registry.contains(k) <==> (shorter.contains(k) || k == last) by {
            if registry.contains(k) {
                let j = choose|j: int| 0 <= j < registry.len() && registry[j] == k;
                if j < shorter.len() {
                    assert(shorter[j] == k);
                }
            }
            if shorter.contains(k) {
                let j = choose|j: int| 0 <= j < shorter.len() && shorter[j] == k;
                assert(registry[j] == k);
            }
            if k == last {
                assert(registry[registry.len() - 1] == k);
            }
        }
        if last != id {
            assert(kept == base.push(last));
            assert forall|k: usize| kept.contains(k) <==> (base.contains(k) || k == last) by {
                if kept.contains(k) {
                    let j = choose|j: int| 0 <= j < kept.len() && kept[j] == k;
                    if j < base.len() {
                        assert(base[j] == k);
                    }
                }
                if base.contains(k) {
                    let j = choose|j: int| 0 <= j < base.len() && base[j] == k;
                    assert(kept[j] == k);
                }
                if k == last {
                    assert(kept[kept.len() - 1] == k);
                }
            }
            if registry.no_duplicates() {
                assert(shorter.no_duplicates());
                assert(!shorter.contains(last)) by {
                    if shorter.contains(last) {
                        let j = choose|j: int| 0 <= j < shorter.len() && shorter[j] == last;
                        assert(registry[j] == registry[registry.len() - 1]);
                    }
                }
                assert forall|a: int, b: int|
                    0 <= a < kept.len() && 0 <= b < kept.len() && a != b implies kept[a]
                    != kept[b] by {
                    if a < base.len() && b < base.len() {
                    } else if a < base.len() {
                        assert(base.contains(kept[a]));
                    } else {
                        assert(base.contains(kept[b]));
                    }
                }
            }
        } else {
            assert(kept == base);
        }
    }
}

/// The chat messages among the first `n` messages of `queue`, in order.
pub open spec fn chats(queue: Seq<BroadcastMessageView>, n: int) -> Seq<MessageView>
    decreases n,
{
    if n <= 0 {
        Seq::empty()
    } else {
        match queue[n - 1] {
            BroadcastMessageView::ChatMessage(message) => chats(queue, n - 1).push(message),
            _ => chats(queue, n - 1),
        }
    }
}

/// The messages that the client `id` is sent while the first `n` messages
/// of `queue` are taken, in order, by a broadcaster that starts with
/// `registry`.
pub open spec fn delivered(
    registry: Seq<usize>,
    queue: Seq<BroadcastMessageView>,
    n: int,
    id: usize,
) -> Seq<MessageView>
    decreases n,
{
    if n <= 0 {
        Seq::empty()
    } else {
        let before = delivered(registry, queue, n - 1, id);
        match action_for(registry_at(registry, queue, n - 1), queue[n - 1]) {
            BroadcastActionView::Deliver { recipients, response: Ok(message) } => if recipients.contains(
                id,
            ) {
                before.push(message)
            } else {
                before
            },
            _ => before,
        }
    }
}

/// Whether the client `id` is registered after the first `n` messages of
/// `queue`, told from the messages alone: the last `AddClient` or
/// `RemoveClient` that names the client decides, and where none names it,
/// it is as it was before.
pub open spec fn registered_at(before: bool, queue: Seq<BroadcastMessageView>, n: int, id: usize)
    -> bool
    decreases n,
{
    if n <= 0 {
        before
    } else if queue[n - 1] == BroadcastMessageView::AddClient(id) {
        true
    } else if queue[n - 1] == BroadcastMessageView::RemoveClient(id) {
        false
    } else {
        registered_at(before, queue, n - 1, id)
    }
}

/// One control message changes the registry as it says and leaves every
/// other client as it was; no id comes to stand in the registry twice.
pub proof fn lemma_registry_after(registry: Seq<usize>, message: BroadcastMessageView, id: usize)
    requires
        registry.no_duplicates(),
    ensures
        registry_after(registry, message).no_duplicates(),
        registry_after(registry, message).contains(id) == (if message
            == BroadcastMessageView::AddClient(id) {
            true
        } else if message == BroadcastMessageView::RemoveClient(id) {
            false
        } else {
            registry.contains(id)
        }),
{
    let after = registry_after(registry, message);
    match message {
        BroadcastMessageView::ChatMessage(_) => {},
        BroadcastMessageView::AddClient(added) => {
            if !registry.contains(added) {
                assert(after[after.len() - 1] == added);
                assert forall|a: int, b: int|
                    0 <= a < after.len() && 0 <= b < after.len() && a != b implies after[a]
                    != after[b] by {
                    if a < registry.len() && b < registry.len() {
                    } else if a < registry.len() {
                        assert(registry.contains(after[a]));
                    } else {
                        assert(registry.contains(after[b]));
                    }
                }
                if registry.contains(id) {
                    let j = choose|j: int| 0 <= j < registry.len() && registry[j] == id;
                    assert(after[j] == id);
                }
                if after.contains(id) && id != added {
                    let j = choose|j: int| 0 <= j < after.len() && after[j] == id;
                    assert(registry[j] == id);
                }
            }
        },
        BroadcastMessageView::RemoveClient(removed) => {
            lemma_without(registry, removed);
        },
    }
}

/// A registry entry exists exactly between the `AddClient` and the
/// `RemoveClient` of its client: after any queue, a client is registered if
/// and only if the last of the two that names it is `AddClient`, or none
/// names it and it was registered before. The registry never holds an id
/// twice.
pub proof fn lemma_registry_tracks_queue(
    registry: Seq<usize>,
    queue: Seq<BroadcastMessageView>,
    n: int,
    id: usize,
)
    requires
        registry.no_duplicates(),
        0 <= n <= queue.len(),
    ensures
        registry_at(registry, queue, n).no_duplicates(),
        registry_at(registry, queue, n).contains(id) == registered_at(
            registry.contains(id),
            queue,
            n,
            id,
        ),
    decreases n,
{
    if n > 0 {
        lemma_registry_tracks_queue(registry, queue, n - 1, id);
        lemma_registry_after(registry_at(registry, queue, n - 1), queue[n - 1], id);
    }
}

/// Fan-out completeness. A client that is registered, and that no message of
/// the queue removes, is sent every chat message of the queue, each once,
/// in the order of the queue. What became of the writes to other clients has
/// no part in it: the recipients of a message are fixed by the registry
/// alone.
pub proof fn lemma_fan_out_complete(
    registry: Seq<usize>,
    queue: Seq<BroadcastMessageView>,
    n: int,
    id: usize,
)
    requires
        registry.no_duplicates(),
        registry.contains(id),
        0 <= n <= queue.len(),
        forall|i: int| 0 <= i < n ==> queue[i] != BroadcastMessageView::RemoveClient(id),
    ensures
        registry_at(registry, queue, n).contains(id),
        delivered(registry, queue, n, id) == chats(queue, n),
    decreases n,
{
    if n > 0 {
        lemma_fan_out_complete(registry, queue, n - 1, id);
        lemma_registry_tracks_queue(registry, queue, n - 1, id);
        lemma_registry_after(registry_at(registry, queue, n - 1), queue[n - 1], id);
    }
}

/// A chat message goes to each registered client once: the recipients are
/// the registry itself, which holds no id twice.
pub proof fn lemma_each_recipient_once(registry: Seq<usize>, message: MessageView)
    requires
        registry.no_duplicates(),
    ensures
        action_for(registry, BroadcastMessageView::ChatMessage(message))
            == (BroadcastActionView::Deliver { recipients: registry, response: Ok(message) }),
        registry_after(registry, BroadcastMessageView::ChatMessage(message)) == registry,
        forall|i: int, j: int|
            0 <= i < registry.len() && 0 <= j < registry.len() && registry[i] == registry[j] ==> i
                == j,
{
}

} // verus!
