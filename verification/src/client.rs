//! The handler of one connection: what the server does for one client, from
//! the moment the connection stands until it is closed.
//!
//! The handler decides; it does no input or output itself. Its caller hands
//! it what happened on the connection, one event at a time, and performs the
//! actions that the handler answers with, in their order.

use crate::address::PeerAddr;
use crate::broadcast::{BroadcastMessage, BroadcastMessageView};
use crate::config::ServerConfig;
use crate::frame::FrameError;
use crate::guidelines::AgainstGuidelines;
use crate::message::{message_violation, Message, MessageGuidelines, MessageView};
use crate::request::{Request, RequestError, RequestErrorView, RequestView};
use crate::response::{response_view, Response, ResponseView};
use crate::user::{username_violation, User, UserView, Username, UsernameGuidelines};
use crate::value::{Value, ValueView};
use crate::views;
use vstd::prelude::*;

verus! {

/// Where a handler stands.
#[derive(Debug, Clone, Copy, PartialEq, Eq, Structural)]
pub enum Phase {
    /// The connection stands; the client is not announced yet.
    Connecting,
    /// The client is registered and its requests are served.
    Serving,
    /// A list of users was asked for and is being collected.
    Listing,
    /// The client is unregistered; nothing more happens.
    Closed,
}

/// What happened on the connection.
#[derive(Debug, PartialEq, Eq)]
pub enum ClientEvent {
    /// The connection stands. `addresses` holds the addresses of the two
    /// ends that the client is reached through, or nothing where one of
    /// them could not be had; `name` is the name drawn for the newcomer.
    Connected { addresses: Option<(PeerAddr, PeerAddr)>, name: String },
    /// A request arrived.
    Request(Request),
    /// No request could be read from what arrived.
    ReadFailed(FrameError),
    /// The connection itself failed; holds the reason.
    TransportFailed(String),
    /// The users that are connected now, in answer to `CollectUsers`.
    Users(Vec<User>),
}

/// What a `ClientEvent` holds, as mathematical data.
pub enum ClientEventView {
    Connected { addresses: Option<(PeerAddr, PeerAddr)>, name: Seq<char> },
    Request(RequestView),
    ReadFailed(FrameError),
    TransportFailed(Seq<char>),
    Users(Seq<UserView>),
}

impl View for ClientEvent {
    type V = ClientEventView;

    open spec fn view(&self) -> ClientEventView {
        match self {
            ClientEvent::Connected { addresses, name } => ClientEventView::Connected {
                addresses: *addresses,
                name: name@,
            },
            ClientEvent::Request(request) => ClientEventView::Request(request@),
            ClientEvent::ReadFailed(error) => ClientEventView::ReadFailed(*error),
            ClientEvent::TransportFailed(reason) => ClientEventView::TransportFailed(reason@),
            ClientEvent::Users(users) => ClientEventView::Users(views(users@)),
        }
    }
}

/// What the caller of a handler has to do.
#[derive(Debug, PartialEq, Eq)]
pub enum ClientAction {
    /// Put the control message into the broadcaster's queue.
    Broadcast(BroadcastMessage),
    /// Write the response to the client of this handler, and to no one
    /// else; a write that fails is passed over.
    Reply(Response),
    /// Collect the users that are connected now and hand them back as
    /// `ClientEvent::Users`.
    CollectUsers,
}

/// What a `ClientAction` holds, as mathematical data.
pub enum ClientActionView {
    Broadcast(BroadcastMessageView),
    Reply(ResponseView),
    CollectUsers,
}

impl View for ClientAction {
    type V = ClientActionView;

    open spec fn view(&self) -> ClientActionView {
        match self {
            ClientAction::Broadcast(message) => ClientActionView::Broadcast(message@),
            ClientAction::Reply(response) => ClientActionView::Reply(response_view(*response)),
            ClientAction::CollectUsers => ClientActionView::CollectUsers,
        }
    }
}

/// The state of a handler, as mathematical data.
pub struct ClientView {
    /// The id of the client.
    pub key: usize,
    pub phase: Phase,
    /// The client as a user; of no account while `phase` is `Connecting`.
    pub user: UserView,
    pub message_guidelines: MessageGuidelines,
    pub username_guidelines: UsernameGuidelines,
}

/// The user in whose name the server speaks.
pub open spec fn server_user_view() -> UserView {
    UserView { username: ValueView::String("SERVER"@), id: 0, addresses: None }
}

/// A message from the server with the text `text`.
pub open spec fn notice(text: Seq<char>) -> MessageView {
    MessageView { from: server_user_view(), payload: ValueView::String(text) }
}

/// The user that a newcomer starts as.
pub open spec fn newcomer(key: usize, addresses: (PeerAddr, PeerAddr), name: Seq<char>)
    -> UserView {
    UserView {
        username: ValueView::String("anonymous-"@ + name),
        id: key,
        addresses: Some(addresses),
    }
}

/// The notice that `user` has joined.
pub open spec fn join_notice(user: UserView) -> MessageView {
    notice(user.text() + " has joined"@)
}

/// The notice that `user` asks for the name `name`.
pub open spec fn rename_notice(user: UserView, name: ValueView) -> MessageView {
    notice("Requesting change username. "@ + user.text() + " -> "@ + name.text())
}

/// The users of `users` as shown, one on each line.
pub open spec fn roster_text(users: Seq<UserView>) -> Seq<char>
    decreases users.len(),
{
    if users.len() == 0 {
        Seq::empty()
    } else if users.len() == 1 {
        users[0].text()
    } else {
        roster_text(users.drop_last()) + "\n"@ + users.last().text()
    }
}

/// The control message that registers the client `key`.
pub open spec fn add_client(key: usize) -> ClientActionView {
    ClientActionView::Broadcast(BroadcastMessageView::AddClient(key))
}

/// The control message that unregisters the client `key`.
pub open spec fn remove_client(key: usize) -> ClientActionView {
    ClientActionView::Broadcast(BroadcastMessageView::RemoveClient(key))
}

/// The control message that has `message` sent to every client.
pub open spec fn chat(message: MessageView) -> ClientActionView {
    ClientActionView::Broadcast(BroadcastMessageView::ChatMessage(message))
}

/// The error response to the client alone.
pub open spec fn refusal(error: RequestErrorView) -> ClientActionView {
    ClientActionView::Reply(Err(error))
}

/// Announcing: the client is registered first. With both addresses at hand
/// the newcomer is built and its arrival broadcast, and the handler serves;
/// without them the client is told so, unregistered, and the handler is
/// closed.
pub open spec fn announce(
    client: ClientView,
    addresses: Option<(PeerAddr, PeerAddr)>,
    name: Seq<char>,
) -> (ClientView, Seq<ClientActionView>) {
    match addresses {
        Some(pair) => {
            let user = newcomer(client.key, pair, name);
            (
                ClientView { phase: Phase::Serving, user: user, ..client },
                seq![add_client(client.key), chat(join_notice(user))],
            )
        },
        None => (
            ClientView { phase: Phase::Closed, ..client },
            seq![
                add_client(client.key),
                refusal(RequestErrorView::Ip),
                remove_client(client.key),
            ],
        ),
    }
}

/// Serving one request. A message that keeps the policy is broadcast from
/// the client without its addresses. A new username is announced to all
/// before it is checked, and taken over when it keeps the policy. Content
/// that breaks its policy is answered to the client alone with the broken
/// rule, and ends the session. A list of users is collected before it is
/// answered.
pub open spec fn serve(client: ClientView, request: RequestView) -> (
    ClientView,
    Seq<ClientActionView>,
) {
    match request {
        RequestView::SendMessage(payload) => {
            match message_violation(payload, client.message_guidelines) {
                None => (
                    client,
                    seq![chat(MessageView { from: client.user.hidden(), payload: payload })],
                ),
                Some(error) => (
                    ClientView { phase: Phase::Closed, ..client },
                    seq![refusal(RequestErrorView::Message(error)), remove_client(client.key)],
                ),
            }
        },
        RequestView::ChangeUserName(name) => {
            let notice = chat(rename_notice(client.user, name));
            match username_violation(name, client.username_guidelines) {
                None => (
                    ClientView { user: UserView { username: name, ..client.user }, ..client },
                    seq![notice],
                ),
                Some(error) => (
                    ClientView { phase: Phase::Closed, ..client },
                    seq![
                        notice,
                        refusal(RequestErrorView::Username(error)),
                        remove_client(client.key),
                    ],
                ),
            }
        },
        RequestView::UserList => (
            ClientView { phase: Phase::Listing, ..client },
            seq![ClientActionView::CollectUsers],
        ),
    }
}

/// The end of a session for the given reason: the client is told the
/// reason, as well as that can be done, and is unregistered.
pub open spec fn abort(client: ClientView, reason: Seq<char>) -> (
    ClientView,
    Seq<ClientActionView>,
) {
    (
        ClientView { phase: Phase::Closed, ..client },
        seq![refusal(RequestErrorView::Bad(reason)), remove_client(client.key)],
    )
}

/// A read that failed. That no data is there yet changes nothing. A stream
/// that was closed ends the session without a word; any other failure is
/// answered to the client with its reason first.
pub open spec fn fail(client: ClientView, error: FrameError) -> (
    ClientView,
    Seq<ClientActionView>,
) {
    match error {
        FrameError::NoDataYet => (client, Seq::empty()),
        FrameError::ConnectionClosed => (
            ClientView { phase: Phase::Closed, ..client },
            seq![remove_client(client.key)],
        ),
        _ => abort(client, error.text()),
    }
}

/// The handler after an event, and what is to be done, in order. An event
/// that has no place in the phase of the handler changes nothing and asks
/// for nothing.
pub open spec fn step(client: ClientView, event: ClientEventView) -> (
    ClientView,
    Seq<ClientActionView>,
) {
    match (client.phase, event) {
        (Phase::Connecting, ClientEventView::Connected { addresses, name }) => announce(
            client,
            addresses,
            name,
        ),
        (Phase::Serving, ClientEventView::Request(request)) => serve(client, request),
        (Phase::Serving, ClientEventView::ReadFailed(error)) => fail(client, error),
        (Phase::Serving, ClientEventView::TransportFailed(reason)) => abort(client, reason),
        (Phase::Listing, ClientEventView::Users(users)) => (
            ClientView { phase: Phase::Serving, ..client },
            seq![ClientActionView::Reply(Ok(notice(roster_text(users))))],
        ),
        _ => (client, Seq::empty()),
    }
}

/// The handler after the first `n` events of `events`.
pub open spec fn state_at(client: ClientView, events: Seq<ClientEventView>, n: int) -> ClientView
    decreases n,
{
    if n <= 0 {
        client
    } else {
        step(state_at(client, events, n - 1), events[n - 1]).0
    }
}

/// What the first `n` events of `events` ask for, in order.
pub open spec fn trace(client: ClientView, events: Seq<ClientEventView>, n: int) -> Seq<
    ClientActionView,
>
    decreases n,
{
    if n <= 0 {
        Seq::empty()
    } else {
        trace(client, events, n - 1) + step(state_at(client, events, n - 1), events[n - 1]).1
    }
}

/// How often `action` stands in `actions`.
pub open spec fn occurrences(actions: Seq<ClientActionView>, action: ClientActionView) -> nat
    decreases actions.len(),
{
    if actions.len() == 0 {
        0
    } else {
        occurrences(actions.drop_last(), action) + if actions.last() == action {
            1nat
        } else {
            0nat
        }
    }
}

proof fn lemma_occurrences_add(
    first: Seq<ClientActionView>,
    second: Seq<ClientActionView>,
    action: ClientActionView,
)
    ensures
        occurrences(first + second, action) == occurrences(first, action) + occurrences(
            second,
            action,
        ),
    decreases second.len(),
{
    if second.len() == 0 {
        assert(first + second == first);
    } else {
        lemma_occurrences_add(first, second.drop_last(), action);
        assert((first + second).drop_last() == first + second.drop_last());
        assert((first + second).last() == second.last());
    }
}

/// One step of a handler registers the client exactly when it leaves
/// `Connecting`, unregisters it exactly when it enters `Closed`, speaks of no
/// other client's registration, and never leads back: a handler that left
/// `Connecting` does not return there, and one that is `Closed` stays as
/// it is and asks for nothing.
pub proof fn lemma_step_registration(client: ClientView, event: ClientEventView, other: usize)
    ensures
        ({
            let (next, actions) = step(client, event);
            &&& next.key == client.key
            &&& next.message_guidelines == client.message_guidelines
            &&& next.username_guidelines == client.username_guidelines
            &&& occurrences(actions, add_client(client.key)) == (if client.phase
                == Phase::Connecting && next.phase != Phase::Connecting {
                1nat
            } else {
                0nat
            })
            &&& occurrences(actions, remove_client(client.key)) == (if client.phase
                != Phase::Closed && next.phase == Phase::Closed {
                1nat
            } else {
                0nat
            })
            &&& other != client.key ==> occurrences(actions, add_client(other)) == 0
                && occurrences(actions, remove_client(other)) == 0
            &&& next.phase == Phase::Connecting ==> client.phase == Phase::Connecting
            &&& client.phase == Phase::Closed ==> next == client && actions.len() == 0
            &&& client.phase == Phase::Connecting && actions.len() > 0 ==> actions[0]
                == add_client(client.key)
            &&& client.phase != Phase::Closed && next.phase == Phase::Closed ==> actions.len() > 0
                && actions.last() == remove_client(client.key)
        }),
{
    reveal_with_fuel(occurrences, 4);
    let (next, actions) = step(client, event);
    let add = add_client(client.key);
    let remove = remove_client(client.key);
    assert(actions.len() <= 3);
    if actions.len() == 3 {
        assert(actions.drop_last().len() == 2);
        assert(actions.drop_last().drop_last().len() == 1);
        assert(actions.drop_last().drop_last().drop_last().len() == 0);
        assert(actions.drop_last().last() == actions[1]);
        assert(actions.drop_last().drop_last().last() == actions[0]);
    } else if actions.len() == 2 {
        assert(actions.drop_last().len() == 1);
        assert(actions.drop_last().drop_last().len() == 0);
        assert(actions.drop_last().last() == actions[0]);
    } else if actions.len() == 1 {
        assert(actions.drop_last().len() == 0);
    }
}

/// Registration pairing. Whatever happens on a connection, and in whatever
/// order, the handler asks for the registration of its client once, as the
/// first thing it asks for, and for no other client's; and once the session
/// is over, however it ended, it has asked for the client to be
/// unregistered once, as the last thing it asked for.
pub proof fn lemma_registration_pairing(
    client: ClientView,
    events: Seq<ClientEventView>,
    n: int,
    other: usize,
)
    requires
        client.phase == Phase::Connecting,
        0 <= n <= events.len(),
    ensures
        ({
            let end = state_at(client, events, n);
            let asked = trace(client, events, n);
            &&& end.key == client.key
            &&& occurrences(asked, add_client(client.key)) == (if end.phase == Phase::Connecting {
                0nat
            } else {
                1nat
            })
            &&& occurrences(asked, remove_client(client.key)) == (if end.phase == Phase::Closed {
                1nat
            } else {
                0nat
            })
            &&& other != client.key ==> occurrences(asked, add_client(other)) == 0 && occurrences(
                asked,
                remove_client(other),
            ) == 0
            &&& end.phase == Phase::Connecting ==> asked.len() == 0
            &&& asked.len() > 0 ==> asked[0] == add_client(client.key)
            &&& end.phase == Phase::Closed ==> asked.len() > 0 && asked.last() == remove_client(
                client.key,
            )
        }),
    decreases n,
{
    if n > 0 {
        lemma_registration_pairing(client, events, n - 1, other);
        let before = state_at(client, events, n - 1);
        let asked = trace(client, events, n - 1);
        let (next, actions) = step(before, events[n - 1]);
        lemma_step_registration(before, events[n - 1], other);
        lemma_occurrences_add(asked, actions, add_client(client.key));
        lemma_occurrences_add(asked, actions, remove_client(client.key));
        lemma_occurrences_add(asked, actions, add_client(other));
        lemma_occurrences_add(asked, actions, remove_client(other));
        if before.phase == Phase::Closed {
            assert(asked + actions == asked);
        }
    }
}

/// No message that a handler has broadcast carries addresses: it is from the
/// server, which has none, or from the client with its addresses cleared.
pub proof fn lemma_broadcasts_hide_addresses(client: ClientView, event: ClientEventView, i: int)
    requires
        0 <= i < step(client, event).1.len(),
    ensures
        step(client, event).1[i] matches ClientActionView::Broadcast(
            BroadcastMessageView::ChatMessage(message),
        ) ==> message.from.addresses is None,
{
}

/// A request to send a message has exactly one outcome: the message is
/// broadcast, which is all that happens, or the client is told why not, and
/// nothing is broadcast to the others.
pub proof fn lemma_message_broadcast_or_refused(client: ClientView, payload: ValueView)
    ensures
        ({
            let actions = serve(client, RequestView::SendMessage(payload)).1;
            let message = MessageView { from: client.user.hidden(), payload: payload };
            if message_violation(payload, client.message_guidelines) is None {
                actions == seq![chat(message)]
            } else {
                &&& actions[0] is Reply
                &&& forall|i: int|
                    0 <= i < actions.len() ==> !(#[trigger] actions[i] matches ClientActionView::Broadcast(
                        BroadcastMessageView::ChatMessage(_),
                    ))
            }
        }),
{
}

/// The user in whose name the server speaks: `SERVER`, with id zero and no
/// addresses.
pub fn server_user() -> (r: User)
    ensures
        r@ == server_user_view(),
{
    User::builder().id(0).username(Username::new(Value::from("SERVER"))).build()
}

fn server_notice(text: String) -> (r: Message)
    ensures
        r@ == notice(text@),
{
    Message::builder().from_who(server_user()).payload(Value::String(text)).build()
}

/// The users of `users` as shown, one on each line.
pub fn roster(users: &Vec<User>) -> (r: String)
    ensures
        r@ == roster_text(views(users@)),
{
    let ghost all = views(users@);
    let mut out = String::new();
    let mut i: usize = 0;
    proof {
        assert(all.take(0) == Seq::<UserView>::empty());
    }
    while i < users.len()
        invariant
            i <= users@.len(),
            all == views(users@),
            out@ == roster_text(all.take(i as int)),
        decreases users@.len() - i,
    {
        let ghost before = out@;
        if i > 0 {
            out.append("\n");
        }
        users[i].push_text_to(&mut out);
        proof {
            let shorter = all.take(i as int);
            let longer = all.take(i + 1);
            assert(longer.drop_last() == shorter);
            assert(longer.last() == users@[i as int]@);
            if i == 0 {
                assert(longer[0] == users@[0]@);
                assert(Seq::<char>::empty() + users@[0]@.text() == users@[0]@.text());
            }
        }
        i += 1;
    }
    proof {
        assert(all.take(all.len() as int) == all);
    }
    out
}

/// The handler of one connection.
pub struct Client {
    key: usize,
    config: ServerConfig,
    phase: Phase,
    user: User,
}

impl View for Client {
    type V = ClientView;

    closed spec fn view(&self) -> ClientView {
        ClientView {
            key: self.key,
            phase: self.phase,
            user: self.user@,
            message_guidelines: self.config.message_guidelines,
            username_guidelines: self.config.username_guidelines,
        }
    }
}

impl Client {
    /// The handler for the connection with the id `key`, before the client
    /// is announced.
    pub fn make_connection(key: usize, config: ServerConfig) -> (r: Self)
        ensures
            r@.key == key,
            r@.phase == Phase::Connecting,
            r@.message_guidelines == config.message_guidelines,
            r@.username_guidelines == config.username_guidelines,
    {
        Self { key, config, phase: Phase::Connecting, user: User::builder().id(key).build() }
    }

    /// The id of the client.
    pub fn key(&self) -> (r: usize)
        ensures
            r == self@.key,
    {
        self.key
    }

    /// Where the handler stands.
    pub fn phase(&self) -> (r: Phase)
        ensures
            r == self@.phase,
    {
        self.phase
    }

    /// Whether the session is over.
    pub fn is_closed(&self) -> (r: bool)
        ensures
            r == (self@.phase == Phase::Closed),
    {
        match self.phase {
            Phase::Closed => true,
            _ => false,
        }
    }

    /// The client as a user.
    pub fn user(&self) -> (r: &User)
        ensures
            r@ == self@.user,
    {
        &self.user
    }

    /// The settings that the handler was made with.
    pub fn config(&self) -> (r: &ServerConfig)
        ensures
            r.message_guidelines == self@.message_guidelines,
            r.username_guidelines == self@.username_guidelines,
    {
        &self.config
    }

    /// Announces the client: registers it with the broadcaster and, with
    /// both addresses at hand, builds the user and broadcasts its arrival.
    /// Without them the client is told so, and there is no user. The
    /// actions are added to `actions`.
    pub fn initial_connect(
        &self,
        addresses: Option<(PeerAddr, PeerAddr)>,
        name: &str,
        actions: &mut Vec<ClientAction>,
    ) -> (r: Result<User, ()>)
        ensures
            match addresses {
                Some(pair) => r matches Ok(user) && user@ == newcomer(self@.key, pair, name@)
                    && views(final(actions)@) == views(old(actions)@) + seq![
                    add_client(self@.key),
                    chat(join_notice(user@)),
                ],
                None => r is Err && views(final(actions)@) == views(old(actions)@) + seq![
                    add_client(self@.key),
                    refusal(RequestErrorView::Ip),
                ],
            },
    {
        actions.push(ClientAction::Broadcast(BroadcastMessage::AddClient(self.key)));
        let peer_addresses = match addresses {
            Some(pair) => pair,
            None => {
                actions.push(ClientAction::Reply(Err(RequestError::Ip)));
                assert(views(actions@) =~= views(old(actions)@) + seq![
                    add_client(self@.key),
                    refusal(RequestErrorView::Ip),
                ]);
                return Err(());
            },
        };
        let mut username = "anonymous-".to_owned();
        username.append(name);
        let user = User::builder().username(Username::new(Value::String(username))).id(
            self.key,
        ).addresses(Some(peer_addresses)).build();
        let mut text = user.to_text();
        text.append(" has joined");
        actions.push(ClientAction::Broadcast(BroadcastMessage::ChatMessage(server_notice(text))));
        assert(views(actions@) =~= views(old(actions)@) + seq![
            add_client(self@.key),
            chat(join_notice(user@)),
        ]);
        Ok(user)
    }

    fn leave(&mut self, actions: &mut Vec<ClientAction>)
        ensures
            final(self)@ == (ClientView { phase: Phase::Closed, ..old(self)@ }),
            views(final(actions)@) == views(old(actions)@).push(remove_client(old(self)@.key)),
    {
        actions.push(ClientAction::Broadcast(BroadcastMessage::RemoveClient(self.key)));
        self.phase = Phase::Closed;
        assert(views(actions@) =~= views(old(actions)@).push(remove_client(old(self)@.key)));
    }

    fn serve_request(&mut self, request: Request) -> (actions: Vec<ClientAction>)
        requires
            old(self)@.phase == Phase::Serving,
        ensures
            (final(self)@, views(actions@)) == serve(old(self)@, request@),
    {
        let mut actions: Vec<ClientAction> = Vec::new();
        match request {
            Request::SendMessage(payload) => {
                let message = Message::builder().from_who(self.user.hide_addr()).payload(
                    payload,
                ).build();
                match message.against_guidelines(&self.config.message_guidelines) {
                    Ok(message) => {
                        actions.push(
                            ClientAction::Broadcast(BroadcastMessage::ChatMessage(message)),
                        );
                        assert(views(actions@) =~= serve(old(self)@, request@).1);
                    },
                    Err(error) => {
                        actions.push(ClientAction::Reply(Err(RequestError::Message(error))));
                        self.leave(&mut actions);
                        assert(views(actions@) =~= serve(old(self)@, request@).1);
                    },
                }
            },
            Request::ChangeUserName(name) => {
                let mut text = "Requesting change username. ".to_owned();
                self.user.push_text_to(&mut text);
                text.append(" -> ");
                name.push_text_to(&mut text);
                actions.push(
                    ClientAction::Broadcast(BroadcastMessage::ChatMessage(server_notice(text))),
                );
                match Username::new(name).against_guidelines(&self.config.username_guidelines) {
                    Ok(name) => {
                        self.user.set_username(name);
                        assert(views(actions@) =~= serve(old(self)@, request@).1);
                    },
                    Err(error) => {
                        actions.push(ClientAction::Reply(Err(RequestError::Username(error))));
                        self.leave(&mut actions);
                        assert(views(actions@) =~= serve(old(self)@, request@).1);
                    },
                }
            },
            Request::UserList => {
                actions.push(ClientAction::CollectUsers);
                self.phase = Phase::Listing;
                assert(views(actions@) =~= serve(old(self)@, request@).1);
            },
        }
        actions
    }

    fn abort(&mut self, reason: String) -> (actions: Vec<ClientAction>)
        ensures
            (final(self)@, views(actions@)) == abort(old(self)@, reason@),
    {
        let mut actions: Vec<ClientAction> = Vec::new();
        actions.push(ClientAction::Reply(Err(RequestError::Bad(reason))));
        self.leave(&mut actions);
        assert(views(actions@) =~= abort(old(self)@, reason@).1);
        actions
    }

    fn read_failed(&mut self, error: FrameError) -> (actions: Vec<ClientAction>)
        requires
            old(self)@.phase == Phase::Serving,
        ensures
            (final(self)@, views(actions@)) == fail(old(self)@, error),
    {
        let mut actions: Vec<ClientAction> = Vec::new();
        match error {
            FrameError::NoDataYet => {
                assert(views(actions@) =~= Seq::<ClientActionView>::empty());
            },
            FrameError::ConnectionClosed => {
                self.leave(&mut actions);
                assert(views(actions@) =~= fail(old(self)@, error).1);
            },
            _ => {
                return self.abort(error.to_text());
            },
        }
        actions
    }

    /// Takes one event and says what is to be done, in order.
    pub fn step(&mut self, event: ClientEvent) -> (actions: Vec<ClientAction>)
        ensures
            (final(self)@, views(actions@)) == step(old(self)@, event@),
    {
        match (self.phase, event) {
            (Phase::Connecting, ClientEvent::Connected { addresses, name }) => {
                let mut actions: Vec<ClientAction> = Vec::new();
                match self.initial_connect(addresses, name.as_str(), &mut actions) {
                    Ok(user) => {
                        self.user = user;
                        self.phase = Phase::Serving;
                    },
                    Err(_) => {
                        self.leave(&mut actions);
                    },
                }
                assert(views(actions@) =~= step(old(self)@, event@).1);
                actions
            },
            (Phase::Serving, ClientEvent::Request(request)) => self.serve_request(request),
            (Phase::Serving, ClientEvent::ReadFailed(error)) => self.read_failed(error),
            (Phase::Serving, ClientEvent::TransportFailed(reason)) => self.abort(reason),
            (Phase::Listing, ClientEvent::Users(users)) => {
                let mut actions: Vec<ClientAction> = Vec::new();
                actions.push(ClientAction::Reply(Ok(server_notice(roster(&users)))));
                self.phase = Phase::Serving;
                assert(views(actions@) =~= step(old(self)@, event@).1);
                actions
            },
            _ => {
                let actions: Vec<ClientAction> = Vec::new();
                assert(views(actions@) =~= Seq::<ClientActionView>::empty());
                actions
            },
        }
    }

    /// Takes the events of `events` in their order and says what is to be
    /// done, in order.
    pub fn run(&mut self, events: Vec<ClientEvent>) -> (actions: Vec<ClientAction>)
        ensures
            final(self)@ == state_at(old(self)@, views(events@), events@.len() as int),
            views(actions@) == trace(old(self)@, views(events@), events@.len() as int),
    {
        let ghost start = self@;
        let ghost all = views(events@);
        let mut actions: Vec<ClientAction> = Vec::new();
        proof {
            assert(views(actions@) =~= Seq::<ClientActionView>::empty());
        }
        for event in it: events
            invariant
                it.seq() == events@,
                all == views(events@),
                self@ == state_at(start, all, it.index()),
                views(actions@) == trace(start, all, it.index()),
        {
            let ghost before = views(actions@);
            let mut asked = self.step(event);
            let ghost added = views(asked@);
            actions.append(&mut asked);
            proof {
                assert(views(actions@) =~= before + added);
            }
        }
        actions
    }
}

} // verus!
