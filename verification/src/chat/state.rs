//! The state of the whole chat: the registry of rooms and the delivery
//! counter, with the steps that connections take on it.

use std::collections::HashMap;
use vstd::prelude::*;
use crate::chat::broadcast::is_free_slot;
use crate::chat::broadcast::Received;
use crate::chat::broadcast::ReceivedView;
use crate::chat::room::RoomState;
use crate::chat::room::RoomView;
use crate::chat::laws::connect_keeps_wf;
use crate::chat::laws::disconnect_keeps_wf;
use crate::chat::laws::every_delivery_fits;
use crate::chat::laws::poll_keeps_wf;
use crate::chat::laws::post_keeps_wf;
use crate::chat::tweet::fits;
use crate::chat::tweet::wire_text;
use crate::chat::tweet::TweetInput;
use crate::chat::tweet::TweetView;
use crate::chat::views::ViewCounter;

verus! {

broadcast use vstd::std_specs::hash::group_hash_axioms;

/// The handle of one connection: the room it is bound to and its slot among
/// the room's subscribers.
#[derive(Clone, Copy, Debug, PartialEq, Eq, Structural)]
pub struct Connection {
    pub room: usize,
    pub slot: usize,
}

/// What the outbound side of a connection does next.
pub enum Outbound {
    /// Write this frame to the client. The delivery has been counted.
    Deliver(String),
    /// Nothing is waiting: sleep until the room has news.
    Idle,
    /// The subscription has ended or fell behind: stop.
    Stop,
}

/// `Outbound` with the frame taken by its view.
pub enum OutboundView {
    Deliver(Seq<char>),
    Idle,
    Stop,
}

impl View for Outbound {
    type V = OutboundView;

    open spec fn view(&self) -> OutboundView {
        match self {
            Outbound::Deliver(text) => OutboundView::Deliver(text@),
            Outbound::Idle => OutboundView::Idle,
            Outbound::Stop => OutboundView::Stop,
        }
    }
}

/// The counter after one more delivery. It wraps at the top of its range.
pub open spec fn bumped(views: nat) -> nat {
    if views == usize::MAX {
        0
    } else {
        views + 1
    }
}

/// The chat, as contracts see it.
pub struct ChatView {
    /// Deliveries counted since the last reset.
    pub views: nat,
    /// The rooms referred to so far, by their identifier.
    pub rooms: Map<usize, RoomView>,
}

impl ChatView {
    /// The chat at start: no room, no delivery.
    pub open spec fn initial() -> ChatView {
        ChatView { views: 0, rooms: Map::empty() }
    }

    /// The room with this identifier; an empty one if it was never
    /// referred to.
    pub open spec fn room(self, id: usize) -> RoomView {
        if self.rooms.contains_key(id) {
            self.rooms[id]
        } else {
            RoomView::empty()
        }
    }

    /// Whether `conn` is a live subscription.
    pub open spec fn is_live(self, conn: Connection) -> bool {
        self.room(conn.room).is_live(conn.slot as int)
    }

    /// The unread messages of `conn`, oldest first.
    pub open spec fn pending(self, conn: Connection) -> Seq<crate::chat::tweet::TweetView> {
        self.room(conn.room).mailboxes[conn.slot as int].pending
    }

    /// The chat after `user` has connected to room `id` and got `slot`.
    pub open spec fn connected(self, id: usize, user: Seq<char>, slot: int) -> ChatView {
        ChatView { rooms: self.rooms.insert(id, self.room(id).joined(user, slot)), ..self }
    }

    /// Whether a submission of `text` on `conn` is published.
    pub open spec fn accepts(self, conn: Connection, text: Seq<char>) -> bool {
        self.room(conn.room).accepts(conn.slot as int, text)
    }

    /// The chat after `text` was submitted on `conn`.
    pub open spec fn posted(self, conn: Connection, text: Seq<char>) -> ChatView {
        if self.accepts(conn, text) {
            ChatView {
                rooms: self.rooms.insert(
                    conn.room,
                    self.room(conn.room).posted(conn.slot as int, text),
                ),
                ..self
            }
        } else {
            self
        }
    }

    /// What `conn` gets when it looks into its mailbox.
    pub open spec fn front(self, conn: Connection) -> ReceivedView {
        self.room(conn.room).front(conn.slot as int)
    }

    /// What the outbound side of `conn` does next.
    pub open spec fn outbound(self, conn: Connection) -> OutboundView {
        match self.front(conn) {
            ReceivedView::Message(tweet) => OutboundView::Deliver(wire_text(tweet)),
            ReceivedView::Empty => OutboundView::Idle,
            ReceivedView::Lagged => OutboundView::Stop,
            ReceivedView::Closed => OutboundView::Stop,
        }
    }

    /// The chat after the outbound side of `conn` took its next step: the
    /// mailbox moves on, and a delivery is counted.
    pub open spec fn polled(self, conn: Connection) -> ChatView {
        if self.rooms.contains_key(conn.room) {
            ChatView {
                views: if self.front(conn) is Message {
                    bumped(self.views)
                } else {
                    self.views
                },
                rooms: self.rooms.insert(
                    conn.room,
                    self.rooms[conn.room].advanced(conn.slot as int),
                ),
            }
        } else {
            self
        }
    }

    /// The chat after one delivery was counted.
    pub open spec fn counted(self) -> ChatView {
        ChatView { views: bumped(self.views), ..self }
    }

    /// The chat after the delivery counter was set back.
    pub open spec fn reset(self) -> ChatView {
        ChatView { views: 0, ..self }
    }

    /// What holds of every state that the steps of the chat can produce.
    pub open spec fn wf(self) -> bool {
        forall|id: usize| self.rooms.contains_key(id) ==> (#[trigger] self.rooms[id]).wf()
    }

    /// The chat after `conn` has gone. Its room and its name stay.
    pub open spec fn disconnected(self, conn: Connection) -> ChatView {
        if self.rooms.contains_key(conn.room) {
            ChatView {
                rooms: self.rooms.insert(conn.room, self.rooms[conn.room].left(conn.slot as int)),
                ..self
            }
        } else {
            self
        }
    }
}

/// The chat: every room by its identifier, and the delivery counter.
pub struct AppState {
    views: ViewCounter,
    rooms: HashMap<usize, RoomState>,
}

impl View for AppState {
    type V = ChatView;

    closed spec fn view(&self) -> ChatView {
        ChatView { views: self.views@, rooms: self.rooms@.map_values(|room: RoomState| room@) }
    }
}

impl AppState {
    #[verifier::type_invariant]
    closed spec fn well_formed(self) -> bool {
        forall|id: usize| self.rooms@.contains_key(id) ==> (#[trigger] self.rooms@[id])@.wf()
    }

    /// The chat at start.
    pub fn new() -> (state: Self)
        ensures
            state@ == ChatView::initial(),
            state@.wf(),
    {
        let views = ViewCounter::new();
        let rooms: HashMap<usize, RoomState> = HashMap::new();
        assert(rooms@.map_values(|room: RoomState| room@) =~= Map::empty());
        AppState { views, rooms }
    }

    /// Counts one delivery.
    pub fn inc_views(&mut self)
        ensures
            final(self)@ == old(self)@.counted(),
    {
        proof {
            use_type_invariant(&*self);
        }
        let mut views = ViewCounter::new();
        core::mem::swap(&mut views, &mut self.views);
        views.increment();
        self.views = views;
    }

    /// The deliveries counted since the last reset.
    pub fn get_views(&self) -> (views: usize)
        ensures
            views == self@.views,
    {
        self.views.get()
    }

    /// Sets the delivery counter back to zero.
    pub fn reset_views(&mut self)
        ensures
            final(self)@ == old(self)@.reset(),
    {
        proof {
            use_type_invariant(&*self);
        }
        self.views = ViewCounter::new();
    }

    /// Connects `username` to the room `room_id`, which is created if this
    /// is the first reference to it: records the name in the room, then
    /// subscribes the connection to the room's channel.
    pub fn connect(&mut self, room_id: usize, username: String) -> (conn: Connection)
        ensures
            conn.room == room_id,
            is_free_slot(old(self)@.room(room_id).mailboxes, conn.slot as int),
            final(self)@ == old(self)@.connected(room_id, username@, conn.slot as int),
            final(self)@.wf(),
    {
        proof {
            use_type_invariant(&*self);
        }
        // The rooms are taken out while one of them is worked on, and put
        // back when it is done.
        let mut rooms: HashMap<usize, RoomState> = HashMap::new();
        assert(rooms@.map_values(|room: RoomState| room@) =~= Map::empty());
        core::mem::swap(&mut rooms, &mut self.rooms);
        let mut room = match rooms.remove(&room_id) {
            Some(room) => room,
            None => RoomState::new(),
        };
        assert(room@ == old(self)@.room(room_id));
        let slot = room.join(username);
        rooms.insert(room_id, room);
        proof {
            let after = old(self)@.connected(room_id, username@, slot as int);
            assert(rooms@.map_values(|room: RoomState| room@) =~= after.rooms);
            connect_keeps_wf(old(self)@, room_id, username@, slot as int);
        }
        self.rooms = rooms;
        Connection { room: room_id, slot }
    }

    /// Takes one submission from `conn`. A text that fits goes to every
    /// live subscriber of the connection's room; a longer one, or one from
    /// a connection that is not live, is dropped without a trace. Returns
    /// whether the message was published.
    pub fn publish(&mut self, conn: Connection, input: TweetInput) -> (sent: bool)
        ensures
            sent == old(self)@.accepts(conn, input@),
            final(self)@ == old(self)@.posted(conn, input@),
            final(self)@.wf(),
    {
        proof {
            use_type_invariant(&*self);
        }
        let mut rooms: HashMap<usize, RoomState> = HashMap::new();
        assert(rooms@.map_values(|room: RoomState| room@) =~= Map::empty());
        core::mem::swap(&mut rooms, &mut self.rooms);
        let sent = match rooms.remove(&conn.room) {
            Some(room) => {
                let mut room = room;
                let sent = room.post(conn.slot, input);
                rooms.insert(conn.room, room);
                sent
            },
            None => false,
        };
        proof {
            let after = old(self)@.posted(conn, input@);
            assert(rooms@.map_values(|room: RoomState| room@) =~= after.rooms);
            post_keeps_wf(old(self)@, conn, input@);
        }
        self.rooms = rooms;
        sent
    }

    /// The next step of the outbound side of `conn`: takes the oldest
    /// unread message, counts the delivery and hands back the frame to
    /// write; or says that nothing waits, or that the connection is over.
    /// A frame that is handed back carries a message whose text fits.
    pub fn next_outbound(&mut self, conn: Connection) -> (step: Outbound)
        ensures
            step@ == old(self)@.outbound(conn),
            final(self)@ == old(self)@.polled(conn),
            final(self)@.wf(),
            step is Deliver ==> exists|tweet: TweetView|
                fits(tweet.message) && step@ == OutboundView::Deliver(#[trigger] wire_text(tweet)),
    {
        proof {
            use_type_invariant(&*self);
            every_delivery_fits(old(self)@, conn);
            poll_keeps_wf(old(self)@, conn);
        }
        let mut rooms: HashMap<usize, RoomState> = HashMap::new();
        assert(rooms@.map_values(|room: RoomState| room@) =~= Map::empty());
        core::mem::swap(&mut rooms, &mut self.rooms);
        let received = match rooms.remove(&conn.room) {
            Some(room) => {
                let mut room = room;
                let received = room.try_recv(conn.slot);
                rooms.insert(conn.room, room);
                received
            },
            None => Received::Closed,
        };
        assert(rooms@.map_values(|room: RoomState| room@) =~= old(self)@.polled(conn).rooms);
        let mut views = ViewCounter::new();
        core::mem::swap(&mut views, &mut self.views);
        let step = match received {
            Received::Message(tweet) => {
                views.increment();
                Outbound::Deliver(tweet.to_string())
            },
            Received::Empty => Outbound::Idle,
            Received::Lagged => Outbound::Stop,
            Received::Closed => Outbound::Stop,
        };
        self.views = views;
        self.rooms = rooms;
        step
    }

    /// Ends the subscription of `conn`. The room and the name stay.
    pub fn disconnect(&mut self, conn: Connection)
        ensures
            final(self)@ == old(self)@.disconnected(conn),
            final(self)@.wf(),
    {
        proof {
            use_type_invariant(&*self);
        }
        let mut rooms: HashMap<usize, RoomState> = HashMap::new();
        assert(rooms@.map_values(|room: RoomState| room@) =~= Map::empty());
        core::mem::swap(&mut rooms, &mut self.rooms);
        match rooms.remove(&conn.room) {
            Some(room) => {
                let mut room = room;
                room.leave(conn.slot);
                rooms.insert(conn.room, room);
            },
            None => {},
        }
        proof {
            let after = old(self)@.disconnected(conn);
            assert(rooms@.map_values(|room: RoomState| room@) =~= after.rooms);
            disconnect_keeps_wf(old(self)@, conn);
        }
        self.rooms = rooms;
    }

}

} // verus!
