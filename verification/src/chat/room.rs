//! One room: the names seen in it, and its fan-out channel.

use vstd::prelude::*;
use crate::chat::broadcast::advanced_at;
use crate::chat::broadcast::closed_at;
use crate::chat::broadcast::front_at;
use crate::chat::broadcast::is_free_slot;
use crate::chat::broadcast::published;
use crate::chat::broadcast::subscribed;
use crate::chat::broadcast::Broadcaster;
use crate::chat::broadcast::MailboxView;
use crate::chat::broadcast::Received;
use crate::chat::broadcast::ReceivedView;
use crate::chat::tweet::fits;
use crate::chat::tweet::Tweet;
use crate::chat::tweet::TweetInput;
use crate::chat::tweet::TweetView;

verus! {

/// A room, as contracts see it.
pub struct RoomView {
    /// Every name that ever joined. Names stay when their connection ends.
    pub users: Set<Seq<char>>,
    /// One mailbox per subscriber slot.
    pub mailboxes: Seq<MailboxView>,
}

impl RoomView {
    /// A room that nobody has joined.
    pub open spec fn empty() -> RoomView {
        RoomView { users: Set::empty(), mailboxes: Seq::empty() }
    }

    /// Whether `slot` holds a live subscriber.
    pub open spec fn is_live(self, slot: int) -> bool {
        0 <= slot < self.mailboxes.len() && self.mailboxes[slot].open
    }

    /// The room after `user` has joined it and subscribed in `slot`.
    pub open spec fn joined(self, user: Seq<char>, slot: int) -> RoomView {
        RoomView {
            users: self.users.insert(user),
            mailboxes: subscribed(self.mailboxes, user, slot),
        }
    }

    /// The message that the subscriber in `slot` sends when it submits
    /// `text`.
    pub open spec fn tweet_from(self, slot: int, text: Seq<char>) -> TweetView {
        TweetView { user: self.mailboxes[slot].user, message: text }
    }

    /// Whether a submission of `text` by the subscriber in `slot` is
    /// published.
    pub open spec fn accepts(self, slot: int, text: Seq<char>) -> bool {
        self.is_live(slot) && fits(text)
    }

    /// The room after the subscriber in `slot` has submitted `text`: the
    /// message is fanned out if the subscriber is live and the text fits,
    /// and dropped otherwise.
    pub open spec fn posted(self, slot: int, text: Seq<char>) -> RoomView {
        if self.accepts(slot, text) {
            RoomView {
                mailboxes: published(self.mailboxes, self.tweet_from(slot, text)),
                ..self
            }
        } else {
            self
        }
    }

    /// What the subscriber in `slot` gets when it looks into its mailbox.
    pub open spec fn front(self, slot: int) -> ReceivedView {
        front_at(self.mailboxes, slot)
    }

    /// The room after the subscriber in `slot` has looked into its mailbox.
    pub open spec fn advanced(self, slot: int) -> RoomView {
        RoomView { mailboxes: advanced_at(self.mailboxes, slot), ..self }
    }

    /// The room after the subscription in `slot` has ended. The name stays.
    pub open spec fn left(self, slot: int) -> RoomView {
        RoomView { mailboxes: closed_at(self.mailboxes, slot), ..self }
    }

    /// What holds of every room that the steps of the chat can produce.
    pub open spec fn wf(self) -> bool {
        forall|j: int| 0 <= j < self.mailboxes.len() ==> (#[trigger] self.mailboxes[j]).wf()
    }
}

/// The names held in `names`, as a set.
pub open spec fn name_set(names: Seq<String>) -> Set<Seq<char>> {
    Set::new(|name: Seq<char>| exists|j: int| 0 <= j < names.len() && (#[trigger] names[j])@ == name)
}

/// A room of the chat: the names seen in it and its fan-out channel.
pub struct RoomState {
    user_set: Vec<String>,
    tx: Broadcaster,
}

impl View for RoomState {
    type V = RoomView;

    closed spec fn view(&self) -> RoomView {
        RoomView { users: name_set(self.user_set@), mailboxes: self.tx@ }
    }
}

impl RoomState {
    /// A room that nobody has joined, with a channel of its own.
    pub fn new() -> (room: Self)
        ensures
            room@ == RoomView::empty(),
    {
        let room = RoomState { user_set: Vec::new(), tx: Broadcaster::new() };
        assert(room@.users =~= Set::empty());
        room
    }

    /// Records that `username` was seen in the room.
    pub fn insert_user(&mut self, username: String)
        ensures
            final(self)@.users == old(self)@.users.insert(username@),
            final(self)@.mailboxes == old(self)@.mailboxes,
    {
        let n = self.user_set.len();
        let mut i: usize = 0;
        while i < n
            invariant
                i <= n,
                n == self.user_set.len(),
                *self == *old(self),
                forall|j: int| 0 <= j < i ==> (#[trigger] self.user_set@[j])@ != username@,
            decreases n - i,
        {
            if self.user_set[i] == username {
                assert(self@.users =~= old(self)@.users.insert(username@));
                return ;
            }
            i += 1;
        }
        let ghost before = self.user_set@;
        self.user_set.push(username);
        assert(self@.users =~= old(self)@.users.insert(username@)) by {
            assert(self.user_set@[n as int]@ == username@);
            assert forall|name: Seq<char>|
                old(self)@.users.insert(username@).contains(name) implies self@.users.contains(
                name,
            ) by {
                if name != username@ {
                    let j = choose|j: int| 0 <= j < before.len() && (#[trigger] before[j])@ == name;
                    assert(self.user_set@[j]@ == name);
                }
            }
        }
    }

    /// Lets `username` into the room: records the name, then subscribes it
    /// to the room's channel. Returns the slot of the subscription.
    pub fn join(&mut self, username: String) -> (slot: usize)
        ensures
            is_free_slot(old(self)@.mailboxes, slot as int),
            final(self)@ == old(self)@.joined(username@, slot as int),
    {
        self.insert_user(username.clone());
        self.tx.subscribe(username)
    }

    /// Takes a submission from the subscriber in `slot`. A text that fits is
    /// published to every live subscriber of the room under the
    /// submitter's name; a longer one is dropped. Returns whether the
    /// message was published.
    pub fn post(&mut self, slot: usize, input: TweetInput) -> (sent: bool)
        ensures
            sent == old(self)@.accepts(slot as int, input@),
            final(self)@ == old(self)@.posted(slot as int, input@),
    {
        if !input.fits() {
            return false;
        }
        let user = match self.tx.sender(slot) {
            Some(name) => name.clone(),
            None => {
                return false;
            },
        };
        let tweet = Tweet::new(user, input);
        self.tx.publish(&tweet);
        true
    }

    /// Takes the next message for the subscriber in `slot`, if one waits.
    pub fn try_recv(&mut self, slot: usize) -> (received: Received)
        ensures
            received@ == old(self)@.front(slot as int),
            final(self)@ == old(self)@.advanced(slot as int),
    {
        self.tx.try_recv(slot)
    }

    /// Ends the subscription in `slot`.
    pub fn leave(&mut self, slot: usize)
        ensures
            final(self)@ == old(self)@.left(slot as int),
    {
        self.tx.unsubscribe(slot)
    }
}

} // verus!
