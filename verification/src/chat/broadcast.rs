//! The fan-out channel of one room: every message published to it is put
//! into the mailbox of each connection subscribed at that moment.

use std::collections::VecDeque;
use vstd::prelude::*;
use crate::chat::tweet::fits;
use crate::chat::tweet::Tweet;
use crate::chat::tweet::TweetView;

verus! {

/// The number of unread messages that a mailbox keeps. One more pushes the
/// oldest out, and the subscriber is told that it fell behind.
pub const CHANNEL_CAPACITY: usize = 1000;

/// What one attempt to take a message from a mailbox gives.
pub enum Received {
    /// The oldest unread message.
    Message(Tweet),
    /// Nothing is waiting.
    Empty,
    /// Messages were lost since the last attempt.
    Lagged,
    /// The subscription has ended.
    Closed,
}

/// `Received` with the message taken by its view.
pub enum ReceivedView {
    Message(TweetView),
    Empty,
    Lagged,
    Closed,
}

impl View for Received {
    type V = ReceivedView;

    open spec fn view(&self) -> ReceivedView {
        match self {
            Received::Message(tweet) => ReceivedView::Message(tweet@),
            Received::Empty => ReceivedView::Empty,
            Received::Lagged => ReceivedView::Lagged,
            Received::Closed => ReceivedView::Closed,
        }
    }
}

/// The mailbox of one subscriber, as contracts see it.
pub struct MailboxView {
    /// The name under which the subscriber publishes.
    pub user: Seq<char>,
    /// The unread messages, oldest first.
    pub pending: Seq<TweetView>,
    /// Whether a message was lost since the subscriber last looked.
    pub lagged: bool,
    /// Whether the subscription is live.
    pub open: bool,
}

impl MailboxView {
    /// The mailbox of a subscriber that has just joined: live, and empty.
    pub open spec fn fresh(user: Seq<char>) -> MailboxView {
        MailboxView { user, pending: Seq::empty(), lagged: false, open: true }
    }

    /// The mailbox after `tweet` was published to its room.
    pub open spec fn receive(self, tweet: TweetView) -> MailboxView {
        if !self.open {
            self
        } else if self.pending.len() < CHANNEL_CAPACITY {
            MailboxView { pending: self.pending.push(tweet), ..self }
        } else {
            MailboxView { pending: self.pending.drop_first().push(tweet), lagged: true, ..self }
        }
    }

    /// What the subscriber gets when it looks into the mailbox.
    pub open spec fn front(self) -> ReceivedView {
        if !self.open {
            ReceivedView::Closed
        } else if self.lagged {
            ReceivedView::Lagged
        } else if self.pending.len() == 0 {
            ReceivedView::Empty
        } else {
            ReceivedView::Message(self.pending[0])
        }
    }

    /// The mailbox after the subscriber has looked into it.
    pub open spec fn advance(self) -> MailboxView {
        if !self.open {
            self
        } else if self.lagged {
            MailboxView { lagged: false, ..self }
        } else if self.pending.len() == 0 {
            self
        } else {
            MailboxView { pending: self.pending.drop_first(), ..self }
        }
    }

    /// The mailbox after its subscription has ended.
    pub open spec fn close(self) -> MailboxView {
        MailboxView { pending: Seq::empty(), lagged: false, open: false, ..self }
    }

    /// What holds of every mailbox that the steps of a room can produce: it
    /// keeps no more than the channel's capacity, every message in it has a
    /// text that fits, and a mailbox that is not live is empty.
    pub open spec fn wf(self) -> bool {
        &&& self.pending.len() <= CHANNEL_CAPACITY
        &&& forall|j: int| 0 <= j < self.pending.len() ==> fits((#[trigger] self.pending[j]).message)
        &&& !self.open ==> self.pending.len() == 0 && !self.lagged
    }
}

/// Whether `slot` is where the next subscriber goes: the first mailbox that
/// is not live, or the end of the row.
pub open spec fn is_free_slot(mailboxes: Seq<MailboxView>, slot: int) -> bool {
    &&& 0 <= slot <= mailboxes.len()
    &&& slot < mailboxes.len() ==> !mailboxes[slot].open
    &&& forall|j: int| 0 <= j < slot ==> (#[trigger] mailboxes[j]).open
}

/// The row of mailboxes after a subscriber named `user` has taken `slot`.
pub open spec fn subscribed(mailboxes: Seq<MailboxView>, user: Seq<char>, slot: int) -> Seq<
    MailboxView,
> {
    if slot < mailboxes.len() {
        mailboxes.update(slot, MailboxView::fresh(user))
    } else {
        mailboxes.push(MailboxView::fresh(user))
    }
}

/// The row of mailboxes after `tweet` was published.
pub open spec fn published(mailboxes: Seq<MailboxView>, tweet: TweetView) -> Seq<MailboxView> {
    Seq::new(mailboxes.len(), |j: int| mailboxes[j].receive(tweet))
}

/// What the subscriber in `slot` gets when it looks into its mailbox.
pub open spec fn front_at(mailboxes: Seq<MailboxView>, slot: int) -> ReceivedView {
    if 0 <= slot < mailboxes.len() {
        mailboxes[slot].front()
    } else {
        ReceivedView::Closed
    }
}

/// The row of mailboxes after the subscriber in `slot` has looked into its
/// mailbox.
pub open spec fn advanced_at(mailboxes: Seq<MailboxView>, slot: int) -> Seq<MailboxView> {
    if 0 <= slot < mailboxes.len() {
        mailboxes.update(slot, mailboxes[slot].advance())
    } else {
        mailboxes
    }
}

/// The row of mailboxes after the subscription in `slot` has ended.
pub open spec fn closed_at(mailboxes: Seq<MailboxView>, slot: int) -> Seq<MailboxView> {
    if 0 <= slot < mailboxes.len() {
        mailboxes.update(slot, mailboxes[slot].close())
    } else {
        mailboxes
    }
}

/// One subscriber of a room: its name and the messages it has yet to read.
pub struct Subscription {
    user: String,
    inbox: VecDeque<Tweet>,
    lagged: bool,
    open: bool,
}

impl View for Subscription {
    type V = MailboxView;

    closed spec fn view(&self) -> MailboxView {
        MailboxView {
            user: self.user@,
            pending: Seq::new(self.inbox@.len(), |j: int| self.inbox@[j]@),
            lagged: self.lagged,
            open: self.open,
        }
    }
}

impl Subscription {
    fn fresh(user: String) -> (subscription: Self)
        ensures
            subscription@ == MailboxView::fresh(user@),
    {
        let subscription = Subscription { user, inbox: VecDeque::new(), lagged: false, open: true };
        assert(subscription@.pending =~= Seq::empty());
        subscription
    }

    fn is_open(&self) -> (open: bool)
        ensures
            open == self@.open,
    {
        self.open
    }

    fn user(&self) -> (user: &String)
        ensures
            user@ == self@.user,
    {
        &self.user
    }

    fn receive(&mut self, tweet: Tweet)
        ensures
            final(self)@ == old(self)@.receive(tweet@),
    {
        if self.open {
            if self.inbox.len() >= CHANNEL_CAPACITY {
                self.inbox.pop_front();
                self.lagged = true;
            }
            self.inbox.push_back(tweet);
            assert(self@.pending =~= old(self)@.receive(tweet@).pending);
        }
    }

    fn take(&mut self) -> (received: Received)
        ensures
            received@ == old(self)@.front(),
            final(self)@ == old(self)@.advance(),
    {
        if !self.open {
            Received::Closed
        } else if self.lagged {
            self.lagged = false;
            Received::Lagged
        } else {
            match self.inbox.pop_front() {
                Some(tweet) => {
                    assert(self@.pending =~= old(self)@.pending.drop_first());
                    Received::Message(tweet)
                },
                None => Received::Empty,
            }
        }
    }

    fn close(&mut self)
        ensures
            final(self)@ == old(self)@.close(),
    {
        self.inbox.clear();
        self.lagged = false;
        self.open = false;
        assert(self@.pending =~= Seq::empty());
    }
}

/// The fan-out channel of one room.
pub struct Broadcaster {
    subscriptions: Vec<Subscription>,
}

impl View for Broadcaster {
    type V = Seq<MailboxView>;

    closed spec fn view(&self) -> Seq<MailboxView> {
        Seq::new(self.subscriptions@.len(), |j: int| self.subscriptions@[j]@)
    }
}

impl Broadcaster {
    /// A channel that nobody has subscribed to yet.
    pub fn new() -> (channel: Self)
        ensures
            channel@ == Seq::<MailboxView>::empty(),
    {
        let channel = Broadcaster { subscriptions: Vec::new() };
        assert(channel@ =~= Seq::empty());
        channel
    }

    /// Adds a subscriber named `user` and returns its slot. The new
    /// subscriber starts with an empty mailbox: nothing published before now
    /// reaches it.
    pub fn subscribe(&mut self, user: String) -> (slot: usize)
        ensures
            is_free_slot(old(self)@, slot as int),
            final(self)@ == subscribed(old(self)@, user@, slot as int),
    {
        let n = self.subscriptions.len();
        let mut slot: usize = 0;
        while slot < n && self.subscriptions[slot].is_open()
            invariant
                slot <= n,
                n == self.subscriptions.len(),
                *self == *old(self),
                forall|j: int| 0 <= j < slot ==> (#[trigger] self@[j]).open,
            decreases n - slot,
        {
            slot += 1;
        }
        if slot < n {
            self.subscriptions[slot] = Subscription::fresh(user);
        } else {
            self.subscriptions.push(Subscription::fresh(user));
        }
        assert(self@ =~= subscribed(old(self)@, user@, slot as int));
        slot
    }

    /// Puts `tweet` into the mailbox of every live subscriber.
    pub fn publish(&mut self, tweet: &Tweet)
        ensures
            final(self)@ == published(old(self)@, tweet@),
    {
        let n = self.subscriptions.len();
        let mut i: usize = 0;
        while i < n
            invariant
                i <= n,
                n == self.subscriptions.len(),
                n == old(self).subscriptions.len(),
                forall|j: int|
                    0 <= j < i ==> (#[trigger] self.subscriptions@[j])@ == old(
                        self,
                    ).subscriptions@[j]@.receive(tweet@),
                forall|j: int|
                    i <= j < n ==> #[trigger] self.subscriptions@[j] == old(self).subscriptions@[j],
            decreases n - i,
        {
            let ghost before = self.subscriptions@;
            self.subscriptions[i].receive(tweet.clone());
            assert(forall|j: int|
                0 <= j < n && j != i ==> #[trigger] self.subscriptions@[j] == before[j]);
            i += 1;
        }
        assert(self@ =~= published(old(self)@, tweet@));
    }

    /// Takes the next message for the subscriber in `slot`, if one waits.
    pub fn try_recv(&mut self, slot: usize) -> (received: Received)
        ensures
            received@ == front_at(old(self)@, slot as int),
            final(self)@ == advanced_at(old(self)@, slot as int),
    {
        if slot < self.subscriptions.len() {
            let received = self.subscriptions[slot].take();
            assert(self@ =~= advanced_at(old(self)@, slot as int));
            received
        } else {
            Received::Closed
        }
    }

    /// Ends the subscription in `slot` and frees the slot.
    pub fn unsubscribe(&mut self, slot: usize)
        ensures
            final(self)@ == closed_at(old(self)@, slot as int),
    {
        if slot < self.subscriptions.len() {
            self.subscriptions[slot].close();
            assert(self@ =~= closed_at(old(self)@, slot as int));
        }
    }

    /// The name of the live subscriber in `slot`.
    pub fn sender(&self, slot: usize) -> (user: Option<&String>)
        ensures
            match user {
                Some(name) => 0 <= slot < self@.len() && self@[slot as int].open && name@
                    == self@[slot as int].user,
                None => !(0 <= slot < self@.len() && self@[slot as int].open),
            },
    {
        if slot < self.subscriptions.len() && self.subscriptions[slot].is_open() {
            Some(self.subscriptions[slot].user())
        } else {
            None
        }
    }
}

} // verus!
