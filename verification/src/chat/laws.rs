//! What holds of the chat whatever its connections do.

use vstd::prelude::*;
use crate::chat::broadcast::is_free_slot;
use crate::chat::broadcast::CHANNEL_CAPACITY;
use crate::chat::state::bumped;
use crate::chat::state::ChatView;
use crate::chat::state::Connection;
use crate::chat::state::OutboundView;
use crate::chat::tweet::fits;
use crate::chat::tweet::wire_text;
use crate::chat::tweet::TweetView;

verus! {

/// The chat starts in a state that is well formed.
pub proof fn initial_is_wf()
    ensures
        ChatView::initial().wf(),
{
}

/// Connecting keeps the chat well formed.
pub proof fn connect_keeps_wf(chat: ChatView, room: usize, user: Seq<char>, slot: int)
    requires
        chat.wf(),
        is_free_slot(chat.room(room).mailboxes, slot),
    ensures
        chat.connected(room, user, slot).wf(),
{
    let after = chat.connected(room, user, slot);
    assert forall|id: usize| after.rooms.contains_key(id) implies (#[trigger] after.rooms[id]).wf() by {
        if id == room {
            let before = chat.room(room).mailboxes;
            assert forall|j: int| 0 <= j < after.rooms[id].mailboxes.len() implies (
            #[trigger] after.rooms[id].mailboxes[j]).wf() by {
                if j != slot {
                    assert(before[j].wf());
                }
            }
        } else {
            assert(chat.rooms[id].wf());
        }
    }
}

/// A submission keeps the chat well formed, whether it is published or
/// dropped: no mailbox grows past the channel's capacity, and no text that
/// does not fit gets into one.
pub proof fn post_keeps_wf(chat: ChatView, conn: Connection, text: Seq<char>)
    requires
        chat.wf(),
    ensures
        chat.posted(conn, text).wf(),
{
    let after = chat.posted(conn, text);
    if chat.accepts(conn, text) {
        let before = chat.room(conn.room).mailboxes;
        let tweet = chat.room(conn.room).tweet_from(conn.slot as int, text);
        assert forall|id: usize| after.rooms.contains_key(id) implies (
        #[trigger] after.rooms[id]).wf() by {
            if id == conn.room {
                assert(chat.rooms[id].wf());
                assert forall|j: int| 0 <= j < after.rooms[id].mailboxes.len() implies (
                #[trigger] after.rooms[id].mailboxes[j]).wf() by {
                    let old_box = before[j];
                    let new_box = old_box.receive(tweet);
                    assert(old_box.wf());
                    assert(after.rooms[id].mailboxes[j] == new_box);
                    assert forall|k: int| 0 <= k < new_box.pending.len() implies fits(
                        (#[trigger] new_box.pending[k]).message,
                    ) by {
                        if old_box.open {
                            if old_box.pending.len() < CHANNEL_CAPACITY {
                                if k < old_box.pending.len() {
                                    assert(new_box.pending[k] == old_box.pending[k]);
                                }
                            } else {
                                if k < new_box.pending.len() - 1 {
                                    assert(new_box.pending[k] == old_box.pending[k + 1]);
                                }
                            }
                        } else {
                            assert(new_box.pending[k] == old_box.pending[k]);
                        }
                    }
                }
            } else {
                assert(chat.rooms[id].wf());
            }
        }
    }
}

/// A step of an outbound side keeps the chat well formed.
pub proof fn poll_keeps_wf(chat: ChatView, conn: Connection)
    requires
        chat.wf(),
    ensures
        chat.polled(conn).wf(),
{
    let after = chat.polled(conn);
    if chat.rooms.contains_key(conn.room) {
        let before = chat.rooms[conn.room].mailboxes;
        assert forall|id: usize| after.rooms.contains_key(id) implies (
        #[trigger] after.rooms[id]).wf() by {
            assert(chat.rooms[id].wf());
            if id == conn.room {
                assert forall|j: int| 0 <= j < after.rooms[id].mailboxes.len() implies (
                #[trigger] after.rooms[id].mailboxes[j]).wf() by {
                    assert(before[j].wf());
                    if j == conn.slot as int {
                        let new_box = before[j].advance();
                        assert forall|k: int| 0 <= k < new_box.pending.len() implies fits(
                            (#[trigger] new_box.pending[k]).message,
                        ) by {
                            if before[j].open && !before[j].lagged && before[j].pending.len() > 0 {
                                assert(new_box.pending[k] == before[j].pending[k + 1]);
                            } else {
                                assert(new_box.pending[k] == before[j].pending[k]);
                            }
                        }
                    }
                }
            }
        }
    }
}

/// The end of a connection keeps the chat well formed.
pub proof fn disconnect_keeps_wf(chat: ChatView, conn: Connection)
    requires
        chat.wf(),
    ensures
        chat.disconnected(conn).wf(),
{
    let after = chat.disconnected(conn);
    if chat.rooms.contains_key(conn.room) {
        let before = chat.rooms[conn.room].mailboxes;
        assert forall|id: usize| after.rooms.contains_key(id) implies (
        #[trigger] after.rooms[id]).wf() by {
            assert(chat.rooms[id].wf());
            if id == conn.room {
                assert forall|j: int| 0 <= j < after.rooms[id].mailboxes.len() implies (
                #[trigger] after.rooms[id].mailboxes[j]).wf() by {
                    assert(before[j].wf());
                }
            }
        }
    }
}

/// Two connections to the same room, under whatever names, are in the same
/// room: both are live subscribers of it, both names are recorded in it, and
/// a message that one of them submits reaches the other, and the sender
/// too, in the sender's name.
pub proof fn same_room_sees_message(
    chat: ChatView,
    room: usize,
    first: Seq<char>,
    second: Seq<char>,
    a: Connection,
    b: Connection,
    text: Seq<char>,
)
    requires
        a.room == room,
        b.room == room,
        is_free_slot(chat.room(room).mailboxes, a.slot as int),
        is_free_slot(
            chat.connected(room, first, a.slot as int).room(room).mailboxes,
            b.slot as int,
        ),
        fits(text),
    ensures
        ({
            let joined = chat.connected(room, first, a.slot as int).connected(
                room,
                second,
                b.slot as int,
            );
            let tweet = TweetView { user: first, message: text };
            let after = joined.posted(a, text);
            &&& a != b
            &&& joined.is_live(a)
            &&& joined.is_live(b)
            &&& joined.room(room).users.contains(first)
            &&& joined.room(room).users.contains(second)
            &&& joined.accepts(a, text)
            &&& after.pending(b) == seq![tweet]
            &&& after.pending(a) == seq![tweet]
            &&& after.outbound(b) == OutboundView::Deliver(wire_text(tweet))
        }),
{
    let one = chat.connected(room, first, a.slot as int);
    let joined = one.connected(room, second, b.slot as int);
    let tweet = TweetView { user: first, message: text };
    let after = joined.posted(a, text);
    assert(one.room(room).mailboxes[a.slot as int].open);
    assert(a.slot != b.slot);
    assert(joined.room(room).mailboxes[a.slot as int] == one.room(room).mailboxes[a.slot as int]);
    assert(joined.accepts(a, text));
    assert(joined.room(room).tweet_from(a.slot as int, text) == tweet);
    assert(after.pending(b) =~= seq![tweet]);
    assert(after.pending(a) =~= seq![tweet]);
}

/// A published message goes to every connection that is subscribed to the
/// room at that moment, behind what the connection has yet to read, and to
/// no mailbox of another room.
pub proof fn publish_reaches_every_subscriber(
    chat: ChatView,
    conn: Connection,
    text: Seq<char>,
    other: Connection,
)
    requires
        chat.accepts(conn, text),
    ensures
        ({
            let after = chat.posted(conn, text);
            let tweet = chat.room(conn.room).tweet_from(conn.slot as int, text);
            &&& other.room == conn.room && chat.is_live(other) ==> after.is_live(other)
                && after.pending(other).last() == tweet
            &&& other.room == conn.room && chat.is_live(other) && chat.pending(other).len()
                < CHANNEL_CAPACITY ==> after.pending(other) == chat.pending(other).push(tweet)
            &&& other.room != conn.room ==> after.room(other.room) == chat.room(other.room)
        }),
{
}

/// Messages reach a subscriber in the order in which they were published:
/// of two messages published one after the other, the first stands before
/// the second in the mailbox of every connection that was subscribed to the
/// room and had room for both.
pub proof fn publish_order_is_kept(
    chat: ChatView,
    first: Connection,
    early: Seq<char>,
    second: Connection,
    late: Seq<char>,
    reader: Connection,
)
    requires
        first.room == second.room,
        reader.room == first.room,
        chat.accepts(first, early),
        chat.accepts(second, late),
        chat.is_live(reader),
        chat.pending(reader).len() + 2 <= CHANNEL_CAPACITY,
    ensures
        ({
            let room = chat.room(first.room);
            let after = chat.posted(first, early).posted(second, late);
            after.pending(reader) == chat.pending(reader).push(
                room.tweet_from(first.slot as int, early),
            ).push(room.tweet_from(second.slot as int, late))
        }),
{
    let between = chat.posted(first, early);
    assert(between.accepts(second, late));
    assert(between.room(second.room).tweet_from(second.slot as int, late) == chat.room(
        first.room,
    ).tweet_from(second.slot as int, late));
}

/// A connection that does not read falls behind: when a message is
/// published to a mailbox that is full, the oldest message in it is lost,
/// and the next step of the connection's outbound side is to stop.
pub proof fn full_mailbox_falls_behind(
    chat: ChatView,
    sender: Connection,
    text: Seq<char>,
    reader: Connection,
)
    requires
        reader.room == sender.room,
        chat.accepts(sender, text),
        chat.is_live(reader),
        chat.pending(reader).len() == CHANNEL_CAPACITY,
    ensures
        ({
            let after = chat.posted(sender, text);
            let tweet = chat.room(sender.room).tweet_from(sender.slot as int, text);
            &&& after.pending(reader) == chat.pending(reader).drop_first().push(tweet)
            &&& after.outbound(reader) == OutboundView::Stop
        }),
{
}

/// A text of more than 128 bytes is dropped: the submission changes nothing,
/// in no mailbox of any room, nor in the counter.
pub proof fn oversized_is_dropped(chat: ChatView, conn: Connection, text: Seq<char>)
    requires
        !fits(text),
    ensures
        !chat.accepts(conn, text),
        chat.posted(conn, text) == chat,
{
}

/// No connection is ever handed a message whose text does not fit.
pub proof fn every_delivery_fits(chat: ChatView, conn: Connection)
    requires
        chat.wf(),
    ensures
        chat.outbound(conn) is Deliver ==> exists|tweet: TweetView|
            fits(tweet.message) && chat.outbound(conn) == OutboundView::Deliver(
                #[trigger] wire_text(tweet),
            ),
{
    if chat.outbound(conn) is Deliver {
        assert(chat.rooms.contains_key(conn.room));
        assert(chat.rooms[conn.room].wf());
        let mailbox = chat.rooms[conn.room].mailboxes[conn.slot as int];
        assert(mailbox.wf());
        let tweet = mailbox.pending[0];
        assert(fits(tweet.message));
        assert(chat.outbound(conn) == OutboundView::Deliver(wire_text(tweet)));
    }
}

/// The counter goes up by exactly one with each message handed to a client,
/// and stands still on every other step: a step of an outbound side that
/// delivers nothing, a submission (published or dropped), a connect and a
/// disconnect.
pub proof fn counter_follows_deliveries(
    chat: ChatView,
    conn: Connection,
    text: Seq<char>,
    room: usize,
    user: Seq<char>,
    slot: int,
)
    requires
        chat.views < usize::MAX,
    ensures
        chat.outbound(conn) is Deliver ==> chat.polled(conn).views == chat.views + 1,
        !(chat.outbound(conn) is Deliver) ==> chat.polled(conn).views == chat.views,
        chat.posted(conn, text).views == chat.views,
        chat.connected(room, user, slot).views == chat.views,
        chat.disconnected(conn).views == chat.views,
{
    if chat.outbound(conn) is Deliver {
        assert(chat.rooms.contains_key(conn.room));
    }
}

/// At the top of its range the counter starts again from zero.
pub proof fn counter_wraps(chat: ChatView, conn: Connection)
    requires
        chat.views == usize::MAX,
        chat.outbound(conn) is Deliver,
    ensures
        chat.polled(conn).views == 0,
        bumped(chat.views) == 0,
{
    assert(chat.rooms.contains_key(conn.room));
}

/// Right after a reset the counter reads zero, and nothing else has
/// changed.
pub proof fn reset_reads_zero(chat: ChatView)
    ensures
        chat.reset().views == 0,
        chat.reset().rooms == chat.rooms,
{
}

/// A connection that joins after a message was published does not get that
/// message: whatever happened in the room before, its mailbox starts
/// empty, and its outbound side has nothing to deliver.
pub proof fn late_subscriber_gets_no_backlog(
    chat: ChatView,
    sender: Connection,
    text: Seq<char>,
    room: usize,
    user: Seq<char>,
    late: Connection,
)
    requires
        late.room == room,
        is_free_slot(chat.posted(sender, text).room(room).mailboxes, late.slot as int),
    ensures
        ({
            let after = chat.posted(sender, text).connected(room, user, late.slot as int);
            &&& after.is_live(late)
            &&& after.pending(late) == Seq::<TweetView>::empty()
            &&& after.outbound(late) == OutboundView::Idle
        }),
{
}

} // verus!
