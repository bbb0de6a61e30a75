//! Chat messages: what a client submits, and what a room hands on.

use vstd::prelude::*;
use crate::text::byte_len;

verus! {

/// The longest message text, in bytes, that a room accepts.
pub const MAX_MESSAGE_LEN: usize = 128;

/// Whether a room accepts a message with this text.
pub open spec fn fits(text: Seq<char>) -> bool {
    byte_len(text) <= MAX_MESSAGE_LEN
}

/// What a client submits: the text of one message.
#[derive(Debug)]
pub struct TweetInput {
    pub message: String,
}

impl View for TweetInput {
    type V = Seq<char>;

    open spec fn view(&self) -> Seq<char> {
        self.message@
    }
}

impl Clone for TweetInput {
    fn clone(&self) -> (copy: Self)
        ensures
            copy == *self,
    {
        TweetInput { message: self.message.clone() }
    }
}

impl TweetInput {
    /// Whether the text is short enough to be published.
    pub fn fits(&self) -> (ok: bool)
        ensures
            ok == fits(self@),
    {
        self.message.as_str().as_bytes().len() <= MAX_MESSAGE_LEN
    }
}

/// A message as a room's subscribers see it: who sent it, and its text.
pub struct TweetView {
    pub user: Seq<char>,
    pub message: Seq<char>,
}

/// A message on its way through a room, with the name of the connection
/// that sent it.
#[derive(Debug)]
pub struct Tweet {
    pub message: TweetInput,
    pub user: String,
}

impl View for Tweet {
    type V = TweetView;

    open spec fn view(&self) -> TweetView {
        TweetView { user: self.user@, message: self.message@ }
    }
}

impl Clone for Tweet {
    fn clone(&self) -> (copy: Self)
        ensures
            copy == *self,
    {
        Tweet { message: self.message.clone(), user: self.user.clone() }
    }
}

/// The text of a JSON object with two string members, in the order given.
pub uninterp spec fn json_object_text(
    key_a: Seq<char>,
    value_a: Seq<char>,
    key_b: Seq<char>,
    value_b: Seq<char>,
) -> Seq<char>;

/// Serialises a two-member JSON object with `serde_json`: builds a
/// `serde_json::Map` by two calls of `Map::insert`, each value a
/// `Value::String`, and renders `Value::Object` with `to_string`. Nothing is
/// proved of the text; the contract only gives it its name.
#[verifier::external_body]
fn json_object(key_a: &str, value_a: &str, key_b: &str, value_b: &str) -> (text: String)
    ensures
        text@ == json_object_text(key_a@, value_a@, key_b@, value_b@),
{
    let mut object = serde_json::Map::new();
    object.insert(key_a.to_string(), serde_json::Value::String(value_a.to_string()));
    object.insert(key_b.to_string(), serde_json::Value::String(value_b.to_string()));
    serde_json::Value::Object(object).to_string()
}

/// The frame that carries a message to a client: a JSON object with the
/// sender under `user` and the text under `message`.
pub open spec fn wire_text(tweet: TweetView) -> Seq<char> {
    json_object_text("user"@, tweet.user, "message"@, tweet.message)
}

impl Tweet {
    /// A message with the given sender and text.
    pub fn new(user: String, message: TweetInput) -> (tweet: Self)
        ensures
            tweet.user == user,
            tweet.message == message,
    {
        Self { message, user }
    }

    /// The frame that carries this message to a client.
    pub fn to_string(&self) -> (text: String)
        ensures
            text@ == wire_text(self@),
    {
        json_object("user", self.user.as_str(), "message", self.message.message.as_str())
    }
}

} // verus!
