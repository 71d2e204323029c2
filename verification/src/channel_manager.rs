//! Publish/subscribe channels, one `tokio` broadcast channel per name.

use tokio::sync::broadcast::error::SendError;
use tokio::sync::broadcast::{Receiver, Sender};
use vstd::prelude::*;

verus! {

/// The sending half of a `tokio` broadcast channel, carried opaquely.
#[verifier::external_type_specification]
#[verifier::external_body]
#[verifier::reject_recursive_types(T)]
pub struct ExSender<T>(Sender<T>);

/// The error that `tokio`'s broadcast `send` returns, carried opaquely.
#[verifier::external_type_specification]
#[verifier::external_body]
#[verifier::reject_recursive_types(T)]
pub struct ExSendError<T>(SendError<T>);

/// How many messages a channel buffers for a slow subscriber.
pub const CHANNEL_CAPACITY: usize = 16;

/// Calls `tokio::sync::broadcast::channel(capacity)` and keeps the sending
/// half; the receiving half that the call also makes is dropped at once, so
/// the channel starts with no subscriber. `channel` panics on a capacity of
/// 0 or above `usize::MAX / 2`, which `requires` leaves out. Nothing is
/// stated of the sender: it is a fresh channel.
#[verifier::external_body]
fn new_sender(capacity: usize) -> Sender<String>
    requires
        0 < capacity <= usize::MAX / 2,
{
    tokio::sync::broadcast::channel(capacity).0
}

/// Calls `Sender::subscribe`, which hands out a new receiving half of the
/// channel. Nothing is stated of the receiver. (The call panics once a
/// channel has `usize::MAX >> 2` live receivers; that count lives in the
/// channel, out of reach of a `requires`.)
#[verifier::external_body]
fn subscribe_to(sender: &Sender<String>) -> Receiver<String> {
    sender.subscribe()
}

/// Calls `Sender::send`. Its source returns `Err` when the channel has no
/// live receiver and otherwise `Ok` with the number of live receivers, so an
/// `Ok` count is at least 1. Which of the two comes back depends on the
/// receivers that callers hold, so that is not stated.
#[verifier::external_body]
fn send_on(sender: &Sender<String>, message: String) -> (r: Result<usize, SendError<String>>)
    ensures
        r matches Ok(n) ==> n >= 1,
{
    sender.send(message)
}

/// Calls `SendError::to_string`; its `Display` impl writes the fixed text
/// `channel closed`.
#[verifier::external_body]
fn send_error_text(e: &SendError<String>) -> (s: String)
    ensures
        s@ == "channel closed"@,
{
    e.to_string()
}

/// The text that subscribers of `channel` receive for `message`.
pub open spec fn message_text(channel: Seq<char>, message: Seq<char>) -> Seq<char> {
    "MESSAGE "@ + channel + " "@ + message
}

/// The text that subscribers of `channel` receive for `message`.
pub fn channel_message(channel: &str, message: &str) -> (r: String)
    ensures
        r@ == message_text(channel@, message@),
{
    let mut r = String::from_str("MESSAGE ");
    r.append(channel);
    r.append(" ");
    r.append(message);
    r
}

/// The error text for a publication that reached no subscriber.
pub open spec fn closed_text() -> Seq<char> {
    "Failed to publish: "@ + "channel closed"@
}

/// What a publication answers for the outcome of `send`: the number of
/// subscribers reached, unchanged, or the closed-channel error.
pub fn publish_outcome(sent: Result<usize, SendError<String>>) -> (r: Result<usize, String>)
    ensures
        match sent {
            Ok(n) => r == Ok::<usize, String>(n),
            Err(_) => r matches Err(e) && e@ == closed_text(),
        },
{
    match sent {
        Ok(n) => Ok(n),
        Err(e) => {
            let mut text = String::from_str("Failed to publish: ");
            let detail = send_error_text(&e);
            text.append(detail.as_str());
            Err(text)
        },
    }
}

/// The channels, by name.
pub struct ChannelManager {
    channels: Vec<(String, Sender<String>)>,
}

spec fn unique_names(cs: Seq<(String, Sender<String>)>) -> bool {
    forall|i: int, j: int|
        0 <= i < cs.len() && 0 <= j < cs.len() && i != j ==> #[trigger] cs[i].0@
            != #[trigger] cs[j].0@
}

spec fn names(cs: Seq<(String, Sender<String>)>) -> Set<Seq<char>> {
    Set::new(|k: Seq<char>| exists|i: int| 0 <= i < cs.len() && cs[i].0@ == k)
}

/// The sender stored under each name.
spec fn sender_map(cs: Seq<(String, Sender<String>)>) -> Map<Seq<char>, Sender<String>> {
    Map::new(
        |k: Seq<char>| names(cs).contains(k),
        |k: Seq<char>| cs[choose|i: int| 0 <= i < cs.len() && cs[i].0@ == k].1,
    )
}

proof fn lemma_sender_at(cs: Seq<(String, Sender<String>)>, i: int)
    requires
        unique_names(cs),
        0 <= i < cs.len(),
    ensures
        sender_map(cs).contains_key(cs[i].0@),
        sender_map(cs)[cs[i].0@] == cs[i].1,
{
    let k = cs[i].0@;
    assert(names(cs).contains(k));
    let j = choose|j: int| 0 <= j < cs.len() && cs[j].0@ == k;
    assert(j == i);
}

/// Every channel of `before` is still there in `after`, with the same
/// sender, so its earlier subscribers keep receiving.
pub open spec fn keeps_senders(
    before: Map<Seq<char>, Sender<String>>,
    after: Map<Seq<char>, Sender<String>>,
) -> bool {
    forall|c: Seq<char>|
        #[trigger] before.contains_key(c) ==> after.contains_key(c) && after[c] == before[c]
}

impl ChannelManager {
    /// No name occurs twice.
    #[verifier::type_invariant]
    spec fn names_unique(&self) -> bool {
        unique_names(self.channels@)
    }
}

impl View for ChannelManager {
    type V = Set<Seq<char>>;

    /// The names of the channels that exist.
    closed spec fn view(&self) -> Set<Seq<char>> {
        names(self.channels@)
    }
}

impl ChannelManager {
    /// The sender stored under each channel name.
    pub closed spec fn senders(&self) -> Map<Seq<char>, Sender<String>> {
        sender_map(self.channels@)
    }

    /// The channels that have a sender are the channels that exist.
    pub proof fn lemma_senders_dom(&self)
        ensures
            self.senders().dom() == self@,
    {
        assert(self.senders().dom() =~= self@);
    }

    pub fn new() -> (m: ChannelManager)
        ensures
            m@ == Set::<Seq<char>>::empty(),
            m.senders() == Map::<Seq<char>, Sender<String>>::empty(),
    {
        let m = ChannelManager { channels: Vec::new() };
        assert(m@ =~= Set::<Seq<char>>::empty());
        assert(m.senders() =~= Map::<Seq<char>, Sender<String>>::empty());
        m
    }

    /// The index of the channel called `channel`.
    fn find(&self, channel: &str) -> (r: Option<usize>)
        ensures
            match r {
                Some(i) => i < self.channels@.len() && self.channels@[i as int].0@ == channel@
                    && self@.contains(channel@),
                None => !self@.contains(channel@),
            },
    {
        let name = String::from_str(channel);
        let mut i: usize = 0;
        while i < self.channels.len()
            invariant
                i <= self.channels@.len(),
                name@ == channel@,
                forall|j: int| 0 <= j < i ==> self.channels@[j].0@ != channel@,
            decreases self.channels@.len() - i,
        {
            if self.channels[i].0 == name {
                assert(names(self.channels@).contains(channel@));
                return Some(i);
            }
            i = i + 1;
        }
        None
    }

    /// The sender stored under `channel`, when the channel exists.
    pub fn sender_for(&self, channel: &str) -> (r: Option<&Sender<String>>)
        ensures
            match r {
                Some(s) => self.senders().contains_key(channel@) && *s == self.senders()[channel@],
                None => !self@.contains(channel@) && !self.senders().contains_key(channel@),
            },
    {
        proof {
            use_type_invariant(self);
        }
        match self.find(channel) {
            Some(i) => {
                proof {
                    lemma_sender_at(self.channels@, i as int);
                }
                Some(&self.channels[i].1)
            },
            None => None,
        }
    }

    /// Subscribes to `channel`, which is made when it does not exist yet.
    pub fn subscribe(&mut self, channel: String) -> (r: Receiver<String>)
        ensures
            final(self)@ == old(self)@.insert(channel@),
            keeps_senders(old(self).senders(), final(self).senders()),
    {
        proof {
            use_type_invariant(&*self);
        }
        match self.sender_for(channel.as_str()) {
            Some(sender) => {
                proof {
                    self.lemma_senders_dom();
                }
                assert(old(self)@.insert(channel@) =~= old(self)@);
                subscribe_to(sender)
            },
            None => {
                let sender = new_sender(CHANNEL_CAPACITY);
                let receiver = subscribe_to(&sender);
                let ghost old_cs = self.channels@;
                let mut cs: Vec<(String, Sender<String>)> = Vec::new();
                std::mem::swap(&mut cs, &mut self.channels);
                cs.push((channel, sender));
                proof {
                    let n = old_cs.len() as int;
                    assert(cs@ == old_cs.push(cs@[n]));
                    assert forall|a: int, b: int|
                        0 <= a < cs@.len() && 0 <= b < cs@.len() && a != b implies #[trigger] cs@[a].0@
                        != #[trigger] cs@[b].0@ by {
                        if a != n && b != n {
                            assert(old_cs[a].0@ != old_cs[b].0@);
                        } else if a == n {
                            assert(names(old_cs).contains(old_cs[b].0@));
                        } else {
                            assert(names(old_cs).contains(old_cs[a].0@));
                        }
                    }
                    assert forall|k: Seq<char>|
                        names(cs@).contains(k) <==> #[trigger] names(old_cs).insert(
                            channel@,
                        ).contains(k) by {
                        if names(old_cs).contains(k) {
                            let j = choose|j: int| 0 <= j < old_cs.len() && old_cs[j].0@ == k;
                            assert(cs@[j] == old_cs[j]);
                        }
                        if names(cs@).contains(k) && k != channel@ {
                            let j = choose|j: int| 0 <= j < cs@.len() && cs@[j].0@ == k;
                            assert(j != n);
                            assert(cs@[j] == old_cs[j]);
                        }
                        if k == channel@ {
                            assert(cs@[n].0@ == k);
                        }
                    }
                    assert(names(cs@) =~= names(old_cs).insert(channel@));
                    assert forall|c: Seq<char>| #[trigger]
                        sender_map(old_cs).contains_key(c) implies sender_map(cs@).contains_key(c)
                        && sender_map(cs@)[c] == sender_map(old_cs)[c] by {
                        let j = choose|j: int| 0 <= j < old_cs.len() && old_cs[j].0@ == c;
                        lemma_sender_at(old_cs, j);
                        assert(cs@[j] == old_cs[j]);
                        lemma_sender_at(cs@, j);
                    }
                }
                self.channels = cs;
                receiver
            },
        }
    }

    /// Publishes `message` on `channel`, as `MESSAGE <channel> <message>`.
    /// A channel that does not exist reaches nobody: `Ok(0)`. Otherwise the
    /// answer is the number of subscribers reached, or an error when none
    /// is left.
    pub fn publish(&self, channel: &str, message: &str) -> (r: Result<usize, String>)
        ensures
            !self@.contains(channel@) ==> r == Ok::<usize, String>(0),
            self@.contains(channel@) ==> match r {
                Ok(n) => n >= 1,
                Err(e) => e@ == closed_text(),
            },
    {
        match self.sender_for(channel) {
            None => Ok(0),
            Some(sender) => {
                let full_message = channel_message(channel, message);
                publish_outcome(send_on(sender, full_message))
            },
        }
    }

    pub fn channel_exists(&self, channel: &str) -> (r: bool)
        ensures
            r == self@.contains(channel@),
    {
        self.find(channel).is_some()
    }
}

} // verus!
