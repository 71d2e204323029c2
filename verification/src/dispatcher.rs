//! The server's state and what each request does to it.

use std::collections::HashMap;
use tokio::sync::broadcast::Sender;
use vstd::prelude::*;

use crate::channel_manager::{closed_text, keeps_senders, ChannelManager};
use crate::reply::{Return, ReturnView};
use crate::request::{Request, RequestView};
use crate::stock::{
    counter_next, counter_result, counter_state, expiry_after, is_live, item_views, items_map, items_unique,
    live_value, sweep, sweep_keys, ttl_of, with_counter, DataView, Stock, StockMap,
};
use crate::text::{join, nat_decimal, push_decimal, string_views};

verus! {

broadcast use vstd::std_specs::hash::group_hash_axioms;

/// The store, the channels, and which channel each client listens to.
pub struct Dispatcher {
    stock: Stock,
    channel_manager: ChannelManager,
    client_subscriptions: HashMap<u64, String>,
}

/// The state of a dispatcher.
pub struct DispatcherView {
    pub stock: StockMap,
    pub channels: Set<Seq<char>>,
    /// The sender stored under each channel; the broadcast channel that the
    /// channel's subscribers listen to.
    pub senders: Map<Seq<char>, Sender<String>>,
    pub subscriptions: Map<u64, Seq<char>>,
}

impl View for Dispatcher {
    type V = DispatcherView;

    closed spec fn view(&self) -> DispatcherView {
        DispatcherView {
            stock: self.stock@,
            channels: self.channel_manager@,
            senders: self.channel_manager.senders(),
            subscriptions: self.client_subscriptions@.map_values(|s: String| s@),
        }
    }
}

impl DispatcherView {
    pub open spec fn with_stock(self, m: StockMap) -> DispatcherView {
        DispatcherView { stock: m, ..self }
    }
}

/// `t` is `s` after client `client` subscribes to channel `c`: the channel
/// exists, the client listens to it, and every channel keeps its sender.
pub open spec fn subscribed(s: DispatcherView, c: Seq<char>, client: u64, t: DispatcherView) -> bool {
    &&& t.stock == s.stock
    &&& t.channels == s.channels.insert(c)
    &&& t.subscriptions == s.subscriptions.insert(client, c)
    &&& keeps_senders(s.senders, t.senders)
}

/// The answer `OK`.
pub open spec fn ok_answer() -> ReturnView {
    ReturnView::Reply("OK"@)
}

/// What `GET` answers for `key` at `now`.
pub open spec fn get_answer(m: StockMap, key: Seq<char>, now: u64) -> ReturnView {
    match live_value(m, key, now) {
        Some(v) => ReturnView::Reply(v),
        None => ReturnView::NotFound(key),
    }
}

/// The entry that `SET` stores at `now`.
pub open spec fn set_entry(value: Seq<char>, expiration: Option<u64>, now: u64) -> DataView {
    DataView {
        value,
        expiration: match expiration {
            Some(secs) => Some(expiry_after(now, secs)),
            None => None,
        },
    }
}

/// What `DEL` answers for `key` at `now`.
pub open spec fn del_answer(m: StockMap, key: Seq<char>, now: u64) -> ReturnView {
    if is_live(m, key, now) {
        ok_answer()
    } else {
        ReturnView::NotFound(key)
    }
}

/// What `TTL` answers for `key` at `now`.
pub open spec fn ttl_answer(m: StockMap, key: Seq<char>, now: u64) -> ReturnView {
    if !is_live(m, key, now) {
        ReturnView::NotFound(key)
    } else {
        match ttl_of(m, key, now) {
            Some(t) => ReturnView::Reply(nat_decimal(t as nat) + "ms"@),
            None => ReturnView::Reply("None"@),
        }
    }
}

/// The answer to a publication that reached `n` subscribers.
pub open spec fn published_text(n: nat) -> Seq<char> {
    "Published to "@ + nat_decimal(n) + " subscriber(s)"@
}

/// What `PUB` may answer: a count of at least one subscriber, or the
/// closed-channel error, on an existing channel; a count of 0 otherwise.
pub open spec fn publish_answer(channels: Set<Seq<char>>, channel: Seq<char>, r: ReturnView) -> bool {
    if channels.contains(channel) {
        ||| r == ReturnView::Error(closed_text())
        ||| exists|n: nat| n >= 1 && r == ReturnView::Reply(#[trigger] published_text(n))
    } else {
        r == ReturnView::Reply(published_text(0))
    }
}

/// What `UNSUB` answers, for `client` and `channel`.
pub open spec fn unsubscribe_answer(s: DispatcherView, channel: Seq<char>, client: u64) -> ReturnView {
    if !s.channels.contains(channel) {
        ReturnView::Error("Channel '"@ + channel + "' does not exist"@)
    } else if !s.subscriptions.contains_key(client) {
        ReturnView::Error("Not subscribed to any channel"@)
    } else if s.subscriptions[client] != channel {
        ReturnView::Error("Not subscribed to channel '"@ + channel + "'"@)
    } else {
        ReturnView::Unsubscribe
    }
}

/// The state after `UNSUB`: the client's subscription ends when the answer
/// is `Unsubscribe`.
pub open spec fn unsubscribe_state(s: DispatcherView, channel: Seq<char>, client: u64) -> DispatcherView {
    if unsubscribe_answer(s, channel, client) == ReturnView::Unsubscribe {
        DispatcherView { subscriptions: s.subscriptions.remove(client), ..s }
    } else {
        s
    }
}

/// One line of the `EXISTS` answer.
pub open spec fn exists_line(key: Seq<char>, live: bool) -> Seq<char> {
    key + " -> "@ + (if live {
        "true"@
    } else {
        "false"@
    })
}

/// What `EXISTS` answers for `keys` at `now`: one line per key, joined by
/// CR LF.
pub open spec fn exists_answer(m: StockMap, keys: Seq<Seq<char>>, now: u64) -> ReturnView {
    ReturnView::Reply(
        join(keys.map_values(|k: Seq<char>| exists_line(k, is_live(m, k, now))), "\r\n"@),
    )
}

/// The answer to a counter update of `k` by `delta` at `now`.
pub open spec fn counter_answer(m: StockMap, k: Seq<char>, now: u64, delta: int) -> ReturnView {
    match counter_result(m, k, now, delta) {
        Ok(v) => ReturnView::Reply(crate::text::int_decimal(v as int)),
        Err(e) => ReturnView::Error(e),
    }
}

/// Serving `req` from client `client` at `now` takes state `s` to `t` and
/// answers `r`.
pub open spec fn step(
    s: DispatcherView,
    req: RequestView,
    client: u64,
    now: u64,
    t: DispatcherView,
    r: ReturnView,
) -> bool {
    match req {
        RequestView::GET(k) => t == s.with_stock(sweep(s.stock, k, now)) && r == get_answer(
            s.stock,
            k,
            now,
        ),
        RequestView::SET { key, value, expiration } => t == s.with_stock(
            s.stock.insert(key, set_entry(value, expiration, now)),
        ) && r == ok_answer(),
        RequestView::DEL(k) => t == s.with_stock(s.stock.remove(k)) && r == del_answer(
            s.stock,
            k,
            now,
        ),
        RequestView::INCR(k) => t == s.with_stock(counter_state(s.stock, k, now, 1)) && r
            == counter_answer(s.stock, k, now, 1),
        RequestView::DECR(k) => t == s.with_stock(counter_state(s.stock, k, now, -1)) && r
            == counter_answer(s.stock, k, now, -1),
        RequestView::DROP() => t == s.with_stock(Map::empty()) && r == ok_answer(),
        RequestView::PUB { channel, message } => t == s && publish_answer(s.channels, channel, r),
        RequestView::SUB(c) => subscribed(s, c, client, t) && r == ReturnView::Subscribe,
        RequestView::UNSUB(c) => t == unsubscribe_state(s, c, client) && r == unsubscribe_answer(
            s,
            c,
            client,
        ),
        RequestView::TTL(k) => t == s.with_stock(sweep(s.stock, k, now)) && r == ttl_answer(
            s.stock,
            k,
            now,
        ),
        RequestView::EXISTS(keys) => t == s.with_stock(sweep_keys(s.stock, keys, now)) && r
            == exists_answer(s.stock, keys, now),
        RequestView::SAVE(f) => t == s && r == ReturnView::Save(f),
        RequestView::LOAD(f) => t == s && r == ReturnView::Load(f),
    }
}

/// The answer to a publication, for each outcome of the channel's
/// `publish`: the number of subscribers reached, or its error.
pub fn publish_reply(outcome: Result<usize, String>) -> (r: Return)
    ensures
        r@ == match outcome {
            Ok(n) => ReturnView::Reply(published_text(n as nat)),
            Err(e) => ReturnView::Error(e@),
        },
{
    match outcome {
        Ok(count) => {
            let mut t = text("Published to ");
            push_decimal(&mut t, count as u64);
            t.append(" subscriber(s)");
            assert(t@ =~= published_text(count as nat));
            Return::Reply(t)
        },
        Err(e) => Return::Error(e),
    }
}

fn text(s: &str) -> (r: String)
    ensures
        r@ == s@,
{
    String::from_str(s)
}

impl Dispatcher {
    pub fn new() -> (d: Dispatcher)
        ensures
            d@.stock == Map::<Seq<char>, DataView>::empty(),
            d@.channels == Set::<Seq<char>>::empty(),
            d@.senders == Map::<Seq<char>, Sender<String>>::empty(),
            d@.subscriptions == Map::<u64, Seq<char>>::empty(),
    {
        let d = Dispatcher {
            stock: Stock::new(),
            channel_manager: ChannelManager::new(),
            client_subscriptions: HashMap::new(),
        };
        assert(d@.subscriptions =~= Map::<u64, Seq<char>>::empty());
        d
    }

    pub fn get_at(&mut self, key: String, now: u64) -> (r: Return)
        ensures
            final(self)@ == old(self)@.with_stock(sweep(old(self)@.stock, key@, now)),
            r@ == get_answer(old(self)@.stock, key@, now),
    {
        match self.stock.get_at(&key, now) {
            Some(v) => Return::Reply(v.clone()),
            None => Return::NotFound(key),
        }
    }

    pub fn get(&mut self, key: String) -> (r: Return)
        ensures
            exists|now: u64|
                final(self)@ == old(self)@.with_stock(sweep(old(self)@.stock, key@, now)) && r@
                    == #[trigger] get_answer(old(self)@.stock, key@, now),
    {
        let now = crate::stock::now_millis();
        self.get_at(key, now)
    }

    pub fn set_at(&mut self, key: String, value: String, expiration: Option<u64>, now: u64) -> (r:
        Return)
        ensures
            final(self)@ == old(self)@.with_stock(
                old(self)@.stock.insert(key@, set_entry(value@, expiration, now)),
            ),
            r@ == ok_answer(),
    {
        match expiration {
            None => self.stock.set(key, value),
            Some(secs) => self.stock.set_with_expiration_at(key, value, secs, now),
        }
        Return::Reply(text("OK"))
    }

    pub fn set(&mut self, key: String, value: String, expiration: Option<u64>) -> (r: Return)
        ensures
            exists|now: u64|
                final(self)@ == old(self)@.with_stock(
                    old(self)@.stock.insert(key@, #[trigger] set_entry(value@, expiration, now)),
                ),
            r@ == ok_answer(),
    {
        let now = crate::stock::now_millis();
        self.set_at(key, value, expiration, now)
    }

    pub fn del_at(&mut self, key: String, now: u64) -> (r: Return)
        ensures
            final(self)@ == old(self)@.with_stock(old(self)@.stock.remove(key@)),
            r@ == del_answer(old(self)@.stock, key@, now),
    {
        if self.stock.get_at(&key, now).is_none() {
            assert(self@.stock =~= old(self)@.stock.remove(key@));
            return Return::NotFound(key);
        }
        self.stock.del(&key);
        Return::Reply(text("OK"))
    }

    pub fn del(&mut self, key: String) -> (r: Return)
        ensures
            final(self)@ == old(self)@.with_stock(old(self)@.stock.remove(key@)),
            exists|now: u64| r@ == #[trigger] del_answer(old(self)@.stock, key@, now),
    {
        let now = crate::stock::now_millis();
        self.del_at(key, now)
    }

    /// Adds `delta` (1 or -1) to the counter at `key` as read at `now`.
    fn counter_at(&mut self, key: String, now: u64, delta: i64) -> (r: Return)
        requires
            delta == 1 || delta == -1,
        ensures
            final(self)@ == old(self)@.with_stock(
                counter_state(old(self)@.stock, key@, now, delta as int),
            ),
            r@ == counter_answer(old(self)@.stock, key@, now, delta as int),
    {
        if !self.stock.can_add_at(&key, delta, now) {
            return Return::Error(text("increment or decrement would overflow"));
        }
        let result = if delta == 1 {
            self.stock.incr_at(key, now)
        } else {
            self.stock.decr_at(key, now)
        };
        match result {
            Ok(value) => Return::Reply(crate::text::i64_to_string(value)),
            Err(e) => Return::Error(e),
        }
    }

    /// Increments the counter at `key` as read at `now`; past `i64::MAX`
    /// nothing changes and the answer is the overflow error.
    pub fn incr_at(&mut self, key: String, now: u64) -> (r: Return)
        ensures
            final(self)@ == old(self)@.with_stock(counter_state(old(self)@.stock, key@, now, 1)),
            r@ == counter_answer(old(self)@.stock, key@, now, 1),
    {
        self.counter_at(key, now, 1)
    }

    pub fn incr(&mut self, key: String) -> (r: Return)
        ensures
            exists|now: u64|
                final(self)@ == old(self)@.with_stock(counter_state(old(self)@.stock, key@, now, 1))
                    && r@ == #[trigger] counter_answer(old(self)@.stock, key@, now, 1),
    {
        let now = crate::stock::now_millis();
        self.incr_at(key, now)
    }

    /// Decrements the counter at `key` as read at `now`; past `i64::MIN`
    /// nothing changes and the answer is the overflow error.
    pub fn decr_at(&mut self, key: String, now: u64) -> (r: Return)
        ensures
            final(self)@ == old(self)@.with_stock(counter_state(old(self)@.stock, key@, now, -1)),
            r@ == counter_answer(old(self)@.stock, key@, now, -1),
    {
        self.counter_at(key, now, -1)
    }

    pub fn decr(&mut self, key: String) -> (r: Return)
        ensures
            exists|now: u64|
                final(self)@ == old(self)@.with_stock(
                    counter_state(old(self)@.stock, key@, now, -1),
                ) && r@ == #[trigger] counter_answer(old(self)@.stock, key@, now, -1),
    {
        let now = crate::stock::now_millis();
        self.decr_at(key, now)
    }

    pub fn drop(&mut self) -> (r: Return)
        ensures
            final(self)@ == old(self)@.with_stock(Map::empty()),
            r@ == ok_answer(),
    {
        self.stock.drop();
        Return::Reply(text("OK"))
    }

    pub fn publish(&mut self, channel: String, message: String) -> (r: Return)
        ensures
            final(self)@ == old(self)@,
            publish_answer(old(self)@.channels, channel@, r@),
    {
        publish_reply(self.channel_manager.publish(channel.as_str(), message.as_str()))
    }

    pub fn subscribe(&mut self, channel: String, client_id: u64) -> (r: Return)
        ensures
            subscribed(old(self)@, channel@, client_id, final(self)@),
            r@ == ReturnView::Subscribe,
    {
        self.client_subscriptions.insert(client_id, channel.clone());
        let receiver = self.channel_manager.subscribe(channel);
        assert(self@.subscriptions =~= old(self)@.subscriptions.insert(client_id, channel@));
        Return::Subscribe(receiver)
    }

    pub fn unsubscribe(&mut self, channel: String, client_id: u64) -> (r: Return)
        ensures
            final(self)@ == unsubscribe_state(old(self)@, channel@, client_id),
            r@ == unsubscribe_answer(old(self)@, channel@, client_id),
    {
        if !self.channel_manager.channel_exists(channel.as_str()) {
            let mut t = text("Channel '");
            t.append(channel.as_str());
            t.append("' does not exist");
            return Return::Error(t);
        }
        match self.client_subscriptions.get(&client_id) {
            Some(subscribed_channel) => {
                if !(*subscribed_channel == channel) {
                    let mut t = text("Not subscribed to channel '");
                    t.append(channel.as_str());
                    t.append("'");
                    return Return::Error(t);
                }
            },
            None => {
                return Return::Error(text("Not subscribed to any channel"));
            },
        }
        self.client_subscriptions.remove(&client_id);
        assert(self@.subscriptions =~= old(self)@.subscriptions.remove(client_id));
        Return::Unsubscribe
    }

    pub fn ttl_at(&mut self, key: String, now: u64) -> (r: Return)
        ensures
            final(self)@ == old(self)@.with_stock(sweep(old(self)@.stock, key@, now)),
            r@ == ttl_answer(old(self)@.stock, key@, now),
    {
        if self.stock.get_at(&key, now).is_none() {
            return Return::NotFound(key);
        }
        match self.stock.ttl_at(key, now) {
            Some(t) => {
                let mut s = crate::text::u64_to_string(t);
                s.append("ms");
                Return::Reply(s)
            },
            None => Return::Reply(text("None")),
        }
    }

    pub fn ttl(&mut self, key: String) -> (r: Return)
        ensures
            exists|now: u64|
                final(self)@ == old(self)@.with_stock(sweep(old(self)@.stock, key@, now)) && r@
                    == #[trigger] ttl_answer(old(self)@.stock, key@, now),
    {
        let now = crate::stock::now_millis();
        self.ttl_at(key, now)
    }

    /// Answers, for each of `keys`, whether it is live at `now`.
    pub fn keys_exist_at(&mut self, keys: Vec<String>, now: u64) -> (r: Return)
        ensures
            final(self)@ == old(self)@.with_stock(
                sweep_keys(old(self)@.stock, string_views(keys@), now),
            ),
            r@ == exists_answer(old(self)@.stock, string_views(keys@), now),
    {
        let ghost m = self@.stock;
        let ghost ks = string_views(keys@);
        let ghost lines = ks.map_values(|k: Seq<char>| exists_line(k, is_live(m, k, now)));
        let results = self.stock.keys_exist_at(keys, now);
        let mut out = String::new();
        let mut i: usize = 0;
        while i < results.len()
            invariant
                i <= results@.len(),
                results@.len() == ks.len() == lines.len(),
                forall|j: int|
                    0 <= j < results@.len() ==> (#[trigger] results@[j]).0@ == ks[j]
                        && results@[j].1 == is_live(m, ks[j], now),
                lines == ks.map_values(|k: Seq<char>| exists_line(k, is_live(m, k, now))),
                out@ == join(lines.take(i as int), "\r\n"@),
            decreases results@.len() - i,
        {
            let ghost w = lines.take(i + 1);
            assert(w.drop_last() =~= lines.take(i as int));
            if i > 0 {
                out.append("\r\n");
            }
            let (k, live) = (&results[i].0, results[i].1);
            out.append(k.as_str());
            out.append(" -> ");
            if live {
                out.append("true");
            } else {
                out.append("false");
            }
            assert(out@ =~= join(w, "\r\n"@));
            i = i + 1;
        }
        assert(lines.take(i as int) =~= lines);
        Return::Reply(out)
    }

    /// Answers, for each of `keys`, whether it is live now.
    pub fn keys_exist(&mut self, keys: Vec<String>) -> (r: Return)
        ensures
            exists|now: u64|
                final(self)@ == old(self)@.with_stock(
                    sweep_keys(old(self)@.stock, string_views(keys@), now),
                ) && r@ == #[trigger] exists_answer(old(self)@.stock, string_views(keys@), now),
    {
        let now = crate::stock::now_millis();
        self.keys_exist_at(keys, now)
    }

    /// Serves one request at `now`. `SAVE` and `LOAD` are answered with the
    /// file to write or read, which the caller then hands back to
    /// `finish_save` or `finish_load`.
    pub fn dispatch_at(&mut self, request: Request, client_id: u64, now: u64) -> (r: Return)
        ensures
            step(old(self)@, request@, client_id, now, final(self)@, r@),
    {
        match request {
            Request::GET(key) => self.get_at(key, now),
            Request::SET { key, value, expiration } => self.set_at(key, value, expiration, now),
            Request::DEL(key) => self.del_at(key, now),
            Request::INCR(key) => self.incr_at(key, now),
            Request::DECR(key) => self.decr_at(key, now),
            Request::SAVE(filename) => Return::Save(filename),
            Request::LOAD(filename) => Return::Load(filename),
            Request::DROP() => self.drop(),
            Request::PUB { channel, message } => self.publish(channel, message),
            Request::SUB(channel) => self.subscribe(channel, client_id),
            Request::UNSUB(channel) => self.unsubscribe(channel, client_id),
            Request::TTL(key) => self.ttl_at(key, now),
            Request::EXISTS(keys) => self.keys_exist_at(keys, now),
        }
    }

    /// Serves one request now.
    pub fn dispatch(&mut self, request: Request, client_id: u64) -> (r: Return)
        ensures
            exists|now: u64| #[trigger] step(old(self)@, request@, client_id, now, final(self)@, r@),
    {
        let now = crate::stock::now_millis();
        self.dispatch_at(request, client_id, now)
    }

    /// The answer to `SAVE` once the caller has written the items: the
    /// message of the write, or its error.
    pub fn finish_save(&self, written: Result<String, String>) -> (r: Return)
        ensures
            r@ == match written {
                Ok(m) => ReturnView::Reply(m@),
                Err(e) => ReturnView::Error(e@),
            },
    {
        match written {
            Ok(m) => Return::Reply(m),
            Err(e) => Return::Error(e),
        }
    }

    /// The answer to `LOAD` once the caller has read the file: the read
    /// items replace the stored keys and the answer is `OK`; on an error
    /// nothing changes and the error is the answer.
    pub fn finish_load(&mut self, read: Result<Vec<(String, String, Option<u64>)>, String>) -> (r:
        Return)
        ensures
            match read {
                Ok(items) => final(self)@ == old(self)@.with_stock(items_map(item_views(items@)))
                    && r@ == ok_answer(),
                Err(e) => final(self)@ == old(self)@ && r@ == ReturnView::Error(e@),
            },
    {
        match read {
            Ok(items) => {
                self.load_items(items);
                Return::Reply(text("OK"))
            },
            Err(e) => Return::Error(e),
        }
    }

    /// Every stored key with its value and expiration, each key once; what
    /// `SAVE` writes.
    pub fn items(&self) -> (r: Vec<(String, String, Option<u64>)>)
        ensures
            items_unique(item_views(r@)),
            items_map(item_views(r@)) == self@.stock,
    {
        self.stock.items()
    }

    /// Replaces the stored keys with `items`; what `LOAD` does with what it
    /// read.
    pub fn load_items(&mut self, items: Vec<(String, String, Option<u64>)>)
        ensures
            final(self)@ == old(self)@.with_stock(items_map(item_views(items@))),
    {
        self.stock.load_items(items)
    }

    pub fn cleanup_client(&mut self, client_id: u64)
        ensures
            final(self)@ == (DispatcherView {
                subscriptions: old(self)@.subscriptions.remove(client_id),
                ..old(self)@
            }),
    {
        self.client_subscriptions.remove(&client_id);
        assert(self@.subscriptions =~= old(self)@.subscriptions.remove(client_id));
    }
}

} // verus!
