//! The key-value store: string values, each with an optional expiration
//! instant in milliseconds since the Unix epoch. Expired keys are removed
//! lazily, when a read meets them.

use vstd::prelude::*;

use crate::text::{i64_to_string, int_decimal, parse_i64, parse_i64_str, string_views};

verus! {

/// One stored value.
pub struct Data {
    value: String,
    expiration: Option<u64>,
}

/// A stored value, by its characters.
pub struct DataView {
    pub value: Seq<char>,
    pub expiration: Option<u64>,
}

impl View for Data {
    type V = DataView;

    closed spec fn view(&self) -> DataView {
        DataView { value: self.value@, expiration: self.expiration }
    }
}

impl Data {
    pub fn new(value: String, expiration: Option<u64>) -> (d: Data)
        ensures
            d@ == (DataView { value: value@, expiration }),
    {
        Data { value, expiration }
    }

    pub fn value(&self) -> (v: &String)
        ensures
            v@ == self@.value,
    {
        &self.value
    }

    pub fn expiration(&self) -> (e: Option<u64>)
        ensures
            e == self@.expiration,
    {
        self.expiration
    }
}

/// The store's contents: a map from key to value.
pub type StockMap = Map<Seq<char>, DataView>;

/// `k` is present in `m` and has not expired at `now`.
pub open spec fn is_live(m: StockMap, k: Seq<char>, now: u64) -> bool {
    &&& m.contains_key(k)
    &&& m[k].expiration matches Some(e) ==> now <= e
}

/// `k` is present in `m` and its expiration lies before `now`.
pub open spec fn is_expired(m: StockMap, k: Seq<char>, now: u64) -> bool {
    &&& m.contains_key(k)
    &&& m[k].expiration matches Some(e)
    &&& now > e
}

/// `m` after a read of `k` at `now`: an expired `k` is gone.
pub open spec fn sweep(m: StockMap, k: Seq<char>, now: u64) -> StockMap {
    if is_expired(m, k, now) {
        m.remove(k)
    } else {
        m
    }
}

/// The value of `k` that a read at `now` sees.
pub open spec fn live_value(m: StockMap, k: Seq<char>, now: u64) -> Option<Seq<char>> {
    if is_live(m, k, now) {
        Some(m[k].value)
    } else {
        None
    }
}

/// The instant `secs` seconds after `now`, in milliseconds, saturated at
/// `u64::MAX`.
pub open spec fn expiry_after(now: u64, secs: u64) -> u64 {
    if now + secs * 1000 <= u64::MAX {
        (now + secs * 1000) as u64
    } else {
        u64::MAX
    }
}

/// The counter that an increment (`delta == 1`) or decrement
/// (`delta == -1`) at `now` starts from: the live value read as an `i64`.
pub open spec fn counter_base(m: StockMap, k: Seq<char>, now: u64) -> Option<i64> {
    match live_value(m, k, now) {
        Some(v) => parse_i64(v),
        None => None,
    }
}

/// The value after adding `delta` to the counter at `k`; a key that is
/// absent, expired or not a number counts from 0.
pub open spec fn counter_next(m: StockMap, k: Seq<char>, now: u64, delta: int) -> int {
    match counter_base(m, k, now) {
        Some(v) => v + delta,
        None => delta,
    }
}

/// The map after a counter update of `k` to `v`: a plain value that never
/// expires.
pub open spec fn with_counter(m: StockMap, k: Seq<char>, v: int) -> StockMap {
    m.insert(k, DataView { value: int_decimal(v), expiration: None })
}

/// The counter update at `now` stays within `i64`.
pub open spec fn counter_in_range(m: StockMap, k: Seq<char>, now: u64, delta: int) -> bool {
    i64::MIN <= counter_next(m, k, now, delta) <= i64::MAX
}

/// The error answered for a counter update that would leave `i64`.
pub open spec fn overflow_text() -> Seq<char> {
    "increment or decrement would overflow"@
}

/// What a counter update at `now` answers: the new value, or the overflow
/// error when it would leave `i64` (and then nothing changes).
pub open spec fn counter_result(m: StockMap, k: Seq<char>, now: u64, delta: int) -> Result<
    i64,
    Seq<char>,
> {
    if counter_in_range(m, k, now, delta) {
        Ok(counter_next(m, k, now, delta) as i64)
    } else {
        Err(overflow_text())
    }
}

/// The map after a counter update at `now`.
pub open spec fn counter_state(m: StockMap, k: Seq<char>, now: u64, delta: int) -> StockMap {
    if counter_in_range(m, k, now, delta) {
        with_counter(m, k, counter_next(m, k, now, delta))
    } else {
        m
    }
}

/// A counter result, with the error message by its characters.
pub open spec fn counter_view(r: Result<i64, String>) -> Result<i64, Seq<char>> {
    match r {
        Ok(v) => Ok(v),
        Err(e) => Err(e@),
    }
}

/// `m` after reads of each of `ks` in turn at `now`.
pub open spec fn sweep_keys(m: StockMap, ks: Seq<Seq<char>>, now: u64) -> StockMap
    decreases ks.len(),
{
    if ks.len() == 0 {
        m
    } else {
        sweep(sweep_keys(m, ks.drop_last(), now), ks.last(), now)
    }
}

/// The remaining lifetime of `key` at `now`, in milliseconds, when it is
/// live and has an expiration.
pub open spec fn ttl_of(m: StockMap, k: Seq<char>, now: u64) -> Option<u64> {
    if is_live(m, k, now) {
        match m[k].expiration {
            Some(e) => Some((e - now) as u64),
            None => None,
        }
    } else {
        None
    }
}

/// A triple (key, value, expiration) as it is saved and loaded.
pub type ItemView = (Seq<char>, Seq<char>, Option<u64>);

/// The map that a list of saved items describes; a later item with the same
/// key replaces an earlier one.
pub open spec fn items_map(items: Seq<ItemView>) -> StockMap
    decreases items.len(),
{
    if items.len() == 0 {
        Map::empty()
    } else {
        let it = items.last();
        items_map(items.drop_last()).insert(it.0, DataView { value: it.1, expiration: it.2 })
    }
}

pub open spec fn item_views(items: Seq<(String, String, Option<u64>)>) -> Seq<ItemView> {
    items.map_values(|it: (String, String, Option<u64>)| (it.0@, it.1@, it.2))
}

/// The current time, in milliseconds since the Unix epoch, or `None` when
/// the system clock reads before the epoch.
///
/// Calls `SystemTime::now()` and `duration_since(UNIX_EPOCH)`, whose `Err`
/// (the clock reads before the epoch) becomes `None`, and converts the
/// duration with `as_millis()`. Nothing is stated of the result: it is the
/// time.
#[verifier::external_body]
fn clock_millis() -> Option<u64> {
    match std::time::SystemTime::now().duration_since(std::time::UNIX_EPOCH) {
        Ok(d) => Some(d.as_millis() as u64),
        Err(_) => None,
    }
}

/// The time that reads use, in milliseconds since the Unix epoch; a clock
/// that reads before the epoch counts as the epoch itself.
pub(crate) fn now_millis() -> u64 {
    match clock_millis() {
        Some(ms) => ms,
        None => 0,
    }
}

/// No two entries have the same key.
spec fn unique_keys(es: Seq<(String, Data)>) -> bool {
    forall|i: int, j: int|
        0 <= i < es.len() && 0 <= j < es.len() && i != j ==> #[trigger] es[i].0@
            != #[trigger] es[j].0@
}

/// The map that a list of entries with unique keys describes.
spec fn entries_map(es: Seq<(String, Data)>) -> StockMap {
    Map::new(
        |k: Seq<char>| exists|i: int| 0 <= i < es.len() && es[i].0@ == k,
        |k: Seq<char>| es[choose|i: int| 0 <= i < es.len() && es[i].0@ == k].1@,
    )
}

proof fn lemma_entries_map_at(es: Seq<(String, Data)>, i: int)
    requires
        unique_keys(es),
        0 <= i < es.len(),
    ensures
        entries_map(es).contains_key(es[i].0@),
        entries_map(es)[es[i].0@] == es[i].1@,
{
    let k = es[i].0@;
    assert(exists|j: int| 0 <= j < es.len() && es[j].0@ == k);
    let j = choose|j: int| 0 <= j < es.len() && es[j].0@ == k;
    assert(j == i);
}

/// The key-value store.
pub struct Stock {
    entries: Vec<(String, Data)>,
}

impl Stock {
    /// No key occurs twice.
    #[verifier::type_invariant]
    spec fn keys_unique(&self) -> bool {
        unique_keys(self.entries@)
    }

}

impl View for Stock {
    type V = StockMap;

    closed spec fn view(&self) -> StockMap {
        entries_map(self.entries@)
    }
}

impl Stock {
    pub fn new() -> (s: Stock)
        ensures
            s@ == Map::<Seq<char>, DataView>::empty(),
    {
        let s = Stock { entries: Vec::new() };
        assert(s@ =~= Map::<Seq<char>, DataView>::empty());
        s
    }

    /// The index of `key`'s entry.
    fn find(&self, key: &String) -> (r: Option<usize>)
        ensures
            match r {
                Some(i) => i < self.entries@.len() && self.entries@[i as int].0@ == key@
                    && self@.contains_key(key@) && self@[key@] == self.entries@[i as int].1@,
                None => !self@.contains_key(key@),
            },
    {
        proof {
            use_type_invariant(self);
        }
        entries_find(&self.entries, key)
    }

    /// Stores `data` under `key`, replacing what was there.
    fn insert_entry(&mut self, key: String, data: Data)
        ensures
            final(self)@ == old(self)@.insert(key@, data@),
    {
        proof {
            use_type_invariant(&*self);
        }
        let mut es: Vec<(String, Data)> = Vec::new();
        std::mem::swap(&mut es, &mut self.entries);
        entries_insert(&mut es, key, data);
        self.entries = es;
    }

    /// Removes the entry at index `i`.
    fn remove_at(&mut self, i: usize) -> (d: Data)
        requires
            i < old(self).entries@.len(),
        ensures
            old(self)@.contains_key(old(self).entries@[i as int].0@),
            d@ == old(self)@[old(self).entries@[i as int].0@],
            final(self)@ == old(self)@.remove(old(self).entries@[i as int].0@),
    {
        proof {
            use_type_invariant(&*self);
            lemma_entries_map_at(self.entries@, i as int);
        }
        let mut es: Vec<(String, Data)> = Vec::new();
        std::mem::swap(&mut es, &mut self.entries);
        let d = entries_remove(&mut es, i);
        self.entries = es;
        d
    }

    /// Stores `value` under `key`, with no expiration.
    pub fn set(&mut self, key: String, value: String)
        ensures
            final(self)@ == old(self)@.insert(key@, DataView { value: value@, expiration: None }),
    {
        self.insert_entry(key, Data { value, expiration: None });
    }

    /// Stores `value` under `key`, to expire `secs` seconds after `now`.
    pub fn set_with_expiration_at(&mut self, key: String, value: String, secs: u64, now: u64)
        ensures
            final(self)@ == old(self)@.insert(
                key@,
                DataView { value: value@, expiration: Some(expiry_after(now, secs)) },
            ),
    {
        let expiration = match secs.checked_mul(1000) {
            Some(ms) => match now.checked_add(ms) {
                Some(e) => e,
                None => u64::MAX,
            },
            None => u64::MAX,
        };
        self.insert_entry(key, Data { value, expiration: Some(expiration) });
    }

    /// Stores `value` under `key`, to expire `secs` seconds from now.
    pub fn set_with_expiration(&mut self, key: String, value: String, secs: u64)
        ensures
            exists|now: u64|
                final(self)@ == old(self)@.insert(
                    key@,
                    DataView { value: value@, expiration: Some(#[trigger] expiry_after(now, secs)) },
                ),
    {
        let now = now_millis();
        self.set_with_expiration_at(key, value, secs, now);
    }

    /// Reads `key` at `now`; an expired key is removed and reads as absent.
    pub fn get_at(&mut self, key: &String, now: u64) -> (r: Option<&String>)
        ensures
            final(self)@ == sweep(old(self)@, key@, now),
            match r {
                Some(v) => live_value(old(self)@, key@, now) == Some(v@),
                None => live_value(old(self)@, key@, now) is None,
            },
    {
        match self.find(key) {
            None => None,
            Some(i) => {
                let expired = match self.entries[i].1.expiration {
                    Some(e) => now > e,
                    None => false,
                };
                if expired {
                    self.remove_at(i);
                    None
                } else {
                    Some(&self.entries[i].1.value)
                }
            },
        }
    }

    /// Reads `key` now; an expired key is removed and reads as absent.
    pub fn get(&mut self, key: &String) -> (r: Option<&String>)
        ensures
            exists|now: u64|
                final(self)@ == sweep(old(self)@, key@, now) && match r {
                    Some(v) => live_value(old(self)@, key@, now) == Some(v@),
                    None => live_value(old(self)@, key@, now) is None,
                },
    {
        let now = now_millis();
        self.get_at(key, now)
    }

    /// Removes `key`, expired or not, and hands back its value.
    pub fn del(&mut self, key: &String) -> (r: Option<String>)
        ensures
            final(self)@ == old(self)@.remove(key@),
            match r {
                Some(v) => old(self)@.contains_key(key@) && v@ == old(self)@[key@].value,
                None => !old(self)@.contains_key(key@),
            },
    {
        match self.find(key) {
            None => {
                assert(old(self)@.remove(key@) =~= old(self)@);
                None
            },
            Some(i) => {
                let d = self.remove_at(i);
                Some(d.value)
            },
        }
    }

    /// Removes every key.
    pub fn drop(&mut self)
        ensures
            final(self)@ == Map::<Seq<char>, DataView>::empty(),
    {
        self.entries = Vec::new();
        assert(self@ =~= Map::<Seq<char>, DataView>::empty());
    }

    /// Adds `delta` (1 or -1) to the counter at `key` as read at `now`,
    /// and stores the result as a value that never expires.
    fn add_at(&mut self, key: String, now: u64, delta: i64) -> (r: i64)
        requires
            delta == 1 || delta == -1,
            i64::MIN <= counter_next(old(self)@, key@, now, delta as int) <= i64::MAX,
        ensures
            r == counter_next(old(self)@, key@, now, delta as int),
            final(self)@ == with_counter(old(self)@, key@, r as int),
    {
        let current = match self.find(&key) {
            None => None,
            Some(i) => {
                let live = match self.entries[i].1.expiration {
                    Some(e) => now <= e,
                    None => true,
                };
                if live {
                    parse_i64_str(self.entries[i].1.value.as_str())
                } else {
                    None
                }
            },
        };
        let new_value = match current {
            Some(v) => v + delta,
            None => delta,
        };
        self.insert_entry(key, Data { value: i64_to_string(new_value), expiration: None });
        new_value
    }

    /// Whether adding `delta` (1 or -1) to the counter at `key` as read at
    /// `now` stays within `i64`.
    pub fn can_add_at(&self, key: &String, delta: i64, now: u64) -> (r: bool)
        requires
            delta == 1 || delta == -1,
        ensures
            r == counter_in_range(self@, key@, now, delta as int),
    {
        match self.find(key) {
            None => true,
            Some(i) => {
                let live = match self.entries[i].1.expiration {
                    Some(e) => now <= e,
                    None => true,
                };
                if !live {
                    return true;
                }
                match parse_i64_str(self.entries[i].1.value.as_str()) {
                    Some(v) => {
                        if delta == 1 {
                            v < i64::MAX
                        } else {
                            v > i64::MIN
                        }
                    },
                    None => true,
                }
            },
        }
    }

    /// Adds `delta` at `now` when the result fits, and answers the overflow
    /// error otherwise.
    fn checked_add_at(&mut self, key: String, now: u64, delta: i64) -> (r: Result<i64, String>)
        requires
            delta == 1 || delta == -1,
        ensures
            counter_view(r) == counter_result(old(self)@, key@, now, delta as int),
            final(self)@ == counter_state(old(self)@, key@, now, delta as int),
    {
        if self.can_add_at(&key, delta, now) {
            Ok(self.add_at(key, now, delta))
        } else {
            Err(String::from_str("increment or decrement would overflow"))
        }
    }

    /// Increments the counter at `key` as read at `now`; a key that is
    /// absent, expired or not a number counts from 0.
    pub fn incr_at(&mut self, key: String, now: u64) -> (r: Result<i64, String>)
        requires
            counter_next(old(self)@, key@, now, 1) <= i64::MAX,
        ensures
            r == Ok::<i64, String>(counter_next(old(self)@, key@, now, 1) as i64),
            final(self)@ == with_counter(old(self)@, key@, counter_next(old(self)@, key@, now, 1)),
    {
        Ok(self.add_at(key, now, 1))
    }

    /// Decrements the counter at `key` as read at `now`; a key that is
    /// absent, expired or not a number counts from 0.
    pub fn decr_at(&mut self, key: String, now: u64) -> (r: Result<i64, String>)
        requires
            counter_next(old(self)@, key@, now, -1) >= i64::MIN,
        ensures
            r == Ok::<i64, String>(counter_next(old(self)@, key@, now, -1) as i64),
            final(self)@ == with_counter(old(self)@, key@, counter_next(old(self)@, key@, now, -1)),
    {
        Ok(self.add_at(key, now, -1))
    }

    /// Increments the counter at `key` as read now. Where the increment
    /// would pass `i64::MAX`, which the time of the read decides, nothing
    /// changes and the answer is the overflow error.
    pub fn incr(&mut self, key: String) -> (r: Result<i64, String>)
        ensures
            exists|now: u64|
                counter_view(r) == #[trigger] counter_result(old(self)@, key@, now, 1)
                    && final(self)@ == counter_state(old(self)@, key@, now, 1),
    {
        let now = now_millis();
        self.checked_add_at(key, now, 1)
    }

    /// Decrements the counter at `key` as read now. Where the decrement
    /// would pass `i64::MIN`, nothing changes and the answer is the
    /// overflow error.
    pub fn decr(&mut self, key: String) -> (r: Result<i64, String>)
        ensures
            exists|now: u64|
                counter_view(r) == #[trigger] counter_result(old(self)@, key@, now, -1)
                    && final(self)@ == counter_state(old(self)@, key@, now, -1),
    {
        let now = now_millis();
        self.checked_add_at(key, now, -1)
    }

    /// The remaining lifetime of `key` at `now`, in milliseconds; `None` for
    /// a key that is absent, expired (and then removed) or never expires.
    pub fn ttl_at(&mut self, key: String, now: u64) -> (r: Option<u64>)
        ensures
            r == ttl_of(old(self)@, key@, now),
            final(self)@ == sweep(old(self)@, key@, now),
    {
        match self.find(&key) {
            None => None,
            Some(i) => match self.entries[i].1.expiration {
                Some(e) => {
                    if now > e {
                        self.remove_at(i);
                        None
                    } else {
                        Some(e - now)
                    }
                },
                None => None,
            },
        }
    }

    /// The remaining lifetime of `key` now, in milliseconds.
    pub fn ttl(&mut self, key: String) -> (r: Option<u64>)
        ensures
            exists|now: u64|
                r == #[trigger] ttl_of(old(self)@, key@, now) && final(self)@ == sweep(
                    old(self)@,
                    key@,
                    now,
                ),
    {
        let now = now_millis();
        self.ttl_at(key, now)
    }

    /// Whether each of `keys` is live at `now`, in order; expired keys
    /// among them are removed.
    pub fn keys_exist_at(&mut self, keys: Vec<String>, now: u64) -> (r: Vec<(String, bool)>)
        ensures
            r@.len() == keys@.len(),
            forall|i: int|
                0 <= i < keys@.len() ==> (#[trigger] r@[i]).0@ == keys@[i]@ && r@[i].1 == is_live(
                    old(self)@,
                    keys@[i]@,
                    now,
                ),
            final(self)@ == sweep_keys(old(self)@, string_views(keys@), now),
    {
        let ghost ks = string_views(keys@);
        let mut r: Vec<(String, bool)> = Vec::new();
        let mut i: usize = 0;
        while i < keys.len()
            invariant
                i <= keys@.len(),
                ks == string_views(keys@),
                r@.len() == i,
                self@ == sweep_keys(old(self)@, ks.take(i as int), now),
                forall|j: int|
                    0 <= j < i ==> (#[trigger] r@[j]).0@ == keys@[j]@ && r@[j].1 == is_live(
                        old(self)@,
                        keys@[j]@,
                        now,
                    ),
            decreases keys@.len() - i,
        {
            proof {
                lemma_sweep_keys_live(old(self)@, ks.take(i as int), keys@[i as int]@, now);
            }
            let live = self.get_at(&keys[i], now).is_some();
            assert(ks.take(i + 1).drop_last() =~= ks.take(i as int));
            r.push((keys[i].clone(), live));
            i = i + 1;
        }
        assert(ks.take(i as int) =~= ks);
        r
    }

    /// Whether each of `keys` is live now, in order.
    pub fn keys_exist(&mut self, keys: Vec<String>) -> (r: Vec<(String, bool)>)
        ensures
            exists|now: u64|
                {
                    &&& r@.len() == keys@.len()
                    &&& forall|i: int|
                        0 <= i < keys@.len() ==> (#[trigger] r@[i]).0@ == keys@[i]@ && r@[i].1
                            == is_live(old(self)@, keys@[i]@, now)
                    &&& final(self)@ == #[trigger] sweep_keys(
                        old(self)@,
                        string_views(keys@),
                        now,
                    )
                },
    {
        let now = now_millis();
        self.keys_exist_at(keys, now)
    }

    /// Every stored key with its value and expiration, each key once.
    pub fn items(&self) -> (r: Vec<(String, String, Option<u64>)>)
        ensures
            items_unique(item_views(r@)),
            items_map(item_views(r@)) == self@,
    {
        proof {
            use_type_invariant(self);
        }
        let mut r: Vec<(String, String, Option<u64>)> = Vec::new();
        let mut i: usize = 0;
        while i < self.entries.len()
            invariant
                i <= self.entries@.len(),
                unique_keys(self.entries@),
                r@.len() == i,
                forall|j: int|
                    0 <= j < i ==> #[trigger] item_views(r@)[j] == (
                        self.entries@[j].0@,
                        self.entries@[j].1@.value,
                        self.entries@[j].1@.expiration,
                    ),
            decreases self.entries@.len() - i,
        {
            let e = &self.entries[i];
            let ghost before = r@;
            r.push((e.0.clone(), e.1.value.clone(), e.1.expiration));
            assert(item_views(r@) =~= item_views(before).push(
                (e.0@, e.1@.value, e.1@.expiration),
            ));
            i = i + 1;
        }
        proof {
            let iv = item_views(r@);
            assert forall|a: int, b: int|
                0 <= a < iv.len() && 0 <= b < iv.len() && a != b implies #[trigger] iv[a].0
                != #[trigger] iv[b].0 by {
                assert(self.entries@[a].0@ != self.entries@[b].0@);
            }
            lemma_items_map_unique(iv);
            assert forall|k: Seq<char>| #![auto]
                items_map(iv).contains_key(k) implies self@.contains_key(k) && items_map(iv)[k]
                == self@[k] by {
                let j = choose|j: int| 0 <= j < iv.len() && iv[j].0 == k;
                lemma_entries_map_at(self.entries@, j);
            }
            assert forall|k: Seq<char>| #![auto]
                self@.contains_key(k) implies items_map(iv).contains_key(k) by {
                let j = choose|j: int| 0 <= j < self.entries@.len() && self.entries@[j].0@ == k;
                assert(iv[j].0 == k);
            }
            assert(items_map(iv) =~= self@);
        }
        r
    }

    /// Replaces the contents with `items`; of two items with one key, the
    /// later one stays.
    pub fn load_items(&mut self, items: Vec<(String, String, Option<u64>)>)
        ensures
            final(self)@ == items_map(item_views(items@)),
    {
        self.drop();
        let ghost iv = item_views(items@);
        let mut i: usize = 0;
        while i < items.len()
            invariant
                i <= items@.len(),
                iv == item_views(items@),
                self@ == items_map(iv.take(i as int)),
            decreases items@.len() - i,
        {
            let it = &items[i];
            self.insert_entry(it.0.clone(), Data { value: it.1.clone(), expiration: it.2 });
            assert(iv.take(i + 1).drop_last() =~= iv.take(i as int));
            i = i + 1;
        }
        assert(iv.take(i as int) =~= iv);
    }
}

/// No two items have the same key.
pub open spec fn items_unique(items: Seq<ItemView>) -> bool {
    forall|a: int, b: int|
        0 <= a < items.len() && 0 <= b < items.len() && a != b ==> #[trigger] items[a].0
            != #[trigger] items[b].0
}

/// With unique keys, each item is found in the map, and nothing else is.
proof fn lemma_items_map_unique(items: Seq<ItemView>)
    requires
        items_unique(items),
    ensures
        forall|j: int|
            0 <= j < items.len() ==> items_map(items).contains_key(#[trigger] items[j].0)
                && items_map(items)[items[j].0] == (DataView {
                value: items[j].1,
                expiration: items[j].2,
            }),
        forall|k: Seq<char>|
            #[trigger] items_map(items).contains_key(k) ==> exists|j: int|
                0 <= j < items.len() && items[j].0 == k,
    decreases items.len(),
{
    if items.len() > 0 {
        let p = items.drop_last();
        assert forall|a: int, b: int|
            0 <= a < p.len() && 0 <= b < p.len() && a != b implies #[trigger] p[a].0
            != #[trigger] p[b].0 by {
            assert(items[a].0 != items[b].0);
        }
        lemma_items_map_unique(p);
        assert forall|j: int| 0 <= j < items.len() implies items_map(items).contains_key(
            #[trigger] items[j].0,
        ) && items_map(items)[items[j].0] == (DataView {
            value: items[j].1,
            expiration: items[j].2,
        }) by {
            if j < items.len() - 1 {
                assert(p[j] == items[j]);
                assert(items[j].0 != items.last().0);
            }
        }
        assert forall|k: Seq<char>| #[trigger] items_map(items).contains_key(k) implies exists|j: int|
            0 <= j < items.len() && items[j].0 == k by {
            if k != items.last().0 {
                assert(items_map(p).contains_key(k));
                let j = choose|j: int| 0 <= j < p.len() && p[j].0 == k;
                assert(items[j] == p[j]);
            } else {
                assert(items[items.len() - 1].0 == k);
            }
        }
    }
}

/// Reads at `now` never change which keys are live.
proof fn lemma_sweep_keys_live(m: StockMap, ks: Seq<Seq<char>>, k: Seq<char>, now: u64)
    ensures
        is_live(sweep_keys(m, ks, now), k, now) == is_live(m, k, now),
        sweep_keys(m, ks, now).contains_key(k) ==> sweep_keys(m, ks, now)[k] == m[k],
    decreases ks.len(),
{
    if ks.len() > 0 {
        lemma_sweep_keys_live(m, ks.drop_last(), k, now);
    }
}

fn entries_find(es: &Vec<(String, Data)>, key: &String) -> (r: Option<usize>)
    requires
        unique_keys(es@),
    ensures
        match r {
            Some(i) => i < es@.len() && es@[i as int].0@ == key@ && entries_map(es@).contains_key(
                key@,
            ) && entries_map(es@)[key@] == es@[i as int].1@,
            None => !entries_map(es@).contains_key(key@),
        },
{
    let mut i: usize = 0;
    while i < es.len()
        invariant
            i <= es@.len(),
            unique_keys(es@),
            forall|j: int| 0 <= j < i ==> es@[j].0@ != key@,
        decreases es@.len() - i,
    {
        if es[i].0 == *key {
            proof {
                lemma_entries_map_at(es@, i as int);
            }
            return Some(i);
        }
        i = i + 1;
    }
    None
}

fn entries_insert(v: &mut Vec<(String, Data)>, key: String, data: Data)
    requires
        unique_keys(old(v)@),
    ensures
        unique_keys(final(v)@),
        entries_map(final(v)@) == entries_map(old(v)@).insert(key@, data@),
{
    let ghost old_es = v@;
    let ghost k = key@;
    let ghost d = data@;
    match entries_find(v, &key) {
        Some(i) => {
            v.set(i, (key, data));
            proof {
                let es = v@;
                assert(es == old_es.update(i as int, es[i as int]));
                assert forall|a: int, b: int|
                    0 <= a < es.len() && 0 <= b < es.len() && a != b implies #[trigger] es[a].0@
                    != #[trigger] es[b].0@ by {
                    if a != i && b != i {
                        assert(old_es[a].0@ != old_es[b].0@);
                    } else if a == i {
                        assert(old_es[b].0@ != old_es[i as int].0@);
                    } else {
                        assert(old_es[a].0@ != old_es[i as int].0@);
                    }
                }
                assert forall|key2: Seq<char>| #![auto]
                    entries_map(es).contains_key(key2) implies entries_map(old_es).insert(
                    k,
                    d,
                ).contains_key(key2) && entries_map(es)[key2] == entries_map(old_es).insert(
                    k,
                    d,
                )[key2] by {
                    let j = choose|j: int| 0 <= j < es.len() && es[j].0@ == key2;
                    lemma_entries_map_at(es, j);
                    if j != i {
                        lemma_entries_map_at(old_es, j);
                    }
                }
                assert forall|key2: Seq<char>| #![auto]
                    entries_map(old_es).insert(k, d).contains_key(
                    key2,
                ) implies entries_map(es).contains_key(key2) by {
                    if key2 != k {
                        let j = choose|j: int| 0 <= j < old_es.len() && old_es[j].0@ == key2;
                        lemma_entries_map_at(es, j);
                    } else {
                        lemma_entries_map_at(es, i as int);
                    }
                }
                assert(entries_map(es) =~= entries_map(old_es).insert(k, d));
            }
        },
        None => {
            v.push((key, data));
            proof {
                let es = v@;
                let n = old_es.len() as int;
                assert(es == old_es.push(es[n]));
                assert forall|a: int, b: int|
                    0 <= a < es.len() && 0 <= b < es.len() && a != b implies #[trigger] es[a].0@
                    != #[trigger] es[b].0@ by {
                    if a != n && b != n {
                        assert(old_es[a].0@ != old_es[b].0@);
                    } else if a == n {
                        lemma_entries_map_at(old_es, b);
                    } else {
                        lemma_entries_map_at(old_es, a);
                    }
                }
                assert forall|key2: Seq<char>| #![auto]
                    entries_map(es).contains_key(key2) implies entries_map(old_es).insert(
                    k,
                    d,
                ).contains_key(key2) && entries_map(es)[key2] == entries_map(old_es).insert(
                    k,
                    d,
                )[key2] by {
                    let j = choose|j: int| 0 <= j < es.len() && es[j].0@ == key2;
                    lemma_entries_map_at(es, j);
                    if j != n {
                        lemma_entries_map_at(old_es, j);
                    }
                }
                assert forall|key2: Seq<char>| #![auto]
                    entries_map(old_es).insert(k, d).contains_key(
                    key2,
                ) implies entries_map(es).contains_key(key2) by {
                    if key2 != k {
                        let j = choose|j: int| 0 <= j < old_es.len() && old_es[j].0@ == key2;
                        lemma_entries_map_at(es, j);
                    } else {
                        lemma_entries_map_at(es, n);
                    }
                }
                assert(entries_map(es) =~= entries_map(old_es).insert(k, d));
            }
        },
    }
}

fn entries_remove(v: &mut Vec<(String, Data)>, i: usize) -> (d: Data)
    requires
        unique_keys(old(v)@),
        i < old(v)@.len(),
    ensures
        unique_keys(final(v)@),
        d == old(v)@[i as int].1,
        entries_map(final(v)@) == entries_map(old(v)@).remove(old(v)@[i as int].0@),
{
    let ghost old_es = v@;
    let ghost k = old_es[i as int].0@;
    let (_, d) = v.remove(i);
    proof {
        let es = v@;
        assert forall|a: int, b: int|
            0 <= a < es.len() && 0 <= b < es.len() && a != b implies #[trigger] es[a].0@
            != #[trigger] es[b].0@ by {
            let oa = if a < i { a } else { a + 1 };
            let ob = if b < i { b } else { b + 1 };
            assert(es[a] == old_es[oa]);
            assert(es[b] == old_es[ob]);
        }
        assert forall|key2: Seq<char>| #![auto]
            entries_map(es).contains_key(key2) implies entries_map(old_es).remove(k).contains_key(
            key2,
        ) && entries_map(es)[key2] == entries_map(old_es).remove(k)[key2] by {
            let j = choose|j: int| 0 <= j < es.len() && es[j].0@ == key2;
            lemma_entries_map_at(es, j);
            let oj = if j < i { j } else { j + 1 };
            assert(es[j] == old_es[oj]);
            lemma_entries_map_at(old_es, oj);
        }
        assert forall|key2: Seq<char>| #![auto]
            entries_map(old_es).remove(k).contains_key(key2) implies entries_map(es).contains_key(
            key2,
        ) by {
            let j = choose|j: int| 0 <= j < old_es.len() && old_es[j].0@ == key2;
            assert(j != i);
            let nj = if j < i { j } else { j - 1 };
            assert(es[nj] == old_es[j]);
            lemma_entries_map_at(es, nj);
        }
        assert(entries_map(es) =~= entries_map(old_es).remove(k));
    }
    d
}

} // verus!
