//! Properties of the library that span several calls.

use vstd::prelude::*;

use crate::channel_manager::keeps_senders;
use crate::dispatcher::{
    counter_answer, del_answer, exists_answer, get_answer, ok_answer, publish_answer,
    published_text, set_entry, step, subscribed, ttl_answer, unsubscribe_answer,
    unsubscribe_state, DispatcherView,
};
use crate::reply::ReturnView;
use crate::session::{action_for, listens_after, on_event, ClientActionView, ClientEventView};
use crate::request::{exp_index_from, parse_spec, RequestView};
use crate::stock::{
    counter_base, counter_next, expiry_after, is_live, items_map, items_unique, live_value,
    counter_state, overflow_text, sweep, sweep_keys,
    with_counter, DataView, ItemView, StockMap,
};
use crate::text::{
    all_digits, digit_char, digits_value, int_decimal, is_digit, is_ws, lower_code, lower_is,
    nat_decimal, parse_i64, upper_code, upper_is, words,
};

verus! {

proof fn lemma_nat_decimal(n: nat)
    ensures
        nat_decimal(n).len() > 0,
        all_digits(nat_decimal(n)),
        digits_value(nat_decimal(n)) == n,
    decreases n,
{
    if n < 10 {
        let s = nat_decimal(n);
        assert(s == seq![digit_char(n)]);
        assert(digit_char(n) as u32 == 48 + n);
        assert(s.drop_last() =~= Seq::<char>::empty());
        assert(digits_value(Seq::<char>::empty()) == 0);
        assert(is_digit(digit_char(n)));
    } else {
        lemma_nat_decimal(n / 10);
        let s = nat_decimal(n);
        assert(s.drop_last() =~= nat_decimal(n / 10));
        assert(is_digit(digit_char(n % 10)));
        assert(digit_char(n % 10) as u32 == 48 + n % 10);
        assert(all_digits(s)) by {
            assert forall|i: int| 0 <= i < s.len() implies is_digit(#[trigger] s[i]) by {
                if i < s.len() - 1 {
                    assert(s[i] == nat_decimal(n / 10)[i]);
                }
            }
        }
        assert((n / 10) * 10 + n % 10 == n) by (nonlinear_arith);
    }
}

/// Printing an `i64` in decimal and reading it back gives the same number.
pub proof fn law_decimal_round_trip(v: i64)
    ensures
        parse_i64(int_decimal(v as int)) == Some(v),
{
    if v < 0 {
        let m = (0 - v) as nat;
        lemma_nat_decimal(m);
        let s = int_decimal(v as int);
        assert(s.drop_first() =~= nat_decimal(m));
    } else {
        lemma_nat_decimal(v as nat);
        let s = nat_decimal(v as nat);
        assert(is_digit(s[0]));
    }
}

/// A read gives back what was written: after `SET k v`, `GET k` answers
/// `v`, from any client and at any later time when the value carries no
/// expiration.
pub proof fn law_get_after_set(
    s: DispatcherView,
    k: Seq<char>,
    v: Seq<char>,
    c1: u64,
    c2: u64,
    now1: u64,
    now2: u64,
    t: DispatcherView,
    r1: ReturnView,
    u: DispatcherView,
    r2: ReturnView,
)
    requires
        step(s, RequestView::SET { key: k, value: v, expiration: None }, c1, now1, t, r1),
        step(t, RequestView::GET(k), c2, now2, u, r2),
    ensures
        r1 == ok_answer(),
        r2 == ReturnView::Reply(v),
{
}

/// A value written with `EXP secs` is read back until `secs` seconds have
/// passed, and is gone after that: the read answers not-found and removes
/// the key.
pub proof fn law_expiration(
    s: DispatcherView,
    k: Seq<char>,
    v: Seq<char>,
    secs: u64,
    c: u64,
    now1: u64,
    now2: u64,
    t: DispatcherView,
    r1: ReturnView,
    u: DispatcherView,
    r2: ReturnView,
)
    requires
        step(s, RequestView::SET { key: k, value: v, expiration: Some(secs) }, c, now1, t, r1),
        step(t, RequestView::GET(k), c, now2, u, r2),
    ensures
        now2 <= expiry_after(now1, secs) ==> r2 == ReturnView::Reply(v),
        now2 > expiry_after(now1, secs) ==> r2 == ReturnView::NotFound(k) && !u.stock.contains_key(
            k,
        ),
{
}

/// While a value written with `EXP secs` lives, `TTL` answers the
/// milliseconds left, which never exceed `secs` seconds; a value written
/// without `EXP` answers `None`.
pub proof fn law_ttl_after_set(
    s: DispatcherView,
    k: Seq<char>,
    v: Seq<char>,
    expiration: Option<u64>,
    c: u64,
    now1: u64,
    now2: u64,
    t: DispatcherView,
    r1: ReturnView,
    u: DispatcherView,
    r2: ReturnView,
)
    requires
        step(s, RequestView::SET { key: k, value: v, expiration }, c, now1, t, r1),
        step(t, RequestView::TTL(k), c, now2, u, r2),
        now1 <= now2,
    ensures
        expiration is None ==> r2 == ReturnView::Reply("None"@),
        expiration matches Some(secs) ==> now2 <= expiry_after(now1, secs) ==> r2
            == ReturnView::Reply(
            nat_decimal((expiry_after(now1, secs) - now2) as nat) + "ms"@,
        ) && expiry_after(now1, secs) - now2 <= secs * 1000,
{
}

/// After `DEL k`, `GET k` answers not-found.
pub proof fn law_get_after_del(
    s: DispatcherView,
    k: Seq<char>,
    c: u64,
    now1: u64,
    now2: u64,
    t: DispatcherView,
    r1: ReturnView,
    u: DispatcherView,
    r2: ReturnView,
)
    requires
        step(s, RequestView::DEL(k), c, now1, t, r1),
        step(t, RequestView::GET(k), c, now2, u, r2),
    ensures
        r2 == ReturnView::NotFound(k),
{
}

/// `DEL` answers `OK` exactly when the key is present and has not expired,
/// whatever expiration it carries, and not-found otherwise; either way the
/// key is gone afterwards and nothing else changes.
pub proof fn law_del_answers_ok_for_live_keys(
    s: DispatcherView,
    k: Seq<char>,
    c: u64,
    now: u64,
    t: DispatcherView,
    r: ReturnView,
)
    requires
        step(s, RequestView::DEL(k), c, now, t, r),
    ensures
        s.stock.contains_key(k) && (s.stock[k].expiration matches Some(e) ==> now <= e) ==> r
            == ReturnView::Reply("OK"@),
        !s.stock.contains_key(k) || (s.stock[k].expiration matches Some(e) && now > e) ==> r
            == ReturnView::NotFound(k),
        !t.stock.contains_key(k),
        forall|k2: Seq<char>| k2 != k ==> t.stock.contains_key(k2) == s.stock.contains_key(k2),
        t.channels == s.channels,
        t.subscriptions == s.subscriptions,
{
}

/// A key written with `SET k v`, with or without `EXP secs`, is deleted
/// with the answer `OK` by a `DEL k` that comes before the expiration ends.
pub proof fn law_del_after_set(
    s: DispatcherView,
    k: Seq<char>,
    v: Seq<char>,
    expiration: Option<u64>,
    c1: u64,
    c2: u64,
    now1: u64,
    now2: u64,
    t: DispatcherView,
    r1: ReturnView,
    u: DispatcherView,
    r2: ReturnView,
)
    requires
        step(s, RequestView::SET { key: k, value: v, expiration }, c1, now1, t, r1),
        step(t, RequestView::DEL(k), c2, now2, u, r2),
        expiration matches Some(secs) ==> now2 <= now1 + secs * 1000,
    ensures
        r2 == ReturnView::Reply("OK"@),
        !u.stock.contains_key(k),
{
}

/// After `DROP`, every key reads as not-found.
pub proof fn law_drop_clears(
    s: DispatcherView,
    k: Seq<char>,
    c: u64,
    now1: u64,
    now2: u64,
    t: DispatcherView,
    r1: ReturnView,
    u: DispatcherView,
    r2: ReturnView,
)
    requires
        step(s, RequestView::DROP(), c, now1, t, r1),
        step(t, RequestView::GET(k), c, now2, u, r2),
    ensures
        r1 == ok_answer(),
        r2 == ReturnView::NotFound(k),
{
}

/// `INCR` answers the counter plus one (counting from 0 for a key that is
/// absent, expired or not a number), and the stored result is what the next
/// `INCR` counts on from; past `i64::MAX` it answers the overflow error.
pub proof fn law_incr_counts_on(
    s: DispatcherView,
    k: Seq<char>,
    c: u64,
    now1: u64,
    now2: u64,
    t: DispatcherView,
    r1: ReturnView,
    u: DispatcherView,
    r2: ReturnView,
)
    requires
        counter_next(s.stock, k, now1, 1) <= i64::MAX,
        step(s, RequestView::INCR(k), c, now1, t, r1),
        step(t, RequestView::INCR(k), c, now2, u, r2),
    ensures
        r1 == ReturnView::Reply(int_decimal(counter_next(s.stock, k, now1, 1))),
        counter_next(s.stock, k, now1, 1) < i64::MAX ==> r2 == ReturnView::Reply(
            int_decimal(counter_next(s.stock, k, now1, 1) + 1),
        ),
        counter_next(s.stock, k, now1, 1) == i64::MAX ==> r2 == ReturnView::Error(overflow_text())
            && u == t,
{
    let n = counter_next(s.stock, k, now1, 1);
    law_decimal_round_trip(n as i64);
    assert(counter_base(t.stock, k, now2) == Some(n as i64));
}

/// `DECR` undoes `INCR`: the counter comes back to where it was, or to 0
/// when there was no number.
pub proof fn law_decr_undoes_incr(
    s: DispatcherView,
    k: Seq<char>,
    c: u64,
    now1: u64,
    now2: u64,
    t: DispatcherView,
    r1: ReturnView,
    u: DispatcherView,
    r2: ReturnView,
)
    requires
        counter_next(s.stock, k, now1, 1) <= i64::MAX,
        step(s, RequestView::INCR(k), c, now1, t, r1),
        step(t, RequestView::DECR(k), c, now2, u, r2),
    ensures
        r2 == ReturnView::Reply(
            int_decimal(
                match counter_base(s.stock, k, now1) {
                    Some(v) => v as int,
                    None => 0,
                },
            ),
        ),
{
    let n = counter_next(s.stock, k, now1, 1);
    law_decimal_round_trip(n as i64);
    assert(counter_base(t.stock, k, now2) == Some(n as i64));
}

/// Reads never change what any key reads as: `GET`, `TTL` and `EXISTS`
/// only drop keys that have already expired.
pub proof fn law_reads_keep_contents(m: StockMap, k: Seq<char>, ks: Seq<Seq<char>>, now: u64, k2: Seq<char>)
    ensures
        live_value(sweep(m, k, now), k2, now) == live_value(m, k2, now),
        live_value(sweep_keys(m, ks, now), k2, now) == live_value(m, k2, now),
    decreases ks.len(),
{
    if ks.len() > 0 {
        law_reads_keep_contents(m, ks.last(), ks.drop_last(), now, k2);
        let m2 = sweep_keys(m, ks.drop_last(), now);
        law_reads_keep_contents(m2, ks.last(), Seq::empty(), now, k2);
    }
}

/// A client that subscribes to a channel and then unsubscribes from it is
/// answered `Unsubscribe`, and is subscribed to nothing afterwards.
pub proof fn law_subscribe_then_unsubscribe(
    s: DispatcherView,
    ch: Seq<char>,
    c: u64,
    now1: u64,
    now2: u64,
    t: DispatcherView,
    r1: ReturnView,
    u: DispatcherView,
    r2: ReturnView,
)
    requires
        step(s, RequestView::SUB(ch), c, now1, t, r1),
        step(t, RequestView::UNSUB(ch), c, now2, u, r2),
    ensures
        r1 == ReturnView::Subscribe,
        r2 == ReturnView::Unsubscribe,
        !u.subscriptions.contains_key(c),
        u.channels.contains(ch),
{
}

/// A client listens to one channel at a time: subscribing to a second
/// channel ends the first subscription.
pub proof fn law_one_channel_per_client(
    s: DispatcherView,
    ch1: Seq<char>,
    ch2: Seq<char>,
    c: u64,
    now1: u64,
    now2: u64,
    now3: u64,
    t: DispatcherView,
    r1: ReturnView,
    u: DispatcherView,
    r2: ReturnView,
    w: DispatcherView,
    r3: ReturnView,
)
    requires
        ch1 != ch2,
        step(s, RequestView::SUB(ch1), c, now1, t, r1),
        step(t, RequestView::SUB(ch2), c, now2, u, r2),
        step(u, RequestView::UNSUB(ch1), c, now3, w, r3),
    ensures
        r3 == ReturnView::Error("Not subscribed to channel '"@ + ch1 + "'"@),
        w == u,
{
}

/// No request takes a channel's sender away or replaces it: whoever listens
/// to a channel keeps receiving what is later published on it.
pub proof fn law_requests_keep_senders(
    s: DispatcherView,
    req: RequestView,
    c: u64,
    now: u64,
    t: DispatcherView,
    r: ReturnView,
)
    requires
        step(s, req, c, now, t, r),
    ensures
        keeps_senders(s.senders, t.senders),
        s.channels.subset_of(t.channels),
{
}

/// No event on a connection takes a channel's sender away or replaces it.
pub proof fn law_events_keep_senders(
    s: DispatcherView,
    client: u64,
    listening: bool,
    ev: ClientEventView,
    now: u64,
    t: DispatcherView,
    a: ClientActionView,
    listening_after: bool,
)
    requires
        on_event(s, client, listening, ev, now, t, a, listening_after),
    ensures
        keeps_senders(s.senders, t.senders),
{
    if let ClientEventView::Line(l) = ev {
        if l.len() > 0 {
            if let Ok(req) = parse_spec(l) {
                let r = choose|r: ReturnView| #[trigger] step(s, req, client, now, t, r) && a == action_for(r)
                    && listening_after == listens_after(listening, r);
                law_requests_keep_senders(s, req, client, now, t, r);
            }
        }
    }
}

/// Serving a request does what the matching operation of `Dispatcher` does:
/// each case below is the contract of that operation's `_at` form (the
/// operations without `_at` do not read the clock), and `SAVE` and `LOAD`
/// hand the file back to the caller.
pub proof fn law_dispatch_matches_methods(
    s: DispatcherView,
    req: RequestView,
    c: u64,
    now: u64,
    t: DispatcherView,
    r: ReturnView,
)
    ensures
        step(s, req, c, now, t, r) <==> match req {
            RequestView::GET(k) => t == s.with_stock(sweep(s.stock, k, now)) && r == get_answer(
                s.stock,
                k,
                now,
            ),
            RequestView::SET { key, value, expiration } => t == s.with_stock(
                s.stock.insert(key, set_entry(value, expiration, now)),
            ) && r == ok_answer(),
            RequestView::DEL(k) => t == s.with_stock(s.stock.remove(k)) && r == del_answer(
                s.stock,
                k,
                now,
            ),
            RequestView::INCR(k) => t == s.with_stock(counter_state(s.stock, k, now, 1)) && r
                == counter_answer(s.stock, k, now, 1),
            RequestView::DECR(k) => t == s.with_stock(counter_state(s.stock, k, now, -1)) && r
                == counter_answer(s.stock, k, now, -1),
            RequestView::SAVE(f) => t == s && r == ReturnView::Save(f),
            RequestView::LOAD(f) => t == s && r == ReturnView::Load(f),
            RequestView::DROP() => t == s.with_stock(Map::empty()) && r == ok_answer(),
            RequestView::PUB { channel, message } => t == s && publish_answer(
                s.channels,
                channel,
                r,
            ),
            RequestView::SUB(ch) => subscribed(s, ch, c, t) && r == ReturnView::Subscribe,
            RequestView::UNSUB(ch) => t == unsubscribe_state(s, ch, c) && r == unsubscribe_answer(
                s,
                ch,
                c,
            ),
            RequestView::TTL(k) => t == s.with_stock(sweep(s.stock, k, now)) && r == ttl_answer(
                s.stock,
                k,
                now,
            ),
            RequestView::EXISTS(keys) => t == s.with_stock(sweep_keys(s.stock, keys, now)) && r
                == exists_answer(s.stock, keys, now),
        },
{
}

/// Publishing on a channel that nobody ever subscribed to reaches nobody.
pub proof fn law_publish_without_channel(
    s: DispatcherView,
    ch: Seq<char>,
    msg: Seq<char>,
    c: u64,
    now: u64,
    t: DispatcherView,
    r: ReturnView,
)
    requires
        !s.channels.contains(ch),
        step(s, RequestView::PUB { channel: ch, message: msg }, c, now, t, r),
    ensures
        r == ReturnView::Reply(published_text(0)),
        t == s,
{
}

/// Loading the items that a save wrote gives back the same contents.
///
/// `saved` is what `Dispatcher::items` hands out for state `s` (its
/// `ensures`), and `t` is the state that `Dispatcher::finish_load` leaves
/// after reading `saved` back (its `ensures`, for `Ok`).
pub proof fn law_load_after_save(
    s: DispatcherView,
    saved: Seq<ItemView>,
    t: DispatcherView,
    r: ReturnView,
)
    requires
        items_unique(saved),
        items_map(saved) == s.stock,
        t == s.with_stock(items_map(saved)),
        r == ok_answer(),
    ensures
        t == s,
        r == ReturnView::Reply("OK"@),
        forall|k: Seq<char>, now: u64| live_value(t.stock, k, now) == live_value(s.stock, k, now),
{
}

/// A `LOAD` whose file could not be read leaves the state exactly as it
/// was, the store included, keeps the client's channel, and sends the
/// client the read error.
pub proof fn law_failed_load_changes_nothing(
    s: DispatcherView,
    client: u64,
    listening: bool,
    e: Seq<char>,
    now: u64,
    t: DispatcherView,
    a: ClientActionView,
    listening_after: bool,
)
    requires
        on_event(
            s,
            client,
            listening,
            ClientEventView::Loaded(Err(e)),
            now,
            t,
            a,
            listening_after,
        ),
    ensures
        t.stock == s.stock,
        t == s,
        a == ClientActionView::Write("Error: "@ + e + "\r\n"@),
        listening_after == listening,
        forall|k: Seq<char>, now2: u64| live_value(t.stock, k, now2) == live_value(s.stock, k, now2),
{
}

/// The case-insensitive compare of the command word, lower-cased, agrees
/// with the upper-cased one used for `EXP`.
proof fn lemma_fold_agrees(a: char, b: char)
    requires
        lower_code(a) == lower_code(b),
    ensures
        upper_code(a) == upper_code(b),
{
}

proof fn lemma_same_fold(w1: Seq<char>, w2: Seq<char>, kw: Seq<char>)
    requires
        w1.len() == w2.len(),
        forall|j: int| 0 <= j < w1.len() ==> lower_code(#[trigger] w1[j]) == lower_code(w2[j]),
    ensures
        lower_is(w1, kw) == lower_is(w2, kw),
        upper_is(w1, kw) == upper_is(w2, kw),
{
    assert forall|j: int| 0 <= j < w1.len() implies upper_code(#[trigger] w1[j]) == upper_code(
        w2[j],
    ) by {
        lemma_fold_agrees(w1[j], w2[j]);
    }
    if lower_is(w1, kw) {
        assert forall|j: int| 0 <= j < w2.len() implies lower_code(#[trigger] w2[j]) == kw[j] as u32 by {
            assert(lower_code(w1[j]) == kw[j] as u32);
        }
    }
    if lower_is(w2, kw) {
        assert forall|j: int| 0 <= j < w1.len() implies lower_code(#[trigger] w1[j]) == kw[j] as u32 by {
            assert(lower_code(w2[j]) == kw[j] as u32);
        }
    }
    if upper_is(w1, kw) {
        assert forall|j: int| 0 <= j < w2.len() implies upper_code(#[trigger] w2[j]) == kw[j] as u32 by {
            assert(upper_code(w1[j]) == kw[j] as u32);
        }
    }
    if upper_is(w2, kw) {
        assert forall|j: int| 0 <= j < w1.len() implies upper_code(#[trigger] w1[j]) == kw[j] as u32 by {
            assert(upper_code(w2[j]) == kw[j] as u32);
        }
    }
}

proof fn lemma_exp_index_same(pa: Seq<Seq<char>>, pb: Seq<Seq<char>>, i: int)
    requires
        pa.len() == pb.len() > 0,
        pa[0].len() == pb[0].len(),
        forall|j: int| 0 <= j < pa[0].len() ==> lower_code(#[trigger] pa[0][j]) == lower_code(pb[0][j]),
        forall|j: int| 1 <= j < pa.len() ==> #[trigger] pa[j] == pb[j],
    ensures
        exp_index_from(pa, i) == exp_index_from(pb, i),
    decreases pa.len() - i,
{
    if 0 <= i < pa.len() {
        lemma_exp_index_same(pa, pb, i + 1);
        if i == 0 {
            lemma_same_fold(pa[0], pb[0], "EXP"@);
        }
    }
}

/// The case of the command word does not matter (under ASCII case folding,
/// which for this protocol's command names is what `to_lowercase` does):
/// two lines whose words differ only in the case of the first parse alike.
pub proof fn law_command_case_insensitive(a: Seq<char>, b: Seq<char>)
    requires
        words(a).len() == words(b).len() > 0,
        words(a)[0].len() == words(b)[0].len(),
        forall|j: int|
            0 <= j < words(a)[0].len() ==> lower_code(#[trigger] words(a)[0][j]) == lower_code(
                words(b)[0][j],
            ),
        forall|j: int| 1 <= j < words(a).len() ==> #[trigger] words(a)[j] == words(b)[j],
    ensures
        parse_spec(a) == parse_spec(b),
{
    let pa = words(a);
    let pb = words(b);
    lemma_exp_index_same(pa, pb, 0);
    assert(pa.subrange(1, pa.len() as int) =~= pb.subrange(1, pb.len() as int));
    if pa.len() >= 2 {
        assert(pa.subrange(2, pa.len() as int) =~= pb.subrange(2, pb.len() as int));
        assert forall|idx: int| 2 <= idx <= pa.len() implies #[trigger] pa.subrange(2, idx)
            =~= pb.subrange(2, idx) by {}
    }
    assert forall|kw: Seq<char>| #![auto] lower_is(pa[0], kw) == lower_is(pb[0], kw) by {
        lemma_same_fold(pa[0], pb[0], kw);
    }
}

proof fn lemma_words_trailing_ws(s: Seq<char>, w: Seq<char>)
    requires
        forall|i: int| 0 <= i < w.len() ==> is_ws(#[trigger] w[i]),
    ensures
        words(s + w) == words(s),
    decreases w.len(),
{
    if w.len() > 0 {
        let p = w.drop_last();
        assert((s + w).drop_last() =~= s + p);
        lemma_words_trailing_ws(s, p);
    } else {
        assert(s + w =~= s);
    }
}

proof fn lemma_words_leading_ws(w: Seq<char>, s: Seq<char>)
    requires
        forall|i: int| 0 <= i < w.len() ==> is_ws(#[trigger] w[i]),
    ensures
        words(w + s) == words(s),
    decreases s.len(),
{
    if s.len() > 0 {
        let p = s.drop_last();
        assert((w + s).drop_last() =~= w + p);
        lemma_words_leading_ws(w, p);
        if p.len() == 0 {
            assert(w + p =~= w);
        } else {
            assert((w + p).last() == p.last());
        }
    } else {
        assert(w + s =~= w);
        lemma_words_trailing_ws(Seq::empty(), w);
        assert(Seq::<char>::empty() + w =~= w);
    }
}

/// Whitespace before and after a request line does not change what it
/// parses to.
pub proof fn law_parse_ignores_surrounding_whitespace(
    before: Seq<char>,
    line: Seq<char>,
    after: Seq<char>,
)
    requires
        forall|i: int| 0 <= i < before.len() ==> is_ws(#[trigger] before[i]),
        forall|i: int| 0 <= i < after.len() ==> is_ws(#[trigger] after[i]),
    ensures
        parse_spec(before + line + after) == parse_spec(line),
{
    lemma_words_trailing_ws(before + line, after);
    lemma_words_leading_ws(before, line);
}

/// A line whose first word is `exists`, in any case, followed by one word
/// or more parses to `EXISTS` of exactly those words, in order; `exists`
/// alone is refused for want of a key.
pub proof fn law_exists_takes_every_key(line: Seq<char>)
    requires
        words(line).len() >= 1,
        lower_is(words(line)[0], "exists"@),
    ensures
        words(line).len() >= 2 ==> parse_spec(line) == Ok::<RequestView, Seq<char>>(
            RequestView::EXISTS(words(line).subrange(1, words(line).len() as int)),
        ),
        words(line).len() == 1 ==> parse_spec(line) == Err::<RequestView, Seq<char>>(
            "Invalid EXISTS request. Need key argument."@,
        ),
{
    reveal_strlit("exists");
    reveal_strlit("get");
    reveal_strlit("set");
    reveal_strlit("del");
    reveal_strlit("incr");
    reveal_strlit("decr");
    reveal_strlit("save");
    reveal_strlit("load");
    reveal_strlit("drop");
    reveal_strlit("pub");
    reveal_strlit("sub");
    reveal_strlit("unsub");
    reveal_strlit("ttl");
}

} // verus!
