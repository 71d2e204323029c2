use rust_mini_redis::commands::{run, Command, Exists, Get};
use rust_mini_redis::channel_manager::{channel_message, publish_outcome, ChannelManager};
use rust_mini_redis::dispatcher::{publish_reply, Dispatcher};
use rust_mini_redis::session::{ClientAction, ClientEvent};
use tokio::sync::broadcast::error::SendError;
use rust_mini_redis::reply::Return;
use rust_mini_redis::request::Request;
use rust_mini_redis::stock::Stock;
use rust_mini_redis::text::{
    ends_with, folded_is, i64_to_string, join_range, parse_i64_str, parse_u64_str, split_words,
    u64_to_string,
};

#[test]
fn test_split_words_unicode_whitespace() {
    let parts = split_words("\u{3000} GET\tmy\u{2003}key \r\n");
    assert_eq!(parts, vec!["GET", "my", "key"]);
    assert!(split_words(" \t\u{a0}").is_empty());
}

#[test]
fn test_keyword_folding() {
    assert!(folded_is("GeT", "get", true));
    assert!(!folded_is("GETS", "get", true));
    assert!(folded_is("eXp", "EXP", false));
    assert!(!folded_is("ex", "EXP", false));
    assert!(ends_with("a.json", ".json"));
    assert!(!ends_with("json", ".json"));
}

#[test]
fn test_parse_u64_forms() {
    assert_eq!(parse_u64_str("100"), Some(100));
    assert_eq!(parse_u64_str("+7"), Some(7));
    assert_eq!(parse_u64_str("+"), None);
    assert_eq!(parse_u64_str("-7"), None);
    assert_eq!(parse_u64_str(""), None);
    assert_eq!(parse_u64_str("18446744073709551615"), Some(u64::MAX));
    assert_eq!(parse_u64_str("18446744073709551616"), None);
    assert_eq!(parse_u64_str("00042"), Some(42));
    assert_eq!(parse_u64_str("4x"), None);
}

#[test]
fn test_parse_i64_forms() {
    assert_eq!(parse_i64_str("-9223372036854775808"), Some(i64::MIN));
    assert_eq!(parse_i64_str("9223372036854775807"), Some(i64::MAX));
    assert_eq!(parse_i64_str("9223372036854775808"), None);
    assert_eq!(parse_i64_str("-"), None);
    assert_eq!(parse_i64_str("+-1"), None);
    assert_eq!(parse_i64_str("-12"), Some(-12));
}

#[test]
fn test_decimal_printing() {
    assert_eq!(i64_to_string(0), "0");
    assert_eq!(i64_to_string(-1), "-1");
    assert_eq!(i64_to_string(i64::MIN), "-9223372036854775808");
    assert_eq!(u64_to_string(u64::MAX), "18446744073709551615");
}

#[test]
fn test_decimal_round_trip_values() {
    for v in [0i64, 7, -7, 10, 123456789, i64::MAX, i64::MIN] {
        assert_eq!(parse_i64_str(&i64_to_string(v)), Some(v));
    }
}

#[test]
fn test_join_range() {
    let parts = vec!["a", "b", "c", "d"];
    assert_eq!(join_range(&parts, 1, 3, " "), "b c");
    assert_eq!(join_range(&parts, 2, 2, " "), "");
}

#[test]
fn test_parse_set_exp_right_after_key() {
    assert_eq!(
        Request::parse("SET k EXP 5"),
        Err("Invalid SET request. EXP cannot be before key and value".to_string())
    );
    assert_eq!(
        Request::parse("SET k v EXP 5 extra").unwrap(),
        Request::SET { key: "k".to_string(), value: "v".to_string(), expiration: Some(5) }
    );
}

#[test]
fn test_parse_error_messages() {
    assert_eq!(Request::parse(""), Err("Invalid request".to_string()));
    assert_eq!(Request::parse("FOO"), Err("Unknown command".to_string()));
    assert_eq!(
        Request::parse("SET key value EXP notanumber"),
        Err("Invalid expiration value".to_string())
    );
    assert_eq!(
        Request::parse("SAVE a.txt"),
        Err("Invalid SAVE request. Filename must end with .json".to_string())
    );
    assert_eq!(
        Request::parse("PUB ch"),
        Err("Invalid PUB request. Need channel and message arguments.".to_string())
    );
    assert_eq!(
        Request::parse("EXISTS"),
        Err("Invalid EXISTS request. Need key argument.".to_string())
    );
}

#[test]
fn test_parse_exists_and_drop() {
    assert_eq!(
        Request::parse("exists a b").unwrap(),
        Request::EXISTS(vec!["a".to_string(), "b".to_string()])
    );
    assert_eq!(Request::parse("DROP everything").unwrap(), Request::DROP());
}

#[test]
fn test_law_parse_ignores_surrounding_whitespace() {
    assert_eq!(Request::parse("\t GET k \u{3000}"), Request::parse("GET k"));
}

#[test]
fn test_law_get_after_set() {
    let mut d = Dispatcher::new();
    d.dispatch_at(Request::SET { key: "k".into(), value: "v w".into(), expiration: None }, 1, 10);
    assert_eq!(d.dispatch_at(Request::GET("k".into()), 2, u64::MAX), Return::Reply("v w".into()));
}

#[test]
fn test_law_expiration() {
    let mut d = Dispatcher::new();
    d.dispatch_at(Request::SET { key: "k".into(), value: "v".into(), expiration: Some(2) }, 1, 1_000);
    assert_eq!(d.dispatch_at(Request::GET("k".into()), 1, 3_000), Return::Reply("v".into()));
    assert_eq!(d.dispatch_at(Request::TTL("k".into()), 1, 2_500), Return::Reply("500ms".into()));
    assert_eq!(d.dispatch_at(Request::GET("k".into()), 1, 3_001), Return::NotFound("k".into()));
    assert_eq!(d.dispatch_at(Request::TTL("k".into()), 1, 0), Return::NotFound("k".into()));
}

#[test]
fn test_expiration_saturates() {
    let mut s = Stock::new();
    s.set_with_expiration_at("k".into(), "v".into(), u64::MAX, 10);
    assert_eq!(s.ttl_at("k".into(), 10), Some(u64::MAX - 10));
}

#[test]
fn test_law_get_after_del_and_drop() {
    let mut d = Dispatcher::new();
    d.dispatch_at(Request::SET { key: "a".into(), value: "1".into(), expiration: None }, 1, 0);
    d.dispatch_at(Request::SET { key: "b".into(), value: "2".into(), expiration: None }, 1, 0);
    assert_eq!(d.dispatch_at(Request::DEL("a".into()), 1, 0), Return::Reply("OK".into()));
    assert_eq!(d.dispatch_at(Request::GET("a".into()), 1, 0), Return::NotFound("a".into()));
    assert_eq!(d.dispatch_at(Request::DROP(), 1, 0), Return::Reply("OK".into()));
    assert_eq!(d.dispatch_at(Request::GET("b".into()), 1, 0), Return::NotFound("b".into()));
}

#[test]
fn test_law_incr_counts_on_and_decr_undoes() {
    let mut d = Dispatcher::new();
    d.dispatch_at(Request::SET { key: "c".into(), value: "-5".into(), expiration: None }, 1, 0);
    assert_eq!(d.dispatch_at(Request::INCR("c".into()), 1, 0), Return::Reply("-4".into()));
    assert_eq!(d.dispatch_at(Request::INCR("c".into()), 1, 0), Return::Reply("-3".into()));
    assert_eq!(d.dispatch_at(Request::DECR("c".into()), 1, 0), Return::Reply("-4".into()));
}

#[test]
fn test_incr_clears_expiration() {
    let mut s = Stock::new();
    s.set_with_expiration_at("c".into(), "1".into(), 1, 0);
    assert_eq!(s.incr_at("c".into(), 500), Ok(2));
    assert_eq!(s.ttl_at("c".into(), 5_000), None);
    assert_eq!(s.get_at(&"c".to_string(), u64::MAX), Some(&"2".to_string()));
}

#[test]
fn test_del_removes_expired_key_too() {
    let mut s = Stock::new();
    s.set_with_expiration_at("k".into(), "v".into(), 1, 0);
    assert_eq!(s.del(&"k".to_string()), Some("v".to_string()));
}

#[test]
fn test_law_reads_keep_contents_exists() {
    let mut d = Dispatcher::new();
    d.dispatch_at(Request::SET { key: "a".into(), value: "1".into(), expiration: None }, 1, 0);
    d.dispatch_at(Request::SET { key: "b".into(), value: "2".into(), expiration: Some(1) }, 1, 0);
    let r = d.dispatch_at(Request::EXISTS(vec!["a".into(), "b".into(), "z".into()]), 1, 2_000);
    assert_eq!(r, Return::Reply("a -> true\r\nb -> false\r\nz -> false".into()));
    assert_eq!(d.dispatch_at(Request::GET("a".into()), 1, 2_000), Return::Reply("1".into()));
    let items = d.items();
    assert_eq!(items, vec![("a".to_string(), "1".to_string(), None)]);
}

#[test]
fn test_law_subscribe_then_unsubscribe() {
    let mut d = Dispatcher::new();
    assert!(matches!(d.dispatch_at(Request::SUB("news".into()), 7, 0), Return::Subscribe(_)));
    assert_eq!(d.dispatch_at(Request::UNSUB("news".into()), 7, 0), Return::Unsubscribe);
    assert_eq!(
        d.dispatch_at(Request::UNSUB("news".into()), 7, 0),
        Return::Error("Not subscribed to any channel".into())
    );
}

#[test]
fn test_law_one_channel_per_client() {
    let mut d = Dispatcher::new();
    let _a = d.dispatch_at(Request::SUB("a".into()), 7, 0);
    let _b = d.dispatch_at(Request::SUB("b".into()), 7, 0);
    assert_eq!(
        d.dispatch_at(Request::UNSUB("a".into()), 7, 0),
        Return::Error("Not subscribed to channel 'a'".into())
    );
    assert_eq!(
        d.dispatch_at(Request::UNSUB("zz".into()), 7, 0),
        Return::Error("Channel 'zz' does not exist".into())
    );
}

#[test]
fn test_cleanup_client_ends_subscription() {
    let mut d = Dispatcher::new();
    let _a = d.dispatch_at(Request::SUB("a".into()), 7, 0);
    d.cleanup_client(7);
    assert_eq!(
        d.dispatch_at(Request::UNSUB("a".into()), 7, 0),
        Return::Error("Not subscribed to any channel".into())
    );
}

#[test]
fn test_law_publish_without_channel() {
    let mut d = Dispatcher::new();
    assert_eq!(
        d.dispatch_at(Request::PUB { channel: "x".into(), message: "hi".into() }, 1, 0),
        Return::Reply("Published to 0 subscriber(s)".into())
    );
}

#[test]
fn test_publish_reaches_subscribers() {
    let mut m = ChannelManager::new();
    let mut r1 = m.subscribe("news".to_string());
    let _r2 = m.subscribe("news".to_string());
    assert_eq!(m.publish("news", "hello world"), Ok(2));
    assert_eq!(r1.try_recv().unwrap(), "MESSAGE news hello world");
}

#[test]
fn test_publish_after_subscribers_left() {
    let mut m = ChannelManager::new();
    let r = m.subscribe("news".to_string());
    drop(r);
    assert_eq!(m.publish("news", "hi"), Err("Failed to publish: channel closed".to_string()));
    let mut d = Dispatcher::new();
    let sub = d.dispatch_at(Request::SUB("n".into()), 1, 0);
    drop(sub);
    assert_eq!(
        d.dispatch_at(Request::PUB { channel: "n".into(), message: "m".into() }, 1, 0),
        Return::Error("Failed to publish: channel closed".into())
    );
}

#[test]
fn test_channel_message_text() {
    assert_eq!(channel_message("c", "a b"), "MESSAGE c a b");
}

#[test]
fn test_law_load_after_save() {
    let mut s = Stock::new();
    s.set("a".into(), "1".into());
    s.set_with_expiration_at("b".into(), "2".into(), 3, 100);
    let saved = s.items();
    let mut t = Stock::new();
    t.set("zzz".into(), "gone".into());
    t.load_items(saved);
    assert_eq!(t.get_at(&"a".to_string(), 0), Some(&"1".to_string()));
    assert_eq!(t.ttl_at("b".into(), 100), Some(3_000));
    assert_eq!(t.get_at(&"zzz".to_string(), 0), None);
}

#[test]
fn test_load_items_later_wins() {
    let mut s = Stock::new();
    s.load_items(vec![
        ("k".to_string(), "first".to_string(), None),
        ("k".to_string(), "second".to_string(), None),
    ]);
    assert_eq!(s.items().len(), 1);
    assert_eq!(s.get_at(&"k".to_string(), 0), Some(&"second".to_string()));
}

#[test]
fn test_response_text() {
    assert_eq!(Return::Reply("v".into()).response_text(), "v\r\n");
    assert_eq!(Return::Error("bad".into()).response_text(), "Error: bad\r\n");
    assert_eq!(Return::NotFound("k".into()).response_text(), "Key 'k' not found\r\n");
    assert_eq!(Return::Unsubscribe.response_text(), "Unsubscribed\r\n");
    let mut m = ChannelManager::new();
    assert_eq!(Return::Subscribe(m.subscribe("c".into())).response_text(), "Subscribed\r\n");
}

#[test]
fn test_return_equality() {
    let mut m = ChannelManager::new();
    let a = Return::Subscribe(m.subscribe("c".into()));
    let b = Return::Subscribe(m.subscribe("c".into()));
    assert!(a != b);
    assert_ne!(Return::Reply("x".into()), Return::Error("x".into()));
}

#[test]
fn test_file_requests_are_handed_back() {
    let mut d = Dispatcher::new();
    assert_eq!(d.dispatch(Request::SAVE("a.json".into()), 1), Return::Save("a.json".into()));
    assert_eq!(d.dispatch(Request::LOAD("b.json".into()), 1), Return::Load("b.json".into()));
    assert_eq!(d.finish_save(Ok("OK".into())), Return::Reply("OK".into()));
    assert_eq!(d.finish_save(Err("disk full".into())), Return::Error("disk full".into()));
    assert_eq!(
        d.finish_load(Ok(vec![("k".to_string(), "v".to_string(), None)])),
        Return::Reply("OK".into())
    );
    assert_eq!(d.dispatch_at(Request::GET("k".into()), 1, 0), Return::Reply("v".into()));
    assert_eq!(d.finish_load(Err("no file".into())), Return::Error("no file".into()));
    assert_eq!(d.dispatch_at(Request::GET("k".into()), 1, 0), Return::Reply("v".into()));
}

#[test]
fn test_counter_overflow_is_an_error() {
    let mut d = Dispatcher::new();
    d.dispatch_at(
        Request::SET { key: "c".into(), value: "9223372036854775807".into(), expiration: None },
        1,
        0,
    );
    assert_eq!(
        d.dispatch_at(Request::INCR("c".into()), 1, 0),
        Return::Error("increment or decrement would overflow".into())
    );
    assert_eq!(
        d.dispatch_at(Request::GET("c".into()), 1, 0),
        Return::Reply("9223372036854775807".into())
    );
    let mut s = Stock::new();
    s.set("m".into(), "-9223372036854775808".into());
    assert_eq!(s.decr("m".into()), Err("increment or decrement would overflow".to_string()));
    assert!(s.can_add_at(&"m".to_string(), 1, 0));
    assert!(!s.can_add_at(&"m".to_string(), -1, 0));
}

#[test]
fn test_expired_maximum_counts_from_zero() {
    let mut s = Stock::new();
    s.set_with_expiration_at("c".into(), "9223372036854775807".into(), 1, 0);
    assert!(s.can_add_at(&"c".to_string(), 1, 5_000));
    assert_eq!(s.incr_at("c".into(), 5_000), Ok(1));
}

#[test]
fn test_publish_reply_and_outcome() {
    assert_eq!(publish_reply(Ok(3)), Return::Reply("Published to 3 subscriber(s)".into()));
    assert_eq!(publish_reply(Err("boom".into())), Return::Error("boom".into()));
    assert_eq!(publish_outcome(Ok(2)), Ok(2));
    assert_eq!(
        publish_outcome(Err(SendError("x".to_string()))),
        Err("Failed to publish: channel closed".to_string())
    );
}

#[test]
fn test_client_events() {
    let mut d = Dispatcher::new();
    let (a, l) = d.on_client_event(1, false, ClientEvent::Line("SET k v\r\n".into()));
    assert!(matches!(a, ClientAction::Write(ref t) if t == "OK\r\n"));
    assert!(!l);
    let (a, l) = d.on_client_event(1, false, ClientEvent::Line("SUB news\r\n".into()));
    assert!(matches!(a, ClientAction::Listen(_, ref t) if t == "Subscribed\r\n"));
    assert!(l);
    let (a, l) = d.on_client_event(1, true, ClientEvent::Line("GET k\r\n".into()));
    assert!(matches!(a, ClientAction::Write(ref t) if t == "v\r\n"));
    assert!(l);
    let (a, l) = d.on_client_event(1, true, ClientEvent::Message("MESSAGE news hi".into()));
    assert!(matches!(a, ClientAction::Write(ref t) if t == "MESSAGE news hi\r\n"));
    assert!(l);
    let (a, l) = d.on_client_event(1, true, ClientEvent::Line("UNSUB news\r\n".into()));
    assert!(matches!(a, ClientAction::Write(ref t) if t == "Unsubscribed\r\n"));
    assert!(!l);
    let (a, _) = d.on_client_event(1, false, ClientEvent::Line("FOO\r\n".into()));
    assert!(matches!(a, ClientAction::Write(ref t) if t == "Error: Unknown command\r\n"));
    let (a, l) = d.on_client_event(1, true, ClientEvent::Lagged);
    assert!(matches!(a, ClientAction::Nothing));
    assert!(l);
    let (a, l) = d.on_client_event(1, true, ClientEvent::ChannelClosed);
    assert!(matches!(a, ClientAction::Nothing));
    assert!(!l);
    let (a, l) = d.on_client_event(1, false, ClientEvent::Line(String::new()));
    assert!(matches!(a, ClientAction::Nothing));
    assert!(!l);
}

#[test]
fn test_client_file_events() {
    let mut d = Dispatcher::new();
    let (a, _) = d.on_client_event(1, false, ClientEvent::Line("SAVE x.json\n".into()));
    assert!(matches!(a, ClientAction::Save(ref f) if f == "x.json"));
    let (a, _) = d.on_client_event(1, false, ClientEvent::Saved(Err("denied".into())));
    assert!(matches!(a, ClientAction::Write(ref t) if t == "Error: denied\r\n"));
    let (a, _) = d.on_client_event(1, false, ClientEvent::Line("LOAD x.json\n".into()));
    assert!(matches!(a, ClientAction::Load(ref f) if f == "x.json"));
    let items = vec![("k".to_string(), "v".to_string(), None)];
    let (a, _) = d.on_client_event(1, false, ClientEvent::Loaded(Ok(items)));
    assert!(matches!(a, ClientAction::Write(ref t) if t == "OK\r\n"));
    assert_eq!(d.dispatch_at(Request::GET("k".into()), 1, 0), Return::Reply("v".into()));
}

#[test]
fn test_client_disconnect_ends_subscription() {
    let mut d = Dispatcher::new();
    let _ = d.on_client_event(4, false, ClientEvent::Line("SUB a\n".into()));
    let (a, l) = d.on_client_event(4, true, ClientEvent::EndOfInput);
    assert!(matches!(a, ClientAction::Disconnect));
    assert!(!l);
    assert_eq!(
        d.dispatch_at(Request::UNSUB("a".into()), 4, 0),
        Return::Error("Not subscribed to any channel".into())
    );
}

#[test]
fn test_client_event_at_fixed_time() {
    let mut d = Dispatcher::new();
    let _ = d.on_client_event_at(1, false, ClientEvent::Line("SET k v EXP 1\n".into()), 1_000);
    let (a, _) = d.on_client_event_at(1, false, ClientEvent::Line("TTL k\n".into()), 1_400);
    assert!(matches!(a, ClientAction::Write(ref t) if t == "600ms\r\n"));
    let (a, _) = d.on_client_event_at(1, false, ClientEvent::Line("GET k\n".into()), 2_001);
    assert!(matches!(a, ClientAction::Write(ref t) if t == "Key 'k' not found\r\n"));
}

#[test]
fn test_law_requests_keep_senders() {
    let mut d = Dispatcher::new();
    let first = d.dispatch_at(Request::SUB("news".into()), 1, 0);
    let _second = d.dispatch_at(Request::SUB("news".into()), 2, 0);
    d.dispatch_at(Request::SET { key: "a".into(), value: "b".into(), expiration: None }, 3, 0);
    assert_eq!(
        d.dispatch_at(Request::PUB { channel: "news".into(), message: "hi".into() }, 3, 0),
        Return::Reply("Published to 2 subscriber(s)".into())
    );
    match first {
        Return::Subscribe(mut rx) => assert_eq!(rx.try_recv().unwrap(), "MESSAGE news hi"),
        _ => panic!("Expected Subscribe variant"),
    }
}

#[test]
fn test_command_objects() {
    let mut d = Dispatcher::new();
    let set = Request::SET { key: "k".into(), value: "v".into(), expiration: None }.into_command();
    assert_eq!(set.execute(&mut d, 1), Return::Reply("OK".into()));
    assert_eq!(Get { key: "k".into() }.execute(&mut d, 1), Return::Reply("v".into()));
    assert_eq!(run(Request::INCR("n".into()), &mut d, 1), Return::Reply("1".into()));
    assert_eq!(
        Exists { keys: vec!["k".into(), "x".into()] }.execute(&mut d, 1),
        Return::Reply("k -> true\r\nx -> false".into())
    );
    assert_eq!(run(Request::SAVE("f.json".into()), &mut d, 1), Return::Save("f.json".into()));
    assert!(matches!(run(Request::SUB("c".into()), &mut d, 2), Return::Subscribe(_)));
    assert_eq!(run(Request::UNSUB("c".into()), &mut d, 2), Return::Unsubscribe);
    assert_eq!(run(Request::DROP(), &mut d, 1), Return::Reply("OK".into()));
    assert_eq!(run(Request::GET("k".into()), &mut d, 1), Return::NotFound("k".into()));
}
