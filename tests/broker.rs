use message_broker::{ConsumeQuery, LockedMessageQueue, Message, MessageBroker};
use serde_json::Value;
use std::sync::Arc;

fn json(text: &str) -> Value {
    serde_json::from_str(text).unwrap()
}

fn msg(channel: &str, body: &str) -> Message {
    Message::new(channel.to_string(), None, json(body))
}

fn publish(q: &mut LockedMessageQueue, channel: &str, body: &str) {
    let m = msg(channel, body);
    assert!(q.publish_message(channel.to_string(), m).is_ok());
}

fn consume(q: &mut LockedMessageQueue, channel: &str, amount: usize) -> Vec<Value> {
    match q.consume_messages(channel.to_string(), amount) {
        Ok(v) => v.into_iter().map(|m| m.body).collect(),
        Err(_) => panic!("the in-memory broker does not fail"),
    }
}

#[test]
fn end_to_end_orders_scenario() {
    let mut q = LockedMessageQueue::new();
    publish(&mut q, "orders", r#"{"id":1}"#);
    publish(&mut q, "orders", r#"{"id":2}"#);
    publish(&mut q, "other", r#"{"id":3}"#);
    assert_eq!(consume(&mut q, "orders", 5), vec![json(r#"{"id":1}"#), json(r#"{"id":2}"#)]);
    assert_eq!(consume(&mut q, "orders", 1), Vec::<Value>::new());
    assert_eq!(consume(&mut q, "other", 1), vec![json(r#"{"id":3}"#)]);
    assert_eq!(q.len(), 0);
}

#[test]
fn fifo_within_channel() {
    let mut q = LockedMessageQueue::new();
    for i in 0..10 {
        publish(&mut q, "c", &i.to_string());
    }
    let got = consume(&mut q, "c", 10);
    let want: Vec<Value> = (0..10).map(|i| json(&i.to_string())).collect();
    assert_eq!(got, want);
}

#[test]
fn channel_isolation() {
    let mut a = LockedMessageQueue::new();
    let mut b = LockedMessageQueue::new();
    publish(&mut a, "b", "1");
    publish(&mut b, "b", "1");
    publish(&mut b, "a", "2");
    publish(&mut b, "a", "3");
    assert_eq!(consume(&mut a, "b", 3), consume(&mut b, "b", 3));
    assert_eq!(consume(&mut b, "a", 3), vec![json("2"), json("3")]);
}

#[test]
fn bounded_take_leaves_the_rest() {
    let mut q = LockedMessageQueue::new();
    for i in 0..5 {
        publish(&mut q, "c", &i.to_string());
    }
    assert_eq!(consume(&mut q, "c", 3), vec![json("0"), json("1"), json("2")]);
    assert_eq!(q.len(), 2);
    assert_eq!(consume(&mut q, "c", 5), vec![json("3"), json("4")]);
}

#[test]
fn exhaustion_returns_all_and_empties_channel() {
    let mut q = LockedMessageQueue::new();
    publish(&mut q, "c", "1");
    publish(&mut q, "d", "9");
    publish(&mut q, "c", "2");
    assert_eq!(consume(&mut q, "c", 7), vec![json("1"), json("2")]);
    assert_eq!(consume(&mut q, "c", 7), Vec::<Value>::new());
    assert_eq!(q.len(), 1);
}

#[test]
fn empty_channel_consume_changes_nothing() {
    let mut q = LockedMessageQueue::new();
    assert_eq!(consume(&mut q, "none", 3), Vec::<Value>::new());
    publish(&mut q, "c", "1");
    assert_eq!(consume(&mut q, "none", 3), Vec::<Value>::new());
    assert_eq!(q.len(), 1);
    assert_eq!(consume(&mut q, "c", 1), vec![json("1")]);
}

#[test]
fn zero_amount_takes_nothing() {
    let mut q = LockedMessageQueue::new();
    publish(&mut q, "c", "1");
    assert_eq!(consume(&mut q, "c", 0), Vec::<Value>::new());
    assert_eq!(q.len(), 1);
}

#[test]
fn duplicate_messages_are_taken_one_at_a_time() {
    let mut q = LockedMessageQueue::new();
    publish(&mut q, "c", "7");
    publish(&mut q, "c", "7");
    publish(&mut q, "c", "7");
    assert_eq!(consume(&mut q, "c", 1), vec![json("7")]);
    assert_eq!(q.len(), 2);
    assert_eq!(consume(&mut q, "c", 5), vec![json("7"), json("7")]);
}

#[test]
fn empty_channel_name_is_a_channel() {
    let mut q = LockedMessageQueue::new();
    publish(&mut q, "", "1");
    publish(&mut q, "x", "2");
    assert_eq!(consume(&mut q, "", 5), vec![json("1")]);
}

#[test]
fn message_channel_decides_over_argument() {
    let mut q = LockedMessageQueue::new();
    let m = msg("real", "1");
    assert!(q.publish_message("ignored".to_string(), m).is_ok());
    assert_eq!(consume(&mut q, "ignored", 1), Vec::<Value>::new());
    assert_eq!(consume(&mut q, "real", 1), vec![json("1")]);
}

#[test]
fn headers_and_body_pass_through() {
    let mut q = LockedMessageQueue::new();
    let m = Message::new("c".to_string(), Some(json(r#"{"k":"v"}"#)), json(r#"[1,2]"#));
    assert!(q.publish_message("c".to_string(), m).is_ok());
    let out = q.consume_messages("c".to_string(), 1).ok().unwrap();
    assert_eq!(out.len(), 1);
    assert_eq!(out[0].channel, "c");
    assert_eq!(out[0].headers, Some(json(r#"{"k":"v"}"#)));
    assert_eq!(out[0].body, json("[1,2]"));
    assert!(out[0].is_on_channel(&"c".to_string()));
    assert!(!out[0].is_on_channel(&"d".to_string()));
}

#[test]
fn concurrent_consumes_deliver_a_message_once() {
    let rt = tokio::runtime::Runtime::new().unwrap();
    let delivered = rt.block_on(async {
        let shared = Arc::new(tokio::sync::RwLock::new(LockedMessageQueue::new()));
        {
            let mut q = shared.write().await;
            publish(&mut q, "c", "1");
        }
        let mut handles = Vec::new();
        for _ in 0..2 {
            let s = shared.clone();
            handles.push(tokio::spawn(async move {
                let mut q = s.write().await;
                consume(&mut q, "c", 1)
            }));
        }
        let mut total: usize = 0;
        for h in handles {
            total += h.await.unwrap().len();
        }
        total
    });
    assert_eq!(delivered, 1);
}

#[test]
fn requested_amount_defaults_to_one() {
    let q = ConsumeQuery { channel: "c".to_string(), amount: None };
    assert_eq!(q.requested_amount(), 1);
    let q = ConsumeQuery { channel: "c".to_string(), amount: Some(4) };
    assert_eq!(q.requested_amount(), 4);
    let q = ConsumeQuery { channel: "c".to_string(), amount: Some(0) };
    assert_eq!(q.requested_amount(), 0);
}
