use demiboard::util::mailbox::{Delivery, Subscriber};
use demiboard::util::sse_thread::{Broadcaster, Event, Snapshot, MAILBOX_CAPACITY};
use std::sync::{Arc, Mutex};
use tokio::sync::mpsc::error::TryRecvError;
use tokio::sync::mpsc::Receiver;

fn snapshot(id: i32, json: &str) -> Option<Snapshot> {
    Some(Snapshot { id, json: json.to_owned() })
}

fn subscribe(broadcaster: &mut Broadcaster, thread: Option<Snapshot>) -> Receiver<Vec<u8>> {
    broadcaster.new_subscriber(thread).expect("a new mailbox takes its first frame").into_inner()
}

fn drain(rx: &mut Receiver<Vec<u8>>) -> Vec<String> {
    let mut frames = Vec::new();
    while let Ok(frame) = rx.try_recv() {
        frames.push(String::from_utf8(frame).unwrap());
    }
    frames
}

#[test]
fn ping_frame_has_no_data_line() {
    assert_eq!(Event::Ping.to_message(), b"event: ping\n\n".to_vec());
}

#[test]
fn thread_frame_carries_the_state() {
    let frame = Event::Thread(Some("{\"id\":1,\"open\":true}")).to_message();
    assert_eq!(frame, b"event: thread\ndata: {\"id\":1,\"open\":true}\n\n".to_vec());
}

#[test]
fn thread_frame_without_state_is_null() {
    assert_eq!(Event::Thread(None).to_message(), b"event: thread\ndata: null\n\n".to_vec());
}

#[test]
fn post_frame_carries_the_post() {
    let frame = Event::Post("{\"id\":7,\"message\":\"hi\"}").to_message();
    assert_eq!(frame, b"event: post\ndata: {\"id\":7,\"message\":\"hi\"}\n\n".to_vec());
}

#[test]
fn payload_goes_out_as_utf8() {
    let frame = Event::Post("{\"message\":\"gr\u{fc}\u{df}e \u{2603}\"}").to_message();
    let mut expected = b"event: post\ndata: {\"message\":\"gr".to_vec();
    expected.extend_from_slice(&[0xc3, 0xbc, 0xc3, 0x9f]);
    expected.extend_from_slice(b"e ");
    expected.extend_from_slice(&[0xe2, 0x98, 0x83]);
    expected.extend_from_slice(b"\"}\n\n");
    assert_eq!(frame, expected);
}

#[test]
fn empty_payload_still_has_a_data_line() {
    assert_eq!(Event::Post("").to_message(), b"event: post\ndata: \n\n".to_vec());
}

#[test]
fn new_registry_is_empty() {
    let broadcaster = Broadcaster::create();
    assert_eq!(broadcaster.topic_count(), 0);
    assert_eq!(broadcaster.subscriber_count(1), 0);
}

#[test]
fn subscriber_gets_the_snapshot_first() {
    let mut broadcaster = Broadcaster::create();
    let mut rx = subscribe(&mut broadcaster, snapshot(1, "{\"id\":1}"));
    assert_eq!(rx.try_recv(), Ok(b"event: thread\ndata: {\"id\":1}\n\n".to_vec()));
    assert_eq!(rx.try_recv(), Err(TryRecvError::Empty));
    assert_eq!(broadcaster.topic_count(), 1);
    assert_eq!(broadcaster.subscriber_count(1), 1);
}

#[test]
fn subscribers_of_one_thread_share_its_list() {
    let mut broadcaster = Broadcaster::create();
    let _first = subscribe(&mut broadcaster, snapshot(4, "{}"));
    let _second = subscribe(&mut broadcaster, snapshot(4, "{}"));
    let _third = subscribe(&mut broadcaster, snapshot(-9, "{}"));
    assert_eq!(broadcaster.topic_count(), 2);
    assert_eq!(broadcaster.subscriber_count(4), 2);
    assert_eq!(broadcaster.subscriber_count(-9), 1);
    assert_eq!(broadcaster.subscriber_count(5), 0);
}

#[test]
fn steady_subscriber_gets_snapshot_then_every_update_in_order() {
    let mut broadcaster = Broadcaster::create();
    let mut rx = subscribe(&mut broadcaster, snapshot(3, "{\"id\":3}"));
    let posts = ["{\"n\":0}", "{\"n\":1}", "{\"n\":2}", "{\"n\":3}", "{\"n\":4}"];
    for post in posts.iter() {
        broadcaster.send(3, Event::Post(post));
    }
    let mut expected = vec!["event: thread\ndata: {\"id\":3}\n\n".to_owned()];
    for post in posts.iter() {
        expected.push(format!("event: post\ndata: {}\n\n", post));
    }
    assert_eq!(drain(&mut rx), expected);
    assert_eq!(rx.try_recv(), Err(TryRecvError::Empty));
}

#[test]
fn subscriber_of_missing_thread_gets_null_and_then_the_end() {
    let mut broadcaster = Broadcaster::create();
    let mut rx = subscribe(&mut broadcaster, None);
    assert_eq!(broadcaster.topic_count(), 0);
    assert_eq!(rx.try_recv(), Ok(b"event: thread\ndata: null\n\n".to_vec()));
    assert_eq!(rx.try_recv(), Err(TryRecvError::Disconnected));
    broadcaster.send(1, Event::Post("{\"id\":1}"));
    let _later = subscribe(&mut broadcaster, snapshot(1, "{}"));
    broadcaster.send(1, Event::Post("{\"id\":2}"));
    assert_eq!(rx.try_recv(), Err(TryRecvError::Disconnected));
}

#[test]
fn publishes_beyond_the_capacity_are_lost() {
    assert_eq!(MAILBOX_CAPACITY, 100);
    let mut broadcaster = Broadcaster::create();
    let mut rx = subscribe(&mut broadcaster, snapshot(1, "{}"));
    for n in 0..150 {
        let post = format!("{{\"n\":{}}}", n);
        broadcaster.send(1, Event::Post(&post));
    }
    let frames = drain(&mut rx);
    assert_eq!(frames.len(), 100);
    assert_eq!(frames[0], "event: thread\ndata: {}\n\n");
    for n in 0..99 {
        assert_eq!(frames[n + 1], format!("event: post\ndata: {{\"n\":{}}}\n\n", n));
    }
    assert_eq!(broadcaster.subscriber_count(1), 1);
}

#[test]
fn publish_does_not_evict_a_dead_subscriber() {
    let mut broadcaster = Broadcaster::create();
    let rx = subscribe(&mut broadcaster, snapshot(1, "{}"));
    drop(rx);
    broadcaster.send(1, Event::Post("{}"));
    assert_eq!(broadcaster.subscriber_count(1), 1);
    assert_eq!(broadcaster.topic_count(), 1);
}

#[test]
fn publish_to_a_thread_without_subscribers_changes_nothing() {
    let mut broadcaster = Broadcaster::create();
    let mut rx = subscribe(&mut broadcaster, snapshot(1, "{}"));
    broadcaster.send(2, Event::Post("{\"id\":5}"));
    assert_eq!(broadcaster.topic_count(), 1);
    assert_eq!(broadcaster.subscriber_count(2), 0);
    assert_eq!(drain(&mut rx), vec!["event: thread\ndata: {}\n\n".to_owned()]);
}

#[test]
fn reap_removes_a_disconnected_subscriber_and_its_empty_topic() {
    let mut broadcaster = Broadcaster::create();
    let gone = subscribe(&mut broadcaster, snapshot(1, "{}"));
    let mut stays = subscribe(&mut broadcaster, snapshot(1, "{}"));
    let alone = subscribe(&mut broadcaster, snapshot(2, "{}"));
    drop(gone);
    drop(alone);
    broadcaster.remove_dead();
    assert_eq!(broadcaster.subscriber_count(1), 1);
    assert_eq!(broadcaster.subscriber_count(2), 0);
    assert_eq!(broadcaster.topic_count(), 1);
    assert_eq!(
        drain(&mut stays),
        vec!["event: thread\ndata: {}\n\n".to_owned(), "event: ping\n\n".to_owned()]
    );
    broadcaster.send(1, Event::Post("{\"id\":1}"));
    assert_eq!(drain(&mut stays), vec!["event: post\ndata: {\"id\":1}\n\n".to_owned()]);
}

#[test]
fn reap_keeps_the_order_of_the_survivors() {
    let mut broadcaster = Broadcaster::create();
    let mut first = subscribe(&mut broadcaster, snapshot(1, "1"));
    let second = subscribe(&mut broadcaster, snapshot(1, "2"));
    let mut third = subscribe(&mut broadcaster, snapshot(1, "3"));
    drop(second);
    broadcaster.remove_dead();
    assert_eq!(broadcaster.subscriber_count(1), 2);
    broadcaster.send(1, Event::Post("x"));
    assert_eq!(
        drain(&mut first),
        vec!["event: thread\ndata: 1\n\n", "event: ping\n\n", "event: post\ndata: x\n\n"]
    );
    assert_eq!(
        drain(&mut third),
        vec!["event: thread\ndata: 3\n\n", "event: ping\n\n", "event: post\ndata: x\n\n"]
    );
}

#[test]
fn reap_removes_a_subscriber_whose_mailbox_is_full() {
    let mut broadcaster = Broadcaster::create();
    let mut rx = subscribe(&mut broadcaster, snapshot(1, "{}"));
    for _ in 0..99 {
        broadcaster.send(1, Event::Post("{}"));
    }
    broadcaster.remove_dead();
    assert_eq!(broadcaster.subscriber_count(1), 0);
    assert_eq!(broadcaster.topic_count(), 0);
    assert_eq!(drain(&mut rx).len(), 100);
    assert_eq!(rx.try_recv(), Err(TryRecvError::Disconnected));
}

#[test]
fn reap_of_an_empty_registry_leaves_it_empty() {
    let mut broadcaster = Broadcaster::create();
    broadcaster.remove_dead();
    assert_eq!(broadcaster.topic_count(), 0);
    broadcaster.remove_dead();
    assert_eq!(broadcaster.topic_count(), 0);
}

#[test]
fn two_publishes_reach_every_subscriber_in_the_same_order() {
    let mut broadcaster = Broadcaster::create();
    let mut streams = Vec::new();
    for _ in 0..3 {
        streams.push(subscribe(&mut broadcaster, snapshot(1, "{}")));
    }
    broadcaster.send(1, Event::Post("\"A\""));
    broadcaster.send(1, Event::Post("\"B\""));
    for rx in streams.iter_mut() {
        assert_eq!(
            drain(rx),
            vec![
                "event: thread\ndata: {}\n\n",
                "event: post\ndata: \"A\"\n\n",
                "event: post\ndata: \"B\"\n\n"
            ]
        );
    }
}

#[test]
fn publish_reaches_its_own_thread_only() {
    let mut broadcaster = Broadcaster::create();
    let mut one = subscribe(&mut broadcaster, snapshot(1, "{}"));
    let mut two = subscribe(&mut broadcaster, snapshot(2, "{}"));
    broadcaster.send(2, Event::Post("{\"id\":9}"));
    assert_eq!(drain(&mut one), vec!["event: thread\ndata: {}\n\n"]);
    assert_eq!(
        drain(&mut two),
        vec!["event: thread\ndata: {}\n\n", "event: post\ndata: {\"id\":9}\n\n"]
    );
}

#[test]
fn thread_with_one_post_end_to_end() {
    let mut state = serde_json::Map::new();
    state.insert("id".to_owned(), serde_json::Value::from(1));
    state.insert("open".to_owned(), serde_json::Value::from(true));
    let state = serde_json::to_string(&serde_json::Value::Object(state)).unwrap();
    let mut post = serde_json::Map::new();
    post.insert("id".to_owned(), serde_json::Value::from(7));
    post.insert("message".to_owned(), serde_json::Value::from("hi"));
    let post = serde_json::to_string(&serde_json::Value::Object(post)).unwrap();

    let mut broadcaster = Broadcaster::create();
    let mut rx = subscribe(&mut broadcaster, Some(Snapshot { id: 1, json: state }));
    assert_eq!(rx.try_recv(), Ok(b"event: thread\ndata: {\"id\":1,\"open\":true}\n\n".to_vec()));
    broadcaster.send(1, Event::Post(&post));
    assert_eq!(
        rx.try_recv(),
        Ok(b"event: post\ndata: {\"id\":7,\"message\":\"hi\"}\n\n".to_vec())
    );
    assert_eq!(rx.try_recv(), Err(TryRecvError::Empty));
}

#[test]
fn offer_reports_what_the_mailbox_did() {
    let (mut subscriber, client) = Subscriber::open(2);
    let mut rx = client.into_inner();
    assert_eq!(subscriber.offer(b"one".to_vec()), Delivery::Accepted);
    assert_eq!(subscriber.offer(b"two".to_vec()), Delivery::Accepted);
    assert_eq!(subscriber.offer(b"three".to_vec()), Delivery::Full);
    assert_eq!(rx.try_recv(), Ok(b"one".to_vec()));
    assert_eq!(subscriber.offer(b"four".to_vec()), Delivery::Accepted);
    assert_eq!(rx.try_recv(), Ok(b"two".to_vec()));
    assert_eq!(rx.try_recv(), Ok(b"four".to_vec()));
    assert_eq!(rx.try_recv(), Err(TryRecvError::Empty));
    drop(rx);
    assert_eq!(subscriber.offer(b"five".to_vec()), Delivery::Closed);
}

#[test]
fn only_an_accepted_offer_counts() {
    assert!(Delivery::Accepted.is_accepted());
    assert!(!Delivery::Full.is_accepted());
    assert!(!Delivery::Closed.is_accepted());
}

#[test]
fn enroll_registers_after_an_accepted_snapshot() {
    let mut broadcaster = Broadcaster::create();
    let (subscriber, client) = Subscriber::open(MAILBOX_CAPACITY);
    assert!(broadcaster.enroll(Some(8), subscriber, client, Delivery::Accepted).is_some());
    assert_eq!(broadcaster.subscriber_count(8), 1);
    let (subscriber, client) = Subscriber::open(MAILBOX_CAPACITY);
    assert!(broadcaster.enroll(None, subscriber, client, Delivery::Accepted).is_some());
    assert_eq!(broadcaster.topic_count(), 1);
    assert_eq!(broadcaster.subscriber_count(8), 1);
}

#[test]
fn enroll_refuses_after_a_rejected_snapshot() {
    let mut broadcaster = Broadcaster::create();
    let (subscriber, client) = Subscriber::open(MAILBOX_CAPACITY);
    assert!(broadcaster.enroll(Some(8), subscriber, client, Delivery::Full).is_none());
    let (subscriber, client) = Subscriber::open(MAILBOX_CAPACITY);
    assert!(broadcaster.enroll(Some(8), subscriber, client, Delivery::Closed).is_none());
    let (subscriber, client) = Subscriber::open(MAILBOX_CAPACITY);
    assert!(broadcaster.enroll(None, subscriber, client, Delivery::Full).is_none());
    assert_eq!(broadcaster.topic_count(), 0);
    assert_eq!(broadcaster.subscriber_count(8), 0);
}

#[test]
fn concurrent_publishes_are_seen_in_one_order_by_all() {
    let mut broadcaster = Broadcaster::create();
    let mut streams = Vec::new();
    for _ in 0..4 {
        streams.push(subscribe(&mut broadcaster, snapshot(1, "{}")));
    }
    let shared = Arc::new(Mutex::new(broadcaster));
    let runtime = tokio::runtime::Builder::new_current_thread().build().unwrap();
    runtime.block_on(async {
        let first = {
            let shared = shared.clone();
            tokio::task::spawn_blocking(move || {
                shared.lock().unwrap().send(1, Event::Post("\"A\""))
            })
        };
        let second = {
            let shared = shared.clone();
            tokio::task::spawn_blocking(move || {
                shared.lock().unwrap().send(1, Event::Post("\"B\""))
            })
        };
        first.await.unwrap();
        second.await.unwrap();
    });

    let seen: Vec<Vec<String>> = streams.iter_mut().map(drain).collect();
    let a = "event: post\ndata: \"A\"\n\n".to_owned();
    let b = "event: post\ndata: \"B\"\n\n".to_owned();
    let snapshot = "event: thread\ndata: {}\n\n".to_owned();
    assert!(
        seen[0] == vec![snapshot.clone(), a.clone(), b.clone()]
            || seen[0] == vec![snapshot.clone(), b.clone(), a.clone()]
    );
    for frames in seen.iter() {
        assert_eq!(frames, &seen[0]);
    }
}

#[test]
fn registry_is_swept_once_a_minute() {
    assert_eq!(demiboard::util::sse_thread::SWEEP_INTERVAL, 60);
}
