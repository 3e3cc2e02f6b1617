use dash_sync::fanout::Broadcaster;

fn frame(i: u32) -> String {
    format!("{{\"type\":\"heartbeat\",\"server_time\":{}}}", i)
}

fn drain(b: &mut Broadcaster, id: u64) -> Vec<String> {
    let mut out = Vec::new();
    while let Some(f) = b.receive(id) {
        out.push(f);
    }
    out
}

#[test]
fn slow_subscriber_loses_only_its_own_oldest_frames() {
    let mut b = Broadcaster::new(3);
    let slow = b.subscribe().unwrap();
    let fast = b.subscribe().unwrap();
    let mut fast_got = Vec::new();
    for i in 0..5 {
        b.publish(&frame(i));
        fast_got.extend(drain(&mut b, fast));
    }
    let expected: Vec<String> = (0..5).map(frame).collect();
    assert_eq!(fast_got, expected);
    assert_eq!(drain(&mut b, slow), vec![frame(2), frame(3), frame(4)]);
    assert_eq!(b.subscribers[0].lagged, 2);
    assert_eq!(b.subscribers[1].lagged, 0);
}

#[test]
fn subscriber_with_room_receives_everything_in_order() {
    let mut b = Broadcaster::new(8);
    let a = b.subscribe().unwrap();
    for i in 0..8 {
        b.publish(&frame(i));
    }
    let expected: Vec<String> = (0..8).map(frame).collect();
    assert_eq!(drain(&mut b, a), expected);
}

#[test]
fn no_replay_for_late_subscribers_and_unsubscribe_releases() {
    let mut b = Broadcaster::new(4);
    let early = b.subscribe().unwrap();
    b.publish(&frame(1));
    let late = b.subscribe().unwrap();
    assert_ne!(early, late);
    b.publish(&frame(2));
    assert_eq!(drain(&mut b, late), vec![frame(2)]);
    assert!(b.unsubscribe(early));
    assert!(!b.unsubscribe(early));
    assert_eq!(b.receive(early), None);
    assert_eq!(b.subscribers.len(), 1);
    b.publish(&frame(3));
    assert_eq!(drain(&mut b, late), vec![frame(3)]);
}

#[test]
fn publish_without_subscribers_is_fine() {
    let mut b = Broadcaster::new(1);
    b.publish(&frame(0));
    assert!(b.subscribers.is_empty());
    assert_eq!(b.receive(0), None);
}
