use backend::hub::{
    feed_action, next_backoff, ChannelRegistry, FeedAction, FeedEvent, FIRST_BACKOFF_MS,
    MAX_BACKOFF_MS,
};

#[test]
fn first_subscriber_subscribes_and_last_one_unsubscribes() {
    let mut r = ChannelRegistry::new();
    assert!(!r.contains("stores:1:orders"));
    assert!(r.subscribe("stores:1:orders"));
    assert!(!r.subscribe("stores:1:orders"));
    assert!(r.subscribe("orders:9"));
    assert!(r.contains("stores:1:orders"));
    assert!(!r.release("stores:1:orders"));
    assert!(r.contains("stores:1:orders"));
    assert!(r.release("stores:1:orders"));
    assert!(!r.contains("stores:1:orders"));
    assert!(!r.release("stores:1:orders"));
    assert_eq!(r.channels(), vec!["orders:9".to_string()]);
}

#[test]
fn reconnect_resubscribes_every_channel_once() {
    let mut r = ChannelRegistry::new();
    assert!(r.channels().is_empty());
    r.subscribe("a");
    r.subscribe("b");
    r.subscribe("a");
    let mut all = r.channels();
    all.sort();
    assert_eq!(all, ["a", "b"]);
}

#[test]
fn reconnect_delay_doubles_up_to_ten_seconds() {
    assert_eq!(next_backoff(FIRST_BACKOFF_MS), 500);
    assert_eq!(next_backoff(4_000), 8_000);
    assert_eq!(next_backoff(5_000), MAX_BACKOFF_MS);
    assert_eq!(next_backoff(8_000), 10_000);
    assert_eq!(next_backoff(u64::MAX), 10_000);
    assert_eq!(next_backoff(0), 0);
}

#[test]
fn feeds_forward_skip_resync_or_end() {
    assert_eq!(feed_action(&FeedEvent::Message { readable: true }), FeedAction::Forward);
    assert_eq!(feed_action(&FeedEvent::Message { readable: false }), FeedAction::Skip);
    assert_eq!(feed_action(&FeedEvent::Lagged), FeedAction::Resync);
    assert_eq!(feed_action(&FeedEvent::Closed), FeedAction::End);
}
