use mwebsocket::channel::MessageChannel;

#[test]
fn a_new_channel_is_empty() {
    let mut channel = MessageChannel::new();
    assert!(channel.is_empty());
    assert_eq!(channel.len(), 0);
    assert_eq!(channel.poll(), None);
}

#[test]
fn poll_on_empty_changes_nothing() {
    let mut channel = MessageChannel::new();
    for _ in 0..3 {
        assert_eq!(channel.poll(), None);
        assert!(channel.is_empty());
    }
    channel.push("a".to_string());
    assert_eq!(channel.poll(), Some("a".to_string()));
    assert_eq!(channel.poll(), None);
    assert_eq!(channel.len(), 0);
}

#[test]
fn items_come_out_in_the_order_they_went_in() {
    let mut channel = MessageChannel::new();
    let items = ["one", "two", "", "two", "three"];
    for item in items {
        channel.push(item.to_string());
    }
    assert_eq!(channel.len(), 5);
    assert!(!channel.is_empty());
    for item in items {
        assert_eq!(channel.poll(), Some(item.to_string()));
    }
    assert_eq!(channel.poll(), None);
}

#[test]
fn pushes_and_polls_may_alternate() {
    let mut channel = MessageChannel::new();
    channel.push("a".to_string());
    channel.push("b".to_string());
    assert_eq!(channel.poll(), Some("a".to_string()));
    channel.push("c".to_string());
    assert_eq!(channel.len(), 2);
    assert_eq!(channel.poll(), Some("b".to_string()));
    assert_eq!(channel.poll(), Some("c".to_string()));
    assert_eq!(channel.poll(), None);
}
