//! The one-shot steal channel: send-then-receive returns exactly the sent
//! message, and the waiting flag reflects a registered receiver.

use rayon_adaptive::small_channel::SmallChannel;

#[test]
fn send_some_then_receive() {
    let mut channel: SmallChannel<u64> = SmallChannel::new();
    channel.send(Some(42));
    assert_eq!(channel.receive(), Some(42));
}

#[test]
fn send_none_then_receive() {
    let mut channel: SmallChannel<u64> = SmallChannel::new();
    channel.send(None);
    assert_eq!(channel.receive(), None);
}

#[test]
fn poll_waiting_reflects_registration() {
    let mut channel: SmallChannel<u64> = SmallChannel::new();
    assert!(!channel.poll_waiting());
    assert!(!channel.poll_waiting());
    channel.register_waiting();
    assert!(channel.poll_waiting());
}

#[test]
fn waiting_then_handoff() {
    let mut channel: SmallChannel<Vec<u64>> = SmallChannel::new();
    channel.register_waiting();
    assert!(channel.poll_waiting());
    channel.send(Some(vec![1, 2, 3]));
    assert_eq!(channel.receive(), Some(vec![1, 2, 3]));
}
