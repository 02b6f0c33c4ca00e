use huobi_future::models::Subscription;
use huobi_future::registry::{poll_decision, ChannelRegistry, PollDecision};

#[test]
fn empty_registry_is_terminal() {
    let reg = ChannelRegistry::new();
    let ready: Vec<bool> = Vec::new();
    assert_eq!(poll_decision(&reg, &ready, 0), PollDecision::Terminal);
}

#[test]
fn all_channels_closed_is_terminal() {
    let mut reg = ChannelRegistry::new();
    reg.open_channel(Subscription::Market);
    reg.open_channel(Subscription::Index);
    reg.close_channel(Subscription::Market);
    reg.close_channel(Subscription::Index);
    assert_eq!(poll_decision(&reg, &vec![true, true], 0), PollDecision::Terminal);
}

#[test]
fn idle_channels_suspend() {
    let mut reg = ChannelRegistry::new();
    reg.open_channel(Subscription::Market);
    assert_eq!(poll_decision(&reg, &vec![false], 0), PollDecision::Suspend);
}

#[test]
fn closing_one_channel_keeps_the_other_delivering() {
    let mut reg = ChannelRegistry::new();
    let market = reg.open_channel(Subscription::Market);
    let index = reg.open_channel(Subscription::Index);
    assert_eq!(reg.close_channel(Subscription::Market), Some(market));
    // The index leg still yields its pending data.
    assert_eq!(
        poll_decision(&reg, &vec![true, true], 0),
        PollDecision::Yield(index)
    );
    // And a second close of the same channel finds nothing.
    assert_eq!(reg.close_channel(Subscription::Market), None);
}

#[test]
fn round_robin_alternates_between_ready_channels() {
    let mut reg = ChannelRegistry::new();
    let market = reg.open_channel(Subscription::Market);
    let index = reg.open_channel(Subscription::Index);
    let ready = vec![true, true];
    assert_eq!(poll_decision(&reg, &ready, market), PollDecision::Yield(index));
    assert_eq!(poll_decision(&reg, &ready, index), PollDecision::Yield(market));
}

#[test]
fn reopening_a_channel_replaces_its_slot() {
    let mut reg = ChannelRegistry::new();
    let first = reg.open_channel(Subscription::Market);
    let second = reg.open_channel(Subscription::Market);
    assert_ne!(first, second);
    assert!(!reg.slots[first].live);
    assert!(reg.slots[second].live);
    assert_eq!(reg.close_channel(Subscription::Market), Some(second));
}
