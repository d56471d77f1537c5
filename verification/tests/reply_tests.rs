use db_actor::actor::find_reply;
use db_actor::query_output::{MessageInfo, QueryOutput, UserInfo};
use db_actor::reply::ReplySlot;

#[test]
fn reply_slot_delivers_exactly_once() {
    let mut slot: ReplySlot<u64> = ReplySlot::new();
    assert!(!slot.is_resolved());
    slot.resolve(42);
    assert!(slot.is_resolved());
    // Taking consumes the slot: there is no second delivery.
    assert_eq!(slot.take(), 42);
}

#[test]
fn reply_slot_carries_query_outputs() {
    let mut slot: ReplySlot<QueryOutput> = ReplySlot::new();
    slot.resolve(QueryOutput::DiscordUser(UserInfo));
    assert_eq!(slot.take(), QueryOutput::DiscordUser(UserInfo));
}

#[test]
fn query_output_distinguishes_its_variants() {
    let user = QueryOutput::DiscordUser(UserInfo);
    assert!(user.is_user());
    let messages = QueryOutput::DiscordMessages(vec![MessageInfo, MessageInfo]);
    assert!(!messages.is_user());
    assert_ne!(user, messages);
}

#[test]
fn find_reply_takes_the_first_match_or_none() {
    let replies: Vec<(u64, u64)> = vec![(3, 30), (5, 50), (5, 51)];
    assert_eq!(find_reply(&replies, 5), Some(1));
    assert_eq!(find_reply(&replies, 3), Some(0));
    assert_eq!(find_reply(&replies, 9), None);
}
