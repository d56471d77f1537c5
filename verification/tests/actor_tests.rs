use db_actor::actor::{find_reply, Actor, QUEUE_CAPACITY};
use db_actor::counter::{Counter, CounterOp};

fn actor_over(value: u64) -> Actor<Counter, CounterOp> {
    Actor::new(Counter { value })
}

#[test]
fn counter_scenario_read_observes_two() {
    // Three different callers submit increment, increment, read, in that
    // order; the read caller must observe 2, deterministically.
    let mut actor = actor_over(0);
    actor.try_submit(1, CounterOp::Increment).unwrap();
    actor.try_submit(2, CounterOp::Increment).unwrap();
    let read_ticket = actor.try_submit(3, CounterOp::Read).unwrap();
    let replies = actor.run_all();
    let i = find_reply(&replies, read_ticket).unwrap();
    assert_eq!(replies[i].1, 2);
}

#[test]
fn serialization_outputs_follow_arrival_order() {
    // Interleaved increments and reads: each read sees every earlier
    // increment and no later one.
    let mut actor = actor_over(0);
    actor.try_submit(1, CounterOp::Increment).unwrap();
    actor.try_submit(2, CounterOp::Read).unwrap();
    actor.try_submit(3, CounterOp::Increment).unwrap();
    actor.try_submit(4, CounterOp::Read).unwrap();
    let replies = actor.run_all();
    let outputs: Vec<u64> = replies.iter().map(|r| r.1).collect();
    assert_eq!(outputs, vec![1, 1, 2, 2]);
}

#[test]
fn exactly_once_each_ticket_answered_once() {
    let mut actor = actor_over(0);
    let mut tickets = Vec::new();
    for caller in 0..10u64 {
        tickets.push(actor.try_submit(caller, CounterOp::Increment).unwrap());
    }
    let replies = actor.run_all();
    assert_eq!(replies.len(), 10);
    for t in tickets {
        let hits = replies.iter().filter(|r| r.0 == t).count();
        assert_eq!(hits, 1);
    }
}

#[test]
fn no_cross_talk_fifty_callers() {
    // Fifty callers with distinguishable payloads: each recovers exactly
    // its own result through its own ticket.
    let mut actor = actor_over(0);
    let mut submissions = Vec::new();
    for caller in 0..50u64 {
        let payload = 1000 + caller;
        let ticket = actor.try_submit(caller, CounterOp::Echo(payload)).unwrap();
        submissions.push((ticket, payload));
    }
    let replies = actor.run_all();
    assert_eq!(replies.len(), 50);
    for (ticket, payload) in submissions {
        let i = find_reply(&replies, ticket).unwrap();
        assert_eq!(replies[i].0, ticket);
        assert_eq!(replies[i].1, payload);
    }
}

#[test]
fn backpressure_refuses_but_never_drops_or_reorders() {
    let mut actor = Actor::with_capacity(Counter { value: 0 }, 2);
    let t0 = actor.try_submit(1, CounterOp::Echo(10)).unwrap();
    let t1 = actor.try_submit(2, CounterOp::Echo(20)).unwrap();
    // The queue is full: a third submission is pushed back on, and what was
    // accepted stays exactly as it was.
    assert_eq!(actor.try_submit(3, CounterOp::Echo(30)), None);
    assert_eq!(actor.pending_len(), 2);
    let replies = actor.run_all();
    assert_eq!(replies, vec![(t0, 10), (t1, 20)]);
    // Once the actor drained, the refused caller gets through and is served.
    let t2 = actor.try_submit(3, CounterOp::Echo(30)).unwrap();
    let replies = actor.run_all();
    assert_eq!(replies, vec![(t2, 30)]);
}

#[test]
fn cloned_handles_share_one_global_order() {
    // Submissions through two different handles of the same actor fall into
    // a single global order: arrival order, regardless of the source.
    let mut actor = actor_over(0);
    actor.try_submit(7, CounterOp::Increment).unwrap();
    actor.try_submit(8, CounterOp::Increment).unwrap();
    actor.try_submit(7, CounterOp::Read).unwrap();
    let replies = actor.run_all();
    let outputs: Vec<u64> = replies.iter().map(|r| r.1).collect();
    assert_eq!(outputs, vec![1, 2, 2]);

    // The same operations arriving through other handles give the same
    // outputs: execution is blind to the source.
    let mut relabeled = actor_over(0);
    relabeled.try_submit(40, CounterOp::Increment).unwrap();
    relabeled.try_submit(41, CounterOp::Increment).unwrap();
    relabeled.try_submit(42, CounterOp::Read).unwrap();
    let relabeled_replies = relabeled.run_all();
    assert_eq!(replies, relabeled_replies);
}

#[test]
fn tickets_are_fresh_and_sequential() {
    let mut actor = actor_over(0);
    assert_eq!(actor.try_submit(1, CounterOp::Read), Some(0));
    assert_eq!(actor.try_submit(1, CounterOp::Read), Some(1));
    assert_eq!(actor.try_submit(2, CounterOp::Read), Some(2));
}

#[test]
fn step_executes_only_the_head() {
    let mut actor = actor_over(5);
    let t0 = actor.try_submit(1, CounterOp::Increment).unwrap();
    actor.try_submit(2, CounterOp::Increment).unwrap();
    let reply = actor.step().unwrap();
    assert_eq!(reply, (t0, 6));
    assert_eq!(actor.pending_len(), 1);
}

#[test]
fn step_on_empty_queue_returns_none() {
    let mut actor = actor_over(0);
    assert!(actor.step().is_none());
}

#[test]
fn teardown_releases_the_connection() {
    let mut actor = actor_over(0);
    actor.try_submit(1, CounterOp::Increment).unwrap();
    actor.try_submit(2, CounterOp::Increment).unwrap();
    actor.run_all();
    let conn = actor.into_connection();
    assert_eq!(conn.value, 2);
}

#[test]
fn default_capacity_is_the_tunable_constant() {
    let actor = actor_over(0);
    assert_eq!(actor.capacity(), QUEUE_CAPACITY);
    assert_eq!(actor.capacity(), 50);
    assert_eq!(actor.pending_len(), 0);
}

#[test]
fn increment_wraps_at_the_top() {
    let mut actor = actor_over(u64::MAX);
    actor.try_submit(1, CounterOp::Increment).unwrap();
    let replies = actor.run_all();
    assert_eq!(replies[0].1, 0);
    assert_eq!(actor.into_connection().value, 0);
}
