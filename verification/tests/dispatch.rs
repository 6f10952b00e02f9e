use consensus_filter::dispatch::{Action, Event, Filter};
use consensus_filter::message::{Address, DispatchItem, Pipeline, ProtocolMessage};
use consensus_filter::policy::DelayPolicy;

fn propose(tag: u8) -> DispatchItem {
    DispatchItem::new(
        ProtocolMessage::propose(vec![tag]),
        vec![Address::V4 { octets: [10, 0, 0, tag], port: 8000 }],
    )
}

fn vote(tag: u8) -> DispatchItem {
    DispatchItem::new(
        ProtocolMessage::new(1, vec![tag]),
        vec![Address::V4 { octets: [10, 0, 0, tag], port: 8000 }],
    )
}

fn arrived(pipeline: Pipeline, item: DispatchItem) -> Event {
    Event::Arrived { pipeline, item }
}

fn elapsed(pipeline: Pipeline, ticket: usize) -> Event {
    Event::Elapsed { pipeline, ticket }
}

fn closed(pipeline: Pipeline) -> Event {
    Event::Closed { pipeline }
}

fn count_transmissions(actions: &[Action], on: Pipeline) -> usize {
    let mut count = 0;
    for action in actions {
        if let Action::Transmit { pipeline, .. } = action {
            if *pipeline == on {
                count += 1;
            }
        }
    }
    count
}

#[test]
fn a_new_filter_is_open_and_empty() {
    let filter = Filter::new(DelayPolicy::new(true, 500));
    assert!(filter.is_open(Pipeline::Primary));
    assert!(filter.is_open(Pipeline::Fallback));
    assert_eq!(filter.in_flight(Pipeline::Primary), 0);
    assert_eq!(filter.in_flight(Pipeline::Fallback), 0);
    assert!(!filter.is_drained());
}

#[test]
fn closing_both_queues_with_nothing_pending_ends_the_loop() {
    let mut filter = Filter::new(DelayPolicy::new(true, 500));
    assert_eq!(filter.step(closed(Pipeline::Primary)), Action::Idle);
    assert!(!filter.is_drained());
    assert_eq!(filter.step(closed(Pipeline::Fallback)), Action::Idle);
    assert!(filter.is_drained());
    assert!(!filter.is_open(Pipeline::Primary));
    assert!(!filter.is_open(Pipeline::Fallback));
}

#[test]
fn closing_both_queues_with_pending_items_drains_them_first() {
    let pending = 5u8;
    let mut filter = Filter::new(DelayPolicy::new(true, 500));
    let mut tickets = Vec::new();
    for n in 0..pending {
        match filter.step(arrived(Pipeline::Primary, propose(n))) {
            Action::Suspend { pipeline, ticket, wait } => {
                assert_eq!(pipeline, Pipeline::Primary);
                assert_eq!(wait, Some(500));
                tickets.push(ticket);
            }
            other => panic!("unexpected action {:?}", other),
        }
    }
    filter.step(closed(Pipeline::Primary));
    filter.step(closed(Pipeline::Fallback));
    assert_eq!(filter.in_flight(Pipeline::Primary), 5);

    let mut transmitted = Vec::new();
    for ticket in tickets {
        assert!(!filter.is_drained());
        match filter.step(elapsed(Pipeline::Primary, ticket)) {
            Action::Transmit { pipeline, item } => {
                assert_eq!(pipeline, Pipeline::Primary);
                transmitted.push(item);
            }
            other => panic!("unexpected action {:?}", other),
        }
    }
    assert!(filter.is_drained());
    assert_eq!(transmitted.len(), 5);
    for n in 0..pending {
        assert_eq!(transmitted[usize::from(n)], propose(n));
    }
}

#[test]
fn one_closed_queue_does_not_end_the_loop() {
    let mut filter = Filter::new(DelayPolicy::new(false, 0));
    filter.step(closed(Pipeline::Fallback));
    assert!(!filter.is_drained());
    assert!(filter.is_open(Pipeline::Primary));
    assert!(!filter.is_open(Pipeline::Fallback));
}

#[test]
fn closing_a_queue_twice_changes_nothing() {
    let mut filter = Filter::new(DelayPolicy::new(false, 0));
    assert_eq!(filter.step(closed(Pipeline::Primary)), Action::Idle);
    assert_eq!(filter.step(closed(Pipeline::Primary)), Action::Idle);
    assert!(!filter.is_open(Pipeline::Primary));
    assert!(filter.is_open(Pipeline::Fallback));
    assert!(!filter.is_drained());
}

#[test]
fn an_item_is_transmitted_unchanged() {
    let mut filter = Filter::new(DelayPolicy::new(true, 500));
    let item = DispatchItem::new(
        ProtocolMessage::propose(vec![1, 2, 3, 4]),
        vec![
            Address::V4 { octets: [1, 2, 3, 4], port: 1 },
            Address::V6 { segments: [1, 2, 3, 4, 5, 6, 7, 8], port: 2, flowinfo: 0, scope_id: 0 },
        ],
    );
    filter.step(arrived(Pipeline::Fallback, item.clone()));
    let action = filter.step(elapsed(Pipeline::Fallback, 0));
    assert_eq!(action, Action::Transmit { pipeline: Pipeline::Fallback, item });
}

#[test]
fn an_item_is_transmitted_once() {
    let mut filter = Filter::new(DelayPolicy::new(true, 500));
    filter.step(arrived(Pipeline::Primary, propose(1)));
    assert_eq!(
        filter.step(elapsed(Pipeline::Primary, 0)),
        Action::Transmit { pipeline: Pipeline::Primary, item: propose(1) }
    );
    assert_eq!(filter.step(elapsed(Pipeline::Primary, 0)), Action::Idle);
    assert_eq!(filter.in_flight(Pipeline::Primary), 0);
}

#[test]
fn an_unknown_ticket_is_ignored() {
    let mut filter = Filter::new(DelayPolicy::new(true, 500));
    assert_eq!(filter.step(elapsed(Pipeline::Primary, 0)), Action::Idle);
    assert_eq!(filter.step(elapsed(Pipeline::Fallback, 12)), Action::Idle);
    assert_eq!(filter.in_flight(Pipeline::Primary), 0);
    assert!(!filter.is_drained());
}

#[test]
fn the_pipelines_do_not_cross() {
    let mut filter = Filter::new(DelayPolicy::new(true, 500));
    filter.step(arrived(Pipeline::Primary, propose(1)));
    assert_eq!(filter.step(elapsed(Pipeline::Fallback, 0)), Action::Idle);
    assert_eq!(filter.in_flight(Pipeline::Primary), 1);
    assert_eq!(filter.in_flight(Pipeline::Fallback), 0);

    filter.step(arrived(Pipeline::Fallback, vote(2)));
    assert_eq!(
        filter.step(elapsed(Pipeline::Fallback, 0)),
        Action::Transmit { pipeline: Pipeline::Fallback, item: vote(2) }
    );
    assert_eq!(
        filter.step(elapsed(Pipeline::Primary, 0)),
        Action::Transmit { pipeline: Pipeline::Primary, item: propose(1) }
    );
}

#[test]
fn each_pipeline_counts_its_own_tickets() {
    let mut filter = Filter::new(DelayPolicy::new(false, 0));
    let first = filter.step(arrived(Pipeline::Primary, vote(1)));
    let second = filter.step(arrived(Pipeline::Fallback, vote(2)));
    let third = filter.step(arrived(Pipeline::Primary, vote(3)));
    assert_eq!(first, Action::Suspend { pipeline: Pipeline::Primary, ticket: 0, wait: None });
    assert_eq!(second, Action::Suspend { pipeline: Pipeline::Fallback, ticket: 0, wait: None });
    assert_eq!(third, Action::Suspend { pipeline: Pipeline::Primary, ticket: 1, wait: None });
}

#[test]
fn an_undelayed_item_may_overtake_a_delayed_one() {
    let mut filter = Filter::new(DelayPolicy::new(true, 500));
    filter.step(arrived(Pipeline::Primary, propose(1)));
    filter.step(arrived(Pipeline::Primary, vote(2)));
    assert_eq!(
        filter.step(elapsed(Pipeline::Primary, 1)),
        Action::Transmit { pipeline: Pipeline::Primary, item: vote(2) }
    );
    assert_eq!(
        filter.step(elapsed(Pipeline::Primary, 0)),
        Action::Transmit { pipeline: Pipeline::Primary, item: propose(1) }
    );
}

#[test]
fn pending_items_keep_the_loop_alive_after_closure() {
    let mut filter = Filter::new(DelayPolicy::new(true, 500));
    filter.step(arrived(Pipeline::Fallback, propose(1)));
    filter.step(closed(Pipeline::Primary));
    filter.step(closed(Pipeline::Fallback));
    assert!(!filter.is_drained());
    filter.step(elapsed(Pipeline::Fallback, 0));
    assert!(filter.is_drained());
}

#[test]
fn an_item_reported_after_closure_is_not_dropped() {
    let mut filter = Filter::new(DelayPolicy::new(false, 0));
    filter.step(closed(Pipeline::Primary));
    let action = filter.step(arrived(Pipeline::Primary, vote(1)));
    assert_eq!(action, Action::Suspend { pipeline: Pipeline::Primary, ticket: 0, wait: None });
    assert!(!filter.is_open(Pipeline::Primary));
    assert_eq!(
        filter.step(elapsed(Pipeline::Primary, 0)),
        Action::Transmit { pipeline: Pipeline::Primary, item: vote(1) }
    );
}

#[test]
fn run_answers_each_event_in_order() {
    let events = vec![
        arrived(Pipeline::Primary, propose(1)),
        arrived(Pipeline::Fallback, vote(2)),
        elapsed(Pipeline::Fallback, 0),
        closed(Pipeline::Fallback),
        elapsed(Pipeline::Primary, 0),
        closed(Pipeline::Primary),
    ];
    let actions = Filter::run(DelayPolicy::new(true, 500), events);
    assert_eq!(
        actions,
        vec![
            Action::Suspend { pipeline: Pipeline::Primary, ticket: 0, wait: Some(500) },
            Action::Suspend { pipeline: Pipeline::Fallback, ticket: 0, wait: None },
            Action::Transmit { pipeline: Pipeline::Fallback, item: vote(2) },
            Action::Idle,
            Action::Transmit { pipeline: Pipeline::Primary, item: propose(1) },
            Action::Idle,
        ]
    );
}

#[test]
fn run_over_no_events_takes_no_action() {
    assert_eq!(Filter::run(DelayPolicy::new(true, 500), vec![]), vec![]);
}

#[test]
fn run_stops_once_drained() {
    let events = vec![
        closed(Pipeline::Primary),
        closed(Pipeline::Fallback),
        arrived(Pipeline::Primary, propose(1)),
        elapsed(Pipeline::Primary, 0),
    ];
    let actions = Filter::run(DelayPolicy::new(true, 500), events);
    assert_eq!(actions, vec![Action::Idle, Action::Idle]);
}

#[test]
fn run_goes_on_while_items_are_pending() {
    let events = vec![
        arrived(Pipeline::Primary, propose(1)),
        arrived(Pipeline::Primary, propose(2)),
        closed(Pipeline::Primary),
        closed(Pipeline::Fallback),
        elapsed(Pipeline::Primary, 1),
        elapsed(Pipeline::Primary, 0),
        elapsed(Pipeline::Primary, 0),
    ];
    let actions = Filter::run(DelayPolicy::new(true, 500), events);
    assert_eq!(actions.len(), 6);
    assert_eq!(count_transmissions(&actions, Pipeline::Primary), 2);
    assert_eq!(count_transmissions(&actions, Pipeline::Fallback), 0);
    assert_eq!(actions[4], Action::Transmit { pipeline: Pipeline::Primary, item: propose(2) });
    assert_eq!(actions[5], Action::Transmit { pipeline: Pipeline::Primary, item: propose(1) });
}

#[test]
fn a_drained_run_transmits_what_arrived() {
    let mut events = Vec::new();
    for n in 0..20u8 {
        let pipeline = if n % 3 == 0 { Pipeline::Fallback } else { Pipeline::Primary };
        let item = if n % 2 == 0 { propose(n) } else { vote(n) };
        events.push(arrived(pipeline, item));
    }
    events.push(closed(Pipeline::Primary));
    events.push(closed(Pipeline::Fallback));
    for ticket in (0..13).rev() {
        events.push(elapsed(Pipeline::Primary, ticket));
    }
    for ticket in 0..7 {
        events.push(elapsed(Pipeline::Fallback, ticket));
    }
    let total = events.len();
    let actions = Filter::run(DelayPolicy::new(true, 500), events);
    assert_eq!(actions.len(), total);

    let mut primary = Vec::new();
    let mut fallback = Vec::new();
    for action in actions {
        if let Action::Transmit { pipeline, item } = action {
            match pipeline {
                Pipeline::Primary => primary.push(item.message.body[0]),
                Pipeline::Fallback => fallback.push(item.message.body[0]),
            }
        }
    }
    primary.sort();
    fallback.sort();
    assert_eq!(primary, vec![1, 2, 4, 5, 7, 8, 10, 11, 13, 14, 16, 17, 19]);
    assert_eq!(fallback, vec![0, 3, 6, 9, 12, 15, 18]);
}

#[test]
fn tickets_are_recycled_by_the_filter() {
    let mut filter = Filter::new(DelayPolicy::new(false, 0));
    filter.step(arrived(Pipeline::Primary, vote(1)));
    filter.step(arrived(Pipeline::Primary, vote(2)));
    filter.step(elapsed(Pipeline::Primary, 0));
    let action = filter.step(arrived(Pipeline::Primary, vote(3)));
    assert_eq!(action, Action::Suspend { pipeline: Pipeline::Primary, ticket: 0, wait: None });
    assert_eq!(filter.in_flight(Pipeline::Primary), 2);
}
