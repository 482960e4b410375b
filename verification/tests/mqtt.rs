use mqtt2influxdb2::config::{Mqtt, Tags, Topic};
use mqtt2influxdb2::mqtt::{
    session_options, subscription_qos, topic_subscriptions, Action, ClientSubscriber, Event,
    Failure, State, KEEP_ALIVE_SECS, MESSAGE_BUFFER, RETRY_DELAY_MILLIS, SUBSCRIBE_QOS,
};

fn text(s: &str) -> String {
    s.to_string()
}

fn broker(names: &[&str]) -> Mqtt {
    Mqtt {
        host: text("tcp://localhost:1883"),
        client_id: text("bridge"),
        topics: names
            .iter()
            .map(|name| Topic {
                name: text(name),
                measurement: text("climate"),
                tags: Tags::new(),
            })
            .collect(),
    }
}

fn consumer() -> ClientSubscriber {
    ClientSubscriber::new(broker(&["sensors/kitchen", "sensors/attic"]))
}

/// A consumer that has been driven through `events`.
fn after(events: &[Event]) -> ClientSubscriber {
    let mut consumer = consumer();
    for event in events {
        consumer.step(*event);
    }
    consumer
}

/// What an action is, without what it carries.
fn kind(action: &Action) -> &'static str {
    match action {
        Action::Connect => "connect",
        Action::Subscribe { .. } => "subscribe",
        Action::Receive => "receive",
        Action::Dispatch => "dispatch",
        Action::Reconnect => "reconnect",
        Action::Sleep { .. } => "sleep",
        Action::Disconnect => "disconnect",
        Action::Finish { .. } => "finish",
    }
}

const RECEIVING: [Event; 3] = [Event::Start, Event::ConnectOk, Event::SubscribeOk];

const EVERY_EVENT: [Event; 14] = [
    Event::Start,
    Event::ConnectOk,
    Event::ConnectFailed,
    Event::SubscribeOk,
    Event::SubscribeFailed,
    Event::MessageArrived,
    Event::SessionLost,
    Event::Cancelled,
    Event::Handled { delivered: true },
    Event::Handled { delivered: false },
    Event::ReconnectOk,
    Event::ReconnectFailed,
    Event::DelayElapsed,
    Event::DisconnectDone,
];

#[test]
fn a_new_consumer_has_not_begun() {
    let consumer = consumer();
    assert_eq!(consumer.state(), State::Disconnected);
    assert!(!consumer.is_done());
    assert_eq!(consumer.config().client_id, "bridge");
    assert_eq!(consumer.config().topics.len(), 2);
}

#[test]
fn a_consumer_connects_subscribes_and_receives() {
    let mut consumer = consumer();
    assert!(matches!(consumer.step(Event::Start), Action::Connect));
    assert_eq!(consumer.state(), State::Connecting);
    match consumer.step(Event::ConnectOk) {
        Action::Subscribe { topics, qos } => {
            assert_eq!(topics, vec![text("sensors/kitchen"), text("sensors/attic")]);
            assert_eq!(qos, vec![1, 1]);
        }
        other => panic!("{:?}", other),
    }
    assert_eq!(consumer.state(), State::Subscribing);
    assert!(matches!(consumer.step(Event::SubscribeOk), Action::Receive));
    assert_eq!(consumer.state(), State::Receiving);
}

#[test]
fn every_message_is_dispatched_and_followed_by_the_next() {
    let mut consumer = after(&RECEIVING);
    for delivered in [true, false, false, true] {
        assert!(matches!(consumer.step(Event::MessageArrived), Action::Dispatch));
        assert_eq!(consumer.state(), State::Dispatching);
        assert!(matches!(consumer.step(Event::Handled { delivered }), Action::Receive));
        assert_eq!(consumer.state(), State::Receiving);
    }
}

#[test]
fn a_refused_first_connect_is_fatal() {
    let mut consumer = after(&[Event::Start]);
    assert!(matches!(consumer.step(Event::ConnectFailed), Action::Disconnect));
    assert_eq!(consumer.state(), State::Failing(Failure::ConnectRejected));
    assert!(!consumer.is_done());
    match consumer.step(Event::DisconnectDone) {
        Action::Finish { result } => assert_eq!(result, Err(Failure::ConnectRejected)),
        other => panic!("{:?}", other),
    }
    assert_eq!(consumer.state(), State::Failed(Failure::ConnectRejected));
    assert!(consumer.is_done());
}

#[test]
fn a_refused_subscription_is_fatal() {
    let mut consumer = after(&[Event::Start, Event::ConnectOk]);
    assert!(matches!(consumer.step(Event::SubscribeFailed), Action::Disconnect));
    match consumer.step(Event::DisconnectDone) {
        Action::Finish { result } => assert_eq!(result, Err(Failure::SubscribeRejected)),
        other => panic!("{:?}", other),
    }
    assert_eq!(consumer.state(), State::Failed(Failure::SubscribeRejected));
}

/// Drives a receiving consumer through an outage with `failures` failed
/// reconnect attempts and returns the kinds of the actions it asked for.
fn outage(failures: usize) -> (ClientSubscriber, Vec<Action>) {
    let mut consumer = after(&RECEIVING);
    let mut actions = vec![consumer.step(Event::SessionLost)];
    for _ in 0..failures {
        actions.push(consumer.step(Event::ReconnectFailed));
        actions.push(consumer.step(Event::DelayElapsed));
    }
    actions.push(consumer.step(Event::ReconnectOk));
    (consumer, actions)
}

#[test]
fn a_lost_session_is_re_established_and_subscribed_again() {
    let (consumer, actions) = outage(0);
    assert_eq!(actions.iter().map(kind).collect::<Vec<_>>(), vec!["reconnect", "subscribe"]);
    assert_eq!(consumer.state(), State::Subscribing);
}

#[test]
fn each_failed_reconnect_is_followed_by_one_delay() {
    for failures in [1usize, 2, 3, 10] {
        let (mut consumer, actions) = outage(failures);
        assert_eq!(actions.len(), 2 * failures + 2);
        assert_eq!(kind(&actions[0]), "reconnect");
        for round in 0..failures {
            match actions[1 + 2 * round] {
                Action::Sleep { millis } => assert_eq!(millis, 1000),
                ref other => panic!("{:?}", other),
            }
            assert_eq!(kind(&actions[2 + 2 * round]), "reconnect");
        }
        let delays = actions.iter().filter(|a| matches!(a, Action::Sleep { .. })).count();
        assert_eq!(delays, failures);
        match actions.last().unwrap() {
            Action::Subscribe { topics, qos } => {
                assert_eq!(topics, &vec![text("sensors/kitchen"), text("sensors/attic")]);
                assert_eq!(qos, &vec![1, 1]);
            }
            other => panic!("{:?}", other),
        }
        assert!(matches!(consumer.step(Event::SubscribeOk), Action::Receive));
    }
}

#[test]
fn the_retry_delay_is_one_second() {
    assert_eq!(RETRY_DELAY_MILLIS, 1000);
    let mut consumer = after(&RECEIVING);
    consumer.step(Event::SessionLost);
    assert!(matches!(consumer.step(Event::ReconnectFailed), Action::Sleep { millis: 1000 }));
    assert_eq!(consumer.state(), State::Backoff);
}

#[test]
fn cancellation_disconnects_and_stops() {
    let live: [&[Event]; 7] = [
        &[],
        &[Event::Start],
        &[Event::Start, Event::ConnectOk],
        &RECEIVING,
        &[Event::Start, Event::ConnectOk, Event::SubscribeOk, Event::MessageArrived],
        &[Event::Start, Event::ConnectOk, Event::SubscribeOk, Event::SessionLost],
        &[
            Event::Start,
            Event::ConnectOk,
            Event::SubscribeOk,
            Event::SessionLost,
            Event::ReconnectFailed,
        ],
    ];
    for events in live {
        let mut consumer = after(events);
        assert!(matches!(consumer.step(Event::Cancelled), Action::Disconnect));
        assert_eq!(consumer.state(), State::Stopping);
        assert!(!consumer.is_done());
        match consumer.step(Event::DisconnectDone) {
            Action::Finish { result } => assert_eq!(result, Ok(())),
            other => panic!("{:?}", other),
        }
        assert_eq!(consumer.state(), State::Stopped);
        assert!(consumer.is_done());
    }
}

#[test]
fn a_closing_consumer_waits_for_the_disconnect() {
    for event in EVERY_EVENT {
        if event == Event::DisconnectDone {
            continue;
        }
        let mut consumer = after(&[Event::Start, Event::Cancelled]);
        assert!(matches!(consumer.step(event), Action::Disconnect));
        assert_eq!(consumer.state(), State::Stopping);
        let mut consumer = after(&[Event::Start, Event::ConnectFailed]);
        assert!(matches!(consumer.step(event), Action::Disconnect));
        assert_eq!(consumer.state(), State::Failing(Failure::ConnectRejected));
    }
}

#[test]
fn a_consumer_that_has_returned_stays_as_it_is() {
    for event in EVERY_EVENT {
        let mut stopped = after(&[Event::Start, Event::Cancelled, Event::DisconnectDone]);
        match stopped.step(event) {
            Action::Finish { result } => assert_eq!(result, Ok(())),
            other => panic!("{:?}", other),
        }
        assert_eq!(stopped.state(), State::Stopped);
        let mut failed = after(&[Event::Start, Event::ConnectFailed, Event::DisconnectDone]);
        match failed.step(event) {
            Action::Finish { result } => assert_eq!(result, Err(Failure::ConnectRejected)),
            other => panic!("{:?}", other),
        }
        assert_eq!(failed.state(), State::Failed(Failure::ConnectRejected));
    }
}

#[test]
fn an_event_out_of_turn_ends_the_consumer() {
    let cases: [(&[Event], Event); 8] = [
        (&[], Event::ConnectOk),
        (&[Event::Start], Event::Start),
        (&[Event::Start], Event::SubscribeOk),
        (&[Event::Start, Event::ConnectOk], Event::MessageArrived),
        (&RECEIVING, Event::Handled { delivered: true }),
        (&RECEIVING, Event::ReconnectOk),
        (&[Event::Start, Event::ConnectOk, Event::SubscribeOk, Event::MessageArrived], Event::SessionLost),
        (&[Event::Start, Event::ConnectOk, Event::SubscribeOk, Event::SessionLost], Event::DelayElapsed),
    ];
    for (events, stray) in cases {
        let mut consumer = after(events);
        assert!(matches!(consumer.step(stray), Action::Disconnect));
        assert_eq!(consumer.state(), State::Failing(Failure::OutOfTurn));
        match consumer.step(Event::DisconnectDone) {
            Action::Finish { result } => assert_eq!(result, Err(Failure::OutOfTurn)),
            other => panic!("{:?}", other),
        }
    }
}

#[test]
fn the_due_action_is_the_answer_to_the_last_event() {
    let mut consumer = consumer();
    assert!(matches!(consumer.due(), Action::Connect));
    for event in [
        Event::Start,
        Event::ConnectOk,
        Event::SubscribeOk,
        Event::MessageArrived,
        Event::Handled { delivered: true },
        Event::SessionLost,
        Event::ReconnectFailed,
        Event::DelayElapsed,
        Event::Cancelled,
        Event::DisconnectDone,
    ] {
        let answer = consumer.step(event);
        assert_eq!(kind(&answer), kind(&consumer.due()));
    }
}

#[test]
fn the_waits_watch_for_cancellation() {
    assert!(Action::Receive.observes_cancellation());
    assert!(Action::Sleep { millis: 1000 }.observes_cancellation());
    assert!(!Action::Connect.observes_cancellation());
    assert!(!Action::Subscribe { topics: vec![], qos: vec![] }.observes_cancellation());
    assert!(!Action::Dispatch.observes_cancellation());
    assert!(!Action::Reconnect.observes_cancellation());
    assert!(!Action::Disconnect.observes_cancellation());
    assert!(!Action::Finish { result: Ok(()) }.observes_cancellation());
}

#[test]
fn dropped_messages_leave_no_mark() {
    let script = |delivered: [bool; 3]| {
        let mut consumer = after(&RECEIVING);
        let mut kinds = Vec::new();
        for flag in delivered {
            kinds.push(kind(&consumer.step(Event::MessageArrived)));
            kinds.push(kind(&consumer.step(Event::Handled { delivered: flag })));
        }
        kinds.push(kind(&consumer.step(Event::SessionLost)));
        (kinds, consumer.state())
    };
    assert_eq!(script([true, true, true]), script([false, true, false]));
    assert_eq!(script([true, true, true]), script([false, false, false]));
}

#[test]
fn every_topic_is_subscribed_to() {
    let config = broker(&["a/b", "c", "a/b", ""]);
    assert_eq!(topic_subscriptions(&config), vec![text("a/b"), text("c"), text("a/b"), text("")]);
    assert_eq!(topic_subscriptions(&broker(&[])), Vec::<String>::new());
}

#[test]
fn every_subscription_is_at_least_once() {
    assert_eq!(SUBSCRIBE_QOS, 1);
    assert_eq!(subscription_qos(0), Vec::<i32>::new());
    assert_eq!(subscription_qos(1), vec![1]);
    assert_eq!(subscription_qos(4), vec![1, 1, 1, 1]);
}

#[test]
fn a_consumer_without_topics_subscribes_to_nothing() {
    let mut consumer = ClientSubscriber::new(broker(&[]));
    consumer.step(Event::Start);
    match consumer.step(Event::ConnectOk) {
        Action::Subscribe { topics, qos } => {
            assert!(topics.is_empty());
            assert!(qos.is_empty());
        }
        other => panic!("{:?}", other),
    }
}

#[test]
fn sessions_are_kept_alive_and_leave_a_will() {
    let options = session_options();
    assert_eq!(options.keep_alive_secs, 30);
    assert_eq!(KEEP_ALIVE_SECS, 30);
    assert!(!options.clean_session);
    assert_eq!(options.will_topic, "test");
    assert_eq!(options.will_payload, "Async subscriber lost connection");
    assert_eq!(options.will_qos, 1);
    assert_eq!(MESSAGE_BUFFER, 25);
}
