//! The consumer: a subscriber that keeps one session with the broker alive and
//! hands every received message to a message handler.
//!
//! The consumer is a state machine. It performs no I/O itself: [`ClientSubscriber::step`]
//! takes what happened last and answers with the one [`Action`] that is due
//! next. Whoever drives the consumer performs that action, and reports its
//! outcome as the next [`Event`].
//!
//! ```text
//! Disconnected -> Connecting -> Subscribing -> Receiving <-> Dispatching
//!                                   ^              |
//!                                   |              v  (session lost)
//!                                   +-------- Reconnecting <-> Backoff
//! ```
//!
//! A rejected first connect or a rejected subscription ends the consumer. The
//! loss of an established session does not: the consumer reconnects, waiting a
//! fixed delay after each failed attempt, for as long as it takes, and
//! subscribes again once it is back. Cancellation is honoured in every state
//! that is not final. Every way out leads through `Disconnect`.

use vstd::prelude::*;
use crate::config::{Mqtt, MqttView};

verus! {

/// The pause after a failed reconnect attempt, in milliseconds.
pub const RETRY_DELAY_MILLIS: u64 = 1000;

/// The quality of service of every subscription: at least once.
pub const SUBSCRIBE_QOS: i32 = 1;

/// The keep-alive interval of a session, in seconds.
pub const KEEP_ALIVE_SECS: u64 = 30;

/// How many received messages may wait to be taken.
pub const MESSAGE_BUFFER: usize = 25;

/// How a session with the broker is set up.
#[derive(Debug, Clone, Copy)]
pub struct SessionOptions {
    /// The keep-alive interval, in seconds.
    pub keep_alive_secs: u64,
    /// Whether the broker is to forget the session when it ends.
    pub clean_session: bool,
    /// The topic of the last will, which the broker publishes when the
    /// session ends without a disconnect.
    pub will_topic: &'static str,
    /// The payload of the last will.
    pub will_payload: &'static str,
    /// The quality of service of the last will.
    pub will_qos: i32,
}

/// The options of every session: kept alive every [`KEEP_ALIVE_SECS`],
/// remembered by the broker across reconnects, and with a last will at
/// [`SUBSCRIBE_QOS`] that tells of the lost subscriber.
pub fn session_options() -> (options: SessionOptions)
    ensures
        options.keep_alive_secs == KEEP_ALIVE_SECS,
        !options.clean_session,
        options.will_topic@ == "test"@,
        options.will_payload@ == "Async subscriber lost connection"@,
        options.will_qos == SUBSCRIBE_QOS,
{
    SessionOptions {
        keep_alive_secs: KEEP_ALIVE_SECS,
        clean_session: false,
        will_topic: "test",
        will_payload: "Async subscriber lost connection",
        will_qos: SUBSCRIBE_QOS,
    }
}

/// Why a consumer gave up.
#[derive(Debug, Clone, Copy, PartialEq, Eq, Structural)]
pub enum Failure {
    /// The broker refused the first connect.
    ConnectRejected,
    /// The broker refused the subscription.
    SubscribeRejected,
    /// An event was reported that cannot follow the action that was due.
    OutOfTurn,
}

/// Where a consumer stands.
#[derive(Debug, Clone, Copy, PartialEq, Eq, Structural)]
pub enum State {
    /// Nothing has been attempted yet.
    Disconnected,
    /// The first connect is under way.
    Connecting,
    /// A session is established and the subscription is under way.
    Subscribing,
    /// Subscribed, and waiting for the next message.
    Receiving,
    /// A message is with the handler.
    Dispatching,
    /// The session was lost and a reconnect attempt is under way.
    Reconnecting,
    /// A reconnect attempt failed and the delay before the next one runs.
    Backoff,
    /// Cancelled; the session is being closed.
    Stopping,
    /// Given up; the session is being closed.
    Failing(Failure),
    /// Final: cancelled, and disconnected.
    Stopped,
    /// Final: given up, and disconnected.
    Failed(Failure),
}

/// What the driver of a consumer reports.
#[derive(Debug, Clone, Copy, PartialEq, Eq, Structural)]
pub enum Event {
    /// The consumer is asked to begin.
    Start,
    /// The connect succeeded.
    ConnectOk,
    /// The connect was refused.
    ConnectFailed,
    /// The subscription was accepted.
    SubscribeOk,
    /// The subscription was refused.
    SubscribeFailed,
    /// A message was received.
    MessageArrived,
    /// The broker session is gone.
    SessionLost,
    /// The cancellation token was found set.
    Cancelled,
    /// The handler is done with the message; `delivered` says whether the
    /// message reached the sink.
    Handled { delivered: bool },
    /// The reconnect attempt succeeded.
    ReconnectOk,
    /// The reconnect attempt failed.
    ReconnectFailed,
    /// The retry delay is over.
    DelayElapsed,
    /// The session is closed.
    DisconnectDone,
}

/// What the driver of a consumer is asked to do.
#[derive(Debug)]
pub enum Action {
    /// Establish a session with the broker.
    Connect,
    /// Subscribe to all `topics` in one batch, topic `i` with quality of
    /// service `qos[i]`.
    Subscribe { topics: Vec<String>, qos: Vec<i32> },
    /// Wait for the next message, for the loss of the session, or for
    /// cancellation.
    Receive,
    /// Hand the received message to the message handler.
    Dispatch,
    /// Try to re-establish the lost session.
    Reconnect,
    /// Wait before the next reconnect attempt.
    Sleep { millis: u64 },
    /// Close the session with the broker.
    Disconnect,
    /// Return; the consumer is done.
    Finish { result: Result<(), Failure> },
}

/// What an action says.
pub enum ActionView {
    Connect,
    Subscribe { topics: Seq<Seq<char>>, qos: Seq<i32> },
    Receive,
    Dispatch,
    Reconnect,
    Sleep { millis: u64 },
    Disconnect,
    Finish { result: Result<(), Failure> },
}

impl View for Action {
    type V = ActionView;

    open spec fn view(&self) -> ActionView {
        match *self {
            Action::Connect => ActionView::Connect,
            Action::Subscribe { topics, qos } => ActionView::Subscribe {
                topics: topics.deep_view(),
                qos: qos@,
            },
            Action::Receive => ActionView::Receive,
            Action::Dispatch => ActionView::Dispatch,
            Action::Reconnect => ActionView::Reconnect,
            Action::Sleep { millis } => ActionView::Sleep { millis },
            Action::Disconnect => ActionView::Disconnect,
            Action::Finish { result } => ActionView::Finish { result },
        }
    }
}

/// While this action is performed, the cancellation token is watched: the
/// wait for a message and the wait between reconnect attempts end early when
/// the token is set. The other actions are seen through to their end.
pub open spec fn observes_cancellation(action: ActionView) -> bool {
    action is Receive || action is Sleep
}

impl Action {
    /// Whether the cancellation token is watched while the action is
    /// performed.
    pub fn observes_cancellation(&self) -> (observes: bool)
        ensures
            observes == observes_cancellation(self@),
    {
        match self {
            Action::Receive => true,
            Action::Sleep { .. } => true,
            _ => false,
        }
    }
}

/// A consumer in this state has returned.
pub open spec fn is_final(state: State) -> bool {
    state is Stopped || state is Failed
}

/// A consumer in this state is on its way out.
pub open spec fn is_closing(state: State) -> bool {
    state is Stopping || state is Failing
}

/// The state that follows `state` when `event` is reported.
pub open spec fn next_state(state: State, event: Event) -> State {
    match state {
        State::Stopped | State::Failed(_) => state,
        State::Stopping => if event is DisconnectDone {
            State::Stopped
        } else {
            state
        },
        State::Failing(failure) => if event is DisconnectDone {
            State::Failed(failure)
        } else {
            state
        },
        _ => if event is Cancelled {
            State::Stopping
        } else {
            match (state, event) {
                (State::Disconnected, Event::Start) => State::Connecting,
                (State::Connecting, Event::ConnectOk) => State::Subscribing,
                (State::Connecting, Event::ConnectFailed) => State::Failing(
                    Failure::ConnectRejected,
                ),
                (State::Subscribing, Event::SubscribeOk) => State::Receiving,
                (State::Subscribing, Event::SubscribeFailed) => State::Failing(
                    Failure::SubscribeRejected,
                ),
                (State::Receiving, Event::MessageArrived) => State::Dispatching,
                (State::Receiving, Event::SessionLost) => State::Reconnecting,
                (State::Dispatching, Event::Handled { .. }) => State::Receiving,
                (State::Reconnecting, Event::ReconnectOk) => State::Subscribing,
                (State::Reconnecting, Event::ReconnectFailed) => State::Backoff,
                (State::Backoff, Event::DelayElapsed) => State::Reconnecting,
                _ => State::Failing(Failure::OutOfTurn),
            }
        },
    }
}

/// One subscription quality per topic, all of them [`SUBSCRIBE_QOS`].
pub open spec fn uniform_qos(count: nat) -> Seq<i32> {
    Seq::new(count, |i: int| SUBSCRIBE_QOS)
}

/// The action that is due in `state`. For a consumer that has not begun, that
/// is the connect it will begin with.
pub open spec fn action_due(state: State, mqtt: MqttView) -> ActionView {
    match state {
        State::Disconnected | State::Connecting => ActionView::Connect,
        State::Subscribing => ActionView::Subscribe {
            topics: mqtt.topic_names(),
            qos: uniform_qos(mqtt.topics.len()),
        },
        State::Receiving => ActionView::Receive,
        State::Dispatching => ActionView::Dispatch,
        State::Reconnecting => ActionView::Reconnect,
        State::Backoff => ActionView::Sleep { millis: RETRY_DELAY_MILLIS },
        State::Stopping | State::Failing(_) => ActionView::Disconnect,
        State::Stopped => ActionView::Finish { result: Ok(()) },
        State::Failed(failure) => ActionView::Finish { result: Err(failure) },
    }
}

/// The state after all of `events` have been reported, in order.
pub open spec fn run(state: State, events: Seq<Event>) -> State
    decreases events.len(),
{
    if events.len() == 0 {
        state
    } else {
        run(next_state(state, events[0]), events.drop_first())
    }
}

/// The actions that are asked for while `events` are reported: the action at
/// `i` is the answer to the event at `i`.
pub open spec fn trace(mqtt: MqttView, state: State, events: Seq<Event>) -> Seq<ActionView>
    decreases events.len(),
{
    if events.len() == 0 {
        Seq::empty()
    } else {
        let next = next_state(state, events[0]);
        seq![action_due(next, mqtt)] + trace(mqtt, next, events.drop_first())
    }
}

/// The names of the topics to subscribe to: one per binding, in the order of
/// the bindings.
pub fn topic_subscriptions(config: &Mqtt) -> (names: Vec<String>)
    ensures
        names.deep_view() == config@.topic_names(),
        names.len() == config.topics.len(),
{
    let mut names: Vec<String> = Vec::new();
    let mut i: usize = 0;
    while i < config.topics.len()
        invariant
            i <= config.topics.len(),
            names.len() == i,
            forall|j: int| 0 <= j < i ==> names@[j]@ == config.topics@[j].name@,
        decreases config.topics.len() - i,
    {
        names.push(config.topics[i].name.clone());
        i = i + 1;
    }
    assert(names.deep_view() =~= config@.topic_names());
    names
}

/// The quality of service for a batch of `count` subscriptions.
pub fn subscription_qos(count: usize) -> (qos: Vec<i32>)
    ensures
        qos@ == uniform_qos(count as nat),
{
    let mut qos: Vec<i32> = Vec::new();
    let mut i: usize = 0;
    while i < count
        invariant
            i <= count,
            qos.len() == i,
            forall|j: int| 0 <= j < i ==> qos@[j] == SUBSCRIBE_QOS,
        decreases count - i,
    {
        qos.push(SUBSCRIBE_QOS);
        i = i + 1;
    }
    assert(qos@ =~= uniform_qos(count as nat));
    qos
}

/// The consumer.
#[derive(Debug)]
pub struct ClientSubscriber {
    config: Mqtt,
    state: State,
}

/// What a consumer is: its configuration and where it stands.
pub struct ClientSubscriberView {
    pub config: MqttView,
    pub state: State,
}

impl View for ClientSubscriber {
    type V = ClientSubscriberView;

    closed spec fn view(&self) -> ClientSubscriberView {
        ClientSubscriberView { config: self.config@, state: self.state }
    }
}

impl ClientSubscriber {
    /// A consumer for the given broker section, not yet started.
    pub fn new(config: Mqtt) -> (subscriber: ClientSubscriber)
        ensures
            subscriber@ == (ClientSubscriberView { config: config@, state: State::Disconnected }),
    {
        ClientSubscriber { config, state: State::Disconnected }
    }

    /// The broker section this consumer was made for.
    pub fn config(&self) -> (config: &Mqtt)
        ensures
            config@ == self@.config,
    {
        &self.config
    }

    /// Where the consumer stands.
    pub fn state(&self) -> (state: State)
        ensures
            state == self@.state,
    {
        self.state
    }

    /// Whether the consumer has returned.
    pub fn is_done(&self) -> (done: bool)
        ensures
            done == is_final(self@.state),
    {
        match self.state {
            State::Stopped => true,
            State::Failed(_) => true,
            _ => false,
        }
    }

    /// The action that is due in the current state.
    pub fn due(&self) -> (action: Action)
        ensures
            action@ == action_due(self@.state, self@.config),
    {
        match self.state {
            State::Disconnected => Action::Connect,
            State::Connecting => Action::Connect,
            State::Subscribing => {
                let topics = topic_subscriptions(&self.config);
                let qos = subscription_qos(topics.len());
                Action::Subscribe { topics, qos }
            },
            State::Receiving => Action::Receive,
            State::Dispatching => Action::Dispatch,
            State::Reconnecting => Action::Reconnect,
            State::Backoff => Action::Sleep { millis: RETRY_DELAY_MILLIS },
            State::Stopping => Action::Disconnect,
            State::Failing(_) => Action::Disconnect,
            State::Stopped => Action::Finish { result: Ok(()) },
            State::Failed(failure) => Action::Finish { result: Err(failure) },
        }
    }

    /// Takes the outcome of the last action and answers with the action that
    /// is due next.
    ///
    /// * Cancellation, in any state that is not final, leads to `Disconnect`
    ///   and from there to `Stopped`.
    /// * A refused first connect or a refused subscription leads to
    ///   `Disconnect` and from there to `Failed`.
    /// * A lost session leads to `Reconnect`; every failed attempt is followed
    ///   by one `Sleep` of [`RETRY_DELAY_MILLIS`], every successful one by
    ///   `Subscribe`.
    /// * A received message leads to `Dispatch`, and whatever the handler
    ///   reports, to `Receive` again.
    /// * An event that cannot follow the action that was due ends the
    ///   consumer as `Failed(OutOfTurn)`, again through `Disconnect`.
    /// * A consumer that has returned stays as it is.
    pub fn step(&mut self, event: Event) -> (action: Action)
        ensures
            final(self)@.config == old(self)@.config,
            final(self)@.state == next_state(old(self)@.state, event),
            action@ == action_due(final(self)@.state, final(self)@.config),
    {
        let next = match self.state {
            State::Stopped => State::Stopped,
            State::Failed(failure) => State::Failed(failure),
            State::Stopping => match event {
                Event::DisconnectDone => State::Stopped,
                _ => State::Stopping,
            },
            State::Failing(failure) => match event {
                Event::DisconnectDone => State::Failed(failure),
                _ => State::Failing(failure),
            },
            state => match event {
                Event::Cancelled => State::Stopping,
                _ => match (state, event) {
                    (State::Disconnected, Event::Start) => State::Connecting,
                    (State::Connecting, Event::ConnectOk) => State::Subscribing,
                    (State::Connecting, Event::ConnectFailed) => State::Failing(
                        Failure::ConnectRejected,
                    ),
                    (State::Subscribing, Event::SubscribeOk) => State::Receiving,
                    (State::Subscribing, Event::SubscribeFailed) => State::Failing(
                        Failure::SubscribeRejected,
                    ),
                    (State::Receiving, Event::MessageArrived) => State::Dispatching,
                    (State::Receiving, Event::SessionLost) => State::Reconnecting,
                    (State::Dispatching, Event::Handled { .. }) => State::Receiving,
                    (State::Reconnecting, Event::ReconnectOk) => State::Subscribing,
                    (State::Reconnecting, Event::ReconnectFailed) => State::Backoff,
                    (State::Backoff, Event::DelayElapsed) => State::Reconnecting,
                    _ => State::Failing(Failure::OutOfTurn),
                },
            },
        };
        self.state = next;
        self.due()
    }
}

/// One action is asked for per event.
pub proof fn lemma_trace_len(mqtt: MqttView, state: State, events: Seq<Event>)
    ensures
        trace(mqtt, state, events).len() == events.len(),
    decreases events.len(),
{
    if events.len() > 0 {
        lemma_trace_len(mqtt, next_state(state, events[0]), events.drop_first());
    }
}

/// Reporting `first` and then `second` is reporting their concatenation.
pub proof fn lemma_run_append(state: State, first: Seq<Event>, second: Seq<Event>)
    ensures
        run(state, first + second) == run(run(state, first), second),
    decreases first.len(),
{
    if first.len() == 0 {
        assert(first + second =~= second);
    } else {
        assert((first + second).drop_first() =~= first.drop_first() + second);
        lemma_run_append(next_state(state, first[0]), first.drop_first(), second);
    }
}

/// The actions asked for during `first + second` are those asked for during
/// `first`, followed by those asked for during `second` from where `first`
/// led.
pub proof fn lemma_trace_append(
    mqtt: MqttView,
    state: State,
    first: Seq<Event>,
    second: Seq<Event>,
)
    ensures
        trace(mqtt, state, first + second) == trace(mqtt, state, first) + trace(
            mqtt,
            run(state, first),
            second,
        ),
    decreases first.len(),
{
    if first.len() == 0 {
        assert(first + second =~= second);
        assert(trace(mqtt, state, first) + trace(mqtt, state, second) =~= trace(
            mqtt,
            state,
            second,
        ));
    } else {
        let next = next_state(state, first[0]);
        assert((first + second).drop_first() =~= first.drop_first() + second);
        lemma_trace_append(mqtt, next, first.drop_first(), second);
        assert(trace(mqtt, state, first + second) =~= trace(mqtt, state, first) + trace(
            mqtt,
            run(state, first),
            second,
        ));
    }
}

/// One event leads to the next state and asks for the action due there.
pub proof fn lemma_single_event(mqtt: MqttView, state: State, event: Event)
    ensures
        run(state, seq![event]) == next_state(state, event),
        trace(mqtt, state, seq![event]) == seq![action_due(next_state(state, event), mqtt)],
{
    let events = seq![event];
    let next = next_state(state, event);
    assert(events.drop_first() =~= Seq::<Event>::empty());
    assert(run(next, events.drop_first()) == next);
    assert(trace(mqtt, next, events.drop_first()) =~= Seq::<ActionView>::empty());
    assert(trace(mqtt, state, events) =~= seq![action_due(next, mqtt)]);
}

/// Two events lead through two states and ask for the actions due there.
pub proof fn lemma_two_events(mqtt: MqttView, state: State, first: Event, second: Event)
    ensures
        run(state, seq![first, second]) == next_state(next_state(state, first), second),
        trace(mqtt, state, seq![first, second]) == seq![
            action_due(next_state(state, first), mqtt),
            action_due(next_state(next_state(state, first), second), mqtt),
        ],
{
    let middle = next_state(state, first);
    assert(seq![first, second] =~= seq![first] + seq![second]);
    lemma_single_event(mqtt, state, first);
    lemma_single_event(mqtt, middle, second);
    lemma_run_append(state, seq![first], seq![second]);
    lemma_trace_append(mqtt, state, seq![first], seq![second]);
    assert(seq![action_due(middle, mqtt)] + seq![action_due(next_state(middle, second), mqtt)]
        =~= seq![action_due(middle, mqtt), action_due(next_state(middle, second), mqtt)]);
}

/// `n` reconnect attempts that fail, each followed by the end of its delay.
pub open spec fn failed_attempts(n: nat) -> Seq<Event>
    decreases n,
{
    if n == 0 {
        Seq::empty()
    } else {
        seq![Event::ReconnectFailed, Event::DelayElapsed] + failed_attempts((n - 1) as nat)
    }
}

/// `n` times: one delay of [`RETRY_DELAY_MILLIS`], then one reconnect attempt.
pub open spec fn retries(n: nat) -> Seq<ActionView>
    decreases n,
{
    if n == 0 {
        Seq::empty()
    } else {
        seq![ActionView::Sleep { millis: RETRY_DELAY_MILLIS }, ActionView::Reconnect] + retries(
            (n - 1) as nat,
        )
    }
}

/// How many of the actions are delays.
pub open spec fn delays(actions: Seq<ActionView>) -> nat
    decreases actions.len(),
{
    if actions.len() == 0 {
        0
    } else {
        delays(actions.drop_first()) + if actions[0] is Sleep {
            1nat
        } else {
            0nat
        }
    }
}

/// The delays of a concatenation are those of its parts.
pub proof fn lemma_delays_append(first: Seq<ActionView>, second: Seq<ActionView>)
    ensures
        delays(first + second) == delays(first) + delays(second),
    decreases first.len(),
{
    if first.len() == 0 {
        assert(first + second =~= second);
    } else {
        assert((first + second).drop_first() =~= first.drop_first() + second);
        lemma_delays_append(first.drop_first(), second);
    }
}

/// While reconnect attempts fail, the consumer alternates between one delay
/// and one further attempt.
pub proof fn lemma_failed_attempts(mqtt: MqttView, n: nat)
    ensures
        run(State::Reconnecting, failed_attempts(n)) == State::Reconnecting,
        trace(mqtt, State::Reconnecting, failed_attempts(n)) == retries(n),
        delays(retries(n)) == n,
    decreases n,
{
    if n > 0 {
        let round = seq![Event::ReconnectFailed, Event::DelayElapsed];
        let rest = failed_attempts((n - 1) as nat);
        lemma_failed_attempts(mqtt, (n - 1) as nat);
        lemma_two_events(mqtt, State::Reconnecting, Event::ReconnectFailed, Event::DelayElapsed);
        lemma_run_append(State::Reconnecting, round, rest);
        lemma_trace_append(mqtt, State::Reconnecting, round, rest);
        let pair = seq![ActionView::Sleep { millis: RETRY_DELAY_MILLIS }, ActionView::Reconnect];
        lemma_delays_append(pair, retries((n - 1) as nat));
        assert(delays(pair) == 1) by {
            assert(pair.drop_first() =~= seq![ActionView::Reconnect]);
            assert(pair.drop_first().drop_first() =~= Seq::<ActionView>::empty());
            assert(delays(pair.drop_first().drop_first()) == 0);
            assert(delays(pair.drop_first()) == 0);
        }
    }
}

/// The events of an outage: the session is lost, `n` reconnect attempts fail,
/// and the next one succeeds.
pub open spec fn outage(n: nat) -> Seq<Event> {
    seq![Event::SessionLost] + failed_attempts(n) + seq![Event::ReconnectOk]
}

/// Riding out an outage. When a receiving consumer loses its session and `n`
/// reconnect attempts fail before one succeeds, it asks, in this order, for a
/// reconnect attempt, then `n` times for a delay of [`RETRY_DELAY_MILLIS`]
/// followed by another attempt, and at last for a subscription to every
/// configured topic at [`SUBSCRIBE_QOS`]. It asks for exactly `n` delays.
pub proof fn law_outage_is_ridden_out(mqtt: MqttView, n: nat)
    ensures
        run(State::Receiving, outage(n)) == State::Subscribing,
        trace(mqtt, State::Receiving, outage(n)) == seq![ActionView::Reconnect] + retries(n)
            + seq![
            ActionView::Subscribe {
                topics: mqtt.topic_names(),
                qos: uniform_qos(mqtt.topics.len()),
            },
        ],
        delays(trace(mqtt, State::Receiving, outage(n))) == n,
{
    let lost = seq![Event::SessionLost];
    let back = seq![Event::ReconnectOk];
    let subscribe = ActionView::Subscribe {
        topics: mqtt.topic_names(),
        qos: uniform_qos(mqtt.topics.len()),
    };
    lemma_failed_attempts(mqtt, n);
    lemma_single_event(mqtt, State::Receiving, Event::SessionLost);
    lemma_single_event(mqtt, State::Reconnecting, Event::ReconnectOk);
    lemma_run_append(State::Receiving, lost, failed_attempts(n));
    lemma_trace_append(mqtt, State::Receiving, lost, failed_attempts(n));
    lemma_run_append(State::Receiving, lost + failed_attempts(n), back);
    lemma_trace_append(mqtt, State::Receiving, lost + failed_attempts(n), back);
    lemma_delays_append(seq![ActionView::Reconnect], retries(n));
    lemma_delays_append(seq![ActionView::Reconnect] + retries(n), seq![subscribe]);
    assert(delays(seq![ActionView::Reconnect]) == 0) by {
        assert(seq![ActionView::Reconnect].drop_first() =~= Seq::<ActionView>::empty());
        assert(delays(seq![ActionView::Reconnect].drop_first()) == 0);
    }
    assert(delays(seq![subscribe]) == 0) by {
        assert(seq![subscribe].drop_first() =~= Seq::<ActionView>::empty());
        assert(delays(seq![subscribe].drop_first()) == 0);
    }
}

/// Two event sequences that differ at most in what the handler reported.
pub open spec fn same_but_for_handling(first: Seq<Event>, second: Seq<Event>) -> bool {
    &&& first.len() == second.len()
    &&& forall|i: int|
        0 <= i < first.len() ==> first[i] == second[i] || (first[i] is Handled
            && second[i] is Handled)
}

/// A message that is dropped leaves no mark. Whether the handler delivered a
/// message or dropped it, be it for an unknown topic, for a payload it could
/// not decode or for a refused write, the consumer goes on in the same way:
/// it reaches the same states and asks for the same actions.
pub proof fn law_dropped_message_leaves_no_mark(
    mqtt: MqttView,
    state: State,
    first: Seq<Event>,
    second: Seq<Event>,
)
    requires
        same_but_for_handling(first, second),
    ensures
        run(state, first) == run(state, second),
        trace(mqtt, state, first) == trace(mqtt, state, second),
    decreases first.len(),
{
    if first.len() > 0 {
        assert(first[0] == second[0] || (first[0] is Handled && second[0] is Handled));
        assert(next_state(state, first[0]) == next_state(state, second[0]));
        assert(same_but_for_handling(first.drop_first(), second.drop_first())) by {
            assert forall|i: int| 0 <= i < first.drop_first().len() implies first.drop_first()[i]
                == second.drop_first()[i] || (first.drop_first()[i] is Handled
                && second.drop_first()[i] is Handled) by {
                assert(first.drop_first()[i] == first[i + 1]);
                assert(second.drop_first()[i] == second[i + 1]);
            }
        }
        law_dropped_message_leaves_no_mark(
            mqtt,
            next_state(state, first[0]),
            first.drop_first(),
            second.drop_first(),
        );
    }
}

/// After a message, the next one. Whatever the handler reports of a
/// dispatched message, the consumer asks for the next message.
pub proof fn law_receiving_goes_on(mqtt: MqttView, delivered: bool)
    ensures
        next_state(State::Dispatching, Event::Handled { delivered }) == State::Receiving,
        action_due(next_state(State::Dispatching, Event::Handled { delivered }), mqtt)
            == ActionView::Receive,
{
}

/// Nothing is asked for twice. A dispatch answers the arrival of a message
/// at a receiving consumer and nothing else, so no message is handed to the
/// handler twice; a subscription answers a connect or a reconnect that
/// succeeded and nothing else, so no session is subscribed twice.
pub proof fn law_nothing_is_asked_twice(mqtt: MqttView, state: State, event: Event)
    ensures
        action_due(next_state(state, event), mqtt) is Dispatch <==> state is Receiving
            && event is MessageArrived,
        action_due(next_state(state, event), mqtt) is Subscribe <==> (state is Connecting
            && event is ConnectOk) || (state is Reconnecting && event is ReconnectOk),
{
}

/// Cancellation is looked for in every round. A dispatch is asked for only
/// after a wait for a message, and a reconnect attempt only after a wait for a
/// message or a wait between attempts; both waits watch the cancellation
/// token. So no round of the receive loop and no round of the retry loop goes
/// by without a look at the token.
pub proof fn law_cancellation_is_observed_every_round(mqtt: MqttView, state: State, event: Event)
    ensures
        next_state(state, event) is Dispatching ==> observes_cancellation(
            action_due(state, mqtt),
        ),
        next_state(state, event) is Reconnecting ==> observes_cancellation(
            action_due(state, mqtt),
        ),
{
}

/// Cancellation closes the session. A consumer that is cancelled, in whatever
/// state short of closing, asks for the session to be closed, and returns as
/// `Stopped` once that is done.
pub proof fn law_cancellation_disconnects(mqtt: MqttView, state: State)
    requires
        !is_final(state),
        !is_closing(state),
    ensures
        run(state, seq![Event::Cancelled, Event::DisconnectDone]) == State::Stopped,
        trace(mqtt, state, seq![Event::Cancelled, Event::DisconnectDone]) == seq![
            ActionView::Disconnect,
            ActionView::Finish { result: Ok(()) },
        ],
{
    lemma_two_events(mqtt, state, Event::Cancelled, Event::DisconnectDone);
}

/// A closing consumer returns when the closed session is reported, and not
/// before; until then it keeps asking for the session to be closed.
proof fn lemma_closing_returns(mqtt: MqttView, state: State, events: Seq<Event>) -> (k: int)
    requires
        is_closing(state),
        is_final(run(state, events)),
    ensures
        0 <= k < events.len(),
        events[k] == Event::DisconnectDone,
        trace(mqtt, state, events).len() == events.len(),
        trace(mqtt, state, events)[k] is Finish,
        forall|j: int| 0 <= j < k ==> trace(mqtt, state, events)[j] == ActionView::Disconnect,
    decreases events.len(),
{
    lemma_trace_len(mqtt, state, events);
    let next = next_state(state, events[0]);
    let rest = events.drop_first();
    lemma_trace_len(mqtt, next, rest);
    if events[0] == Event::DisconnectDone {
        0
    } else {
        assert(next == state);
        let inner = lemma_closing_returns(mqtt, next, rest);
        assert forall|j: int| 0 <= j < inner + 1 implies trace(mqtt, state, events)[j]
            == ActionView::Disconnect by {
            if j > 0 {
                assert(trace(mqtt, state, events)[j] == trace(mqtt, next, rest)[j - 1]);
            }
        }
        assert(trace(mqtt, state, events)[inner + 1] == trace(mqtt, next, rest)[inner]);
        inner + 1
    }
}

/// No way out but through a disconnect. A consumer that has returned was asked
/// to close the session, saw the closed session reported, and asked for
/// nothing final before that.
pub proof fn law_every_exit_disconnects(mqtt: MqttView, state: State, events: Seq<Event>)
    requires
        !is_final(state),
        !is_closing(state),
        is_final(run(state, events)),
    ensures
        trace(mqtt, state, events).len() == events.len(),
        exists|i: int, k: int|
            {
                &&& 0 <= i < k < events.len()
                &&& #[trigger] trace(mqtt, state, events)[i] == ActionView::Disconnect
                &&& #[trigger] events[k] == Event::DisconnectDone
                &&& trace(mqtt, state, events)[k] is Finish
                &&& forall|j: int| 0 <= j < k ==> !(trace(mqtt, state, events)[j] is Finish)
            },
    decreases events.len(),
{
    lemma_trace_len(mqtt, state, events);
    let next = next_state(state, events[0]);
    let rest = events.drop_first();
    lemma_trace_len(mqtt, next, rest);
    let actions = trace(mqtt, state, events);
    assert(!is_final(next));
    if is_closing(next) {
        let inner = lemma_closing_returns(mqtt, next, rest);
        let i = 0int;
        let k = inner + 1;
        assert(actions[i] == ActionView::Disconnect);
        assert(events[k] == rest[inner]);
        assert(actions[k] == trace(mqtt, next, rest)[inner]);
        assert forall|j: int| 0 <= j < k implies !(actions[j] is Finish) by {
            if j > 0 {
                assert(actions[j] == trace(mqtt, next, rest)[j - 1]);
            }
        }
    } else {
        law_every_exit_disconnects(mqtt, next, rest);
        let inner = trace(mqtt, next, rest);
        let (i0, k0) = choose|i: int, k: int|
            {
                &&& 0 <= i < k < rest.len()
                &&& #[trigger] inner[i] == ActionView::Disconnect
                &&& #[trigger] rest[k] == Event::DisconnectDone
                &&& inner[k] is Finish
                &&& forall|j: int| 0 <= j < k ==> !(inner[j] is Finish)
            };
        let i = i0 + 1;
        let k = k0 + 1;
        assert(actions[i] == inner[i0]);
        assert(actions[k] == inner[k0]);
        assert(events[k] == rest[k0]);
        assert forall|j: int| 0 <= j < k implies !(actions[j] is Finish) by {
            if j > 0 {
                assert(actions[j] == inner[j - 1]);
            }
        }
    }
}

/// `Stopped` is reached by cancellation only.
pub proof fn law_stopped_means_cancelled(state: State, events: Seq<Event>)
    requires
        !(state is Stopped),
        !(state is Stopping),
        run(state, events) is Stopped,
    ensures
        events.contains(Event::Cancelled),
    decreases events.len(),
{
    if events.len() > 0 {
        let next = next_state(state, events[0]);
        if events[0] == Event::Cancelled {
        } else {
            assert(!(next is Stopped) && !(next is Stopping));
            law_stopped_means_cancelled(next, events.drop_first());
            let i = choose|i: int|
                0 <= i < events.drop_first().len() && events.drop_first()[i] == Event::Cancelled;
            assert(events[i + 1] == Event::Cancelled);
        }
    }
}

} // verus!
