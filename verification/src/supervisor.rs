//! The supervisor: the one owner of the running consumer.
//!
//! The supervisor takes control messages one at a time and sees each through
//! to its end before it asks for the next. Like the consumer it decides and
//! does nothing else: [`Supervisor::step`] takes what happened last and answers
//! with the one [`SupervisorAction`] that is due next.
//!
//! A reload stops the running consumer, waits until it has stopped, loads the
//! configuration and starts a consumer built from it. If the configuration
//! cannot be loaded, the supervisor goes on without a consumer until the next
//! reload: it never falls back to the consumer it has just stopped.
//!
//! A shutdown stops the consumer, then the signal listener, then the command
//! listener, removes the command socket, closes the control channel and exits
//! with code 0. A step that fails does not hold up the steps after it.

use vstd::prelude::*;
use crate::config::{Config, ConfigView};
use crate::control::Msg;
use crate::service::{fresh_service, Service, ServiceView};

verus! {

/// The exit code of a clean shutdown.
pub const EXIT_CLEAN: i32 = 0;

/// What a supervisor is busy with.
#[derive(Debug, Clone, Copy, PartialEq, Eq, Structural)]
pub enum Phase {
    /// Nothing; the next control message is awaited.
    Idle,
    /// Reloading: the old consumer is being stopped.
    ReloadStopping,
    /// Reloading: the configuration is being loaded.
    ReloadLoading,
    /// Shutting down: the consumer is being stopped.
    ShutdownStopping,
    /// Shutting down: the signal listener is being stopped.
    ShutdownSignals,
    /// Shutting down: the command listener is being stopped.
    ShutdownListener,
    /// Shutting down: the command socket is being removed.
    ShutdownSocket,
    /// Shutting down: the control channel is being closed.
    ShutdownChannel,
    /// Final: everything is torn down.
    Terminated,
}

/// What a supervisor is: what it is busy with, and whether it holds a
/// consumer.
pub struct SupervisorView {
    pub phase: Phase,
    pub consumer: bool,
}

/// What the driver of a supervisor reports.
#[derive(Debug)]
pub enum SupervisorEvent {
    /// A control message was taken from the control channel.
    Control(Msg),
    /// The consumer has stopped for good.
    ConsumerStopped,
    /// The configuration was loaded.
    ConfigLoaded(Config),
    /// The configuration could not be loaded.
    ConfigRejected,
    /// The signal listener was dealt with; `ok` says whether it went well.
    SignalsStopped { ok: bool },
    /// The command listener was dealt with; `ok` says whether it went well.
    ListenerStopped { ok: bool },
    /// The command socket was dealt with; `ok` says whether it is gone.
    SocketRemoved { ok: bool },
    /// The control channel is closed.
    ChannelClosed,
}

/// What an event says.
pub enum SupervisorEventView {
    Control(Msg),
    ConsumerStopped,
    ConfigLoaded(ConfigView),
    ConfigRejected,
    SignalsStopped { ok: bool },
    ListenerStopped { ok: bool },
    SocketRemoved { ok: bool },
    ChannelClosed,
}

impl View for SupervisorEvent {
    type V = SupervisorEventView;

    open spec fn view(&self) -> SupervisorEventView {
        match *self {
            SupervisorEvent::Control(msg) => SupervisorEventView::Control(msg),
            SupervisorEvent::ConsumerStopped => SupervisorEventView::ConsumerStopped,
            SupervisorEvent::ConfigLoaded(config) => SupervisorEventView::ConfigLoaded(config@),
            SupervisorEvent::ConfigRejected => SupervisorEventView::ConfigRejected,
            SupervisorEvent::SignalsStopped { ok } => SupervisorEventView::SignalsStopped { ok },
            SupervisorEvent::ListenerStopped { ok } => SupervisorEventView::ListenerStopped { ok },
            SupervisorEvent::SocketRemoved { ok } => SupervisorEventView::SocketRemoved { ok },
            SupervisorEvent::ChannelClosed => SupervisorEventView::ChannelClosed,
        }
    }
}

/// What the driver of a supervisor is asked to do.
#[derive(Debug)]
pub enum SupervisorAction {
    /// Take the next control message from the control channel.
    AwaitControl,
    /// Cancel the consumer and wait until it has stopped.
    StopConsumer,
    /// Load the configuration.
    LoadConfig,
    /// Start this consumer with this handler and keep its cancellation handle;
    /// then take the next control message from the control channel.
    StartConsumer(Service),
    /// Stop the signal listener.
    StopSignals,
    /// Stop the command listener.
    StopCommandListener,
    /// Remove the command socket.
    RemoveSocket,
    /// Close the control channel.
    CloseChannel,
    /// Leave, with this exit code.
    Exit { code: i32 },
}

/// What an action says.
pub enum SupervisorActionView {
    AwaitControl,
    StopConsumer,
    LoadConfig,
    StartConsumer(ServiceView),
    StopSignals,
    StopCommandListener,
    RemoveSocket,
    CloseChannel,
    Exit { code: i32 },
}

impl View for SupervisorAction {
    type V = SupervisorActionView;

    open spec fn view(&self) -> SupervisorActionView {
        match *self {
            SupervisorAction::AwaitControl => SupervisorActionView::AwaitControl,
            SupervisorAction::StopConsumer => SupervisorActionView::StopConsumer,
            SupervisorAction::LoadConfig => SupervisorActionView::LoadConfig,
            SupervisorAction::StartConsumer(service) => SupervisorActionView::StartConsumer(
                service@,
            ),
            SupervisorAction::StopSignals => SupervisorActionView::StopSignals,
            SupervisorAction::StopCommandListener => SupervisorActionView::StopCommandListener,
            SupervisorAction::RemoveSocket => SupervisorActionView::RemoveSocket,
            SupervisorAction::CloseChannel => SupervisorActionView::CloseChannel,
            SupervisorAction::Exit { code } => SupervisorActionView::Exit { code },
        }
    }
}

/// A consumer is held while it is being stopped, and none is held while the
/// configuration is loaded or once a shutdown is past stopping the consumer.
pub open spec fn well_formed(state: SupervisorView) -> bool {
    match state.phase {
        Phase::Idle => true,
        Phase::ReloadStopping | Phase::ShutdownStopping => state.consumer,
        _ => !state.consumer,
    }
}

/// The action a supervisor in `phase` is waiting on.
pub open spec fn pending(phase: Phase) -> SupervisorActionView {
    match phase {
        Phase::Idle => SupervisorActionView::AwaitControl,
        Phase::ReloadStopping | Phase::ShutdownStopping => SupervisorActionView::StopConsumer,
        Phase::ReloadLoading => SupervisorActionView::LoadConfig,
        Phase::ShutdownSignals => SupervisorActionView::StopSignals,
        Phase::ShutdownListener => SupervisorActionView::StopCommandListener,
        Phase::ShutdownSocket => SupervisorActionView::RemoveSocket,
        Phase::ShutdownChannel => SupervisorActionView::CloseChannel,
        Phase::Terminated => SupervisorActionView::Exit { code: EXIT_CLEAN },
    }
}

/// `event` is an outcome of the action that a supervisor in `phase` is waiting
/// on.
pub open spec fn expected(phase: Phase, event: SupervisorEventView) -> bool {
    match phase {
        Phase::Idle => event is Control,
        Phase::ReloadStopping | Phase::ShutdownStopping => event is ConsumerStopped,
        Phase::ReloadLoading => event is ConfigLoaded || event is ConfigRejected,
        Phase::ShutdownSignals => event is SignalsStopped,
        Phase::ShutdownListener => event is ListenerStopped,
        Phase::ShutdownSocket => event is SocketRemoved,
        Phase::ShutdownChannel => event is ChannelClosed,
        Phase::Terminated => false,
    }
}

/// The state that follows `state` when `event` is reported. An event that is
/// not expected changes nothing.
pub open spec fn next(state: SupervisorView, event: SupervisorEventView) -> SupervisorView {
    if !expected(state.phase, event) {
        state
    } else {
        match state.phase {
            Phase::Idle => match event {
                SupervisorEventView::Control(Msg::ReloadConfig) => SupervisorView {
                    phase: if state.consumer {
                        Phase::ReloadStopping
                    } else {
                        Phase::ReloadLoading
                    },
                    consumer: state.consumer,
                },
                _ => SupervisorView {
                    phase: if state.consumer {
                        Phase::ShutdownStopping
                    } else {
                        Phase::ShutdownSignals
                    },
                    consumer: state.consumer,
                },
            },
            Phase::ReloadStopping => SupervisorView { phase: Phase::ReloadLoading, consumer: false },
            Phase::ReloadLoading => SupervisorView {
                phase: Phase::Idle,
                consumer: event is ConfigLoaded,
            },
            Phase::ShutdownStopping => SupervisorView {
                phase: Phase::ShutdownSignals,
                consumer: false,
            },
            Phase::ShutdownSignals => SupervisorView {
                phase: Phase::ShutdownListener,
                consumer: false,
            },
            Phase::ShutdownListener => SupervisorView {
                phase: Phase::ShutdownSocket,
                consumer: false,
            },
            Phase::ShutdownSocket => SupervisorView {
                phase: Phase::ShutdownChannel,
                consumer: false,
            },
            Phase::ShutdownChannel => SupervisorView { phase: Phase::Terminated, consumer: false },
            Phase::Terminated => state,
        }
    }
}

/// The action that answers `event` in `state`: to start the service built
/// from a configuration that was just loaded, and in every other case the
/// action that the following state is waiting on.
pub open spec fn answer(state: SupervisorView, event: SupervisorEventView) -> SupervisorActionView {
    match event {
        SupervisorEventView::ConfigLoaded(config) if state.phase is ReloadLoading =>
            SupervisorActionView::StartConsumer(fresh_service(config)),
        _ => pending(next(state, event).phase),
    }
}

/// The supervisor.
#[derive(Debug)]
pub struct Supervisor {
    phase: Phase,
    consumer: bool,
}

impl View for Supervisor {
    type V = SupervisorView;

    closed spec fn view(&self) -> SupervisorView {
        SupervisorView { phase: self.phase, consumer: self.consumer }
    }
}

impl Supervisor {
    #[verifier::type_invariant]
    spec fn consistent(&self) -> bool {
        well_formed(self@)
    }

    /// The supervisor at startup, with the configuration that was loaded
    /// first. It answers with the request to start the first consumer.
    pub fn start(config: Config) -> (started: (Supervisor, SupervisorAction))
        ensures
            started.0@ == (SupervisorView { phase: Phase::Idle, consumer: true }),
            started.1@ == SupervisorActionView::StartConsumer(fresh_service(config@)),
    {
        (
            Supervisor { phase: Phase::Idle, consumer: true },
            SupervisorAction::StartConsumer(Service::new(config)),
        )
    }

    /// What the supervisor is busy with.
    pub fn phase(&self) -> (phase: Phase)
        ensures
            phase == self@.phase,
            well_formed(self@),
    {
        proof {
            use_type_invariant(self);
        }
        self.phase
    }

    /// Whether the supervisor holds a consumer.
    pub fn has_consumer(&self) -> (held: bool)
        ensures
            held == self@.consumer,
            well_formed(self@),
    {
        proof {
            use_type_invariant(self);
        }
        self.consumer
    }

    /// Whether everything is torn down.
    pub fn is_terminated(&self) -> (done: bool)
        ensures
            done == (self@.phase is Terminated),
            done ==> !self@.consumer,
    {
        proof {
            use_type_invariant(self);
        }
        match self.phase {
            Phase::Terminated => true,
            _ => false,
        }
    }

    /// Takes the outcome of the last action and answers with the action that
    /// is due next.
    ///
    /// * `ReloadConfig`, while idle: stop the consumer if one is held, then
    ///   load the configuration. A loaded configuration is answered with the
    ///   consumer to start; a rejected one leaves the supervisor idle and
    ///   without a consumer.
    /// * `Shutdown`, while idle: stop the consumer if one is held, then stop
    ///   the signal listener, stop the command listener, remove the command
    ///   socket, close the control channel, and exit with [`EXIT_CLEAN`].
    ///   Each of these steps follows the one before whether that went well or
    ///   not.
    /// * An event that is no outcome of the action that was due changes
    ///   nothing, and is answered with that action again.
    pub fn step(&mut self, event: SupervisorEvent) -> (action: SupervisorAction)
        ensures
            final(self)@ == next(old(self)@, event@),
            action@ == answer(old(self)@, event@),
            well_formed(old(self)@),
            well_formed(final(self)@),
    {
        proof {
            use_type_invariant(&*self);
        }
        let phase = self.phase;
        let held = self.consumer;
        match (phase, event) {
            (Phase::Idle, SupervisorEvent::Control(Msg::ReloadConfig)) => {
                if held {
                    *self = Supervisor { phase: Phase::ReloadStopping, consumer: true };
                    SupervisorAction::StopConsumer
                } else {
                    *self = Supervisor { phase: Phase::ReloadLoading, consumer: false };
                    SupervisorAction::LoadConfig
                }
            },
            (Phase::Idle, SupervisorEvent::Control(Msg::Shutdown)) => {
                if held {
                    *self = Supervisor { phase: Phase::ShutdownStopping, consumer: true };
                    SupervisorAction::StopConsumer
                } else {
                    *self = Supervisor { phase: Phase::ShutdownSignals, consumer: false };
                    SupervisorAction::StopSignals
                }
            },
            (Phase::ReloadStopping, SupervisorEvent::ConsumerStopped) => {
                *self = Supervisor { phase: Phase::ReloadLoading, consumer: false };
                SupervisorAction::LoadConfig
            },
            (Phase::ReloadLoading, SupervisorEvent::ConfigLoaded(config)) => {
                *self = Supervisor { phase: Phase::Idle, consumer: true };
                SupervisorAction::StartConsumer(Service::new(config))
            },
            (Phase::ReloadLoading, SupervisorEvent::ConfigRejected) => {
                *self = Supervisor { phase: Phase::Idle, consumer: false };
                SupervisorAction::AwaitControl
            },
            (Phase::ShutdownStopping, SupervisorEvent::ConsumerStopped) => {
                *self = Supervisor { phase: Phase::ShutdownSignals, consumer: false };
                SupervisorAction::StopSignals
            },
            (Phase::ShutdownSignals, SupervisorEvent::SignalsStopped { .. }) => {
                *self = Supervisor { phase: Phase::ShutdownListener, consumer: false };
                SupervisorAction::StopCommandListener
            },
            (Phase::ShutdownListener, SupervisorEvent::ListenerStopped { .. }) => {
                *self = Supervisor { phase: Phase::ShutdownSocket, consumer: false };
                SupervisorAction::RemoveSocket
            },
            (Phase::ShutdownSocket, SupervisorEvent::SocketRemoved { .. }) => {
                *self = Supervisor { phase: Phase::ShutdownChannel, consumer: false };
                SupervisorAction::CloseChannel
            },
            (Phase::ShutdownChannel, SupervisorEvent::ChannelClosed) => {
                *self = Supervisor { phase: Phase::Terminated, consumer: false };
                SupervisorAction::Exit { code: EXIT_CLEAN }
            },
            (phase, _) => Self::waiting_on(phase),
        }
    }

    /// The action a supervisor in `phase` is waiting on.
    fn waiting_on(phase: Phase) -> (action: SupervisorAction)
        ensures
            action@ == pending(phase),
    {
        match phase {
            Phase::Idle => SupervisorAction::AwaitControl,
            Phase::ReloadStopping => SupervisorAction::StopConsumer,
            Phase::ShutdownStopping => SupervisorAction::StopConsumer,
            Phase::ReloadLoading => SupervisorAction::LoadConfig,
            Phase::ShutdownSignals => SupervisorAction::StopSignals,
            Phase::ShutdownListener => SupervisorAction::StopCommandListener,
            Phase::ShutdownSocket => SupervisorAction::RemoveSocket,
            Phase::ShutdownChannel => SupervisorAction::CloseChannel,
            Phase::Terminated => SupervisorAction::Exit { code: EXIT_CLEAN },
        }
    }
}

/// The state after all of `events` have been reported, in order.
pub open spec fn run(state: SupervisorView, events: Seq<SupervisorEventView>) -> SupervisorView
    decreases events.len(),
{
    if events.len() == 0 {
        state
    } else {
        run(next(state, events[0]), events.drop_first())
    }
}

/// The actions that are asked for while `events` are reported: the action at
/// `i` is the answer to the event at `i`.
pub open spec fn trace(state: SupervisorView, events: Seq<SupervisorEventView>) -> Seq<
    SupervisorActionView,
>
    decreases events.len(),
{
    if events.len() == 0 {
        Seq::empty()
    } else {
        seq![answer(state, events[0])] + trace(next(state, events[0]), events.drop_first())
    }
}

/// How many consumers a supervisor holds.
pub open spec fn held(state: SupervisorView) -> int {
    if state.consumer {
        1
    } else {
        0
    }
}

/// How many consumers are running after `events`, if `running` were running
/// before: one more for each consumer that was asked to be started, one less
/// for each that was asked to stop and has stopped.
pub open spec fn running_after(
    running: int,
    state: SupervisorView,
    events: Seq<SupervisorEventView>,
) -> int
    decreases events.len(),
{
    if events.len() == 0 {
        running
    } else {
        let stopped: int = if events[0] is ConsumerStopped && expected(state.phase, events[0]) {
            1
        } else {
            0
        };
        let started: int = if answer(state, events[0]) is StartConsumer {
            1
        } else {
            0
        };
        running_after(running - stopped + started, next(state, events[0]), events.drop_first())
    }
}

/// Reporting `event` and then `rest`.
pub proof fn lemma_first_event(
    state: SupervisorView,
    event: SupervisorEventView,
    rest: Seq<SupervisorEventView>,
)
    ensures
        run(state, seq![event] + rest) == run(next(state, event), rest),
        trace(state, seq![event] + rest) == seq![answer(state, event)] + trace(
            next(state, event),
            rest,
        ),
{
    assert((seq![event] + rest).drop_first() =~= rest);
}

/// One step keeps the supervisor well formed, starts a consumer only where
/// none is held, and changes what is held by what was started and stopped.
pub proof fn lemma_step_keeps_count(state: SupervisorView, event: SupervisorEventView)
    requires
        well_formed(state),
    ensures
        well_formed(next(state, event)),
        answer(state, event) is StartConsumer ==> !state.consumer,
        held(next(state, event)) == held(state) - (if event is ConsumerStopped && expected(
            state.phase,
            event,
        ) {
            1int
        } else {
            0int
        }) + (if answer(state, event) is StartConsumer {
            1int
        } else {
            0int
        }),
{
}

/// One consumer at a time. Whatever is reported to a supervisor, and in
/// whatever order, the consumers running are the one it holds or none: a
/// consumer is started only after the one before it has stopped.
pub proof fn law_one_consumer_at_a_time(state: SupervisorView, events: Seq<SupervisorEventView>)
    requires
        well_formed(state),
    ensures
        well_formed(run(state, events)),
        running_after(held(state), state, events) == held(run(state, events)),
        0 <= running_after(held(state), state, events) <= 1,
    decreases events.len(),
{
    if events.len() > 0 {
        lemma_step_keeps_count(state, events[0]);
        law_one_consumer_at_a_time(next(state, events[0]), events.drop_first());
    }
}

/// What is reported while a shutdown runs its course: the message itself, the
/// stopped consumer if one was held, and the outcome of each step of the
/// teardown.
pub open spec fn shutdown_events(
    consumer: bool,
    signals_ok: bool,
    listener_ok: bool,
    socket_ok: bool,
) -> Seq<SupervisorEventView> {
    seq![SupervisorEventView::Control(Msg::Shutdown)] + (if consumer {
        seq![SupervisorEventView::ConsumerStopped]
    } else {
        Seq::empty()
    }) + seq![
        SupervisorEventView::SignalsStopped { ok: signals_ok },
        SupervisorEventView::ListenerStopped { ok: listener_ok },
        SupervisorEventView::SocketRemoved { ok: socket_ok },
        SupervisorEventView::ChannelClosed,
    ]
}

/// The steps of a shutdown, in their order.
pub open spec fn shutdown_actions(consumer: bool) -> Seq<SupervisorActionView> {
    (if consumer {
        seq![SupervisorActionView::StopConsumer]
    } else {
        Seq::empty()
    }) + seq![
        SupervisorActionView::StopSignals,
        SupervisorActionView::StopCommandListener,
        SupervisorActionView::RemoveSocket,
        SupervisorActionView::CloseChannel,
        SupervisorActionView::Exit { code: EXIT_CLEAN },
    ]
}

/// The teardown from the point where no consumer is held any more.
proof fn lemma_teardown(signals_ok: bool, listener_ok: bool, socket_ok: bool)
    ensures
        ({
            let state = SupervisorView { phase: Phase::ShutdownSignals, consumer: false };
            let events = seq![
                SupervisorEventView::SignalsStopped { ok: signals_ok },
                SupervisorEventView::ListenerStopped { ok: listener_ok },
                SupervisorEventView::SocketRemoved { ok: socket_ok },
                SupervisorEventView::ChannelClosed,
            ];
            &&& run(state, events) == (SupervisorView { phase: Phase::Terminated, consumer: false })
            &&& trace(state, events) == seq![
                SupervisorActionView::StopCommandListener,
                SupervisorActionView::RemoveSocket,
                SupervisorActionView::CloseChannel,
                SupervisorActionView::Exit { code: EXIT_CLEAN },
            ]
        }),
{
    let s0 = SupervisorView { phase: Phase::ShutdownSignals, consumer: false };
    let s1 = SupervisorView { phase: Phase::ShutdownListener, consumer: false };
    let s2 = SupervisorView { phase: Phase::ShutdownSocket, consumer: false };
    let s3 = SupervisorView { phase: Phase::ShutdownChannel, consumer: false };
    let e0 = SupervisorEventView::SignalsStopped { ok: signals_ok };
    let e1 = SupervisorEventView::ListenerStopped { ok: listener_ok };
    let e2 = SupervisorEventView::SocketRemoved { ok: socket_ok };
    let e3 = SupervisorEventView::ChannelClosed;
    let none = Seq::<SupervisorEventView>::empty();
    lemma_first_event(s3, e3, none);
    lemma_first_event(s2, e2, seq![e3] + none);
    lemma_first_event(s1, e1, seq![e2] + (seq![e3] + none));
    lemma_first_event(s0, e0, seq![e1] + (seq![e2] + (seq![e3] + none)));
    assert(seq![e0] + (seq![e1] + (seq![e2] + (seq![e3] + none))) =~= seq![e0, e1, e2, e3]);
    assert(trace(s0, seq![e0, e1, e2, e3]) =~= seq![
        SupervisorActionView::StopCommandListener,
        SupervisorActionView::RemoveSocket,
        SupervisorActionView::CloseChannel,
        SupervisorActionView::Exit { code: EXIT_CLEAN },
    ]);
}

/// A shutdown runs its course. An idle supervisor that is told to shut down
/// asks for the consumer to be stopped if it holds one, then for the signal
/// listener to be stopped, the command listener to be stopped, the command
/// socket to be removed and the control channel to be closed, in this order
/// and whether or not the step before went well; then it asks to exit with
/// code 0. It ends terminated and holds no consumer.
pub proof fn law_shutdown_runs_its_course(
    state: SupervisorView,
    signals_ok: bool,
    listener_ok: bool,
    socket_ok: bool,
)
    requires
        state.phase is Idle,
    ensures
        run(state, shutdown_events(state.consumer, signals_ok, listener_ok, socket_ok)) == (
        SupervisorView { phase: Phase::Terminated, consumer: false }),
        trace(state, shutdown_events(state.consumer, signals_ok, listener_ok, socket_ok))
            == shutdown_actions(state.consumer),
{
    let teardown = seq![
        SupervisorEventView::SignalsStopped { ok: signals_ok },
        SupervisorEventView::ListenerStopped { ok: listener_ok },
        SupervisorEventView::SocketRemoved { ok: socket_ok },
        SupervisorEventView::ChannelClosed,
    ];
    let rest = seq![
        SupervisorActionView::StopCommandListener,
        SupervisorActionView::RemoveSocket,
        SupervisorActionView::CloseChannel,
        SupervisorActionView::Exit { code: EXIT_CLEAN },
    ];
    let shutdown = SupervisorEventView::Control(Msg::Shutdown);
    let events = shutdown_events(state.consumer, signals_ok, listener_ok, socket_ok);
    lemma_teardown(signals_ok, listener_ok, socket_ok);
    if state.consumer {
        let stopping = SupervisorView { phase: Phase::ShutdownStopping, consumer: true };
        let stopped = SupervisorEventView::ConsumerStopped;
        lemma_first_event(stopping, stopped, teardown);
        lemma_first_event(state, shutdown, seq![stopped] + teardown);
        assert(events =~= seq![shutdown] + (seq![stopped] + teardown));
        assert(shutdown_actions(true) =~= seq![SupervisorActionView::StopConsumer] + (seq![
            SupervisorActionView::StopSignals,
        ] + rest));
    } else {
        lemma_first_event(state, shutdown, teardown);
        assert(events =~= seq![shutdown] + teardown);
        assert(shutdown_actions(false) =~= seq![SupervisorActionView::StopSignals] + rest);
    }
}

/// Once terminated, always terminated: whatever is reported, the supervisor
/// holds nothing and asks to exit with code 0.
pub proof fn law_terminated_is_final(event: SupervisorEventView)
    ensures
        ({
            let done = SupervisorView { phase: Phase::Terminated, consumer: false };
            &&& next(done, event) == done
            &&& answer(done, event) == SupervisorActionView::Exit { code: EXIT_CLEAN }
        }),
{
}

/// A reload replaces the consumer. An idle supervisor that holds a consumer
/// and is told to reload asks for that consumer to be stopped, then for the
/// configuration, and answers the loaded configuration with the service built
/// from it, which has not begun. It asks for no start before the stop is
/// reported.
pub proof fn law_reload_replaces_the_consumer(config: ConfigView)
    ensures
        ({
            let state = SupervisorView { phase: Phase::Idle, consumer: true };
            let events = seq![
                SupervisorEventView::Control(Msg::ReloadConfig),
                SupervisorEventView::ConsumerStopped,
                SupervisorEventView::ConfigLoaded(config),
            ];
            &&& run(state, events) == state
            &&& trace(state, events) == seq![
                SupervisorActionView::StopConsumer,
                SupervisorActionView::LoadConfig,
                SupervisorActionView::StartConsumer(fresh_service(config)),
            ]
        }),
{
    let s0 = SupervisorView { phase: Phase::Idle, consumer: true };
    let s1 = SupervisorView { phase: Phase::ReloadStopping, consumer: true };
    let s2 = SupervisorView { phase: Phase::ReloadLoading, consumer: false };
    let e0 = SupervisorEventView::Control(Msg::ReloadConfig);
    let e1 = SupervisorEventView::ConsumerStopped;
    let e2 = SupervisorEventView::ConfigLoaded(config);
    let none = Seq::<SupervisorEventView>::empty();
    lemma_first_event(s2, e2, none);
    lemma_first_event(s1, e1, seq![e2] + none);
    lemma_first_event(s0, e0, seq![e1] + (seq![e2] + none));
    assert(seq![e0] + (seq![e1] + (seq![e2] + none)) =~= seq![e0, e1, e2]);
    assert(trace(s0, seq![e0, e1, e2]) =~= seq![
        SupervisorActionView::StopConsumer,
        SupervisorActionView::LoadConfig,
        SupervisorActionView::StartConsumer(fresh_service(config)),
    ]);
}

/// A reload that finds no configuration leaves no consumer. The old consumer
/// is stopped before the configuration is asked for; when the configuration
/// is rejected, the supervisor is idle again, holds no consumer, and asks for
/// the next control message.
pub proof fn law_failed_reload_leaves_no_consumer()
    ensures
        ({
            let state = SupervisorView { phase: Phase::Idle, consumer: true };
            let events = seq![
                SupervisorEventView::Control(Msg::ReloadConfig),
                SupervisorEventView::ConsumerStopped,
                SupervisorEventView::ConfigRejected,
            ];
            &&& run(state, events) == (SupervisorView { phase: Phase::Idle, consumer: false })
            &&& trace(state, events) == seq![
                SupervisorActionView::StopConsumer,
                SupervisorActionView::LoadConfig,
                SupervisorActionView::AwaitControl,
            ]
        }),
{
    let s0 = SupervisorView { phase: Phase::Idle, consumer: true };
    let s1 = SupervisorView { phase: Phase::ReloadStopping, consumer: true };
    let s2 = SupervisorView { phase: Phase::ReloadLoading, consumer: false };
    let e0 = SupervisorEventView::Control(Msg::ReloadConfig);
    let e1 = SupervisorEventView::ConsumerStopped;
    let e2 = SupervisorEventView::ConfigRejected;
    let none = Seq::<SupervisorEventView>::empty();
    lemma_first_event(s2, e2, none);
    lemma_first_event(s1, e1, seq![e2] + none);
    lemma_first_event(s0, e0, seq![e1] + (seq![e2] + none));
    assert(seq![e0] + (seq![e1] + (seq![e2] + none)) =~= seq![e0, e1, e2]);
    assert(trace(s0, seq![e0, e1, e2]) =~= seq![
        SupervisorActionView::StopConsumer,
        SupervisorActionView::LoadConfig,
        SupervisorActionView::AwaitControl,
    ]);
}

/// One control message at a time: the next one is asked for by an idle
/// supervisor only.
pub proof fn law_one_message_at_a_time(state: SupervisorView, event: SupervisorEventView)
    ensures
        answer(state, event) is AwaitControl ==> next(state, event).phase is Idle,
        answer(state, event) is StartConsumer ==> next(state, event).phase is Idle,
        !(next(state, event).phase is Idle) ==> !expected(
            next(state, event).phase,
            SupervisorEventView::Control(Msg::ReloadConfig),
        ) && !expected(next(state, event).phase, SupervisorEventView::Control(Msg::Shutdown)),
{
}

} // verus!
