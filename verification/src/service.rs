//! A consumer together with the message handler it feeds.
//!
//! Both are built from one configuration, and a reload replaces both at once:
//! nothing of the old pair lives on in the new one.

use vstd::prelude::*;
use crate::config::{Config, ConfigView, InfluxdbView};
use crate::influxdb::{handling, request_view, HandleError, SensorReading, WriteRequest, Writer};
use crate::mqtt::{
    action_due, next_state, Action, ClientSubscriber, ClientSubscriberView, Event, State,
};

verus! {

/// A consumer and its message handler.
#[derive(Debug)]
pub struct Service {
    mqtt_subscriber: ClientSubscriber,
    mqtt_message_handler: Writer,
}

/// What a service is: its consumer and the database section of its handler.
pub struct ServiceView {
    pub subscriber: ClientSubscriberView,
    pub handler: InfluxdbView,
}

impl View for Service {
    type V = ServiceView;

    closed spec fn view(&self) -> ServiceView {
        ServiceView { subscriber: self.mqtt_subscriber@, handler: self.mqtt_message_handler@ }
    }
}

/// The service for a configuration, before anything has been attempted: a
/// consumer for the broker section that has not begun, and a handler for the
/// database section.
pub open spec fn fresh_service(config: ConfigView) -> ServiceView {
    ServiceView {
        subscriber: ClientSubscriberView { config: config.mqtt, state: State::Disconnected },
        handler: config.influxdb2,
    }
}

impl Service {
    /// Builds the consumer and the handler for `config`.
    pub fn new(config: Config) -> (service: Service)
        ensures
            service@ == fresh_service(config@),
    {
        Service {
            mqtt_subscriber: ClientSubscriber::new(config.mqtt),
            mqtt_message_handler: Writer::new(config.influxdb2),
        }
    }

    /// Gives up this service for the one built from `new_config`. Whatever
    /// state the old consumer was in, the new one has not begun.
    pub fn reload(self, new_config: Config) -> (service: Service)
        ensures
            service@ == fresh_service(new_config@),
    {
        Service::new(new_config)
    }

    /// Takes the service apart, into its consumer and its handler.
    pub fn into_parts(self) -> (parts: (ClientSubscriber, Writer))
        ensures
            parts.0@ == self@.subscriber,
            parts.1@ == self@.handler,
    {
        (self.mqtt_subscriber, self.mqtt_message_handler)
    }

    /// The consumer.
    pub fn subscriber(&self) -> (subscriber: &ClientSubscriber)
        ensures
            subscriber@ == self@.subscriber,
    {
        &self.mqtt_subscriber
    }

    /// The message handler.
    pub fn handler(&self) -> (handler: &Writer)
        ensures
            handler@ == self@.handler,
    {
        &self.mqtt_message_handler
    }

    /// Advances the consumer by one event, as [`ClientSubscriber::step`] does.
    /// The handler is left alone.
    pub fn step(&mut self, event: Event) -> (action: Action)
        ensures
            final(self)@.handler == old(self)@.handler,
            final(self)@.subscriber.config == old(self)@.subscriber.config,
            final(self)@.subscriber.state == next_state(old(self)@.subscriber.state, event),
            action@ == action_due(final(self)@.subscriber.state, final(self)@.subscriber.config),
    {
        self.mqtt_subscriber.step(event)
    }

    /// Hands one message to the handler, to be resolved against the topic
    /// bindings of this service's own consumer.
    pub fn handle(&self, topic: &str, reading: Option<SensorReading>) -> (request: Result<
        WriteRequest,
        HandleError,
    >)
        ensures
            request_view(request) == handling(
                self@.handler,
                self@.subscriber.config,
                topic@,
                reading,
            ),
    {
        self.mqtt_message_handler.handle(topic, reading, self.mqtt_subscriber.config())
    }
}

} // verus!
