//! Lifecycle logic of a bridge that forwards sensor readings from a
//! publish/subscribe broker to a time-series database.
//!
//! The crate holds the decisions of the bridge and none of its I/O: each
//! component is a deterministic function from a state and an event to the next
//! state and the action the surrounding program has to perform.
//!
//! * [`control`]: the control messages and the signals that produce them.
//! * [`command_listener`]: the text protocol of the command socket.
//! * [`config`]: the configuration value and its topic bindings.
//! * [`influxdb`]: the mapping from one inbound message to one data point.
//! * [`mqtt`]: the consumer, a reconnecting subscriber state machine.
//! * [`service`]: a consumer paired with its message handler.
//! * [`supervisor`]: the owner of the single running consumer.

pub mod command_listener;
pub mod config;
pub mod control;
pub mod influxdb;
pub mod mqtt;
pub mod service;
pub mod supervisor;
pub mod text;

pub use crate::control::Msg;
