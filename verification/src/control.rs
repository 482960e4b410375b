//! Control messages, and the process signals that give rise to them.

use vstd::prelude::*;

verus! {

/// What the supervisor can be asked to do.
#[derive(Debug, Clone, Copy, PartialEq, Eq, Structural)]
pub enum Msg {
    /// Replace the running consumer by one built from freshly loaded
    /// configuration.
    ReloadConfig,
    /// Tear everything down and leave.
    Shutdown,
}

/// The process signals the bridge listens for.
#[derive(Debug, Clone, Copy, PartialEq, Eq, Structural)]
pub enum Signal {
    /// The controlling terminal went away; by convention a request to reload.
    Hangup,
    /// Interrupt from the keyboard.
    Interrupt,
    /// Quit from the keyboard.
    Quit,
    /// Polite request to terminate.
    Terminate,
}

/// The control message a signal stands for.
pub open spec fn signal_message(signal: Signal) -> Msg {
    match signal {
        Signal::Hangup => Msg::ReloadConfig,
        Signal::Interrupt | Signal::Quit | Signal::Terminate => Msg::Shutdown,
    }
}

impl Msg {
    /// Translates a signal: a hangup asks for a reload, each of the terminating
    /// signals for a shutdown.
    pub fn from_signal(signal: Signal) -> (msg: Msg)
        ensures
            msg == signal_message(signal),
    {
        match signal {
            Signal::Hangup => Msg::ReloadConfig,
            Signal::Interrupt => Msg::Shutdown,
            Signal::Quit => Msg::Shutdown,
            Signal::Terminate => Msg::Shutdown,
        }
    }
}

} // verus!
