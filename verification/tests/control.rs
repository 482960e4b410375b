use mqtt2influxdb2::control::{Msg, Signal};

#[test]
fn hangup_asks_for_a_reload() {
    assert_eq!(Msg::from_signal(Signal::Hangup), Msg::ReloadConfig);
}

#[test]
fn terminating_signals_ask_for_a_shutdown() {
    assert_eq!(Msg::from_signal(Signal::Interrupt), Msg::Shutdown);
    assert_eq!(Msg::from_signal(Signal::Quit), Msg::Shutdown);
    assert_eq!(Msg::from_signal(Signal::Terminate), Msg::Shutdown);
}
