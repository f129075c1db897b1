use lineserver::bridge::{control_to_registry, event_dispatch, ControlGate};
use lineserver::events::{ListenerEvent, LuaEvent};
use lineserver::reader::{Reader, ReaderState};
use lineserver::registry::RegistryCommand;

#[test]
fn reader_registers_then_forwards_then_disconnects_once() {
    let mut r = Reader::new();
    assert_eq!(r.state(), ReaderState::Unregistered);
    let req = r.register_request(42);
    assert_eq!(req, RegistryCommand::ClientConnected(42));
    r.on_registered(3);
    assert_eq!(r.state(), ReaderState::Registered(3));
    let cmd = r.on_line(String::from("hello"));
    assert_eq!(cmd, RegistryCommand::LineReceived(3, String::from("hello")));
    let cmd = r.on_stream_end();
    assert_eq!(cmd, RegistryCommand::ClientDisconnected(3));
    assert_eq!(r.state(), ReaderState::Closed);
}

#[test]
fn control_commands_translate_one_to_one() {
    assert_eq!(
        control_to_registry(LuaEvent::SendTo(2, String::from("a"))),
        (RegistryCommand::SendTo(2, String::from("a")), false)
    );
    assert_eq!(
        control_to_registry(LuaEvent::SendToAll(String::from("b"))),
        (RegistryCommand::SendToAll(String::from("b")), false)
    );
    assert_eq!(
        control_to_registry(LuaEvent::Kick(4)),
        (RegistryCommand::Kick(4), false)
    );
    assert_eq!(
        control_to_registry(LuaEvent::KickAll),
        (RegistryCommand::KickAll, false)
    );
    assert_eq!(
        control_to_registry(LuaEvent::Shutdown),
        (RegistryCommand::Shutdown, true)
    );
}

#[test]
fn lifecycle_events_dispatch_to_the_right_callbacks() {
    let d = event_dispatch(ListenerEvent::ClientConnected(0));
    assert_eq!(d.callback, String::from("on_client_connected"));
    assert_eq!(d.client, 0);
    assert_eq!(d.line, None);

    let d = event_dispatch(ListenerEvent::ClientDisconnected(1));
    assert_eq!(d.callback, String::from("on_client_disconnected"));
    assert_eq!(d.client, 1);
    assert_eq!(d.line, None);

    let d = event_dispatch(ListenerEvent::LineReceived(2, String::from("hi")));
    assert_eq!(d.callback, String::from("on_line_received"));
    assert_eq!(d.client, 2);
    assert_eq!(d.line, Some(String::from("hi")));
}

#[test]
fn shutdown_gate_fires_exactly_once() {
    let mut g = ControlGate::new();
    assert!(g.try_shutdown());
    assert!(!g.try_shutdown());
    assert!(!g.try_shutdown());
}
