use lineserver::events::ListenerEvent;
use lineserver::registry::{Action, Registry, RegistryCommand};

#[test]
fn connect_line_send_disconnect_reuse() {
    // Connect client A: id 0 is assigned and announced.
    let mut reg = Registry::new();
    let acts = reg.handle_command(RegistryCommand::ClientConnected(100));
    assert_eq!(
        acts,
        vec![
            Action::AssignId(0),
            Action::Emit(ListenerEvent::ClientConnected(0)),
        ]
    );
    // Connect client B: id 1.
    let acts = reg.handle_command(RegistryCommand::ClientConnected(200));
    assert_eq!(
        acts,
        vec![
            Action::AssignId(1),
            Action::Emit(ListenerEvent::ClientConnected(1)),
        ]
    );
    // A sends a line: forwarded verbatim to the control layer.
    let acts = reg.handle_command(RegistryCommand::LineReceived(0, String::from("hi")));
    assert_eq!(
        acts,
        vec![Action::Emit(ListenerEvent::LineReceived(0, String::from("hi")))]
    );
    // SendTo(1, "yo"): queued on B's writer channel.
    let acts = reg.handle_command(RegistryCommand::SendTo(1, String::from("yo")));
    assert_eq!(acts, vec![Action::WriterSend(200, String::from("yo"))]);
    // Disconnect A: announced, and id 0 becomes allocatable again.
    let acts = reg.handle_command(RegistryCommand::ClientDisconnected(0));
    assert_eq!(acts, vec![Action::Emit(ListenerEvent::ClientDisconnected(0))]);
    assert!(!reg.contains(0));
    // Connect client C: receives the freed id 0.
    let acts = reg.handle_command(RegistryCommand::ClientConnected(300));
    assert_eq!(
        acts,
        vec![
            Action::AssignId(0),
            Action::Emit(ListenerEvent::ClientConnected(0)),
        ]
    );
}

#[test]
fn send_to_absent_id_is_silently_ignored() {
    let mut reg = Registry::new();
    reg.handle_command(RegistryCommand::ClientConnected(100));
    let acts = reg.handle_command(RegistryCommand::SendTo(5, String::from("x")));
    assert_eq!(acts, Vec::new());
    let acts = reg.handle_command(RegistryCommand::Kick(5));
    assert_eq!(acts, Vec::new());
}

#[test]
fn duplicate_disconnect_is_a_no_op() {
    let mut reg = Registry::new();
    reg.handle_command(RegistryCommand::ClientConnected(100));
    let acts = reg.handle_command(RegistryCommand::ClientDisconnected(0));
    assert_eq!(acts, vec![Action::Emit(ListenerEvent::ClientDisconnected(0))]);
    // the second notification neither errors nor emits a stale event
    let acts = reg.handle_command(RegistryCommand::ClientDisconnected(0));
    assert_eq!(acts, Vec::new());
}

#[test]
fn broadcast_reaches_every_live_client_in_id_order() {
    let mut reg = Registry::new();
    reg.handle_command(RegistryCommand::ClientConnected(100));
    reg.handle_command(RegistryCommand::ClientConnected(200));
    reg.handle_command(RegistryCommand::ClientConnected(300));
    // a vacancy in the middle is skipped, not an error
    reg.handle_command(RegistryCommand::ClientDisconnected(1));
    let acts = reg.handle_command(RegistryCommand::SendToAll(String::from("x")));
    assert_eq!(
        acts,
        vec![
            Action::WriterSend(100, String::from("x")),
            Action::WriterSend(300, String::from("x")),
        ]
    );
}

#[test]
fn kick_all_closes_every_live_writer() {
    let mut reg = Registry::new();
    reg.handle_command(RegistryCommand::ClientConnected(7));
    reg.handle_command(RegistryCommand::ClientConnected(8));
    let acts = reg.handle_command(RegistryCommand::KickAll);
    assert_eq!(acts, vec![Action::WriterClose(7), Action::WriterClose(8)]);
}

#[test]
fn shutdown_closes_all_and_ends_the_command_loop() {
    let mut reg = Registry::new();
    reg.handle_command(RegistryCommand::ClientConnected(7));
    reg.handle_command(RegistryCommand::ClientConnected(8));
    let acts = reg.handle_command(RegistryCommand::Shutdown);
    assert_eq!(
        acts,
        vec![
            Action::WriterClose(7),
            Action::WriterClose(8),
            Action::NotifyShutdown,
        ]
    );
    assert!(!reg.running());
    // nothing is accepted after the terminal transition
    let acts = reg.handle_command(RegistryCommand::ClientConnected(9));
    assert_eq!(acts, Vec::new());
    let acts = reg.handle_command(RegistryCommand::SendToAll(String::from("x")));
    assert_eq!(acts, Vec::new());
    let acts = reg.handle_command(RegistryCommand::Shutdown);
    assert_eq!(acts, Vec::new());
}

#[test]
fn kick_closes_exactly_the_target() {
    let mut reg = Registry::new();
    reg.handle_command(RegistryCommand::ClientConnected(100));
    reg.handle_command(RegistryCommand::ClientConnected(200));
    let acts = reg.handle_command(RegistryCommand::Kick(0));
    assert_eq!(acts, vec![Action::WriterClose(100)]);
    assert!(reg.contains(0));
}

#[test]
fn broadcast_with_no_clients_does_nothing() {
    let mut reg = Registry::new();
    assert_eq!(
        reg.handle_command(RegistryCommand::SendToAll(String::from("x"))),
        Vec::new()
    );
    assert_eq!(reg.handle_command(RegistryCommand::KickAll), Vec::new());
    let acts = reg.handle_command(RegistryCommand::Shutdown);
    assert_eq!(acts, vec![Action::NotifyShutdown]);
}
