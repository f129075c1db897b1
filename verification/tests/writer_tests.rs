use lineserver::registry::{Action, Registry, RegistryCommand};
use lineserver::writer::{Writer, WriterAction, WriterCommand};

#[test]
fn send_frames_the_line_with_a_newline() {
    let mut w = Writer::new();
    let act = w.step(WriterCommand::Send(String::from("yo")));
    assert_eq!(act, Some(WriterAction::Write(String::from("yo\n"))));
    assert!(w.active());
    assert_eq!(w.sent_count(), 1);
    assert_eq!(w.sent_at(0), String::from("yo\n"));
}

#[test]
fn send_then_close_writes_before_the_socket_closes() {
    // the per-client queue "send a, then kick": the line reaches the
    // socket, and only then does the socket close
    let mut w = Writer::new();
    let act = w.step(WriterCommand::Send(String::from("a")));
    assert_eq!(act, Some(WriterAction::Write(String::from("a\n"))));
    assert!(w.active());
    let act = w.step(WriterCommand::Close);
    assert_eq!(act, Some(WriterAction::CloseSocket));
    assert!(!w.active());
    assert_eq!(w.sent_count(), 1);
    assert_eq!(w.sent_at(0), String::from("a\n"));
}

#[test]
fn nothing_is_processed_after_close() {
    let mut w = Writer::new();
    assert_eq!(w.step(WriterCommand::Close), Some(WriterAction::CloseSocket));
    assert_eq!(w.step(WriterCommand::Send(String::from("late"))), None);
    assert_eq!(w.step(WriterCommand::Close), None);
    assert_eq!(w.sent_count(), 0);
}

#[test]
fn write_error_moves_the_actor_toward_close() {
    let mut w = Writer::new();
    w.step(WriterCommand::Send(String::from("x")));
    w.on_write_error();
    assert!(!w.active());
    assert_eq!(w.step(WriterCommand::Send(String::from("y"))), None);
}

#[test]
fn kick_all_with_two_clients_closes_both_after_queued_sends() {
    // both writers receive Close after any previously queued Send, both
    // sockets close, and both disconnects are observed by the registry
    let mut reg = Registry::new();
    reg.handle_command(RegistryCommand::ClientConnected(7));
    reg.handle_command(RegistryCommand::ClientConnected(8));
    let sends = reg.handle_command(RegistryCommand::SendToAll(String::from("bye")));
    assert_eq!(
        sends,
        vec![
            Action::WriterSend(7, String::from("bye")),
            Action::WriterSend(8, String::from("bye")),
        ]
    );
    let closes = reg.handle_command(RegistryCommand::KickAll);
    assert_eq!(closes, vec![Action::WriterClose(7), Action::WriterClose(8)]);

    // each writer's private channel is FIFO: the queued send lands on the
    // socket, then the socket closes
    for _token in [7u64, 8u64] {
        let mut w = Writer::new();
        assert_eq!(
            w.step(WriterCommand::Send(String::from("bye"))),
            Some(WriterAction::Write(String::from("bye\n")))
        );
        assert_eq!(w.step(WriterCommand::Close), Some(WriterAction::CloseSocket));
        assert!(!w.active());
        assert_eq!(w.sent_at(0), String::from("bye\n"));
    }

    // the kicked clients' streams end; their disconnects reach the registry
    let acts = reg.handle_command(RegistryCommand::ClientDisconnected(0));
    assert!(!acts.is_empty());
    let acts = reg.handle_command(RegistryCommand::ClientDisconnected(1));
    assert!(!acts.is_empty());
    assert!(!reg.contains(0));
    assert!(!reg.contains(1));
}
