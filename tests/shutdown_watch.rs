use async_echo::shutdown::{is_exit_command, ShutdownWatch, WatchAction};

#[test]
fn exit_command_is_exact() {
    assert!(is_exit_command(b"exit"));
    assert!(!is_exit_command(b"exit "));
    assert!(!is_exit_command(b"Exit"));
    assert!(!is_exit_command(b"exi"));
    assert!(!is_exit_command(b""));
}

#[test]
fn exit_line_stops_the_server() {
    let mut w = ShutdownWatch::new();
    w.receive(b"hello\nexit\nmore\n");
    assert_eq!(w.next_action(), WatchAction::Skip);
    assert_eq!(w.next_action(), WatchAction::Stop);
}

#[test]
fn exit_with_carriage_return_is_not_the_command() {
    let mut w = ShutdownWatch::new();
    w.receive(b"exit\r\nexit\n");
    assert_eq!(w.next_action(), WatchAction::Skip);
    assert_eq!(w.next_action(), WatchAction::Stop);
}

#[test]
fn incomplete_input_asks_for_more() {
    let mut w = ShutdownWatch::new();
    w.receive(b"exi");
    assert_eq!(w.next_action(), WatchAction::Read);
    w.receive(b"t\n");
    assert_eq!(w.next_action(), WatchAction::Stop);
}

#[test]
fn end_of_input_stops_the_server() {
    let mut w = ShutdownWatch::new();
    w.receive(b"quit\n");
    w.end_of_input();
    assert!(w.input_ended());
    assert_eq!(w.next_action(), WatchAction::Skip);
    assert_eq!(w.next_action(), WatchAction::Stop);
}

#[test]
fn invalid_input_fails_the_watch() {
    let mut w = ShutdownWatch::new();
    w.receive(&[0x80, 0x0a]);
    assert_eq!(w.next_action(), WatchAction::Fail);
}
