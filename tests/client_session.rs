use async_echo::client::{ClientAction, ClientSession};
use async_echo::echo::{EchoAction, EchoSession};

#[test]
fn server_lines_are_shown() {
    let mut c = ClientSession::new();
    assert!(c.is_running());
    c.receive_remote(b"one\ntwo\n");
    assert_eq!(c.next_remote(), ClientAction::Show(b"one".to_vec()));
    assert_eq!(c.next_remote(), ClientAction::Show(b"two".to_vec()));
    assert_eq!(c.next_remote(), ClientAction::ReadRemote);
    assert!(c.is_running());
}

#[test]
fn local_lines_are_sent_with_newline() {
    let mut c = ClientSession::new();
    c.receive_local(b"hi\r\nthere\n");
    assert_eq!(c.next_local(), ClientAction::Send(b"hi\r\n".to_vec()));
    assert_eq!(c.next_local(), ClientAction::Send(b"there\n".to_vec()));
    assert_eq!(c.next_local(), ClientAction::ReadLocal);
    assert!(c.is_running());
}

#[test]
fn server_close_ends_session_despite_pending_input() {
    let mut c = ClientSession::new();
    c.receive_local(b"unsent\nand more");
    c.receive_remote(b"last\n");
    c.close_remote();
    assert!(c.remote_ended());
    assert_eq!(c.next_remote(), ClientAction::Show(b"last".to_vec()));
    assert_eq!(c.next_remote(), ClientAction::ServerClosed);
    assert!(!c.is_running());
    assert!(!c.local_ended());
}

#[test]
fn local_end_ends_session_while_server_is_open() {
    let mut c = ClientSession::new();
    c.receive_remote(b"pending");
    c.close_local();
    assert!(c.local_ended());
    assert_eq!(c.next_local(), ClientAction::Quit);
    assert!(!c.is_running());
    assert!(!c.remote_ended());
}

#[test]
fn invalid_utf8_from_server_fails_session() {
    let mut c = ClientSession::new();
    c.receive_remote(&[0xfe, 0x0a]);
    assert_eq!(c.next_remote(), ClientAction::Fail);
    assert!(!c.is_running());
}

#[test]
fn hello_round_trip() {
    let mut c = ClientSession::new();
    let mut s = EchoSession::new();
    c.receive_local(b"hello\n");
    let sent = match c.next_local() {
        ClientAction::Send(b) => b,
        other => panic!("unexpected {:?}", other),
    };
    assert_eq!(sent, b"hello\n".to_vec());
    s.receive(&sent);
    let reply = match s.next_action() {
        EchoAction::Write(b) => b,
        other => panic!("unexpected {:?}", other),
    };
    assert_eq!(reply, b"hello\n".to_vec());
    c.receive_remote(&reply);
    assert_eq!(c.next_remote(), ClientAction::Show(b"hello".to_vec()));
    let shown = String::from_utf8(b"hello".to_vec()).unwrap();
    assert_eq!(format!("server: {}", shown), "server: hello");
}
