use mud_server::connection_manager::ssh_server::{key_is_allowed, Auth, Server, SessionState};
use mud_server::connection_manager::telnet_server::Config;
use mud_server::connection_manager::{Command, DataMessage};

const KEY: &str = "AAAAC3NzaC1lZDI1NTE5AAAAIJdxBSkkTnF4vpRyRxbEGR4lZA6VbOtW8hHtmZ9EmLer";
const OTHER_KEY: &str = "AAAAC3NzaC1lZDI1NTE5AAAAIMKNhtzUr2fwikH8YGJ0K2wFKGfDe7T1SFKqPk7KH9Iw";

fn open_handler() -> Server {
    let mut server = Server::init(vec![KEY.to_string()]);
    let mut handler = server.new();
    handler.auth_publickey("testuser", KEY);
    let _: Command<()> = handler.channel_open_session(());
    handler
}

fn send_line(handler: &mut Server, line: &[u8]) -> Option<DataMessage> {
    let reaction = handler.data(line);
    assert!(reaction.message.is_none());
    handler.data(b"\r").message
}

#[test]
fn check_accepted_pubkey_ssh_ed25519() {
    let mut server = Server::init(vec![KEY.to_string()]);
    let auth_result = server.auth_publickey("testuser", KEY);
    assert_eq!(auth_result, Auth::Accept);
}

#[test]
fn check_rejected_pubkey_ssh_ed25519() {
    let mut server = Server::init(vec![KEY.to_string()]);
    let auth_result = server.auth_publickey("testuser", OTHER_KEY);
    assert_eq!(auth_result, Auth::Reject);
}

#[test]
fn keys_are_compared_without_regard_to_ascii_case() {
    let allowed = vec![OTHER_KEY.to_string(), KEY.to_string()];
    assert!(key_is_allowed(&allowed, KEY));
    assert!(key_is_allowed(&allowed, OTHER_KEY));
    assert!(key_is_allowed(&allowed, &KEY.to_lowercase()));
    assert!(key_is_allowed(&allowed, &KEY.to_uppercase()));
    assert!(!key_is_allowed(&allowed, &KEY[1..]));
    assert!(!key_is_allowed(&allowed, &format!("{}=", KEY)));
    assert!(!key_is_allowed(&allowed, ""));
    assert!(!key_is_allowed(&Vec::new(), KEY));
    assert!(key_is_allowed(&vec![String::new()], ""));
    // Only ASCII letters are folded.
    assert!(!key_is_allowed(&vec!["\u{e4}".to_string()], "\u{c4}"));
    assert!(!key_is_allowed(&vec!["k".to_string()], "\u{212a}"));
    assert!(!key_is_allowed(&vec!["@".to_string()], "`"));
    assert!(!key_is_allowed(&vec!["[".to_string()], "{"));
}

#[test]
fn passwords_and_no_credentials_are_rejected() {
    let mut handler = Server::init(vec![KEY.to_string(), String::new()]);
    assert_eq!(handler.auth_none("testuser"), Auth::Reject);
    assert_eq!(handler.session_state(), SessionState::Authenticating);
    assert_eq!(handler.auth_password("testuser", KEY), Auth::Reject);
    assert_eq!(handler.auth_password("testuser", ""), Auth::Reject);
    assert_eq!(handler.session_state(), SessionState::Authenticating);
}

#[test]
fn each_connection_gets_the_next_id() {
    let mut server = Server::init(vec![KEY.to_string()]);
    assert_eq!(server.client_id(), 0);
    let first = server.new();
    let second = server.new();
    let mut third = server.new();
    assert_eq!(first.client_id(), 0);
    assert_eq!(second.client_id(), 1);
    assert_eq!(third.client_id(), 2);
    assert_eq!(server.client_id(), 3);
    assert_eq!(third.session_state(), SessionState::Connecting);
    assert!(!third.echo());
    assert_eq!(third.auth_publickey("testuser", KEY), Auth::Accept);
}

#[test]
fn a_session_registers_the_client() {
    let mut server = Server::init(vec![KEY.to_string()]);
    server.new();
    let mut handler = server.new();
    assert_eq!(handler.session_state(), SessionState::Connecting);
    assert_eq!(handler.auth_publickey("testuser", KEY), Auth::Accept);
    assert_eq!(handler.session_state(), SessionState::Authenticating);
    match handler.channel_open_session("the session") {
        Command::Register(id, name, session) => {
            assert_eq!(id, 1);
            assert_eq!(name, "testuser");
            assert_eq!(session, "the session");
        }
        other => panic!("{:?}", other),
    }
    assert_eq!(handler.session_state(), SessionState::Open);
    match handler.hangup::<()>() {
        Command::Hangup(id) => assert_eq!(id, 1),
        other => panic!("{:?}", other),
    }
    assert_eq!(handler.session_state(), SessionState::Closed);
}

#[test]
fn bytes_are_gathered_until_the_line_ends() {
    let mut handler = open_handler();
    for piece in [&b"lo"[..], b"o", b"k a", b"t port"] {
        let reaction = handler.data(piece);
        assert!(reaction.echo.is_none());
        assert!(reaction.message.is_none());
    }
    let reaction = handler.data(b"\r");
    assert!(reaction.echo.is_none());
    let message = reaction.message.unwrap();
    assert_eq!(message.client_id, 0);
    assert_eq!(message.data, b"look at port");

    let message = send_line(&mut handler, b"read").unwrap();
    assert_eq!(message.data, b"read");
}

#[test]
fn an_empty_line_is_a_message() {
    let mut handler = open_handler();
    let message = handler.data(b"\r").message.unwrap();
    assert_eq!(message.client_id, 0);
    assert!(message.data.is_empty());
}

#[test]
fn only_a_lone_carriage_return_ends_a_line() {
    let mut handler = open_handler();
    assert!(handler.data(b"look\r").message.is_none());
    assert!(handler.data(b"\r\n").message.is_none());
    assert!(handler.data(b"\n").message.is_none());
    assert!(handler.data(b"").message.is_none());
    let message = handler.data(b"\r").message.unwrap();
    assert_eq!(message.data, b"look\r\r\n\n");
}

#[test]
fn echo_commands_set_the_echo_and_stay_with_the_handler() {
    let mut handler = open_handler();
    assert!(!handler.echo());
    assert!(send_line(&mut handler, b"echo on").is_none());
    assert!(handler.echo());
    assert!(send_line(&mut handler, b"ECHO ON").is_none());
    assert!(handler.echo());
    assert!(send_line(&mut handler, b"Echo Off").is_none());
    assert!(!handler.echo());
    assert!(send_line(&mut handler, b"echo").is_none());
    assert!(handler.echo());
    assert!(send_line(&mut handler, b"eCHo").is_none());
    assert!(!handler.echo());
    assert!(send_line(&mut handler, b"echo off").is_none());
    assert!(!handler.echo());

    for line in [&b"echo  on"[..], b"echo on ", b" echo", b"echo of", b"echoon", b"echo\n"] {
        let message = send_line(&mut handler, line).unwrap();
        assert_eq!(message.data, line);
        assert!(!handler.echo());
    }
}

#[test]
fn with_echo_on_bytes_come_back_and_a_line_end_comes_back_as_crlf() {
    let mut handler = open_handler();
    send_line(&mut handler, b"echo on");
    assert_eq!(handler.data(b"lo").echo.unwrap(), b"lo");
    assert_eq!(handler.data(b"ok\r\n").echo.unwrap(), b"ok\r\n");
    assert_eq!(handler.data(b"").echo.unwrap(), b"");
    let reaction = handler.data(b"\r");
    assert_eq!(reaction.echo.unwrap(), b"\r\n");
    assert_eq!(reaction.message.unwrap().data, b"look\r\n");

    // The line that turns the echo off is still echoed, the next one is not.
    assert_eq!(handler.data(b"echo off").echo.unwrap(), b"echo off");
    let reaction = handler.data(b"\r");
    assert_eq!(reaction.echo.unwrap(), b"\r\n");
    assert!(reaction.message.is_none());
    assert!(handler.data(b"look").echo.is_none());
    assert!(handler.data(b"\r").echo.is_none());
}

#[test]
fn the_line_that_turns_the_echo_on_is_not_echoed() {
    let mut handler = open_handler();
    assert!(handler.data(b"echo on").echo.is_none());
    assert!(handler.data(b"\r").echo.is_none());
    assert_eq!(handler.data(b"x").echo.unwrap(), b"x");
}

#[test]
fn signals_change_nothing() {
    let mut handler = open_handler();
    handler.data(b"loo");
    handler.signal();
    handler.data(b"k");
    assert_eq!(handler.session_state(), SessionState::Open);
    assert_eq!(handler.data(b"\r").message.unwrap().data, b"look");
}

#[test]
fn the_default_config() {
    let config = Config::default();
    assert_eq!(config.banner, None);
    assert_eq!(config.window_size, 2097152);
    assert_eq!(config.maximum_packet_size, 32768);
    assert_eq!(config.connection_timeout, Some(600));
}
