use termote::auth::{validate_token, AuthResult};
use termote::cli::{arg_value, generate_token, parse_port, IpcCommand};
use termote::state::{AppState, ConnectedDevice, SecurityState};
use termote::terminal::{
    browser_opened_message, kill_result_message, pty_output, shell_program, spawn_failed_message,
};
use termote::protocol::FirstMessage;
use termote::ClientMessage;
use termote::messages::ServerMessage;

fn s(x: &str) -> String {
    x.to_string()
}

fn args(v: &[&str]) -> Vec<String> {
    v.iter().map(|a| a.to_string()).collect()
}

fn state() -> AppState {
    AppState::new(s("tok"), s("/"), s("ws://x"), None, SecurityState::new(Vec::new(), Vec::new()))
}

#[test]
fn option_values() {
    assert_eq!(arg_value(&args(&["prog", "--port", "8080"]), "port"), Some(s("8080")));
    assert_eq!(arg_value(&args(&["prog", "--port=9000"]), "port"), Some(s("9000")));
    assert_eq!(arg_value(&args(&["prog", "--port=1", "--port", "2"]), "port"), Some(s("2")));
    assert_eq!(arg_value(&args(&["prog", "--port"]), "port"), None);
    assert_eq!(arg_value(&args(&["prog", "--port", "--port=5"]), "port"), Some(s("--port=5")));
    assert_eq!(arg_value(&args(&["prog", "--other", "1"]), "port"), None);
}

#[test]
fn tokens_are_six_characters_of_the_alphabet() {
    assert_eq!(generate_token(0), "a6qjgl");
    assert_eq!(generate_token(1_700_000_000_000_000_000), "ks0hyr");
    let t = generate_token(123456789);
    assert_eq!(t.len(), 6);
    assert!(t.chars().all(|c| c.is_ascii_lowercase() || c.is_ascii_digit()));
}

#[test]
fn port_numbers() {
    assert_eq!(parse_port("9090"), Some(9090));
    assert_eq!(parse_port("+80"), Some(80));
    assert_eq!(parse_port("65536"), None);
    assert_eq!(parse_port(""), None);
    assert_eq!(parse_port("12a"), None);
}

#[test]
fn ipc_commands_are_read() {
    assert!(matches!(IpcCommand::parse("ban-list\n"), IpcCommand::BanList));
    assert!(matches!(IpcCommand::parse(" ban: 1.2.3.4 \r\n"), IpcCommand::Ban(ip) if ip == "1.2.3.4"));
    assert!(matches!(IpcCommand::parse("unban:5.6.7.8"), IpcCommand::Unban(ip) if ip == "5.6.7.8"));
    assert!(matches!(IpcCommand::parse("open_dir: /tmp/x "), IpcCommand::OpenDir(p) if p == "/tmp/x"));
    assert!(matches!(IpcCommand::parse("hello"), IpcCommand::Unknown));
}

#[test]
fn ipc_ban_list_and_bans() {
    let mut st = state();
    let o = st.handle_ipc_command(IpcCommand::BanList, 1);
    assert_eq!(o.reply, Some(s("No banned IPs\n")));
    assert!(!o.save_security);
    st.add_device(ConnectedDevice::new(s("1.2.3.4"), s("ua"), 0));
    let o = st.handle_ipc_command(IpcCommand::Ban(s("1.2.3.4")), 2);
    assert_eq!(o.reply, Some(s("IP banned successfully\n")));
    assert!(o.save_security);
    assert!(st.get_devices().is_empty());
    let o = st.handle_ipc_command(IpcCommand::Ban(s("1.2.3.4")), 3);
    assert_eq!(o.reply, Some(s("IP already banned\n")));
    assert!(!o.save_security);
    st.handle_ipc_command(IpcCommand::Ban(s("9.9.9.9")), 4);
    let o = st.handle_ipc_command(IpcCommand::BanList, 5);
    assert_eq!(o.reply, Some(s("1.2.3.4\n9.9.9.9\n")));
    let o = st.handle_ipc_command(IpcCommand::Unban(s("1.2.3.4")), 6);
    assert_eq!(o.reply, Some(s("IP unbanned successfully\n")));
    let o = st.handle_ipc_command(IpcCommand::Unban(s("1.2.3.4")), 7);
    assert_eq!(o.reply, Some(s("IP was not banned\n")));
    assert!(!o.save_security);
}

#[test]
fn ipc_open_dir_and_unknown() {
    let mut st = state();
    let o = st.handle_ipc_command(IpcCommand::OpenDir(s("/srv")), 1);
    assert_eq!(o.open_dir, Some(s("/srv")));
    assert_eq!(o.reply, None);
    let o = st.handle_ipc_command(IpcCommand::Unknown, 1);
    assert_eq!(o.reply, None);
    assert_eq!(o.open_dir, None);
}

#[test]
fn auth_results() {
    let ok = AuthResult::success();
    assert!(ok.success);
    assert_eq!(ok.message, Some(s("Authentication successful")));
    let bad = AuthResult::failure(s("Invalid token"));
    assert!(!bad.success);
    assert_eq!(bad.message, Some(s("Invalid token")));
    let st = state();
    assert!(validate_token(&st, "tok"));
    assert!(!validate_token(&st, "tok "));
}

#[test]
fn terminal_programs_and_output() {
    assert_eq!(shell_program(""), "powershell.exe");
    assert_eq!(shell_program("bash"), "bash");
    match pty_output("p1", b"hi\xff") {
        ServerMessage::Output { pane_id, data } => {
            assert_eq!(pane_id, "p1");
            assert_eq!(data, "hi\u{FFFD}");
        },
        _ => panic!("wrong message"),
    }
}

#[test]
fn pane_exit_removes_the_pane() {
    let mut st = state();
    let p = termote::state::Pane::new(3, s("sh"), 80, 24);
    let id = p.id.clone();
    st.add_pane(p);
    match st.pane_exited(&id) {
        ServerMessage::StateUpdate { panes, active_panes, .. } => {
            assert!(panes.is_empty());
            assert!(active_panes.is_empty());
        },
        _ => panic!("wrong message"),
    }
    assert!(st.get_pane(&id).is_none());
}

#[test]
fn host_outcome_messages() {
    match kill_result_message(12, Ok(true)) {
        ServerMessage::ProcessKilled { pid, success, message } => {
            assert_eq!((pid, success, message.as_str()), (12, true, "Process killed"));
        },
        _ => panic!("wrong message"),
    }
    match kill_result_message(12, Ok(false)) {
        ServerMessage::ProcessKilled { success, message, .. } => {
            assert_eq!((success, message.as_str()), (false, "Failed to kill process"));
        },
        _ => panic!("wrong message"),
    }
    match kill_result_message(12, Err(s("no such process"))) {
        ServerMessage::ProcessKilled { success, message, .. } => {
            assert_eq!((success, message.as_str()), (false, "no such process"));
        },
        _ => panic!("wrong message"),
    }
    match browser_opened_message("http://x", Ok(())) {
        ServerMessage::Error { message } => assert_eq!(message, "Opened http://x in browser"),
        _ => panic!("wrong message"),
    }
    match browser_opened_message("http://x", Err(s("denied"))) {
        ServerMessage::Error { message } => assert_eq!(message, "Failed to open browser: denied"),
        _ => panic!("wrong message"),
    }
    match spawn_failed_message("/d", "boom") {
        ServerMessage::Error { message } => assert_eq!(message, "Failed to spawn terminal at /d: boom"),
        _ => panic!("wrong message"),
    }
}

#[test]
fn first_message_authentication() {
    let st = state();
    assert!(st.first_message_authenticates(&FirstMessage::Request(ClientMessage::Auth { token: s("tok") })));
    assert!(!st.first_message_authenticates(&FirstMessage::Request(ClientMessage::Auth { token: s("x") })));
    assert!(!st.first_message_authenticates(&FirstMessage::Request(ClientMessage::Ping)));
    assert!(!st.first_message_authenticates(&FirstMessage::Timeout));
}
