use termote::messages::{ClientMessage, ServerMessage};
use termote::protocol::{Action, FirstMessage};
use termote::state::{AppState, Pane, SecurityState};
use termote::upload::{decode_upload, upload_written_message};

fn s(x: &str) -> String {
    x.to_string()
}

fn state() -> AppState {
    AppState::new(s("tok"), s("/"), s("ws://x"), None, SecurityState::new(Vec::new(), Vec::new()))
}

fn with_pane(st: &mut AppState, cwd: Option<&str>) -> String {
    let mut p = Pane::new(7, s("sh"), 80, 24);
    p.cwd = cwd.map(s);
    let id = p.id.clone();
    st.add_pane(p);
    id
}

fn error_of(a: &Action) -> String {
    match a {
        Action::Broadcast(ServerMessage::Error { message }) => message.clone(),
        _ => panic!("not an error broadcast"),
    }
}

#[test]
fn auth_handshake_replies() {
    let st = state();
    let reply = |f: FirstMessage| match st.auth_rejection(&f) {
        Some(ServerMessage::AuthResult { success, message }) => Some((success, message)),
        Some(_) => panic!("not an auth result"),
        None => None,
    };
    assert_eq!(reply(FirstMessage::Request(ClientMessage::Auth { token: s("tok") })), None);
    assert_eq!(
        reply(FirstMessage::Request(ClientMessage::Auth { token: s("bad") })),
        Some((false, Some(s("Invalid token"))))
    );
    assert_eq!(
        reply(FirstMessage::Request(ClientMessage::Ping)),
        Some((false, Some(s("Authentication required first"))))
    );
    assert_eq!(reply(FirstMessage::Unparsable), Some((false, Some(s("Invalid message format")))));
    assert_eq!(reply(FirstMessage::Close), Some((false, Some(s("Unexpected close")))));
    assert_eq!(reply(FirstMessage::NonText), Some((false, Some(s("Expected text message")))));
    assert_eq!(reply(FirstMessage::Timeout), Some((false, Some(s("Authentication timeout")))));
    assert_eq!(reply(FirstMessage::TransportError), None);
    assert_eq!(reply(FirstMessage::Disconnected), None);
}

#[test]
fn connecting_and_disconnecting_a_client() {
    let mut st = state();
    let (id, list, replies) = st.connect_client(s("10.1.1.1"), 100);
    assert_eq!(id.len(), 36);
    match list {
        ServerMessage::DeviceList { devices } => {
            assert_eq!(devices.len(), 1);
            assert_eq!(devices[0].id, id);
            assert_eq!(devices[0].ip, "10.1.1.1");
            assert!(devices[0].authenticated);
        },
        _ => panic!("wrong message"),
    }
    assert_eq!(replies.len(), 2);
    assert!(matches!(&replies[0], ServerMessage::AuthResult { success: true, message: Some(m) } if m == "Authenticated"));
    assert!(matches!(&replies[1], ServerMessage::FullStateSync { .. }));
    assert_eq!(st.get_connection_history().len(), 1);
    match st.disconnect_client(&id, 200) {
        ServerMessage::DeviceList { devices } => assert!(devices.is_empty()),
        _ => panic!("wrong message"),
    }
    assert_eq!(st.get_connection_history()[0].disconnected_at, Some(200));
}

#[test]
fn a_second_client_keeps_the_first_connected() {
    let mut st = state();
    let (first, _, _) = st.connect_client(s("10.0.0.1"), 10);
    let (second, list, _) = st.connect_client(s("10.0.0.2"), 20);
    assert_ne!(first, second);
    match list {
        ServerMessage::DeviceList { devices } => {
            assert_eq!(devices.len(), 2);
            assert_eq!(devices[0].id, first);
            assert_eq!(devices[0].ip, "10.0.0.1");
            assert_eq!(devices[1].id, second);
            assert_eq!(devices[1].ip, "10.0.0.2");
        },
        _ => panic!("wrong message"),
    }
    assert_eq!(st.auth_token, "tok");
    assert!(!st.authenticated);
    match st.disconnect_client(&first, 30) {
        ServerMessage::DeviceList { devices } => {
            assert_eq!(devices.len(), 1);
            assert_eq!(devices[0].id, second);
        },
        _ => panic!("wrong message"),
    }
    assert_eq!(st.get_connection_history().len(), 2);
    assert_eq!(st.get_connection_history()[0].disconnected_at, Some(30));
    assert_eq!(st.get_connection_history()[1].disconnected_at, None);
}

#[test]
fn heartbeat_and_spawn_requests() {
    let mut st = state();
    assert!(st.handle_client_message(ClientMessage::Ping, 0).is_empty());
    let acts = st.handle_client_message(ClientMessage::Spawn { shell: s("bash") }, 0);
    assert!(matches!(&acts[..], [Action::SpawnTerminal { shell }] if shell == "bash"));
    let acts = st.handle_client_message(ClientMessage::Input { pane_id: s("p"), data: s("ls\r") }, 0);
    assert!(matches!(&acts[..], [Action::WriteInput { pane_id, data }] if pane_id == "p" && data == "ls\r"));
}

#[test]
fn directory_requests() {
    let mut st = state();
    for p in [None, Some(s("")), Some(s("/"))] {
        let acts = st.handle_client_message(ClientMessage::ListDirectory { path: p }, 0);
        assert!(matches!(&acts[..], [Action::ListRoots]));
    }
    let acts = st.handle_client_message(ClientMessage::ListDirectory { path: Some(s("/home")) }, 0);
    assert!(matches!(&acts[..], [Action::ListDirectory { path }] if path == "/home"));
}

#[test]
fn resize_skips_unchanged_sizes() {
    let mut st = state();
    let id = with_pane(&mut st, None);
    assert!(st.handle_client_message(ClientMessage::Resize { pane_id: id.clone(), cols: 80, rows: 24 }, 0).is_empty());
    let acts = st.handle_client_message(ClientMessage::Resize { pane_id: id.clone(), cols: 100, rows: 30 }, 0);
    assert!(matches!(&acts[0], Action::ResizePty { cols: 100, rows: 30, .. }));
    let p = st.get_pane(&id).unwrap();
    assert_eq!((p.cols, p.rows), (100, 30));
    let acts = st.handle_client_message(ClientMessage::Refocus { pane_id: id.clone(), cols: 100, rows: 30 }, 0);
    assert!(!acts.is_empty());
}

#[test]
fn kill_and_layout_requests() {
    let mut st = state();
    let id = with_pane(&mut st, None);
    let acts = st.handle_client_message(ClientMessage::MoveToFloating { pane_id: id.clone() }, 0);
    assert_eq!(acts.len(), 2);
    assert!(matches!(&acts[0], Action::Broadcast(ServerMessage::StateUpdate { floating_panes, .. }) if floating_panes.len() == 1));
    assert!(matches!(&acts[1], Action::SaveSession));
    let acts = st.handle_client_message(ClientMessage::Kill { pane_id: id.clone() }, 0);
    assert!(matches!(&acts[0], Action::KillPty { pane_id } if *pane_id == id));
    assert!(matches!(&acts[1], Action::Broadcast(ServerMessage::StateUpdate { panes, .. }) if panes.is_empty()));
    assert!(st.get_pane(&id).is_none());
}

#[test]
fn group_requests() {
    let mut st = state();
    let acts = st.handle_client_message(ClientMessage::CreateGroup { id: Some(s("g1")), name: s("G"), color: s("#fff") }, 0);
    assert!(matches!(&acts[0], Action::Broadcast(ServerMessage::GroupCreated { group }) if group.id == "g1" && group.name == "G"));
    let acts = st.handle_client_message(ClientMessage::RenameGroup { group_id: s("g1"), name: s("H") }, 0);
    assert!(matches!(&acts[0], Action::Broadcast(ServerMessage::GroupRenamed { name, .. }) if name == "H"));
    let acts = st.handle_client_message(ClientMessage::DeleteGroup { group_id: s("g1") }, 0);
    assert!(matches!(&acts[0], Action::Broadcast(ServerMessage::GroupDeleted { group_id }) if group_id == "g1"));
    assert!(st.handle_client_message(ClientMessage::DeleteGroup { group_id: s("g1") }, 0).is_empty());
}

#[test]
fn device_requests() {
    let mut st = state();
    let (id, _, _) = st.connect_client(s("5.5.5.5"), 1);
    let acts = st.handle_client_message(ClientMessage::KickDevice { device_id: s("nope") }, 2);
    assert_eq!(error_of(&acts[0]), "Device not found");
    let acts = st.handle_client_message(ClientMessage::KickDevice { device_id: id.clone() }, 2);
    assert!(matches!(&acts[0], Action::SaveSecurity));
    assert!(matches!(&acts[1], Action::Broadcast(ServerMessage::DeviceKicked { device_id }) if *device_id == id));
    let acts = st.handle_client_message(ClientMessage::BanDevice { ip: s("5.5.5.5") }, 3);
    assert!(matches!(&acts[1], Action::Broadcast(ServerMessage::DeviceBanned { ip }) if ip == "5.5.5.5"));
    assert!(st.is_ip_banned("5.5.5.5"));
    let acts = st.handle_client_message(ClientMessage::BanDevice { ip: s("5.5.5.5") }, 4);
    assert_eq!(error_of(&acts[0]), "IP already banned");
}

#[test]
fn git_requests_need_a_working_directory() {
    let mut st = state();
    let bare = with_pane(&mut st, None);
    let acts = st.handle_client_message(ClientMessage::GetGitStatus { pane_id: bare.clone() }, 0);
    assert_eq!(error_of(&acts[0]), "Pane has no working directory");
    let acts = st.handle_client_message(ClientMessage::GitCommit { pane_id: bare.clone(), message: s("m") }, 0);
    assert!(matches!(&acts[0], Action::Broadcast(ServerMessage::GitCommitResult { success: false, message, .. }) if message == "Pane has no working directory"));
    let id = with_pane(&mut st, Some("/repo"));
    let acts = st.handle_client_message(ClientMessage::GitPush { pane_id: id.clone() }, 0);
    assert!(matches!(&acts[0], Action::GitPush { dir, .. } if dir == "/repo"));
    assert!(matches!(&acts[1], Action::SourceControlState { path } if path == "/repo"));
    let acts = st.handle_client_message(ClientMessage::GitLog { pane_id: id.clone(), dir: s("") }, 0);
    assert_eq!(error_of(&acts[0]), "No directory provided for git log");
}

#[test]
fn uploads_are_decoded() {
    let mut st = state();
    let id = with_pane(&mut st, Some("/work"));
    let acts = st.handle_client_message(ClientMessage::UploadFile { pane_id: id.clone(), file_name: s("a.txt"), data: s("aGk=") }, 0);
    assert!(matches!(&acts[0], Action::WriteUpload { dir: Some(d), data, file_name, .. } if d == "/work" && data == b"hi" && file_name == "a.txt"));
    let acts = st.handle_client_message(ClientMessage::UploadFile { pane_id: id, file_name: s("a"), data: s("***") }, 0);
    assert!(error_of(&acts[0]).starts_with("Failed to decode file data: "));
}

#[test]
fn upload_decoding_and_results() {
    assert_eq!(decode_upload("aGVsbG8=").ok().unwrap(), b"hello".to_vec());
    assert!(decode_upload("aGVsbG8").is_err());
    match upload_written_message(s("p"), s("f"), None) {
        ServerMessage::FileUploaded { pane_id, file_name } => assert_eq!((pane_id.as_str(), file_name.as_str()), ("p", "f")),
        _ => panic!("wrong message"),
    }
    match upload_written_message(s("p"), s("f"), Some(s("denied"))) {
        ServerMessage::Error { message } => assert_eq!(message, "Failed to write file: denied"),
        _ => panic!("wrong message"),
    }
}

#[test]
fn pane_content_updates_are_broadcast() {
    let mut st = state();
    let mut p = Pane::new_non_terminal("note", "Notes");
    p.note_content = Some(s("old"));
    let id = p.id.clone();
    st.add_pane(p);
    let acts = st.handle_client_message(
        ClientMessage::UpdatePaneContent { pane_id: id.clone(), note_content: Some(s("new")), whiteboard_data: None, image_data: None },
        5,
    );
    assert!(matches!(&acts[0], Action::Broadcast(ServerMessage::PaneContentUpdated { note_content: Some(n), .. }) if n == "new"));
    assert_eq!(st.get_pane(&id).unwrap().note_content, Some(s("new")));
}
