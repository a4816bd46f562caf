use termote::messages::{PaneGroupInfo, PaneInfo};
use termote::state::{
    cd_command, respawned_terminal_pane, restored_non_terminal_pane, AppState, ConnectedDevice,
    Pane, SecurityState, SessionRestore, SessionState,
};

fn s(x: &str) -> String {
    x.to_string()
}

fn state() -> AppState {
    AppState::new(s("t"), s("/"), s("ws://x"), None, SecurityState::new(Vec::new(), Vec::new()))
}

fn saved(id: &str, pane_type: Option<&str>, cwd: Option<&str>) -> PaneInfo {
    PaneInfo {
        id: s(id),
        pid: 99,
        shell: s("bash"),
        name: format!("name-{}", id),
        cols: 100,
        rows: 40,
        group_id: Some(s("g")),
        cwd: cwd.map(s),
        pane_type: pane_type.map(s),
        note_content: Some(s("note")),
        whiteboard_data: None,
        image_data: None,
        url: Some(s("http://u")),
        pinned: true,
    }
}

#[test]
fn restored_panes_keep_their_saved_fields() {
    let n = restored_non_terminal_pane(&saved("n1", Some("note"), None), "note");
    assert_eq!(n.id, "n1");
    assert_eq!((n.pid, n.cols, n.rows), (0, 100, 40));
    assert_eq!(n.pane_type(), "note");
    assert_eq!(n.note_content, Some(s("note")));
    assert_eq!(n.url, Some(s("http://u")));
    assert!(n.pinned);
    let t = respawned_terminal_pane(&saved("t1", None, Some("/w")), s("new-id"), 7);
    assert_eq!(t.id, "new-id");
    assert_eq!(t.pid, 7);
    assert_eq!(t.name, "name-t1");
    assert_eq!(t.cwd, Some(s("/w")));
    assert_eq!(t.group_id, Some(s("g")));
    assert_eq!(t.pane_type(), "terminal");
}

#[test]
fn restore_remaps_the_saved_layout() {
    let mut st = state();
    let session = SessionState {
        panes: vec![saved("old-t", None, None), saved("n1", Some("note"), None)],
        active_panes: vec![s("old-t"), s("gone")],
        floating_panes: vec![s("n1")],
        groups: vec![PaneGroupInfo { id: s("g"), name: s("G"), color: s("#1") }],
    };
    st.load_layout(&session);
    assert_eq!(st.get_all_groups().len(), 1);
    let mut restore = SessionRestore::new();
    st.record_restored(&mut restore, "old-t", respawned_terminal_pane(&session.panes[0], s("new-t"), 5));
    st.record_restored(&mut restore, "n1", restored_non_terminal_pane(&session.panes[1], "note"));
    assert!(st.finish_restore(&restore));
    assert_eq!(st.get_active_panes(), vec![s("new-t")]);
    assert_eq!(st.get_floating_panes(), vec![s("n1")]);
    let back = st.session_state();
    assert_eq!(back.panes.len(), 2);
    assert_eq!(back.active_panes, vec![s("new-t")]);
    assert_eq!(back.groups[0].name, "G");
}

#[test]
fn restore_with_an_empty_layout_puts_everything_in_the_grid() {
    let mut st = state();
    let session = SessionState {
        panes: vec![saved("a", Some("note"), None), saved("b", Some("image"), None)],
        active_panes: vec![s("zzz")],
        floating_panes: Vec::new(),
        groups: Vec::new(),
    };
    st.load_layout(&session);
    let mut restore = SessionRestore::new();
    st.record_restored(&mut restore, "a", restored_non_terminal_pane(&session.panes[0], "note"));
    st.record_restored(&mut restore, "b", restored_non_terminal_pane(&session.panes[1], "image"));
    assert!(st.finish_restore(&restore));
    assert_eq!(st.get_active_panes(), vec![s("a"), s("b")]);
}

#[test]
fn nothing_restored_means_nothing_saved() {
    let mut st = state();
    assert!(!st.finish_restore(&SessionRestore::new()));
}

#[test]
fn change_directory_commands() {
    assert_eq!(cd_command("/home/o'neil", false), "cd '/home/o\\'neil'; clear\r\n");
    assert_eq!(cd_command("C:\\it's", true), "cd 'C:\\it''s'; Clear-Host\r\n");
}

#[test]
fn content_writes_are_flushed_after_two_seconds() {
    let mut st = state();
    let p = Pane::new_non_terminal("note", "N");
    let id = p.id.clone();
    st.add_pane(p);
    st.update_pane_content(&id, Some(s("x")), None, None, 100);
    assert!(st.panes_due_for_flush(101).is_empty());
    assert_eq!(st.panes_due_for_flush(102), vec![id.clone()]);
    assert_eq!(st.panes_due_for_flush(50), vec![id.clone()]);
    st.clear_flushed(&vec![id.clone()]);
    assert!(st.panes_due_for_flush(200).is_empty());
}

#[test]
fn browser_urls_and_names() {
    let mut st = state();
    let b = Pane::new_non_terminal("browser", "Web");
    let id = b.id.clone();
    st.add_pane(b);
    assert!(st.update_browser_url(&id, s("http://localhost:3000"), Some(s("  ")), 1));
    let got = st.get_pane(&id).unwrap();
    assert_eq!(got.url, Some(s("http://localhost:3000")));
    assert_eq!(got.name, "Web");
    assert!(st.update_browser_url(&id, s("http://x"), Some(s("Docs")), 2));
    assert_eq!(st.get_pane(&id).unwrap().name, "Docs");
    let t = Pane::new(1, s("sh"), 80, 24);
    let tid = t.id.clone();
    st.add_pane(t);
    assert!(!st.update_browser_url(&tid, s("http://y"), None, 3));
    assert_eq!(st.get_pane(&tid).unwrap().url, None);
}

#[test]
fn spawned_panes_go_to_the_grid() {
    let mut st = state();
    st.add_spawned_pane(s("p1"), 321, s("zsh"), 90, 30, Some("/src"));
    let p = st.get_pane("p1").unwrap();
    assert_eq!(p.name, "zsh (321)");
    assert_eq!(p.cwd, Some(s("/src")));
    assert_eq!((p.cols, p.rows), (90, 30));
    assert_eq!(st.get_active_panes(), vec![s("p1")]);
    assert_eq!(st.pane_cwd("p1"), Some(s("/src")));
}

#[test]
fn devices_by_address_and_removal() {
    let mut st = state();
    let d = ConnectedDevice::new(s("4.4.4.4"), s("ua"), 1);
    let id = d.id.clone();
    st.add_device(d);
    assert_eq!(st.get_device_by_ip("4.4.4.4"), Some(id.clone()));
    assert_eq!(st.get_device_by_ip("5.5.5.5"), None);
    st.remove_device_banned(&id, 9);
    assert!(st.get_connected_devices().is_empty());
    let h = st.get_connection_history();
    assert_eq!(h.len(), 1);
    assert_eq!(h[0].disconnected_at, Some(9));
    assert!(h[0].was_banned);
}

#[test]
fn scrollback_of_several_panes() {
    let mut st = state();
    let p = Pane::new(1, s("sh"), 80, 24);
    let id = p.id.clone();
    st.add_pane(p);
    st.append_pane_buffer(&id, b"abc");
    let bufs = st.get_panes_buffers(&[id.clone(), s("missing")]);
    assert_eq!(bufs, vec![(id.clone(), b"abc".to_vec()), (s("missing"), Vec::new())]);
}
