use termote::messages::{NotificationEventInfo, PaneInfo};
use termote::state::{
    is_non_terminal_pane_type, pane_type_from_info, remap_saved_pane_ids, AppState,
    ConnectedDevice, Pane, PaneGroup, SecurityState, HISTORY_LIMIT, MAX_BUFFER_SIZE,
    NOTIFICATION_HISTORY_LIMIT,
};

fn s(x: &str) -> String {
    x.to_string()
}

fn fresh_state(token: &str) -> AppState {
    AppState::new(
        s(token),
        s("http://localhost"),
        s("ws://localhost"),
        None,
        SecurityState::new(Vec::new(), Vec::new()),
    )
}

fn info(id: &str, pane_type: Option<&str>, shell: &str) -> PaneInfo {
    PaneInfo {
        id: s(id),
        pid: 0,
        shell: s(shell),
        name: s("n"),
        cols: 80,
        rows: 24,
        group_id: None,
        cwd: None,
        pane_type: pane_type.map(s),
        note_content: None,
        whiteboard_data: None,
        image_data: None,
        url: None,
        pinned: false,
    }
}

fn notice(event_id: &str, source_id: &str, status: &str) -> NotificationEventInfo {
    NotificationEventInfo {
        event_id: s(event_id),
        source_type: s("pane"),
        source_id: s(source_id),
        status: s(status),
    }
}

#[test]
fn test_remap_saved_pane_ids_preserves_order_and_drops_missing_ids() {
    let pane_id_map = vec![
        ("old-a".to_string(), "new-a".to_string()),
        ("old-b".to_string(), "new-b".to_string()),
    ];
    let existing_pane_ids = vec![
        "new-a".to_string(),
        "new-b".to_string(),
        "current-c".to_string(),
    ];
    let pane_ids = vec![
        "old-b".to_string(),
        "missing".to_string(),
        "old-a".to_string(),
        "old-b".to_string(),
        "current-c".to_string(),
    ];

    assert_eq!(
        remap_saved_pane_ids(&pane_ids, &pane_id_map, &existing_pane_ids),
        vec![
            "new-b".to_string(),
            "new-a".to_string(),
            "current-c".to_string(),
        ]
    );
}

#[test]
fn test_app_state_pane_management() {
    let mut state = fresh_state("test_token");

    assert!(state.get_panes_info().is_empty());

    let pane = Pane::new(1234, "powershell.exe".to_string(), 80, 24);
    let pane_id = pane.id.clone();
    state.add_pane(pane);

    let panes = state.get_panes_info();
    assert_eq!(panes.len(), 1);
    assert_eq!(panes[0].pid, 1234);

    let removed = state.remove_pane(&pane_id);
    assert!(removed.is_some());
    assert!(state.get_panes_info().is_empty());
}

#[test]
fn test_authentication() {
    let state = fresh_state("secret123");

    assert!(!state.is_authenticated());
    assert!(!state.validate_token("wrong"));
    assert!(state.validate_token("secret123"));
}

#[test]
fn added_pane_is_found_with_its_fields() {
    let mut state = fresh_state("t");
    let pane = Pane::new(42, s("bash"), 100, 30);
    let id = pane.id.clone();
    state.add_pane(pane);
    let got = state.get_pane(&id).expect("pane present");
    assert_eq!(got.pid, 42);
    assert_eq!(got.name, "bash (42)");
    assert_eq!(got.cols, 100);
    assert_eq!(got.rows, 30);
    assert_eq!(state.get_active_panes(), vec![id.clone()]);
    assert!(state.get_floating_panes().is_empty());
}

#[test]
fn pane_ids_are_uuid_text() {
    let pane = Pane::new(1, s("sh"), 80, 24);
    assert_eq!(pane.id.len(), 36);
    assert_eq!(pane.id.chars().nth(14), Some('4'));
    assert_eq!(pane.pane_type(), "terminal");
}

#[test]
fn removed_pane_is_gone_from_state_and_layout() {
    let mut state = fresh_state("t");
    let a = Pane::new(1, s("sh"), 80, 24);
    let b = Pane::new(2, s("sh"), 80, 24);
    let (ia, ib) = (a.id.clone(), b.id.clone());
    state.add_pane(a);
    state.add_pane(b);
    state.move_to_floating(&ib);
    assert!(state.remove_pane(&ib).is_some());
    assert!(state.get_pane(&ib).is_none());
    assert!(state.get_floating_panes().is_empty());
    assert_eq!(state.get_active_panes(), vec![ia.clone()]);
    assert!(state.remove_pane(&ib).is_none());
}

#[test]
fn moving_between_grid_and_tabs() {
    let mut state = fresh_state("t");
    let p = Pane::new(1, s("sh"), 80, 24);
    let id = p.id.clone();
    state.add_pane(p);
    state.move_to_floating(&id);
    assert!(state.get_active_panes().is_empty());
    assert_eq!(state.get_floating_panes(), vec![id.clone()]);
    state.move_to_floating(&id);
    assert_eq!(state.get_floating_panes(), vec![id.clone()]);
    state.move_to_active(&id);
    assert_eq!(state.get_active_panes(), vec![id.clone()]);
    assert!(state.get_floating_panes().is_empty());
}

#[test]
fn renaming_and_resizing_a_pane() {
    let mut state = fresh_state("t");
    let p = Pane::new(1, s("sh"), 80, 24);
    let id = p.id.clone();
    state.add_pane(p);
    assert!(state.rename_pane(&id, "build"));
    assert_eq!(state.get_pane(&id).unwrap().name, "build");
    assert!(state.resize_pane(&id, 120, 40));
    let got = state.get_pane(&id).unwrap();
    assert_eq!((got.cols, got.rows), (120, 40));
    assert!(!state.rename_pane("nope", "x"));
    assert!(state.set_pane_pinned(&id, true));
    assert!(state.get_pane(&id).unwrap().pinned);
}

#[test]
fn removing_a_group_ungroups_its_panes() {
    let mut state = fresh_state("t");
    let g = PaneGroup::new(s("work"), s("#ff0000"));
    let gid = g.id.clone();
    state.add_group(g);
    let p = Pane::new(1, s("sh"), 80, 24);
    let id = p.id.clone();
    state.add_pane(p);
    assert!(state.set_pane_group(&id, Some(gid.as_str())));
    assert_eq!(state.get_pane(&id).unwrap().group_id, Some(gid.clone()));
    assert!(state.remove_group(&gid));
    assert_eq!(state.get_pane(&id).unwrap().group_id, None);
    assert!(state.get_group(&gid).is_none());
    assert!(!state.remove_group(&gid));
}

#[test]
fn renaming_a_group() {
    let mut state = fresh_state("t");
    let g = PaneGroup::new(s("a"), s("#000"));
    let gid = g.id.clone();
    state.add_group(g);
    assert!(state.rename_group(&gid, "b"));
    assert_eq!(state.get_group(&gid).unwrap().name, "b");
    assert_eq!(state.get_all_groups().len(), 1);
}

#[test]
fn scrollback_keeps_the_most_recent_bytes() {
    let mut p = Pane::new(1, s("sh"), 80, 24);
    p.append_buffer(b"hello");
    assert_eq!(p.buffer, b"hello".to_vec());
    let big = vec![b'x'; MAX_BUFFER_SIZE];
    p.append_buffer(&big);
    assert_eq!(p.buffer.len(), MAX_BUFFER_SIZE);
    p.append_buffer(b"end");
    assert_eq!(p.buffer.len(), MAX_BUFFER_SIZE);
    assert_eq!(&p.buffer[MAX_BUFFER_SIZE - 3..], b"end");
}

#[test]
fn pane_buffer_through_state() {
    let mut state = fresh_state("t");
    let p = Pane::new(1, s("sh"), 80, 24);
    let id = p.id.clone();
    state.add_pane(p);
    state.append_pane_buffer(&id, b"ab");
    state.append_pane_buffer(&id, b"cd");
    assert_eq!(state.get_pane_buffer(&id), b"abcd".to_vec());
    assert!(state.get_pane_buffer("missing").is_empty());
}

#[test]
fn banning_and_unbanning_addresses() {
    let mut sec = SecurityState::new(Vec::new(), Vec::new());
    assert!(sec.ban_ip("1.2.3.4"));
    assert!(sec.is_banned("1.2.3.4"));
    assert!(!sec.ban_ip("1.2.3.4"));
    assert_eq!(sec.banned_ips, vec![s("1.2.3.4")]);
    assert!(sec.unban_ip("1.2.3.4"));
    assert!(!sec.is_banned("1.2.3.4"));
    assert!(!sec.unban_ip("1.2.3.4"));
}

#[test]
fn connection_history_is_capped() {
    let mut sec = SecurityState::new(Vec::new(), Vec::new());
    for t in 0..(HISTORY_LIMIT as u64 + 5) {
        sec.add_connection("10.0.0.1", "ua", t);
    }
    assert_eq!(sec.history.len(), HISTORY_LIMIT);
    assert_eq!(sec.history.last().unwrap().connected_at, HISTORY_LIMIT as u64 + 4);
    assert_eq!(sec.history[0].connected_at, 5);
}

#[test]
fn disconnect_closes_the_latest_open_connection() {
    let mut sec = SecurityState::new(Vec::new(), Vec::new());
    sec.add_connection("10.0.0.1", "a", 1);
    sec.add_connection("10.0.0.1", "b", 2);
    assert!(sec.mark_disconnected("10.0.0.1", 9, false));
    assert_eq!(sec.history[1].disconnected_at, Some(9));
    assert_eq!(sec.history[0].disconnected_at, None);
    assert!(!sec.mark_disconnected("10.9.9.9", 9, false));
}

#[test]
fn banning_drops_devices_of_that_address() {
    let mut state = fresh_state("t");
    state.add_device(ConnectedDevice::new(s("1.1.1.1"), s("ua"), 5));
    state.add_device(ConnectedDevice::new(s("2.2.2.2"), s("ua"), 6));
    state.ban_ip("1.1.1.1", 10);
    assert!(state.is_ip_banned("1.1.1.1"));
    let devices = state.get_devices();
    assert_eq!(devices.len(), 1);
    assert_eq!(devices[0].ip, "2.2.2.2");
    assert_eq!(state.get_banned_ips(), vec![s("1.1.1.1")]);
    assert!(state.unban_ip("1.1.1.1"));
    assert!(!state.is_ip_banned("1.1.1.1"));
}

#[test]
fn device_descriptions() {
    let d = |ua: &str| ConnectedDevice::new(s("1.1.1.1"), s(ua), 0).device_info();
    assert_eq!(d("Mozilla/5.0 (Windows NT 10.0) Chrome/120"), "Windows + Chrome");
    assert_eq!(d("Mozilla/5.0 (Windows NT 10.0; rv:120) Firefox/120"), "Windows + Firefox");
    assert_eq!(d("Mozilla/5.0 (Macintosh; Mac OS X) Safari/605"), "macOS + Safari");
    assert_eq!(d("Mozilla/5.0 (Linux; Android 14) Chrome/120 Mobile"), "Android + Chrome");
    assert_eq!(d("Mozilla/5.0 (iPhone) Mobile Safari"), "iPhone/iPad + Safari");
    assert_eq!(d("Mozilla/5.0 (X11; Linux x86_64)"), "Linux");
    assert_eq!(d(""), "Unknown");
    assert_eq!(d("curl/8.0"), "curl/8.0");
    let long = "a".repeat(60);
    assert_eq!(d(&long), format!("{}...", "a".repeat(50)));
    let accents = "é".repeat(26);
    assert_eq!(d(&accents), accents);
    assert_eq!(d(&"é".repeat(60)), format!("{}...", "é".repeat(50)));
    assert_eq!(d(&"x".repeat(50)), "x".repeat(50));
}

#[test]
fn device_record_for_clients() {
    let dev = ConnectedDevice::new(s("3.3.3.3"), s("curl/8.0"), 77);
    let info = termote::messages::DeviceInfo::of(&dev);
    assert_eq!(info.ip, "3.3.3.3");
    assert_eq!(info.device, "curl/8.0");
    assert_eq!(info.connected_at, 77);
    assert!(!info.authenticated);
}

#[test]
fn pane_types() {
    assert!(is_non_terminal_pane_type("note"));
    assert!(is_non_terminal_pane_type("browser"));
    assert!(!is_non_terminal_pane_type("terminal"));
    assert_eq!(pane_type_from_info(&info("a", Some("whiteboard"), "x")), "whiteboard");
    assert_eq!(pane_type_from_info(&info("a", None, "note")), "note");
    assert_eq!(pane_type_from_info(&info("a", None, "bash")), "terminal");
}

#[test]
fn notification_history_is_capped_and_deduplicated() {
    let mut state = fresh_state("t");
    for k in 0..(NOTIFICATION_HISTORY_LIMIT + 10) {
        state.apply_notification_update(notice(&format!("e{}", k), "p1", "done"));
    }
    let snap = state.notification_snapshot();
    assert_eq!(snap.history.len(), NOTIFICATION_HISTORY_LIMIT);
    assert_eq!(snap.history[0].event_id, format!("e{}", NOTIFICATION_HISTORY_LIMIT + 9));
    state.apply_notification_update(notice("e59", "p1", "done"));
    assert_eq!(state.notification_snapshot().history.len(), NOTIFICATION_HISTORY_LIMIT);
    assert_eq!(state.notification_snapshot().current.len(), 1);
    state.apply_notification_update(notice("e60", "p1", "idle"));
    assert!(state.notification_snapshot().current.is_empty());
    state.clear_notification_history();
    assert!(state.notification_snapshot().history.is_empty());
}
