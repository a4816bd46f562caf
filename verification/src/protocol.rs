//! The server's side of the protocol around the state: the events it
//! broadcasts, the authentication handshake, and the effects it asks its
//! host to carry out.
use vstd::prelude::*;
use crate::messages::{
    device_info_of, device_infos_view, group_infos_view, pane_infos_view, ClientMessage,
    DeviceInfo, ServerMessage,
};
use crate::state::{
    close_latest, delete_device, device_ids, insert_device, lookup_device, lookup_pane,
    pane_info_of, with_connection, AppState, ConnectedDevice, DeviceView, HistoryView, PaneView,
};
use crate::bindings::{is_v4_uuid_text, lossy_decode, utf8_lossy};
use crate::text::{opt_view, owned, strs_view};

verus! {

/// Work that the host carries out for the state machine, in order.
pub enum Action {
    /// Send an event to every connected client.
    Broadcast(ServerMessage),
    /// Save the session (panes, layout, groups) to disk.
    SaveSession,
    /// Save the ban list and connection history to disk.
    SaveSecurity,
    /// Spawn an 80x24 terminal running `shell`, then add it with
    /// `add_spawned_pane` and broadcast the state.
    SpawnTerminal { shell: String },
    /// Spawn a terminal running `shell` in `dir`; on failure broadcast an error.
    SpawnTerminalAtDir { shell: String, dir: String },
    /// Open `url` in the host's browser.
    OpenBrowser { url: String },
    /// Show the host's directory picker, then spawn a terminal there.
    PickDirectory { shell: String },
    /// List the directory `path` and broadcast its contents.
    ListDirectory { path: String },
    /// List the filesystem roots and broadcast them with the home directory.
    ListRoots,
    /// Write `data` to the PTY of `pane_id`.
    WriteInput { pane_id: String, data: String },
    /// Resize the PTY of `pane_id`.
    ResizePty { pane_id: String, cols: u16, rows: u16 },
    /// Kill the PTY of `pane_id`.
    KillPty { pane_id: String },
    /// Scan the listening ports and broadcast the result.
    ScanPorts,
    /// Terminate process `pid` and broadcast the result.
    KillProcess { pid: u32 },
    /// Write `data` as `file_name` in `dir` (the home directory when absent).
    WriteUpload { pane_id: String, file_name: String, dir: Option<String>, data: Vec<u8> },
    /// Run git status in `dir` and broadcast it.
    GitStatus { pane_id: String, dir: String },
    /// Commit the staged changes in `dir` and broadcast the result.
    GitCommit { pane_id: String, dir: String, message: String },
    /// Stage (or unstage) `files` in `dir` and broadcast the result.
    GitStage { pane_id: String, dir: String, files: Vec<String>, unstage: bool },
    /// Push `dir` and broadcast the result.
    GitPush { pane_id: String, dir: String },
    /// Pull `dir` and broadcast the result.
    GitPull { pane_id: String, dir: String },
    /// Read the log of `dir` and broadcast it.
    GitLog { pane_id: String, dir: String },
    /// Read the source control state of `path` and broadcast it.
    SourceControlState { path: String },
    /// Look for repositories in `path` and broadcast them.
    FindGitRepos { path: String },
}

/// `m` is the layout event for state `s`: all pane records, the grid, the
/// floating tabs and the groups.
pub open spec fn is_state_update(m: ServerMessage, s: AppState) -> bool {
    m matches ServerMessage::StateUpdate { panes, active_panes, floating_panes, groups }
        && pane_infos_view(panes@) == s.panes_v().map_values(|p: PaneView| pane_info_of(p))
        && strs_view(active_panes@) == s.active_v() && strs_view(floating_panes@) == s.floating_v()
        && group_infos_view(groups@) == s.groups_v()
}

/// `m` is the full state for state `s`: all pane records, the layout, the
/// groups, and the scrollback (decoded as UTF-8, lossily) of each grid pane
/// and then each floating pane (empty for an id without a pane).
pub open spec fn is_full_state_sync(m: ServerMessage, s: AppState) -> bool {
    m matches ServerMessage::FullStateSync {
        panes,
        active_panes,
        floating_panes,
        groups,
        scrollback_buffers,
    } && pane_infos_view(panes@) == s.panes_v().map_values(|p: PaneView| pane_info_of(p))
        && strs_view(active_panes@) == s.active_v() && strs_view(floating_panes@) == s.floating_v()
        && group_infos_view(groups@) == s.groups_v() && {
        let ids = s.active_v() + s.floating_v();
        &&& scrollback_buffers@.len() == ids.len()
        &&& forall|i: int|
            0 <= i < ids.len() ==> (#[trigger] scrollback_buffers@[i]).0@ == ids[i]
                && scrollback_buffers@[i].1@ == lossy_decode(
                match lookup_pane(s.panes_v(), ids[i]) {
                    Some(p) => p.buffer,
                    None => Seq::empty(),
                },
            )
    }
}

/// `m` is the device list event for state `s`.
pub open spec fn is_device_list(m: ServerMessage, s: AppState) -> bool {
    m matches ServerMessage::DeviceList { devices } && device_infos_view(devices@)
        == s.devices_v().map_values(|d: DeviceView| device_info_of(d))
}

/// `m` is an error event with text `text`.
pub open spec fn is_error(m: ServerMessage, text: Seq<char>) -> bool {
    m matches ServerMessage::Error { message } && message@ == text
}

/// `m` is an authentication result.
pub open spec fn is_auth_result(m: ServerMessage, success: bool, text: Seq<char>) -> bool {
    m matches ServerMessage::AuthResult { success: s, message } && s == success
        && opt_view(message) == Some(text)
}

/// `a` broadcasts a message `m` for which `p(m)` holds.
pub open spec fn broadcasts(a: Action, p: spec_fn(ServerMessage) -> bool) -> bool {
    a matches Action::Broadcast(m) && p(m)
}

/// The actions that follow a layout change: broadcast the new layout, save the session.
pub open spec fn layout_actions(acts: Seq<Action>, s: AppState) -> bool {
    &&& acts.len() == 2
    &&& broadcasts(acts[0], |m: ServerMessage| is_state_update(m, s))
    &&& acts[1] is SaveSession
}

/// The first message a client sends on a new connection, as the transport saw it.
pub enum FirstMessage {
    /// A text message that parsed as a request.
    Request(ClientMessage),
    /// A text message that did not parse.
    Unparsable,
    /// A close frame.
    Close,
    /// A binary, ping or pong frame.
    NonText,
    /// A transport error.
    TransportError,
    /// The connection ended.
    Disconnected,
    /// Nothing arrived in time.
    Timeout,
}

/// The reply text to a first message that does not authenticate the
/// client, if it gets a reply at all.
pub open spec fn rejection_text(first: FirstMessage, token_ok: bool) -> Option<Seq<char>> {
    match first {
        FirstMessage::Request(ClientMessage::Auth { .. }) => if token_ok {
            None
        } else {
            Some("Invalid token"@)
        },
        FirstMessage::Request(_) => Some("Authentication required first"@),
        FirstMessage::Unparsable => Some("Invalid message format"@),
        FirstMessage::Close => Some("Unexpected close"@),
        FirstMessage::NonText => Some("Expected text message"@),
        FirstMessage::TransportError => None,
        FirstMessage::Disconnected => None,
        FirstMessage::Timeout => Some("Authentication timeout"@),
    }
}

/// The first message authenticates the client: an auth request with the right token.
pub open spec fn authenticates(first: FirstMessage, auth_token: Seq<char>) -> bool {
    first matches FirstMessage::Request(ClientMessage::Auth { token }) && token@ == auth_token
}

fn auth_result(success: bool, text: &str) -> (m: ServerMessage)
    ensures
        is_auth_result(m, success, text@),
{
    ServerMessage::AuthResult { success, message: Some(owned(text)) }
}

impl AppState {
    /// The layout event for the current state.
    pub fn state_update(&self) -> (m: ServerMessage)
        ensures
            is_state_update(m, *self),
    {
        ServerMessage::StateUpdate {
            panes: self.get_panes_info(),
            active_panes: self.get_active_panes(),
            floating_panes: self.get_floating_panes(),
            groups: self.get_all_groups(),
        }
    }

    /// The device list event for the current state.
    pub fn device_list(&self) -> (m: ServerMessage)
        ensures
            is_device_list(m, *self),
    {
        let mut devices: Vec<DeviceInfo> = Vec::new();
        let mut i: usize = 0;
        while i < self.connected_devices.len()
            invariant
                i <= self.connected_devices@.len(),
                devices@.len() == i,
                forall|k: int|
                    0 <= k < i ==> #[trigger] devices@[k]@ == device_info_of(
                        self.connected_devices@[k]@,
                    ),
            decreases self.connected_devices@.len() - i,
        {
            devices.push(DeviceInfo::of(&self.connected_devices[i]));
            i = i + 1;
        }
        assert(device_infos_view(devices@) =~= self.devices_v().map_values(
            |d: DeviceView| device_info_of(d),
        ));
        ServerMessage::DeviceList { devices }
    }

    /// The full state for a newly authenticated client: all pane records,
    /// the layout, the groups, and the scrollback (decoded as UTF-8, lossily)
    /// of each grid pane and then each floating pane.
    pub fn full_state_sync(&self) -> (m: ServerMessage)
        ensures
            is_full_state_sync(m, *self),
    {
        let active = self.get_active_panes();
        let floating = self.get_floating_panes();
        let mut i: usize = 0;
        let mut both: Vec<String> = Vec::new();
        while i < active.len()
            invariant
                i <= active@.len(),
                both@.len() == i,
                forall|k: int| 0 <= k < i ==> #[trigger] both@[k]@ == active@[k]@,
            decreases active@.len() - i,
        {
            both.push(active[i].clone());
            i = i + 1;
        }
        let mut j: usize = 0;
        while j < floating.len()
            invariant
                j <= floating@.len(),
                both@.len() == active@.len() + j,
                forall|k: int| 0 <= k < active@.len() ==> #[trigger] both@[k]@ == active@[k]@,
                forall|k: int|
                    0 <= k < j ==> #[trigger] both@[active@.len() + k]@ == floating@[k]@,
            decreases floating@.len() - j,
        {
            both.push(floating[j].clone());
            j = j + 1;
        }
        let ghost want = self.active_v() + self.floating_v();
        assert(strs_view(both@) =~= want) by {
            assert(strs_view(active@) == self.active_v());
            assert(strs_view(floating@) == self.floating_v());
            assert forall|k: int| 0 <= k < want.len() implies strs_view(both@)[k] == want[k] by {
                assert(strs_view(both@)[k] == both@[k]@);
                if k < active@.len() {
                    assert(strs_view(active@)[k] == active@[k]@);
                    assert(want[k] == self.active_v()[k]);
                } else {
                    let j = k - active@.len();
                    assert(strs_view(floating@)[j] == floating@[j]@);
                    assert(want[k] == self.floating_v()[j]);
                    assert(both@[active@.len() + j]@ == floating@[j]@);
                }
            }
        }
        let bufs = self.get_panes_buffers(both.as_slice());
        let mut scrollback_buffers: Vec<(String, String)> = Vec::new();
        let mut k: usize = 0;
        while k < bufs.len()
            invariant
                k <= bufs@.len(),
                bufs@.len() == both@.len(),
                strs_view(both@) == want,
                scrollback_buffers@.len() == k,
                forall|i: int|
                    0 <= i < bufs@.len() ==> (#[trigger] bufs@[i]).0@ == both@[i]@ && bufs@[i].1@
                        == match lookup_pane(self.panes_v(), both@[i]@) {
                        Some(p) => p.buffer,
                        None => Seq::empty(),
                    },
                forall|i: int|
                    0 <= i < k ==> (#[trigger] scrollback_buffers@[i]).0@ == bufs@[i].0@
                        && scrollback_buffers@[i].1@ == lossy_decode(bufs@[i].1@),
            decreases bufs@.len() - k,
        {
            let text = utf8_lossy(bufs[k].1.as_slice());
            scrollback_buffers.push((bufs[k].0.clone(), text));
            k = k + 1;
        }
        assert forall|i: int| 0 <= i < want.len() implies want[i] == both@[i]@ by {
            assert(strs_view(both@)[i] == both@[i]@);
        }
        ServerMessage::FullStateSync {
            panes: self.get_panes_info(),
            active_panes: active,
            floating_panes: floating,
            groups: self.get_all_groups(),
            scrollback_buffers,
        }
    }

    /// Whether a client's first message authenticates it: an auth request
    /// carrying this server's token.
    pub fn first_message_authenticates(&self, first: &FirstMessage) -> (r: bool)
        ensures
            r == authenticates(*first, self.auth_token@),
    {
        match first {
            FirstMessage::Request(ClientMessage::Auth { token }) => self.validate_token(token.as_str()),
            _ => false,
        }
    }

    /// The reply to a client's first message when it does not authenticate
    /// the client (`None` when it does, or when no reply is sent).
    pub fn auth_rejection(&self, first: &FirstMessage) -> (r: Option<ServerMessage>)
        ensures
            authenticates(*first, self.auth_token@) ==> r is None,
            !authenticates(*first, self.auth_token@) ==> match rejection_text(*first, false) {
                Some(t) => r matches Some(m) && is_auth_result(m, false, t),
                None => r is None,
            },
    {
        match first {
            FirstMessage::Request(ClientMessage::Auth { token }) => {
                if self.validate_token(token.as_str()) {
                    None
                } else {
                    Some(auth_result(false, "Invalid token"))
                }
            },
            FirstMessage::Request(_) => Some(auth_result(false, "Authentication required first")),
            FirstMessage::Unparsable => Some(auth_result(false, "Invalid message format")),
            FirstMessage::Close => Some(auth_result(false, "Unexpected close")),
            FirstMessage::NonText => Some(auth_result(false, "Expected text message")),
            FirstMessage::TransportError => None,
            FirstMessage::Disconnected => None,
            FirstMessage::Timeout => Some(auth_result(false, "Authentication timeout")),
        }
    }

    /// Registers a newly authenticated client from `ip` as an authenticated device connected
    /// at `now`. Returns the device id, the device list to broadcast, and the
    /// replies for the client: the successful auth result, then the full state.
    pub fn connect_client(&mut self, ip: String, now: u64) -> (r: (String, ServerMessage, Vec<ServerMessage>))
        requires
            old(self).wf(),
        ensures
            final(self).wf(),
            is_v4_uuid_text(r.0@),
            final(self).devices_v() == insert_device(
                old(self).devices_v(),
                DeviceView {
                    id: r.0@,
                    ip: ip@,
                    user_agent: Seq::empty(),
                    connected_at: now,
                    authenticated: true,
                },
            ),
            lookup_device(final(self).devices_v(), r.0@) == Some(
                DeviceView {
                    id: r.0@,
                    ip: ip@,
                    user_agent: Seq::empty(),
                    connected_at: now,
                    authenticated: true,
                },
            ),
            final(self).security@.history == with_connection(
                old(self).security@.history,
                HistoryView {
                    ip: ip@,
                    user_agent: Seq::empty(),
                    connected_at: now,
                    disconnected_at: None,
                    was_banned: false,
                },
            ),
            is_device_list(r.1, *final(self)),
            r.2@.len() == 2,
            is_auth_result(r.2@[0], true, "Authenticated"@),
            is_full_state_sync(r.2@[1], *final(self)),
            final(self).security@.banned_ips == old(self).security@.banned_ips,
            final(self).panes == old(self).panes,
            final(self).active_panes == old(self).active_panes,
            final(self).floating_panes == old(self).floating_panes,
            final(self).groups == old(self).groups,
            final(self).same_settings(old(self)),
    {
        let mut device = ConnectedDevice::new(ip, String::new(), now);
        device.authenticated = true;
        let id = device.id.clone();
        let ghost dv = device@;
        self.add_device(device);
        proof {
            let ds = old(self).devices_v();
            let k = crate::state::first_index(device_ids(ds), dv.id);
            crate::state::lemma_first_index(device_ids(ds), dv.id);
            let nds = self.devices_v();
            let k2 = if k < ds.len() { k as int } else { ds.len() as int };
            assert(device_ids(nds)[k2] == dv.id);
            crate::state::lemma_first_index_unique(device_ids(nds), k2);
        }
        let list = self.device_list();
        let mut replies: Vec<ServerMessage> = Vec::new();
        replies.push(auth_result(true, "Authenticated"));
        replies.push(self.full_state_sync());
        (id, list, replies)
    }

    /// Unregisters the device of a client whose connection ended at `now`,
    /// closing its connection in the history. Returns the device list to broadcast.
    pub fn disconnect_client(&mut self, device_id: &str, now: u64) -> (m: ServerMessage)
        requires
            old(self).wf(),
        ensures
            final(self).wf(),
            final(self).devices_v() == delete_device(old(self).devices_v(), device_id@),
            final(self).security@.history == match lookup_device(
                old(self).devices_v(),
                device_id@,
            ) {
                Some(d) => close_latest(old(self).security@.history, d.ip, now, false),
                None => old(self).security@.history,
            },
            is_device_list(m, *final(self)),
            final(self).security@.banned_ips == old(self).security@.banned_ips,
            final(self).panes == old(self).panes,
            final(self).active_panes == old(self).active_panes,
            final(self).floating_panes == old(self).floating_panes,
            final(self).groups == old(self).groups,
            final(self).same_settings(old(self)),
    {
        self.remove_device(device_id, now);
        self.device_list()
    }
}

} // verus!
