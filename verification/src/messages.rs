//! The values exchanged with clients: requests (`ClientMessage`) and
//! events (`ServerMessage`), with the records they carry.
use vstd::prelude::*;
use crate::state::{ConnectedDevice, Pane, PaneGroup};
use crate::text::opt_view;

verus! {

/// Client to server messages.
pub enum ClientMessage {
    /// Authenticate with the server using a token.
    Auth { token: String },
    /// Spawn a new terminal pane with the specified shell.
    Spawn { shell: String },
    /// Spawn a new terminal pane at a specific directory.
    SpawnAtDir { shell: String, dir: String },
    /// Open a URL in the host's browser.
    SpawnBrowser { url: String },
    /// Send input data to a specific pane.
    Input { pane_id: String, data: String },
    /// Resize a specific pane (skipped when the size is unchanged).
    Resize { pane_id: String, cols: u16, rows: u16 },
    /// Resize a pane whatever its current size.
    Refocus { pane_id: String, cols: u16, rows: u16 },
    /// Kill a specific pane.
    Kill { pane_id: String },
    /// Move a pane to floating tabs.
    MoveToFloating { pane_id: String },
    /// Move a pane to the active grid.
    MoveToActive { pane_id: String },
    /// Rename a pane.
    Rename { pane_id: String, name: String },
    /// Heartbeat.
    Ping,
    /// Create a new pane group.
    CreateGroup { id: Option<String>, name: String, color: String },
    /// Delete a pane group (its panes become ungrouped).
    DeleteGroup { group_id: String },
    /// Rename a pane group.
    RenameGroup { group_id: String, name: String },
    /// Set or clear a pane's group.
    SetPaneGroup { pane_id: String, group_id: Option<String> },
    /// Ask the host to show a directory picker.
    RequestDirectoryPicker { shell: String },
    /// List a directory (or the roots when the path is empty, absent or `/`).
    ListDirectory { path: Option<String> },
    /// Request the list of connected devices.
    GetDeviceList,
    /// Disconnect a device.
    KickDevice { device_id: String },
    /// Ban an IP address.
    BanDevice { ip: String },
    /// Upload a base64-encoded file to a pane's working directory.
    UploadFile { pane_id: String, file_name: String, data: String },
    /// Git status of a pane's directory.
    GetGitStatus { pane_id: String },
    /// Commit the staged changes of a pane's directory.
    GitCommit { pane_id: String, message: String },
    /// Stage or unstage files.
    GitStage { pane_id: String, files: Vec<String>, unstage: bool },
    /// Push a pane's repository.
    GitPush { pane_id: String },
    /// Pull a pane's repository.
    GitPull { pane_id: String },
    /// Commit history of a directory.
    GitLog { pane_id: String, dir: String },
    /// Full source control state of a directory.
    GetSourceControlState { path: String },
    /// Repositories in a directory and its immediate subdirectories.
    FindGitRepos { path: String },
    /// Processes listening on development ports.
    GetPortProcesses,
    /// Terminate a process.
    KillProcess { pid: u32 },
    /// Replace parts of a non-terminal pane's content.
    UpdatePaneContent {
        pane_id: String,
        note_content: Option<String>,
        whiteboard_data: Option<String>,
        image_data: Option<String>,
    },
}

/// Server to client messages.
pub enum ServerMessage {
    /// Pane layout changed.
    StateUpdate {
        panes: Vec<PaneInfo>,
        active_panes: Vec<String>,
        floating_panes: Vec<String>,
        groups: Vec<PaneGroupInfo>,
    },
    /// Everything a newly authenticated client needs, with scrollback text.
    FullStateSync {
        panes: Vec<PaneInfo>,
        active_panes: Vec<String>,
        floating_panes: Vec<String>,
        groups: Vec<PaneGroupInfo>,
        scrollback_buffers: Vec<(String, String)>,
    },
    /// Terminal output data from a pane.
    Output { pane_id: String, data: String },
    /// Authentication result.
    AuthResult { success: bool, message: Option<String> },
    /// A group was created.
    GroupCreated { group: PaneGroupInfo },
    /// A group was deleted.
    GroupDeleted { group_id: String },
    /// A group was renamed.
    GroupRenamed { group_id: String, name: String },
    /// A pane's group was set.
    PaneGroupSet { pane_id: String, group_id: Option<String> },
    /// The directory picker was cancelled.
    DirectoryPickerCancelled,
    /// Directory contents for the file explorer.
    DirectoryContents { path: String, items: Vec<DirectoryItem> },
    /// Connected devices.
    DeviceList { devices: Vec<DeviceInfo> },
    /// A device was disconnected.
    DeviceKicked { device_id: String },
    /// An IP address was banned.
    DeviceBanned { ip: String },
    /// An error or a notice.
    Error { message: String },
    /// A file was written to a pane's directory.
    FileUploaded { pane_id: String, file_name: String },
    /// Git status of a directory.
    GitStatus {
        pane_id: String,
        dir: String,
        is_repo: bool,
        branch: Option<String>,
        staged: Vec<String>,
        unstaged: Vec<String>,
        untracked: Vec<String>,
        ahead: Option<i32>,
        behind: Option<i32>,
    },
    /// Result of a commit.
    GitCommitResult { pane_id: String, success: bool, message: String },
    /// Commit history.
    GitLog { pane_id: String, dir: String, commits: Vec<GitCommitInfo> },
    /// Full source control state.
    SourceControlState {
        path: String,
        is_repo: bool,
        branch: Option<String>,
        remote: Option<String>,
        staged: Vec<SourceControlFile>,
        unstaged: Vec<SourceControlFile>,
        untracked: Vec<SourceControlFile>,
        ahead: i32,
        behind: i32,
        outgoing_commits: Vec<OutgoingCommit>,
    },
    /// Repositories found.
    GitReposFound { repos: Vec<GitRepoInfo> },
    /// Processes on ports.
    PortProcesses { processes: Vec<PortProcess> },
    /// A pane's content changed.
    PaneContentUpdated {
        pane_id: String,
        note_content: Option<String>,
        whiteboard_data: Option<String>,
        image_data: Option<String>,
    },
    /// Result of terminating a process.
    ProcessKilled { pid: u32, success: bool, message: String },
}

/// A git repository.
pub struct GitRepoInfo {
    pub path: String,
    pub name: String,
    pub branch: Option<String>,
}

/// A file in source control.
pub struct SourceControlFile {
    pub path: String,
    pub status: String,
    pub added: Option<u32>,
    pub deleted: Option<u32>,
}

/// A commit that has not been pushed.
pub struct OutgoingCommit {
    pub hash: String,
    pub short_hash: String,
    pub message: String,
    pub author: String,
    pub date: String,
}

/// A connected device as clients see it.
pub struct DeviceInfo {
    /// Unique connection ID
    pub id: String,
    /// Client's IP address
    pub ip: String,
    /// Device/browser description inferred from the User-Agent
    pub device: String,
    /// When this connection was established (Unix timestamp)
    pub connected_at: u64,
    /// Whether this device is authenticated
    pub authenticated: bool,
}

/// A pane as clients see it and as a saved session records it.
pub struct PaneInfo {
    pub id: String,
    pub pid: u32,
    pub shell: String,
    pub name: String,
    pub cols: u16,
    pub rows: u16,
    pub group_id: Option<String>,
    pub cwd: Option<String>,
    pub pane_type: Option<String>,
    pub note_content: Option<String>,
    pub whiteboard_data: Option<String>,
    pub image_data: Option<String>,
    pub url: Option<String>,
    pub pinned: bool,
}

/// A pane group as clients see it.
pub struct PaneGroupInfo {
    pub id: String,
    pub name: String,
    pub color: String,
}

/// One entry of a directory listing.
pub struct DirectoryItem {
    pub name: String,
    pub absolute_path: String,
    pub is_dir: bool,
}

/// One commit of a git log.
pub struct GitCommitInfo {
    pub hash: String,
    pub short_hash: String,
    pub message: String,
    pub author: String,
    pub date: String,
}

/// A process listening on a port.
pub struct PortProcess {
    pub port: u16,
    pub pid: u32,
    pub process_name: String,
    pub cwd: Option<String>,
}

/// An activity or notification event from some source (a pane, an agent).
pub struct NotificationEventInfo {
    pub event_id: String,
    pub source_type: String,
    pub source_id: String,
    pub status: String,
}

/// Current notification states and the shared history.
pub struct NotificationSnapshot {
    pub current: Vec<NotificationEventInfo>,
    pub history: Vec<NotificationEventInfo>,
}

/// The mathematical content of a `PaneInfo`.
pub struct PaneInfoView {
    pub id: Seq<char>,
    pub pid: u32,
    pub shell: Seq<char>,
    pub name: Seq<char>,
    pub cols: u16,
    pub rows: u16,
    pub group_id: Option<Seq<char>>,
    pub cwd: Option<Seq<char>>,
    pub pane_type: Option<Seq<char>>,
    pub note_content: Option<Seq<char>>,
    pub whiteboard_data: Option<Seq<char>>,
    pub image_data: Option<Seq<char>>,
    pub url: Option<Seq<char>>,
    pub pinned: bool,
}

impl View for PaneInfo {
    type V = PaneInfoView;

    open spec fn view(&self) -> PaneInfoView {
        PaneInfoView {
            id: self.id@,
            pid: self.pid,
            shell: self.shell@,
            name: self.name@,
            cols: self.cols,
            rows: self.rows,
            group_id: opt_view(self.group_id),
            cwd: opt_view(self.cwd),
            pane_type: opt_view(self.pane_type),
            note_content: opt_view(self.note_content),
            whiteboard_data: opt_view(self.whiteboard_data),
            image_data: opt_view(self.image_data),
            url: opt_view(self.url),
            pinned: self.pinned,
        }
    }
}

/// The mathematical content of a group: id, name and color.
pub struct GroupView {
    pub id: Seq<char>,
    pub name: Seq<char>,
    pub color: Seq<char>,
}

impl View for PaneGroupInfo {
    type V = GroupView;

    open spec fn view(&self) -> GroupView {
        GroupView { id: self.id@, name: self.name@, color: self.color@ }
    }
}

/// The mathematical content of a `DeviceInfo`.
pub struct DeviceInfoView {
    pub id: Seq<char>,
    pub ip: Seq<char>,
    pub device: Seq<char>,
    pub connected_at: u64,
    pub authenticated: bool,
}

impl View for DeviceInfo {
    type V = DeviceInfoView;

    open spec fn view(&self) -> DeviceInfoView {
        DeviceInfoView {
            id: self.id@,
            ip: self.ip@,
            device: self.device@,
            connected_at: self.connected_at,
            authenticated: self.authenticated,
        }
    }
}

/// The mathematical content of a notification event.
pub struct NoticeView {
    pub event_id: Seq<char>,
    pub source_type: Seq<char>,
    pub source_id: Seq<char>,
    pub status: Seq<char>,
}

impl View for NotificationEventInfo {
    type V = NoticeView;

    open spec fn view(&self) -> NoticeView {
        NoticeView {
            event_id: self.event_id@,
            source_type: self.source_type@,
            source_id: self.source_id@,
            status: self.status@,
        }
    }
}

/// The views of a list of pane records.
pub open spec fn pane_infos_view(v: Seq<PaneInfo>) -> Seq<PaneInfoView> {
    v.map_values(|p: PaneInfo| p@)
}

/// The views of a list of group records.
pub open spec fn group_infos_view(v: Seq<PaneGroupInfo>) -> Seq<GroupView> {
    v.map_values(|g: PaneGroupInfo| g@)
}

/// The views of a list of device records.
pub open spec fn device_infos_view(v: Seq<DeviceInfo>) -> Seq<DeviceInfoView> {
    v.map_values(|d: DeviceInfo| d@)
}

/// The views of a list of notification events.
pub open spec fn notices_view(v: Seq<NotificationEventInfo>) -> Seq<NoticeView> {
    v.map_values(|n: NotificationEventInfo| n@)
}

impl NotificationEventInfo {
    /// A copy of this event.
    pub fn duplicate(&self) -> (r: NotificationEventInfo)
        ensures
            r@ == self@,
    {
        NotificationEventInfo {
            event_id: self.event_id.clone(),
            source_type: self.source_type.clone(),
            source_id: self.source_id.clone(),
            status: self.status.clone(),
        }
    }
}

impl PaneGroupInfo {
    /// A copy of this record.
    pub fn duplicate(&self) -> (r: PaneGroupInfo)
        ensures
            r@ == self@,
    {
        PaneGroupInfo { id: self.id.clone(), name: self.name.clone(), color: self.color.clone() }
    }
}

/// A copy of a list of notification events.
pub fn clone_notices(v: &Vec<NotificationEventInfo>) -> (r: Vec<NotificationEventInfo>)
    ensures
        notices_view(r@) == notices_view(v@),
{
    let mut r: Vec<NotificationEventInfo> = Vec::new();
    let mut i: usize = 0;
    while i < v.len()
        invariant
            i <= v@.len(),
            r@.len() == i,
            forall|k: int| 0 <= k < i ==> #[trigger] r@[k]@ == v@[k]@,
        decreases v@.len() - i,
    {
        r.push(v[i].duplicate());
        i = i + 1;
    }
    assert(notices_view(r@) =~= notices_view(v@));
    r
}

} // verus!

verus! {

impl<'a> From<&'a Pane> for PaneInfo {
    fn from(pane: &'a Pane) -> (r: PaneInfo) {
        PaneInfo {
            id: pane.id.clone(),
            pid: pane.pid,
            shell: pane.shell.clone(),
            name: pane.name.clone(),
            cols: pane.cols,
            rows: pane.rows,
            group_id: pane.group_id.clone(),
            cwd: pane.cwd.clone(),
            pane_type: Some(pane.pane_type.clone()),
            note_content: pane.note_content.clone(),
            whiteboard_data: pane.whiteboard_data.clone(),
            image_data: pane.image_data.clone(),
            url: pane.url.clone(),
            pinned: pane.pinned,
        }
    }
}

impl<'a> vstd::std_specs::convert::FromSpecImpl<&'a Pane> for PaneInfo {
    open spec fn obeys_from_spec() -> bool {
        true
    }

    open spec fn from_spec(pane: &'a Pane) -> PaneInfo {
        PaneInfo {
            id: pane.id,
            pid: pane.pid,
            shell: pane.shell,
            name: pane.name,
            cols: pane.cols,
            rows: pane.rows,
            group_id: pane.group_id,
            cwd: pane.cwd,
            pane_type: Some(pane.pane_type),
            note_content: pane.note_content,
            whiteboard_data: pane.whiteboard_data,
            image_data: pane.image_data,
            url: pane.url,
            pinned: pane.pinned,
        }
    }
}

} // verus!

verus! {

impl<'a> From<&'a PaneGroup> for PaneGroupInfo {
    fn from(group: &'a PaneGroup) -> (r: PaneGroupInfo) {
        PaneGroupInfo { id: group.id.clone(), name: group.name.clone(), color: group.color.clone() }
    }
}

impl<'a> vstd::std_specs::convert::FromSpecImpl<&'a PaneGroup> for PaneGroupInfo {
    open spec fn obeys_from_spec() -> bool {
        true
    }

    open spec fn from_spec(group: &'a PaneGroup) -> PaneGroupInfo {
        PaneGroupInfo { id: group.id, name: group.name, color: group.color }
    }
}

impl From<PaneGroupInfo> for PaneGroup {
    fn from(info: PaneGroupInfo) -> (r: PaneGroup) {
        PaneGroup { id: info.id, name: info.name, color: info.color }
    }
}

impl vstd::std_specs::convert::FromSpecImpl<PaneGroupInfo> for PaneGroup {
    open spec fn obeys_from_spec() -> bool {
        true
    }

    open spec fn from_spec(info: PaneGroupInfo) -> PaneGroup {
        PaneGroup { id: info.id, name: info.name, color: info.color }
    }
}

} // verus!

verus! {

/// The record of a device as clients see it, with its description derived
/// from the User-Agent.
pub open spec fn device_info_of(d: crate::state::DeviceView) -> DeviceInfoView {
    DeviceInfoView {
        id: d.id,
        ip: d.ip,
        device: crate::state::device_label(d.user_agent),
        connected_at: d.connected_at,
        authenticated: d.authenticated,
    }
}

impl DeviceInfo {
    /// The record of `device` as clients see it.
    pub fn of(device: &ConnectedDevice) -> (r: DeviceInfo)
        ensures
            r@ == device_info_of(device@),
    {
        DeviceInfo {
            id: device.id.clone(),
            ip: device.ip.clone(),
            device: device.device_info(),
            connected_at: device.connected_at,
            authenticated: device.authenticated,
        }
    }
}

impl<'a> From<&'a ConnectedDevice> for DeviceInfo {
    fn from(device: &'a ConnectedDevice) -> (r: DeviceInfo) {
        DeviceInfo::of(device)
    }
}

} // verus!

verus! {

impl<'a> vstd::std_specs::convert::FromSpecImpl<&'a ConnectedDevice> for DeviceInfo {
    /// The conversion's description string is built at run time, so no
    /// spec value is claimed for it; `DeviceInfo::of` states the result.
    open spec fn obeys_from_spec() -> bool {
        false
    }

    open spec fn from_spec(device: &'a ConnectedDevice) -> DeviceInfo {
        vstd::pervasive::arbitrary()
    }
}

} // verus!
