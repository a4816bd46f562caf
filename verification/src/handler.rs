//! What the server does with each client request: the change to the state
//! and the work, in order, that the host carries out.
use vstd::prelude::*;
use crate::bindings::{base64_standard_decoded, is_v4_uuid_text};
use crate::upload::decode_upload;
use crate::messages::{ClientMessage, GroupView, PaneGroupInfo, ServerMessage};
use crate::protocol::{
    broadcasts, is_device_list, is_error, layout_actions, Action,
};
use crate::state::{
    close_latest, close_latest_times, count_from_ip, delete_device, delete_pane, device_ids,
    first_index, group_ids, lookup_device, lookup_pane, modify_pane, pane_ids,
    keyed_insert, ungrouped, with_content, write_times_view, AppState, DeviceView, PaneGroup,
    PaneView,
};
use crate::text::{opt_view, owned, str_eq};

verus! {

/// The working directory of pane `id`, if the pane exists and has one.
pub open spec fn pane_cwd(ps: Seq<PaneView>, id: Seq<char>) -> Option<Seq<char>> {
    match lookup_pane(ps, id) {
        Some(p) => p.cwd,
        None => None,
    }
}

/// `acts` is the single action `a` satisfying `p`.
pub open spec fn only(acts: Seq<Action>, p: spec_fn(Action) -> bool) -> bool {
    acts.len() == 1 && p(acts[0])
}

/// The reply when a git request names a pane without a working directory.
pub open spec fn no_cwd_error(acts: Seq<Action>) -> bool {
    only(acts, |a: Action| broadcasts(a, |m: ServerMessage| is_error(m, "Pane has no working directory"@)))
}

/// The state after a resize of pane `id` to `cols` x `rows`.
pub open spec fn resized(old: AppState, new: AppState, id: Seq<char>, cols: u16, rows: u16) -> bool {
    &&& new.panes_v() == modify_pane(old.panes_v(), id, |p: PaneView| PaneView { cols, rows, ..p })
    &&& new.active_panes == old.active_panes
    &&& new.floating_panes == old.floating_panes
    &&& new.same_but_panes(&old)
}

/// The actions of a resize: resize the PTY, then broadcast and save the layout.
pub open spec fn resize_actions(acts: Seq<Action>, new: AppState, id: Seq<char>, cols: u16, rows: u16) -> bool {
    &&& acts.len() == 3
    &&& acts[0] matches Action::ResizePty { pane_id, cols: c, rows: r } && pane_id@ == id && c == cols
        && r == rows
    &&& layout_actions(acts.skip(1), new)
}

/// What handling `msg` does: `new` is the state after it and `acts` the
/// work for the host, in order.
pub open spec fn handled(old: AppState, new: AppState, msg: ClientMessage, now: u64, acts: Seq<Action>) -> bool {
    match msg {
        ClientMessage::Auth { .. } => new == old && acts.len() == 0,
        ClientMessage::Ping => new == old && acts.len() == 0,
        ClientMessage::Spawn { shell } => new == old && only(
            acts,
            |a: Action| a matches Action::SpawnTerminal { shell: s } && s@ == shell@,
        ),
        ClientMessage::SpawnAtDir { shell, dir } => new == old && only(
            acts,
            |a: Action|
                a matches Action::SpawnTerminalAtDir { shell: s, dir: d } && s@ == shell@ && d@
                    == dir@,
        ),
        ClientMessage::SpawnBrowser { url } => new == old && only(
            acts,
            |a: Action| a matches Action::OpenBrowser { url: u } && u@ == url@,
        ),
        ClientMessage::RequestDirectoryPicker { shell } => new == old && only(
            acts,
            |a: Action| a matches Action::PickDirectory { shell: s } && s@ == shell@,
        ),
        ClientMessage::ListDirectory { path } => new == old && match path {
            Some(p) => if p@.len() == 0 || p@ == "/"@ {
                only(acts, |a: Action| a is ListRoots)
            } else {
                only(acts, |a: Action| a matches Action::ListDirectory { path: q } && q@ == p@)
            },
            None => only(acts, |a: Action| a is ListRoots),
        },
        ClientMessage::Input { pane_id, data } => new == old && only(
            acts,
            |a: Action|
                a matches Action::WriteInput { pane_id: p, data: d } && p@ == pane_id@ && d@
                    == data@,
        ),
        ClientMessage::Resize { pane_id, cols, rows } => {
            let same = lookup_pane(old.panes_v(), pane_id@) matches Some(p) && p.cols == cols
                && p.rows == rows;
            if same {
                new == old && acts.len() == 0
            } else {
                resized(old, new, pane_id@, cols, rows) && resize_actions(
                    acts,
                    new,
                    pane_id@,
                    cols,
                    rows,
                )
            }
        },
        ClientMessage::Refocus { pane_id, cols, rows } => resized(old, new, pane_id@, cols, rows)
            && resize_actions(acts, new, pane_id@, cols, rows),
        ClientMessage::Kill { pane_id } => {
            &&& new.panes_v() == delete_pane(old.panes_v(), pane_id@)
            &&& new.active_v() == old.active_v().filter(|x: Seq<char>| x != pane_id@)
            &&& new.floating_v() == old.floating_v().filter(|x: Seq<char>| x != pane_id@)
            &&& new.same_but_panes(&old)
            &&& acts.len() == 3
            &&& acts[0] matches Action::KillPty { pane_id: p } && p@ == pane_id@
            &&& layout_actions(acts.skip(1), new)
        },
        ClientMessage::MoveToFloating { pane_id } => {
            &&& new.active_v() == old.active_v().filter(|x: Seq<char>| x != pane_id@)
            &&& new.floating_v() == if old.floating_v().contains(pane_id@) {
                old.floating_v()
            } else {
                old.floating_v().push(pane_id@)
            }
            &&& new.panes == old.panes
            &&& new.same_but_panes(&old)
            &&& layout_actions(acts, new)
        },
        ClientMessage::MoveToActive { pane_id } => {
            &&& new.floating_v() == old.floating_v().filter(|x: Seq<char>| x != pane_id@)
            &&& new.active_v() == if old.active_v().contains(pane_id@) {
                old.active_v()
            } else {
                old.active_v().push(pane_id@)
            }
            &&& new.panes == old.panes
            &&& new.same_but_panes(&old)
            &&& layout_actions(acts, new)
        },
        ClientMessage::Rename { pane_id, name } => {
            &&& new.panes_v() == modify_pane(
                old.panes_v(),
                pane_id@,
                |p: PaneView| PaneView { name: name@, ..p },
            )
            &&& new.active_panes == old.active_panes
            &&& new.floating_panes == old.floating_panes
            &&& new.same_but_panes(&old)
            &&& layout_actions(acts, new)
        },
        ClientMessage::CreateGroup { id, name, color } => exists|gid: Seq<char>|
            group_created(old, new, id, name@, color@, gid, acts),
        ClientMessage::DeleteGroup { group_id } => if group_ids(old.groups_v()).contains(group_id@) {
            &&& new.groups_v() == old.groups_v().remove(
                first_index(group_ids(old.groups_v()), group_id@) as int,
            )
            &&& new.panes_v() == old.panes_v().map_values(|p: PaneView| ungrouped(p, group_id@))
            &&& new.active_panes == old.active_panes
            &&& new.floating_panes == old.floating_panes
            &&& new.connected_devices == old.connected_devices
            &&& new.security == old.security
            &&& new.same_settings(&old)
            &&& acts.len() == 3
            &&& acts[0] matches Action::Broadcast(ServerMessage::GroupDeleted { group_id: g }) && g@
                == group_id@
            &&& layout_actions(acts.skip(1), new)
        } else {
            new == old && acts.len() == 0
        },
        ClientMessage::RenameGroup { group_id, name } => if group_ids(old.groups_v()).contains(
            group_id@,
        ) {
            let gs = old.groups_v();
            let k = first_index(group_ids(gs), group_id@);
            &&& new.groups_v() == gs.update(k as int, GroupView { name: name@, ..gs[k as int] })
            &&& new.panes == old.panes
            &&& new.active_panes == old.active_panes
            &&& new.floating_panes == old.floating_panes
            &&& new.connected_devices == old.connected_devices
            &&& new.security == old.security
            &&& new.same_settings(&old)
            &&& acts.len() == 3
            &&& acts[0] matches Action::Broadcast(ServerMessage::GroupRenamed { group_id: g, name: n })
                && g@ == group_id@ && n@ == name@
            &&& layout_actions(acts.skip(1), new)
        } else {
            new == old && acts.len() == 0
        },
        ClientMessage::SetPaneGroup { pane_id, group_id } => if pane_ids(old.panes_v()).contains(
            pane_id@,
        ) {
            &&& new.panes_v() == modify_pane(
                old.panes_v(),
                pane_id@,
                |p: PaneView| PaneView { group_id: opt_view(group_id), ..p },
            )
            &&& new.active_panes == old.active_panes
            &&& new.floating_panes == old.floating_panes
            &&& new.same_but_panes(&old)
            &&& acts.len() == 3
            &&& acts[0] matches Action::Broadcast(ServerMessage::PaneGroupSet { pane_id: p, group_id: g })
                && p@ == pane_id@ && opt_view(g) == opt_view(group_id)
            &&& layout_actions(acts.skip(1), new)
        } else {
            new == old && acts.len() == 0
        },
        ClientMessage::GetDeviceList => new == old && only(
            acts,
            |a: Action| broadcasts(a, |m: ServerMessage| is_device_list(m, old)),
        ),
        ClientMessage::KickDevice { device_id } => if device_ids(old.devices_v()).contains(
            device_id@,
        ) {
            &&& new.devices_v() == delete_device(old.devices_v(), device_id@)
            &&& new.security@.history == close_latest(
                old.security@.history,
                lookup_device(old.devices_v(), device_id@)->0.ip,
                now,
                false,
            )
            &&& new.security@.banned_ips == old.security@.banned_ips
            &&& new.panes == old.panes
            &&& new.active_panes == old.active_panes
            &&& new.floating_panes == old.floating_panes
            &&& new.groups == old.groups
            &&& new.same_settings(&old)
            &&& acts.len() == 2
            &&& acts[0] is SaveSecurity
            &&& acts[1] matches Action::Broadcast(ServerMessage::DeviceKicked { device_id: d }) && d@
                == device_id@
        } else {
            new == old && only(
                acts,
                |a: Action| broadcasts(a, |m: ServerMessage| is_error(m, "Device not found"@)),
            )
        },
        ClientMessage::BanDevice { ip } => if old.security@.banned_ips.contains(ip@) {
            new == old && only(
                acts,
                |a: Action| broadcasts(a, |m: ServerMessage| is_error(m, "IP already banned"@)),
            )
        } else {
            &&& new.security@.banned_ips == old.security@.banned_ips.push(ip@)
            &&& new.devices_v() == old.devices_v().filter(|d: DeviceView| d.ip != ip@)
            &&& new.security@.history == close_latest_times(
                old.security@.history,
                ip@,
                now,
                true,
                count_from_ip(old.devices_v(), ip@),
            )
            &&& new.panes == old.panes
            &&& new.active_panes == old.active_panes
            &&& new.floating_panes == old.floating_panes
            &&& new.groups == old.groups
            &&& new.same_settings(&old)
            &&& acts.len() == 2
            &&& acts[0] is SaveSecurity
            &&& acts[1] matches Action::Broadcast(ServerMessage::DeviceBanned { ip: i }) && i@ == ip@
        },
        ClientMessage::UploadFile { pane_id, file_name, data } => new == old && match base64_standard_decoded(data@) {
            Some(bytes) => only(
                acts,
                |a: Action|
                    a matches Action::WriteUpload { pane_id: p, file_name: f, dir, data: d } && p@
                        == pane_id@ && f@ == file_name@ && opt_view(dir) == pane_cwd(
                        old.panes_v(),
                        pane_id@,
                    ) && d@ == bytes,
            ),
            None => only(
                acts,
                |a: Action|
                    broadcasts(
                        a,
                        |m: ServerMessage|
                            m matches ServerMessage::Error { message } && "Failed to decode file data: "@.is_prefix_of(message@),
                    ),
            ),
        },
        ClientMessage::GetGitStatus { pane_id } => new == old && match pane_cwd(old.panes_v(), pane_id@) {
            Some(dir) => only(
                acts,
                |a: Action|
                    a matches Action::GitStatus { pane_id: p, dir: d } && p@ == pane_id@ && d@ == dir,
            ),
            None => no_cwd_error(acts),
        },
        ClientMessage::GitCommit { pane_id, message } => new == old && match pane_cwd(old.panes_v(), pane_id@) {
            Some(dir) => only(
                acts,
                |a: Action|
                    a matches Action::GitCommit { pane_id: p, dir: d, message: m } && p@ == pane_id@
                        && d@ == dir && m@ == message@,
            ),
            None => only(
                acts,
                |a: Action|
                    broadcasts(
                        a,
                        |m: ServerMessage|
                            m matches ServerMessage::GitCommitResult { pane_id: p, success, message: t }
                                && p@ == pane_id@ && !success && t@ == "Pane has no working directory"@,
                    ),
            ),
        },
        ClientMessage::GitStage { pane_id, files, unstage } => new == old && match pane_cwd(old.panes_v(), pane_id@) {
            Some(dir) => {
                &&& acts.len() == 2
                &&& acts[0] matches Action::GitStage { pane_id: p, dir: d, files: f, unstage: u } && p@
                    == pane_id@ && d@ == dir && f@ == files@ && u == unstage
                &&& acts[1] matches Action::GitStatus { pane_id: p, dir: d } && p@ == pane_id@ && d@
                    == dir
            },
            None => no_cwd_error(acts),
        },
        ClientMessage::GitPush { pane_id } => new == old && match pane_cwd(old.panes_v(), pane_id@) {
            Some(dir) => {
                &&& acts.len() == 2
                &&& acts[0] matches Action::GitPush { pane_id: p, dir: d } && p@ == pane_id@ && d@ == dir
                &&& acts[1] matches Action::SourceControlState { path } && path@ == dir
            },
            None => no_cwd_error(acts),
        },
        ClientMessage::GitPull { pane_id } => new == old && match pane_cwd(old.panes_v(), pane_id@) {
            Some(dir) => {
                &&& acts.len() == 2
                &&& acts[0] matches Action::GitPull { pane_id: p, dir: d } && p@ == pane_id@ && d@ == dir
                &&& acts[1] matches Action::SourceControlState { path } && path@ == dir
            },
            None => no_cwd_error(acts),
        },
        ClientMessage::GitLog { pane_id, dir } => new == old && if dir@.len() == 0 {
            only(
                acts,
                |a: Action|
                    broadcasts(a, |m: ServerMessage| is_error(m, "No directory provided for git log"@)),
            )
        } else {
            only(
                acts,
                |a: Action| a matches Action::GitLog { pane_id: p, dir: d } && p@ == pane_id@ && d@ == dir@,
            )
        },
        ClientMessage::GetSourceControlState { path } => new == old && only(
            acts,
            |a: Action| a matches Action::SourceControlState { path: p } && p@ == path@,
        ),
        ClientMessage::FindGitRepos { path } => new == old && only(
            acts,
            |a: Action| a matches Action::FindGitRepos { path: p } && p@ == path@,
        ),
        ClientMessage::GetPortProcesses => new == old && only(acts, |a: Action| a is ScanPorts),
        ClientMessage::KillProcess { pid } => new == old && only(
            acts,
            |a: Action| a matches Action::KillProcess { pid: p } && p == pid,
        ),
        ClientMessage::UpdatePaneContent { pane_id, note_content, whiteboard_data, image_data } => {
            &&& new.panes_v() == modify_pane(
                old.panes_v(),
                pane_id@,
                |p: PaneView|
                    with_content(
                        p,
                        opt_view(note_content),
                        opt_view(whiteboard_data),
                        opt_view(image_data),
                    ),
            )
            &&& write_times_view(new.last_write_time@) == keyed_insert(
                write_times_view(old.last_write_time@),
                pane_id@,
                now,
            )
            &&& new.active_panes == old.active_panes
            &&& new.floating_panes == old.floating_panes
            &&& new.groups == old.groups
            &&& new.connected_devices == old.connected_devices
            &&& new.security == old.security
            &&& new.same_but_panes_except_writes(&old)
            &&& acts.len() == 2
            &&& acts[0] matches Action::Broadcast(
                ServerMessage::PaneContentUpdated { pane_id: p, note_content: n, whiteboard_data: w, image_data: i },
            ) && p@ == pane_id@ && opt_view(n) == opt_view(note_content) && opt_view(w) == opt_view(
                whiteboard_data,
            ) && opt_view(i) == opt_view(image_data)
            &&& acts[1] is SaveSession
        },
    }
}

/// A create request made the group `gid` (the given id, else a fresh
/// random one) with `name` and `color`, stored it by id, and broadcast it and
/// the layout, then saved the session.
pub open spec fn group_created(
    old: AppState,
    new: AppState,
    id: Option<String>,
    name: Seq<char>,
    color: Seq<char>,
    gid: Seq<char>,
    acts: Seq<Action>,
) -> bool {
    let gs = old.groups_v();
    let g = GroupView { id: gid, name, color };
    &&& match id {
        Some(i) => gid == i@,
        None => is_v4_uuid_text(gid),
    }
    &&& new.groups_v() == {
        let k = first_index(group_ids(gs), gid);
        if k < gs.len() {
            gs.update(k as int, g)
        } else {
            gs.push(g)
        }
    }
    &&& new.panes == old.panes
    &&& new.active_panes == old.active_panes
    &&& new.floating_panes == old.floating_panes
    &&& new.connected_devices == old.connected_devices
    &&& new.security == old.security
    &&& new.same_settings(&old)
    &&& acts.len() == 3
    &&& acts[0] matches Action::Broadcast(ServerMessage::GroupCreated { group }) && group@ == g
    &&& layout_actions(acts.skip(1), new)
}

} // verus!

verus! {

/// `rest` after the action `first`.
fn prepend(first: Action, rest: Vec<Action>) -> (r: Vec<Action>)
    ensures
        r@ == seq![first] + rest@,
        r@.skip(1) == rest@,
{
    let ghost tail = rest@;
    let ghost head = first;
    let mut r: Vec<Action> = Vec::new();
    r.push(first);
    let mut rest = rest;
    r.append(&mut rest);
    assert(r@ =~= seq![head] + tail);
    assert(r@.skip(1) =~= tail);
    r
}

/// One action.
fn single(a: Action) -> (r: Vec<Action>)
    ensures
        r@ == seq![a],
{
    let mut r: Vec<Action> = Vec::new();
    r.push(a);
    r
}

/// Broadcasts an error with the given text.
fn error_action(text: &str) -> (r: Vec<Action>)
    ensures
        only(r@, |a: Action| broadcasts(a, |m: ServerMessage| is_error(m, text@))),
{
    single(Action::Broadcast(ServerMessage::Error { message: owned(text) }))
}

impl AppState {
    /// Broadcast the layout, then save the session.
    fn layout_changed(&self) -> (r: Vec<Action>)
        ensures
            layout_actions(r@, *self),
    {
        let mut r: Vec<Action> = Vec::new();
        r.push(Action::Broadcast(self.state_update()));
        r.push(Action::SaveSession);
        r
    }

    /// The working directory of pane `pane_id`, if it exists and has one.
    pub fn pane_cwd(&self, pane_id: &str) -> (r: Option<String>)
        ensures
            opt_view(r) == pane_cwd(self.panes_v(), pane_id@),
    {
        match self.get_pane(pane_id) {
            Some(p) => p.cwd,
            None => None,
        }
    }

    fn on_resize(&mut self, pane_id: String, cols: u16, rows: u16) -> (acts: Vec<Action>)
        requires
            old(self).wf(),
        ensures
            final(self).wf(),
            resized(*old(self), *final(self), pane_id@, cols, rows),
            resize_actions(acts@, *final(self), pane_id@, cols, rows),
    {
        self.resize_pane(pane_id.as_str(), cols, rows);
        let rest = self.layout_changed();
        prepend(Action::ResizePty { pane_id, cols, rows }, rest)
    }

    fn on_create_group(&mut self, id: Option<String>, name: String, color: String) -> (acts: Vec<Action>)
        requires
            old(self).wf(),
        ensures
            final(self).wf(),
            exists|gid: Seq<char>| group_created(*old(self), *final(self), id, name@, color@, gid, acts@),
    {
        let ghost id0 = id;
        let group = match id {
            Some(i) => PaneGroup { id: i, name, color },
            None => PaneGroup::new(name, color),
        };
        let ghost gid = group@.id;
        let info = PaneGroupInfo::from(&group);
        self.add_group(group);
        let rest = self.layout_changed();
        let acts = prepend(Action::Broadcast(ServerMessage::GroupCreated { group: info }), rest);
        assert(group_created(*old(self), *self, id0, name@, color@, gid, acts@));
        acts
    }

    /// Handles one request of an authenticated client at time `now`: changes
    /// the state and returns the work for the host, in order.
    pub fn handle_client_message(&mut self, msg: ClientMessage, now: u64) -> (acts: Vec<Action>)
        requires
            old(self).wf(),
        ensures
            final(self).wf(),
            handled(*old(self), *final(self), msg, now, acts@),
    {
        let ghost m0 = msg;
        match msg {
            ClientMessage::Auth { .. } => Vec::new(),
            ClientMessage::Ping => Vec::new(),
            ClientMessage::Spawn { shell } => single(Action::SpawnTerminal { shell }),
            ClientMessage::SpawnAtDir { shell, dir } => single(Action::SpawnTerminalAtDir { shell, dir }),
            ClientMessage::SpawnBrowser { url } => single(Action::OpenBrowser { url }),
            ClientMessage::RequestDirectoryPicker { shell } => single(Action::PickDirectory { shell }),
            ClientMessage::ListDirectory { path } => match path {
                Some(p) => {
                    if p.as_str().is_empty() || str_eq(p.as_str(), "/") {
                        single(Action::ListRoots)
                    } else {
                        single(Action::ListDirectory { path: p })
                    }
                },
                None => single(Action::ListRoots),
            },
            ClientMessage::Input { pane_id, data } => single(Action::WriteInput { pane_id, data }),
            ClientMessage::Resize { pane_id, cols, rows } => {
                let same = match self.get_pane(pane_id.as_str()) {
                    Some(p) => p.cols == cols && p.rows == rows,
                    None => false,
                };
                if same {
                    Vec::new()
                } else {
                    self.on_resize(pane_id, cols, rows)
                }
            },
            ClientMessage::Refocus { pane_id, cols, rows } => self.on_resize(pane_id, cols, rows),
            ClientMessage::Kill { pane_id } => {
                self.remove_pane(pane_id.as_str());
                let rest = self.layout_changed();
                prepend(Action::KillPty { pane_id }, rest)
            },
            ClientMessage::MoveToFloating { pane_id } => {
                self.move_to_floating(pane_id.as_str());
                self.layout_changed()
            },
            ClientMessage::MoveToActive { pane_id } => {
                self.move_to_active(pane_id.as_str());
                self.layout_changed()
            },
            ClientMessage::Rename { pane_id, name } => {
                self.rename_pane(pane_id.as_str(), name.as_str());
                self.layout_changed()
            },
            ClientMessage::CreateGroup { id, name, color } => self.on_create_group(id, name, color),
            ClientMessage::DeleteGroup { group_id } => {
                if self.remove_group(group_id.as_str()) {
                    let rest = self.layout_changed();
                    prepend(Action::Broadcast(ServerMessage::GroupDeleted { group_id }), rest)
                } else {
                    Vec::new()
                }
            },
            ClientMessage::RenameGroup { group_id, name } => {
                proof {
                    crate::state::lemma_first_index(group_ids(self.groups_v()), group_id@);
                }
                if self.rename_group(group_id.as_str(), name.as_str()) {
                    let rest = self.layout_changed();
                    prepend(Action::Broadcast(ServerMessage::GroupRenamed { group_id, name }), rest)
                } else {
                    Vec::new()
                }
            },
            ClientMessage::SetPaneGroup { pane_id, group_id } => {
                let found = match &group_id {
                    Some(g) => self.set_pane_group(pane_id.as_str(), Some(g.as_str())),
                    None => self.set_pane_group(pane_id.as_str(), None),
                };
                if found {
                    let rest = self.layout_changed();
                    prepend(Action::Broadcast(ServerMessage::PaneGroupSet { pane_id, group_id }), rest)
                } else {
                    Vec::new()
                }
            },
            ClientMessage::GetDeviceList => single(Action::Broadcast(self.device_list())),
            ClientMessage::KickDevice { device_id } => {
                let found = self.get_devices_has(device_id.as_str());
                proof {
                    crate::state::lemma_first_index(device_ids(self.devices_v()), device_id@);
                }
                if found {
                    self.remove_device(device_id.as_str(), now);
                    let mut r: Vec<Action> = Vec::new();
                    r.push(Action::SaveSecurity);
                    r.push(Action::Broadcast(ServerMessage::DeviceKicked { device_id }));
                    r
                } else {
                    error_action("Device not found")
                }
            },
            ClientMessage::BanDevice { ip } => {
                if self.is_ip_banned(ip.as_str()) {
                    error_action("IP already banned")
                } else {
                    self.ban_ip(ip.as_str(), now);
                    let mut r: Vec<Action> = Vec::new();
                    r.push(Action::SaveSecurity);
                    r.push(Action::Broadcast(ServerMessage::DeviceBanned { ip }));
                    r
                }
            },
            ClientMessage::UploadFile { pane_id, file_name, data } => {
                let dir = self.pane_cwd(pane_id.as_str());
                match decode_upload(data.as_str()) {
                    Ok(bytes) => single(Action::WriteUpload { pane_id, file_name, dir, data: bytes }),
                    Err(m) => single(Action::Broadcast(m)),
                }
            },
            ClientMessage::GetGitStatus { pane_id } => match self.pane_cwd(pane_id.as_str()) {
                Some(dir) => single(Action::GitStatus { pane_id, dir }),
                None => error_action("Pane has no working directory"),
            },
            ClientMessage::GitCommit { pane_id, message } => match self.pane_cwd(pane_id.as_str()) {
                Some(dir) => single(Action::GitCommit { pane_id, dir, message }),
                None => single(
                    Action::Broadcast(
                        ServerMessage::GitCommitResult {
                            pane_id,
                            success: false,
                            message: owned("Pane has no working directory"),
                        },
                    ),
                ),
            },
            ClientMessage::GitStage { pane_id, files, unstage } => match self.pane_cwd(pane_id.as_str()) {
                Some(dir) => {
                    let mut r: Vec<Action> = Vec::new();
                    r.push(Action::GitStage { pane_id: pane_id.clone(), dir: dir.clone(), files, unstage });
                    r.push(Action::GitStatus { pane_id, dir });
                    r
                },
                None => error_action("Pane has no working directory"),
            },
            ClientMessage::GitPush { pane_id } => match self.pane_cwd(pane_id.as_str()) {
                Some(dir) => {
                    let mut r: Vec<Action> = Vec::new();
                    r.push(Action::GitPush { pane_id, dir: dir.clone() });
                    r.push(Action::SourceControlState { path: dir });
                    r
                },
                None => error_action("Pane has no working directory"),
            },
            ClientMessage::GitPull { pane_id } => match self.pane_cwd(pane_id.as_str()) {
                Some(dir) => {
                    let mut r: Vec<Action> = Vec::new();
                    r.push(Action::GitPull { pane_id, dir: dir.clone() });
                    r.push(Action::SourceControlState { path: dir });
                    r
                },
                None => error_action("Pane has no working directory"),
            },
            ClientMessage::GitLog { pane_id, dir } => {
                if dir.as_str().is_empty() {
                    error_action("No directory provided for git log")
                } else {
                    single(Action::GitLog { pane_id, dir })
                }
            },
            ClientMessage::GetSourceControlState { path } => single(Action::SourceControlState { path }),
            ClientMessage::FindGitRepos { path } => single(Action::FindGitRepos { path }),
            ClientMessage::GetPortProcesses => single(Action::ScanPorts),
            ClientMessage::KillProcess { pid } => single(Action::KillProcess { pid }),
            ClientMessage::UpdatePaneContent { pane_id, note_content, whiteboard_data, image_data } => {
                let nc = crate::text::clone_opt(&note_content);
                let wd = crate::text::clone_opt(&whiteboard_data);
                let im = crate::text::clone_opt(&image_data);
                self.update_pane_content(pane_id.as_str(), nc, wd, im, now);
                let mut r: Vec<Action> = Vec::new();
                r.push(
                    Action::Broadcast(
                        ServerMessage::PaneContentUpdated {
                            pane_id,
                            note_content,
                            whiteboard_data,
                            image_data,
                        },
                    ),
                );
                r.push(Action::SaveSession);
                r
            },
        }
    }

    /// Whether device `device_id` is connected.
    fn get_devices_has(&self, device_id: &str) -> (r: bool)
        ensures
            r == device_ids(self.devices_v()).contains(device_id@),
    {
        let k = crate::state::find_device_index(&self.connected_devices, device_id);
        proof {
            crate::state::lemma_first_index(device_ids(self.devices_v()), device_id@);
        }
        k < self.connected_devices.len()
    }
}

} // verus!
