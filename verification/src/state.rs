//! Application state: panes, groups, connected devices, the ban list and the
//! connection history, with the operations the server applies to them.
use vstd::prelude::*;
use crate::bindings::{is_v4_uuid_text, lowercase, new_uuid_string, to_lowercase};
use crate::messages::{
    clone_notices, group_infos_view, notices_view, pane_infos_view, GroupView, NoticeView, NotificationEventInfo,
    NotificationSnapshot, PaneGroupInfo, PaneInfo,
    PaneInfoView,
};
use crate::text::{
    chars_of, clone_bytes, clone_opt, clone_strings, concat_chars, contains_chars, contains_str,
    decimal, is_blank, trim,
    has_substring, opt_view, owned, push_decimal, slice_chars, str_eq, string_of, strs_view,
    without_str,
};

verus! {

// ==================== Connected devices ====================

/// A connected client session.
pub struct ConnectedDevice {
    /// Unique connection ID
    pub id: String,
    /// Client's IP address
    pub ip: String,
    /// User-Agent string from the client
    pub user_agent: String,
    /// When this connection was established (Unix timestamp)
    pub connected_at: u64,
    /// Whether this device is currently authenticated
    pub authenticated: bool,
}

/// The mathematical content of a `ConnectedDevice`.
pub struct DeviceView {
    pub id: Seq<char>,
    pub ip: Seq<char>,
    pub user_agent: Seq<char>,
    pub connected_at: u64,
    pub authenticated: bool,
}

impl View for ConnectedDevice {
    type V = DeviceView;

    open spec fn view(&self) -> DeviceView {
        DeviceView {
            id: self.id@,
            ip: self.ip@,
            user_agent: self.user_agent@,
            connected_at: self.connected_at,
            authenticated: self.authenticated,
        }
    }
}

/// The device description derived from a User-Agent string: a known
/// platform and browser pair, `Unknown` for an empty string, else the string
/// itself, cut to its first 50 characters with `...` appended when it is
/// longer than that.
pub open spec fn device_label(ua: Seq<char>) -> Seq<char> {
    let l = lowercase(ua);
    if has_substring(l, "chrome"@) && has_substring(l, "windows"@) {
        "Windows + Chrome"@
    } else if has_substring(l, "firefox"@) && has_substring(l, "windows"@) {
        "Windows + Firefox"@
    } else if has_substring(l, "safari"@) && has_substring(l, "mac"@) && !has_substring(
        l,
        "chrome"@,
    ) {
        "macOS + Safari"@
    } else if has_substring(l, "chrome"@) && has_substring(l, "mac"@) {
        "macOS + Chrome"@
    } else if has_substring(l, "chrome"@) && has_substring(l, "android"@) {
        "Android + Chrome"@
    } else if has_substring(l, "mobile"@) && has_substring(l, "safari"@) {
        "iPhone/iPad + Safari"@
    } else if has_substring(l, "linux"@) {
        "Linux"@
    } else if ua.len() == 0 {
        "Unknown"@
    } else if ua.len() > 50 {
        ua.take(50) + "..."@
    } else {
        ua
    }
}

impl ConnectedDevice {
    /// A device record for a new connection from `ip`, with a fresh random id,
    /// established at `connected_at` and not yet authenticated.
    pub fn new(ip: String, user_agent: String, connected_at: u64) -> (d: ConnectedDevice)
        ensures
            is_v4_uuid_text(d.id@),
            d.ip@ == ip@,
            d.user_agent@ == user_agent@,
            d.connected_at == connected_at,
            !d.authenticated,
    {
        ConnectedDevice { id: new_uuid_string(), ip, user_agent, connected_at, authenticated: false }
    }

    /// A human-readable device description derived from the User-Agent.
    pub fn device_info(&self) -> (r: String)
        ensures
            r@ == device_label(self.user_agent@),
    {
        let lower = to_lowercase(self.user_agent.as_str());
        let l = chars_of(lower.as_str());
        let chrome = contains_chars(l.as_slice(), chars_of("chrome").as_slice());
        let windows = contains_chars(l.as_slice(), chars_of("windows").as_slice());
        let firefox = contains_chars(l.as_slice(), chars_of("firefox").as_slice());
        let safari = contains_chars(l.as_slice(), chars_of("safari").as_slice());
        let mac = contains_chars(l.as_slice(), chars_of("mac").as_slice());
        let android = contains_chars(l.as_slice(), chars_of("android").as_slice());
        let mobile = contains_chars(l.as_slice(), chars_of("mobile").as_slice());
        let linux = contains_chars(l.as_slice(), chars_of("linux").as_slice());
        if chrome && windows {
            owned("Windows + Chrome")
        } else if firefox && windows {
            owned("Windows + Firefox")
        } else if safari && mac && !chrome {
            owned("macOS + Safari")
        } else if chrome && mac {
            owned("macOS + Chrome")
        } else if chrome && android {
            owned("Android + Chrome")
        } else if mobile && safari {
            owned("iPhone/iPad + Safari")
        } else if linux {
            owned("Linux")
        } else if self.user_agent.as_str().is_empty() {
            owned("Unknown")
        } else {
            let ua = chars_of(self.user_agent.as_str());
            if ua.len() > 50 {
                let head = slice_chars(ua.as_slice(), 0, 50);
                let dots = chars_of("...");
                string_of(concat_chars(head.as_slice(), dots.as_slice()).as_slice())
            } else {
                self.user_agent.clone()
            }
        }
    }

    /// A copy of this record.
    pub fn duplicate(&self) -> (r: ConnectedDevice)
        ensures
            r@ == self@,
    {
        ConnectedDevice {
            id: self.id.clone(),
            ip: self.ip.clone(),
            user_agent: self.user_agent.clone(),
            connected_at: self.connected_at,
            authenticated: self.authenticated,
        }
    }
}

} // verus!

verus! {

// ==================== Ban list and connection history ====================

/// How many connection history entries are kept.
pub const HISTORY_LIMIT: usize = 1000;

/// One connection in the history.
pub struct ConnectionHistoryEntry {
    pub ip: String,
    pub user_agent: String,
    pub connected_at: u64,
    pub disconnected_at: Option<u64>,
    pub was_banned: bool,
}

/// The mathematical content of a history entry.
pub struct HistoryView {
    pub ip: Seq<char>,
    pub user_agent: Seq<char>,
    pub connected_at: u64,
    pub disconnected_at: Option<u64>,
    pub was_banned: bool,
}

impl View for ConnectionHistoryEntry {
    type V = HistoryView;

    open spec fn view(&self) -> HistoryView {
        HistoryView {
            ip: self.ip@,
            user_agent: self.user_agent@,
            connected_at: self.connected_at,
            disconnected_at: self.disconnected_at,
            was_banned: self.was_banned,
        }
    }
}

impl ConnectionHistoryEntry {
    /// A copy of this entry.
    pub fn duplicate(&self) -> (r: ConnectionHistoryEntry)
        ensures
            r@ == self@,
    {
        ConnectionHistoryEntry {
            ip: self.ip.clone(),
            user_agent: self.user_agent.clone(),
            connected_at: self.connected_at,
            disconnected_at: self.disconnected_at,
            was_banned: self.was_banned,
        }
    }
}

/// The views of a history.
pub open spec fn history_view(h: Seq<ConnectionHistoryEntry>) -> Seq<HistoryView> {
    h.map_values(|e: ConnectionHistoryEntry| e@)
}

/// The entry at `i` records a still-open connection from `ip`.
pub open spec fn is_open_from(h: Seq<HistoryView>, ip: Seq<char>, i: int) -> bool {
    0 <= i < h.len() && h[i].ip == ip && h[i].disconnected_at is None
}

/// `i` is the most recent still-open connection from `ip`.
pub open spec fn is_latest_open_from(h: Seq<HistoryView>, ip: Seq<char>, i: int) -> bool {
    is_open_from(h, ip, i) && forall|k: int| i < k < h.len() ==> !is_open_from(h, ip, k)
}

/// The history after closing the most recent open connection from `ip`, if
/// there is one: it gets `disconnected_at` and `was_banned`.
pub open spec fn close_latest(
    h: Seq<HistoryView>,
    ip: Seq<char>,
    disconnected_at: u64,
    was_banned: bool,
) -> Seq<HistoryView> {
    if exists|i: int| is_open_from(h, ip, i) {
        let i = choose|i: int| is_latest_open_from(h, ip, i);
        h.update(i, HistoryView { disconnected_at: Some(disconnected_at), was_banned, ..h[i] })
    } else {
        h
    }
}

/// The history after `n` successive closings of connections from `ip`.
pub open spec fn close_latest_times(
    h: Seq<HistoryView>,
    ip: Seq<char>,
    disconnected_at: u64,
    was_banned: bool,
    n: nat,
) -> Seq<HistoryView>
    decreases n,
{
    if n == 0 {
        h
    } else {
        close_latest(
            close_latest_times(h, ip, disconnected_at, was_banned, (n - 1) as nat),
            ip,
            disconnected_at,
            was_banned,
        )
    }
}

/// The history after appending a new open connection, keeping the most
/// recent `HISTORY_LIMIT` entries.
pub open spec fn with_connection(h: Seq<HistoryView>, entry: HistoryView) -> Seq<HistoryView> {
    let g = h.push(entry);
    if g.len() > HISTORY_LIMIT {
        g.skip(g.len() - HISTORY_LIMIT)
    } else {
        g
    }
}

/// Ban list and connection history. Reading and writing them to disk is the
/// caller's part: the operations that change them say so in their result.
pub struct SecurityState {
    /// Banned IP addresses, in the order they were banned.
    pub banned_ips: Vec<String>,
    /// Connection history, oldest first.
    pub history: Vec<ConnectionHistoryEntry>,
}

/// The mathematical content of a `SecurityState`.
pub struct SecurityView {
    pub banned_ips: Seq<Seq<char>>,
    pub history: Seq<HistoryView>,
}

impl View for SecurityState {
    type V = SecurityView;

    open spec fn view(&self) -> SecurityView {
        SecurityView { banned_ips: strs_view(self.banned_ips@), history: history_view(self.history@) }
    }
}

/// A copy of a history.
pub fn clone_history(h: &Vec<ConnectionHistoryEntry>) -> (r: Vec<ConnectionHistoryEntry>)
    ensures
        history_view(r@) == history_view(h@),
{
    let mut r: Vec<ConnectionHistoryEntry> = Vec::new();
    let mut i: usize = 0;
    while i < h.len()
        invariant
            i <= h@.len(),
            r@.len() == i,
            forall|k: int| 0 <= k < i ==> #[trigger] r@[k]@ == h@[k]@,
        decreases h@.len() - i,
    {
        r.push(h[i].duplicate());
        i = i + 1;
    }
    assert(history_view(r@) =~= history_view(h@));
    r
}

impl SecurityState {
    /// A security state holding the given ban list and history (as loaded
    /// from disk, or empty).
    pub fn new(banned_ips: Vec<String>, history: Vec<ConnectionHistoryEntry>) -> (s: SecurityState)
        ensures
            s.banned_ips@ == banned_ips@,
            s.history@ == history@,
    {
        SecurityState { banned_ips, history }
    }

    /// Adds an IP to the ban list unless it is there already. Returns whether
    /// the list changed (and so needs saving).
    pub fn ban_ip(&mut self, ip: &str) -> (changed: bool)
        ensures
            changed == !old(self)@.banned_ips.contains(ip@),
            final(self)@.banned_ips == if changed {
                old(self)@.banned_ips.push(ip@)
            } else {
                old(self)@.banned_ips
            },
            final(self)@.history == old(self)@.history,
    {
        if !contains_str(&self.banned_ips, ip) {
            let ghost before = self.banned_ips@;
            self.banned_ips.push(owned(ip));
            assert(strs_view(self.banned_ips@) =~= strs_view(before).push(ip@));
            true
        } else {
            false
        }
    }

    /// Removes an IP from the ban list. Returns whether it was there (and so
    /// whether the list changed and needs saving).
    pub fn unban_ip(&mut self, ip: &str) -> (was_present: bool)
        ensures
            was_present == old(self)@.banned_ips.contains(ip@),
            final(self)@.banned_ips == old(self)@.banned_ips.filter(|x: Seq<char>| x != ip@),
            final(self)@.history == old(self)@.history,
    {
        let was_present = contains_str(&self.banned_ips, ip);
        self.banned_ips = without_str(&self.banned_ips, ip);
        was_present
    }

    /// Whether an IP is banned.
    pub fn is_banned(&self, ip: &str) -> (r: bool)
        ensures
            r == self@.banned_ips.contains(ip@),
    {
        contains_str(&self.banned_ips, ip)
    }

    /// Records a new open connection, keeping only the most recent
    /// `HISTORY_LIMIT` entries. The history always changes.
    pub fn add_connection(&mut self, ip: &str, user_agent: &str, connected_at: u64)
        ensures
            final(self)@.history == with_connection(
                old(self)@.history,
                HistoryView {
                    ip: ip@,
                    user_agent: user_agent@,
                    connected_at,
                    disconnected_at: None,
                    was_banned: false,
                },
            ),
            final(self)@.banned_ips == old(self)@.banned_ips,
    {
        let ghost before = self.history@;
        let entry = ConnectionHistoryEntry {
            ip: owned(ip),
            user_agent: owned(user_agent),
            connected_at,
            disconnected_at: None,
            was_banned: false,
        };
        self.history.push(entry);
        assert(history_view(self.history@) =~= history_view(before).push(entry@));
        if self.history.len() > HISTORY_LIMIT {
            let ghost full = self.history@;
            let cut = self.history.len() - HISTORY_LIMIT;
            self.history = self.history.split_off(cut);
            assert(history_view(self.history@) =~= history_view(full).skip(cut as int));
        }
    }

    /// Closes the most recent still-open connection from `ip`, recording when
    /// and whether it was because of a ban. Returns whether such a
    /// connection existed (and so whether the history changed).
    pub fn mark_disconnected(&mut self, ip: &str, disconnected_at: u64, was_banned: bool) -> (found:
        bool)
        ensures
            found == exists|i: int| is_open_from(old(self)@.history, ip@, i),
            final(self)@.history == close_latest(
                old(self)@.history,
                ip@,
                disconnected_at,
                was_banned,
            ),
            final(self)@.banned_ips == old(self)@.banned_ips,
    {
        let ghost h = old(self)@.history;
        let mut i: usize = self.history.len();
        while i > 0
            invariant
                i <= self.history@.len(),
                h == history_view(self.history@),
                self.history@ == old(self).history@,
                self.banned_ips@ == old(self).banned_ips@,
                forall|k: int| i <= k < h.len() ==> !is_open_from(h, ip@, k),
            decreases i,
        {
            let e = &self.history[i - 1];
            if str_eq(e.ip.as_str(), ip) && e.disconnected_at.is_none() {
                let j = i - 1;
                assert(is_latest_open_from(h, ip@, j as int));
                proof {
                    let c = choose|c: int| is_latest_open_from(h, ip@, c);
                    assert(c == j as int) by {
                        if c < j {
                            assert(!is_open_from(h, ip@, j as int));
                        } else if c > j {
                            assert(!is_open_from(h, ip@, c));
                        }
                    }
                }
                let old_entry = self.history[j].duplicate();
                let entry = ConnectionHistoryEntry {
                    disconnected_at: Some(disconnected_at),
                    was_banned,
                    ..old_entry
                };
                let ghost before = self.history@;
                self.history.set(j, entry);
                assert(history_view(self.history@) =~= h.update(
                    j as int,
                    HistoryView { disconnected_at: Some(disconnected_at), was_banned, ..h[j as int] },
                ));
                assert(is_open_from(old(self)@.history, ip@, j as int));
                return true;
            }
            i = i - 1;
        }
        false
    }
}

} // verus!

verus! {

// ==================== Panes and groups ====================

/// How many bytes of scrollback a pane keeps.
pub const MAX_BUFFER_SIZE: usize = 1000000;

/// A pane: a terminal with its PTY, or a note, image, whiteboard or browser.
pub struct Pane {
    /// Unique identifier for the pane.
    pub id: String,
    /// Process ID of the spawned shell (0 for non-terminal panes).
    pub pid: u32,
    /// Shell program name.
    pub shell: String,
    /// Display name (editable by user).
    pub name: String,
    /// Number of columns.
    pub cols: u16,
    /// Number of rows.
    pub rows: u16,
    /// Scrollback buffer: recent output.
    pub buffer: Vec<u8>,
    /// Group ID this pane belongs to (None if ungrouped).
    pub group_id: Option<String>,
    /// Current working directory of this pane's shell.
    pub cwd: Option<String>,
    /// Type of pane: "terminal" | "note" | "image" | "whiteboard" | "browser"
    pub pane_type: String,
    /// Content of note panes (markdown text).
    pub note_content: Option<String>,
    /// Content of whiteboard panes (JSON).
    pub whiteboard_data: Option<String>,
    /// Content of image panes (base64).
    pub image_data: Option<String>,
    /// URL of browser panes.
    pub url: Option<String>,
    /// Whether the pane is pinned in the UI.
    pub pinned: bool,
}

/// The mathematical content of a `Pane`.
pub struct PaneView {
    pub id: Seq<char>,
    pub pid: u32,
    pub shell: Seq<char>,
    pub name: Seq<char>,
    pub cols: u16,
    pub rows: u16,
    pub buffer: Seq<u8>,
    pub group_id: Option<Seq<char>>,
    pub cwd: Option<Seq<char>>,
    pub pane_type: Seq<char>,
    pub note_content: Option<Seq<char>>,
    pub whiteboard_data: Option<Seq<char>>,
    pub image_data: Option<Seq<char>>,
    pub url: Option<Seq<char>>,
    pub pinned: bool,
}

impl View for Pane {
    type V = PaneView;

    open spec fn view(&self) -> PaneView {
        PaneView {
            id: self.id@,
            pid: self.pid,
            shell: self.shell@,
            name: self.name@,
            cols: self.cols,
            rows: self.rows,
            buffer: self.buffer@,
            group_id: opt_view(self.group_id),
            cwd: opt_view(self.cwd),
            pane_type: self.pane_type@,
            note_content: opt_view(self.note_content),
            whiteboard_data: opt_view(self.whiteboard_data),
            image_data: opt_view(self.image_data),
            url: opt_view(self.url),
            pinned: self.pinned,
        }
    }
}

/// The default display name of a terminal pane: `shell (pid)`.
pub open spec fn terminal_name(shell: Seq<char>, pid: u32) -> Seq<char> {
    shell + " ("@ + decimal(pid as nat) + ")"@
}

/// The scrollback after appending `data`: the last `MAX_BUFFER_SIZE` bytes
/// of the old buffer followed by `data`.
pub open spec fn appended_buffer(buffer: Seq<u8>, data: Seq<u8>) -> Seq<u8> {
    let b = buffer + data;
    if b.len() > MAX_BUFFER_SIZE {
        b.skip(b.len() - MAX_BUFFER_SIZE)
    } else {
        b
    }
}

impl Pane {
    /// A new terminal pane with a fresh random id, named `shell (pid)`, with an
    /// empty buffer, no group, no working directory, unpinned.
    pub fn new(pid: u32, shell: String, cols: u16, rows: u16) -> (p: Pane)
        ensures
            is_v4_uuid_text(p.id@),
            p@.pid == pid,
            p@.shell == shell@,
            p@.name == terminal_name(shell@, pid),
            p@.cols == cols,
            p@.rows == rows,
            p@.buffer.len() == 0,
            p@.group_id is None,
            p@.cwd is None,
            p@.pane_type == "terminal"@,
            p@.note_content is None,
            p@.whiteboard_data is None,
            p@.image_data is None,
            p@.url is None,
            !p@.pinned,
    {
        let mut name_chars = chars_of(shell.as_str());
        let open = chars_of(" (");
        let mut name_chars = concat_chars(name_chars.as_slice(), open.as_slice());
        push_decimal(&mut name_chars, pid as u64);
        let close = chars_of(")");
        let name_chars = concat_chars(name_chars.as_slice(), close.as_slice());
        let name = string_of(name_chars.as_slice());
        Pane {
            id: new_uuid_string(),
            pid,
            shell,
            name,
            cols,
            rows,
            buffer: Vec::new(),
            group_id: None,
            cwd: None,
            pane_type: owned("terminal"),
            note_content: None,
            whiteboard_data: None,
            image_data: None,
            url: None,
            pinned: false,
        }
    }

    /// A new non-terminal pane of type `pane_type` with a fresh random id: pid
    /// 0, 80x24, the type as its shell, no content.
    pub fn new_non_terminal(pane_type: &str, name: &str) -> (p: Pane)
        ensures
            is_v4_uuid_text(p.id@),
            p@.pid == 0,
            p@.shell == pane_type@,
            p@.name == name@,
            p@.cols == 80,
            p@.rows == 24,
            p@.buffer.len() == 0,
            p@.group_id is None,
            p@.cwd is None,
            p@.pane_type == pane_type@,
            p@.note_content is None,
            p@.whiteboard_data is None,
            p@.image_data is None,
            p@.url is None,
            !p@.pinned,
    {
        Pane {
            id: new_uuid_string(),
            pid: 0,
            shell: owned(pane_type),
            name: owned(name),
            cols: 80,
            rows: 24,
            buffer: Vec::new(),
            group_id: None,
            cwd: None,
            pane_type: owned(pane_type),
            note_content: None,
            whiteboard_data: None,
            image_data: None,
            url: None,
            pinned: false,
        }
    }

    /// The pane type.
    pub fn pane_type(&self) -> (r: &str)
        ensures
            r@ == self.pane_type@,
    {
        self.pane_type.as_str()
    }

    /// Sets the pane type, which also becomes the shell name.
    pub fn set_pane_type(&mut self, pane_type: &str)
        ensures
            final(self)@ == (PaneView { pane_type: pane_type@, shell: pane_type@, ..old(self)@ }),
    {
        self.pane_type = owned(pane_type);
        self.shell = owned(pane_type);
    }

    /// Appends data to the scrollback, keeping at most `MAX_BUFFER_SIZE` bytes
    /// (the most recent ones).
    pub fn append_buffer(&mut self, data: &[u8])
        ensures
            final(self)@ == (PaneView {
                buffer: appended_buffer(old(self)@.buffer, data@),
                ..old(self)@
            }),
    {
        let ghost start = self.buffer@;
        let mut i: usize = 0;
        while i < data.len()
            invariant
                i <= data@.len(),
                self.buffer@ == start + data@.take(i as int),
                self.id == old(self).id,
                self.pid == old(self).pid,
                self.shell == old(self).shell,
                self.name == old(self).name,
                self.cols == old(self).cols,
                self.rows == old(self).rows,
                self.group_id == old(self).group_id,
                self.cwd == old(self).cwd,
                self.pane_type == old(self).pane_type,
                self.note_content == old(self).note_content,
                self.whiteboard_data == old(self).whiteboard_data,
                self.image_data == old(self).image_data,
                self.url == old(self).url,
                self.pinned == old(self).pinned,
            decreases data@.len() - i,
        {
            self.buffer.push(data[i]);
            i = i + 1;
            assert(self.buffer@ =~= start + data@.take(i as int));
        }
        assert(data@.take(data@.len() as int) =~= data@);
        if self.buffer.len() > MAX_BUFFER_SIZE {
            let excess = self.buffer.len() - MAX_BUFFER_SIZE;
            self.buffer = self.buffer.split_off(excess);
        }
    }

    /// A copy of this pane.
    pub fn duplicate(&self) -> (r: Pane)
        ensures
            r@ == self@,
    {
        Pane {
            id: self.id.clone(),
            pid: self.pid,
            shell: self.shell.clone(),
            name: self.name.clone(),
            cols: self.cols,
            rows: self.rows,
            buffer: clone_bytes(&self.buffer),
            group_id: clone_opt(&self.group_id),
            cwd: clone_opt(&self.cwd),
            pane_type: self.pane_type.clone(),
            note_content: clone_opt(&self.note_content),
            whiteboard_data: clone_opt(&self.whiteboard_data),
            image_data: clone_opt(&self.image_data),
            url: clone_opt(&self.url),
            pinned: self.pinned,
        }
    }
}

/// A named, colored group of panes.
pub struct PaneGroup {
    /// Unique identifier for the group.
    pub id: String,
    /// Display name of the group.
    pub name: String,
    /// Hex color code for the group.
    pub color: String,
}

impl View for PaneGroup {
    type V = GroupView;

    open spec fn view(&self) -> GroupView {
        GroupView { id: self.id@, name: self.name@, color: self.color@ }
    }
}

impl PaneGroup {
    /// A new group with a fresh random id.
    pub fn new(name: String, color: String) -> (g: PaneGroup)
        ensures
            is_v4_uuid_text(g.id@),
            g.name == name,
            g.color == color,
    {
        PaneGroup { id: new_uuid_string(), name, color }
    }

    /// A copy of this group.
    pub fn duplicate(&self) -> (r: PaneGroup)
        ensures
            r == *self,
    {
        PaneGroup { id: self.id.clone(), name: self.name.clone(), color: self.color.clone() }
    }
}

// ==================== Pane types and saved sessions ====================

/// The pane types that have no PTY behind them.
pub open spec fn is_non_terminal_type(t: Seq<char>) -> bool {
    t == "note"@ || t == "image"@ || t == "whiteboard"@ || t == "browser"@
}

/// Whether `pane_type` names a pane without a PTY: note, image, whiteboard or browser.
pub fn is_non_terminal_pane_type(pane_type: &str) -> (r: bool)
    ensures
        r == is_non_terminal_type(pane_type@),
{
    str_eq(pane_type, "note") || str_eq(pane_type, "image") || str_eq(pane_type, "whiteboard")
        || str_eq(pane_type, "browser")
}

/// The type of a saved pane: its recorded type when that is non-empty; else
/// its shell when that names a non-terminal type; else `browser` when it has
/// a URL; else `terminal`.
pub open spec fn info_pane_type(info: PaneInfoView) -> Seq<char> {
    match info.pane_type {
        Some(t) if t.len() > 0 => t,
        _ => if is_non_terminal_type(info.shell) {
            info.shell
        } else if info.url is Some {
            "browser"@
        } else {
            "terminal"@
        },
    }
}

/// The type of a pane as a saved session records it.
pub fn pane_type_from_info(pane_info: &PaneInfo) -> (r: String)
    ensures
        r@ == info_pane_type(pane_info@),
{
    match &pane_info.pane_type {
        Some(t) => {
            if !t.as_str().is_empty() {
                return t.clone();
            }
        },
        None => {},
    }
    if is_non_terminal_pane_type(pane_info.shell.as_str()) {
        pane_info.shell.clone()
    } else if pane_info.url.is_some() {
        owned("browser")
    } else {
        owned("terminal")
    }
}

} // verus!

verus! {

/// The character views of a list of string pairs.
pub open spec fn pairs_view(v: Seq<(String, String)>) -> Seq<(Seq<char>, Seq<char>)> {
    v.map_values(|p: (String, String)| (p.0@, p.1@))
}

/// The value recorded for `k` in a list of key/value pairs; a later pair
/// overrides an earlier one, as building a `HashMap` from the list does.
pub open spec fn pair_lookup(m: Seq<(Seq<char>, Seq<char>)>, k: Seq<char>) -> Option<Seq<char>>
    decreases m.len(),
{
    if m.len() == 0 {
        None
    } else if m.last().0 == k {
        Some(m.last().1)
    } else {
        pair_lookup(m.drop_last(), k)
    }
}

/// The saved pane ids, each replaced by its new id where `m` records one,
/// keeping those that name an existing pane, each once, in their first order.
pub open spec fn remapped_ids(
    ids: Seq<Seq<char>>,
    m: Seq<(Seq<char>, Seq<char>)>,
    existing: Seq<Seq<char>>,
) -> Seq<Seq<char>>
    decreases ids.len(),
{
    if ids.len() == 0 {
        Seq::empty()
    } else {
        let prev = remapped_ids(ids.drop_last(), m, existing);
        let r = match pair_lookup(m, ids.last()) {
            Some(v) => v,
            None => ids.last(),
        };
        if existing.contains(r) && !prev.contains(r) {
            prev.push(r)
        } else {
            prev
        }
    }
}

/// The value for `k` in the pairs `m`, the last pair for `k` winning.
pub fn lookup_pair(m: &Vec<(String, String)>, k: &str) -> (r: Option<String>)
    ensures
        opt_view(r) == pair_lookup(pairs_view(m@), k@),
{
    let ghost pv = pairs_view(m@);
    let mut i: usize = m.len();
    assert(pv.take(m@.len() as int) =~= pv);
    while i > 0
        invariant
            i <= m@.len(),
            pv == pairs_view(m@),
            pair_lookup(pv, k@) == pair_lookup(pv.take(i as int), k@),
        decreases i,
    {
        let ghost t = pv.take(i as int);
        assert(t.drop_last() =~= pv.take(i - 1));
        if str_eq(m[i - 1].0.as_str(), k) {
            return Some(m[i - 1].1.clone());
        }
        i = i - 1;
    }
    None
}

/// Remaps saved pane ids to the ids of the restored panes: each id becomes
/// its new id where the map holds one, ids of panes that no longer exist are
/// dropped, and each id is kept once, in the order it first appears.
pub fn remap_saved_pane_ids(
    pane_ids: &[String],
    pane_id_map: &Vec<(String, String)>,
    existing_pane_ids: &Vec<String>,
) -> (r: Vec<String>)
    ensures
        strs_view(r@) == remapped_ids(
            strs_view(pane_ids@),
            pairs_view(pane_id_map@),
            strs_view(existing_pane_ids@),
        ),
{
    let ghost ids = strs_view(pane_ids@);
    let ghost m = pairs_view(pane_id_map@);
    let ghost ex = strs_view(existing_pane_ids@);
    let mut out: Vec<String> = Vec::new();
    let mut i: usize = 0;
    while i < pane_ids.len()
        invariant
            i <= pane_ids@.len(),
            ids == strs_view(pane_ids@),
            m == pairs_view(pane_id_map@),
            ex == strs_view(existing_pane_ids@),
            strs_view(out@) == remapped_ids(ids.take(i as int), m, ex),
        decreases pane_ids@.len() - i,
    {
        assert(ids.take(i + 1).drop_last() =~= ids.take(i as int));
        assert(ids.take(i + 1).last() == pane_ids@[i as int]@);
        let id = match lookup_pair(pane_id_map, pane_ids[i].as_str()) {
            Some(v) => v,
            None => pane_ids[i].clone(),
        };
        if contains_str(existing_pane_ids, id.as_str()) && !contains_str(&out, id.as_str()) {
            let ghost before = out@;
            out.push(id);
            assert(strs_view(out@) =~= strs_view(before).push(out@.last()@));
        }
        i = i + 1;
    }
    assert(ids.take(pane_ids@.len() as int) =~= ids);
    out
}

} // verus!

verus! {

// ==================== Keyed lists ====================

/// The position of the first `k` in `ids`, or `ids.len()` when there is none.
pub open spec fn first_index(ids: Seq<Seq<char>>, k: Seq<char>) -> nat
    decreases ids.len(),
{
    if ids.len() == 0 {
        0
    } else if ids[0] == k {
        0
    } else {
        1 + first_index(ids.drop_first(), k)
    }
}

/// `first_index` finds the first occurrence, and finds one exactly when there is one.
pub proof fn lemma_first_index(ids: Seq<Seq<char>>, k: Seq<char>)
    ensures
        first_index(ids, k) <= ids.len(),
        first_index(ids, k) < ids.len() <==> ids.contains(k),
        first_index(ids, k) < ids.len() ==> ids[first_index(ids, k) as int] == k,
        forall|j: int| 0 <= j < first_index(ids, k) ==> ids[j] != k,
    decreases ids.len(),
{
    if ids.len() > 0 && ids[0] != k {
        lemma_first_index(ids.drop_first(), k);
        if ids.contains(k) {
            let j = choose|j: int| 0 <= j < ids.len() && ids[j] == k;
            assert(ids.drop_first()[j - 1] == k);
        }
        if ids.drop_first().contains(k) {
            let j = choose|j: int| 0 <= j < ids.drop_first().len() && ids.drop_first()[j] == k;
            assert(ids[j + 1] == k);
        }
        assert forall|j: int| 0 <= j < first_index(ids, k) implies ids[j] != k by {
            if j > 0 {
                assert(ids[j] == ids.drop_first()[j - 1]);
            }
        }
    } else if ids.len() > 0 {
        assert(ids[0] == k);
    }
}

/// With no duplicates, the position of an element is its first index.
pub proof fn lemma_first_index_unique(ids: Seq<Seq<char>>, i: int)
    requires
        ids.no_duplicates(),
        0 <= i < ids.len(),
    ensures
        first_index(ids, ids[i]) == i,
{
    lemma_first_index(ids, ids[i]);
    let f = first_index(ids, ids[i]) as int;
    assert(ids.contains(ids[i]));
    if f != i {
        assert(ids[f] == ids[i]);
    }
}

proof fn lemma_first_index_step(ids: Seq<Seq<char>>, k: Seq<char>, i: int)
    requires
        0 <= i < ids.len(),
        ids[i] != k,
    ensures
        first_index(ids.skip(i), k) == 1 + first_index(ids.skip(i + 1), k),
{
    assert(ids.skip(i).drop_first() =~= ids.skip(i + 1));
}

/// Pushing an absent element keeps a list free of duplicates.
pub proof fn lemma_push_no_duplicates(ids: Seq<Seq<char>>, k: Seq<char>)
    requires
        ids.no_duplicates(),
        !ids.contains(k),
    ensures
        ids.push(k).no_duplicates(),
{
    assert forall|a: int, b: int|
        0 <= a < ids.push(k).len() && 0 <= b < ids.push(k).len() && a != b implies ids.push(k)[a]
        != ids.push(k)[b] by {
        if a == ids.len() {
            assert(ids[b] != k);
        } else if b == ids.len() {
            assert(ids[a] != k);
        }
    }
}

/// Removing an element keeps a list free of duplicates.
pub proof fn lemma_remove_no_duplicates(ids: Seq<Seq<char>>, i: int)
    requires
        ids.no_duplicates(),
        0 <= i < ids.len(),
    ensures
        ids.remove(i).no_duplicates(),
        !ids.remove(i).contains(ids[i]),
{
    let r = ids.remove(i);
    assert forall|a: int, b: int| 0 <= a < r.len() && 0 <= b < r.len() && a != b implies r[a]
        != r[b] by {
        let a2 = if a < i { a } else { a + 1 };
        let b2 = if b < i { b } else { b + 1 };
        assert(r[a] == ids[a2]);
        assert(r[b] == ids[b2]);
    }
    if r.contains(ids[i]) {
        let j = choose|j: int| 0 <= j < r.len() && r[j] == ids[i];
        let j2 = if j < i { j } else { j + 1 };
        assert(ids[j2] == ids[i]);
    }
}

/// The ids of a list of panes.
pub open spec fn pane_ids(s: Seq<PaneView>) -> Seq<Seq<char>> {
    s.map_values(|p: PaneView| p.id)
}

/// The views of a list of panes.
pub open spec fn panes_view(s: Seq<Pane>) -> Seq<PaneView> {
    s.map_values(|p: Pane| p@)
}

/// The pane with id `id`, if any.
pub open spec fn lookup_pane(ps: Seq<PaneView>, id: Seq<char>) -> Option<PaneView> {
    let k = first_index(pane_ids(ps), id);
    if k < ps.len() {
        Some(ps[k as int])
    } else {
        None
    }
}

/// `ps` with the pane `id` (if any) changed by `f`.
pub open spec fn modify_pane(
    ps: Seq<PaneView>,
    id: Seq<char>,
    f: spec_fn(PaneView) -> PaneView,
) -> Seq<PaneView> {
    let k = first_index(pane_ids(ps), id);
    if k < ps.len() {
        ps.update(k as int, f(ps[k as int]))
    } else {
        ps
    }
}

/// `ps` with `p` stored under its id: replacing the pane with that id, or added last.
pub open spec fn insert_pane(ps: Seq<PaneView>, p: PaneView) -> Seq<PaneView> {
    let k = first_index(pane_ids(ps), p.id);
    if k < ps.len() {
        ps.update(k as int, p)
    } else {
        ps.push(p)
    }
}

/// `ps` without the pane `id`.
pub open spec fn delete_pane(ps: Seq<PaneView>, id: Seq<char>) -> Seq<PaneView> {
    let k = first_index(pane_ids(ps), id);
    if k < ps.len() {
        ps.remove(k as int)
    } else {
        ps
    }
}

/// The ids of a list of groups.
pub open spec fn group_ids(s: Seq<GroupView>) -> Seq<Seq<char>> {
    s.map_values(|g: GroupView| g.id)
}

/// The views of a list of groups.
pub open spec fn groups_view(s: Seq<PaneGroup>) -> Seq<GroupView> {
    s.map_values(|g: PaneGroup| g@)
}

/// The ids of a list of devices.
pub open spec fn device_ids(s: Seq<DeviceView>) -> Seq<Seq<char>> {
    s.map_values(|d: DeviceView| d.id)
}

/// The views of a list of devices.
pub open spec fn devices_view(s: Seq<ConnectedDevice>) -> Seq<DeviceView> {
    s.map_values(|d: ConnectedDevice| d@)
}

/// The keys of a keyed list.
pub open spec fn keys_of<V>(s: Seq<(Seq<char>, V)>) -> Seq<Seq<char>> {
    s.map_values(|e: (Seq<char>, V)| e.0)
}

/// The views of the current notification states, by key.
pub open spec fn current_view(s: Seq<(String, NotificationEventInfo)>) -> Seq<(Seq<char>, NoticeView)> {
    s.map_values(|e: (String, NotificationEventInfo)| (e.0@, e.1@))
}

/// The views of the write times, by pane id.
pub open spec fn write_times_view(s: Seq<(String, u64)>) -> Seq<(Seq<char>, u64)> {
    s.map_values(|e: (String, u64)| (e.0@, e.1))
}

/// `s` with `v` stored under `k`: replacing the entry for `k`, or added last.
pub open spec fn keyed_insert<V>(s: Seq<(Seq<char>, V)>, k: Seq<char>, v: V) -> Seq<(Seq<char>, V)> {
    let i = first_index(keys_of(s), k);
    if i < s.len() {
        s.update(i as int, (k, v))
    } else {
        s.push((k, v))
    }
}

/// `s` without the entry for `k`.
pub open spec fn keyed_remove<V>(s: Seq<(Seq<char>, V)>, k: Seq<char>) -> Seq<(Seq<char>, V)> {
    let i = first_index(keys_of(s), k);
    if i < s.len() {
        s.remove(i as int)
    } else {
        s
    }
}

/// The position of the pane `id`, or the number of panes when there is none.
fn find_pane(panes: &Vec<Pane>, id: &str) -> (r: usize)
    ensures
        r == first_index(pane_ids(panes_view(panes@)), id@),
{
    let ghost ids = pane_ids(panes_view(panes@));
    let mut i: usize = 0;
    assert(ids.skip(0) =~= ids);
    while i < panes.len()
        invariant
            i <= panes@.len(),
            ids == pane_ids(panes_view(panes@)),
            first_index(ids, id@) == i + first_index(ids.skip(i as int), id@),
        decreases panes@.len() - i,
    {
        if str_eq(panes[i].id.as_str(), id) {
            assert(ids.skip(i as int)[0] == id@);
            return i;
        }
        proof {
            lemma_first_index_step(ids, id@, i as int);
        }
        i = i + 1;
    }
    i
}

/// The position of the group `id`, or the number of groups when there is none.
fn find_group(groups: &Vec<PaneGroup>, id: &str) -> (r: usize)
    ensures
        r == first_index(group_ids(groups_view(groups@)), id@),
{
    let ghost ids = group_ids(groups_view(groups@));
    let mut i: usize = 0;
    assert(ids.skip(0) =~= ids);
    while i < groups.len()
        invariant
            i <= groups@.len(),
            ids == group_ids(groups_view(groups@)),
            first_index(ids, id@) == i + first_index(ids.skip(i as int), id@),
        decreases groups@.len() - i,
    {
        if str_eq(groups[i].id.as_str(), id) {
            assert(ids.skip(i as int)[0] == id@);
            return i;
        }
        proof {
            lemma_first_index_step(ids, id@, i as int);
        }
        i = i + 1;
    }
    i
}

/// The position of the device `id`, or the number of devices when there is none.
fn find_device(devices: &Vec<ConnectedDevice>, id: &str) -> (r: usize)
    ensures
        r == first_index(device_ids(devices_view(devices@)), id@),
{
    let ghost ids = device_ids(devices_view(devices@));
    let mut i: usize = 0;
    assert(ids.skip(0) =~= ids);
    while i < devices.len()
        invariant
            i <= devices@.len(),
            ids == device_ids(devices_view(devices@)),
            first_index(ids, id@) == i + first_index(ids.skip(i as int), id@),
        decreases devices@.len() - i,
    {
        if str_eq(devices[i].id.as_str(), id) {
            assert(ids.skip(i as int)[0] == id@);
            return i;
        }
        proof {
            lemma_first_index_step(ids, id@, i as int);
        }
        i = i + 1;
    }
    i
}

/// The position of the device `id`, or the number of devices when there is none.
pub fn find_device_index(devices: &Vec<ConnectedDevice>, id: &str) -> (r: usize)
    ensures
        r == first_index(device_ids(devices_view(devices@)), id@),
{
    find_device(devices, id)
}

/// The position of the notification key `k`, or the number of entries when there is none.
fn find_notice_key(s: &Vec<(String, NotificationEventInfo)>, k: &str) -> (r: usize)
    ensures
        r == first_index(keys_of(current_view(s@)), k@),
{
    let ghost ids = keys_of(current_view(s@));
    let mut i: usize = 0;
    assert(ids.skip(0) =~= ids);
    while i < s.len()
        invariant
            i <= s@.len(),
            ids == keys_of(current_view(s@)),
            first_index(ids, k@) == i + first_index(ids.skip(i as int), k@),
        decreases s@.len() - i,
    {
        if str_eq(s[i].0.as_str(), k) {
            assert(ids.skip(i as int)[0] == k@);
            return i;
        }
        proof {
            lemma_first_index_step(ids, k@, i as int);
        }
        i = i + 1;
    }
    i
}

/// The position of the write time for pane `k`, or the number of entries when there is none.
fn find_write_key(s: &Vec<(String, u64)>, k: &str) -> (r: usize)
    ensures
        r == first_index(keys_of(write_times_view(s@)), k@),
{
    let ghost ids = keys_of(write_times_view(s@));
    let mut i: usize = 0;
    assert(ids.skip(0) =~= ids);
    while i < s.len()
        invariant
            i <= s@.len(),
            ids == keys_of(write_times_view(s@)),
            first_index(ids, k@) == i + first_index(ids.skip(i as int), k@),
        decreases s@.len() - i,
    {
        if str_eq(s[i].0.as_str(), k) {
            assert(ids.skip(i as int)[0] == k@);
            return i;
        }
        proof {
            lemma_first_index_step(ids, k@, i as int);
        }
        i = i + 1;
    }
    i
}

} // verus!

verus! {

// ==================== Application state ====================

/// How many notification events the shared history keeps.
pub const NOTIFICATION_HISTORY_LIMIT: usize = 50;

/// A pane's record as clients see it and as a saved session stores it.
pub open spec fn pane_info_of(p: PaneView) -> PaneInfoView {
    PaneInfoView {
        id: p.id,
        pid: p.pid,
        shell: p.shell,
        name: p.name,
        cols: p.cols,
        rows: p.rows,
        group_id: p.group_id,
        cwd: p.cwd,
        pane_type: Some(p.pane_type),
        note_content: p.note_content,
        whiteboard_data: p.whiteboard_data,
        image_data: p.image_data,
        url: p.url,
        pinned: p.pinned,
    }
}

/// A saved session: the pane records, the layout and the groups.
pub struct SessionState {
    pub panes: Vec<PaneInfo>,
    pub active_panes: Vec<String>,
    pub floating_panes: Vec<String>,
    pub groups: Vec<PaneGroupInfo>,
}

/// State shared by all client connections: panes and their layout, groups,
/// authentication, connected devices, the ban list and history, and the
/// notification states. Locking, the PTYs and broadcasting are the caller's.
pub struct AppState {
    /// The panes, each id once.
    pub panes: Vec<Pane>,
    /// IDs of panes in the main grid view.
    pub active_panes: Vec<String>,
    /// IDs of panes extracted to floating tabs.
    pub floating_panes: Vec<String>,
    /// Whether a client has authenticated.
    pub authenticated: bool,
    /// Expected authentication token.
    pub auth_token: String,
    /// Frontend URL for redirects.
    pub frontend_url: String,
    /// Public WebSocket URL of this server.
    pub tunnel_url: String,
    /// The groups, each id once.
    pub groups: Vec<PaneGroup>,
    /// Cold start: initial directory to spawn the first terminal at.
    pub cold_start_dir: Option<String>,
    /// Currently connected devices, each id once.
    pub connected_devices: Vec<ConnectedDevice>,
    /// Ban list and connection history.
    pub security: SecurityState,
    /// Last content-write time per pane, for the debounced session save.
    pub last_write_time: Vec<(String, u64)>,
    /// Browser preview sessions: pane id and target origin URL.
    pub preview_sessions: Vec<(String, String)>,
    /// Current notification state per source key (`type:id`).
    pub notification_current: Vec<(String, NotificationEventInfo)>,
    /// Recent notification events, newest first.
    pub notification_history: Vec<NotificationEventInfo>,
}

/// What restoring a saved session has recorded so far: the new id of each
/// restored pane, and the restored panes in order.
pub struct SessionRestore {
    pub pane_id_map: Vec<(String, String)>,
    pub restored_pane_order: Vec<String>,
}

impl SessionRestore {
    /// Nothing restored yet.
    pub fn new() -> (r: SessionRestore)
        ensures
            r.pane_id_map@.len() == 0,
            r.restored_pane_order@.len() == 0,
    {
        SessionRestore { pane_id_map: Vec::new(), restored_pane_order: Vec::new() }
    }
}

impl AppState {
    /// The ids are unique: of panes, groups, devices, notification keys and
    /// write-time entries.
    pub open spec fn wf(&self) -> bool {
        &&& pane_ids(panes_view(self.panes@)).no_duplicates()
        &&& group_ids(groups_view(self.groups@)).no_duplicates()
        &&& device_ids(devices_view(self.connected_devices@)).no_duplicates()
        &&& keys_of(current_view(self.notification_current@)).no_duplicates()
        &&& keys_of(write_times_view(self.last_write_time@)).no_duplicates()
    }

    /// The views of the panes.
    pub open spec fn panes_v(&self) -> Seq<PaneView> {
        panes_view(self.panes@)
    }

    /// The views of the groups.
    pub open spec fn groups_v(&self) -> Seq<GroupView> {
        groups_view(self.groups@)
    }

    /// The views of the connected devices.
    pub open spec fn devices_v(&self) -> Seq<DeviceView> {
        devices_view(self.connected_devices@)
    }

    /// The active pane ids.
    pub open spec fn active_v(&self) -> Seq<Seq<char>> {
        strs_view(self.active_panes@)
    }

    /// The floating pane ids.
    pub open spec fn floating_v(&self) -> Seq<Seq<char>> {
        strs_view(self.floating_panes@)
    }

    /// Everything but the panes and the layout is as in `other`.
    pub open spec fn same_but_panes(&self, other: &AppState) -> bool {
        &&& self.authenticated == other.authenticated
        &&& self.auth_token == other.auth_token
        &&& self.frontend_url == other.frontend_url
        &&& self.tunnel_url == other.tunnel_url
        &&& self.groups == other.groups
        &&& self.cold_start_dir == other.cold_start_dir
        &&& self.connected_devices == other.connected_devices
        &&& self.security == other.security
        &&& self.last_write_time == other.last_write_time
        &&& self.preview_sessions == other.preview_sessions
        &&& self.notification_current == other.notification_current
        &&& self.notification_history == other.notification_history
    }

    /// The settings and bookkeeping that no pane, group or device operation
    /// touches are as in `other`: authentication, URLs, cold start directory,
    /// write times, preview sessions and notifications.
    pub open spec fn same_settings(&self, other: &AppState) -> bool {
        &&& self.authenticated == other.authenticated
        &&& self.auth_token == other.auth_token
        &&& self.frontend_url == other.frontend_url
        &&& self.tunnel_url == other.tunnel_url
        &&& self.cold_start_dir == other.cold_start_dir
        &&& self.last_write_time == other.last_write_time
        &&& self.preview_sessions == other.preview_sessions
        &&& self.notification_current == other.notification_current
        &&& self.notification_history == other.notification_history
    }

    /// A fresh state: no panes, groups, devices or notifications; not
    /// authenticated; the given ban list and history.
    pub fn new(
        auth_token: String,
        frontend_url: String,
        tunnel_url: String,
        cold_start_dir: Option<String>,
        security: SecurityState,
    ) -> (s: AppState)
        ensures
            s.wf(),
            s.panes@.len() == 0,
            s.active_panes@.len() == 0,
            s.floating_panes@.len() == 0,
            s.groups@.len() == 0,
            s.connected_devices@.len() == 0,
            !s.authenticated,
            s.auth_token == auth_token,
            s.frontend_url == frontend_url,
            s.tunnel_url == tunnel_url,
            s.cold_start_dir == cold_start_dir,
            s.security == security,
            s.last_write_time@.len() == 0,
            s.notification_current@.len() == 0,
            s.notification_history@.len() == 0,
            s.preview_sessions@.len() == 0,
    {
        let s = AppState {
            panes: Vec::new(),
            active_panes: Vec::new(),
            floating_panes: Vec::new(),
            authenticated: false,
            auth_token,
            frontend_url,
            tunnel_url,
            groups: Vec::new(),
            cold_start_dir,
            connected_devices: Vec::new(),
            security,
            last_write_time: Vec::new(),
            preview_sessions: Vec::new(),
            notification_current: Vec::new(),
            notification_history: Vec::new(),
        };
        assert(pane_ids(panes_view(s.panes@)) =~= Seq::empty());
        assert(group_ids(groups_view(s.groups@)) =~= Seq::empty());
        assert(device_ids(devices_view(s.connected_devices@)) =~= Seq::empty());
        assert(keys_of(current_view(s.notification_current@)) =~= Seq::empty());
        assert(keys_of(write_times_view(s.last_write_time@)) =~= Seq::empty());
        s
    }

    /// Adds a pane (replacing the pane with the same id) and puts it in the
    /// active grid unless it is there already.
    pub fn add_pane(&mut self, pane: Pane)
        requires
            old(self).wf(),
        ensures
            final(self).wf(),
            final(self).panes_v() == insert_pane(old(self).panes_v(), pane@),
            final(self).active_v() == if old(self).active_v().contains(pane@.id) {
                old(self).active_v()
            } else {
                old(self).active_v().push(pane@.id)
            },
            final(self).floating_panes == old(self).floating_panes,
            final(self).same_but_panes(old(self)),
    {
        let ghost ps = self.panes_v();
        let id = pane.id.clone();
        let k = find_pane(&self.panes, id.as_str());
        proof {
            lemma_first_index(pane_ids(ps), pane@.id);
        }
        if k < self.panes.len() {
            self.panes.set(k, pane);
            assert(self.panes_v() =~= ps.update(k as int, pane@));
            assert(pane_ids(self.panes_v()) =~= pane_ids(ps));
        } else {
            self.panes.push(pane);
            assert(self.panes_v() =~= ps.push(pane@));
            assert(pane_ids(self.panes_v()) =~= pane_ids(ps).push(pane@.id));
            proof {
                lemma_push_no_duplicates(pane_ids(ps), pane@.id);
            }
        }
        if !contains_str(&self.active_panes, id.as_str()) {
            let ghost before = self.active_v();
            self.active_panes.push(id);
            assert(self.active_v() =~= before.push(pane@.id));
        }
    }

    /// Removes the pane `pane_id` and its place in the layout; returns it.
    pub fn remove_pane(&mut self, pane_id: &str) -> (r: Option<Pane>)
        requires
            old(self).wf(),
        ensures
            final(self).wf(),
            match r {
                Some(p) => lookup_pane(old(self).panes_v(), pane_id@) == Some(p@),
                None => lookup_pane(old(self).panes_v(), pane_id@) is None,
            },
            final(self).panes_v() == delete_pane(old(self).panes_v(), pane_id@),
            final(self).active_v() == old(self).active_v().filter(|x: Seq<char>| x != pane_id@),
            final(self).floating_v() == old(self).floating_v().filter(
                |x: Seq<char>| x != pane_id@,
            ),
            final(self).same_but_panes(old(self)),
    {
        let ghost ps = self.panes_v();
        let k = find_pane(&self.panes, pane_id);
        proof {
            lemma_first_index(pane_ids(ps), pane_id@);
        }
        let r = if k < self.panes.len() {
            let p = self.panes.remove(k);
            assert(self.panes_v() =~= ps.remove(k as int));
            assert(pane_ids(self.panes_v()) =~= pane_ids(ps).remove(k as int));
            proof {
                lemma_remove_no_duplicates(pane_ids(ps), k as int);
            }
            Some(p)
        } else {
            None
        };
        self.active_panes = without_str(&self.active_panes, pane_id);
        self.floating_panes = without_str(&self.floating_panes, pane_id);
        r
    }

    /// A copy of the pane `pane_id`, if there is one.
    pub fn get_pane(&self, pane_id: &str) -> (r: Option<Pane>)
        ensures
            match r {
                Some(p) => lookup_pane(self.panes_v(), pane_id@) == Some(p@),
                None => lookup_pane(self.panes_v(), pane_id@) is None,
            },
    {
        let k = find_pane(&self.panes, pane_id);
        if k < self.panes.len() {
            Some(self.panes[k].duplicate())
        } else {
            None
        }
    }

    /// The records of all panes.
    pub fn get_panes_info(&self) -> (r: Vec<PaneInfo>)
        ensures
            pane_infos_view(r@) == self.panes_v().map_values(|p: PaneView| pane_info_of(p)),
    {
        let mut r: Vec<PaneInfo> = Vec::new();
        let mut i: usize = 0;
        while i < self.panes.len()
            invariant
                i <= self.panes@.len(),
                r@.len() == i,
                forall|k: int| 0 <= k < i ==> #[trigger] r@[k]@ == pane_info_of(self.panes@[k]@),
            decreases self.panes@.len() - i,
        {
            r.push(PaneInfo::from(&self.panes[i]));
            i = i + 1;
        }
        assert(pane_infos_view(r@) =~= self.panes_v().map_values(|p: PaneView| pane_info_of(p)));
        r
    }
}

} // verus!

verus! {

/// The content fields of a pane after an update: each given field replaces the old one.
pub open spec fn with_content(
    p: PaneView,
    note_content: Option<Seq<char>>,
    whiteboard_data: Option<Seq<char>>,
    image_data: Option<Seq<char>>,
) -> PaneView {
    PaneView {
        note_content: if note_content is Some {
            note_content
        } else {
            p.note_content
        },
        whiteboard_data: if whiteboard_data is Some {
            whiteboard_data
        } else {
            p.whiteboard_data
        },
        image_data: if image_data is Some {
            image_data
        } else {
            p.image_data
        },
        ..p
    }
}

impl AppState {
    /// Puts `p` at position `k`, where a pane with the same id stands.
    fn replace_pane(&mut self, k: usize, p: Pane)
        requires
            old(self).wf(),
            k < old(self).panes@.len(),
            p@.id == old(self).panes_v()[k as int].id,
        ensures
            final(self).wf(),
            final(self).panes_v() == old(self).panes_v().update(k as int, p@),
            final(self).active_panes == old(self).active_panes,
            final(self).floating_panes == old(self).floating_panes,
            final(self).same_but_panes(old(self)),
    {
        let ghost ps = self.panes_v();
        self.panes.set(k, p);
        assert(self.panes_v() =~= ps.update(k as int, p@));
        assert(pane_ids(self.panes_v()) =~= pane_ids(ps));
    }

    /// Records `now` as the last content write of pane `pane_id`.
    fn record_write(&mut self, pane_id: &str, now: u64)
        requires
            old(self).wf(),
        ensures
            final(self).wf(),
            write_times_view(final(self).last_write_time@) == keyed_insert(
                write_times_view(old(self).last_write_time@),
                pane_id@,
                now,
            ),
            final(self).panes == old(self).panes,
            final(self).active_panes == old(self).active_panes,
            final(self).floating_panes == old(self).floating_panes,
            final(self).groups == old(self).groups,
            final(self).connected_devices == old(self).connected_devices,
            final(self).security == old(self).security,
            final(self).notification_current == old(self).notification_current,
            final(self).same_but_panes_except_writes(old(self)),
    {
        let ghost w = write_times_view(self.last_write_time@);
        let k = find_write_key(&self.last_write_time, pane_id);
        proof {
            lemma_first_index(keys_of(w), pane_id@);
        }
        if k < self.last_write_time.len() {
            self.last_write_time.set(k, (owned(pane_id), now));
            assert(write_times_view(self.last_write_time@) =~= w.update(k as int, (pane_id@, now)));
            assert(keys_of(write_times_view(self.last_write_time@)) =~= keys_of(w));
        } else {
            self.last_write_time.push((owned(pane_id), now));
            assert(write_times_view(self.last_write_time@) =~= w.push((pane_id@, now)));
            assert(keys_of(write_times_view(self.last_write_time@)) =~= keys_of(w).push(pane_id@));
            proof {
                lemma_push_no_duplicates(keys_of(w), pane_id@);
            }
        }
    }

    /// Replaces the given content fields of pane `pane_id` (if it exists) and
    /// records `now` as its last content write (whether or not it exists).
    pub fn update_pane_content(
        &mut self,
        pane_id: &str,
        note_content: Option<String>,
        whiteboard_data: Option<String>,
        image_data: Option<String>,
        now: u64,
    )
        requires
            old(self).wf(),
        ensures
            final(self).wf(),
            final(self).panes_v() == modify_pane(
                old(self).panes_v(),
                pane_id@,
                |p: PaneView|
                    with_content(
                        p,
                        opt_view(note_content),
                        opt_view(whiteboard_data),
                        opt_view(image_data),
                    ),
            ),
            write_times_view(final(self).last_write_time@) == keyed_insert(
                write_times_view(old(self).last_write_time@),
                pane_id@,
                now,
            ),
            final(self).active_panes == old(self).active_panes,
            final(self).floating_panes == old(self).floating_panes,
            final(self).groups == old(self).groups,
            final(self).connected_devices == old(self).connected_devices,
            final(self).security == old(self).security,
            final(self).same_but_panes_except_writes(old(self)),
    {
        let ghost ps = self.panes_v();
        let k = find_pane(&self.panes, pane_id);
        proof {
            lemma_first_index(pane_ids(ps), pane_id@);
        }
        if k < self.panes.len() {
            let mut p = self.panes[k].duplicate();
            match note_content {
                Some(nc) => {
                    p.note_content = Some(nc);
                },
                None => {},
            }
            match whiteboard_data {
                Some(wd) => {
                    p.whiteboard_data = Some(wd);
                },
                None => {},
            }
            match image_data {
                Some(d) => {
                    p.image_data = Some(d);
                },
                None => {},
            }
            self.replace_pane(k, p);
        }
        self.record_write(pane_id, now);
    }

    /// Sets the URL of browser pane `pane_id`, and its name when `name` holds
    /// more than whitespace; records `now` as its last write. Returns whether
    /// the pane exists and is a browser pane; otherwise nothing changes.
    pub fn update_browser_url(&mut self, pane_id: &str, url: String, name: Option<String>, now: u64) -> (updated: bool)
        requires
            old(self).wf(),
        ensures
            final(self).wf(),
            updated == (lookup_pane(old(self).panes_v(), pane_id@) matches Some(p)
                && p.pane_type == "browser"@),
            updated ==> final(self).panes_v() == modify_pane(
                old(self).panes_v(),
                pane_id@,
                |p: PaneView|
                    PaneView {
                        url: Some(url@),
                        name: match name {
                            Some(n) => if trim(n@).len() > 0 {
                                n@
                            } else {
                                p.name
                            },
                            None => p.name,
                        },
                        ..p
                    },
            ),
            updated ==> write_times_view(final(self).last_write_time@) == keyed_insert(
                write_times_view(old(self).last_write_time@),
                pane_id@,
                now,
            ),
            !updated ==> final(self).panes == old(self).panes && final(self).last_write_time
                == old(self).last_write_time,
            final(self).active_panes == old(self).active_panes,
            final(self).floating_panes == old(self).floating_panes,
            final(self).groups == old(self).groups,
            final(self).connected_devices == old(self).connected_devices,
            final(self).security == old(self).security,
            final(self).same_but_panes_except_writes(old(self)),
    {
        let ghost ps = self.panes_v();
        let k = find_pane(&self.panes, pane_id);
        proof {
            lemma_first_index(pane_ids(ps), pane_id@);
        }
        if k < self.panes.len() && str_eq(self.panes[k].pane_type.as_str(), "browser") {
            let mut p = self.panes[k].duplicate();
            p.url = Some(url);
            match name {
                Some(n) => {
                    if !is_blank(n.as_str()) {
                        p.name = n;
                    }
                },
                None => {},
            }
            self.replace_pane(k, p);
            self.record_write(pane_id, now);
            true
        } else {
            false
        }
    }

    /// The active pane ids.
    pub fn get_active_panes(&self) -> (r: Vec<String>)
        ensures
            strs_view(r@) == self.active_v(),
    {
        clone_strings(&self.active_panes)
    }

    /// The floating pane ids.
    pub fn get_floating_panes(&self) -> (r: Vec<String>)
        ensures
            strs_view(r@) == self.floating_v(),
    {
        clone_strings(&self.floating_panes)
    }

    /// Appends `data` to the scrollback of pane `pane_id`, if it exists.
    pub fn append_pane_buffer(&mut self, pane_id: &str, data: &[u8])
        requires
            old(self).wf(),
        ensures
            final(self).wf(),
            final(self).panes_v() == modify_pane(
                old(self).panes_v(),
                pane_id@,
                |p: PaneView| PaneView { buffer: appended_buffer(p.buffer, data@), ..p },
            ),
            final(self).active_panes == old(self).active_panes,
            final(self).floating_panes == old(self).floating_panes,
            final(self).same_but_panes(old(self)),
    {
        let ghost ps = self.panes_v();
        let k = find_pane(&self.panes, pane_id);
        proof {
            lemma_first_index(pane_ids(ps), pane_id@);
        }
        if k < self.panes.len() {
            let mut p = self.panes[k].duplicate();
            p.append_buffer(data);
            self.replace_pane(k, p);
        }
    }

    /// The scrollback of pane `pane_id`, or nothing when there is no such pane.
    pub fn get_pane_buffer(&self, pane_id: &str) -> (r: Vec<u8>)
        ensures
            r@ == match lookup_pane(self.panes_v(), pane_id@) {
                Some(p) => p.buffer,
                None => Seq::empty(),
            },
    {
        let k = find_pane(&self.panes, pane_id);
        if k < self.panes.len() {
            clone_bytes(&self.panes[k].buffer)
        } else {
            Vec::new()
        }
    }

    /// The scrollback of each of the given panes, paired with its id.
    pub fn get_panes_buffers(&self, pane_ids: &[String]) -> (r: Vec<(String, Vec<u8>)>)
        ensures
            r@.len() == pane_ids@.len(),
            forall|i: int|
                0 <= i < r@.len() ==> (#[trigger] r@[i]).0@ == pane_ids@[i]@ && r@[i].1@ == match lookup_pane(
                    self.panes_v(),
                    pane_ids@[i]@,
                ) {
                    Some(p) => p.buffer,
                    None => Seq::empty(),
                },
    {
        let mut r: Vec<(String, Vec<u8>)> = Vec::new();
        let mut i: usize = 0;
        while i < pane_ids.len()
            invariant
                i <= pane_ids@.len(),
                r@.len() == i,
                forall|k: int|
                    0 <= k < i ==> (#[trigger] r@[k]).0@ == pane_ids@[k]@ && r@[k].1@ == match lookup_pane(
                        self.panes_v(),
                        pane_ids@[k]@,
                    ) {
                        Some(p) => p.buffer,
                        None => Seq::empty(),
                    },
            decreases pane_ids@.len() - i,
        {
            let b = self.get_pane_buffer(pane_ids[i].as_str());
            r.push((pane_ids[i].clone(), b));
            i = i + 1;
        }
        r
    }
}

} // verus!

verus! {

/// The key under which a notification source's current state is kept: `type:id`.
pub open spec fn notice_key(n: NoticeView) -> Seq<char> {
    n.source_type + ":"@ + n.source_id
}

/// Statuses that enter the shared history.
pub open spec fn is_history_status(s: Seq<char>) -> bool {
    s == "needs_input"@ || s == "done"@ || s == "crashed"@
}

/// The history after an event: events with a history status and an event id
/// not seen yet go first, and the history keeps `NOTIFICATION_HISTORY_LIMIT` entries.
pub open spec fn history_after(h: Seq<NoticeView>, n: NoticeView) -> Seq<NoticeView> {
    if n.status != "idle"@ && is_history_status(n.status) && !(exists|i: int|
        0 <= i < h.len() && h[i].event_id == n.event_id) {
        let g = seq![n] + h;
        if g.len() > NOTIFICATION_HISTORY_LIMIT {
            g.take(NOTIFICATION_HISTORY_LIMIT as int)
        } else {
            g
        }
    } else {
        h
    }
}

/// The current states after an event: an `idle` event clears its source;
/// any other becomes its source's current state.
pub open spec fn current_after(c: Seq<(Seq<char>, NoticeView)>, n: NoticeView) -> Seq<(Seq<char>, NoticeView)> {
    if n.status == "idle"@ {
        keyed_remove(c, notice_key(n))
    } else {
        keyed_insert(c, notice_key(n), n)
    }
}

/// `p` with its group cleared when it is `group_id`.
pub open spec fn ungrouped(p: PaneView, group_id: Seq<char>) -> PaneView {
    if p.group_id == Some(group_id) {
        PaneView { group_id: None, ..p }
    } else {
        p
    }
}

/// `gs` with `g` stored under its id: replacing the group with that id, or added last.
pub open spec fn insert_group(gs: Seq<GroupView>, g: GroupView) -> Seq<GroupView> {
    let k = first_index(group_ids(gs), g.id);
    if k < gs.len() {
        gs.update(k as int, g)
    } else {
        gs.push(g)
    }
}

/// The group with id `id`, if any.
pub open spec fn lookup_group(gs: Seq<GroupView>, id: Seq<char>) -> Option<GroupView> {
    let k = first_index(group_ids(gs), id);
    if k < gs.len() {
        Some(gs[k as int])
    } else {
        None
    }
}

impl AppState {
    /// Applies a notification event to the current states and the history.
    pub fn apply_notification_update(&mut self, notification: NotificationEventInfo)
        requires
            old(self).wf(),
        ensures
            final(self).wf(),
            current_view(final(self).notification_current@) == current_after(
                current_view(old(self).notification_current@),
                notification@,
            ),
            notices_view(final(self).notification_history@) == history_after(
                notices_view(old(self).notification_history@),
                notification@,
            ),
            final(self).panes == old(self).panes,
            final(self).active_panes == old(self).active_panes,
            final(self).floating_panes == old(self).floating_panes,
            final(self).groups == old(self).groups,
            final(self).connected_devices == old(self).connected_devices,
            final(self).security == old(self).security,
            final(self).authenticated == old(self).authenticated,
            final(self).auth_token == old(self).auth_token,
            final(self).frontend_url == old(self).frontend_url,
            final(self).tunnel_url == old(self).tunnel_url,
            final(self).cold_start_dir == old(self).cold_start_dir,
            final(self).last_write_time == old(self).last_write_time,
            final(self).preview_sessions == old(self).preview_sessions,
    {
        let key = concat_chars(
            chars_of(notification.source_type.as_str()).as_slice(),
            chars_of(":").as_slice(),
        );
        let key = concat_chars(key.as_slice(), chars_of(notification.source_id.as_str()).as_slice());
        let key = string_of(key.as_slice());
        assert(key@ =~= notice_key(notification@));
        let ghost c = current_view(self.notification_current@);
        let k = find_notice_key(&self.notification_current, key.as_str());
        proof {
            lemma_first_index(keys_of(c), key@);
        }
        if str_eq(notification.status.as_str(), "idle") {
            if k < self.notification_current.len() {
                self.notification_current.remove(k);
                assert(current_view(self.notification_current@) =~= c.remove(k as int));
                assert(keys_of(current_view(self.notification_current@)) =~= keys_of(c).remove(
                    k as int,
                ));
                proof {
                    lemma_remove_no_duplicates(keys_of(c), k as int);
                }
            }
            return ;
        }
        let entry = notification.duplicate();
        if k < self.notification_current.len() {
            self.notification_current.set(k, (key, entry));
            assert(current_view(self.notification_current@) =~= c.update(
                k as int,
                (notice_key(notification@), notification@),
            ));
            assert(keys_of(current_view(self.notification_current@)) =~= keys_of(c));
        } else {
            self.notification_current.push((key, entry));
            assert(current_view(self.notification_current@) =~= c.push(
                (notice_key(notification@), notification@),
            ));
            assert(keys_of(current_view(self.notification_current@)) =~= keys_of(c).push(
                notice_key(notification@),
            ));
            proof {
                lemma_push_no_duplicates(keys_of(c), notice_key(notification@));
            }
        }
        let st = notification.status.as_str();
        if str_eq(st, "needs_input") || str_eq(st, "done") || str_eq(st, "crashed") {
            let ghost h = notices_view(self.notification_history@);
            let mut seen = false;
            let mut i: usize = 0;
            while i < self.notification_history.len()
                invariant_except_break
                    !seen,
                invariant
                    i <= self.notification_history@.len(),
                    h == notices_view(self.notification_history@),
                    forall|j: int| 0 <= j < i ==> h[j].event_id != notification@.event_id,
                ensures
                    seen ==> i < h.len() && h[i as int].event_id == notification@.event_id,
                    !seen ==> forall|j: int| 0 <= j < h.len() ==> h[j].event_id != notification@.event_id,
                decreases self.notification_history@.len() - i,
            {
                if str_eq(
                    self.notification_history[i].event_id.as_str(),
                    notification.event_id.as_str(),
                ) {
                    seen = true;
                    break;
                }
                i = i + 1;
            }
            if !seen {
                self.notification_history.insert(0, notification);
                assert(notices_view(self.notification_history@) =~= seq![notification@] + h);
                let ghost g = notices_view(self.notification_history@);
                self.notification_history.truncate(NOTIFICATION_HISTORY_LIMIT);
                assert(notices_view(self.notification_history@) =~= if g.len()
                    > NOTIFICATION_HISTORY_LIMIT {
                    g.take(NOTIFICATION_HISTORY_LIMIT as int)
                } else {
                    g
                });
            }
        }
    }

    /// Clears the notification history.
    pub fn clear_notification_history(&mut self)
        requires
            old(self).wf(),
        ensures
            final(self).wf(),
            final(self).notification_history@.len() == 0,
            final(self).notification_current == old(self).notification_current,
            final(self).panes == old(self).panes,
            final(self).groups == old(self).groups,
            final(self).active_panes == old(self).active_panes,
            final(self).floating_panes == old(self).floating_panes,
            final(self).connected_devices == old(self).connected_devices,
            final(self).security == old(self).security,
            final(self).authenticated == old(self).authenticated,
            final(self).auth_token == old(self).auth_token,
            final(self).frontend_url == old(self).frontend_url,
            final(self).tunnel_url == old(self).tunnel_url,
            final(self).cold_start_dir == old(self).cold_start_dir,
            final(self).last_write_time == old(self).last_write_time,
            final(self).preview_sessions == old(self).preview_sessions,
    {
        self.notification_history.clear();
    }

    /// The current notification states and the history.
    pub fn notification_snapshot(&self) -> (r: NotificationSnapshot)
        ensures
            notices_view(r.current@) == current_view(self.notification_current@).map_values(
                |e: (Seq<char>, NoticeView)| e.1,
            ),
            notices_view(r.history@) == notices_view(self.notification_history@),
    {
        let mut current: Vec<NotificationEventInfo> = Vec::new();
        let mut i: usize = 0;
        while i < self.notification_current.len()
            invariant
                i <= self.notification_current@.len(),
                current@.len() == i,
                forall|k: int|
                    0 <= k < i ==> #[trigger] current@[k]@ == self.notification_current@[k].1@,
            decreases self.notification_current@.len() - i,
        {
            current.push(self.notification_current[i].1.duplicate());
            i = i + 1;
        }
        assert(notices_view(current@) =~= current_view(self.notification_current@).map_values(
            |e: (Seq<char>, NoticeView)| e.1,
        ));
        NotificationSnapshot { current, history: clone_notices(&self.notification_history) }
    }

    /// Moves a pane to the floating tabs: out of the grid, and into the tabs
    /// unless it is there already.
    pub fn move_to_floating(&mut self, pane_id: &str)
        requires
            old(self).wf(),
        ensures
            final(self).wf(),
            final(self).active_v() == old(self).active_v().filter(|x: Seq<char>| x != pane_id@),
            final(self).floating_v() == if old(self).floating_v().contains(pane_id@) {
                old(self).floating_v()
            } else {
                old(self).floating_v().push(pane_id@)
            },
            final(self).panes == old(self).panes,
            final(self).same_but_panes(old(self)),
    {
        self.active_panes = without_str(&self.active_panes, pane_id);
        if !contains_str(&self.floating_panes, pane_id) {
            let ghost before = self.floating_v();
            self.floating_panes.push(owned(pane_id));
            assert(self.floating_v() =~= before.push(pane_id@));
        }
    }

    /// Moves a pane to the grid: out of the floating tabs, and into the grid
    /// unless it is there already.
    pub fn move_to_active(&mut self, pane_id: &str)
        requires
            old(self).wf(),
        ensures
            final(self).wf(),
            final(self).floating_v() == old(self).floating_v().filter(
                |x: Seq<char>| x != pane_id@,
            ),
            final(self).active_v() == if old(self).active_v().contains(pane_id@) {
                old(self).active_v()
            } else {
                old(self).active_v().push(pane_id@)
            },
            final(self).panes == old(self).panes,
            final(self).same_but_panes(old(self)),
    {
        self.floating_panes = without_str(&self.floating_panes, pane_id);
        if !contains_str(&self.active_panes, pane_id) {
            let ghost before = self.active_v();
            self.active_panes.push(owned(pane_id));
            assert(self.active_v() =~= before.push(pane_id@));
        }
    }

    /// Sets the size of pane `pane_id`. Returns whether it exists.
    pub fn resize_pane(&mut self, pane_id: &str, cols: u16, rows: u16) -> (found: bool)
        requires
            old(self).wf(),
        ensures
            final(self).wf(),
            found == pane_ids(old(self).panes_v()).contains(pane_id@),
            final(self).panes_v() == modify_pane(
                old(self).panes_v(),
                pane_id@,
                |p: PaneView| PaneView { cols, rows, ..p },
            ),
            final(self).active_panes == old(self).active_panes,
            final(self).floating_panes == old(self).floating_panes,
            final(self).same_but_panes(old(self)),
    {
        let ghost ps = self.panes_v();
        let k = find_pane(&self.panes, pane_id);
        proof {
            lemma_first_index(pane_ids(ps), pane_id@);
        }
        if k < self.panes.len() {
            let mut p = self.panes[k].duplicate();
            p.cols = cols;
            p.rows = rows;
            self.replace_pane(k, p);
            true
        } else {
            false
        }
    }

    /// Renames pane `pane_id`. Returns whether it exists.
    pub fn rename_pane(&mut self, pane_id: &str, name: &str) -> (found: bool)
        requires
            old(self).wf(),
        ensures
            final(self).wf(),
            found == pane_ids(old(self).panes_v()).contains(pane_id@),
            final(self).panes_v() == modify_pane(
                old(self).panes_v(),
                pane_id@,
                |p: PaneView| PaneView { name: name@, ..p },
            ),
            final(self).active_panes == old(self).active_panes,
            final(self).floating_panes == old(self).floating_panes,
            final(self).same_but_panes(old(self)),
    {
        let ghost ps = self.panes_v();
        let k = find_pane(&self.panes, pane_id);
        proof {
            lemma_first_index(pane_ids(ps), pane_id@);
        }
        if k < self.panes.len() {
            let mut p = self.panes[k].duplicate();
            p.name = owned(name);
            self.replace_pane(k, p);
            true
        } else {
            false
        }
    }

    /// Pins or unpins pane `pane_id`. Returns whether it exists.
    pub fn set_pane_pinned(&mut self, pane_id: &str, pinned: bool) -> (found: bool)
        requires
            old(self).wf(),
        ensures
            final(self).wf(),
            found == pane_ids(old(self).panes_v()).contains(pane_id@),
            final(self).panes_v() == modify_pane(
                old(self).panes_v(),
                pane_id@,
                |p: PaneView| PaneView { pinned, ..p },
            ),
            final(self).active_panes == old(self).active_panes,
            final(self).floating_panes == old(self).floating_panes,
            final(self).same_but_panes(old(self)),
    {
        let ghost ps = self.panes_v();
        let k = find_pane(&self.panes, pane_id);
        proof {
            lemma_first_index(pane_ids(ps), pane_id@);
        }
        if k < self.panes.len() {
            let mut p = self.panes[k].duplicate();
            p.pinned = pinned;
            self.replace_pane(k, p);
            true
        } else {
            false
        }
    }

    /// Sets or clears the group of pane `pane_id`. Returns whether it exists.
    pub fn set_pane_group(&mut self, pane_id: &str, group_id: Option<&str>) -> (found: bool)
        requires
            old(self).wf(),
        ensures
            final(self).wf(),
            found == pane_ids(old(self).panes_v()).contains(pane_id@),
            !found ==> *final(self) == *old(self),
            final(self).panes_v() == modify_pane(
                old(self).panes_v(),
                pane_id@,
                |p: PaneView|
                    PaneView {
                        group_id: match group_id {
                            Some(g) => Some(g@),
                            None => None,
                        },
                        ..p
                    },
            ),
            final(self).active_panes == old(self).active_panes,
            final(self).floating_panes == old(self).floating_panes,
            final(self).same_but_panes(old(self)),
    {
        let ghost ps = self.panes_v();
        let k = find_pane(&self.panes, pane_id);
        proof {
            lemma_first_index(pane_ids(ps), pane_id@);
        }
        if k < self.panes.len() {
            let mut p = self.panes[k].duplicate();
            p.group_id = match group_id {
                Some(g) => Some(owned(g)),
                None => None,
            };
            self.replace_pane(k, p);
            true
        } else {
            false
        }
    }

    /// Whether `token` is the expected authentication token.
    pub fn validate_token(&self, token: &str) -> (r: bool)
        ensures
            r == (self.auth_token@ == token@),
    {
        str_eq(self.auth_token.as_str(), token)
    }

    /// Sets the authenticated flag.
    pub fn set_authenticated(&mut self, value: bool)
        requires
            old(self).wf(),
        ensures
            final(self).wf(),
            final(self).authenticated == value,
            final(self).panes == old(self).panes,
            final(self).active_panes == old(self).active_panes,
            final(self).floating_panes == old(self).floating_panes,
            final(self).groups == old(self).groups,
            final(self).connected_devices == old(self).connected_devices,
            final(self).security == old(self).security,
            final(self).auth_token == old(self).auth_token,
            final(self).frontend_url == old(self).frontend_url,
            final(self).tunnel_url == old(self).tunnel_url,
            final(self).cold_start_dir == old(self).cold_start_dir,
            final(self).last_write_time == old(self).last_write_time,
            final(self).preview_sessions == old(self).preview_sessions,
            final(self).notification_current == old(self).notification_current,
            final(self).notification_history == old(self).notification_history,
    {
        self.authenticated = value;
    }

    /// Whether a client has authenticated.
    pub fn is_authenticated(&self) -> (r: bool)
        ensures
            r == self.authenticated,
    {
        self.authenticated
    }
}

} // verus!

verus! {

/// How many devices of `ds` are connected from `ip`.
pub open spec fn count_from_ip(ds: Seq<DeviceView>, ip: Seq<char>) -> nat {
    ds.filter(|d: DeviceView| d.ip == ip).len()
}

impl AppState {
    /// Adds a group (replacing the group with the same id).
    pub fn add_group(&mut self, group: PaneGroup)
        requires
            old(self).wf(),
        ensures
            final(self).wf(),
            final(self).groups_v() == insert_group(old(self).groups_v(), group@),
            final(self).panes == old(self).panes,
            final(self).active_panes == old(self).active_panes,
            final(self).floating_panes == old(self).floating_panes,
            final(self).connected_devices == old(self).connected_devices,
            final(self).security == old(self).security,
            final(self).same_settings(old(self)),
    {
        let ghost gs = self.groups_v();
        let k = find_group(&self.groups, group.id.as_str());
        proof {
            lemma_first_index(group_ids(gs), group@.id);
        }
        if k < self.groups.len() {
            self.groups.set(k, group);
            assert(self.groups_v() =~= gs.update(k as int, group@));
            assert(group_ids(self.groups_v()) =~= group_ids(gs));
        } else {
            self.groups.push(group);
            assert(self.groups_v() =~= gs.push(group@));
            assert(group_ids(self.groups_v()) =~= group_ids(gs).push(group@.id));
            proof {
                lemma_push_no_duplicates(group_ids(gs), group@.id);
            }
        }
    }

    /// Removes group `group_id` and ungroups its panes. Returns whether it
    /// existed; otherwise nothing changes.
    pub fn remove_group(&mut self, group_id: &str) -> (found: bool)
        requires
            old(self).wf(),
        ensures
            final(self).wf(),
            found == group_ids(old(self).groups_v()).contains(group_id@),
            found ==> final(self).groups_v() == old(self).groups_v().remove(
                first_index(group_ids(old(self).groups_v()), group_id@) as int,
            ),
            found ==> final(self).panes_v() == old(self).panes_v().map_values(
                |p: PaneView| ungrouped(p, group_id@),
            ),
            !found ==> *final(self) == *old(self),
            final(self).active_panes == old(self).active_panes,
            final(self).floating_panes == old(self).floating_panes,
            final(self).connected_devices == old(self).connected_devices,
            final(self).security == old(self).security,
            final(self).same_settings(old(self)),
    {
        let ghost gs = self.groups_v();
        let k = find_group(&self.groups, group_id);
        proof {
            lemma_first_index(group_ids(gs), group_id@);
        }
        if k >= self.groups.len() {
            return false;
        }
        self.groups.remove(k);
        assert(self.groups_v() =~= gs.remove(k as int));
        assert(group_ids(self.groups_v()) =~= group_ids(gs).remove(k as int));
        proof {
            lemma_remove_no_duplicates(group_ids(gs), k as int);
        }
        let ghost ps = self.panes_v();
        let mut i: usize = 0;
        while i < self.panes.len()
            invariant
                i <= self.panes@.len(),
                self.panes@.len() == ps.len(),
                forall|j: int| 0 <= j < i ==> #[trigger] self.panes@[j]@ == ungrouped(ps[j], group_id@),
                forall|j: int| i <= j < ps.len() ==> #[trigger] self.panes@[j]@ == ps[j],
                k < old(self).groups@.len(),
                self.groups@ == old(self).groups@.remove(k as int),
                self.active_panes == old(self).active_panes,
                self.floating_panes == old(self).floating_panes,
                self.connected_devices == old(self).connected_devices,
                self.security == old(self).security,
                self.same_settings(old(self)),
            decreases ps.len() - i,
        {
            let matches = match &self.panes[i].group_id {
                Some(g) => str_eq(g.as_str(), group_id),
                None => false,
            };
            if matches {
                let mut p = self.panes[i].duplicate();
                p.group_id = None;
                self.panes.set(i, p);
            }
            i = i + 1;
        }
        assert(self.panes_v() =~= ps.map_values(|p: PaneView| ungrouped(p, group_id@)));
        assert(pane_ids(self.panes_v()) =~= pane_ids(ps));
        true
    }

    /// A copy of group `group_id`, if it exists.
    pub fn get_group(&self, group_id: &str) -> (r: Option<PaneGroup>)
        ensures
            match r {
                Some(g) => lookup_group(self.groups_v(), group_id@) == Some(g@),
                None => lookup_group(self.groups_v(), group_id@) is None,
            },
    {
        let k = find_group(&self.groups, group_id);
        if k < self.groups.len() {
            Some(self.groups[k].duplicate())
        } else {
            None
        }
    }

    /// The records of all groups.
    pub fn get_all_groups(&self) -> (r: Vec<PaneGroupInfo>)
        ensures
            group_infos_view(r@) == self.groups_v(),
    {
        let mut r: Vec<PaneGroupInfo> = Vec::new();
        let mut i: usize = 0;
        while i < self.groups.len()
            invariant
                i <= self.groups@.len(),
                r@.len() == i,
                forall|k: int| 0 <= k < i ==> #[trigger] r@[k]@ == self.groups@[k]@,
            decreases self.groups@.len() - i,
        {
            r.push(PaneGroupInfo::from(&self.groups[i]));
            i = i + 1;
        }
        assert(group_infos_view(r@) =~= self.groups_v());
        r
    }

    /// Renames group `group_id`. Returns whether it exists.
    pub fn rename_group(&mut self, group_id: &str, name: &str) -> (found: bool)
        requires
            old(self).wf(),
        ensures
            final(self).wf(),
            found == group_ids(old(self).groups_v()).contains(group_id@),
            !found ==> *final(self) == *old(self),
            final(self).groups_v() == {
                let gs = old(self).groups_v();
                let k = first_index(group_ids(gs), group_id@);
                if k < gs.len() {
                    gs.update(k as int, GroupView { name: name@, ..gs[k as int] })
                } else {
                    gs
                }
            },
            final(self).panes == old(self).panes,
            final(self).active_panes == old(self).active_panes,
            final(self).floating_panes == old(self).floating_panes,
            final(self).connected_devices == old(self).connected_devices,
            final(self).security == old(self).security,
            final(self).same_settings(old(self)),
    {
        let ghost gs = self.groups_v();
        let k = find_group(&self.groups, group_id);
        proof {
            lemma_first_index(group_ids(gs), group_id@);
        }
        if k < self.groups.len() {
            let mut g = self.groups[k].duplicate();
            g.name = owned(name);
            self.groups.set(k, g);
            assert(self.groups_v() =~= gs.update(k as int, GroupView { name: name@, ..gs[k as int] }));
            assert(group_ids(self.groups_v()) =~= group_ids(gs));
            true
        } else {
            false
        }
    }
}

} // verus!

verus! {

/// The device with id `id`, if any.
pub open spec fn lookup_device(ds: Seq<DeviceView>, id: Seq<char>) -> Option<DeviceView> {
    let k = first_index(device_ids(ds), id);
    if k < ds.len() {
        Some(ds[k as int])
    } else {
        None
    }
}

/// `ds` with device `d` in place of the one with its id, or with `d` added
/// at the end when there is none.
pub open spec fn insert_device(ds: Seq<DeviceView>, d: DeviceView) -> Seq<DeviceView> {
    let k = first_index(device_ids(ds), d.id);
    if k < ds.len() {
        ds.update(k as int, d)
    } else {
        ds.push(d)
    }
}

/// `ds` without the device `id`.
pub open spec fn delete_device(ds: Seq<DeviceView>, id: Seq<char>) -> Seq<DeviceView> {
    let k = first_index(device_ids(ds), id);
    if k < ds.len() {
        ds.remove(k as int)
    } else {
        ds
    }
}

impl AppState {
    /// Tracks a newly connected device (replacing one with the same id) and
    /// records its connection in the history.
    pub fn add_device(&mut self, device: ConnectedDevice)
        requires
            old(self).wf(),
        ensures
            final(self).wf(),
            final(self).devices_v() == insert_device(old(self).devices_v(), device@),
            final(self).security@.history == with_connection(
                old(self).security@.history,
                HistoryView {
                    ip: device@.ip,
                    user_agent: device@.user_agent,
                    connected_at: device.connected_at,
                    disconnected_at: None,
                    was_banned: false,
                },
            ),
            final(self).security@.banned_ips == old(self).security@.banned_ips,
            final(self).panes == old(self).panes,
            final(self).active_panes == old(self).active_panes,
            final(self).floating_panes == old(self).floating_panes,
            final(self).groups == old(self).groups,
            final(self).same_settings(old(self)),
    {
        let ghost ds = self.devices_v();
        let k = find_device(&self.connected_devices, device.id.as_str());
        proof {
            lemma_first_index(device_ids(ds), device@.id);
        }
        let copy = device.duplicate();
        if k < self.connected_devices.len() {
            self.connected_devices.set(k, device);
            assert(self.devices_v() =~= ds.update(k as int, copy@));
            assert(device_ids(self.devices_v()) =~= device_ids(ds));
        } else {
            self.connected_devices.push(device);
            assert(self.devices_v() =~= ds.push(copy@));
            assert(device_ids(self.devices_v()) =~= device_ids(ds).push(copy@.id));
            proof {
                lemma_push_no_duplicates(device_ids(ds), copy@.id);
            }
        }
        self.security.add_connection(copy.ip.as_str(), copy.user_agent.as_str(), copy.connected_at);
    }

    /// Stops tracking device `device_id` and closes its connection in the
    /// history at `disconnected_at`, marked as due to a ban or not.
    fn drop_device(&mut self, device_id: &str, disconnected_at: u64, was_banned: bool)
        requires
            old(self).wf(),
        ensures
            final(self).wf(),
            final(self).devices_v() == delete_device(old(self).devices_v(), device_id@),
            final(self).security@.history == match lookup_device(
                old(self).devices_v(),
                device_id@,
            ) {
                Some(d) => close_latest(
                    old(self).security@.history,
                    d.ip,
                    disconnected_at,
                    was_banned,
                ),
                None => old(self).security@.history,
            },
            final(self).security@.banned_ips == old(self).security@.banned_ips,
            final(self).panes == old(self).panes,
            final(self).active_panes == old(self).active_panes,
            final(self).floating_panes == old(self).floating_panes,
            final(self).groups == old(self).groups,
            final(self).same_settings(old(self)),
    {
        let ghost ds = self.devices_v();
        let k = find_device(&self.connected_devices, device_id);
        proof {
            lemma_first_index(device_ids(ds), device_id@);
        }
        if k < self.connected_devices.len() {
            let d = self.connected_devices.remove(k);
            assert(self.devices_v() =~= ds.remove(k as int));
            assert(device_ids(self.devices_v()) =~= device_ids(ds).remove(k as int));
            proof {
                lemma_remove_no_duplicates(device_ids(ds), k as int);
            }
            self.security.mark_disconnected(d.ip.as_str(), disconnected_at, was_banned);
        }
    }

    /// Stops tracking device `device_id` and closes its connection in the
    /// history at `disconnected_at`.
    pub fn remove_device(&mut self, device_id: &str, disconnected_at: u64)
        requires
            old(self).wf(),
        ensures
            final(self).wf(),
            final(self).devices_v() == delete_device(old(self).devices_v(), device_id@),
            final(self).security@.history == match lookup_device(
                old(self).devices_v(),
                device_id@,
            ) {
                Some(d) => close_latest(old(self).security@.history, d.ip, disconnected_at, false),
                None => old(self).security@.history,
            },
            final(self).security@.banned_ips == old(self).security@.banned_ips,
            final(self).panes == old(self).panes,
            final(self).groups == old(self).groups,
            final(self).active_panes == old(self).active_panes,
            final(self).floating_panes == old(self).floating_panes,
            final(self).same_settings(old(self)),
    {
        self.drop_device(device_id, disconnected_at, false);
    }

    /// Stops tracking device `device_id`, closing its connection in the
    /// history at `disconnected_at` as due to a ban.
    pub fn remove_device_banned(&mut self, device_id: &str, disconnected_at: u64)
        requires
            old(self).wf(),
        ensures
            final(self).wf(),
            final(self).devices_v() == delete_device(old(self).devices_v(), device_id@),
            final(self).security@.history == match lookup_device(
                old(self).devices_v(),
                device_id@,
            ) {
                Some(d) => close_latest(old(self).security@.history, d.ip, disconnected_at, true),
                None => old(self).security@.history,
            },
            final(self).security@.banned_ips == old(self).security@.banned_ips,
            final(self).panes == old(self).panes,
            final(self).groups == old(self).groups,
            final(self).active_panes == old(self).active_panes,
            final(self).floating_panes == old(self).floating_panes,
            final(self).same_settings(old(self)),
    {
        self.drop_device(device_id, disconnected_at, true);
    }

    /// Copies of the connected devices.
    pub fn get_devices(&self) -> (r: Vec<ConnectedDevice>)
        ensures
            devices_view(r@) == self.devices_v(),
    {
        let mut r: Vec<ConnectedDevice> = Vec::new();
        let mut i: usize = 0;
        while i < self.connected_devices.len()
            invariant
                i <= self.connected_devices@.len(),
                r@.len() == i,
                forall|k: int| 0 <= k < i ==> #[trigger] r@[k]@ == self.connected_devices@[k]@,
            decreases self.connected_devices@.len() - i,
        {
            r.push(self.connected_devices[i].duplicate());
            i = i + 1;
        }
        assert(devices_view(r@) =~= self.devices_v());
        r
    }

    /// Copies of the connected devices (the same as `get_devices`).
    pub fn get_connected_devices(&self) -> (r: Vec<ConnectedDevice>)
        ensures
            devices_view(r@) == self.devices_v(),
    {
        self.get_devices()
    }

    /// A copy of the connection history.
    pub fn get_connection_history(&self) -> (r: Vec<ConnectionHistoryEntry>)
        ensures
            history_view(r@) == self.security@.history,
    {
        clone_history(&self.security.history)
    }

    /// The id of the first connected device from `ip`, if any.
    pub fn get_device_by_ip(&self, ip: &str) -> (r: Option<String>)
        ensures
            match r {
                Some(id) => exists|i: int|
                    0 <= i < self.devices_v().len() && self.devices_v()[i].ip == ip@
                        && self.devices_v()[i].id == id@ && forall|j: int|
                        0 <= j < i ==> self.devices_v()[j].ip != ip@,
                None => forall|i: int|
                    0 <= i < self.devices_v().len() ==> self.devices_v()[i].ip != ip@,
            },
    {
        let mut i: usize = 0;
        while i < self.connected_devices.len()
            invariant
                i <= self.connected_devices@.len(),
                forall|j: int| 0 <= j < i ==> self.devices_v()[j].ip != ip@,
            decreases self.connected_devices@.len() - i,
        {
            if str_eq(self.connected_devices[i].ip.as_str(), ip) {
                let id = self.connected_devices[i].id.clone();
                assert(self.devices_v()[i as int].ip == ip@ && self.devices_v()[i as int].id == id@);
                return Some(id);
            }
            i = i + 1;
        }
        None
    }

    /// Bans `ip`, then stops tracking every device connected from it,
    /// closing their connections in the history at `disconnected_at` as due
    /// to the ban.
    pub fn ban_ip(&mut self, ip: &str, disconnected_at: u64)
        requires
            old(self).wf(),
        ensures
            final(self).wf(),
            final(self).security@.banned_ips == if old(self).security@.banned_ips.contains(ip@) {
                old(self).security@.banned_ips
            } else {
                old(self).security@.banned_ips.push(ip@)
            },
            final(self).devices_v() == old(self).devices_v().filter(|d: DeviceView| d.ip != ip@),
            final(self).security@.history == close_latest_times(
                old(self).security@.history,
                ip@,
                disconnected_at,
                true,
                count_from_ip(old(self).devices_v(), ip@),
            ),
            final(self).panes == old(self).panes,
            final(self).active_panes == old(self).active_panes,
            final(self).floating_panes == old(self).floating_panes,
            final(self).groups == old(self).groups,
            final(self).same_settings(old(self)),
    {
        self.security.ban_ip(ip);
        let ghost h1 = self.security@.history;
        let ghost dv = self.devices_v();
        let ghost keep = |d: DeviceView| d.ip != ip@;
        let ghost hit = |d: DeviceView| d.ip == ip@;
        let mut kept: Vec<ConnectedDevice> = Vec::new();
        let mut i: usize = 0;
        while i < self.connected_devices.len()
            invariant
                i <= self.connected_devices@.len(),
                dv == self.devices_v(),
                keep == (|d: DeviceView| d.ip != ip@),
                hit == (|d: DeviceView| d.ip == ip@),
                device_ids(dv).no_duplicates(),
                devices_view(kept@) == dv.take(i as int).filter(keep),
                forall|a: int|
                    0 <= a < kept@.len() ==> exists|j: int|
                        0 <= j < i && (#[trigger] kept@[a])@.id == dv[j].id,
                device_ids(devices_view(kept@)).no_duplicates(),
                self.security@.history == close_latest_times(
                    h1,
                    ip@,
                    disconnected_at,
                    true,
                    dv.take(i as int).filter(hit).len(),
                ),
                self.security@.banned_ips == final_banned(old(self).security@.banned_ips, ip@),
                self.panes == old(self).panes,
                self.active_panes == old(self).active_panes,
                self.floating_panes == old(self).floating_panes,
                self.groups == old(self).groups,
                self.same_settings(old(self)),
            decreases self.connected_devices@.len() - i,
        {
            proof {
                reveal(Seq::filter);
                assert(dv.take(i + 1).drop_last() =~= dv.take(i as int));
                assert(dv.take(i + 1).last() == dv[i as int]);
            }
            let d = &self.connected_devices[i];
            if str_eq(d.ip.as_str(), ip) {
                self.security.mark_disconnected(ip, disconnected_at, true);
            } else {
                let ghost before = kept@;
                let c = d.duplicate();
                proof {
                    let ids = device_ids(dv);
                    assert(ids[i as int] == c@.id);
                    assert(!device_ids(devices_view(before)).contains(c@.id)) by {
                        if device_ids(devices_view(before)).contains(c@.id) {
                            let a = choose|a: int|
                                0 <= a < before.len() && device_ids(devices_view(before))[a]
                                    == c@.id;
                            assert(before[a]@.id == c@.id);
                            let j = choose|j: int| 0 <= j < i && before[a]@.id == dv[j].id;
                            assert(ids[j] == ids[i as int]);
                        }
                    }
                    lemma_push_no_duplicates(device_ids(devices_view(before)), c@.id);
                }
                kept.push(c);
                assert(devices_view(kept@) =~= devices_view(before).push(dv[i as int]));
                assert(device_ids(devices_view(kept@)) =~= device_ids(devices_view(before)).push(
                    dv[i as int].id,
                ));
                assert(kept@[kept@.len() - 1]@.id == dv[i as int].id);
            }
            i = i + 1;
        }
        assert(dv.take(dv.len() as int) =~= dv);
        self.connected_devices = kept;
    }

    /// Removes `ip` from the ban list. Returns whether it was banned.
    pub fn unban_ip(&mut self, ip: &str) -> (was_banned: bool)
        requires
            old(self).wf(),
        ensures
            final(self).wf(),
            was_banned == old(self).security@.banned_ips.contains(ip@),
            final(self).security@.banned_ips == old(self).security@.banned_ips.filter(
                |x: Seq<char>| x != ip@,
            ),
            final(self).security@.history == old(self).security@.history,
            final(self).panes == old(self).panes,
            final(self).connected_devices == old(self).connected_devices,
            final(self).groups == old(self).groups,
            final(self).active_panes == old(self).active_panes,
            final(self).floating_panes == old(self).floating_panes,
            final(self).same_settings(old(self)),
    {
        self.security.unban_ip(ip)
    }

    /// The banned IP addresses.
    pub fn get_banned_ips(&self) -> (r: Vec<String>)
        ensures
            strs_view(r@) == self.security@.banned_ips,
    {
        clone_strings(&self.security.banned_ips)
    }

    /// Whether `ip` is banned.
    pub fn is_ip_banned(&self, ip: &str) -> (r: bool)
        ensures
            r == self.security@.banned_ips.contains(ip@),
    {
        self.security.is_banned(ip)
    }
}

/// The ban list after banning `ip`.
pub open spec fn final_banned(b: Seq<Seq<char>>, ip: Seq<char>) -> Seq<Seq<char>> {
    if b.contains(ip) {
        b
    } else {
        b.push(ip)
    }
}

} // verus!

verus! {

/// `s` with each `c` replaced by `with`.
pub open spec fn replace_char(s: Seq<char>, c: char, with: Seq<char>) -> Seq<char>
    decreases s.len(),
{
    if s.len() == 0 {
        Seq::empty()
    } else {
        replace_char(s.drop_last(), c, with) + if s.last() == c {
            with
        } else {
            seq![s.last()]
        }
    }
}

/// The characters of `s` with each `c` replaced by `with`, as `str::replace` gives them.
pub fn replace_chars(s: &[char], c: char, with: &[char]) -> (r: Vec<char>)
    ensures
        r@ == replace_char(s@, c, with@),
{
    let mut r: Vec<char> = Vec::new();
    let mut i: usize = 0;
    while i < s.len()
        invariant
            i <= s@.len(),
            r@ == replace_char(s@.take(i as int), c, with@),
        decreases s@.len() - i,
    {
        assert(s@.take(i + 1).drop_last() =~= s@.take(i as int));
        if s[i] == c {
            r = concat_chars(r.as_slice(), with);
        } else {
            r.push(s[i]);
            assert(r@ =~= replace_char(s@.take(i as int), c, with@) + seq![s@[i as int]]);
        }
        i = i + 1;
    }
    assert(s@.take(s@.len() as int) =~= s@);
    r
}

/// The shell command that moves a new terminal to `dir` and clears it:
/// PowerShell quoting (quotes doubled, `Clear-Host`) on Windows, POSIX
/// shell quoting (quotes backslash-escaped, `clear`) elsewhere.
pub open spec fn cd_command_text(dir: Seq<char>, windows: bool) -> Seq<char> {
    if windows {
        "cd '"@ + replace_char(dir, '\'', "''"@) + "'; Clear-Host\r\n"@
    } else {
        "cd '"@ + replace_char(dir, '\'', "\\'"@) + "'; clear\r\n"@
    }
}

/// The command written to a new terminal to move it to `dir`.
pub fn cd_command(dir: &str, windows: bool) -> (r: String)
    ensures
        r@ == cd_command_text(dir@, windows),
{
    let d = chars_of(dir);
    let head = chars_of("cd '");
    if windows {
        let body = replace_chars(d.as_slice(), '\'', chars_of("''").as_slice());
        let t = concat_chars(head.as_slice(), body.as_slice());
        string_of(concat_chars(t.as_slice(), chars_of("'; Clear-Host\r\n").as_slice()).as_slice())
    } else {
        let body = replace_chars(d.as_slice(), '\'', chars_of("\\'").as_slice());
        let t = concat_chars(head.as_slice(), body.as_slice());
        string_of(concat_chars(t.as_slice(), chars_of("'; clear\r\n").as_slice()).as_slice())
    }
}

/// The write times after removing the entry of each of `ids`, in order.
pub open spec fn without_keys(w: Seq<(Seq<char>, u64)>, ids: Seq<Seq<char>>) -> Seq<(Seq<char>, u64)>
    decreases ids.len(),
{
    if ids.len() == 0 {
        w
    } else {
        keyed_remove(without_keys(w, ids.drop_last()), ids.last())
    }
}

/// A pane's content write at `t` is due for saving at `now`: two seconds
/// have passed, or the clock has gone back.
pub open spec fn write_due(t: u64, now: u64) -> bool {
    now < t || now - t >= 2
}

/// A restored non-terminal pane: keeps its saved id, size, group, content,
/// URL and pin; its type is `pane_type`.
pub open spec fn restored_view(info: PaneInfoView, pane_type: Seq<char>) -> PaneView {
    PaneView {
        id: info.id,
        pid: 0,
        shell: pane_type,
        name: info.name,
        cols: info.cols,
        rows: info.rows,
        buffer: Seq::empty(),
        group_id: info.group_id,
        cwd: None,
        pane_type,
        note_content: info.note_content,
        whiteboard_data: info.whiteboard_data,
        image_data: info.image_data,
        url: info.url,
        pinned: info.pinned,
    }
}

/// A terminal pane respawned for a saved one under a new id and process:
/// keeps the saved shell, size, name, group, working directory and pin.
pub open spec fn respawned_view(info: PaneInfoView, pane_id: Seq<char>, pid: u32) -> PaneView {
    PaneView {
        id: pane_id,
        pid,
        shell: info.shell,
        name: info.name,
        cols: info.cols,
        rows: info.rows,
        buffer: Seq::empty(),
        group_id: info.group_id,
        cwd: info.cwd,
        pane_type: "terminal"@,
        note_content: None,
        whiteboard_data: None,
        image_data: None,
        url: None,
        pinned: info.pinned,
    }
}

/// The pane restored from a saved non-terminal pane of type `pane_type`.
pub fn restored_non_terminal_pane(info: &PaneInfo, pane_type: &str) -> (p: Pane)
    ensures
        p@ == restored_view(info@, pane_type@),
{
    let mut pane = Pane::new_non_terminal(pane_type, info.name.as_str());
    pane.id = info.id.clone();
    pane.cols = info.cols;
    pane.rows = info.rows;
    pane.group_id = clone_opt(&info.group_id);
    pane.note_content = clone_opt(&info.note_content);
    pane.whiteboard_data = clone_opt(&info.whiteboard_data);
    pane.image_data = clone_opt(&info.image_data);
    pane.url = clone_opt(&info.url);
    pane.pinned = info.pinned;
    assert(pane@.buffer =~= Seq::empty());
    pane
}

/// The terminal pane that replaces a saved one, after its shell was
/// respawned as `pane_id` with process `pid`.
pub fn respawned_terminal_pane(info: &PaneInfo, pane_id: String, pid: u32) -> (p: Pane)
    ensures
        p@ == respawned_view(info@, pane_id@, pid),
{
    let mut pane = Pane::new(pid, info.shell.clone(), info.cols, info.rows);
    pane.id = pane_id;
    pane.name = info.name.clone();
    pane.group_id = clone_opt(&info.group_id);
    pane.cwd = clone_opt(&info.cwd);
    pane.pinned = info.pinned;
    assert(pane@.buffer =~= Seq::empty());
    pane
}

/// The groups after storing each of `infos` in order, a later record with
/// an id replacing an earlier one.
pub open spec fn groups_from(infos: Seq<GroupView>) -> Seq<GroupView>
    decreases infos.len(),
{
    if infos.len() == 0 {
        Seq::empty()
    } else {
        let gs = groups_from(infos.drop_last());
        let g = infos.last();
        let k = first_index(group_ids(gs), g.id);
        if k < gs.len() {
            gs.update(k as int, g)
        } else {
            gs.push(g)
        }
    }
}

impl AppState {
    /// The session record to save: pane records, layout and groups.
    pub fn session_state(&self) -> (s: SessionState)
        ensures
            pane_infos_view(s.panes@) == self.panes_v().map_values(|p: PaneView| pane_info_of(p)),
            strs_view(s.active_panes@) == self.active_v(),
            strs_view(s.floating_panes@) == self.floating_v(),
            group_infos_view(s.groups@) == self.groups_v(),
    {
        SessionState {
            panes: self.get_panes_info(),
            active_panes: self.get_active_panes(),
            floating_panes: self.get_floating_panes(),
            groups: self.get_all_groups(),
        }
    }

    /// Takes the layout and groups of a saved session (before its panes are restored).
    pub fn load_layout(&mut self, session: &SessionState)
        requires
            old(self).wf(),
            old(self).groups@.len() == 0,
        ensures
            final(self).wf(),
            final(self).active_v() == strs_view(session.active_panes@),
            final(self).floating_v() == strs_view(session.floating_panes@),
            final(self).groups_v() == groups_from(group_infos_view(session.groups@)),
            final(self).panes == old(self).panes,
            final(self).connected_devices == old(self).connected_devices,
            final(self).security == old(self).security,
            final(self).same_settings(old(self)),
    {
        self.active_panes = clone_strings(&session.active_panes);
        self.floating_panes = clone_strings(&session.floating_panes);
        let ghost infos = group_infos_view(session.groups@);
        let mut i: usize = 0;
        assert(self.groups_v() =~= groups_from(infos.take(0)));
        while i < session.groups.len()
            invariant
                i <= session.groups@.len(),
                infos == group_infos_view(session.groups@),
                self.wf(),
                self.groups_v() == groups_from(infos.take(i as int)),
                self.active_v() == strs_view(session.active_panes@),
                self.floating_v() == strs_view(session.floating_panes@),
                self.panes == old(self).panes,
                self.connected_devices == old(self).connected_devices,
                self.security == old(self).security,
                self.same_settings(old(self)),
            decreases session.groups@.len() - i,
        {
            assert(infos.take(i + 1).drop_last() =~= infos.take(i as int));
            let g = &session.groups[i];
            self.add_group(PaneGroup { id: g.id.clone(), name: g.name.clone(), color: g.color.clone() });
            i = i + 1;
        }
        assert(infos.take(session.groups@.len() as int) =~= infos);
    }

    /// Stores a restored pane, recording that the saved pane `saved_id` is now `pane`.
    pub fn record_restored(&mut self, restore: &mut SessionRestore, saved_id: &str, pane: Pane)
        requires
            old(self).wf(),
        ensures
            final(self).wf(),
            final(self).panes_v() == insert_pane(old(self).panes_v(), pane@),
            pairs_view(final(restore).pane_id_map@) == pairs_view(old(restore).pane_id_map@).push(
                (saved_id@, pane@.id),
            ),
            strs_view(final(restore).restored_pane_order@) == strs_view(
                old(restore).restored_pane_order@,
            ).push(pane@.id),
            final(self).active_panes == old(self).active_panes,
            final(self).floating_panes == old(self).floating_panes,
            final(self).same_but_panes(old(self)),
    {
        let ghost ps = self.panes_v();
        let id = pane.id.clone();
        let k = find_pane(&self.panes, id.as_str());
        proof {
            lemma_first_index(pane_ids(ps), pane@.id);
        }
        if k < self.panes.len() {
            self.replace_pane(k, pane);
        } else {
            self.panes.push(pane);
            assert(self.panes_v() =~= ps.push(pane@));
            assert(pane_ids(self.panes_v()) =~= pane_ids(ps).push(pane@.id));
            proof {
                lemma_push_no_duplicates(pane_ids(ps), pane@.id);
            }
        }
        let ghost m = pairs_view(restore.pane_id_map@);
        let ghost o = strs_view(restore.restored_pane_order@);
        restore.pane_id_map.push((owned(saved_id), id.clone()));
        restore.restored_pane_order.push(id);
        assert(pairs_view(restore.pane_id_map@) =~= m.push((saved_id@, pane@.id)));
        assert(strs_view(restore.restored_pane_order@) =~= o.push(pane@.id));
    }

    /// The ids of all panes.
    pub fn pane_id_list(&self) -> (r: Vec<String>)
        ensures
            strs_view(r@) == pane_ids(self.panes_v()),
    {
        let mut r: Vec<String> = Vec::new();
        let mut i: usize = 0;
        while i < self.panes.len()
            invariant
                i <= self.panes@.len(),
                r@.len() == i,
                forall|k: int| 0 <= k < i ==> #[trigger] r@[k]@ == self.panes@[k]@.id,
            decreases self.panes@.len() - i,
        {
            r.push(self.panes[i].id.clone());
            i = i + 1;
        }
        assert(strs_view(r@) =~= pane_ids(self.panes_v()));
        r
    }

    /// Once the saved panes are restored: when any was, the saved layout is
    /// remapped to the new ids (dropping ids of panes that are gone), and when
    /// that leaves the layout empty, all restored panes go to the grid in
    /// restore order. Returns whether the session should be saved (any pane restored).
    pub fn finish_restore(&mut self, restore: &SessionRestore) -> (save: bool)
        requires
            old(self).wf(),
        ensures
            final(self).wf(),
            save == (restore.restored_pane_order@.len() > 0),
            !save ==> final(self).active_panes == old(self).active_panes
                && final(self).floating_panes == old(self).floating_panes,
            save ==> {
                let existing = pane_ids(old(self).panes_v());
                let m = pairs_view(restore.pane_id_map@);
                let a = remapped_ids(old(self).active_v(), m, existing);
                let f = remapped_ids(old(self).floating_v(), m, existing);
                &&& final(self).floating_v() == f
                &&& final(self).active_v() == if a.len() == 0 && f.len() == 0 {
                    strs_view(restore.restored_pane_order@)
                } else {
                    a
                }
            },
            final(self).panes == old(self).panes,
            final(self).same_but_panes(old(self)),
    {
        if restore.restored_pane_order.len() == 0 {
            return false;
        }
        let existing = self.pane_id_list();
        let mut active = remap_saved_pane_ids(
            self.active_panes.as_slice(),
            &restore.pane_id_map,
            &existing,
        );
        let floating = remap_saved_pane_ids(
            self.floating_panes.as_slice(),
            &restore.pane_id_map,
            &existing,
        );
        if active.len() == 0 && floating.len() == 0 {
            active = clone_strings(&restore.restored_pane_order);
        }
        self.active_panes = active;
        self.floating_panes = floating;
        true
    }

    /// The panes whose last content write is due for saving at `now`.
    pub fn panes_due_for_flush(&self, now: u64) -> (r: Vec<String>)
        ensures
            strs_view(r@) == write_times_view(self.last_write_time@).filter(
                |e: (Seq<char>, u64)| write_due(e.1, now),
            ).map_values(|e: (Seq<char>, u64)| e.0),
    {
        let ghost w = write_times_view(self.last_write_time@);
        let ghost due = |e: (Seq<char>, u64)| write_due(e.1, now);
        let mut r: Vec<String> = Vec::new();
        let mut i: usize = 0;
        while i < self.last_write_time.len()
            invariant
                i <= self.last_write_time@.len(),
                w == write_times_view(self.last_write_time@),
                due == (|e: (Seq<char>, u64)| write_due(e.1, now)),
                strs_view(r@) == w.take(i as int).filter(due).map_values(
                    |e: (Seq<char>, u64)| e.0,
                ),
            decreases self.last_write_time@.len() - i,
        {
            proof {
                reveal(Seq::filter);
                assert(w.take(i + 1).drop_last() =~= w.take(i as int));
                assert(w.take(i + 1).last() == w[i as int]);
            }
            let t = self.last_write_time[i].1;
            if now < t || now - t >= 2 {
                let ghost before = r@;
                r.push(self.last_write_time[i].0.clone());
                assert(strs_view(r@) =~= strs_view(before).push(w[i as int].0));
                assert(w.take(i + 1).filter(due) == w.take(i as int).filter(due).push(w[i as int]));
                assert(w.take(i + 1).filter(due).map_values(|e: (Seq<char>, u64)| e.0) =~= w.take(
                    i as int,
                ).filter(due).map_values(|e: (Seq<char>, u64)| e.0).push(w[i as int].0));
            }
            i = i + 1;
        }
        assert(w.take(w.len() as int) =~= w);
        r
    }

    /// Forgets the write times of the given panes (after their save).
    pub fn clear_flushed(&mut self, pane_ids: &Vec<String>)
        requires
            old(self).wf(),
        ensures
            final(self).wf(),
            write_times_view(final(self).last_write_time@) == without_keys(
                write_times_view(old(self).last_write_time@),
                strs_view(pane_ids@),
            ),
            final(self).panes == old(self).panes,
            final(self).active_panes == old(self).active_panes,
            final(self).floating_panes == old(self).floating_panes,
            final(self).same_but_panes_except_writes(old(self)),
    {
        let ghost w0 = write_times_view(self.last_write_time@);
        let ghost ids = strs_view(pane_ids@);
        let mut i: usize = 0;
        while i < pane_ids.len()
            invariant
                i <= pane_ids@.len(),
                ids == strs_view(pane_ids@),
                self.wf(),
                write_times_view(self.last_write_time@) == without_keys(w0, ids.take(i as int)),
                self.panes == old(self).panes,
                self.active_panes == old(self).active_panes,
                self.floating_panes == old(self).floating_panes,
                self.same_but_panes_except_writes(old(self)),
            decreases pane_ids@.len() - i,
        {
            assert(ids.take(i + 1).drop_last() =~= ids.take(i as int));
            let ghost w = write_times_view(self.last_write_time@);
            let k = find_write_key(&self.last_write_time, pane_ids[i].as_str());
            proof {
                lemma_first_index(keys_of(w), ids[i as int]);
            }
            if k < self.last_write_time.len() {
                self.last_write_time.remove(k);
                assert(write_times_view(self.last_write_time@) =~= w.remove(k as int));
                assert(keys_of(write_times_view(self.last_write_time@)) =~= keys_of(w).remove(
                    k as int,
                ));
                proof {
                    lemma_remove_no_duplicates(keys_of(w), k as int);
                }
            }
            i = i + 1;
        }
        assert(ids.take(pane_ids@.len() as int) =~= ids);
    }

    /// Everything but the write times is as in `other`.
    pub open spec fn same_but_panes_except_writes(&self, other: &AppState) -> bool {
        &&& self.authenticated == other.authenticated
        &&& self.auth_token == other.auth_token
        &&& self.frontend_url == other.frontend_url
        &&& self.tunnel_url == other.tunnel_url
        &&& self.groups == other.groups
        &&& self.cold_start_dir == other.cold_start_dir
        &&& self.connected_devices == other.connected_devices
        &&& self.security == other.security
        &&& self.preview_sessions == other.preview_sessions
        &&& self.notification_current == other.notification_current
        &&& self.notification_history == other.notification_history
    }

    /// Adds a newly spawned terminal pane (`pane_id`, process `pid`) of the
    /// given size, in directory `dir` when one is given, and puts it in the grid.
    pub fn add_spawned_pane(
        &mut self,
        pane_id: String,
        pid: u32,
        shell: String,
        cols: u16,
        rows: u16,
        dir: Option<&str>,
    )
        requires
            old(self).wf(),
        ensures
            final(self).wf(),
            final(self).panes_v() == insert_pane(
                old(self).panes_v(),
                PaneView {
                    id: pane_id@,
                    pid,
                    shell: shell@,
                    name: terminal_name(shell@, pid),
                    cols,
                    rows,
                    buffer: Seq::empty(),
                    group_id: None,
                    cwd: match dir {
                        Some(d) => Some(d@),
                        None => None,
                    },
                    pane_type: "terminal"@,
                    note_content: None,
                    whiteboard_data: None,
                    image_data: None,
                    url: None,
                    pinned: false,
                },
            ),
            final(self).active_v() == if old(self).active_v().contains(pane_id@) {
                old(self).active_v()
            } else {
                old(self).active_v().push(pane_id@)
            },
            final(self).floating_panes == old(self).floating_panes,
            final(self).same_but_panes(old(self)),
    {
        let mut pane = Pane::new(pid, shell, cols, rows);
        pane.id = pane_id;
        pane.cwd = match dir {
            Some(d) => Some(owned(d)),
            None => None,
        };
        assert(pane@.buffer =~= Seq::empty());
        self.add_pane(pane);
    }
}

} // verus!

verus! {

/// Pushing an absent element keeps a list of ports free of duplicates.
pub proof fn lemma_push_no_duplicates_u16(ids: Seq<u16>, k: u16)
    requires
        ids.no_duplicates(),
        !ids.contains(k),
    ensures
        ids.push(k).no_duplicates(),
{
    assert forall|a: int, b: int|
        0 <= a < ids.push(k).len() && 0 <= b < ids.push(k).len() && a != b implies ids.push(k)[a]
        != ids.push(k)[b] by {
        if a == ids.len() {
            assert(ids[b] != k);
        } else if b == ids.len() {
            assert(ids[a] != k);
        }
    }
}

} // verus!
