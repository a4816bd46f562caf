//! The decisions around a terminal's process: which shell to start, what its
//! output becomes, and what its exit does to the layout.
use vstd::prelude::*;
use crate::bindings::{lossy_decode, utf8_lossy};
use crate::messages::ServerMessage;
use crate::protocol::is_state_update;
use crate::state::{AppState, delete_pane, lookup_pane};
use crate::text::{chars_of, concat_chars, owned, string_of};

verus! {

/// The program a terminal runs: the requested shell, or `powershell.exe`
/// when none was named.
pub fn shell_program(shell: &str) -> (r: String)
    ensures
        r@ == if shell@.len() == 0 {
            "powershell.exe"@
        } else {
            shell@
        },
{
    if chars_of(shell).len() == 0 {
        owned("powershell.exe")
    } else {
        owned(shell)
    }
}

/// The event carrying a chunk a terminal printed, decoded as UTF-8 (lossily).
pub fn pty_output(pane_id: &str, data: &[u8]) -> (m: ServerMessage)
    ensures
        m matches ServerMessage::Output { pane_id: p, data: d } && p@ == pane_id@ && d@ == lossy_decode(
            data@,
        ),
{
    ServerMessage::Output { pane_id: owned(pane_id), data: utf8_lossy(data) }
}

impl AppState {
    /// A terminal's process ended: its pane leaves the state, and the new
    /// layout is returned for broadcast.
    pub fn pane_exited(&mut self, pane_id: &str) -> (m: ServerMessage)
        requires
            old(self).wf(),
        ensures
            final(self).wf(),
            final(self).panes_v() == delete_pane(old(self).panes_v(), pane_id@),
            lookup_pane(final(self).panes_v(), pane_id@) is None,
            final(self).active_v() == old(self).active_v().filter(|x: Seq<char>| x != pane_id@),
            final(self).floating_v() == old(self).floating_v().filter(|x: Seq<char>| x != pane_id@),
            final(self).same_but_panes(old(self)),
            is_state_update(m, *final(self)),
    {
        let _ = self.remove_pane(pane_id);
        proof {
            crate::laws::law_remove_then_get(old(self).panes_v(), pane_id@);
        }
        self.state_update()
    }
}

/// `a` followed by `b`.
fn joined(a: &str, b: &str) -> (r: String)
    ensures
        r@ == a@ + b@,
{
    string_of(concat_chars(chars_of(a).as_slice(), chars_of(b).as_slice()).as_slice())
}

/// The event after trying to end process `pid`: `Ok(true)` when the kill
/// command succeeded, `Ok(false)` when it ran and failed, `Err` with the
/// reason when it could not run.
pub fn kill_result_message(pid: u32, outcome: Result<bool, String>) -> (m: ServerMessage)
    ensures
        m matches ServerMessage::ProcessKilled { pid: p, success, message } && p == pid && match outcome {
            Ok(true) => success && message@ == "Process killed"@,
            Ok(false) => !success && message@ == "Failed to kill process"@,
            Err(e) => !success && message == e,
        },
{
    match outcome {
        Ok(true) => ServerMessage::ProcessKilled { pid, success: true, message: owned("Process killed") },
        Ok(false) => ServerMessage::ProcessKilled {
            pid,
            success: false,
            message: owned("Failed to kill process"),
        },
        Err(e) => ServerMessage::ProcessKilled { pid, success: false, message: e },
    }
}

/// The notice after asking the host to open `url` in a browser: `Err` holds
/// the reason it failed.
pub fn browser_opened_message(url: &str, outcome: Result<(), String>) -> (m: ServerMessage)
    ensures
        m matches ServerMessage::Error { message } && match outcome {
            Ok(()) => message@ == "Opened "@ + url@ + " in browser"@,
            Err(e) => message@ == "Failed to open browser: "@ + e@,
        },
{
    match outcome {
        Ok(()) => ServerMessage::Error { message: joined(joined("Opened ", url).as_str(), " in browser") },
        Err(e) => ServerMessage::Error { message: joined("Failed to open browser: ", e.as_str()) },
    }
}

/// The error broadcast when a terminal could not be started in `dir`.
pub fn spawn_failed_message(dir: &str, reason: &str) -> (m: ServerMessage)
    ensures
        m matches ServerMessage::Error { message } && message@ == "Failed to spawn terminal at "@
            + dir@ + ": "@ + reason@,
{
    ServerMessage::Error {
        message: joined(joined(joined("Failed to spawn terminal at ", dir).as_str(), ": ").as_str(), reason),
    }
}

} // verus!
