//! Start-up and single-instance logic: command-line options, the generated
//! access token, and the commands another instance sends over IPC.
use vstd::prelude::*;
use crate::state::{AppState, DeviceView, close_latest_times, count_from_ip};
use crate::text::{
    chars_of, concat_chars, opt_view, owned, parse_u16, parsed_unsigned, slice_chars, starts_with_chars,
    str_eq, string_of, strs_view, trim, trim_chars,
};

verus! {

/// The first of `args` that starts with `prefix`, without the prefix.
pub open spec fn first_with_prefix(args: Seq<Seq<char>>, prefix: Seq<char>) -> Option<Seq<char>>
    decreases args.len(),
{
    if args.len() == 0 {
        None
    } else if prefix.len() <= args[0].len() && args[0].take(prefix.len() as int) == prefix {
        Some(args[0].skip(prefix.len() as int))
    } else {
        first_with_prefix(args.drop_first(), prefix)
    }
}

/// The value of option `--name`: the argument after the first `--name`
/// when there is one; else the rest of the first argument that starts with
/// `--name=`.
pub open spec fn option_value(args: Seq<Seq<char>>, name: Seq<char>) -> Option<Seq<char>> {
    let flag = "--"@ + name;
    let k: int = crate::state::first_index(args, flag) as int;
    if k + 1 < args.len() {
        Some(args[k + 1])
    } else {
        first_with_prefix(args, flag + "="@)
    }
}

/// The value of command-line option `--name` in `args`.
pub fn arg_value(args: &Vec<String>, name: &str) -> (r: Option<String>)
    ensures
        opt_view(r) == option_value(strs_view(args@), name@),
{
    let ghost av = strs_view(args@);
    let flag = concat_chars(chars_of("--").as_slice(), chars_of(name).as_slice());
    let flag_s = string_of(flag.as_slice());
    let mut k: usize = 0;
    assert(av.skip(0) =~= av);
    while k < args.len() && !str_eq(args[k].as_str(), flag_s.as_str())
        invariant
            k <= args@.len(),
            av == strs_view(args@),
            crate::state::first_index(av, flag_s@) == k + crate::state::first_index(
                av.skip(k as int),
                flag_s@,
            ),
        decreases args@.len() - k,
    {
        proof {
            assert(av.skip(k as int).drop_first() =~= av.skip(k + 1));
        }
        k = k + 1;
    }
    proof {
        if k < args@.len() {
            assert(av.skip(k as int)[0] == flag_s@);
        }
    }
    if k < args.len() && k + 1 < args.len() {
        return Some(args[k + 1].clone());
    }
    let prefix = concat_chars(flag.as_slice(), chars_of("=").as_slice());
    let mut i: usize = 0;
    assert(av.skip(0) =~= av);
    while i < args.len()
        invariant
            i <= args@.len(),
            av == strs_view(args@),
            first_with_prefix(av, prefix@) == first_with_prefix(av.skip(i as int), prefix@),
            flag_s@ == "--"@ + name@,
            prefix@ == flag_s@ + "="@,
            crate::state::first_index(av, flag_s@) + 1 >= av.len(),
        decreases args@.len() - i,
    {
        let a = chars_of(args[i].as_str());
        assert(av.skip(i as int)[0] == a@);
        assert(av.skip(i as int).drop_first() =~= av.skip(i + 1));
        if starts_with_chars(a.as_slice(), prefix.as_slice()) {
            let rest = slice_chars(a.as_slice(), prefix.len(), a.len());
            assert(rest@ =~= a@.skip(prefix@.len() as int));
            return Some(string_of(rest.as_slice()));
        }
        i = i + 1;
    }
    None
}

/// The characters an access token is drawn from.
pub open spec fn token_charset() -> Seq<char> {
    "abcdefghijklmnopqrstuvwxyz0123456789"@
}

/// One step of the token generator: `s * 1103515245 + 12345`, wrapping.
pub open spec fn lcg_next(s: u64) -> u64 {
    vstd::wrapping::u64_specs::wrapping_add(
        vstd::wrapping::u64_specs::wrapping_mul(s, 1103515245),
        12345,
    )
}

/// The generator state after `n` steps from `seed`.
pub open spec fn lcg_after(seed: u64, n: nat) -> u64
    decreases n,
{
    if n == 0 {
        seed
    } else {
        lcg_next(lcg_after(seed, (n - 1) as nat))
    }
}

/// The position in the charset of the character a generator state gives.
pub open spec fn token_index(s: u64) -> int {
    (((s >> 16u64) as usize) as nat % 36) as int
}

/// The six-character token derived from `seed`: character `k` comes from
/// the generator state after `k + 1` steps.
pub open spec fn token_for(seed: u64) -> Seq<char> {
    Seq::new(6, |k: int| token_charset()[token_index(lcg_after(seed, (k + 1) as nat))])
}

/// A 6-character alphanumeric token derived from `now_nanos` (the current
/// time in nanoseconds, which the caller reads). Not cryptographically random.
pub fn generate_token(now_nanos: u64) -> (token: String)
    ensures
        token@ == token_for(now_nanos),
        token@.len() == 6,
{
    let charset = chars_of("abcdefghijklmnopqrstuvwxyz0123456789");
    proof {
        reveal_strlit("abcdefghijklmnopqrstuvwxyz0123456789");
    }
    assert(charset@.len() == 36);
    let mut out: Vec<char> = Vec::new();
    let mut seed = now_nanos;
    let mut k: usize = 0;
    while k < 6
        invariant
            k <= 6,
            charset@ == token_charset(),
            charset@.len() == 36,
            seed == lcg_after(now_nanos, k as nat),
            out@.len() == k,
            forall|j: int| 0 <= j < k ==> out@[j] == token_for(now_nanos)[j],
        decreases 6 - k,
    {
        seed = seed.wrapping_mul(1103515245).wrapping_add(12345);
        let idx = ((seed >> 16) as usize) % 36;
        out.push(charset[idx]);
        k = k + 1;
    }
    assert(out@ =~= token_for(now_nanos));
    string_of(out.as_slice())
}

/// The port number given as text, as `str::parse::<u16>` reads it.
pub fn parse_port(text: &str) -> (r: Option<u16>)
    ensures
        match r {
            Some(p) => parsed_unsigned(text@) == Some(p as nat),
            None => !(parsed_unsigned(text@) matches Some(v) && v <= 0xFFFF),
        },
{
    parse_u16(chars_of(text).as_slice())
}

/// A command received from another instance over IPC.
pub enum IpcCommand {
    /// `ban-list`: list the banned addresses.
    BanList,
    /// `ban:<ip>`
    Ban(String),
    /// `unban:<ip>`
    Unban(String),
    /// `open_dir:<path>`: open a terminal there.
    OpenDir(String),
    /// Anything else (ignored).
    Unknown,
}

/// `t` starts with `p`; then the rest, trimmed.
pub open spec fn after_prefix(t: Seq<char>, p: Seq<char>) -> Option<Seq<char>> {
    if p.len() <= t.len() && t.take(p.len() as int) == p {
        Some(trim(t.skip(p.len() as int)))
    } else {
        None
    }
}

/// The command a line holds, once trimmed: exactly `ban-list`, or one of the
/// prefixes `ban:`, `unban:`, `open_dir:` with its trimmed argument.
pub open spec fn ipc_command_of(line: Seq<char>) -> (Seq<char>, Option<Seq<char>>) {
    let t = trim(line);
    if t == "ban-list"@ {
        ("ban-list"@, None)
    } else if after_prefix(t, "ban:"@) is Some {
        ("ban"@, after_prefix(t, "ban:"@))
    } else if after_prefix(t, "unban:"@) is Some {
        ("unban"@, after_prefix(t, "unban:"@))
    } else if after_prefix(t, "open_dir:"@) is Some {
        ("open_dir"@, after_prefix(t, "open_dir:"@))
    } else {
        ("unknown"@, None)
    }
}

/// `t` without prefix `p`, trimmed, when it starts with `p`.
fn strip_and_trim(t: &Vec<char>, p: &str) -> (r: Option<String>)
    ensures
        opt_view(r) == after_prefix(t@, p@),
{
    let pc = chars_of(p);
    if starts_with_chars(t.as_slice(), pc.as_slice()) {
        let rest = slice_chars(t.as_slice(), pc.len(), t.len());
        assert(rest@ =~= t@.skip(p@.len() as int));
        Some(string_of(trim_chars(rest.as_slice()).as_slice()))
    } else {
        None
    }
}

impl IpcCommand {
    /// The kind and argument of a command, as `ipc_command_of` names them.
    pub open spec fn spec_kind(self) -> (Seq<char>, Option<Seq<char>>) {
        match self {
            IpcCommand::BanList => ("ban-list"@, None),
            IpcCommand::Ban(ip) => ("ban"@, Some(ip@)),
            IpcCommand::Unban(ip) => ("unban"@, Some(ip@)),
            IpcCommand::OpenDir(p) => ("open_dir"@, Some(p@)),
            IpcCommand::Unknown => ("unknown"@, None),
        }
    }

    /// Reads the command in one received line.
    pub fn parse(line: &str) -> (c: IpcCommand)
        ensures
            c.spec_kind() == ipc_command_of(line@),
    {
        let t = trim_chars(chars_of(line).as_slice());
        if str_eq(string_of(t.as_slice()).as_str(), "ban-list") {
            return IpcCommand::BanList;
        }
        match strip_and_trim(&t, "ban:") {
            Some(ip) => {
                return IpcCommand::Ban(ip);
            },
            None => {},
        }
        match strip_and_trim(&t, "unban:") {
            Some(ip) => {
                return IpcCommand::Unban(ip);
            },
            None => {},
        }
        match strip_and_trim(&t, "open_dir:") {
            Some(p) => IpcCommand::OpenDir(p),
            None => IpcCommand::Unknown,
        }
    }
}

/// What handling an IPC command asks of the host.
pub struct IpcOutcome {
    /// Text to write back to the sender.
    pub reply: Option<String>,
    /// A directory to open a terminal in.
    pub open_dir: Option<String>,
    /// Whether the ban list and history must be saved.
    pub save_security: bool,
}

/// The lines of `ips` joined with newlines.
pub open spec fn joined_lines(ips: Seq<Seq<char>>) -> Seq<char>
    decreases ips.len(),
{
    if ips.len() == 0 {
        Seq::empty()
    } else if ips.len() == 1 {
        ips[0]
    } else {
        joined_lines(ips.drop_last()) + "\n"@ + ips.last()
    }
}

/// The reply to `ban-list`: the banned addresses one per line, or a note
/// that there are none; then a newline.
pub open spec fn ban_list_reply(ips: Seq<Seq<char>>) -> Seq<char> {
    (if ips.len() == 0 {
        "No banned IPs"@
    } else {
        joined_lines(ips)
    }) + "\n"@
}

fn join_lines(ips: &Vec<String>) -> (r: Vec<char>)
    ensures
        r@ == joined_lines(strs_view(ips@)),
{
    let ghost v = strs_view(ips@);
    let mut r: Vec<char> = Vec::new();
    let mut i: usize = 0;
    while i < ips.len()
        invariant
            i <= ips@.len(),
            v == strs_view(ips@),
            r@ == joined_lines(v.take(i as int)),
        decreases ips@.len() - i,
    {
        assert(v.take(i + 1).drop_last() =~= v.take(i as int));
        assert(v.take(i + 1).last() == ips@[i as int]@);
        if i == 0 {
            r = chars_of(ips[i].as_str());
            assert(v.take(1)[0] == ips@[0]@);
        } else {
            r = concat_chars(r.as_slice(), chars_of("\n").as_slice());
            r = concat_chars(r.as_slice(), chars_of(ips[i].as_str()).as_slice());
        }
        i = i + 1;
    }
    assert(v.take(ips@.len() as int) =~= v);
    r
}

impl AppState {
    /// Handles an IPC command at time `now`.
    pub fn handle_ipc_command(&mut self, cmd: IpcCommand, now: u64) -> (o: IpcOutcome)
        requires
            old(self).wf(),
        ensures
            final(self).wf(),
            match cmd {
                IpcCommand::BanList => {
                    &&& *final(self) == *old(self)
                    &&& opt_view(o.reply) == Some(ban_list_reply(old(self).security@.banned_ips))
                    &&& o.open_dir is None
                    &&& !o.save_security
                },
                IpcCommand::Ban(ip) => if old(self).security@.banned_ips.contains(ip@) {
                    &&& *final(self) == *old(self)
                    &&& opt_view(o.reply) == Some("IP already banned\n"@)
                    &&& o.open_dir is None
                    &&& !o.save_security
                } else {
                    &&& final(self).security@.banned_ips == old(self).security@.banned_ips.push(ip@)
                    &&& final(self).devices_v() == old(self).devices_v().filter(
                        |d: DeviceView| d.ip != ip@,
                    )
                    &&& final(self).security@.history == close_latest_times(
                        old(self).security@.history,
                        ip@,
                        now,
                        true,
                        count_from_ip(old(self).devices_v(), ip@),
                    )
                    &&& final(self).panes == old(self).panes
                    &&& final(self).active_panes == old(self).active_panes
                    &&& final(self).floating_panes == old(self).floating_panes
                    &&& final(self).groups == old(self).groups
                    &&& final(self).same_settings(old(self))
                    &&& opt_view(o.reply) == Some("IP banned successfully\n"@)
                    &&& o.open_dir is None
                    &&& o.save_security
                },
                IpcCommand::Unban(ip) => {
                    &&& final(self).security@.banned_ips == old(self).security@.banned_ips.filter(
                        |x: Seq<char>| x != ip@,
                    )
                    &&& final(self).security@.history == old(self).security@.history
                    &&& final(self).panes == old(self).panes
                    &&& final(self).active_panes == old(self).active_panes
                    &&& final(self).floating_panes == old(self).floating_panes
                    &&& final(self).groups == old(self).groups
                    &&& final(self).connected_devices == old(self).connected_devices
                    &&& final(self).same_settings(old(self))
                    &&& opt_view(o.reply) == Some(
                        if old(self).security@.banned_ips.contains(ip@) {
                            "IP unbanned successfully\n"@
                        } else {
                            "IP was not banned\n"@
                        },
                    )
                    &&& o.open_dir is None
                    &&& o.save_security == old(self).security@.banned_ips.contains(ip@)
                },
                IpcCommand::OpenDir(p) => {
                    &&& *final(self) == *old(self)
                    &&& o.reply is None
                    &&& opt_view(o.open_dir) == Some(p@)
                    &&& !o.save_security
                },
                IpcCommand::Unknown => {
                    &&& *final(self) == *old(self)
                    &&& o.reply is None
                    &&& o.open_dir is None
                    &&& !o.save_security
                },
            },
    {
        match cmd {
            IpcCommand::BanList => {
                let banned = self.get_banned_ips();
                let body = if banned.len() == 0 {
                    chars_of("No banned IPs")
                } else {
                    join_lines(&banned)
                };
                let text = concat_chars(body.as_slice(), chars_of("\n").as_slice());
                IpcOutcome { reply: Some(string_of(text.as_slice())), open_dir: None, save_security: false }
            },
            IpcCommand::Ban(ip) => {
                if self.is_ip_banned(ip.as_str()) {
                    IpcOutcome { reply: Some(owned("IP already banned\n")), open_dir: None, save_security: false }
                } else {
                    self.ban_ip(ip.as_str(), now);
                    IpcOutcome {
                        reply: Some(owned("IP banned successfully\n")),
                        open_dir: None,
                        save_security: true,
                    }
                }
            },
            IpcCommand::Unban(ip) => {
                if self.unban_ip(ip.as_str()) {
                    IpcOutcome {
                        reply: Some(owned("IP unbanned successfully\n")),
                        open_dir: None,
                        save_security: true,
                    }
                } else {
                    IpcOutcome { reply: Some(owned("IP was not banned\n")), open_dir: None, save_security: false }
                }
            },
            IpcCommand::OpenDir(p) => IpcOutcome { reply: None, open_dir: Some(p), save_security: false },
            IpcCommand::Unknown => IpcOutcome { reply: None, open_dir: None, save_security: false },
        }
    }
}

} // verus!
