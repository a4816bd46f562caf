//! Reading `netstat -ano -p TCP` output into the development ports that are
//! listening and the processes behind them.
use vstd::prelude::*;
use crate::bindings::utf8_lossy;
use crate::git::{stdout_text, CommandOutput};
use crate::messages::PortProcess;
use crate::text::{
    chars_of, decimal, lines, parse_u16, parse_u32, parsed_unsigned, push_decimal,
    slice_chars, split_lines, split_whitespace, string_of, words,
};

verus! {

/// The position of the last `c` in `s`, if any.
pub open spec fn last_index_of(s: Seq<char>, c: char) -> Option<int>
    decreases s.len(),
{
    if s.len() == 0 {
        None
    } else if s.last() == c {
        Some(s.len() - 1)
    } else {
        last_index_of(s.drop_last(), c)
    }
}

/// The port and process of a `netstat -ano` line in the LISTENING state:
/// at least five words, the fourth `LISTENING`, the second an address whose
/// text after the last `:` is a `u16`, the fifth a `u32`.
pub open spec fn listening_entry(line: Seq<char>) -> Option<(u16, u32)> {
    let ps = words(line);
    if ps.len() >= 5 && ps[3] == "LISTENING"@ {
        match last_index_of(ps[1], ':') {
            Some(k) => match (parsed_unsigned(ps[1].skip(k + 1)), parsed_unsigned(ps[4])) {
                (Some(port), Some(pid)) => if port <= 0xFFFF && pid <= 0xFFFF_FFFF {
                    Some((port as u16, pid as u32))
                } else {
                    None
                },
                _ => None,
            },
            None => None,
        }
    } else {
        None
    }
}

/// A development port: above the system range and below the ephemeral range.
pub open spec fn is_dev_port(port: u16) -> bool {
    1024 < port <= 49151
}

/// The listening development ports of `ls`, with their processes, each port
/// once (its first line), in line order.
pub open spec fn port_entries(ls: Seq<Seq<char>>) -> Seq<(u16, u32)>
    decreases ls.len(),
{
    if ls.len() == 0 {
        Seq::empty()
    } else {
        let prev = port_entries(ls.drop_last());
        match listening_entry(ls.last()) {
            Some(e) => if is_dev_port(e.0) && !prev.map_values(|x: (u16, u32)| x.0).contains(e.0) {
                prev.push(e)
            } else {
                prev
            },
            None => prev,
        }
    }
}

/// The name shown for a process: `PID:<pid>`.
pub open spec fn process_label(pid: u32) -> Seq<char> {
    "PID:"@ + decimal(pid as nat)
}

/// The position of the last `c` in `s`.
fn rfind_char(s: &[char], c: char) -> (r: Option<usize>)
    ensures
        match r {
            Some(k) => last_index_of(s@, c) == Some(k as int) && k < s@.len(),
            None => last_index_of(s@, c) is None,
        },
{
    let mut j: usize = s.len();
    assert(s@.take(j as int) =~= s@);
    while j > 0
        invariant
            j <= s@.len(),
            last_index_of(s@, c) == last_index_of(s@.take(j as int), c),
        decreases j,
    {
        assert(s@.take(j as int).drop_last() =~= s@.take(j - 1));
        if s[j - 1] == c {
            return Some(j - 1);
        }
        j = j - 1;
    }
    None
}

/// The listening entry of one line.
fn line_entry(line: &[char]) -> (r: Option<(u16, u32)>)
    ensures
        r == listening_entry(line@),
{
    let ps = split_whitespace(line);
    let ghost pv = ps@.map_values(|w: Vec<char>| w@);
    if ps.len() < 5 {
        return None;
    }
    assert(pv[3] == ps@[3]@ && pv[1] == ps@[1]@ && pv[4] == ps@[4]@);
    let listening = chars_of("LISTENING");
    if !crate::text::matches_at(ps[3].as_slice(), listening.as_slice(), 0) || ps[3].len() != listening.len() {
        proof {
            if pv[3] == "LISTENING"@ {
                assert(ps@[3]@.subrange(0, listening@.len() as int) =~= listening@);
            }
        }
        return None;
    }
    assert(ps@[3]@ =~= "LISTENING"@) by {
        assert(ps@[3]@.subrange(0, listening@.len() as int) =~= ps@[3]@);
    }
    let local = &ps[1];
    match rfind_char(local.as_slice(), ':') {
        Some(k) => {
            assert(k < local@.len());
            assert(local@.len() == local.len());
            let tail = slice_chars(local.as_slice(), k + 1, local.len());
            assert(tail@ =~= local@.skip(k + 1));
            match (parse_u16(tail.as_slice()), parse_u32(ps[4].as_slice())) {
                (Some(port), Some(pid)) => Some((port, pid)),
                _ => None,
            }
        },
        None => None,
    }
}

/// `s` ordered by port: each entry of `s` appears in it, ports increasing.
pub open spec fn sorted_by_port(r: Seq<(u16, u32)>, s: Seq<(u16, u32)>) -> bool {
    &&& r.len() == s.len()
    &&& forall|a: int, b: int| 0 <= a < b < r.len() ==> r[a].0 < r[b].0
    &&& forall|e: (u16, u32)| r.contains(e) <==> s.contains(e)
}

/// Inserts `e` into `v`, whose ports increase and do not include `e`'s.
fn insert_by_port(v: &mut Vec<(u16, u32)>, e: (u16, u32))
    requires
        forall|a: int, b: int| 0 <= a < b < old(v)@.len() ==> old(v)@[a].0 < old(v)@[b].0,
        forall|a: int| 0 <= a < old(v)@.len() ==> old(v)@[a].0 != e.0,
    ensures
        final(v)@.len() == old(v)@.len() + 1,
        forall|a: int, b: int| 0 <= a < b < final(v)@.len() ==> final(v)@[a].0 < final(v)@[b].0,
        forall|x: (u16, u32)| final(v)@.contains(x) <==> (old(v)@.contains(x) || x == e),
{
    let mut k: usize = 0;
    while k < v.len() && v[k].0 < e.0
        invariant
            k <= v@.len(),
            v@ == old(v)@,
            forall|a: int| 0 <= a < k ==> v@[a].0 < e.0,
        decreases v@.len() - k,
    {
        k = k + 1;
    }
    let ghost old_v = v@;
    assert(old_v == old(v)@);
    v.insert(k, e);
    assert(v@ =~= old_v.insert(k as int, e));
    assert forall|x: (u16, u32)| v@.contains(x) <==> (old_v.contains(x) || x == e) by {
        if v@.contains(x) {
            let j = choose|j: int| 0 <= j < v@.len() && v@[j] == x;
            if j < k {
                assert(old_v[j] == x);
            } else if j > k {
                assert(old_v[j - 1] == x);
            }
        }
        if old_v.contains(x) {
            let j = choose|j: int| 0 <= j < old_v.len() && old_v[j] == x;
            if j < k {
                assert(v@[j] == x);
            } else {
                assert(v@[j + 1] == x);
            }
        }
        if x == e {
            assert(v@[k as int] == e);
        }
    }
    assert(forall|x: (u16, u32)| v@.contains(x) <==> (old(v)@.contains(x) || x == e));
}

/// The listening development ports and their processes, from the output of
/// `netstat -ano -p TCP` (none when it did not run or failed): one entry per
/// port, ordered by port, named `PID:<pid>`, without a working directory.
pub fn run_get_port_processes(netstat: &Option<CommandOutput>) -> (r: Vec<PortProcess>)
    ensures
        ({
            let entries = match *netstat {
                Some(o) => if o.success {
                    port_entries(lines(stdout_text(o)))
                } else {
                    Seq::empty()
                },
                None => Seq::empty(),
            };
            &&& sorted_by_port(r@.map_values(|p: PortProcess| (p.port, p.pid)), entries)
            &&& forall|i: int|
                0 <= i < r@.len() ==> (#[trigger] r@[i]).process_name@ == process_label(r@[i].pid)
                    && r@[i].cwd is None
        }),
{
    let mut sorted: Vec<(u16, u32)> = Vec::new();
    let ghost mut entries: Seq<(u16, u32)> = Seq::empty();
    match netstat {
        Some(o) => {
            if o.success {
                let text = utf8_lossy(o.stdout.as_slice());
                let ls = split_lines(chars_of(text.as_str()).as_slice());
                let ghost lv = ls@.map_values(|w: Vec<char>| w@);
                let mut i: usize = 0;
                while i < ls.len()
                    invariant
                        i <= ls@.len(),
                        lv == ls@.map_values(|w: Vec<char>| w@),
                        sorted_by_port(sorted@, port_entries(lv.take(i as int))),
                        port_entries(lv.take(i as int)).map_values(|x: (u16, u32)| x.0).no_duplicates(),
                    decreases ls@.len() - i,
                {
                    let ghost prev = port_entries(lv.take(i as int));
                    assert(lv.take(i + 1).drop_last() =~= lv.take(i as int));
                    assert(lv.take(i + 1).last() == ls@[i as int]@);
                    match line_entry(ls[i].as_slice()) {
                        Some(e) => {
                            let port = e.0;
                            if 1024 < port && port <= 49151 {
                                let mut seen = false;
                                let mut k: usize = 0;
                                while k < sorted.len()
                                    invariant_except_break
                                        !seen,
                                    invariant
                                        k <= sorted@.len(),
                                        forall|a: int| 0 <= a < k ==> sorted@[a].0 != port,
                                    ensures
                                        seen ==> k < sorted@.len() && sorted@[k as int].0 == port,
                                        !seen ==> forall|a: int| 0 <= a < sorted@.len() ==> sorted@[a].0 != port,
                                    decreases sorted@.len() - k,
                                {
                                    if sorted[k].0 == port {
                                        seen = true;
                                        break;
                                    }
                                    k = k + 1;
                                }
                                let ghost ports = prev.map_values(|x: (u16, u32)| x.0);
                                proof {
                                    if seen {
                                        assert(sorted@.contains(sorted@[k as int]));
                                        assert(prev.contains(sorted@[k as int]));
                                        let j = choose|j: int| 0 <= j < prev.len() && prev[j] == sorted@[k as int];
                                        assert(ports[j] == port);
                                    } else {
                                        assert(!ports.contains(port)) by {
                                            if ports.contains(port) {
                                                let j = choose|j: int| 0 <= j < ports.len() && ports[j] == port;
                                                assert(sorted@.contains(prev[j]));
                                                let a = choose|a: int| 0 <= a < sorted@.len() && sorted@[a] == prev[j];
                                                assert(sorted@[a].0 == port);
                                            }
                                        }
                                    }
                                }
                                if !seen {
                                    insert_by_port(&mut sorted, e);
                                    proof {
                                        crate::state::lemma_push_no_duplicates_u16(ports, port);
                                        assert(prev.push(e).map_values(|x: (u16, u32)| x.0) =~= ports.push(port));
                                        assert forall|x: (u16, u32)| sorted@.contains(x) <==> prev.push(e).contains(x) by {
                                            if prev.push(e).contains(x) {
                                                let j = choose|j: int| 0 <= j < prev.push(e).len() && prev.push(e)[j] == x;
                                                if j < prev.len() {
                                                    assert(prev.contains(x));
                                                }
                                            }
                                            if prev.contains(x) {
                                                let j = choose|j: int| 0 <= j < prev.len() && prev[j] == x;
                                                assert(prev.push(e)[j] == x);
                                            }
                                            if x == e {
                                                assert(prev.push(e)[prev.len() as int] == e);
                                            }
                                        }
                                    }
                                }
                            }
                        },
                        None => {},
                    }
                    i = i + 1;
                }
                assert(lv.take(ls@.len() as int) =~= lv);
                proof {
                    entries = port_entries(lv);
                }
            }
        },
        None => {},
    }
    let mut r: Vec<PortProcess> = Vec::new();
    let mut i: usize = 0;
    while i < sorted.len()
        invariant
            i <= sorted@.len(),
            r@.len() == i,
            forall|a: int|
                0 <= a < i ==> (#[trigger] r@[a]).port == sorted@[a].0 && r@[a].pid == sorted@[a].1
                    && r@[a].process_name@ == process_label(r@[a].pid) && r@[a].cwd is None,
        decreases sorted@.len() - i,
    {
        let (port, pid) = sorted[i];
        let mut name = chars_of("PID:");
        push_decimal(&mut name, pid as u64);
        r.push(PortProcess { port, pid, process_name: string_of(name.as_slice()), cwd: None });
        i = i + 1;
    }
    assert(r@.map_values(|p: PortProcess| (p.port, p.pid)) =~= sorted@);
    r
}

} // verus!
