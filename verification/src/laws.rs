//! Properties that hold across the library's operations, stated over the
//! models that the operations' contracts use.
use vstd::prelude::*;
use crate::cli::{token_charset, token_for, token_index};
use crate::bindings::{
    hex_digit_upper, is_unreserved_byte, lowercase, percent_encoded, percent_encoded_byte,
};
use crate::messages::{GroupView, NoticeView, PaneInfoView};
use crate::state::{
    HISTORY_LIMIT, HistoryView, close_latest, is_latest_open_from, is_open_from, MAX_BUFFER_SIZE, NOTIFICATION_HISTORY_LIMIT, PaneView,
    appended_buffer, delete_device, delete_pane, device_ids, final_banned, first_index, group_ids,
    current_after, device_label, groups_from, history_after, keyed_insert, keyed_remove, keys_of,
    notice_key, with_content, info_pane_type, insert_device, insert_group, insert_pane,
    is_non_terminal_type,
    lookup_device, lookup_group, pane_info_of, respawned_view, restored_view, DeviceView,
    lemma_first_index, lemma_remove_no_duplicates, lookup_pane, modify_pane, pair_lookup, pane_ids,
    remapped_ids, ungrouped, with_connection,
};
use crate::git::{
    count_pair, log_entry, nonempty_entries, oneline_entry, porcelain, scm_counts, scm_lists,
    splitn_char, CommitView, FileView,
};
use crate::text::{all_digits, char_index, digits_value, has_substring, is_ws, lines, word_len, words};
use crate::web::{host_only, is_local_host, proxy_decision};

verus! {

broadcast use vstd::seq_lib::group_filter_ensures;

/// Storing a pane and then looking up its id finds that pane.
pub proof fn law_add_then_get(ps: Seq<PaneView>, p: PaneView)
    requires
        pane_ids(ps).no_duplicates(),
    ensures
        lookup_pane(insert_pane(ps, p), p.id) == Some(p),
{
    let ids = pane_ids(ps);
    lemma_first_index(ids, p.id);
    let k = first_index(ids, p.id);
    let r = insert_pane(ps, p);
    if k < ps.len() {
        assert(r == ps.update(k as int, p));
        assert(pane_ids(r) =~= ids);
        assert(first_index(pane_ids(r), p.id) == k);
        assert(r[k as int] == p);
    } else {
        assert(r == ps.push(p));
        assert(pane_ids(r) =~= ids.push(p.id));
        lemma_first_index(pane_ids(r), p.id);
        assert(pane_ids(r)[ps.len() as int] == p.id);
        let f = first_index(pane_ids(r), p.id);
        if f < ps.len() {
            assert(pane_ids(r)[f as int] == ids[f as int]);
            assert(ids.contains(p.id));
        }
        assert(f == ps.len());
        assert(r[ps.len() as int] == p);
    }
}

/// Removing a pane and then looking up its id finds nothing.
pub proof fn law_remove_then_get(ps: Seq<PaneView>, id: Seq<char>)
    requires
        pane_ids(ps).no_duplicates(),
    ensures
        lookup_pane(delete_pane(ps, id), id) is None,
{
    let ids = pane_ids(ps);
    lemma_first_index(ids, id);
    let k = first_index(ids, id);
    if k < ps.len() {
        lemma_remove_no_duplicates(ids, k as int);
        assert(pane_ids(ps.remove(k as int)) =~= ids.remove(k as int));
    }
    lemma_first_index(pane_ids(delete_pane(ps, id)), id);
}

/// Removing a pane that was just added under a new id gives back the panes
/// as they were.
pub proof fn law_add_then_remove(ps: Seq<PaneView>, p: PaneView)
    requires
        pane_ids(ps).no_duplicates(),
        !pane_ids(ps).contains(p.id),
    ensures
        delete_pane(insert_pane(ps, p), p.id) == ps,
{
    let ids = pane_ids(ps);
    lemma_first_index(ids, p.id);
    let r = ps.push(p);
    assert(insert_pane(ps, p) == r);
    assert(pane_ids(r) =~= ids.push(p.id));
    lemma_first_index(pane_ids(r), p.id);
    assert(pane_ids(r)[ps.len() as int] == p.id);
    let f = first_index(pane_ids(r), p.id);
    if f < ps.len() {
        assert(pane_ids(r)[f as int] == ids[f as int]);
        assert(ids.contains(p.id));
    }
    assert(f == ps.len());
    assert(r.remove(ps.len() as int) =~= ps);
}

/// Renaming a pane that exists and then looking it up gives the new name,
/// with the rest of the pane unchanged.
pub proof fn law_rename_then_get(ps: Seq<PaneView>, id: Seq<char>, name: Seq<char>)
    requires
        pane_ids(ps).no_duplicates(),
        pane_ids(ps).contains(id),
    ensures
        lookup_pane(modify_pane(ps, id, |p: PaneView| PaneView { name: name, ..p }), id) == Some(
            PaneView { name: name, ..lookup_pane(ps, id)->0 },
        ),
{
    let ids = pane_ids(ps);
    lemma_first_index(ids, id);
    let r = modify_pane(ps, id, |p: PaneView| PaneView { name: name, ..p });
    assert(pane_ids(r) =~= ids);
}

/// A banned address is on the ban list, and banning it again changes nothing.
pub proof fn law_ban(banned: Seq<Seq<char>>, ip: Seq<char>)
    ensures
        final_banned(banned, ip).contains(ip),
        final_banned(final_banned(banned, ip), ip) == final_banned(banned, ip),
        forall|x: Seq<char>| banned.contains(x) ==> #[trigger] final_banned(banned, ip).contains(x),
{
    if !banned.contains(ip) {
        assert(banned.push(ip)[banned.len() as int] == ip);
        assert forall|x: Seq<char>| banned.contains(x) implies #[trigger] final_banned(
            banned,
            ip,
        ).contains(x) by {
            let i = choose|i: int| 0 <= i < banned.len() && banned[i] == x;
            assert(banned.push(ip)[i] == x);
        }
    }
}

/// An unbanned address is off the ban list, and every other banned address
/// stays on it.
pub proof fn law_unban(banned: Seq<Seq<char>>, ip: Seq<char>)
    ensures
        !banned.filter(|x: Seq<char>| x != ip).contains(ip),
        forall|x: Seq<char>|
            #![trigger banned.contains(x)]
            banned.contains(x) && x != ip ==> banned.filter(|y: Seq<char>| y != ip).contains(x),
{
    let f = |x: Seq<char>| x != ip;
    if banned.filter(f).contains(ip) {
        let i = choose|i: int| 0 <= i < banned.filter(f).len() && banned.filter(f)[i] == ip;
        assert(f(banned.filter(f)[i]));
    }
    assert forall|x: Seq<char>| #![trigger banned.contains(x)] banned.contains(x) && x != ip implies banned.filter(
        |y: Seq<char>| y != ip,
    ).contains(x) by {
        let i = choose|i: int| 0 <= i < banned.len() && banned[i] == x;
        banned.lemma_filter_contains(f, i);
    }
}

/// Banning and then unbanning an address leaves it off the ban list.
pub proof fn law_ban_then_unban(banned: Seq<Seq<char>>, ip: Seq<char>)
    ensures
        !final_banned(banned, ip).filter(|x: Seq<char>| x != ip).contains(ip),
{
    law_unban(final_banned(banned, ip), ip);
}

/// The connection history keeps at most `HISTORY_LIMIT` entries, and a new
/// connection is always its last entry.
pub proof fn law_history_bounded(h: Seq<HistoryView>, entry: HistoryView)
    requires
        h.len() <= HISTORY_LIMIT,
    ensures
        with_connection(h, entry).len() <= HISTORY_LIMIT,
        with_connection(h, entry).last() == entry,
{
}

/// The notification history keeps at most `NOTIFICATION_HISTORY_LIMIT` entries.
pub proof fn law_notification_history_bounded(h: Seq<NoticeView>, n: NoticeView)
    requires
        h.len() <= NOTIFICATION_HISTORY_LIMIT,
    ensures
        history_after(h, n).len() <= NOTIFICATION_HISTORY_LIMIT,
{
}

/// A pane's scrollback never exceeds `MAX_BUFFER_SIZE` bytes, and ends with
/// the data last appended when that fits.
pub proof fn law_buffer_bounded(buffer: Seq<u8>, data: Seq<u8>)
    ensures
        appended_buffer(buffer, data).len() <= MAX_BUFFER_SIZE,
        data.len() <= MAX_BUFFER_SIZE ==> appended_buffer(buffer, data).skip(
            appended_buffer(buffer, data).len() - data.len(),
        ) == data,
{
    if data.len() <= MAX_BUFFER_SIZE {
        let r = appended_buffer(buffer, data);
        assert(r.skip(r.len() - data.len()) =~= data);
    }
}

/// Remapped pane ids name existing panes only, each once.
pub proof fn law_remap_unique_existing(
    ids: Seq<Seq<char>>,
    m: Seq<(Seq<char>, Seq<char>)>,
    existing: Seq<Seq<char>>,
)
    ensures
        remapped_ids(ids, m, existing).no_duplicates(),
        forall|x: Seq<char>| #[trigger] remapped_ids(ids, m, existing).contains(x) ==> existing.contains(x),
    decreases ids.len(),
{
    if ids.len() > 0 {
        law_remap_unique_existing(ids.drop_last(), m, existing);
        let prev = remapped_ids(ids.drop_last(), m, existing);
        let r = match pair_lookup(m, ids.last()) {
            Some(v) => v,
            None => ids.last(),
        };
        if existing.contains(r) && !prev.contains(r) {
            crate::state::lemma_push_no_duplicates(prev, r);
            assert forall|x: Seq<char>| #[trigger] prev.push(r).contains(x) implies existing.contains(x) by {
                let i = choose|i: int| 0 <= i < prev.push(r).len() && prev.push(r)[i] == x;
                if i < prev.len() {
                    assert(prev[i] == x);
                    assert(prev.contains(x));
                } else {
                    assert(x == r);
                }
            }
        }
    }
}

/// Once a group is removed, no pane belongs to it.
pub proof fn law_removed_group_has_no_panes(ps: Seq<PaneView>, group_id: Seq<char>)
    ensures
        forall|i: int|
            #![trigger ps[i]]
            0 <= i < ps.len() ==> ps.map_values(|p: PaneView| ungrouped(p, group_id))[i].group_id != Some(
                group_id,
            ),
{
}

/// A pane moved to one side of the layout is there and not on the other.
pub proof fn law_move_sides(from: Seq<Seq<char>>, to: Seq<Seq<char>>, id: Seq<char>)
    ensures
        !from.filter(|x: Seq<char>| x != id).contains(id),
        (if to.contains(id) {
            to
        } else {
            to.push(id)
        }).contains(id),
{
    law_unban(from, id);
    if !to.contains(id) {
        assert(to.push(id)[to.len() as int] == id);
    }
}

/// An access token is six characters of the token alphabet.
pub proof fn law_token_alphabet(seed: u64)
    ensures
        token_for(seed).len() == 6,
        forall|k: int| 0 <= k < 6 ==> token_charset().contains(#[trigger] token_for(seed)[k]),
{
    assert(token_charset().len() == 36) by {
        reveal_strlit("abcdefghijklmnopqrstuvwxyz0123456789");
    }
    assert forall|k: int| 0 <= k < 6 implies token_charset().contains(#[trigger] token_for(seed)[k]) by {
        let s = crate::cli::lcg_after(seed, (k + 1) as nat);
        let idx = token_index(s);
        assert(0 <= idx < 36);
        assert(token_charset()[idx] == token_for(seed)[k]);
    }
}

/// The proxy only ever fetches from a local host.
pub proof fn law_proxy_only_local(target: Seq<char>)
    ensures
        proxy_decision(target) matches Ok((url, prefix, host_port)) ==> is_local_host(
            host_only(host_port),
        ),
{
}

/// Loading the groups of a saved session gives back the groups that were
/// saved: saving and then loading a session keeps its groups.
pub proof fn law_session_groups_roundtrip(gs: Seq<GroupView>)
    requires
        group_ids(gs).no_duplicates(),
    ensures
        groups_from(gs) == gs,
    decreases gs.len(),
{
    if gs.len() > 0 {
        let init = gs.drop_last();
        assert(group_ids(init) =~= group_ids(gs).drop_last());
        assert(group_ids(init).no_duplicates()) by {
            assert forall|a: int, b: int|
                0 <= a < group_ids(init).len() && 0 <= b < group_ids(init).len() && a != b implies group_ids(
                init,
            )[a] != group_ids(init)[b] by {
                assert(group_ids(init)[a] == group_ids(gs)[a]);
                assert(group_ids(init)[b] == group_ids(gs)[b]);
            }
        }
        law_session_groups_roundtrip(init);
        let g = gs.last();
        lemma_first_index(group_ids(init), g.id);
        let k = first_index(group_ids(init), g.id);
        if k < init.len() {
            assert(group_ids(gs)[k as int] == group_ids(gs)[gs.len() - 1]);
        }
        assert(init.push(g) =~= gs);
    }
}

/// A device that disconnected is no longer tracked.
pub proof fn law_disconnect_then_gone(ds: Seq<DeviceView>, id: Seq<char>)
    requires
        device_ids(ds).no_duplicates(),
    ensures
        lookup_device(delete_device(ds, id), id) is None,
{
    let ids = device_ids(ds);
    lemma_first_index(ids, id);
    let k = first_index(ids, id);
    if k < ds.len() {
        lemma_remove_no_duplicates(ids, k as int);
        assert(device_ids(ds.remove(k as int)) =~= ids.remove(k as int));
    }
    lemma_first_index(device_ids(delete_device(ds, id)), id);
}

/// Connecting a device under a new id and then disconnecting it gives back
/// the devices as they were.
pub proof fn law_connect_then_disconnect(ds: Seq<DeviceView>, d: DeviceView)
    requires
        !device_ids(ds).contains(d.id),
    ensures
        insert_device(ds, d) == ds.push(d),
        delete_device(insert_device(ds, d), d.id) == ds,
{
    let ids = device_ids(ds);
    lemma_first_index(ids, d.id);
    let r = ds.push(d);
    assert(device_ids(r) =~= ids.push(d.id));
    lemma_first_index(device_ids(r), d.id);
    assert(device_ids(r)[ds.len() as int] == d.id);
    let f = first_index(device_ids(r), d.id);
    if f < ds.len() {
        assert(device_ids(r)[f as int] == ids[f as int]);
        assert(ids.contains(d.id));
    }
    assert(f == ds.len());
    assert(r.remove(ds.len() as int) =~= ds);
}

/// Connecting a device keeps every device with another id, and the new
/// device is then tracked under its id.
pub proof fn law_connect_keeps_others(ds: Seq<DeviceView>, d: DeviceView)
    ensures
        forall|x: DeviceView| ds.contains(x) && x.id != d.id ==> insert_device(ds, d).contains(x),
        insert_device(ds, d).contains(d),
        lookup_device(insert_device(ds, d), d.id) == Some(d),
{
    let ids = device_ids(ds);
    lemma_first_index(ids, d.id);
    let k = first_index(ids, d.id);
    let r = insert_device(ds, d);
    assert forall|x: DeviceView| ds.contains(x) && x.id != d.id implies r.contains(x) by {
        let i = choose|i: int| 0 <= i < ds.len() && ds[i] == x;
        if k < ds.len() {
            assert(ids[k as int] == d.id);
            assert(i != k);
            assert(r[i] == x);
        } else {
            assert(r[i] == x);
        }
    }
    let j: int = if k < ds.len() { k as int } else { ds.len() as int };
    assert(r[j] == d);
    if k < ds.len() {
        assert(device_ids(r) =~= ids.update(k as int, d.id));
        assert(device_ids(r) =~= ids);
    } else {
        assert(device_ids(r) =~= ids.push(d.id));
    }
    lemma_first_index(device_ids(r), d.id);
    assert(device_ids(r)[j] == d.id);
    let f = first_index(device_ids(r), d.id);
    if f < j {
        assert(device_ids(r)[f as int] == ids[f as int]);
    }
    assert(f == j);
}

/// Banning an address disconnects every device connected from it and
/// keeps the others.
pub proof fn law_ban_drops_its_devices(ds: Seq<DeviceView>, ip: Seq<char>)
    ensures
        forall|d: DeviceView|
            #![trigger ds.contains(d)]
            ds.contains(d) ==> (ds.filter(|x: DeviceView| x.ip != ip).contains(d) <==> d.ip != ip),
{
    let f = |x: DeviceView| x.ip != ip;
    assert forall|d: DeviceView| #![trigger ds.contains(d)] ds.contains(d) implies (ds.filter(
        |x: DeviceView| x.ip != ip,
    ).contains(d) <==> d.ip != ip) by {
        let i = choose|i: int| 0 <= i < ds.len() && ds[i] == d;
        if d.ip != ip {
            ds.lemma_filter_contains(f, i);
        }
        if ds.filter(f).contains(d) {
            let j = choose|j: int| 0 <= j < ds.filter(f).len() && ds.filter(f)[j] == d;
            assert(f(ds.filter(f)[j]));
        }
    }
}

/// A character URL encoding writes: unreserved, `%`, or an uppercase
/// hexadecimal digit.
pub open spec fn is_query_safe(c: char) -> bool {
    ('0' <= c && c <= '9') || ('A' <= c && c <= 'Z') || ('a' <= c && c <= 'z') || c == '-' || c
        == '.' || c == '_' || c == '~' || c == '%'
}

/// URL-encoded text holds only query-safe characters, so the tunnel URL and
/// the token cannot break out of their query parameters in the launch URL.
pub proof fn law_url_encoded_is_query_safe(bytes: Seq<u8>)
    ensures
        forall|i: int| 0 <= i < percent_encoded(bytes).len() ==> is_query_safe(#[trigger] percent_encoded(bytes)[i]),
    decreases bytes.len(),
{
    if bytes.len() > 0 {
        law_url_encoded_is_query_safe(bytes.drop_first());
        let b = bytes[0];
        let head = percent_encoded_byte(b);
        assert forall|i: int| 0 <= i < head.len() implies is_query_safe(#[trigger] head[i]) by {
            if is_unreserved_byte(b) {
                assert(head[i] == b as char);
            } else {
                let hi = b / 16;
                let lo = b % 16;
                assert(hi < 16 && lo < 16);
                assert(i == 0 || head[i] == hex_digit_upper(hi) || head[i] == hex_digit_upper(lo));
            }
        }
        let rest = percent_encoded(bytes.drop_first());
        assert forall|i: int| 0 <= i < percent_encoded(bytes).len() implies is_query_safe(
            #[trigger] percent_encoded(bytes)[i],
        ) by {
            if i < head.len() {
                assert(percent_encoded(bytes)[i] == head[i]);
            } else {
                assert(percent_encoded(bytes)[i] == rest[i - head.len()]);
            }
        }
    }
}

/// Storing a group and then looking up its id finds that group.
pub proof fn law_add_group_then_get(gs: Seq<GroupView>, g: GroupView)
    requires
        group_ids(gs).no_duplicates(),
    ensures
        lookup_group(insert_group(gs, g), g.id) == Some(g),
{
    let ids = group_ids(gs);
    lemma_first_index(ids, g.id);
    let k = first_index(ids, g.id);
    let r = insert_group(gs, g);
    if k < gs.len() {
        assert(group_ids(r) =~= ids);
    } else {
        assert(group_ids(r) =~= ids.push(g.id));
        lemma_first_index(group_ids(r), g.id);
        let f = first_index(group_ids(r), g.id);
        assert(group_ids(r)[gs.len() as int] == g.id);
        if f < gs.len() {
            assert(group_ids(r)[f as int] == ids[f as int]);
            assert(ids.contains(g.id));
        }
        assert(f == gs.len());
    }
}

/// Removing a group and then looking up its id finds nothing.
pub proof fn law_remove_group_then_get(gs: Seq<GroupView>, id: Seq<char>)
    requires
        group_ids(gs).no_duplicates(),
        group_ids(gs).contains(id),
    ensures
        lookup_group(gs.remove(first_index(group_ids(gs), id) as int), id) is None,
{
    let ids = group_ids(gs);
    lemma_first_index(ids, id);
    let k = first_index(ids, id);
    lemma_remove_no_duplicates(ids, k as int);
    assert(group_ids(gs.remove(k as int)) =~= ids.remove(k as int));
    lemma_first_index(group_ids(gs.remove(k as int)), id);
}

/// A non-terminal pane saved in a session and restored from it comes back
/// as it was, but for its scrollback, process and directory, which such a
/// pane does not have.
pub proof fn law_non_terminal_pane_roundtrip(p: PaneView)
    requires
        is_non_terminal_type(p.pane_type),
    ensures
        info_pane_type(pane_info_of(p)) == p.pane_type,
        restored_view(pane_info_of(p), p.pane_type) == (PaneView {
            pid: 0,
            shell: p.pane_type,
            buffer: Seq::empty(),
            cwd: None,
            ..p
        }),
{
    assert(p.pane_type.len() > 0) by {
        reveal_strlit("note");
        reveal_strlit("image");
        reveal_strlit("whiteboard");
        reveal_strlit("browser");
    }
}

/// A terminal pane saved in a session and respawned from it keeps its shell,
/// name, size, group, directory and pin, under its new id and process.
pub proof fn law_terminal_pane_roundtrip(p: PaneView, new_id: Seq<char>, pid: u32)
    requires
        p.pane_type == "terminal"@,
    ensures
        info_pane_type(pane_info_of(p)) == "terminal"@,
        ({
            let r = respawned_view(pane_info_of(p), new_id, pid);
            &&& r.id == new_id && r.pid == pid
            &&& r.shell == p.shell && r.name == p.name
            &&& r.cols == p.cols && r.rows == p.rows
            &&& r.group_id == p.group_id && r.cwd == p.cwd && r.pinned == p.pinned
            &&& r.pane_type == "terminal"@
        }),
{
    assert("terminal"@.len() > 0) by {
        reveal_strlit("terminal");
    }
}

/// The panes after restoring each of the saved non-terminal panes `infos`
/// in order, as `restored_non_terminal_pane` builds them and
/// `record_restored` stores them.
pub open spec fn restored_panes(infos: Seq<PaneInfoView>) -> Seq<PaneView>
    decreases infos.len(),
{
    if infos.len() == 0 {
        Seq::empty()
    } else {
        let i = infos.last();
        insert_pane(restored_panes(infos.drop_last()), restored_view(i, info_pane_type(i)))
    }
}

/// The id map that restoring the non-terminal panes `infos` records: each
/// saved id stays.
pub open spec fn kept_ids(infos: Seq<PaneInfoView>) -> Seq<(Seq<char>, Seq<char>)> {
    infos.map_values(|i: PaneInfoView| (i.id, i.id))
}

/// A non-terminal pane as a restore gives it back: no scrollback, process or
/// directory, its type as its shell.
pub open spec fn without_runtime(p: PaneView) -> PaneView {
    PaneView { pid: 0, shell: p.pane_type, buffer: Seq::empty(), cwd: None, ..p }
}

proof fn lemma_restored_panes(ps: Seq<PaneView>)
    requires
        pane_ids(ps).no_duplicates(),
        forall|i: int| 0 <= i < ps.len() ==> is_non_terminal_type(#[trigger] ps[i].pane_type),
    ensures
        restored_panes(ps.map_values(|p: PaneView| pane_info_of(p))) == ps.map_values(
            |p: PaneView| without_runtime(p),
        ),
    decreases ps.len(),
{
    if ps.len() > 0 {
        let init = ps.drop_last();
        let p = ps.last();
        let infos = ps.map_values(|q: PaneView| pane_info_of(q));
        assert(infos.drop_last() =~= init.map_values(|q: PaneView| pane_info_of(q)));
        assert(pane_ids(init) =~= pane_ids(ps).drop_last());
        assert(pane_ids(init).no_duplicates()) by {
            assert forall|a: int, b: int|
                0 <= a < pane_ids(init).len() && 0 <= b < pane_ids(init).len() && a != b implies pane_ids(
                init,
            )[a] != pane_ids(init)[b] by {
                assert(pane_ids(init)[a] == pane_ids(ps)[a]);
                assert(pane_ids(init)[b] == pane_ids(ps)[b]);
            }
        }
        assert forall|i: int| 0 <= i < init.len() implies is_non_terminal_type(#[trigger] init[i].pane_type) by {
            assert(init[i] == ps[i]);
        }
        lemma_restored_panes(init);
        assert(is_non_terminal_type(ps[ps.len() - 1].pane_type));
        law_non_terminal_pane_roundtrip(p);
        assert(infos.last() == pane_info_of(p));
        let prev = init.map_values(|q: PaneView| without_runtime(q));
        assert(pane_ids(prev) =~= pane_ids(init));
        lemma_first_index(pane_ids(prev), p.id);
        if pane_ids(prev).contains(p.id) {
            let j = choose|j: int| 0 <= j < pane_ids(prev).len() && pane_ids(prev)[j] == p.id;
            assert(pane_ids(ps)[j] == pane_ids(ps)[ps.len() - 1]);
        }
        assert(prev.push(without_runtime(p)) =~= ps.map_values(|q: PaneView| without_runtime(q)));
    }
}

proof fn lemma_identity_lookup(m: Seq<(Seq<char>, Seq<char>)>, k: Seq<char>)
    requires
        forall|i: int| 0 <= i < m.len() ==> (#[trigger] m[i]).0 == m[i].1,
    ensures
        pair_lookup(m, k) matches Some(v) ==> v == k,
    decreases m.len(),
{
    if m.len() > 0 {
        assert(m.last() == m[m.len() - 1]);
        assert forall|i: int| 0 <= i < m.drop_last().len() implies (#[trigger] m.drop_last()[i]).0
            == m.drop_last()[i].1 by {
            assert(m.drop_last()[i] == m[i]);
        }
        lemma_identity_lookup(m.drop_last(), k);
    }
}

proof fn lemma_remap_identity(
    ids: Seq<Seq<char>>,
    m: Seq<(Seq<char>, Seq<char>)>,
    existing: Seq<Seq<char>>,
)
    requires
        ids.no_duplicates(),
        forall|x: Seq<char>| ids.contains(x) ==> existing.contains(x),
        forall|i: int| 0 <= i < m.len() ==> (#[trigger] m[i]).0 == m[i].1,
    ensures
        remapped_ids(ids, m, existing) == ids,
    decreases ids.len(),
{
    if ids.len() > 0 {
        let init = ids.drop_last();
        let k = ids.last();
        assert(init.no_duplicates()) by {
            assert forall|a: int, b: int|
                0 <= a < init.len() && 0 <= b < init.len() && a != b implies init[a] != init[b] by {
                assert(init[a] == ids[a] && init[b] == ids[b]);
            }
        }
        assert forall|x: Seq<char>| init.contains(x) implies existing.contains(x) by {
            let j = choose|j: int| 0 <= j < init.len() && init[j] == x;
            assert(ids[j] == x);
            assert(ids.contains(x));
        }
        lemma_remap_identity(init, m, existing);
        lemma_identity_lookup(m, k);
        assert(ids[ids.len() - 1] == k);
        assert(ids.contains(k));
        if init.contains(k) {
            let j = choose|j: int| 0 <= j < init.len() && init[j] == k;
            assert(ids[j] == ids[ids.len() - 1]);
        }
        assert(init.push(k) =~= ids);
    }
}

/// Saving a session of non-terminal panes and restoring it gives the same
/// session back: the restored panes are the saved ones, each with its id,
/// type, name, size, group, content, URL and pin (and no scrollback,
/// process or directory); the groups load back as they were; and the grid
/// and floating lists, remapped through the ids the restore records, are
/// the saved ones, which `finish_restore` then keeps when they are not both
/// empty.
pub proof fn law_session_roundtrip(
    ps: Seq<PaneView>,
    active: Seq<Seq<char>>,
    floating: Seq<Seq<char>>,
    gs: Seq<GroupView>,
)
    requires
        pane_ids(ps).no_duplicates(),
        group_ids(gs).no_duplicates(),
        forall|i: int| 0 <= i < ps.len() ==> is_non_terminal_type(#[trigger] ps[i].pane_type),
        active.no_duplicates(),
        floating.no_duplicates(),
        forall|x: Seq<char>| active.contains(x) ==> pane_ids(ps).contains(x),
        forall|x: Seq<char>| floating.contains(x) ==> pane_ids(ps).contains(x),
    ensures
        ({
            let infos = ps.map_values(|p: PaneView| pane_info_of(p));
            let restored = restored_panes(infos);
            let a = remapped_ids(active, kept_ids(infos), pane_ids(restored));
            let f = remapped_ids(floating, kept_ids(infos), pane_ids(restored));
            &&& restored == ps.map_values(|p: PaneView| without_runtime(p))
            &&& groups_from(gs) == gs
            &&& a == active
            &&& f == floating
            &&& (active.len() > 0 || floating.len() > 0) ==> (if a.len() == 0 && f.len() == 0 {
                pane_ids(restored)
            } else {
                a
            }) == active
        }),
{
    let infos = ps.map_values(|p: PaneView| pane_info_of(p));
    lemma_restored_panes(ps);
    let restored = restored_panes(infos);
    assert(pane_ids(restored) =~= pane_ids(ps));
    law_session_groups_roundtrip(gs);
    let m = kept_ids(infos);
    assert forall|i: int| 0 <= i < m.len() implies (#[trigger] m[i]).0 == m[i].1 by {}
    lemma_remap_identity(active, m, pane_ids(restored));
    lemma_remap_identity(floating, m, pane_ids(restored));
}


/// Each `git status --porcelain=v1` line of at least three characters is
/// `XY path`. The staged paths are those of the lines whose index letter `X`
/// is neither a space nor `?`, the unstaged paths those whose worktree letter
/// `Y` is neither a space nor `?`, and the untracked paths those with `X` =
/// `?`, each list in line order; shorter lines are skipped.
pub proof fn law_porcelain_lists(ls: Seq<Seq<char>>)
    ensures
        porcelain(ls).0 == ls.filter_map(
            |l: Seq<char>|
                if l.len() >= 3 && l[0] != ' ' && l[0] != '?' {
                    Some(l.skip(3))
                } else {
                    None
                },
        ),
        porcelain(ls).1 == ls.filter_map(
            |l: Seq<char>|
                if l.len() >= 3 && l[1] != ' ' && l[1] != '?' {
                    Some(l.skip(3))
                } else {
                    None
                },
        ),
        porcelain(ls).2 == ls.filter_map(
            |l: Seq<char>|
                if l.len() >= 3 && l[0] == '?' {
                    Some(l.skip(3))
                } else {
                    None
                },
        ),
    decreases ls.len(),
{
    if ls.len() > 0 {
        law_porcelain_lists(ls.drop_last());
        let (s, u, n) = porcelain(ls.drop_last());
        let p = ls.last().skip(3);
        assert(s.push(p) =~= s + seq![p]);
        assert(u.push(p) =~= u + seq![p]);
        assert(n.push(p) =~= n + seq![p]);
    }
}

/// The source control lists of porcelain status lines, each in line order:
/// every line of at least three characters whose index letter is neither a
/// space nor `?` gives a staged entry, and every such line whose worktree
/// letter is neither a space nor `?` gives an unstaged entry, whatever its
/// index letter; both carry the path after the first three characters and
/// the two status letters. A line with index letter `?` gives an untracked
/// entry marked `untracked`.
pub proof fn law_scm_lists(ls: Seq<Seq<char>>)
    ensures
        scm_lists(ls).0 == ls.filter_map(
            |l: Seq<char>|
                if l.len() >= 3 && l[0] != ' ' && l[0] != '?' {
                    Some(FileView { path: l.skip(3), status: l.take(2), added: None, deleted: None })
                } else {
                    None
                },
        ),
        scm_lists(ls).1 == ls.filter_map(
            |l: Seq<char>|
                if l.len() >= 3 && l[1] != ' ' && l[1] != '?' {
                    Some(FileView { path: l.skip(3), status: l.take(2), added: None, deleted: None })
                } else {
                    None
                },
        ),
        scm_lists(ls).2 == ls.filter_map(
            |l: Seq<char>|
                if l.len() >= 3 && l[0] == '?' {
                    Some(FileView { path: l.skip(3), status: "untracked"@, added: None, deleted: None })
                } else {
                    None
                },
        ),
    decreases ls.len(),
{
    if ls.len() > 0 {
        law_scm_lists(ls.drop_last());
        let (s, u, n) = scm_lists(ls.drop_last());
        let l = ls.last();
        let e = FileView { path: l.skip(3), status: l.take(2), added: None, deleted: None };
        let t = FileView { path: l.skip(3), status: "untracked"@, added: None, deleted: None };
        assert(s.push(e) =~= s + seq![e]);
        assert(u.push(e) =~= u + seq![e]);
        assert(n.push(t) =~= n + seq![t]);
    }
}

/// A `needs_input`, `done` or `crashed` event whose event id is not yet in
/// the history becomes its first entry, ahead of the earlier entries in
/// their order, the history being cut to `NOTIFICATION_HISTORY_LIMIT` entries.
pub proof fn law_alert_enters_history(h: Seq<NoticeView>, n: NoticeView)
    requires
        n.status == "needs_input"@ || n.status == "done"@ || n.status == "crashed"@,
        forall|i: int| 0 <= i < h.len() ==> h[i].event_id != n.event_id,
    ensures
        history_after(h, n).len() == if h.len() + 1 > NOTIFICATION_HISTORY_LIMIT {
            NOTIFICATION_HISTORY_LIMIT as int
        } else {
            h.len() + 1 as int
        },
        history_after(h, n)[0] == n,
        forall|i: int| 0 < i < history_after(h, n).len() ==> history_after(h, n)[i] == h[i - 1],
{
    reveal_strlit("idle");
    reveal_strlit("needs_input");
    reveal_strlit("done");
    reveal_strlit("crashed");
    assert(n.status != "idle"@) by {
        if n.status == "idle"@ {
            assert(n.status.len() == 4);
            assert(n.status[0] == 'i');
        }
    }
}

/// An event with any other status, or one whose event id is already in the
/// history, leaves the history as it was.
pub proof fn law_other_events_keep_history(h: Seq<NoticeView>, n: NoticeView)
    requires
        !(n.status == "needs_input"@ || n.status == "done"@ || n.status == "crashed"@) || exists|i: int|
            0 <= i < h.len() && h[i].event_id == n.event_id,
    ensures
        history_after(h, n) == h,
{
}

/// An `idle` event clears its source's current state and any other event
/// becomes it; the states of the other sources are kept.
pub proof fn law_current_state(c: Seq<(Seq<char>, NoticeView)>, n: NoticeView)
    requires
        keys_of(c).no_duplicates(),
    ensures
        n.status == "idle"@ ==> !keys_of(current_after(c, n)).contains(notice_key(n)),
        n.status != "idle"@ ==> current_after(c, n).contains((notice_key(n), n)),
        forall|e: (Seq<char>, NoticeView)|
            c.contains(e) && e.0 != notice_key(n) ==> current_after(c, n).contains(e),
{
    let k = notice_key(n);
    let ks = keys_of(c);
    lemma_first_index(ks, k);
    let i = first_index(ks, k);
    let r = current_after(c, n);
    if n.status == "idle"@ {
        if i < c.len() {
            lemma_remove_no_duplicates(ks, i as int);
            assert(keys_of(c.remove(i as int)) =~= ks.remove(i as int));
            assert(ks[i as int] == k);
            if keys_of(r).contains(k) {
                let j = choose|j: int| 0 <= j < keys_of(r).len() && keys_of(r)[j] == k;
                if j < i {
                    assert(ks[j] == k);
                } else {
                    assert(ks[j + 1] == k);
                }
            }
        } else {
            assert(r == c);
        }
        assert forall|e: (Seq<char>, NoticeView)| c.contains(e) && e.0 != k implies r.contains(e) by {
            let j = choose|j: int| 0 <= j < c.len() && c[j] == e;
            assert(ks[j] == e.0);
            if i < c.len() {
                assert(j != i);
                if j < i {
                    assert(r[j] == e);
                } else {
                    assert(r[j - 1] == e);
                }
            }
        }
    } else {
        let m: int = if i < c.len() { i as int } else { c.len() as int };
        assert(r[m] == (k, n));
        assert forall|e: (Seq<char>, NoticeView)| c.contains(e) && e.0 != k implies r.contains(e) by {
            let j = choose|j: int| 0 <= j < c.len() && c[j] == e;
            assert(ks[j] == e.0);
            assert(r[j] == e);
        }
    }
}

/// Updating the content of a pane that exists sets each content field that
/// is given (note, whiteboard and image alike) and keeps the others; the
/// rest of the pane is unchanged. Updating a pane that does not exist
/// changes nothing.
pub proof fn law_update_content(
    ps: Seq<PaneView>,
    id: Seq<char>,
    note: Option<Seq<char>>,
    whiteboard: Option<Seq<char>>,
    image: Option<Seq<char>>,
)
    ensures
        ({
            let r = modify_pane(ps, id, |p: PaneView| with_content(p, note, whiteboard, image));
            match lookup_pane(ps, id) {
                Some(p) => lookup_pane(r, id) matches Some(q) && (note matches Some(v) ==> q.note_content == Some(v))
                    && (whiteboard matches Some(v) ==> q.whiteboard_data == Some(v))
                    && (image matches Some(v) ==> q.image_data == Some(v))
                    && (note is None ==> q.note_content == p.note_content)
                    && (whiteboard is None ==> q.whiteboard_data == p.whiteboard_data)
                    && (image is None ==> q.image_data == p.image_data)
                    && PaneView {
                    note_content: p.note_content,
                    whiteboard_data: p.whiteboard_data,
                    image_data: p.image_data,
                    ..q
                } == p,
                None => r == ps,
            }
        }),
{
    let ids = pane_ids(ps);
    lemma_first_index(ids, id);
    let r = modify_pane(ps, id, |p: PaneView| with_content(p, note, whiteboard, image));
    assert(pane_ids(r) =~= ids);
}

/// How a device is described, by what the lowercase User-Agent contains:
/// Chrome on Windows, Firefox on Windows, Safari on a Mac without Chrome,
/// Chrome on a Mac, Chrome on Android, mobile Safari, and Linux, each where
/// no earlier case applies.
pub proof fn law_device_label_platforms(ua: Seq<char>)
    ensures
        ({
            let l = lowercase(ua);
            let chrome = has_substring(l, "chrome"@);
            let windows = has_substring(l, "windows"@);
            let firefox = has_substring(l, "firefox"@);
            let safari = has_substring(l, "safari"@);
            let mac = has_substring(l, "mac"@);
            let android = has_substring(l, "android"@);
            let mobile = has_substring(l, "mobile"@);
            let linux = has_substring(l, "linux"@);
            &&& chrome && windows ==> device_label(ua) == "Windows + Chrome"@
            &&& firefox && windows && !chrome ==> device_label(ua) == "Windows + Firefox"@
            &&& safari && mac && !chrome && !windows ==> device_label(ua) == "macOS + Safari"@
            &&& chrome && mac && !windows ==> device_label(ua) == "macOS + Chrome"@
            &&& chrome && android && !windows && !mac ==> device_label(ua) == "Android + Chrome"@
            &&& mobile && safari && !chrome && !mac && !windows ==> device_label(ua)
                == "iPhone/iPad + Safari"@
            &&& linux && !chrome && !safari && !windows ==> device_label(ua) == "Linux"@
        }),
{
}

/// A User-Agent that names none of the known browsers or Linux is shown as
/// it is, cut to its first 50 characters followed by `...` when longer, and
/// an empty one as `Unknown`.
pub proof fn law_device_label_fallback(ua: Seq<char>)
    requires
        ({
            let l = lowercase(ua);
            !has_substring(l, "chrome"@) && !has_substring(l, "firefox"@) && !has_substring(
                l,
                "safari"@,
            ) && !has_substring(l, "linux"@)
        }),
    ensures
        ua.len() == 0 ==> device_label(ua) == "Unknown"@,
        0 < ua.len() <= 50 ==> device_label(ua) == ua,
        ua.len() > 50 ==> device_label(ua) == ua.take(50) + "..."@,
{
}

/// A run of digits followed by nothing or by whitespace is one whole word.
proof fn lemma_digit_word_len(w: Seq<char>, rest: Seq<char>)
    requires
        all_digits(w),
        rest.len() == 0 || is_ws(rest[0]),
    ensures
        word_len(w + rest) == w.len(),
    decreases w.len(),
{
    if w.len() == 0 {
        assert(w + rest =~= rest);
    } else {
        let s = w + rest;
        assert('0' <= w[0] <= '9');
        assert(!is_ws(s[0]));
        assert(s.drop_first() =~= w.drop_first() + rest);
        assert forall|i: int| 0 <= i < w.drop_first().len() implies '0' <= #[trigger] w.drop_first()[i]
            && w.drop_first()[i] <= '9' by {
            assert(w.drop_first()[i] == w[i + 1]);
        }
        lemma_digit_word_len(w.drop_first(), rest);
    }
}

/// The words of a run of digits followed by nothing or by whitespace.
proof fn lemma_digit_word_first(w: Seq<char>, rest: Seq<char>)
    requires
        w.len() > 0,
        all_digits(w),
        rest.len() == 0 || is_ws(rest[0]),
    ensures
        words(w + rest) == seq![w] + words(rest),
{
    lemma_digit_word_len(w, rest);
    let s = w + rest;
    assert('0' <= w[0] <= '9');
    assert(!is_ws(s[0]));
    assert(s.take(w.len() as int) =~= w);
    assert(s.skip(w.len() as int) =~= rest);
}

/// `git rev-list --left-right --count @{upstream}...HEAD` prints the number
/// of upstream commits missing from HEAD, a tab, then the number of HEAD
/// commits missing upstream: the second number is the ahead count and the
/// first the behind count.
pub proof fn law_rev_list_counts(behind: Seq<char>, ahead: Seq<char>)
    requires
        behind.len() > 0,
        ahead.len() > 0,
        all_digits(behind),
        all_digits(ahead),
        digits_value(behind) < 0x8000_0000,
        digits_value(ahead) < 0x8000_0000,
    ensures
        count_pair(Some(behind + seq!['\t'] + ahead)) == (
            Some(digits_value(ahead) as i32),
            Some(digits_value(behind) as i32),
        ),
        scm_counts(Some(behind + seq!['\t'] + ahead)) == (
            digits_value(ahead) as i32,
            digits_value(behind) as i32,
        ),
{
    let tail = seq!['\t'] + ahead;
    assert(behind + seq!['\t'] + ahead =~= behind + tail);
    assert(is_ws(tail[0]));
    lemma_digit_word_first(behind, tail);
    assert(tail.drop_first() =~= ahead);
    assert(words(tail) == words(ahead));
    lemma_digit_word_first(ahead, Seq::empty());
    assert(ahead + Seq::<char>::empty() =~= ahead);
    assert(words(Seq::<char>::empty()) == Seq::<Seq<char>>::empty());
    let ws = words(behind + tail);
    assert(ws =~= seq![behind, ahead]);
    assert('0' <= behind[0] <= '9');
    assert('0' <= ahead[0] <= '9');
}

/// The first `c` of `h`, `c` and more is right after `h` when `h` holds none.
proof fn lemma_char_index_after(h: Seq<char>, c: char, rest: Seq<char>)
    requires
        !h.contains(c),
    ensures
        char_index(h + seq![c] + rest, c) == h.len(),
    decreases h.len(),
{
    let s = h + seq![c] + rest;
    if h.len() > 0 {
        assert(h[0] != c);
        assert(s.drop_first() =~= h.drop_first() + seq![c] + rest);
        assert(!h.drop_first().contains(c)) by {
            if h.drop_first().contains(c) {
                let j = choose|j: int| 0 <= j < h.drop_first().len() && h.drop_first()[j] == c;
                assert(h[j + 1] == c);
            }
        }
        lemma_char_index_after(h.drop_first(), c, rest);
    } else {
        assert(s[0] == c);
    }
}

/// Splitting at a separator: the text before the first `c` is the first part.
proof fn lemma_splitn_first(h: Seq<char>, c: char, rest: Seq<char>, n: nat)
    requires
        !h.contains(c),
        n > 1,
    ensures
        splitn_char(h + seq![c] + rest, c, n) == seq![h] + splitn_char(rest, c, (n - 1) as nat),
{
    let s = h + seq![c] + rest;
    lemma_char_index_after(h, c, rest);
    assert(s.take(h.len() as int) =~= h);
    assert(s.skip(h.len() as int + 1) =~= rest);
}

/// A `git log --format=%H|%s|%an|%ad` line whose hash, subject and author
/// hold no `|` gives back each field; the short hash is the first seven
/// characters of the hash, and the date keeps whatever follows.
pub proof fn law_log_entry(h: Seq<char>, m: Seq<char>, a: Seq<char>, d: Seq<char>)
    requires
        !h.contains('|'),
        !m.contains('|'),
        !a.contains('|'),
    ensures
        log_entry(h + seq!['|'] + m + seq!['|'] + a + seq!['|'] + d) == (CommitView {
            hash: h,
            short_hash: if h.len() <= 7 {
                h
            } else {
                h.take(7)
            },
            message: m,
            author: a,
            date: d,
        }),
{
    let l = h + seq!['|'] + m + seq!['|'] + a + seq!['|'] + d;
    let r1 = m + seq!['|'] + a + seq!['|'] + d;
    let r2 = a + seq!['|'] + d;
    assert(l =~= h + seq!['|'] + r1);
    assert(r1 =~= m + seq!['|'] + r2);
    lemma_splitn_first(h, '|', r1, 4);
    lemma_splitn_first(m, '|', r2, 3);
    lemma_splitn_first(a, '|', d, 2);
    assert(splitn_char(d, '|', 1) == seq![d]);
    assert(splitn_char(r2, '|', 2) =~= seq![a, d]);
    assert(splitn_char(r1, '|', 3) =~= seq![m, a, d]);
    assert(splitn_char(l, '|', 4) =~= seq![h, m, a, d]);
}

/// A `git log --oneline` line gives its hash (the text before the first
/// space) and its subject (all after that space).
pub proof fn law_oneline_entry(h: Seq<char>, m: Seq<char>)
    requires
        !h.contains(' '),
    ensures
        oneline_entry(h + seq![' '] + m).hash == h,
        oneline_entry(h + seq![' '] + m).short_hash == if h.len() <= 7 {
            h
        } else {
            h.take(7)
        },
        oneline_entry(h + seq![' '] + m).message == m,
{
    lemma_splitn_first(h, ' ', m, 2);
    assert(splitn_char(m, ' ', 1) == seq![m]);
    assert(splitn_char(h + seq![' '] + m, ' ', 2) =~= seq![h, m]);
}

/// Commit lists read every non-empty line, in order, and skip empty ones.
pub proof fn law_nonempty_entries(ls: Seq<Seq<char>>, f: spec_fn(Seq<char>) -> CommitView)
    ensures
        nonempty_entries(ls, f) == ls.filter_map(
            |l: Seq<char>|
                if l.len() > 0 {
                    Some(f(l))
                } else {
                    None
                },
        ),
    decreases ls.len(),
{
    if ls.len() > 0 {
        law_nonempty_entries(ls.drop_last(), f);
        let prev = nonempty_entries(ls.drop_last(), f);
        assert(prev.push(f(ls.last())) =~= prev + seq![f(ls.last())]);
    }
}

/// Output text splits into lines at each `\n`, a line losing one trailing
/// `\r`; text without a `\n` is a single line.
pub proof fn law_lines(a: Seq<char>, rest: Seq<char>)
    requires
        !a.contains('\n'),
    ensures
        lines(a + seq!['\n'] + rest) == seq![
            if a.len() > 0 && a.last() == '\r' {
                a.drop_last()
            } else {
                a
            },
        ] + lines(rest),
        a.len() > 0 ==> lines(a) == seq![a],
{
    let s = a + seq!['\n'] + rest;
    lemma_char_index_after(a, '\n', rest);
    assert(s.take(a.len() as int) =~= a);
    assert(s.skip(a.len() as int + 1) =~= rest);
    if a.len() > 0 {
        crate::text::lemma_char_index_bound(a, '\n');
        if char_index(a, '\n') < a.len() {
            assert(a.contains('\n'));
        }
    }
}

/// A new connection is the last history entry, after the most recent
/// earlier entries in their order, and the history keeps `HISTORY_LIMIT` of them.
pub proof fn law_connection_history(h: Seq<HistoryView>, entry: HistoryView)
    ensures
        with_connection(h, entry).len() == if h.len() + 1 > HISTORY_LIMIT {
            HISTORY_LIMIT as int
        } else {
            h.len() + 1 as int
        },
        with_connection(h, entry).last() == entry,
        forall|i: int|
            0 <= i < with_connection(h, entry).len() - 1 ==> with_connection(h, entry)[i] == h[h.len()
                - (with_connection(h, entry).len() - 1) + i],
{
}

/// An address with a still-open connection has a most recent one.
proof fn lemma_latest_open_exists(h: Seq<HistoryView>, ip: Seq<char>)
    requires
        exists|i: int| is_open_from(h, ip, i),
    ensures
        exists|i: int| is_latest_open_from(h, ip, i),
    decreases h.len(),
{
    let last = h.len() - 1;
    if is_open_from(h, ip, last) {
        assert(is_latest_open_from(h, ip, last));
    } else {
        let i = choose|i: int| is_open_from(h, ip, i);
        let d = h.drop_last();
        assert(is_open_from(d, ip, i));
        lemma_latest_open_exists(d, ip);
        let j = choose|j: int| is_latest_open_from(d, ip, j);
        assert(is_open_from(h, ip, j));
        assert forall|k: int| j < k < h.len() implies !is_open_from(h, ip, k) by {
            if k < last {
                assert(!is_open_from(d, ip, k));
                assert(d[k] == h[k]);
            }
        }
        assert(is_latest_open_from(h, ip, j));
    }
}

/// Closing a connection from an address marks the most recent still-open
/// entry from it as disconnected at the given time (and whether by a ban),
/// and leaves every other entry as it was; with no open entry from it the
/// history is unchanged.
pub proof fn law_close_latest(h: Seq<HistoryView>, ip: Seq<char>, at: u64, banned: bool)
    ensures
        close_latest(h, ip, at, banned).len() == h.len(),
        (forall|i: int| 0 <= i < h.len() ==> !(h[i].ip == ip && h[i].disconnected_at is None))
            ==> close_latest(h, ip, at, banned) == h,
        forall|i: int|
            #![trigger h[i]]
            0 <= i < h.len() && h[i].ip == ip && h[i].disconnected_at is None && (forall|k: int|
                i < k < h.len() ==> !(h[k].ip == ip && h[k].disconnected_at is None)) ==> {
                &&& close_latest(h, ip, at, banned)[i] == HistoryView {
                    disconnected_at: Some(at),
                    was_banned: banned,
                    ..h[i]
                }
                &&& forall|j: int|
                    0 <= j < h.len() && j != i ==> close_latest(h, ip, at, banned)[j] == h[j]
            },
{
    if exists|i: int| is_open_from(h, ip, i) {
        lemma_latest_open_exists(h, ip);
    }
    assert forall|i: int|
        #![trigger h[i]]
        0 <= i < h.len() && h[i].ip == ip && h[i].disconnected_at is None && (forall|k: int|
            i < k < h.len() ==> !(h[k].ip == ip && h[k].disconnected_at is None)) implies {
        &&& close_latest(h, ip, at, banned)[i] == HistoryView {
            disconnected_at: Some(at),
            was_banned: banned,
            ..h[i]
        }
        &&& forall|j: int|
            0 <= j < h.len() && j != i ==> close_latest(h, ip, at, banned)[j] == h[j]
    } by {
        assert(is_latest_open_from(h, ip, i));
        let c = choose|c: int| is_latest_open_from(h, ip, c);
        assert(is_latest_open_from(h, ip, c));
        if c < i {
            assert(!(h[i].ip == ip && h[i].disconnected_at is None));
        } else if c > i {
            assert(!(h[c].ip == ip && h[c].disconnected_at is None));
        }
        assert(c == i);
    }
}

/// A pane's scrollback after appending data holds the most recent bytes of
/// the old scrollback followed by the data, as many as fit in
/// `MAX_BUFFER_SIZE`.
pub proof fn law_buffer_keeps_latest(buffer: Seq<u8>, data: Seq<u8>)
    ensures
        appended_buffer(buffer, data).len() == if buffer.len() + data.len() > MAX_BUFFER_SIZE {
            MAX_BUFFER_SIZE as int
        } else {
            (buffer.len() + data.len()) as int
        },
        forall|i: int|
            0 <= i < appended_buffer(buffer, data).len() ==> #[trigger] appended_buffer(buffer, data)[i]
                == (buffer + data)[buffer.len() + data.len() - appended_buffer(buffer, data).len() + i],
{
}

} // verus!
