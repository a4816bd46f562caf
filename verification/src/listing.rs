//! Directory listings as clients see them: hidden entries left out,
//! directories first, then by lowercase name.
use vstd::prelude::*;
use crate::bindings::{lowercase, to_lowercase};
use crate::messages::{DirectoryItem, ServerMessage};
use crate::text::{chars_of, opt_view, owned};
use vstd::utf8::encode_utf8;

verus! {

/// `a` comes before `b` or equals it in byte-wise lexicographic order, the
/// order of `String`'s `Ord`.
pub open spec fn bytes_le(a: Seq<u8>, b: Seq<u8>) -> bool
    decreases a.len(),
{
    if a.len() == 0 {
        true
    } else if b.len() == 0 {
        false
    } else if a[0] != b[0] {
        a[0] < b[0]
    } else {
        bytes_le(a.drop_first(), b.drop_first())
    }
}

/// Any two byte strings are ordered one way or the other.
pub proof fn lemma_bytes_le_total(a: Seq<u8>, b: Seq<u8>)
    ensures
        bytes_le(a, b) || bytes_le(b, a),
    decreases a.len(),
{
    if a.len() > 0 && b.len() > 0 && a[0] == b[0] {
        lemma_bytes_le_total(a.drop_first(), b.drop_first());
    }
}

/// The order is transitive.
pub proof fn lemma_bytes_le_trans(a: Seq<u8>, b: Seq<u8>, c: Seq<u8>)
    requires
        bytes_le(a, b),
        bytes_le(b, c),
    ensures
        bytes_le(a, c),
    decreases a.len(),
{
    if a.len() > 0 && b.len() > 0 && c.len() > 0 && a[0] == b[0] && b[0] == c[0] {
        lemma_bytes_le_trans(a.drop_first(), b.drop_first(), c.drop_first());
    }
}

/// Byte strings ordered both ways are equal.
pub proof fn lemma_bytes_le_antisym(a: Seq<u8>, b: Seq<u8>)
    requires
        bytes_le(a, b),
        bytes_le(b, a),
    ensures
        a == b,
    decreases a.len(),
{
    if a.len() > 0 && b.len() > 0 {
        lemma_bytes_le_antisym(a.drop_first(), b.drop_first());
        assert(a =~= seq![a[0]] + a.drop_first());
        assert(b =~= seq![b[0]] + b.drop_first());
    }
}

/// Every byte string is ordered with itself.
pub proof fn lemma_bytes_le_refl(a: Seq<u8>)
    ensures
        bytes_le(a, a),
    decreases a.len(),
{
    if a.len() > 0 {
        lemma_bytes_le_refl(a.drop_first());
    }
}

/// The name an item is sorted by: its lowercase form, as UTF-8 bytes.
pub open spec fn sort_name(item: DirectoryItem) -> Seq<u8> {
    encode_utf8(lowercase(item.name@))
}

/// `a` sorts before `b` or ties with it: directories first, then by
/// lowercase name.
pub open spec fn listed_before(a: DirectoryItem, b: DirectoryItem) -> bool {
    (a.is_dir && !b.is_dir) || (a.is_dir == b.is_dir && bytes_le(sort_name(a), sort_name(b)))
}

/// `a` and `b` tie in the listing order.
pub open spec fn same_rank(a: DirectoryItem, b: DirectoryItem) -> bool {
    a.is_dir == b.is_dir && sort_name(a) == sort_name(b)
}

/// An entry whose name starts with `.` is hidden.
pub open spec fn is_hidden(item: DirectoryItem) -> bool {
    item.name@.len() > 0 && item.name@[0] == '.'
}

/// The entries that are listed, in their order.
pub open spec fn visible(items: Seq<DirectoryItem>) -> Seq<DirectoryItem> {
    items.filter(|d: DirectoryItem| !is_hidden(d))
}

/// Every pair of items in `r` is in listing order.
pub open spec fn in_listing_order(r: Seq<DirectoryItem>) -> bool {
    forall|i: int, j: int| #![trigger r[i], r[j]] 0 <= i < j < r.len() ==> listed_before(r[i], r[j])
}

/// Whether an item ties with `x`.
pub open spec fn ties_with(x: DirectoryItem) -> spec_fn(DirectoryItem) -> bool {
    |y: DirectoryItem| same_rank(y, x)
}

/// The items of `s` that tie with `x`, in their order.
pub open spec fn rank_class(s: Seq<DirectoryItem>, x: DirectoryItem) -> Seq<DirectoryItem> {
    s.filter(ties_with(x))
}

/// `r` is `items` sorted stably into listing order: in order, and each set
/// of tied items keeps the order it had in `items`.
pub open spec fn is_stable_sort(r: Seq<DirectoryItem>, items: Seq<DirectoryItem>) -> bool {
    &&& in_listing_order(r)
    &&& forall|x: DirectoryItem| #[trigger] rank_class(r, x) == rank_class(items, x)
}

proof fn lemma_listed_total(a: DirectoryItem, b: DirectoryItem)
    ensures
        listed_before(a, b) || listed_before(b, a),
{
    lemma_bytes_le_total(sort_name(a), sort_name(b));
}

proof fn lemma_listed_trans(a: DirectoryItem, b: DirectoryItem, c: DirectoryItem)
    requires
        listed_before(a, b),
        listed_before(b, c),
    ensures
        listed_before(a, c),
{
    if a.is_dir == b.is_dir && b.is_dir == c.is_dir {
        lemma_bytes_le_trans(sort_name(a), sort_name(b), sort_name(c));
    }
}

proof fn lemma_same_rank_listed(a: DirectoryItem, b: DirectoryItem)
    requires
        same_rank(a, b),
    ensures
        listed_before(a, b),
{
    lemma_bytes_le_refl(sort_name(a));
}

/// Whether `a` sorts before `b` or ties with it.
fn bytes_le_exec(a: &[u8], b: &[u8]) -> (r: bool)
    ensures
        r == bytes_le(a@, b@),
{
    let mut i: usize = 0;
    assert(a@.skip(0) =~= a@);
    assert(b@.skip(0) =~= b@);
    while i < a.len() && i < b.len() && a[i] == b[i]
        invariant
            i <= a@.len(),
            i <= b@.len(),
            bytes_le(a@, b@) == bytes_le(a@.skip(i as int), b@.skip(i as int)),
        decreases a@.len() - i,
    {
        assert(a@.skip(i as int).drop_first() =~= a@.skip(i + 1));
        assert(b@.skip(i as int).drop_first() =~= b@.skip(i + 1));
        i = i + 1;
    }
    if i == a.len() {
        true
    } else if i == b.len() {
        false
    } else {
        assert(a@.skip(i as int)[0] == a@[i as int]);
        assert(b@.skip(i as int)[0] == b@[i as int]);
        a[i] < b[i]
    }
}

/// The lowercase name of `item` as UTF-8 bytes.
fn sort_name_of(item: &DirectoryItem) -> (r: Vec<u8>)
    ensures
        r@ == sort_name(*item),
{
    let lower = to_lowercase(item.name.as_str());
    vstd::slice::slice_to_vec(lower.as_str().as_bytes())
}

/// Whether `a` sorts before `b` or ties with it.
fn listed_before_exec(a: &DirectoryItem, b: &DirectoryItem) -> (r: bool)
    ensures
        r == listed_before(*a, *b),
{
    if a.is_dir != b.is_dir {
        return a.is_dir;
    }
    let ka = sort_name_of(a);
    let kb = sort_name_of(b);
    bytes_le_exec(ka.as_slice(), kb.as_slice())
}

/// A copy of `item`.
pub fn copy_item(item: &DirectoryItem) -> (r: DirectoryItem)
    ensures
        r == *item,
{
    DirectoryItem {
        name: item.name.clone(),
        absolute_path: item.absolute_path.clone(),
        is_dir: item.is_dir,
    }
}

/// The position at which a stable insertion puts `e` into the sorted `r`:
/// after every item that sorts before it or ties with it.
fn insertion_point(r: &Vec<DirectoryItem>, e: &DirectoryItem) -> (p: usize)
    requires
        in_listing_order(r@),
    ensures
        p <= r@.len(),
        forall|i: int| 0 <= i < p ==> listed_before(#[trigger] r@[i], *e),
        forall|i: int| p <= i < r@.len() ==> !listed_before(#[trigger] r@[i], *e),
{
    let mut p: usize = 0;
    while p < r.len() && listed_before_exec(&r[p], e)
        invariant
            p <= r@.len(),
            in_listing_order(r@),
            forall|i: int| 0 <= i < p ==> listed_before(#[trigger] r@[i], *e),
        decreases r@.len() - p,
    {
        p = p + 1;
    }
    proof {
        if p < r@.len() {
            assert forall|i: int| p <= i < r@.len() implies !listed_before(#[trigger] r@[i], *e) by {
                if i > p && listed_before(r@[i], *e) {
                    assert(listed_before(r@[p as int], r@[i]));
                    lemma_listed_trans(r@[p as int], r@[i], *e);
                }
            }
        }
    }
    p
}

proof fn lemma_insert_keeps_order(r: Seq<DirectoryItem>, e: DirectoryItem, p: int)
    requires
        in_listing_order(r),
        0 <= p <= r.len(),
        forall|i: int| 0 <= i < p ==> listed_before(#[trigger] r[i], e),
        forall|i: int| p <= i < r.len() ==> !listed_before(#[trigger] r[i], e),
    ensures
        in_listing_order(r.insert(p, e)),
{
    let s = r.insert(p, e);
    assert forall|i: int, j: int| #![trigger s[i], s[j]] 0 <= i < j < s.len() implies listed_before(s[i], s[j]) by {
        if i < p && j < p {
            assert(s[i] == r[i] && s[j] == r[j]);
        } else if i < p && j == p {
            assert(s[i] == r[i]);
        } else if i < p {
            assert(s[i] == r[i] && s[j] == r[j - 1]);
        } else if i == p {
            assert(s[j] == r[j - 1]);
            lemma_listed_total(r[j - 1], e);
        } else {
            assert(s[i] == r[i - 1] && s[j] == r[j - 1]);
        }
    }
}

proof fn lemma_filter_single(e: DirectoryItem, f: spec_fn(DirectoryItem) -> bool)
    ensures
        seq![e].filter(f) == (if f(e) {
            seq![e]
        } else {
            Seq::<DirectoryItem>::empty()
        }),
{
    reveal(Seq::filter);
    assert(seq![e].drop_last() =~= Seq::<DirectoryItem>::empty());
    assert(Seq::<DirectoryItem>::empty().filter(f) =~= Seq::<DirectoryItem>::empty());
    assert(seq![e].last() == e);
    assert(Seq::<DirectoryItem>::empty().push(e) =~= seq![e]);
}

proof fn lemma_insert_keeps_classes(r: Seq<DirectoryItem>, e: DirectoryItem, p: int, x: DirectoryItem)
    requires
        0 <= p <= r.len(),
        forall|i: int| p <= i < r.len() ==> !listed_before(#[trigger] r[i], e),
    ensures
        rank_class(r.insert(p, e), x) == if same_rank(e, x) {
            rank_class(r, x).push(e)
        } else {
            rank_class(r, x)
        },
{
    let f = ties_with(x);
    let a = r.take(p);
    let b = r.skip(p);
    let s = r.insert(p, e);
    assert(s =~= (a + seq![e]) + b);
    assert(r =~= a + b);
    Seq::filter_distributes_over_add(a + seq![e], b, f);
    Seq::filter_distributes_over_add(a, seq![e], f);
    Seq::filter_distributes_over_add(a, b, f);
    lemma_filter_single(e, f);
    if same_rank(e, x) {
        assert forall|i: int| 0 <= i < b.len() implies !f(#[trigger] b[i]) by {
            if same_rank(b[i], x) {
                assert(b[i] == r[p + i]);
                assert(same_rank(r[p + i], e));
                lemma_same_rank_listed(r[p + i], e);
            }
        }
        lemma_filter_none(b, f);
        assert(rank_class(s, x) =~= a.filter(f).push(e));
        assert(rank_class(r, x) =~= a.filter(f));
    } else {
        assert(rank_class(s, x) =~= a.filter(f) + b.filter(f));
    }
}

proof fn lemma_filter_none(s: Seq<DirectoryItem>, f: spec_fn(DirectoryItem) -> bool)
    requires
        forall|i: int| 0 <= i < s.len() ==> !f(#[trigger] s[i]),
    ensures
        s.filter(f) =~= Seq::<DirectoryItem>::empty(),
    decreases s.len(),
{
    reveal(Seq::filter);
    if s.len() > 0 {
        lemma_filter_none(s.drop_last(), f);
        assert(!f(s.last()));
    }
}

/// Sorts `items` stably into listing order: directories first, then by
/// lowercase name, tied items in their given order.
pub fn sort_listing(items: &Vec<DirectoryItem>) -> (r: Vec<DirectoryItem>)
    ensures
        is_stable_sort(r@, items@),
{
    let mut r: Vec<DirectoryItem> = Vec::new();
    let mut k: usize = 0;
    while k < items.len()
        invariant
            k <= items@.len(),
            in_listing_order(r@),
            forall|x: DirectoryItem| #[trigger] rank_class(r@, x) == rank_class(items@.take(k as int), x),
        decreases items@.len() - k,
    {
        let e = copy_item(&items[k]);
        let p = insertion_point(&r, &e);
        let ghost before = r@;
        proof {
            lemma_insert_keeps_order(before, e, p as int);
        }
        r.insert(p, e);
        proof {
            let t = items@.take(k as int);
            assert(items@.take(k + 1) =~= t.push(e));
            assert forall|x: DirectoryItem| #[trigger] rank_class(r@, x) == rank_class(items@.take(k + 1), x) by {
                lemma_insert_keeps_classes(before, e, p as int, x);
                let f = ties_with(x);
                Seq::filter_distributes_over_add(t, seq![e], f);
                lemma_filter_single(e, f);
                assert(t + seq![e] =~= t.push(e));
                if same_rank(e, x) {
                    assert(rank_class(items@.take(k + 1), x) =~= t.filter(f).push(e));
                } else {
                    assert(rank_class(items@.take(k + 1), x) =~= t.filter(f));
                }
            }
        }
        k = k + 1;
    }
    assert(items@.take(items@.len() as int) =~= items@);
    r
}

/// The entries of `entries` whose names do not start with `.`.
pub fn visible_items(entries: &Vec<DirectoryItem>) -> (r: Vec<DirectoryItem>)
    ensures
        r@ == visible(entries@),
{
    let mut r: Vec<DirectoryItem> = Vec::new();
    let mut k: usize = 0;
    while k < entries.len()
        invariant
            k <= entries@.len(),
            r@ == visible(entries@.take(k as int)),
        decreases entries@.len() - k,
    {
        proof {
            reveal(Seq::filter);
            assert(entries@.take(k + 1).drop_last() =~= entries@.take(k as int));
            assert(entries@.take(k + 1).last() == entries@[k as int]);
        }
        let e = &entries[k];
        let n = chars_of(e.name.as_str());
        if !(n.len() > 0 && n[0] == '.') {
            r.push(copy_item(e));
        }
        k = k + 1;
    }
    assert(entries@.take(entries@.len() as int) =~= entries@);
    r
}

/// The reply to a listing of the directory `path`: its visible entries in
/// listing order, or no entries when it could not be read (`None`).
pub fn directory_contents(path: String, entries: Option<Vec<DirectoryItem>>) -> (m: ServerMessage)
    ensures
        match m {
            ServerMessage::DirectoryContents { path: p, items } => p == path && match entries {
                Some(es) => is_stable_sort(items@, visible(es@)),
                None => items@.len() == 0,
            },
            _ => false,
        },
{
    let items = match entries {
        Some(es) => sort_listing(&visible_items(&es)),
        None => Vec::new(),
    };
    ServerMessage::DirectoryContents { path, items }
}

/// The reply to a listing of the roots: the root `/` as the only entry,
/// under the home directory's path (`/` when there is none).
pub fn roots_contents(home: Option<String>) -> (m: ServerMessage)
    ensures
        match m {
            ServerMessage::DirectoryContents { path, items } => {
                &&& path@ == (match opt_view(home) {
                    Some(h) => h,
                    None => "/"@,
                })
                &&& items@.len() == 1
                &&& items@[0].name@ == "/"@
                &&& items@[0].absolute_path@ == "/"@
                &&& items@[0].is_dir
            },
            _ => false,
        },
{
    let path = match home {
        Some(h) => h,
        None => owned("/"),
    };
    let items = vec![DirectoryItem { name: owned("/"), absolute_path: owned("/"), is_dir: true }];
    ServerMessage::DirectoryContents { path, items }
}

proof fn lemma_listed_both_ways(a: DirectoryItem, b: DirectoryItem)
    requires
        listed_before(a, b),
        listed_before(b, a),
    ensures
        same_rank(a, b),
{
    lemma_bytes_le_antisym(sort_name(a), sort_name(b));
}

proof fn lemma_rank_class_first(s: Seq<DirectoryItem>, x: DirectoryItem)
    requires
        s.len() > 0,
    ensures
        rank_class(s, x) == (if same_rank(s[0], x) {
            seq![s[0]]
        } else {
            Seq::<DirectoryItem>::empty()
        }) + rank_class(s.drop_first(), x),
{
    let f = ties_with(x);
    assert(s =~= seq![s[0]] + s.drop_first());
    Seq::filter_distributes_over_add(seq![s[0]], s.drop_first(), f);
    lemma_filter_single(s[0], f);
}

proof fn lemma_in_order_tail(r: Seq<DirectoryItem>)
    requires
        r.len() > 0,
        in_listing_order(r),
    ensures
        in_listing_order(r.drop_first()),
{
    let t = r.drop_first();
    assert forall|i: int, j: int| #![trigger t[i], t[j]] 0 <= i < j < t.len() implies listed_before(t[i], t[j]) by {
        assert(t[i] == r[i + 1] && t[j] == r[j + 1]);
    }
}

/// The first item of the ordered `r2` sorts before or ties with the first
/// item of `r1` when both hold the same tie classes.
proof fn lemma_first_listed_before(r1: Seq<DirectoryItem>, r2: Seq<DirectoryItem>)
    requires
        r1.len() > 0,
        r2.len() > 0,
        in_listing_order(r2),
        forall|x: DirectoryItem| #[trigger] rank_class(r1, x) == rank_class(r2, x),
    ensures
        listed_before(r2[0], r1[0]),
{
    let a = r1[0];
    r1.lemma_filter_contains(ties_with(a), 0);
    assert(rank_class(r1, a) == rank_class(r2, a));
    r2.lemma_filter_contains_rev(ties_with(a), a);
    let j = choose|j: int| 0 <= j < r2.len() && r2[j] == a;
    if j == 0 {
        lemma_same_rank_listed(a, a);
    } else {
        assert(listed_before(r2[0], r2[j]));
    }
}

/// A listing is fixed by its items: two sequences in listing order in which
/// every set of tied items appears in the same order are equal. So the
/// contract of `sort_listing` leaves a single possible result.
pub proof fn law_listing_determined(r1: Seq<DirectoryItem>, r2: Seq<DirectoryItem>)
    requires
        in_listing_order(r1),
        in_listing_order(r2),
        forall|x: DirectoryItem| #[trigger] rank_class(r1, x) == rank_class(r2, x),
    ensures
        r1 == r2,
    decreases r1.len(),
{
    if r1.len() == 0 || r2.len() == 0 {
        if r1.len() > 0 {
            r1.lemma_filter_contains(ties_with(r1[0]), 0);
            assert(rank_class(r1, r1[0]) == rank_class(r2, r1[0]));
            r2.lemma_filter_contains_rev(ties_with(r1[0]), r1[0]);
        }
        if r2.len() > 0 {
            r2.lemma_filter_contains(ties_with(r2[0]), 0);
            assert(rank_class(r1, r2[0]) == rank_class(r2, r2[0]));
            r1.lemma_filter_contains_rev(ties_with(r2[0]), r2[0]);
        }
        assert(r1 =~= r2);
    } else {
        let a = r1[0];
        let b = r2[0];
        lemma_first_listed_before(r1, r2);
        lemma_first_listed_before(r2, r1);
        lemma_listed_both_ways(a, b);
        lemma_rank_class_first(r1, a);
        lemma_rank_class_first(r2, a);
        lemma_bytes_le_refl(sort_name(a));
        assert(rank_class(r1, a) == rank_class(r2, a));
        assert(rank_class(r1, a)[0] == a);
        assert(rank_class(r2, a)[0] == b);
        let t1 = r1.drop_first();
        let t2 = r2.drop_first();
        assert forall|x: DirectoryItem| #[trigger] rank_class(t1, x) == rank_class(t2, x) by {
            lemma_rank_class_first(r1, x);
            lemma_rank_class_first(r2, x);
            assert(rank_class(r1, x) == rank_class(r2, x));
            if same_rank(a, x) {
                assert(rank_class(t1, x) =~= rank_class(r1, x).drop_first());
                assert(rank_class(t2, x) =~= rank_class(r2, x).drop_first());
            } else {
                assert(rank_class(r1, x) =~= rank_class(t1, x));
                assert(rank_class(r2, x) =~= rank_class(t2, x));
            }
        }
        lemma_in_order_tail(r1);
        lemma_in_order_tail(r2);
        law_listing_determined(t1, t2);
        assert(r1 =~= seq![a] + t1);
        assert(r2 =~= seq![b] + t2);
    }
}

} // verus!
