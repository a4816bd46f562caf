//! Character-level string utilities with exact specifications.
use vstd::prelude::*;
use vstd::std_specs::iter::IteratorSpec;

verus! {

/// `String::push`: appends one character.
#[verifier::external_body]
fn push_char(s: &mut String, c: char)
    ensures
        final(s)@ == old(s)@.push(c),
{
    s.push(c);
}

/// The characters of `s`, in order.
pub fn chars_of(s: &str) -> (v: Vec<char>)
    ensures
        v@ == s@,
{
    let mut v: Vec<char> = Vec::new();
    let mut it = s.chars();
    loop
        invariant
            it.obeys_prophetic_iter_laws(),
            v@ + it.remaining() == s@,
            it.decrease() is Some,
        ensures
            v@ == s@,
        decreases it.decrease()->0,
    {
        match it.next() {
            Some(c) => {
                v.push(c);
            },
            None => {
                break;
            },
        }
    }
    v
}

/// A `String` holding exactly the characters of `v`.
pub fn string_of(v: &[char]) -> (s: String)
    ensures
        s@ == v@,
{
    let mut s = String::new();
    let mut i: usize = 0;
    while i < v.len()
        invariant
            i <= v@.len(),
            s@ == v@.subrange(0, i as int),
        decreases v@.len() - i,
    {
        push_char(&mut s, v[i]);
        i = i + 1;
    }
    s
}

/// Equality of two string slices, by their characters.
pub fn str_eq(a: &str, b: &str) -> (r: bool)
    ensures
        r == (a@ == b@),
{
    a.to_owned() == b.to_owned()
}

} // verus!

verus! {

/// The Unicode `White_Space` property, which `char::is_whitespace` and `str::trim` use.
pub open spec fn is_ws(c: char) -> bool {
    let u = c as u32;
    ||| 9 <= u <= 13
    ||| u == 32
    ||| u == 0x85
    ||| u == 0xA0
    ||| u == 0x1680
    ||| 0x2000 <= u <= 0x200A
    ||| u == 0x2028
    ||| u == 0x2029
    ||| u == 0x202F
    ||| u == 0x205F
    ||| u == 0x3000
}

/// `c` has the Unicode `White_Space` property.
pub fn is_whitespace(c: char) -> (r: bool)
    ensures
        r == is_ws(c),
{
    let u = c as u32;
    (9 <= u && u <= 13) || u == 32 || u == 0x85 || u == 0xA0 || u == 0x1680 || (0x2000 <= u && u
        <= 0x200A) || u == 0x2028 || u == 0x2029 || u == 0x202F || u == 0x205F || u == 0x3000
}

/// `s` without its leading whitespace.
pub open spec fn trim_start(s: Seq<char>) -> Seq<char>
    decreases s.len(),
{
    if s.len() > 0 && is_ws(s[0]) {
        trim_start(s.drop_first())
    } else {
        s
    }
}

/// `s` without its trailing whitespace.
pub open spec fn trim_end(s: Seq<char>) -> Seq<char>
    decreases s.len(),
{
    if s.len() > 0 && is_ws(s.last()) {
        trim_end(s.drop_last())
    } else {
        s
    }
}

/// `s` without leading and trailing whitespace, as `str::trim` gives it.
pub open spec fn trim(s: Seq<char>) -> Seq<char> {
    trim_end(trim_start(s))
}

/// `s` without its trailing copies of `c`, as `str::trim_end_matches(c)` gives it.
pub open spec fn trim_end_char(s: Seq<char>, c: char) -> Seq<char>
    decreases s.len(),
{
    if s.len() > 0 && s.last() == c {
        trim_end_char(s.drop_last(), c)
    } else {
        s
    }
}

/// The leading whitespace of `s` is removed starting from position `i`.
proof fn lemma_trim_start_step(s: Seq<char>, i: int)
    requires
        0 <= i < s.len(),
        is_ws(s[i]),
    ensures
        trim_start(s.skip(i)) == trim_start(s.skip(i + 1)),
{
    assert(s.skip(i).drop_first() =~= s.skip(i + 1));
}

proof fn lemma_trim_end_step(s: Seq<char>, j: int)
    requires
        0 < j <= s.len(),
        is_ws(s[j - 1]),
    ensures
        trim_end(s.take(j)) == trim_end(s.take(j - 1)),
{
    assert(s.take(j).drop_last() =~= s.take(j - 1));
}

proof fn lemma_trim_end_char_step(s: Seq<char>, j: int, c: char)
    requires
        0 < j <= s.len(),
        s[j - 1] == c,
    ensures
        trim_end_char(s.take(j), c) == trim_end_char(s.take(j - 1), c),
{
    assert(s.take(j).drop_last() =~= s.take(j - 1));
}

/// The characters of `s` with leading and trailing whitespace removed.
pub fn trim_chars(s: &[char]) -> (t: Vec<char>)
    ensures
        t@ == trim(s@),
{
    let n = s.len();
    let mut i: usize = 0;
    assert(s@.skip(0) =~= s@);
    while i < n && is_whitespace(s[i])
        invariant
            n == s@.len(),
            i <= n,
            trim_start(s@) == trim_start(s@.skip(i as int)),
        decreases n - i,
    {
        proof {
            lemma_trim_start_step(s@, i as int);
        }
        i = i + 1;
    }
    let ghost mid = s@.skip(i as int);
    assert(trim_start(s@) == mid) by {
        assert(mid.len() > 0 ==> mid[0] == s@[i as int]);
    }
    let mut j: usize = n;
    assert(mid.take(n - i) =~= mid);
    while j > i && is_whitespace(s[j - 1])
        invariant
            n == s@.len(),
            i <= j <= n,
            mid == s@.skip(i as int),
            trim_end(mid) == trim_end(mid.take(j - i)),
        decreases j,
    {
        proof {
            lemma_trim_end_step(mid, (j - i) as int);
        }
        j = j - 1;
    }
    assert(trim_end(mid.take(j - i)) == mid.take(j - i)) by {
        let m = mid.take(j - i);
        assert(m.len() > 0 ==> m.last() == s@[j - 1]);
    }
    let mut t: Vec<char> = Vec::new();
    let mut k: usize = i;
    while k < j
        invariant
            i <= k <= j <= n,
            n == s@.len(),
            t@ == s@.subrange(i as int, k as int),
        decreases j - k,
    {
        t.push(s[k]);
        k = k + 1;
    }
    assert(t@ =~= mid.take(j - i));
    t
}

/// The characters of `s` with trailing copies of `c` removed.
pub fn trim_end_matches_char(s: &[char], c: char) -> (t: Vec<char>)
    ensures
        t@ == trim_end_char(s@, c),
{
    let n = s.len();
    let mut j: usize = n;
    assert(s@.take(n as int) =~= s@);
    while j > 0 && s[j - 1] == c
        invariant
            n == s@.len(),
            j <= n,
            trim_end_char(s@, c) == trim_end_char(s@.take(j as int), c),
        decreases j,
    {
        proof {
            lemma_trim_end_char_step(s@, j as int, c);
        }
        j = j - 1;
    }
    assert(s@.take(n as int) =~= s@);
    let mut t: Vec<char> = Vec::new();
    let mut k: usize = 0;
    while k < j
        invariant
            k <= j <= n,
            n == s@.len(),
            t@ == s@.subrange(0, k as int),
        decreases j - k,
    {
        t.push(s[k]);
        k = k + 1;
    }
    assert(t@ =~= s@.take(j as int));
    t
}

/// `s` is empty or made of whitespace only, as `s.trim().is_empty()` tests it.
pub fn is_blank(s: &str) -> (r: bool)
    ensures
        r == (trim(s@).len() == 0),
{
    let v = chars_of(s);
    let t = trim_chars(v.as_slice());
    t.len() == 0
}

/// The decimal digit character for `d < 10`.
pub open spec fn digit_char(d: nat) -> char {
    (48 + d) as char
}

/// The decimal representation of `n`, without sign or leading zeros.
pub open spec fn decimal(n: nat) -> Seq<char>
    decreases n,
{
    if n < 10 {
        seq![digit_char(n)]
    } else {
        decimal(n / 10).push(digit_char(n % 10))
    }
}

fn digit(d: u64) -> (c: char)
    requires
        d < 10,
    ensures
        c == digit_char(d as nat),
{
    match d {
        0 => '0',
        1 => '1',
        2 => '2',
        3 => '3',
        4 => '4',
        5 => '5',
        6 => '6',
        7 => '7',
        8 => '8',
        _ => '9',
    }
}

/// Appends the decimal representation of `n` to `out`.
pub fn push_decimal(out: &mut Vec<char>, n: u64)
    ensures
        final(out)@ == old(out)@ + decimal(n as nat),
    decreases n,
{
    if n >= 10 {
        push_decimal(out, n / 10);
    }
    out.push(digit(n % 10));
    assert(n < 10 ==> n % 10 == n);
}

/// `needle` occurs in `hay` at position `i`.
pub open spec fn occurs_at(hay: Seq<char>, needle: Seq<char>, i: int) -> bool {
    0 <= i && i + needle.len() <= hay.len() && hay.subrange(i, i + needle.len()) == needle
}

/// `needle` occurs somewhere in `hay`, as `str::contains` tests it.
pub open spec fn has_substring(hay: Seq<char>, needle: Seq<char>) -> bool {
    exists|i: int| occurs_at(hay, needle, i)
}

/// `needle` occurs in `hay` at position `i`.
pub fn matches_at(hay: &[char], needle: &[char], i: usize) -> (r: bool)
    ensures
        r == occurs_at(hay@, needle@, i as int),
{
    if i > hay.len() || needle.len() > hay.len() - i {
        return false;
    }
    let mut k: usize = 0;
    while k < needle.len()
        invariant
            i + needle@.len() <= hay@.len(),
            i + needle.len() <= hay.len(),
            k <= needle@.len(),
            forall|m: int| 0 <= m < k ==> hay@[i + m] == needle@[m],
        decreases needle@.len() - k,
    {
        if hay[i + k] != needle[k] {
            assert(hay@.subrange(i as int, i + needle@.len())[k as int] != needle@[k as int]);
            return false;
        }
        k = k + 1;
    }
    assert(hay@.subrange(i as int, i + needle@.len()) =~= needle@);
    true
}

/// `needle` occurs somewhere in `hay`.
pub fn contains_chars(hay: &[char], needle: &[char]) -> (r: bool)
    ensures
        r == has_substring(hay@, needle@),
{
    if needle.len() > hay.len() {
        return false;
    }
    let last = hay.len() - needle.len();
    let mut i: usize = 0;
    loop
        invariant
            last == hay@.len() - needle@.len(),
            needle@.len() <= hay@.len(),
            i <= last,
            forall|m: int| 0 <= m < i ==> !occurs_at(hay@, needle@, m),
        ensures
            forall|m: int| 0 <= m <= last ==> !occurs_at(hay@, needle@, m),
        decreases last - i,
    {
        if matches_at(hay, needle, i) {
            return true;
        }
        if i == last {
            break;
        }
        i = i + 1;
    }
    false
}

/// `s` starts with `p`.
pub fn starts_with_chars(s: &[char], p: &[char]) -> (r: bool)
    ensures
        r == (p@.len() <= s@.len() && s@.take(p@.len() as int) == p@),
{
    matches_at(s, p, 0)
}

/// `s` ends with `p`.
pub fn ends_with_chars(s: &[char], p: &[char]) -> (r: bool)
    ensures
        r == (p@.len() <= s@.len() && s@.skip(s@.len() - p@.len()) == p@),
{
    if p.len() > s.len() {
        return false;
    }
    let r = matches_at(s, p, s.len() - p.len());
    proof {
        assert(s@.skip(s@.len() - p@.len()) =~= s@.subrange(s@.len() - p@.len(), s@.len() as int));
    }
    r
}

/// The characters `s[from..to]`.
pub fn slice_chars(s: &[char], from: usize, to: usize) -> (t: Vec<char>)
    requires
        from <= to <= s@.len(),
    ensures
        t@ == s@.subrange(from as int, to as int),
{
    let mut t: Vec<char> = Vec::new();
    let mut k: usize = from;
    while k < to
        invariant
            from <= k <= to <= s@.len(),
            t@ == s@.subrange(from as int, k as int),
        decreases to - k,
    {
        t.push(s[k]);
        k = k + 1;
    }
    t
}

/// The concatenation of `a` and `b`.
pub fn concat_chars(a: &[char], b: &[char]) -> (t: Vec<char>)
    ensures
        t@ == a@ + b@,
{
    let mut t = slice_chars(a, 0, a.len());
    let mut k: usize = 0;
    while k < b.len()
        invariant
            k <= b@.len(),
            t@ == a@ + b@.take(k as int),
        decreases b@.len() - k,
    {
        t.push(b[k]);
        k = k + 1;
        assert(t@ =~= a@ + b@.take(k as int));
    }
    assert(b@.take(b@.len() as int) =~= b@);
    t
}

} // verus!

verus! {

/// The character view of an optional string.
pub open spec fn opt_view(o: Option<String>) -> Option<Seq<char>> {
    match o {
        Some(s) => Some(s@),
        None => None,
    }
}

/// The character views of a sequence of strings.
pub open spec fn strs_view(v: Seq<String>) -> Seq<Seq<char>> {
    v.map_values(|s: String| s@)
}

/// A copy of an optional string.
pub fn clone_opt(o: &Option<String>) -> (r: Option<String>)
    ensures
        opt_view(r) == opt_view(*o),
{
    match o {
        Some(s) => Some(s.clone()),
        None => None,
    }
}

/// A copy of a list of strings.
pub fn clone_strings(v: &Vec<String>) -> (r: Vec<String>)
    ensures
        strs_view(r@) == strs_view(v@),
{
    let mut r: Vec<String> = Vec::new();
    let mut i: usize = 0;
    while i < v.len()
        invariant
            i <= v@.len(),
            r@.len() == i,
            forall|k: int| 0 <= k < i ==> #[trigger] r@[k]@ == v@[k]@,
        decreases v@.len() - i,
    {
        r.push(v[i].clone());
        i = i + 1;
    }
    assert(strs_view(r@) =~= strs_view(v@));
    r
}

/// A copy of a byte buffer.
pub fn clone_bytes(v: &Vec<u8>) -> (r: Vec<u8>)
    ensures
        r@ == v@,
{
    let mut r: Vec<u8> = Vec::new();
    let mut i: usize = 0;
    while i < v.len()
        invariant
            i <= v@.len(),
            r@ == v@.take(i as int),
        decreases v@.len() - i,
    {
        r.push(v[i]);
        i = i + 1;
        assert(r@ =~= v@.take(i as int));
    }
    assert(v@.take(v@.len() as int) =~= v@);
    r
}

/// An owned copy of `s`.
pub fn owned(s: &str) -> (r: String)
    ensures
        r@ == s@,
{
    s.to_owned()
}

/// The index of the first string in `v` equal to `s`, if any.
pub fn position_of(v: &Vec<String>, s: &str) -> (r: Option<usize>)
    ensures
        r matches Some(i) ==> i < v@.len() && v@[i as int]@ == s@ && forall|k: int|
            0 <= k < i ==> v@[k]@ != s@,
        r is None ==> forall|k: int| 0 <= k < v@.len() ==> v@[k]@ != s@,
{
    let mut i: usize = 0;
    while i < v.len()
        invariant
            i <= v@.len(),
            forall|k: int| 0 <= k < i ==> v@[k]@ != s@,
        decreases v@.len() - i,
    {
        if str_eq(v[i].as_str(), s) {
            return Some(i);
        }
        i = i + 1;
    }
    None
}

/// `v` holds a string equal to `s`.
pub fn contains_str(v: &Vec<String>, s: &str) -> (r: bool)
    ensures
        r == strs_view(v@).contains(s@),
{
    let p = position_of(v, s);
    proof {
        if p is Some {
            assert(strs_view(v@)[p->0 as int] == s@);
        } else {
            assert forall|k: int| 0 <= k < strs_view(v@).len() implies strs_view(v@)[k] != s@ by {
                assert(v@[k]@ != s@);
            }
        }
    }
    p.is_some()
}

/// `v` without the strings equal to `s`, in order, as `retain(|x| x != s)` leaves it.
pub fn without_str(v: &Vec<String>, s: &str) -> (r: Vec<String>)
    ensures
        strs_view(r@) == strs_view(v@).filter(|x: Seq<char>| x != s@),
{
    let ghost pred = |x: Seq<char>| x != s@;
    let ghost sv = strs_view(v@);
    let mut r: Vec<String> = Vec::new();
    let mut i: usize = 0;
    while i < v.len()
        invariant
            sv == strs_view(v@),
            pred == (|x: Seq<char>| x != s@),
            i <= v@.len(),
            strs_view(r@) == sv.take(i as int).filter(pred),
        decreases v@.len() - i,
    {
        proof {
            reveal(Seq::filter);
            assert(sv.take(i + 1).drop_last() =~= sv.take(i as int));
            assert(sv.take(i + 1).last() == v@[i as int]@);
            assert(sv.take(i + 1).filter(pred) == if pred(v@[i as int]@) {
                sv.take(i as int).filter(pred).push(v@[i as int]@)
            } else {
                sv.take(i as int).filter(pred)
            });
        }
        let same = str_eq(v[i].as_str(), s);
        if !same {
            let ghost before = r@;
            r.push(v[i].clone());
            assert(strs_view(r@) =~= strs_view(before).push(v@[i as int]@));
        }
        i = i + 1;
    }
    assert(sv.take(v@.len() as int) =~= sv);
    r
}

} // verus!

verus! {

/// The number of leading characters of `s` that are not whitespace.
pub open spec fn word_len(s: Seq<char>) -> nat
    decreases s.len(),
{
    if s.len() == 0 || is_ws(s[0]) {
        0
    } else {
        1 + word_len(s.drop_first())
    }
}

/// The whitespace-separated words of `s`, as `str::split_whitespace` gives them.
pub open spec fn words(s: Seq<char>) -> Seq<Seq<char>>
    decreases s.len(),
{
    if s.len() == 0 {
        Seq::empty()
    } else if is_ws(s[0]) {
        words(s.drop_first())
    } else {
        let n = word_len(s);
        proof {
            lemma_word_len_bound(s);
        }
        seq![s.take(n as int)] + words(s.skip(n as int))
    }
}

/// A word has at most the length of the text.
pub proof fn lemma_word_len_bound(s: Seq<char>)
    ensures
        word_len(s) <= s.len(),
        s.len() > 0 && !is_ws(s[0]) ==> word_len(s) >= 1,
    decreases s.len(),
{
    if s.len() > 0 && !is_ws(s[0]) {
        lemma_word_len_bound(s.drop_first());
    }
}

proof fn lemma_words_skip_ws(s: Seq<char>, i: int)
    requires
        0 <= i < s.len(),
        is_ws(s[i]),
    ensures
        words(s.skip(i)) == words(s.skip(i + 1)),
{
    assert(s.skip(i).drop_first() =~= s.skip(i + 1));
}

proof fn lemma_word_len_step(s: Seq<char>, k: int)
    requires
        0 <= k < s.len(),
        !is_ws(s[k]),
    ensures
        word_len(s.skip(k)) == 1 + word_len(s.skip(k + 1)),
{
    assert(s.skip(k).drop_first() =~= s.skip(k + 1));
}

/// The whitespace-separated words of `s`.
pub fn split_whitespace(s: &[char]) -> (r: Vec<Vec<char>>)
    ensures
        r@.map_values(|w: Vec<char>| w@) == words(s@),
{
    let mut r: Vec<Vec<char>> = Vec::new();
    let mut i: usize = 0;
    assert(s@.skip(0) =~= s@);
    while i < s.len()
        invariant
            i <= s@.len(),
            words(s@) == r@.map_values(|w: Vec<char>| w@) + words(s@.skip(i as int)),
        decreases s@.len() - i,
    {
        if is_whitespace(s[i]) {
            proof {
                lemma_words_skip_ws(s@, i as int);
            }
            i = i + 1;
        } else {
            let mut j: usize = i;
            assert(s@.skip(i as int) =~= s@.skip(j as int));
            while j < s.len() && !is_whitespace(s[j])
                invariant
                    i <= j <= s@.len(),
                    word_len(s@.skip(i as int)) == (j - i) + word_len(s@.skip(j as int)),
                decreases s@.len() - j,
            {
                proof {
                    lemma_word_len_step(s@, j as int);
                }
                j = j + 1;
            }
            assert(word_len(s@.skip(j as int)) == 0);
            let w = slice_chars(s, i, j);
            proof {
                let t = s@.skip(i as int);
                assert(t.len() > 0 && !is_ws(t[0]));
                assert(t.take((j - i) as int) =~= w@);
                assert(t.skip((j - i) as int) =~= s@.skip(j as int));
                assert(words(t) == seq![w@] + words(s@.skip(j as int)));
            }
            let ghost before = r@.map_values(|w: Vec<char>| w@);
            r.push(w);
            assert(r@.map_values(|w: Vec<char>| w@) =~= before.push(s@.subrange(i as int, j as int)));
            i = j;
        }
    }
    r
}

/// The position of the first `c` in `s`, or `s.len()` when there is none.
pub open spec fn char_index(s: Seq<char>, c: char) -> nat
    decreases s.len(),
{
    if s.len() == 0 || s[0] == c {
        0
    } else {
        1 + char_index(s.drop_first(), c)
    }
}

/// `char_index` is at most the length.
pub proof fn lemma_char_index_bound(s: Seq<char>, c: char)
    ensures
        char_index(s, c) <= s.len(),
        char_index(s, c) < s.len() ==> s[char_index(s, c) as int] == c,
        forall|j: int| 0 <= j < char_index(s, c) ==> s[j] != c,
    decreases s.len(),
{
    if s.len() > 0 && s[0] != c {
        lemma_char_index_bound(s.drop_first(), c);
        assert forall|j: int| 0 <= j < char_index(s, c) implies s[j] != c by {
            if j > 0 {
                assert(s[j] == s.drop_first()[j - 1]);
            }
        }
    }
}

/// `l` without a final `\r`.
pub open spec fn strip_cr(l: Seq<char>) -> Seq<char> {
    if l.len() > 0 && l.last() == '\r' {
        l.drop_last()
    } else {
        l
    }
}

/// The lines of `s`, as `str::lines` gives them: split after each `\n`,
/// without the `\n` or a `\r` before it, and without an empty last line.
pub open spec fn lines(s: Seq<char>) -> Seq<Seq<char>>
    decreases s.len(),
{
    if s.len() == 0 {
        Seq::empty()
    } else {
        let i = char_index(s, '\n');
        proof {
            lemma_char_index_bound(s, '\n');
        }
        if i == s.len() {
            seq![s]
        } else {
            seq![strip_cr(s.take(i as int))] + lines(s.skip(i as int + 1))
        }
    }
}

proof fn lemma_char_index_step(s: Seq<char>, k: int, c: char)
    requires
        0 <= k < s.len(),
        s[k] != c,
    ensures
        char_index(s.skip(k), c) == 1 + char_index(s.skip(k + 1), c),
{
    assert(s.skip(k).drop_first() =~= s.skip(k + 1));
}

/// The position of the first `c` in `s`, or its length when there is none.
pub fn find_char(s: &[char], c: char) -> (r: usize)
    ensures
        r == char_index(s@, c),
{
    let mut j: usize = 0;
    assert(s@.skip(0) =~= s@);
    while j < s.len() && s[j] != c
        invariant
            j <= s@.len(),
            char_index(s@, c) == j + char_index(s@.skip(j as int), c),
        decreases s@.len() - j,
    {
        proof {
            lemma_char_index_step(s@, j as int, c);
        }
        j = j + 1;
    }
    if j == s.len() {
        assert(s@.skip(j as int) =~= Seq::<char>::empty());
    } else {
        assert(s@.skip(j as int)[0] == c);
    }
    j
}

/// `s` without its leading copies of `c`, as `str::trim_start_matches(c)` gives it.
pub open spec fn trim_start_char(s: Seq<char>, c: char) -> Seq<char>
    decreases s.len(),
{
    if s.len() > 0 && s[0] == c {
        trim_start_char(s.drop_first(), c)
    } else {
        s
    }
}

/// The characters of `s` with leading copies of `c` removed.
pub fn trim_start_matches_char(s: &[char], c: char) -> (t: Vec<char>)
    ensures
        t@ == trim_start_char(s@, c),
{
    let mut i: usize = 0;
    assert(s@.skip(0) =~= s@);
    while i < s.len() && s[i] == c
        invariant
            i <= s@.len(),
            trim_start_char(s@, c) == trim_start_char(s@.skip(i as int), c),
        decreases s@.len() - i,
    {
        assert(s@.skip(i as int).drop_first() =~= s@.skip(i + 1));
        i = i + 1;
    }
    let t = slice_chars(s, i, s.len());
    assert(t@ =~= s@.skip(i as int));
    t
}

/// The lines of `s`.
pub fn split_lines(s: &[char]) -> (r: Vec<Vec<char>>)
    ensures
        r@.map_values(|w: Vec<char>| w@) == lines(s@),
{
    let mut r: Vec<Vec<char>> = Vec::new();
    let mut i: usize = 0;
    assert(s@.skip(0) =~= s@);
    while i < s.len()
        invariant
            i <= s@.len(),
            lines(s@) == r@.map_values(|w: Vec<char>| w@) + lines(s@.skip(i as int)),
        decreases s@.len() - i,
    {
        let mut j: usize = i;
        assert(s@.skip(i as int) =~= s@.skip(j as int));
        while j < s.len() && s[j] != '\n'
            invariant
                i <= j <= s@.len(),
                char_index(s@.skip(i as int), '\n') == (j - i) + char_index(
                    s@.skip(j as int),
                    '\n',
                ),
            decreases s@.len() - j,
        {
            proof {
                lemma_char_index_step(s@, j as int, '\n');
            }
            j = j + 1;
        }
        let ghost t = s@.skip(i as int);
        let ghost before = r@.map_values(|w: Vec<char>| w@);
        if j == s.len() {
            let w = slice_chars(s, i, j);
            assert(char_index(t, '\n') == t.len());
            assert(w@ =~= t);
            assert(lines(t) == seq![t]);
            r.push(w);
            assert(r@.map_values(|w: Vec<char>| w@) =~= before.push(t));
            assert(s@.skip(j as int) =~= Seq::<char>::empty());
            i = j;
        } else {
            let mut end = j;
            if end > i && s[end - 1] == '\r' {
                end = end - 1;
            }
            let w = slice_chars(s, i, end);
            assert(char_index(s@.skip(j as int), '\n') == 0);
            assert(char_index(t, '\n') == j - i);
            assert(w@ =~= strip_cr(t.take((j - i) as int)));
            assert(t.skip((j - i) + 1) =~= s@.skip(j + 1));
            assert(lines(t) == seq![w@] + lines(s@.skip(j + 1)));
            r.push(w);
            assert(r@.map_values(|w: Vec<char>| w@) =~= before.push(w@));
            i = j + 1;
        }
    }
    assert(s@.skip(i as int) =~= Seq::<char>::empty());
    r
}

} // verus!

verus! {

/// Every character of `s` is an ASCII digit.
pub open spec fn all_digits(s: Seq<char>) -> bool {
    forall|i: int| 0 <= i < s.len() ==> '0' <= #[trigger] s[i] && s[i] <= '9'
}

/// The value of a string of decimal digits.
pub open spec fn digits_value(s: Seq<char>) -> nat
    decreases s.len(),
{
    if s.len() == 0 {
        0
    } else {
        digits_value(s.drop_last()) * 10 + ((s.last() as nat) - 48) as nat
    }
}

/// The value `str::parse` gives an unsigned integer written `s`: an
/// optional `+`, then one or more ASCII digits.
pub open spec fn parsed_unsigned(s: Seq<char>) -> Option<nat> {
    let body = if s.len() > 0 && s[0] == '+' {
        s.drop_first()
    } else {
        s
    };
    if body.len() > 0 && all_digits(body) {
        Some(digits_value(body))
    } else {
        None
    }
}

/// The value `str::parse` gives a signed integer written `s`: an optional
/// `+` or `-`, then one or more ASCII digits.
pub open spec fn parsed_signed(s: Seq<char>) -> Option<int> {
    if s.len() > 0 && s[0] == '-' {
        let body = s.drop_first();
        if body.len() > 0 && all_digits(body) {
            Some(-(digits_value(body) as int))
        } else {
            None
        }
    } else {
        match parsed_unsigned(s) {
            Some(v) => Some(v as int),
            None => None,
        }
    }
}

proof fn lemma_digits_value_grows(s: Seq<char>, i: int)
    requires
        0 <= i < s.len(),
        all_digits(s),
    ensures
        digits_value(s.take(i + 1)) == digits_value(s.take(i)) * 10 + ((s[i] as nat) - 48),
        digits_value(s.take(i + 1)) >= digits_value(s.take(i)),
{
    assert(s.take(i + 1).drop_last() =~= s.take(i));
}

proof fn lemma_digits_value_mono(s: Seq<char>, i: int)
    requires
        0 <= i <= s.len(),
        all_digits(s),
    ensures
        digits_value(s) >= digits_value(s.take(i)),
    decreases s.len() - i,
{
    if i < s.len() {
        lemma_digits_value_grows(s, i);
        lemma_digits_value_mono(s, i + 1);
    } else {
        assert(s.take(i) =~= s);
    }
}

/// The value of the digit string `s` when it is at most `cap`; `None` when
/// `s` is empty, holds a non-digit, or is worth more than `cap`.
fn digits_up_to(s: &[char], from: usize, cap: u64) -> (r: Option<u64>)
    requires
        from <= s@.len(),
        9 <= cap <= 0xFFFF_FFFF,
    ensures
        ({
            let b = s@.skip(from as int);
            match r {
                Some(v) => b.len() > 0 && all_digits(b) && v == digits_value(b) && v <= cap,
                None => b.len() == 0 || !all_digits(b) || digits_value(b) > cap,
            }
        }),
{
    let ghost b = s@.skip(from as int);
    if from == s.len() {
        return None;
    }
    let mut v: u64 = 0;
    let mut i: usize = from;
    while i < s.len()
        invariant
            from <= i <= s@.len(),
            b == s@.skip(from as int),
            9 <= cap <= 0xFFFF_FFFF,
            forall|k: int| 0 <= k < i - from ==> '0' <= #[trigger] b[k] && b[k] <= '9',
            v == digits_value(b.take(i - from)),
            v <= cap,
        decreases s@.len() - i,
    {
        let c = s[i];
        if !('0' <= c && c <= '9') {
            assert(!all_digits(b)) by {
                assert(b[i - from] == c);
            }
            return None;
        }
        let d = (c as u64) - 48;
        proof {
            assert(b.take(i - from + 1).drop_last() =~= b.take(i - from));
            assert(b.take(i - from + 1).last() == c);
        }
        if v > (cap - d) / 10 {
            proof {
                assert(digits_value(b.take(i - from + 1)) == v * 10 + d);
                assert(v * 10 + d > cap) by (nonlinear_arith)
                    requires
                        v > (cap - d) / 10,
                        d <= 9,
                        d <= cap,
                ;
                if all_digits(b) {
                    lemma_digits_value_mono(b, i - from + 1);
                }
            }
            return None;
        }
        assert(v * 10 + d <= cap) by (nonlinear_arith)
            requires
                v <= (cap - d) / 10,
                d <= cap,
        ;
        v = v * 10 + d;
        i = i + 1;
    }
    assert(b.take(i - from) =~= b);
    Some(v)
}

/// Parses a `u16` as `str::parse::<u16>` does.
pub fn parse_u16(s: &[char]) -> (r: Option<u16>)
    ensures
        match r {
            Some(v) => parsed_unsigned(s@) == Some(v as nat),
            None => !(parsed_unsigned(s@) matches Some(v) && v <= 0xFFFF),
        },
{
    match parse_unsigned_up_to(s, 0xFFFF) {
        Some(v) => Some(v as u16),
        None => None,
    }
}

/// Parses a `u32` as `str::parse::<u32>` does.
pub fn parse_u32(s: &[char]) -> (r: Option<u32>)
    ensures
        match r {
            Some(v) => parsed_unsigned(s@) == Some(v as nat),
            None => !(parsed_unsigned(s@) matches Some(v) && v <= 0xFFFF_FFFF),
        },
{
    match parse_unsigned_up_to(s, 0xFFFF_FFFF) {
        Some(v) => Some(v as u32),
        None => None,
    }
}

fn parse_unsigned_up_to(s: &[char], cap: u64) -> (r: Option<u64>)
    requires
        9 <= cap <= 0xFFFF_FFFF,
    ensures
        match r {
            Some(v) => parsed_unsigned(s@) == Some(v as nat) && v <= cap,
            None => !(parsed_unsigned(s@) matches Some(v) && v <= cap),
        },
{
    let from: usize = if s.len() > 0 && s[0] == '+' { 1 } else { 0 };
    assert(from == 1 ==> s@.skip(1) =~= s@.drop_first());
    assert(s@.skip(0) =~= s@);
    digits_up_to(s, from, cap)
}

/// Parses an `i32` as `str::parse::<i32>` does.
pub fn parse_i32(s: &[char]) -> (r: Option<i32>)
    ensures
        match r {
            Some(v) => parsed_signed(s@) == Some(v as int),
            None => !(parsed_signed(s@) matches Some(v) && -0x8000_0000 <= v <= 0x7FFF_FFFF),
        },
{
    if s.len() > 0 && s[0] == '-' {
        assert(s@.skip(1) =~= s@.drop_first());
        match digits_up_to(s, 1, 0x8000_0000) {
            Some(v) => Some((0 - (v as i64)) as i32),
            None => None,
        }
    } else {
        match parse_unsigned_up_to(s, 0x7FFF_FFFF) {
            Some(v) => Some(v as i32),
            None => None,
        }
    }
}

} // verus!
