//! The HTTP side of the server: the launch redirect, the local-only proxy
//! for browser panes, and what it does to the pages it forwards.
use vstd::prelude::*;
use crate::bindings::{
    lossy_decode, lowercase, percent_encoded, regex_captures, regex_matches, to_lowercase,
    url_encode, utf8_lossy,
};
use crate::state::AppState;
use crate::git::{splitn_char, splitn_chars};
use crate::text::{
    all_digits, char_index, chars_of, digits_value, concat_chars, find_char, has_substring, contains_chars, is_blank,
    owned, parse_u32, slice_chars, ends_with_chars, str_eq,
    opt_view, string_of, trim, trim_end_char, trim_end_matches_char, trim_start_char,
    trim_start_matches_char,
};
use vstd::utf8::encode_utf8;

verus! {

/// `a` followed by `b`.
fn cat(a: &str, b: &str) -> (r: String)
    ensures
        r@ == a@ + b@,
{
    string_of(concat_chars(chars_of(a).as_slice(), chars_of(b).as_slice()).as_slice())
}

/// The dashboard path that carries the tunnel URL and the token, each URL-encoded.
pub open spec fn launch_path(tunnel_url: Seq<char>, token: Seq<char>) -> Seq<char> {
    "/dashboard/?tunnel="@ + percent_encoded(encode_utf8(tunnel_url)) + "&token="@
        + percent_encoded(encode_utf8(token))
}

/// Where the launch redirect goes: the dashboard path alone when the
/// frontend URL is blank or `/`, else after the frontend URL with its
/// trailing slashes removed.
pub open spec fn launch_url_of(frontend_url: Seq<char>, tunnel_url: Seq<char>, token: Seq<char>) -> Seq<char> {
    if trim(frontend_url).len() == 0 || frontend_url == "/"@ {
        launch_path(tunnel_url, token)
    } else {
        trim_end_char(frontend_url, '/') + launch_path(tunnel_url, token)
    }
}

/// The URL that signs a browser in to the dashboard with the given tunnel
/// URL and token.
pub fn build_launch_url(frontend_url: &str, tunnel_url: &str, auth_token: &str) -> (r: String)
    ensures
        r@ == launch_url_of(frontend_url@, tunnel_url@, auth_token@),
{
    let encoded_tunnel = url_encode(tunnel_url);
    let encoded_token = url_encode(auth_token);
    let path = cat(
        cat(cat("/dashboard/?tunnel=", encoded_tunnel.as_str()).as_str(), "&token=").as_str(),
        encoded_token.as_str(),
    );
    if is_blank(frontend_url) || str_eq(frontend_url, "/") {
        path
    } else {
        let base = trim_end_matches_char(chars_of(frontend_url).as_slice(), '/');
        string_of(concat_chars(base.as_slice(), chars_of(path.as_str()).as_slice()).as_slice())
    }
}

impl AppState {
    /// Where `/launch` redirects: the dashboard of this server's frontend,
    /// signed in with its tunnel URL and token.
    pub fn launch_url(&self) -> (r: String)
        ensures
            r@ == launch_url_of(self.frontend_url@, self.tunnel_url@, self.auth_token@),
    {
        build_launch_url(self.frontend_url.as_str(), self.tunnel_url.as_str(), self.auth_token.as_str())
    }
}

/// `s` ends with `p`.
pub open spec fn ends_with(s: Seq<char>, p: Seq<char>) -> bool {
    p.len() <= s.len() && s.skip(s.len() - p.len()) == p
}

/// The host of `host:port`: everything before the first `:`.
pub open spec fn host_only(host_port: Seq<char>) -> Seq<char> {
    host_port.take(char_index(host_port, ':') as int)
}

/// The value of one decimal octet of an IPv4 address: one or more ASCII
/// digits worth at most 255.
pub open spec fn octet_value(p: Seq<char>) -> Option<nat> {
    if p.len() > 0 && all_digits(p) && digits_value(p) <= 255 {
        Some(digits_value(p))
    } else {
        None
    }
}

/// The four octets of a dotted-decimal IPv4 address, if `host` is one.
pub open spec fn ipv4_octets(host: Seq<char>) -> Option<(nat, nat, nat, nat)> {
    let ps = splitn_char(host, '.', 5);
    if ps.len() == 4 {
        match (octet_value(ps[0]), octet_value(ps[1]), octet_value(ps[2]), octet_value(ps[3])) {
            (Some(a), Some(b), Some(c), Some(d)) => Some((a, b, c, d)),
            _ => None,
        }
    } else {
        None
    }
}

/// An IPv4 address in a private range: 10.0.0.0/8, 172.16.0.0/12 or
/// 192.168.0.0/16.
pub open spec fn is_private_ipv4(host: Seq<char>) -> bool {
    match ipv4_octets(host) {
        Some((a, b, _, _)) => a == 10 || (a == 172 && 16 <= b <= 31) || (a == 192 && b == 168),
        None => false,
    }
}

/// The hosts the proxy agrees to reach: this machine, addresses in the
/// private IPv4 ranges, and `.local` names.
pub open spec fn is_local_host(host: Seq<char>) -> bool {
    ||| host == "localhost"@
    ||| host == "127.0.0.1"@
    ||| host == "::1"@
    ||| is_private_ipv4(host)
    ||| ends_with(host, ".local"@)
}

/// The value of an octet's text, as `octet_value` reads it.
fn octet_of(p: &Vec<char>) -> (r: Option<u32>)
    ensures
        match octet_value(p@) {
            Some(v) => r == Some(v as u32),
            None => r is None,
        },
{
    if p.len() == 0 || p[0] == '+' {
        proof {
            if p@.len() > 0 {
                assert(!('0' <= p@[0] && p@[0] <= '9'));
            }
        }
        return None;
    }
    proof {
        assert(!(p@.len() > 0 && p@[0] == '+'));
    }
    match parse_u32(p.as_slice()) {
        Some(v) => {
            if v <= 255 {
                Some(v)
            } else {
                None
            }
        },
        None => None,
    }
}

/// The octets of `host` when it is a dotted-decimal IPv4 address.
fn ipv4_of(host: &Vec<char>) -> (r: Option<(u32, u32, u32, u32)>)
    ensures
        match ipv4_octets(host@) {
            Some((a, b, c, d)) => r == Some((a as u32, b as u32, c as u32, d as u32)),
            None => r is None,
        },
{
    let ps = splitn_chars(host.as_slice(), '.', 5);
    let ghost pv = ps@.map_values(|w: Vec<char>| w@);
    if ps.len() != 4 {
        return None;
    }
    assert(pv[0] == ps@[0]@ && pv[1] == ps@[1]@ && pv[2] == ps@[2]@ && pv[3] == ps@[3]@);
    match (octet_of(&ps[0]), octet_of(&ps[1]), octet_of(&ps[2]), octet_of(&ps[3])) {
        (Some(a), Some(b), Some(c), Some(d)) => Some((a, b, c, d)),
        _ => None,
    }
}

/// Whether the proxy may reach `host`.
pub fn is_local(host: &str) -> (r: bool)
    ensures
        r == is_local_host(host@),
{
    if str_eq(host, "localhost") || str_eq(host, "127.0.0.1") || str_eq(host, "::1") {
        return true;
    }
    let h = chars_of(host);
    let private = match ipv4_of(&h) {
        Some((a, b, _, _)) => a == 10 || (a == 172 && 16 <= b && b <= 31) || (a == 192 && b == 168),
        None => false,
    };
    private || ends_with_chars(h.as_slice(), chars_of(".local").as_slice())
}

/// Why the proxy refused a request.
pub enum ProxyError {
    /// The path is not `<http|https>/<host[:port]>[/path]`.
    InvalidTarget,
    /// The host is not local.
    NonLocalHost,
}

impl ProxyError {
    /// The HTTP status of the refusal: 400 or 403.
    pub fn status(&self) -> (r: u16)
        ensures
            r == (match self {
                ProxyError::InvalidTarget => 400u16,
                ProxyError::NonLocalHost => 403u16,
            }),
    {
        match self {
            ProxyError::InvalidTarget => 400,
            ProxyError::NonLocalHost => 403,
        }
    }

    /// The plain-text body of the refusal.
    pub fn text(&self) -> (r: String)
        ensures
            r@ == (match self {
                ProxyError::InvalidTarget => "Invalid proxy target format. Use /proxy/http/host:port/path"@,
                ProxyError::NonLocalHost => "Only local URLs allowed"@,
            }),
    {
        match self {
            ProxyError::InvalidTarget => owned("Invalid proxy target format. Use /proxy/http/host:port/path"),
            ProxyError::NonLocalHost => owned("Only local URLs allowed"),
        }
    }
}

/// A proxied request: the upstream URL, and the path prefix under which
/// the upstream's root-relative links are served.
pub struct ProxyRequest {
    pub url: String,
    pub prefix: String,
    pub host_port: String,
}

/// The scheme, `host[:port]` and path (empty or from its `/`) of a proxy
/// target, once leading slashes are dropped; `None` unless the scheme is
/// `http` or `https` and is followed by `/`.
pub open spec fn proxy_parts(target: Seq<char>) -> Option<(Seq<char>, Seq<char>, Seq<char>)> {
    let t = trim_start_char(target, '/');
    let k = char_index(t, '/');
    let scheme = t.take(k as int);
    if k < t.len() && (scheme == "http"@ || scheme == "https"@) {
        let rest = t.skip(k as int + 1);
        let j = char_index(rest, '/');
        Some((scheme, rest.take(j as int), rest.skip(j as int)))
    } else {
        None
    }
}

/// What the proxy does with `target`: refuse it, or fetch
/// `scheme://host_port/path` and serve it under `/proxy/scheme/host_port`.
pub open spec fn proxy_decision(target: Seq<char>) -> Result<(Seq<char>, Seq<char>, Seq<char>), ProxyError> {
    match proxy_parts(target) {
        None => Err(ProxyError::InvalidTarget),
        Some((scheme, host_port, path)) => if is_local_host(host_only(host_port)) {
            Ok((scheme + "://"@ + host_port + path, "/proxy/"@ + scheme + "/"@ + host_port, host_port))
        } else {
            Err(ProxyError::NonLocalHost)
        },
    }
}

/// Reads the target of `/proxy/<target>` and decides whether to fetch it.
pub fn parse_proxy_target(target: &str) -> (r: Result<ProxyRequest, ProxyError>)
    ensures
        match (r, proxy_decision(target@)) {
            (Ok(req), Ok((url, prefix, host_port))) => req.url@ == url && req.prefix@ == prefix
                && req.host_port@ == host_port,
            (Err(e), Err(f)) => e == f,
            _ => false,
        },
{
    let t = trim_start_matches_char(chars_of(target).as_slice(), '/');
    let k = find_char(t.as_slice(), '/');
    if k >= t.len() {
        return Err(ProxyError::InvalidTarget);
    }
    let scheme = string_of(slice_chars(t.as_slice(), 0, k).as_slice());
    assert(t@.subrange(0, k as int) =~= t@.take(k as int));
    if !(str_eq(scheme.as_str(), "http") || str_eq(scheme.as_str(), "https")) {
        return Err(ProxyError::InvalidTarget);
    }
    let rest = slice_chars(t.as_slice(), k + 1, t.len());
    assert(rest@ =~= t@.skip(k + 1));
    let j = find_char(rest.as_slice(), '/');
    proof {
        crate::text::lemma_char_index_bound(rest@, '/');
    }
    let host_port = string_of(slice_chars(rest.as_slice(), 0, j).as_slice());
    let path = string_of(slice_chars(rest.as_slice(), j, rest.len()).as_slice());
    assert(rest@.subrange(0, j as int) =~= rest@.take(j as int));
    assert(rest@.subrange(j as int, rest@.len() as int) =~= rest@.skip(j as int));
    let hp = chars_of(host_port.as_str());
    let c = find_char(hp.as_slice(), ':');
    proof {
        crate::text::lemma_char_index_bound(hp@, ':');
    }
    let host = string_of(slice_chars(hp.as_slice(), 0, c).as_slice());
    assert(hp@.subrange(0, c as int) =~= hp@.take(c as int));
    if !is_local(host.as_str()) {
        return Err(ProxyError::NonLocalHost);
    }
    let url = cat(cat(cat(scheme.as_str(), "://").as_str(), host_port.as_str()).as_str(), path.as_str());
    let prefix = cat(cat(cat("/proxy/", scheme.as_str()).as_str(), "/").as_str(), host_port.as_str());
    Ok(ProxyRequest { url, prefix, host_port })
}

/// A content type that the proxy treats as a web page.
pub open spec fn is_html_type(content_type: Seq<char>) -> bool {
    has_substring(content_type, "text/html"@) || has_substring(content_type, "application/xhtml"@)
}

/// The content type the proxy forwards: the upstream's, or `text/html`
/// when it sent none readable.
pub open spec fn content_type_of(upstream: Option<Seq<char>>) -> Seq<char> {
    match upstream {
        Some(t) => t,
        None => "text/html"@,
    }
}

/// Whether a forwarded page is HTML, by its content type.
pub fn is_html(content_type: &str) -> (r: bool)
    ensures
        r == is_html_type(content_type@),
{
    let c = chars_of(content_type);
    contains_chars(c.as_slice(), chars_of("text/html").as_slice()) || contains_chars(
        c.as_slice(),
        chars_of("application/xhtml").as_slice(),
    )
}

/// Whether an upstream header (by its lowercase name) is passed on: never
/// the headers that would stop the page from being framed, nor the length
/// of a page whose body is rewritten.
pub open spec fn forwards_header_named(lower: Seq<char>, html: bool) -> bool {
    &&& lower != "x-frame-options"@
    &&& lower != "content-security-policy"@
    &&& lower != "content-security-policy-report-only"@
    &&& !(lower == "content-length"@ && html)
}

/// Whether the proxy passes on the upstream header `name`.
pub fn forwards_header(name: &str, html: bool) -> (r: bool)
    ensures
        r == forwards_header_named(lowercase(name@), html),
{
    let lower = to_lowercase(name);
    let l = lower.as_str();
    if str_eq(l, "x-frame-options") || str_eq(l, "content-security-policy") || str_eq(
        l,
        "content-security-policy-report-only",
    ) {
        return false;
    }
    !(str_eq(l, "content-length") && html)
}

/// A match as the regex binding reports it: its start and end, and the
/// span of its first group, in bytes.
pub open spec fn match_ok(c: (usize, usize, Option<(usize, usize)>), n: nat) -> bool {
    match c.2 {
        Some((gs, ge)) => c.0 <= gs && gs <= ge && ge <= c.1 && c.1 <= n,
        None => false,
    }
}

/// The matches lie within a haystack of `n` bytes, in order and without
/// overlap, each with its first group inside it.
pub open spec fn captures_ok(caps: Seq<(usize, usize, Option<(usize, usize)>)>, n: nat) -> bool {
    &&& forall|i: int| 0 <= i < caps.len() ==> match_ok(#[trigger] caps[i], n)
    &&& forall|i: int, j: int| #![trigger caps[i], caps[j]] 0 <= i < j < caps.len() ==> caps[i].1 <= caps[j].0
}

/// The bytes the first group of match `c` covers.
pub open spec fn group_text(hay: Seq<u8>, c: (usize, usize, Option<(usize, usize)>)) -> Seq<u8> {
    match c.2 {
        Some((gs, ge)) => hay.subrange(gs as int, ge as int),
        None => Seq::empty(),
    }
}

/// `hay` from `pos` on, with matches `i..` each replaced by `before`, its
/// first group, and `after`.
pub open spec fn spliced(
    hay: Seq<u8>,
    caps: Seq<(usize, usize, Option<(usize, usize)>)>,
    before: Seq<u8>,
    after: Seq<u8>,
    i: int,
    pos: int,
) -> Seq<u8>
    decreases caps.len() - i,
{
    if i < 0 || i >= caps.len() {
        hay.subrange(pos, hay.len() as int)
    } else {
        hay.subrange(pos, caps[i].0 as int) + before + group_text(hay, caps[i]) + after + spliced(
            hay,
            caps,
            before,
            after,
            i + 1,
            caps[i].1 as int,
        )
    }
}

/// The first `limit` matches, or all of them when `limit` is 0.
pub open spec fn limited<T>(caps: Seq<T>, limit: nat) -> Seq<T> {
    if limit == 0 || limit >= caps.len() {
        caps
    } else {
        caps.take(limit as int)
    }
}

/// `out` followed by `src[from..to]`.
fn push_range(out: &mut Vec<u8>, src: &[u8], from: usize, to: usize)
    requires
        from <= to <= src@.len(),
    ensures
        final(out)@ == old(out)@ + src@.subrange(from as int, to as int),
{
    let ghost start = out@;
    let mut k: usize = from;
    while k < to
        invariant
            from <= k <= to <= src@.len(),
            out@ == start + src@.subrange(from as int, k as int),
        decreases to - k,
    {
        out.push(src[k]);
        k = k + 1;
        assert(out@ =~= start + src@.subrange(from as int, k as int));
    }
}

/// Replaces the first `limit` of the matches `caps` in `hay` (all of them
/// when `limit` is 0) by `before`, the match's first group, and `after`, as
/// `replacen` does with such a replacement.
pub fn splice_captures(
    hay: &[u8],
    caps: &[(usize, usize, Option<(usize, usize)>)],
    limit: usize,
    before: &[u8],
    after: &[u8],
) -> (r: Vec<u8>)
    requires
        captures_ok(caps@, hay@.len()),
    ensures
        r@ == spliced(hay@, limited(caps@, limit as nat), before@, after@, 0, 0),
{
    let m: usize = if limit == 0 || limit >= caps.len() { caps.len() } else { limit };
    let ghost c = limited(caps@, limit as nat);
    assert(c.len() == m);
    assert(forall|k: int| 0 <= k < m ==> c[k] == caps@[k]);
    let mut out: Vec<u8> = Vec::new();
    let mut pos: usize = 0;
    let mut i: usize = 0;
    while i < m
        invariant
            i <= m <= caps@.len(),
            c.len() == m,
            forall|k: int| 0 <= k < m ==> c[k] == caps@[k],
            captures_ok(caps@, hay@.len()),
            pos <= hay@.len(),
            i == 0 ==> pos == 0,
            i > 0 ==> pos == caps@[i - 1].1,
            out@ + spliced(hay@, c, before@, after@, i as int, pos as int) == spliced(
                hay@,
                c,
                before@,
                after@,
                0,
                0,
            ),
        decreases m - i,
    {
        let (s, e, g) = caps[i];
        assert(match_ok(caps@[i as int], hay@.len()));
        if i > 0 {
            assert(caps@[i - 1].1 <= caps@[i as int].0);
        }
        let (gs, ge) = match g {
            Some(span) => span,
            None => (0, 0),
        };
        let ghost before_out = out@;
        push_range(&mut out, hay, pos, s);
        push_range(&mut out, before, 0, before.len());
        push_range(&mut out, hay, gs, ge);
        push_range(&mut out, after, 0, after.len());
        assert(before@.subrange(0, before@.len() as int) =~= before@);
        assert(after@.subrange(0, after@.len() as int) =~= after@);
        assert(out@ + spliced(hay@, c, before@, after@, i + 1, e as int) =~= before_out + spliced(
            hay@,
            c,
            before@,
            after@,
            i as int,
            pos as int,
        ));
        pos = e;
        i = i + 1;
    }
    push_range(&mut out, hay, pos, hay.len());
    assert(out@ =~= spliced(hay@, c, before@, after@, 0, 0));
    out
}

/// `hay` with the first `limit` matches of `pattern` (all when `limit` is
/// 0) replaced by `before`, the match's first group, and `after`; `hay`
/// unchanged when the pattern does not compile or its matches are not as
/// `captures_ok` describes.
pub open spec fn replaced(
    pattern: Seq<char>,
    hay: Seq<u8>,
    limit: nat,
    before: Seq<u8>,
    after: Seq<u8>,
) -> Seq<u8> {
    match regex_matches(pattern, hay) {
        Some(caps) => if captures_ok(caps, hay.len()) {
            spliced(hay, limited(caps, limit), before, after, 0, 0)
        } else {
            hay
        },
        None => hay,
    }
}

/// Whether each match lies as `captures_ok` describes.
fn check_captures(caps: &Vec<(usize, usize, Option<(usize, usize)>)>, n: usize) -> (r: bool)
    ensures
        r == captures_ok(caps@, n as nat),
{
    let mut i: usize = 0;
    let mut last_end: usize = 0;
    while i < caps.len()
        invariant
            i <= caps@.len(),
            forall|k: int| 0 <= k < i ==> match_ok(#[trigger] caps@[k], n as nat),
            forall|a: int, b: int| #![trigger caps@[a], caps@[b]] 0 <= a < b < i ==> caps@[a].1 <= caps@[b].0,
            i > 0 ==> last_end == caps@[i - 1].1,
            forall|k: int| 0 <= k < i ==> caps@[k].1 <= last_end,
        decreases caps@.len() - i,
    {
        let (s, e, g) = caps[i];
        let ok = match g {
            Some((gs, ge)) => s <= gs && gs <= ge && ge <= e && e <= n,
            None => false,
        };
        if !ok {
            assert(!match_ok(caps@[i as int], n as nat));
            return false;
        }
        if i > 0 && last_end > s {
            assert(caps@[i - 1].1 > caps@[i as int].0);
            return false;
        }
        i = i + 1;
        last_end = e;
    }
    true
}

/// `hay` with the matches of `pattern` replaced as `replaced` describes.
pub fn replace_matches(pattern: &str, hay: &[u8], limit: usize, before: &[u8], after: &[u8]) -> (r: Vec<u8>)
    ensures
        r@ == replaced(pattern@, hay@, limit as nat, before@, after@),
{
    match regex_captures(pattern, hay) {
        Some(caps) => {
            if check_captures(&caps, hay.len()) {
                splice_captures(hay, caps.as_slice(), limit, before, after)
            } else {
                vstd::slice::slice_to_vec(hay)
            }
        },
        None => vstd::slice::slice_to_vec(hay),
    }
}

/// The bytes of the UTF-8 text `s`.
fn utf8_bytes(s: &str) -> (b: Vec<u8>)
    ensures
        b@ == encode_utf8(s@),
{
    vstd::slice::slice_to_vec(s.as_bytes())
}

/// A page as the proxy serves it: decoded as UTF-8 (invalid sequences
/// replaced); the root-relative `href`, `src` and `action` values (those
/// starting with a single `/`) moved under `prefix`; then a
/// `<base href="prefix">` added after the first `<head…>` tag.
pub open spec fn html_rewritten(content: Seq<u8>, prefix: Seq<char>) -> Seq<u8> {
    let page = encode_utf8(lossy_decode(content));
    let base_tag = "<base href=\""@ + prefix + "\">"@;
    let quote = encode_utf8("\""@);
    let s1 = replaced("href=\"(/[^\"/][^\"]*)\""@, page, 0, encode_utf8("href=\""@ + prefix), quote);
    let s2 = replaced("src=\"(/[^\"/][^\"]*)\""@, s1, 0, encode_utf8("src=\""@ + prefix), quote);
    let s3 = replaced("action=\"(/[^\"/][^\"]*)\""@, s2, 0, encode_utf8("action=\""@ + prefix), quote);
    replaced("(?i)<head([^>]*)>"@, s3, 1, encode_utf8("<head"@), encode_utf8(">"@ + base_tag))
}

/// Rewrites a proxied HTML page so that its links go through the proxy
/// under `proxy_prefix`.
pub fn rewrite_html_urls(content: &[u8], proxy_prefix: &str) -> (r: Vec<u8>)
    ensures
        r@ == html_rewritten(content@, proxy_prefix@),
{
    let html = utf8_lossy(content);
    let page = utf8_bytes(html.as_str());
    let base_tag = cat(cat("<base href=\"", proxy_prefix).as_str(), "\">");
    let quote = utf8_bytes("\"");
    let s1 = replace_matches(
        "href=\"(/[^\"/][^\"]*)\"",
        page.as_slice(),
        0,
        utf8_bytes(cat("href=\"", proxy_prefix).as_str()).as_slice(),
        quote.as_slice(),
    );
    let s2 = replace_matches(
        "src=\"(/[^\"/][^\"]*)\"",
        s1.as_slice(),
        0,
        utf8_bytes(cat("src=\"", proxy_prefix).as_str()).as_slice(),
        quote.as_slice(),
    );
    let s3 = replace_matches(
        "action=\"(/[^\"/][^\"]*)\"",
        s2.as_slice(),
        0,
        utf8_bytes(cat("action=\"", proxy_prefix).as_str()).as_slice(),
        quote.as_slice(),
    );
    replace_matches(
        "(?i)<head([^>]*)>",
        s3.as_slice(),
        1,
        utf8_bytes("<head").as_slice(),
        utf8_bytes(cat(">", base_tag.as_str()).as_str()).as_slice(),
    )
}

/// What the proxy serves for an upstream response.
pub struct ProxiedBody {
    /// The content type it forwards.
    pub content_type: String,
    /// Whether the page is HTML (and was rewritten).
    pub html: bool,
    /// The body it serves.
    pub body: Vec<u8>,
}

/// The body to serve for an upstream response with content type
/// `upstream_type` (`None` when absent or unreadable): HTML pages are
/// rewritten to stay under `prefix`, anything else is passed on as it is.
pub fn proxied_body(upstream_type: Option<String>, body: &[u8], prefix: &str) -> (r: ProxiedBody)
    ensures
        r.content_type@ == content_type_of(opt_view(upstream_type)),
        r.html == is_html_type(r.content_type@),
        r.body@ == if r.html {
            html_rewritten(body@, prefix@)
        } else {
            body@
        },
{
    let content_type = match upstream_type {
        Some(t) => t,
        None => owned("text/html"),
    };
    let html = is_html(content_type.as_str());
    let out = if html {
        rewrite_html_urls(body, prefix)
    } else {
        vstd::slice::slice_to_vec(body)
    };
    ProxiedBody { content_type, html, body: out }
}

} // verus!
