use termote::listing::{directory_contents, roots_contents, sort_listing, visible_items};
use termote::messages::{DirectoryItem, ServerMessage};
use termote::state::{AppState, SecurityState};
use termote::web::{
    build_launch_url, forwards_header, is_html, is_local, parse_proxy_target, proxied_body,
    replace_matches, rewrite_html_urls, splice_captures, ProxyError,
};

fn s(x: &str) -> String {
    x.to_string()
}

fn item(name: &str, is_dir: bool) -> DirectoryItem {
    DirectoryItem { name: s(name), absolute_path: format!("/base/{}", name), is_dir }
}

fn names(items: &[DirectoryItem]) -> Vec<String> {
    items.iter().map(|i| i.name.clone()).collect()
}

#[test]
fn launch_url_encodes_tunnel_and_token() {
    assert_eq!(
        build_launch_url("https://app.example.com/", "wss://t.example.com:443/ws", "ab c"),
        "https://app.example.com/dashboard/?tunnel=wss%3A%2F%2Ft.example.com%3A443%2Fws&token=ab%20c"
    );
}

#[test]
fn launch_url_with_blank_or_root_frontend_is_the_path() {
    assert_eq!(build_launch_url("  ", "x", "y"), "/dashboard/?tunnel=x&token=y");
    assert_eq!(build_launch_url("/", "x", "y"), "/dashboard/?tunnel=x&token=y");
    assert_eq!(build_launch_url("http://h//", "x", "y"), "http://h/dashboard/?tunnel=x&token=y");
}

#[test]
fn launch_url_encodes_non_ascii_as_utf8_bytes() {
    assert_eq!(build_launch_url("/", "é", "a-b_c.d~e"), "/dashboard/?tunnel=%C3%A9&token=a-b_c.d~e");
}

#[test]
fn launch_url_of_state() {
    let state = AppState::new(
        s("tok"),
        s("http://front"),
        s("ws://back"),
        None,
        SecurityState::new(Vec::new(), Vec::new()),
    );
    assert_eq!(state.launch_url(), "http://front/dashboard/?tunnel=ws%3A%2F%2Fback&token=tok");
}

#[test]
fn local_hosts() {
    for h in ["localhost", "127.0.0.1", "192.168.1.5", "10.0.0.8", "172.16.0.1", "172.31.255.1", "printer.local"] {
        assert!(is_local(h), "{}", h);
    }
    for h in [
        "example.com", "172.15.0.1", "172.32.0.1", "172.x.0.1", "172.16", "8.8.8.8", "local",
        "10.example.com", "192.168.evil.com", "172.16.evil.com", "10.0.0.256", "10.0.0.1.2", "192.168.1",
    ] {
        assert!(!is_local(h), "{}", h);
    }
}

#[test]
fn proxy_target_is_split_into_url_and_prefix() {
    let req = parse_proxy_target("http/localhost:3000/_next/static/a.js").ok().unwrap();
    assert_eq!(req.url, "http://localhost:3000/_next/static/a.js");
    assert_eq!(req.prefix, "/proxy/http/localhost:3000");
    assert_eq!(req.host_port, "localhost:3000");
    let req = parse_proxy_target("//https/192.168.0.2").ok().unwrap();
    assert_eq!(req.url, "https://192.168.0.2");
    assert_eq!(req.prefix, "/proxy/https/192.168.0.2");
}

#[test]
fn proxy_rejections() {
    match parse_proxy_target("ftp/localhost/x") {
        Err(e) => {
            assert!(matches!(e, ProxyError::InvalidTarget));
            assert_eq!(e.status(), 400);
            assert_eq!(e.text(), "Invalid proxy target format. Use /proxy/http/host:port/path");
        },
        Ok(_) => panic!("accepted a non-http scheme"),
    }
    assert!(matches!(parse_proxy_target("http"), Err(ProxyError::InvalidTarget)));
    match parse_proxy_target("http/example.com:80/") {
        Err(e) => {
            assert!(matches!(e, ProxyError::NonLocalHost));
            assert_eq!(e.status(), 403);
            assert_eq!(e.text(), "Only local URLs allowed");
        },
        Ok(_) => panic!("accepted a remote host"),
    }
}

#[test]
fn html_content_types() {
    assert!(is_html("text/html; charset=utf-8"));
    assert!(is_html("application/xhtml+xml"));
    assert!(!is_html("application/json"));
}

#[test]
fn header_forwarding() {
    assert!(!forwards_header("X-Frame-Options", false));
    assert!(!forwards_header("content-security-policy", false));
    assert!(!forwards_header("Content-Security-Policy-Report-Only", true));
    assert!(!forwards_header("Content-Length", true));
    assert!(forwards_header("Content-Length", false));
    assert!(forwards_header("cache-control", true));
}

#[test]
fn html_links_are_moved_under_the_proxy() {
    let page = b"<html><HEAD lang=\"en\"><link href=\"/a.css\"></HEAD><body><img src=\"/i.png\"><a href=\"rel\">x</a><form action=\"/go\"></form><script src=\"https://cdn/x.js\"></script></body></html>";
    let out = rewrite_html_urls(page, "/proxy/http/localhost:3000");
    let expected = "<html><head lang=\"en\"><base href=\"/proxy/http/localhost:3000\"><link href=\"/proxy/http/localhost:3000/a.css\"></HEAD><body><img src=\"/proxy/http/localhost:3000/i.png\"><a href=\"rel\">x</a><form action=\"/proxy/http/localhost:3000/go\"></form><script src=\"https://cdn/x.js\"></script></body></html>";
    assert_eq!(String::from_utf8(out).unwrap(), expected);
}

#[test]
fn only_the_first_head_gets_a_base_tag() {
    let out = rewrite_html_urls(b"<head><head>", "/p");
    assert_eq!(String::from_utf8(out).unwrap(), "<head><base href=\"/p\"><head>");
}

#[test]
fn invalid_utf8_is_replaced_before_rewriting() {
    let out = rewrite_html_urls(b"a\xffb", "/p");
    assert_eq!(String::from_utf8(out).unwrap(), "a\u{FFFD}b");
}

#[test]
fn splicing_matches() {
    let hay = b"xx[ab]yy[cd]zz";
    let caps = vec![(2usize, 6usize, Some((3usize, 5usize))), (8, 12, Some((9, 11)))];
    assert_eq!(splice_captures(hay, &caps, 0, b"<", b">"), b"xx<ab>yy<cd>zz".to_vec());
    assert_eq!(splice_captures(hay, &caps, 1, b"<", b">"), b"xx<ab>yy[cd]zz".to_vec());
    assert_eq!(replace_matches("\\[(..)\\]", hay, 0, b"(", b")"), b"xx(ab)yy(cd)zz".to_vec());
    assert_eq!(replace_matches("(", hay, 0, b"(", b")"), hay.to_vec());
}

#[test]
fn proxied_bodies() {
    let b = proxied_body(None, b"<head>", "/p");
    assert_eq!(b.content_type, "text/html");
    assert!(b.html);
    assert_eq!(b.body, b"<head><base href=\"/p\">".to_vec());
    let b = proxied_body(Some(s("image/png")), b"<head>", "/p");
    assert!(!b.html);
    assert_eq!(b.body, b"<head>".to_vec());
}

#[test]
fn listing_hides_dot_entries_and_sorts() {
    let entries = vec![
        item("zeta.txt", false),
        item(".git", true),
        item("Beta", true),
        item("alpha.txt", false),
        item("alpha", true),
        item("Alpha.txt", false),
    ];
    let visible = visible_items(&entries);
    assert_eq!(visible.len(), 5);
    let sorted = sort_listing(&visible);
    assert_eq!(names(&sorted), vec!["alpha", "Beta", "alpha.txt", "Alpha.txt", "zeta.txt"]);
}

#[test]
fn listing_reply() {
    let m = directory_contents(s("/base"), Some(vec![item("b", false), item("a", false), item(".h", false)]));
    match m {
        ServerMessage::DirectoryContents { path, items } => {
            assert_eq!(path, "/base");
            assert_eq!(names(&items), vec!["a", "b"]);
        },
        _ => panic!("wrong message"),
    }
    match directory_contents(s("/nope"), None) {
        ServerMessage::DirectoryContents { path, items } => {
            assert_eq!(path, "/nope");
            assert!(items.is_empty());
        },
        _ => panic!("wrong message"),
    }
}

#[test]
fn roots_reply() {
    match roots_contents(Some(s("/home/me"))) {
        ServerMessage::DirectoryContents { path, items } => {
            assert_eq!(path, "/home/me");
            assert_eq!(items.len(), 1);
            assert_eq!(items[0].name, "/");
            assert_eq!(items[0].absolute_path, "/");
            assert!(items[0].is_dir);
        },
        _ => panic!("wrong message"),
    }
    match roots_contents(None) {
        ServerMessage::DirectoryContents { path, .. } => assert_eq!(path, "/"),
        _ => panic!("wrong message"),
    }
}

#[test]
fn only_single_slash_values_are_rewritten() {
    let page = br##"<head></head><a href="/b"><img src="/a.png"><form action="/c"><script src="//cdn.x/a.js"></script><a href="/">r</a><a href="#top">t</a>"##;
    let out = rewrite_html_urls(page, "/p");
    assert_eq!(
        String::from_utf8(out).unwrap(),
        r##"<head><base href="/p"></head><a href="/p/b"><img src="/p/a.png"><form action="/p/c"><script src="//cdn.x/a.js"></script><a href="/">r</a><a href="#top">t</a>"##
    );
}

#[test]
fn proxy_refuses_names_that_only_look_private() {
    for t in ["http/10.example.com/x", "http/172.16.evil.com:80/", "https/192.168.evil.com"] {
        assert!(matches!(parse_proxy_target(t), Err(ProxyError::NonLocalHost)), "{}", t);
    }
    assert!(parse_proxy_target("http/10.1.2.3:8080/x").is_ok());
}
