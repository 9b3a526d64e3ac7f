use selfhosted::db::PublicLinkEntry;
use selfhosted::greet;
use selfhosted::network::{
    cloudflared_args, container_lookup_args, extract_tunnel_url, quick_tunnel_link, restorable_port,
    tunnel_id, RestoreDecision, RestoreOutcome, TunnelRestore,
};
use selfhosted::text::{format_decimal, parse_u16, replace, split_whitespace, trim};

fn link(id: &str, provider: &str) -> PublicLinkEntry {
    PublicLinkEntry {
        id: id.to_string(),
        session_id: "web-1".to_string(),
        public_url: "https://x.trycloudflare.com".to_string(),
        provider: provider.to_string(),
        access_mode: "public".to_string(),
    }
}

#[test]
fn greeting_text() {
    assert_eq!(greet("Ada"), "Hello, Ada! You've been greeted from Rust!");
    assert_eq!(greet(""), "Hello, ! You've been greeted from Rust!");
}

#[test]
fn decimal_formatting() {
    assert_eq!(format_decimal(0), "0");
    assert_eq!(format_decimal(7), "7");
    assert_eq!(format_decimal(8080), "8080");
    assert_eq!(format_decimal(u64::MAX), "18446744073709551615");
}

#[test]
fn u16_parsing_matches_std() {
    for s in ["0", "80", "+443", "0080", "65535", "65536", "", "+", "-1", "12a", " 1", "99999999999"] {
        assert_eq!(parse_u16(s), s.parse::<u16>().ok(), "input {:?}", s);
    }
}

#[test]
fn trimming_matches_std() {
    for s in ["  running\n", "paused", "\t\u{a0}x y \u{3000}", "   ", "", "a"] {
        assert_eq!(trim(s), s.trim(), "input {:?}", s);
    }
}

#[test]
fn splitting_matches_std() {
    for s in ["a b  c", "  lead and trail  ", "", "   ", "one\ttwo\nthree\u{2003}four"] {
        let expected: Vec<String> = s.split_whitespace().map(|w| w.to_string()).collect();
        assert_eq!(split_whitespace(s), expected, "input {:?}", s);
    }
}

#[test]
fn replacing_matches_std() {
    for (s, p, w) in [("tunnel-8080", "tunnel-", ""), ("aaaa", "aa", "b"), ("xtunnel-tunnel-1", "tunnel-", ""), ("abc", "zz", "q")] {
        assert_eq!(replace(s, p, w), s.replace(p, w));
    }
}

#[test]
fn tunnel_ids_and_arguments() {
    assert_eq!(tunnel_id(8080), "tunnel-8080");
    assert_eq!(cloudflared_args(3000), vec!["tunnel", "--url", "http://localhost:3000"]);
    assert_eq!(container_lookup_args("web-1"), vec!["ps", "-q", "-f", "name=web-1"]);
}

#[test]
fn url_extraction() {
    let line = "2024 INF |  https://calm-river-42.trycloudflare.com  |";
    assert_eq!(extract_tunnel_url(line), Some("https://calm-river-42.trycloudflare.com".to_string()));
    assert_eq!(extract_tunnel_url("Requesting new quick Tunnel on trycloudflare.com..."), None);
    assert_eq!(extract_tunnel_url("see http://a.trycloudflare.com and https://b.trycloudflare.com"), Some("https://b.trycloudflare.com".to_string()));
    assert_eq!(extract_tunnel_url("https://a.trycloudflare.com.evil"), None);
    assert_eq!(extract_tunnel_url(""), None);
}

#[test]
fn tunnel_port_roundtrip() {
    for port in [0u16, 1, 80, 8080, 65535] {
        assert_eq!(restorable_port(&link(&tunnel_id(port), "cloudflare_quick")), Some(port));
    }
}

#[test]
fn restorable_port_edge_cases() {
    assert_eq!(restorable_port(&link("tunnel-8080", "tailscale")), None);
    assert_eq!(restorable_port(&link("tunnel-notaport", "cloudflare_quick")), None);
    assert_eq!(restorable_port(&link("tunnel-70000", "cloudflare_quick")), None);
    assert_eq!(restorable_port(&link("tunnel-tunnel-9", "cloudflare_quick")), Some(9));
}

#[test]
fn quick_tunnel_record() {
    let l = quick_tunnel_link("tunnel-80", "web", "https://x.trycloudflare.com");
    assert_eq!(l.id, "tunnel-80");
    assert_eq!(l.session_id, "web");
    assert_eq!(l.public_url, "https://x.trycloudflare.com");
    assert_eq!(l.provider, "cloudflare_quick");
    assert_eq!(l.access_mode, "public");
}

#[test]
fn tunnel_restore_steps() {
    assert!(TunnelRestore::begin(link("tunnel-8080", "tailscale")).is_none());
    assert!(TunnelRestore::begin(link("tunnel-x", "cloudflare_quick")).is_none());
    let r = TunnelRestore::begin(link("tunnel-8080", "cloudflare_quick")).unwrap();
    assert_eq!(r.session(), "web-1");
    assert_eq!(r.link_id_text(), "tunnel-8080");
    assert_eq!(r.after_container_check(true), RestoreDecision::Reopen(8080));
    assert_eq!(r.after_container_check(false), RestoreDecision::DropLink);
    match r.after_url(Some("https://new.trycloudflare.com".to_string())) {
        RestoreOutcome::Record(l) => {
            assert_eq!(l.id, "tunnel-8080");
            assert_eq!(l.session_id, "web-1");
            assert_eq!(l.public_url, "https://new.trycloudflare.com");
            assert_eq!(l.provider, "cloudflare_quick");
            assert_eq!(l.access_mode, "public");
        }
        RestoreOutcome::KillAndDrop => panic!("expected a record"),
    }
    assert!(matches!(r.after_url(None), RestoreOutcome::KillAndDrop));
}
