use vstd::prelude::*;
use crate::db::PublicLinkEntry;
use crate::text::{
    contains_text, decimal, ends_with, format_decimal, has_prefix, has_substring, has_suffix, join2,
    parse_u16, parse_u16_spec, push_arg, replace, replace_spec, same_text, split_whitespace,
    starts_with, words,
};

verus! {

/// A quick tunnel that publishes a local port.
#[derive(Clone, Debug)]
pub struct TunnelSession {
    pub id: String,
    pub local_port: u16,
    pub public_url: String,
}

/// The id of the tunnel for `port`.
pub open spec fn tunnel_id_spec(port: u16) -> Seq<char> {
    "tunnel-"@ + decimal(port as nat)
}

/// The id of the tunnel for `port`: "tunnel-" and the port number.
pub fn tunnel_id(port: u16) -> (r: String)
    ensures
        r@ == tunnel_id_spec(port),
{
    let p = format_decimal(port as u64);
    join2("tunnel-", p.as_str())
}

/// The arguments of the `cloudflared` call that opens a quick tunnel to `port`.
pub fn cloudflared_args(port: u16) -> (r: Vec<String>)
    ensures
        r.deep_view() == seq!["tunnel"@, "--url"@, "http://localhost:"@ + decimal(port as nat)],
{
    let mut r: Vec<String> = Vec::new();
    push_arg(&mut r, "tunnel");
    push_arg(&mut r, "--url");
    let p = format_decimal(port as u64);
    let url = join2("http://localhost:", p.as_str());
    push_arg(&mut r, url.as_str());
    assert(r.deep_view() =~= seq!["tunnel"@, "--url"@, "http://localhost:"@ + decimal(port as nat)]);
    r
}

/// The arguments of the `docker` call that lists the running container named after `session_id`.
pub fn container_lookup_args(session_id: &str) -> (r: Vec<String>)
    ensures
        r.deep_view() == seq!["ps"@, "-q"@, "-f"@, "name="@ + session_id@],
{
    let mut r: Vec<String> = Vec::new();
    push_arg(&mut r, "ps");
    push_arg(&mut r, "-q");
    push_arg(&mut r, "-f");
    let f = join2("name=", session_id);
    push_arg(&mut r, f.as_str());
    assert(r.deep_view() =~= seq!["ps"@, "-q"@, "-f"@, "name="@ + session_id@]);
    r
}

/// Whether `w` is a quick tunnel's public address.
pub open spec fn is_quick_tunnel_url(w: Seq<char>) -> bool {
    has_prefix(w, "https://"@) && has_suffix(w, ".trycloudflare.com"@)
}

/// The first of `ws` that is a quick tunnel's public address.
pub open spec fn first_quick_tunnel_url(ws: Seq<Seq<char>>) -> Option<Seq<char>>
    decreases ws.len(),
{
    if ws.len() == 0 {
        None
    } else if is_quick_tunnel_url(ws[0]) {
        Some(ws[0])
    } else {
        first_quick_tunnel_url(ws.drop_first())
    }
}

/// The public address that a line of `cloudflared` output announces: on a line that mentions
/// ".trycloudflare.com", the first white-space separated part that starts with "https://" and
/// ends with ".trycloudflare.com".
pub open spec fn announced_url(line: Seq<char>) -> Option<Seq<char>> {
    if has_substring(line, ".trycloudflare.com"@) {
        first_quick_tunnel_url(words(line))
    } else {
        None
    }
}

/// The public address that a line of `cloudflared` output announces, if any.
pub fn extract_tunnel_url(line: &str) -> (r: Option<String>)
    ensures
        match r {
            Some(u) => announced_url(line@) == Some(u@),
            None => announced_url(line@) is None,
        },
{
    if !contains_text(line, ".trycloudflare.com") {
        return None;
    }
    let parts = split_whitespace(line);
    let ghost ws = parts.deep_view();
    let mut i: usize = 0;
    assert(ws.skip(0) == ws);
    while i < parts.len()
        invariant
            i <= parts.len(),
            ws == parts.deep_view(),
            ws == words(line@),
            has_substring(line@, ".trycloudflare.com"@),
            first_quick_tunnel_url(ws) == first_quick_tunnel_url(ws.skip(i as int)),
        decreases parts.len() - i,
    {
        let part = parts[i].as_str();
        assert(ws.skip(i as int)[0] == part@);
        if starts_with(part, "https://") && ends_with(part, ".trycloudflare.com") {
            return Some(parts[i].clone());
        }
        assert(ws.skip(i as int).drop_first() == ws.skip(i + 1));
        i = i + 1;
    }
    assert(ws.skip(i as int).len() == 0);
    None
}

/// The port of a recorded quick tunnel that can be opened again: for a link of provider
/// "cloudflare_quick", its id with every "tunnel-" removed, read as a port number.
pub open spec fn restorable_port_spec(id: Seq<char>, provider: Seq<char>) -> Option<u16> {
    if provider == "cloudflare_quick"@ {
        parse_u16_spec(replace_spec(id, "tunnel-"@, ""@))
    } else {
        None
    }
}

/// The port of a recorded quick tunnel that can be opened again, if any.
pub fn restorable_port(link: &PublicLinkEntry) -> (r: Option<u16>)
    ensures
        r == restorable_port_spec(link.id@, link.provider@),
{
    if !same_text(link.provider.as_str(), "cloudflare_quick") {
        return None;
    }
    proof {
        reveal_strlit("tunnel-");
    }
    let port_text = replace(link.id.as_str(), "tunnel-", "");
    parse_u16(port_text.as_str())
}

/// The record of a quick tunnel opened for a session.
pub fn quick_tunnel_link(id: &str, session_id: &str, public_url: &str) -> (r: PublicLinkEntry)
    ensures
        r.id@ == id@,
        r.session_id@ == session_id@,
        r.public_url@ == public_url@,
        r.provider@ == "cloudflare_quick"@,
        r.access_mode@ == "public"@,
{
    PublicLinkEntry {
        id: id.to_owned(),
        session_id: session_id.to_owned(),
        public_url: public_url.to_owned(),
        provider: "cloudflare_quick".to_owned(),
        access_mode: "public".to_owned(),
    }
}

} // verus!

verus! {

/// A quick tunnel recorded under the id that `tunnel_id` gives for a port is opened again on
/// that same port.
pub proof fn law_tunnel_port_roundtrip(port: u16)
    ensures
        restorable_port_spec(tunnel_id_spec(port), "cloudflare_quick"@) == Some(port),
{
    reveal_strlit("tunnel-");
    reveal_strlit("");
    let d = decimal(port as nat);
    let s = "tunnel-"@ + d;
    crate::text::lemma_decimal_digits(port as nat);
    assert(s.take(7) =~= "tunnel-"@);
    assert(s.skip(7) =~= d);
    assert forall|i: int| 0 <= i < d.len() implies #[trigger] d[i] != "tunnel-"@[0] by {
        assert(crate::text::is_ascii_digit(d[i]));
    }
    crate::text::lemma_replace_absent(d, "tunnel-"@, ""@);
    assert(replace_spec(s, "tunnel-"@, ""@) == ""@ + replace_spec(d, "tunnel-"@, ""@));
    assert(""@ + d =~= d);
    crate::text::lemma_parse_u16_decimal(port);
}

/// A URL read from `cloudflared` output is a quick tunnel's public address and one of the
/// line's white-space separated parts.
pub proof fn law_announced_url_shape(line: Seq<char>)
    ensures
        announced_url(line) matches Some(u) ==> is_quick_tunnel_url(u) && words(line).contains(u),
{
    if has_substring(line, ".trycloudflare.com"@) {
        lemma_first_quick_tunnel_url(words(line));
    }
}

proof fn lemma_first_quick_tunnel_url(ws: Seq<Seq<char>>)
    ensures
        first_quick_tunnel_url(ws) matches Some(u) ==> is_quick_tunnel_url(u) && ws.contains(u),
    decreases ws.len(),
{
    if ws.len() > 0 {
        if is_quick_tunnel_url(ws[0]) {
            assert(ws[0] == ws[0]);
        } else {
            lemma_first_quick_tunnel_url(ws.drop_first());
            if first_quick_tunnel_url(ws.drop_first()) is Some {
                let u = first_quick_tunnel_url(ws.drop_first())->0;
                let i = choose|i: int| 0 <= i < ws.drop_first().len() && ws.drop_first()[i] == u;
                assert(ws[i + 1] == u);
            }
        }
    }
}

} // verus!

verus! {

/// What to do with a recorded tunnel once its session's container has been looked up.
#[derive(Clone, Copy, Debug, PartialEq, Eq)]
pub enum RestoreDecision {
    /// The session is gone: forget the recorded link.
    DropLink,
    /// The session runs: open a quick tunnel to this port again.
    Reopen(u16),
}

/// What to do with a reopened tunnel once its output has been read.
pub enum RestoreOutcome {
    /// A public address was announced: keep the tunnel and record this link for it.
    Record(PublicLinkEntry),
    /// No address came in time: stop the tunnel and forget the recorded link.
    KillAndDrop,
}

/// The restoring of one recorded quick tunnel at start-up.
pub struct TunnelRestore {
    link: PublicLinkEntry,
    port: u16,
}

impl TunnelRestore {
    /// The recorded link being restored.
    pub closed spec fn link_id(&self) -> Seq<char> {
        self.link.id@
    }

    pub closed spec fn session_id(&self) -> Seq<char> {
        self.link.session_id@
    }

    /// The port the tunnel is reopened on.
    pub closed spec fn port(&self) -> u16 {
        self.port
    }

    /// Starts restoring `link`; `None` for a link that is not a restorable quick tunnel, which is
    /// left alone.
    pub fn begin(link: PublicLinkEntry) -> (r: Option<TunnelRestore>)
        ensures
            r is Some <==> restorable_port_spec(link.id@, link.provider@) is Some,
            r matches Some(t) ==> t.link_id() == link.id@ && t.session_id() == link.session_id@
                && Some(t.port()) == restorable_port_spec(link.id@, link.provider@),
    {
        match restorable_port(&link) {
            Some(port) => Some(TunnelRestore { link, port }),
            None => None,
        }
    }

    /// The session whose container must still run for the tunnel to be reopened.
    pub fn session(&self) -> (s: &str)
        ensures
            s@ == self.session_id(),
    {
        self.link.session_id.as_str()
    }

    /// The id of the recorded link.
    pub fn link_id_text(&self) -> (s: &str)
        ensures
            s@ == self.link_id(),
    {
        self.link.id.as_str()
    }

    /// Reopen the tunnel when the session's container still runs, else drop the link.
    pub fn after_container_check(&self, container_running: bool) -> (d: RestoreDecision)
        ensures
            container_running ==> d == RestoreDecision::Reopen(self.port()),
            !container_running ==> d == RestoreDecision::DropLink,
    {
        if container_running {
            RestoreDecision::Reopen(self.port)
        } else {
            RestoreDecision::DropLink
        }
    }

    /// Keep the reopened tunnel and record its new address, or stop it when none came.
    pub fn after_url(&self, url: Option<String>) -> (o: RestoreOutcome)
        ensures
            url is None ==> o is KillAndDrop,
            url matches Some(u) ==> (o matches RestoreOutcome::Record(l) && l.id@ == self.link_id()
                && l.session_id@ == self.session_id() && l.public_url@ == u@ && l.provider@
                == "cloudflare_quick"@ && l.access_mode@ == "public"@),
    {
        match url {
            Some(u) => RestoreOutcome::Record(
                quick_tunnel_link(self.link.id.as_str(), self.link.session_id.as_str(), u.as_str()),
            ),
            None => RestoreOutcome::KillAndDrop,
        }
    }
}

} // verus!
