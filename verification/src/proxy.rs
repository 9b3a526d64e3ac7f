use vstd::prelude::*;
use crate::text::{decimal, format_decimal, join2, join3, push_arg};

verus! {

/// The reverse proxy that routes domains to workloads: a Traefik container configured through
/// files.
#[derive(Clone, Copy, Debug)]
pub struct TraefikProxyProvider;

/// Name of the proxy's container.
pub open spec fn proxy_container_name() -> Seq<char> {
    "selfhosted-proxy"@
}

/// The routing rule of a domain.
pub open spec fn host_rule(domain: Seq<char>) -> Seq<char> {
    "Host(`"@ + domain + "`)"@
}

/// The dynamic configuration file that routes `domain` to `ip:port` for workload `id`.
pub open spec fn route_config_spec(id: Seq<char>, domain: Seq<char>, ip: Seq<char>, port: u16) -> Seq<char> {
    "\nhttp:\n  routers:\n    router-"@ + id + ":\n      rule: \""@ + host_rule(domain)
        + "\"\n      service: \"service-"@ + id
        + "\"\n      entryPoints:\n        - \"web\"\n\n  services:\n    service-"@ + id
        + ":\n      loadBalancer:\n        servers:\n          - url: \"http://"@ + ip + ":"@
        + decimal(port as nat) + "\"\n"@
}

impl TraefikProxyProvider {
    pub fn new() -> Self {
        TraefikProxyProvider
    }

    /// The static configuration written once into the proxy's configuration directory.
    pub fn static_config(&self) -> (r: String)
        ensures
            r@ == "\n[entryPoints]\n  [entryPoints.web]\n    address = \":80\"\n  [entryPoints.websecure]\n    address = \":443\"\n\n[providers.file]\n  directory = \"/etc/traefik/dynamic\"\n  watch = true\n\n[api]\n  insecure = true\n  dashboard = true\n"@,
    {
        "\n[entryPoints]\n  [entryPoints.web]\n    address = \":80\"\n  [entryPoints.websecure]\n    address = \":443\"\n\n[providers.file]\n  directory = \"/etc/traefik/dynamic\"\n  watch = true\n\n[api]\n  insecure = true\n  dashboard = true\n".to_owned()
    }

    /// The `docker` arguments that remove a running proxy container.
    pub fn remove_args(&self) -> (r: Vec<String>)
        ensures
            r.deep_view() == seq!["rm"@, "-f"@, proxy_container_name()],
    {
        let mut r: Vec<String> = Vec::new();
        push_arg(&mut r, "rm");
        push_arg(&mut r, "-f");
        push_arg(&mut r, "selfhosted-proxy");
        assert(r.deep_view() =~= seq!["rm"@, "-f"@, proxy_container_name()]);
        r
    }

    /// The `docker` arguments that start the proxy with its configuration directory mounted.
    pub fn run_args(&self, config_dir: &str) -> (r: Vec<String>)
        ensures
            r.deep_view() == seq![
                "run"@,
                "-d"@,
                "--name"@,
                proxy_container_name(),
                "--restart"@,
                "unless-stopped"@,
                "-p"@,
                "80:80"@,
                "-p"@,
                "443:443"@,
                "-p"@,
                "8080:8080"@,
                "-v"@,
                config_dir@ + ":/etc/traefik"@,
                "traefik:v3.0"@,
            ],
    {
        let mut r: Vec<String> = Vec::new();
        push_arg(&mut r, "run");
        push_arg(&mut r, "-d");
        push_arg(&mut r, "--name");
        push_arg(&mut r, "selfhosted-proxy");
        push_arg(&mut r, "--restart");
        push_arg(&mut r, "unless-stopped");
        push_arg(&mut r, "-p");
        push_arg(&mut r, "80:80");
        push_arg(&mut r, "-p");
        push_arg(&mut r, "443:443");
        push_arg(&mut r, "-p");
        push_arg(&mut r, "8080:8080");
        push_arg(&mut r, "-v");
        let mount = join2(config_dir, ":/etc/traefik");
        push_arg(&mut r, mount.as_str());
        push_arg(&mut r, "traefik:v3.0");
        assert(r.deep_view() =~= seq![
            "run"@,
            "-d"@,
            "--name"@,
            proxy_container_name(),
            "--restart"@,
            "unless-stopped"@,
            "-p"@,
            "80:80"@,
            "-p"@,
            "443:443"@,
            "-p"@,
            "8080:8080"@,
            "-v"@,
            config_dir@ + ":/etc/traefik"@,
            "traefik:v3.0"@,
        ]);
        r
    }

    /// The name of workload `workload_id`'s file in the dynamic configuration directory.
    pub fn route_file_name(&self, workload_id: &str) -> (r: String)
        ensures
            r@ == workload_id@ + ".yml"@,
    {
        join2(workload_id, ".yml")
    }

    /// The dynamic configuration that routes `domain` to `target_ip:target_port`.
    pub fn route_config(&self, workload_id: &str, domain: &str, target_ip: &str, target_port: u16) -> (r: String)
        ensures
            r@ == route_config_spec(workload_id@, domain@, target_ip@, target_port),
    {
        let rule = join3("Host(`", domain, "`)");
        let port = format_decimal(target_port as u64);
        let s = join3("\nhttp:\n  routers:\n    router-", workload_id, ":\n      rule: \"");
        let s = join3(s.as_str(), rule.as_str(), "\"\n      service: \"service-");
        let s = join3(s.as_str(), workload_id, "\"\n      entryPoints:\n        - \"web\"\n\n  services:\n    service-");
        let s = join3(s.as_str(), workload_id, ":\n      loadBalancer:\n        servers:\n          - url: \"http://");
        let s = join3(s.as_str(), target_ip, ":");
        join3(s.as_str(), port.as_str(), "\"\n")
    }
}

} // verus!
