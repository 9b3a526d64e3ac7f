use selfhosted::db::pending_migrations;
use selfhosted::policy::{battery_alert, thermal_alert};
use selfhosted::proxy::TraefikProxyProvider;
use selfhosted::telemetry::{bytes_to_mib, on_ac_power, PowerState};

#[test]
fn migration_plans() {
    assert_eq!(pending_migrations(0), vec![1, 2, 3]);
    assert_eq!(pending_migrations(1), vec![2, 3]);
    assert_eq!(pending_migrations(3), Vec::<i32>::new());
    assert_eq!(pending_migrations(7), Vec::<i32>::new());
    assert_eq!(pending_migrations(-4), vec![1, 2, 3]);
}

#[test]
fn proxy_arguments_and_files() {
    let p = TraefikProxyProvider::new();
    assert_eq!(p.remove_args(), vec!["rm", "-f", "selfhosted-proxy"]);
    assert_eq!(
        p.run_args("/data/proxy"),
        vec![
            "run", "-d", "--name", "selfhosted-proxy", "--restart", "unless-stopped", "-p", "80:80", "-p",
            "443:443", "-p", "8080:8080", "-v", "/data/proxy:/etc/traefik", "traefik:v3.0",
        ]
    );
    assert_eq!(p.route_file_name("web-1"), "web-1.yml");
    assert!(p.static_config().contains("directory = \"/etc/traefik/dynamic\""));
}

#[test]
fn route_configuration_text() {
    let p = TraefikProxyProvider::new();
    let expected = format!(
        r#"
http:
  routers:
    router-{id}:
      rule: "{rule}"
      service: "service-{id}"
      entryPoints:
        - "web"

  services:
    service-{id}:
      loadBalancer:
        servers:
          - url: "http://{ip}:{port}"
"#,
        id = "web-1",
        rule = "Host(`blog.local`)",
        ip = "127.0.0.1",
        port = 8080
    );
    assert_eq!(p.route_config("web-1", "blog.local", "127.0.0.1", 8080), expected);
}

#[test]
fn alerts() {
    let t = thermal_alert("85");
    assert_eq!(t.severity, "warning");
    assert_eq!(t.title, "Thermal Protection Triggered");
    assert_eq!(t.description, "Your device temperature exceeded 85°C. Heavy workloads were paused to protect your device.");
    let b = battery_alert("20");
    assert_eq!(b.severity, "critical");
    assert_eq!(b.title, "Battery Protection Triggered");
    assert_eq!(b.description, "Laptop battery dropped below 20%. Background services have been paused to conserve power.");
}

#[test]
fn telemetry_helpers() {
    assert_eq!(on_ac_power(PowerState::Charging), Some(true));
    assert_eq!(on_ac_power(PowerState::Full), Some(true));
    assert_eq!(on_ac_power(PowerState::Discharging), Some(false));
    assert_eq!(on_ac_power(PowerState::Empty), Some(false));
    assert_eq!(on_ac_power(PowerState::Unknown), None);
    assert_eq!(bytes_to_mib(0), 0);
    assert_eq!(bytes_to_mib(1_048_575), 0);
    assert_eq!(bytes_to_mib(16 * 1_048_576 + 5), 16);
}
