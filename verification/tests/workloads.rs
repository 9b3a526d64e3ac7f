use selfhosted::env::EnvVars;
use selfhosted::runtime::{
    capabilities_for, container_args, docker_run_args, exposure_target, inject_runtime_credentials,
    network_create_args, prepare_workload, routed_domain, running_session, short_id_from,
    template_args, ContainerAction, DockerProvider, ExposureConfig, ExposureTarget, NativeProvider,
    WorkloadConfig,
};
use selfhosted::vault::VaultManager;

fn config(id: &str, rt: &str, template: &str, port: u16) -> WorkloadConfig {
    WorkloadConfig {
        id: id.to_string(),
        resource_type: rt.to_string(),
        template: template.to_string(),
        port,
        env_vars: EnvVars::new(),
        domain: None,
        host_path: None,
        exposure: None,
        stack_id: None,
        network_alias: None,
        depends_on: None,
    }
}

fn env_pairs(e: &EnvVars) -> Vec<(String, String)> {
    (0..e.len()).map(|i| (e.entry(i).key.clone(), e.entry(i).value.clone())).collect()
}

#[test]
fn env_vars_insert_and_get() {
    let mut e = EnvVars::new();
    e.insert("A".into(), "1".into());
    e.insert("B".into(), "2".into());
    e.insert("A".into(), "3".into());
    assert_eq!(env_pairs(&e), vec![("A".to_string(), "3".to_string()), ("B".to_string(), "2".to_string())]);
    assert_eq!(e.get("A"), Some(&"3".to_string()));
    assert_eq!(e.get("C"), None);
    let d = e.duplicate();
    assert_eq!(env_pairs(&d), env_pairs(&e));
}

#[test]
fn capabilities() {
    let a = capabilities_for(true, "linux");
    assert!(!a.supports_docker && !a.supports_databases && !a.supports_public_tunnels);
    assert_eq!(a.platform, "android");
    let d = capabilities_for(false, "macos");
    assert!(d.supports_docker && d.supports_databases && d.supports_public_tunnels);
    assert_eq!(d.platform, "macos");
}

#[test]
fn runtime_statuses() {
    let s = DockerProvider::new().runtime_status(false);
    assert!(!s.installed);
    assert_eq!(s.engine, "Docker");
    assert_eq!(s.active_containers, 0);
    let n = NativeProvider::new().runtime_status();
    assert!(n.installed);
    assert_eq!(n.engine, "Native HTTP");
}

#[test]
fn docker_args_for_standalone_node_app() {
    let mut c = config("app1", "website", "nodejs", 3000);
    c.host_path = Some("/home/u/site".to_string());
    c.env_vars.insert("NODE_ENV".into(), "production".into());
    let args = docker_run_args(&c).unwrap();
    assert_eq!(
        args,
        vec![
            "run", "-d", "--name", "app1", "-p", "127.0.0.1:3000:3000", "-e", "NODE_ENV=production",
            "-v", "/home/u/site:/app", "-w", "/app", "node:18-alpine", "npm", "start",
        ]
    );
}

#[test]
fn docker_args_for_stack_member() {
    let mut c = config("stack-1-db", "database", "postgres", 5432);
    c.stack_id = Some("stack-1".to_string());
    c.network_alias = Some("db".to_string());
    let args = docker_run_args(&c).unwrap();
    assert_eq!(args, vec!["run", "-d", "--name", "stack-1-db", "--network", "stack-1", "--network-alias", "db", "postgres:alpine"]);
}

#[test]
fn template_arguments() {
    let hp = Some("/srv".to_string());
    assert_eq!(template_args("python", &None, 8000).unwrap(), vec!["python:3.11-slim", "python", "-m", "http.server", "8000"]);
    assert_eq!(template_args("php", &hp, 80).unwrap(), vec!["-v", "/srv:/var/www/html", "php:8-apache"]);
    assert_eq!(template_args("static", &hp, 80).unwrap(), vec!["-v", "/srv:/usr/share/nginx/html:ro", "nginx:alpine"]);
    assert_eq!(template_args("static", &None, 80).unwrap(), vec!["nginx:alpine"]);
    assert_eq!(template_args("mysql", &hp, 1).unwrap(), vec!["mysql:8"]);
    assert_eq!(template_args("redis", &None, 1).unwrap(), vec!["redis:alpine"]);
    assert_eq!(template_args("mongodb", &None, 1).unwrap(), vec!["mongo:latest"]);
    assert_eq!(template_args("wordpress", &None, 1).unwrap(), vec!["wordpress:latest"]);
    assert_eq!(template_args("nextcloud", &None, 1).unwrap(), vec!["nextcloud:latest"]);
    assert!(template_args("mariadb", &None, 1).is_none());
}

#[test]
fn unknown_template_is_refused() {
    let c = config("x", "website", "cobol", 1);
    assert_eq!(docker_run_args(&c).err(), Some("Unknown runtime template".to_string()));
}

#[test]
fn container_and_network_arguments() {
    assert_eq!(container_args(ContainerAction::Remove, "w"), vec!["rm", "-f", "w"]);
    assert_eq!(container_args(ContainerAction::Pause, "w"), vec!["pause", "w"]);
    assert_eq!(container_args(ContainerAction::Unpause, "w"), vec!["unpause", "w"]);
    assert_eq!(container_args(ContainerAction::InspectStatus, "w"), vec!["inspect", "-f", "{{.State.Status}}", "w"]);
    assert_eq!(network_create_args("stack-9"), vec!["network", "create", "stack-9"]);
}

#[test]
fn session_for_started_workload() {
    let c = config("w1", "website", "static", 80);
    let s = running_session(&c);
    assert_eq!(s.id, "w1");
    assert_eq!(s.status, "Running");
    assert_eq!(s.config.template, "static");
}

#[test]
fn credentials_per_template() {
    let cases = [
        ("mysql", vec![("MYSQL_ROOT_PASSWORD", "pw")]),
        ("postgres", vec![("POSTGRES_PASSWORD", "pw")]),
        ("mariadb", vec![("MARIADB_ROOT_PASSWORD", "pw")]),
        ("redis", vec![("REDIS_PASSWORD", "pw")]),
        ("mongodb", vec![("MONGO_INITDB_ROOT_USERNAME", "admin"), ("MONGO_INITDB_ROOT_PASSWORD", "pw")]),
        ("other", vec![]),
    ];
    for (template, expected) in cases {
        let mut e = EnvVars::new();
        inject_runtime_credentials(&mut e, template, "pw");
        let expected: Vec<(String, String)> = expected.into_iter().map(|(k, v)| (k.to_string(), v.to_string())).collect();
        assert_eq!(env_pairs(&e), expected, "template {}", template);
    }
}

#[test]
fn short_ids() {
    assert_eq!(short_id_from("workload-", "67e55044-10b1-426f-9247-bb680e5fe0c8"), "workload-67e55044");
}

#[test]
fn prepared_website_keeps_id_and_has_no_secret() {
    let vault = VaultManager::from_master_key([7u8; 32]);
    let p = prepare_workload(config("site", "website", "static", 80), &vault).unwrap();
    assert_eq!(p.config.id, "site");
    assert!(p.secret.is_none());
    assert_eq!(p.config.env_vars.len(), 0);
}

#[test]
fn prepared_database_gets_id_password_and_sealed_secret() {
    let vault = VaultManager::from_master_key([7u8; 32]);
    let p = prepare_workload(config("", "database", "postgres", 5432), &vault).unwrap();
    assert!(p.config.id.starts_with("workload-"));
    assert_eq!(p.config.id.len(), "workload-".len() + 8);
    let pw = p.config.env_vars.get("POSTGRES_PASSWORD").unwrap().clone();
    assert_eq!(pw.len(), 24);
    let secret = p.secret.unwrap();
    assert_eq!(secret.id, format!("{}_admin_password", p.config.id));
    assert_eq!(secret.secret_type, "database_password");
    assert_ne!(secret.encrypted_payload, pw);
    assert_eq!(vault.decrypt_string(&secret.encrypted_payload), Ok(pw));
}

#[test]
fn routing_and_exposure_decisions() {
    assert_eq!(routed_domain(&None), None);
    assert_eq!(routed_domain(&Some(String::new())), None);
    assert_eq!(routed_domain(&Some("a.local".into())), Some("a.local".to_string()));
    let exp = |p: &str| Some(ExposureConfig { provider: p.into(), mode: "quick".into(), token: None });
    assert_eq!(exposure_target(&None), ExposureTarget::NotRequested);
    assert_eq!(exposure_target(&exp("none")), ExposureTarget::NotRequested);
    assert_eq!(exposure_target(&exp("cloudflare")), ExposureTarget::Cloudflare);
    assert_eq!(exposure_target(&exp("tailscale")), ExposureTarget::Tailscale);
    assert_eq!(exposure_target(&exp("local_only")), ExposureTarget::Unknown);
}
