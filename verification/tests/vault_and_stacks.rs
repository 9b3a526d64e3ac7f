use base64::engine::general_purpose::STANDARD;
use base64::Engine;
use selfhosted::marketplace::{
    dependency_count, settle_after_start, sort_by_dependency_count, StackDeployment, TemplateEngine,
};
use selfhosted::env::EnvVars;
use selfhosted::runtime::{ExposureConfig, WorkloadConfig};
use selfhosted::vault::{
    decode_master_key, encode_master_key, master_key_from_sources, password_from_draws, VaultManager,
};

fn vault() -> VaultManager {
    VaultManager::from_master_key([42u8; 32])
}

#[test]
fn encrypt_then_decrypt_gives_back_the_plaintext() {
    let v = vault();
    for p in ["", "hunter2", "pässwörd ✓", "a much longer secret with spaces and symbols !@#$%^&*()"] {
        let sealed = v.encrypt_string(p).unwrap();
        assert_ne!(sealed, p);
        assert_eq!(v.decrypt_string(&sealed), Ok(p.to_string()));
    }
}

#[test]
fn payload_is_nonce_and_ciphertext_in_base64() {
    let v = vault();
    let nonce = [1u8; 12];
    let sealed = v.encrypt_with_nonce("abc", &nonce).unwrap();
    // 12 nonce bytes + 3 plaintext bytes + 16 tag bytes = 31 bytes -> 44 base64 characters.
    assert_eq!(sealed.len(), 44);
    assert!(sealed.starts_with("AQEBAQEBAQEBAQEB"));
    assert_eq!(v.encrypt_with_nonce("abc", &nonce).unwrap(), sealed);
    assert_eq!(v.decrypt_string(&sealed), Ok("abc".to_string()));
}

#[test]
fn fresh_nonces_differ() {
    let v = vault();
    assert_ne!(v.encrypt_string("same").unwrap(), v.encrypt_string("same").unwrap());
}

#[test]
fn decryption_errors() {
    let v = vault();
    assert_eq!(v.decrypt_string("not base64!"), Err("Failed to decode base64 payload".to_string()));
    assert_eq!(v.decrypt_string("AAAA"), Err("Invalid encrypted payload length".to_string()));
    let sealed = v.encrypt_string("secret").unwrap();
    let other = VaultManager::from_master_key([1u8; 32]);
    assert_eq!(other.decrypt_string(&sealed), Err("Decryption failed: aead::Error".to_string()));
}

#[test]
fn master_key_encoding() {
    let key = [0u8; 32];
    let text = encode_master_key(&key);
    assert_eq!(text, "AAAAAAAAAAAAAAAAAAAAAAAAAAAAAAAAAAAAAAAAAAA=");
    assert_eq!(decode_master_key(&text), Some(key));
    assert_eq!(decode_master_key("AAAA"), None);
    assert_eq!(decode_master_key("%%%"), None);
}

#[test]
fn passwords() {
    assert_eq!(password_from_draws(&[0, 25, 26, 52, 62, 75, 76, 77]), "AZa0!+AB");
    let p = vault().generate_secure_password();
    assert_eq!(p.chars().count(), 24);
    let charset = "ABCDEFGHIJKLMNOPQRSTUVWXYZabcdefghijklmnopqrstuvwxyz0123456789!@#$%^&*()-_=+";
    assert!(p.chars().all(|c| charset.contains(c)));
}

#[test]
fn bundled_templates() {
    let e = TemplateEngine::new();
    let mut ids: Vec<String> = e.get_templates().into_iter().map(|t| t.id).collect();
    ids.sort();
    assert_eq!(ids, vec!["hello-world", "wordpress-stack"]);
    let wp = e.get_template("wordpress-stack").unwrap();
    assert_eq!(wp.name, "WordPress");
    assert_eq!(wp.recommended_ram_gb, 2);
    assert_eq!(wp.workloads.len(), 2);
    assert_eq!(wp.workloads[0].template, "mariadb");
    assert_eq!(wp.workloads[1].depends_on, Some(vec!["db".to_string()]));
    assert_eq!(wp.workloads[1].env_vars.get("WORDPRESS_DB_HOST"), Some(&"db".to_string()));
    let hw = e.get_template("hello-world").unwrap();
    assert_eq!(hw.category, "Demo");
    assert!(e.get_template("nope").is_none());
}

fn w(id: &str, rt: &str, template: &str, deps: Option<Vec<&str>>) -> WorkloadConfig {
    WorkloadConfig {
        id: id.to_string(),
        resource_type: rt.to_string(),
        template: template.to_string(),
        port: 80,
        env_vars: EnvVars::new(),
        domain: None,
        host_path: None,
        exposure: None,
        stack_id: None,
        network_alias: None,
        depends_on: deps.map(|d| d.into_iter().map(|s| s.to_string()).collect()),
    }
}

#[test]
fn dependency_sort_is_stable() {
    let ws = vec![
        w("web", "website", "static", Some(vec!["db", "cache"])),
        w("api", "website", "nodejs", Some(vec!["db"])),
        w("db", "database", "postgres", None),
        w("cache", "database", "redis", Some(vec![])),
        w("worker", "website", "python", Some(vec!["db"])),
    ];
    let sorted: Vec<String> = sort_by_dependency_count(&ws).into_iter().map(|w| w.id).collect();
    assert_eq!(sorted, vec!["db", "cache", "api", "worker", "web"]);
    assert_eq!(dependency_count(&ws[0]), 2);
    assert_eq!(dependency_count(&ws[2]), 0);
}

#[test]
fn unknown_template_cannot_be_deployed() {
    let e = TemplateEngine::new();
    assert_eq!(
        StackDeployment::begin(&e, "missing", None, None).err(),
        Some("Template not found in local registry".to_string())
    );
}

#[test]
fn wordpress_stack_deployment_propagates_the_database_password() {
    let e = TemplateEngine::new();
    let v = vault();
    let exposure = Some(ExposureConfig { provider: "cloudflare".into(), mode: "quick".into(), token: None });
    let mut d = StackDeployment::begin(&e, "wordpress-stack", Some("blog.local".into()), exposure).ok().unwrap();
    let db = d.prepare_next(&v).unwrap().unwrap();
    let stack_id = db.config.stack_id.clone().unwrap();
    assert!(stack_id.starts_with("stack-"));
    assert_eq!(stack_id.len(), 14);
    assert_eq!(db.config.id, format!("{}-db", stack_id));
    assert!(settle_after_start(&db.config));
    let pw = db.config.env_vars.get("MARIADB_ROOT_PASSWORD").unwrap().clone();
    assert_eq!(db.config.env_vars.get("MARIADB_PASSWORD"), Some(&pw));
    assert_eq!(db.config.env_vars.get("MARIADB_USER"), Some(&"wordpress".to_string()));
    assert!(db.config.domain.is_none());
    assert!(db.config.exposure.is_none());
    let secret = db.secret.unwrap();
    assert_eq!(secret.id, format!("{}-db_admin_password", stack_id));
    assert_eq!(v.decrypt_string(&secret.encrypted_payload), Ok(pw.clone()));
    d.record_started(db.config);

    let web = d.prepare_next(&v).unwrap().unwrap();
    assert_eq!(web.config.id, format!("{}-web", stack_id));
    assert_eq!(web.config.env_vars.get("WORDPRESS_DB_PASSWORD"), Some(&pw));
    assert_eq!(web.config.domain, Some("blog.local".to_string()));
    assert_eq!(web.config.exposure.as_ref().unwrap().provider, "cloudflare");
    assert!(web.secret.is_none());
    assert!(!settle_after_start(&web.config));
    d.record_started(web.config);

    assert!(d.prepare_next(&v).unwrap().is_none());
    let stack = d.finish();
    assert_eq!(stack.id, stack_id);
    assert_eq!(stack.name, "WordPress");
    assert_eq!(stack.workloads.len(), 2);
    assert_eq!(stack.exposure.unwrap().mode, "quick");
}

#[test]
fn master_key_source_preference() {
    let a = encode_master_key(&[1u8; 32]);
    let b = encode_master_key(&[2u8; 32]);
    assert_eq!(master_key_from_sources(Some(&a), Some(&b)), Some([1u8; 32]));
    assert_eq!(master_key_from_sources(Some("short"), Some(&b)), Some([2u8; 32]));
    assert_eq!(master_key_from_sources(None, Some(&b)), Some([2u8; 32]));
    assert_eq!(master_key_from_sources(Some("AAAA"), Some("!!")), None);
    assert_eq!(master_key_from_sources(None, None), None);
}

#[test]
fn sealed_payload_length_and_short_payloads() {
    let v = vault();
    for p in ["", "x", "héllo wörld"] {
        let sealed = v.encrypt_string(p).unwrap();
        assert_eq!(STANDARD.decode(&sealed).unwrap().len(), 12 + p.len() + 16);
    }
    // Twelve to twenty-seven bytes: a nonce but no room for the 16-byte tag.
    for n in [12usize, 20, 27] {
        let short = STANDARD.encode(vec![0u8; n]);
        assert_eq!(v.decrypt_string(&short), Err("Decryption failed: aead::Error".to_string()));
    }
}

#[test]
fn stored_master_key_is_read_back() {
    let key = selfhosted::vault::new_master_key();
    let stored = encode_master_key(&key);
    assert_eq!(decode_master_key(&stored), Some(key));
    assert_eq!(master_key_from_sources(Some(&stored), None), Some(key));
}
