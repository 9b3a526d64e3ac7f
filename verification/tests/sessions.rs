use selfhosted::session::{is_container_resource, ManagedSession, Selection, SessionManager};
use selfhosted::worker::{expiration_action, tick_jobs, ExpirationAction, WorkerJob};

fn ids(v: &[ManagedSession]) -> Vec<String> {
    let mut ids: Vec<String> = v.iter().map(|s| s.id.clone()).collect();
    ids.sort();
    ids
}

fn find<'a>(v: &'a [ManagedSession], id: &str) -> &'a ManagedSession {
    v.iter().find(|s| s.id == id).expect("session present")
}

#[test]
fn new_manager_is_empty() {
    let m = SessionManager::new();
    assert!(m.active_sessions().is_empty());
}

#[test]
fn register_sets_expiry_and_running_status() {
    let mut m = SessionManager::new();
    m.register("web-1".to_string(), "website".to_string(), 1_000, 30);
    let all = m.active_sessions();
    assert_eq!(all.len(), 1);
    let s = find(&all, "web-1");
    assert_eq!(s.resource_type, "website");
    assert_eq!(s.expires_at, 1_000 + 30 * 60);
    assert_eq!(s.status, "running");
}

#[test]
fn register_again_replaces() {
    let mut m = SessionManager::new();
    m.register("a".to_string(), "website".to_string(), 0, 1);
    m.register("a".to_string(), "database".to_string(), 100, 2);
    let all = m.active_sessions();
    assert_eq!(all.len(), 1);
    assert_eq!(all[0].resource_type, "database");
    assert_eq!(all[0].expires_at, 220);
}

#[test]
fn update_status_only_touches_that_session() {
    let mut m = SessionManager::new();
    m.register("a".to_string(), "website".to_string(), 0, 1);
    m.register("b".to_string(), "database".to_string(), 0, 1);
    m.update_status("b", "paused".to_string());
    m.update_status("missing", "failed".to_string());
    let all = m.active_sessions();
    assert_eq!(ids(&all), vec!["a", "b"]);
    assert_eq!(find(&all, "a").status, "running");
    assert_eq!(find(&all, "b").status, "paused");
}

#[test]
fn expiry_partitions_sessions() {
    let mut m = SessionManager::new();
    m.register("old".to_string(), "website".to_string(), 0, 1); // expires at 60
    m.register("edge".to_string(), "tunnel".to_string(), 0, 2); // expires at 120
    m.register("young".to_string(), "database".to_string(), 0, 10); // expires at 600
    let expired = m.take_expired(120);
    assert_eq!(ids(&expired), vec!["edge", "old"]);
    assert_eq!(ids(&m.active_sessions()), vec!["young"]);
    assert!(m.take_expired(120).is_empty());
}

#[test]
fn recovery_only_adds_running_or_paused_untracked() {
    let mut m = SessionManager::new();
    assert!(m.recover_from_inspection("c1", "website", "running\n", 10));
    assert!(m.recover_from_inspection("c2", "database", "  paused ", 10));
    assert!(!m.recover_from_inspection("c3", "website", "exited\n", 10));
    assert!(!m.recover_from_inspection("c1", "website", "paused", 20));
    let all = m.active_sessions();
    assert_eq!(ids(&all), vec!["c1", "c2"]);
    assert_eq!(find(&all, "c1").status, "running");
    assert_eq!(find(&all, "c1").expires_at, 3_610);
    assert_eq!(find(&all, "c2").status, "paused");
}

#[test]
fn throttle_selections() {
    let mut m = SessionManager::new();
    m.register("db".to_string(), "database".to_string(), 0, 10);
    m.register("db2".to_string(), "database".to_string(), 0, 10);
    m.register("share".to_string(), "fileshare".to_string(), 0, 10);
    m.register("site".to_string(), "website".to_string(), 0, 10);
    m.update_status("db2", "paused".to_string());
    assert_eq!(ids(&m.select(Selection::ThermalThrottle)), vec!["db"]);
    assert_eq!(ids(&m.select(Selection::BatteryThrottle)), vec!["db", "site"]);
    assert_eq!(ids(&m.select(Selection::All)), vec!["db", "db2", "share", "site"]);
    assert_eq!(ids(&m.select(Selection::LiveAt(600))), Vec::<String>::new());
    assert_eq!(ids(&m.select(Selection::ExpiredAt(599))), Vec::<String>::new());
}

#[test]
fn duplicate_copies_every_field() {
    let s = ManagedSession { id: "x".into(), resource_type: "website".into(), expires_at: 5, status: "running".into() };
    let d = s.duplicate();
    assert_eq!((d.id, d.resource_type, d.expires_at, d.status), (s.id, s.resource_type, s.expires_at, s.status));
}

#[test]
fn container_resources_and_expiration_actions() {
    for rt in ["website", "database", "fileshare"] {
        assert!(is_container_resource(rt));
        assert_eq!(expiration_action(rt), ExpirationAction::RemoveContainer);
    }
    assert!(!is_container_resource("tunnel"));
    assert_eq!(expiration_action("tunnel"), ExpirationAction::CloseTunnel);
    assert_eq!(expiration_action("other"), ExpirationAction::Forget);
    assert_eq!(tick_jobs(), vec![WorkerJob::ProcessExpirations, WorkerJob::TickTelemetry]);
}

#[test]
fn recovered_paused_sessions_are_not_throttled_again() {
    let mut m = SessionManager::new();
    assert!(m.recover_from_inspection("db", "database", "paused\n", 0));
    m.register("site".to_string(), "website".to_string(), 0, 10);
    assert!(m.select(Selection::ThermalThrottle).is_empty());
    assert_eq!(ids(&m.select(Selection::BatteryThrottle)), vec!["site"]);
}
