use vstd::prelude::*;
use vstd::utf8::encode_utf8;
use crate::env::EnvVars;
use crate::keyed::{entry_map, keys_unique, law_set_then_get, lemma_set_entry, set_entry};
use crate::foreign::{is_hyphenated_uuid, new_uuid_text, AES_GCM_MAX_PLAINTEXT};
use crate::vault::{password_charset, sealed_payload, VaultManager, PASSWORD_LENGTH};
use crate::text::{
    append_args, chars_of, clone_opt_text, string_from_range, clone_opt_texts, decimal, format_decimal, join2, join3, opt_text,
    opt_texts, push_arg, same_text,
};

verus! {

/// What this device can run.
#[derive(Clone, Debug)]
pub struct CapabilityEngine {
    pub supports_docker: bool,
    pub supports_databases: bool,
    pub supports_public_tunnels: bool,
    pub platform: String,
}

/// Whether a container runtime is present.
#[derive(Clone, Debug)]
pub struct RuntimeStatus {
    pub installed: bool,
    pub engine: String,
    pub active_containers: usize,
}

/// How a workload is exposed beyond this device.
#[derive(Clone, Debug)]
pub struct ExposureConfig {
    /// "cloudflare", "tailscale", "local_only" or "none".
    pub provider: String,
    /// "quick", "authenticated" or "mesh".
    pub mode: String,
    pub token: Option<String>,
}

/// An exposure request, taken by its plain values.
pub struct ExposureView {
    pub provider: Seq<char>,
    pub mode: Seq<char>,
    pub token: Option<Seq<char>>,
}

impl View for ExposureConfig {
    type V = ExposureView;

    open spec fn view(&self) -> ExposureView {
        ExposureView { provider: self.provider@, mode: self.mode@, token: opt_text(self.token) }
    }
}

/// An optional exposure request, taken by its plain values.
pub open spec fn opt_exposure(o: Option<ExposureConfig>) -> Option<ExposureView> {
    match o {
        Some(e) => Some(e@),
        None => None,
    }
}

impl ExposureConfig {
    /// A copy of this request.
    pub fn duplicate(&self) -> (r: Self)
        ensures
            r@ == self@,
    {
        ExposureConfig {
            provider: self.provider.clone(),
            mode: self.mode.clone(),
            token: clone_opt_text(&self.token),
        }
    }
}

/// A copy of an optional exposure request.
pub fn clone_opt_exposure(o: &Option<ExposureConfig>) -> (r: Option<ExposureConfig>)
    ensures
        opt_exposure(r) == opt_exposure(*o),
{
    match o {
        Some(e) => Some(e.duplicate()),
        None => None,
    }
}

/// A workload to run.
pub struct WorkloadConfig {
    pub id: String,
    /// "website", "database" or "fileshare".
    pub resource_type: String,
    /// "nodejs", "python", "php", "static", "mysql", "postgres", "wordpress", ...
    pub template: String,
    /// The port the workload listens on.
    pub port: u16,
    pub env_vars: EnvVars,
    pub domain: Option<String>,
    pub host_path: Option<String>,
    pub exposure: Option<ExposureConfig>,
    pub stack_id: Option<String>,
    pub network_alias: Option<String>,
    pub depends_on: Option<Vec<String>>,
}

/// A workload, taken by its plain values; the environment is kept in order.
pub struct WorkloadView {
    pub id: Seq<char>,
    pub resource_type: Seq<char>,
    pub template: Seq<char>,
    pub port: u16,
    pub env: Seq<(Seq<char>, Seq<char>)>,
    pub domain: Option<Seq<char>>,
    pub host_path: Option<Seq<char>>,
    pub exposure: Option<ExposureView>,
    pub stack_id: Option<Seq<char>>,
    pub network_alias: Option<Seq<char>>,
    pub depends_on: Option<Seq<Seq<char>>>,
}

impl View for WorkloadConfig {
    type V = WorkloadView;

    open spec fn view(&self) -> WorkloadView {
        WorkloadView {
            id: self.id@,
            resource_type: self.resource_type@,
            template: self.template@,
            port: self.port,
            env: self.env_vars.entries(),
            domain: opt_text(self.domain),
            host_path: opt_text(self.host_path),
            exposure: opt_exposure(self.exposure),
            stack_id: opt_text(self.stack_id),
            network_alias: opt_text(self.network_alias),
            depends_on: opt_texts(self.depends_on),
        }
    }
}

impl WorkloadConfig {
    /// A copy of this workload.
    pub fn duplicate(&self) -> (r: Self)
        ensures
            r@ == self@,
    {
        WorkloadConfig {
            id: self.id.clone(),
            resource_type: self.resource_type.clone(),
            template: self.template.clone(),
            port: self.port,
            env_vars: self.env_vars.duplicate(),
            domain: clone_opt_text(&self.domain),
            host_path: clone_opt_text(&self.host_path),
            exposure: clone_opt_exposure(&self.exposure),
            stack_id: clone_opt_text(&self.stack_id),
            network_alias: clone_opt_text(&self.network_alias),
            depends_on: clone_opt_texts(&self.depends_on),
        }
    }
}

/// The workloads of a list, taken by their plain values.
pub open spec fn workload_views(s: Seq<WorkloadConfig>) -> Seq<WorkloadView> {
    s.map_values(|w: WorkloadConfig| w@)
}

/// A copy of a list of workloads.
pub fn clone_workloads(v: &Vec<WorkloadConfig>) -> (r: Vec<WorkloadConfig>)
    ensures
        workload_views(r@) == workload_views(v@),
{
    let mut r: Vec<WorkloadConfig> = Vec::new();
    let mut i: usize = 0;
    while i < v.len()
        invariant
            i <= v.len(),
            workload_views(r@) == workload_views(v@).take(i as int),
        decreases v.len() - i,
    {
        r.push(v[i].duplicate());
        assert(workload_views(v@).take(i + 1) == workload_views(v@).take(i as int).push(v@[i as int]@));
        i = i + 1;
    }
    assert(workload_views(v@).take(v.len() as int) == workload_views(v@));
    r
}

/// A group of workloads deployed together on one network.
pub struct StackConfig {
    pub id: String,
    pub name: String,
    pub workloads: Vec<WorkloadConfig>,
    pub exposure: Option<ExposureConfig>,
}

/// A running workload.
pub struct WorkloadSession {
    pub id: String,
    pub config: WorkloadConfig,
    pub status: String,
}

/// Runs workloads as Docker containers (desktop).
#[derive(Clone, Copy, Debug)]
pub struct DockerProvider;

/// Runs workloads natively (mobile); every operation succeeds at once.
#[derive(Clone, Copy, Debug)]
pub struct NativeProvider;

impl DockerProvider {
    pub fn new() -> Self {
        DockerProvider
    }

    /// The status to report, given whether `docker --version` could be run.
    pub fn runtime_status(&self, docker_found: bool) -> (r: RuntimeStatus)
        ensures
            r.installed == docker_found,
            r.engine@ == "Docker"@,
            r.active_containers == 0,
    {
        RuntimeStatus { installed: docker_found, engine: "Docker".to_owned(), active_containers: 0 }
    }
}

impl NativeProvider {
    pub fn new() -> Self {
        NativeProvider
    }

    /// The status to report: always installed.
    pub fn runtime_status(&self) -> (r: RuntimeStatus)
        ensures
            r.installed,
            r.engine@ == "Native HTTP"@,
            r.active_containers == 0,
    {
        RuntimeStatus { installed: true, engine: "Native HTTP".to_owned(), active_containers: 0 }
    }
}

/// The capabilities of a device: none on Android; everything elsewhere, with the OS name as
/// platform.
pub fn capabilities_for(is_android: bool, os: &str) -> (r: CapabilityEngine)
    ensures
        is_android ==> !r.supports_docker && !r.supports_databases && !r.supports_public_tunnels
            && r.platform@ == "android"@,
        !is_android ==> r.supports_docker && r.supports_databases && r.supports_public_tunnels
            && r.platform@ == os@,
{
    if is_android {
        CapabilityEngine {
            supports_docker: false,
            supports_databases: false,
            supports_public_tunnels: false,
            platform: "android".to_owned(),
        }
    } else {
        CapabilityEngine {
            supports_docker: true,
            supports_databases: true,
            supports_public_tunnels: true,
            platform: os.to_owned(),
        }
    }
}

/// The session that a successful start of `config` gives: the workload's id, a copy of its
/// configuration and status "Running".
pub fn running_session(config: &WorkloadConfig) -> (s: WorkloadSession)
    ensures
        s.id@ == config.id@,
        s.config@ == config@,
        s.status@ == "Running"@,
{
    WorkloadSession { id: config.id.clone(), config: config.duplicate(), status: "Running".to_owned() }
}

} // verus!

verus! {

/// `seq![flag, p + suffix]` when a host path is given, nothing otherwise.
pub open spec fn mount_args(host_path: Option<Seq<char>>, suffix: Seq<char>) -> Seq<Seq<char>> {
    match host_path {
        Some(p) => seq!["-v"@, p + suffix],
        None => Seq::empty(),
    }
}

/// The image and command arguments of a runtime template, `None` for an unknown template.
pub open spec fn template_run_args(template: Seq<char>, host_path: Option<Seq<char>>, port: u16) -> Option<
    Seq<Seq<char>>,
> {
    if template == "nodejs"@ {
        Some(
            (match host_path {
                Some(p) => seq!["-v"@, p + ":/app"@, "-w"@, "/app"@],
                None => Seq::empty(),
            }) + seq!["node:18-alpine"@, "npm"@, "start"@],
        )
    } else if template == "python"@ {
        Some(
            (match host_path {
                Some(p) => seq!["-v"@, p + ":/app"@, "-w"@, "/app"@],
                None => Seq::empty(),
            }) + seq!["python:3.11-slim"@, "python"@, "-m"@, "http.server"@, decimal(port as nat)],
        )
    } else if template == "php"@ {
        Some(mount_args(host_path, ":/var/www/html"@) + seq!["php:8-apache"@])
    } else if template == "static"@ {
        Some(mount_args(host_path, ":/usr/share/nginx/html:ro"@) + seq!["nginx:alpine"@])
    } else if template == "mysql"@ {
        Some(seq!["mysql:8"@])
    } else if template == "postgres"@ {
        Some(seq!["postgres:alpine"@])
    } else if template == "redis"@ {
        Some(seq!["redis:alpine"@])
    } else if template == "mongodb"@ {
        Some(seq!["mongo:latest"@])
    } else if template == "wordpress"@ {
        Some(seq!["wordpress:latest"@])
    } else if template == "nextcloud"@ {
        Some(seq!["nextcloud:latest"@])
    } else {
        None
    }
}

/// The network arguments: the stack's network (and alias) for a stack member, otherwise the
/// port published on the loopback address.
pub open spec fn network_args_spec(w: WorkloadView) -> Seq<Seq<char>> {
    match w.stack_id {
        Some(sid) => seq!["--network"@, sid] + match w.network_alias {
            Some(a) => seq!["--network-alias"@, a],
            None => Seq::empty(),
        },
        None => seq![
            "-p"@,
            "127.0.0.1:"@ + decimal(w.port as nat) + ":"@ + decimal(w.port as nat)
        ],
    }
}

/// `-e key=value` for each variable, in order.
pub open spec fn env_args_spec(env: Seq<(Seq<char>, Seq<char>)>) -> Seq<Seq<char>>
    decreases env.len(),
{
    if env.len() == 0 {
        Seq::empty()
    } else {
        env_args_spec(env.drop_last()) + seq!["-e"@, env.last().0 + "="@ + env.last().1]
    }
}

/// The arguments of the `docker` call that starts workload `w`, `None` for an unknown template.
pub open spec fn docker_run_args_spec(w: WorkloadView) -> Option<Seq<Seq<char>>> {
    match template_run_args(w.template, w.host_path, w.port) {
        Some(t) => Some(
            seq!["run"@, "-d"@, "--name"@, w.id] + network_args_spec(w) + env_args_spec(w.env) + t,
        ),
        None => None,
    }
}

fn mount_args_exec(host_path: &Option<String>, suffix: &str) -> (r: Vec<String>)
    ensures
        r.deep_view() == mount_args(opt_text(*host_path), suffix@),
{
    let mut r: Vec<String> = Vec::new();
    match host_path {
        Some(p) => {
            push_arg(&mut r, "-v");
            let m = join2(p.as_str(), suffix);
            push_arg(&mut r, m.as_str());
            assert(r.deep_view() =~= seq!["-v"@, p@ + suffix@]);
        },
        None => {
            assert(r.deep_view() =~= Seq::<Seq<char>>::empty());
        },
    }
    r
}

fn workdir_args(host_path: &Option<String>) -> (r: Vec<String>)
    ensures
        r.deep_view() == (match opt_text(*host_path) {
            Some(p) => seq!["-v"@, p + ":/app"@, "-w"@, "/app"@],
            None => Seq::<Seq<char>>::empty(),
        }),
{
    let mut r: Vec<String> = Vec::new();
    match host_path {
        Some(p) => {
            push_arg(&mut r, "-v");
            let m = join2(p.as_str(), ":/app");
            push_arg(&mut r, m.as_str());
            push_arg(&mut r, "-w");
            push_arg(&mut r, "/app");
            assert(r.deep_view() =~= seq!["-v"@, p@ + ":/app"@, "-w"@, "/app"@]);
        },
        None => {
            assert(r.deep_view() =~= Seq::<Seq<char>>::empty());
        },
    }
    r
}

fn one_arg(a: &str) -> (r: Vec<String>)
    ensures
        r.deep_view() == seq![a@],
{
    let mut r: Vec<String> = Vec::new();
    push_arg(&mut r, a);
    assert(r.deep_view() =~= seq![a@]);
    r
}

/// The image and command arguments of a runtime template, `None` for an unknown template.
pub fn template_args(template: &str, host_path: &Option<String>, port: u16) -> (r: Option<Vec<String>>)
    ensures
        match r {
            Some(v) => template_run_args(template@, opt_text(*host_path), port) == Some(v.deep_view()),
            None => template_run_args(template@, opt_text(*host_path), port) is None,
        },
{
    if same_text(template, "nodejs") {
        let mut r = workdir_args(host_path);
        push_arg(&mut r, "node:18-alpine");
        push_arg(&mut r, "npm");
        push_arg(&mut r, "start");
        Some(r)
    } else if same_text(template, "python") {
        let mut r = workdir_args(host_path);
        push_arg(&mut r, "python:3.11-slim");
        push_arg(&mut r, "python");
        push_arg(&mut r, "-m");
        push_arg(&mut r, "http.server");
        let p = format_decimal(port as u64);
        push_arg(&mut r, p.as_str());
        Some(r)
    } else if same_text(template, "php") {
        let mut r = mount_args_exec(host_path, ":/var/www/html");
        push_arg(&mut r, "php:8-apache");
        Some(r)
    } else if same_text(template, "static") {
        let mut r = mount_args_exec(host_path, ":/usr/share/nginx/html:ro");
        push_arg(&mut r, "nginx:alpine");
        Some(r)
    } else if same_text(template, "mysql") {
        Some(one_arg("mysql:8"))
    } else if same_text(template, "postgres") {
        Some(one_arg("postgres:alpine"))
    } else if same_text(template, "redis") {
        Some(one_arg("redis:alpine"))
    } else if same_text(template, "mongodb") {
        Some(one_arg("mongo:latest"))
    } else if same_text(template, "wordpress") {
        Some(one_arg("wordpress:latest"))
    } else if same_text(template, "nextcloud") {
        Some(one_arg("nextcloud:latest"))
    } else {
        None
    }
}

/// The network arguments of a workload (see `network_args_spec`).
pub fn network_args(config: &WorkloadConfig) -> (r: Vec<String>)
    ensures
        r.deep_view() == network_args_spec(config@),
{
    let mut r: Vec<String> = Vec::new();
    match &config.stack_id {
        Some(sid) => {
            push_arg(&mut r, "--network");
            push_arg(&mut r, sid.as_str());
            match &config.network_alias {
                Some(a) => {
                    push_arg(&mut r, "--network-alias");
                    push_arg(&mut r, a.as_str());
                },
                None => {},
            }
            assert(r.deep_view() =~= network_args_spec(config@));
        },
        None => {
            push_arg(&mut r, "-p");
            let p = format_decimal(config.port as u64);
            let head = join2("127.0.0.1:", p.as_str());
            let whole = join3(head.as_str(), ":", p.as_str());
            push_arg(&mut r, whole.as_str());
            assert(r.deep_view() =~= network_args_spec(config@));
        },
    }
    r
}

/// `-e key=value` for each variable of `env`, in order.
pub fn env_args(env: &EnvVars) -> (r: Vec<String>)
    ensures
        r.deep_view() == env_args_spec(env.entries()),
{
    let mut r: Vec<String> = Vec::new();
    let mut i: usize = 0;
    while i < env.len()
        invariant
            i <= env.entries().len(),
            r.deep_view() == env_args_spec(env.entries().take(i as int)),
        decreases env.entries().len() - i,
    {
        let e = env.entry(i);
        push_arg(&mut r, "-e");
        let kv = join3(e.key.as_str(), "=", e.value.as_str());
        push_arg(&mut r, kv.as_str());
        let ghost t = env.entries().take(i + 1);
        assert(t.drop_last() == env.entries().take(i as int));
        assert(r.deep_view() =~= env_args_spec(t));
        i = i + 1;
    }
    assert(env.entries().take(env.entries().len() as int) == env.entries());
    r
}

/// The arguments of the `docker` call that starts `config`; fails with "Unknown runtime
/// template" for a template that is not known.
pub fn docker_run_args(config: &WorkloadConfig) -> (r: Result<Vec<String>, String>)
    ensures
        match r {
            Ok(v) => docker_run_args_spec(config@) == Some(v.deep_view()),
            Err(e) => docker_run_args_spec(config@) is None && e@ == "Unknown runtime template"@,
        },
{
    let mut args: Vec<String> = Vec::new();
    push_arg(&mut args, "run");
    push_arg(&mut args, "-d");
    push_arg(&mut args, "--name");
    push_arg(&mut args, config.id.as_str());
    append_args(&mut args, network_args(config));
    append_args(&mut args, env_args(&config.env_vars));
    match template_args(config.template.as_str(), &config.host_path, config.port) {
        Some(t) => {
            append_args(&mut args, t);
            assert(args.deep_view() =~= docker_run_args_spec(config@)->0);
            Ok(args)
        },
        None => Err("Unknown runtime template".to_owned()),
    }
}

/// The arguments of the `docker` call that creates a stack's network.
pub fn network_create_args(stack_id: &str) -> (r: Vec<String>)
    ensures
        r.deep_view() == seq!["network"@, "create"@, stack_id@],
{
    let mut r: Vec<String> = Vec::new();
    push_arg(&mut r, "network");
    push_arg(&mut r, "create");
    push_arg(&mut r, stack_id);
    assert(r.deep_view() =~= seq!["network"@, "create"@, stack_id@]);
    r
}

/// An operation on an existing container.
#[derive(Clone, Copy, Debug, PartialEq, Eq)]
pub enum ContainerAction {
    /// Stop and remove it (`docker rm -f`).
    Remove,
    /// Freeze it (`docker pause`).
    Pause,
    /// Thaw it (`docker unpause`).
    Unpause,
    /// Read its state (`docker inspect -f {{.State.Status}}`).
    InspectStatus,
}

/// The `docker` arguments of `action` on container `id`.
pub open spec fn container_args_spec(action: ContainerAction, id: Seq<char>) -> Seq<Seq<char>> {
    match action {
        ContainerAction::Remove => seq!["rm"@, "-f"@, id],
        ContainerAction::Pause => seq!["pause"@, id],
        ContainerAction::Unpause => seq!["unpause"@, id],
        ContainerAction::InspectStatus => seq!["inspect"@, "-f"@, "{{.State.Status}}"@, id],
    }
}

/// The `docker` arguments of `action` on container `id`.
pub fn container_args(action: ContainerAction, id: &str) -> (r: Vec<String>)
    ensures
        r.deep_view() == container_args_spec(action, id@),
{
    let mut r: Vec<String> = Vec::new();
    match action {
        ContainerAction::Remove => {
            push_arg(&mut r, "rm");
            push_arg(&mut r, "-f");
        },
        ContainerAction::Pause => {
            push_arg(&mut r, "pause");
        },
        ContainerAction::Unpause => {
            push_arg(&mut r, "unpause");
        },
        ContainerAction::InspectStatus => {
            push_arg(&mut r, "inspect");
            push_arg(&mut r, "-f");
            push_arg(&mut r, "{{.State.Status}}");
        },
    }
    push_arg(&mut r, id);
    assert(r.deep_view() =~= container_args_spec(action, id@));
    r
}

} // verus!

verus! {

/// `prefix` followed by the first eight characters of `uuid`.
pub open spec fn short_id(prefix: Seq<char>, uuid: Seq<char>) -> Seq<char> {
    prefix + uuid.take(8)
}

/// `prefix` followed by the first eight characters of `uuid_text`.
pub fn short_id_from(prefix: &str, uuid_text: &str) -> (r: String)
    requires
        uuid_text@.len() >= 8,
    ensures
        r@ == short_id(prefix@, uuid_text@),
{
    let cs = chars_of(uuid_text);
    let head = string_from_range(&cs, 0, 8);
    assert(cs@.subrange(0, 8) == uuid_text@.take(8));
    join2(prefix, head.as_str())
}

/// `prefix` followed by the first eight characters of a fresh random UUID.
pub fn fresh_short_id(prefix: &str) -> (r: String)
    ensures
        exists|u: Seq<char>| is_hyphenated_uuid(u) && r@ == #[trigger] short_id(prefix@, u),
{
    let u = new_uuid_text();
    short_id_from(prefix, u.as_str())
}

/// The id under which a database workload's admin password is stored.
pub open spec fn database_secret_id(workload_id: Seq<char>) -> Seq<char> {
    workload_id + "_admin_password"@
}

/// A secret generated for a workload, ready to be stored.
pub struct GeneratedSecret {
    pub id: String,
    pub secret_type: String,
    pub encrypted_payload: String,
}

/// A workload ready to be started, with the secret generated for it, if any.
pub struct PreparedWorkload {
    pub config: WorkloadConfig,
    pub secret: Option<GeneratedSecret>,
}

/// The environment of a database workload started on its own after its admin password has been
/// set in the variable(s) its template reads.
pub open spec fn runtime_credential_env(
    template: Seq<char>,
    password: Seq<char>,
    env: Seq<(Seq<char>, Seq<char>)>,
) -> Seq<(Seq<char>, Seq<char>)> {
    if template == "mysql"@ {
        set_entry(env, "MYSQL_ROOT_PASSWORD"@, password)
    } else if template == "postgres"@ {
        set_entry(env, "POSTGRES_PASSWORD"@, password)
    } else if template == "mariadb"@ {
        set_entry(env, "MARIADB_ROOT_PASSWORD"@, password)
    } else if template == "redis"@ {
        set_entry(env, "REDIS_PASSWORD"@, password)
    } else if template == "mongodb"@ {
        set_entry(
            set_entry(env, "MONGO_INITDB_ROOT_USERNAME"@, "admin"@),
            "MONGO_INITDB_ROOT_PASSWORD"@,
            password,
        )
    } else {
        env
    }
}

/// Sets a database workload's admin password in the variable(s) its template reads.
pub fn inject_runtime_credentials(env: &mut EnvVars, template: &str, password: &str)
    ensures
        final(env).entries() == runtime_credential_env(template@, password@, old(env).entries()),
{
    if same_text(template, "mysql") {
        env.insert("MYSQL_ROOT_PASSWORD".to_owned(), password.to_owned());
    } else if same_text(template, "postgres") {
        env.insert("POSTGRES_PASSWORD".to_owned(), password.to_owned());
    } else if same_text(template, "mariadb") {
        env.insert("MARIADB_ROOT_PASSWORD".to_owned(), password.to_owned());
    } else if same_text(template, "redis") {
        env.insert("REDIS_PASSWORD".to_owned(), password.to_owned());
    } else if same_text(template, "mongodb") {
        env.insert("MONGO_INITDB_ROOT_USERNAME".to_owned(), "admin".to_owned());
        env.insert("MONGO_INITDB_ROOT_PASSWORD".to_owned(), password.to_owned());
    }
}

/// Whether `pw` is a password that the vault may generate.
pub open spec fn generated_password(pw: Seq<char>) -> bool {
    &&& pw.len() == PASSWORD_LENGTH
    &&& forall|i: int| 0 <= i < pw.len() ==> password_charset().contains(#[trigger] pw[i])
}

/// Prepares a workload for a start requested on its own: a workload without an id gets
/// "workload-" and eight characters of a fresh UUID; a database gets a fresh admin password,
/// set in its environment as its template expects and sealed by the vault for storage under
/// `database_secret_id`.
pub fn prepare_workload(config: WorkloadConfig, vault: &VaultManager) -> (r: Result<PreparedWorkload, String>)
    ensures
        r is Ok,
        r matches Ok(p) ==> {
            &&& config@.id.len() > 0 ==> p.config@.id == config@.id
            &&& config@.id.len() == 0 ==> exists|u: Seq<char>|
                is_hyphenated_uuid(u) && p.config@.id == #[trigger] short_id("workload-"@, u)
            &&& p.config@ == WorkloadView { id: p.config@.id, env: p.config@.env, ..config@ }
            &&& config@.resource_type != "database"@ ==> p.secret is None && p.config@.env == config@.env
            &&& config@.resource_type == "database"@ ==> (p.secret matches Some(s) && {
                &&& s.id@ == database_secret_id(p.config@.id)
                &&& s.secret_type@ == "database_password"@
                &&& exists|pw: Seq<char>, nonce: Seq<u8>| #![trigger sealed_payload(vault.key(), nonce, encode_utf8(pw))]
                    generated_password(pw) && nonce.len() == 12
                    && s.encrypted_payload@ == sealed_payload(vault.key(), nonce, encode_utf8(pw))
                    && p.config@.env == runtime_credential_env(config@.template, pw, config@.env)
            })
        },
{
    let mut config = config;
    if config.id.as_str().is_empty() {
        config.id = fresh_short_id("workload-");
    }
    if same_text(config.resource_type.as_str(), "database") {
        let raw_password = vault.generate_secure_password();
        let encrypted = match vault.encrypt_string(raw_password.as_str()) {
            Ok(e) => e,
            Err(e) => {
                return Err(e);
            },
        };
        let secret_id = join2(config.id.as_str(), "_admin_password");
        inject_runtime_credentials(&mut config.env_vars, config.template.as_str(), raw_password.as_str());
        let secret = GeneratedSecret {
            id: secret_id,
            secret_type: "database_password".to_owned(),
            encrypted_payload: encrypted,
        };
        Ok(PreparedWorkload { config, secret: Some(secret) })
    } else {
        Ok(PreparedWorkload { config, secret: None })
    }
}

/// The domain to route to a started workload: the requested one, unless it is empty.
pub fn routed_domain(domain: &Option<String>) -> (r: Option<String>)
    ensures
        match opt_text(*domain) {
            Some(d) => if d.len() > 0 { opt_text(r) == Some(d) } else { r is None },
            None => r is None,
        },
{
    match domain {
        Some(d) => {
            if !d.as_str().is_empty() {
                Some(d.clone())
            } else {
                None
            }
        },
        None => None,
    }
}

/// Where a workload's exposure request is sent.
#[derive(Clone, Copy, Debug, PartialEq, Eq)]
pub enum ExposureTarget {
    /// No exposure requested, or provider "none".
    NotRequested,
    Cloudflare,
    Tailscale,
    /// A provider that is not known; the request fails and is ignored.
    Unknown,
}

/// Where the exposure request `e` is sent.
pub open spec fn exposure_target_spec(e: Option<ExposureView>) -> ExposureTarget {
    match e {
        None => ExposureTarget::NotRequested,
        Some(x) => if x.provider == "none"@ {
            ExposureTarget::NotRequested
        } else if x.provider == "cloudflare"@ {
            ExposureTarget::Cloudflare
        } else if x.provider == "tailscale"@ {
            ExposureTarget::Tailscale
        } else {
            ExposureTarget::Unknown
        },
    }
}

/// Where the exposure request of a workload is sent.
pub fn exposure_target(exposure: &Option<ExposureConfig>) -> (r: ExposureTarget)
    ensures
        r == exposure_target_spec(opt_exposure(*exposure)),
{
    match exposure {
        None => ExposureTarget::NotRequested,
        Some(x) => {
            if same_text(x.provider.as_str(), "none") {
                ExposureTarget::NotRequested
            } else if same_text(x.provider.as_str(), "cloudflare") {
                ExposureTarget::Cloudflare
            } else if same_text(x.provider.as_str(), "tailscale") {
                ExposureTarget::Tailscale
            } else {
                ExposureTarget::Unknown
            }
        },
    }
}

} // verus!

verus! {

/// The environment arguments pass every variable, in order: there are two per variable, and
/// the pair of variable `i` is "-e" followed by "key=value".
pub proof fn law_env_args_layout(env: Seq<(Seq<char>, Seq<char>)>, i: int)
    requires
        0 <= i < env.len(),
    ensures
        env_args_spec(env).len() == 2 * env.len(),
        env_args_spec(env)[2 * i] == "-e"@,
        env_args_spec(env)[2 * i + 1] == env[i].0 + "="@ + env[i].1,
    decreases env.len(),
{
    let d = env.drop_last();
    let tail = seq!["-e"@, env.last().0 + "="@ + env.last().1];
    lemma_env_args_len(d);
    assert(env_args_spec(env) == env_args_spec(d) + tail);
    if i < env.len() - 1 {
        law_env_args_layout(d, i);
        assert(d[i] == env[i]);
    }
}

proof fn lemma_env_args_len(env: Seq<(Seq<char>, Seq<char>)>)
    ensures
        env_args_spec(env).len() == 2 * env.len(),
    decreases env.len(),
{
    if env.len() > 0 {
        lemma_env_args_len(env.drop_last());
    }
}

/// Whether `k` names a variable in which a database's admin credentials are set.
pub open spec fn is_credential_key(k: Seq<char>) -> bool {
    k == "MYSQL_ROOT_PASSWORD"@ || k == "POSTGRES_PASSWORD"@ || k == "MARIADB_ROOT_PASSWORD"@
        || k == "REDIS_PASSWORD"@ || k == "MONGO_INITDB_ROOT_USERNAME"@
        || k == "MONGO_INITDB_ROOT_PASSWORD"@
}

/// Setting a database's credentials only adds or overwrites credential variables: every other
/// variable of the workload is kept with its value, and no key occurs twice.
pub proof fn law_runtime_credentials_keep_other_variables(
    template: Seq<char>,
    password: Seq<char>,
    env: Seq<(Seq<char>, Seq<char>)>,
    k: Seq<char>,
)
    requires
        keys_unique(env),
        !is_credential_key(k),
    ensures
        keys_unique(runtime_credential_env(template, password, env)),
        entry_map(runtime_credential_env(template, password, env)).contains_key(k) == entry_map(
            env,
        ).contains_key(k),
        entry_map(env).contains_key(k) ==> entry_map(runtime_credential_env(template, password, env))[k]
            == entry_map(env)[k],
{
    if template == "mysql"@ {
        law_set_then_get(env, "MYSQL_ROOT_PASSWORD"@, password, k);
        lemma_set_entry(env, "MYSQL_ROOT_PASSWORD"@, password);
    } else if template == "postgres"@ {
        law_set_then_get(env, "POSTGRES_PASSWORD"@, password, k);
        lemma_set_entry(env, "POSTGRES_PASSWORD"@, password);
    } else if template == "mariadb"@ {
        law_set_then_get(env, "MARIADB_ROOT_PASSWORD"@, password, k);
        lemma_set_entry(env, "MARIADB_ROOT_PASSWORD"@, password);
    } else if template == "redis"@ {
        law_set_then_get(env, "REDIS_PASSWORD"@, password, k);
        lemma_set_entry(env, "REDIS_PASSWORD"@, password);
    } else if template == "mongodb"@ {
        let e1 = set_entry(env, "MONGO_INITDB_ROOT_USERNAME"@, "admin"@);
        law_set_then_get(env, "MONGO_INITDB_ROOT_USERNAME"@, "admin"@, k);
        lemma_set_entry(env, "MONGO_INITDB_ROOT_USERNAME"@, "admin"@);
        law_set_then_get(e1, "MONGO_INITDB_ROOT_PASSWORD"@, password, k);
        lemma_set_entry(e1, "MONGO_INITDB_ROOT_PASSWORD"@, password);
    }
}

/// A database started on its own receives its admin password in the variable its engine reads.
pub proof fn law_runtime_credentials_set_password(
    template: Seq<char>,
    password: Seq<char>,
    env: Seq<(Seq<char>, Seq<char>)>,
)
    requires
        keys_unique(env),
    ensures
        template == "mysql"@ ==> entry_map(runtime_credential_env(template, password, env))["MYSQL_ROOT_PASSWORD"@]
            == password,
        template == "postgres"@ ==> entry_map(runtime_credential_env(template, password, env))["POSTGRES_PASSWORD"@]
            == password,
        template == "mariadb"@ ==> entry_map(runtime_credential_env(template, password, env))["MARIADB_ROOT_PASSWORD"@]
            == password,
        template == "redis"@ ==> entry_map(runtime_credential_env(template, password, env))["REDIS_PASSWORD"@]
            == password,
        template == "mongodb"@ ==> entry_map(runtime_credential_env(template, password, env))["MONGO_INITDB_ROOT_PASSWORD"@]
            == password,
        template == "mongodb"@ ==> entry_map(runtime_credential_env(template, password, env))["MONGO_INITDB_ROOT_USERNAME"@]
            == "admin"@,
        !is_template_with_credentials(template) ==> runtime_credential_env(template, password, env) == env,
{
    lemma_credential_templates_distinct();
    if template == "mysql"@ {
        law_set_then_get(env, "MYSQL_ROOT_PASSWORD"@, password, ""@);
    } else if template == "postgres"@ {
        law_set_then_get(env, "POSTGRES_PASSWORD"@, password, ""@);
    } else if template == "mariadb"@ {
        law_set_then_get(env, "MARIADB_ROOT_PASSWORD"@, password, ""@);
    } else if template == "redis"@ {
        law_set_then_get(env, "REDIS_PASSWORD"@, password, ""@);
    } else if template == "mongodb"@ {
        reveal_strlit("MONGO_INITDB_ROOT_USERNAME");
        reveal_strlit("MONGO_INITDB_ROOT_PASSWORD");
        assert("MONGO_INITDB_ROOT_USERNAME"@[18] != "MONGO_INITDB_ROOT_PASSWORD"@[18]);
        let e1 = set_entry(env, "MONGO_INITDB_ROOT_USERNAME"@, "admin"@);
        lemma_set_entry(env, "MONGO_INITDB_ROOT_USERNAME"@, "admin"@);
        law_set_then_get(env, "MONGO_INITDB_ROOT_USERNAME"@, "admin"@, ""@);
        law_set_then_get(e1, "MONGO_INITDB_ROOT_PASSWORD"@, password, "MONGO_INITDB_ROOT_USERNAME"@);
    }
}

proof fn lemma_credential_templates_distinct()
    ensures
        "mysql"@ != "postgres"@,
        "mysql"@ != "mariadb"@,
        "mysql"@ != "redis"@,
        "mysql"@ != "mongodb"@,
        "postgres"@ != "mariadb"@,
        "postgres"@ != "redis"@,
        "postgres"@ != "mongodb"@,
        "mariadb"@ != "redis"@,
        "mariadb"@ != "mongodb"@,
        "redis"@ != "mongodb"@,
{
    reveal_strlit("mysql");
    reveal_strlit("postgres");
    reveal_strlit("mariadb");
    reveal_strlit("redis");
    reveal_strlit("mongodb");
    assert("mysql"@[0] != "postgres"@[0]);
    assert("mysql"@[1] != "mariadb"@[1]);
    assert("mysql"@[0] != "redis"@[0]);
    assert("mysql"@[1] != "mongodb"@[1]);
    assert("postgres"@[0] != "mariadb"@[0]);
    assert("postgres"@[0] != "redis"@[0]);
    assert("postgres"@[0] != "mongodb"@[0]);
    assert("mariadb"@[0] != "redis"@[0]);
    assert("mariadb"@[1] != "mongodb"@[1]);
    assert("redis"@[0] != "mongodb"@[0]);
}

/// Whether a template's database receives credentials when started on its own.
pub open spec fn is_template_with_credentials(template: Seq<char>) -> bool {
    template == "mysql"@ || template == "postgres"@ || template == "mariadb"@ || template == "redis"@
        || template == "mongodb"@
}

/// For the Node.js and Python templates, a mounted code directory is also the working directory:
/// the arguments begin with the mount of the host path on /app and "-w /app".
pub proof fn law_code_directory_is_workdir(template: Seq<char>, p: Seq<char>, port: u16)
    requires
        template == "nodejs"@ || template == "python"@,
    ensures
        template_run_args(template, Some(p), port) matches Some(a) && a.len() >= 4 && a.take(4)
            == seq!["-v"@, p + ":/app"@, "-w"@, "/app"@],
        template_run_args(template, None, port) matches Some(a) && !a.contains("-v"@),
{
    let a = template_run_args(template, Some(p), port)->0;
    assert(a.take(4) =~= seq!["-v"@, p + ":/app"@, "-w"@, "/app"@]);
    reveal_strlit("-v");
    reveal_strlit("node:18-alpine");
    reveal_strlit("npm");
    reveal_strlit("start");
    reveal_strlit("python:3.11-slim");
    reveal_strlit("python");
    reveal_strlit("-m");
    reveal_strlit("http.server");
    let b = template_run_args(template, None, port)->0;
    crate::text::lemma_decimal_digits(port as nat);
    assert forall|i: int| 0 <= i < b.len() implies b[i] != "-v"@ by {
        if template == "nodejs"@ {
            assert(b =~= seq!["node:18-alpine"@, "npm"@, "start"@]);
            assert(b[i][0] != "-v"@[0] || b[i].len() != 2);
        } else {
            assert(b =~= seq!["python:3.11-slim"@, "python"@, "-m"@, "http.server"@, decimal(port as nat)]);
            if i == 4 {
                assert(crate::text::is_ascii_digit(b[i][0]));
            } else {
                assert(b[i][1] != "-v"@[1] || b[i].len() != 2);
            }
        }
    }
}

/// Exactly the known runtime templates give a container to run.
pub proof fn law_known_templates(template: Seq<char>, host_path: Option<Seq<char>>, port: u16)
    ensures
        template_run_args(template, host_path, port) is Some <==> (template == "nodejs"@ || template
            == "python"@ || template == "php"@ || template == "static"@ || template == "mysql"@
            || template == "postgres"@ || template == "redis"@ || template == "mongodb"@ || template
            == "wordpress"@ || template == "nextcloud"@),
{
}

/// The `docker run` arguments of a workload name the container after the workload, publish a
/// workload started on its own on the loopback address only (same port inside and out), and
/// attach a stack member to its stack's network instead, publishing nothing.
pub proof fn law_docker_run_prefix(w: WorkloadView)
    requires
        docker_run_args_spec(w) is Some,
    ensures
        ({
            let a = docker_run_args_spec(w)->0;
            &&& a.len() >= 6
            &&& a.take(4) == seq!["run"@, "-d"@, "--name"@, w.id]
            &&& w.stack_id is None ==> a[4] == "-p"@ && a[5] == "127.0.0.1:"@ + decimal(w.port as nat)
                + ":"@ + decimal(w.port as nat)
            &&& w.stack_id matches Some(sid) ==> a[4] == "--network"@ && a[5] == sid
        }),
{
    let a = docker_run_args_spec(w)->0;
    let t = template_run_args(w.template, w.host_path, w.port)->0;
    let head = seq!["run"@, "-d"@, "--name"@, w.id];
    assert(a == head + network_args_spec(w) + env_args_spec(w.env) + t);
    assert(a.take(4) =~= head);
}

/// The `docker run` arguments of a workload pass each of its variables, in order, right after
/// the network arguments: variable `i` as "-e" followed by "key=value".
pub proof fn law_docker_run_passes_variable(w: WorkloadView, i: int)
    requires
        docker_run_args_spec(w) is Some,
        0 <= i < w.env.len(),
    ensures
        ({
            let a = docker_run_args_spec(w)->0;
            let n = network_args_spec(w).len();
            &&& a[4 + n + 2 * i] == "-e"@
            &&& a[4 + n + 2 * i + 1] == w.env[i].0 + "="@ + w.env[i].1
        }),
{
    let a = docker_run_args_spec(w)->0;
    let t = template_run_args(w.template, w.host_path, w.port)->0;
    let head = seq!["run"@, "-d"@, "--name"@, w.id];
    let n = network_args_spec(w).len();
    law_env_args_layout(w.env, i);
    assert(a == head + network_args_spec(w) + env_args_spec(w.env) + t);
    assert(a[4 + n + 2 * i] == env_args_spec(w.env)[2 * i]);
    assert(a[4 + n + 2 * i + 1] == env_args_spec(w.env)[2 * i + 1]);
}

} // verus!
