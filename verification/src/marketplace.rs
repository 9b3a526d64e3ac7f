use vstd::prelude::*;
use crate::env::EnvVars;
use crate::keyed::{
    entry_map, has_key, keys_unique, law_set_then_get, lemma_entry_map_lookup, lemma_set_entry, set_entry,
};
use crate::foreign::is_hyphenated_uuid;
use crate::runtime::{
    clone_opt_exposure, clone_workloads, database_secret_id, fresh_short_id, generated_password,
    opt_exposure, short_id, workload_views, ExposureConfig, ExposureView, GeneratedSecret,
    PreparedWorkload, StackConfig, WorkloadConfig, WorkloadView,
};
use crate::text::{clone_opt_text, join2, join3, opt_text, push_arg, same_text};
use crate::vault::{sealed_payload, VaultManager};
use vstd::utf8::encode_utf8;

verus! {

/// An application that can be deployed as a stack of workloads.
pub struct AppTemplate {
    pub id: String,
    pub name: String,
    pub description: String,
    pub icon: String,
    pub category: String,
    pub recommended_ram_gb: u32,
    pub workloads: Vec<WorkloadConfig>,
}

/// An application template, taken by its plain values.
pub struct AppTemplateView {
    pub id: Seq<char>,
    pub name: Seq<char>,
    pub description: Seq<char>,
    pub icon: Seq<char>,
    pub category: Seq<char>,
    pub recommended_ram_gb: u32,
    pub workloads: Seq<WorkloadView>,
}

impl View for AppTemplate {
    type V = AppTemplateView;

    open spec fn view(&self) -> AppTemplateView {
        AppTemplateView {
            id: self.id@,
            name: self.name@,
            description: self.description@,
            icon: self.icon@,
            category: self.category@,
            recommended_ram_gb: self.recommended_ram_gb,
            workloads: workload_views(self.workloads@),
        }
    }
}

impl AppTemplate {
    /// A copy of this template.
    pub fn duplicate(&self) -> (r: Self)
        ensures
            r@ == self@,
    {
        AppTemplate {
            id: self.id.clone(),
            name: self.name.clone(),
            description: self.description.clone(),
            icon: self.icon.clone(),
            category: self.category.clone(),
            recommended_ram_gb: self.recommended_ram_gb,
            workloads: clone_workloads(&self.workloads),
        }
    }
}

/// Templates keyed by id, in their kept order.
pub open spec fn template_entries(s: Seq<AppTemplate>) -> Seq<(Seq<char>, AppTemplateView)> {
    s.map_values(|t: AppTemplate| (t.id@, t@))
}

/// The registry of application templates, by id.
pub struct TemplateEngine {
    templates: Vec<AppTemplate>,
}

impl View for TemplateEngine {
    type V = Map<Seq<char>, AppTemplateView>;

    closed spec fn view(&self) -> Map<Seq<char>, AppTemplateView> {
        entry_map(template_entries(self.templates@))
    }
}

/// The plain values of a bundled workload with the given fields, no domain, host path,
/// exposure or stack, and no dependencies.
pub open spec fn bundled_workload_spec(
    id: Seq<char>,
    resource_type: Seq<char>,
    template: Seq<char>,
    port: u16,
    env: Seq<(Seq<char>, Seq<char>)>,
    alias: Seq<char>,
    depends_on: Seq<Seq<char>>,
) -> WorkloadView {
    WorkloadView {
        id,
        resource_type,
        template,
        port,
        env,
        domain: None,
        host_path: None,
        exposure: None,
        stack_id: None,
        network_alias: Some(alias),
        depends_on: Some(depends_on),
    }
}

/// The bundled WordPress template: a MariaDB database and the WordPress site that depends on it.
pub open spec fn wordpress_template_spec() -> AppTemplateView {
    AppTemplateView {
        id: "wordpress-stack"@,
        name: "WordPress"@,
        description: "The world's most popular CMS. Includes MariaDB backend."@,
        icon: "wordpress"@,
        category: "CMS"@,
        recommended_ram_gb: 2,
        workloads: seq![
            bundled_workload_spec(
                "db"@,
                "database"@,
                "mariadb"@,
                3306,
                seq![("MARIADB_USER"@, "wordpress"@), ("MARIADB_DATABASE"@, "wordpress"@)],
                "db"@,
                Seq::empty(),
            ),
            bundled_workload_spec(
                "web"@,
                "website"@,
                "wordpress"@,
                80,
                seq![
                    ("WORDPRESS_DB_HOST"@, "db"@),
                    ("WORDPRESS_DB_USER"@, "wordpress"@),
                    ("WORDPRESS_DB_NAME"@, "wordpress"@),
                ],
                "web"@,
                seq!["db"@],
            ),
        ],
    }
}

/// The bundled static demonstration site.
pub open spec fn hello_world_template_spec() -> AppTemplateView {
    AppTemplateView {
        id: "hello-world"@,
        name: "Hello World"@,
        description: "A lightning fast, static demonstration website."@,
        icon: "globe"@,
        category: "Demo"@,
        recommended_ram_gb: 0,
        workloads: seq![
            bundled_workload_spec("web"@, "website"@, "static"@, 80, Seq::empty(), "web"@, Seq::empty()),
        ],
    }
}

fn bundled_workload(
    id: &str,
    resource_type: &str,
    template: &str,
    port: u16,
    env: EnvVars,
    alias: &str,
    depends_on: Vec<String>,
) -> (w: WorkloadConfig)
    ensures
        w@ == bundled_workload_spec(
            id@,
            resource_type@,
            template@,
            port,
            env.entries(),
            alias@,
            depends_on.deep_view(),
        ),
{
    WorkloadConfig {
        id: id.to_owned(),
        resource_type: resource_type.to_owned(),
        template: template.to_owned(),
        port,
        env_vars: env,
        domain: None,
        host_path: None,
        exposure: None,
        stack_id: None,
        network_alias: Some(alias.to_owned()),
        depends_on: Some(depends_on),
    }
}

fn wordpress_template() -> (t: AppTemplate)
    ensures
        t@ == wordpress_template_spec(),
{
    proof {
        reveal_strlit("MARIADB_USER");
        reveal_strlit("MARIADB_DATABASE");
        reveal_strlit("WORDPRESS_DB_HOST");
        reveal_strlit("WORDPRESS_DB_USER");
        reveal_strlit("WORDPRESS_DB_NAME");
    }
    let mut db_env = EnvVars::new();
    db_env.insert("MARIADB_USER".to_owned(), "wordpress".to_owned());
    assert(db_env.entries() =~= seq![("MARIADB_USER"@, "wordpress"@)]);
    assert("MARIADB_USER"@[8] != "MARIADB_DATABASE"@[8]);
    db_env.insert("MARIADB_DATABASE".to_owned(), "wordpress".to_owned());
    assert(db_env.entries() =~= seq![("MARIADB_USER"@, "wordpress"@), ("MARIADB_DATABASE"@, "wordpress"@)]);
    let no_deps: Vec<String> = Vec::new();
    assert(no_deps.deep_view() =~= Seq::<Seq<char>>::empty());
    let db = bundled_workload("db", "database", "mariadb", 3306, db_env, "db", no_deps);
    let mut web_env = EnvVars::new();
    web_env.insert("WORDPRESS_DB_HOST".to_owned(), "db".to_owned());
    assert(web_env.entries() =~= seq![("WORDPRESS_DB_HOST"@, "db"@)]);
    assert("WORDPRESS_DB_HOST"@[13] != "WORDPRESS_DB_USER"@[13]);
    web_env.insert("WORDPRESS_DB_USER".to_owned(), "wordpress".to_owned());
    assert(web_env.entries() =~= seq![("WORDPRESS_DB_HOST"@, "db"@), ("WORDPRESS_DB_USER"@, "wordpress"@)]);
    assert("WORDPRESS_DB_HOST"@[13] != "WORDPRESS_DB_NAME"@[13]);
    assert("WORDPRESS_DB_USER"@[13] != "WORDPRESS_DB_NAME"@[13]);
    web_env.insert("WORDPRESS_DB_NAME".to_owned(), "wordpress".to_owned());
    assert(web_env.entries() =~= seq![
        ("WORDPRESS_DB_HOST"@, "db"@),
        ("WORDPRESS_DB_USER"@, "wordpress"@),
        ("WORDPRESS_DB_NAME"@, "wordpress"@),
    ]);
    let mut deps: Vec<String> = Vec::new();
    push_arg(&mut deps, "db");
    assert(deps.deep_view() =~= seq!["db"@]);
    let web = bundled_workload("web", "website", "wordpress", 80, web_env, "web", deps);
    let mut workloads: Vec<WorkloadConfig> = Vec::new();
    workloads.push(db);
    workloads.push(web);
    let t = AppTemplate {
        id: "wordpress-stack".to_owned(),
        name: "WordPress".to_owned(),
        description: "The world's most popular CMS. Includes MariaDB backend.".to_owned(),
        icon: "wordpress".to_owned(),
        category: "CMS".to_owned(),
        recommended_ram_gb: 2,
        workloads,
    };
    assert(t@.workloads =~= wordpress_template_spec().workloads);
    t
}

fn hello_world_template() -> (t: AppTemplate)
    ensures
        t@ == hello_world_template_spec(),
{
    let no_deps: Vec<String> = Vec::new();
    assert(no_deps.deep_view() =~= Seq::<Seq<char>>::empty());
    let web = bundled_workload("web", "website", "static", 80, EnvVars::new(), "web", no_deps);
    let mut workloads: Vec<WorkloadConfig> = Vec::new();
    workloads.push(web);
    let t = AppTemplate {
        id: "hello-world".to_owned(),
        name: "Hello World".to_owned(),
        description: "A lightning fast, static demonstration website.".to_owned(),
        icon: "globe".to_owned(),
        category: "Demo".to_owned(),
        recommended_ram_gb: 0,
        workloads,
    };
    assert(t@.workloads =~= hello_world_template_spec().workloads);
    t
}

impl TemplateEngine {
    #[verifier::type_invariant]
    closed spec fn ids_unique(self) -> bool {
        keys_unique(template_entries(self.templates@))
    }

    /// An empty registry.
    pub fn empty() -> (e: Self)
        ensures
            e@ == Map::<Seq<char>, AppTemplateView>::empty(),
    {
        let e = TemplateEngine { templates: Vec::new() };
        assert(template_entries(e.templates@) =~= Seq::<(Seq<char>, AppTemplateView)>::empty());
        assert(e@ =~= Map::<Seq<char>, AppTemplateView>::empty());
        e
    }

    /// Registers `t` under its id, replacing a template registered there.
    pub fn insert(&mut self, t: AppTemplate)
        ensures
            final(self)@ == old(self)@.insert(t@.id, t@),
    {
        proof {
            use_type_invariant(&*self);
            lemma_set_entry(template_entries(self.templates@), t@.id, t@);
        }
        let ghost s = template_entries(self.templates@);
        let ghost k = t@.id;
        let ghost v = t@;
        let mut templates: Vec<AppTemplate> = Vec::new();
        std::mem::swap(&mut templates, &mut self.templates);
        match Self::position_in(&templates, t.id.as_str()) {
            Some(i) => {
                templates.set(i, t);
            },
            None => {
                templates.push(t);
            },
        }
        assert(template_entries(templates@) =~= set_entry(s, k, v));
        self.templates = templates;
    }

    fn position_in(templates: &Vec<AppTemplate>, id: &str) -> (r: Option<usize>)
        ensures
            r matches Some(i) ==> i < templates@.len() && template_entries(templates@)[i as int].0 == id@,
            r is None ==> !has_key(template_entries(templates@), id@),
    {
        let mut i: usize = 0;
        while i < templates.len()
            invariant
                i <= templates.len(),
                forall|j: int| 0 <= j < i ==> template_entries(templates@)[j].0 != id@,
            decreases templates.len() - i,
        {
            if same_text(templates[i].id.as_str(), id) {
                return Some(i);
            }
            i = i + 1;
        }
        None
    }

    /// The bundled registry: the WordPress stack and the Hello World site.
    pub fn new() -> (e: Self)
        ensures
            e@ == map![
                "wordpress-stack"@ => wordpress_template_spec(),
                "hello-world"@ => hello_world_template_spec(),
            ],
    {
        let mut e = TemplateEngine::empty();
        e.insert(wordpress_template());
        e.insert(hello_world_template());
        assert(e@ =~= map![
            "wordpress-stack"@ => wordpress_template_spec(),
            "hello-world"@ => hello_world_template_spec(),
        ]);
        e
    }

    /// The template registered under `id`.
    pub fn get_template(&self, id: &str) -> (r: Option<&AppTemplate>)
        ensures
            r is Some <==> self@.contains_key(id@),
            r matches Some(t) ==> t@ == self@[id@],
    {
        proof {
            use_type_invariant(self);
        }
        match Self::position_in(&self.templates, id) {
            Some(i) => {
                proof {
                    lemma_entry_map_lookup(template_entries(self.templates@), i as int);
                }
                Some(&self.templates[i])
            },
            None => None,
        }
    }

    /// Every registered template, once each, in no promised order.
    pub fn get_templates(&self) -> (r: Vec<AppTemplate>)
        ensures
            keys_unique(template_entries(r@)),
            entry_map(template_entries(r@)) == self@,
    {
        proof {
            use_type_invariant(self);
        }
        let mut r: Vec<AppTemplate> = Vec::new();
        let mut i: usize = 0;
        while i < self.templates.len()
            invariant
                i <= self.templates.len(),
                template_entries(r@) == template_entries(self.templates@).take(i as int),
            decreases self.templates.len() - i,
        {
            r.push(self.templates[i].duplicate());
            assert(template_entries(self.templates@).take(i + 1) == template_entries(self.templates@).take(i as int).push(
                template_entries(self.templates@)[i as int],
            ));
            assert(template_entries(r@) =~= template_entries(self.templates@).take(i + 1));
            i = i + 1;
        }
        assert(template_entries(self.templates@).take(self.templates.len() as int) == template_entries(
            self.templates@,
        ));
        r
    }
}

} // verus!

verus! {

/// How many workloads `w` depends on.
pub open spec fn dep_count(w: WorkloadView) -> nat {
    match w.depends_on {
        Some(d) => d.len(),
        None => 0,
    }
}

/// Whether a workload depends on exactly `k` others.
pub open spec fn with_dep_count(k: nat) -> spec_fn(WorkloadView) -> bool {
    |w: WorkloadView| dep_count(w) == k
}

/// Whether `s` is ordered by ascending dependency count.
pub open spec fn sorted_by_dep_count(s: Seq<WorkloadView>) -> bool {
    forall|i: int, j: int| 0 <= i <= j < s.len() ==> dep_count(#[trigger] s[i]) <= dep_count(#[trigger] s[j])
}

/// Whether `a` and `b` hold the same workloads of each dependency count, in the same order.
pub open spec fn same_order_per_count(a: Seq<WorkloadView>, b: Seq<WorkloadView>) -> bool {
    forall|k: nat| #[trigger] a.filter(with_dep_count(k)) == b.filter(with_dep_count(k))
}

proof fn lemma_filter_none(s: Seq<WorkloadView>, f: spec_fn(WorkloadView) -> bool)
    requires
        forall|i: int| 0 <= i < s.len() ==> !f(#[trigger] s[i]),
    ensures
        s.filter(f) == Seq::<WorkloadView>::empty(),
    decreases s.len(),
{
    reveal(Seq::filter);
    if s.len() > 0 {
        lemma_filter_none(s.drop_last(), f);
    }
}

proof fn lemma_filter_single(x: WorkloadView, f: spec_fn(WorkloadView) -> bool)
    ensures
        seq![x].filter(f) == (if f(x) { seq![x] } else { Seq::<WorkloadView>::empty() }),
{
    reveal_with_fuel(Seq::filter, 2);
    assert(seq![x].drop_last() =~= Seq::<WorkloadView>::empty());
}

/// How many workloads `w` depends on.
pub fn dependency_count(w: &WorkloadConfig) -> (n: usize)
    ensures
        n == dep_count(w@),
{
    match &w.depends_on {
        Some(d) => d.len(),
        None => 0,
    }
}

/// The workloads ordered by ascending dependency count, keeping the given order among those
/// with the same count (a stable sort), so that a workload comes after those it was listed
/// after.
pub fn sort_by_dependency_count(ws: &Vec<WorkloadConfig>) -> (r: Vec<WorkloadConfig>)
    ensures
        sorted_by_dep_count(workload_views(r@)),
        same_order_per_count(workload_views(r@), workload_views(ws@)),
{
    broadcast use vstd::seq_lib::group_filter_ensures;
    let ghost input = workload_views(ws@);
    let mut out: Vec<WorkloadConfig> = Vec::new();
    let mut i: usize = 0;
    proof {
        assert forall|k: nat| #[trigger] workload_views(out@).filter(with_dep_count(k)) == input.take(0).filter(with_dep_count(k)) by {
            reveal(Seq::filter);
            assert(workload_views(out@) =~= Seq::<WorkloadView>::empty());
            assert(input.take(0) =~= Seq::<WorkloadView>::empty());
        }
    }
    while i < ws.len()
        invariant
            i <= ws.len(),
            input == workload_views(ws@),
            sorted_by_dep_count(workload_views(out@)),
            forall|k: nat| #[trigger] workload_views(out@).filter(with_dep_count(k)) == input.take(i as int).filter(with_dep_count(k)),
        decreases ws.len() - i,
    {
        let x = ws[i].duplicate();
        let kx = dependency_count(&x);
        let ghost xv = x@;
        let ghost o = workload_views(out@);
        let mut p: usize = 0;
        while p < out.len() && dependency_count(&out[p]) <= kx
            invariant
                p <= out.len(),
                o == workload_views(out@),
                forall|j: int| 0 <= j < p ==> dep_count(#[trigger] o[j]) <= kx,
            decreases out.len() - p,
        {
            p = p + 1;
        }
        proof {
            assert forall|j: int| p <= j < o.len() implies dep_count(#[trigger] o[j]) > kx by {
                assert(dep_count(o[p as int]) > kx);
                assert(dep_count(o[p as int]) <= dep_count(o[j]));
            }
        }
        out.insert(p, x);
        proof {
            let n = workload_views(out@);
            assert(n =~= o.insert(p as int, xv));
            assert(n =~= o.take(p as int) + seq![xv] + o.skip(p as int));
            assert(o =~= o.take(p as int) + o.skip(p as int));
            assert(input.take(i + 1) =~= input.take(i as int).push(xv));
            assert forall|a: int, b: int| 0 <= a <= b < n.len() implies dep_count(#[trigger] n[a]) <= dep_count(#[trigger] n[b]) by {
                if a < p {
                    if b < p {
                        assert(n[a] == o[a] && n[b] == o[b]);
                    } else if b == p {
                        assert(n[a] == o[a]);
                    } else {
                        assert(n[a] == o[a] && n[b] == o[b - 1]);
                    }
                } else if a == p {
                    if b > p {
                        assert(n[b] == o[b - 1]);
                    }
                } else {
                    assert(n[a] == o[a - 1] && n[b] == o[b - 1]);
                }
            }
            assert forall|k: nat| #[trigger] n.filter(with_dep_count(k)) == input.take(i + 1).filter(with_dep_count(k)) by {
                let f = with_dep_count(k);
                lemma_filter_single(xv, f);
                assert(n.filter(f) == (o.take(p as int) + seq![xv]).filter(f) + o.skip(p as int).filter(f));
                assert((o.take(p as int) + seq![xv]).filter(f) == o.take(p as int).filter(f) + seq![xv].filter(f));
                assert(o.filter(f) == o.take(p as int).filter(f) + o.skip(p as int).filter(f));
                assert(input.take(i as int).filter(with_dep_count(k)) == o.filter(f));
                input.take(i as int).lemma_filter_push(xv, f);
                if dep_count(xv) == k {
                    let sk = o.skip(p as int);
                    assert forall|j: int| 0 <= j < sk.len() implies !f(#[trigger] sk[j]) by {
                        assert(sk[j] == o[p + j]);
                    }
                    lemma_filter_none(sk, f);
                    assert(n.filter(f) =~= o.filter(f).push(xv));
                } else {
                    assert(n.filter(f) =~= o.filter(f));
                }
            }
        }
        i = i + 1;
    }
    assert(input.take(ws.len() as int) == input);
    out
}

} // verus!

verus! {

/// The environment of a stack's database after its admin password is set in the variables its
/// engine reads.
pub open spec fn stack_credential_env(
    template: Seq<char>,
    password: Seq<char>,
    env: Seq<(Seq<char>, Seq<char>)>,
) -> Seq<(Seq<char>, Seq<char>)> {
    if template == "mysql"@ || template == "mariadb"@ {
        set_entry(set_entry(env, "MARIADB_ROOT_PASSWORD"@, password), "MARIADB_PASSWORD"@, password)
    } else if template == "postgres"@ {
        set_entry(env, "POSTGRES_PASSWORD"@, password)
    } else {
        env
    }
}

/// The environment of a stack's website after `WORDPRESS_DB_PASSWORD` is set to the password of
/// each dependency whose password is known, in order, so that the last such dependency wins.
pub open spec fn dependency_password_env(
    env: Seq<(Seq<char>, Seq<char>)>,
    deps: Seq<Seq<char>>,
    known: Map<Seq<char>, Seq<char>>,
) -> Seq<(Seq<char>, Seq<char>)>
    decreases deps.len(),
{
    if deps.len() == 0 {
        env
    } else {
        let e = dependency_password_env(env, deps.drop_last(), known);
        if known.contains_key(deps.last()) {
            set_entry(e, "WORDPRESS_DB_PASSWORD"@, known[deps.last()])
        } else {
            e
        }
    }
}

/// The name under which a workload is reached on its stack's network: its alias, else its id.
pub open spec fn stack_alias(w: WorkloadView) -> Seq<char> {
    match w.network_alias {
        Some(a) => a,
        None => w.id,
    }
}

/// The stack member made from template workload `w`: renamed to the stack id, a hyphen and its
/// alias, and placed on the stack's network; a database gets `password` in its engine's
/// variables; a website gets the known passwords of its dependencies and the stack's domain and
/// exposure.
pub open spec fn stack_member(
    w: WorkloadView,
    stack_id: Seq<char>,
    domain: Option<Seq<char>>,
    exposure: Option<ExposureView>,
    known: Map<Seq<char>, Seq<char>>,
    password: Seq<char>,
) -> WorkloadView {
    let base = WorkloadView {
        id: stack_id + "-"@ + stack_alias(w),
        stack_id: Some(stack_id),
        ..w
    };
    if w.resource_type == "database"@ {
        WorkloadView { env: stack_credential_env(w.template, password, w.env), ..base }
    } else if w.resource_type == "website"@ {
        WorkloadView {
            env: match w.depends_on {
                Some(d) => dependency_password_env(w.env, d, known),
                None => w.env,
            },
            domain,
            exposure,
            ..base
        }
    } else {
        base
    }
}

/// Sets a stack database's admin password in the variables its engine reads.
pub fn inject_stack_credentials(env: &mut EnvVars, template: &str, password: &str)
    ensures
        final(env).entries() == stack_credential_env(template@, password@, old(env).entries()),
{
    if same_text(template, "mysql") || same_text(template, "mariadb") {
        env.insert("MARIADB_ROOT_PASSWORD".to_owned(), password.to_owned());
        env.insert("MARIADB_PASSWORD".to_owned(), password.to_owned());
    } else if same_text(template, "postgres") {
        env.insert("POSTGRES_PASSWORD".to_owned(), password.to_owned());
    }
}

/// Sets `WORDPRESS_DB_PASSWORD` from the known passwords of the dependencies `deps`.
pub fn inject_dependency_passwords(env: &mut EnvVars, deps: &Vec<String>, known: &EnvVars)
    ensures
        final(env).entries() == dependency_password_env(old(env).entries(), deps.deep_view(), known@),
{
    let ghost start = env.entries();
    let mut j: usize = 0;
    while j < deps.len()
        invariant
            j <= deps.len(),
            env.entries() == dependency_password_env(start, deps.deep_view().take(j as int), known@),
        decreases deps.len() - j,
    {
        let ghost t = deps.deep_view().take(j + 1);
        assert(t.drop_last() == deps.deep_view().take(j as int));
        assert(t.last() == deps[j as int]@);
        match known.get(deps[j].as_str()) {
            Some(pw) => {
                env.insert("WORDPRESS_DB_PASSWORD".to_owned(), pw.clone());
            },
            None => {},
        }
        j = j + 1;
    }
    assert(deps.deep_view().take(deps.len() as int) == deps.deep_view());
}

/// A stack being deployed from a template, one workload at a time.
pub struct StackDeployment {
    stack_id: String,
    name: String,
    domain: Option<String>,
    exposure: Option<ExposureConfig>,
    pending: Vec<WorkloadConfig>,
    next: usize,
    passwords: EnvVars,
    started: Vec<WorkloadConfig>,
}

impl StackDeployment {
    pub closed spec fn stack_id(&self) -> Seq<char> {
        self.stack_id@
    }

    pub closed spec fn name(&self) -> Seq<char> {
        self.name@
    }

    pub closed spec fn domain(&self) -> Option<Seq<char>> {
        opt_text(self.domain)
    }

    pub closed spec fn exposure(&self) -> Option<ExposureView> {
        opt_exposure(self.exposure)
    }

    /// The template's workloads in the order they are deployed.
    pub closed spec fn pending(&self) -> Seq<WorkloadView> {
        workload_views(self.pending@)
    }

    /// How many workloads have been prepared.
    pub closed spec fn next(&self) -> nat {
        self.next as nat
    }

    /// The generated database passwords, by alias.
    pub closed spec fn known(&self) -> Map<Seq<char>, Seq<char>> {
        self.passwords@
    }

    /// The workloads recorded as started, in order.
    pub closed spec fn started(&self) -> Seq<WorkloadView> {
        workload_views(self.started@)
    }

    /// Never more workloads prepared than the template holds.
    #[verifier::type_invariant]
    closed spec fn in_bounds(self) -> bool {
        self.next <= self.pending@.len()
    }

    /// Starts deploying the template `template_id`: a fresh stack id ("stack-" and eight
    /// characters of a UUID) and the template's workloads in dependency order. Fails with
    /// "Template not found in local registry" for an unknown template.
    pub fn begin(
        engine: &TemplateEngine,
        template_id: &str,
        domain: Option<String>,
        exposure: Option<ExposureConfig>,
    ) -> (r: Result<StackDeployment, String>)
        ensures
            r is Err <==> !engine@.contains_key(template_id@),
            r matches Err(e) ==> e@ == "Template not found in local registry"@,
            r matches Ok(d) ==> {
                &&& exists|u: Seq<char>| is_hyphenated_uuid(u) && d.stack_id() == #[trigger] short_id("stack-"@, u)
                &&& d.name() == engine@[template_id@].name
                &&& d.domain() == opt_text(domain)
                &&& d.exposure() == opt_exposure(exposure)
                &&& sorted_by_dep_count(d.pending())
                &&& same_order_per_count(d.pending(), engine@[template_id@].workloads)
                &&& d.next() == 0
                &&& d.known() == Map::<Seq<char>, Seq<char>>::empty()
                &&& d.started() == Seq::<WorkloadView>::empty()
            },
    {
        let template = match engine.get_template(template_id) {
            Some(t) => t,
            None => {
                return Err("Template not found in local registry".to_owned());
            },
        };
        let stack_id = fresh_short_id("stack-");
        let pending = sort_by_dependency_count(&template.workloads);
        let d = StackDeployment {
            stack_id,
            name: template.name.clone(),
            domain,
            exposure,
            pending,
            next: 0,
            passwords: EnvVars::new(),
            started: Vec::new(),
        };
        assert(d.started() =~= Seq::<WorkloadView>::empty());
        Ok(d)
    }

    /// Prepares the next workload of the stack (see `stack_member`); a database also gets a
    /// fresh password, remembered under its alias and sealed by the vault for storage under
    /// `database_secret_id`. `None` once every workload has been prepared.
    pub fn prepare_next(&mut self, vault: &VaultManager) -> (r: Result<Option<PreparedWorkload>, String>)
        ensures
            r is Ok,
            final(self).next() <= final(self).pending().len(),
            final(self).stack_id() == old(self).stack_id(),
            final(self).name() == old(self).name(),
            final(self).domain() == old(self).domain(),
            final(self).exposure() == old(self).exposure(),
            final(self).pending() == old(self).pending(),
            final(self).started() == old(self).started(),
            old(self).next() == old(self).pending().len() ==> (r matches Ok(None) && final(self).next()
                == old(self).next() && final(self).known() == old(self).known()),
            old(self).next() < old(self).pending().len() ==> (r matches Ok(Some(p)) && {
                let w = old(self).pending()[old(self).next() as int];
                &&& final(self).next() == old(self).next() + 1
                &&& w.resource_type != "database"@ ==> p.secret is None && final(self).known()
                    == old(self).known() && p.config@ == stack_member(
                    w,
                    old(self).stack_id(),
                    old(self).domain(),
                    old(self).exposure(),
                    old(self).known(),
                    Seq::empty(),
                )
                &&& w.resource_type == "database"@ ==> (p.secret matches Some(s) && {
                    &&& s.id@ == database_secret_id(p.config@.id)
                    &&& s.secret_type@ == "database_password"@
                    &&& exists|pw: Seq<char>, nonce: Seq<u8>|
                        #![trigger sealed_payload(vault.key(), nonce, encode_utf8(pw))]
                        generated_password(pw) && nonce.len() == 12 && s.encrypted_payload@
                            == sealed_payload(vault.key(), nonce, encode_utf8(pw)) && p.config@
                            == stack_member(
                            w,
                            old(self).stack_id(),
                            old(self).domain(),
                            old(self).exposure(),
                            old(self).known(),
                            pw,
                        ) && final(self).known() == old(self).known().insert(stack_alias(w), pw)
                })
            }),
    {
        proof {
            use_type_invariant(&*self);
        }
        if self.next >= self.pending.len() {
            return Ok(None);
        }
        let mut w = self.pending[self.next].duplicate();
        let ghost wv = w@;
        let alias = match &w.network_alias {
            Some(a) => a.clone(),
            None => w.id.clone(),
        };
        assert(alias@ == stack_alias(wv));
        w.stack_id = Some(self.stack_id.clone());
        w.id = join3(self.stack_id.as_str(), "-", alias.as_str());
        let mut secret: Option<GeneratedSecret> = None;
        if same_text(w.resource_type.as_str(), "database") {
            let raw_password = vault.generate_secure_password();
            let encrypted = match vault.encrypt_string(raw_password.as_str()) {
                Ok(e) => e,
                Err(e) => {
                    return Err(e);
                },
            };
            let secret_id = join2(w.id.as_str(), "_admin_password");
            inject_stack_credentials(&mut w.env_vars, w.template.as_str(), raw_password.as_str());
            let mut passwords = EnvVars::new();
            std::mem::swap(&mut passwords, &mut self.passwords);
            passwords.insert(alias, raw_password);
            self.passwords = passwords;
            secret = Some(GeneratedSecret {
                id: secret_id,
                secret_type: "database_password".to_owned(),
                encrypted_payload: encrypted,
            });
        } else if same_text(w.resource_type.as_str(), "website") {
            match &w.depends_on {
                Some(deps) => {
                    let deps = deps.clone();
                    inject_dependency_passwords(&mut w.env_vars, &deps, &self.passwords);
                },
                None => {},
            }
            w.domain = clone_opt_text(&self.domain);
            w.exposure = clone_opt_exposure(&self.exposure);
        }
        self.next = self.next + 1;
        Ok(Some(PreparedWorkload { config: w, secret }))
    }

    /// Records that a prepared workload was started.
    pub fn record_started(&mut self, w: WorkloadConfig)
        ensures
            final(self).started() == old(self).started().push(w@),
            final(self).stack_id() == old(self).stack_id(),
            final(self).name() == old(self).name(),
            final(self).domain() == old(self).domain(),
            final(self).exposure() == old(self).exposure(),
            final(self).pending() == old(self).pending(),
            final(self).next() == old(self).next(),
            final(self).known() == old(self).known(),
    {
        proof {
            use_type_invariant(&*self);
        }
        let mut started: Vec<WorkloadConfig> = Vec::new();
        std::mem::swap(&mut started, &mut self.started);
        started.push(w);
        assert(workload_views(started@) =~= workload_views(old(self).started@).push(w@));
        self.started = started;
    }

    /// The deployed stack: its id and the template's name, the started workloads in order, and
    /// the requested exposure.
    pub fn finish(self) -> (s: StackConfig)
        ensures
            s.id@ == self.stack_id(),
            s.name@ == self.name(),
            workload_views(s.workloads@) == self.started(),
            opt_exposure(s.exposure) == self.exposure(),
    {
        StackConfig { id: self.stack_id, name: self.name, workloads: self.started, exposure: self.exposure }
    }
}

/// Whether to wait after starting a stack member before starting the next: databases need time
/// to initialise.
pub fn settle_after_start(w: &WorkloadConfig) -> (r: bool)
    ensures
        r == (w@.resource_type == "database"@),
{
    same_text(w.resource_type.as_str(), "database")
}

} // verus!

verus! {

proof fn lemma_dependency_password_env_unique(
    env: Seq<(Seq<char>, Seq<char>)>,
    deps: Seq<Seq<char>>,
    known: Map<Seq<char>, Seq<char>>,
)
    requires
        keys_unique(env),
    ensures
        keys_unique(dependency_password_env(env, deps, known)),
    decreases deps.len(),
{
    if deps.len() > 0 {
        lemma_dependency_password_env_unique(env, deps.drop_last(), known);
        let e = dependency_password_env(env, deps.drop_last(), known);
        if known.contains_key(deps.last()) {
            lemma_set_entry(e, "WORDPRESS_DB_PASSWORD"@, known[deps.last()]);
        }
    }
}

/// The database password generated for the last dependency of a website in a stack is the one
/// the website receives as `WORDPRESS_DB_PASSWORD`.
pub proof fn law_stack_password_reaches_website(
    db: WorkloadView,
    web: WorkloadView,
    stack_id: Seq<char>,
    domain: Option<Seq<char>>,
    exposure: Option<ExposureView>,
    known: Map<Seq<char>, Seq<char>>,
    password: Seq<char>,
    other_password: Seq<char>,
)
    requires
        db.resource_type == "database"@,
        web.resource_type == "website"@,
        web.depends_on matches Some(deps) && deps.len() > 0 && deps.last() == stack_alias(db),
        keys_unique(web.env),
    ensures
        ({
            let m = stack_member(web, stack_id, domain, exposure, known.insert(stack_alias(db), password), other_password);
            &&& keys_unique(m.env)
            &&& entry_map(m.env).contains_key("WORDPRESS_DB_PASSWORD"@)
            &&& entry_map(m.env)["WORDPRESS_DB_PASSWORD"@] == password
        }),
{
    reveal_strlit("database");
    reveal_strlit("website");
    assert("database"@[0] != "website"@[0]);
    let deps = web.depends_on->0;
    let k = known.insert(stack_alias(db), password);
    lemma_dependency_password_env_unique(web.env, deps.drop_last(), k);
    let e = dependency_password_env(web.env, deps.drop_last(), k);
    lemma_set_entry(e, "WORDPRESS_DB_PASSWORD"@, password);
}

/// Passing the dependencies' passwords to a website only sets `WORDPRESS_DB_PASSWORD`: every
/// other variable of the website is kept, with its value, and no key occurs twice.
pub proof fn law_dependency_passwords_keep_other_variables(
    env: Seq<(Seq<char>, Seq<char>)>,
    deps: Seq<Seq<char>>,
    known: Map<Seq<char>, Seq<char>>,
    k: Seq<char>,
)
    requires
        keys_unique(env),
        k != "WORDPRESS_DB_PASSWORD"@,
    ensures
        keys_unique(dependency_password_env(env, deps, known)),
        entry_map(dependency_password_env(env, deps, known)).contains_key(k) == entry_map(
            env,
        ).contains_key(k),
        entry_map(env).contains_key(k) ==> entry_map(dependency_password_env(env, deps, known))[k]
            == entry_map(env)[k],
    decreases deps.len(),
{
    if deps.len() > 0 {
        law_dependency_passwords_keep_other_variables(env, deps.drop_last(), known, k);
        let e = dependency_password_env(env, deps.drop_last(), known);
        if known.contains_key(deps.last()) {
            law_set_then_get(e, "WORDPRESS_DB_PASSWORD"@, known[deps.last()], k);
            lemma_set_entry(e, "WORDPRESS_DB_PASSWORD"@, known[deps.last()]);
        }
    }
}

/// Setting a stack database's password only adds or overwrites the variables its engine reads
/// the password from: every other variable is kept, with its value, and no key occurs twice.
pub proof fn law_stack_credentials_keep_other_variables(
    template: Seq<char>,
    password: Seq<char>,
    env: Seq<(Seq<char>, Seq<char>)>,
    k: Seq<char>,
)
    requires
        keys_unique(env),
        k != "MARIADB_ROOT_PASSWORD"@,
        k != "MARIADB_PASSWORD"@,
        k != "POSTGRES_PASSWORD"@,
    ensures
        keys_unique(stack_credential_env(template, password, env)),
        entry_map(stack_credential_env(template, password, env)).contains_key(k) == entry_map(
            env,
        ).contains_key(k),
        entry_map(env).contains_key(k) ==> entry_map(stack_credential_env(template, password, env))[k]
            == entry_map(env)[k],
{
    if template == "mysql"@ || template == "mariadb"@ {
        let e1 = set_entry(env, "MARIADB_ROOT_PASSWORD"@, password);
        law_set_then_get(env, "MARIADB_ROOT_PASSWORD"@, password, k);
        lemma_set_entry(env, "MARIADB_ROOT_PASSWORD"@, password);
        law_set_then_get(e1, "MARIADB_PASSWORD"@, password, k);
        lemma_set_entry(e1, "MARIADB_PASSWORD"@, password);
    } else if template == "postgres"@ {
        law_set_then_get(env, "POSTGRES_PASSWORD"@, password, k);
        lemma_set_entry(env, "POSTGRES_PASSWORD"@, password);
    }
}

/// A stack member is the template workload renamed to the stack id, a hyphen and its alias, and
/// attached to the stack's network; it keeps its kind, template, port, alias, code directory
/// and every variable that is not a password the deployment sets; a website takes the stack's
/// domain and exposure, other workloads keep their own.
pub proof fn law_stack_member_keeps_workload(
    w: WorkloadView,
    stack_id: Seq<char>,
    domain: Option<Seq<char>>,
    exposure: Option<ExposureView>,
    known: Map<Seq<char>, Seq<char>>,
    password: Seq<char>,
    k: Seq<char>,
)
    requires
        keys_unique(w.env),
        k != "WORDPRESS_DB_PASSWORD"@,
        k != "MARIADB_ROOT_PASSWORD"@,
        k != "MARIADB_PASSWORD"@,
        k != "POSTGRES_PASSWORD"@,
    ensures
        ({
            let m = stack_member(w, stack_id, domain, exposure, known, password);
            &&& m.id == stack_id + "-"@ + stack_alias(w)
            &&& m.stack_id == Some(stack_id)
            &&& m.network_alias == w.network_alias
            &&& m.resource_type == w.resource_type
            &&& m.template == w.template
            &&& m.port == w.port
            &&& m.host_path == w.host_path
            &&& m.depends_on == w.depends_on
            &&& keys_unique(m.env)
            &&& entry_map(m.env).contains_key(k) == entry_map(w.env).contains_key(k)
            &&& entry_map(w.env).contains_key(k) ==> entry_map(m.env)[k] == entry_map(w.env)[k]
            &&& w.resource_type == "website"@ ==> m.domain == domain && m.exposure == exposure
            &&& w.resource_type != "website"@ ==> m.domain == w.domain && m.exposure == w.exposure
        }),
{
    reveal_strlit("database");
    reveal_strlit("website");
    assert("database"@[0] != "website"@[0]);
    if w.resource_type == "database"@ {
        law_stack_credentials_keep_other_variables(w.template, password, w.env, k);
    } else if w.resource_type == "website"@ {
        if let Some(d) = w.depends_on {
            law_dependency_passwords_keep_other_variables(w.env, d, known, k);
        }
    }
}

} // verus!
