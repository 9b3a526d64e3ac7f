use vstd::prelude::*;
use crate::text::{same_text, trim, trim_spec};

verus! {

/// A tracked session, taken by its plain values.
pub struct SessionView {
    pub id: Seq<char>,
    pub resource_type: Seq<char>,
    pub expires_at: u64,
    pub status: Seq<char>,
}

/// A session that the orchestrator tracks until it expires.
#[derive(Clone, Debug)]
pub struct ManagedSession {
    pub id: String,
    pub resource_type: String,
    pub expires_at: u64,
    /// "starting", "running", "paused", "failed", "recovering", or a status that the frontend sets.
    pub status: String,
}

impl View for ManagedSession {
    type V = SessionView;

    open spec fn view(&self) -> SessionView {
        SessionView {
            id: self.id@,
            resource_type: self.resource_type@,
            expires_at: self.expires_at,
            status: self.status@,
        }
    }
}

impl ManagedSession {
    /// A copy of this session.
    pub fn duplicate(&self) -> (r: ManagedSession)
        ensures
            r@ == self@,
    {
        ManagedSession {
            id: self.id.clone(),
            resource_type: self.resource_type.clone(),
            expires_at: self.expires_at,
            status: self.status.clone(),
        }
    }
}

/// The plain values of a list of sessions.
pub open spec fn views(s: Seq<ManagedSession>) -> Seq<SessionView> {
    s.map_values(|m: ManagedSession| m@)
}

/// Whether no two entries of `s` share an id.
pub open spec fn ids_unique(s: Seq<SessionView>) -> bool {
    forall|i: int, j: int| 0 <= i < s.len() && 0 <= j < s.len() && i != j ==> #[trigger] s[i].id != #[trigger] s[j].id
}

/// Whether some entry of `s` has id `k`.
pub open spec fn has_id(s: Seq<SessionView>, k: Seq<char>) -> bool {
    exists|i: int| 0 <= i < s.len() && #[trigger] s[i].id == k
}

/// The sessions of `s` keyed by their ids.
pub open spec fn session_map(s: Seq<SessionView>) -> Map<Seq<char>, SessionView> {
    Map::new(
        |k: Seq<char>| has_id(s, k),
        |k: Seq<char>| s[choose|i: int| 0 <= i < s.len() && #[trigger] s[i].id == k],
    )
}

/// Whether `r` lists, once each, exactly the sessions of `m` that satisfy `keep`.
pub open spec fn lists_exactly(
    r: Seq<SessionView>,
    m: Map<Seq<char>, SessionView>,
    keep: spec_fn(SessionView) -> bool,
) -> bool {
    &&& ids_unique(r)
    &&& forall|i: int|
        0 <= i < r.len() ==> m.contains_key(#[trigger] r[i].id) && m[r[i].id] == r[i] && keep(r[i])
    &&& forall|k: Seq<char>| #[trigger] m.contains_key(k) && keep(m[k]) ==> has_id(r, k)
}

/// The sessions of `m` that satisfy `keep`, keyed as in `m`.
pub open spec fn keep_only(
    m: Map<Seq<char>, SessionView>,
    keep: spec_fn(SessionView) -> bool,
) -> Map<Seq<char>, SessionView> {
    Map::new(|k: Seq<char>| m.contains_key(k) && keep(m[k]), |k: Seq<char>| m[k])
}

/// Whether a session is still live at `now` (its expiry time lies after it).
pub open spec fn live_at(now: u64) -> spec_fn(SessionView) -> bool {
    |v: SessionView| now < v.expires_at
}

/// Whether a session's expiry time has come at `now`.
pub open spec fn expired_at(now: u64) -> spec_fn(SessionView) -> bool {
    |v: SessionView| now >= v.expires_at
}

/// Which tracked sessions a query asks for.
#[derive(Clone, Copy, Debug, PartialEq, Eq)]
pub enum Selection {
    /// Every tracked session.
    All,
    /// Sessions whose expiry time has come at the given time.
    ExpiredAt(u64),
    /// Sessions whose expiry time lies after the given time.
    LiveAt(u64),
    /// Database sessions that are not paused: what thermal protection throttles.
    ThermalThrottle,
    /// Sessions other than file shares that are not paused: what battery protection throttles.
    BatteryThrottle,
}

/// Whether session `v` is one that `sel` asks for.
pub open spec fn selected(sel: Selection, v: SessionView) -> bool {
    match sel {
        Selection::All => true,
        Selection::ExpiredAt(now) => now >= v.expires_at,
        Selection::LiveAt(now) => now < v.expires_at,
        Selection::ThermalThrottle => v.resource_type == "database"@ && v.status != "paused"@,
        Selection::BatteryThrottle => v.resource_type != "fileshare"@ && v.status != "paused"@,
    }
}

/// Whether `status` is one under which a container found at start-up is tracked again.
pub open spec fn recoverable_status(status: Seq<char>) -> bool {
    status == "running"@ || status == "paused"@
}

/// Seconds of life that a session tracked again at start-up receives.
pub const RECOVERED_SESSION_TTL_SECS: u64 = 3600;

fn is_selected(sel: Selection, s: &ManagedSession) -> (r: bool)
    ensures
        r == selected(sel, s@),
{
    match sel {
        Selection::All => true,
        Selection::ExpiredAt(now) => now >= s.expires_at,
        Selection::LiveAt(now) => now < s.expires_at,
        Selection::ThermalThrottle => same_text(s.resource_type.as_str(), "database") && !same_text(
            s.status.as_str(),
            "paused",
        ),
        Selection::BatteryThrottle => !same_text(s.resource_type.as_str(), "fileshare")
            && !same_text(s.status.as_str(), "paused"),
    }
}

pub proof fn lemma_lists_exactly_map(
    r: Seq<SessionView>,
    m: Map<Seq<char>, SessionView>,
    keep: spec_fn(SessionView) -> bool,
)
    requires
        lists_exactly(r, m, keep),
    ensures
        session_map(r) == keep_only(m, keep),
{
    let n = keep_only(m, keep);
    assert forall|k: Seq<char>| #[trigger] session_map(r).contains_key(k) <==> n.contains_key(k) by {
        if has_id(r, k) {
            let i = choose|i: int| 0 <= i < r.len() && #[trigger] r[i].id == k;
            assert(m.contains_key(r[i].id));
        }
        if m.contains_key(k) && keep(m[k]) {
            assert(has_id(r, k));
        }
    }
    assert forall|k: Seq<char>| #[trigger] session_map(r).contains_key(k) implies session_map(r)[k] == n[k] by {
        let i = choose|i: int| 0 <= i < r.len() && #[trigger] r[i].id == k;
        lemma_session_map_lookup(r, i);
    }
    assert(session_map(r) =~= n);
}

pub proof fn lemma_session_map_lookup(s: Seq<SessionView>, i: int)
    requires
        ids_unique(s),
        0 <= i < s.len(),
    ensures
        session_map(s).contains_key(s[i].id),
        session_map(s)[s[i].id] == s[i],
{
    let k = s[i].id;
    assert(has_id(s, k));
    let j = choose|j: int| 0 <= j < s.len() && #[trigger] s[j].id == k;
    assert(j == i);
}

pub proof fn lemma_session_map_push(s: Seq<SessionView>, v: SessionView)
    requires
        ids_unique(s),
        !has_id(s, v.id),
    ensures
        ids_unique(s.push(v)),
        session_map(s.push(v)) == session_map(s).insert(v.id, v),
{
    let t = s.push(v);
    assert forall|i: int, j: int| 0 <= i < t.len() && 0 <= j < t.len() && i != j implies #[trigger] t[i].id != #[trigger] t[j].id by {
        if i < s.len() && j < s.len() {
            assert(t[i] == s[i] && t[j] == s[j]);
        } else if i < s.len() {
            assert(t[i] == s[i]);
        } else {
            assert(t[j] == s[j]);
        }
    }
    let m = session_map(s).insert(v.id, v);
    assert forall|k: Seq<char>| #[trigger] session_map(t).contains_key(k) <==> m.contains_key(k) by {
        if has_id(s, k) {
            let i = choose|i: int| 0 <= i < s.len() && #[trigger] s[i].id == k;
            assert(t[i].id == k);
        }
        if has_id(t, k) && k != v.id {
            let i = choose|i: int| 0 <= i < t.len() && #[trigger] t[i].id == k;
            assert(i < s.len());
            assert(s[i].id == k);
        }
        if k == v.id {
            assert(t[s.len() as int].id == k);
        }
    }
    assert forall|k: Seq<char>| #[trigger] session_map(t).contains_key(k) implies session_map(t)[k] == m[k] by {
        let i = choose|i: int| 0 <= i < t.len() && #[trigger] t[i].id == k;
        lemma_session_map_lookup(t, i);
        if i < s.len() {
            assert(t[i] == s[i]);
            lemma_session_map_lookup(s, i);
        }
    }
    assert(session_map(t) =~= m);
}

pub proof fn lemma_session_map_update(s: Seq<SessionView>, i: int, v: SessionView)
    requires
        ids_unique(s),
        0 <= i < s.len(),
        s[i].id == v.id,
    ensures
        ids_unique(s.update(i, v)),
        session_map(s.update(i, v)) == session_map(s).insert(v.id, v),
{
    let t = s.update(i, v);
    assert forall|a: int, b: int| 0 <= a < t.len() && 0 <= b < t.len() && a != b implies #[trigger] t[a].id != #[trigger] t[b].id by {
        assert(t[a].id == s[a].id && t[b].id == s[b].id);
    }
    let m = session_map(s).insert(v.id, v);
    assert forall|k: Seq<char>| #[trigger] session_map(t).contains_key(k) <==> m.contains_key(k) by {
        if has_id(s, k) {
            let a = choose|a: int| 0 <= a < s.len() && #[trigger] s[a].id == k;
            assert(t[a].id == k);
        }
        if has_id(t, k) {
            let a = choose|a: int| 0 <= a < t.len() && #[trigger] t[a].id == k;
            assert(s[a].id == k);
        }
    }
    assert forall|k: Seq<char>| #[trigger] session_map(t).contains_key(k) implies session_map(t)[k] == m[k] by {
        let a = choose|a: int| 0 <= a < t.len() && #[trigger] t[a].id == k;
        lemma_session_map_lookup(t, a);
        if a != i {
            assert(t[a] == s[a]);
            lemma_session_map_lookup(s, a);
        }
    }
    assert(session_map(t) =~= m);
}

/// The sessions that the orchestrator tracks, by id.
pub struct SessionManager {
    sessions: Vec<ManagedSession>,
}

impl View for SessionManager {
    type V = Map<Seq<char>, SessionView>;

    /// The tracked sessions keyed by id.
    closed spec fn view(&self) -> Map<Seq<char>, SessionView> {
        session_map(views(self.sessions@))
    }
}

impl SessionManager {
    /// The tracked sessions in the order they are kept.
    pub closed spec fn entries(&self) -> Seq<SessionView> {
        views(self.sessions@)
    }

    /// No id is tracked twice.
    #[verifier::type_invariant]
    closed spec fn unique_ids(self) -> bool {
        ids_unique(views(self.sessions@))
    }


    /// An empty manager.
    pub fn new() -> (m: Self)
        ensures
            m@ == Map::<Seq<char>, SessionView>::empty(),
    {
        let m = SessionManager { sessions: Vec::new() };
        assert(m@ =~= Map::<Seq<char>, SessionView>::empty());
        m
    }

    /// The position of the session with id `id`, if tracked.
    fn position(&self, id: &str) -> (r: Option<usize>)
        ensures
            r matches Some(i) ==> i < self.sessions.len() && self.entries()[i as int].id == id@,
            r is None ==> !has_id(self.entries(), id@),
    {
        let mut i: usize = 0;
        while i < self.sessions.len()
            invariant
                i <= self.sessions.len(),
                forall|j: int| 0 <= j < i ==> self.entries()[j].id != id@,
            decreases self.sessions.len() - i,
        {
            if same_text(self.sessions[i].id.as_str(), id) {
                return Some(i);
            }
            i = i + 1;
        }
        None
    }

    /// Tracks `session` under its id, replacing what was tracked there.
    pub fn upsert(&mut self, session: ManagedSession)
        ensures
            final(self)@ == old(self)@.insert(session@.id, session@),
    {
        proof {
            use_type_invariant(&*self);
        }
        let ghost v = session@;
        let ghost e = self.entries();
        let mut sessions: Vec<ManagedSession> = Vec::new();
        match self.position(session.id.as_str()) {
            Some(i) => {
                proof {
                    lemma_session_map_update(e, i as int, v);
                }
                std::mem::swap(&mut sessions, &mut self.sessions);
                sessions.set(i, session);
                assert(views(sessions@) == e.update(i as int, v));
            },
            None => {
                proof {
                    lemma_session_map_push(e, v);
                }
                std::mem::swap(&mut sessions, &mut self.sessions);
                sessions.push(session);
                assert(views(sessions@) == e.push(v));
            },
        }
        self.sessions = sessions;
    }
}

impl SessionManager {
    /// The tracked sessions that `sel` asks for, each once, in no promised order.
    pub fn select(&self, sel: Selection) -> (r: Vec<ManagedSession>)
        ensures
            lists_exactly(views(r@), self@, |v: SessionView| selected(sel, v)),
    {
        proof {
            use_type_invariant(self);
        }
        let ghost e = self.entries();
        let ghost mut src: Seq<int> = Seq::empty();
        let mut r: Vec<ManagedSession> = Vec::new();
        let mut i: usize = 0;
        while i < self.sessions.len()
            invariant
                i <= self.sessions.len(),
                e == self.entries(),
                e.len() == self.sessions.len(),
                ids_unique(e),
                src.len() == r@.len(),
                forall|a: int| #![trigger src[a]] 0 <= a < src.len() ==> 0 <= src[a] < i && e[src[a]] == views(r@)[a]
                    && selected(sel, e[src[a]]),
                forall|a: int, b: int| 0 <= a < b < src.len() ==> #[trigger] src[a] < #[trigger] src[b],
                forall|x: int| 0 <= x < i && selected(sel, #[trigger] e[x]) ==> has_id(views(r@), e[x].id),
            decreases self.sessions.len() - i,
        {
            let ghost rv = views(r@);
            if is_selected(sel, &self.sessions[i]) {
                let c = self.sessions[i].duplicate();
                assert(c@ == e[i as int]);
                r.push(c);
                proof {
                    src = src.push(i as int);
                }
                let ghost rv2 = views(r@);
                assert(rv2 == rv.push(e[i as int]));
                assert forall|x: int| 0 <= x < i + 1 && selected(sel, #[trigger] e[x]) implies has_id(rv2, e[x].id) by {
                    if x < i {
                        let a = choose|a: int| 0 <= a < rv.len() && #[trigger] rv[a].id == e[x].id;
                        assert(rv2[a] == rv[a]);
                    } else {
                        assert(rv2[rv.len() as int].id == e[x].id);
                    }
                }
            }
            i = i + 1;
        }
        let ghost rv = views(r@);
        proof {
            assert forall|a: int, b: int| 0 <= a < rv.len() && 0 <= b < rv.len() && a != b implies #[trigger] rv[a].id != #[trigger] rv[b].id by {
                if a < b {
                    assert(src[a] < src[b]);
                } else {
                    assert(src[b] < src[a]);
                }
                assert(e[src[a]] == rv[a] && e[src[b]] == rv[b]);
            }
            assert forall|a: int| 0 <= a < rv.len() implies self@.contains_key(#[trigger] rv[a].id)
                && self@[rv[a].id] == rv[a] && selected(sel, rv[a]) by {
                assert(e[src[a]] == rv[a]);
                lemma_session_map_lookup(e, src[a]);
            }
            assert forall|k: Seq<char>| #[trigger] self@.contains_key(k) && selected(sel, self@[k]) implies has_id(rv, k) by {
                let x = choose|x: int| 0 <= x < e.len() && #[trigger] e[x].id == k;
                lemma_session_map_lookup(e, x);
            }
        }
        r
    }

    /// Starts tracking a session that runs for `duration_minutes` from `now` (seconds since the
    /// epoch), with status "running"; a session tracked under the same id is replaced.
    pub fn register(&mut self, id: String, resource_type: String, now: u64, duration_minutes: u64)
        requires
            now + duration_minutes * 60 <= u64::MAX,
        ensures
            final(self)@ == old(self)@.insert(
                id@,
                SessionView {
                    id: id@,
                    resource_type: resource_type@,
                    expires_at: (now + duration_minutes * 60) as u64,
                    status: "running"@,
                },
            ),
    {
        let expires_at = now + duration_minutes * 60;
        let session = ManagedSession {
            id,
            resource_type,
            expires_at,
            status: "running".to_owned(),
        };
        self.upsert(session);
    }

    /// Sets the status of the session tracked under `id`; nothing changes if there is none.
    pub fn update_status(&mut self, id: &str, status: String)
        ensures
            old(self)@.contains_key(id@) ==> final(self)@ == old(self)@.insert(
                id@,
                SessionView { status: status@, ..old(self)@[id@] },
            ),
            !old(self)@.contains_key(id@) ==> final(self)@ == old(self)@,
    {
        proof {
            use_type_invariant(&*self);
        }
        match self.position(id) {
            Some(i) => {
                let ghost e = self.entries();
                proof {
                    lemma_session_map_lookup(e, i as int);
                }
                let s = &self.sessions[i];
                let updated = ManagedSession {
                    id: s.id.clone(),
                    resource_type: s.resource_type.clone(),
                    expires_at: s.expires_at,
                    status,
                };
                self.upsert(updated);
            },
            None => {},
        }
    }

    /// Every tracked session, each once, in no promised order.
    pub fn active_sessions(&self) -> (r: Vec<ManagedSession>)
        ensures
            lists_exactly(views(r@), self@, |v: SessionView| true),
    {
        let r = self.select(Selection::All);
        assert(views(r@) == views(r@));
        r
    }

    /// Stops tracking every session whose expiry time has come at `now` and hands those back.
    pub fn take_expired(&mut self, now: u64) -> (expired: Vec<ManagedSession>)
        ensures
            lists_exactly(
                views(expired@),
                old(self)@,
                expired_at(now),
            ),
            final(self)@ == keep_only(old(self)@, live_at(now)),
    {
        let expired = self.select(Selection::ExpiredAt(now));
        let live = self.select(Selection::LiveAt(now));
        let ghost old_view = self@;
        proof {
            lemma_lists_exactly_map(
                views(live@),
                old_view,
                |v: SessionView| selected(Selection::LiveAt(now), v),
            );
            assert(keep_only(old_view, |v: SessionView| selected(Selection::LiveAt(now), v))
                =~= keep_only(old_view, live_at(now)));
        }
        self.sessions = live;
        proof {
            let a = views(expired@);
            assert forall|k: Seq<char>| #[trigger] old_view.contains_key(k) && now >= old_view[k].expires_at implies has_id(a, k) by {
                assert(selected(Selection::ExpiredAt(now), old_view[k]));
            }
        }
        expired
    }

    /// Tracks again a container found at start-up, if `docker inspect` reported it (after
    /// trimming) as running or paused and its id is not tracked yet; it then lives for an hour
    /// from `now`. Returns whether it was tracked.
    pub fn recover_from_inspection(
        &mut self,
        id: &str,
        resource_type: &str,
        inspect_output: &str,
        now: u64,
    ) -> (restored: bool)
        requires
            now <= u64::MAX - RECOVERED_SESSION_TTL_SECS,
        ensures
            restored == (recoverable_status(trim_spec(inspect_output@)) && !old(self)@.contains_key(id@)),
            restored ==> final(self)@ == old(self)@.insert(
                id@,
                SessionView {
                    id: id@,
                    resource_type: resource_type@,
                    expires_at: (now + RECOVERED_SESSION_TTL_SECS) as u64,
                    status: trim_spec(inspect_output@),
                },
            ),
            !restored ==> final(self)@ == old(self)@,
    {
        proof {
            use_type_invariant(&*self);
        }
        let status = trim(inspect_output);
        if !(same_text(status.as_str(), "running") || same_text(status.as_str(), "paused")) {
            return false;
        }
        match self.position(id) {
            Some(i) => {
                proof {
                    lemma_session_map_lookup(self.entries(), i as int);
                }
                false
            },
            None => {
                let session = ManagedSession {
                    id: id.to_owned(),
                    resource_type: resource_type.to_owned(),
                    expires_at: now + RECOVERED_SESSION_TTL_SECS,
                    status,
                };
                self.upsert(session);
                true
            },
        }
    }
}

/// Whether a session of this resource type runs as a container.
pub open spec fn is_container_resource_spec(resource_type: Seq<char>) -> bool {
    resource_type == "website"@ || resource_type == "database"@ || resource_type == "fileshare"@
}

/// Whether a session of this resource type runs as a container ("website", "database" or
/// "fileshare").
pub fn is_container_resource(resource_type: &str) -> (r: bool)
    ensures
        r == is_container_resource_spec(resource_type@),
{
    same_text(resource_type, "website") || same_text(resource_type, "database") || same_text(
        resource_type,
        "fileshare",
    )
}

} // verus!

verus! {

/// At any time, each tracked session is either kept by `take_expired` or handed back as expired,
/// never both, and unchanged either way.
pub proof fn law_expiry_partition(m: Map<Seq<char>, SessionView>, now: u64)
    ensures
        forall|k: Seq<char>|
            #[trigger] m.contains_key(k) <==> (keep_only(m, live_at(now)).contains_key(k)
                || keep_only(m, expired_at(now)).contains_key(k)),
        forall|k: Seq<char>|
            !(#[trigger] keep_only(m, live_at(now)).contains_key(k)
                && keep_only(m, expired_at(now)).contains_key(k)),
        forall|k: Seq<char>|
            #[trigger] keep_only(m, live_at(now)).contains_key(k) ==> keep_only(
                m,
                live_at(now),
            )[k] == m[k] && now < m[k].expires_at,
{
}

} // verus!

verus! {

/// A session registered (or updated) under `id` is read back with exactly the values written,
/// and every other tracked session reads as before.
pub proof fn law_write_then_read(m: Map<Seq<char>, SessionView>, id: Seq<char>, v: SessionView, other: Seq<char>)
    ensures
        m.insert(id, v).contains_key(id) && m.insert(id, v)[id] == v,
        other != id ==> m.insert(id, v).contains_key(other) == m.contains_key(other),
        other != id && m.contains_key(other) ==> m.insert(id, v)[other] == m[other],
{
}

} // verus!

verus! {

/// Thermal protection pauses databases only: a listing of what `ThermalThrottle` selects holds
/// every running (not paused) database session and nothing else.
pub proof fn law_thermal_throttle_pauses_only_databases(m: Map<Seq<char>, SessionView>, r: Seq<SessionView>)
    requires
        lists_exactly(r, m, |v: SessionView| selected(Selection::ThermalThrottle, v)),
    ensures
        forall|i: int|
            0 <= i < r.len() ==> (#[trigger] r[i]).resource_type == "database"@ && r[i].status
                != "paused"@,
        forall|k: Seq<char>|
            #[trigger] m.contains_key(k) && m[k].resource_type == "database"@ && m[k].status
                != "paused"@ ==> has_id(r, k),
{
    assert forall|i: int| 0 <= i < r.len() implies (#[trigger] r[i]).resource_type == "database"@
        && r[i].status != "paused"@ by {
        assert(m.contains_key(r[i].id));
        assert(selected(Selection::ThermalThrottle, r[i]));
    }
    assert forall|k: Seq<char>|
        #[trigger] m.contains_key(k) && m[k].resource_type == "database"@ && m[k].status != "paused"@
            implies has_id(r, k) by {
        assert(selected(Selection::ThermalThrottle, m[k]));
    }
}

/// Battery protection pauses every running session but fileshares: a listing of what
/// `BatteryThrottle` selects holds every session that is neither paused nor a fileshare, and
/// nothing else; every session that thermal protection pauses is among them.
pub proof fn law_battery_throttle_spares_fileshares(m: Map<Seq<char>, SessionView>, r: Seq<SessionView>)
    requires
        lists_exactly(r, m, |v: SessionView| selected(Selection::BatteryThrottle, v)),
    ensures
        forall|i: int|
            0 <= i < r.len() ==> (#[trigger] r[i]).resource_type != "fileshare"@ && r[i].status
                != "paused"@,
        forall|k: Seq<char>|
            #[trigger] m.contains_key(k) && m[k].resource_type != "fileshare"@ && m[k].status
                != "paused"@ ==> has_id(r, k),
        forall|k: Seq<char>|
            #[trigger] m.contains_key(k) && selected(Selection::ThermalThrottle, m[k]) ==> has_id(r, k),
{
    reveal_strlit("database");
    reveal_strlit("fileshare");
    assert("database"@[0] != "fileshare"@[0]);
    assert forall|i: int| 0 <= i < r.len() implies (#[trigger] r[i]).resource_type != "fileshare"@
        && r[i].status != "paused"@ by {
        assert(m.contains_key(r[i].id));
        assert(selected(Selection::BatteryThrottle, r[i]));
    }
    assert forall|k: Seq<char>|
        #[trigger] m.contains_key(k) && m[k].resource_type != "fileshare"@ && m[k].status != "paused"@
            implies has_id(r, k) by {
        assert(selected(Selection::BatteryThrottle, m[k]));
    }
    assert forall|k: Seq<char>|
        #[trigger] m.contains_key(k) && selected(Selection::ThermalThrottle, m[k]) implies has_id(r, k) by {
        assert(selected(Selection::BatteryThrottle, m[k]));
    }
}

} // verus!
