use vstd::prelude::*;

verus! {

/// A session recorded in the history table.
#[derive(Clone, Debug)]
pub struct SessionHistoryEntry {
    pub id: String,
    pub resource_type: String,
    pub path: Option<String>,
    pub port: Option<u16>,
    pub started_at: String,
}

/// A public link recorded for a tunnel.
#[derive(Clone, Debug)]
pub struct PublicLinkEntry {
    pub id: String,
    pub session_id: String,
    pub public_url: String,
    pub provider: String,
    pub access_mode: String,
}

/// Number of schema versions that the application knows.
pub const SCHEMA_VERSIONS: i32 = 3;

/// The schema versions still to apply to a database at `current_version`, in ascending order:
/// those of `1..=SCHEMA_VERSIONS` above it.
pub open spec fn pending_migrations_spec(current_version: i32) -> Seq<i32> {
    Seq::new(
        (if current_version < 0 { SCHEMA_VERSIONS as int } else if current_version >= SCHEMA_VERSIONS { 0 } else {
            SCHEMA_VERSIONS - current_version
        }) as nat,
        |i: int|
            (if current_version < 0 { i + 1 } else { current_version + i + 1 }) as i32,
    )
}

/// The schema versions still to apply to a database at `current_version`, in ascending order.
pub fn pending_migrations(current_version: i32) -> (r: Vec<i32>)
    ensures
        r@ == pending_migrations_spec(current_version),
        forall|i: int| 0 <= i < r@.len() ==> current_version < #[trigger] r@[i] <= SCHEMA_VERSIONS && 1 <= r@[i],
        forall|v: i32| 1 <= v && current_version < v <= SCHEMA_VERSIONS ==> r@.contains(v),
{
    let mut r: Vec<i32> = Vec::new();
    let mut v: i32 = 1;
    while v <= SCHEMA_VERSIONS
        invariant
            1 <= v <= SCHEMA_VERSIONS + 1,
            forall|i: int| 0 <= i < r@.len() ==> current_version < #[trigger] r@[i] < v && 1 <= r@[i],
            forall|w: i32| 1 <= w && current_version < w < v ==> r@.contains(w),
            r@ == pending_migrations_spec(current_version).take(r@.len() as int),
            r@.len() == (if current_version < 0 { v - 1 } else if current_version >= v - 1 { 0 } else {
                v - 1 - current_version
            }),
        decreases SCHEMA_VERSIONS + 1 - v,
    {
        if current_version < v {
            let ghost old_r = r@;
            r.push(v);
            assert(r@[old_r.len() as int] == v);
            assert forall|w: i32| 1 <= w && current_version < w < v + 1 implies r@.contains(w) by {
                if w == v {
                    assert(r@[old_r.len() as int] == w);
                } else {
                    assert(old_r.contains(w));
                    let k = choose|k: int| 0 <= k < old_r.len() && old_r[k] == w;
                    assert(r@[k] == w);
                }
            }
            assert(r@ =~= pending_migrations_spec(current_version).take(r@.len() as int));
        }
        v = v + 1;
    }
    assert(r@ =~= pending_migrations_spec(current_version));
    r
}

} // verus!
