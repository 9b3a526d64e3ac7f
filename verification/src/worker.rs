use vstd::prelude::*;
use crate::session::is_container_resource_spec;
use crate::text::same_text;

verus! {

/// Work for the orchestration worker.
#[derive(Clone, Copy, Debug, PartialEq, Eq)]
pub enum WorkerJob {
    ProcessExpirations,
    TickTelemetry,
}

/// The jobs queued at each tick, in order.
pub fn tick_jobs() -> (r: Vec<WorkerJob>)
    ensures
        r@ == seq![WorkerJob::ProcessExpirations, WorkerJob::TickTelemetry],
{
    let mut r: Vec<WorkerJob> = Vec::new();
    r.push(WorkerJob::ProcessExpirations);
    r.push(WorkerJob::TickTelemetry);
    assert(r@ =~= seq![WorkerJob::ProcessExpirations, WorkerJob::TickTelemetry]);
    r
}

/// What is done with an expired session.
#[derive(Clone, Copy, Debug, PartialEq, Eq)]
pub enum ExpirationAction {
    /// Remove its container.
    RemoveContainer,
    /// Close its tunnel.
    CloseTunnel,
    /// Nothing beyond forgetting it.
    Forget,
}

/// What is done with an expired session of this resource type.
pub open spec fn expiration_action_spec(resource_type: Seq<char>) -> ExpirationAction {
    if is_container_resource_spec(resource_type) {
        ExpirationAction::RemoveContainer
    } else if resource_type == "tunnel"@ {
        ExpirationAction::CloseTunnel
    } else {
        ExpirationAction::Forget
    }
}

/// What is done with an expired session of this resource type: containers ("website",
/// "database", "fileshare") are removed, tunnels closed.
pub fn expiration_action(resource_type: &str) -> (r: ExpirationAction)
    ensures
        r == expiration_action_spec(resource_type@),
{
    if crate::session::is_container_resource(resource_type) {
        ExpirationAction::RemoveContainer
    } else if same_text(resource_type, "tunnel") {
        ExpirationAction::CloseTunnel
    } else {
        ExpirationAction::Forget
    }
}

} // verus!
