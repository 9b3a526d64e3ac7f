use vstd::prelude::*;
use crate::text::join3;

verus! {

/// A notice that an orchestration policy throttled workloads.
#[derive(Clone, Debug)]
pub struct OrchestrationAlert {
    pub severity: String,
    pub title: String,
    pub description: String,
}

/// The alert raised when thermal protection paused workloads; `threshold` is the temperature
/// limit as displayed.
pub fn thermal_alert(threshold: &str) -> (a: OrchestrationAlert)
    ensures
        a.severity@ == "warning"@,
        a.title@ == "Thermal Protection Triggered"@,
        a.description@ == "Your device temperature exceeded "@ + threshold@
            + "°C. Heavy workloads were paused to protect your device."@,
{
    OrchestrationAlert {
        severity: "warning".to_owned(),
        title: "Thermal Protection Triggered".to_owned(),
        description: join3(
            "Your device temperature exceeded ",
            threshold,
            "°C. Heavy workloads were paused to protect your device.",
        ),
    }
}

/// The alert raised when battery protection paused workloads; `threshold` is the charge limit
/// as displayed.
pub fn battery_alert(threshold: &str) -> (a: OrchestrationAlert)
    ensures
        a.severity@ == "critical"@,
        a.title@ == "Battery Protection Triggered"@,
        a.description@ == "Laptop battery dropped below "@ + threshold@
            + "%. Background services have been paused to conserve power."@,
{
    OrchestrationAlert {
        severity: "critical".to_owned(),
        title: "Battery Protection Triggered".to_owned(),
        description: join3(
            "Laptop battery dropped below ",
            threshold,
            "%. Background services have been paused to conserve power.",
        ),
    }
}

} // verus!
