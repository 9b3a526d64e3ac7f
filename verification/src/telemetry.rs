use vstd::prelude::*;

verus! {

/// The charging state that a battery reports.
#[derive(Clone, Copy, Debug, PartialEq, Eq)]
pub enum PowerState {
    Charging,
    Full,
    Discharging,
    Empty,
    Unknown,
}

/// Whether the device runs on mains power, as far as the battery state tells: charging or full
/// means yes, discharging or empty means no, otherwise unknown.
pub fn on_ac_power(state: PowerState) -> (r: Option<bool>)
    ensures
        r == match state {
            PowerState::Charging | PowerState::Full => Some(true),
            PowerState::Discharging | PowerState::Empty => Some(false),
            PowerState::Unknown => None::<bool>,
        },
{
    match state {
        PowerState::Charging | PowerState::Full => Some(true),
        PowerState::Discharging | PowerState::Empty => Some(false),
        PowerState::Unknown => None,
    }
}

/// A byte count in whole mebibytes, rounded down.
pub fn bytes_to_mib(bytes: u64) -> (r: u64)
    ensures
        r == bytes / 1024 / 1024,
{
    bytes / 1024 / 1024
}

} // verus!
