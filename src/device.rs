use vstd::prelude::*;

verus! {

/// The classification a graphics API gives an adapter.
#[derive(Clone, Copy, Debug, PartialEq, Eq, Structural)]
pub enum DeviceType {
    DiscreteGpu,
    IntegratedGpu,
    VirtualGpu,
    Cpu,
    Other,
}

/// Preference of a device type: a lower rank is preferred.
pub open spec fn rank_of(t: DeviceType) -> nat {
    match t {
        DeviceType::DiscreteGpu => 0,
        DeviceType::IntegratedGpu => 1,
        DeviceType::VirtualGpu => 2,
        DeviceType::Cpu => 3,
        DeviceType::Other => 4,
    }
}

/// The number of distinct ranks.
pub const RANK_COUNT: u8 = 5;

impl DeviceType {
    /// The rank of this device type (0 for a discrete GPU up to 4 for an
    /// unrecognised device).
    pub fn rank(&self) -> (r: u8)
        ensures
            r as nat == rank_of(*self),
            r < RANK_COUNT,
    {
        match self {
            DeviceType::DiscreteGpu => 0,
            DeviceType::IntegratedGpu => 1,
            DeviceType::VirtualGpu => 2,
            DeviceType::Cpu => 3,
            DeviceType::Other => 4,
        }
    }
}

} // verus!
