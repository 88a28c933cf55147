use vstd::prelude::*;

verus! {

/// Lifecycle state of a slave device, as carried in the low nibble of the AL
/// control/status register.
#[derive(Copy, Clone, Debug, PartialEq, Eq, Structural)]
pub enum SlaveState {
    /// No state recorded.
    NotSet,
    /// Init state.
    Init,
    /// Pre-operational state.
    PreOp,
    /// Bootstrap state.
    Bootstrap,
    /// Safe-operational state.
    SafeOp,
    /// Operational state.
    Op,
    /// A state code with no name of its own.
    Unknown(u8),
}

/// The register code of a state.
pub open spec fn state_code(s: SlaveState) -> u8 {
    match s {
        SlaveState::NotSet => 0x00,
        SlaveState::Init => 0x01,
        SlaveState::PreOp => 0x02,
        SlaveState::Bootstrap => 0x03,
        SlaveState::SafeOp => 0x04,
        SlaveState::Op => 0x08,
        SlaveState::Unknown(v) => v,
    }
}

/// The state that a register code stands for.
pub open spec fn state_of_code(v: u8) -> SlaveState {
    if v == 0x00 {
        SlaveState::NotSet
    } else if v == 0x01 {
        SlaveState::Init
    } else if v == 0x02 {
        SlaveState::PreOp
    } else if v == 0x03 {
        SlaveState::Bootstrap
    } else if v == 0x04 {
        SlaveState::SafeOp
    } else if v == 0x08 {
        SlaveState::Op
    } else {
        SlaveState::Unknown(v)
    }
}

impl SlaveState {
    /// A state is canonical when decoding its own code gives it back: an
    /// `Unknown` code is never one of the named codes.
    pub open spec fn is_canonical(self) -> bool {
        state_of_code(state_code(self)) == self
    }

    /// The register code of this state.
    pub fn code(self) -> (r: u8)
        ensures
            r == state_code(self),
    {
        match self {
            SlaveState::NotSet => 0x00,
            SlaveState::Init => 0x01,
            SlaveState::PreOp => 0x02,
            SlaveState::Bootstrap => 0x03,
            SlaveState::SafeOp => 0x04,
            SlaveState::Op => 0x08,
            SlaveState::Unknown(v) => v,
        }
    }

    /// The state for a register code; codes with no name give `Unknown`.
    pub fn from_code(v: u8) -> (r: SlaveState)
        ensures
            r == state_of_code(v),
            r.is_canonical(),
    {
        if v == 0x00 {
            SlaveState::NotSet
        } else if v == 0x01 {
            SlaveState::Init
        } else if v == 0x02 {
            SlaveState::PreOp
        } else if v == 0x03 {
            SlaveState::Bootstrap
        } else if v == 0x04 {
            SlaveState::SafeOp
        } else if v == 0x08 {
            SlaveState::Op
        } else {
            SlaveState::Unknown(v)
        }
    }
}

} // verus!
