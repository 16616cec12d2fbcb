//! Global configuration: the tick duration and the correction subtracted
//! from each team's raw efficiency factor. Both are integer quantities; the
//! efficiency scale puts one at [`crate::CVAT_ONE`] thousandths.
use vstd::prelude::*;
use crate::MAX_TACT;

verus! {

/// The mathematical value of a [`Settings`].
pub ghost struct SettingsV {
    pub tacttime: u64,
    pub bc_inefficiency: u64,
}

pub struct Settings {
    tacttime: u64,
    bc_inefficiency: u64,
}

impl View for Settings {
    type V = SettingsV;

    closed spec fn view(&self) -> SettingsV {
        SettingsV { tacttime: self.tacttime, bc_inefficiency: self.bc_inefficiency }
    }
}

impl Settings {
    /// The defaults: a tick of 9.3 hours and an absence correction of 8.6%,
    /// both in thousandths.
    pub fn new() -> (s: Settings)
        ensures
            s@ == (SettingsV { tacttime: 9300u64, bc_inefficiency: 86u64 }),
    {
        Settings { tacttime: 9300, bc_inefficiency: 86 }
    }

    pub fn set_tacttime(&mut self, tacttime: u64)
        requires
            1 <= tacttime <= MAX_TACT,
        ensures
            final(self)@ == (SettingsV { tacttime, ..old(self)@ }),
    {
        self.tacttime = tacttime;
    }

    pub fn get_tacttime(&self) -> (r: u64)
        ensures
            r == self@.tacttime,
    {
        self.tacttime
    }

    pub fn set_bc_inefficiency(&mut self, bc_inefficiency: u64)
        ensures
            final(self)@ == (SettingsV { bc_inefficiency, ..old(self)@ }),
    {
        self.bc_inefficiency = bc_inefficiency;
    }

    pub fn get_bc_inefficiency(&self) -> (r: u64)
        ensures
            r == self@.bc_inefficiency,
    {
        self.bc_inefficiency
    }

    /// A team's effective efficiency factor: the raw factor less the global
    /// correction, floored at zero.
    pub fn effective_cvat(&self, raw: u64) -> (r: u64)
        ensures
            r == if raw >= self@.bc_inefficiency {
                (raw - self@.bc_inefficiency) as u64
            } else {
                0u64
            },
    {
        if raw >= self.bc_inefficiency {
            raw - self.bc_inefficiency
        } else {
            0
        }
    }
}

} // verus!
