//! The power system of a device: a budget that every action draws from.
use vstd::prelude::*;

use crate::mathphysics::PowerUnit;

verus! {

/// Failure of a running power system.
#[derive(Clone, Copy, Debug, PartialEq, Eq, Structural)]
pub enum PowerSystemError {
    /// The last draw exhausted the budget.
    NoPowerLeft,
}

/// Failure to assemble a power system.
#[derive(Clone, Copy, Debug, PartialEq, Eq, Structural)]
pub enum PowerSystemBuildError {
    PowerIsGreaterThanMax,
}

/// A power budget.  By default the system holds no power at all.
#[derive(Clone, Copy, Debug, PartialEq, Eq, Structural)]
pub struct PowerSystem {
    pub max_power: PowerUnit,
    pub power: PowerUnit,
}

/// What one draw of `amount` leaves of the budget.
pub open spec fn spec_power_after_consume(ps: PowerSystem, amount: int) -> PowerSystem {
    PowerSystem {
        max_power: ps.max_power,
        power: if ps.power as int <= amount {
            0
        } else {
            (ps.power - amount) as u64
        },
    }
}

impl PowerSystem {
    pub open spec fn wf(self) -> bool {
        self.power <= self.max_power
    }

    /// Assembles a power system; refused when the stored power would
    /// exceed the capacity.
    pub fn build(max_power: PowerUnit, power: PowerUnit) -> (r: Result<Self, PowerSystemBuildError>)
        ensures
            match r {
                Ok(ps) => power <= max_power && ps == (PowerSystem { max_power, power })
                    && ps.wf(),
                Err(e) => power > max_power && e == PowerSystemBuildError::PowerIsGreaterThanMax,
            },
    {
        if power > max_power {
            return Err(PowerSystemBuildError::PowerIsGreaterThanMax);
        }
        Ok(Self { max_power, power })
    }

    pub fn max_power(&self) -> (r: PowerUnit)
        ensures
            r == self.max_power,
    {
        self.max_power
    }

    pub fn power(&self) -> (r: PowerUnit)
        ensures
            r == self.power,
    {
        self.power
    }

    /// Draws `power_to_consume` from the budget, saturating at zero; the
    /// call fails exactly when the budget reaches zero.
    pub fn consume_power(&mut self, power_to_consume: PowerUnit) -> (r: Result<
        (),
        PowerSystemError,
    >)
        ensures
            *final(self) == spec_power_after_consume(*old(self), power_to_consume as int),
            r is Err <==> final(self).power == 0,
            r is Err ==> r == Result::<(), PowerSystemError>::Err(PowerSystemError::NoPowerLeft),
    {
        if self.power <= power_to_consume {
            self.power = 0;
        } else {
            self.power = self.power - power_to_consume;
        }
        if self.power == 0 {
            return Err(PowerSystemError::NoPowerLeft);
        }
        Ok(())
    }
}

impl Default for PowerSystem {
    fn default() -> (r: Self)
        ensures
            r == (PowerSystem { max_power: 0u64, power: 0u64 }),
            r.wf(),
    {
        Self { max_power: 0, power: 0 }
    }
}

} // verus!
