//! Malware descriptions and per-device infection records.
use vstd::prelude::*;

use crate::mathphysics::Millisecond;
use crate::mathphysics::PowerUnit;

verus! {

/// What a malicious payload does when it executes.
#[derive(Clone, Copy, Debug, PartialEq)]
pub enum MalwareType {
    /// Consumes the given amount of power on execution.
    DoS(PowerUnit),
    /// Does nothing by itself; detectable only by outside observation.
    Indicator,
}

/// A piece of malware: its payload, the delay from infection to payload
/// execution, and the delay a self-propagated copy spends in transit
/// (`None` means the malware cannot spread from device to device).
#[derive(Clone, Copy, Debug, PartialEq)]
pub struct Malware {
    pub malware_type: MalwareType,
    pub infection_delay: Millisecond,
    pub spread_delay: Option<Millisecond>,
}

/// Field-by-field equality of malware descriptions.
pub open spec fn spec_same_malware(a: Malware, b: Malware) -> bool {
    a == b
}

impl Malware {
    pub fn new(
        malware_type: MalwareType,
        infection_delay: Millisecond,
        spread_delay: Option<Millisecond>,
    ) -> (r: Self)
        ensures
            r == (Malware { malware_type, infection_delay, spread_delay }),
    {
        Self { malware_type, infection_delay, spread_delay }
    }

    pub fn malware_type(&self) -> (r: &MalwareType)
        ensures
            r == &self.malware_type,
    {
        &self.malware_type
    }

    pub fn infection_delay(&self) -> (r: Millisecond)
        ensures
            r == self.infection_delay,
    {
        self.infection_delay
    }

    pub fn spread_delay(&self) -> (r: Option<Millisecond>)
        ensures
            r == self.spread_delay,
    {
        self.spread_delay
    }

    /// Field-by-field equality, usable from verified callers.
    pub fn same_as(&self, other: &Malware) -> (r: bool)
        ensures
            r == spec_same_malware(*self, *other),
    {
        let types_match = match (self.malware_type, other.malware_type) {
            (MalwareType::DoS(a), MalwareType::DoS(b)) => a == b,
            (MalwareType::Indicator, MalwareType::Indicator) => true,
            _ => false,
        };
        let spread_match = match (self.spread_delay, other.spread_delay) {
            (Some(a), Some(b)) => a == b,
            (None, None) => true,
            _ => false,
        };
        types_match && self.infection_delay == other.infection_delay && spread_match
    }
}

/// Per-device infection record: each malware the device is infected with,
/// paired with the time of infection.  Keys are unique; entries are kept in
/// order of infection, which keeps every walk over them reproducible.
#[derive(Clone, Debug, PartialEq)]
pub struct InfectionMap {
    pub entries: Vec<(Malware, Millisecond)>,
}

impl InfectionMap {
    /// No malware appears twice.
    pub open spec fn wf(self) -> bool {
        forall|i: int, j: int|
            0 <= i < j < self.entries@.len() ==> self.entries@[i].0 != self.entries@[j].0
    }

    /// The map holds an entry for this malware.
    pub open spec fn spec_contains(self, malware: Malware) -> bool {
        exists|i: int| 0 <= i < self.entries@.len() && self.entries@[i].0 == malware
    }

    pub fn new() -> (r: Self)
        ensures
            r.entries@.len() == 0,
            r.wf(),
    {
        Self { entries: Vec::new() }
    }

    pub fn len(&self) -> (r: usize)
        ensures
            r == self.entries@.len(),
    {
        self.entries.len()
    }

    pub fn is_empty(&self) -> (r: bool)
        ensures
            r == (self.entries@.len() == 0),
    {
        self.entries.len() == 0
    }

    pub fn contains(&self, malware: &Malware) -> (r: bool)
        ensures
            r == self.spec_contains(*malware),
    {
        let mut i: usize = 0;
        while i < self.entries.len()
            invariant
                i <= self.entries@.len(),
                forall|k: int| 0 <= k < i ==> self.entries@[k].0 != *malware,
            decreases self.entries@.len() - i,
        {
            if self.entries[i].0.same_as(malware) {
                return true;
            }
            i = i + 1;
        }
        false
    }

    /// Records an infection; a second infection with the same malware is
    /// ignored, so the original infection time survives.
    pub fn insert(&mut self, malware: Malware, time: Millisecond)
        requires
            old(self).wf(),
        ensures
            final(self).wf(),
            old(self).spec_contains(malware) ==> *final(self) == *old(self),
            !old(self).spec_contains(malware) ==> final(self).entries@ == old(
                self,
            ).entries@.push((malware, time)),
            final(self).spec_contains(malware),
    {
        if !self.contains(&malware) {
            self.entries.push((malware, time));
            assert(self.entries@[self.entries@.len() - 1].0 == malware);
        }
    }

    /// The recorded infection time, if the device is infected.
    pub fn infection_time(&self, malware: &Malware) -> (r: Option<Millisecond>)
        ensures
            match r {
                Some(t) => exists|i: int|
                    0 <= i < self.entries@.len() && self.entries@[i] == (*malware, t),
                None => !self.spec_contains(*malware),
            },
    {
        let mut i: usize = 0;
        while i < self.entries.len()
            invariant
                i <= self.entries@.len(),
                forall|k: int| 0 <= k < i ==> self.entries@[k].0 != *malware,
            decreases self.entries@.len() - i,
        {
            if self.entries[i].0.same_as(malware) {
                return Some(self.entries[i].1);
            }
            i = i + 1;
        }
        None
    }
}

impl Default for InfectionMap {
    fn default() -> (r: Self)
        ensures
            r.entries@.len() == 0,
            r.wf(),
    {
        Self { entries: Vec::new() }
    }
}

} // verus!
