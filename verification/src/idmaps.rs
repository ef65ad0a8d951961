//! Deterministic id-keyed maps: a delay per device, and the device
//! collection itself, kept sorted by device identifier so that every walk
//! over it is reproducible.
use vstd::prelude::*;

use crate::device::Device;
use crate::device::DeviceId;
use crate::mathphysics::Millisecond;

verus! {

/// A map from device identifier to a delay in milliseconds, with unique
/// keys.
#[derive(Clone, Debug, PartialEq)]
pub struct IdToDelayMap {
    pub entries: Vec<(DeviceId, Millisecond)>,
}

/// The largest delay in the sequence; zero when it is empty.
pub open spec fn spec_max_delay(s: Seq<(DeviceId, Millisecond)>) -> int
    decreases s.len(),
{
    if s.len() == 0 {
        0
    } else {
        let rest = spec_max_delay(s.drop_first());
        if s[0].1 >= rest {
            s[0].1 as int
        } else {
            rest
        }
    }
}

/// Every delay is bounded by the maximum, which is attained or zero.
pub proof fn lemma_max_delay_bounds(s: Seq<(DeviceId, Millisecond)>)
    ensures
        forall|i: int| 0 <= i < s.len() ==> (#[trigger] s[i]).1 <= spec_max_delay(s),
        spec_max_delay(s) >= 0,
        s.len() > 0 ==> exists|i: int| 0 <= i < s.len() && (#[trigger] s[i]).1 == spec_max_delay(s),
    decreases s.len(),
{
    if s.len() > 0 {
        lemma_max_delay_bounds(s.drop_first());
        assert forall|i: int| 0 <= i < s.len() implies (#[trigger] s[i]).1 <= spec_max_delay(s) by {
            if i > 0 {
                assert(s.drop_first()[i - 1] == s[i]);
            }
        }
        if s[0].1 >= spec_max_delay(s.drop_first()) {
            assert(s[0].1 == spec_max_delay(s));
        } else {
            let j = choose|i: int|
                0 <= i < s.drop_first().len() && (#[trigger] s.drop_first()[i]).1 == spec_max_delay(
                    s.drop_first(),
                );
            assert(s[j + 1] == s.drop_first()[j]);
        }
    }
}

/// Any entry index of a unique-keyed sequence holding the identifier is
/// the index the lookup picks.
pub proof fn lemma_delay_unique_index(m: IdToDelayMap, id: DeviceId, k: int)
    requires
        m.wf(),
        0 <= k < m.entries@.len(),
        m.entries@[k].0 == id,
    ensures
        m.spec_contains(id),
        m.spec_get(id) == Some(m.entries@[k].1),
{
    assert(m.spec_contains(id));
    let i = choose|i: int| 0 <= i < m.entries@.len() && (#[trigger] m.entries@[i]).0 == id;
    if i < k {
        assert(m.entries@[i].0 != m.entries@[k].0);
    } else if i > k {
        assert(m.entries@[k].0 != m.entries@[i].0);
    }
}

impl IdToDelayMap {
    /// Keys are unique.
    pub open spec fn wf(self) -> bool {
        forall|i: int, j: int|
            0 <= i < j < self.entries@.len() ==> (#[trigger] self.entries@[i]).0 != (
            #[trigger] self.entries@[j]).0
    }

    pub open spec fn spec_contains(self, id: DeviceId) -> bool {
        exists|i: int| 0 <= i < self.entries@.len() && (#[trigger] self.entries@[i]).0 == id
    }

    /// The delay stored for the identifier, if any.
    pub open spec fn spec_get(self, id: DeviceId) -> Option<Millisecond> {
        if self.spec_contains(id) {
            let i = choose|i: int|
                0 <= i < self.entries@.len() && (#[trigger] self.entries@[i]).0 == id;
            Some(self.entries@[i].1)
        } else {
            None
        }
    }

    pub fn new() -> (r: Self)
        ensures
            r.entries@.len() == 0,
            r.wf(),
            forall|id: DeviceId| r.spec_get(id) is None,
    {
        Self { entries: Vec::new() }
    }

    pub fn len(&self) -> (r: usize)
        ensures
            r == self.entries@.len(),
    {
        self.entries.len()
    }

    pub fn is_empty(&self) -> (r: bool)
        ensures
            r == (self.entries@.len() == 0),
    {
        self.entries.len() == 0
    }

    pub fn get(&self, id: DeviceId) -> (r: Option<Millisecond>)
        requires
            self.wf(),
        ensures
            r == self.spec_get(id),
    {
        let mut i: usize = 0;
        while i < self.entries.len()
            invariant
                self.wf(),
                i <= self.entries@.len(),
                forall|k: int| 0 <= k < i ==> (#[trigger] self.entries@[k]).0 != id,
            decreases self.entries@.len() - i,
        {
            if self.entries[i].0 == id {
                proof {
                    lemma_delay_unique_index(*self, id, i as int);
                }
                return Some(self.entries[i].1);
            }
            i = i + 1;
        }
        None
    }

    /// Stores a delay for the identifier, overwriting an earlier one.
    pub fn insert(&mut self, id: DeviceId, delay: Millisecond)
        requires
            old(self).wf(),
        ensures
            final(self).wf(),
            final(self).spec_get(id) == Some(delay),
            forall|other: DeviceId|
                other != id ==> final(self).spec_get(other) == old(self).spec_get(other),
    {
        let found = self.index_of(id);
        match found {
            Some(k) => {
                self.entries.set(k, (id, delay));
                proof {
                    lemma_delay_unique_index(*self, id, k as int);
                    assert forall|other: DeviceId| other != id implies self.spec_get(other) == old(
                        self,
                    ).spec_get(other) by {
                        if old(self).spec_contains(other) {
                            let ia = choose|i: int|
                                0 <= i < old(self).entries@.len() && (#[trigger] old(
                                    self,
                                ).entries@[i]).0 == other;
                            assert(self.entries@[ia].0 == other);
                            lemma_delay_unique_index(*self, other, ia);
                        }
                        if self.spec_contains(other) {
                            let ib = choose|i: int|
                                0 <= i < self.entries@.len() && (#[trigger] self.entries@[i]).0
                                    == other;
                            assert(old(self).entries@[ib].0 == other);
                            lemma_delay_unique_index(*old(self), other, ib);
                        }
                    }
                }
            },
            None => {
                self.entries.push((id, delay));
                proof {
                    assert forall|i: int, j: int|
                        0 <= i < j < self.entries@.len() implies (#[trigger] self.entries@[i]).0
                        != (#[trigger] self.entries@[j]).0 by {
                        if j == self.entries@.len() - 1 {
                            assert(old(self).entries@[i].0 != id);
                        }
                    }
                    lemma_delay_unique_index(*self, id, self.entries@.len() - 1);
                    assert forall|other: DeviceId| other != id implies self.spec_get(other) == old(
                        self,
                    ).spec_get(other) by {
                        if old(self).spec_contains(other) {
                            let ia = choose|i: int|
                                0 <= i < old(self).entries@.len() && (#[trigger] old(
                                    self,
                                ).entries@[i]).0 == other;
                            assert(self.entries@[ia].0 == other);
                            lemma_delay_unique_index(*self, other, ia);
                        }
                        if self.spec_contains(other) {
                            let ib = choose|i: int|
                                0 <= i < self.entries@.len() && (#[trigger] self.entries@[i]).0
                                    == other;
                            assert(ib < old(self).entries@.len());
                            assert(old(self).entries@[ib].0 == other);
                            lemma_delay_unique_index(*old(self), other, ib);
                        }
                    }
                }
            },
        }
    }

    /// The index of the entry for the identifier, if present.
    fn index_of(&self, id: DeviceId) -> (r: Option<usize>)
        ensures
            match r {
                Some(k) => k < self.entries@.len() && self.entries@[k as int].0 == id,
                None => forall|i: int|
                    0 <= i < self.entries@.len() ==> (#[trigger] self.entries@[i]).0 != id,
            },
    {
        let mut i: usize = 0;
        while i < self.entries.len()
            invariant
                i <= self.entries@.len(),
                forall|k: int| 0 <= k < i ==> (#[trigger] self.entries@[k]).0 != id,
            decreases self.entries@.len() - i,
        {
            if self.entries[i].0 == id {
                return Some(i);
            }
            i = i + 1;
        }
        None
    }

    /// The largest delay in the map; zero when the map is empty.
    pub fn max_delay(&self) -> (r: Millisecond)
        ensures
            r == spec_max_delay(self.entries@),
    {
        let ghost s = self.entries@;
        let mut best: u64 = 0;
        let mut i: usize = self.entries.len();
        proof {
            assert(s.skip(i as int) =~= Seq::<(DeviceId, Millisecond)>::empty());
        }
        while i > 0
            invariant
                i <= self.entries@.len(),
                s == self.entries@,
                best == spec_max_delay(s.skip(i as int)),
            decreases i,
        {
            i = i - 1;
            let entry_delay = self.entries[i].1;
            proof {
                assert(s.skip(i as int).drop_first() =~= s.skip(i as int + 1));
                assert(s.skip(i as int)[0] == s[i as int]);
            }
            if entry_delay >= best {
                best = entry_delay;
            }
        }
        proof {
            assert(s.skip(0) =~= s);
        }
        best
    }
}

impl Default for IdToDelayMap {
    fn default() -> (r: Self)
        ensures
            r.entries@.len() == 0,
            r.wf(),
            forall|id: DeviceId| r.spec_get(id) is None,
    {
        Self { entries: Vec::new() }
    }
}

/// The device collection, sorted by identifier so that iteration order is
/// fixed and reproducible.
#[derive(Clone, Debug, PartialEq)]
pub struct IdToDeviceMap {
    pub devices: Vec<Device>,
}

/// Any device index holding the identifier is the index the lookup picks.
pub proof fn lemma_device_unique_index(m: IdToDeviceMap, id: DeviceId, k: int)
    requires
        m.wf(),
        0 <= k < m.devices@.len(),
        m.devices@[k].id == id,
    ensures
        m.spec_contains_id(id),
        m.spec_index_of(id) == k,
        m.spec_get(id) == Some(m.devices@[k]),
{
    assert(m.spec_contains_id(id));
    let i = m.spec_index_of(id);
    if i < k {
        assert(m.devices@[i].id < m.devices@[k].id);
    } else if i > k {
        assert(m.devices@[k].id < m.devices@[i].id);
    }
}

impl IdToDeviceMap {
    /// Devices are strictly sorted by identifier (hence unique) and well
    /// formed.
    pub open spec fn wf(self) -> bool {
        &&& forall|i: int, j: int|
            0 <= i < j < self.devices@.len() ==> (#[trigger] self.devices@[i]).id < (
            #[trigger] self.devices@[j]).id
        &&& forall|i: int| 0 <= i < self.devices@.len() ==> (#[trigger] self.devices@[i]).wf()
    }

    pub open spec fn spec_contains_id(self, id: DeviceId) -> bool {
        exists|i: int| 0 <= i < self.devices@.len() && (#[trigger] self.devices@[i]).id == id
    }

    pub open spec fn spec_index_of(self, id: DeviceId) -> int {
        choose|i: int| 0 <= i < self.devices@.len() && (#[trigger] self.devices@[i]).id == id
    }

    /// The device stored under the identifier, if any.
    pub open spec fn spec_get(self, id: DeviceId) -> Option<Device> {
        if self.spec_contains_id(id) {
            Some(self.devices@[self.spec_index_of(id)])
        } else {
            None
        }
    }

    pub fn new() -> (r: Self)
        ensures
            r.devices@.len() == 0,
            r.wf(),
    {
        Self { devices: Vec::new() }
    }

    pub fn len(&self) -> (r: usize)
        ensures
            r == self.devices@.len(),
    {
        self.devices.len()
    }

    pub fn is_empty(&self) -> (r: bool)
        ensures
            r == (self.devices@.len() == 0),
    {
        self.devices.len() == 0
    }

    pub fn contains_id(&self, id: DeviceId) -> (r: bool)
        requires
            self.wf(),
        ensures
            r == self.spec_contains_id(id),
    {
        self.index_of(id).is_some()
    }

    /// The index of the device with the identifier, if present.
    pub fn index_of(&self, id: DeviceId) -> (r: Option<usize>)
        requires
            self.wf(),
        ensures
            match r {
                Some(k) => k < self.devices@.len() && self.devices@[k as int].id == id
                    && self.spec_index_of(id) == k as int && self.spec_contains_id(id),
                None => !self.spec_contains_id(id),
            },
    {
        let mut i: usize = 0;
        while i < self.devices.len()
            invariant
                self.wf(),
                i <= self.devices@.len(),
                forall|k: int| 0 <= k < i ==> (#[trigger] self.devices@[k]).id != id,
            decreases self.devices@.len() - i,
        {
            if self.devices[i].id() == id {
                proof {
                    lemma_device_unique_index(*self, id, i as int);
                }
                return Some(i);
            }
            i = i + 1;
        }
        None
    }

    pub fn get(&self, id: DeviceId) -> (r: Option<&Device>)
        requires
            self.wf(),
        ensures
            match r {
                Some(d) => self.spec_get(id) == Some(*d),
                None => self.spec_get(id) is None,
            },
    {
        match self.index_of(id) {
            Some(k) => Some(&self.devices[k]),
            None => None,
        }
    }

    /// Adds a device, replacing the one with the same identifier if
    /// present, else keeping the collection sorted by identifier.
    pub fn insert(&mut self, device: Device)
        requires
            old(self).wf(),
            device.wf(),
        ensures
            final(self).wf(),
            final(self).spec_get(device.id) == Some(device),
            forall|other: DeviceId|
                other != device.id ==> final(self).spec_get(other) == old(self).spec_get(other),
            old(self).spec_contains_id(device.id) ==> final(self).devices@.len() == old(
                self,
            ).devices@.len(),
            !old(self).spec_contains_id(device.id) ==> final(self).devices@.len() == old(
                self,
            ).devices@.len() + 1,
    {
        let id = device.id();
        match self.index_of(id) {
            Some(k) => {
                self.devices.set(k, device);
                proof {
                    assert forall|i: int, j: int| 0 <= i < j < self.devices@.len() implies (
                    #[trigger] self.devices@[i]).id < (#[trigger] self.devices@[j]).id by {
                        assert(old(self).devices@[i].id < old(self).devices@[j].id);
                        assert(self.devices@[i].id == old(self).devices@[i].id);
                        assert(self.devices@[j].id == old(self).devices@[j].id);
                    }
                    lemma_device_unique_index(*self, id, k as int);
                    assert forall|other: DeviceId| other != id implies self.spec_get(other) == old(
                        self,
                    ).spec_get(other) by {
                        if old(self).spec_contains_id(other) {
                            let ia = old(self).spec_index_of(other);
                            lemma_device_unique_index(*old(self), other, ia);
                            assert(self.devices@[ia].id == other);
                            lemma_device_unique_index(*self, other, ia);
                        }
                        if self.spec_contains_id(other) {
                            let ib = self.spec_index_of(other);
                            lemma_device_unique_index(*self, other, ib);
                            assert(old(self).devices@[ib].id == other);
                            lemma_device_unique_index(*old(self), other, ib);
                        }
                    }
                }
            },
            None => {
                let mut pos: usize = self.devices.len();
                while pos > 0 && self.devices[pos - 1].id() > id
                    invariant
                        pos <= self.devices@.len(),
                        self == old(self),
                        forall|k: int|
                            pos <= k < self.devices@.len() ==> (#[trigger] self.devices@[k]).id
                                > id,
                    decreases pos,
                {
                    pos = pos - 1;
                }
                proof {
                    assert forall|k: int| 0 <= k < pos implies (#[trigger] self.devices@[k]).id
                        < id by {
                        if self.devices@[k].id == id {
                            assert(old(self).spec_contains_id(id));
                        }
                        if self.devices@[k].id > id {
                            if k == pos - 1 {
                            } else {
                                assert(self.devices@[k].id < self.devices@[pos - 1].id);
                            }
                        }
                    }
                }
                self.devices.insert(pos, device);
                proof {
                    let s_old = old(self).devices@;
                    let s_new = self.devices@;
                    assert forall|i: int, j: int| 0 <= i < j < s_new.len() implies (
                    #[trigger] s_new[i]).id < (#[trigger] s_new[j]).id by {
                        if i < pos as int && j < pos as int {
                            assert(s_new[i] == s_old[i] && s_new[j] == s_old[j]);
                        } else if i < pos as int && j == pos as int {
                            assert(s_new[i] == s_old[i]);
                        } else if i < pos as int && j > pos as int {
                            assert(s_new[i] == s_old[i] && s_new[j] == s_old[j - 1]);
                        } else if i == pos as int && j > pos as int {
                            assert(s_new[j] == s_old[j - 1] && s_old[j - 1].id > id);
                        } else {
                            assert(s_new[i] == s_old[i - 1] && s_new[j] == s_old[j - 1]);
                        }
                    }
                    lemma_device_unique_index(*self, id, pos as int);
                    assert forall|other: DeviceId| other != id implies self.spec_get(other) == old(
                        self,
                    ).spec_get(other) by {
                        if old(self).spec_contains_id(other) {
                            let ia = old(self).spec_index_of(other);
                            lemma_device_unique_index(*old(self), other, ia);
                            if ia < pos as int {
                                assert(self.devices@[ia].id == other);
                                lemma_device_unique_index(*self, other, ia);
                            } else {
                                assert(self.devices@[ia + 1] == old(self).devices@[ia]);
                                lemma_device_unique_index(*self, other, ia + 1);
                            }
                        }
                        if self.spec_contains_id(other) {
                            let ib = self.spec_index_of(other);
                            lemma_device_unique_index(*self, other, ib);
                            if ib < pos as int {
                                assert(old(self).devices@[ib].id == other);
                                lemma_device_unique_index(*old(self), other, ib);
                            } else if ib > pos as int {
                                assert(old(self).devices@[ib - 1].id == other);
                                lemma_device_unique_index(*old(self), other, ib - 1);
                            }
                        }
                    }
                }
            },
        }
    }

    /// The identifiers, in ascending order.
    pub fn ids(&self) -> (r: Vec<DeviceId>)
        ensures
            r@.len() == self.devices@.len(),
            forall|i: int| 0 <= i < r@.len() ==> r@[i] == (#[trigger] self.devices@[i]).id,
    {
        let mut ids: Vec<DeviceId> = Vec::new();
        let mut i: usize = 0;
        while i < self.devices.len()
            invariant
                i <= self.devices@.len(),
                ids@.len() == i,
                forall|k: int| 0 <= k < i ==> ids@[k] == (#[trigger] self.devices@[k]).id,
            decreases self.devices@.len() - i,
        {
            ids.push(self.devices[i].id());
            i = i + 1;
        }
        ids
    }

    /// Each device id with its current task, in id order.
    pub fn tasks(&self) -> (r: Vec<(DeviceId, crate::task::Task)>)
        ensures
            r@.len() == self.devices@.len(),
            forall|i: int|
                0 <= i < r@.len() ==> r@[i] == ((#[trigger] self.devices@[i]).id,
                self.devices@[i].task),
    {
        let mut tasks: Vec<(DeviceId, crate::task::Task)> = Vec::new();
        let mut i: usize = 0;
        while i < self.devices.len()
            invariant
                i <= self.devices@.len(),
                tasks@.len() == i,
                forall|k: int|
                    0 <= k < i ==> tasks@[k] == ((#[trigger] self.devices@[k]).id,
                    self.devices@[k].task),
            decreases self.devices@.len() - i,
        {
            let device = &self.devices[i];
            tasks.push((device.id(), *device.task()));
            i = i + 1;
        }
        tasks
    }
}

impl Default for IdToDeviceMap {
    fn default() -> (r: Self)
        ensures
            r.devices@.len() == 0,
            r.wf(),
    {
        Self { devices: Vec::new() }
    }
}

/// Builds the sorted device collection from a list of devices; a later
/// device with an identifier already present replaces the earlier one.
pub fn device_map_from_slice(devices: Vec<Device>) -> (r: IdToDeviceMap)
    requires
        forall|i: int| 0 <= i < devices@.len() ==> (#[trigger] devices@[i]).wf(),
    ensures
        r.wf(),
        forall|i: int|
            0 <= i < devices@.len() ==> r.spec_contains_id((#[trigger] devices@[i]).id),
        r.devices@.len() <= devices@.len(),
{
    let ghost all = devices@;
    let mut rest = devices;
    let mut map = IdToDeviceMap::new();
    while rest.len() > 0
        invariant
            rest@ == all.take(rest@.len() as int),
            forall|i: int| 0 <= i < all.len() ==> (#[trigger] all[i]).wf(),
            map.wf(),
            forall|i: int|
                rest@.len() <= i < all.len() ==> map.spec_contains_id((#[trigger] all[i]).id),
            map.devices@.len() + rest@.len() <= all.len(),
        decreases rest@.len(),
    {
        let device = rest.pop().unwrap();
        proof {
            assert(all.take(rest@.len() as int + 1)[rest@.len() as int] == all[rest@.len() as int]);
            assert(all.take(rest@.len() as int + 1).drop_last() =~= all.take(rest@.len() as int));
            assert(device == all[rest@.len() as int]);
        }
        map.insert(device);
        proof {
            assert forall|i: int| rest@.len() <= i < all.len() implies map.spec_contains_id(
                (#[trigger] all[i]).id,
            ) by {
                if i == rest@.len() as int {
                } else {
                    assert(map.spec_get(all[i].id) is Some);
                }
            }
        }
    }
    map
}

} // verus!
