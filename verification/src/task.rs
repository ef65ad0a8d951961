//! Tasks a device can carry out, and scripted task scenarios.
use vstd::prelude::*;

use crate::device::BROADCAST_ID;
use crate::device::DeviceId;
use crate::mathphysics::Millisecond;
use crate::mathphysics::Point3D;

verus! {

/// What a device is currently ordered to do.  The destination-bearing
/// variants drive movement.
#[derive(Clone, Copy, Debug, PartialEq)]
pub enum Task {
    Attack(Point3D),
    /// Moving to a point in order to regain a control signal.
    Reconnect(Point3D),
    Reposition(Point3D),
    Undefined,
}

impl Task {
    /// Any point carried by the task lies inside the world box.
    pub open spec fn wf(self) -> bool {
        match self {
            Task::Attack(p) => p.wf(),
            Task::Reconnect(p) => p.wf(),
            Task::Reposition(p) => p.wf(),
            Task::Undefined => true,
        }
    }

    pub open spec fn spec_destination(self) -> Option<Point3D> {
        match self {
            Task::Attack(p) => Some(p),
            Task::Reconnect(p) => Some(p),
            Task::Reposition(p) => Some(p),
            Task::Undefined => None,
        }
    }

    pub fn destination(&self) -> (r: Option<Point3D>)
        ensures
            r == self.spec_destination(),
    {
        match self {
            Task::Attack(p) => Some(*p),
            Task::Reconnect(p) => Some(*p),
            Task::Reposition(p) => Some(*p),
            Task::Undefined => None,
        }
    }
}

/// One scripted order: at `0` the trigger time, for `1` the device (or
/// [`BROADCAST_ID`] for every device), assign `2` the task.
pub type ScenarioEntry = (Millisecond, DeviceId, Task);

/// The entry applies to this device: it is addressed to it or to everyone.
pub open spec fn entry_addresses(entry: ScenarioEntry, device_id: DeviceId) -> bool {
    entry.1 == device_id || entry.1 == BROADCAST_ID
}

/// `task` is the most recent scripted task for the device at or before
/// `current_time`: some entry carries it, is due, addresses the device,
/// and no later entry does.
pub open spec fn spec_is_last_task(
    s: Seq<ScenarioEntry>,
    current_time: Millisecond,
    device_id: DeviceId,
    task: Task,
) -> bool {
    exists|i: int|
        {
            &&& 0 <= i < s.len()
            &&& (#[trigger] s[i]).2 == task
            &&& s[i].0 <= current_time
            &&& entry_addresses(s[i], device_id)
            &&& forall|j: int|
                i < j < s.len() ==> !(s[j].0 <= current_time && entry_addresses(
                    #[trigger] s[j],
                    device_id,
                ))
        }
}

/// At most one task is the most recent one.
pub proof fn lemma_last_task_unique(
    s: Seq<ScenarioEntry>,
    current_time: Millisecond,
    device_id: DeviceId,
    t1: Task,
    t2: Task,
)
    requires
        spec_is_last_task(s, current_time, device_id, t1),
        spec_is_last_task(s, current_time, device_id, t2),
    ensures
        t1 == t2,
{
    let i1 = choose|i: int|
        {
            &&& 0 <= i < s.len()
            &&& (#[trigger] s[i]).2 == t1
            &&& s[i].0 <= current_time
            &&& entry_addresses(s[i], device_id)
            &&& forall|j: int|
                i < j < s.len() ==> !(s[j].0 <= current_time && entry_addresses(
                    #[trigger] s[j],
                    device_id,
                ))
        };
    let i2 = choose|i: int|
        {
            &&& 0 <= i < s.len()
            &&& (#[trigger] s[i]).2 == t2
            &&& s[i].0 <= current_time
            &&& entry_addresses(s[i], device_id)
            &&& forall|j: int|
                i < j < s.len() ==> !(s[j].0 <= current_time && entry_addresses(
                    #[trigger] s[j],
                    device_id,
                ))
        };
    if i1 < i2 {
        assert(!(s[i2].0 <= current_time && entry_addresses(s[i2], device_id)));
    } else if i2 < i1 {
        assert(!(s[i1].0 <= current_time && entry_addresses(s[i1], device_id)));
    }
}

/// A time-ordered script of task assignments.
#[derive(Clone, Debug, PartialEq)]
pub struct Scenario {
    pub entries: Vec<ScenarioEntry>,
}

impl Scenario {
    /// Entries are sorted by trigger time and carry world-box points.
    pub open spec fn wf(self) -> bool {
        &&& forall|i: int, j: int|
            0 <= i < j < self.entries@.len() ==> self.entries@[i].0 <= self.entries@[j].0
        &&& forall|i: int| 0 <= i < self.entries@.len() ==> (#[trigger] self.entries@[i]).2.wf()
    }

    pub fn new() -> (r: Self)
        ensures
            r.entries@.len() == 0,
            r.wf(),
    {
        Self { entries: Vec::new() }
    }

    /// Builds a scenario from a list of entries, sorting them by trigger
    /// time; entries with equal times keep their relative order.
    pub fn from_entries(entries: Vec<ScenarioEntry>) -> (r: Self)
        requires
            forall|i: int| 0 <= i < entries@.len() ==> (#[trigger] entries@[i]).2.wf(),
        ensures
            r.wf(),
            r.entries@.to_multiset() == entries@.to_multiset(),
    {
        let mut scenario = Self { entries: Vec::new() };
        proof {
            assert(scenario.entries@.to_multiset() =~= Seq::<ScenarioEntry>::empty().to_multiset());
            assert(entries@.take(0) =~= Seq::<ScenarioEntry>::empty());
        }
        let mut i: usize = 0;
        while i < entries.len()
            invariant
                i <= entries@.len(),
                scenario.wf(),
                forall|k: int| 0 <= k < entries@.len() ==> (#[trigger] entries@[k]).2.wf(),
                scenario.entries@.to_multiset() == entries@.take(i as int).to_multiset(),
            decreases entries@.len() - i,
        {
            let entry = entries[i];
            scenario.push_sorted(entry);
            proof {
                assert(entries@.take(i + 1) =~= entries@.take(i as int).push(entry));
                entries@.take(i as int).to_multiset_ensures();
                entries@.take(i + 1).to_multiset_ensures();
                assert(entries@.take(i + 1).to_multiset()
                    == entries@.take(i as int).to_multiset().insert(entry));
            }
            i = i + 1;
        }
        proof {
            assert(entries@.take(entries@.len() as int) =~= entries@);
        }
        scenario
    }

    /// Inserts one entry after every entry with an equal or earlier
    /// trigger time.
    fn push_sorted(&mut self, entry: ScenarioEntry)
        requires
            old(self).wf(),
            entry.2.wf(),
        ensures
            final(self).wf(),
            final(self).entries@.to_multiset() == old(self).entries@.to_multiset().insert(entry),
    {
        let mut pos: usize = self.entries.len();
        while pos > 0 && self.entries[pos - 1].0 > entry.0
            invariant
                pos <= self.entries@.len(),
                self == old(self),
                forall|k: int|
                    pos <= k < self.entries@.len() ==> (#[trigger] self.entries@[k]).0 > entry.0,
            decreases pos,
        {
            pos = pos - 1;
        }
        self.entries.insert(pos, entry);
        proof {
            let s_old = old(self).entries@;
            let s_new = self.entries@;
            assert(s_new =~= s_old.take(pos as int).push(entry) + s_old.skip(pos as int));
            lemma_insert_multiset(s_old, entry, pos as int);
        }
    }

    /// The most recent scripted task at or before `current_time` that is
    /// addressed to this device or to everyone; `None` if there is none.
    pub fn get_last_task(&self, current_time: Millisecond, destination_id: DeviceId) -> (r: Option<
        Task,
    >)
        ensures
            match r {
                Some(task) => spec_is_last_task(self.entries@, current_time, destination_id, task),
                None => forall|t: Task|
                    !spec_is_last_task(self.entries@, current_time, destination_id, t),
            },
            match r {
                Some(task) => exists|i: int|
                    {
                        &&& 0 <= i < self.entries@.len()
                        &&& (#[trigger] self.entries@[i]).2 == task
                        &&& self.entries@[i].0 <= current_time
                        &&& entry_addresses(self.entries@[i], destination_id)
                        &&& forall|j: int|
                            i < j < self.entries@.len() ==> !(self.entries@[j].0 <= current_time
                                && entry_addresses(#[trigger] self.entries@[j], destination_id))
                    },
                None => forall|i: int|
                    0 <= i < self.entries@.len() ==> !(self.entries@[i].0 <= current_time
                        && entry_addresses(#[trigger] self.entries@[i], destination_id)),
            },
    {
        let mut i: usize = self.entries.len();
        while i > 0
            invariant
                i <= self.entries@.len(),
                forall|j: int|
                    i <= j < self.entries@.len() ==> !(self.entries@[j].0 <= current_time
                        && entry_addresses(#[trigger] self.entries@[j], destination_id)),
            decreases i,
        {
            i = i - 1;
            let entry = self.entries[i];
            if entry.0 <= current_time && (entry.1 == destination_id || entry.1 == BROADCAST_ID) {
                return Some(entry.2);
            }
        }
        None
    }
}

impl Default for Scenario {
    fn default() -> (r: Self)
        ensures
            r.entries@.len() == 0,
            r.wf(),
    {
        Self { entries: Vec::new() }
    }
}

proof fn lemma_insert_multiset(s: Seq<ScenarioEntry>, entry: ScenarioEntry, pos: int)
    requires
        0 <= pos <= s.len(),
    ensures
        (s.take(pos).push(entry) + s.skip(pos)).to_multiset() == s.to_multiset().insert(entry),
{
    let lhs = s.take(pos).push(entry) + s.skip(pos);
    s.take(pos).to_multiset_ensures();
    s.skip(pos).to_multiset_ensures();
    vstd::seq_lib::lemma_multiset_commutative(s.take(pos).push(entry), s.skip(pos));
    vstd::seq_lib::lemma_multiset_commutative(s.take(pos), s.skip(pos));
    s.take(pos).to_multiset_ensures();
    assert(s.take(pos).push(entry).to_multiset() == s.take(pos).to_multiset().insert(entry));
    assert(s.take(pos) + s.skip(pos) =~= s);
    assert(lhs.to_multiset() =~= s.to_multiset().insert(entry));
}

} // verus!
