//! The delayed signal queue: signals tagged with a creation time and a
//! per-destination delay, delivered exactly when due and pruned once the
//! slowest recipient has processed them.
use vstd::prelude::*;

use crate::device::BROADCAST_ID;
use crate::device::DeviceId;
use crate::idmaps::IdToDelayMap;
use crate::idmaps::spec_max_delay;
use crate::mathphysics::Millisecond;
use crate::signal::Signal;

verus! {

/// One queue entry: the creation time, the signal, and the delay each
/// destination sees.
pub type SignalQueueEntry = (Millisecond, Signal, IdToDelayMap);

/// The delay this entry imposes on the given device: its own entry in the
/// delay map, else the broadcast entry, else zero.
pub open spec fn spec_any_delay_for(device_id: DeviceId, delay_map: IdToDelayMap) -> int {
    match delay_map.spec_get(device_id) {
        Option::Some(delay) => delay as int,
        Option::None => match delay_map.spec_get(BROADCAST_ID) {
            Option::Some(broadcast_delay) => broadcast_delay as int,
            Option::None => 0,
        },
    }
}

/// The delay the map imposes on the device: its own entry, else the
/// broadcast entry, else zero.
pub fn any_delay_for(device_id: DeviceId, delay_map: &IdToDelayMap) -> (r: Millisecond)
    requires
        delay_map.wf(),
    ensures
        r == spec_any_delay_for(device_id, *delay_map),
{
    if let Some(delay) = delay_map.get(device_id) {
        return delay;
    }
    if let Some(broadcast_delay) = delay_map.get(BROADCAST_ID) {
        return broadcast_delay;
    }
    0
}

/// The entry is due at `device_id` exactly at time `t`.
pub open spec fn spec_entry_due(entry: SignalQueueEntry, device_id: DeviceId, t: int) -> bool {
    t == entry.0 + spec_any_delay_for(device_id, entry.2)
}

/// The signals of `s` whose entries are due at `device_id` at time `t`,
/// in queue order.
pub open spec fn spec_current_signals(s: Seq<SignalQueueEntry>, device_id: DeviceId, t: int) -> Seq<
    Signal,
>
    decreases s.len(),
{
    if s.len() == 0 {
        Seq::empty()
    } else {
        let rest = spec_current_signals(s.drop_last(), device_id, t);
        if spec_entry_due(s.last(), device_id, t) {
            rest.push(s.last().1)
        } else {
            rest
        }
    }
}

/// The signal comes from an entry of `s` that is due at `device_id` at
/// time `t`.
pub open spec fn spec_signal_from_due_entry(
    s: Seq<SignalQueueEntry>,
    device_id: DeviceId,
    t: int,
    sig: Signal,
) -> bool {
    exists|j: int|
        0 <= j < s.len() && (#[trigger] s[j]).1 == sig && spec_entry_due(s[j], device_id, t)
}

/// The entry is spent at time `t`: even its slowest recipient has already
/// processed it.
pub open spec fn spec_entry_spent(entry: SignalQueueEntry, t: int) -> bool {
    t >= entry.0 + spec_max_delay(entry.2.entries@)
}

/// The entries of `s` not yet spent at time `t`, in queue order.
pub open spec fn spec_live_entries(s: Seq<SignalQueueEntry>, t: int) -> Seq<SignalQueueEntry>
    decreases s.len(),
{
    if s.len() == 0 {
        Seq::empty()
    } else {
        let rest = spec_live_entries(s.drop_last(), t);
        if spec_entry_spent(s.last(), t) {
            rest
        } else {
            rest.push(s.last())
        }
    }
}

/// A signal queue: entries sorted by creation time, delivered when due.
#[derive(Clone, Debug, Default)]
pub struct SignalQueue {
    pub entries: Vec<SignalQueueEntry>,
}

impl SignalQueue {
    /// Entries are sorted by creation time and their parts well formed.
    pub open spec fn wf(self) -> bool {
        &&& forall|i: int, j: int|
            0 <= i < j < self.entries@.len() ==> (#[trigger] self.entries@[i]).0 <= (
            #[trigger] self.entries@[j]).0
        &&& forall|i: int| 0 <= i < self.entries@.len() ==> (#[trigger] self.entries@[i]).1.wf()
        &&& forall|i: int| 0 <= i < self.entries@.len() ==> (#[trigger] self.entries@[i]).2.wf()
    }

    pub fn new() -> (r: Self)
        ensures
            r.entries@.len() == 0,
            r.wf(),
    {
        Self { entries: Vec::new() }
    }

    pub fn len(&self) -> (r: usize)
        ensures
            r == self.entries@.len(),
    {
        self.entries.len()
    }

    pub fn is_empty(&self) -> (r: bool)
        ensures
            r == (self.entries@.len() == 0),
    {
        self.entries.len() == 0
    }

    /// Appends an entry, keeping the queue sorted by creation time;
    /// entries with equal times keep their relative order.
    pub fn add_entry(&mut self, time: Millisecond, signal: Signal, delay_map: IdToDelayMap)
        requires
            old(self).wf(),
            signal.wf(),
            delay_map.wf(),
        ensures
            final(self).wf(),
            final(self).entries@.to_multiset() == old(self).entries@.to_multiset().insert(
                (time, signal, delay_map),
            ),
            final(self).entries@.len() == old(self).entries@.len() + 1,
    {
        let entry = (time, signal, delay_map);
        let mut pos: usize = self.entries.len();
        while pos > 0 && self.entries[pos - 1].0 > time
            invariant
                pos <= self.entries@.len(),
                self == old(self),
                forall|k: int|
                    pos <= k < self.entries@.len() ==> (#[trigger] self.entries@[k]).0 > time,
            decreases pos,
        {
            pos = pos - 1;
        }
        self.entries.insert(pos, entry);
        proof {
            let s_old = old(self).entries@;
            let s_new = self.entries@;
            assert(s_new =~= s_old.take(pos as int).push(entry) + s_old.skip(pos as int));
            lemma_entry_insert_multiset(s_old, entry, pos as int);
        }
    }

    /// Every signal whose entry is due at `destination_id` exactly at
    /// `current_time`: an entry is returned if and only if the current
    /// time equals its creation time plus its delay for the destination.
    pub fn get_current_signals_for(
        &self,
        destination_id: DeviceId,
        current_time: Millisecond,
    ) -> (r: Vec<Signal>)
        requires
            self.wf(),
        ensures
            r@ == spec_current_signals(self.entries@, destination_id, current_time as int),
            forall|j: int|
                0 <= j < self.entries@.len() && spec_entry_due(
                    #[trigger] self.entries@[j],
                    destination_id,
                    current_time as int,
                ) ==> r@.contains(self.entries@[j].1),
            forall|k: int|
                0 <= k < r@.len() ==> spec_signal_from_due_entry(
                    self.entries@,
                    destination_id,
                    current_time as int,
                    #[trigger] r@[k],
                ),
    {
        let ghost s = self.entries@;
        let mut result: Vec<Signal> = Vec::new();
        let mut i: usize = 0;
        proof {
            assert(s.take(0) =~= Seq::<SignalQueueEntry>::empty());
        }
        while i < self.entries.len()
            invariant
                self.wf(),
                i <= self.entries@.len(),
                s == self.entries@,
                result@ == spec_current_signals(s.take(i as int), destination_id,
                current_time as int),
            decreases self.entries@.len() - i,
        {
            let entry = &self.entries[i];
            let delay = any_delay_for(destination_id, &entry.2);
            proof {
                assert(s.take(i as int + 1).drop_last() =~= s.take(i as int));
                assert(s.take(i as int + 1).last() == s[i as int]);
            }
            if current_time >= entry.0 && current_time - entry.0 == delay {
                result.push(entry.1);
            }
            i = i + 1;
        }
        proof {
            assert(s.take(s.len() as int) =~= s);
            lemma_current_signals_complete(s, destination_id, current_time as int);
        }
        result
    }

    /// Drops every entry whose slowest recipient has already processed
    /// it: an entry is removed if and only if `current_time` has reached
    /// its creation time plus the largest delay in its delay map.
    pub fn remove_old_signals(&mut self, current_time: Millisecond)
        requires
            old(self).wf(),
        ensures
            final(self).wf(),
            final(self).entries@ == spec_live_entries(old(self).entries@, current_time as int),
            forall|j: int|
                0 <= j < old(self).entries@.len() && !spec_entry_spent(
                    #[trigger] old(self).entries@[j],
                    current_time as int,
                ) ==> final(self).entries@.contains(old(self).entries@[j]),
            forall|k: int|
                0 <= k < final(self).entries@.len() ==> !spec_entry_spent(
                    #[trigger] final(self).entries@[k],
                    current_time as int,
                ),
    {
        let ghost s = old(self).entries@;
        let mut i: usize = 0;
        let ghost j: int = 0;
        proof {
            assert(s.take(0) =~= Seq::<SignalQueueEntry>::empty());
            assert(spec_live_entries(s.take(0), current_time as int) + s.skip(0) =~= s);
        }
        while i < self.entries.len()
            invariant
                old(self).wf(),
                s == old(self).entries@,
                0 <= j <= s.len(),
                i as int == spec_live_entries(s.take(j), current_time as int).len(),
                self.entries@ == spec_live_entries(s.take(j), current_time as int) + s.skip(j),
                i <= self.entries@.len(),
            decreases s.len() - j,
        {
            proof {
                assert(s.skip(j).len() > 0);
                assert(self.entries@[i as int] == s.skip(j)[0]);
                assert(s.skip(j)[0] == s[j]);
                assert(s.take(j + 1).drop_last() =~= s.take(j));
                assert(s.take(j + 1).last() == s[j]);
            }
            let longest = self.entries[i].2.max_delay();
            let creation = self.entries[i].0;
            proof {
                crate::idmaps::lemma_max_delay_bounds(s[j].2.entries@);
            }
            let spent = current_time as u128 >= creation as u128 + longest as u128;
            let ghost live_before = spec_live_entries(s.take(j), current_time as int);
            if spent {
                self.entries.remove(i);
                proof {
                    assert(self.entries@ =~= live_before + s.skip(j + 1));
                }
            } else {
                i = i + 1;
                proof {
                    assert(self.entries@ =~= (live_before.push(s[j])) + s.skip(j + 1));
                }
            }
            proof {
                j = j + 1;
            }
        }
        proof {
            assert(j == s.len());
            assert(s.take(s.len() as int) =~= s);
            assert(s.skip(s.len() as int) =~= Seq::<SignalQueueEntry>::empty());
            assert(self.entries@ =~= spec_live_entries(s, current_time as int));
            lemma_live_entries_sound(s, current_time as int);
            let live = spec_live_entries(s, current_time as int);
            assert forall|a: int, b: int| 0 <= a < b < live.len() implies (#[trigger] live[a]).0
                <= (#[trigger] live[b]).0 by {
                lemma_live_entries_order(s, current_time as int, a, b);
            }
            assert forall|k: int| 0 <= k < live.len() implies (#[trigger] live[k]).1.wf() && (
            #[trigger] live[k]).2.wf() by {
                let w = choose|w: int| 0 <= w < s.len() && (#[trigger] live[k]) == s[w];
            }
        }
    }
}

/// Growing a queue (in the multiset sense) keeps every entry it held.
pub proof fn lemma_queue_contains_preserved(
    a: Seq<SignalQueueEntry>,
    b: Seq<SignalQueueEntry>,
    e: SignalQueueEntry,
)
    requires
        a.to_multiset().subset_of(b.to_multiset()),
        a.contains(e),
    ensures
        b.contains(e),
{
    a.to_multiset_ensures();
    b.to_multiset_ensures();
    assert(a.to_multiset().count(e) > 0);
    assert(b.to_multiset().count(e) > 0);
}

/// Inserting an entry anywhere adds exactly it to the queue's contents.
proof fn lemma_entry_insert_multiset(s: Seq<SignalQueueEntry>, entry: SignalQueueEntry, pos: int)
    requires
        0 <= pos <= s.len(),
    ensures
        (s.take(pos).push(entry) + s.skip(pos)).to_multiset() == s.to_multiset().insert(entry),
{
    let lhs = s.take(pos).push(entry) + s.skip(pos);
    vstd::seq_lib::lemma_multiset_commutative(s.take(pos).push(entry), s.skip(pos));
    vstd::seq_lib::lemma_multiset_commutative(s.take(pos), s.skip(pos));
    s.take(pos).to_multiset_ensures();
    assert(s.take(pos).push(entry).to_multiset() == s.take(pos).to_multiset().insert(entry));
    assert(s.take(pos) + s.skip(pos) =~= s);
    assert(lhs.to_multiset() =~= s.to_multiset().insert(entry));
}

/// Every due entry's signal appears in the delivered sequence, and every
/// delivered signal comes from a due entry.
proof fn lemma_current_signals_complete(s: Seq<SignalQueueEntry>, d: DeviceId, t: int)
    ensures
        forall|j: int|
            0 <= j < s.len() && spec_entry_due(#[trigger] s[j], d, t) ==> spec_current_signals(
                s,
                d,
                t,
            ).contains(s[j].1),
        forall|k: int|
            0 <= k < spec_current_signals(s, d, t).len() ==> spec_signal_from_due_entry(
                s,
                d,
                t,
                #[trigger] spec_current_signals(s, d, t)[k],
            ),
    decreases s.len(),
{
    if s.len() > 0 {
        lemma_current_signals_complete(s.drop_last(), d, t);
        let rest = spec_current_signals(s.drop_last(), d, t);
        let full = spec_current_signals(s, d, t);
        assert forall|j: int| 0 <= j < s.len() && spec_entry_due(#[trigger] s[j], d, t) implies
            full.contains(s[j].1) by {
            if j < s.len() - 1 {
                assert(s.drop_last()[j] == s[j]);
                assert(rest.contains(s[j].1));
                let k = choose|k: int| 0 <= k < rest.len() && rest[k] == s[j].1;
                assert(full[k] == s[j].1);
            } else {
                assert(full.last() == s.last().1);
            }
        }
        assert forall|k: int| 0 <= k < full.len() implies spec_signal_from_due_entry(
            s,
            d,
            t,
            #[trigger] full[k],
        ) by {
            if k < rest.len() {
                assert(full[k] == rest[k]);
                assert(spec_signal_from_due_entry(s.drop_last(), d, t, rest[k]));
                let j = choose|j: int|
                    0 <= j < s.drop_last().len() && (#[trigger] s.drop_last()[j]).1 == rest[k]
                        && spec_entry_due(s.drop_last()[j], d, t);
                assert(s[j] == s.drop_last()[j]);
                assert(s[j].1 == full[k] && spec_entry_due(s[j], d, t));
            } else {
                assert(spec_entry_due(s.last(), d, t));
                assert(s[s.len() - 1].1 == full[k]);
            }
        }
    }
}

/// Every entry not yet spent survives pruning, every survivor is not
/// yet spent, and every survivor comes from the original queue.
proof fn lemma_live_entries_sound(s: Seq<SignalQueueEntry>, t: int)
    ensures
        forall|j: int|
            0 <= j < s.len() && !spec_entry_spent(#[trigger] s[j], t) ==> spec_live_entries(
                s,
                t,
            ).contains(s[j]),
        forall|k: int|
            0 <= k < spec_live_entries(s, t).len() ==> !spec_entry_spent(
                #[trigger] spec_live_entries(s, t)[k],
                t,
            ),
        forall|k: int|
            0 <= k < spec_live_entries(s, t).len() ==> exists|j: int|
                0 <= j < s.len() && (#[trigger] spec_live_entries(s, t)[k]) == s[j],
    decreases s.len(),
{
    if s.len() > 0 {
        lemma_live_entries_sound(s.drop_last(), t);
        let rest = spec_live_entries(s.drop_last(), t);
        let full = spec_live_entries(s, t);
        assert forall|j: int| 0 <= j < s.len() && !spec_entry_spent(#[trigger] s[j], t) implies
            full.contains(s[j]) by {
            if j < s.len() - 1 {
                assert(s.drop_last()[j] == s[j]);
                assert(rest.contains(s[j]));
                let k = choose|k: int| 0 <= k < rest.len() && rest[k] == s[j];
                assert(full[k] == s[j]);
            } else {
                assert(full.last() == s.last());
            }
        }
        assert forall|k: int| 0 <= k < full.len() implies exists|j: int|
            0 <= j < s.len() && (#[trigger] full[k]) == s[j] by {
            if k < rest.len() {
                assert(full[k] == rest[k]);
                let j = choose|j: int|
                    0 <= j < s.drop_last().len() && (#[trigger] rest[k]) == s.drop_last()[j];
                assert(s[j] == s.drop_last()[j]);
            } else {
                assert(full[k] == s[s.len() - 1]);
            }
        }
    }
}

/// Pruning keeps entries in their original relative order, so a queue
/// sorted by creation time stays sorted.
proof fn lemma_live_entries_order(s: Seq<SignalQueueEntry>, t: int, a: int, b: int)
    requires
        forall|i: int, j: int| 0 <= i < j < s.len() ==> (#[trigger] s[i]).0 <= (#[trigger] s[j]).0,
        0 <= a < b < spec_live_entries(s, t).len(),
    ensures
        spec_live_entries(s, t)[a].0 <= spec_live_entries(s, t)[b].0,
    decreases s.len(),
{
    let full = spec_live_entries(s, t);
    let rest = spec_live_entries(s.drop_last(), t);
    lemma_live_entries_sound(s, t);
    if b < rest.len() {
        assert(forall|i: int, j: int|
            0 <= i < j < s.drop_last().len() ==> (#[trigger] s.drop_last()[i]).0 <= (
            #[trigger] s.drop_last()[j]).0);
        lemma_live_entries_order(s.drop_last(), t, a, b);
        assert(full[a] == rest[a] && full[b] == rest[b]);
    } else {
        assert(full[b] == s.last());
        assert(full[a] == rest[a]);
        lemma_live_entries_sound(s.drop_last(), t);
        let w = choose|w: int|
            0 <= w < s.drop_last().len() && (#[trigger] rest[a]) == s.drop_last()[w];
        assert(s[w] == s.drop_last()[w]);
        assert(s[w].0 <= s[s.len() - 1].0);
    }
}

} // verus!
