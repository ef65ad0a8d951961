//! Attacker devices and opportunistic malware spread: jamming noise,
//! spoofed GPS fixes and malware payloads, enqueued with the same delay
//! rules as ordinary signals.
use vstd::prelude::*;

use crate::device::Device;
use crate::malware::Malware;
use crate::mathphysics::Frequency;
use crate::mathphysics::MAX_DELAY_MULTIPLIER;
use crate::mathphysics::Millisecond;
use crate::mathphysics::Point3D;
use crate::mathphysics::delay_to;
use crate::mathphysics::spec_delay_to;
use crate::mathphysics::spec_distance;
use crate::queue::SignalQueue;
use crate::queue::SignalQueueEntry;
use crate::idmaps::IdToDelayMap;
use crate::signal::Data;
use crate::signal::Signal;
use crate::trx::TRXSystemError;
use crate::trx::spec_tx_level_at;

verus! {

/// Failure of an attack attempt.
#[derive(Clone, Copy, Debug, PartialEq)]
pub enum AttackError {
    /// No frequency of the attacker reaches the target.
    TargetOutOfRange,
    /// The attacker's transceiver failed.
    TRXSystemError(TRXSystemError),
}

/// What an attacker device does to its targets.
#[derive(Clone, Copy, Debug, PartialEq)]
pub enum AttackType {
    /// Broadcast noise on every frequency the attacker transmits on.
    ElectronicWarfare,
    /// Inject a spoofed GPS fix for the given point.
    GPSSpoofing(Point3D),
    /// Inject a malware payload.
    MalwareDistribution(Malware),
}

impl AttackType {
    pub open spec fn wf(self) -> bool {
        match self {
            AttackType::GPSSpoofing(p) => p.wf(),
            _ => true,
        }
    }
}

/// The signal the attacker would deliver to the target on a frequency, if
/// the target is in range.
pub open spec fn spec_attack_signal(
    attacker: Device,
    target: Device,
    frequency: Frequency,
    data: Data,
) -> Option<Signal> {
    match spec_tx_level_at(
        attacker.trx_system.tx_module,
        frequency,
        spec_distance(attacker.real_position, target.real_position),
    ) {
        Option::Some(level) => Some(
            Signal {
                source_id: attacker.id,
                destination_id: target.id,
                data,
                frequency,
                level,
            },
        ),
        Option::None => None,
    }
}

/// An entry scheduling `signal` at `time` with the single delay this
/// attacker imposes on the target.
pub open spec fn spec_unicast_entry(
    entry: SignalQueueEntry,
    time: Millisecond,
    signal: Signal,
    target_id: crate::device::DeviceId,
    delay: Millisecond,
) -> bool {
    &&& entry.0 == time
    &&& entry.1 == signal
    &&& entry.2.entries@ =~= seq![(target_id, delay)]
}

/// The full outcome of one attack execution: which error comes on which
/// inputs, and exactly what the queue gains on success.
pub open spec fn spec_attack_outcome(
    attacker: AttackerDevice,
    target: Device,
    oldq: SignalQueue,
    newq: SignalQueue,
    current_time: Millisecond,
    delay_multiplier: u64,
    r: Result<(), AttackError>,
) -> bool {
    let delay = spec_delay_to(
            spec_distance(attacker.device.real_position, target.real_position),
            delay_multiplier as int,
        ) as u64;
        match attacker.attack_type {
            AttackType::ElectronicWarfare => {
                let ctrl = spec_attack_signal(
                    attacker.device,
                    target,
                    Frequency::Control,
                    Data::Noise,
                );
                let gps = spec_attack_signal(
                    attacker.device,
                    target,
                    Frequency::GPS,
                    Data::Noise,
                );
                match r {
                    Ok(()) => {
                        &&& (ctrl is Some || gps is Some)
                        &&& (ctrl is Some && gps is None ==> exists|e1: SignalQueueEntry|
                            #[trigger] spec_unicast_entry(
                                e1,
                                current_time,
                                ctrl->0,
                                target.id,
                                delay,
                            ) && newq.entries@.to_multiset() == oldq.entries@.to_multiset().insert(e1))
                        &&& (ctrl is None && gps is Some ==> exists|e2: SignalQueueEntry|
                            #[trigger] spec_unicast_entry(
                                e2,
                                current_time,
                                gps->0,
                                target.id,
                                delay,
                            ) && newq.entries@.to_multiset() == oldq.entries@.to_multiset().insert(e2))
                        &&& (ctrl is Some && gps is Some ==> exists|e1: SignalQueueEntry|
                            #[trigger] spec_unicast_entry(
                                e1,
                                current_time,
                                ctrl->0,
                                target.id,
                                delay,
                            ) && exists|e2: SignalQueueEntry|
                                #[trigger] spec_unicast_entry(
                                    e2,
                                    current_time,
                                    gps->0,
                                    target.id,
                                    delay,
                                ) && newq.entries@.to_multiset() == oldq.entries@.to_multiset().insert(e1).insert(e2))
                    },
                    Err(e) => e == AttackError::TargetOutOfRange && ctrl is None
                        && gps is None && newq == oldq,
                }
            },
            AttackType::GPSSpoofing(spoofed_position) => {
                let sig = spec_attack_signal(
                    attacker.device,
                    target,
                    Frequency::GPS,
                    Data::GPS(spoofed_position),
                );
                match r {
                    Ok(()) => sig is Some && exists|e: SignalQueueEntry|
                        #[trigger] spec_unicast_entry(
                            e,
                            current_time,
                            sig->0,
                            target.id,
                            delay,
                        ) && newq.entries@.to_multiset() == oldq.entries@.to_multiset().insert(e),
                    Err(e) => e == AttackError::TargetOutOfRange && sig is None && newq == oldq,
                }
            },
            AttackType::MalwareDistribution(malware) => {
                let sig = spec_attack_signal(
                    attacker.device,
                    target,
                    Frequency::Control,
                    Data::Malware(malware),
                );
                match r {
                    Ok(()) => sig is Some && exists|e: SignalQueueEntry|
                        #[trigger] spec_unicast_entry(
                            e,
                            current_time,
                            sig->0,
                            target.id,
                            delay,
                        ) && newq.entries@.to_multiset() == oldq.entries@.to_multiset().insert(e),
                    Err(e) => e == AttackError::TargetOutOfRange && sig is None && newq == oldq,
                }
            },
        }
}

/// A device together with the attack it carries out.
#[derive(Clone, Debug, PartialEq)]
pub struct AttackerDevice {
    pub device: Device,
    pub attack_type: AttackType,
}

impl AttackerDevice {
    pub open spec fn wf(self) -> bool {
        &&& self.device.wf()
        &&& self.attack_type.wf()
    }

    pub fn new(device: Device, attack_type: AttackType) -> (r: Self)
        requires
            device.wf(),
            attack_type.wf(),
        ensures
            r == (AttackerDevice { device, attack_type }),
            r.wf(),
    {
        Self { device, attack_type }
    }

    pub fn device(&self) -> (r: &Device)
        ensures
            r == &self.device,
    {
        &self.device
    }

    pub fn attack_type(&self) -> (r: AttackType)
        ensures
            r == self.attack_type,
    {
        self.attack_type
    }

    /// Carries the attack out against one target: the produced signals
    /// are scheduled at `current_time` with the attacker-to-target delay.
    /// Fails with `TargetOutOfRange`, leaving the queue untouched,
    /// exactly when no needed frequency reaches the target.
    #[verifier::rlimit(100)]
    pub fn execute_attack(
        &self,
        target_device: &Device,
        signal_queue: &mut SignalQueue,
        current_time: Millisecond,
        delay_multiplier: u64,
    ) -> (r: Result<(), AttackError>)
        requires
            self.wf(),
            target_device.wf(),
            old(signal_queue).wf(),
            delay_multiplier <= MAX_DELAY_MULTIPLIER,
        ensures
            final(signal_queue).wf(),
            old(signal_queue).entries@.to_multiset().subset_of(
                final(signal_queue).entries@.to_multiset(),
            ),
            spec_attack_outcome(
                *self,
                *target_device,
                *old(signal_queue),
                *final(signal_queue),
                current_time,
                delay_multiplier,
                r,
            ),
    {
        let distance = self.device.distance_to(target_device);
        let delay = delay_to(distance, delay_multiplier);
        match self.attack_type {
            AttackType::ElectronicWarfare => {
                let ctrl = self.device.create_signal_for(
                    target_device,
                    Data::Noise,
                    Frequency::Control,
                );
                let gps = self.device.create_signal_for(target_device, Data::Noise, Frequency::GPS);
                if ctrl.is_err() && gps.is_err() {
                    return Err(AttackError::TargetOutOfRange);
                }
                let ghost mut we1: SignalQueueEntry = vstd::pervasive::arbitrary();
                let ghost mut we2: SignalQueueEntry = we1;
                if let Ok(signal) = ctrl {
                    let delay_map = IdToDelayMap { entries: vec![(target_device.id(), delay)] };
                    proof {
                        assert(delay_map.entries@ =~= seq![(target_device.id, delay)]);
                        assert(delay_map.wf());
                        we1 = (current_time, signal, delay_map);
                    }
                    signal_queue.add_entry(current_time, signal, delay_map);
                }
                if let Ok(signal) = gps {
                    let delay_map = IdToDelayMap { entries: vec![(target_device.id(), delay)] };
                    proof {
                        assert(delay_map.entries@ =~= seq![(target_device.id, delay)]);
                        assert(delay_map.wf());
                        we2 = (current_time, signal, delay_map);
                    }
                    signal_queue.add_entry(current_time, signal, delay_map);
                }
                proof {
                    let d = spec_delay_to(
                        spec_distance(self.device.real_position, target_device.real_position),
                        delay_multiplier as int,
                    ) as u64;
                    let cs = spec_attack_signal(
                        self.device,
                        *target_device,
                        Frequency::Control,
                        Data::Noise,
                    );
                    let gs = spec_attack_signal(
                        self.device,
                        *target_device,
                        Frequency::GPS,
                        Data::Noise,
                    );
                    if cs is Some {
                        assert(spec_unicast_entry(we1, current_time, cs->0, target_device.id, d));
                    }
                    if gs is Some {
                        assert(spec_unicast_entry(we2, current_time, gs->0, target_device.id, d));
                    }
                    if cs is Some && gs is None {
                        assert(exists|e1: SignalQueueEntry|
                            #[trigger] spec_unicast_entry(
                                e1,
                                current_time,
                                cs->0,
                                target_device.id,
                                d,
                            ) && signal_queue.entries@.to_multiset() == old(signal_queue).entries@.to_multiset().insert(e1));
                    } else if cs is None && gs is Some {
                        assert(exists|e2: SignalQueueEntry|
                            #[trigger] spec_unicast_entry(
                                e2,
                                current_time,
                                gs->0,
                                target_device.id,
                                d,
                            ) && signal_queue.entries@.to_multiset() == old(signal_queue).entries@.to_multiset().insert(e2));
                    } else if cs is Some && gs is Some {
                        assert(exists|e2: SignalQueueEntry|
                            #[trigger] spec_unicast_entry(
                                e2,
                                current_time,
                                gs->0,
                                target_device.id,
                                d,
                            ) && signal_queue.entries@.to_multiset() == old(signal_queue).entries@.to_multiset().insert(we1).insert(e2));
                        assert(spec_unicast_entry(we1, current_time, cs->0, target_device.id, d)
                            && (exists|e2: SignalQueueEntry|
                            #[trigger] spec_unicast_entry(
                                e2,
                                current_time,
                                gs->0,
                                target_device.id,
                                d,
                            ) && signal_queue.entries@.to_multiset() == old(signal_queue).entries@.to_multiset().insert(we1).insert(e2)));
                        assert(exists|e1: SignalQueueEntry|
                            #[trigger] spec_unicast_entry(
                                e1,
                                current_time,
                                cs->0,
                                target_device.id,
                                d,
                            ) && (exists|e2: SignalQueueEntry|
                            #[trigger] spec_unicast_entry(
                                e2,
                                current_time,
                                gs->0,
                                target_device.id,
                                d,
                            ) && signal_queue.entries@.to_multiset() == old(signal_queue).entries@.to_multiset().insert(e1).insert(e2)));
                    }
                }
                                Ok(())
            },
            AttackType::GPSSpoofing(spoofed_position) => {
                let signal = match self.device.create_signal_for(
                    target_device,
                    Data::GPS(spoofed_position),
                    Frequency::GPS,
                ) {
                    Ok(signal) => signal,
                    Err(_) => { return Err(AttackError::TargetOutOfRange) },
                };
                let delay_map = IdToDelayMap { entries: vec![(target_device.id(), delay)] };
                proof {
                    assert(delay_map.entries@ =~= seq![(target_device.id, delay)]);
                    assert(delay_map.wf());
                }
                signal_queue.add_entry(current_time, signal, delay_map);
                proof {
                    let d = spec_delay_to(
                        spec_distance(self.device.real_position, target_device.real_position),
                        delay_multiplier as int,
                    ) as u64;
                    assert(delay == d);
                    let sg = spec_attack_signal(
                        self.device,
                        *target_device,
                        Frequency::GPS,
                        Data::GPS(spoofed_position),
                    );
                    assert(spec_unicast_entry(
                        (current_time, signal, delay_map),
                        current_time,
                        sg->0,
                        target_device.id,
                        d,
                    ));
                    assert(exists|e: SignalQueueEntry|
                        #[trigger] spec_unicast_entry(
                            e,
                            current_time,
                            sg->0,
                            target_device.id,
                            d,
                        ) && signal_queue.entries@.to_multiset() == old(signal_queue).entries@.to_multiset().insert(e));
                }
                proof {
                    assert(spec_attack_outcome(
                        *self,
                        *target_device,
                        *old(signal_queue),
                        *signal_queue,
                        current_time,
                        delay_multiplier,
                        Result::<(), AttackError>::Ok(()),
                    ));
                }
                Ok(())
            },
            AttackType::MalwareDistribution(malware) => {
                let signal = match self.device.create_signal_for(
                    target_device,
                    Data::Malware(malware),
                    Frequency::Control,
                ) {
                    Ok(signal) => signal,
                    Err(_) => { return Err(AttackError::TargetOutOfRange) },
                };
                let delay_map = IdToDelayMap { entries: vec![(target_device.id(), delay)] };
                proof {
                    assert(delay_map.entries@ =~= seq![(target_device.id, delay)]);
                    assert(delay_map.wf());
                }
                signal_queue.add_entry(current_time, signal, delay_map);
                proof {
                    let d = spec_delay_to(
                        spec_distance(self.device.real_position, target_device.real_position),
                        delay_multiplier as int,
                    ) as u64;
                    assert(delay == d);
                    let sg = spec_attack_signal(
                        self.device,
                        *target_device,
                        Frequency::Control,
                        Data::Malware(malware),
                    );
                    assert(spec_unicast_entry(
                        (current_time, signal, delay_map),
                        current_time,
                        sg->0,
                        target_device.id,
                        d,
                    ));
                    assert(exists|e: SignalQueueEntry|
                        #[trigger] spec_unicast_entry(
                            e,
                            current_time,
                            sg->0,
                            target_device.id,
                            d,
                        ) && signal_queue.entries@.to_multiset() == old(signal_queue).entries@.to_multiset().insert(e));
                }
                proof {
                    assert(spec_attack_outcome(
                        *self,
                        *target_device,
                        *old(signal_queue),
                        *signal_queue,
                        current_time,
                        delay_multiplier,
                        Result::<(), AttackError>::Ok(()),
                    ));
                }
                Ok(())
            },
        }
    }
}

/// The source reaches the destination on the control frequency.
pub open spec fn spec_spread_reaches(source: Device, destination: Device) -> bool {
    spec_tx_level_at(
        source.trx_system.tx_module,
        Frequency::Control,
        spec_distance(source.real_position, destination.real_position),
    ) is Some
}

/// The malware can spread now: it has a spread delay and scheduling it
/// does not overflow the clock.
pub open spec fn spec_spreadable(m: Malware, current_time: Millisecond) -> bool {
    m.spread_delay is Some && m.spread_delay->0 <= u64::MAX - current_time
}

/// The entry that schedules malware `m` from `source` toward
/// `destination`, `spread_delay` ticks after `t`, carried at the level
/// delivered over the distance and delayed by the propagation time.
pub open spec fn spec_spread_entry(
    e: SignalQueueEntry,
    source: Device,
    destination: Device,
    m: Malware,
    t: Millisecond,
    delay_multiplier: u64,
) -> bool {
    let d = spec_distance(source.real_position, destination.real_position);
    &&& spec_spread_reaches(source, destination)
    &&& spec_spreadable(m, t)
    &&& e.0 == t + m.spread_delay->0
    &&& e.1 == (Signal {
        source_id: source.id,
        destination_id: destination.id,
        data: Data::Malware(m),
        frequency: Frequency::Control,
        level: spec_tx_level_at(source.trx_system.tx_module, Frequency::Control, d)->0,
    })
    &&& e.2.entries@ =~= seq![
        (destination.id, spec_delay_to(d, delay_multiplier as int) as u64),
    ]
}

/// How many of the listed malware can spread now.
pub open spec fn spec_spreadable_count(list: Seq<Malware>, current_time: Millisecond) -> int
    decreases list.len(),
{
    if list.len() == 0 {
        0
    } else {
        spec_spreadable_count(list.drop_last(), current_time) + if spec_spreadable(
            list.last(),
            current_time,
        ) {
            1int
        } else {
            0int
        }
    }
}

/// Every malware of the list that can spread is scheduled from
/// `source_device` toward `destination_device`, `spread_delay` ticks from
/// now, provided the destination is reachable on the control frequency:
/// exactly one entry per spreadable malware and nothing else, the old
/// entries kept.  An unreachable destination, and an entry whose
/// activation time would overflow the clock, are skipped.
pub fn add_malware_signals_to_queue(
    source_device: &Device,
    destination_device: &Device,
    malware_list: &Vec<Malware>,
    signal_queue: &mut SignalQueue,
    current_time: Millisecond,
    delay_multiplier: u64,
)
    requires
        source_device.wf(),
        destination_device.wf(),
        old(signal_queue).wf(),
        delay_multiplier <= MAX_DELAY_MULTIPLIER,
    ensures
        final(signal_queue).wf(),
        !spec_spread_reaches(*source_device, *destination_device) ==> *final(signal_queue)
            == *old(signal_queue),
        old(signal_queue).entries@.to_multiset().subset_of(
            final(signal_queue).entries@.to_multiset(),
        ),
        spec_spread_reaches(*source_device, *destination_device) ==> final(signal_queue).entries@.len() == old(signal_queue).entries@.len() + spec_spreadable_count(
            malware_list@,
            current_time,
        ),
        forall|e: SignalQueueEntry|
            #[trigger] final(signal_queue).entries@.contains(e) ==> old(signal_queue).entries@.contains(e) || exists|k: int|
                0 <= k < malware_list@.len() && spec_spread_entry(
                    e,
                    *source_device,
                    *destination_device,
                    #[trigger] malware_list@[k],
                    current_time,
                    delay_multiplier,
                ),
        spec_spread_reaches(*source_device, *destination_device) ==> forall|k: int|
            0 <= k < malware_list@.len() && spec_spreadable(
                #[trigger] malware_list@[k],
                current_time,
            ) ==> exists|e: SignalQueueEntry|
                #[trigger] final(signal_queue).entries@.contains(e) && spec_spread_entry(
                    e,
                    *source_device,
                    *destination_device,
                    malware_list@[k],
                    current_time,
                    delay_multiplier,
                ),
{
    let signal_level = match source_device.tx_signal_level_at(
        destination_device,
        Frequency::Control,
    ) {
        Some(level) => level,
        None => { return },
    };
    let distance = source_device.distance_to(destination_device);
    let delay = delay_to(distance, delay_multiplier);
    let ghost list = malware_list@;
    let mut i: usize = 0;
    proof {
        assert(list.take(0) =~= Seq::<Malware>::empty());
    }
    while i < malware_list.len()
        invariant
            source_device.wf(),
            destination_device.wf(),
            signal_queue.wf(),
            delay_multiplier <= MAX_DELAY_MULTIPLIER,
            list == malware_list@,
            i <= list.len(),
            spec_spread_reaches(*source_device, *destination_device),
            signal_level == spec_tx_level_at(
                source_device.trx_system.tx_module,
                Frequency::Control,
                spec_distance(source_device.real_position, destination_device.real_position),
            )->0,
            signal_level.wf(),
            delay == spec_delay_to(
                spec_distance(source_device.real_position, destination_device.real_position),
                delay_multiplier as int,
            ) as u64,
            old(signal_queue).entries@.to_multiset().subset_of(
                signal_queue.entries@.to_multiset(),
            ),
            signal_queue.entries@.len() == old(signal_queue).entries@.len()
                + spec_spreadable_count(list.take(i as int), current_time),
            forall|e: SignalQueueEntry|
                #[trigger] signal_queue.entries@.contains(e) ==> old(signal_queue).entries@.contains(e) || exists|k: int|
                    0 <= k < list.len() && spec_spread_entry(
                        e,
                        *source_device,
                        *destination_device,
                        #[trigger] list[k],
                        current_time,
                        delay_multiplier,
                    ),
            forall|k: int|
                0 <= k < i && spec_spreadable(#[trigger] list[k], current_time) ==> exists|
                    e: SignalQueueEntry,
                |
                    #[trigger] signal_queue.entries@.contains(e) && spec_spread_entry(
                        e,
                        *source_device,
                        *destination_device,
                        list[k],
                        current_time,
                        delay_multiplier,
                    ),
        decreases list.len() - i,
    {
        let malware = malware_list[i];
        proof {
            assert(list.take(i as int + 1).drop_last() =~= list.take(i as int));
            assert(list.take(i as int + 1).last() == list[i as int]);
        }
        if let Some(spread_delay) = malware.spread_delay() {
            if spread_delay <= u64::MAX - current_time {
                let malware_signal = Signal::new(
                    source_device.id(),
                    destination_device.id(),
                    Data::Malware(malware),
                    Frequency::Control,
                    signal_level,
                );
                let delay_map = IdToDelayMap {
                    entries: vec![(destination_device.id(), delay)],
                };
                proof {
                    assert(delay_map.wf());
                }
                let ghost before = signal_queue.entries@;
                signal_queue.add_entry(current_time + spread_delay, malware_signal, delay_map);
                proof {
                    let entry = ((current_time + spread_delay) as u64, malware_signal, delay_map);
                    before.to_multiset_ensures();
                    signal_queue.entries@.to_multiset_ensures();
                    assert(entry.2.entries@ =~= seq![(destination_device.id, delay)]);
                    assert(spec_spread_entry(
                        entry,
                        *source_device,
                        *destination_device,
                        list[i as int],
                        current_time,
                        delay_multiplier,
                    ));
                    assert forall|e: SignalQueueEntry|
                        #[trigger] signal_queue.entries@.contains(e) implies before.contains(e)
                        || e == entry by {
                        assert(signal_queue.entries@.to_multiset().count(e) > 0);
                        if e != entry {
                            assert(before.to_multiset().count(e) > 0);
                        }
                    }
                    assert(old(signal_queue).entries@.to_multiset().subset_of(
                        signal_queue.entries@.to_multiset(),
                    )) by {
                        assert(before.to_multiset().subset_of(
                            signal_queue.entries@.to_multiset(),
                        ));
                    }
                    assert forall|e: SignalQueueEntry| before.contains(e) implies
                        signal_queue.entries@.contains(e) by {
                        assert(before.to_multiset().count(e) > 0);
                        assert(signal_queue.entries@.to_multiset().count(e) > 0);
                    }
                    assert(signal_queue.entries@.contains(entry)) by {
                        assert(signal_queue.entries@.to_multiset().count(entry) > 0);
                    }
                }
            }
        }
        i = i + 1;
    }
    proof {
        assert(list.take(list.len() as int) =~= list);
    }
}

} // verus!
