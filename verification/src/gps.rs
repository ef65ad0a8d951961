//! The GPS source: a device that sends every network device a fix of its
//! own real position each tick.
use vstd::prelude::*;

use crate::device::Device;
use crate::idmaps::IdToDelayMap;
use crate::idmaps::IdToDeviceMap;
use crate::idmaps::lemma_device_unique_index;
use crate::mathphysics::Frequency;
use crate::mathphysics::MAX_DELAY_MULTIPLIER;
use crate::mathphysics::Millisecond;
use crate::mathphysics::delay_to;
use crate::mathphysics::spec_delay_to;
use crate::mathphysics::spec_distance;
use crate::queue::SignalQueue;
use crate::queue::SignalQueueEntry;
use crate::signal::Data;
use crate::signal::Signal;
use crate::trx::spec_tx_level_at;

verus! {

/// The GPS source reaches the device on the GPS frequency.
pub open spec fn spec_gps_reaches(gps_device: Device, target: Device) -> bool {
    spec_tx_level_at(
        gps_device.trx_system.tx_module,
        Frequency::GPS,
        spec_distance(gps_device.real_position, target.real_position),
    ) is Some
}

/// The entry that schedules the source's position fix for `target` at
/// `t`: the fix carries the target's real position at the level delivered
/// over the distance, delayed by the source-to-target propagation time.
pub open spec fn spec_gps_fix_entry(
    e: SignalQueueEntry,
    gps_device: Device,
    target: Device,
    t: Millisecond,
    delay_multiplier: u64,
) -> bool {
    let d = spec_distance(gps_device.real_position, target.real_position);
    &&& spec_gps_reaches(gps_device, target)
    &&& e.0 == t
    &&& e.1 == (Signal {
        source_id: gps_device.id,
        destination_id: target.id,
        data: Data::GPS(target.real_position),
        frequency: Frequency::GPS,
        level: spec_tx_level_at(gps_device.trx_system.tx_module, Frequency::GPS, d)->0,
    })
    &&& e.2.entries@ =~= seq![
        (target.id, spec_delay_to(d, delay_multiplier as int) as u64),
    ]
}

/// How many of the devices the source reaches on the GPS frequency.
pub open spec fn spec_gps_reach_count(gps_device: Device, devices: Seq<Device>) -> int
    decreases devices.len(),
{
    if devices.len() == 0 {
        0
    } else {
        spec_gps_reach_count(gps_device, devices.drop_last()) + if spec_gps_reaches(
            gps_device,
            devices.last(),
        ) {
            1int
        } else {
            0int
        }
    }
}

/// The GPS source device.
#[derive(Clone, Debug, PartialEq)]
pub struct GPS(pub Device);

impl GPS {
    pub open spec fn wf(self) -> bool {
        self.0.wf()
    }

    pub fn new(device: Device) -> (r: Self)
        requires
            device.wf(),
        ensures
            r == GPS(device),
            r.wf(),
    {
        Self(device)
    }

    pub fn device(&self) -> (r: &Device)
        ensures
            r == &self.0,
    {
        &self.0
    }

    /// Schedules a position fix toward every device the source reaches on
    /// the GPS frequency, with the source-to-device propagation delay:
    /// exactly one entry per reachable device and nothing else, the old
    /// entries kept.
    pub fn add_gps_signals_to_queue(
        &self,
        signal_queue: &mut SignalQueue,
        device_map: &IdToDeviceMap,
        current_time: Millisecond,
        delay_multiplier: u64,
    )
        requires
            self.wf(),
            device_map.wf(),
            old(signal_queue).wf(),
            delay_multiplier <= MAX_DELAY_MULTIPLIER,
        ensures
            final(signal_queue).wf(),
            old(signal_queue).entries@.to_multiset().subset_of(
                final(signal_queue).entries@.to_multiset(),
            ),
            final(signal_queue).entries@.len() == old(signal_queue).entries@.len()
                + spec_gps_reach_count(self.0, device_map.devices@),
            forall|e: SignalQueueEntry|
                #[trigger] final(signal_queue).entries@.contains(e) ==> old(
                    signal_queue,
                ).entries@.contains(e) || exists|k: int|
                    0 <= k < device_map.devices@.len() && spec_gps_fix_entry(
                        e,
                        self.0,
                        #[trigger] device_map.devices@[k],
                        current_time,
                        delay_multiplier,
                    ),
            forall|k: int|
                0 <= k < device_map.devices@.len() && spec_gps_reaches(
                    self.0,
                    #[trigger] device_map.devices@[k],
                ) ==> exists|e: SignalQueueEntry|
                    #[trigger] final(signal_queue).entries@.contains(e) && spec_gps_fix_entry(
                        e,
                        self.0,
                        device_map.devices@[k],
                        current_time,
                        delay_multiplier,
                    ),
    {
        let ghost devs = device_map.devices@;
        let mut i: usize = 0;
        proof {
            assert(devs.take(0) =~= Seq::<Device>::empty());
        }
        while i < device_map.devices.len()
            invariant
                self.wf(),
                device_map.wf(),
                signal_queue.wf(),
                devs == device_map.devices@,
                delay_multiplier <= MAX_DELAY_MULTIPLIER,
                i <= devs.len(),
                old(signal_queue).entries@.to_multiset().subset_of(
                    signal_queue.entries@.to_multiset(),
                ),
                signal_queue.entries@.len() == old(signal_queue).entries@.len()
                    + spec_gps_reach_count(self.0, devs.take(i as int)),
                forall|e: SignalQueueEntry|
                    #[trigger] signal_queue.entries@.contains(e) ==> old(
                        signal_queue,
                    ).entries@.contains(e) || exists|k: int|
                        0 <= k < devs.len() && spec_gps_fix_entry(
                            e,
                            self.0,
                            #[trigger] devs[k],
                            current_time,
                            delay_multiplier,
                        ),
                forall|k: int|
                    0 <= k < i && spec_gps_reaches(self.0, #[trigger] devs[k]) ==> exists|
                        e: SignalQueueEntry,
                    |
                        #[trigger] signal_queue.entries@.contains(e) && spec_gps_fix_entry(
                            e,
                            self.0,
                            devs[k],
                            current_time,
                            delay_multiplier,
                        ),
            decreases devs.len() - i,
        {
            let device = &device_map.devices[i];
            proof {
                lemma_device_unique_index(*device_map, device.id, i as int);
                assert(devs[i as int].wf());
                assert(devs.take(i as int + 1).drop_last() =~= devs.take(i as int));
                assert(devs.take(i as int + 1).last() == devs[i as int]);
            }
            let gps_signal = match self.0.create_signal_for(
                device,
                Data::GPS(*device.position()),
                Frequency::GPS,
            ) {
                Ok(signal) => signal,
                Err(_) => {
                    i = i + 1;
                    continue ;
                },
            };
            let distance = self.0.distance_to(device);
            let delay = delay_to(distance, delay_multiplier);
            let delay_map = IdToDelayMap { entries: vec![(device.id(), delay)] };
            proof {
                assert(delay_map.wf());
            }
            let ghost before = signal_queue.entries@;
            signal_queue.add_entry(current_time, gps_signal, delay_map);
            proof {
                let entry = (current_time, gps_signal, delay_map);
                before.to_multiset_ensures();
                signal_queue.entries@.to_multiset_ensures();
                let d = spec_delay_to(
                    spec_distance(self.0.real_position, devs[i as int].real_position),
                    delay_multiplier as int,
                ) as u64;
                assert(delay == d);
                assert(entry.2.entries@ =~= seq![(devs[i as int].id, d)]);
                assert(spec_gps_fix_entry(
                    entry,
                    self.0,
                    devs[i as int],
                    current_time,
                    delay_multiplier,
                ));
                assert forall|e: SignalQueueEntry|
                    #[trigger] signal_queue.entries@.contains(e) implies before.contains(e) || e
                    == entry by {
                    assert(signal_queue.entries@.to_multiset().count(e) > 0);
                    if e != entry {
                        assert(before.to_multiset().count(e) > 0);
                    }
                }
                assert(old(signal_queue).entries@.to_multiset().subset_of(
                    signal_queue.entries@.to_multiset(),
                )) by {
                    assert(before.to_multiset().subset_of(signal_queue.entries@.to_multiset()));
                }
                assert forall|e: SignalQueueEntry| before.contains(e) implies
                    signal_queue.entries@.contains(e) by {
                    assert(before.to_multiset().count(e) > 0);
                    assert(signal_queue.entries@.to_multiset().count(e) > 0);
                }
                assert(signal_queue.entries@.contains(entry)) by {
                    assert(signal_queue.entries@.to_multiset().count(entry) > 0);
                }
            }
            i = i + 1;
        }
        proof {
            assert(devs.take(devs.len() as int) =~= devs);
        }
    }
}

} // verus!
