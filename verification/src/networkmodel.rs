//! The tick orchestrator: spreads malware, applies attacker effects,
//! delivers due signals, advances every device, rebuilds the connectivity
//! graph, prunes the queue and schedules the next tick's scenario and GPS
//! signals.
use vstd::prelude::*;

use crate::ITERATION_TIME;
use crate::attack::AttackerDevice;
use crate::attack::add_malware_signals_to_queue;
use crate::attack::spec_spread_entry;
use crate::attack::spec_spread_reaches;
use crate::attack::spec_spreadable;
use crate::connections::ConnectionGraph;
use crate::connections::EdgeWeight;
use crate::connections::MAX_GRAPH_NODES;
use crate::connections::Topology;
use crate::connections::edges_list_exact;
use crate::connections::graph_edge_map;
use crate::connections::graph_node_set;
use crate::connections::spec_edge_present;
use crate::connections::spec_endpoint_set;
use crate::device::Device;
use crate::device::DeviceId;
use crate::gps::GPS;
use crate::idmaps::IdToDeviceMap;
use crate::malware::Malware;
use crate::mathphysics::Frequency;
use crate::mathphysics::MAX_DELAY_MULTIPLIER;
use crate::mathphysics::Millisecond;
use crate::queue::SignalQueue;
use crate::queue::SignalQueueEntry;
use crate::mathphysics::spec_distance;
use crate::signal::Signal;
use crate::task::Scenario;
use crate::task::Task;
use crate::task::spec_is_last_task;
use crate::trx::spec_tx_level_at;
use crate::signal::Data;
use crate::task::ScenarioEntry;

verus! {

broadcast use vstd::seq_lib::group_seq_properties;

/// Latest clock value the orchestrator advances from: far beyond any
/// realistic simulation, it keeps every scheduling sum inside `u64`.
pub const TIME_GUARD: u64 = 4_000_000_000_000_000_000;

/// The device occurs in the collection.
pub open spec fn spec_device_from(dm: IdToDeviceMap, d: Device) -> bool {
    exists|w: int| 0 <= w < dm.devices@.len() && dm.devices@[w] == d
}

/// The entry that schedules the command device's order `task` for
/// `target` at `t`: a SetTask signal at the level delivered over the
/// distance, with a well formed delay table.
pub open spec fn spec_scenario_entry(
    e: SignalQueueEntry,
    command: Device,
    target: Device,
    task: crate::task::Task,
    t: Millisecond,
) -> bool {
    let d = spec_distance(command.real_position, target.real_position);
    let level = spec_tx_level_at(command.trx_system.tx_module, Frequency::Control, d);
    &&& level is Some
    &&& e.0 == t
    &&& e.1 == (Signal {
        source_id: command.id,
        destination_id: target.id,
        data: Data::SetTask(task),
        frequency: Frequency::Control,
        level: level->0,
    })
    &&& e.2.wf()
}

/// One receive attempt seen from the device: a signal addressed
/// elsewhere changes nothing; otherwise the receive module took it with
/// some outcome of the capture draw.
pub open spec fn spec_receive_step(d0: Device, d1: Device, s: crate::signal::Signal, t: Millisecond) -> bool {
    if s.destination_id != crate::device::BROADCAST_ID && s.destination_id != d0.id {
        d1 == d0
    } else {
        &&& d1 == (Device {
            trx_system: crate::trx::TRXSystem {
                tx_module: d0.trx_system.tx_module,
                rx_module: d1.trx_system.rx_module,
            },
            ..d0
        })
        &&& exists|captured: bool, res: Result<(), crate::trx::RXError>|
            #[trigger] crate::trx::spec_rx_receive(
                d0.trx_system.rx_module,
                d1.trx_system.rx_module,
                s,
                t,
                captured,
                res,
            )
    }
}

/// The device received the signals in order, each with some outcome of
/// its capture draw.
pub open spec fn spec_receive_seq(
    d0: Device,
    d1: Device,
    sigs: Seq<crate::signal::Signal>,
    t: Millisecond,
) -> bool
    decreases sigs.len(),
{
    if sigs.len() == 0 {
        d1 == d0
    } else {
        exists|mid: Device|
            spec_receive_seq(d0, mid, sigs.drop_last(), t) && #[trigger] spec_receive_step(
                mid,
                d1,
                sigs.last(),
                t,
            )
    }
}

/// One whole tick of a device inside the orchestrator: for some snapshot
/// of the queue between `qlo` and `qhi`, the device received exactly the
/// signals due for it at `t` (each through its capture draw) and then ran
/// its own tick.
pub open spec fn spec_device_ticked(
    d0: Device,
    d1: Device,
    qlo: Seq<SignalQueueEntry>,
    qhi: Seq<SignalQueueEntry>,
    t: Millisecond,
) -> bool {
    exists|qs: Seq<SignalQueueEntry>, received: Device|
        {
            &&& qlo.to_multiset().subset_of(qs.to_multiset())
            &&& qs.to_multiset().subset_of(qhi.to_multiset())
            &&& #[trigger] spec_receive_seq(
                d0,
                received,
                crate::queue::spec_current_signals(qs, d0.id, t as int),
                t,
            )
            &&& d1@ == crate::device::spec_device_update(received@).0
        }
}

/// Receiving only touches the receive buffer: identity, clock, power,
/// position, task and the rest pass through unchanged.
pub proof fn lemma_receive_seq_frame(
    d0: Device,
    d1: Device,
    sigs: Seq<crate::signal::Signal>,
    t: Millisecond,
)
    requires
        spec_receive_seq(d0, d1, sigs, t),
    ensures
        d1.trx_system.tx_module == d0.trx_system.tx_module,
        d1.trx_system.rx_module.max_level_map == d0.trx_system.rx_module.max_level_map,
        d1.current_time == d0.current_time,
        d1.id == d0.id,
        d1.power_system == d0.power_system,
        d1.real_position == d0.real_position,
        d1.task == d0.task,
        d1.movement_system == d0.movement_system,
        d1.security_system == d0.security_system,
        d1.infection_map == d0.infection_map,
        d1.signal_loss_response == d0.signal_loss_response,
    decreases sigs.len(),
{
    if sigs.len() == 0 {
        assert(d1 == d0);
    } else {
        let mid = choose|mid: Device|
            spec_receive_seq(d0, mid, sigs.drop_last(), t) && #[trigger] spec_receive_step(
                mid,
                d1,
                sigs.last(),
                t,
            );
        lemma_receive_seq_frame(d0, mid, sigs.drop_last(), t);
        let s0 = sigs.last();
        if !(s0.destination_id != crate::device::BROADCAST_ID && s0.destination_id != mid.id) {
            let (captured, res) = choose|captured: bool, res: Result<(), crate::trx::RXError>|
                #[trigger] crate::trx::spec_rx_receive(
                    mid.trx_system.rx_module,
                    d1.trx_system.rx_module,
                    s0,
                    t,
                    captured,
                    res,
                );
        }
    }
}

/// Multiset containment chains.
pub proof fn lemma_multiset_subset_trans<T>(
    a: vstd::multiset::Multiset<T>,
    b: vstd::multiset::Multiset<T>,
    c: vstd::multiset::Multiset<T>,
)
    requires
        a.subset_of(b),
        b.subset_of(c),
    ensures
        a.subset_of(c),
{
    assert forall|e: T| #[trigger] a.count(e) <= c.count(e) by {
        assert(a.count(e) <= b.count(e));
        assert(b.count(e) <= c.count(e));
    }
}

/// A wider queue window keeps the tick relation.
pub proof fn lemma_device_ticked_widen(
    d0: Device,
    d1: Device,
    qlo: Seq<SignalQueueEntry>,
    qhi: Seq<SignalQueueEntry>,
    qhi2: Seq<SignalQueueEntry>,
    t: Millisecond,
)
    requires
        spec_device_ticked(d0, d1, qlo, qhi, t),
        qhi.to_multiset().subset_of(qhi2.to_multiset()),
    ensures
        spec_device_ticked(d0, d1, qlo, qhi2, t),
{
    let (qs, received) = choose|qs: Seq<SignalQueueEntry>, received: Device|
        {
            &&& qlo.to_multiset().subset_of(qs.to_multiset())
            &&& qs.to_multiset().subset_of(qhi.to_multiset())
            &&& #[trigger] spec_receive_seq(
                d0,
                received,
                crate::queue::spec_current_signals(qs, d0.id, t as int),
                t,
            )
            &&& d1@ == crate::device::spec_device_update(received@).0
        };
    lemma_multiset_subset_trans(qs.to_multiset(), qhi.to_multiset(), qhi2.to_multiset());
    assert(spec_receive_seq(d0, received, crate::queue::spec_current_signals(qs, d0.id, t as int), t));
}

/// The device phase of one tick, end to end: for some queue window and
/// intermediate device states, every old device took its tick (attacker
/// effects, deliveries and its own update), and the powered survivors,
/// in order, form the new device set.
pub open spec fn spec_tick_devices_outcome(pre: NetworkModel, post: NetworkModel) -> bool {
    exists|mid: Seq<Device>, qmid: Seq<SignalQueueEntry>|
        #![trigger mid.len(), qmid.to_multiset()]
        {
            &&& mid.len() == pre.device_map.devices@.len()
            &&& pre.signal_queue.entries@.to_multiset().subset_of(qmid.to_multiset())
            &&& (forall|k: int|
                0 <= k < mid.len() ==> (#[trigger] mid[k]).id == pre.device_map.devices@[k].id)
            &&& (forall|k: int|
                0 <= k < mid.len() ==> #[trigger] spec_device_ticked(
                    pre.device_map.devices@[k],
                    mid[k],
                    pre.signal_queue.entries@,
                    qmid,
                    pre.current_time,
                ))
            &&& post.device_map.devices@ == spec_active_devices(mid)
        }
}

/// Entries scheduled at a later tick are not yet spent at the earlier
/// one.
pub proof fn lemma_later_entry_not_spent(e: SignalQueueEntry, t0: Millisecond)
    requires
        e.0 > t0,
    ensures
        !crate::queue::spec_entry_spent(e, t0 as int),
{
    crate::idmaps::lemma_max_delay_bounds(e.2.entries@);
}

/// The devices of `s` that still hold power, in their original order.
pub open spec fn spec_active_devices(s: Seq<Device>) -> Seq<Device>
    decreases s.len(),
{
    if s.len() == 0 {
        Seq::empty()
    } else {
        let rest = spec_active_devices(s.drop_last());
        if s.last().power_system.power == 0 {
            rest
        } else {
            rest.push(s.last())
        }
    }
}

/// Every powered device survives the pruning, every survivor holds power,
/// and every survivor comes from the original collection.
pub proof fn lemma_active_devices_sound(s: Seq<Device>)
    ensures
        forall|j: int|
            0 <= j < s.len() && (#[trigger] s[j]).power_system.power != 0
                ==> spec_active_devices(s).contains(s[j]),
        forall|k: int|
            0 <= k < spec_active_devices(s).len() ==> (
            #[trigger] spec_active_devices(s)[k]).power_system.power != 0,
        forall|k: int|
            0 <= k < spec_active_devices(s).len() ==> exists|j: int|
                0 <= j < s.len() && (#[trigger] spec_active_devices(s)[k]) == s[j],
    decreases s.len(),
{
    if s.len() > 0 {
        lemma_active_devices_sound(s.drop_last());
        let rest = spec_active_devices(s.drop_last());
        let full = spec_active_devices(s);
        assert forall|j: int|
            0 <= j < s.len() && (#[trigger] s[j]).power_system.power != 0 implies full.contains(
            s[j],
        ) by {
            if j < s.len() - 1 {
                assert(s.drop_last()[j] == s[j]);
                assert(rest.contains(s[j]));
                let k = choose|k: int| 0 <= k < rest.len() && rest[k] == s[j];
                assert(full[k] == s[j]);
            } else {
                assert(full.last() == s.last());
            }
        }
        assert forall|k: int| 0 <= k < full.len() implies exists|j: int|
            0 <= j < s.len() && (#[trigger] full[k]) == s[j] by {
            if k < rest.len() {
                assert(full[k] == rest[k]);
                let j = choose|j: int|
                    0 <= j < s.drop_last().len() && (#[trigger] rest[k]) == s.drop_last()[j];
                assert(s[j] == s.drop_last()[j]);
            } else {
                assert(full[k] == s[s.len() - 1]);
            }
        }
    }
}

/// Pruning keeps devices in their original relative order, so a
/// collection strictly sorted by identifier stays strictly sorted.
pub proof fn lemma_active_devices_order(s: Seq<Device>, a: int, b: int)
    requires
        forall|i: int, j: int| 0 <= i < j < s.len() ==> (#[trigger] s[i]).id < (#[trigger] s[j]).id,
        0 <= a < b < spec_active_devices(s).len(),
    ensures
        spec_active_devices(s)[a].id < spec_active_devices(s)[b].id,
    decreases s.len(),
{
    let full = spec_active_devices(s);
    let rest = spec_active_devices(s.drop_last());
    lemma_active_devices_sound(s);
    if b < rest.len() {
        assert(forall|i: int, j: int|
            0 <= i < j < s.drop_last().len() ==> (#[trigger] s.drop_last()[i]).id < (
            #[trigger] s.drop_last()[j]).id);
        lemma_active_devices_order(s.drop_last(), a, b);
        assert(full[a] == rest[a] && full[b] == rest[b]);
    } else {
        assert(full[b] == s.last());
        assert(full[a] == rest[a]);
        lemma_active_devices_sound(s.drop_last());
        let w = choose|w: int|
            0 <= w < s.drop_last().len() && (#[trigger] rest[a]) == s.drop_last()[w];
        assert(s[w] == s.drop_last()[w]);
        assert(s[w].id < s[s.len() - 1].id);
    }
}

/// The whole simulated network, advanced one tick at a time.
pub struct NetworkModel {
    pub current_time: Millisecond,
    pub command_device_id: DeviceId,
    pub device_map: IdToDeviceMap,
    pub attacker_devices: Vec<AttackerDevice>,
    pub gps: GPS,
    pub connections: ConnectionGraph,
    pub delay_multiplier: u64,
    pub scenario: Scenario,
    pub signal_queue: SignalQueue,
}

impl NetworkModel {
    /// Every part is well formed and the device set fits the graph.
    pub open spec fn wf_parts(self) -> bool {
        &&& self.device_map.wf()
        &&& self.device_map.devices@.len() <= MAX_GRAPH_NODES
        &&& forall|i: int|
            0 <= i < self.attacker_devices@.len() ==> (#[trigger] self.attacker_devices@[i]).wf()
        &&& self.gps.wf()
        &&& self.connections.wf()
        &&& self.scenario.wf()
        &&& self.signal_queue.wf()
        &&& self.delay_multiplier <= MAX_DELAY_MULTIPLIER
    }

    /// No device clock runs past the given bound.
    pub open spec fn clocks_within(self, bound: int) -> bool {
        &&& forall|i: int|
            0 <= i < self.device_map.devices@.len() ==> (
            #[trigger] self.device_map.devices@[i]).current_time <= bound
        &&& self.gps.0.current_time <= bound
        &&& forall|i: int|
            0 <= i < self.attacker_devices@.len() ==> (
            #[trigger] self.attacker_devices@[i]).device.current_time <= bound
    }

    /// Every part is well formed and no device clock runs ahead of the
    /// model clock.
    pub open spec fn wf(self) -> bool {
        &&& self.wf_parts()
        &&& self.clocks_within(self.current_time as int)
    }

    /// Builds the model and puts it in its initial state: the graph is
    /// derived from the device set and the first GPS and scenario signals
    /// are scheduled.
    pub fn new(
        command_device_id: DeviceId,
        device_map: IdToDeviceMap,
        attacker_devices: Vec<AttackerDevice>,
        gps: GPS,
        scenario: Scenario,
        topology: Topology,
        delay_multiplier: u64,
    ) -> (r: Self)
        requires
            device_map.wf(),
            device_map.devices@.len() <= MAX_GRAPH_NODES,
            forall|i: int|
                0 <= i < attacker_devices@.len() ==> (#[trigger] attacker_devices@[i]).wf()
                    && attacker_devices@[i].device.current_time == 0,
            gps.wf(),
            gps.0.current_time == 0,
            scenario.wf(),
            delay_multiplier <= MAX_DELAY_MULTIPLIER,
            forall|i: int|
                0 <= i < device_map.devices@.len() ==> (
                #[trigger] device_map.devices@[i]).current_time == 0,
        ensures
            r.wf(),
            r.current_time == 0,
            r.command_device_id == command_device_id,
            r.device_map == device_map,
            r.attacker_devices == attacker_devices,
            r.gps == gps,
            r.scenario == scenario,
            r.delay_multiplier == delay_multiplier,
            r.connections.topology == topology,
            forall|a: DeviceId, b: DeviceId|
                #[trigger] graph_edge_map(r.connections.graph).dom().contains((a, b))
                    <==> spec_edge_present(topology, command_device_id, device_map, a, b),
            forall|k: int|
                0 <= k < device_map.devices@.len() && crate::gps::spec_gps_reaches(
                    gps.0,
                    #[trigger] device_map.devices@[k],
                ) ==> exists|e: SignalQueueEntry|
                    #[trigger] r.signal_queue.entries@.contains(e)
                        && crate::gps::spec_gps_fix_entry(
                        e,
                        gps.0,
                        device_map.devices@[k],
                        0,
                        delay_multiplier,
                    ),
            device_map.spec_contains_id(command_device_id) ==> forall|k: int, t: Task|
                {
                    &&& 0 <= k < device_map.devices@.len()
                    &&& device_map.devices@[k].id != command_device_id
                    &&& #[trigger] spec_is_last_task(
                        scenario.entries@,
                        0,
                        device_map.devices@[k].id,
                        t,
                    )
                    &&& spec_tx_level_at(
                        device_map.spec_get(command_device_id)->0.trx_system.tx_module,
                        Frequency::Control,
                        spec_distance(
                            device_map.spec_get(command_device_id)->0.real_position,
                            device_map.devices@[k].real_position,
                        ),
                    ) is Some
                } ==> exists|e: SignalQueueEntry|
                    #[trigger] r.signal_queue.entries@.contains(e) && spec_scenario_entry(
                        e,
                        device_map.spec_get(command_device_id)->0,
                        device_map.devices@[k],
                        t,
                        0,
                    ),
            forall|e: SignalQueueEntry|
                #[trigger] r.signal_queue.entries@.contains(e) ==> (exists|k: int|
                    0 <= k < device_map.devices@.len() && crate::gps::spec_gps_fix_entry(
                        e,
                        gps.0,
                        #[trigger] device_map.devices@[k],
                        0,
                        delay_multiplier,
                    )) || (exists|k: int, t: Task|
                    {
                        &&& 0 <= k < device_map.devices@.len()
                        &&& device_map.devices@[k].id != command_device_id
                        &&& #[trigger] spec_is_last_task(
                            scenario.entries@,
                            0,
                            device_map.devices@[k].id,
                            t,
                        )
                        &&& spec_scenario_entry(
                            e,
                            device_map.spec_get(command_device_id)->0,
                            device_map.devices@[k],
                            t,
                            0,
                        )
                    }),
    {
        let mut network_model = Self {
            current_time: 0,
            command_device_id,
            device_map,
            attacker_devices,
            gps,
            connections: ConnectionGraph::new(topology),
            delay_multiplier,
            scenario,
            signal_queue: SignalQueue::new(),
        };
        network_model.connections.update(command_device_id, &network_model.device_map);
        network_model.gps.add_gps_signals_to_queue(
            &mut network_model.signal_queue,
            &network_model.device_map,
            0,
            network_model.delay_multiplier,
        );
        let ghost after_gps = network_model;
        network_model.add_scenario_signals_to_queue();
        proof {
            assert forall|k: int|
                0 <= k < device_map.devices@.len() && crate::gps::spec_gps_reaches(
                    gps.0,
                    #[trigger] device_map.devices@[k],
                ) implies exists|e: SignalQueueEntry|
                #[trigger] network_model.signal_queue.entries@.contains(e)
                    && crate::gps::spec_gps_fix_entry(
                    e,
                    gps.0,
                    device_map.devices@[k],
                    0,
                    delay_multiplier,
                ) by {
                let e0 = choose|e: SignalQueueEntry|
                    #[trigger] after_gps.signal_queue.entries@.contains(e)
                        && crate::gps::spec_gps_fix_entry(
                        e,
                        gps.0,
                        device_map.devices@[k],
                        0,
                        delay_multiplier,
                    );
                crate::queue::lemma_queue_contains_preserved(
                    after_gps.signal_queue.entries@,
                    network_model.signal_queue.entries@,
                    e0,
                );
            }
        }
        network_model
    }

    pub fn current_time(&self) -> (r: Millisecond)
        ensures
            r == self.current_time,
    {
        self.current_time
    }

    pub fn command_device_id(&self) -> (r: DeviceId)
        ensures
            r == self.command_device_id,
    {
        self.command_device_id
    }

    /// The command device, if it is still in the network.
    pub fn command_device(&self) -> (r: Option<&Device>)
        requires
            self.wf(),
        ensures
            match r {
                Some(d) => self.device_map.spec_get(self.command_device_id) == Some(*d),
                None => self.device_map.spec_get(self.command_device_id) is None,
            },
    {
        self.device_map.get(self.command_device_id)
    }

    pub fn device_map(&self) -> (r: &IdToDeviceMap)
        ensures
            r == &self.device_map,
    {
        &self.device_map
    }

    pub fn attacker_devices(&self) -> (r: &Vec<AttackerDevice>)
        ensures
            r == &self.attacker_devices,
    {
        &self.attacker_devices
    }

    pub fn connections(&self) -> (r: &ConnectionGraph)
        ensures
            r == &self.connections,
    {
        &self.connections
    }

    pub fn signal_queue(&self) -> (r: &SignalQueue)
        ensures
            r == &self.signal_queue,
    {
        &self.signal_queue
    }

    pub fn delay_multiplier(&self) -> (r: u64)
        ensures
            r == self.delay_multiplier,
    {
        self.delay_multiplier
    }

    /// The deterministic spine of one tick: malware spread, the device
    /// phase, removal of powered-off devices, the graph rebuild, queue
    /// pruning and the clock.
    #[verifier::rlimit(100)]
    #[verifier::spinoff_prover]
    fn tick_core(&mut self)
        requires
            old(self).wf(),
            old(self).current_time <= TIME_GUARD,
        ensures
            final(self).wf(),
            final(self).current_time == old(self).current_time + ITERATION_TIME,
            final(self).command_device_id == old(self).command_device_id,
            final(self).delay_multiplier == old(self).delay_multiplier,
            final(self).scenario == old(self).scenario,
            final(self).connections.topology == old(self).connections.topology,
            forall|i: int|
                0 <= i < final(self).device_map.devices@.len() ==> (#[trigger] final(self).device_map.devices@[i]).power_system.power != 0,
            forall|i: int|
                0 <= i < final(self).device_map.devices@.len() ==> old(self).device_map.spec_contains_id(
                    (#[trigger] final(self).device_map.devices@[i]).id,
                ),
            forall|a: DeviceId, b: DeviceId|
                #[trigger] graph_edge_map(final(self).connections.graph).dom().contains((a, b))
                    <==> spec_edge_present(
                    old(self).connections.topology,
                    old(self).command_device_id,
                    final(self).device_map,
                    a,
                    b,
                ),
            spec_tick_devices_outcome(*old(self), *final(self)),
            forall|e: SignalQueueEntry|
                #[trigger] final(self).signal_queue.entries@.contains(e)
                    ==> !crate::queue::spec_entry_spent(e, old(self).current_time as int),
    {
        self.spread_malware();
        self.update_devices();
        let ghost after_ud = *self;
        self.remove_shut_down_devices();
        self.connections.update(self.command_device_id, &self.device_map);
        let ghost t0 = old(self).current_time;
        self.signal_queue.remove_old_signals(self.current_time);
        self.current_time = self.current_time + ITERATION_TIME;
        proof {
            let mid = after_ud.device_map.devices@;
            let qmid = after_ud.signal_queue.entries@;
            assert(mid.len() == old(self).device_map.devices@.len());
            assert(qmid.to_multiset() == after_ud.signal_queue.entries@.to_multiset());
            assert forall|k: int| 0 <= k < mid.len() implies #[trigger] spec_device_ticked(
                old(self).device_map.devices@[k],
                mid[k],
                old(self).signal_queue.entries@,
                qmid,
                t0,
            ) by {
                assert(spec_device_ticked(
                    old(self).device_map.devices@[k],
                    after_ud.device_map.devices@[k],
                    old(self).signal_queue.entries@,
                    after_ud.signal_queue.entries@,
                    t0,
                ));
            }
            assert(self.device_map.devices@ == spec_active_devices(mid));
            assert(spec_tick_devices_outcome(*old(self), *self));
        }
    }

    /// One tick, in order: opportunistic malware spread; attacker,
    /// delivery and device updates; removal of powered-off devices;
    /// graph rebuild; queue pruning; the clock; next-tick scenario and
    /// GPS signals.
    #[verifier::rlimit(100)]
    #[verifier::spinoff_prover]
    pub fn update(&mut self)
        requires
            old(self).wf(),
            old(self).current_time <= TIME_GUARD,
        ensures
            final(self).wf(),
            final(self).current_time == old(self).current_time + ITERATION_TIME,
            final(self).command_device_id == old(self).command_device_id,
            final(self).delay_multiplier == old(self).delay_multiplier,
            final(self).scenario == old(self).scenario,
            final(self).connections.topology == old(self).connections.topology,
            forall|i: int|
                0 <= i < final(self).device_map.devices@.len() ==> (#[trigger] final(self).device_map.devices@[i]).power_system.power != 0,
            forall|i: int|
                0 <= i < final(self).device_map.devices@.len() ==> old(self).device_map.spec_contains_id(
                    (#[trigger] final(self).device_map.devices@[i]).id,
                ),
            forall|a: DeviceId, b: DeviceId|
                #[trigger] graph_edge_map(final(self).connections.graph).dom().contains((a, b))
                    <==> spec_edge_present(
                    old(self).connections.topology,
                    old(self).command_device_id,
                    final(self).device_map,
                    a,
                    b,
                ),
            spec_tick_devices_outcome(*old(self), *final(self)),
            forall|e: SignalQueueEntry|
                #[trigger] final(self).signal_queue.entries@.contains(e)
                    ==> !crate::queue::spec_entry_spent(e, old(self).current_time as int),
            forall|k: int|
                0 <= k < final(self).device_map.devices@.len() && crate::gps::spec_gps_reaches(
                    final(self).gps.0,
                    #[trigger] final(self).device_map.devices@[k],
                ) ==> exists|e: SignalQueueEntry|
                    #[trigger] final(self).signal_queue.entries@.contains(e)
                        && crate::gps::spec_gps_fix_entry(
                        e,
                        final(self).gps.0,
                        final(self).device_map.devices@[k],
                        final(self).current_time,
                        final(self).delay_multiplier,
                    ),
            final(self).device_map.spec_contains_id(old(self).command_device_id) ==> forall|
                k: int,
                t: Task,
            |
                {
                    &&& 0 <= k < final(self).device_map.devices@.len()
                    &&& final(self).device_map.devices@[k].id != old(self).command_device_id
                    &&& #[trigger] spec_is_last_task(
                        old(self).scenario.entries@,
                        final(self).current_time,
                        final(self).device_map.devices@[k].id,
                        t,
                    )
                    &&& spec_tx_level_at(
                        final(self).device_map.spec_get(
                            old(self).command_device_id,
                        )->0.trx_system.tx_module,
                        Frequency::Control,
                        spec_distance(
                            final(self).device_map.spec_get(
                                old(self).command_device_id,
                            )->0.real_position,
                            final(self).device_map.devices@[k].real_position,
                        ),
                    ) is Some
                } ==> exists|e: SignalQueueEntry|
                    #[trigger] final(self).signal_queue.entries@.contains(e)
                        && spec_scenario_entry(
                        e,
                        final(self).device_map.spec_get(old(self).command_device_id)->0,
                        final(self).device_map.devices@[k],
                        t,
                        final(self).current_time,
                    ),
    {
        self.tick_core();
        let ghost after_core = *self;
        let ghost t0 = old(self).current_time;
        self.add_scenario_signals_to_queue();
        let ghost after_scn = *self;
        let gps = &self.gps;
        gps.add_gps_signals_to_queue(
            &mut self.signal_queue,
            &self.device_map,
            self.current_time,
            self.delay_multiplier,
        );
        proof {
            // The device phase carries over unchanged: scheduling touches
            // only the queue, and the tick outcome's queue window is its
            // own witness.
            let (mid, qmid) = choose|mid: Seq<Device>, qmid: Seq<SignalQueueEntry>|
                #![trigger mid.len(), qmid.to_multiset()]
                {
                    &&& mid.len() == old(self).device_map.devices@.len()
                    &&& old(self).signal_queue.entries@.to_multiset().subset_of(
                        qmid.to_multiset(),
                    )
                    &&& (forall|k: int|
                        0 <= k < mid.len() ==> (#[trigger] mid[k]).id == old(self).device_map.devices@[k].id)
                    &&& (forall|k: int|
                        0 <= k < mid.len() ==> #[trigger] spec_device_ticked(
                            old(self).device_map.devices@[k],
                            mid[k],
                            old(self).signal_queue.entries@,
                            qmid,
                            old(self).current_time,
                        ))
                    &&& after_core.device_map.devices@ == spec_active_devices(mid)
                };
            assert(self.device_map.devices@ == spec_active_devices(mid));
            assert(spec_tick_devices_outcome(*old(self), *self));
            // Nothing in the final queue is spent at the old time: the
            // core pruned the spent entries and the new orders activate a
            // tick later.
            assert forall|e: SignalQueueEntry|
                #[trigger] self.signal_queue.entries@.contains(e) implies
                !crate::queue::spec_entry_spent(e, t0 as int) by {
                if after_scn.signal_queue.entries@.contains(e) {
                    if after_core.signal_queue.entries@.contains(e) {
                    } else {
                        assert(e.0 == t0 + ITERATION_TIME);
                        lemma_later_entry_not_spent(e, t0);
                    }
                } else {
                    assert(e.0 == t0 + ITERATION_TIME);
                    lemma_later_entry_not_spent(e, t0);
                }
            }
            assert forall|k: int|
                0 <= k < self.device_map.devices@.len() && crate::gps::spec_gps_reaches(
                    self.gps.0,
                    #[trigger] self.device_map.devices@[k],
                ) implies exists|e: SignalQueueEntry|
                #[trigger] self.signal_queue.entries@.contains(e)
                    && crate::gps::spec_gps_fix_entry(
                    e,
                    self.gps.0,
                    self.device_map.devices@[k],
                    self.current_time,
                    self.delay_multiplier,
                ) by {
                assert(crate::gps::spec_gps_reaches(
                    after_scn.gps.0,
                    after_scn.device_map.devices@[k],
                ));
                let e0 = choose|e: SignalQueueEntry|
                    #[trigger] self.signal_queue.entries@.contains(e)
                        && crate::gps::spec_gps_fix_entry(
                        e,
                        after_scn.gps.0,
                        after_scn.device_map.devices@[k],
                        after_scn.current_time,
                        after_scn.delay_multiplier,
                    );
                assert(self.signal_queue.entries@.contains(e0));
                assert(crate::gps::spec_gps_fix_entry(
                    e0,
                    self.gps.0,
                    self.device_map.devices@[k],
                    self.current_time,
                    self.delay_multiplier,
                ));
            }
            // Scenario orders survive the GPS additions.
            if self.device_map.spec_contains_id(old(self).command_device_id) {
                assert forall|k: int, t: Task|
                    {
                        &&& 0 <= k < self.device_map.devices@.len()
                        &&& self.device_map.devices@[k].id != old(self).command_device_id
                        &&& #[trigger] spec_is_last_task(
                            old(self).scenario.entries@,
                            self.current_time,
                            self.device_map.devices@[k].id,
                            t,
                        )
                        &&& spec_tx_level_at(
                            self.device_map.spec_get(
                                old(self).command_device_id,
                            )->0.trx_system.tx_module,
                            Frequency::Control,
                            spec_distance(
                                self.device_map.spec_get(
                                    old(self).command_device_id,
                                )->0.real_position,
                                self.device_map.devices@[k].real_position,
                            ),
                        ) is Some
                    } implies exists|e: SignalQueueEntry|
                    #[trigger] self.signal_queue.entries@.contains(e) && spec_scenario_entry(
                        e,
                        self.device_map.spec_get(old(self).command_device_id)->0,
                        self.device_map.devices@[k],
                        t,
                        self.current_time,
                    ) by {
                    assert(spec_is_last_task(
                        after_scn.scenario.entries@,
                        after_scn.current_time,
                        after_scn.device_map.devices@[k].id,
                        t,
                    ));
                    let e0 = choose|e: SignalQueueEntry|
                        #[trigger] after_scn.signal_queue.entries@.contains(e)
                            && spec_scenario_entry(
                            e,
                            after_scn.device_map.spec_get(after_scn.command_device_id)->0,
                            after_scn.device_map.devices@[k],
                            t,
                            after_scn.current_time,
                        );
                    crate::queue::lemma_queue_contains_preserved(
                        after_scn.signal_queue.entries@,
                        self.signal_queue.entries@,
                        e0,
                    );
                }
            }
        }
    }

    /// Every infected device probes every other device and schedules its
    /// spreadable malware toward the reachable ones: for each ordered
    /// pair of distinct devices and each spreadable malware of the
    /// source, one entry when the source reaches the destination, and
    /// nothing else; the old entries kept.
    #[verifier::rlimit(100)]
    fn spread_malware(&mut self)
        requires
            old(self).wf_parts(),
        ensures
            final(self).wf_parts(),
            *final(self) == (NetworkModel { signal_queue: final(self).signal_queue, ..*old(self) }),
            old(self).signal_queue.entries@.to_multiset().subset_of(
                final(self).signal_queue.entries@.to_multiset(),
            ),
            forall|e: SignalQueueEntry|
                #[trigger] final(self).signal_queue.entries@.contains(e) ==> old(
                    self,
                ).signal_queue.entries@.contains(e) || exists|i: int, j: int, k: int|
                    {
                        &&& 0 <= i < old(self).device_map.devices@.len()
                        &&& 0 <= j < old(self).device_map.devices@.len()
                        &&& i != j
                        &&& 0 <= k < old(self).device_map.devices@[i].infection_map.entries@.len()
                        &&& #[trigger] spec_spread_entry(
                            e,
                            old(self).device_map.devices@[i],
                            old(self).device_map.devices@[j],
                            old(self).device_map.devices@[i].infection_map.entries@[k].0,
                            old(self).current_time,
                            old(self).delay_multiplier,
                        )
                    },
            forall|i: int, j: int, k: int|
                {
                    &&& 0 <= i < old(self).device_map.devices@.len()
                    &&& 0 <= j < old(self).device_map.devices@.len()
                    &&& i != j
                    &&& 0 <= k < old(self).device_map.devices@[i].infection_map.entries@.len()
                    &&& #[trigger] spec_spread_reaches(
                        old(self).device_map.devices@[i],
                        old(self).device_map.devices@[j],
                    )
                    &&& spec_spreadable(
                        (#[trigger] old(self).device_map.devices@[i].infection_map.entries@[k]).0,
                        old(self).current_time,
                    )
                } ==> exists|e: SignalQueueEntry|
                    #[trigger] final(self).signal_queue.entries@.contains(e)
                        && spec_spread_entry(
                        e,
                        old(self).device_map.devices@[i],
                        old(self).device_map.devices@[j],
                        old(self).device_map.devices@[i].infection_map.entries@[k].0,
                        old(self).current_time,
                        old(self).delay_multiplier,
                    ),
    {
        let ghost devs = self.device_map.devices@;
        let n = self.device_map.devices.len();
        let mut i: usize = 0;
        while i < n
            invariant
                self.wf_parts(),
                n == devs.len(),
                devs == self.device_map.devices@,
                i <= n,
                *self == (NetworkModel { signal_queue: self.signal_queue, ..*old(self) }),
                old(self).signal_queue.entries@.to_multiset().subset_of(
                    self.signal_queue.entries@.to_multiset(),
                ),
                forall|e: SignalQueueEntry|
                    #[trigger] self.signal_queue.entries@.contains(e) ==> old(
                        self,
                    ).signal_queue.entries@.contains(e) || exists|i2: int, j2: int, k2: int|
                        {
                            &&& 0 <= i2 < devs.len()
                            &&& 0 <= j2 < devs.len()
                            &&& i2 != j2
                            &&& 0 <= k2 < devs[i2].infection_map.entries@.len()
                            &&& #[trigger] spec_spread_entry(
                                e,
                                devs[i2],
                                devs[j2],
                                devs[i2].infection_map.entries@[k2].0,
                                self.current_time,
                                self.delay_multiplier,
                            )
                        },
                forall|i2: int, j2: int, k2: int|
                    {
                        &&& 0 <= i2 < i
                        &&& 0 <= j2 < devs.len()
                        &&& i2 != j2
                        &&& 0 <= k2 < devs[i2].infection_map.entries@.len()
                        &&& #[trigger] spec_spread_reaches(devs[i2], devs[j2])
                        &&& spec_spreadable(
                            (#[trigger] devs[i2].infection_map.entries@[k2]).0,
                            self.current_time,
                        )
                    } ==> exists|e: SignalQueueEntry|
                        #[trigger] self.signal_queue.entries@.contains(e) && spec_spread_entry(
                            e,
                            devs[i2],
                            devs[j2],
                            devs[i2].infection_map.entries@[k2].0,
                            self.current_time,
                            self.delay_multiplier,
                        ),
            decreases n - i,
        {
            let malware_list = self.collect_infections(i);
            if malware_list.len() > 0 {
                let mut j: usize = 0;
                while j < n
                    invariant
                        self.wf_parts(),
                        n == devs.len(),
                        devs == self.device_map.devices@,
                        i < n,
                        j <= n,
                        malware_list@.len() == devs[i as int].infection_map.entries@.len(),
                        forall|k2: int|
                            0 <= k2 < malware_list@.len() ==> (#[trigger] malware_list@[k2])
                                == devs[i as int].infection_map.entries@[k2].0,
                        *self == (NetworkModel {
                            signal_queue: self.signal_queue,
                            ..*old(self)
                        }),
                        old(self).signal_queue.entries@.to_multiset().subset_of(
                            self.signal_queue.entries@.to_multiset(),
                        ),
                        forall|e: SignalQueueEntry|
                            #[trigger] self.signal_queue.entries@.contains(e) ==> old(
                                self,
                            ).signal_queue.entries@.contains(e) || exists|
                                i2: int,
                                j2: int,
                                k2: int,
                            |
                                {
                                    &&& 0 <= i2 < devs.len()
                                    &&& 0 <= j2 < devs.len()
                                    &&& i2 != j2
                                    &&& 0 <= k2 < devs[i2].infection_map.entries@.len()
                                    &&& #[trigger] spec_spread_entry(
                                        e,
                                        devs[i2],
                                        devs[j2],
                                        devs[i2].infection_map.entries@[k2].0,
                                        self.current_time,
                                        self.delay_multiplier,
                                    )
                                },
                        forall|i2: int, j2: int, k2: int|
                            {
                                &&& 0 <= i2 < devs.len()
                                &&& 0 <= j2 < devs.len()
                                &&& (i2 < i as int || (i2 == i as int && j2 < j as int))
                                &&& i2 != j2
                                &&& 0 <= k2 < devs[i2].infection_map.entries@.len()
                                &&& #[trigger] spec_spread_reaches(devs[i2], devs[j2])
                                &&& spec_spreadable(
                                    (#[trigger] devs[i2].infection_map.entries@[k2]).0,
                                    self.current_time,
                                )
                            } ==> exists|e: SignalQueueEntry|
                                #[trigger] self.signal_queue.entries@.contains(e)
                                    && spec_spread_entry(
                                    e,
                                    devs[i2],
                                    devs[j2],
                                    devs[i2].infection_map.entries@[k2].0,
                                    self.current_time,
                                    self.delay_multiplier,
                                ),
                    decreases n - j,
                {
                    if j != i {
                        proof {
                            assert(devs[i as int].wf());
                            assert(devs[j as int].wf());
                        }
                        let ghost qbefore = self.signal_queue.entries@;
                        let source = &self.device_map.devices[i];
                        let destination = &self.device_map.devices[j];
                        add_malware_signals_to_queue(
                            source,
                            destination,
                            &malware_list,
                            &mut self.signal_queue,
                            self.current_time,
                            self.delay_multiplier,
                        );
                        proof {
                            assert forall|i2: int, j2: int, k2: int|
                                {
                                    &&& 0 <= i2 < devs.len()
                                    &&& 0 <= j2 < devs.len()
                                    &&& (i2 < i as int || (i2 == i as int && j2 <= j as int))
                                    &&& i2 != j2
                                    &&& 0 <= k2 < devs[i2].infection_map.entries@.len()
                                    &&& #[trigger] spec_spread_reaches(devs[i2], devs[j2])
                                    &&& spec_spreadable(
                                        (#[trigger] devs[i2].infection_map.entries@[k2]).0,
                                        self.current_time,
                                    )
                                } implies exists|e: SignalQueueEntry|
                                #[trigger] self.signal_queue.entries@.contains(e)
                                    && spec_spread_entry(
                                    e,
                                    devs[i2],
                                    devs[j2],
                                    devs[i2].infection_map.entries@[k2].0,
                                    self.current_time,
                                    self.delay_multiplier,
                                ) by {
                                if i2 == i as int && j2 == j as int {
                                    assert(malware_list@[k2]
                                        == devs[i as int].infection_map.entries@[k2].0);
                                    assert(spec_spreadable(malware_list@[k2], self.current_time));
                                } else {
                                    let e0 = choose|e: SignalQueueEntry|
                                        #[trigger] qbefore.contains(e) && spec_spread_entry(
                                            e,
                                            devs[i2],
                                            devs[j2],
                                            devs[i2].infection_map.entries@[k2].0,
                                            self.current_time,
                                            self.delay_multiplier,
                                        );
                                    crate::queue::lemma_queue_contains_preserved(
                                        qbefore,
                                        self.signal_queue.entries@,
                                        e0,
                                    );
                                }
                            }
                        }
                    }
                    j = j + 1;
                }
            } else {
                proof {
                    assert forall|i2: int, j2: int, k2: int|
                        {
                            &&& 0 <= i2 < devs.len()
                            &&& 0 <= j2 < devs.len()
                            &&& (i2 <= i as int)
                            &&& i2 != j2
                            &&& 0 <= k2 < devs[i2].infection_map.entries@.len()
                            &&& #[trigger] spec_spread_reaches(devs[i2], devs[j2])
                            &&& spec_spreadable(
                                (#[trigger] devs[i2].infection_map.entries@[k2]).0,
                                self.current_time,
                            )
                        } implies exists|e: SignalQueueEntry|
                        #[trigger] self.signal_queue.entries@.contains(e) && spec_spread_entry(
                            e,
                            devs[i2],
                            devs[j2],
                            devs[i2].infection_map.entries@[k2].0,
                            self.current_time,
                            self.delay_multiplier,
                        ) by {
                        if i2 == i as int {
                            assert(devs[i as int].infection_map.entries@.len() == 0);
                        }
                    }
                }
            }
            i = i + 1;
        }
    }

    /// The malware the device at this index is infected with, in
    /// infection order.
    fn collect_infections(&self, i: usize) -> (r: Vec<Malware>)
        requires
            i < self.device_map.devices@.len(),
        ensures
            r@.len() == self.device_map.devices@[i as int].infection_map.entries@.len(),
            forall|k: int|
                0 <= k < r@.len() ==> (#[trigger] r@[k])
                    == self.device_map.devices@[i as int].infection_map.entries@[k].0,
    {
        let device = &self.device_map.devices[i];
        let mut malware_list: Vec<Malware> = Vec::new();
        let mut k: usize = 0;
        while k < device.infection_map.entries.len()
            invariant
                k <= device.infection_map.entries@.len(),
                malware_list@.len() == k,
                forall|w: int|
                    0 <= w < k ==> (#[trigger] malware_list@[w])
                        == device.infection_map.entries@[w].0,
            decreases device.infection_map.entries@.len() - k,
        {
            malware_list.push(device.infection_map.entries[k].0);
            k = k + 1;
        }
        malware_list
    }

    /// Advances attackers, the GPS source and every device: each device
    /// takes the attacker effects, receives every signal due for it this
    /// tick (each through its capture draw) and runs its own tick, so a
    /// surviving device either carries the advanced clock or is drained.
    #[verifier::rlimit(100)]
    fn update_devices(&mut self)
        requires
            old(self).wf(),
            old(self).current_time <= TIME_GUARD,
        ensures
            final(self).wf_parts(),
            final(self).clocks_within(old(self).current_time + ITERATION_TIME),
            final(self).current_time == old(self).current_time,
            final(self).command_device_id == old(self).command_device_id,
            final(self).delay_multiplier == old(self).delay_multiplier,
            final(self).scenario == old(self).scenario,
            final(self).connections == old(self).connections,
            final(self).device_map.devices@.len() == old(self).device_map.devices@.len(),
            forall|i: int|
                0 <= i < final(self).device_map.devices@.len() ==> (#[trigger] final(self).device_map.devices@[i]).id == old(self).device_map.devices@[i].id,
            old(self).signal_queue.entries@.to_multiset().subset_of(
                final(self).signal_queue.entries@.to_multiset(),
            ),
            forall|i: int|
                0 <= i < final(self).device_map.devices@.len() ==> spec_device_ticked(
                    old(self).device_map.devices@[i],
                    #[trigger] final(self).device_map.devices@[i],
                    old(self).signal_queue.entries@,
                    final(self).signal_queue.entries@,
                    old(self).current_time,
                ),
            forall|i: int|
                0 <= i < final(self).device_map.devices@.len() ==> (#[trigger] final(self).device_map.devices@[i]).current_time == old(self).device_map.devices@[i].current_time
                    + ITERATION_TIME || final(self).device_map.devices@[i].power_system.power
                    == 0,
    {
        let mut a: usize = 0;
        while a < self.attacker_devices.len()
            invariant
                self.wf_parts(),
                self.current_time == old(self).current_time,
                self.current_time <= TIME_GUARD,
                a <= self.attacker_devices@.len(),
                *self == (NetworkModel {
                    attacker_devices: self.attacker_devices,
                    ..*old(self)
                }),
                self.attacker_devices@.len() == old(self).attacker_devices@.len(),
                forall|k: int|
                    0 <= k < a ==> (#[trigger] self.attacker_devices@[k]).device.current_time
                        <= self.current_time + ITERATION_TIME,
                forall|k: int|
                    a <= k < self.attacker_devices@.len() ==> (
                    #[trigger] self.attacker_devices@[k]).device.current_time
                        <= self.current_time,
            decreases self.attacker_devices@.len() - a,
        {
            let mut attacker = self.attacker_devices.remove(a);
            proof {
                crate::device::lemma_update_clock(attacker.device@);
            }
            let _ = attacker.device.update();
            self.attacker_devices.insert(a, attacker);
            a = a + 1;
        }
        proof {
            crate::device::lemma_update_clock(self.gps.0@);
        }
        let _ = self.gps.0.update();
        let ghost oldq = old(self).signal_queue.entries@;
        let ghost t0 = old(self).current_time;
        let n = self.device_map.devices.len();
        let mut i: usize = 0;
        while i < n
            invariant
                self.wf_parts(),
                self.current_time <= TIME_GUARD,
                n == self.device_map.devices@.len(),
                n == old(self).device_map.devices@.len(),
                i <= n,
                oldq == old(self).signal_queue.entries@,
                t0 == old(self).current_time,
                self.current_time == old(self).current_time,
                self.command_device_id == old(self).command_device_id,
                self.delay_multiplier == old(self).delay_multiplier,
                self.scenario == old(self).scenario,
                self.connections == old(self).connections,
                self.gps.0.current_time <= self.current_time + ITERATION_TIME,
                oldq.to_multiset().subset_of(self.signal_queue.entries@.to_multiset()),
                forall|k: int|
                    0 <= k < self.attacker_devices@.len() ==> (
                    #[trigger] self.attacker_devices@[k]).device.current_time
                        <= self.current_time + ITERATION_TIME,
                forall|k: int|
                    0 <= k < i ==> (#[trigger] self.device_map.devices@[k]).current_time
                        <= self.current_time + ITERATION_TIME,
                forall|k: int|
                    i as int <= k < n as int ==> (
                    #[trigger] self.device_map.devices@[k]).current_time <= self.current_time,
                forall|k: int|
                    i as int <= k < n as int ==> (#[trigger] self.device_map.devices@[k]) == old(self).device_map.devices@[k],
                forall|k: int|
                    0 <= k < n as int ==> (#[trigger] self.device_map.devices@[k]).id == old(self).device_map.devices@[k].id,
                forall|k: int|
                    0 <= k < i ==> spec_device_ticked(
                        old(self).device_map.devices@[k],
                        #[trigger] self.device_map.devices@[k],
                        oldq,
                        self.signal_queue.entries@,
                        t0,
                    ),
                forall|k: int|
                    0 <= k < i ==> (#[trigger] self.device_map.devices@[k]).current_time == old(self).device_map.devices@[k].current_time + ITERATION_TIME
                        || self.device_map.devices@[k].power_system.power == 0,
            decreases n - i,
        {
            let ghost before = self.device_map.devices@;
            let ghost qiter = self.signal_queue.entries@;
            let mut device = self.device_map.devices.remove(i);
            let ghost before_model = *self;
            proof {
                assert(device == before[i as int]);
                assert(device == old(self).device_map.devices@[i as int]);
                assert(device.wf());
            }
            let mut a2: usize = 0;
            while a2 < self.attacker_devices.len()
                invariant
                    device.wf(),
                    device == before[i as int],
                    device.current_time <= self.current_time,
                    self.signal_queue.wf(),
                    a2 <= self.attacker_devices@.len(),
                    forall|k: int|
                        0 <= k < self.attacker_devices@.len() ==> (
                        #[trigger] self.attacker_devices@[k]).wf(),
                    self.delay_multiplier <= MAX_DELAY_MULTIPLIER,
                    *self == (NetworkModel { signal_queue: self.signal_queue, ..before_model }),
                    qiter.to_multiset().subset_of(self.signal_queue.entries@.to_multiset()),
                decreases self.attacker_devices@.len() - a2,
            {
                let ghost qprev = self.signal_queue.entries@;
                let attacker = &self.attacker_devices[a2];
                let _ = attacker.execute_attack(
                    &device,
                    &mut self.signal_queue,
                    self.current_time,
                    self.delay_multiplier,
                );
                proof {
                    lemma_multiset_subset_trans(
                        qiter.to_multiset(),
                        qprev.to_multiset(),
                        self.signal_queue.entries@.to_multiset(),
                    );
                }
                a2 = a2 + 1;
            }
            let ghost qsnap = self.signal_queue.entries@;
            let signals = self.signal_queue.get_current_signals_for(
                device.id(),
                self.current_time,
            );
            let ghost d_start = device;
            proof {
                assert(signals@ == crate::queue::spec_current_signals(
                    qsnap,
                    d_start.id,
                    t0 as int,
                ));
                assert(signals@.take(0) =~= Seq::<crate::signal::Signal>::empty());
            }
            let mut s: usize = 0;
            while s < signals.len()
                invariant
                    device.wf(),
                    device.current_time <= self.current_time,
                    self.current_time == t0,
                    s <= signals@.len(),
                    forall|k: int| 0 <= k < signals@.len() ==> (#[trigger] signals@[k]).wf(),
                    spec_receive_seq(d_start, device, signals@.take(s as int), t0),
                decreases signals@.len() - s,
            {
                let ghost prev_device = device;
                let _ = device.receive_signal(signals[s], self.current_time);
                proof {
                    assert(signals@.take(s as int + 1).drop_last() =~= signals@.take(s as int));
                    assert(signals@.take(s as int + 1).last() == signals@[s as int]);
                    let sig = signals@[s as int];
                    if sig.destination_id != crate::device::BROADCAST_ID && sig.destination_id
                        != prev_device.id {
                        assert(device == prev_device);
                    } else {
                        assert(device.trx_system == crate::trx::TRXSystem {
                            tx_module: prev_device.trx_system.tx_module,
                            rx_module: device.trx_system.rx_module,
                        });
                        let (captured, rx_result) = choose|
                            captured: bool,
                            rx_result: Result<(), crate::trx::RXError>,
                        |
                            #[trigger] crate::trx::spec_rx_receive(
                                prev_device.trx_system.rx_module,
                                device.trx_system.rx_module,
                                sig,
                                t0,
                                captured,
                                rx_result,
                            );
                        assert(crate::trx::spec_rx_receive(
                            prev_device.trx_system.rx_module,
                            device.trx_system.rx_module,
                            sig,
                            t0,
                            captured,
                            rx_result,
                        ));
                    }
                    assert(spec_receive_step(prev_device, device, sig, t0));
                    assert(spec_receive_seq(d_start, device, signals@.take(s as int + 1), t0));
                }
                s = s + 1;
            }
            proof {
                assert(signals@.take(signals@.len() as int) =~= signals@);
                assert(spec_receive_seq(d_start, device, signals@, t0));
                lemma_receive_seq_frame(d_start, device, signals@, t0);
                crate::device::lemma_update_clock(device@);
                crate::device::lemma_update_dichotomy(device@);
            }
            let ghost received = device;
            let _ = device.update();
            self.device_map.devices.insert(i, device);
            proof {
                assert(self.device_map.devices@ =~= before.update(i as int, device));
                assert(device@ == crate::device::spec_device_update(received@).0);
                lemma_multiset_subset_trans(
                    oldq.to_multiset(),
                    qiter.to_multiset(),
                    qsnap.to_multiset(),
                );
                assert(spec_device_ticked(
                    old(self).device_map.devices@[i as int],
                    self.device_map.devices@[i as int],
                    oldq,
                    self.signal_queue.entries@,
                    t0,
                )) by {
                    assert(d_start == old(self).device_map.devices@[i as int]);
                    assert(oldq.to_multiset().subset_of(qsnap.to_multiset()));
                    assert(qsnap.to_multiset().subset_of(self.signal_queue.entries@.to_multiset()));
                    assert(spec_receive_seq(
                        d_start,
                        received,
                        crate::queue::spec_current_signals(qsnap, d_start.id, t0 as int),
                        t0,
                    ));
                }
                assert forall|k: int| 0 <= k < i + 1 implies spec_device_ticked(
                    old(self).device_map.devices@[k],
                    #[trigger] self.device_map.devices@[k],
                    oldq,
                    self.signal_queue.entries@,
                    t0,
                ) by {
                    if k < i as int {
                        assert(self.device_map.devices@[k] == before[k]);
                        lemma_device_ticked_widen(
                            old(self).device_map.devices@[k],
                            before[k],
                            oldq,
                            qiter,
                            self.signal_queue.entries@,
                            t0,
                        );
                    }
                }
                lemma_multiset_subset_trans(
                    oldq.to_multiset(),
                    qiter.to_multiset(),
                    self.signal_queue.entries@.to_multiset(),
                );
            }
            i = i + 1;
        }
    }

    /// Removes every powered-off device from the active set: the final
    /// collection is exactly the powered devices of the old one, in their
    /// original order.
    fn remove_shut_down_devices(&mut self)
        requires
            old(self).wf_parts(),
        ensures
            final(self).wf_parts(),
            *final(self) == (NetworkModel { device_map: final(self).device_map, ..*old(self) }),
            final(self).device_map.devices@ == spec_active_devices(old(self).device_map.devices@),
            final(self).device_map.devices@.len() <= old(self).device_map.devices@.len(),
            forall|i: int|
                0 <= i < final(self).device_map.devices@.len() ==> (#[trigger] final(self).device_map.devices@[i]).power_system.power != 0,
            forall|i: int|
                0 <= i < final(self).device_map.devices@.len() ==> spec_device_from(
                    old(self).device_map,
                    #[trigger] final(self).device_map.devices@[i],
                ),
            forall|i: int|
                0 <= i < final(self).device_map.devices@.len() ==> old(self).device_map.spec_contains_id(
                    (#[trigger] final(self).device_map.devices@[i]).id,
                ),
    {
        let ghost s = self.device_map.devices@;
        let mut i: usize = 0;
        let ghost j: int = 0;
        proof {
            assert(s.take(0) =~= Seq::<Device>::empty());
            assert(spec_active_devices(s.take(0)) + s.skip(0) =~= s);
        }
        while i < self.device_map.devices.len()
            invariant
                old(self).wf_parts(),
                s == old(self).device_map.devices@,
                *self == (NetworkModel { device_map: self.device_map, ..*old(self) }),
                0 <= j <= s.len(),
                i as int <= j,
                i as int == spec_active_devices(s.take(j)).len(),
                self.device_map.devices@ == spec_active_devices(s.take(j)) + s.skip(j),
                i <= self.device_map.devices@.len(),
            decreases s.len() - j,
        {
            proof {
                assert(s.skip(j).len() > 0);
                assert(self.device_map.devices@[i as int] == s.skip(j)[0]);
                assert(s.skip(j)[0] == s[j]);
                assert(s.take(j + 1).drop_last() =~= s.take(j));
                assert(s.take(j + 1).last() == s[j]);
            }
            let ghost active_before = spec_active_devices(s.take(j));
            let shut_down = self.device_map.devices[i].power_system.power == 0;
            if shut_down {
                self.device_map.devices.remove(i);
                proof {
                    assert(self.device_map.devices@ =~= active_before + s.skip(j + 1));
                }
            } else {
                i = i + 1;
                proof {
                    assert(self.device_map.devices@ =~= (active_before.push(s[j])) + s.skip(
                        j + 1,
                    ));
                }
            }
            proof {
                j = j + 1;
            }
        }
        proof {
            assert(j == s.len());
            assert(s.take(s.len() as int) =~= s);
            assert(s.skip(s.len() as int) =~= Seq::<Device>::empty());
            assert(self.device_map.devices@ =~= spec_active_devices(s));
            lemma_active_devices_sound(s);
            let live = spec_active_devices(s);
            assert forall|a: int, b: int| 0 <= a < b < live.len() implies (#[trigger] live[a]).id
                < (#[trigger] live[b]).id by {
                lemma_active_devices_order(s, a, b);
            }
            assert forall|k: int| 0 <= k < live.len() implies (#[trigger] live[k]).wf() by {
                let w = choose|w: int| 0 <= w < s.len() && (#[trigger] live[k]) == s[w];
            }
            assert forall|k: int| 0 <= k < live.len() implies old(self).device_map.spec_contains_id(
                (#[trigger] live[k]).id,
            ) by {
                let w = choose|w: int| 0 <= w < s.len() && (#[trigger] live[k]) == s[w];
                assert(old(self).device_map.devices@[w].id == live[k].id);
            }
        }
    }

    /// Schedules the most recent scripted task for every non-command
    /// device the command device can reach, with per-destination delays
    /// from the connectivity graph: exactly one order per eligible device
    /// and nothing else, the old entries kept.
    #[verifier::rlimit(100)]
    fn add_scenario_signals_to_queue(&mut self)
        requires
            old(self).wf_parts(),
        ensures
            final(self).wf_parts(),
            *final(self) == (NetworkModel { signal_queue: final(self).signal_queue, ..*old(self) }),
            !old(self).device_map.spec_contains_id(old(self).command_device_id) ==> *final(self)
                == *old(self),
            old(self).signal_queue.entries@.to_multiset().subset_of(
                final(self).signal_queue.entries@.to_multiset(),
            ),
            forall|e: SignalQueueEntry|
                #[trigger] final(self).signal_queue.entries@.contains(e) ==> old(
                    self,
                ).signal_queue.entries@.contains(e) || exists|k: int, t: Task|
                    {
                        &&& 0 <= k < old(self).device_map.devices@.len()
                        &&& old(self).device_map.devices@[k].id != old(self).command_device_id
                        &&& #[trigger] spec_is_last_task(
                            old(self).scenario.entries@,
                            old(self).current_time,
                            old(self).device_map.devices@[k].id,
                            t,
                        )
                        &&& spec_scenario_entry(
                            e,
                            old(self).device_map.spec_get(old(self).command_device_id)->0,
                            old(self).device_map.devices@[k],
                            t,
                            old(self).current_time,
                        )
                    },
            old(self).device_map.spec_contains_id(old(self).command_device_id) ==> forall|
                k: int,
                t: Task,
            |
                {
                    &&& 0 <= k < old(self).device_map.devices@.len()
                    &&& old(self).device_map.devices@[k].id != old(self).command_device_id
                    &&& #[trigger] spec_is_last_task(
                        old(self).scenario.entries@,
                        old(self).current_time,
                        old(self).device_map.devices@[k].id,
                        t,
                    )
                    &&& spec_tx_level_at(
                        old(self).device_map.spec_get(
                            old(self).command_device_id,
                        )->0.trx_system.tx_module,
                        Frequency::Control,
                        spec_distance(
                            old(self).device_map.spec_get(
                                old(self).command_device_id,
                            )->0.real_position,
                            old(self).device_map.devices@[k].real_position,
                        ),
                    ) is Some
                } ==> exists|e: SignalQueueEntry|
                    #[trigger] final(self).signal_queue.entries@.contains(e)
                        && spec_scenario_entry(
                        e,
                        old(self).device_map.spec_get(old(self).command_device_id)->0,
                        old(self).device_map.devices@[k],
                        t,
                        old(self).current_time,
                    ),
    {
        let command_index = match self.device_map.index_of(self.command_device_id) {
            Some(k) => k,
            None => { return },
        };
        proof {
            crate::idmaps::lemma_device_unique_index(
                self.device_map,
                self.command_device_id,
                command_index as int,
            );
        }
        let ghost cmd = self.device_map.devices@[command_index as int];
        let ghost devs = self.device_map.devices@;
        let n = self.device_map.devices.len();
        let mut i: usize = 0;
        while i < n
            invariant
                self.wf_parts(),
                n == devs.len(),
                devs == self.device_map.devices@,
                (command_index as int) < n as int,
                devs[command_index as int].id == self.command_device_id,
                self.device_map.spec_get(self.command_device_id) == Some(cmd),
                cmd == devs[command_index as int],
                i <= n,
                *self == (NetworkModel { signal_queue: self.signal_queue, ..*old(self) }),
                old(self).signal_queue.entries@.to_multiset().subset_of(
                    self.signal_queue.entries@.to_multiset(),
                ),
                forall|e: SignalQueueEntry|
                    #[trigger] self.signal_queue.entries@.contains(e) ==> old(
                        self,
                    ).signal_queue.entries@.contains(e) || exists|k: int, t: Task|
                        {
                            &&& 0 <= k < devs.len()
                            &&& devs[k].id != self.command_device_id
                            &&& #[trigger] spec_is_last_task(
                                self.scenario.entries@,
                                self.current_time,
                                devs[k].id,
                                t,
                            )
                            &&& spec_scenario_entry(e, cmd, devs[k], t, self.current_time)
                        },
                forall|k: int, t: Task|
                    {
                        &&& 0 <= k < i
                        &&& devs[k].id != self.command_device_id
                        &&& #[trigger] spec_is_last_task(
                            self.scenario.entries@,
                            self.current_time,
                            devs[k].id,
                            t,
                        )
                        &&& spec_tx_level_at(
                            cmd.trx_system.tx_module,
                            Frequency::Control,
                            spec_distance(cmd.real_position, devs[k].real_position),
                        ) is Some
                    } ==> exists|e: SignalQueueEntry|
                        #[trigger] self.signal_queue.entries@.contains(e) && spec_scenario_entry(
                            e,
                            cmd,
                            devs[k],
                            t,
                            self.current_time,
                        ),
            decreases n - i,
        {
            if i != command_index {
                proof {
                    assert(devs[i as int].wf());
                    assert(devs[command_index as int].wf());
                    crate::idmaps::lemma_device_unique_index(
                        self.device_map,
                        devs[i as int].id,
                        i as int,
                    );
                }
                let device_id = self.device_map.devices[i].id();
                let last_task = self.scenario.get_last_task(self.current_time, device_id);
                if let Some(task) = last_task {
                    proof {
                        let w = choose|w: int|
                            {
                                &&& 0 <= w < self.scenario.entries@.len()
                                &&& (#[trigger] self.scenario.entries@[w]).2 == task
                                &&& self.scenario.entries@[w].0 <= self.current_time
                                &&& crate::task::entry_addresses(
                                    self.scenario.entries@[w],
                                    device_id,
                                )
                                &&& forall|v: int|
                                    w < v < self.scenario.entries@.len() ==> !(
                                    self.scenario.entries@[v].0 <= self.current_time
                                        && crate::task::entry_addresses(
                                        #[trigger] self.scenario.entries@[v],
                                        device_id,
                                    ))
                            };
                        assert(self.scenario.entries@[w].2.wf());
                    }
                    let command_device = &self.device_map.devices[command_index];
                    let target = &self.device_map.devices[i];
                    let task_signal = command_device.create_signal_for(
                        target,
                        Data::SetTask(task),
                        Frequency::Control,
                    );
                    if let Ok(signal) = task_signal {
                        let delay_map = self.connections.delay_map(
                            command_device,
                            device_id,
                            &self.device_map,
                            self.delay_multiplier,
                        );
                        let ghost before = self.signal_queue.entries@;
                        self.signal_queue.add_entry(self.current_time, signal, delay_map);
                        proof {
                            let entry = (self.current_time, signal, delay_map);
                            before.to_multiset_ensures();
                            self.signal_queue.entries@.to_multiset_ensures();
                            assert(device_id == devs[i as int].id);
                            assert(spec_is_last_task(
                                self.scenario.entries@,
                                self.current_time,
                                devs[i as int].id,
                                task,
                            ));
                            assert(spec_scenario_entry(
                                entry,
                                cmd,
                                devs[i as int],
                                task,
                                self.current_time,
                            ));
                            assert forall|e: SignalQueueEntry|
                                #[trigger] self.signal_queue.entries@.contains(e) implies
                                before.contains(e) || e == entry by {
                                assert(self.signal_queue.entries@.to_multiset().count(e) > 0);
                                if e != entry {
                                    assert(before.to_multiset().count(e) > 0);
                                }
                            }
                            assert(old(self).signal_queue.entries@.to_multiset().subset_of(
                                self.signal_queue.entries@.to_multiset(),
                            )) by {
                                assert(before.to_multiset().subset_of(
                                    self.signal_queue.entries@.to_multiset(),
                                ));
                            }
                            assert forall|e: SignalQueueEntry| before.contains(e) implies
                                self.signal_queue.entries@.contains(e) by {
                                assert(before.to_multiset().count(e) > 0);
                                assert(self.signal_queue.entries@.to_multiset().count(e) > 0);
                            }
                            assert(self.signal_queue.entries@.contains(entry)) by {
                                assert(self.signal_queue.entries@.to_multiset().count(entry) > 0);
                            }
                        }
                    }
                }
                proof {
                    assert forall|t: Task|
                        {
                            &&& (#[trigger] devs[i as int]).id != self.command_device_id
                            &&& spec_is_last_task(
                                self.scenario.entries@,
                                self.current_time,
                                devs[i as int].id,
                                t,
                            )
                            &&& spec_tx_level_at(
                                cmd.trx_system.tx_module,
                                Frequency::Control,
                                spec_distance(cmd.real_position, devs[i as int].real_position),
                            ) is Some
                        } implies exists|e: SignalQueueEntry|
                        #[trigger] self.signal_queue.entries@.contains(e) && spec_scenario_entry(
                            e,
                            cmd,
                            devs[i as int],
                            t,
                            self.current_time,
                        ) by {
                        match last_task {
                            Some(task) => {
                                crate::task::lemma_last_task_unique(
                                    self.scenario.entries@,
                                    self.current_time,
                                    devs[i as int].id,
                                    t,
                                    task,
                                );
                            },
                            None => {},
                        }
                    }
                }
            }
            i = i + 1;
        }
        proof {
            assert forall|k: int, t: Task|
                {
                    &&& 0 <= k < old(self).device_map.devices@.len()
                    &&& old(self).device_map.devices@[k].id != old(self).command_device_id
                    &&& #[trigger] spec_is_last_task(
                        old(self).scenario.entries@,
                        old(self).current_time,
                        old(self).device_map.devices@[k].id,
                        t,
                    )
                    &&& spec_tx_level_at(
                        old(self).device_map.spec_get(
                            old(self).command_device_id,
                        )->0.trx_system.tx_module,
                        Frequency::Control,
                        spec_distance(
                            old(self).device_map.spec_get(
                                old(self).command_device_id,
                            )->0.real_position,
                            old(self).device_map.devices@[k].real_position,
                        ),
                    ) is Some
                } implies exists|e: SignalQueueEntry|
                #[trigger] self.signal_queue.entries@.contains(e) && spec_scenario_entry(
                    e,
                    old(self).device_map.spec_get(old(self).command_device_id)->0,
                    old(self).device_map.devices@[k],
                    t,
                    old(self).current_time,
                ) by {
                assert(old(self).device_map.spec_get(old(self).command_device_id) == Some(cmd));
                assert(spec_is_last_task(self.scenario.entries@, self.current_time, devs[k].id, t));
            }
        }
    }
}

/// A persistable image of the whole model: the graph as an edge list with
/// its topology tag, everything else as plain values.
pub struct NetworkSnapshot {
    pub current_time: Millisecond,
    pub command_device_id: DeviceId,
    pub devices: Vec<Device>,
    pub attacker_devices: Vec<AttackerDevice>,
    pub gps_device: Device,
    pub topology: Topology,
    pub edges: Vec<(DeviceId, DeviceId, EdgeWeight)>,
    pub delay_multiplier: u64,
    pub scenario_entries: Vec<ScenarioEntry>,
    pub queue_entries: Vec<SignalQueueEntry>,
}

impl NetworkSnapshot {
    /// The snapshot describes a well formed model.
    pub open spec fn wf(self) -> bool {
        &&& (IdToDeviceMap { devices: self.devices }).wf()
        &&& self.devices@.len() <= MAX_GRAPH_NODES
        &&& forall|i: int|
            0 <= i < self.attacker_devices@.len() ==> (#[trigger] self.attacker_devices@[i]).wf()
                && self.attacker_devices@[i].device.current_time <= self.current_time
        &&& self.gps_device.wf()
        &&& self.gps_device.current_time <= self.current_time
        &&& (Scenario { entries: self.scenario_entries }).wf()
        &&& (SignalQueue { entries: self.queue_entries }).wf()
        &&& self.delay_multiplier <= MAX_DELAY_MULTIPLIER
        &&& forall|i: int|
            0 <= i < self.devices@.len() ==> (#[trigger] self.devices@[i]).current_time
                <= self.current_time
        &&& forall|i: int, j: int|
            0 <= i < j < self.edges@.len() ==> ((#[trigger] self.edges@[i]).0, self.edges@[i].1)
                != ((#[trigger] self.edges@[j]).0, self.edges@[j].1)
        &&& forall|i: int| 0 <= i < self.edges@.len() ==> (#[trigger] self.edges@[i]).0
            != self.edges@[i].1
        &&& forall|i: int|
            0 <= i < self.edges@.len() ==> (#[trigger] self.edges@[i]).2.0
                <= crate::mathphysics::MAX_DISTANCE
        &&& spec_endpoint_set(self.edges@).len() <= MAX_GRAPH_NODES
    }
}

impl NetworkSnapshot {
    /// Checks a restored snapshot at run time: a `true` answer guarantees
    /// [`NetworkSnapshot::wf`], so the unverified loader can gate
    /// [`NetworkModel::from_snapshot`] on it.  The check is conservative:
    /// it accepts only empty receive buffers (every tick boundary shows
    /// them) and edge lists of at most half the node limit.
    #[verifier::rlimit(100)]
    pub fn validate(&self) -> (r: bool)
        ensures
            r ==> self.wf(),
    {
        if self.devices.len() > MAX_GRAPH_NODES {
            return false;
        }
        if self.delay_multiplier > MAX_DELAY_MULTIPLIER {
            return false;
        }
        let mut i: usize = 0;
        while i < self.devices.len()
            invariant
                i <= self.devices@.len(),
                forall|a: int, b: int|
                    0 <= a < b < i ==> (#[trigger] self.devices@[a]).id < (
                    #[trigger] self.devices@[b]).id,
                forall|a: int| 0 <= a < i ==> (#[trigger] self.devices@[a]).wf(),
                forall|a: int|
                    0 <= a < i ==> (#[trigger] self.devices@[a]).current_time
                        <= self.current_time,
            decreases self.devices@.len() - i,
        {
            let device = &self.devices[i];
            if !device.check_wf() || device.current_time > self.current_time {
                return false;
            }
            if i > 0 && self.devices[i - 1].id >= device.id {
                return false;
            }
            proof {
                assert forall|a: int, b: int| 0 <= a < b < i + 1 implies (
                #[trigger] self.devices@[a]).id < (#[trigger] self.devices@[b]).id by {
                    if b == i as int && a < i - 1 {
                        assert(self.devices@[a].id < self.devices@[i - 1].id);
                    }
                }
            }
            i = i + 1;
        }
        let mut a: usize = 0;
        while a < self.attacker_devices.len()
            invariant
                a <= self.attacker_devices@.len(),
                forall|k: int|
                    0 <= k < a ==> (#[trigger] self.attacker_devices@[k]).wf()
                        && self.attacker_devices@[k].device.current_time <= self.current_time,
            decreases self.attacker_devices@.len() - a,
        {
            let attacker = &self.attacker_devices[a];
            if !attacker.device.check_wf() || attacker.device.current_time > self.current_time {
                return false;
            }
            let type_ok = match attacker.attack_type {
                crate::attack::AttackType::GPSSpoofing(p) => crate::signal::check_point(&p),
                _ => true,
            };
            if !type_ok {
                return false;
            }
            a = a + 1;
        }
        if !self.gps_device.check_wf() || self.gps_device.current_time > self.current_time {
            return false;
        }
        let mut w: usize = 0;
        while w < self.scenario_entries.len()
            invariant
                w <= self.scenario_entries@.len(),
                forall|p: int, q: int|
                    0 <= p < q < w ==> (#[trigger] self.scenario_entries@[p]).0 <= (
                    #[trigger] self.scenario_entries@[q]).0,
                forall|p: int|
                    0 <= p < w ==> (#[trigger] self.scenario_entries@[p]).2.wf(),
            decreases self.scenario_entries@.len() - w,
        {
            let entry = &self.scenario_entries[w];
            if !crate::signal::check_task(&entry.2) {
                return false;
            }
            if w > 0 && self.scenario_entries[w - 1].0 > entry.0 {
                return false;
            }
            proof {
                assert forall|p: int, q: int| 0 <= p < q < w + 1 implies (
                #[trigger] self.scenario_entries@[p]).0 <= (
                #[trigger] self.scenario_entries@[q]).0 by {
                    if q == w as int && p < w - 1 {
                        assert(self.scenario_entries@[p].0 <= self.scenario_entries@[w - 1].0);
                    }
                }
            }
            w = w + 1;
        }
        let mut q: usize = 0;
        while q < self.queue_entries.len()
            invariant
                q <= self.queue_entries@.len(),
                forall|p: int, r2: int|
                    0 <= p < r2 < q ==> (#[trigger] self.queue_entries@[p]).0 <= (
                    #[trigger] self.queue_entries@[r2]).0,
                forall|p: int| 0 <= p < q ==> (#[trigger] self.queue_entries@[p]).1.wf(),
                forall|p: int| 0 <= p < q ==> (#[trigger] self.queue_entries@[p]).2.wf(),
            decreases self.queue_entries@.len() - q,
        {
            let entry = &self.queue_entries[q];
            if !entry.1.check_wf() {
                return false;
            }
            if q > 0 && self.queue_entries[q - 1].0 > entry.0 {
                return false;
            }
            let dm = &entry.2.entries;
            let mut x: usize = 0;
            while x < dm.len()
                invariant
                    x <= dm@.len(),
                    forall|p: int, r2: int|
                        0 <= p < r2 < x ==> (#[trigger] dm@[p]).0 != (#[trigger] dm@[r2]).0,
                decreases dm@.len() - x,
            {
                let mut y: usize = 0;
                while y < x
                    invariant
                        x < dm@.len(),
                        y <= x,
                        forall|p: int, r2: int|
                            0 <= p < r2 < x ==> (#[trigger] dm@[p]).0 != (#[trigger] dm@[r2]).0,
                        forall|p: int| 0 <= p < y ==> (#[trigger] dm@[p]).0 != dm@[x as int].0,
                    decreases x - y,
                {
                    if dm[y].0 == dm[x].0 {
                        return false;
                    }
                    y = y + 1;
                }
                proof {
                    assert forall|p: int, r2: int| 0 <= p < r2 < x + 1 implies (
                    #[trigger] dm@[p]).0 != (#[trigger] dm@[r2]).0 by {
                        if r2 == x as int {
                            assert(dm@[p].0 != dm@[x as int].0);
                        }
                    }
                }
                x = x + 1;
            }
            proof {
                assert forall|p: int, r2: int| 0 <= p < r2 < q + 1 implies (
                #[trigger] self.queue_entries@[p]).0 <= (
                #[trigger] self.queue_entries@[r2]).0 by {
                    if r2 == q as int && p < q - 1 {
                        assert(self.queue_entries@[p].0 <= self.queue_entries@[q - 1].0);
                    }
                }
            }
            q = q + 1;
        }
        if self.edges.len() > MAX_GRAPH_NODES / 2 {
            return false;
        }
        let mut x: usize = 0;
        while x < self.edges.len()
            invariant
                x <= self.edges@.len(),
                forall|p: int, r2: int|
                    0 <= p < r2 < x ==> ((#[trigger] self.edges@[p]).0, self.edges@[p].1) != ((
                    #[trigger] self.edges@[r2]).0, self.edges@[r2].1),
                forall|p: int| 0 <= p < x ==> (#[trigger] self.edges@[p]).0 != self.edges@[p].1,
                forall|p: int|
                    0 <= p < x ==> (#[trigger] self.edges@[p]).2.0
                        <= crate::mathphysics::MAX_DISTANCE,
            decreases self.edges@.len() - x,
        {
            let edge = &self.edges[x];
            if edge.0 == edge.1 || edge.2.0 > crate::mathphysics::MAX_DISTANCE {
                return false;
            }
            let mut y: usize = 0;
            while y < x
                invariant
                    x < self.edges@.len(),
                    y <= x,
                    forall|p: int, r2: int|
                        0 <= p < r2 < x ==> ((#[trigger] self.edges@[p]).0, self.edges@[p].1)
                            != ((#[trigger] self.edges@[r2]).0, self.edges@[r2].1),
                    forall|p: int|
                        0 <= p < y ==> ((#[trigger] self.edges@[p]).0, self.edges@[p].1) != (
                        self.edges@[x as int].0, self.edges@[x as int].1),
                decreases x - y,
            {
                if self.edges[y].0 == self.edges[x].0 && self.edges[y].1 == self.edges[x].1 {
                    return false;
                }
                y = y + 1;
            }
            proof {
                assert forall|p: int, r2: int| 0 <= p < r2 < x + 1 implies ((
                #[trigger] self.edges@[p]).0, self.edges@[p].1) != ((
                #[trigger] self.edges@[r2]).0, self.edges@[r2].1) by {
                    if r2 == x as int {
                        assert((self.edges@[p].0, self.edges@[p].1) != (self.edges@[x as int].0,
                        self.edges@[x as int].1));
                    }
                }
            }
            x = x + 1;
        }
        proof {
            crate::connections::lemma_endpoint_set_len(self.edges@);
        }
        true
    }
}

impl NetworkModel {
    /// Takes the model apart into a persistable snapshot.  Nothing is
    /// lost: every field moves over, and the edge list holds exactly the
    /// graph's edges.
    pub fn to_snapshot(self) -> (r: NetworkSnapshot)
        requires
            self.wf(),
        ensures
            r.current_time == self.current_time,
            r.command_device_id == self.command_device_id,
            r.devices == self.device_map.devices,
            r.attacker_devices == self.attacker_devices,
            r.gps_device == self.gps.0,
            r.topology == self.connections.topology,
            edges_list_exact(r.edges@, graph_edge_map(self.connections.graph)),
            r.delay_multiplier == self.delay_multiplier,
            r.scenario_entries == self.scenario.entries,
            r.queue_entries == self.signal_queue.entries,
            r.wf(),
    {
        let edges = self.connections.to_edge_list();
        proof {
            let nodes = graph_node_set(self.connections.graph);
            assert forall|n: DeviceId| spec_endpoint_set(edges@).contains(n) implies
                nodes.contains(n) by {
                let i = choose|i: int|
                    0 <= i < edges@.len() && ((#[trigger] edges@[i]).0 == n || edges@[i].1 == n);
                assert(graph_edge_map(self.connections.graph).dom().contains(
                    (edges@[i].0, edges@[i].1),
                ));
            }
            crate::connections::lemma_endpoint_set_len(edges@);
            vstd::set_lib::lemma_len_subset(spec_endpoint_set(edges@), nodes);
        }
        NetworkSnapshot {
            current_time: self.current_time,
            command_device_id: self.command_device_id,
            devices: self.device_map.devices,
            attacker_devices: self.attacker_devices,
            gps_device: self.gps.0,
            topology: self.connections.topology,
            edges,
            delay_multiplier: self.delay_multiplier,
            scenario_entries: self.scenario.entries,
            queue_entries: self.signal_queue.entries,
        }
    }

    /// Restores a model from a persisted snapshot: every field moves
    /// back, and the rebuilt graph holds exactly the listed edges, so a
    /// snapshot round trip loses nothing.
    pub fn from_snapshot(snapshot: NetworkSnapshot) -> (r: Self)
        requires
            snapshot.wf(),
        ensures
            r.current_time == snapshot.current_time,
            r.command_device_id == snapshot.command_device_id,
            r.device_map.devices == snapshot.devices,
            r.attacker_devices == snapshot.attacker_devices,
            r.gps.0 == snapshot.gps_device,
            r.connections.topology == snapshot.topology,
            edges_list_exact(snapshot.edges@, graph_edge_map(r.connections.graph)),
            r.delay_multiplier == snapshot.delay_multiplier,
            r.scenario.entries == snapshot.scenario_entries,
            r.signal_queue.entries == snapshot.queue_entries,
            r.wf(),
    {
        let connections = ConnectionGraph::from_edge_list(snapshot.topology, &snapshot.edges);
        Self {
            current_time: snapshot.current_time,
            command_device_id: snapshot.command_device_id,
            device_map: IdToDeviceMap { devices: snapshot.devices },
            attacker_devices: snapshot.attacker_devices,
            gps: GPS(snapshot.gps_device),
            connections,
            delay_multiplier: snapshot.delay_multiplier,
            scenario: Scenario { entries: snapshot.scenario_entries },
            signal_queue: SignalQueue { entries: snapshot.queue_entries },
        }
    }
}

/// Assembles a network model from optional parts, with empty defaults for
/// whatever is left unset.
#[derive(Default)]
pub struct NetworkModelBuilder {
    pub command_center_id: Option<DeviceId>,
    pub device_map: Option<IdToDeviceMap>,
    pub attacker_devices: Option<Vec<AttackerDevice>>,
    pub gps: Option<GPS>,
    pub topology: Option<Topology>,
    pub scenario: Option<Scenario>,
    pub delay_multiplier: Option<u64>,
}

impl NetworkModelBuilder {
    pub open spec fn wf(self) -> bool {
        &&& (self.device_map is Some ==> self.device_map->0.wf() && self.device_map->0.devices@.len()
            <= MAX_GRAPH_NODES && forall|i: int|
            0 <= i < self.device_map->0.devices@.len() ==> (
            #[trigger] self.device_map->0.devices@[i]).current_time == 0)
        &&& (self.attacker_devices is Some ==> forall|i: int|
            0 <= i < self.attacker_devices->0@.len() ==> (
            #[trigger] self.attacker_devices->0@[i]).wf()
                && self.attacker_devices->0@[i].device.current_time == 0)
        &&& (self.gps is Some ==> self.gps->0.wf() && (self.gps->0).0.current_time == 0)
        &&& (self.scenario is Some ==> self.scenario->0.wf())
        &&& (self.delay_multiplier is Some ==> self.delay_multiplier->0 <= MAX_DELAY_MULTIPLIER)
    }

    pub fn new() -> (r: Self)
        ensures
            r.command_center_id is None,
            r.device_map is None,
            r.attacker_devices is None,
            r.gps is None,
            r.topology is None,
            r.scenario is None,
            r.delay_multiplier is None,
            r.wf(),
    {
        Self {
            command_center_id: None,
            device_map: None,
            attacker_devices: None,
            gps: None,
            topology: None,
            scenario: None,
            delay_multiplier: None,
        }
    }

    pub fn set_command_center_id(self, command_center_id: DeviceId) -> (r: Self)
        ensures
            r == (NetworkModelBuilder { command_center_id: Some(command_center_id), ..self }),
    {
        Self { command_center_id: Some(command_center_id), ..self }
    }

    pub fn set_device_map(self, device_map: IdToDeviceMap) -> (r: Self)
        requires
            device_map.wf(),
            device_map.devices@.len() <= MAX_GRAPH_NODES,
            forall|i: int|
                0 <= i < device_map.devices@.len() ==> (
                #[trigger] device_map.devices@[i]).current_time == 0,
        ensures
            r == (NetworkModelBuilder { device_map: Some(device_map), ..self }),
    {
        Self { device_map: Some(device_map), ..self }
    }

    pub fn set_attacker_devices(self, attacker_devices: Vec<AttackerDevice>) -> (r: Self)
        requires
            forall|i: int|
                0 <= i < attacker_devices@.len() ==> (#[trigger] attacker_devices@[i]).wf()
                    && attacker_devices@[i].device.current_time == 0,
        ensures
            r == (NetworkModelBuilder { attacker_devices: Some(attacker_devices), ..self }),
    {
        Self { attacker_devices: Some(attacker_devices), ..self }
    }

    pub fn set_gps(self, gps: GPS) -> (r: Self)
        requires
            gps.wf(),
            gps.0.current_time == 0,
        ensures
            r == (NetworkModelBuilder { gps: Some(gps), ..self }),
    {
        Self { gps: Some(gps), ..self }
    }

    pub fn set_topology(self, topology: Topology) -> (r: Self)
        ensures
            r == (NetworkModelBuilder { topology: Some(topology), ..self }),
    {
        Self { topology: Some(topology), ..self }
    }

    pub fn set_scenario(self, scenario: Scenario) -> (r: Self)
        requires
            scenario.wf(),
        ensures
            r == (NetworkModelBuilder { scenario: Some(scenario), ..self }),
    {
        Self { scenario: Some(scenario), ..self }
    }

    pub fn set_delay_multiplier(self, delay_multiplier: u64) -> (r: Self)
        requires
            delay_multiplier <= MAX_DELAY_MULTIPLIER,
        ensures
            r == (NetworkModelBuilder { delay_multiplier: Some(delay_multiplier), ..self }),
    {
        Self { delay_multiplier: Some(delay_multiplier), ..self }
    }

    /// Builds the model, with empty defaults for unset parts.
    pub fn build(self) -> (r: NetworkModel)
        requires
            self.wf(),
        ensures
            r.wf(),
            r.current_time == 0,
    {
        let command_center_id = match self.command_center_id {
            Some(id) => id,
            None => 0,
        };
        let device_map = match self.device_map {
            Some(dm) => dm,
            None => IdToDeviceMap::new(),
        };
        let attacker_devices = match self.attacker_devices {
            Some(ads) => ads,
            None => Vec::new(),
        };
        let gps = match self.gps {
            Some(g) => g,
            None => GPS(Device::new(
                u64::MAX,
                crate::mathphysics::Point3D::default(),
                crate::task::Task::Undefined,
                crate::power::PowerSystem::default(),
                crate::device::MovementSystem::default(),
                crate::trx::TRXSystem::default(),
                crate::security::SecuritySystem::default(),
                crate::device::SignalLossResponse::Ignore,
            )),
        };
        let topology = match self.topology {
            Some(t) => t,
            None => Topology::Star,
        };
        let scenario = match self.scenario {
            Some(s) => s,
            None => Scenario::new(),
        };
        let delay_multiplier = match self.delay_multiplier {
            Some(m) => m,
            None => 0,
        };
        NetworkModel::new(
            command_center_id,
            device_map,
            attacker_devices,
            gps,
            scenario,
            topology,
            delay_multiplier,
        )
    }
}

} // verus!
