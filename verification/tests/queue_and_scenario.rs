//! The delayed signal queue and the scripted task scenario.
use dronenet::idmaps::IdToDelayMap;
use dronenet::queue::SignalQueue;
use dronenet::signal::{Data, Signal, SignalLevel};
use dronenet::task::{Scenario, Task};
use dronenet::mathphysics::Frequency;

const SOME_ID: u64 = 5;

fn noise_signal() -> Signal {
    Signal::new(SOME_ID, SOME_ID, Data::Noise, Frequency::Control, SignalLevel::black())
}

fn time_and_signals() -> Vec<(u64, Signal)> {
    vec![(25, noise_signal()), (5, noise_signal()), (10, noise_signal())]
}

#[test]
fn removing_older_signals() {
    let time_and_signals = time_and_signals();
    let mut signal_queue = SignalQueue::new();
    for (time, signal) in &time_and_signals {
        signal_queue.add_entry(*time, *signal, IdToDelayMap::new());
    }
    signal_queue.remove_old_signals(10);
    assert_eq!(signal_queue.len(), 1);
    assert_eq!(signal_queue.entries[0].0, 25);
    assert_eq!(signal_queue.entries[0].1, time_and_signals[0].1);
}

#[test]
fn sort_signals_while_adding() {
    let time_and_signals = time_and_signals();
    let mut signal_queue = SignalQueue::new();
    for (time, signal) in &time_and_signals {
        signal_queue.add_entry(*time, *signal, IdToDelayMap::default());
    }
    assert_eq!(time_and_signals[1].0, signal_queue.entries[0].0);
    assert_eq!(time_and_signals[2].0, signal_queue.entries[1].0);
    assert_eq!(time_and_signals[0].0, signal_queue.entries[2].0);
}

#[test]
fn queue_delivers_exactly_when_due() {
    // An entry is returned exactly when the current time equals its
    // creation time plus its delay for the destination, and removed
    // exactly when the largest delay has elapsed.
    let destination: u64 = 7;
    let mut delay_map = IdToDelayMap::new();
    delay_map.insert(destination, 100);
    delay_map.insert(9, 300);
    let mut queue = SignalQueue::new();
    queue.add_entry(50, noise_signal(), delay_map);
    assert_eq!(queue.get_current_signals_for(destination, 50).len(), 0);
    assert_eq!(queue.get_current_signals_for(destination, 150).len(), 1);
    assert_eq!(queue.get_current_signals_for(destination, 151).len(), 0);
    // The broadcast fallback applies to a device without its own entry.
    let mut broadcast_map = IdToDelayMap::new();
    broadcast_map.insert(0, 20);
    let mut queue2 = SignalQueue::new();
    queue2.add_entry(10, noise_signal(), broadcast_map);
    assert_eq!(queue2.get_current_signals_for(123, 30).len(), 1);
    // Pruning keeps the entry until the slowest recipient is done.
    queue.remove_old_signals(349);
    assert_eq!(queue.len(), 1);
    queue.remove_old_signals(350);
    assert_eq!(queue.len(), 0);
}

const SOME_DEVICE_ID: u64 = 5;

fn entries() -> Vec<(u64, u64, Task)> {
    let undefined_task = Task::Undefined;
    vec![
        (25, SOME_DEVICE_ID, undefined_task),
        (5, SOME_DEVICE_ID, undefined_task),
        (10, SOME_DEVICE_ID, undefined_task),
    ]
}

#[test]
fn fail_to_get_last_task_when_current_time_is_too_early() {
    let scenario = Scenario::from_entries(entries());
    assert!(scenario.get_last_task(0, SOME_DEVICE_ID).is_none());
}

#[test]
fn getting_last_task() {
    let entries = entries();
    let scenario = Scenario::from_entries(entries.clone());
    let last_task = scenario.get_last_task(7, SOME_DEVICE_ID).expect("task");
    assert_eq!(last_task, entries[1].2);
}

#[test]
fn getting_current_task() {
    let entries = entries();
    let scenario = Scenario::from_entries(entries.clone());
    let last_task = scenario.get_last_task(entries[2].0, SOME_DEVICE_ID).expect("task");
    assert_eq!(last_task, entries[2].2);
}

#[test]
fn sort_entries_on_creation() {
    let entries = entries();
    let scenario = Scenario::from_entries(entries.clone());
    assert_eq!(entries[1].0, scenario.entries[0].0);
    assert_eq!(entries[2].0, scenario.entries[1].0);
    assert_eq!(entries[0].0, scenario.entries[2].0);
}
