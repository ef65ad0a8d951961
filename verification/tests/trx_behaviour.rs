//! Receive-buffer rules, exact formula values, and attack failures.
use dronenet::attack::{AttackError, AttackType, AttackerDevice};
use dronenet::device::{DeviceBuilder, DeviceId};
use dronenet::mathphysics::{delay_to, equation_of_motion_1d, Frequency, Point3D};
use dronenet::power::PowerSystem;
use dronenet::queue::SignalQueue;
use dronenet::signal::{Data, Signal, SignalArea, SignalLevel, SignalStrength};
use dronenet::trx::{
    FreqToLevelMap, RXError, RXModule, TRXSystem, TRXSystemError, TXModule, TXModuleType,
};

const SOME_DEVICE_ID: DeviceId = 5;
const MAX_ITER_COUNT: usize = 10_000;

fn power_system() -> PowerSystem {
    PowerSystem::build(10_000, 10_000).unwrap()
}

fn control_tx_module(radius: u64) -> TXModule {
    let tx_level = SignalLevel::from_area(SignalArea::new(radius), Frequency::Control.megahertz());
    TXModule::new(
        TXModuleType::Strength,
        FreqToLevelMap::from_pairs(vec![(Frequency::Control, tx_level)]),
    )
}

#[test]
fn exact_attenuation_formula_values() {
    // A transmitter sized for a 10 m coverage radius on the control
    // carrier has strength 2.56 units, delivers 2.04 units at 7 m, and
    // reports its own radius back.
    let strength = SignalStrength::from_area_radius(10_000, 2_400);
    assert_eq!(strength.value(), 2_560);
    assert_eq!(strength.at(2_400, 7_000).value(), 2_040);
    assert_eq!(strength.area_radius_on(2_400), 10_000);
}

#[test]
fn exact_delay_and_motion_values() {
    // 300 000 km at light speed is one second; the delay rounds down to a
    // whole number of ticks.
    assert_eq!(delay_to(300_000_000, 1_000_000_000), 1_000_000_000);
    assert_eq!(delay_to(300_000_000, 0), 0);
    assert_eq!(delay_to(44_000_000, 1_000_000_000), 146_666_650);
    assert_eq!(equation_of_motion_1d(1_000, 2_000, 50), 1_100);
    assert_eq!(equation_of_motion_1d(1_000, -2_000, 50), 900);
}

#[test]
fn rx_refuses_frequency_it_does_not_listen_on() {
    let gps_only = RXModule::new(FreqToLevelMap::from_pairs(vec![(
        Frequency::GPS,
        SignalLevel::green(),
    )]));
    let mut trx = TRXSystem::new(TXModule::default(), gps_only);
    let signal = Signal::new(
        SOME_DEVICE_ID,
        SOME_DEVICE_ID,
        Data::Noise,
        Frequency::Control,
        SignalLevel::green(),
    );
    assert!(matches!(
        trx.receive_signal(signal, 0),
        Err(TRXSystemError::RXModuleError(RXError::NotListeningOnFrequency))
    ));
}

#[test]
fn rx_keeps_the_stronger_buffered_signal() {
    let rx = RXModule::new(FreqToLevelMap::from_pairs(vec![(
        Frequency::Control,
        SignalLevel::green(),
    )]));
    let mut trx = TRXSystem::new(TXModule::default(), rx);
    let strong = Signal::new(
        SOME_DEVICE_ID,
        SOME_DEVICE_ID,
        Data::Noise,
        Frequency::Control,
        SignalLevel::from_value(90_000),
    );
    let mut accepted = trx.receive_signal(strong, 0);
    for _ in 0..MAX_ITER_COUNT {
        if accepted.is_ok() {
            break;
        }
        accepted = trx.receive_signal(strong, 0);
    }
    assert!(accepted.is_ok());
    let weak = Signal::new(
        SOME_DEVICE_ID,
        SOME_DEVICE_ID,
        Data::Noise,
        Frequency::Control,
        SignalLevel::from_value(10_000),
    );
    assert!(matches!(
        trx.receive_signal(weak, 1),
        Err(TRXSystemError::RXModuleError(RXError::SignalTooWeak))
    ));
}

#[test]
fn rx_records_an_overloading_signal_as_noise() {
    // The receiver tops out at red; a green signal is buffered with its
    // payload stripped and the call reports noise.
    let rx = RXModule::new(FreqToLevelMap::from_pairs(vec![(
        Frequency::Control,
        SignalLevel::red(),
    )]));
    let mut trx = TRXSystem::new(TXModule::default(), rx);
    let task_signal = Signal::new(
        SOME_DEVICE_ID,
        SOME_DEVICE_ID,
        Data::SetTask(dronenet::task::Task::Undefined),
        Frequency::Control,
        SignalLevel::green(),
    );
    let mut outcome = trx.receive_signal(task_signal, 0);
    for _ in 0..MAX_ITER_COUNT {
        if !matches!(
            outcome,
            Err(TRXSystemError::RXModuleError(RXError::SignalNotReceived))
        ) {
            break;
        }
        outcome = trx.receive_signal(task_signal, 0);
    }
    assert!(matches!(
        outcome,
        Err(TRXSystemError::RXModuleError(RXError::NoiseReceived))
    ));
    // Something arrived, but nothing decodable: the control channel does
    // not count as connected.
    assert!(trx.received_signal_on(Frequency::Control).is_some());
    assert!(!trx.receives_signal_on(Frequency::Control));
}

#[test]
fn out_of_range_receiver_gets_no_signal() {
    let mut next_id: DeviceId = 1;
    let sender = DeviceBuilder::new()
        .set_power_system(power_system())
        .set_trx_system(TRXSystem::new(control_tx_module(10_000), RXModule::default()))
        .build(&mut next_id);
    let receiver = DeviceBuilder::new()
        .set_real_position(Point3D::new(1_000_000, 0, 0))
        .build(&mut next_id);
    assert!(matches!(
        sender.create_signal_for(&receiver, Data::Noise, Frequency::Control),
        Err(TRXSystemError::RXOutOfRange)
    ));
}

#[test]
fn attack_on_unreachable_target_fails() {
    let mut next_id: DeviceId = 1;
    let attacker_device = DeviceBuilder::new()
        .set_power_system(power_system())
        .set_trx_system(TRXSystem::new(control_tx_module(10_000), RXModule::default()))
        .build(&mut next_id);
    let target = DeviceBuilder::new()
        .set_real_position(Point3D::new(1_000_000, 0, 0))
        .build(&mut next_id);
    let attacker = AttackerDevice::new(attacker_device, AttackType::ElectronicWarfare);
    let mut queue = SignalQueue::new();
    assert!(matches!(
        attacker.execute_attack(&target, &mut queue, 0, 0),
        Err(AttackError::TargetOutOfRange)
    ));
    assert_eq!(queue.len(), 0);
}
