//! Device construction, signal handling, movement and failure modes.
use dronenet::device::{
    Device, DeviceBuilder, DeviceError, DeviceId, MovementSystem, SignalLossResponse,
    BROADCAST_ID, MAX_DRONE_SPEED, MOVEMENT_POWER_CONSUMPTION, PASSIVE_POWER_CONSUMPTION,
};
use dronenet::malware::{Malware, MalwareType};
use dronenet::mathphysics::{Frequency, Point3D};
use dronenet::power::{PowerSystem, PowerSystemError};
use dronenet::security::SecuritySystem;
use dronenet::signal::{Data, Signal, SignalArea, SignalLevel};
use dronenet::task::Task;
use dronenet::trx::{FreqToLevelMap, RXModule, TRXSystem, TRXSystemError, TXModule, TXModuleType};

const DRONE_TX_CONTROL_RADIUS: u64 = 10_000;
const DEVICE_MAX_POWER: u64 = 10_000;
const MAX_ITER_COUNT: usize = 10_000;
const SOME_DEVICE_ID: DeviceId = 5;
const ITERATION_TIME: u64 = dronenet::ITERATION_TIME;

fn device_power_system() -> PowerSystem {
    PowerSystem::build(DEVICE_MAX_POWER, DEVICE_MAX_POWER).unwrap()
}

fn control_tx_module(radius: u64) -> TXModule {
    let tx_level = SignalLevel::from_area(SignalArea::new(radius), Frequency::Control.megahertz());
    let map = FreqToLevelMap::from_pairs(vec![(Frequency::Control, tx_level)]);
    TXModule::new(TXModuleType::Strength, map)
}

fn rx_module() -> RXModule {
    let map = FreqToLevelMap::from_pairs(vec![
        (Frequency::GPS, SignalLevel::green()),
        (Frequency::Control, SignalLevel::green()),
    ]);
    RXModule::new(map)
}

fn drone_movement_system() -> MovementSystem {
    MovementSystem::build(MAX_DRONE_SPEED)
}

fn drone_green_trx_system() -> TRXSystem {
    TRXSystem::new(control_tx_module(DRONE_TX_CONTROL_RADIUS), rx_module())
}

fn indicator_malware() -> Malware {
    Malware::new(MalwareType::Indicator, 0, None)
}

fn send_signal_until_it_is_received(receiver: &mut Device, signal: Signal, time: u64) {
    let mut result = receiver.receive_signal(signal, time);
    for _ in 0..MAX_ITER_COUNT {
        if result.is_ok() {
            return;
        }
        result = receiver.receive_signal(signal, time);
    }
    panic!("signal was never received");
}

#[test]
fn distance_to_another_point() {
    let origin = Point3D::default();
    let some_point = Point3D::new(5_000, 0, 0);
    assert_eq!(0, origin.distance_to(&origin));
    assert_eq!(5_000, origin.distance_to(&some_point));
}

#[test]
fn unique_device_ids() {
    let mut next_id: DeviceId = 1;
    let shared_device_builder = DeviceBuilder::new();
    let command_center = shared_device_builder.clone().build(&mut next_id);
    let electronic_warfare = shared_device_builder.build(&mut next_id);
    let drone = DeviceBuilder::new().build(&mut next_id);
    assert_ne!(command_center.id(), electronic_warfare.id());
    assert_ne!(command_center.id(), drone.id());
    assert_ne!(electronic_warfare.id(), drone.id());
}

#[test]
fn same_device_ids_on_clone() {
    let mut next_id: DeviceId = 1;
    let device = DeviceBuilder::new().build(&mut next_id);
    let cloned_device = device.clone();
    assert_eq!(device.id(), cloned_device.id());
}

#[test]
fn device_selfdestructs_after_consuming_all_power() {
    let mut next_id: DeviceId = 1;
    let task = Task::Attack(Point3D::new(5_000, 5_000, 5_000));
    let power = PASSIVE_POWER_CONSUMPTION + MOVEMENT_POWER_CONSUMPTION;
    let power_system = PowerSystem::build(power, power).unwrap();
    let mut device = DeviceBuilder::new()
        .set_task(task)
        .set_power_system(power_system)
        .set_movement_system(drone_movement_system())
        .set_trx_system(drone_green_trx_system())
        .build(&mut next_id);
    assert!(!device.is_shut_down());
    assert!(matches!(
        device.update(),
        Err(DeviceError::PowerSystemError(PowerSystemError::NoPowerLeft))
    ));
    assert!(device.is_shut_down());
}

#[test]
fn ascending_on_signal_loss() {
    let mut next_id: DeviceId = 1;
    let destination_point = Point3D::new(5_000, 5_000, 5_000);
    let mut device_without_signal = DeviceBuilder::new()
        .set_task(Task::Reposition(destination_point))
        .set_power_system(device_power_system())
        .set_movement_system(drone_movement_system())
        .set_trx_system(drone_green_trx_system())
        .set_signal_loss_response(SignalLossResponse::Ascend)
        .build(&mut next_id);
    let original_position = *device_without_signal.position();
    let many_iterations = ITERATION_TIME * 10;
    let mut time = 0;
    while time < many_iterations {
        let gps_signal = Signal::new(
            SOME_DEVICE_ID,
            device_without_signal.id(),
            Data::GPS(*device_without_signal.position()),
            Frequency::GPS,
            SignalLevel::red(),
        );
        let _ = device_without_signal.receive_signal(gps_signal, time);
        let _ = device_without_signal.update();
        time += ITERATION_TIME;
    }
    assert_eq!(device_without_signal.position().x, original_position.x);
    assert_eq!(device_without_signal.position().y, original_position.y);
    assert!(device_without_signal.position().z > 0);
}

#[test]
fn hovering_on_signal_loss() {
    let mut next_id: DeviceId = 1;
    let destination_point = Point3D::new(5_000, 5_000, 5_000);
    let mut device_without_signal = DeviceBuilder::new()
        .set_task(Task::Reposition(destination_point))
        .set_power_system(device_power_system())
        .set_movement_system(drone_movement_system())
        .set_trx_system(drone_green_trx_system())
        .set_signal_loss_response(SignalLossResponse::Hover)
        .build(&mut next_id);
    let original_position = *device_without_signal.position();
    let many_iterations = ITERATION_TIME * 500;
    let mut time = 0;
    while time < many_iterations {
        let gps_signal = Signal::new(
            SOME_DEVICE_ID,
            device_without_signal.id(),
            Data::GPS(*device_without_signal.position()),
            Frequency::GPS,
            SignalLevel::red(),
        );
        let _ = device_without_signal.receive_signal(gps_signal, time);
        let _ = device_without_signal.update();
        time += ITERATION_TIME;
    }
    assert_eq!(device_without_signal.position().x, original_position.x);
    assert_eq!(device_without_signal.position().y, original_position.y);
    assert_eq!(device_without_signal.position().z, original_position.z);
}

#[test]
fn returning_to_home_on_signal_loss() {
    let mut next_id: DeviceId = 1;
    let home_point = Point3D::new(-8_333, -8_333, -8_333);
    let destination_point = Point3D::new(8_333, 8_333, 8_333);
    let mut device_without_signal = DeviceBuilder::new()
        .set_task(Task::Reposition(destination_point))
        .set_power_system(device_power_system())
        .set_movement_system(drone_movement_system())
        .set_trx_system(drone_green_trx_system())
        .set_signal_loss_response(SignalLossResponse::ReturnToHome(home_point))
        .build(&mut next_id);
    let many_iterations = ITERATION_TIME * 500;
    let mut time = 0;
    while time < many_iterations {
        let gps_signal = Signal::new(
            SOME_DEVICE_ID,
            device_without_signal.id(),
            Data::GPS(*device_without_signal.position()),
            Frequency::GPS,
            SignalLevel::red(),
        );
        send_signal_until_it_is_received(&mut device_without_signal, gps_signal, time);
        let _ = device_without_signal.update();
        time += ITERATION_TIME;
    }
    assert!(device_without_signal.at_destination(&home_point));
}

#[test]
fn shutting_down_on_signal_loss() {
    let mut next_id: DeviceId = 1;
    let destination_point = Point3D::new(5_000, 5_000, 5_000);
    let mut device_without_signal = DeviceBuilder::new()
        .set_task(Task::Reposition(destination_point))
        .set_power_system(device_power_system())
        .set_signal_loss_response(SignalLossResponse::Shutdown)
        .build(&mut next_id);
    let many_iterations = 500;
    let mut time = 0;
    while time < many_iterations {
        let gps_signal = Signal::new(
            SOME_DEVICE_ID,
            device_without_signal.id(),
            Data::GPS(*device_without_signal.position()),
            Frequency::GPS,
            SignalLevel::red(),
        );
        let _ = device_without_signal.receive_signal(gps_signal, time);
        let _ = device_without_signal.update();
        time += ITERATION_TIME;
    }
    assert!(device_without_signal.is_shut_down());
}

#[test]
fn no_movement_without_destination_set() {
    let mut next_id: DeviceId = 1;
    let device_position = Point3D::new(5_000, 0, 0);
    let mut device = DeviceBuilder::new()
        .set_real_position(device_position)
        .set_power_system(device_power_system())
        .set_movement_system(drone_movement_system())
        .set_trx_system(drone_green_trx_system())
        .build(&mut next_id);
    assert_eq!(*device.gps_position(), Point3D::default());
    assert_eq!(*device.position(), device_position);
    let mut time = 0;
    while time < 1_000 {
        let _ = device.update();
        assert_eq!(*device.gps_position(), Point3D::default());
        assert_eq!(*device.position(), device_position);
        time += ITERATION_TIME;
    }
}

#[test]
fn device_movement_without_gps() {
    let mut next_id: DeviceId = 1;
    let destination_point = Point3D::new(MAX_DRONE_SPEED as i64, 0, 0);
    let mut device_without_gps = DeviceBuilder::new()
        .set_task(Task::Reposition(destination_point))
        .set_power_system(device_power_system())
        .set_movement_system(drone_movement_system())
        .build(&mut next_id);
    let mut time = 0;
    while time < 1_000 {
        let _ = device_without_gps.update();
        time += ITERATION_TIME;
    }
    assert_eq!(*device_without_gps.gps_position(), Point3D::default());
    assert_eq!(*device_without_gps.position(), Point3D::default());
}

#[test]
fn device_reaching_destination() {
    let mut next_id: DeviceId = 1;
    let destination_point = Point3D::new(MAX_DRONE_SPEED as i64, 0, 0);
    let trx_system = TRXSystem::new(TXModule::default(), rx_module());
    let mut device = DeviceBuilder::new()
        .set_task(Task::Reposition(destination_point))
        .set_power_system(device_power_system())
        .set_movement_system(drone_movement_system())
        .set_trx_system(trx_system)
        .build(&mut next_id);
    let many_iterations = 1_000;
    let mut time = 0;
    while time < many_iterations {
        let gps_signal = Signal::new(
            SOME_DEVICE_ID,
            device.id(),
            Data::GPS(*device.position()),
            Frequency::GPS,
            SignalLevel::red(),
        );
        send_signal_until_it_is_received(&mut device, gps_signal, time);
        assert!(device.update().is_ok());
        time += ITERATION_TIME;
    }
    assert!(device.at_destination(&destination_point));
}

#[test]
fn device_selfdestruction() {
    let mut next_id: DeviceId = 1;
    let task = Task::Attack(Point3D::new(5_000, 5_000, 5_000));
    let mut device = DeviceBuilder::new()
        .set_task(task)
        .set_power_system(device_power_system())
        .set_trx_system(drone_green_trx_system())
        .set_movement_system(drone_movement_system())
        .build(&mut next_id);
    assert_eq!(*device.task(), task);
    device.selfdestruction();
    assert!(device.is_shut_down());
}

#[test]
fn receive_and_process_correct_set_task_signal() {
    let mut next_id: DeviceId = 1;
    let task = Task::Attack(Point3D::new(5_000, 0, 0));
    let mut device = DeviceBuilder::new()
        .set_power_system(device_power_system())
        .set_trx_system(drone_green_trx_system())
        .build(&mut next_id);
    let signal = Signal::new(
        SOME_DEVICE_ID,
        device.id(),
        Data::SetTask(task),
        Frequency::Control,
        SignalLevel::red(),
    );
    send_signal_until_it_is_received(&mut device, signal, 0);
    assert!(device.process_received_signals().is_ok());
    assert_eq!(task, *device.task());
}

#[test]
fn receive_and_process_correct_gps_signal() {
    let mut next_id: DeviceId = 1;
    let global_position = Point3D::new(5_000, 0, 0);
    let gps_position = Point3D::new(0, 0, 5_000);
    let mut device = DeviceBuilder::new()
        .set_real_position(global_position)
        .set_power_system(device_power_system())
        .set_trx_system(drone_green_trx_system())
        .build(&mut next_id);
    assert_eq!(*device.position(), global_position);
    assert_eq!(*device.gps_position(), Point3D::default());
    let gps_signal = Signal::new(
        SOME_DEVICE_ID,
        device.id(),
        Data::GPS(gps_position),
        Frequency::GPS,
        SignalLevel::red(),
    );
    send_signal_until_it_is_received(&mut device, gps_signal, 0);
    assert!(device.process_received_signals().is_ok());
    assert_eq!(*device.position(), global_position);
    assert_eq!(*device.gps_position(), gps_position);
}

#[test]
fn receive_and_process_broadcast_signal() {
    let mut next_id: DeviceId = 1;
    let task = Task::Attack(Point3D::new(5_000, 0, 0));
    let mut device = DeviceBuilder::new()
        .set_power_system(device_power_system())
        .set_trx_system(drone_green_trx_system())
        .build(&mut next_id);
    let signal = Signal::new(
        SOME_DEVICE_ID,
        BROADCAST_ID,
        Data::SetTask(task),
        Frequency::Control,
        SignalLevel::red(),
    );
    send_signal_until_it_is_received(&mut device, signal, 0);
    assert!(device.process_received_signals().is_ok());
    assert_eq!(task, *device.task());
}

#[test]
fn not_receive_signal_with_wrong_destination() {
    let mut next_id: DeviceId = 1;
    let mut device = DeviceBuilder::new()
        .set_power_system(device_power_system())
        .set_trx_system(drone_green_trx_system())
        .build(&mut next_id);
    let signal = Signal::new(
        SOME_DEVICE_ID,
        device.id() + 1,
        Data::SetTask(Task::Undefined),
        Frequency::Control,
        SignalLevel::red(),
    );
    assert!(matches!(
        device.receive_signal(signal, 0),
        Err(TRXSystemError::WrongSignalDestination)
    ));
}

#[test]
fn patched_device_does_not_get_infected() {
    let mut next_id: DeviceId = 1;
    let malware = indicator_malware();
    let mut device = DeviceBuilder::new()
        .set_power_system(device_power_system())
        .set_trx_system(drone_green_trx_system())
        .set_security_system(SecuritySystem::new(vec![malware]))
        .build(&mut next_id);
    let signal = Signal::new(
        SOME_DEVICE_ID,
        BROADCAST_ID,
        Data::Malware(malware),
        Frequency::Control,
        SignalLevel::red(),
    );
    assert!(!device.is_infected());
    assert!(!device.is_infected_with(&malware));
    send_signal_until_it_is_received(&mut device, signal, 0);
    assert!(device.process_received_signals().is_ok());
    assert!(!device.is_infected());
    assert!(!device.is_infected_with(&malware));
}

#[test]
fn vulnerable_device_gets_infected() {
    let mut next_id: DeviceId = 1;
    let malware = indicator_malware();
    let mut device = DeviceBuilder::new()
        .set_power_system(device_power_system())
        .set_trx_system(drone_green_trx_system())
        .build(&mut next_id);
    let signal = Signal::new(
        SOME_DEVICE_ID,
        BROADCAST_ID,
        Data::Malware(malware),
        Frequency::Control,
        SignalLevel::red(),
    );
    assert!(!device.is_infected());
    assert!(!device.is_infected_with(&malware));
    send_signal_until_it_is_received(&mut device, signal, 0);
    assert!(device.process_received_signals().is_ok());
    assert!(device.is_infected());
    assert!(device.is_infected_with(&malware));
}
