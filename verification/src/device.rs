//! A simulated device: identity, position, task, power, movement,
//! transceiver, security and infection state, advanced one tick at a time
//! by [`Device::update`].
use vstd::prelude::*;

use crate::DESTINATION_RADIUS;
use crate::ITERATION_TIME;
use crate::malware::InfectionMap;
use crate::malware::Malware;
use crate::malware::MalwareType;
use crate::mathphysics::COORD_LIMIT;
use crate::mathphysics::Frequency;
use crate::mathphysics::MAX_DISTANCE;
use crate::mathphysics::MAX_SPEED_LIMIT;
use crate::mathphysics::Millisecond;
use crate::mathphysics::Point3D;
use crate::mathphysics::PowerUnit;
use crate::mathphysics::Vector3D;
use crate::mathphysics::clamp_coord;
use crate::mathphysics::equation_of_motion_3d;
use crate::mathphysics::integer_sqrt;
use crate::mathphysics::is_sqrt_floor;
use crate::mathphysics::lemma_sqrt_floor_monotone;
use crate::mathphysics::lemma_sqrt_floor_square;
use crate::mathphysics::spec_clamp_coord;
use crate::mathphysics::spec_distance;
use crate::mathphysics::spec_scaled_velocity;
use crate::mathphysics::spec_sq;
use crate::mathphysics::sqrt_floor;
use crate::power::PowerSystem;
use crate::power::PowerSystemError;
use crate::power::spec_power_after_consume;
use crate::security::SecuritySystem;
use crate::signal::Data;
use crate::signal::Signal;
use crate::signal::SignalLevel;
use crate::signal::spec_area_radius;
use crate::mathphysics::spec_wave_length;
use crate::trx::FreqToLevelMap;
use crate::trx::RXError;
use crate::trx::RXModule;
use crate::trx::SignalRecord;
use crate::trx::TRXSystem;
use crate::trx::TRXSystemError;
use crate::trx::TXModule;
use crate::trx::TXModuleType;
use crate::task::Task;
use crate::trx::spec_rx_receive;
use crate::trx::spec_tx_level_at;

verus! {

pub type DeviceId = u64;

/// The reserved destination identifier meaning "every device".
pub const BROADCAST_ID: DeviceId = 0;

/// The fastest a drone's movement system is built for, in mm/s.
pub const MAX_DRONE_SPEED: u64 = 25_000;

/// Power drawn every tick just by being on.
pub const PASSIVE_POWER_CONSUMPTION: PowerUnit = 1;

/// Power drawn by moving for one tick.
pub const MOVEMENT_POWER_CONSUMPTION: PowerUnit = 5;

/// Power drawn by processing one received payload.
pub const PROCESSING_POWER_CONSUMPTION: PowerUnit = 5;

/// Hands out the next free device identifier and advances the counter, so
/// identifiers are unique, monotonically assigned, and never reused.  The
/// counter starts above [`BROADCAST_ID`], so no device ever carries the
/// broadcast identifier.
pub fn generate_device_id(next_free_id: &mut DeviceId) -> (r: DeviceId)
    requires
        BROADCAST_ID < *old(next_free_id) < u64::MAX,
    ensures
        r == *old(next_free_id),
        r != BROADCAST_ID,
        *final(next_free_id) == *old(next_free_id) + 1,
{
    let id = *next_free_id;
    *next_free_id = *next_free_id + 1;
    id
}

/// Failure of a device during one tick.
#[derive(Clone, Copy, Debug, PartialEq)]
pub enum DeviceError {
    PowerSystemError(PowerSystemError),
    TRXSystemError(TRXSystemError),
}

/// What a device does when the control signal is absent.
#[derive(Clone, Copy, Debug, PartialEq)]
pub enum SignalLossResponse {
    /// Climb straight up and try to reconnect.
    Ascend,
    /// Carry on with the current task.
    Ignore,
    /// Hold the current position.
    Hover,
    /// Fly back to the given home point.
    ReturnToHome(Point3D),
    /// Shut every system down at once.
    Shutdown,
}

impl SignalLossResponse {
    pub open spec fn wf(self) -> bool {
        match self {
            SignalLossResponse::ReturnToHome(p) => p.wf(),
            _ => true,
        }
    }
}

/// The movement system: the believed (GPS) position, the current velocity
/// as a vector whose displacement is millimeters per second, and the top
/// speed.  By default it is disabled and cannot move.
#[derive(Clone, Copy, Debug, PartialEq)]
pub struct MovementSystem {
    pub position: Point3D,
    pub velocity: Vector3D,
    pub max_speed: u64,
    pub disabled: bool,
}

/// The default, disabled movement system.
pub open spec fn spec_default_movement() -> MovementSystem {
    MovementSystem {
        position: Point3D { x: 0, y: 0, z: 0 },
        velocity: Vector3D {
            initial_point: Point3D { x: 0, y: 0, z: 0 },
            terminal_point: Point3D { x: 0, y: 0, z: 0 },
        },
        max_speed: 0,
        disabled: true,
    }
}

/// `v * speed / n`, truncated toward zero as the executable division is.
pub open spec fn spec_scaled_comp(d: int, speed: int, n: int) -> int {
    if d >= 0 {
        d * speed / n
    } else {
        -((-d) * speed / n)
    }
}

/// The vector from `v`'s initial point whose displacement points the same
/// way but has length `speed` (up to rounding); the zero vector stays
/// zero.
pub open spec fn spec_scale_to(v: Vector3D, speed: int) -> Vector3D {
    let n = sqrt_floor(spec_sq(v.spec_dx()) + spec_sq(v.spec_dy()) + spec_sq(v.spec_dz()));
    if n == 0 {
        Vector3D { initial_point: v.initial_point, terminal_point: v.initial_point }
    } else {
        Vector3D {
            initial_point: v.initial_point,
            terminal_point: Point3D {
                x: (v.initial_point.x + spec_scaled_comp(v.spec_dx(), speed, n)) as i64,
                y: (v.initial_point.y + spec_scaled_comp(v.spec_dy(), speed, n)) as i64,
                z: (v.initial_point.z + spec_scaled_comp(v.spec_dz(), speed, n)) as i64,
            },
        }
    }
}

proof fn lemma_scaled_comp_bounded(d: int, speed: int, sum: int, n: int)
    requires
        0 <= speed,
        spec_sq(d) <= sum,
        n == sqrt_floor(sum),
        is_sqrt_floor(sum, n),
        0 < n,
    ensures
        -speed <= spec_scaled_comp(d, speed, n) <= speed,
{
    let m = if d >= 0 {
        d
    } else {
        -d
    };
    assert(m * m == spec_sq(d)) by (nonlinear_arith)
        requires
            m == if d >= 0 {
                d
            } else {
                -d
            },
    ;
    lemma_sqrt_floor_square(m);
    lemma_sqrt_floor_monotone(m * m, sum);
    assert(m <= n);
    assert(m * speed <= n * speed) by (nonlinear_arith)
        requires
            0 <= m <= n,
            0 <= speed,
    ;
    vstd::arithmetic::div_mod::lemma_div_is_ordered(m * speed, n * speed, n);
    vstd::arithmetic::div_mod::lemma_div_by_multiple(speed, n);
    assert(n * speed == speed * n) by (nonlinear_arith);
    assert(m * speed / n <= speed);
    assert(0 <= m * speed) by (nonlinear_arith)
        requires
            0 <= m,
            0 <= speed,
    ;
    vstd::arithmetic::div_mod::lemma_div_pos_is_pos(m * speed, n);
}

/// Rescales a vector to the given speed.
fn scale_to(v: &Vector3D, speed: u64) -> (r: Vector3D)
    requires
        v.displacement_bounded(2_100_000_000_000),
        coord_loose(v.initial_point.x as int),
        coord_loose(v.initial_point.y as int),
        coord_loose(v.initial_point.z as int),
        speed <= MAX_SPEED_LIMIT,
    ensures
        r == spec_scale_to(*v, speed as int),
        r.displacement_bounded(speed as int),
        r.initial_point == v.initial_point,
{
    let dx: i64 = v.terminal_point.x - v.initial_point.x;
    let dy: i64 = v.terminal_point.y - v.initial_point.y;
    let dz: i64 = v.terminal_point.z - v.initial_point.z;
    proof {
        assert(0 <= dx as int * dx as int <= 4_410_000_000_000_000_000_000_000
            && 0 <= dy as int * dy as int <= 4_410_000_000_000_000_000_000_000
            && 0 <= dz as int * dz as int <= 4_410_000_000_000_000_000_000_000)
            by (nonlinear_arith)
            requires
                -2_100_000_000_000 <= dx as int <= 2_100_000_000_000,
                -2_100_000_000_000 <= dy as int <= 2_100_000_000_000,
                -2_100_000_000_000 <= dz as int <= 2_100_000_000_000,
        ;
    }
    let mx: u64 = if dx >= 0 { dx as u64 } else { (-dx) as u64 };
    let my: u64 = if dy >= 0 { dy as u64 } else { (-dy) as u64 };
    let mz: u64 = if dz >= 0 { dz as u64 } else { (-dz) as u64 };
    proof {
        assert(mx as int * mx as int == dx as int * dx as int
            && 0 <= mx as int * mx as int <= 4_410_000_000_000_000_000_000_000
            && my as int * my as int == dy as int * dy as int
            && 0 <= my as int * my as int <= 4_410_000_000_000_000_000_000_000
            && mz as int * mz as int == dz as int * dz as int
            && 0 <= mz as int * mz as int <= 4_410_000_000_000_000_000_000_000)
            by (nonlinear_arith)
            requires
                mx as int == if dx as int >= 0 { dx as int } else { -(dx as int) },
                my as int == if dy as int >= 0 { dy as int } else { -(dy as int) },
                mz as int == if dz as int >= 0 { dz as int } else { -(dz as int) },
                -2_100_000_000_000 <= dx as int <= 2_100_000_000_000,
                -2_100_000_000_000 <= dy as int <= 2_100_000_000_000,
                -2_100_000_000_000 <= dz as int <= 2_100_000_000_000,
        ;
    }
    let sq_sum: u128 = mx as u128 * mx as u128 + my as u128 * my as u128 + mz as u128
        * mz as u128;
    let n: u64 = integer_sqrt(sq_sum);
    if n == 0 {
        let r = Vector3D { initial_point: v.initial_point, terminal_point: v.initial_point };
        return r;
    }
    proof {
        lemma_scaled_comp_bounded(dx as int, speed as int, sq_sum as int, n as int);
        lemma_scaled_comp_bounded(dy as int, speed as int, sq_sum as int, n as int);
        lemma_scaled_comp_bounded(dz as int, speed as int, sq_sum as int, n as int);
        assert(mx as int * speed as int <= 2_100_000_000_000 as int * MAX_SPEED_LIMIT as int
            && my as int * speed as int <= 2_100_000_000_000 as int * MAX_SPEED_LIMIT as int
            && mz as int * speed as int <= 2_100_000_000_000 as int * MAX_SPEED_LIMIT as int)
            by (nonlinear_arith)
            requires
                0 <= mx as int <= 2_100_000_000_000,
                0 <= my as int <= 2_100_000_000_000,
                0 <= mz as int <= 2_100_000_000_000,
                0 <= speed as int <= MAX_SPEED_LIMIT as int,
        ;
    }
    let sx: u64 = ((mx as u128 * speed as u128) / n as u128) as u64;
    let sy: u64 = ((my as u128 * speed as u128) / n as u128) as u64;
    let sz: u64 = ((mz as u128 * speed as u128) / n as u128) as u64;
    let cx: i64 = if dx >= 0 { sx as i64 } else { -(sx as i64) };
    let cy: i64 = if dy >= 0 { sy as i64 } else { -(sy as i64) };
    let cz: i64 = if dz >= 0 { sz as i64 } else { -(sz as i64) };
    Vector3D {
        initial_point: v.initial_point,
        terminal_point: Point3D {
            x: v.initial_point.x + cx,
            y: v.initial_point.y + cy,
            z: v.initial_point.z + cz,
        },
    }
}

/// A coordinate that may stand one top speed outside the world box.
pub open spec fn coord_loose(c: int) -> bool {
    -(COORD_LIMIT as int) - (MAX_SPEED_LIMIT as int) <= c <= COORD_LIMIT as int
        + MAX_SPEED_LIMIT as int
}

impl MovementSystem {
    /// The believed position lies in the world, the velocity starts in
    /// the world (at most one top speed outside it) and its displacement
    /// never exceeds the top speed.
    pub open spec fn wf(self) -> bool {
        &&& self.position.wf()
        &&& self.max_speed <= MAX_SPEED_LIMIT
        &&& self.velocity.displacement_bounded(self.max_speed as int)
        &&& coord_loose(self.velocity.initial_point.x as int)
        &&& coord_loose(self.velocity.initial_point.y as int)
        &&& coord_loose(self.velocity.initial_point.z as int)
    }

    /// A working movement system with the given top speed.
    pub fn build(max_speed: u64) -> (r: Self)
        requires
            max_speed <= MAX_SPEED_LIMIT,
        ensures
            r == (MovementSystem {
                position: Point3D { x: 0, y: 0, z: 0 },
                velocity: spec_default_movement().velocity,
                max_speed,
                disabled: false,
            }),
            r.wf(),
    {
        Self {
            position: Point3D { x: 0, y: 0, z: 0 },
            velocity: Vector3D::zero(),
            max_speed,
            disabled: false,
        }
    }

    pub fn position(&self) -> (r: &Point3D)
        ensures
            r == &self.position,
    {
        &self.position
    }

    pub fn velocity(&self) -> (r: &Vector3D)
        ensures
            r == &self.velocity,
    {
        &self.velocity
    }

    pub fn max_speed(&self) -> (r: u64)
        ensures
            r == self.max_speed,
    {
        self.max_speed
    }

    pub fn is_disabled(&self) -> (r: bool)
        ensures
            r == self.disabled,
    {
        self.disabled
    }

    pub fn set_position(&mut self, position: Point3D)
        requires
            position.wf(),
        ensures
            *final(self) == (MovementSystem { position, ..*old(self) }),
            old(self).wf() ==> final(self).wf(),
    {
        self.position = position;
    }

    /// Points the velocity from the believed position toward the
    /// destination at top speed.
    pub fn set_direction(&mut self, destination: Point3D)
        requires
            old(self).wf(),
            destination.wf(),
        ensures
            *final(self) == (MovementSystem {
                velocity: spec_scale_to(
                    Vector3D { initial_point: old(self).position, terminal_point: destination },
                    old(self).max_speed as int,
                ),
                ..*old(self)
            }),
            final(self).wf(),
    {
        let direction = Vector3D { initial_point: self.position, terminal_point: destination };
        self.velocity = scale_to(&direction, self.max_speed);
    }

    /// Replaces the velocity by the given vector rescaled to top speed.
    pub fn set_velocity_scaled(&mut self, velocity: Vector3D)
        requires
            old(self).wf(),
            velocity.displacement_bounded(2_100_000_000_000),
            coord_loose(velocity.initial_point.x as int),
            coord_loose(velocity.initial_point.y as int),
            coord_loose(velocity.initial_point.z as int),
        ensures
            *final(self) == (MovementSystem {
                velocity: spec_scale_to(velocity, old(self).max_speed as int),
                ..*old(self)
            }),
            final(self).wf(),
    {
        self.velocity = scale_to(&velocity, self.max_speed);
    }
}

impl Default for MovementSystem {
    fn default() -> (r: Self)
        ensures
            r == spec_default_movement(),
            r.wf(),
    {
        Self {
            position: Point3D { x: 0, y: 0, z: 0 },
            velocity: Vector3D::zero(),
            max_speed: 0,
            disabled: true,
        }
    }
}

/// The spec-level image of a device, with the receive buffer, patch list
/// and infection record as sequences.
#[verifier::ext_equal]
pub struct DeviceView {
    pub id: DeviceId,
    pub current_time: Millisecond,
    pub real_position: Point3D,
    pub task: Task,
    pub power: PowerSystem,
    pub movement: MovementSystem,
    pub tx: TXModule,
    pub rx_max: FreqToLevelMap,
    pub rx_buffer: Seq<SignalRecord>,
    pub patches: Seq<Malware>,
    pub infections: Seq<(Malware, Millisecond)>,
    pub signal_loss_response: SignalLossResponse,
}

/// A drone or other network node.  One [`Device::update`] call advances it
/// by one tick.
#[derive(Clone, Debug, PartialEq)]
pub struct Device {
    pub id: DeviceId,
    pub current_time: Millisecond,
    pub real_position: Point3D,
    pub task: Task,
    pub power_system: PowerSystem,
    pub movement_system: MovementSystem,
    pub trx_system: TRXSystem,
    pub security_system: SecuritySystem,
    pub infection_map: InfectionMap,
    pub signal_loss_response: SignalLossResponse,
}

impl View for Device {
    type V = DeviceView;

    open spec fn view(&self) -> DeviceView {
        DeviceView {
            id: self.id,
            current_time: self.current_time,
            real_position: self.real_position,
            task: self.task,
            power: self.power_system,
            movement: self.movement_system,
            tx: self.trx_system.tx_module,
            rx_max: self.trx_system.rx_module.max_level_map,
            rx_buffer: self.trx_system.rx_module.received_signals@,
            patches: self.security_system.patch_list@,
            infections: self.infection_map.entries@,
            signal_loss_response: self.signal_loss_response,
        }
    }
}

// What follows defines one tick of a device as a function on its view, in
// the order the executable `update` performs it: passive power draw,
// malicious payload execution, processing of buffered signals, task or
// signal-loss handling, clearing the buffer, movement, and the clock.

/// Power drawn and, on exhaustion, selfdestruction: the power, movement
/// and transceiver systems are zeroed out.
pub open spec fn spec_try_consume(d: DeviceView, amount: int) -> (DeviceView, bool) {
    let ps = spec_power_after_consume(d.power, amount);
    if ps.power == 0 {
        (spec_selfdestructed(d), true)
    } else {
        (DeviceView { power: ps, ..d }, false)
    }
}

/// A selfdestructed device: power, movement and transceiver replaced by
/// their non-functioning defaults.
pub open spec fn spec_selfdestructed(d: DeviceView) -> DeviceView {
    DeviceView {
        power: PowerSystem { max_power: 0, power: 0 },
        movement: spec_default_movement(),
        tx: TXModule {
            module_type: TXModuleType::Strength,
            level_map: FreqToLevelMap { control: None, gps: None },
        },
        rx_max: FreqToLevelMap { control: None, gps: None },
        rx_buffer: Seq::empty(),
        ..d
    }
}

/// Executes one recorded infection whose payload is due this tick.
pub open spec fn spec_execute_infection(d: DeviceView, entry: (Malware, Millisecond)) -> DeviceView {
    if d.current_time == entry.1 + entry.0.infection_delay {
        match entry.0.malware_type {
            MalwareType::DoS(lost_power) => spec_try_consume(d, lost_power as int).0,
            MalwareType::Indicator => d,
        }
    } else {
        d
    }
}

/// Executes every due malicious payload, in infection order.
pub open spec fn spec_execute_infections(
    d: DeviceView,
    entries: Seq<(Malware, Millisecond)>,
) -> DeviceView
    decreases entries.len(),
{
    if entries.len() == 0 {
        d
    } else {
        spec_execute_infections(spec_execute_infection(d, entries[0]), entries.drop_first())
    }
}

/// The device is patched against this malware.
pub open spec fn spec_patched(d: DeviceView, m: Malware) -> bool {
    exists|i: int| 0 <= i < d.patches.len() && d.patches[i] == m
}

/// The device is infected with this malware.
pub open spec fn spec_infected_with(d: DeviceView, m: Malware) -> bool {
    exists|i: int| 0 <= i < d.infections.len() && d.infections[i].0 == m
}

/// Applies one received payload: a GPS fix updates the believed position,
/// malware infects a vulnerable device, a task assignment overwrites the
/// task; noise does nothing and costs nothing.  Every payload costs
/// processing power first.
pub open spec fn spec_process_data(d: DeviceView, data: Data) -> (DeviceView, bool) {
    if data is Noise {
        (d, false)
    } else {
        let (d1, failed) = spec_try_consume(d, PROCESSING_POWER_CONSUMPTION as int);
        if failed {
            (d1, true)
        } else {
            (
                match data {
                    Data::GPS(p) => DeviceView {
                        movement: MovementSystem { position: p, ..d1.movement },
                        ..d1
                    },
                    Data::Malware(m) => if !spec_infected_with(d1, m) && !spec_patched(d1, m) {
                        DeviceView {
                            infections: d1.infections.push((m, d1.current_time)),
                            ..d1
                        }
                    } else {
                        d1
                    },
                    Data::SetTask(t) => DeviceView { task: t, ..d1 },
                    Data::Noise => d1,
                },
                false,
            )
        }
    }
}

/// Processes the buffered signals in order, stopping on power exhaustion.
pub open spec fn spec_process_signals(d: DeviceView, records: Seq<SignalRecord>) -> (
    DeviceView,
    bool,
)
    decreases records.len(),
{
    if records.len() == 0 {
        (d, false)
    } else {
        let (d1, failed) = spec_process_data(d, records[0].1.data);
        if failed {
            (d1, true)
        } else {
            spec_process_signals(d1, records.drop_first())
        }
    }
}

/// The buffer holds a live (non-noise) signal on this frequency.
pub open spec fn spec_receives_signal_on(d: DeviceView, f: Frequency) -> bool {
    exists|i: int|
        0 <= i < d.rx_buffer.len() && (#[trigger] d.rx_buffer[i]).1.frequency == f && !(
        d.rx_buffer[i].1.data is Noise)
}

/// The device stands within the destination radius of the point.
pub open spec fn spec_at_destination(d: DeviceView, destination: Point3D) -> bool {
    spec_distance(d.real_position, destination) <= DESTINATION_RADIUS as int
}

/// Completes a destination task the device has arrived at: arrival of an
/// attack destroys the device, arrival of a repositioning clears the task.
pub open spec fn spec_try_complete_task(d: DeviceView) -> DeviceView {
    match d.task {
        Task::Attack(destination) => if spec_at_destination(d, destination) {
            spec_selfdestructed(d)
        } else {
            d
        },
        Task::Reposition(destination) => if spec_at_destination(d, destination) {
            DeviceView { task: Task::Undefined, ..d }
        } else {
            d
        },
        _ => d,
    }
}

/// The stored velocity with its vertical component dropped, rescaled to
/// top speed: the heading a device keeps when GPS is lost.
pub open spec fn spec_horizontal_velocity(d: DeviceView) -> Vector3D {
    let v = d.movement.velocity;
    spec_scale_to(
        Vector3D {
            initial_point: Point3D { z: 0, ..v.initial_point },
            terminal_point: Point3D { z: 0, ..v.terminal_point },
        },
        d.movement.max_speed as int,
    )
}

/// Works on the current task: with GPS, steer toward the destination and
/// check arrival; without GPS, keep a horizontal heading; with no
/// destination, do nothing.
pub open spec fn spec_process_task(d: DeviceView) -> DeviceView {
    let gps_is_connected = spec_receives_signal_on(d, Frequency::GPS);
    match d.task {
        Task::Attack(destination) | Task::Reconnect(destination) | Task::Reposition(
            destination,
        ) => if gps_is_connected {
            let steered = DeviceView {
                movement: MovementSystem {
                    velocity: spec_scale_to(
                        Vector3D {
                            initial_point: d.movement.position,
                            terminal_point: destination,
                        },
                        d.movement.max_speed as int,
                    ),
                    ..d.movement
                },
                ..d
            };
            spec_try_complete_task(steered)
        } else {
            DeviceView {
                movement: MovementSystem { velocity: spec_horizontal_velocity(d), ..d.movement },
                ..d
            }
        },
        Task::Undefined => d,
    }
}

/// The point one meter straight above the device, clamped to the world
/// box.
pub open spec fn spec_point_above(p: Point3D) -> Point3D {
    Point3D { z: spec_clamp_coord(p.z as int + 1000) as i64, ..p }
}

/// The configured response to a lost control signal.
pub open spec fn spec_handle_signal_loss(d: DeviceView) -> DeviceView {
    match d.signal_loss_response {
        SignalLossResponse::Ascend => {
            let above = spec_point_above(d.real_position);
            DeviceView {
                movement: MovementSystem {
                    velocity: spec_scale_to(
                        Vector3D { initial_point: d.movement.position, terminal_point: above },
                        d.movement.max_speed as int,
                    ),
                    ..d.movement
                },
                task: Task::Reconnect(above),
                ..d
            }
        },
        SignalLossResponse::Hover => spec_process_task(
            DeviceView { task: Task::Reconnect(d.real_position), ..d },
        ),
        SignalLossResponse::Ignore => spec_process_task(d),
        SignalLossResponse::ReturnToHome(home_point) => spec_process_task(
            DeviceView { task: Task::Reconnect(home_point), ..d },
        ),
        SignalLossResponse::Shutdown => spec_selfdestructed(d),
    }
}

/// One tick of movement: moving draws power (exhaustion destroys the
/// device before it moves), then the real position advances by the
/// velocity over one tick, saturating at the world box.
pub open spec fn spec_update_position(d: DeviceView) -> (DeviceView, bool) {
    if d.movement.disabled {
        (d, false)
    } else {
        let (d1, failed) = spec_try_consume(d, MOVEMENT_POWER_CONSUMPTION as int);
        if failed {
            (d1, true)
        } else {
            let v = d1.movement.velocity;
            let moved = Point3D {
                x: spec_clamp_coord(
                    d1.real_position.x + spec_scaled_velocity(
                        v.spec_dx(),
                        ITERATION_TIME as int,
                    ),
                ) as i64,
                y: spec_clamp_coord(
                    d1.real_position.y + spec_scaled_velocity(
                        v.spec_dy(),
                        ITERATION_TIME as int,
                    ),
                ) as i64,
                z: spec_clamp_coord(
                    d1.real_position.z + spec_scaled_velocity(
                        v.spec_dz(),
                        ITERATION_TIME as int,
                    ),
                ) as i64,
            };
            (DeviceView { real_position: moved, ..d1 }, false)
        }
    }
}

/// Executing infections never touches the clock.
proof fn lemma_infections_preserve_time(d: DeviceView, entries: Seq<(Malware, Millisecond)>)
    ensures
        spec_execute_infections(d, entries).current_time == d.current_time,
        spec_execute_infections(d, entries).id == d.id,
    decreases entries.len(),
{
    if entries.len() > 0 {
        lemma_infections_preserve_time(spec_execute_infection(d, entries[0]), entries.drop_first());
    }
}

/// Processing signals never touches the clock.
proof fn lemma_signals_preserve_time(d: DeviceView, records: Seq<SignalRecord>)
    ensures
        spec_process_signals(d, records).0.current_time == d.current_time,
        spec_process_signals(d, records).0.id == d.id,
    decreases records.len(),
{
    if records.len() > 0 {
        let (d1, failed) = spec_process_data(d, records[0].1.data);
        if !failed {
            lemma_signals_preserve_time(d1, records.drop_first());
        }
    }
}

/// A device whose power budget equals exactly the passive plus movement
/// cost of one tick fails that tick with a power exhaustion error and is
/// shut down by it: with nothing buffered, no infections, and any
/// signal-loss response short of an outright shutdown, the passive draw
/// and the movement draw drain the budget to zero.
pub proof fn lemma_exact_budget_exhausts(d: DeviceView)
    requires
        d.power.power == PASSIVE_POWER_CONSUMPTION + MOVEMENT_POWER_CONSUMPTION,
        !d.movement.disabled,
        d.rx_buffer.len() == 0,
        d.infections.len() == 0,
        !(d.signal_loss_response is Shutdown),
        d.current_time + ITERATION_TIME <= u64::MAX,
    ensures
        spec_device_update(d).1 == Some(
            DeviceError::PowerSystemError(PowerSystemError::NoPowerLeft),
        ),
        spec_device_update(d).0.power.power == 0,
{
    let (d1, f1) = spec_try_consume(d, PASSIVE_POWER_CONSUMPTION as int);
    assert(!f1);
    assert(spec_execute_infections(d1, d1.infections) == d1);
    let (d3, f3) = spec_process_signals(d1, d1.rx_buffer);
    assert(d3 == d1 && !f3);
    assert(!spec_receives_signal_on(d1, Frequency::Control));
    assert(!spec_receives_signal_on(d1, Frequency::GPS));
    let d4 = spec_handle_signal_loss(d1);
    assert(d4.power == d1.power && !d4.movement.disabled);
    let d5 = DeviceView { rx_buffer: Seq::empty(), ..d4 };
    let (d6, f6) = spec_update_position(d5);
    assert(f6);
}

/// A powered-off device stays powered off: its next tick fails at the
/// passive draw and leaves its power at zero.
pub proof fn lemma_shut_down_stays(d: DeviceView)
    ensures
        d.power.power == 0 ==> spec_device_update(d).1 == Some(
            DeviceError::PowerSystemError(PowerSystemError::NoPowerLeft),
        ) && spec_device_update(d).0.power.power == 0,
{
}

proof fn lemma_signals_failure_drains(d: DeviceView, records: Seq<SignalRecord>)
    ensures
        spec_process_signals(d, records).1 ==> spec_process_signals(d, records).0.power.power
            == 0,
    decreases records.len(),
{
    if records.len() > 0 {
        let (d1, failed) = spec_process_data(d, records[0].1.data);
        if !failed {
            lemma_signals_failure_drains(d1, records.drop_first());
        }
    }
}

/// A tick that surfaces an error has destroyed the device: its power is
/// zero afterward.
pub proof fn lemma_update_failure_drains(d: DeviceView)
    ensures
        spec_device_update(d).1 is Some ==> spec_device_update(d).0.power.power == 0,
{
    let (d1, f1) = spec_try_consume(d, PASSIVE_POWER_CONSUMPTION as int);
    if !f1 {
        let d2 = spec_execute_infections(d1, d1.infections);
        let (d3, f3) = spec_process_signals(d2, d2.rx_buffer);
        if f3 {
            lemma_signals_failure_drains(d2, d2.rx_buffer);
        }
    }
}

/// One tick either advances the device's clock by exactly one tick
/// length or leaves the device drained.
pub proof fn lemma_update_dichotomy(d: DeviceView)
    requires
        d.current_time + ITERATION_TIME <= u64::MAX,
    ensures
        spec_device_update(d).0.current_time == d.current_time + ITERATION_TIME
            || spec_device_update(d).0.power.power == 0,
{
    if spec_device_update(d).1 is Some {
        lemma_update_failure_drains(d);
    } else {
        let (d1, f1) = spec_try_consume(d, PASSIVE_POWER_CONSUMPTION as int);
        lemma_infections_preserve_time(d1, d1.infections);
        let d2 = spec_execute_infections(d1, d1.infections);
        lemma_signals_preserve_time(d2, d2.rx_buffer);
    }
}

/// One tick moves a device's clock forward by at most one tick length and
/// never changes its identity.
pub proof fn lemma_update_clock(d: DeviceView)
    requires
        d.current_time + ITERATION_TIME <= u64::MAX,
    ensures
        spec_device_update(d).0.id == d.id,
        d.current_time <= spec_device_update(d).0.current_time,
        spec_device_update(d).0.current_time <= d.current_time + ITERATION_TIME,
{
    let (d1, f1) = spec_try_consume(d, PASSIVE_POWER_CONSUMPTION as int);
    if !f1 {
        lemma_infections_preserve_time(d1, d1.infections);
        let d2 = spec_execute_infections(d1, d1.infections);
        lemma_signals_preserve_time(d2, d2.rx_buffer);
    }
}

/// One whole tick of a device, and the error it surfaces, if any.  The
/// phases run in the order of the clauses; a power failure in the passive
/// draw, the signal processing or the movement phase stops the tick early
/// (the clock then does not advance), and any such failure has already
/// destroyed the device.
pub open spec fn spec_device_update(d: DeviceView) -> (DeviceView, Option<DeviceError>) {
    let (d1, f1) = spec_try_consume(d, PASSIVE_POWER_CONSUMPTION as int);
    if f1 {
        (d1, Some(DeviceError::PowerSystemError(PowerSystemError::NoPowerLeft)))
    } else {
        let d2 = spec_execute_infections(d1, d1.infections);
        let (d3, f3) = spec_process_signals(d2, d2.rx_buffer);
        if f3 {
            (d3, Some(DeviceError::PowerSystemError(PowerSystemError::NoPowerLeft)))
        } else {
            let d4 = if spec_receives_signal_on(d3, Frequency::Control) {
                spec_process_task(d3)
            } else {
                spec_handle_signal_loss(d3)
            };
            let d5 = DeviceView { rx_buffer: Seq::empty(), ..d4 };
            let (d6, f6) = spec_update_position(d5);
            if f6 {
                (d6, Some(DeviceError::PowerSystemError(PowerSystemError::NoPowerLeft)))
            } else {
                (
                    DeviceView { current_time: (d6.current_time + ITERATION_TIME) as u64, ..d6 },
                    None,
                )
            }
        }
    }
}

impl Device {
    /// Every component is well formed and every point lies in the world.
    pub open spec fn wf(self) -> bool {
        &&& self.real_position.wf()
        &&& self.task.wf()
        &&& self.power_system.wf()
        &&& self.movement_system.wf()
        &&& self.trx_system.wf()
        &&& self.infection_map.wf()
        &&& self.signal_loss_response.wf()
    }

    pub fn new(
        id: DeviceId,
        real_position: Point3D,
        task: Task,
        power_system: PowerSystem,
        movement_system: MovementSystem,
        trx_system: TRXSystem,
        security_system: SecuritySystem,
        signal_loss_response: SignalLossResponse,
    ) -> (r: Self)
        requires
            real_position.wf(),
            task.wf(),
            power_system.wf(),
            movement_system.wf(),
            trx_system.wf(),
            signal_loss_response.wf(),
        ensures
            r.id == id,
            r.current_time == 0,
            r.real_position == real_position,
            r.task == task,
            r.power_system == power_system,
            r.movement_system == movement_system,
            r.trx_system == trx_system,
            r.security_system == security_system,
            r.infection_map.entries@.len() == 0,
            r.signal_loss_response == signal_loss_response,
            r.wf(),
    {
        Self {
            id,
            current_time: 0,
            real_position,
            task,
            power_system,
            movement_system,
            trx_system,
            security_system,
            infection_map: InfectionMap::new(),
            signal_loss_response,
        }
    }

    pub fn id(&self) -> (r: DeviceId)
        ensures
            r == self.id,
    {
        self.id
    }

    pub fn task(&self) -> (r: &Task)
        ensures
            r == &self.task,
    {
        &self.task
    }

    /// The position the device believes it has (its last GPS fix).
    pub fn gps_position(&self) -> (r: &Point3D)
        ensures
            r == &self.movement_system.position,
    {
        self.movement_system.position()
    }

    /// The position the device really has.
    pub fn position(&self) -> (r: &Point3D)
        ensures
            r == &self.real_position,
    {
        &self.real_position
    }

    pub fn infection_map(&self) -> (r: &InfectionMap)
        ensures
            r == &self.infection_map,
    {
        &self.infection_map
    }

    pub fn signal_loss_response(&self) -> (r: &SignalLossResponse)
        ensures
            r == &self.signal_loss_response,
    {
        &self.signal_loss_response
    }

    pub fn tx_signal_level_map(&self) -> (r: &FreqToLevelMap)
        ensures
            r == &self.trx_system.tx_module.level_map,
    {
        self.trx_system.tx_signal_level_map()
    }

    pub fn tx_signal_level_on(&self, frequency: Frequency) -> (r: Option<SignalLevel>)
        ensures
            r == self.trx_system.tx_module.level_map.spec_get(frequency),
    {
        self.trx_system.tx_signal_level_on(frequency)
    }

    /// The coverage radius of this device on the frequency, in
    /// millimeters.
    pub fn area_radius_on(&self, frequency: Frequency) -> (r: u64)
        requires
            self.wf(),
        ensures
            r as int == match self@.tx.level_map.spec_get(frequency) {
                Option::Some(level) => spec_area_radius(
                    level.spec_strength(),
                    spec_wave_length(frequency.spec_megahertz() as int),
                ),
                Option::None => 0,
            },
            r <= MAX_DISTANCE,
    {
        self.trx_system.area_radius_on(frequency)
    }

    /// The distance to another device, in millimeters.
    pub fn distance_to(&self, other: &Device) -> (r: u64)
        requires
            self.wf(),
            other.wf(),
        ensures
            r == spec_distance(self.real_position, other.real_position),
            r <= MAX_DISTANCE,
    {
        self.real_position.distance_to(&other.real_position)
    }

    /// The distance to a point, in millimeters.
    pub fn distance_to_point(&self, point: &Point3D) -> (r: u64)
        requires
            self.wf(),
            point.wf(),
        ensures
            r == spec_distance(self.real_position, *point),
            r <= MAX_DISTANCE,
    {
        self.real_position.distance_to(point)
    }

    /// This device reaches a receiver at `distance` on the frequency.
    pub fn transmits_at(&self, distance: u64, frequency: Frequency) -> (r: bool)
        requires
            self.wf(),
            distance <= MAX_DISTANCE,
        ensures
            r == (spec_tx_level_at(self@.tx, frequency, distance as int) is Some),
    {
        self.trx_system.transmits_at(distance, frequency)
    }

    /// The level this device delivers at the receiver, or `None` when the
    /// receiver is out of range.
    pub fn tx_signal_level_at(&self, receiver: &Device, frequency: Frequency) -> (r: Option<
        SignalLevel,
    >)
        requires
            self.wf(),
            receiver.wf(),
        ensures
            r == spec_tx_level_at(
                self@.tx,
                frequency,
                spec_distance(self.real_position, receiver.real_position),
            ),
            r is Some ==> r->0.wf() && r->0.spec_rank() != 0,
    {
        let distance = self.distance_to(receiver);
        self.trx_system.tx_signal_level_at(distance, frequency)
    }

    /// Builds the signal this device would deliver to the receiver, or
    /// fails when the receiver is out of range on the frequency.
    pub fn create_signal_for(&self, receiver: &Device, data: Data, frequency: Frequency) -> (r:
        Result<Signal, TRXSystemError>)
        requires
            self.wf(),
            receiver.wf(),
            data.wf(),
        ensures
            ({
                let level = spec_tx_level_at(
                    self@.tx,
                    frequency,
                    spec_distance(self.real_position, receiver.real_position),
                );
                match r {
                    Ok(s) => level is Some && s == (Signal {
                        source_id: self.id,
                        destination_id: receiver.id,
                        data,
                        frequency,
                        level: level->0,
                    }) && s.wf(),
                    Err(e) => level is None && e == TRXSystemError::RXOutOfRange,
                }
            }),
    {
        let signal_level = match self.tx_signal_level_at(receiver, frequency) {
            Some(level) => level,
            None => { return Err(TRXSystemError::RXOutOfRange) },
        };
        Ok(Signal::new(self.id, receiver.id(), data, frequency, signal_level))
    }

    /// The device holds a live signal on this frequency.
    pub fn receives_signal_on(&self, frequency: Frequency) -> (r: bool)
        ensures
            r == spec_receives_signal_on(self@, frequency),
    {
        self.trx_system.receives_signal_on(frequency)
    }

    /// One receive attempt.  A signal addressed to another device is
    /// refused outright; otherwise the receive module takes it, with the
    /// probabilistic capture check drawn at random, so the outcome is one
    /// of the behaviours [`spec_rx_receive`] describes.
    pub fn receive_signal(&mut self, signal: Signal, time: Millisecond) -> (r: Result<
        (),
        TRXSystemError,
    >)
        requires
            old(self).wf(),
            signal.wf(),
        ensures
            final(self).wf(),
            signal.destination_id != BROADCAST_ID && signal.destination_id != old(self).id ==> (
            *final(self) == *old(self) && r == Result::<(), TRXSystemError>::Err(
                TRXSystemError::WrongSignalDestination,
            )),
            signal.destination_id == BROADCAST_ID || signal.destination_id == old(self).id ==> (
            final(self).trx_system.tx_module == old(self).trx_system.tx_module && (*final(self)
                == (Device { trx_system: final(self).trx_system, ..*old(self) })) && exists|
                captured: bool,
                rx_result: Result<(), RXError>,
            |
                {
                    &&& spec_rx_receive(
                        old(self).trx_system.rx_module,
                        final(self).trx_system.rx_module,
                        signal,
                        time,
                        captured,
                        rx_result,
                    )
                    &&& r == match rx_result {
                        Result::Ok(()) => Result::<(), TRXSystemError>::Ok(()),
                        Result::Err(e) => Result::<(), TRXSystemError>::Err(
                            TRXSystemError::RXModuleError(e),
                        ),
                    }
                }),
    {
        if signal.destination_id() != BROADCAST_ID && signal.destination_id() != self.id {
            return Err(TRXSystemError::WrongSignalDestination);
        }
        self.trx_system.receive_signal(signal, time)
    }

    pub fn is_infected(&self) -> (r: bool)
        ensures
            r == (self.infection_map.entries@.len() != 0),
    {
        !self.infection_map.is_empty()
    }

    pub fn is_infected_with(&self, malware: &Malware) -> (r: bool)
        ensures
            r == self.infection_map.spec_contains(*malware),
    {
        self.infection_map.contains(malware)
    }

    /// The device is powered off: selfdestructed or drained.
    pub fn is_shut_down(&self) -> (r: bool)
        ensures
            r == (self.power_system.power == 0),
    {
        self.power_system.power() == 0
    }

    /// The device stands within the destination radius of the point.
    pub fn at_destination(&self, destination: &Point3D) -> (r: bool)
        requires
            self.wf(),
            destination.wf(),
        ensures
            r == spec_at_destination(self@, *destination),
    {
        self.real_position.distance_to(destination) <= (DESTINATION_RADIUS as u64)
    }

    /// Checks the device invariant at run time, for restoring persisted
    /// devices: a `true` answer guarantees [`Device::wf`].  The check is
    /// conservative about the receive buffer: it accepts only an empty
    /// one, which every device shows at a tick boundary.
    pub fn check_wf(&self) -> (r: bool)
        ensures
            r ==> self.wf(),
    {
        let position_ok = crate::signal::check_point(&self.real_position);
        let task_ok = crate::signal::check_task(&self.task);
        let power_ok = self.power_system.power <= self.power_system.max_power;
        let m = &self.movement_system;
        let dx = m.velocity.terminal_point.x as i128 - m.velocity.initial_point.x as i128;
        let dy = m.velocity.terminal_point.y as i128 - m.velocity.initial_point.y as i128;
        let dz = m.velocity.terminal_point.z as i128 - m.velocity.initial_point.z as i128;
        let speed = m.max_speed as i128;
        let loose: i128 = COORD_LIMIT as i128 + MAX_SPEED_LIMIT as i128;
        let movement_ok = crate::signal::check_point(&m.position) && m.max_speed
            <= MAX_SPEED_LIMIT && -speed <= dx && dx <= speed && -speed <= dy && dy <= speed
            && -speed <= dz && dz <= speed && -loose <= m.velocity.initial_point.x as i128
            && m.velocity.initial_point.x as i128 <= loose
            && -loose <= m.velocity.initial_point.y as i128
            && m.velocity.initial_point.y as i128 <= loose
            && -loose <= m.velocity.initial_point.z as i128
            && m.velocity.initial_point.z as i128 <= loose;
        let trx_ok = crate::trx::check_level_map(&self.trx_system.tx_module.level_map)
            && crate::trx::check_level_map(&self.trx_system.rx_module.max_level_map)
            && self.trx_system.rx_module.received_signals.len() == 0;
        let mut infections_ok = true;
        let entries = &self.infection_map.entries;
        let mut i: usize = 0;
        while i < entries.len()
            invariant
                i <= entries@.len(),
                infections_ok ==> forall|a: int, b: int|
                    0 <= a < b < i ==> entries@[a].0 != entries@[b].0,
            decreases entries@.len() - i,
        {
            let mut k: usize = 0;
            while k < i
                invariant
                    i < entries@.len(),
                    k <= i,
                    infections_ok ==> forall|a: int, b: int|
                        0 <= a < b < i ==> entries@[a].0 != entries@[b].0,
                    infections_ok ==> forall|a: int| 0 <= a < k ==> entries@[a].0 != entries@[
                        i as int
                    ].0,
                decreases i - k,
            {
                if entries[k].0.same_as(&entries[i].0) {
                    infections_ok = false;
                }
                k = k + 1;
            }
            proof {
                if infections_ok {
                    assert forall|a: int, b: int| 0 <= a < b < i + 1 implies entries@[a].0
                        != entries@[b].0 by {
                        if b == i as int {
                            assert(entries@[a].0 != entries@[i as int].0);
                        }
                    }
                }
            }
            i = i + 1;
        }
        let slr_ok = match self.signal_loss_response {
            SignalLossResponse::ReturnToHome(p) => crate::signal::check_point(&p),
            _ => true,
        };
        position_ok && task_ok && power_ok && movement_ok && trx_ok && infections_ok && slr_ok
    }

    /// Zeroes out the power, movement and transceiver systems,
    /// functionally disabling the device.
    pub fn selfdestruction(&mut self)
        ensures
            final(self)@ =~= spec_selfdestructed(old(self)@),
            old(self).wf() ==> final(self).wf(),
    {
        self.power_system = PowerSystem::default();
        self.movement_system = MovementSystem::default();
        self.trx_system = TRXSystem::default();
        proof {
            assert(self@ =~= spec_selfdestructed(old(self)@));
        }
    }

    /// Draws power; exhaustion destroys the device and surfaces the
    /// failure.
    fn try_consume_power(&mut self, power: PowerUnit) -> (r: Result<(), PowerSystemError>)
        ensures
            ({
                let (dv, failed) = spec_try_consume(old(self)@, power as int);
                &&& final(self)@ =~= dv
                &&& (r is Err <==> failed)
                &&& r is Err ==> r == Result::<(), PowerSystemError>::Err(
                    PowerSystemError::NoPowerLeft,
                )
            }),
            old(self).wf() ==> final(self).wf(),
    {
        let result = self.power_system.consume_power(power);
        if result.is_err() {
            self.selfdestruction();
            return Err(PowerSystemError::NoPowerLeft);
        }
        Ok(())
    }

    /// Executes every malicious payload that is due this tick.
    fn handle_malware_infections(&mut self)
        requires
            old(self).wf(),
        ensures
            final(self)@ =~= spec_execute_infections(old(self)@, old(self)@.infections),
            final(self).wf(),
    {
        let ghost orig = self@;
        let mut i: usize = 0;
        proof {
            assert(orig.infections.skip(0) =~= orig.infections);
        }
        while i < self.infection_map.entries.len()
            invariant
                i <= self.infection_map.entries@.len(),
                self.wf(),
                self.infection_map.entries@ == orig.infections,
                self@.infections == orig.infections,
                spec_execute_infections(orig, orig.infections) == spec_execute_infections(
                    self@,
                    orig.infections.skip(i as int),
                ),
            decreases self.infection_map.entries@.len() - i,
        {
            let ghost before = self@;
            let (malware, infection_time) = self.infection_map.entries[i];
            let due = self.current_time as u128 == infection_time as u128
                + malware.infection_delay as u128;
            if due {
                match malware.malware_type {
                    MalwareType::DoS(lost_power) => {
                        let _ = self.try_consume_power(lost_power);
                    },
                    MalwareType::Indicator => (),
                }
            }
            proof {
                let entry = orig.infections[i as int];
                assert(self@ =~= spec_execute_infection(before, entry));
                assert(orig.infections.skip(i as int).drop_first() =~= orig.infections.skip(
                    i as int + 1,
                ));
                assert(orig.infections.skip(i as int)[0] == entry);
            }
            i = i + 1;
        }
        proof {
            assert(orig.infections.skip(self.infection_map.entries@.len() as int)
                =~= Seq::<(Malware, Millisecond)>::empty());
        }
    }

    /// Records an infection unless the device is already infected or
    /// patched.
    fn process_malware(&mut self, malware: &Malware)
        requires
            old(self).wf(),
        ensures
            final(self)@ =~= (if !spec_infected_with(old(self)@, *malware) && !spec_patched(
                old(self)@,
                *malware,
            ) {
                DeviceView {
                    infections: old(self)@.infections.push((*malware, old(self)@.current_time)),
                    ..old(self)@
                }
            } else {
                old(self)@
            }),
            final(self).wf(),
    {
        if !self.infection_map.contains(malware) && !self.security_system.patches(malware) {
            self.infection_map.insert(*malware, self.current_time);
        }
    }

    /// Applies one received payload; see [`spec_process_data`].
    fn process_data(&mut self, data: &Data) -> (r: Result<(), DeviceError>)
        requires
            old(self).wf(),
            data.wf(),
        ensures
            ({
                let (dv, failed) = spec_process_data(old(self)@, *data);
                &&& final(self)@ =~= dv
                &&& (r is Err <==> failed)
                &&& r is Err ==> r == Result::<(), DeviceError>::Err(
                    DeviceError::PowerSystemError(PowerSystemError::NoPowerLeft),
                )
            }),
            final(self).wf(),
    {
        if matches!(data, Data::Noise) {
            return Ok(());
        }
        if self.try_consume_power(PROCESSING_POWER_CONSUMPTION).is_err() {
            return Err(DeviceError::PowerSystemError(PowerSystemError::NoPowerLeft));
        }
        match data {
            Data::GPS(gps_position) => self.movement_system.set_position(*gps_position),
            Data::Malware(malware) => self.process_malware(malware),
            Data::SetTask(task) => self.task = *task,
            Data::Noise => (),
        }
        Ok(())
    }

    /// Processes every buffered signal in order; see
    /// [`spec_process_signals`].
    pub fn process_received_signals(&mut self) -> (r: Result<(), DeviceError>)
        requires
            old(self).wf(),
        ensures
            ({
                let (dv, failed) = spec_process_signals(old(self)@, old(self)@.rx_buffer);
                &&& final(self)@ =~= dv
                &&& (r is Err <==> failed)
                &&& r is Err ==> r == Result::<(), DeviceError>::Err(
                    DeviceError::PowerSystemError(PowerSystemError::NoPowerLeft),
                )
            }),
            final(self).wf(),
    {
        let ghost orig = self@;
        let mut i: usize = 0;
        proof {
            assert(orig.rx_buffer.skip(0) =~= orig.rx_buffer);
        }
        while i < self.trx_system.rx_module.received_signals.len()
            invariant
                orig == old(self)@,
                i <= self.trx_system.rx_module.received_signals@.len(),
                self.wf(),
                self.trx_system.rx_module.received_signals@ == orig.rx_buffer,
                spec_process_signals(orig, orig.rx_buffer) == spec_process_signals(
                    self@,
                    orig.rx_buffer.skip(i as int),
                ),
            decreases self.trx_system.rx_module.received_signals@.len() - i,
        {
            let ghost before = self@;
            let record_signal = self.trx_system.rx_module.received_signals[i].1;
            let result = self.process_data(&record_signal.data);
            proof {
                let rec = orig.rx_buffer[i as int];
                assert(orig.rx_buffer.skip(i as int)[0] == rec);
                assert(orig.rx_buffer.skip(i as int).drop_first() =~= orig.rx_buffer.skip(
                    i as int + 1,
                ));
                let (dv, failed) = spec_process_data(before, rec.1.data);
                assert(self@ == dv);
                if failed {
                    assert(spec_process_signals(before, orig.rx_buffer.skip(i as int)) == (
                    dv,
                    true,
                    ));
                } else {
                    assert(spec_process_signals(before, orig.rx_buffer.skip(i as int))
                        == spec_process_signals(dv, orig.rx_buffer.skip(i as int + 1)));
                }
            }
            if result.is_err() {
                return Err(DeviceError::PowerSystemError(PowerSystemError::NoPowerLeft));
            }
            i = i + 1;
        }
        proof {
            assert(orig.rx_buffer.skip(orig.rx_buffer.len() as int) =~= Seq::<
                SignalRecord,
            >::empty());
        }
        Ok(())
    }

    /// Keeps a horizontal heading: the stored velocity loses its vertical
    /// component and is rescaled to top speed.
    fn set_horizontal_velocity(&mut self)
        requires
            old(self).wf(),
        ensures
            final(self)@ =~= (DeviceView {
                movement: MovementSystem {
                    velocity: spec_horizontal_velocity(old(self)@),
                    ..old(self)@.movement
                },
                ..old(self)@
            }),
            final(self).wf(),
    {
        let v = self.movement_system.velocity;
        let flat = Vector3D {
            initial_point: Point3D { z: 0, ..v.initial_point },
            terminal_point: Point3D { z: 0, ..v.terminal_point },
        };
        self.movement_system.set_velocity_scaled(flat);
    }

    /// Completes a destination task on arrival; see
    /// [`spec_try_complete_task`].
    fn try_complete_task(&mut self)
        requires
            old(self).wf(),
        ensures
            final(self)@ =~= spec_try_complete_task(old(self)@),
            final(self).wf(),
    {
        match self.task {
            Task::Attack(destination) => {
                if self.at_destination(&destination) {
                    self.selfdestruction();
                }
            },
            Task::Reposition(destination) => {
                if self.at_destination(&destination) {
                    self.task = Task::Undefined;
                }
            },
            _ => (),
        }
    }

    /// Works on the current task; see [`spec_process_task`].
    fn process_task(&mut self)
        requires
            old(self).wf(),
        ensures
            final(self)@ =~= spec_process_task(old(self)@),
            final(self).wf(),
    {
        let gps_is_connected = self.receives_signal_on(Frequency::GPS);
        let destination = match self.task {
            Task::Attack(destination) => Some(destination),
            Task::Reconnect(destination) => Some(destination),
            Task::Reposition(destination) => Some(destination),
            Task::Undefined => None,
        };
        match destination {
            Some(destination) => {
                if gps_is_connected {
                    self.movement_system.set_direction(destination);
                    self.try_complete_task();
                } else {
                    self.set_horizontal_velocity();
                }
            },
            None => (),
        }
    }

    /// Applies the configured response to a lost control signal; see
    /// [`spec_handle_signal_loss`].
    fn handle_signal_loss(&mut self)
        requires
            old(self).wf(),
        ensures
            final(self)@ =~= spec_handle_signal_loss(old(self)@),
            final(self).wf(),
    {
        match self.signal_loss_response {
            SignalLossResponse::Ascend => {
                let above = Point3D {
                    x: self.real_position.x,
                    y: self.real_position.y,
                    z: clamp_coord(self.real_position.z + 1000),
                };
                self.movement_system.set_direction(above);
                self.task = Task::Reconnect(above);
            },
            SignalLossResponse::Hover => {
                self.task = Task::Reconnect(self.real_position);
                self.process_task();
            },
            SignalLossResponse::Ignore => {
                self.process_task();
            },
            SignalLossResponse::ReturnToHome(home_point) => {
                self.task = Task::Reconnect(home_point);
                self.process_task();
            },
            SignalLossResponse::Shutdown => {
                self.selfdestruction();
            },
        }
    }

    /// One tick of movement; see [`spec_update_position`].
    fn update_real_position(&mut self) -> (r: Result<(), DeviceError>)
        requires
            old(self).wf(),
        ensures
            ({
                let (dv, failed) = spec_update_position(old(self)@);
                &&& final(self)@ =~= dv
                &&& (r is Err <==> failed)
                &&& r is Err ==> r == Result::<(), DeviceError>::Err(
                    DeviceError::PowerSystemError(PowerSystemError::NoPowerLeft),
                )
            }),
            final(self).wf(),
    {
        if self.movement_system.is_disabled() {
            return Ok(());
        }
        if self.try_consume_power(MOVEMENT_POWER_CONSUMPTION).is_err() {
            return Err(DeviceError::PowerSystemError(PowerSystemError::NoPowerLeft));
        }
        let displacement = self.movement_system.velocity.displacement();
        let moved = equation_of_motion_3d(&self.real_position, &displacement, ITERATION_TIME);
        self.real_position = Point3D {
            x: clamp_coord(moved.x),
            y: clamp_coord(moved.y),
            z: clamp_coord(moved.z),
        };
        Ok(())
    }

    /// Advances the device one tick; see [`spec_device_update`] for the
    /// full behaviour.  The call fails exactly when a power draw exhausts
    /// the budget, and the device has then destroyed itself.
    pub fn update(&mut self) -> (r: Result<(), DeviceError>)
        requires
            old(self).wf(),
            old(self).current_time + ITERATION_TIME <= u64::MAX,
        ensures
            final(self).wf(),
            ({
                let (dv, err) = spec_device_update(old(self)@);
                &&& final(self)@ =~= dv
                &&& r == match err {
                    Some(e) => Result::<(), DeviceError>::Err(e),
                    None => Result::<(), DeviceError>::Ok(()),
                }
            }),
    {
        if self.try_consume_power(PASSIVE_POWER_CONSUMPTION).is_err() {
            return Err(DeviceError::PowerSystemError(PowerSystemError::NoPowerLeft));
        }
        proof {
            lemma_infections_preserve_time(self@, self@.infections);
        }
        self.handle_malware_infections();
        proof {
            lemma_signals_preserve_time(self@, self@.rx_buffer);
        }
        if let Err(error) = self.process_received_signals() {
            return Err(error);
        }
        if self.receives_signal_on(Frequency::Control) {
            self.process_task();
        } else {
            self.handle_signal_loss();
        }
        let ghost before_clear = self@;
        self.trx_system.clear_received_signals();
        proof {
            assert(self@ =~= (DeviceView { rx_buffer: Seq::empty(), ..before_clear }));
        }
        if let Err(error) = self.update_real_position() {
            return Err(error);
        }
        self.current_time = self.current_time + ITERATION_TIME;
        Ok(())
    }
}

/// Assembles a device from optional parts, with non-functioning defaults
/// for whatever is left unset.
#[derive(Clone, Debug, Default)]
pub struct DeviceBuilder {
    pub real_position: Option<Point3D>,
    pub task: Option<Task>,
    pub power_system: Option<PowerSystem>,
    pub movement_system: Option<MovementSystem>,
    pub trx_system: Option<TRXSystem>,
    pub security_system: Option<SecuritySystem>,
    pub signal_loss_response: Option<SignalLossResponse>,
}

impl DeviceBuilder {
    pub open spec fn wf(self) -> bool {
        &&& (self.real_position is Some ==> self.real_position->0.wf())
        &&& (self.task is Some ==> self.task->0.wf())
        &&& (self.power_system is Some ==> self.power_system->0.wf())
        &&& (self.movement_system is Some ==> self.movement_system->0.wf())
        &&& (self.trx_system is Some ==> self.trx_system->0.wf())
        &&& (self.signal_loss_response is Some ==> self.signal_loss_response->0.wf())
    }

    pub fn new() -> (r: Self)
        ensures
            r.real_position is None,
            r.task is None,
            r.power_system is None,
            r.movement_system is None,
            r.trx_system is None,
            r.security_system is None,
            r.signal_loss_response is None,
            r.wf(),
    {
        Self {
            real_position: None,
            task: None,
            power_system: None,
            movement_system: None,
            trx_system: None,
            security_system: None,
            signal_loss_response: None,
        }
    }

    pub fn set_real_position(self, real_position: Point3D) -> (r: Self)
        requires
            real_position.wf(),
        ensures
            r == (DeviceBuilder { real_position: Some(real_position), ..self }),
    {
        Self { real_position: Some(real_position), ..self }
    }

    pub fn set_task(self, task: Task) -> (r: Self)
        requires
            task.wf(),
        ensures
            r == (DeviceBuilder { task: Some(task), ..self }),
    {
        Self { task: Some(task), ..self }
    }

    pub fn set_power_system(self, power_system: PowerSystem) -> (r: Self)
        requires
            power_system.wf(),
        ensures
            r == (DeviceBuilder { power_system: Some(power_system), ..self }),
    {
        Self { power_system: Some(power_system), ..self }
    }

    pub fn set_movement_system(self, movement_system: MovementSystem) -> (r: Self)
        requires
            movement_system.wf(),
        ensures
            r == (DeviceBuilder { movement_system: Some(movement_system), ..self }),
    {
        Self { movement_system: Some(movement_system), ..self }
    }

    pub fn set_trx_system(self, trx_system: TRXSystem) -> (r: Self)
        requires
            trx_system.wf(),
        ensures
            r == (DeviceBuilder { trx_system: Some(trx_system), ..self }),
    {
        Self { trx_system: Some(trx_system), ..self }
    }

    pub fn set_security_system(self, security_system: SecuritySystem) -> (r: Self)
        ensures
            r == (DeviceBuilder { security_system: Some(security_system), ..self }),
    {
        Self { security_system: Some(security_system), ..self }
    }

    pub fn set_signal_loss_response(self, signal_loss_response: SignalLossResponse) -> (r: Self)
        requires
            signal_loss_response.wf(),
        ensures
            r == (DeviceBuilder { signal_loss_response: Some(signal_loss_response), ..self }),
    {
        Self { signal_loss_response: Some(signal_loss_response), ..self }
    }

    /// Builds the device, drawing its identifier from the given counter.
    pub fn build(self, next_free_id: &mut DeviceId) -> (r: Device)
        requires
            self.wf(),
            BROADCAST_ID < *old(next_free_id) < u64::MAX,
        ensures
            *final(next_free_id) == *old(next_free_id) + 1,
            r.id == *old(next_free_id),
            r.id != BROADCAST_ID,
            r.current_time == 0,
            r.real_position == self.real_position.unwrap_or(Point3D { x: 0, y: 0, z: 0 }),
            r.task == self.task.unwrap_or(Task::Undefined),
            r.power_system == self.power_system.unwrap_or(
                PowerSystem { max_power: 0, power: 0 },
            ),
            r.movement_system == self.movement_system.unwrap_or(spec_default_movement()),
            self.trx_system is Some ==> r.trx_system == self.trx_system->0,
            self.trx_system is None ==> r.trx_system.tx_module == (TXModule {
                module_type: TXModuleType::Strength,
                level_map: FreqToLevelMap { control: None, gps: None },
            }) && r.trx_system.rx_module.max_level_map == (FreqToLevelMap {
                control: None,
                gps: None,
            }) && r.trx_system.rx_module.received_signals@.len() == 0,
            self.security_system is Some ==> r.security_system == self.security_system->0,
            self.security_system is None ==> r.security_system.patch_list@.len() == 0,
            r.infection_map.entries@.len() == 0,
            r.signal_loss_response == self.signal_loss_response.unwrap_or(
                SignalLossResponse::Ignore,
            ),
            r.wf(),
    {
        let id = generate_device_id(next_free_id);
        let real_position = match self.real_position {
            Some(p) => p,
            None => Point3D::default(),
        };
        let task = match self.task {
            Some(t) => t,
            None => Task::Undefined,
        };
        let power_system = match self.power_system {
            Some(ps) => ps,
            None => PowerSystem::default(),
        };
        let movement_system = match self.movement_system {
            Some(ms) => ms,
            None => MovementSystem::default(),
        };
        let trx_system = match self.trx_system {
            Some(trx) => trx,
            None => TRXSystem::default(),
        };
        let security_system = match self.security_system {
            Some(ss) => ss,
            None => SecuritySystem::default(),
        };
        let signal_loss_response = match self.signal_loss_response {
            Some(slr) => slr,
            None => SignalLossResponse::Ignore,
        };
        Device::new(
            id,
            real_position,
            task,
            power_system,
            movement_system,
            trx_system,
            security_system,
            signal_loss_response,
        )
    }
}


} // verus!
