//! The transceiver of a device: per-frequency transmit levels, and a
//! stateful receive buffer with capture, override and noise rules.
use vstd::prelude::*;

use crate::mathphysics::Frequency;
use crate::mathphysics::MAX_DISTANCE;
use crate::mathphysics::Megahertz;
use crate::mathphysics::Millisecond;
use crate::mathphysics::spec_wave_length;
use crate::signal::Data;
use crate::signal::Signal;
use crate::signal::SignalLevel;
use crate::signal::spec_area_radius;
use crate::signal::spec_level_at;
use crate::signal::spec_level_at_by_zone;

verus! {

/// Percent chance that an arriving green signal is captured.
pub const RECEIVE_GREEN_SIGNAL_PERCENT: u32 = 95;

/// Percent chance that an arriving yellow signal is captured.
pub const RECEIVE_YELLOW_SIGNAL_PERCENT: u32 = 75;

/// Percent chance that an arriving red signal is captured.
pub const RECEIVE_RED_SIGNAL_PERCENT: u32 = 50;

/// Percent chance that an arriving black signal is captured.
pub const RECEIVE_BLACK_SIGNAL_PERCENT: u32 = 10;

/// Failure of a whole transceiver.
#[derive(Clone, Copy, Debug, PartialEq)]
pub enum TRXSystemError {
    /// The receive module refused the signal.
    RXModuleError(RXError),
    /// The receiver cannot be reached at its distance.
    RXOutOfRange,
    /// The signal is addressed to another device and is not a broadcast.
    WrongSignalDestination,
    /// The signal does not come from the claimed sender.
    WrongSignalSource,
}

/// Failure of the receive module.
#[derive(Clone, Copy, Debug, PartialEq, Eq, Structural)]
pub enum RXError {
    /// The module holds no usable maximum level for the frequency.
    NotListeningOnFrequency,
    /// The signal was accepted but is too strong to decode.
    NoiseReceived,
    /// The probabilistic capture check rejected the signal.
    SignalNotReceived,
    /// A buffered signal of at least this quality already occupies the
    /// frequency.
    SignalTooWeak,
}

/// A per-frequency table of signal levels.  The simulated radios use two
/// carriers, so the table is a pair of optional entries.
#[derive(Clone, Copy, Debug, PartialEq)]
pub struct FreqToLevelMap {
    pub control: Option<SignalLevel>,
    pub gps: Option<SignalLevel>,
}

impl FreqToLevelMap {
    pub open spec fn spec_get(self, frequency: Frequency) -> Option<SignalLevel> {
        match frequency {
            Frequency::Control => self.control,
            Frequency::GPS => self.gps,
        }
    }

    /// Every entry is a well formed level.
    pub open spec fn wf(self) -> bool {
        &&& (self.control is Some ==> self.control->0.wf())
        &&& (self.gps is Some ==> self.gps->0.wf())
    }

    /// Every entry is small enough to transmit with.
    pub open spec fn tx_wf(self) -> bool {
        &&& (self.control is Some ==> self.control->0.strength_value().tx_wf())
        &&& (self.gps is Some ==> self.gps->0.strength_value().tx_wf())
    }

    pub fn new() -> (r: Self)
        ensures
            r.control is None,
            r.gps is None,
            r.wf(),
            r.tx_wf(),
    {
        Self { control: None, gps: None }
    }

    pub fn get(&self, frequency: Frequency) -> (r: Option<SignalLevel>)
        ensures
            r == self.spec_get(frequency),
    {
        match frequency {
            Frequency::Control => self.control,
            Frequency::GPS => self.gps,
        }
    }

    pub fn insert(&mut self, frequency: Frequency, level: SignalLevel)
        requires
            level.wf(),
        ensures
            final(self).spec_get(frequency) == Some(level),
            forall|g: Frequency| g != frequency ==> final(self).spec_get(g) == old(
                self,
            ).spec_get(g),
            old(self).wf() ==> final(self).wf(),
            old(self).tx_wf() && level.strength_value().tx_wf() ==> final(self).tx_wf(),
    {
        match frequency {
            Frequency::Control => self.control = Some(level),
            Frequency::GPS => self.gps = Some(level),
        }
    }

    /// Builds a table from a list of pairs; a later pair for the same
    /// frequency overwrites an earlier one.
    pub fn from_pairs(pairs: Vec<(Frequency, SignalLevel)>) -> (r: Self)
        requires
            forall|i: int| 0 <= i < pairs@.len() ==> (#[trigger] pairs@[i]).1.wf(),
        ensures
            r.wf(),
            forall|f: Frequency|
                (#[trigger] r.spec_get(f)) is Some ==> exists|i: int|
                    0 <= i < pairs@.len() && pairs@[i] == (f, r.spec_get(f)->0),
            (forall|i: int|
                0 <= i < pairs@.len() ==> (#[trigger] pairs@[i]).1.strength_value().tx_wf())
                ==> r.tx_wf(),
    {
        let mut map = Self::new();
        let mut i: usize = 0;
        while i < pairs.len()
            invariant
                i <= pairs@.len(),
                map.wf(),
                forall|k: int| 0 <= k < pairs@.len() ==> (#[trigger] pairs@[k]).1.wf(),
                forall|f: Frequency|
                    (#[trigger] map.spec_get(f)) is Some ==> exists|k: int|
                        0 <= k < i && pairs@[k] == (f, map.spec_get(f)->0),
                (forall|k: int|
                    0 <= k < pairs@.len() ==> (#[trigger] pairs@[k]).1.strength_value().tx_wf())
                    ==> map.tx_wf(),
            decreases pairs@.len() - i,
        {
            let (frequency, level) = pairs[i];
            map.insert(frequency, level);
            i = i + 1;
        }
        map
    }
}

impl Default for FreqToLevelMap {
    fn default() -> (r: Self)
        ensures
            r.control is None,
            r.gps is None,
            r.wf(),
            r.tx_wf(),
    {
        Self { control: None, gps: None }
    }
}

/// Checks a level table at run time: a `true` answer guarantees both
/// [`FreqToLevelMap::wf`] and [`FreqToLevelMap::tx_wf`].
pub fn check_level_map(map: &FreqToLevelMap) -> (r: bool)
    ensures
        r ==> map.wf() && map.tx_wf(),
{
    let control_ok = match map.control {
        Some(level) => level.check_wf() && -crate::signal::MAX_TX_STRENGTH_VALUE
            <= level.strength().value() && level.strength().value()
            <= crate::signal::MAX_TX_STRENGTH_VALUE,
        None => true,
    };
    let gps_ok = match map.gps {
        Some(level) => level.check_wf() && -crate::signal::MAX_TX_STRENGTH_VALUE
            <= level.strength().value() && level.strength().value()
            <= crate::signal::MAX_TX_STRENGTH_VALUE,
        None => true,
    };
    control_ok && gps_ok
}

/// Which propagation model a transmitter's signals degrade by: the
/// continuous free-space model, or the coarse zoned model.
#[derive(Clone, Copy, Debug, PartialEq, Eq, Structural)]
pub enum TXModuleType {
    /// Zoned degradation by distance bands.
    Level,
    /// Continuous free-space attenuation.
    Strength,
}

/// The transmit side of a transceiver: a nominal level per frequency and
/// the propagation model its signals degrade by.  By default it transmits
/// nothing.
#[derive(Clone, Copy, Debug, PartialEq)]
pub struct TXModule {
    pub module_type: TXModuleType,
    pub level_map: FreqToLevelMap,
}

/// What a transmitter delivers at `d` millimeters on frequency `f`:
/// `None` when it has no level for `f` or the arriving level is black.
pub open spec fn spec_tx_level_at(tx: TXModule, f: Frequency, d: int) -> Option<SignalLevel> {
    match tx.level_map.spec_get(f) {
        Option::None => None,
        Option::Some(level) => {
            let lambda = spec_wave_length(f.spec_megahertz() as int);
            let rx = match tx.module_type {
                TXModuleType::Strength => spec_level_at(level, lambda, d),
                TXModuleType::Level => spec_level_at_by_zone(level, lambda, d),
            };
            if rx.spec_rank() == 0 {
                None
            } else {
                Some(rx)
            }
        },
    }
}

impl TXModule {
    pub open spec fn wf(self) -> bool {
        &&& self.level_map.wf()
        &&& self.level_map.tx_wf()
    }

    pub fn new(module_type: TXModuleType, level_map: FreqToLevelMap) -> (r: Self)
        requires
            level_map.wf(),
            level_map.tx_wf(),
        ensures
            r == (TXModule { module_type, level_map }),
            r.wf(),
    {
        Self { module_type, level_map }
    }

    pub fn signal_level_map(&self) -> (r: &FreqToLevelMap)
        ensures
            r == &self.level_map,
    {
        &self.level_map
    }

    pub fn signal_level_on(&self, frequency: Frequency) -> (r: Option<SignalLevel>)
        ensures
            r == self.level_map.spec_get(frequency),
    {
        self.level_map.get(frequency)
    }

    /// The level this transmitter delivers at `distance`; `None` when the
    /// receiver is out of range or the frequency is not transmitted on.
    pub fn signal_level_at(&self, distance: u64, frequency: Frequency) -> (r: Option<SignalLevel>)
        requires
            self.wf(),
            distance <= MAX_DISTANCE,
        ensures
            r == spec_tx_level_at(*self, frequency, distance as int),
            r is Some ==> r->0.wf() && r->0.spec_rank() != 0,
    {
        let level = match self.level_map.get(frequency) {
            Some(level) => level,
            None => { return None },
        };
        let mhz: Megahertz = frequency.megahertz();
        let rx = match self.module_type {
            TXModuleType::Strength => level.at(mhz, distance),
            TXModuleType::Level => level.at_by_zone(mhz, distance),
        };
        if rx.is_black() {
            None
        } else {
            Some(rx)
        }
    }
}

impl Default for TXModule {
    fn default() -> (r: Self)
        ensures
            r == (TXModule {
                module_type: TXModuleType::Strength,
                level_map: FreqToLevelMap { control: None, gps: None },
            }),
            r.wf(),
    {
        Self { module_type: TXModuleType::Strength, level_map: FreqToLevelMap::new() }
    }
}

/// A received signal and the time it arrived.
pub type SignalRecord = (Millisecond, Signal);

/// The receive side of a transceiver: a maximum receivable level per
/// frequency and a buffer of at most one received signal per frequency.
/// By default it receives nothing.
#[derive(Clone, Debug, PartialEq)]
pub struct RXModule {
    pub max_level_map: FreqToLevelMap,
    pub received_signals: Vec<SignalRecord>,
}

/// The outcome of one receive attempt, as a relation between the module
/// before (`o`) and after (`n`) the call.  `captured` is the outcome of the
/// probabilistic capture check; the rest is deterministic:
/// - no usable maximum level for the frequency: refused, nothing changes;
/// - a buffered signal of at least this strength holds the frequency:
///   refused, nothing changes;
/// - capture failed: refused, nothing changes;
/// - the signal exceeds the maximum receivable level: it is buffered with
///   its payload stripped and the call reports noise;
/// - otherwise the signal is buffered and the call succeeds.
/// Whatever is buffered replaces the record on its frequency, or extends
/// the buffer if the frequency was free.
pub open spec fn spec_rx_receive(
    o: RXModule,
    n: RXModule,
    signal: Signal,
    time: Millisecond,
    captured: bool,
    r: Result<(), RXError>,
) -> bool {
    let f = signal.frequency;
    let max = o.max_level_map.spec_get(f);
    let listening = max is Some && max->0.spec_rank() != 0;
    let too_weak = exists|i: int|
        0 <= i < o.received_signals@.len() && (#[trigger] o.received_signals@[i]).1.frequency == f
            && o.received_signals@[i].1.level.spec_strength() >= signal.level.spec_strength();
    if !listening {
        r == Result::<(), RXError>::Err(RXError::NotListeningOnFrequency) && n == o
    } else if too_weak {
        r == Result::<(), RXError>::Err(RXError::SignalTooWeak) && n == o
    } else if !captured {
        r == Result::<(), RXError>::Err(RXError::SignalNotReceived) && n == o
    } else {
        let noise = signal.level.spec_strength() > max->0.spec_strength();
        let stored = if noise {
            Signal { data: Data::Noise, ..signal }
        } else {
            signal
        };
        let rec = (time, stored);
        let occupied = exists|i: int|
            0 <= i < o.received_signals@.len() && (#[trigger] o.received_signals@[i]).1.frequency
                == f;
        &&& n.max_level_map == o.max_level_map
        &&& if occupied {
            exists|i: int|
                {
                    &&& 0 <= i < o.received_signals@.len()
                    &&& (#[trigger] o.received_signals@[i]).1.frequency == f
                    &&& n.received_signals@ == o.received_signals@.update(i, rec)
                }
        } else {
            n.received_signals@ == o.received_signals@.push(rec)
        }
        &&& r == if noise {
            Result::<(), RXError>::Err(RXError::NoiseReceived)
        } else {
            Result::<(), RXError>::Ok(())
        }
    }
}

impl RXModule {
    /// Entries are well formed and at most one signal is buffered per
    /// frequency.
    pub open spec fn wf(self) -> bool {
        &&& self.max_level_map.wf()
        &&& forall|i: int, j: int|
            0 <= i < j < self.received_signals@.len()
                ==> (#[trigger] self.received_signals@[i]).1.frequency != (
            #[trigger] self.received_signals@[j]).1.frequency
        &&& forall|i: int|
            0 <= i < self.received_signals@.len() ==> (
            #[trigger] self.received_signals@[i]).1.wf()
    }

    /// The buffer holds a live (non-noise) signal on this frequency.
    pub open spec fn spec_receives_signal_on(self, frequency: Frequency) -> bool {
        exists|i: int|
            0 <= i < self.received_signals@.len() && (
            #[trigger] self.received_signals@[i]).1.frequency == frequency
                && !(self.received_signals@[i].1.data is Noise)
    }

    pub fn new(max_level_map: FreqToLevelMap) -> (r: Self)
        requires
            max_level_map.wf(),
        ensures
            r.max_level_map == max_level_map,
            r.received_signals@.len() == 0,
            r.wf(),
    {
        Self { max_level_map, received_signals: Vec::new() }
    }

    pub fn receives_signal_on(&self, frequency: Frequency) -> (r: bool)
        ensures
            r == self.spec_receives_signal_on(frequency),
    {
        let mut i: usize = 0;
        while i < self.received_signals.len()
            invariant
                i <= self.received_signals@.len(),
                forall|k: int|
                    0 <= k < i ==> !((#[trigger] self.received_signals@[k]).1.frequency
                        == frequency && !(self.received_signals@[k].1.data is Noise)),
            decreases self.received_signals@.len() - i,
        {
            let record = &self.received_signals[i];
            if record.1.frequency == frequency && !matches!(record.1.data, Data::Noise) {
                return true;
            }
            i = i + 1;
        }
        false
    }

    pub fn received_signals(&self) -> (r: &Vec<SignalRecord>)
        ensures
            r == &self.received_signals,
    {
        &self.received_signals
    }

    /// The buffered record on this frequency, if any.
    pub fn received_signal_on(&self, frequency: Frequency) -> (r: Option<&SignalRecord>)
        ensures
            match r {
                Some(rec) => exists|i: int|
                    0 <= i < self.received_signals@.len() && self.received_signals@[i] == *rec
                        && rec.1.frequency == frequency,
                None => forall|i: int|
                    0 <= i < self.received_signals@.len() ==> (
                    #[trigger] self.received_signals@[i]).1.frequency != frequency,
            },
    {
        let mut i: usize = 0;
        while i < self.received_signals.len()
            invariant
                i <= self.received_signals@.len(),
                forall|k: int|
                    0 <= k < i ==> (#[trigger] self.received_signals@[k]).1.frequency != frequency,
            decreases self.received_signals@.len() - i,
        {
            if self.received_signals[i].1.frequency == frequency {
                return Some(&self.received_signals[i]);
            }
            i = i + 1;
        }
        None
    }

    /// The index of the buffered record on this frequency, if any.
    fn index_of_record_on(&self, frequency: Frequency) -> (r: Option<usize>)
        ensures
            match r {
                Some(k) => k < self.received_signals@.len()
                    && self.received_signals@[k as int].1.frequency == frequency,
                None => forall|i: int|
                    0 <= i < self.received_signals@.len() ==> (
                    #[trigger] self.received_signals@[i]).1.frequency != frequency,
            },
    {
        let mut i: usize = 0;
        while i < self.received_signals.len()
            invariant
                i <= self.received_signals@.len(),
                forall|k: int|
                    0 <= k < i ==> (#[trigger] self.received_signals@[k]).1.frequency != frequency,
            decreases self.received_signals@.len() - i,
        {
            if self.received_signals[i].1.frequency == frequency {
                return Some(i);
            }
            i = i + 1;
        }
        None
    }

    /// One receive attempt with the capture check's outcome passed in;
    /// see [`spec_rx_receive`] for the full behaviour.
    pub fn receive_signal(&mut self, signal: Signal, time: Millisecond, captured: bool) -> (r:
        Result<(), RXError>)
        requires
            old(self).wf(),
            signal.wf(),
        ensures
            spec_rx_receive(*old(self), *final(self), signal, time, captured, r),
            final(self).wf(),
    {
        let frequency = signal.frequency;
        let max_level = match self.max_level_map.get(frequency) {
            Some(level) => level,
            None => { return Err(RXError::NotListeningOnFrequency) },
        };
        if max_level.is_black() {
            return Err(RXError::NotListeningOnFrequency);
        }
        let found = self.index_of_record_on(frequency);
        proof {
            if let Some(k) = found {
                assert forall|i: int|
                    0 <= i < self.received_signals@.len()
                        && (#[trigger] self.received_signals@[i]).1.frequency == frequency implies i
                    == k as int by {
                    if i < k as int {
                        assert(self.received_signals@[i].1.frequency
                            != self.received_signals@[k as int].1.frequency);
                    } else if i > k as int {
                        assert(self.received_signals@[k as int].1.frequency
                            != self.received_signals@[i].1.frequency);
                    }
                }
            }
        }
        if let Some(k) = found {
            let buffered = &self.received_signals[k];
            if buffered.1.level.strength().value() >= signal.level.strength().value() {
                proof {
                    assert(self.received_signals@[k as int].1.frequency == frequency
                        && self.received_signals@[k as int].1.level.spec_strength()
                        >= signal.level.spec_strength());
                }
                return Err(RXError::SignalTooWeak);
            }
        }
        if !captured {
            return Err(RXError::SignalNotReceived);
        }
        let noise = signal.level.strength().value() > max_level.strength().value();
        let stored = if noise {
            signal.to_noise()
        } else {
            signal
        };
        let record = (time, stored);
        match found {
            Some(k) => {
                self.received_signals.set(k, record);
                proof {
                    assert(self.received_signals@ == old(self).received_signals@.update(
                        k as int,
                        record,
                    ));
                }
            },
            None => {
                self.received_signals.push(record);
            },
        }
        if noise {
            Err(RXError::NoiseReceived)
        } else {
            Ok(())
        }
    }

    pub fn clear_signals(&mut self)
        ensures
            final(self).max_level_map == old(self).max_level_map,
            final(self).received_signals@.len() == 0,
            old(self).wf() ==> final(self).wf(),
    {
        self.received_signals.clear();
    }
}

impl Default for RXModule {
    fn default() -> (r: Self)
        ensures
            r.max_level_map == (FreqToLevelMap { control: None, gps: None }),
            r.received_signals@ =~= Seq::<SignalRecord>::empty(),
            r.wf(),
    {
        Self { max_level_map: FreqToLevelMap::new(), received_signals: Vec::new() }
    }
}

/// Relies on rand::random_ratio: returns true with probability
/// `numerator` in `denominator`.  Nothing can be promised of one draw.
#[verifier::external_body]
fn sample_ratio(numerator: u32, denominator: u32) -> bool
    requires
        0 < denominator,
        numerator <= denominator,
{
    rand::random_ratio(numerator, denominator)
}

/// The percent chance that a signal of this level is captured by a
/// receiver.
pub fn capture_chance_percent(level: &SignalLevel) -> (r: u32)
    ensures
        r == spec_capture_chance_percent(*level),
        0 < r <= 100,
{
    if level.is_green() {
        RECEIVE_GREEN_SIGNAL_PERCENT
    } else if level.is_yellow() {
        RECEIVE_YELLOW_SIGNAL_PERCENT
    } else if level.is_red() {
        RECEIVE_RED_SIGNAL_PERCENT
    } else {
        RECEIVE_BLACK_SIGNAL_PERCENT
    }
}

pub open spec fn spec_capture_chance_percent(level: SignalLevel) -> u32 {
    if level.spec_rank() == 3 {
        RECEIVE_GREEN_SIGNAL_PERCENT
    } else if level.spec_rank() == 2 {
        RECEIVE_YELLOW_SIGNAL_PERCENT
    } else if level.spec_rank() == 1 {
        RECEIVE_RED_SIGNAL_PERCENT
    } else {
        RECEIVE_BLACK_SIGNAL_PERCENT
    }
}

/// A whole transceiver: the transmit and receive modules of one device.
/// By default neither side functions.
#[derive(Clone, Debug, PartialEq)]
pub struct TRXSystem {
    pub tx_module: TXModule,
    pub rx_module: RXModule,
}

impl TRXSystem {
    pub open spec fn wf(self) -> bool {
        &&& self.tx_module.wf()
        &&& self.rx_module.wf()
    }

    pub fn new(tx_module: TXModule, rx_module: RXModule) -> (r: Self)
        requires
            tx_module.wf(),
            rx_module.wf(),
        ensures
            r == (TRXSystem { tx_module, rx_module }),
            r.wf(),
    {
        Self { tx_module, rx_module }
    }

    pub fn tx_signal_level_map(&self) -> (r: &FreqToLevelMap)
        ensures
            r == &self.tx_module.level_map,
    {
        self.tx_module.signal_level_map()
    }

    pub fn tx_signal_level_on(&self, frequency: Frequency) -> (r: Option<SignalLevel>)
        ensures
            r == self.tx_module.level_map.spec_get(frequency),
    {
        self.tx_module.signal_level_on(frequency)
    }

    /// The coverage radius of the transmitter on this frequency; zero when
    /// the frequency is not transmitted on.
    pub fn area_radius_on(&self, frequency: Frequency) -> (r: u64)
        requires
            self.wf(),
        ensures
            r as int == match self.tx_module.level_map.spec_get(frequency) {
                Option::Some(level) => spec_area_radius(
                    level.spec_strength(),
                    spec_wave_length(frequency.spec_megahertz() as int),
                ),
                Option::None => 0,
            },
            r <= MAX_DISTANCE,
    {
        match self.tx_module.signal_level_on(frequency) {
            Some(level) => level.area_radius_on(frequency.megahertz()),
            None => 0,
        }
    }

    /// The level this device's transmitter delivers at `distance`.
    pub fn tx_signal_level_at(&self, distance: u64, frequency: Frequency) -> (r: Option<
        SignalLevel,
    >)
        requires
            self.wf(),
            distance <= MAX_DISTANCE,
        ensures
            r == spec_tx_level_at(self.tx_module, frequency, distance as int),
            r is Some ==> r->0.wf() && r->0.spec_rank() != 0,
    {
        self.tx_module.signal_level_at(distance, frequency)
    }

    /// The transmitter reaches a receiver at `distance` on this frequency.
    pub fn transmits_at(&self, distance: u64, frequency: Frequency) -> (r: bool)
        requires
            self.wf(),
            distance <= MAX_DISTANCE,
        ensures
            r == (spec_tx_level_at(self.tx_module, frequency, distance as int) is Some),
    {
        self.tx_module.signal_level_at(distance, frequency).is_some()
    }

    pub fn receives_signal_on(&self, frequency: Frequency) -> (r: bool)
        ensures
            r == self.rx_module.spec_receives_signal_on(frequency),
    {
        self.rx_module.receives_signal_on(frequency)
    }

    pub fn received_signals(&self) -> (r: &Vec<SignalRecord>)
        ensures
            r == &self.rx_module.received_signals,
    {
        self.rx_module.received_signals()
    }

    pub fn received_signal_on(&self, frequency: Frequency) -> (r: Option<&SignalRecord>)
        ensures
            match r {
                Some(rec) => exists|i: int|
                    0 <= i < self.rx_module.received_signals@.len()
                        && self.rx_module.received_signals@[i] == *rec && rec.1.frequency
                        == frequency,
                None => forall|i: int|
                    0 <= i < self.rx_module.received_signals@.len() ==> (
                    #[trigger] self.rx_module.received_signals@[i]).1.frequency != frequency,
            },
    {
        self.rx_module.received_signal_on(frequency)
    }

    /// One receive attempt.  The capture check draws at random, so the
    /// outcome is one of the behaviours [`spec_rx_receive`] describes: for
    /// some draw of the check this call behaved accordingly.
    pub fn receive_signal(&mut self, signal: Signal, time: Millisecond) -> (r: Result<
        (),
        TRXSystemError,
    >)
        requires
            old(self).wf(),
            signal.wf(),
        ensures
            final(self).wf(),
            final(self).tx_module == old(self).tx_module,
            exists|captured: bool, rx_result: Result<(), RXError>|
                {
                    &&& spec_rx_receive(
                        old(self).rx_module,
                        final(self).rx_module,
                        signal,
                        time,
                        captured,
                        rx_result,
                    )
                    &&& r == match rx_result {
                        Result::Ok(()) => Result::<(), TRXSystemError>::Ok(()),
                        Result::Err(e) => Result::<(), TRXSystemError>::Err(
                            TRXSystemError::RXModuleError(e),
                        ),
                    }
                },
    {
        let chance = capture_chance_percent(&signal.level);
        let captured = sample_ratio(chance, 100);
        let rx_result = self.rx_module.receive_signal(signal, time, captured);
        proof {
            let ghost c = captured;
            let ghost rr = rx_result;
            assert(spec_rx_receive(
                old(self).rx_module,
                self.rx_module,
                signal,
                time,
                c,
                rr,
            ));
        }
        match rx_result {
            Ok(()) => Ok(()),
            Err(e) => Err(TRXSystemError::RXModuleError(e)),
        }
    }

    pub fn clear_received_signals(&mut self)
        ensures
            final(self).tx_module == old(self).tx_module,
            final(self).rx_module.max_level_map == old(self).rx_module.max_level_map,
            final(self).rx_module.received_signals@.len() == 0,
            old(self).wf() ==> final(self).wf(),
    {
        self.rx_module.clear_signals();
    }
}

impl Default for TRXSystem {
    fn default() -> (r: Self)
        ensures
            r.tx_module == (TXModule {
                module_type: TXModuleType::Strength,
                level_map: FreqToLevelMap { control: None, gps: None },
            }),
            r.rx_module.max_level_map == (FreqToLevelMap { control: None, gps: None }),
            r.rx_module.received_signals@ =~= Seq::<SignalRecord>::empty(),
            r.wf(),
    {
        Self { tx_module: TXModule::default(), rx_module: RXModule::default() }
    }
}

} // verus!
