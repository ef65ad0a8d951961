//! The signal model: continuous strength values bucketed into four quality
//! tiers, free-space attenuation over distance, coverage radii, and the
//! signals devices exchange.
//!
//! Strengths are thousandths of a strength unit, so the tier thresholds of
//! 1, 20 and 50 units are the integers 1000, 20 000 and 50 000.
use vstd::prelude::*;

use crate::device::DeviceId;
use crate::malware::Malware;
use crate::mathphysics::Frequency;
use crate::mathphysics::MAX_DISTANCE;
use crate::mathphysics::MAX_FREQUENCY_MHZ;
use crate::mathphysics::MIN_FREQUENCY_MHZ;
use crate::mathphysics::Megahertz;
use crate::mathphysics::Point3D;
use crate::mathphysics::spec_wave_length;
use crate::mathphysics::sqrt_floor;
use crate::mathphysics::lemma_sqrt_floor_def;
use crate::mathphysics::integer_sqrt;
use crate::mathphysics::wave_length_mm;
use crate::task::Task;
use vstd::std_specs::cmp::PartialOrdSpec;

verus! {

/// The strength of a full green signal, in thousandths.
pub const GREEN_SIGNAL_STRENGTH_VALUE: i64 = 100_000;

/// Largest strength still in the black tier, in thousandths (one unit).
pub const MAX_BLACK_STRENGTH_VALUE: i64 = 1_000;

/// Largest strength still in the red tier, in thousandths (20 units).
pub const MAX_RED_STRENGTH_VALUE: i64 = 20_000;

/// Largest strength still in the yellow tier, in thousandths (50 units).
pub const MAX_YELLOW_STRENGTH_VALUE: i64 = 50_000;

/// Scaling constant of the free-space attenuation model.
pub const SIGNAL_STRENGTH_SCALING: i64 = 2_500;

/// Largest strength a transmitter may be configured with, in thousandths.
pub const MAX_TX_STRENGTH_VALUE: i64 = 20_000_000_000;

/// Largest strength the model ever produces or stores, in thousandths.
pub const MAX_RX_STRENGTH_VALUE: i64 = 5_000_000_000_000_000_000;

/// Largest coverage radius a transmitter can be configured from, in
/// millimeters.
pub const MAX_AREA_RADIUS: u64 = 10_000_000;

/// A continuous signal strength, in thousandths of a strength unit.
/// Negative values are allowed and lie in the black tier.
#[derive(Clone, Copy, Debug, PartialEq, Eq, Structural)]
pub struct SignalStrength(pub i64);

/// The received strength at `distance` from a transmitter of strength `s`
/// on wave length `lambda`: free-space path loss `(lambda/d)^2`, with
/// `lambda^2` inside one wave length, scaled by a fixed constant.  A source
/// at or below the black threshold yields nothing.
pub open spec fn spec_strength_at(s: int, lambda: int, d: int) -> int {
    if s <= MAX_BLACK_STRENGTH_VALUE as int {
        0
    } else if d <= lambda {
        s * (SIGNAL_STRENGTH_SCALING as int) * lambda * lambda
    } else {
        s * (SIGNAL_STRENGTH_SCALING as int) * lambda * lambda / (d * d)
    }
}

/// The smallest distance at which reception of a transmitter of strength
/// `s` on wave length `lambda` falls to the black tier.
pub open spec fn spec_area_radius(s: int, lambda: int) -> int {
    if s <= MAX_BLACK_STRENGTH_VALUE as int {
        0
    } else {
        lambda * sqrt_floor(s * (SIGNAL_STRENGTH_SCALING as int) / 1000)
    }
}

/// The transmit strength whose coverage radius is `radius` on wave length
/// `lambda`: the inverse of the coverage-radius computation.
pub open spec fn spec_strength_from_area(radius: int, lambda: int) -> int {
    radius * radius * 1000 / ((SIGNAL_STRENGTH_SCALING as int) * lambda * lambda)
}

impl SignalStrength {
    /// The value lies in the range the model can produce.
    pub open spec fn wf(self) -> bool {
        -(MAX_RX_STRENGTH_VALUE as int) <= self.0 as int <= MAX_RX_STRENGTH_VALUE as int
    }

    /// The value is small enough to be configured as a transmitter.
    pub open spec fn tx_wf(self) -> bool {
        -(MAX_TX_STRENGTH_VALUE as int) <= self.0 as int <= MAX_TX_STRENGTH_VALUE as int
    }

    pub fn new(value: i64) -> (r: Self)
        requires
            -MAX_RX_STRENGTH_VALUE <= value <= MAX_RX_STRENGTH_VALUE,
        ensures
            r == SignalStrength(value),
            r.wf(),
    {
        Self(value)
    }

    pub fn value(&self) -> (r: i64)
        ensures
            r == self.0,
    {
        self.0
    }

    /// The transmit strength that grants at-least-black reception at
    /// `area_radius` on the given carrier.
    pub fn from_area_radius(area_radius: u64, frequency: Megahertz) -> (r: Self)
        requires
            area_radius <= MAX_AREA_RADIUS,
            MIN_FREQUENCY_MHZ <= frequency <= MAX_FREQUENCY_MHZ,
        ensures
            r.0 as int == spec_strength_from_area(
                area_radius as int,
                spec_wave_length(frequency as int),
            ),
            0 <= r.0 <= MAX_TX_STRENGTH_VALUE,
            r.wf(),
            r.tx_wf(),
    {
        let lam: u64 = wave_length_mm(frequency);
        proof {
            assert(0 <= area_radius as int * area_radius as int <= 100_000_000_000_000
                as int) by (nonlinear_arith)
                requires
                    0 <= area_radius as int <= 10_000_000,
            ;
            assert(6_250_000 <= 2_500 * (lam as int) * (lam as int) <= 225_000_000)
                by (nonlinear_arith)
                requires
                    50 <= lam as int <= 300,
            ;
        }
        let num: u128 = area_radius as u128 * area_radius as u128 * 1000;
        let den: u128 = SIGNAL_STRENGTH_SCALING as u128 * lam as u128 * lam as u128;
        proof {
            assert(num as int / den as int <= MAX_TX_STRENGTH_VALUE as int) by (nonlinear_arith)
                requires
                    0 <= num as int <= 100_000_000_000_000_000 as int,
                    den as int >= 6_250_000,
            ;
        }
        Self((num / den) as i64)
    }

    /// The received strength at `distance` on the given carrier.
    pub fn at(&self, frequency: Megahertz, distance: u64) -> (r: Self)
        requires
            self.tx_wf(),
            MIN_FREQUENCY_MHZ <= frequency <= MAX_FREQUENCY_MHZ,
            distance <= MAX_DISTANCE,
        ensures
            r.0 as int == spec_strength_at(
                self.0 as int,
                spec_wave_length(frequency as int),
                distance as int,
            ),
            0 <= r.0 <= MAX_RX_STRENGTH_VALUE,
            r.wf(),
    {
        if self.0 <= MAX_BLACK_STRENGTH_VALUE {
            return Self(0);
        }
        let lam: u64 = wave_length_mm(frequency);
        proof {
            let a = self.0 as int * 2_500;
            assert(0 < a <= 50_000_000_000_000 as int);
            assert(0 < a * (lam as int) <= 15_000_000_000_000_000 as int) by (nonlinear_arith)
                requires
                    0 < a <= 50_000_000_000_000 as int,
                    50 <= lam as int <= 300,
            ;
            let b = a * (lam as int);
            assert(0 < b * (lam as int) <= 4_500_000_000_000_000_000 as int) by (nonlinear_arith)
                requires
                    0 < b <= 15_000_000_000_000_000 as int,
                    50 <= lam as int <= 300,
            ;
        }
        let num: u128 = self.0 as u128 * SIGNAL_STRENGTH_SCALING as u128 * lam as u128
            * lam as u128;
        if distance <= lam {
            Self(num as i64)
        } else {
            proof {
                assert(0 < distance as int * distance as int
                    <= 12_250_000_000_000_000_000_000_000 as int) by (nonlinear_arith)
                    requires
                        0 < distance as int <= MAX_DISTANCE as int,
                ;
                assert(num as int / (distance as int * distance as int) <= num as int)
                    by (nonlinear_arith)
                    requires
                        0 <= num as int,
                        1 <= distance as int * distance as int,
                ;
            }
            let den: u128 = distance as u128 * distance as u128;
            Self((num / den) as i64)
        }
    }

    /// The coverage radius of this strength on the given carrier, in
    /// millimeters.
    pub fn area_radius_on(&self, frequency: Megahertz) -> (r: u64)
        requires
            self.tx_wf(),
            MIN_FREQUENCY_MHZ <= frequency <= MAX_FREQUENCY_MHZ,
        ensures
            r as int == spec_area_radius(self.0 as int, spec_wave_length(frequency as int)),
            r <= 75_000_000,
    {
        if self.0 <= MAX_BLACK_STRENGTH_VALUE {
            return 0;
        }
        let lam: u64 = wave_length_mm(frequency);
        proof {
            assert(0 < self.0 as int * 2_500 <= 50_000_000_000_000 as int) by (nonlinear_arith)
                requires
                    0 < self.0 as int <= MAX_TX_STRENGTH_VALUE as int,
            ;
        }
        let scaled: u64 = ((self.0 as u128 * SIGNAL_STRENGTH_SCALING as u128) / 1000) as u64;
        let root: u64 = integer_sqrt(scaled as u128);
        proof {
            assert(root as int <= 250_000) by (nonlinear_arith)
                requires
                    0 <= root as int,
                    root as int * root as int <= scaled as int,
                    scaled as int <= 50_000_000_000,
            ;
            assert(lam as int * root as int <= 75_000_000) by (nonlinear_arith)
                requires
                    0 <= root as int <= 250_000,
                    0 <= lam as int <= 300,
            ;
        }
        lam * root
    }
}

impl PartialOrd for SignalStrength {
    fn partial_cmp(&self, other: &Self) -> (r: Option<core::cmp::Ordering>) {
        if self.0 < other.0 {
            Some(core::cmp::Ordering::Less)
        } else if self.0 == other.0 {
            Some(core::cmp::Ordering::Equal)
        } else {
            Some(core::cmp::Ordering::Greater)
        }
    }
}

impl vstd::std_specs::cmp::PartialOrdSpecImpl for SignalStrength {
    open spec fn obeys_partial_cmp_spec() -> bool {
        true
    }

    open spec fn partial_cmp_spec(&self, other: &Self) -> Option<core::cmp::Ordering> {
        if self.0 < other.0 {
            Some(core::cmp::Ordering::Less)
        } else if self.0 == other.0 {
            Some(core::cmp::Ordering::Equal)
        } else {
            Some(core::cmp::Ordering::Greater)
        }
    }
}

/// The smaller of two strengths.
pub fn min_signal_strength(s1: SignalStrength, s2: SignalStrength) -> (r: SignalStrength)
    ensures
        r == if s1.0 < s2.0 {
            s1
        } else {
            s2
        },
{
    if s1.0 < s2.0 {
        s1
    } else {
        s2
    }
}

/// A coverage radius, in millimeters.
#[derive(Clone, Copy, Debug, PartialEq, Eq, Structural)]
pub struct SignalArea {
    pub radius: u64,
}

impl SignalArea {
    pub fn new(radius: u64) -> (r: Self)
        requires
            radius <= MAX_DISTANCE,
        ensures
            r == (SignalArea { radius }),
    {
        Self { radius }
    }

    pub fn radius(&self) -> (r: u64)
        ensures
            r == self.radius,
    {
        self.radius
    }

    /// The coverage radius of a transmit level on the given carrier.
    pub fn from_level(signal_level: SignalLevel, frequency: Megahertz) -> (r: Self)
        requires
            signal_level.strength_value().tx_wf(),
            MIN_FREQUENCY_MHZ <= frequency <= MAX_FREQUENCY_MHZ,
        ensures
            r.radius as int == spec_area_radius(
                signal_level.spec_strength(),
                spec_wave_length(frequency as int),
            ),
            r.radius <= MAX_DISTANCE,
    {
        Self { radius: signal_level.strength().area_radius_on(frequency) }
    }
}

/// A signal strength together with its quality tier.
#[derive(Clone, Copy, Debug, PartialEq, Eq, Structural)]
pub enum SignalLevelInner {
    /// (Almost) no signal.
    Black(SignalStrength),
    /// Critically low.
    Red(SignalStrength),
    /// Decent.
    Yellow(SignalStrength),
    /// Good.
    Green(SignalStrength),
}

/// A bucketed signal strength.  The invariant [`SignalLevel::wf`] ties the
/// tier to the strength thresholds.
#[derive(Clone, Copy, Debug, PartialEq, Eq, Structural)]
pub struct SignalLevel(pub SignalLevelInner);

/// The tier a strength value falls in: 0 black, 1 red, 2 yellow, 3 green.
pub open spec fn spec_tier_of_value(v: int) -> int {
    if v > MAX_YELLOW_STRENGTH_VALUE as int {
        3
    } else if v > MAX_RED_STRENGTH_VALUE as int {
        2
    } else if v > MAX_BLACK_STRENGTH_VALUE as int {
        1
    } else {
        0
    }
}

/// The canonical level of each tier, holding the largest strength of the
/// tier below it (the full green strength for green).
pub open spec fn spec_black_level() -> SignalLevel {
    SignalLevel(SignalLevelInner::Black(SignalStrength(MAX_BLACK_STRENGTH_VALUE)))
}

pub open spec fn spec_red_level() -> SignalLevel {
    SignalLevel(SignalLevelInner::Red(SignalStrength(MAX_RED_STRENGTH_VALUE)))
}

pub open spec fn spec_yellow_level() -> SignalLevel {
    SignalLevel(SignalLevelInner::Yellow(SignalStrength(MAX_YELLOW_STRENGTH_VALUE)))
}

pub open spec fn spec_green_level() -> SignalLevel {
    SignalLevel(SignalLevelInner::Green(SignalStrength(GREEN_SIGNAL_STRENGTH_VALUE)))
}

/// The level a strength value maps to.
pub open spec fn spec_level_from_value(v: i64) -> SignalLevel {
    if v > MAX_YELLOW_STRENGTH_VALUE {
        SignalLevel(SignalLevelInner::Green(SignalStrength(v)))
    } else if v > MAX_RED_STRENGTH_VALUE {
        SignalLevel(SignalLevelInner::Yellow(SignalStrength(v)))
    } else if v > MAX_BLACK_STRENGTH_VALUE {
        SignalLevel(SignalLevelInner::Red(SignalStrength(v)))
    } else {
        SignalLevel(SignalLevelInner::Black(SignalStrength(v)))
    }
}

/// One tier down, to its canonical level; black stays black.
pub open spec fn spec_lower_level(l: SignalLevel) -> SignalLevel {
    match l.0 {
        SignalLevelInner::Black(_) => spec_black_level(),
        SignalLevelInner::Red(_) => spec_black_level(),
        SignalLevelInner::Yellow(_) => spec_red_level(),
        SignalLevelInner::Green(_) => spec_yellow_level(),
    }
}

/// Attenuation of a whole level over distance, by the continuous model.
pub open spec fn spec_level_at(l: SignalLevel, lambda: int, d: int) -> SignalLevel {
    if l.spec_strength() <= MAX_BLACK_STRENGTH_VALUE as int {
        spec_black_level()
    } else {
        spec_level_from_value(spec_strength_at(l.spec_strength(), lambda, d) as i64)
    }
}

/// Attenuation of a whole level over distance, by the zoned model: within
/// a tenth of the coverage radius the tier is kept, within a fifth it
/// drops one tier, within the radius two tiers, beyond it black.
pub open spec fn spec_level_at_by_zone(l: SignalLevel, lambda: int, d: int) -> SignalLevel {
    let radius = spec_area_radius(l.spec_strength(), lambda);
    if d * 10 <= radius {
        l
    } else if d * 5 <= radius {
        spec_lower_level(l)
    } else if d <= radius {
        spec_lower_level(spec_lower_level(l))
    } else {
        spec_black_level()
    }
}

impl SignalLevel {
    /// The strength carried by the level.
    pub open spec fn spec_strength(self) -> int {
        match self.0 {
            SignalLevelInner::Black(s) => s.0 as int,
            SignalLevelInner::Red(s) => s.0 as int,
            SignalLevelInner::Yellow(s) => s.0 as int,
            SignalLevelInner::Green(s) => s.0 as int,
        }
    }

    /// The tier of the level: 0 black, 1 red, 2 yellow, 3 green.
    pub open spec fn spec_rank(self) -> int {
        match self.0 {
            SignalLevelInner::Black(_) => 0,
            SignalLevelInner::Red(_) => 1,
            SignalLevelInner::Yellow(_) => 2,
            SignalLevelInner::Green(_) => 3,
        }
    }

    /// The tier agrees with the strength, and the strength is in range.
    pub open spec fn wf(self) -> bool {
        &&& self.spec_rank() == spec_tier_of_value(self.spec_strength())
        &&& -(MAX_RX_STRENGTH_VALUE as int) <= self.spec_strength() <= MAX_RX_STRENGTH_VALUE as int
    }

    /// Builds the level of a strength, bucketing it into its tier.
    pub fn from_strength(strength: SignalStrength) -> (r: Self)
        requires
            strength.wf(),
        ensures
            r == spec_level_from_value(strength.0),
            r.spec_strength() == strength.0 as int,
            r.wf(),
    {
        if strength.0 > MAX_YELLOW_STRENGTH_VALUE {
            SignalLevel(SignalLevelInner::Green(strength))
        } else if strength.0 > MAX_RED_STRENGTH_VALUE {
            SignalLevel(SignalLevelInner::Yellow(strength))
        } else if strength.0 > MAX_BLACK_STRENGTH_VALUE {
            SignalLevel(SignalLevelInner::Red(strength))
        } else {
            SignalLevel(SignalLevelInner::Black(strength))
        }
    }

    /// Builds the level of a raw strength value.
    pub fn from_value(value: i64) -> (r: Self)
        requires
            -MAX_RX_STRENGTH_VALUE <= value <= MAX_RX_STRENGTH_VALUE,
        ensures
            r == spec_level_from_value(value),
            r.spec_strength() == value as int,
            r.wf(),
    {
        Self::from_strength(SignalStrength::new(value))
    }

    /// The transmit level whose coverage radius is the given area.
    pub fn from_area(signal_area: SignalArea, frequency: Megahertz) -> (r: Self)
        requires
            signal_area.radius <= MAX_AREA_RADIUS,
            MIN_FREQUENCY_MHZ <= frequency <= MAX_FREQUENCY_MHZ,
        ensures
            r.spec_strength() == spec_strength_from_area(
                signal_area.radius as int,
                spec_wave_length(frequency as int),
            ),
            r == spec_level_from_value(
                spec_strength_from_area(
                    signal_area.radius as int,
                    spec_wave_length(frequency as int),
                ) as i64,
            ),
            r.wf(),
            r.strength_value().tx_wf(),
    {
        let strength = SignalStrength::from_area_radius(signal_area.radius, frequency);
        Self::from_strength(strength)
    }

    /// Reception of this level at `distance`, by the continuous model.
    pub fn at(&self, frequency: Megahertz, distance: u64) -> (r: Self)
        requires
            self.strength_value().tx_wf(),
            MIN_FREQUENCY_MHZ <= frequency <= MAX_FREQUENCY_MHZ,
            distance <= MAX_DISTANCE,
        ensures
            r == spec_level_at(*self, spec_wave_length(frequency as int), distance as int),
            r.wf(),
    {
        let strength = self.strength();
        if strength.0 <= MAX_BLACK_STRENGTH_VALUE {
            return Self::black();
        }
        let rx = strength.at(frequency, distance);
        Self::from_strength(rx)
    }

    /// Reception of this level at `distance`, by the zoned model.
    pub fn at_by_zone(&self, frequency: Megahertz, distance: u64) -> (r: Self)
        requires
            self.wf(),
            self.strength_value().tx_wf(),
            MIN_FREQUENCY_MHZ <= frequency <= MAX_FREQUENCY_MHZ,
            distance <= MAX_DISTANCE,
        ensures
            r == spec_level_at_by_zone(*self, spec_wave_length(frequency as int), distance as int),
            r.wf(),
    {
        let radius = self.strength().area_radius_on(frequency);
        proof {
            lemma_canonical_levels_wf();
        }
        if distance * 10 <= radius {
            *self
        } else if distance * 5 <= radius {
            self.lower_level()
        } else if distance <= radius {
            self.lower_level().lower_level()
        } else {
            Self::black()
        }
    }

    /// One tier down, to its canonical level.
    pub fn lower_level(&self) -> (r: Self)
        ensures
            r == spec_lower_level(*self),
            r.wf(),
    {
        proof {
            lemma_canonical_levels_wf();
        }
        match self.0 {
            SignalLevelInner::Black(_) => Self::black(),
            SignalLevelInner::Red(_) => Self::black(),
            SignalLevelInner::Yellow(_) => Self::red(),
            SignalLevelInner::Green(_) => Self::yellow(),
        }
    }

    /// The coverage radius of this level on the given carrier.
    pub fn area_radius_on(&self, frequency: Megahertz) -> (r: u64)
        requires
            self.strength_value().tx_wf(),
            MIN_FREQUENCY_MHZ <= frequency <= MAX_FREQUENCY_MHZ,
        ensures
            r as int == spec_area_radius(self.spec_strength(), spec_wave_length(frequency as int)),
            r <= MAX_DISTANCE,
    {
        self.strength().area_radius_on(frequency)
    }

    /// Both levels fall in the same tier.
    pub fn same_level(&self, other: &Self) -> (r: bool)
        ensures
            r == (self.spec_rank() == other.spec_rank()),
    {
        match (self.0, other.0) {
            (SignalLevelInner::Black(_), SignalLevelInner::Black(_)) => true,
            (SignalLevelInner::Red(_), SignalLevelInner::Red(_)) => true,
            (SignalLevelInner::Yellow(_), SignalLevelInner::Yellow(_)) => true,
            (SignalLevelInner::Green(_), SignalLevelInner::Green(_)) => true,
            _ => false,
        }
    }

    pub fn is_black(&self) -> (r: bool)
        ensures
            r == (self.spec_rank() == 0),
    {
        matches!(self.0, SignalLevelInner::Black(_))
    }

    pub fn is_red(&self) -> (r: bool)
        ensures
            r == (self.spec_rank() == 1),
    {
        matches!(self.0, SignalLevelInner::Red(_))
    }

    pub fn is_yellow(&self) -> (r: bool)
        ensures
            r == (self.spec_rank() == 2),
    {
        matches!(self.0, SignalLevelInner::Yellow(_))
    }

    pub fn is_green(&self) -> (r: bool)
        ensures
            r == (self.spec_rank() == 3),
    {
        matches!(self.0, SignalLevelInner::Green(_))
    }

    /// The strength carried by the level.
    pub fn strength(&self) -> (r: SignalStrength)
        ensures
            r.0 as int == self.spec_strength(),
    {
        match self.0 {
            SignalLevelInner::Black(s) => s,
            SignalLevelInner::Red(s) => s,
            SignalLevelInner::Yellow(s) => s,
            SignalLevelInner::Green(s) => s,
        }
    }

    /// The strength as a spec-level value, for contracts.
    pub open spec fn strength_value(self) -> SignalStrength {
        match self.0 {
            SignalLevelInner::Black(s) => s,
            SignalLevelInner::Red(s) => s,
            SignalLevelInner::Yellow(s) => s,
            SignalLevelInner::Green(s) => s,
        }
    }

    /// Checks the level invariant at run time: a `true` answer guarantees
    /// [`SignalLevel::wf`].
    pub fn check_wf(&self) -> (r: bool)
        ensures
            r ==> self.wf(),
    {
        let v = self.strength().value();
        if v < -MAX_RX_STRENGTH_VALUE || v > MAX_RX_STRENGTH_VALUE {
            return false;
        }
        match self.0 {
            SignalLevelInner::Black(s) => s.0 <= MAX_BLACK_STRENGTH_VALUE,
            SignalLevelInner::Red(s) => MAX_BLACK_STRENGTH_VALUE < s.0 && s.0
                <= MAX_RED_STRENGTH_VALUE,
            SignalLevelInner::Yellow(s) => MAX_RED_STRENGTH_VALUE < s.0 && s.0
                <= MAX_YELLOW_STRENGTH_VALUE,
            SignalLevelInner::Green(s) => MAX_YELLOW_STRENGTH_VALUE < s.0,
        }
    }

    /// The canonical black level.
    pub fn black() -> (r: Self)
        ensures
            r == spec_black_level(),
            r.wf(),
    {
        SignalLevel(SignalLevelInner::Black(SignalStrength(MAX_BLACK_STRENGTH_VALUE)))
    }

    /// The canonical red level.
    pub fn red() -> (r: Self)
        ensures
            r == spec_red_level(),
            r.wf(),
    {
        SignalLevel(SignalLevelInner::Red(SignalStrength(MAX_RED_STRENGTH_VALUE)))
    }

    /// The canonical yellow level.
    pub fn yellow() -> (r: Self)
        ensures
            r == spec_yellow_level(),
            r.wf(),
    {
        SignalLevel(SignalLevelInner::Yellow(SignalStrength(MAX_YELLOW_STRENGTH_VALUE)))
    }

    /// The canonical green level.
    pub fn green() -> (r: Self)
        ensures
            r == spec_green_level(),
            r.wf(),
    {
        SignalLevel(SignalLevelInner::Green(SignalStrength(GREEN_SIGNAL_STRENGTH_VALUE)))
    }
}

impl Default for SignalLevel {
    /// The canonical black level.
    fn default() -> (r: Self)
        ensures
            r == spec_black_level(),
            r.wf(),
    {
        Self::black()
    }
}

impl PartialOrd for SignalLevel {
    fn partial_cmp(&self, other: &Self) -> (r: Option<core::cmp::Ordering>) {
        let a = self.strength();
        let b = other.strength();
        if a.0 < b.0 {
            Some(core::cmp::Ordering::Less)
        } else if a.0 == b.0 {
            Some(core::cmp::Ordering::Equal)
        } else {
            Some(core::cmp::Ordering::Greater)
        }
    }
}

impl vstd::std_specs::cmp::PartialOrdSpecImpl for SignalLevel {
    open spec fn obeys_partial_cmp_spec() -> bool {
        true
    }

    open spec fn partial_cmp_spec(&self, other: &Self) -> Option<core::cmp::Ordering> {
        if self.spec_strength() < other.spec_strength() {
            Some(core::cmp::Ordering::Less)
        } else if self.spec_strength() == other.spec_strength() {
            Some(core::cmp::Ordering::Equal)
        } else {
            Some(core::cmp::Ordering::Greater)
        }
    }
}

/// The canonical level of each tier is well formed, and the four are
/// strictly ordered by strength: black, then red, then yellow, then green.
pub proof fn lemma_canonical_levels_wf()
    ensures
        spec_black_level().wf(),
        spec_red_level().wf(),
        spec_yellow_level().wf(),
        spec_green_level().wf(),
        spec_black_level().spec_strength() < spec_red_level().spec_strength()
            < spec_yellow_level().spec_strength() < spec_green_level().spec_strength(),
{
}

/// The level of the weaker strength.
pub fn min_signal_level(signal_level1: SignalLevel, signal_level2: SignalLevel) -> (r: SignalLevel)
    ensures
        r == if signal_level1.spec_strength() < signal_level2.spec_strength() {
            signal_level1
        } else {
            signal_level2
        },
{
    if signal_level1.strength().0 < signal_level2.strength().0 {
        signal_level1
    } else {
        signal_level2
    }
}

/// Ordering levels by strength is a total order, and it is consistent with
/// the tiers: a stronger signal never falls in a lower tier, and two well
/// formed levels of equal strength are the same level.
pub proof fn lemma_level_order_consistent_with_tiers(a: SignalLevel, b: SignalLevel)
    requires
        a.wf(),
        b.wf(),
    ensures
        a.partial_cmp_spec(&b) is Some,
        a.spec_strength() <= b.spec_strength() || b.spec_strength() <= a.spec_strength(),
        a.spec_strength() <= b.spec_strength() ==> a.spec_rank() <= b.spec_rank(),
        a.spec_strength() == b.spec_strength() ==> a == b,
{
}

/// The continuous attenuation model is non-increasing in distance, and
/// the black tier is absorbing: a black source yields black at every
/// distance, and reception that has fallen to the black tier never rises
/// again further out.
pub proof fn lemma_strength_at_nonincreasing(s: int, lambda: int, d1: int, d2: int)
    requires
        0 < lambda,
        0 <= d1 <= d2,
    ensures
        spec_strength_at(s, lambda, d2) <= spec_strength_at(s, lambda, d1),
        s <= MAX_BLACK_STRENGTH_VALUE as int ==> spec_strength_at(s, lambda, d2) == 0,
        spec_strength_at(s, lambda, d1) <= MAX_BLACK_STRENGTH_VALUE as int
            ==> spec_tier_of_value(spec_strength_at(s, lambda, d2)) == 0,
{
    if s <= MAX_BLACK_STRENGTH_VALUE as int {
    } else {
        let num = s * (SIGNAL_STRENGTH_SCALING as int) * lambda * lambda;
        let a = s * (SIGNAL_STRENGTH_SCALING as int);
        assert(0 < a);
        assert(0 < a * lambda) by (nonlinear_arith)
            requires
                0 < a,
                0 < lambda,
        ;
        assert(0 < (a * lambda) * lambda) by (nonlinear_arith)
            requires
                0 < a * lambda,
                0 < lambda,
        ;
        assert(num == (a * lambda) * lambda);
        if d2 <= lambda {
        } else if d1 <= lambda {
            assert(num / (d2 * d2) <= num) by (nonlinear_arith)
                requires
                    0 < num,
                    lambda < d2,
                    0 < lambda,
            ;
        } else {
            assert(0 < d1 * d1 <= d2 * d2) by (nonlinear_arith)
                requires
                    0 < d1 <= d2,
            ;
            vstd::arithmetic::div_mod::lemma_div_is_ordered_by_denominator(
                num,
                d1 * d1,
                d2 * d2,
            );
        }
        if d2 > lambda {
            assert(0 < d2 * d2) by (nonlinear_arith)
                requires
                    0 < d2,
            ;
            vstd::arithmetic::div_mod::lemma_div_pos_is_pos(num, d2 * d2);
        }
    }
}

/// Checks that a point lies in the world box.
pub fn check_point(p: &Point3D) -> (r: bool)
    ensures
        r ==> p.wf(),
{
    let limit = crate::mathphysics::COORD_LIMIT;
    -limit <= p.x && p.x <= limit && -limit <= p.y && p.y <= limit && -limit <= p.z && p.z
        <= limit
}

/// Checks that any point a task carries lies in the world box.
pub fn check_task(t: &Task) -> (r: bool)
    ensures
        r ==> t.wf(),
{
    match t {
        Task::Attack(p) => check_point(p),
        Task::Reconnect(p) => check_point(p),
        Task::Reposition(p) => check_point(p),
        Task::Undefined => true,
    }
}

/// The payload a signal carries.
#[derive(Clone, Copy, Debug, PartialEq)]
pub enum Data {
    /// A position fix.
    GPS(Point3D),
    /// A malicious payload.
    Malware(Malware),
    /// A task assignment.
    SetTask(Task),
    /// No decodable payload: jamming, or a signal too strong to decode.
    Noise,
}

impl Data {
    /// Any point the payload carries lies inside the world box.
    pub open spec fn wf(self) -> bool {
        match self {
            Data::GPS(p) => p.wf(),
            Data::SetTask(t) => t.wf(),
            Data::Malware(_) => true,
            Data::Noise => true,
        }
    }
}

/// One transmission: envelope fields and an optional payload.  Immutable
/// once created; [`Signal::to_noise`] keeps the envelope and drops the
/// payload.
#[derive(Clone, Copy, Debug, PartialEq)]
pub struct Signal {
    pub source_id: DeviceId,
    pub destination_id: DeviceId,
    pub data: Data,
    pub frequency: Frequency,
    pub level: SignalLevel,
}

impl Signal {
    pub open spec fn wf(self) -> bool {
        &&& self.level.wf()
        &&& self.data.wf()
    }

    pub fn new(
        source_id: DeviceId,
        destination_id: DeviceId,
        data: Data,
        frequency: Frequency,
        level: SignalLevel,
    ) -> (r: Self)
        ensures
            r == (Signal { source_id, destination_id, data, frequency, level }),
    {
        Self { source_id, destination_id, data, frequency, level }
    }

    /// The same envelope with the payload stripped.
    pub fn to_noise(&self) -> (r: Self)
        ensures
            r == (Signal { data: Data::Noise, ..*self }),
    {
        Self { data: Data::Noise, ..*self }
    }

    pub fn source_id(&self) -> (r: DeviceId)
        ensures
            r == self.source_id,
    {
        self.source_id
    }

    pub fn destination_id(&self) -> (r: DeviceId)
        ensures
            r == self.destination_id,
    {
        self.destination_id
    }

    pub fn data(&self) -> (r: &Data)
        ensures
            r == &self.data,
    {
        &self.data
    }

    pub fn frequency(&self) -> (r: Frequency)
        ensures
            r == self.frequency,
    {
        self.frequency
    }

    /// The quality the signal was created with.
    pub fn level(&self) -> (r: SignalLevel)
        ensures
            r == self.level,
    {
        self.level
    }

    /// The strength the signal was created with.
    pub fn strength(&self) -> (r: SignalStrength)
        ensures
            r.0 as int == self.level.spec_strength(),
    {
        self.level.strength()
    }

    pub fn malware(&self) -> (r: Option<&Malware>)
        ensures
            match r {
                Some(m) => self.data == Data::Malware(*m),
                None => !(self.data is Malware),
            },
    {
        if let Data::Malware(malware) = &self.data {
            return Some(malware);
        }
        None
    }

    pub fn task(&self) -> (r: Option<&Task>)
        ensures
            match r {
                Some(t) => self.data == Data::SetTask(*t),
                None => !(self.data is SetTask),
            },
    {
        if let Data::SetTask(task) = &self.data {
            return Some(task);
        }
        None
    }

    /// Checks the signal invariant at run time: a `true` answer
    /// guarantees [`Signal::wf`].
    pub fn check_wf(&self) -> (r: bool)
        ensures
            r ==> self.wf(),
    {
        if !self.level.check_wf() {
            return false;
        }
        match self.data {
            Data::GPS(p) => check_point(&p),
            Data::SetTask(t) => check_task(&t),
            Data::Malware(_) => true,
            Data::Noise => true,
        }
    }

    pub fn is_malware(&self) -> (r: bool)
        ensures
            r == (self.data is Malware),
    {
        matches!(self.data, Data::Malware(_))
    }
}

} // verus!
