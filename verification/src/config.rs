//! Configuration the harness hands the simulation: how the model is
//! constructed, how long it runs, and how its frames would be rendered.
//! These affect only how the core is put together, never its per-tick
//! behaviour.
use vstd::prelude::*;

use crate::connections::Topology;
use crate::device::SignalLossResponse;
use crate::malware::Malware;
use crate::mathphysics::Frequency;
use crate::mathphysics::Millisecond;
use crate::trx::TXModuleType;

verus! {

/// A pixel count.
pub type Pixel = u32;

/// The pixel size of a rendered frame.
#[derive(Clone, Copy, Debug, PartialEq, Eq, Structural)]
pub struct PlotResolution {
    pub width: Pixel,
    pub height: Pixel,
}

/// The coordinate ranges of the three rendered axes, in millimeters.
#[derive(Clone, Copy, Debug, PartialEq, Eq, Structural)]
pub struct Axes3DRanges {
    pub x_start: i64,
    pub x_end: i64,
    pub y_start: i64,
    pub y_end: i64,
    pub z_start: i64,
    pub z_end: i64,
}

/// The camera attitude of the rendered view, in whole degrees.
#[derive(Clone, Copy, Debug, PartialEq, Eq, Structural)]
pub struct CameraAngle {
    pub pitch_degrees: i32,
    pub yaw_degrees: i32,
}

/// How rendered devices are colored.
#[derive(Clone, Copy, Debug, PartialEq, Eq, Structural)]
pub enum DeviceColoring {
    /// One fixed color for every device, as red, green and blue parts.
    SingleColor(u8, u8, u8),
    /// Infected devices stand out.
    Infection,
}

/// How the simulated model itself is constructed.
#[derive(Clone, Copy, Debug, PartialEq)]
pub struct ModelConfig {
    pub tx_module_type: TXModuleType,
    pub signal_loss_response: SignalLossResponse,
    pub topology: Topology,
    pub drone_count: u64,
    pub delay_multiplier: u64,
}

impl ModelConfig {
    pub fn new(
        tx_module_type: TXModuleType,
        signal_loss_response: SignalLossResponse,
        topology: Topology,
        drone_count: u64,
        delay_multiplier: u64,
    ) -> (r: Self)
        ensures
            r == (ModelConfig {
                tx_module_type,
                signal_loss_response,
                topology,
                drone_count,
                delay_multiplier,
            }),
    {
        Self { tx_module_type, signal_loss_response, topology, drone_count, delay_multiplier }
    }

    pub fn tx_module_type(&self) -> (r: TXModuleType)
        ensures
            r == self.tx_module_type,
    {
        self.tx_module_type
    }

    pub fn signal_loss_response(&self) -> (r: SignalLossResponse)
        ensures
            r == self.signal_loss_response,
    {
        self.signal_loss_response
    }

    pub fn topology(&self) -> (r: Topology)
        ensures
            r == self.topology,
    {
        self.topology
    }

    pub fn drone_count(&self) -> (r: u64)
        ensures
            r == self.drone_count,
    {
        self.drone_count
    }

    pub fn delay_multiplier(&self) -> (r: u64)
        ensures
            r == self.delay_multiplier,
    {
        self.delay_multiplier
    }
}

/// How the model is played back: where per-tick output goes, whether and
/// how frames are rendered, and how long the run lasts.
#[derive(Clone, Debug, PartialEq)]
pub struct ModelPlayerConfig {
    pub json_output_directory: Option<String>,
    pub render_config: Option<RenderConfig>,
    pub simulation_time: Millisecond,
}

impl ModelPlayerConfig {
    pub fn new(
        json_output_directory: Option<String>,
        render_config: Option<RenderConfig>,
        simulation_time: Millisecond,
    ) -> (r: Self)
        ensures
            r == (ModelPlayerConfig { json_output_directory, render_config, simulation_time }),
    {
        Self { json_output_directory, render_config, simulation_time }
    }

    pub fn json_output_directory(&self) -> (r: &Option<String>)
        ensures
            r == &self.json_output_directory,
    {
        &self.json_output_directory
    }

    pub fn render_config(&self) -> (r: &Option<RenderConfig>)
        ensures
            r == &self.render_config,
    {
        &self.render_config
    }

    pub fn simulation_time(&self) -> (r: Millisecond)
        ensures
            r == self.simulation_time,
    {
        self.simulation_time
    }
}

/// How rendered frames look.
#[derive(Clone, Debug, PartialEq)]
pub struct RenderConfig {
    pub plot_caption: String,
    pub plot_resolution: PlotResolution,
    pub axes_ranges: Axes3DRanges,
    pub camera_angle: CameraAngle,
    pub device_coloring: DeviceColoring,
}

impl RenderConfig {
    pub fn new(
        plot_caption: String,
        plot_resolution: PlotResolution,
        axes_ranges: Axes3DRanges,
        camera_angle: CameraAngle,
        device_coloring: DeviceColoring,
    ) -> (r: Self)
        ensures
            r == (RenderConfig {
                plot_caption,
                plot_resolution,
                axes_ranges,
                camera_angle,
                device_coloring,
            }),
    {
        Self { plot_caption, plot_resolution, axes_ranges, camera_angle, device_coloring }
    }

    pub fn plot_caption(&self) -> (r: &String)
        ensures
            r == &self.plot_caption,
    {
        &self.plot_caption
    }

    pub fn plot_resolution(&self) -> (r: PlotResolution)
        ensures
            r == self.plot_resolution,
    {
        self.plot_resolution
    }

    pub fn axes_ranges(&self) -> (r: Axes3DRanges)
        ensures
            r == self.axes_ranges,
    {
        self.axes_ranges
    }

    pub fn camera_angle(&self) -> (r: CameraAngle)
        ensures
            r == self.camera_angle,
    {
        self.camera_angle
    }

    pub fn device_coloring(&self) -> (r: DeviceColoring)
        ensures
            r == self.device_coloring,
    {
        self.device_coloring
    }
}

/// The model and playback configuration together.
#[derive(Clone, Debug, PartialEq)]
pub struct GeneralConfig {
    pub model_config: ModelConfig,
    pub model_player_config: ModelPlayerConfig,
}

impl GeneralConfig {
    pub fn new(model_config: ModelConfig, model_player_config: ModelPlayerConfig) -> (r: Self)
        ensures
            r == (GeneralConfig { model_config, model_player_config }),
    {
        Self { model_config, model_player_config }
    }

    pub fn model_config(&self) -> (r: &ModelConfig)
        ensures
            r == &self.model_config,
    {
        &self.model_config
    }

    pub fn model_player_config(&self) -> (r: &ModelPlayerConfig)
        ensures
            r == &self.model_player_config,
    {
        &self.model_player_config
    }
}

/// The ready-made situations the harness can run: a persisted model, an
/// electronic warfare attack, GPS spoofing, a malware infection, plain
/// movement, or the signal-loss responses.
#[derive(Clone, Debug, PartialEq)]
pub enum Example {
    /// A model restored from the file at this path.
    Custom(String),
    EWD { ew_frequency: Frequency, ewd_area_radius: u64 },
    GPSSpoofing { spoofer_area_radius: u64 },
    MalwareInfection { malware: Malware, attacker_area_radius: u64 },
    Movement,
    SignalLossResponse,
}

} // verus!
