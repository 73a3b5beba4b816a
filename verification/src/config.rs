//! The configuration model: overlay placement, visualizer settings, colors
//! and daemon settings, with their built-in defaults.
//!
//! Settings that the programs use as floating-point numbers are held here
//! as the number's text, checked against the syntax that `str::parse`
//! accepts for a 32-bit float; the programs convert the text themselves.
use vstd::prelude::*;
use crate::number::is_float_text;
use crate::text::{lit, string_of};

verus! {

/// The layer-shell layer the overlay window sits in.
#[derive(Clone, Copy, Debug, PartialEq, Eq, Structural)]
pub enum OverlayLayer {
    Background,
    Bottom,
    Top,
}

/// Where and how large the overlay window is.
#[derive(Clone, Copy, Debug, PartialEq, Eq, Structural)]
pub struct OverlayConfig {
    pub layer: OverlayLayer,
    pub anchor_margin: u32,
    pub width: u32,
    pub height: u32,
}

impl Default for OverlayConfig {
    /// The built-in overlay settings.
    fn default() -> (c: OverlayConfig)
        ensures
            c == Self::spec_default(),
    {
        OverlayConfig { layer: OverlayLayer::Background, anchor_margin: 10, width: 1000, height: 300 }
    }
}

impl OverlayConfig {
    pub open spec fn spec_default() -> OverlayConfig {
        OverlayConfig { layer: OverlayLayer::Background, anchor_margin: 10, width: 1000, height: 300 }
    }

}

/// Where audio frames come from.
#[derive(Clone, Copy, Debug, PartialEq, Eq, Structural)]
pub enum VisualizerBackend {
    Auto,
    Pipewire,
    Cava,
    Dummy,
}

/// Bars or a wave.
#[derive(Clone, Copy, Debug, PartialEq, Eq, Structural)]
pub enum VisualizerType {
    Bar,
    Wave,
}

/// How the color gradient is laid over the bars: bottom to top, left to
/// right, or by each bar's height (a bar takes the gradient's color at its
/// own level, from the first color for an empty bar to the last for a full
/// one).
#[derive(Clone, Copy, Debug, PartialEq, Eq, Structural)]
pub enum ColorOrientation {
    Vertical,
    Horizontal,
    Height,
}

/// The text of a number that the programs read as a 32-bit float.
#[derive(Debug, PartialEq)]
pub struct NumberText {
    pub text: String,
}

impl NumberText {
    /// The text is one that `str::parse` accepts as a 32-bit float.
    pub open spec fn wf(&self) -> bool {
        is_float_text(self.text@)
    }
}

/// A color as written in the colors file.
#[derive(Debug, PartialEq)]
pub enum ColorValue {
    /// `#rrggbb` or `#rrggbbaa`: each channel byte stands for byte / 255;
    /// a missing alpha stands for 1.
    Hex { r: u8, g: u8, b: u8, a: Option<u8> },
    /// Comma-separated channel numbers. Red, green and blue are scaled by
    /// 1/255 when any of them exceeds 1; every channel is then clamped to
    /// [0, 1]; a missing alpha stands for 1.
    Channels { r: NumberText, g: NumberText, b: NumberText, a: Option<NumberText> },
}

/// A color as the contracts see it.
pub enum ColorSpec {
    Hex(u8, u8, u8, Option<u8>),
    Channels(Seq<char>, Seq<char>, Seq<char>, Option<Seq<char>>),
}

impl View for ColorValue {
    type V = ColorSpec;

    open spec fn view(&self) -> ColorSpec {
        match self {
            ColorValue::Hex { r, g, b, a } => ColorSpec::Hex(*r, *g, *b, *a),
            ColorValue::Channels { r, g, b, a } => ColorSpec::Channels(
                r.text@,
                g.text@,
                b.text@,
                match a {
                    Some(t) => Some(t.text@),
                    None => None,
                },
            ),
        }
    }
}

pub open spec fn colors_view(v: Seq<ColorValue>) -> Seq<ColorSpec> {
    v.map_values(|c: ColorValue| c@)
}

/// The built-in gradient color, 175/255, 198/255, 1 at alpha 0.7.
pub open spec fn default_color() -> ColorSpec {
    ColorSpec::Channels("175"@, "198"@, "255"@, Some("0.7"@))
}

pub fn default_gradient() -> (v: Vec<ColorValue>)
    ensures
        colors_view(v@) == seq![default_color()],
{
    let mut v: Vec<ColorValue> = Vec::new();
    v.push(
        ColorValue::Channels {
            r: NumberText { text: string_of(&lit("175")) },
            g: NumberText { text: string_of(&lit("198")) },
            b: NumberText { text: string_of(&lit("255")) },
            a: Some(NumberText { text: string_of(&lit("0.7")) }),
        },
    );
    assert(colors_view(v@) =~= seq![default_color()]);
    v
}

/// What the visualizer draws and how it reads audio.
///
/// `bar_corner_radius` is used no smaller than 0, and the `pipewire_*`
/// settings as written.
#[derive(Debug, PartialEq)]
pub struct VisualizerConfig {
    pub backend: VisualizerBackend,
    pub visualizer_type: VisualizerType,
    pub bars: usize,
    pub bar_width: u32,
    pub bar_corner_radius: NumberText,
    pub wave_thickness: u32,
    pub gap: u32,
    pub framerate: u32,
    pub color_gradient: Vec<ColorValue>,
    pub color_orientation: ColorOrientation,
    pub color_fade: bool,
    pub gpu: bool,
    pub pipewire_attack: NumberText,
    pub pipewire_decay: NumberText,
    pub pipewire_gain: NumberText,
    pub pipewire_curve: NumberText,
    pub pipewire_neighbor_mix: NumberText,
}

pub struct VisualizerView {
    pub backend: VisualizerBackend,
    pub visualizer_type: VisualizerType,
    pub bars: usize,
    pub bar_width: u32,
    pub bar_corner_radius: Seq<char>,
    pub wave_thickness: u32,
    pub gap: u32,
    pub framerate: u32,
    pub color_gradient: Seq<ColorSpec>,
    pub color_orientation: ColorOrientation,
    pub color_fade: bool,
    pub gpu: bool,
    pub pipewire_attack: Seq<char>,
    pub pipewire_decay: Seq<char>,
    pub pipewire_gain: Seq<char>,
    pub pipewire_curve: Seq<char>,
    pub pipewire_neighbor_mix: Seq<char>,
}

impl View for VisualizerConfig {
    type V = VisualizerView;

    open spec fn view(&self) -> VisualizerView {
        VisualizerView {
            backend: self.backend,
            visualizer_type: self.visualizer_type,
            bars: self.bars,
            bar_width: self.bar_width,
            bar_corner_radius: self.bar_corner_radius.text@,
            wave_thickness: self.wave_thickness,
            gap: self.gap,
            framerate: self.framerate,
            color_gradient: colors_view(self.color_gradient@),
            color_orientation: self.color_orientation,
            color_fade: self.color_fade,
            gpu: self.gpu,
            pipewire_attack: self.pipewire_attack.text@,
            pipewire_decay: self.pipewire_decay.text@,
            pipewire_gain: self.pipewire_gain.text@,
            pipewire_curve: self.pipewire_curve.text@,
            pipewire_neighbor_mix: self.pipewire_neighbor_mix.text@,
        }
    }
}

impl Default for VisualizerConfig {
    /// The built-in visualizer settings.
    fn default() -> (c: VisualizerConfig)
        ensures
            c@ == Self::spec_default(),
    {
        VisualizerConfig {
            backend: VisualizerBackend::Pipewire,
            visualizer_type: VisualizerType::Bar,
            bars: 120,
            bar_width: 12,
            bar_corner_radius: NumberText { text: string_of(&lit("20.0")) },
            wave_thickness: 2,
            gap: 5,
            framerate: 60,
            color_gradient: default_gradient(),
            color_orientation: ColorOrientation::Vertical,
            color_fade: true,
            gpu: true,
            pipewire_attack: NumberText { text: string_of(&lit("0.14")) },
            pipewire_decay: NumberText { text: string_of(&lit("0.975")) },
            pipewire_gain: NumberText { text: string_of(&lit("1.20")) },
            pipewire_curve: NumberText { text: string_of(&lit("0.95")) },
            pipewire_neighbor_mix: NumberText { text: string_of(&lit("0.24")) },
        }
    }
}

impl VisualizerConfig {
    pub open spec fn spec_default() -> VisualizerView {
        VisualizerView {
            backend: VisualizerBackend::Pipewire,
            visualizer_type: VisualizerType::Bar,
            bars: 120,
            bar_width: 12,
            bar_corner_radius: "20.0"@,
            wave_thickness: 2,
            gap: 5,
            framerate: 60,
            color_gradient: seq![default_color()],
            color_orientation: ColorOrientation::Vertical,
            color_fade: true,
            gpu: true,
            pipewire_attack: "0.14"@,
            pipewire_decay: "0.975"@,
            pipewire_gain: "1.20"@,
            pipewire_curve: "0.95"@,
            pipewire_neighbor_mix: "0.24"@,
        }
    }

}

/// When the daemon shows the overlay and how it starts it.
///
/// `activity_threshold` is used clamped to [0, 1].
#[derive(Debug, PartialEq)]
pub struct DaemonConfig {
    pub enabled: bool,
    pub poll_interval_ms: u64,
    pub activity_threshold: NumberText,
    pub activate_delay_ms: u64,
    pub deactivate_delay_ms: u64,
    pub stop_on_silence: bool,
    pub notify_on_error: bool,
    pub notify_cooldown_seconds: u64,
    pub allowed_processes: Vec<String>,
    pub overlay_command: String,
    pub overlay_args: Vec<String>,
}

pub open spec fn strings_view(v: Seq<String>) -> Seq<Seq<char>> {
    v.map_values(|s: String| s@)
}

pub struct DaemonView {
    pub enabled: bool,
    pub poll_interval_ms: u64,
    pub activity_threshold: Seq<char>,
    pub activate_delay_ms: u64,
    pub deactivate_delay_ms: u64,
    pub stop_on_silence: bool,
    pub notify_on_error: bool,
    pub notify_cooldown_seconds: u64,
    pub allowed_processes: Seq<Seq<char>>,
    pub overlay_command: Seq<char>,
    pub overlay_args: Seq<Seq<char>>,
}

impl View for DaemonConfig {
    type V = DaemonView;

    open spec fn view(&self) -> DaemonView {
        DaemonView {
            enabled: self.enabled,
            poll_interval_ms: self.poll_interval_ms,
            activity_threshold: self.activity_threshold.text@,
            activate_delay_ms: self.activate_delay_ms,
            deactivate_delay_ms: self.deactivate_delay_ms,
            stop_on_silence: self.stop_on_silence,
            notify_on_error: self.notify_on_error,
            notify_cooldown_seconds: self.notify_cooldown_seconds,
            allowed_processes: strings_view(self.allowed_processes@),
            overlay_command: self.overlay_command@,
            overlay_args: strings_view(self.overlay_args@),
        }
    }
}

impl Default for DaemonConfig {
    /// The built-in daemon settings.
    fn default() -> (c: DaemonConfig)
        ensures
            c@ == Self::spec_default(),
    {
        let c = DaemonConfig {
            enabled: true,
            poll_interval_ms: 90,
            activity_threshold: NumberText { text: string_of(&lit("0.035")) },
            activate_delay_ms: 180,
            deactivate_delay_ms: 2200,
            stop_on_silence: true,
            notify_on_error: true,
            notify_cooldown_seconds: 45,
            allowed_processes: Vec::new(),
            overlay_command: string_of(&lit("cavaii")),
            overlay_args: Vec::new(),
        };
        assert(strings_view(c.allowed_processes@) =~= Seq::<Seq<char>>::empty());
        assert(strings_view(c.overlay_args@) =~= Seq::<Seq<char>>::empty());
        c
    }
}

impl DaemonConfig {
    pub open spec fn spec_default() -> DaemonView {
        DaemonView {
            enabled: true,
            poll_interval_ms: 90,
            activity_threshold: "0.035"@,
            activate_delay_ms: 180,
            deactivate_delay_ms: 2200,
            stop_on_silence: true,
            notify_on_error: true,
            notify_cooldown_seconds: 45,
            allowed_processes: Seq::empty(),
            overlay_command: "cavaii"@,
            overlay_args: Seq::empty(),
        }
    }

}

/// The `[bar]` section: the layout of bars, each setting given or not.
/// Where given, it takes the place of the `[visualizer]` setting while the
/// visualizer draws bars: `points` the number of bars, `point_width` and
/// `point_gap` their width and spacing, `corner_radius` their rounding.
#[derive(Debug, PartialEq)]
pub struct BarSection {
    pub points: Option<usize>,
    pub point_width: Option<u32>,
    pub point_gap: Option<u32>,
    pub corner_radius: Option<NumberText>,
}

pub struct BarView {
    pub points: Option<usize>,
    pub point_width: Option<u32>,
    pub point_gap: Option<u32>,
    pub corner_radius: Option<Seq<char>>,
}

impl View for BarSection {
    type V = BarView;

    open spec fn view(&self) -> BarView {
        BarView {
            points: self.points,
            point_width: self.point_width,
            point_gap: self.point_gap,
            corner_radius: match self.corner_radius {
                Some(t) => Some(t.text@),
                None => None,
            },
        }
    }
}

/// The `[wave]` section: the layout of the wave, each setting given or
/// not. Where given, it takes the place of the `[visualizer]` setting while
/// the visualizer draws a wave: `points` the number of values, `point_width`
/// and `point_gap` as for bars, `thickness` the line's width (at least 1).
#[derive(Debug, PartialEq)]
pub struct WaveSection {
    pub points: Option<usize>,
    pub point_width: Option<u32>,
    pub point_gap: Option<u32>,
    pub thickness: Option<u32>,
}

pub struct WaveView {
    pub points: Option<usize>,
    pub point_width: Option<u32>,
    pub point_gap: Option<u32>,
    pub thickness: Option<u32>,
}

impl View for WaveSection {
    type V = WaveView;

    open spec fn view(&self) -> WaveView {
        WaveView {
            points: self.points,
            point_width: self.point_width,
            point_gap: self.point_gap,
            thickness: self.thickness,
        }
    }
}

/// All settings of the overlay and the daemon: `logging` is the top-level
/// setting written before any section.
#[derive(Debug, PartialEq)]
pub struct AppConfig {
    pub logging: bool,
    pub overlay: OverlayConfig,
    pub visualizer: VisualizerConfig,
    pub bar: BarSection,
    pub wave: WaveSection,
    pub daemon: DaemonConfig,
}

pub struct AppView {
    pub logging: bool,
    pub overlay: OverlayConfig,
    pub visualizer: VisualizerView,
    pub bar: BarView,
    pub wave: WaveView,
    pub daemon: DaemonView,
}

impl View for AppConfig {
    type V = AppView;

    open spec fn view(&self) -> AppView {
        AppView {
            logging: self.logging,
            overlay: self.overlay,
            visualizer: self.visualizer@,
            bar: self.bar@,
            wave: self.wave@,
            daemon: self.daemon@,
        }
    }
}

impl Default for AppConfig {
    /// The built-in settings, used where no configuration file exists.
    fn default() -> (c: AppConfig)
        ensures
            c@ == Self::spec_default(),
    {
        AppConfig {
            logging: false,
            overlay: OverlayConfig::default(),
            visualizer: VisualizerConfig::default(),
            bar: BarSection { points: None, point_width: None, point_gap: None, corner_radius: None },
            wave: WaveSection { points: None, point_width: None, point_gap: None, thickness: None },
            daemon: DaemonConfig::default(),
        }
    }
}

impl AppConfig {
    pub open spec fn spec_default() -> AppView {
        AppView {
            logging: false,
            overlay: OverlayConfig::spec_default(),
            visualizer: VisualizerConfig::spec_default(),
            bar: BarView { points: None, point_width: None, point_gap: None, corner_radius: None },
            wave: WaveView { points: None, point_width: None, point_gap: None, thickness: None },
            daemon: DaemonConfig::spec_default(),
        }
    }
}

/// The color settings that the colors file may override.
#[derive(Debug, PartialEq)]
pub struct VisualizerColorOverrides {
    pub gradient: Option<Vec<ColorValue>>,
    pub orientation: Option<ColorOrientation>,
    pub fade: Option<bool>,
}

pub struct OverridesView {
    pub gradient: Option<Seq<ColorSpec>>,
    pub orientation: Option<ColorOrientation>,
    pub fade: Option<bool>,
}

impl View for VisualizerColorOverrides {
    type V = OverridesView;

    open spec fn view(&self) -> OverridesView {
        OverridesView {
            gradient: match self.gradient {
                Some(g) => Some(colors_view(g@)),
                None => None,
            },
            orientation: self.orientation,
            fade: self.fade,
        }
    }
}

/// A color whose channel texts are numbers the programs can read.
pub open spec fn color_wf(c: ColorSpec) -> bool {
    match c {
        ColorSpec::Hex(_, _, _, _) => true,
        ColorSpec::Channels(r, g, b, a) => is_float_text(r) && is_float_text(g) && is_float_text(b)
            && match a {
            Some(t) => is_float_text(t),
            None => true,
        },
    }
}

/// A gradient of one to five readable colors.
pub open spec fn gradient_wf(g: Seq<ColorSpec>) -> bool {
    1 <= g.len() <= 5 && forall|i: int| 0 <= i < g.len() ==> color_wf(#[trigger] g[i])
}

/// What every visualizer configuration keeps: readable numbers, a gradient
/// of one to five colors, and waves at least 1 pixel thick.
pub open spec fn visualizer_wf(v: VisualizerView) -> bool {
    &&& is_float_text(v.bar_corner_radius)
    &&& is_float_text(v.pipewire_attack)
    &&& is_float_text(v.pipewire_decay)
    &&& is_float_text(v.pipewire_gain)
    &&& is_float_text(v.pipewire_curve)
    &&& is_float_text(v.pipewire_neighbor_mix)
    &&& gradient_wf(v.color_gradient)
    &&& v.wave_thickness >= 1
}

/// What every daemon configuration keeps: a readable activity threshold,
/// polling no faster than every 16 ms, and a command to start.
pub open spec fn daemon_wf(d: DaemonView) -> bool {
    &&& is_float_text(d.activity_threshold)
    &&& d.poll_interval_ms >= 16
    &&& d.overlay_command.len() > 0
}

/// What the `[bar]` and `[wave]` sections keep: a readable corner radius
/// and a line at least 1 pixel thick, where given.
pub open spec fn sections_wf(b: BarView, w: WaveView) -> bool {
    &&& (b.corner_radius matches Some(t) ==> is_float_text(t))
    &&& (w.thickness matches Some(n) ==> n >= 1)
}

pub open spec fn app_wf(c: AppView) -> bool {
    visualizer_wf(c.visualizer) && daemon_wf(c.daemon) && sections_wf(c.bar, c.wave)
}

/// Overrides whose gradient, when there is one, has one to five readable
/// colors.
pub open spec fn overrides_wf(o: OverridesView) -> bool {
    o.gradient matches Some(g) ==> gradient_wf(g)
}

} // verus!
