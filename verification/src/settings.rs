//! Reading the main configuration file: sections `[overlay]`,
//! `[visualizer]` and `[daemon]` of `key = value` lines, where a value that
//! opens an array may continue on the following lines.
use vstd::prelude::*;
use crate::config::{AppConfig, AppView, BarSection, BarView, WaveSection, WaveView, DaemonConfig, DaemonView, NumberText, OverlayConfig, OverlayLayer, VisualizerBackend, VisualizerConfig, VisualizerType, VisualizerView, strings_view};
use crate::number::same_chars;
use crate::text::{chars_of, lines, lines_of, lemma_lines_bounds, lit, starts_with, string_of, sub_chars, trim, trim_chars, views};
use crate::values::{array_bracket_delta, backend_spec, bool_spec, bracket_delta, cat, line_prefix, line_prefix_chars, msg2, normalize_spec, normalize_value, number_spec, optional_string_spec, overlay_layer_spec, parse_bool, parse_f32, parse_optional_string, parse_string_list, parse_u32, parse_u64, parse_usize, string_list_spec, unsigned_spec, visualizer_type_spec};

verus! {

#[verifier::external_type_specification]
#[verifier::external_body]
pub struct ExIoError(std::io::Error);

/// Why a configuration could not be loaded.
#[derive(Debug)]
pub enum ConfigLoadError {
    Io(std::io::Error),
    Parse(String),
}

/// `Display` for `std::io::Error`; the text comes from the operating system
/// and nothing is said of it.
#[verifier::external_body]
fn io_error_text(err: &std::io::Error) -> String {
    format!("{err}")
}

impl ConfigLoadError {
    /// The error as text, as its `Display` writes it: `io error: ` and the
    /// system's description, or `config parse error: ` and the message.
    pub fn message(&self) -> (s: String)
        ensures
            self matches ConfigLoadError::Parse(m) ==> s@ == "config parse error: "@ + m@,
            self is Io ==> starts_with(s@, "io error: "@),
    {
        match self {
            ConfigLoadError::Io(err) => {
                let t = chars_of(io_error_text(err).as_str());
                let m = msg2("io error: ", &t);
                assert(m@.take("io error: "@.len() as int) =~= "io error: "@);
                string_of(&m)
            },
            ConfigLoadError::Parse(m) => string_of(&msg2("config parse error: ", &chars_of(m.as_str()))),
        }
    }
}

/// Ties a parse error to a line of the file; other errors pass unchanged.
pub fn with_line_context(error: ConfigLoadError, line_no: usize) -> (r: ConfigLoadError)
    ensures
        match error {
            ConfigLoadError::Parse(m) => r matches ConfigLoadError::Parse(n) && n@ == line_prefix(
                line_no as nat,
            ) + m@,
            ConfigLoadError::Io(e) => r == ConfigLoadError::Io(e),
        },
{
    match error {
        ConfigLoadError::Parse(m) => {
            let p = line_prefix_chars(line_no as u64);
            ConfigLoadError::Parse(string_of(&cat(&p, &chars_of(m.as_str()))))
        },
        other => other,
    }
}

/// A setting of the `[overlay]` section.
pub open spec fn overlay_key_spec(o: OverlayConfig, key: Seq<char>, value: Seq<char>) -> Result<
    OverlayConfig,
    Seq<char>,
> {
    if key == "layer"@ {
        match overlay_layer_spec(value) {
            Ok(l) => Ok(OverlayConfig { layer: l, ..o }),
            Err(e) => Err(e),
        }
    } else if key == "anchor_margin"@ || key == "width"@ || key == "height"@ {
        match unsigned_spec("u32"@, u32::MAX as nat, key, value) {
            Ok(v) => Ok(
                if key == "anchor_margin"@ {
                    OverlayConfig { anchor_margin: v as u32, ..o }
                } else if key == "width"@ {
                    OverlayConfig { width: v as u32, ..o }
                } else {
                    OverlayConfig { height: v as u32, ..o }
                },
            ),
            Err(e) => Err(e),
        }
    } else {
        Err("unknown overlay key: "@ + key)
    }
}

pub fn parse_overlay_key(overlay: &mut OverlayConfig, key: &Vec<char>, value: &Vec<char>) -> (r:
    Result<(), Vec<char>>)
    ensures
        match r {
            Ok(()) => overlay_key_spec(*old(overlay), key@, value@) == Ok::<OverlayConfig, Seq<char>>(
                *final(overlay),
            ),
            Err(m) => overlay_key_spec(*old(overlay), key@, value@) == Err::<OverlayConfig, Seq<char>>(
                m@,
            ) && *final(overlay) == *old(overlay),
        },
{
    if same_chars(key, &lit("layer")) {
        let l = OverlayLayer::parse(value)?;
        overlay.layer = l;
    } else if same_chars(key, &lit("anchor_margin")) {
        let v = parse_u32(key, value)?;
        overlay.anchor_margin = v;
    } else if same_chars(key, &lit("width")) {
        let v = parse_u32(key, value)?;
        overlay.width = v;
    } else if same_chars(key, &lit("height")) {
        let v = parse_u32(key, value)?;
        overlay.height = v;
    } else {
        return Err(msg2("unknown overlay key: ", key));
    }
    Ok(())
}

/// A setting of the `[visualizer]` section.
pub open spec fn visualizer_key_spec(v: VisualizerView, key: Seq<char>, value: Seq<char>) -> Result<
    VisualizerView,
    Seq<char>,
> {
    let u32_of = unsigned_spec("u32"@, u32::MAX as nat, key, value);
    if key == "backend"@ {
        match backend_spec(value) {
            Ok(b) => Ok(VisualizerView { backend: b, ..v }),
            Err(e) => Err(e),
        }
    } else if key == "type"@ {
        match visualizer_type_spec(value) {
            Ok(t) => Ok(VisualizerView { visualizer_type: t, ..v }),
            Err(e) => Err(e),
        }
    } else if key == "bars"@ {
        match unsigned_spec("usize"@, usize::MAX as nat, key, value) {
            Ok(n) => Ok(VisualizerView { bars: n as usize, ..v }),
            Err(e) => Err(e),
        }
    } else if key == "bar_width"@ {
        match u32_of {
            Ok(n) => Ok(VisualizerView { bar_width: n as u32, ..v }),
            Err(e) => Err(e),
        }
    } else if key == "bar_corner_radius"@ {
        match number_spec(key, value) {
            Ok(t) => Ok(VisualizerView { bar_corner_radius: t, ..v }),
            Err(e) => Err(e),
        }
    } else if key == "wave_thickness"@ {
        match u32_of {
            Ok(n) => Ok(
                VisualizerView {
                    wave_thickness: if n < 1 {
                        1
                    } else {
                        n as u32
                    },
                    ..v
                },
            ),
            Err(e) => Err(e),
        }
    } else if key == "gap"@ {
        match u32_of {
            Ok(n) => Ok(VisualizerView { gap: n as u32, ..v }),
            Err(e) => Err(e),
        }
    } else if key == "framerate"@ {
        match u32_of {
            Ok(n) => Ok(VisualizerView { framerate: n as u32, ..v }),
            Err(e) => Err(e),
        }
    } else if key == "gpu"@ {
        match bool_spec(key, value) {
            Ok(b) => Ok(VisualizerView { gpu: b, ..v }),
            Err(e) => Err(e),
        }
    } else if key == "pipewire_attack"@ {
        match number_spec(key, value) {
            Ok(t) => Ok(VisualizerView { pipewire_attack: t, ..v }),
            Err(e) => Err(e),
        }
    } else if key == "pipewire_decay"@ {
        match number_spec(key, value) {
            Ok(t) => Ok(VisualizerView { pipewire_decay: t, ..v }),
            Err(e) => Err(e),
        }
    } else if key == "pipewire_gain"@ {
        match number_spec(key, value) {
            Ok(t) => Ok(VisualizerView { pipewire_gain: t, ..v }),
            Err(e) => Err(e),
        }
    } else if key == "pipewire_curve"@ {
        match number_spec(key, value) {
            Ok(t) => Ok(VisualizerView { pipewire_curve: t, ..v }),
            Err(e) => Err(e),
        }
    } else if key == "pipewire_neighbor_mix"@ {
        match number_spec(key, value) {
            Ok(t) => Ok(VisualizerView { pipewire_neighbor_mix: t, ..v }),
            Err(e) => Err(e),
        }
    } else {
        Err("unknown visualizer key: "@ + key)
    }
}

fn number_of(t: Vec<char>) -> (n: NumberText)
    ensures
        n.text@ == t@,
{
    NumberText { text: string_of(&t) }
}

pub fn parse_visualizer_key(visualizer: &mut VisualizerConfig, key: &Vec<char>, value: &Vec<char>) -> (r:
    Result<(), Vec<char>>)
    ensures
        match r {
            Ok(()) => visualizer_key_spec(old(visualizer)@, key@, value@) == Ok::<
                VisualizerView,
                Seq<char>,
            >(final(visualizer)@),
            Err(m) => visualizer_key_spec(old(visualizer)@, key@, value@) == Err::<
                VisualizerView,
                Seq<char>,
            >(m@) && final(visualizer)@ == old(visualizer)@,
        },
{
    if same_chars(key, &lit("backend")) {
        let b = VisualizerBackend::parse(value)?;
        visualizer.backend = b;
    } else if same_chars(key, &lit("type")) {
        let t = VisualizerType::parse(value)?;
        visualizer.visualizer_type = t;
    } else if same_chars(key, &lit("bars")) {
        let n = parse_usize(key, value)?;
        visualizer.bars = n;
    } else if same_chars(key, &lit("bar_width")) {
        let n = parse_u32(key, value)?;
        visualizer.bar_width = n;
    } else if same_chars(key, &lit("bar_corner_radius")) {
        let t = parse_f32(key, value)?;
        visualizer.bar_corner_radius = number_of(t);
    } else if same_chars(key, &lit("wave_thickness")) {
        let n = parse_u32(key, value)?;
        visualizer.wave_thickness = if n < 1 {
            1
        } else {
            n
        };
    } else if same_chars(key, &lit("gap")) {
        let n = parse_u32(key, value)?;
        visualizer.gap = n;
    } else if same_chars(key, &lit("framerate")) {
        let n = parse_u32(key, value)?;
        visualizer.framerate = n;
    } else if same_chars(key, &lit("gpu")) {
        let b = parse_bool(key, value)?;
        visualizer.gpu = b;
    } else if same_chars(key, &lit("pipewire_attack")) {
        let t = parse_f32(key, value)?;
        visualizer.pipewire_attack = number_of(t);
    } else if same_chars(key, &lit("pipewire_decay")) {
        let t = parse_f32(key, value)?;
        visualizer.pipewire_decay = number_of(t);
    } else if same_chars(key, &lit("pipewire_gain")) {
        let t = parse_f32(key, value)?;
        visualizer.pipewire_gain = number_of(t);
    } else if same_chars(key, &lit("pipewire_curve")) {
        let t = parse_f32(key, value)?;
        visualizer.pipewire_curve = number_of(t);
    } else if same_chars(key, &lit("pipewire_neighbor_mix")) {
        let t = parse_f32(key, value)?;
        visualizer.pipewire_neighbor_mix = number_of(t);
    } else {
        return Err(msg2("unknown visualizer key: ", key));
    }
    Ok(())
}

/// A setting of the `[daemon]` section.
pub open spec fn daemon_key_spec(d: DaemonView, key: Seq<char>, value: Seq<char>) -> Result<
    DaemonView,
    Seq<char>,
> {
    let u64_of = unsigned_spec("u64"@, u64::MAX as nat, key, value);
    if key == "enabled"@ {
        match bool_spec(key, value) {
            Ok(b) => Ok(DaemonView { enabled: b, ..d }),
            Err(e) => Err(e),
        }
    } else if key == "poll_interval_ms"@ {
        match u64_of {
            Ok(n) => Ok(
                DaemonView {
                    poll_interval_ms: if n < 16 {
                        16
                    } else {
                        n as u64
                    },
                    ..d
                },
            ),
            Err(e) => Err(e),
        }
    } else if key == "activity_threshold"@ {
        match number_spec(key, value) {
            Ok(t) => Ok(DaemonView { activity_threshold: t, ..d }),
            Err(e) => Err(e),
        }
    } else if key == "activate_delay_ms"@ {
        match u64_of {
            Ok(n) => Ok(DaemonView { activate_delay_ms: n as u64, ..d }),
            Err(e) => Err(e),
        }
    } else if key == "deactivate_delay_ms"@ {
        match u64_of {
            Ok(n) => Ok(DaemonView { deactivate_delay_ms: n as u64, ..d }),
            Err(e) => Err(e),
        }
    } else if key == "stop_on_silence"@ {
        match bool_spec(key, value) {
            Ok(b) => Ok(DaemonView { stop_on_silence: b, ..d }),
            Err(e) => Err(e),
        }
    } else if key == "notify_on_error"@ {
        match bool_spec(key, value) {
            Ok(b) => Ok(DaemonView { notify_on_error: b, ..d }),
            Err(e) => Err(e),
        }
    } else if key == "notify_cooldown_seconds"@ {
        match u64_of {
            Ok(n) => Ok(DaemonView { notify_cooldown_seconds: n as u64, ..d }),
            Err(e) => Err(e),
        }
    } else if key == "allowed_processes"@ {
        Ok(DaemonView { allowed_processes: string_list_spec(value), ..d })
    } else if key == "overlay_command"@ {
        let c = match optional_string_spec(value) {
            Some(c) => c,
            None => Seq::empty(),
        };
        Ok(
            DaemonView {
                overlay_command: if c.len() == 0 {
                    "cavaii"@
                } else {
                    c
                },
                ..d
            },
        )
    } else if key == "overlay_args"@ {
        Ok(DaemonView { overlay_args: string_list_spec(value), ..d })
    } else {
        Err("unknown daemon key: "@ + key)
    }
}

fn strings_of(v: &Vec<Vec<char>>) -> (r: Vec<String>)
    ensures
        strings_view(r@) == views(v@),
{
    let mut r: Vec<String> = Vec::new();
    let mut i: usize = 0;
    while i < v.len()
        invariant
            i <= v.len(),
            strings_view(r@) == views(v@).take(i as int),
        decreases v.len() - i,
    {
        let s = string_of(&v[i]);
        let ghost before = strings_view(r@);
        r.push(s);
        assert(strings_view(r@) =~= before.push(views(v@)[i as int]));
        i = i + 1;
        assert(strings_view(r@) =~= views(v@).take(i as int));
    }
    assert(views(v@).take(v.len() as int) =~= views(v@));
    r
}

pub fn parse_daemon_key(daemon: &mut DaemonConfig, key: &Vec<char>, value: &Vec<char>) -> (r: Result<
    (),
    Vec<char>,
>)
    ensures
        match r {
            Ok(()) => daemon_key_spec(old(daemon)@, key@, value@) == Ok::<DaemonView, Seq<char>>(
                final(daemon)@,
            ),
            Err(m) => daemon_key_spec(old(daemon)@, key@, value@) == Err::<DaemonView, Seq<char>>(
                m@,
            ) && final(daemon)@ == old(daemon)@,
        },
{
    if same_chars(key, &lit("enabled")) {
        let b = parse_bool(key, value)?;
        daemon.enabled = b;
    } else if same_chars(key, &lit("poll_interval_ms")) {
        let n = parse_u64(key, value)?;
        daemon.poll_interval_ms = if n < 16 {
            16
        } else {
            n
        };
    } else if same_chars(key, &lit("activity_threshold")) {
        let t = parse_f32(key, value)?;
        daemon.activity_threshold = number_of(t);
    } else if same_chars(key, &lit("activate_delay_ms")) {
        let n = parse_u64(key, value)?;
        daemon.activate_delay_ms = n;
    } else if same_chars(key, &lit("deactivate_delay_ms")) {
        let n = parse_u64(key, value)?;
        daemon.deactivate_delay_ms = n;
    } else if same_chars(key, &lit("stop_on_silence")) {
        let b = parse_bool(key, value)?;
        daemon.stop_on_silence = b;
    } else if same_chars(key, &lit("notify_on_error")) {
        let b = parse_bool(key, value)?;
        daemon.notify_on_error = b;
    } else if same_chars(key, &lit("notify_cooldown_seconds")) {
        let n = parse_u64(key, value)?;
        daemon.notify_cooldown_seconds = n;
    } else if same_chars(key, &lit("allowed_processes")) {
        let l = parse_string_list(value);
        daemon.allowed_processes = strings_of(&l);
    } else if same_chars(key, &lit("overlay_command")) {
        let c = match parse_optional_string(value) {
            Some(c) => c,
            None => Vec::new(),
        };
        daemon.overlay_command = if c.len() == 0 {
            string_of(&lit("cavaii"))
        } else {
            string_of(&c)
        };
    } else if same_chars(key, &lit("overlay_args")) {
        let l = parse_string_list(value);
        daemon.overlay_args = strings_of(&l);
    } else {
        return Err(msg2("unknown daemon key: ", key));
    }
    Ok(())
}

/// A setting of the `[bar]` section.
pub open spec fn bar_key_spec(b: BarView, key: Seq<char>, value: Seq<char>) -> Result<BarView, Seq<char>> {
    if key == "points"@ {
        match unsigned_spec("usize"@, usize::MAX as nat, key, value) {
            Ok(n) => Ok(BarView { points: Some(n as usize), ..b }),
            Err(e) => Err(e),
        }
    } else if key == "point_width"@ {
        match unsigned_spec("u32"@, u32::MAX as nat, key, value) {
            Ok(n) => Ok(BarView { point_width: Some(n as u32), ..b }),
            Err(e) => Err(e),
        }
    } else if key == "point_gap"@ {
        match unsigned_spec("u32"@, u32::MAX as nat, key, value) {
            Ok(n) => Ok(BarView { point_gap: Some(n as u32), ..b }),
            Err(e) => Err(e),
        }
    } else if key == "corner_radius"@ {
        match number_spec(key, value) {
            Ok(t) => Ok(BarView { corner_radius: Some(t), ..b }),
            Err(e) => Err(e),
        }
    } else {
        Err("unknown bar key: "@ + key)
    }
}

pub fn parse_bar_key(bar: &mut BarSection, key: &Vec<char>, value: &Vec<char>) -> (r: Result<(), Vec<char>>)
    ensures
        match r {
            Ok(()) => bar_key_spec(old(bar)@, key@, value@) == Ok::<BarView, Seq<char>>(final(bar)@),
            Err(m) => bar_key_spec(old(bar)@, key@, value@) == Err::<BarView, Seq<char>>(m@)
                && final(bar)@ == old(bar)@,
        },
{
    if same_chars(key, &lit("points")) {
        let n = parse_usize(key, value)?;
        bar.points = Some(n);
    } else if same_chars(key, &lit("point_width")) {
        let n = parse_u32(key, value)?;
        bar.point_width = Some(n);
    } else if same_chars(key, &lit("point_gap")) {
        let n = parse_u32(key, value)?;
        bar.point_gap = Some(n);
    } else if same_chars(key, &lit("corner_radius")) {
        let t = parse_f32(key, value)?;
        bar.corner_radius = Some(number_of(t));
    } else {
        return Err(msg2("unknown bar key: ", key));
    }
    Ok(())
}

/// A setting of the `[wave]` section; the thickness is at least 1.
pub open spec fn wave_key_spec(w: WaveView, key: Seq<char>, value: Seq<char>) -> Result<WaveView, Seq<char>> {
    let u32_of = unsigned_spec("u32"@, u32::MAX as nat, key, value);
    if key == "points"@ {
        match unsigned_spec("usize"@, usize::MAX as nat, key, value) {
            Ok(n) => Ok(WaveView { points: Some(n as usize), ..w }),
            Err(e) => Err(e),
        }
    } else if key == "point_width"@ {
        match u32_of {
            Ok(n) => Ok(WaveView { point_width: Some(n as u32), ..w }),
            Err(e) => Err(e),
        }
    } else if key == "point_gap"@ {
        match u32_of {
            Ok(n) => Ok(WaveView { point_gap: Some(n as u32), ..w }),
            Err(e) => Err(e),
        }
    } else if key == "thickness"@ {
        match u32_of {
            Ok(n) => Ok(
                WaveView {
                    thickness: Some(
                        if n < 1 {
                            1
                        } else {
                            n as u32
                        },
                    ),
                    ..w
                },
            ),
            Err(e) => Err(e),
        }
    } else {
        Err("unknown wave key: "@ + key)
    }
}

pub fn parse_wave_key(wave: &mut WaveSection, key: &Vec<char>, value: &Vec<char>) -> (r: Result<(), Vec<char>>)
    ensures
        match r {
            Ok(()) => wave_key_spec(old(wave)@, key@, value@) == Ok::<WaveView, Seq<char>>(final(wave)@),
            Err(m) => wave_key_spec(old(wave)@, key@, value@) == Err::<WaveView, Seq<char>>(m@)
                && final(wave)@ == old(wave)@,
        },
{
    if same_chars(key, &lit("points")) {
        let n = parse_usize(key, value)?;
        wave.points = Some(n);
    } else if same_chars(key, &lit("point_width")) {
        let n = parse_u32(key, value)?;
        wave.point_width = Some(n);
    } else if same_chars(key, &lit("point_gap")) {
        let n = parse_u32(key, value)?;
        wave.point_gap = Some(n);
    } else if same_chars(key, &lit("thickness")) {
        let n = parse_u32(key, value)?;
        wave.thickness = Some(
            if n < 1 {
                1
            } else {
                n
            },
        );
    } else {
        return Err(msg2("unknown wave key: ", key));
    }
    Ok(())
}

/// The given value, or `d` when there is none.
pub open spec fn or_else<T>(o: Option<T>, d: T) -> T {
    match o {
        Some(x) => x,
        None => d,
    }
}

/// The configuration once the section of the visualizer's type is laid
/// over the `[visualizer]` settings: `[bar]` while it draws bars, `[wave]`
/// while it draws a wave; settings a section does not give stay.
pub open spec fn resolved(c: AppView) -> AppView {
    let v = c.visualizer;
    match v.visualizer_type {
        VisualizerType::Bar => AppView {
            visualizer: VisualizerView {
                bars: or_else(c.bar.points, v.bars),
                bar_width: or_else(c.bar.point_width, v.bar_width),
                gap: or_else(c.bar.point_gap, v.gap),
                bar_corner_radius: or_else(c.bar.corner_radius, v.bar_corner_radius),
                ..v
            },
            ..c
        },
        VisualizerType::Wave => AppView {
            visualizer: VisualizerView {
                bars: or_else(c.wave.points, v.bars),
                bar_width: or_else(c.wave.point_width, v.bar_width),
                gap: or_else(c.wave.point_gap, v.gap),
                wave_thickness: or_else(c.wave.thickness, v.wave_thickness),
                ..v
            },
            ..c
        },
    }
}

fn resolve_sections(config: &mut AppConfig)
    ensures
        final(config)@ == resolved(old(config)@),
{
    let (points, width, gap) = match config.visualizer.visualizer_type {
        VisualizerType::Bar => (config.bar.points, config.bar.point_width, config.bar.point_gap),
        VisualizerType::Wave => (config.wave.points, config.wave.point_width, config.wave.point_gap),
    };
    if let Some(n) = points {
        config.visualizer.bars = n;
    }
    if let Some(n) = width {
        config.visualizer.bar_width = n;
    }
    if let Some(n) = gap {
        config.visualizer.gap = n;
    }
    match config.visualizer.visualizer_type {
        VisualizerType::Bar => {
            match &config.bar.corner_radius {
                Some(t) => {
                    let copy = NumberText { text: string_of(&chars_of(t.text.as_str())) };
                    config.visualizer.bar_corner_radius = copy;
                },
                None => {},
            }
        },
        VisualizerType::Wave => {
            if let Some(n) = config.wave.thickness {
                config.visualizer.wave_thickness = n;
            }
        },
    }
}

/// The first position of `c` in `s`.
pub open spec fn first_index(s: Seq<char>, c: char) -> Option<int> {
    if exists|i: int| 0 <= i < s.len() && s[i] == c {
        Some(choose|i: int| 0 <= i < s.len() && s[i] == c && forall|j: int| 0 <= j < i ==> s[j] != c)
    } else {
        None
    }
}

pub fn find_char(s: &Vec<char>, c: char) -> (r: Option<usize>)
    ensures
        match r {
            Some(i) => first_index(s@, c) == Some(i as int),
            None => first_index(s@, c) is None,
        },
        r matches Some(i) ==> i < s.len() && s@[i as int] == c,
{
    let mut i: usize = 0;
    while i < s.len()
        invariant
            i <= s.len(),
            forall|j: int| 0 <= j < i ==> s@[j] != c,
        decreases s.len() - i,
    {
        if s[i] == c {
            assert(first_index(s@, c) == Some(i as int)) by {
                let k = choose|k: int|
                    0 <= k < s@.len() && s@[k] == c && forall|j: int| 0 <= j < k ==> s@[j] != c;
                assert(!(k < i));
                assert(!(i < k));
            }
            return Some(i);
        }
        i = i + 1;
    }
    None
}

/// The value that starts on line `idx` with text `value`, continued on the
/// following lines while its brackets stay open (`depth > 0`): how many
/// lines it takes beyond `idx`, and its text, lines joined by line feeds;
/// nothing when the file ends first.
pub open spec fn gather(ls: Seq<Seq<char>>, idx: int, value: Seq<char>, depth: int) -> Option<
    (nat, Seq<char>),
>
    decreases ls.len() - idx,
{
    if depth <= 0 {
        Some((0, value))
    } else if idx + 1 >= ls.len() {
        None
    } else {
        match gather(
            ls,
            idx + 1,
            value + "\n"@ + ls[idx + 1],
            depth + bracket_delta(ls[idx + 1]),
        ) {
            Some((k, v)) => Some(((k + 1) as nat, v)),
            None => None,
        }
    }
}

proof fn lemma_gather_in_bounds(ls: Seq<Seq<char>>, idx: int, value: Seq<char>, depth: int)
    requires
        0 <= idx < ls.len(),
    ensures
        gather(ls, idx, value, depth) matches Some((k, v)) ==> idx + k < ls.len(),
    decreases ls.len() - idx,
{
    if depth > 0 && idx + 1 < ls.len() {
        lemma_gather_in_bounds(
            ls,
            idx + 1,
            value + "\n"@ + ls[idx + 1],
            depth + bracket_delta(ls[idx + 1]),
        );
    }
}

/// Collects a value that may continue on the following lines; returns the
/// index of its last line and its text.
pub(crate) fn gather_value(ls: &Vec<Vec<char>>, idx: usize, raw: &Vec<char>) -> (r: Option<(usize, Vec<char>)>)
    requires
        idx < ls.len() <= i32::MAX as int + 1,
        raw.len() <= i32::MAX,
        forall|i: int| 0 <= i < ls.len() ==> (#[trigger] ls@[i]).len() <= i32::MAX,
    ensures
        r matches Some((j, v)) ==> idx <= j < ls.len(),
        match r {
            Some((j, v)) => gather(views(ls@), idx as int, raw@, bracket_delta(raw@)) == Some(
                ((j - idx) as nat, v@),
            ),
            None => gather(views(ls@), idx as int, raw@, bracket_delta(raw@)) is None,
        },
{
    let ghost l = views(ls@);
    let ghost goal = gather(l, idx as int, raw@, bracket_delta(raw@));
    let mut depth: i64 = array_bracket_delta(raw) as i64;
    let mut value = raw.clone();
    let mut j = idx;
    assert(value@ =~= raw@);
    while depth > 0
        invariant
            idx <= j < ls.len() <= i32::MAX as int + 1,
            l == views(ls@),
            forall|i: int| 0 <= i < ls.len() ==> (#[trigger] ls@[i]).len() <= i32::MAX,
            depth <= (j - idx + 1) * 0x8000_0000,
            goal == gather(l, idx as int, raw@, bracket_delta(raw@)),
            goal == match gather(l, j as int, value@, depth as int) {
                Some((k, v)) => Some(((k + (j - idx)) as nat, v)),
                None => None,
            },
        decreases ls.len() - j,
    {
        if j + 1 >= ls.len() {
            return None;
        }
        j = j + 1;
        assert(l[j as int] == ls@[j as int]@);
        let d = array_bracket_delta(&ls[j]);
        let nl = lit("\n");
        let v2 = cat(&value, &nl);
        value = cat(&v2, &ls[j]);
        depth = depth + d as i64;
    }
    Some((j, value))
}

/// A `key = value` setting in `section`: a known section's setting; before
/// any section, the `logging` setting; else an error.
#[verifier::opaque]
pub open spec fn setting_spec(
    cfg: AppView,
    section: Option<Seq<char>>,
    key: Seq<char>,
    value: Seq<char>,
) -> Result<AppView, Seq<char>> {
    match section {
        Some(s) => if s == "overlay"@ {
            match overlay_key_spec(cfg.overlay, key, value) {
                Ok(o) => Ok(AppView { overlay: o, ..cfg }),
                Err(m) => Err(m),
            }
        } else if s == "visualizer"@ {
            match visualizer_key_spec(cfg.visualizer, key, value) {
                Ok(vz) => Ok(AppView { visualizer: vz, ..cfg }),
                Err(m) => Err(m),
            }
        } else if s == "bar"@ {
            match bar_key_spec(cfg.bar, key, value) {
                Ok(b) => Ok(AppView { bar: b, ..cfg }),
                Err(m) => Err(m),
            }
        } else if s == "wave"@ {
            match wave_key_spec(cfg.wave, key, value) {
                Ok(w) => Ok(AppView { wave: w, ..cfg }),
                Err(m) => Err(m),
            }
        } else if s == "daemon"@ {
            match daemon_key_spec(cfg.daemon, key, value) {
                Ok(d) => Ok(AppView { daemon: d, ..cfg }),
                Err(m) => Err(m),
            }
        } else {
            Err("unknown section ["@ + s + "]"@)
        },
        None => if key == "logging"@ {
            match bool_spec(key, value) {
                Ok(b) => Ok(AppView { logging: b, ..cfg }),
                Err(m) => Err(m),
            }
        } else {
            Err("key/value before a section header"@)
        },
    }
}

/// What reading one line does: go on at a later line with new settings and
/// section, or fail with a message.
pub enum LineStep {
    Next(int, AppView, Option<Seq<char>>),
    Fail(Seq<char>),
}

/// A `key = value` line `t` (trimmed) at index `idx`: the value may go on
/// for more lines; errors are tied to the line.
pub open spec fn key_line_step(
    ls: Seq<Seq<char>>,
    idx: int,
    t: Seq<char>,
    cfg: AppView,
    section: Option<Seq<char>>,
) -> LineStep {
    let line_no = (idx + 1) as nat;
    match first_index(t, '=') {
        None => LineStep::Fail(line_prefix(line_no) + "invalid key/value line: "@ + t),
        Some(e) => {
            let key = trim(t.take(e));
            let raw = t.skip(e + 1);
            match gather(ls, idx, raw, bracket_delta(raw)) {
                None => LineStep::Fail(line_prefix(line_no) + "unterminated array value for key "@ + key),
                Some((k, v)) => match setting_spec(cfg, section, key, normalize_spec(v)) {
                    Ok(c2) => LineStep::Next(idx + 1 + k, c2, section),
                    Err(m) => LineStep::Fail(line_prefix(line_no) + m),
                },
            }
        },
    }
}

/// Line `idx`: blank lines and `#` comments are skipped; a `[name]` line
/// starts a section; other lines are settings.
pub open spec fn line_step(
    ls: Seq<Seq<char>>,
    idx: int,
    cfg: AppView,
    section: Option<Seq<char>>,
) -> LineStep {
    let t = trim(ls[idx]);
    if t.len() == 0 || t[0] == '#' {
        LineStep::Next(idx + 1, cfg, section)
    } else if t[0] == '[' && t.last() == ']' {
        LineStep::Next(idx + 1, cfg, Some(t.subrange(1, t.len() - 1)))
    } else {
        key_line_step(ls, idx, t, cfg, section)
    }
}

/// The file's configuration from line `idx` on, given the settings so far
/// and the current section.
pub open spec fn config_from(
    ls: Seq<Seq<char>>,
    idx: int,
    cfg: AppView,
    section: Option<Seq<char>>,
) -> Result<AppView, Seq<char>>
    decreases ls.len() - idx,
{
    if idx < 0 || idx >= ls.len() {
        Ok(cfg)
    } else {
        match line_step(ls, idx, cfg, section) {
            LineStep::Next(n, c, s) => if idx < n <= ls.len() {
                config_from(ls, n, c, s)
            } else {
                Ok(c)
            },
            LineStep::Fail(m) => Err(m),
        }
    }
}

/// What reading the text of a configuration file gives: the built-in
/// defaults changed by each setting in turn, with the section of the
/// visualizer's type laid over its settings at the end; or the first error,
/// tied to its line.
pub open spec fn parse_config_spec(raw: Seq<char>) -> Result<AppView, Seq<char>> {
    match config_from(lines(raw), 0, AppConfig::spec_default(), None) {
        Ok(c) => Ok(resolved(c)),
        Err(m) => Err(m),
    }
}

pub open spec fn section_view(s: &Option<Vec<char>>) -> Option<Seq<char>> {
    match s {
        Some(v) => Some(v@),
        None => None,
    }
}

/// Reads the text of a configuration file (shorter than 2^31 characters).
pub fn parse_config(raw: &str) -> (r: Result<AppConfig, ConfigLoadError>)
    requires
        raw@.len() <= i32::MAX,
    ensures
        match r {
            Ok(c) => parse_config_spec(raw@) == Ok::<AppView, Seq<char>>(c@),
            Err(e) => e matches ConfigLoadError::Parse(m) && parse_config_spec(raw@) == Err::<
                AppView,
                Seq<char>,
            >(m@),
        },
{
    match parse_config_chars(&chars_of(raw)) {
        Ok(c) => Ok(c),
        Err(m) => Err(ConfigLoadError::Parse(string_of(&m))),
    }
}

fn apply_setting(
    config: &mut AppConfig,
    section: &Option<Vec<char>>,
    key: &Vec<char>,
    value: &Vec<char>,
) -> (r: Result<(), Vec<char>>)
    ensures
        match r {
            Ok(()) => setting_spec(old(config)@, section_view(section), key@, value@) == Ok::<
                AppView,
                Seq<char>,
            >(final(config)@),
            Err(m) => setting_spec(old(config)@, section_view(section), key@, value@) == Err::<
                AppView,
                Seq<char>,
            >(m@),
        },
{
    reveal(setting_spec);
    match section {
        Some(s) => {
            if same_chars(s, &lit("overlay")) {
                let mut o = config.overlay;
                parse_overlay_key(&mut o, key, value)?;
                config.overlay = o;
                Ok(())
            } else if same_chars(s, &lit("visualizer")) {
                parse_visualizer_key(&mut config.visualizer, key, value)
            } else if same_chars(s, &lit("bar")) {
                parse_bar_key(&mut config.bar, key, value)
            } else if same_chars(s, &lit("wave")) {
                parse_wave_key(&mut config.wave, key, value)
            } else if same_chars(s, &lit("daemon")) {
                parse_daemon_key(&mut config.daemon, key, value)
            } else {
                let a = msg2("unknown section [", s);
                Err(cat(&a, &lit("]")))
            }
        },
        None => if same_chars(key, &lit("logging")) {
            let b = parse_bool(key, value)?;
            config.logging = b;
            Ok(())
        } else {
            Err(lit("key/value before a section header"))
        },
    }
}

fn apply_key_line(
    ls: &Vec<Vec<char>>,
    idx: usize,
    t: &Vec<char>,
    config: &mut AppConfig,
    section: &Option<Vec<char>>,
) -> (r: Result<usize, Vec<char>>)
    requires
        idx < ls.len() <= i32::MAX as int + 1,
        t.len() <= i32::MAX,
        forall|i: int| 0 <= i < ls.len() ==> (#[trigger] ls@[i]).len() <= i32::MAX,
    ensures
        match r {
            Ok(n) => idx < n <= ls.len() && key_line_step(
                views(ls@),
                idx as int,
                t@,
                old(config)@,
                section_view(section),
            ) == LineStep::Next(n as int, final(config)@, section_view(section)),
            Err(m) => key_line_step(views(ls@), idx as int, t@, old(config)@, section_view(section))
                == LineStep::Fail(m@),
        },
{
    let ghost l = views(ls@);
    let line_no = idx + 1;
    let eq = match find_char(t, '=') {
        Some(e) => e,
        None => {
            let p = line_prefix_chars(line_no as u64);
            let a = cat(&p, &lit("invalid key/value line: "));
            return Err(cat(&a, t));
        },
    };
    let key = trim_chars(&sub_chars(t, 0, eq));
    let raw_value = sub_chars(t, eq + 1, t.len());
    assert(t@.subrange(0, eq as int) =~= t@.take(eq as int));
    assert(t@.subrange(eq + 1, t@.len() as int) =~= t@.skip(eq + 1));
    let (last, gathered) = match gather_value(ls, idx, &raw_value) {
        Some(p) => p,
        None => {
            let p = line_prefix_chars(line_no as u64);
            let a = cat(&p, &lit("unterminated array value for key "));
            return Err(cat(&a, &key));
        },
    };
    proof {
        lemma_gather_in_bounds(l, idx as int, raw_value@, bracket_delta(raw_value@));
    }
    let value = normalize_value(&gathered);
    let ghost cfg0 = config@;
    assert(first_index(t@, '=') == Some(eq as int));
    assert(key@ == trim(t@.take(eq as int)));
    assert(raw_value@ == t@.skip(eq + 1));
    assert(gather(l, idx as int, raw_value@, bracket_delta(raw_value@)) == Some(((last - idx) as nat, gathered@)));
    match apply_setting(config, section, &key, &value) {
        Ok(()) => {
            assert(setting_spec(cfg0, section_view(section), key@, normalize_spec(gathered@)) == Ok::<AppView, Seq<char>>(config@));
            assert(idx + 1 + ((last - idx) as nat) == last + 1);
            Ok(last + 1)
        },
        Err(m) => {
            let p = line_prefix_chars(line_no as u64);
            Err(cat(&p, &m))
        },
    }
}

/// Reads line `idx`: the index of the next line to read, or the error.
fn apply_line(
    ls: &Vec<Vec<char>>,
    idx: usize,
    config: &mut AppConfig,
    section: &mut Option<Vec<char>>,
) -> (r: Result<usize, Vec<char>>)
    requires
        idx < ls.len() <= i32::MAX as int + 1,
        forall|i: int| 0 <= i < ls.len() ==> (#[trigger] ls@[i]).len() <= i32::MAX,
    ensures
        match r {
            Ok(n) => idx < n <= ls.len() && line_step(
                views(ls@),
                idx as int,
                old(config)@,
                section_view(old(section)),
            ) == LineStep::Next(n as int, final(config)@, section_view(final(section))),
            Err(m) => line_step(views(ls@), idx as int, old(config)@, section_view(old(section)))
                == LineStep::Fail(m@),
        },
{
    let ghost l = views(ls@);
    assert(l[idx as int] == ls@[idx as int]@);
    let t = trim_chars(&ls[idx]);
    if t.len() == 0 || t[0] == '#' {
        return Ok(idx + 1);
    }
    if t[0] == '[' && t[t.len() - 1] == ']' {
        let name = sub_chars(&t, 1, t.len() - 1);
        *section = Some(name);
        return Ok(idx + 1);
    }
    apply_key_line(ls, idx, &t, config, section)
}

fn parse_config_chars(raw: &Vec<char>) -> (r: Result<AppConfig, Vec<char>>)
    requires
        raw@.len() <= i32::MAX,
    ensures
        match r {
            Ok(c) => parse_config_spec(raw@) == Ok::<AppView, Seq<char>>(c@),
            Err(m) => parse_config_spec(raw@) == Err::<AppView, Seq<char>>(m@),
        },
{
    let ls = lines_of(raw);
    let ghost l = views(ls@);
    proof {
        lemma_lines_bounds(raw@);
        assert forall|i: int| 0 <= i < ls.len() implies (#[trigger] ls@[i]).len() <= i32::MAX by {
            assert(ls@[i]@ == l[i]);
        }
    }
    let mut config = AppConfig::default();
    let mut section: Option<Vec<char>> = None;
    let mut idx: usize = 0;
    while idx < ls.len()
        invariant
            idx <= ls.len() <= i32::MAX as int + 1,
            l == views(ls@),
            l == lines(raw@),
            forall|i: int| 0 <= i < ls.len() ==> (#[trigger] ls@[i]).len() <= i32::MAX,
            config_from(l, 0, AppConfig::spec_default(), None) == config_from(
                l,
                idx as int,
                config@,
                section_view(&section),
            ),
        decreases ls.len() - idx,
    {
        let n = apply_line(&ls, idx, &mut config, &mut section)?;
        idx = n;
    }
    resolve_sections(&mut config);
    Ok(config)
}

/// What reading a file gave: its text, that the file does not exist, or
/// another error.
pub enum ReadOutcome {
    Text(String),
    Missing,
    Failed(std::io::Error),
}

/// The configuration from the outcome of reading its file: the file's
/// settings; the built-in configuration when the file does not exist; the
/// read error otherwise.
pub fn load_or_default_from(read: ReadOutcome) -> (r: Result<AppConfig, ConfigLoadError>)
    requires
        read matches ReadOutcome::Text(t) ==> t@.len() <= i32::MAX,
    ensures
        match read {
            ReadOutcome::Text(t) => match r {
                Ok(c) => parse_config_spec(t@) == Ok::<AppView, Seq<char>>(c@),
                Err(e) => e matches ConfigLoadError::Parse(m) && parse_config_spec(t@) == Err::<
                    AppView,
                    Seq<char>,
                >(m@),
            },
            ReadOutcome::Missing => r matches Ok(c) && c@ == AppConfig::spec_default(),
            ReadOutcome::Failed(err) => r == Err::<AppConfig, ConfigLoadError>(ConfigLoadError::Io(err)),
        },
{
    match read {
        ReadOutcome::Text(t) => parse_config(t.as_str()),
        ReadOutcome::Missing => Ok(AppConfig::default()),
        ReadOutcome::Failed(err) => Err(ConfigLoadError::Io(err)),
    }
}

} // verus!
