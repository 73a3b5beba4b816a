use cavaii::config::{
    AppConfig, ColorOrientation, ColorValue, DaemonConfig, NumberText, OverlayLayer,
    VisualizerBackend, VisualizerType,
};
use cavaii::overrides::{apply_color_overrides, color_overrides_panic, parse_color_overrides};
use cavaii::settings::{parse_config, with_line_context, ConfigLoadError};
use cavaii::values::{array_bracket_delta, value_needs_multiline_array};

fn num(t: &NumberText) -> f32 {
    t.text.parse::<f32>().unwrap()
}

/// The levels a color stands for, as the programs compute them.
fn rgba(c: &ColorValue) -> (f32, f32, f32, f32) {
    match c {
        ColorValue::Hex { r, g, b, a } => (
            *r as f32 / 255.0,
            *g as f32 / 255.0,
            *b as f32 / 255.0,
            a.map(|a| a as f32 / 255.0).unwrap_or(1.0),
        ),
        ColorValue::Channels { r, g, b, a } => {
            let (r, g, b) = (num(r), num(g), num(b));
            let a = a.as_ref().map(|a| num(a).clamp(0.0, 1.0)).unwrap_or(1.0);
            if r > 1.0 || g > 1.0 || b > 1.0 {
                (
                    (r / 255.0).clamp(0.0, 1.0),
                    (g / 255.0).clamp(0.0, 1.0),
                    (b / 255.0).clamp(0.0, 1.0),
                    a,
                )
            } else {
                (r.clamp(0.0, 1.0), g.clamp(0.0, 1.0), b.clamp(0.0, 1.0), a)
            }
        }
    }
}

fn text(s: &str) -> NumberText {
    NumberText { text: s.to_owned() }
}

fn message(err: &ConfigLoadError) -> String {
    err.message()
}

#[test]
fn parses_valid_config() {
    let raw = r#"
        [overlay]
        layer = "top"
        anchor_margin = 12
        width = 1200
        height = 140

        [visualizer]
        backend = "dummy"
        type = "wave"
        bars = 64
        bar_width = 5
        bar_corner_radius = 6
        wave_thickness = 4
        gap = 2
        framerate = 75
        gpu = "disabled"
        pipewire_attack = 0.2
        pipewire_decay = 0.9
        pipewire_gain = 1.5
        pipewire_curve = 0.8
        pipewire_neighbor_mix = 0.3

        [daemon]
        enabled = true
        poll_interval_ms = 50
        activity_threshold = 0.045
        activate_delay_ms = 120
        deactivate_delay_ms = 1800
        stop_on_silence = false
        notify_on_error = true
        notify_cooldown_seconds = 30
        allowed_processes = ["spotify", "vlc"]
        overlay_command = "cargo"
        overlay_args = ["run", "-p", "cavaii"]
        "#;

    let parsed = match parse_config(raw) {
        Ok(value) => value,
        Err(err) => panic!("valid config should parse, got error: {}", message(&err)),
    };
    assert_eq!(parsed.overlay.layer, OverlayLayer::Top);
    assert_eq!(parsed.overlay.anchor_margin, 12);
    assert_eq!(parsed.overlay.width, 1200);
    assert_eq!(parsed.overlay.height, 140);
    assert_eq!(parsed.visualizer.backend, VisualizerBackend::Dummy);
    assert_eq!(parsed.visualizer.visualizer_type, VisualizerType::Wave);
    assert_eq!(parsed.visualizer.bars, 64);
    assert_eq!(parsed.visualizer.bar_width, 5);
    assert!((num(&parsed.visualizer.bar_corner_radius).max(0.0) - 6.0).abs() < 1e-5);
    assert_eq!(parsed.visualizer.wave_thickness, 4);
    assert_eq!(parsed.visualizer.color_orientation, ColorOrientation::Vertical);
    assert!(parsed.visualizer.color_fade);
    assert_eq!(parsed.visualizer.gap, 2);
    assert_eq!(parsed.visualizer.framerate, 75);
    assert_eq!(parsed.visualizer.color_gradient.len(), 1);
    assert!((rgba(&parsed.visualizer.color_gradient[0]).0 - (175.0 / 255.0)).abs() < 1e-5);
    assert!(!parsed.visualizer.gpu);
    assert_eq!(num(&parsed.visualizer.pipewire_attack), 0.2);
    assert_eq!(num(&parsed.visualizer.pipewire_decay), 0.9);
    assert_eq!(num(&parsed.visualizer.pipewire_gain), 1.5);
    assert_eq!(num(&parsed.visualizer.pipewire_curve), 0.8);
    assert_eq!(num(&parsed.visualizer.pipewire_neighbor_mix), 0.3);
    assert_eq!(
        parsed.daemon,
        DaemonConfig {
            enabled: true,
            poll_interval_ms: 50,
            activity_threshold: text("0.045"),
            activate_delay_ms: 120,
            deactivate_delay_ms: 1800,
            stop_on_silence: false,
            notify_on_error: true,
            notify_cooldown_seconds: 30,
            allowed_processes: vec!["spotify".to_owned(), "vlc".to_owned()],
            overlay_command: "cargo".to_owned(),
            overlay_args: vec!["run".to_owned(), "-p".to_owned(), "cavaii".to_owned()],
        }
    );
    assert_eq!(num(&parsed.daemon.activity_threshold).clamp(0.0, 1.0), 0.045);
}

#[test]
fn returns_default_for_empty_config() {
    let parsed = match parse_config("") {
        Ok(value) => value,
        Err(err) => panic!("empty config should parse, got error: {}", message(&err)),
    };
    assert_eq!(parsed, AppConfig::default());
}

#[test]
fn built_in_defaults_match_expected_no_config_setup() {
    let config = AppConfig::default();

    assert_eq!(config.overlay.layer, OverlayLayer::Background);
    assert_eq!(config.overlay.anchor_margin, 10);
    assert_eq!(config.overlay.width, 1000);
    assert_eq!(config.overlay.height, 300);

    assert_eq!(config.visualizer.backend, VisualizerBackend::Pipewire);
    assert_eq!(config.visualizer.visualizer_type, VisualizerType::Bar);
    assert_eq!(config.visualizer.bars, 120);
    assert_eq!(config.visualizer.bar_width, 12);
    assert!((num(&config.visualizer.bar_corner_radius) - 20.0).abs() < 1e-5);
    assert_eq!(config.visualizer.wave_thickness, 2);
    assert!(config.visualizer.color_fade);
    assert_eq!(config.visualizer.gap, 5);
    assert_eq!(config.visualizer.framerate, 60);
    assert_eq!(config.visualizer.color_gradient.len(), 1);
    let c = rgba(&config.visualizer.color_gradient[0]);
    assert!((c.0 - (175.0 / 255.0)).abs() < 1e-5);
    assert!((c.1 - (198.0 / 255.0)).abs() < 1e-5);
    assert!((c.2 - 1.0).abs() < 1e-5);
    assert!((c.3 - 0.7).abs() < 1e-5);
    assert_eq!(config.visualizer.color_orientation, ColorOrientation::Vertical);
    assert!(config.visualizer.gpu);

    assert!(config.daemon.enabled);
    assert_eq!(config.daemon.poll_interval_ms, 90);
    assert!((num(&config.daemon.activity_threshold) - 0.035).abs() < 1e-5);
    assert_eq!(config.daemon.activate_delay_ms, 180);
    assert_eq!(config.daemon.deactivate_delay_ms, 2200);
    assert!(config.daemon.stop_on_silence);
    assert!(config.daemon.notify_on_error);
    assert_eq!(config.daemon.notify_cooldown_seconds, 45);
    assert!(config.daemon.allowed_processes.is_empty());
    assert_eq!(config.daemon.overlay_command, "cavaii");
    assert!(config.daemon.overlay_args.is_empty());
}

#[test]
fn rejects_visualizer_fade_key_in_main_config() {
    let raw = r#"
        [visualizer]
        fade = true
        "#;

    let err = match parse_config(raw) {
        Ok(_) => panic!("config with visualizer.fade should fail"),
        Err(err) => err,
    };
    let message = message(&err);
    assert!(message.contains("unknown visualizer key: fade"));
}

#[test]
fn parses_colors_override_gradient() {
    let raw = r#"
        [color]
        gradient = ["rgba(10, 20, 30, 0.8)", "rgba(255, 0, 0, 0.6)", "rgba(0, 255, 0, 0.6)"]
        orientation = "horizontal"
        fade = false
        "#;

    let parsed = match parse_color_overrides(raw) {
        Ok(value) => value,
        Err(err) => panic!("colors override should parse, got error: {}", message(&err)),
    };

    let Some(gradient) = parsed.gradient else {
        panic!("missing gradient override");
    };
    assert_eq!(parsed.orientation, Some(ColorOrientation::Horizontal));
    assert_eq!(parsed.fade, Some(false));
    assert_eq!(gradient.len(), 3);
    assert!((rgba(&gradient[0]).0 - (10.0 / 255.0)).abs() < 1e-5);
    assert!((rgba(&gradient[1]).0 - 1.0).abs() < 1e-5);
    assert!((rgba(&gradient[2]).1 - 1.0).abs() < 1e-5);
}

#[test]
fn parses_multiline_gradient_array() {
    let raw = r##"
        name = "theme-name-ignored"
        [color]
        gradient = [
            "#ff0000",
            "rgba(0, 255, 0, 0.7)",
            "#0000ff"
        ]
        "##;

    let parsed = match parse_color_overrides(raw) {
        Ok(value) => value,
        Err(err) => panic!("colors override should parse, got error: {}", message(&err)),
    };

    let Some(gradient) = parsed.gradient else {
        panic!("missing gradient override");
    };
    assert_eq!(gradient.len(), 3);
    assert!((rgba(&gradient[0]).0 - 1.0).abs() < 1e-5);
    assert!((rgba(&gradient[1]).1 - 1.0).abs() < 1e-5);
    assert!((rgba(&gradient[2]).2 - 1.0).abs() < 1e-5);
}

#[test]
fn rejects_legacy_color_slots() {
    let raw = r##"
        [color]
        color_1 = "#ff0000"
        "##;

    let err = match parse_color_overrides(raw) {
        Ok(_) => panic!("legacy slot format should fail"),
        Err(err) => err,
    };
    assert!(message(&err).contains("unknown color key: color_1"));
}

#[test]
fn applies_color_overrides() {
    let mut config = AppConfig::default();
    let raw = r##"
        [color]
        orientation = "horizontal"
        fade = false
        gradient = ["rgba(202, 122, 99, 0.9)", "#ffffff"]
        "##;

    let overrides = match parse_color_overrides(raw) {
        Ok(value) => value,
        Err(err) => panic!("colors override should parse, got error: {}", message(&err)),
    };
    apply_color_overrides(&mut config, overrides);

    assert_eq!(config.visualizer.color_orientation, ColorOrientation::Horizontal);
    assert!(!config.visualizer.color_fade);
    assert_eq!(config.visualizer.color_gradient.len(), 2);
    let c = rgba(&config.visualizer.color_gradient[0]);
    assert!((c.0 - (202.0 / 255.0)).abs() < 1e-5);
    assert!((c.1 - (122.0 / 255.0)).abs() < 1e-5);
    assert!((c.2 - (99.0 / 255.0)).abs() < 1e-5);
    assert!((c.3 - 0.9).abs() < 1e-5);
}

#[test]
fn errors_name_their_line() {
    let err = parse_config("[overlay]\nwidth = wide\n").unwrap_err();
    assert_eq!(message(&err), "config parse error: line 2: invalid u32 for width: wide");
    let err = parse_config("x = 1\n").unwrap_err();
    assert_eq!(message(&err), "config parse error: line 1: key/value before a section header");
    let err = parse_config("[sound]\nx = 1\n").unwrap_err();
    assert_eq!(message(&err), "config parse error: line 2: unknown section [sound]");
    let err = parse_config("[overlay]\njust text\n").unwrap_err();
    assert_eq!(message(&err), "config parse error: line 2: invalid key/value line: just text");
    let err = parse_config("[daemon]\nallowed_processes = [\"a\",\n").unwrap_err();
    assert_eq!(
        message(&err),
        "config parse error: line 2: unterminated array value for key allowed_processes"
    );
}

#[test]
fn setting_values_are_normalized() {
    let raw = "[daemon]\npoll_interval_ms = 5 # too fast\noverlay_command = ''\nallowed_processes = [\n 'Spotify' ,\n \"vlc\",\n]\n[visualizer]\nwave_thickness = 0\n";
    let parsed = parse_config(raw).unwrap();
    assert_eq!(parsed.daemon.poll_interval_ms, 16);
    assert_eq!(parsed.daemon.overlay_command, "cavaii");
    assert_eq!(parsed.daemon.allowed_processes, vec!["Spotify".to_owned(), "vlc".to_owned()]);
    assert_eq!(parsed.visualizer.wave_thickness, 1);
}

#[test]
fn rejects_bad_values() {
    let err = parse_config("[overlay]\nlayer = middle\n").unwrap_err();
    assert_eq!(message(&err), "config parse error: line 2: unknown overlay.layer value: middle");
    let err = parse_config("[visualizer]\ngpu = maybe\n").unwrap_err();
    assert_eq!(message(&err), "config parse error: line 2: invalid bool for gpu: maybe");
    let err = parse_config("[visualizer]\npipewire_gain = loud\n").unwrap_err();
    assert_eq!(message(&err), "config parse error: line 2: invalid f32 for pipewire_gain: loud");
    let err = parse_config("[visualizer]\nbackend = alsa\n").unwrap_err();
    assert_eq!(message(&err), "config parse error: line 2: unknown visualizer.backend value: alsa");
    let err = parse_config("[daemon]\nbogus = 1\n").unwrap_err();
    assert_eq!(message(&err), "config parse error: line 2: unknown daemon key: bogus");
}

#[test]
fn colors_file_errors() {
    let err = parse_color_overrides("[colour]\n").unwrap_err();
    assert_eq!(message(&err), "config parse error: line 1: unknown section [colour]");
    let err = parse_color_overrides("[color]\ngradient = []\n").unwrap_err();
    assert_eq!(
        message(&err),
        "config parse error: line 2: gradient must include at least 1 color"
    );
    let err = parse_color_overrides("[color]\ngradient = [\"#12345\"]\n").unwrap_err();
    assert_eq!(message(&err), "config parse error: line 2: invalid hex color length: #12345");
    let err = parse_color_overrides("[color]\ngradient = [\"#12345g\"]\n").unwrap_err();
    assert_eq!(message(&err), "config parse error: line 2: invalid hex color: #12345g");
    let err = parse_color_overrides("[color]\ngradient = [\"1, 2\"]\n").unwrap_err();
    assert_eq!(message(&err), "config parse error: line 2: invalid color value: 1, 2");
    let err = parse_color_overrides("[color]\norientation = diagonal\n").unwrap_err();
    assert_eq!(
        message(&err),
        "config parse error: line 2: unknown color.orientation value: diagonal"
    );
}

#[test]
fn colors_file_keeps_five_colors_and_skips_stray_lines() {
    let raw = "fade = true\nnot a setting\n[color]\ngradient = [\"#000000\", \"#111111\", \"#222222\", \"#333333\", \"#444444\", \"#555555\"]\n";
    let parsed = parse_color_overrides(raw).unwrap();
    assert_eq!(parsed.fade, None);
    let gradient = parsed.gradient.unwrap();
    assert_eq!(gradient.len(), 5);
    assert_eq!(gradient[4], ColorValue::Hex { r: 0x44, g: 0x44, b: 0x44, a: None });
}

#[test]
fn hex_slice_inside_a_character_panics() {
    assert!(color_overrides_panic("[color]\ngradient = [\"#aé000\"]\n"));
    assert!(!color_overrides_panic("[color]\ngradient = [\"#aa0000\"]\n"));
}

#[test]
fn empty_overrides_change_nothing() {
    let mut config = AppConfig::default();
    apply_color_overrides(&mut config, parse_color_overrides("").unwrap());
    assert_eq!(config, AppConfig::default());
}

#[test]
fn comments_and_headers_alone_give_defaults() {
    let parsed = parse_config("# settings\n\n   [overlay]\n# nothing\n[visualizer]\n\t\n[daemon]\n").unwrap();
    assert_eq!(parsed, AppConfig::default());
}

#[test]
fn main_config_has_no_color_settings() {
    let err = parse_config("[visualizer]\ncolor_gradient = [\"#ffffff\"]\n").unwrap_err();
    assert_eq!(message(&err), "config parse error: line 2: unknown visualizer key: color_gradient");
    let err = parse_config("[color]\nfade = false\n").unwrap_err();
    assert_eq!(message(&err), "config parse error: line 2: unknown section [color]");
}

#[test]
fn applying_overrides_twice_is_applying_once() {
    let raw = "[color]\norientation = horizontal\ngradient = [\"#102030\", \"#405060\"]\n";
    let mut once = AppConfig::default();
    apply_color_overrides(&mut once, parse_color_overrides(raw).unwrap());
    let mut twice = AppConfig::default();
    apply_color_overrides(&mut twice, parse_color_overrides(raw).unwrap());
    apply_color_overrides(&mut twice, parse_color_overrides(raw).unwrap());
    assert_eq!(once, twice);
    assert_eq!(once.visualizer.color_orientation, ColorOrientation::Horizontal);
    assert!(once.visualizer.color_fade);
}

#[test]
fn arrays_continue_while_brackets_are_open() {
    let v = |s: &str| s.chars().collect::<Vec<char>>();
    assert!(value_needs_multiline_array(&v(" [")));
    assert!(!value_needs_multiline_array(&v(" [1, 2]")));
    assert!(!value_needs_multiline_array(&v(" \"[\"")));
    assert!(!value_needs_multiline_array(&v(" '[' \\[")));
    assert_eq!(array_bracket_delta(&v("[[x]")), 1);
    assert_eq!(array_bracket_delta(&v("]]")), -2);
}

#[test]
fn line_context_is_added_to_parse_errors_only() {
    let e = with_line_context(ConfigLoadError::Parse("bad".to_owned()), 12);
    assert_eq!(message(&e), "config parse error: line 12: bad");
    let io = std::io::Error::new(std::io::ErrorKind::Other, "disk");
    match with_line_context(ConfigLoadError::Io(io), 3) {
        ConfigLoadError::Io(e) => assert_eq!(e.to_string(), "disk"),
        ConfigLoadError::Parse(_) => panic!("io errors keep their kind"),
    }
}

#[test]
fn reads_the_documented_settings() {
    let parsed = parse_config("[visualizer]\ntype = \"bars\"\ngpu = \"enabled\"").unwrap();
    assert_eq!(parsed.visualizer.visualizer_type, VisualizerType::Bar);
    assert!(parsed.visualizer.gpu);
    let parsed = parse_config("[visualizer]\ntype = \"bar\"\n").unwrap();
    assert_eq!(parsed.visualizer.visualizer_type, VisualizerType::Bar);
    let err = parse_config("[visualizer]\ntype = \"line\"\n").unwrap_err();
    assert_eq!(message(&err), "config parse error: line 2: unknown visualizer.type value: line");
}

#[test]
fn reads_logging_and_the_layout_sections() {
    let raw = "logging = false\n[bar]\npoints = 140\npoint_width = 12\npoint_gap = 4\ncorner_radius = 20\n[wave]\npoints = 30\npoint_width = 12\npoint_gap = 20\nthickness = 4";
    let parsed = parse_config(raw).unwrap();
    assert!(!parsed.logging);
    assert_eq!(parsed.bar.points, Some(140));
    assert_eq!(parsed.wave.thickness, Some(4));
    // Bars are drawn by default, so the [bar] section lays over them.
    assert_eq!(parsed.visualizer.bars, 140);
    assert_eq!(parsed.visualizer.bar_width, 12);
    assert_eq!(parsed.visualizer.gap, 4);
    assert_eq!(num(&parsed.visualizer.bar_corner_radius), 20.0);
    assert_eq!(parsed.visualizer.wave_thickness, 2);

    let wave = parse_config("[visualizer]\ntype = wave\n[wave]\npoints = 30\nthickness = 0\n[bar]\npoints = 140\n").unwrap();
    assert_eq!(wave.visualizer.bars, 30);
    assert_eq!(wave.visualizer.wave_thickness, 1);
    assert_eq!(wave.visualizer.gap, 5);

    assert!(parse_config("logging = true\n").unwrap().logging);
    let err = parse_config("logging = loud\n").unwrap_err();
    assert_eq!(message(&err), "config parse error: line 1: invalid bool for logging: loud");
    let err = parse_config("[bar]\nthickness = 3\n").unwrap_err();
    assert_eq!(message(&err), "config parse error: line 2: unknown bar key: thickness");
    let err = parse_config("[wave]\ncorner_radius = 3\n").unwrap_err();
    assert_eq!(message(&err), "config parse error: line 2: unknown wave key: corner_radius");
    let err = parse_config("width = 3\n").unwrap_err();
    assert_eq!(message(&err), "config parse error: line 1: key/value before a section header");
}

#[test]
fn colors_can_follow_bar_height() {
    let parsed = parse_color_overrides("[color]\norientation = \"height\"").unwrap();
    assert_eq!(parsed.orientation, Some(ColorOrientation::Height));
}

#[test]
fn error_lines_count_blank_lines_and_comments() {
    let err = parse_config("\n# settings\n\nbars = 3\n").unwrap_err();
    assert_eq!(message(&err), "config parse error: line 4: key/value before a section header");
    let err = parse_config("[visualizer]\nbars = 4\n[sound]\n\n# here\nvolume = 2\n").unwrap_err();
    assert_eq!(message(&err), "config parse error: line 6: unknown section [sound]");
    // An unknown section with no setting under it is no error.
    assert!(parse_config("[visualizer]\nbars = 4\n[sound]\n").is_ok());
}

#[test]
fn last_gradient_keeps_its_first_five_colors() {
    let parsed = parse_color_overrides(
        "[color]\ngradient = [\"#ff0000\"]\ngradient = [\"#000001\", \"#000002\", \"#000003\", \"#000004\", \"#000005\", \"#000006\"]\n",
    )
    .unwrap();
    let gradient = parsed.gradient.unwrap();
    assert_eq!(gradient.len(), 5);
    assert!((rgba(&gradient[0]).2 - 1.0 / 255.0).abs() < 1e-6);
    assert!((rgba(&gradient[4]).2 - 5.0 / 255.0).abs() < 1e-6);
}
