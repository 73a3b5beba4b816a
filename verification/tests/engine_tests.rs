use cavaii::bench::{
    parse_io_value, parse_status_value, proc_jiffies_from_stat, total_cpu_jiffies_from_stat,
    BenchmarkConfig,
};
use cavaii::config::{AppConfig, VisualizerBackend};
use cavaii::overlay::{anchor_margin_px, audio_stream_config_changed, wave_point_count, window_extent};
use cavaii::overrides::load_color_overrides_from;
use cavaii::process::pid_of;
use cavaii::settings::{load_or_default_from, ConfigLoadError, ReadOutcome};
use cavaii::engine::{
    cava_ascii_config, cava_binary_config, cava_line_values, cava_raw_frame_values,
    frame_interval_ms, frame_bin, millis_u64, source_order, stream_bar_count, whole_records_len,
    SourceKind,
};
use cavaii::paths::{colors_path_in, default_colors_path, default_config_path, runtime_file_paths};

/// The levels of an ASCII line for `expected_bars` bars, as the stream
/// computes them.
fn parse_cava_line(line: &str, expected_bars: usize) -> Option<Vec<f32>> {
    let values = cava_line_values(line, expected_bars)?;
    let mut bars = vec![0.0_f32; expected_bars];
    for (slot, value) in bars.iter_mut().zip(values.iter()) {
        *slot = (value.text.parse::<f32>().unwrap() / 1000.0).clamp(0.0, 1.0);
    }
    Some(bars)
}

/// The levels of a raw frame, written into `output` as the stream does.
fn parse_cava_raw_frame_into(frame: &[u8], output: &mut [f32]) -> bool {
    match cava_raw_frame_values(frame, output.len()) {
        Some(values) => {
            for (slot, raw) in output.iter_mut().zip(values) {
                *slot = (raw as f32 / u16::MAX as f32).clamp(0.0, 1.0);
            }
            true
        }
        None => false,
    }
}

#[test]
fn parses_ascii_bar_line() {
    let parsed = parse_cava_line("50;125;1000\n", 3);
    assert_eq!(parsed, Some(vec![0.05, 0.125, 1.0]));
}

#[test]
fn pads_short_line_to_expected_count() {
    let parsed = parse_cava_line("900;450\n", 4);
    assert_eq!(parsed, Some(vec![0.9, 0.45, 0.0, 0.0]));
}

#[test]
fn ascii_line_edge_cases() {
    assert!(cava_line_values("1;2", 0).is_none());
    assert!(cava_line_values(" ; ;\n", 3).is_none());
    assert!(cava_line_values("1;x;3", 3).is_none());
    // Once the bars are full the next value ends the line, unread past it.
    let v = cava_line_values("1;2;3;4", 2).unwrap();
    assert_eq!(v.len(), 2);
    assert_eq!(v[1].text, "2");
    assert!(cava_line_values("1;2;x", 2).is_none());
    assert_eq!(cava_line_values("1;2;3;x", 2).unwrap().len(), 2);
}

#[test]
fn parses_cava_raw_u16_frame() {
    let mut parsed = vec![0.0_f32; 3];
    let frame = [
        0_u16.to_le_bytes(),
        32_768_u16.to_le_bytes(),
        65_535_u16.to_le_bytes(),
    ]
    .concat();
    assert!(parse_cava_raw_frame_into(&frame, &mut parsed));
    assert_eq!(parsed[0], 0.0);
    assert!((parsed[1] - 0.500_007_6).abs() < 1e-5);
    assert_eq!(parsed[2], 1.0);
}

#[test]
fn rejects_short_raw_frame() {
    let mut parsed = vec![0.0_f32; 3];
    let frame = [0_u8; 4];
    assert!(!parse_cava_raw_frame_into(&frame, &mut parsed));
    assert_eq!(parsed, vec![0.0, 0.0, 0.0]);
}

#[test]
fn raw_frame_values_are_little_endian() {
    assert_eq!(cava_raw_frame_values(&[0x34, 0x12, 0xff, 0x00, 0x99], 2), Some(vec![0x1234, 0x00ff]));
    assert_eq!(cava_raw_frame_values(&[1, 2], 0), None);
}

#[test]
fn sources_fall_back_in_order() {
    assert_eq!(source_order(VisualizerBackend::Dummy), vec![SourceKind::Dummy]);
    assert_eq!(
        source_order(VisualizerBackend::Pipewire),
        vec![SourceKind::Pipewire, SourceKind::Cava, SourceKind::Dummy]
    );
    assert_eq!(
        source_order(VisualizerBackend::Cava),
        vec![SourceKind::Cava, SourceKind::Pipewire, SourceKind::Dummy]
    );
    assert_eq!(
        source_order(VisualizerBackend::Auto),
        vec![SourceKind::Cava, SourceKind::Pipewire, SourceKind::Dummy]
    );
}

#[test]
fn stream_settings() {
    assert_eq!(stream_bar_count(0), 1);
    assert_eq!(stream_bar_count(64), 64);
    assert_eq!(frame_interval_ms(60), 16);
    assert_eq!(frame_interval_ms(0), 1000);
    assert_eq!(frame_interval_ms(5000), 1);
    assert_eq!(frame_bin(3, 4, 10), 7);
    assert_eq!(whole_records_len(21, 8), 16);
    assert_eq!(millis_u64(Some(12)), 12);
    assert_eq!(millis_u64(Some(u128::MAX)), u64::MAX);
    assert_eq!(millis_u64(None), 0);
}

#[test]
fn cava_configs() {
    let ascii = cava_ascii_config(120, 60);
    assert!(ascii.starts_with("[general]\nbars = 120\nframerate = 60\n\n[input]\nmethod = pulse\n"));
    assert!(ascii.ends_with("data_format = ascii\nascii_max_range = 1000\nbar_delimiter = 59\nframe_delimiter = 10\n"));
    let binary = cava_binary_config(7, 1);
    assert_eq!(
        binary,
        "[general]\nbars = 7\nframerate = 1\n\n[input]\nmethod = pulse\nsource = auto\n\n[output]\nmethod = raw\nraw_target = /dev/stdout\ndata_format = binary\nbit_format = 16bit\n"
    );
}

#[test]
fn reads_proc_tables() {
    let status = "Name:\tcavaii\nVmRSS:\t   8120 kB\nvoluntary_ctxt_switches:\t67\nnonvoluntary_ctxt_switches:\t23\n";
    assert_eq!(parse_status_value(status, "VmRSS:"), Some(8120));
    assert_eq!(parse_status_value(status, "voluntary_ctxt_switches:"), Some(67));
    assert_eq!(parse_status_value(status, "nonvoluntary_ctxt_switches:"), Some(23));
    assert_eq!(parse_status_value(status, "VmPeak:"), None);
    let io = "rchar: 10\nread_bytes: 4096\nwrite_bytes: x\n";
    assert_eq!(parse_io_value(io, "read_bytes:"), Some(4096));
    assert_eq!(parse_io_value(io, "write_bytes:"), None);
}

#[test]
fn reads_jiffies() {
    let stat = "42 (cavaii (x)) S 1 42 42 0 -1 4194560 100 0 0 0 7 5 0 0 20 0 1 0";
    assert_eq!(proc_jiffies_from_stat(stat), Some(12));
    assert_eq!(proc_jiffies_from_stat("42 (cavaii)"), None);
    assert_eq!(proc_jiffies_from_stat("no paren"), None);
    assert_eq!(
        proc_jiffies_from_stat("1 (a) S 0 0 0 0 0 0 0 0 0 0 18446744073709551615 1"),
        Some(u64::MAX)
    );
    assert_eq!(total_cpu_jiffies_from_stat("cpu  1 2 3 4\ncpu0 1 1 1 1\n"), Some(10));
    assert_eq!(total_cpu_jiffies_from_stat("cpu0 1 2\n"), None);
    assert_eq!(total_cpu_jiffies_from_stat("cpu 1 x\n"), None);
    assert_eq!(total_cpu_jiffies_from_stat(""), None);
}

#[test]
fn benchmark_settings_fall_back() {
    let c = BenchmarkConfig::from_values(None, Some("12"), Some("0"));
    assert_eq!(c.parse_iterations, 3_000_000);
    assert_eq!(c.dummy_iterations, 12);
    assert_eq!(c.bar_count, 1);
    let c = BenchmarkConfig::from_values(Some("-1"), Some("x"), None);
    assert_eq!(c.parse_iterations, 3_000_000);
    assert_eq!(c.dummy_iterations, 900_000);
    assert_eq!(c.bar_count, 120);
}

#[test]
fn colors_file_sits_next_to_the_config() {
    assert_eq!(
        default_colors_path("/home/u/.config/cavaii/config.toml"),
        "/home/u/.config/cavaii/colors.toml"
    );
    assert_eq!(default_colors_path("config.toml"), "colors.toml");
    assert_eq!(default_colors_path("/"), "colors.toml");
    assert_eq!(default_colors_path("/config.toml"), "/colors.toml");
    assert_eq!(colors_path_in(Some("dir/".to_owned())), "dir/colors.toml");
    assert_eq!(colors_path_in(None), "colors.toml");
}

#[test]
fn overlay_sizes_and_stream_restarts() {
    assert_eq!(window_extent(0), 1);
    assert_eq!(window_extent(800), 800);
    assert_eq!(window_extent(u32::MAX), i32::MAX);
    assert_eq!(anchor_margin_px(10), 10);
    assert_eq!(anchor_margin_px(u32::MAX), i32::MAX);
    assert_eq!(wave_point_count(2, 600), 2);
    assert_eq!(wave_point_count(120, 0), 120);
    assert_eq!(wave_point_count(120, 600), 96);
    assert_eq!(wave_point_count(120, 300), 50);
    assert_eq!(wave_point_count(120, 30), 16);
    assert_eq!(wave_point_count(10, 30), 10);

    let a = AppConfig::default();
    let mut b = AppConfig::default();
    assert!(!audio_stream_config_changed(&a, &b));
    b.visualizer.gap = 9;
    assert!(!audio_stream_config_changed(&a, &b));
    b.visualizer.framerate = 30;
    assert!(audio_stream_config_changed(&a, &b));
}

#[test]
fn config_path_from_environment() {
    assert_eq!(default_config_path(Some("/x/c.toml"), Some("/xdg"), Some("/h")), "/x/c.toml");
    assert_eq!(default_config_path(None, Some("/xdg"), Some("/h")), "/xdg/cavaii/config.toml");
    assert_eq!(default_config_path(None, None, Some("/home/u/")), "/home/u/.config/cavaii/config.toml");
    assert_eq!(default_config_path(None, None, None), "cavaii.toml");
}

#[test]
fn runtime_paths_follow_the_resolved_config() {
    let (resolved, active, colors) =
        runtime_file_paths("c.toml", Some("/etc/cavaii/c.toml".to_owned()));
    assert_eq!(resolved.as_deref(), Some("/etc/cavaii/c.toml"));
    assert_eq!(active, "/etc/cavaii/c.toml");
    assert_eq!(colors, "/etc/cavaii/colors.toml");
    let (resolved, active, colors) = runtime_file_paths("conf/c.toml", None);
    assert!(resolved.is_none());
    assert_eq!(active, "conf/c.toml");
    assert_eq!(colors, "conf/colors.toml");
}

#[test]
fn proc_entries_that_are_processes() {
    assert_eq!(pid_of("1234"), Some(1234));
    assert_eq!(pid_of("self"), None);
    assert_eq!(pid_of("99999999999"), None);
}

#[test]
fn missing_files_give_defaults() {
    assert_eq!(load_or_default_from(ReadOutcome::Missing).unwrap(), AppConfig::default());
    let denied = std::io::Error::new(std::io::ErrorKind::PermissionDenied, "no");
    match load_or_default_from(ReadOutcome::Failed(denied)) {
        Err(ConfigLoadError::Io(e)) => assert_eq!(e.kind(), std::io::ErrorKind::PermissionDenied),
        _ => panic!("expected an io error"),
    }
    let parsed = load_or_default_from(ReadOutcome::Text("[overlay]\nwidth = 7\n".to_owned())).unwrap();
    assert_eq!(parsed.overlay.width, 7);
    let o = load_color_overrides_from(ReadOutcome::Missing).unwrap();
    assert!(o.gradient.is_none() && o.orientation.is_none() && o.fade.is_none());
    let denied = std::io::Error::new(std::io::ErrorKind::PermissionDenied, "no");
    let err = load_color_overrides_from(ReadOutcome::Failed(denied)).unwrap_err();
    assert!(err.message().starts_with("io error: "));
    let o = load_color_overrides_from(ReadOutcome::Text("[color]\nfade = false\n".to_owned())).unwrap();
    assert_eq!(o.fade, Some(false));
}
