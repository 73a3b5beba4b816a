# cavaii

A Wayland overlay audio visualizer (`cavaii`), a daemon that starts and
stops it with audio playback (`cavaii-daemon`), and a small benchmark.

- `src/` is the verified library: reading `config.toml` and `colors.toml`
  (settings, colors, gradients, error messages tied to lines), the daemon's
  decisions (activity tracking with delays, grace periods, reload debounce,
  start retries, `pactl` and `/proc` readings), the frame sources' decisions
  and decoders, and the benchmark's `/proc` parsers. `src/laws.rs` states
  what holds across these functions.
- `app/` is the programs around it: files, processes, threads, the GTK
  window and all floating-point work (levels, smoothing, drawing).
- `tests/` runs the library on concrete inputs.
