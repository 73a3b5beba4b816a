//! What holds of the library as a whole: the settings the configuration
//! readers produce stay well-formed, their errors name their line, the
//! colors file's overrides behave as overrides; and the daemon's timing
//! rules (grace periods, reload debounce, start retries, activity delays)
//! keep their promises.
use vstd::prelude::*;
use crate::colors::{Outcome, color_items, color_spec, colors_of, gradient_spec, rgba_list_spec};
use crate::config::{AppConfig, AppView, ColorSpec, OverridesView, app_wf, color_wf, daemon_wf, default_color, gradient_wf, overrides_wf, visualizer_wf};
use crate::number::{decimal_number, exponent_ok, is_digit, is_float_text, lead_digits, lead_digits_all};
use crate::overrides::{OverrideStep, applied_overrides, color_setting_spec, no_overrides, override_line_step, overrides_from, overrides_spec};
use crate::settings::{bar_key_spec, first_index, gather, LineStep, config_from, daemon_key_spec, key_line_step, line_step, parse_config_spec, setting_spec, visualizer_key_spec};
use crate::daemon::{ActivityState, CONFIG_RELOAD_DEBOUNCE_MS, CONFIG_SWITCH_MIN_GRACE_MS, PendingView, SPAWN_RETRY_INTERVAL_MS, activity_input_spec, extended_grace, poll_step, spawn_due, switch_grace, tracked_activity, tracked_reload};
use crate::engine::{SourceKind, source_order_spec};
use crate::config::VisualizerBackend;
use crate::text::{lines, lower, split_char, starts_with, trim};
use crate::values::{bracket_delta, line_prefix, list_item, normalize_spec, string_list_spec};
use crate::pactl::{playback_spec, scan_lines};
use vstd::utf8::{decode_utf8, valid_utf8};

verus! {

/// `lead_digits` counts the digits before the first non-digit.
proof fn lemma_lead_digits_at(s: Seq<char>, k: int)
    requires
        0 <= k <= s.len(),
        forall|i: int| 0 <= i < k ==> is_digit(#[trigger] s[i]),
        k < s.len() ==> !is_digit(s[k]),
    ensures
        lead_digits(s) == k,
{
    lead_digits_all(s);
    let l = lead_digits(s) as int;
    if l < k {
        assert(is_digit(s[l]));
    }
    if l > k {
        assert(is_digit(s[k]));
    }
}

proof fn lemma_lower_digits(s: Seq<char>)
    requires
        forall|i: int| 0 <= i < s.len() ==> (is_digit(#[trigger] s[i]) || s[i] == '.'),
    ensures
        lower(s) == s,
{
    assert(lower(s) =~= s);
}

/// Digits, then `.` and digits, are a number the programs can read.
proof fn lemma_point_number(s: Seq<char>, k: int)
    requires
        0 < k < s.len(),
        s[k] == '.',
        forall|i: int| 0 <= i < s.len() && i != k ==> is_digit(#[trigger] s[i]),
    ensures
        is_float_text(s),
{
    assert forall|i: int| 0 <= i < s.len() implies (is_digit(#[trigger] s[i]) || s[i] == '.') by {
        if i != k {
            assert(is_digit(s[i]));
        }
    }
    lemma_lower_digits(s);
    lemma_lead_digits_at(s, k);
    let rest = s.skip(k);
    let r2 = rest.drop_first();
    assert forall|i: int| 0 <= i < r2.len() implies is_digit(#[trigger] r2[i]) by {
        assert(r2[i] == s[k + 1 + i]);
    }
    lemma_lead_digits_at(r2, r2.len() as int);
    assert(r2.skip(r2.len() as int) =~= Seq::<char>::empty());
    assert(exponent_ok(Seq::<char>::empty()));
    assert(decimal_number(s));
}

/// A run of digits is a number the programs can read.
proof fn lemma_digits_number(s: Seq<char>)
    requires
        s.len() > 0,
        forall|i: int| 0 <= i < s.len() ==> is_digit(#[trigger] s[i]),
    ensures
        is_float_text(s),
{
    lemma_lower_digits(s);
    lemma_lead_digits_at(s, s.len() as int);
    assert(s.skip(s.len() as int) =~= Seq::<char>::empty());
    assert(exponent_ok(Seq::<char>::empty()));
    assert(decimal_number(s));
}

/// The built-in configuration is well-formed.
pub proof fn default_config_is_well_formed()
    ensures
        app_wf(AppConfig::spec_default()),
{
    reveal_strlit("20.0");
    reveal_strlit("0.14");
    reveal_strlit("0.975");
    reveal_strlit("1.20");
    reveal_strlit("0.95");
    reveal_strlit("0.24");
    reveal_strlit("0.035");
    reveal_strlit("0.7");
    reveal_strlit("175");
    reveal_strlit("198");
    reveal_strlit("255");
    reveal_strlit("cavaii");
    lemma_point_number("20.0"@, 2);
    lemma_point_number("0.14"@, 1);
    lemma_point_number("0.975"@, 1);
    lemma_point_number("1.20"@, 1);
    lemma_point_number("0.95"@, 1);
    lemma_point_number("0.24"@, 1);
    lemma_point_number("0.035"@, 1);
    lemma_point_number("0.7"@, 1);
    lemma_digits_number("175"@);
    lemma_digits_number("198"@);
    lemma_digits_number("255"@);
    assert(color_wf(default_color()));
    let g = AppConfig::spec_default().visualizer.color_gradient;
    assert(g.len() == 1 && g[0] == default_color());
    assert(gradient_wf(g));
}

proof fn lemma_visualizer_key_keeps_wf(v: crate::config::VisualizerView, key: Seq<char>, value: Seq<char>)
    requires
        visualizer_wf(v),
        visualizer_key_spec(v, key, value) is Ok,
    ensures
        visualizer_wf(visualizer_key_spec(v, key, value)->Ok_0),
{
    let r = visualizer_key_spec(v, key, value)->Ok_0;
    if key == "backend"@ || key == "type"@ || key == "bars"@ || key == "bar_width"@ {
    } else if key == "bar_corner_radius"@ {
        assert(is_float_text(r.bar_corner_radius));
    } else if key == "wave_thickness"@ {
        assert(r.wave_thickness >= 1);
    } else if key == "gap"@ || key == "framerate"@ || key == "gpu"@ {
    } else if key == "pipewire_attack"@ {
        assert(is_float_text(r.pipewire_attack));
    } else if key == "pipewire_decay"@ {
        assert(is_float_text(r.pipewire_decay));
    } else if key == "pipewire_gain"@ {
        assert(is_float_text(r.pipewire_gain));
    } else if key == "pipewire_curve"@ {
        assert(is_float_text(r.pipewire_curve));
    } else {
        assert(is_float_text(r.pipewire_neighbor_mix));
    }
}

proof fn lemma_daemon_key_keeps_wf(d: crate::config::DaemonView, key: Seq<char>, value: Seq<char>)
    requires
        daemon_wf(d),
        daemon_key_spec(d, key, value) is Ok,
    ensures
        daemon_wf(daemon_key_spec(d, key, value)->Ok_0),
{
    reveal_strlit("cavaii");
}

/// One setting keeps a well-formed configuration well-formed.
proof fn lemma_setting_keeps_wf(
    cfg: AppView,
    section: Option<Seq<char>>,
    key: Seq<char>,
    value: Seq<char>,
)
    requires
        app_wf(cfg),
        setting_spec(cfg, section, key, value) is Ok,
    ensures
        app_wf(setting_spec(cfg, section, key, value)->Ok_0),
{
    reveal(setting_spec);
    if section is Some {
        let s = section->Some_0;
        if s == "overlay"@ {
        } else if s == "visualizer"@ {
            lemma_visualizer_key_keeps_wf(cfg.visualizer, key, value);
        } else if s == "bar"@ {
            lemma_bar_key_keeps_wf(cfg.bar, key, value);
        } else if s == "wave"@ {
        } else if s == "daemon"@ {
            lemma_daemon_key_keeps_wf(cfg.daemon, key, value);
        }
    }
}

proof fn lemma_bar_key_keeps_wf(b: crate::config::BarView, key: Seq<char>, value: Seq<char>)
    requires
        b.corner_radius matches Some(t) ==> is_float_text(t),
        bar_key_spec(b, key, value) is Ok,
    ensures
        bar_key_spec(b, key, value)->Ok_0.corner_radius matches Some(t) ==> is_float_text(t),
{
    let r = bar_key_spec(b, key, value)->Ok_0;
    if key == "points"@ || key == "point_width"@ || key == "point_gap"@ {
    } else {
        assert(r.corner_radius matches Some(t) ==> is_float_text(t));
    }
}

/// Reading the lines from `idx` on keeps a well-formed configuration
/// well-formed.
proof fn lemma_config_from_keeps_wf(
    ls: Seq<Seq<char>>,
    idx: int,
    cfg: AppView,
    section: Option<Seq<char>>,
)
    requires
        app_wf(cfg),
    ensures
        config_from(ls, idx, cfg, section) matches Ok(c) ==> app_wf(c),
    decreases ls.len() - idx,
{
    if 0 <= idx < ls.len() {
        let t = trim(ls[idx]);
        if !(t.len() == 0 || t[0] == '#') && !(t[0] == '[' && t.last() == ']') {
            match key_line_step(ls, idx, t, cfg, section) {
                LineStep::Next(n, c, s) => {
                    let e = crate::settings::first_index(t, '=')->Some_0;
                    let key = trim(t.take(e));
                    let raw = t.skip(e + 1);
                    let (k, v) = crate::settings::gather(ls, idx, raw, crate::values::bracket_delta(raw))->Some_0;
                    lemma_setting_keeps_wf(cfg, section, key, crate::values::normalize_spec(v));
                },
                LineStep::Fail(_) => {},
            }
        }
        match line_step(ls, idx, cfg, section) {
            LineStep::Next(n, c, s) => {
                if idx < n <= ls.len() {
                    lemma_config_from_keeps_wf(ls, n, c, s);
                }
            },
            LineStep::Fail(_) => {},
        }
    }
}

/// Every configuration read from a file is well-formed: its numbers are
/// readable, its gradient has one to five colors, waves are at least 1
/// pixel thick, the daemon polls no faster than every 16 ms and has a
/// command to start.
pub proof fn parsed_config_is_well_formed(raw: Seq<char>)
    ensures
        parse_config_spec(raw) matches Ok(c) ==> app_wf(c),
{
    default_config_is_well_formed();
    lemma_config_from_keeps_wf(lines(raw), 0, AppConfig::spec_default(), None);
}

/// The message is tied to a line of the file: it starts with `line N: `.
pub open spec fn tied_to_line(m: Seq<char>) -> bool {
    exists|n: nat| starts_with(m, #[trigger] line_prefix(n))
}

proof fn lemma_tied(n: nat, x: Seq<char>)
    ensures
        tied_to_line(line_prefix(n) + x),
{
    let m = line_prefix(n) + x;
    assert(m.take(line_prefix(n).len() as int) =~= line_prefix(n));
    assert(starts_with(m, line_prefix(n)));
}

proof fn lemma_tied2(n: nat, x: Seq<char>, y: Seq<char>)
    ensures
        tied_to_line(line_prefix(n) + x + y),
{
    assert(line_prefix(n) + x + y =~= line_prefix(n) + (x + y));
    lemma_tied(n, x + y);
}

proof fn lemma_tied3(n: nat, x: Seq<char>, y: Seq<char>, z: Seq<char>)
    ensures
        tied_to_line(line_prefix(n) + x + y + z),
{
    assert(line_prefix(n) + x + y + z =~= line_prefix(n) + (x + y + z));
    lemma_tied(n, x + y + z);
}

/// A line that sets nothing: blank, a comment, or a section header.
pub open spec fn inert_line(l: Seq<char>) -> bool {
    let t = trim(l);
    t.len() == 0 || t[0] == '#' || (t[0] == '[' && t.last() == ']')
}

proof fn lemma_inert_lines_keep(ls: Seq<Seq<char>>, idx: int, cfg: AppView, section: Option<Seq<char>>)
    requires
        forall|i: int| 0 <= i < ls.len() ==> inert_line(#[trigger] ls[i]),
    ensures
        config_from(ls, idx, cfg, section) == Ok::<AppView, Seq<char>>(cfg),
    decreases ls.len() - idx,
{
    if 0 <= idx < ls.len() {
        assert(inert_line(ls[idx]));
        match line_step(ls, idx, cfg, section) {
            LineStep::Next(n, c, s) => {
                lemma_inert_lines_keep(ls, n, c, s);
            },
            LineStep::Fail(_) => {},
        }
    }
}

/// A configuration file of only blank lines, comments and section headers
/// gives the built-in configuration.
pub proof fn settingless_config_is_default(raw: Seq<char>)
    requires
        forall|i: int| 0 <= i < lines(raw).len() ==> inert_line(#[trigger] lines(raw)[i]),
    ensures
        parse_config_spec(raw) == Ok::<AppView, Seq<char>>(AppConfig::spec_default()),
{
    lemma_inert_lines_keep(lines(raw), 0, AppConfig::spec_default(), None);
}

/// A blank line or a comment.
pub open spec fn blank_or_comment(l: Seq<char>) -> bool {
    let t = trim(l);
    t.len() == 0 || t[0] == '#'
}

/// Line `j` holds a setting `key = value` whose value ends within the file:
/// its key.
pub open spec fn setting_key(ls: Seq<Seq<char>>, j: int) -> Option<Seq<char>> {
    let t = trim(ls[j]);
    if inert_line(ls[j]) {
        None
    } else {
        match first_index(t, '=') {
            None => None,
            Some(e) => {
                let raw = t.skip(e + 1);
                if gather(ls, j, raw, bracket_delta(raw)) is Some {
                    Some(trim(t.take(e)))
                } else {
                    None
                }
            },
        }
    }
}

/// The sections the configuration file knows.
pub open spec fn known_section(name: Seq<char>) -> bool {
    name == "overlay"@ || name == "visualizer"@ || name == "bar"@ || name == "wave"@ || name
        == "daemon"@
}

/// The message starts with `line N: ` where line N (counted from 1) of the
/// file holds a setting.
pub open spec fn names_setting_line(ls: Seq<Seq<char>>, m: Seq<char>) -> bool {
    exists|i: int|
        #![trigger ls[i]]
        0 <= i < ls.len() && !inert_line(ls[i]) && starts_with(m, line_prefix((i + 1) as nat))
}

proof fn lemma_names_line(ls: Seq<Seq<char>>, idx: int, x: Seq<char>, y: Seq<char>)
    requires
        0 <= idx < ls.len(),
        !inert_line(ls[idx]),
    ensures
        names_setting_line(ls, line_prefix((idx + 1) as nat) + x),
        names_setting_line(ls, line_prefix((idx + 1) as nat) + x + y),
{
    let p = line_prefix((idx + 1) as nat);
    assert((p + x).take(p.len() as int) =~= p);
    assert((p + x + y).take(p.len() as int) =~= p);
    assert(starts_with(p + x, p));
    assert(starts_with(p + x + y, p));
}

proof fn lemma_config_errors_on_setting_lines(
    ls: Seq<Seq<char>>,
    idx: int,
    cfg: AppView,
    section: Option<Seq<char>>,
)
    ensures
        config_from(ls, idx, cfg, section) matches Err(m) ==> names_setting_line(ls, m),
    decreases ls.len() - idx,
{
    if 0 <= idx < ls.len() {
        let t = trim(ls[idx]);
        if !inert_line(ls[idx]) {
            lemma_names_line(ls, idx, "invalid key/value line: "@, t);
            match first_index(t, '=') {
                None => {},
                Some(e) => {
                    let key = trim(t.take(e));
                    let raw = t.skip(e + 1);
                    lemma_names_line(ls, idx, "unterminated array value for key "@, key);
                    match gather(ls, idx, raw, bracket_delta(raw)) {
                        Some((k, v)) => match setting_spec(cfg, section, key, normalize_spec(v)) {
                            Err(m) => lemma_names_line(ls, idx, m, m),
                            Ok(_) => {},
                        },
                        None => {},
                    }
                },
            }
        }
        match line_step(ls, idx, cfg, section) {
            LineStep::Next(n, c, s) => {
                if idx < n <= ls.len() {
                    lemma_config_errors_on_setting_lines(ls, n, c, s);
                }
            },
            LineStep::Fail(_) => {},
        }
    }
}

/// Every error in reading a configuration file starts with `line N: `, and
/// line N of the file (counted from 1) holds a setting: it is neither blank,
/// nor a comment, nor a section header.
pub proof fn config_errors_name_a_setting_line(raw: Seq<char>)
    ensures
        parse_config_spec(raw) matches Err(m) ==> names_setting_line(lines(raw), m),
{
    lemma_config_errors_on_setting_lines(lines(raw), 0, AppConfig::spec_default(), None);
}

proof fn lemma_skip_blank_lines(ls: Seq<Seq<char>>, idx: int, j: int, cfg: AppView, section: Option<Seq<char>>)
    requires
        0 <= idx <= j < ls.len(),
        forall|i: int| idx <= i < j ==> blank_or_comment(#[trigger] ls[i]),
    ensures
        config_from(ls, idx, cfg, section) == config_from(ls, j, cfg, section),
    decreases j - idx,
{
    if idx < j {
        assert(blank_or_comment(ls[idx]));
        lemma_skip_blank_lines(ls, idx + 1, j, cfg, section);
    }
}

/// A setting that comes before any section header, other than `logging`,
/// is refused with `line N: key/value before a section header`, N being its
/// line (counted from 1).
pub proof fn setting_before_any_header_is_refused(raw: Seq<char>, j: int)
    requires
        0 <= j < lines(raw).len(),
        forall|i: int| 0 <= i < j ==> blank_or_comment(#[trigger] lines(raw)[i]),
        setting_key(lines(raw), j) matches Some(k) && k != "logging"@,
    ensures
        parse_config_spec(raw) == Err::<AppView, Seq<char>>(
            line_prefix((j + 1) as nat) + "key/value before a section header"@,
        ),
{
    let ls = lines(raw);
    let cfg = AppConfig::spec_default();
    reveal(setting_spec);
    lemma_skip_blank_lines(ls, 0, j, cfg, None);
    lemma_setting_line_fails(ls, j, cfg, None);
}

/// At a setting line, reading goes to the setting's own step.
proof fn lemma_setting_line_fails(ls: Seq<Seq<char>>, j: int, cfg: AppView, section: Option<Seq<char>>)
    requires
        0 <= j < ls.len(),
        setting_key(ls, j) is Some,
    ensures
        ({
            let t = trim(ls[j]);
            let e = first_index(t, '=')->0;
            let raw = t.skip(e + 1);
            let key = setting_key(ls, j)->0;
            match gather(ls, j, raw, bracket_delta(raw)) {
                Some((_, v)) => match setting_spec(cfg, section, key, normalize_spec(v)) {
                    Err(m) => config_from(ls, j, cfg, section) == Err::<AppView, Seq<char>>(
                        line_prefix((j + 1) as nat) + m,
                    ),
                    Ok(_) => true,
                },
                None => true,
            }
        }),
{
}

/// A setting under a header `[x]` of a section the file does not know is
/// refused with `line N: unknown section [x]`, N being the setting's line
/// (counted from 1), whatever was read before the header.
pub proof fn setting_in_unknown_section_is_refused(
    ls: Seq<Seq<char>>,
    h: int,
    j: int,
    cfg: AppView,
    section: Option<Seq<char>>,
)
    requires
        0 <= h < j < ls.len(),
        trim(ls[h]).len() > 0,
        trim(ls[h])[0] == '[',
        trim(ls[h]).last() == ']',
        !known_section(trim(ls[h]).subrange(1, trim(ls[h]).len() - 1)),
        forall|i: int| h < i < j ==> blank_or_comment(#[trigger] ls[i]),
        setting_key(ls, j) is Some,
    ensures
        config_from(ls, h, cfg, section) == Err::<AppView, Seq<char>>(
            line_prefix((j + 1) as nat) + "unknown section ["@ + trim(ls[h]).subrange(
                1,
                trim(ls[h]).len() - 1,
            ) + "]"@,
        ),
{
    let name = trim(ls[h]).subrange(1, trim(ls[h]).len() - 1);
    reveal(setting_spec);
    assert(line_step(ls, h, cfg, section) == LineStep::Next(h + 1, cfg, Some(name)));
    lemma_skip_blank_lines(ls, h + 1, j, cfg, Some(name));
    lemma_setting_line_fails(ls, j, cfg, Some(name));
    assert(line_prefix((j + 1) as nat) + ("unknown section ["@ + name + "]"@) =~= line_prefix(
        (j + 1) as nat,
    ) + "unknown section ["@ + name + "]"@);
}

proof fn lemma_color_wf(value: Seq<char>)
    ensures
        color_spec(value) matches Outcome::Done(c) ==> color_wf(c),
{
    let n = trim(value);
    if !starts_with(n, "#"@) {
        assert(color_spec(value) matches Outcome::Done(c) ==> color_wf(c));
    }
}

proof fn lemma_colors_of_wf(items: Seq<Seq<char>>)
    ensures
        colors_of(items) matches Outcome::Done(cs) ==> forall|i: int|
            0 <= i < cs.len() ==> color_wf(#[trigger] cs[i]),
    decreases items.len(),
{
    if items.len() > 0 {
        lemma_colors_of_wf(items.drop_last());
        lemma_color_wf(items.last());
        match colors_of(items.drop_last()) {
            Outcome::Done(cs) => match color_spec(items.last()) {
                Outcome::Done(c) => {
                    assert forall|i: int| 0 <= i < cs.push(c).len() implies color_wf(
                        #[trigger] cs.push(c)[i],
                    ) by {
                        if i < cs.len() {
                            assert(cs.push(c)[i] == cs[i]);
                        }
                    }
                },
                _ => {},
            },
            _ => {},
        }
    }
}

/// A gradient setting that is read has one to five readable colors.
proof fn lemma_gradient_wf(value: Seq<char>)
    ensures
        gradient_spec(value) matches Outcome::Done(g) ==> gradient_wf(g),
{
    let t = trim(value);
    if t.len() > 0 {
        lemma_colors_of_wf(color_items(crate::values::unbracket(t)));
    }
    match rgba_list_spec(value) {
        Outcome::Done(g0) => {
            if g0.len() > 5 {
                assert forall|i: int| 0 <= i < g0.take(5).len() implies color_wf(
                    #[trigger] g0.take(5)[i],
                ) by {
                    assert(g0.take(5)[i] == g0[i]);
                }
            }
        },
        _ => {},
    }
}

proof fn lemma_color_setting_keeps_wf(o: OverridesView, key: Seq<char>, value: Seq<char>)
    requires
        overrides_wf(o),
    ensures
        color_setting_spec(o, key, value) matches Outcome::Done(o2) ==> overrides_wf(o2),
{
    reveal(color_setting_spec);
    lemma_gradient_wf(value);
}

proof fn lemma_overrides_from(ls: Seq<Seq<char>>, idx: int, o: OverridesView, in_section: bool)
    requires
        overrides_wf(o),
    ensures
        overrides_from(ls, idx, o, in_section) matches Outcome::Done(o2) ==> overrides_wf(o2),
        overrides_from(ls, idx, o, in_section) matches Outcome::Failed(m) ==> tied_to_line(m),
    decreases ls.len() - idx,
{
    if 0 <= idx < ls.len() {
        let ln = (idx + 1) as nat;
        let t = trim(ls[idx]);
        if !(t.len() == 0 || t[0] == '#') {
            if t[0] == '[' && t.last() == ']' {
                lemma_tied3(ln, "unknown section ["@, t.subrange(1, t.len() - 1), "]"@);
            } else {
                match crate::settings::first_index(t, '=') {
                    None => {},
                    Some(e) => {
                        let key = trim(t.take(e));
                        let raw = t.skip(e + 1);
                        lemma_tied2(ln, "unterminated array value for key "@, key);
                        match crate::settings::gather(ls, idx, raw, crate::values::bracket_delta(raw)) {
                            Some((k, v)) => {
                                let value = crate::values::normalize_spec(v);
                                lemma_color_setting_keeps_wf(o, key, value);
                                match color_setting_spec(o, key, value) {
                                    Outcome::Failed(m) => lemma_tied(ln, m),
                                    _ => {},
                                }
                            },
                            None => {},
                        }
                    },
                }
            }
        }
        match override_line_step(ls, idx, o, in_section) {
            OverrideStep::Next(n, o2, s) => {
                if idx < n <= ls.len() {
                    lemma_overrides_from(ls, n, o2, s);
                }
            },
            _ => {},
        }
    }
}

/// The colors file's overrides are well-formed: a gradient it gives has
/// one to five readable colors.
pub proof fn colors_file_gradient_is_well_formed(raw: Seq<char>)
    ensures
        overrides_spec(raw) matches Outcome::Done(o) ==> overrides_wf(o),
{
    lemma_overrides_from(lines(raw), 0, no_overrides(), false);
}

/// Every error in reading a colors file names the line it is on.
pub proof fn colors_file_errors_name_their_line(raw: Seq<char>)
    ensures
        overrides_spec(raw) matches Outcome::Failed(m) ==> tied_to_line(m),
{
    lemma_overrides_from(lines(raw), 0, no_overrides(), false);
}

/// The colors a gradient keeps of a list: the first five.
pub open spec fn first_five(cs: Seq<ColorSpec>) -> Seq<ColorSpec> {
    if cs.len() > 5 {
        cs.take(5)
    } else {
        cs
    }
}

/// Line `j` of a colors file holds `key = value` whose value ends within
/// the file: the key, and the value as it is read.
pub open spec fn color_line_setting(ls: Seq<Seq<char>>, j: int) -> Option<(Seq<char>, Seq<char>)> {
    let t = trim(ls[j]);
    if inert_line(ls[j]) {
        None
    } else {
        match first_index(t, '=') {
            None => None,
            Some(e) => {
                let raw = t.skip(e + 1);
                match gather(ls, j, raw, bracket_delta(raw)) {
                    Some((_, v)) => Some((trim(t.take(e)), normalize_spec(v))),
                    None => None,
                }
            },
        }
    }
}

/// `g` is what a `gradient` setting on a line of the file gives: the first
/// five colors of its list of at least one color.
pub open spec fn gradient_of_a_line(ls: Seq<Seq<char>>, g: Seq<ColorSpec>) -> bool {
    exists|j: int|
        #![trigger color_line_setting(ls, j)]
        0 <= j < ls.len() && (color_line_setting(ls, j) matches Some((k, v)) && k == "gradient"@
            && (rgba_list_spec(v) matches Outcome::Done(cs) && cs.len() > 0 && g == first_five(cs)))
}

proof fn lemma_overrides_gradient(ls: Seq<Seq<char>>, idx: int, o: OverridesView, in_section: bool)
    requires
        o.gradient matches Some(g) ==> gradient_of_a_line(ls, g),
    ensures
        overrides_from(ls, idx, o, in_section) matches Outcome::Done(o2) ==> (o2.gradient matches Some(
            g,
        ) ==> gradient_of_a_line(ls, g)),
    decreases ls.len() - idx,
{
    reveal(color_setting_spec);
    if 0 <= idx < ls.len() {
        let t = trim(ls[idx]);
        match override_line_step(ls, idx, o, in_section) {
            OverrideStep::Next(n, o2, s) => {
                if o2.gradient != o.gradient {
                    let e = first_index(t, '=')->0;
                    let raw = t.skip(e + 1);
                    match gather(ls, idx, raw, bracket_delta(raw)) {
                        Some((_, v)) => {
                            let value = normalize_spec(v);
                            assert(color_line_setting(ls, idx) == Some((trim(t.take(e)), value)));
                            match rgba_list_spec(value) {
                                Outcome::Done(cs) => {
                                    assert(o2.gradient == Some(first_five(cs)));
                                    assert(gradient_of_a_line(ls, first_five(cs)));
                                },
                                _ => {},
                            }
                        },
                        None => {},
                    }
                }
                if idx < n <= ls.len() {
                    lemma_overrides_gradient(ls, n, o2, s);
                }
            },
            _ => {},
        }
    }
}

/// A gradient read from a colors file is what one of its `gradient` lines
/// sets: the first five colors of that line's list of at least one color.
pub proof fn colors_file_gradient_comes_from_a_line(raw: Seq<char>)
    ensures
        overrides_spec(raw) matches Outcome::Done(o) ==> (o.gradient matches Some(g)
            ==> gradient_of_a_line(lines(raw), g)),
{
    lemma_overrides_gradient(lines(raw), 0, no_overrides(), false);
    lemma_overrides_from(lines(raw), 0, no_overrides(), false);
}

/// A later `gradient` setting replaces what an earlier one set: reading two
/// in turn is reading the second alone.
pub proof fn later_gradient_setting_wins(o: OverridesView, first: Seq<char>, second: Seq<char>)
    ensures
        color_setting_spec(o, "gradient"@, first) matches Outcome::Done(o1) ==> color_setting_spec(
            o1,
            "gradient"@,
            second,
        ) == color_setting_spec(o, "gradient"@, second),
{
    reveal(color_setting_spec);
}

/// Applying well-formed overrides keeps a configuration well-formed.
pub proof fn overrides_keep_config_well_formed(c: AppView, o: OverridesView)
    requires
        app_wf(c),
        overrides_wf(o),
    ensures
        app_wf(applied_overrides(c, o)),
{
}

/// Applying no overrides changes nothing.
pub proof fn no_overrides_change_nothing(c: AppView)
    ensures
        applied_overrides(c, no_overrides()) == c,
{
    assert(applied_overrides(c, no_overrides()).visualizer == c.visualizer);
}

/// Applying the same overrides twice is applying them once.
pub proof fn overrides_apply_once(c: AppView, o: OverridesView)
    ensures
        applied_overrides(applied_overrides(c, o), o) == applied_overrides(c, o),
{
}

/// The overrides replace exactly the settings they give: a given
/// orientation or fade, and a given gradient that is not empty; all other
/// settings stay.
pub proof fn overrides_touch_only_colors(c: AppView, o: OverridesView)
    ensures
        applied_overrides(c, o).overlay == c.overlay,
        applied_overrides(c, o).daemon == c.daemon,
        applied_overrides(c, o).visualizer.color_orientation == match o.orientation {
            Some(x) => x,
            None => c.visualizer.color_orientation,
        },
        applied_overrides(c, o).visualizer.color_fade == match o.fade {
            Some(f) => f,
            None => c.visualizer.color_fade,
        },
        applied_overrides(c, o).visualizer.color_gradient == match o.gradient {
            Some(g) => if g.len() > 0 {
                g
            } else {
                c.visualizer.color_gradient
            },
            None => c.visualizer.color_gradient,
        },
        applied_overrides(c, o).visualizer.bars == c.visualizer.bars,
        applied_overrides(c, o).visualizer.backend == c.visualizer.backend,
{
}

/// The grace period is only ever extended: while audio is active it ends
/// no earlier than before and no earlier than `now + duration`; otherwise
/// it is left as it is.
pub proof fn grace_never_shrinks(current_until: Option<u64>, state: ActivityState, now: u64, duration: u64)
    requires
        now + duration <= u64::MAX,
    ensures
        state != ActivityState::Active ==> extended_grace(current_until, state, now, duration)
            == current_until,
        state == ActivityState::Active ==> (extended_grace(current_until, state, now, duration) matches Some(u)
            && u >= now + duration && (current_until matches Some(c) ==> u >= c)),
{
}

/// The grace after a configuration switch lasts at least as long as either
/// configuration's deactivation delay, and at least the minimum; it is the
/// largest of the three.
pub proof fn switch_grace_is_the_longest(current_delay_ms: u64, next_delay_ms: u64)
    ensures
        switch_grace(current_delay_ms, next_delay_ms) >= CONFIG_SWITCH_MIN_GRACE_MS,
        switch_grace(current_delay_ms, next_delay_ms) >= current_delay_ms,
        switch_grace(current_delay_ms, next_delay_ms) >= next_delay_ms,
        switch_grace(current_delay_ms, next_delay_ms) == CONFIG_SWITCH_MIN_GRACE_MS
            || switch_grace(current_delay_ms, next_delay_ms) == current_delay_ms
            || switch_grace(current_delay_ms, next_delay_ms) == next_delay_ms,
{
}

/// A reload waits only for a stamp that is not the one in use, and it is
/// always the stamp seen last.
pub proof fn waiting_reload_is_for_a_change<V>(
    current: V,
    pending: Option<PendingView<V>>,
    next: V,
    now: u64,
)
    ensures
        tracked_reload(current, pending, next, now) matches Some(p) ==> p.stamp == next && p.stamp
            != current,
        next == current ==> tracked_reload(current, pending, next, now) is None,
{
}

/// Seeing the waiting stamp again keeps its time; a stamp not seen before
/// waits the full debounce from now.
pub proof fn debounce_restarts_only_for_new_stamps<V>(
    current: V,
    pending: Option<PendingView<V>>,
    next: V,
    now: u64,
)
    requires
        now + CONFIG_RELOAD_DEBOUNCE_MS <= u64::MAX,
        next != current,
    ensures
        (pending matches Some(p) && p.stamp == next) ==> tracked_reload(current, pending, next, now)
            == pending,
        !(pending matches Some(p) && p.stamp == next) ==> tracked_reload(current, pending, next, now)
            == Some(PendingView { stamp: next, ready_at: (now + CONFIG_RELOAD_DEBOUNCE_MS) as u64 }),
{
}

/// The overlay is started only when it is not running, and two attempts
/// are at least the retry interval apart.
pub proof fn spawn_attempts_are_spaced(child_running: bool, last_attempt: Option<u64>, now: u64)
    ensures
        spawn_due(child_running, last_attempt, now) ==> !child_running,
        spawn_due(child_running, last_attempt, now) ==> (last_attempt matches Some(last) ==> now
            >= last + SPAWN_RETRY_INTERVAL_MS),
{
}

pub open spec fn reading_state(active: bool) -> ActivityState {
    if active {
        ActivityState::Active
    } else {
        ActivityState::Inactive
    }
}

/// The activity state changes only to what is read, and only once the
/// readings have differed from it for the delay of the new state; a
/// reading that agrees with the state drops a pending change; with no
/// delay the state follows the reading at once.
pub proof fn activity_changes_only_after_its_delay(
    state: ActivityState,
    change_since: Option<u64>,
    now: u64,
    active: bool,
    activate_delay_ms: u64,
    deactivate_delay_ms: u64,
)
    ensures
        ({
            let (s2, since2, changed) = tracked_activity(
                state,
                change_since,
                now,
                active,
                activate_delay_ms,
                deactivate_delay_ms,
            );
            &&& changed <==> s2 != state
            &&& changed ==> s2 == reading_state(active) && now >= match change_since {
                Some(t) => t,
                None => now,
            } + if active {
                activate_delay_ms
            } else {
                deactivate_delay_ms
            }
            &&& reading_state(active) == state ==> s2 == state && since2 is None
            &&& (if active {
                activate_delay_ms
            } else {
                deactivate_delay_ms
            }) == 0 && change_since is None ==> s2 == reading_state(active)
        }),
{
}

/// Without an allowed process nothing counts as active, the grace period
/// is dropped and the overlay is stopped; a grace period makes audio count
/// as active only while the state is already active.
pub proof fn no_allowed_process_means_silence(
    process_allowed: bool,
    playback_active: bool,
    state: ActivityState,
    grace_until: Option<u64>,
    now: u64,
)
    ensures
        !process_allowed ==> activity_input_spec(process_allowed, playback_active, state, grace_until, now)
            == (false, None::<u64>, true),
        activity_input_spec(process_allowed, playback_active, state, grace_until, now).0 ==> (
        process_allowed && (playback_active || state == ActivityState::Active)),
{
}

/// Every backend falls back, in the end, to the dummy source, which is
/// tried once and last; no source is tried twice.
pub proof fn sources_end_with_dummy(backend: VisualizerBackend)
    ensures
        source_order_spec(backend).len() >= 1,
        source_order_spec(backend).last() == SourceKind::Dummy,
        source_order_spec(backend).no_duplicates(),
        forall|i: int|
            0 <= i < source_order_spec(backend).len() - 1 ==> source_order_spec(backend)[i]
                != SourceKind::Dummy,
{
}

/// One setting of the main configuration file leaves the colors alone.
proof fn lemma_setting_keeps_colors(cfg: AppView, section: Option<Seq<char>>, key: Seq<char>, value: Seq<char>)
    requires
        setting_spec(cfg, section, key, value) is Ok,
    ensures
        ({
            let c = setting_spec(cfg, section, key, value)->Ok_0;
            &&& c.visualizer.color_gradient == cfg.visualizer.color_gradient
            &&& c.visualizer.color_orientation == cfg.visualizer.color_orientation
            &&& c.visualizer.color_fade == cfg.visualizer.color_fade
        }),
{
    reveal(setting_spec);
}

proof fn lemma_config_from_keeps_colors(
    ls: Seq<Seq<char>>,
    idx: int,
    cfg: AppView,
    section: Option<Seq<char>>,
)
    ensures
        config_from(ls, idx, cfg, section) matches Ok(c) ==> c.visualizer.color_gradient
            == cfg.visualizer.color_gradient && c.visualizer.color_orientation
            == cfg.visualizer.color_orientation && c.visualizer.color_fade == cfg.visualizer.color_fade,
    decreases ls.len() - idx,
{
    if 0 <= idx < ls.len() {
        let t = trim(ls[idx]);
        if !(t.len() == 0 || t[0] == '#') && !(t[0] == '[' && t.last() == ']') {
            match key_line_step(ls, idx, t, cfg, section) {
                LineStep::Next(n, c, s) => {
                    let e = crate::settings::first_index(t, '=')->Some_0;
                    let key = trim(t.take(e));
                    let raw = t.skip(e + 1);
                    let (k, v) = crate::settings::gather(ls, idx, raw, crate::values::bracket_delta(raw))->Some_0;
                    lemma_setting_keeps_colors(cfg, section, key, crate::values::normalize_spec(v));
                },
                LineStep::Fail(_) => {},
            }
        }
        match line_step(ls, idx, cfg, section) {
            LineStep::Next(n, c, s) => {
                if idx < n <= ls.len() {
                    lemma_config_from_keeps_colors(ls, n, c, s);
                }
            },
            LineStep::Fail(_) => {},
        }
    }
}

/// The colors file is the only place for colors: whatever the main
/// configuration file says, the gradient, its orientation and the fade it
/// gives are the built-in ones.
pub proof fn main_config_never_sets_colors(raw: Seq<char>)
    ensures
        parse_config_spec(raw) matches Ok(c) ==> c.visualizer.color_gradient
            == AppConfig::spec_default().visualizer.color_gradient && c.visualizer.color_orientation
            == AppConfig::spec_default().visualizer.color_orientation && c.visualizer.color_fade
            == AppConfig::spec_default().visualizer.color_fade,
{
    lemma_config_from_keeps_colors(lines(raw), 0, AppConfig::spec_default(), None);
}

proof fn lemma_no_block_no_scan(ls: Seq<Seq<char>>)
    requires
        forall|i: int| 0 <= i < ls.len() ==> !starts_with(trim(#[trigger] ls[i]), "Sink Input #"@),
    ensures
        !scan_lines(ls).saw_block,
        !scan_lines(ls).found,
    decreases ls.len(),
{
    if ls.len() > 0 {
        assert(ls.drop_last().len() < ls.len());
        assert forall|i: int| 0 <= i < ls.drop_last().len() implies !starts_with(
            trim(#[trigger] ls.drop_last()[i]),
            "Sink Input #"@,
        ) by {
            assert(ls.drop_last()[i] == ls[i]);
        }
        lemma_no_block_no_scan(ls.drop_last());
        assert(!starts_with(trim(ls[ls.len() - 1]), "Sink Input #"@));
    }
}

/// Readable `pactl` output without any sink input means nothing plays.
pub proof fn no_sink_input_means_silence(bytes: Seq<u8>)
    requires
        valid_utf8(bytes),
        forall|i: int|
            0 <= i < lines(decode_utf8(bytes)).len() ==> !starts_with(
                trim(#[trigger] lines(decode_utf8(bytes))[i]),
                "Sink Input #"@,
            ),
    ensures
        !playback_spec(bytes),
{
    lemma_no_block_no_scan(lines(decode_utf8(bytes)));
}

/// No element of `s` is `c`.
pub open spec fn free_of(s: Seq<char>, c: char) -> bool {
    forall|i: int| 0 <= i < s.len() ==> s[i] != c
}

proof fn lemma_split_pieces_free(s: Seq<char>, sep: char)
    ensures
        forall|k: int|
            0 <= k < split_char(s, sep).len() ==> free_of(#[trigger] split_char(s, sep)[k], sep),
    decreases s.len(),
{
    if s.len() > 0 {
        lemma_split_pieces_free(s.drop_last(), sep);
        crate::text::lemma_split_char_len(s.drop_last(), sep);
        let init = split_char(s.drop_last(), sep);
        if s.last() != sep {
            assert forall|k: int| 0 <= k < split_char(s, sep).len() implies free_of(
                #[trigger] split_char(s, sep)[k],
                sep,
            ) by {
                if k == init.len() - 1 {
                    let p = init.last().push(s.last());
                    assert(free_of(init[k], sep));
                    assert forall|i: int| 0 <= i < p.len() implies p[i] != sep by {
                        if i < p.len() - 1 {
                            assert(p[i] == init[k][i]);
                        }
                    }
                }
            }
        } else {
            assert forall|k: int| 0 <= k < split_char(s, sep).len() implies free_of(
                #[trigger] split_char(s, sep)[k],
                sep,
            ) by {
                if k < init.len() {
                    assert(split_char(s, sep)[k] == init[k]);
                }
            }
        }
    }
}

proof fn lemma_drop_first_free(s: Seq<char>, c: char)
    requires
        s.len() > 0,
        free_of(s, c),
    ensures
        free_of(s.drop_first(), c),
{
    assert forall|i: int| 0 <= i < s.drop_first().len() implies s.drop_first()[i] != c by {
        assert(s.drop_first()[i] == s[i + 1]);
    }
}

proof fn lemma_drop_last_free(s: Seq<char>, c: char)
    requires
        s.len() > 0,
        free_of(s, c),
    ensures
        free_of(s.drop_last(), c),
{
    assert forall|i: int| 0 <= i < s.drop_last().len() implies s.drop_last()[i] != c by {
        assert(s.drop_last()[i] == s[i]);
    }
}

proof fn lemma_trim_start_free(s: Seq<char>, c: char)
    requires
        free_of(s, c),
    ensures
        free_of(crate::text::trim_start(s), c),
        crate::text::trim_start(s).len() > 0 ==> !crate::text::is_white(crate::text::trim_start(s)[0]),
    decreases s.len(),
{
    if s.len() > 0 && crate::text::is_white(s[0]) {
        lemma_drop_first_free(s, c);
        lemma_trim_start_free(s.drop_first(), c);
    }
}

proof fn lemma_trim_end_free(s: Seq<char>, c: char)
    requires
        free_of(s, c),
    ensures
        free_of(crate::text::trim_end(s), c),
        crate::text::trim_end(s).len() > 0 ==> !crate::text::is_white(crate::text::trim_end(s).last()),
        crate::text::trim_end(s).len() <= s.len(),
        crate::text::trim_end(s) == s.take(crate::text::trim_end(s).len() as int),
    decreases s.len(),
{
    if s.len() > 0 && crate::text::is_white(s.last()) {
        lemma_drop_last_free(s, c);
        lemma_trim_end_free(s.drop_last(), c);
        let r = crate::text::trim_end(s.drop_last());
        assert(s.drop_last().take(r.len() as int) =~= s.take(r.len() as int));
    } else {
        assert(s.take(s.len() as int) =~= s);
    }
}

proof fn lemma_strip_free(s: Seq<char>, q: char, c: char)
    requires
        free_of(s, c),
    ensures
        free_of(crate::values::strip_lead(s, q), c),
        free_of(crate::values::strip_trail(crate::values::strip_lead(s, q), q), c),
    decreases s.len(),
{
    if s.len() > 0 && s[0] == q {
        lemma_drop_first_free(s, c);
        lemma_strip_free(s.drop_first(), q, c);
    }
    lemma_strip_trail_free(crate::values::strip_lead(s, q), q, c);
}

proof fn lemma_strip_trail_free(s: Seq<char>, q: char, c: char)
    requires
        free_of(s, c),
    ensures
        free_of(crate::values::strip_trail(s, q), c),
    decreases s.len(),
{
    if s.len() > 0 && s.last() == q {
        lemma_drop_last_free(s, c);
        lemma_strip_trail_free(s.drop_last(), q, c);
    }
}

/// Trimming keeps a text free of `c`, and trimming twice is trimming once.
proof fn lemma_trim_free(s: Seq<char>, c: char)
    requires
        free_of(s, c),
    ensures
        free_of(trim(s), c),
        trim(trim(s)) == trim(s),
{
    lemma_trim_start_free(s, c);
    let a = crate::text::trim_start(s);
    lemma_trim_end_free(a, c);
    let z = trim(s);
    if z.len() > 0 {
        assert(z[0] == a[0]);
        assert(crate::text::trim_start(z) == z);
        assert(crate::text::trim_end(z) == z);
    }
}

/// Every entry of a string list is non-empty, trimmed, and holds no comma.
pub proof fn string_list_items_are_clean(value: Seq<char>)
    ensures
        forall|i: int|
            0 <= i < string_list_spec(value).len() ==> {
                let x = #[trigger] string_list_spec(value)[i];
                &&& x.len() > 0
                &&& trim(x) == x
                &&& free_of(x, ',')
            },
{
    let t = trim(value);
    if t.len() > 0 {
        let parts = split_char(crate::values::unbracket(t), ',');
        let mapped = parts.map_values(|p: Seq<char>| list_item(p));
        let keep = |x: Seq<char>| x.len() > 0;
        assert(string_list_spec(value) == mapped.filter(keep));
        lemma_split_pieces_free(crate::values::unbracket(t), ',');
        assert forall|i: int| 0 <= i < string_list_spec(value).len() implies {
            let x = #[trigger] string_list_spec(value)[i];
            &&& x.len() > 0
            &&& trim(x) == x
            &&& free_of(x, ',')
        } by {
            mapped.lemma_filter_pred(keep, i);
            let x = mapped.filter(keep)[i];
            assert(mapped.filter(keep).contains(x));
            mapped.lemma_filter_contains_rev(keep, x);
            let k = choose|k: int| 0 <= k < mapped.len() && mapped[k] == x;
            let p = parts[k];
            assert(x == list_item(p));
            assert(free_of(p, ','));
            lemma_trim_free(p, ',');
            lemma_strip_free(trim(p), '"', ',');
            let d = crate::values::trim_char(trim(p), '"');
            lemma_strip_free(d, '\'', ',');
            let e = crate::values::trim_char(d, '\'');
            lemma_trim_free(e, ',');
        }
    }
}

/// The index of the first poll, of stamps and times, at which the files are
/// reloaded.
pub open spec fn first_reload<V>(current: V, pending: Option<PendingView<V>>, polls: Seq<(V, u64)>) -> Option<
    nat,
>
    decreases polls.len(),
{
    if polls.len() == 0 {
        None
    } else {
        let (c2, p2, reloaded) = poll_step(current, pending, polls[0].0, polls[0].1);
        if reloaded {
            Some(0)
        } else {
            match first_reload(c2, p2, polls.drop_first()) {
                Some(k) => Some(k + 1),
                None => None,
            }
        }
    }
}

/// The index of the first poll at `at` or later.
pub open spec fn first_poll_from<V>(polls: Seq<(V, u64)>, at: int) -> Option<nat>
    decreases polls.len(),
{
    if polls.len() == 0 {
        None
    } else if polls[0].1 >= at {
        Some(0)
    } else {
        match first_poll_from(polls.drop_first(), at) {
            Some(k) => Some(k + 1),
            None => None,
        }
    }
}

proof fn lemma_waiting_stamp_reloads_when_ready<V>(current: V, p: PendingView<V>, polls: Seq<(V, u64)>)
    requires
        p.stamp != current,
        forall|i: int| 0 <= i < polls.len() ==> (#[trigger] polls[i]).0 == p.stamp,
    ensures
        first_reload(current, Some(p), polls) == first_poll_from(polls, p.ready_at as int),
    decreases polls.len(),
{
    if polls.len() > 0 {
        assert(polls[0].0 == p.stamp);
        assert forall|i: int| 0 <= i < polls.drop_first().len() implies (
        #[trigger] polls.drop_first()[i]).0 == p.stamp by {
            assert(polls.drop_first()[i] == polls[i + 1]);
        }
        lemma_waiting_stamp_reloads_when_ready(current, p, polls.drop_first());
    }
}

/// Over successive polls that all read the same changed stamp, starting
/// with nothing waiting, the files are reloaded at the first poll at least
/// the debounce after the first one, and at no earlier poll.
pub proof fn reload_after_a_quiet_debounce<V>(current: V, polls: Seq<(V, u64)>)
    requires
        polls.len() > 0,
        polls[0].0 != current,
        polls[0].1 + CONFIG_RELOAD_DEBOUNCE_MS <= u64::MAX,
        forall|i: int| 0 <= i < polls.len() ==> (#[trigger] polls[i]).0 == polls[0].0,
    ensures
        first_reload(current, None, polls) == first_poll_from(
            polls,
            polls[0].1 + CONFIG_RELOAD_DEBOUNCE_MS,
        ),
{
    let p = PendingView { stamp: polls[0].0, ready_at: (polls[0].1 + CONFIG_RELOAD_DEBOUNCE_MS) as u64 };
    let rest = polls.drop_first();
    assert forall|i: int| 0 <= i < rest.len() implies (#[trigger] rest[i]).0 == p.stamp by {
        assert(rest[i] == polls[i + 1]);
    }
    lemma_waiting_stamp_reloads_when_ready(current, p, rest);
}

} // verus!
