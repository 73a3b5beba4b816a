//! The colors file: a `[color]` section whose `gradient`, `orientation` and
//! `fade` settings override the visualizer's colors, and applying those
//! overrides to a configuration.
//!
//! Unlike the main configuration file, lines without `=` and settings before
//! the `[color]` header are skipped; any other section is an error.
use vstd::prelude::*;
use crate::colors::{Fault, Outcome, fault_outcome, gradient_spec, parse_gradient, validate_gradient, validate_gradient_spec};
use crate::config::{AppConfig, AppView, ColorOrientation, OverridesView, VisualizerColorOverrides, VisualizerView};
use crate::number::same_chars;
use crate::settings::{ConfigLoadError, find_char, first_index, gather, gather_value, ReadOutcome};
use crate::text::{chars_of, lemma_lines_bounds, lines, lines_of, lit, string_of, sub_chars, trim, trim_chars, views};
use crate::values::{bool_spec, bracket_delta, cat, line_prefix, line_prefix_chars, msg2, normalize_spec, normalize_value, orientation_spec, parse_bool};

verus! {

/// No overrides at all.
pub open spec fn no_overrides() -> OverridesView {
    OverridesView { gradient: None, orientation: None, fade: None }
}

impl Default for VisualizerColorOverrides {
    /// No overrides.
    fn default() -> (o: VisualizerColorOverrides)
        ensures
            o@ == no_overrides(),
    {
        VisualizerColorOverrides { gradient: None, orientation: None, fade: None }
    }
}

/// A setting of the `[color]` section.
#[verifier::opaque]
pub open spec fn color_setting_spec(o: OverridesView, key: Seq<char>, value: Seq<char>) -> Outcome<
    OverridesView,
> {
    if key == "gradient"@ {
        match gradient_spec(value) {
            Outcome::Done(g) => Outcome::Done(OverridesView { gradient: Some(g), ..o }),
            Outcome::Failed(m) => Outcome::Failed(m),
            Outcome::Panics => Outcome::Panics,
        }
    } else if key == "orientation"@ {
        match orientation_spec(value) {
            Ok(c) => Outcome::Done(OverridesView { orientation: Some(c), ..o }),
            Err(m) => Outcome::Failed(m),
        }
    } else if key == "fade"@ {
        match bool_spec(key, value) {
            Ok(b) => Outcome::Done(OverridesView { fade: Some(b), ..o }),
            Err(m) => Outcome::Failed(m),
        }
    } else {
        Outcome::Failed("unknown color key: "@ + key)
    }
}

/// What reading one line of the colors file does: go on at a later line
/// with new overrides (and whether the `[color]` header was seen), fail
/// with a message, or panic.
pub enum OverrideStep {
    Next(int, OverridesView, bool),
    Fail(Seq<char>),
    Panic,
}

/// A line `t` (trimmed, not blank, no comment, no header) at index `idx`.
pub open spec fn override_key_step(
    ls: Seq<Seq<char>>,
    idx: int,
    t: Seq<char>,
    o: OverridesView,
    in_section: bool,
) -> OverrideStep {
    let line_no = (idx + 1) as nat;
    match first_index(t, '=') {
        None => OverrideStep::Next(idx + 1, o, in_section),
        Some(e) => if !in_section {
            OverrideStep::Next(idx + 1, o, in_section)
        } else {
            let key = trim(t.take(e));
            let raw = t.skip(e + 1);
            match gather(ls, idx, raw, bracket_delta(raw)) {
                None => OverrideStep::Fail(
                    line_prefix(line_no) + "unterminated array value for key "@ + key,
                ),
                Some((k, v)) => match color_setting_spec(o, key, normalize_spec(v)) {
                    Outcome::Done(o2) => OverrideStep::Next(idx + 1 + k, o2, in_section),
                    Outcome::Failed(m) => OverrideStep::Fail(line_prefix(line_no) + m),
                    Outcome::Panics => OverrideStep::Panic,
                },
            }
        },
    }
}

/// Line `idx` of the colors file.
pub open spec fn override_line_step(
    ls: Seq<Seq<char>>,
    idx: int,
    o: OverridesView,
    in_section: bool,
) -> OverrideStep {
    let t = trim(ls[idx]);
    if t.len() == 0 || t[0] == '#' {
        OverrideStep::Next(idx + 1, o, in_section)
    } else if t[0] == '[' && t.last() == ']' {
        let name = t.subrange(1, t.len() - 1);
        if name == "color"@ {
            OverrideStep::Next(idx + 1, o, true)
        } else {
            OverrideStep::Fail(line_prefix((idx + 1) as nat) + "unknown section ["@ + name + "]"@)
        }
    } else {
        override_key_step(ls, idx, t, o, in_section)
    }
}

/// The overrides of the colors file from line `idx` on.
pub open spec fn overrides_from(
    ls: Seq<Seq<char>>,
    idx: int,
    o: OverridesView,
    in_section: bool,
) -> Outcome<OverridesView>
    decreases ls.len() - idx,
{
    if idx < 0 || idx >= ls.len() {
        Outcome::Done(o)
    } else {
        match override_line_step(ls, idx, o, in_section) {
            OverrideStep::Next(n, o2, s) => if idx < n <= ls.len() {
                overrides_from(ls, n, o2, s)
            } else {
                Outcome::Done(o2)
            },
            OverrideStep::Fail(m) => Outcome::Failed(m),
            OverrideStep::Panic => Outcome::Panics,
        }
    }
}

/// What reading the text of a colors file gives: each setting in turn,
/// then the gradient checked once more (one to five colors).
pub open spec fn overrides_spec(raw: Seq<char>) -> Outcome<OverridesView> {
    match overrides_from(lines(raw), 0, no_overrides(), false) {
        Outcome::Done(o) => match o.gradient {
            Some(g) => match validate_gradient_spec(g) {
                Ok(v) => Outcome::Done(OverridesView { gradient: Some(v), ..o }),
                Err(m) => Outcome::Failed(m),
            },
            None => Outcome::Done(o),
        },
        other => other,
    }
}

fn apply_color_setting(o: &mut VisualizerColorOverrides, key: &Vec<char>, value: &Vec<char>) -> (r:
    Result<(), Fault>)
    ensures
        match r {
            Ok(()) => color_setting_spec(old(o)@, key@, value@) == Outcome::Done(final(o)@),
            Err(f) => color_setting_spec(old(o)@, key@, value@) == fault_outcome::<OverridesView>(f),
        },
{
    reveal(color_setting_spec);
    if same_chars(key, &lit("gradient")) {
        let g = parse_gradient(value)?;
        o.gradient = Some(g);
        Ok(())
    } else if same_chars(key, &lit("orientation")) {
        match ColorOrientation::parse(value) {
            Ok(c) => {
                o.orientation = Some(c);
                Ok(())
            },
            Err(m) => Err(Fault::Message(m)),
        }
    } else if same_chars(key, &lit("fade")) {
        match parse_bool(key, value) {
            Ok(b) => {
                o.fade = Some(b);
                Ok(())
            },
            Err(m) => Err(Fault::Message(m)),
        }
    } else {
        Err(Fault::Message(msg2("unknown color key: ", key)))
    }
}

/// `m` tied to line `line_no`; a panic stays a panic.
fn at_line(f: Fault, line_no: usize) -> (r: Fault)
    ensures
        match f {
            Fault::Message(m) => r matches Fault::Message(n) && n@ == line_prefix(line_no as nat) + m@,
            Fault::Panic => r is Panic,
        },
{
    match f {
        Fault::Message(m) => Fault::Message(cat(&line_prefix_chars(line_no as u64), &m)),
        Fault::Panic => Fault::Panic,
    }
}

fn apply_override_key_line(
    ls: &Vec<Vec<char>>,
    idx: usize,
    t: &Vec<char>,
    o: &mut VisualizerColorOverrides,
    in_section: bool,
) -> (r: Result<usize, Fault>)
    requires
        idx < ls.len() <= i32::MAX as int + 1,
        t.len() <= i32::MAX,
        forall|i: int| 0 <= i < ls.len() ==> (#[trigger] ls@[i]).len() <= i32::MAX,
    ensures
        match r {
            Ok(n) => idx < n <= ls.len() && override_key_step(
                views(ls@),
                idx as int,
                t@,
                old(o)@,
                in_section,
            ) == OverrideStep::Next(n as int, final(o)@, in_section),
            Err(Fault::Message(m)) => override_key_step(views(ls@), idx as int, t@, old(o)@, in_section)
                == OverrideStep::Fail(m@),
            Err(Fault::Panic) => override_key_step(views(ls@), idx as int, t@, old(o)@, in_section)
                == OverrideStep::Panic,
        },
{
    let ghost l = views(ls@);
    let line_no = idx + 1;
    let eq = match find_char(t, '=') {
        Some(e) => e,
        None => {
            return Ok(idx + 1);
        },
    };
    if !in_section {
        return Ok(idx + 1);
    }
    let key = trim_chars(&sub_chars(t, 0, eq));
    let raw_value = sub_chars(t, eq + 1, t.len());
    assert(t@.subrange(0, eq as int) =~= t@.take(eq as int));
    assert(t@.subrange(eq + 1, t@.len() as int) =~= t@.skip(eq + 1));
    let (last, gathered) = match gather_value(ls, idx, &raw_value) {
        Some(p) => p,
        None => {
            let p = line_prefix_chars(line_no as u64);
            let a = cat(&p, &lit("unterminated array value for key "));
            return Err(Fault::Message(cat(&a, &key)));
        },
    };
    let value = normalize_value(&gathered);
    let ghost o0 = o@;
    assert(first_index(t@, '=') == Some(eq as int));
    assert(key@ == trim(t@.take(eq as int)));
    assert(raw_value@ == t@.skip(eq + 1));
    assert(gather(l, idx as int, raw_value@, bracket_delta(raw_value@)) == Some(
        ((last - idx) as nat, gathered@),
    ));
    match apply_color_setting(o, &key, &value) {
        Ok(()) => {
            assert(color_setting_spec(o0, key@, normalize_spec(gathered@)) == Outcome::Done(o@));
            assert(idx + 1 + ((last - idx) as nat) == last + 1);
            Ok(last + 1)
        },
        Err(f) => Err(at_line(f, line_no)),
    }
}

fn apply_override_line(
    ls: &Vec<Vec<char>>,
    idx: usize,
    o: &mut VisualizerColorOverrides,
    in_section: &mut bool,
) -> (r: Result<usize, Fault>)
    requires
        idx < ls.len() <= i32::MAX as int + 1,
        forall|i: int| 0 <= i < ls.len() ==> (#[trigger] ls@[i]).len() <= i32::MAX,
    ensures
        match r {
            Ok(n) => idx < n <= ls.len() && override_line_step(
                views(ls@),
                idx as int,
                old(o)@,
                *old(in_section),
            ) == OverrideStep::Next(n as int, final(o)@, *final(in_section)),
            Err(Fault::Message(m)) => override_line_step(views(ls@), idx as int, old(o)@, *old(in_section))
                == OverrideStep::Fail(m@),
            Err(Fault::Panic) => override_line_step(views(ls@), idx as int, old(o)@, *old(in_section))
                == OverrideStep::Panic,
        },
{
    let ghost l = views(ls@);
    assert(l[idx as int] == ls@[idx as int]@);
    let t = trim_chars(&ls[idx]);
    if t.len() == 0 || t[0] == '#' {
        return Ok(idx + 1);
    }
    if t[0] == '[' && t[t.len() - 1] == ']' {
        let name = sub_chars(&t, 1, t.len() - 1);
        if same_chars(&name, &lit("color")) {
            *in_section = true;
            return Ok(idx + 1);
        }
        let p = line_prefix_chars((idx + 1) as u64);
        let a = cat(&p, &lit("unknown section ["));
        let b = cat(&a, &name);
        return Err(Fault::Message(cat(&b, &lit("]"))));
    }
    apply_override_key_line(ls, idx, &t, o, *in_section)
}

fn parse_overrides_chars(raw: &Vec<char>) -> (r: Result<VisualizerColorOverrides, Fault>)
    requires
        raw@.len() <= i32::MAX,
    ensures
        match r {
            Ok(o) => overrides_spec(raw@) == Outcome::Done(o@),
            Err(f) => overrides_spec(raw@) == fault_outcome::<OverridesView>(f),
        },
{
    let ls = lines_of(raw);
    let ghost l = views(ls@);
    proof {
        lemma_lines_bounds(raw@);
        assert forall|i: int| 0 <= i < ls.len() implies (#[trigger] ls@[i]).len() <= i32::MAX by {
            assert(ls@[i]@ == l[i]);
        }
    }
    let mut o = VisualizerColorOverrides::default();
    let mut in_section = false;
    let mut idx: usize = 0;
    while idx < ls.len()
        invariant
            idx <= ls.len() <= i32::MAX as int + 1,
            l == views(ls@),
            l == lines(raw@),
            forall|i: int| 0 <= i < ls.len() ==> (#[trigger] ls@[i]).len() <= i32::MAX,
            overrides_from(l, 0, no_overrides(), false) == overrides_from(
                l,
                idx as int,
                o@,
                in_section,
            ),
        decreases ls.len() - idx,
    {
        let n = apply_override_line(&ls, idx, &mut o, &mut in_section)?;
        idx = n;
    }
    match o.gradient {
        Some(g) => match validate_gradient(g) {
            Ok(v) => Ok(
                VisualizerColorOverrides {
                    gradient: Some(v),
                    orientation: o.orientation,
                    fade: o.fade,
                },
            ),
            Err(m) => Err(Fault::Message(m)),
        },
        None => Ok(o),
    }
}

/// Whether reading this colors file text panics (a hex color whose two-byte
/// channel slice falls inside a multi-byte character).
pub fn color_overrides_panic(raw: &str) -> (b: bool)
    requires
        raw@.len() <= i32::MAX,
    ensures
        b == (overrides_spec(raw@) is Panics),
{
    match parse_overrides_chars(&chars_of(raw)) {
        Err(Fault::Panic) => true,
        _ => false,
    }
}

/// Reads the text of a colors file (shorter than 2^31 characters, and not
/// one on which reading panics).
pub fn parse_color_overrides(raw: &str) -> (r: Result<VisualizerColorOverrides, ConfigLoadError>)
    requires
        raw@.len() <= i32::MAX,
        !(overrides_spec(raw@) is Panics),
    ensures
        match r {
            Ok(o) => overrides_spec(raw@) == Outcome::Done(o@),
            Err(e) => e matches ConfigLoadError::Parse(m) && overrides_spec(raw@) == Outcome::<
                OverridesView,
            >::Failed(m@),
        },
{
    match parse_overrides_chars(&chars_of(raw)) {
        Ok(o) => Ok(o),
        Err(Fault::Message(m)) => Err(ConfigLoadError::Parse(string_of(&m))),
        Err(Fault::Panic) => Err(ConfigLoadError::Parse(string_of(&Vec::new()))),
    }
}

/// The configuration after the colors file's overrides: the orientation
/// and the fade where given, and the gradient where given and not empty.
pub open spec fn applied_overrides(c: AppView, o: OverridesView) -> AppView {
    let v = c.visualizer;
    let v1 = match o.orientation {
        Some(x) => VisualizerView { color_orientation: x, ..v },
        None => v,
    };
    let v2 = match o.fade {
        Some(f) => VisualizerView { color_fade: f, ..v1 },
        None => v1,
    };
    let v3 = match o.gradient {
        Some(g) => if g.len() > 0 {
            VisualizerView { color_gradient: g, ..v2 }
        } else {
            v2
        },
        None => v2,
    };
    AppView { visualizer: v3, ..c }
}

pub fn apply_color_overrides(config: &mut AppConfig, overrides: VisualizerColorOverrides)
    ensures
        final(config)@ == applied_overrides(old(config)@, overrides@),
{
    if let Some(orientation) = overrides.orientation {
        config.visualizer.color_orientation = orientation;
    }
    if let Some(fade) = overrides.fade {
        config.visualizer.color_fade = fade;
    }
    if let Some(gradient) = overrides.gradient {
        if gradient.len() > 0 {
            config.visualizer.color_gradient = gradient;
        }
    }
}

/// The overrides from the outcome of reading the colors file: the file's
/// overrides; none when the file does not exist; the read error otherwise.
pub fn load_color_overrides_from(read: ReadOutcome) -> (r: Result<
    VisualizerColorOverrides,
    ConfigLoadError,
>)
    requires
        read matches ReadOutcome::Text(t) ==> t@.len() <= i32::MAX && !(overrides_spec(t@) is Panics),
    ensures
        match read {
            ReadOutcome::Text(t) => match r {
                Ok(o) => overrides_spec(t@) == Outcome::Done(o@),
                Err(e) => e matches ConfigLoadError::Parse(m) && overrides_spec(t@) == Outcome::<
                    OverridesView,
                >::Failed(m@),
            },
            ReadOutcome::Missing => r matches Ok(o) && o@ == no_overrides(),
            ReadOutcome::Failed(err) => r == Err::<VisualizerColorOverrides, ConfigLoadError>(
                ConfigLoadError::Io(err),
            ),
        },
{
    match read {
        ReadOutcome::Text(t) => parse_color_overrides(t.as_str()),
        ReadOutcome::Missing => Ok(VisualizerColorOverrides::default()),
        ReadOutcome::Failed(err) => Err(ConfigLoadError::Io(err)),
    }
}

} // verus!
