//! What the readers of settings and of outside text promise, stated over
//! their inputs: a playing sink-input block anywhere in `pactl` output
//! means playback, and quiet blocks mean none; each keyword of a setting
//! gives its own variant; an allowed process is found wherever it stands
//! in the process table, names compared without regard to case or spaces;
//! a hex color keeps each of its bytes, alpha included; and a `cava` line
//! gives its numbers in order, blank `;` pieces skipped.
use vstd::prelude::*;
use vstd::utf8::{decode_utf8, encode_utf8, encode_utf8_valid_utf8, is_ascii_chars, is_ascii_chars_encode_utf8, is_char_boundary, is_char_boundary_iff_not_is_continuation_byte, is_char_boundary_start_end_of_seq, valid_utf8};
use crate::pactl::{corked_value, playback_spec, scan_lines, sink_active};
use crate::text::{ascii_lower, ascii_upper, is_white, lines, split_char, lower, starts_with, trim, trim_end, trim_start, upper};
use crate::colors::{Outcome, color_spec, hex_channel, hex_color_spec, hex_pair};
use crate::config::ColorSpec;
use crate::config::{ColorOrientation, OverlayConfig, OverlayLayer, OverridesView, VisualizerBackend, VisualizerType, VisualizerView};
use crate::overrides::color_setting_spec;
use crate::engine::{cava_line_spec, cava_scan};
use crate::number::is_float_text;
use crate::process::{ProcessInfo, allowed_name_set, allowed_running_spec, cmdline_view, command_name, comm_view, first_nul, normalize_name, process_matches_spec};
use crate::settings::{overlay_key_spec, visualizer_key_spec};
use crate::values::{backend_spec, orientation_spec, overlay_layer_spec, visualizer_type_spec};

verus! {

/// A line that begins a sink-input block.
pub open spec fn is_block_header(l: Seq<char>) -> bool {
    starts_with(trim(l), "Sink Input #"@)
}

/// The text after `prefix`, trimmed, on the last of the lines `ls[lo..hi)`
/// whose trimmed text starts with `prefix`.
pub open spec fn last_field(ls: Seq<Seq<char>>, lo: int, hi: int, prefix: Seq<char>) -> Option<
    Seq<char>,
>
    decreases hi - lo,
{
    if hi <= lo {
        None
    } else if starts_with(trim(ls[hi - 1]), prefix) {
        Some(trim(trim(ls[hi - 1]).skip(prefix.len() as int)))
    } else {
        last_field(ls, lo, hi - 1, prefix)
    }
}

/// The state a block of lines `ls[lo..hi)` gives: its last `State:` value,
/// upper-cased.
pub open spec fn block_state(ls: Seq<Seq<char>>, lo: int, hi: int) -> Option<Seq<char>> {
    match last_field(ls, lo, hi, "State:"@) {
        Some(v) => Some(upper(v)),
        None => None,
    }
}

/// The corked flag a block of lines `ls[lo..hi)` gives: its last `Corked:`
/// value, lower-cased, read as yes/true or no/false.
pub open spec fn block_corked(ls: Seq<Seq<char>>, lo: int, hi: int) -> Option<bool> {
    match last_field(ls, lo, hi, "Corked:"@) {
        Some(v) => corked_value(lower(v)),
        None => None,
    }
}

proof fn lemma_block_scan(ls: Seq<Seq<char>>, h: int, k: int)
    requires
        0 <= h < k <= ls.len(),
        is_block_header(ls[h]),
        forall|i: int| h < i < k ==> !is_block_header(#[trigger] ls[i]),
    ensures
        ({
            let st = scan_lines(ls.take(k));
            st.found || (st.saw_block && st.state == block_state(ls, h + 1, k) && st.corked
                == block_corked(ls, h + 1, k))
        }),
    decreases k,
{
    reveal_strlit("Sink Input #");
    reveal_strlit("State:");
    reveal_strlit("Corked:");
    assert(ls.take(k).drop_last() =~= ls.take(k - 1));
    assert(ls.take(k).last() == ls[k - 1]);
    let t = trim(ls[k - 1]);
    if k - 1 > h {
        lemma_block_scan(ls, h, k - 1);
        assert(!is_block_header(ls[k - 1]));
        if starts_with(t, "State:"@) {
            assert(t.take(6)[0] == t[0]);
            if starts_with(t, "Corked:"@) {
                assert(t.take(7)[0] == t[0]);
            }
        }
    }
}

proof fn lemma_found_stays(ls: Seq<Seq<char>>, k: int)
    requires
        0 <= k <= ls.len(),
        scan_lines(ls.take(k)).found,
    ensures
        scan_lines(ls).found,
    decreases ls.len() - k,
{
    if k < ls.len() {
        assert(ls.take(k + 1).drop_last() =~= ls.take(k));
        lemma_found_stays(ls, k + 1);
    } else {
        assert(ls.take(k) =~= ls);
    }
}

/// `pactl list sink-inputs` output that is UTF-8 counts as playing when any
/// one of its sink-input blocks (the lines from a `Sink Input #` line up to
/// the next one or the end) is playing by its last `State:` and `Corked:`
/// lines, whatever the other blocks say and wherever the block stands.
pub proof fn any_playing_block_means_playback(bytes: Seq<u8>, h: int, e: int)
    requires
        valid_utf8(bytes),
        0 <= h < e <= lines(decode_utf8(bytes)).len(),
        is_block_header(lines(decode_utf8(bytes))[h]),
        forall|i: int| h < i < e ==> !is_block_header(#[trigger] lines(decode_utf8(bytes))[i]),
        e == lines(decode_utf8(bytes)).len() || is_block_header(lines(decode_utf8(bytes))[e]),
        sink_active(
            block_state(lines(decode_utf8(bytes)), h + 1, e),
            block_corked(lines(decode_utf8(bytes)), h + 1, e),
        ),
    ensures
        playback_spec(bytes),
{
    reveal_strlit("Sink Input #");
    let ls = lines(decode_utf8(bytes));
    lemma_block_scan(ls, h, e);
    if e == ls.len() {
        assert(ls.take(e) =~= ls);
    } else {
        assert(ls.take(e + 1).drop_last() =~= ls.take(e));
        assert(ls.take(e + 1).last() == ls[e]);
        assert(trim(ls[e]).len() > 0);
        assert(scan_lines(ls.take(e + 1)).found);
        lemma_found_stays(ls, e + 1);
    }
}

/// A `State:` or `Corked:` line.
pub open spec fn is_field_line(l: Seq<char>) -> bool {
    starts_with(trim(l), "State:"@) || starts_with(trim(l), "Corked:"@)
}

/// The sink-input block from line `h` to line `e` (excluded) is not
/// playing by its last `State:` and `Corked:` lines.
pub open spec fn block_quiet(ls: Seq<Seq<char>>, h: int, e: int) -> bool {
    !sink_active(block_state(ls, h + 1, e), block_corked(ls, h + 1, e))
}

/// Every sink-input block of the lines (from a `Sink Input #` line up to
/// the next one or the end) is not playing.
pub open spec fn all_blocks_quiet(ls: Seq<Seq<char>>) -> bool {
    forall|h: int, e: int|
        0 <= h < e <= ls.len() && is_block_header(ls[h]) && (forall|i: int|
            h < i < e ==> !is_block_header(#[trigger] ls[i])) && (e == ls.len() || is_block_header(
            ls[e],
        )) ==> #[trigger] block_quiet(ls, h, e)
}

/// The last `Sink Input #` line before line `k`.
pub open spec fn last_header(ls: Seq<Seq<char>>, k: int) -> Option<int>
    decreases k,
{
    if k <= 0 {
        None
    } else if is_block_header(ls[k - 1]) {
        Some(k - 1)
    } else {
        last_header(ls, k - 1)
    }
}

proof fn lemma_line_kinds(t: Seq<char>)
    ensures
        starts_with(t, "Sink Input #"@) ==> !starts_with(t, "State:"@) && !starts_with(t, "Corked:"@),
        starts_with(t, "State:"@) ==> !starts_with(t, "Corked:"@) && t.len() > 0,
        starts_with(t, "Corked:"@) ==> t.len() > 0,
        starts_with(t, "Sink Input #"@) ==> t.len() > 0,
{
    reveal_strlit("Sink Input #");
    reveal_strlit("State:");
    reveal_strlit("Corked:");
    if starts_with(t, "Sink Input #"@) {
        assert(t.take(12)[1] == t[1]);
        if starts_with(t, "State:"@) {
            assert(t.take(6)[1] == t[1]);
        }
        if starts_with(t, "Corked:"@) {
            assert(t.take(7)[0] == t[0]);
            assert(t.take(12)[0] == t[0]);
        }
    }
    if starts_with(t, "State:"@) {
        assert(t.take(6)[0] == t[0]);
        if starts_with(t, "Corked:"@) {
            assert(t.take(7)[0] == t[0]);
        }
    }
}

proof fn lemma_quiet_scan(ls: Seq<Seq<char>>, k: int)
    requires
        0 <= k <= ls.len(),
        all_blocks_quiet(ls),
    ensures
        ({
            let st = scan_lines(ls.take(k));
            &&& !st.found
            &&& (st.saw_block <==> last_header(ls, k) is Some)
            &&& (last_header(ls, k) matches Some(h) ==> {
                &&& 0 <= h < k
                &&& is_block_header(ls[h])
                &&& forall|i: int| h < i < k ==> !is_block_header(#[trigger] ls[i])
                &&& st.state == block_state(ls, h + 1, k)
                &&& st.corked == block_corked(ls, h + 1, k)
            })
            &&& forall|i: int| 0 <= i < k && is_field_line(#[trigger] ls[i]) ==> st.saw_state_or_cork
        }),
    decreases k,
{
    reveal_strlit("Sink Input #");
    reveal_strlit("State:");
    reveal_strlit("Corked:");
    if k > 0 {
        lemma_quiet_scan(ls, k - 1);
        assert(ls.take(k).drop_last() =~= ls.take(k - 1));
        assert(ls.take(k).last() == ls[k - 1]);
        let t = trim(ls[k - 1]);
        lemma_line_kinds(t);
        let st0 = scan_lines(ls.take(k - 1));
        let st = scan_lines(ls.take(k));
        assert(st == crate::pactl::scan_step(st0, ls[k - 1]));
        if is_block_header(ls[k - 1]) {
            if let Some(h) = last_header(ls, k - 1) {
                assert(block_quiet(ls, h, k - 1));
            }
            assert(!st.found);
            assert(last_header(ls, k) == Some(k - 1));
        } else {
            assert(last_header(ls, k) == last_header(ls, k - 1));
            if let Some(h) = last_header(ls, k) {
                assert forall|i: int| h < i < k implies !is_block_header(#[trigger] ls[i]) by {
                    if i < k - 1 {
                    }
                }
            }
        }
        assert forall|i: int| 0 <= i < k && is_field_line(#[trigger] ls[i]) implies st.saw_state_or_cork by {
            if i < k - 1 {
                assert(st0.saw_state_or_cork);
            }
        }
    } else {
        assert(ls.take(0) =~= Seq::<Seq<char>>::empty());
    }
}

/// `pactl list sink-inputs` output that is UTF-8, that has `State:` or
/// `Corked:` lines and none of whose sink-input blocks is playing does not
/// count as playing.
pub proof fn quiet_blocks_mean_no_playback(bytes: Seq<u8>)
    requires
        valid_utf8(bytes),
        exists|i: int|
            0 <= i < lines(decode_utf8(bytes)).len() && #[trigger] is_field_line(
                lines(decode_utf8(bytes))[i],
            ),
        all_blocks_quiet(lines(decode_utf8(bytes))),
    ensures
        !playback_spec(bytes),
{
    let ls = lines(decode_utf8(bytes));
    lemma_quiet_scan(ls, ls.len() as int);
    assert(ls.take(ls.len() as int) =~= ls);
    if let Some(h) = last_header(ls, ls.len() as int) {
        assert(block_quiet(ls, h, ls.len() as int));
    }
}

/// The keyword of each overlay layer.
pub open spec fn layer_keyword(l: OverlayLayer) -> Seq<char> {
    match l {
        OverlayLayer::Background => "background"@,
        OverlayLayer::Bottom => "bottom"@,
        OverlayLayer::Top => "top"@,
    }
}

/// The keyword of each visualizer backend.
pub open spec fn backend_keyword(b: VisualizerBackend) -> Seq<char> {
    match b {
        VisualizerBackend::Auto => "auto"@,
        VisualizerBackend::Pipewire => "pipewire"@,
        VisualizerBackend::Cava => "cava"@,
        VisualizerBackend::Dummy => "dummy"@,
    }
}

/// The keyword of each gradient orientation.
pub open spec fn orientation_keyword(o: ColorOrientation) -> Seq<char> {
    match o {
        ColorOrientation::Vertical => "vertical"@,
        ColorOrientation::Horizontal => "horizontal"@,
        ColorOrientation::Height => "height"@,
    }
}

/// Whether `v` is a keyword of the visualizer type `t`: `bar` or `bars`
/// for bars, `wave` for a wave.
pub open spec fn names_type(v: Seq<char>, t: VisualizerType) -> bool {
    match t {
        VisualizerType::Bar => v == "bar"@ || v == "bars"@,
        VisualizerType::Wave => v == "wave"@,
    }
}

proof fn lemma_keywords_differ()
    ensures
        "background"@ != "bottom"@,
        "background"@ != "top"@,
        "bottom"@ != "top"@,
        "auto"@ != "pipewire"@,
        "auto"@ != "cava"@,
        "auto"@ != "dummy"@,
        "pipewire"@ != "cava"@,
        "pipewire"@ != "dummy"@,
        "cava"@ != "dummy"@,
        "vertical"@ != "horizontal"@,
        "vertical"@ != "height"@,
        "horizontal"@ != "height"@,
        "bar"@ != "wave"@,
        "bars"@ != "wave"@,
{
    reveal_strlit("background");
    reveal_strlit("bottom");
    reveal_strlit("top");
    reveal_strlit("auto");
    reveal_strlit("pipewire");
    reveal_strlit("cava");
    reveal_strlit("dummy");
    reveal_strlit("vertical");
    reveal_strlit("horizontal");
    reveal_strlit("height");
    reveal_strlit("bar");
    reveal_strlit("bars");
    reveal_strlit("wave");
    assert("background"@.len() != "bottom"@.len());
    assert("background"@.len() != "top"@.len());
    assert("bottom"@[0] != "top"@[0]);
    assert("auto"@.len() != "pipewire"@.len());
    assert("auto"@[0] != "cava"@[0]);
    assert("auto"@[0] != "dummy"@[0]);
    assert("pipewire"@.len() != "cava"@.len());
    assert("pipewire"@.len() != "dummy"@.len());
    assert("cava"@.len() != "dummy"@.len());
    assert("vertical"@.len() != "horizontal"@.len());
    assert("vertical"@[0] != "height"@[0]);
    assert("horizontal"@.len() != "height"@.len());
    assert("bar"@.len() != "wave"@.len());
    assert("bars"@[0] != "wave"@[0]);
}

/// Each overlay layer keyword gives its own layer, and a layer that is read
/// is the one its keyword names: `bottom` is `Bottom`, never another layer.
/// Set in `[overlay]`, the keyword sets that layer and nothing else.
pub proof fn each_layer_keyword_gives_its_layer(l: OverlayLayer, v: Seq<char>, o: OverlayConfig)
    ensures
        overlay_layer_spec(layer_keyword(l)) == Ok::<OverlayLayer, Seq<char>>(l),
        overlay_layer_spec(v) matches Ok(m) ==> layer_keyword(m) == v,
        overlay_key_spec(o, "layer"@, layer_keyword(l)) == Ok::<OverlayConfig, Seq<char>>(
            OverlayConfig { layer: l, ..o },
        ),
{
    lemma_keywords_differ();
}

/// Each backend keyword gives its own backend, a backend that is read is
/// the one its keyword names, and in `[visualizer]` the keyword sets it.
pub proof fn each_backend_keyword_gives_its_backend(b: VisualizerBackend, v: Seq<char>, vz: VisualizerView)
    ensures
        backend_spec(backend_keyword(b)) == Ok::<VisualizerBackend, Seq<char>>(b),
        backend_spec(v) matches Ok(m) ==> backend_keyword(m) == v,
        visualizer_key_spec(vz, "backend"@, backend_keyword(b)) == Ok::<VisualizerView, Seq<char>>(
            VisualizerView { backend: b, ..vz },
        ),
{
    lemma_keywords_differ();
}

/// `bar`, `bars` and `wave` each give their own type, a type that is read
/// is one its keyword names, and in `[visualizer]` the keyword sets it.
pub proof fn each_type_keyword_gives_its_type(t: VisualizerType, v: Seq<char>, vz: VisualizerView)
    ensures
        names_type(v, t) ==> visualizer_type_spec(v) == Ok::<VisualizerType, Seq<char>>(t),
        names_type(v, t) ==> visualizer_key_spec(vz, "type"@, v) == Ok::<VisualizerView, Seq<char>>(
            VisualizerView { visualizer_type: t, ..vz },
        ),
        visualizer_type_spec(v) matches Ok(m) ==> names_type(v, m),
{
    lemma_keywords_differ();
    reveal_strlit("type");
    reveal_strlit("backend");
    assert("type"@.len() != "backend"@.len());
}

/// Each orientation keyword gives its own orientation, an orientation that
/// is read is the one its keyword names, and in `[color]` the keyword sets
/// the orientation override and nothing else.
pub proof fn each_orientation_keyword_gives_its_orientation(c: ColorOrientation, v: Seq<char>, o: OverridesView)
    ensures
        orientation_spec(orientation_keyword(c)) == Ok::<ColorOrientation, Seq<char>>(c),
        orientation_spec(v) matches Ok(m) ==> orientation_keyword(m) == v,
        color_setting_spec(o, "orientation"@, orientation_keyword(c)) == Outcome::Done(
            OverridesView { orientation: Some(c), ..o },
        ),
{
    lemma_keywords_differ();
    reveal(color_setting_spec);
    reveal_strlit("gradient");
    reveal_strlit("orientation");
    assert("gradient"@.len() != "orientation"@.len());
}

/// A process of the table has an allowed name: its `comm`, or the file
/// name of its first argument, trimmed and lower-cased, is the trimmed and
/// lower-cased name `allowed[j]`, which is not empty.
pub open spec fn runs_allowed_name(p: ProcessInfo, allowed: Seq<Seq<char>>, j: int) -> bool {
    &&& 0 <= j < allowed.len()
    &&& normalize_name(allowed[j]).len() > 0
    &&& {
        ||| (comm_view(p) matches Some(c) && normalize_name(c) == normalize_name(allowed[j]))
        ||| (cmdline_view(p) matches Some(b) && (b.take(first_nul(b)).len() > 0 && command_name(b)
            == normalize_name(allowed[j])))
    }
}

/// When any process of a readable table, at any position, has an allowed
/// name, an allowed process counts as running.
pub proof fn an_allowed_process_anywhere_is_found(allowed: Seq<Seq<char>>, t: Seq<ProcessInfo>, i: int, j: int)
    requires
        0 <= i < t.len(),
        runs_allowed_name(t[i], allowed, j),
    ensures
        allowed_running_spec(allowed, Some(t)),
{
    let x = normalize_name(allowed[j]);
    let names = allowed_name_set(allowed);
    assert(names.contains(x));
    assert(process_matches_spec(comm_view(t[i]), cmdline_view(t[i]), names));
}

/// Whether an allowed process runs depends only on which processes the
/// table holds, not on their order: two tables with the same processes
/// give the same answer.
pub proof fn process_order_does_not_matter(allowed: Seq<Seq<char>>, t1: Seq<ProcessInfo>, t2: Seq<ProcessInfo>)
    requires
        forall|i: int| 0 <= i < t1.len() ==> t2.contains(#[trigger] t1[i]),
        forall|i: int| 0 <= i < t2.len() ==> t1.contains(#[trigger] t2[i]),
    ensures
        allowed_running_spec(allowed, Some(t1)) == allowed_running_spec(allowed, Some(t2)),
{
    let names = allowed_name_set(allowed);
    if exists|i: int|
        0 <= i < t1.len() && process_matches_spec(comm_view(#[trigger] t1[i]), cmdline_view(t1[i]), names)
    {
        let i = choose|i: int|
            0 <= i < t1.len() && process_matches_spec(comm_view(#[trigger] t1[i]), cmdline_view(t1[i]), names);
        assert(t2.contains(t1[i]));
        let k = choose|k: int| 0 <= k < t2.len() && t2[k] == t1[i];
        assert(process_matches_spec(comm_view(t2[k]), cmdline_view(t2[k]), names));
    }
    if exists|i: int|
        0 <= i < t2.len() && process_matches_spec(comm_view(#[trigger] t2[i]), cmdline_view(t2[i]), names)
    {
        let i = choose|i: int|
            0 <= i < t2.len() && process_matches_spec(comm_view(#[trigger] t2[i]), cmdline_view(t2[i]), names);
        assert(t1.contains(t2[i]));
        let k = choose|k: int| 0 <= k < t1.len() && t1[k] == t2[i];
        assert(process_matches_spec(comm_view(t1[k]), cmdline_view(t1[k]), names));
    }
}

/// When no process of a readable table has an allowed name, and some
/// allowed name is left after trimming and lower-casing, no allowed process
/// counts as running.
pub proof fn no_allowed_process_is_not_found(allowed: Seq<Seq<char>>, t: Seq<ProcessInfo>, j0: int)
    requires
        0 <= j0 < allowed.len(),
        normalize_name(allowed[j0]).len() > 0,
        forall|i: int, j: int| 0 <= i < t.len() && 0 <= j < allowed.len() ==> !#[trigger] runs_allowed_name(t[i], allowed, j),
    ensures
        !allowed_running_spec(allowed, Some(t)),
{
    let names = allowed_name_set(allowed);
    assert(names.contains(normalize_name(allowed[j0])));
    if exists|i: int|
        0 <= i < t.len() && process_matches_spec(comm_view(#[trigger] t[i]), cmdline_view(t[i]), names)
    {
        let i = choose|i: int|
            0 <= i < t.len() && process_matches_spec(comm_view(#[trigger] t[i]), cmdline_view(t[i]), names);
        if comm_view(t[i]) is Some && names.contains(normalize_name(comm_view(t[i])->Some_0)) {
            let c = comm_view(t[i])->Some_0;
            let j = choose|j: int| 0 <= j < allowed.len() && normalize_name(#[trigger] allowed[j]) == normalize_name(c);
            assert(runs_allowed_name(t[i], allowed, j));
        } else {
            let b = cmdline_view(t[i])->Some_0;
            let j = choose|j: int| 0 <= j < allowed.len() && normalize_name(#[trigger] allowed[j]) == command_name(b);
            assert(runs_allowed_name(t[i], allowed, j));
        }
    }
}

/// When the process table cannot be read, or no allowed name is left after
/// trimming and lower-casing, an allowed process is assumed to run.
pub proof fn unknown_means_allowed_running(allowed: Seq<Seq<char>>, t: Option<Seq<ProcessInfo>>)
    requires
        t is None || forall|j: int| 0 <= j < allowed.len() ==> normalize_name(#[trigger] allowed[j]).len() == 0,
    ensures
        allowed_running_spec(allowed, t),
{
    if t is Some {
        assert(allowed_name_set(allowed) =~= Set::<Seq<char>>::empty());
    }
}

/// How a sink-input block's state and corked flag decide whether it plays:
/// `RUNNING` plays whatever the corked flag says, `IDLE` and `SUSPENDED`
/// never play, and any other (or no) state plays exactly when the block is
/// known to be uncorked.
pub proof fn how_a_block_plays(state: Option<Seq<char>>, corked: Option<bool>)
    ensures
        sink_active(Some("RUNNING"@), corked),
        !sink_active(Some("IDLE"@), corked),
        !sink_active(Some("SUSPENDED"@), corked),
        state != Some("RUNNING"@) && state != Some("IDLE"@) && state != Some("SUSPENDED"@) ==> (
        sink_active(state, corked) <==> corked == Some(false)),
{
    reveal_strlit("RUNNING");
    reveal_strlit("IDLE");
    reveal_strlit("SUSPENDED");
    assert("RUNNING"@.len() != "IDLE"@.len());
    assert("RUNNING"@.len() != "SUSPENDED"@.len());
}

/// A hex digit: `0`-`9`, `a`-`f` or `A`-`F`.
pub open spec fn is_hex_char(c: char) -> bool {
    (48 <= c as u32 <= 57) || (97 <= c as u32 <= 102) || (65 <= c as u32 <= 70)
}

/// The value of a hex digit.
pub open spec fn hex_value(c: char) -> int {
    if 48 <= c as u32 <= 57 {
        c as u32 - 48
    } else if 97 <= c as u32 <= 102 {
        c as u32 - 87
    } else {
        c as u32 - 55
    }
}

/// The byte written by the two hex digits at `i` and `i + 1`.
pub open spec fn hex_byte_at(hex: Seq<char>, i: int) -> u8 {
    (16 * hex_value(hex[i]) + hex_value(hex[i + 1])) as u8
}

/// The color `#rrggbb` or `#rrggbbaa` stands for: each pair of digits is
/// one byte, in order, and the alpha byte is there exactly when eight
/// digits are.
pub open spec fn hex_color_of(hex: Seq<char>) -> ColorSpec {
    ColorSpec::Hex(
        hex_byte_at(hex, 0),
        hex_byte_at(hex, 2),
        hex_byte_at(hex, 4),
        if hex.len() == 8 {
            Some(hex_byte_at(hex, 6))
        } else {
            None
        },
    )
}

proof fn lemma_hex_pair(b0: u8, b1: u8, c0: char, c1: char)
    requires
        is_hex_char(c0),
        is_hex_char(c1),
        b0 == c0 as u32,
        b1 == c1 as u32,
    ensures
        hex_pair(b0, b1) == Some((16 * hex_value(c0) + hex_value(c1)) as u8),
{
}

proof fn lemma_ascii_char(c: char)
    requires
        c as u32 <= 127,
    ensures
        '\0' <= c <= '\u{7f}',
{
}

proof fn lemma_hex_ascii(hex: Seq<char>)
    requires
        forall|i: int| 0 <= i < hex.len() ==> is_hex_char(#[trigger] hex[i]),
    ensures
        is_ascii_chars(hex),
{
    assert forall|i: int| 0 <= i < hex.len() implies '\0' <= #[trigger] hex[i] <= '\u{7f}' by {
        assert(is_hex_char(hex[i]));
        lemma_ascii_char(hex[i]);
    }
}

proof fn lemma_hex_bytes(hex: Seq<char>)
    requires
        forall|i: int| 0 <= i < hex.len() ==> is_hex_char(#[trigger] hex[i]),
    ensures
        encode_utf8(hex).len() == hex.len(),
        forall|i: int| 0 <= i <= hex.len() ==> #[trigger] is_char_boundary(encode_utf8(hex), i),
        forall|i: int|
            0 <= i < hex.len() - 1 ==> #[trigger] hex_pair(encode_utf8(hex)[i], encode_utf8(hex)[i + 1])
                == Some(hex_byte_at(hex, i)),
{
    let b = encode_utf8(hex);
    lemma_hex_ascii(hex);
    is_ascii_chars_encode_utf8(hex);
    encode_utf8_valid_utf8(hex);
    is_char_boundary_start_end_of_seq(b);
    assert forall|i: int| 0 <= i <= hex.len() implies #[trigger] is_char_boundary(b, i) by {
        if i < hex.len() {
            is_char_boundary_iff_not_is_continuation_byte(b, i);
            assert(hex[i] as u8 == b[i]);
            assert(is_hex_char(hex[i]));
        }
    }
    assert forall|i: int| 0 <= i < hex.len() - 1 implies #[trigger] hex_pair(b[i], b[i + 1]) == Some(
        hex_byte_at(hex, i),
    ) by {
        assert(is_hex_char(hex[i]));
        assert(is_hex_char(hex[i + 1]));
        assert(hex[i] as u8 == b[i]);
        assert(hex[i + 1] as u8 == b[i + 1]);
        lemma_hex_pair(b[i], b[i + 1], hex[i], hex[i + 1]);
    }
}

/// Six or eight hex digits are read byte by byte: red, green and blue from
/// the first three pairs and, with eight digits, the alpha from the last
/// pair, so `#rrggbbaa` keeps its alpha. As a color value, `#` and the
/// digits read the same way.
pub proof fn hex_colors_keep_each_byte(hex: Seq<char>)
    requires
        hex.len() == 6 || hex.len() == 8,
        forall|i: int| 0 <= i < hex.len() ==> is_hex_char(#[trigger] hex[i]),
    ensures
        hex_color_spec(hex) == Outcome::Done(hex_color_of(hex)),
        color_spec("#"@ + hex) == Outcome::Done(hex_color_of(hex)),
{
    let b = encode_utf8(hex);
    lemma_hex_bytes(hex);
    assert(is_char_boundary(b, 0) && is_char_boundary(b, 2) && is_char_boundary(b, 4) && is_char_boundary(b, 6));
    assert(hex_pair(b[0], b[1]) == Some(hex_byte_at(hex, 0)));
    assert(hex_pair(b[2], b[3]) == Some(hex_byte_at(hex, 2)));
    assert(hex_pair(b[4], b[5]) == Some(hex_byte_at(hex, 4)));
    if hex.len() == 8 {
        assert(is_char_boundary(b, 8));
        assert(hex_pair(b[6], b[7]) == Some(hex_byte_at(hex, 6)));
    }
    assert(hex_color_spec(hex) == Outcome::Done(hex_color_of(hex)));
    reveal_strlit("#");
    let v = "#"@ + hex;
    assert(!is_white(v[0]));
    assert(v.last() == hex[hex.len() - 1]);
    assert(is_hex_char(hex[hex.len() - 1]));
    assert(!is_white(v.last()));
    assert(trim_start(v) == v);
    assert(trim_end(v) == v);
    assert(starts_with(v, "#"@)) by {
        assert(v.take(1) =~= "#"@);
    }
    assert(v.skip(1) =~= hex);
}

proof fn lemma_scan_skips_inserted(
    parts: Seq<Seq<char>>,
    k: int,
    e: Seq<char>,
    i: int,
    got: Seq<Seq<char>>,
    n: nat,
)
    requires
        0 <= k <= parts.len(),
        trim(e).len() == 0,
        0 <= i <= parts.len(),
    ensures
        cava_scan(parts.insert(k, e), if i < k { i } else { i + 1 }, got, n) == cava_scan(parts, i, got, n),
        i == k ==> cava_scan(parts.insert(k, e), k, got, n) == cava_scan(parts, k, got, n),
    decreases parts.len() - i,
{
    let ins = parts.insert(k, e);
    if i < parts.len() {
        let t = trim(parts[i]);
        if i < k {
            assert(ins[i] == parts[i]);
        } else {
            assert(ins[i + 1] == parts[i]);
        }
        if t.len() == 0 {
            lemma_scan_skips_inserted(parts, k, e, i + 1, got, n);
        } else if is_float_text(t) && got.len() < n {
            lemma_scan_skips_inserted(parts, k, e, i + 1, got.push(t), n);
        }
        if i + 1 == k {
            assert(ins[k] == e);
        }
    }
    if i == k {
        assert(ins[k] == e);
    }
}

/// Empty (or blank) `;`-separated pieces of a `cava` line are skipped:
/// inserting one anywhere among the pieces changes no value read.
pub proof fn blank_cava_pieces_are_skipped(parts: Seq<Seq<char>>, k: int, e: Seq<char>, n: nat)
    requires
        0 <= k <= parts.len(),
        trim(e).len() == 0,
    ensures
        cava_scan(parts.insert(k, e), 0, Seq::empty(), n) == cava_scan(parts, 0, Seq::empty(), n),
{
    lemma_scan_skips_inserted(parts, k, e, 0, Seq::empty(), n);
}

/// A `;` after the last value of a `cava` line (as `cava` writes after
/// every bar) changes nothing: `50;125;1000;` gives the values of
/// `50;125;1000`.
pub proof fn trailing_cava_separator_changes_nothing(line: Seq<char>, n: nat)
    requires
        line.len() > 0,
        !is_white(line[0]),
        !is_white(line.last()),
    ensures
        cava_line_spec(line + ";"@, n) == cava_line_spec(line, n),
{
    reveal_strlit(";");
    let l2 = line + ";"@;
    assert(l2[0] == line[0]);
    assert(l2.last() == ';');
    assert(trim_start(line) == line);
    assert(trim_end(line) == line);
    assert(trim_start(l2) == l2);
    assert(trim_end(l2) == l2);
    assert(l2.drop_last() =~= line);
    let parts = split_char(line, ';');
    assert(split_char(l2, ';') == parts.push(Seq::<char>::empty()));
    assert(parts.push(Seq::<char>::empty()) =~= parts.insert(parts.len() as int, Seq::<char>::empty()));
    assert(trim(Seq::<char>::empty()) =~= Seq::<char>::empty());
    blank_cava_pieces_are_skipped(parts, parts.len() as int, Seq::<char>::empty(), n);
}

/// The trimmed pieces of a `cava` line.
pub open spec fn trimmed_pieces(parts: Seq<Seq<char>>) -> Seq<Seq<char>> {
    parts.map_values(|p: Seq<char>| trim(p))
}

proof fn lemma_numbers_in_order(parts: Seq<Seq<char>>, i: int, n: nat)
    requires
        0 <= i <= parts.len(),
        i <= n,
        forall|k: int| 0 <= k < parts.len() ==> trim(#[trigger] parts[k]).len() > 0 && is_float_text(trim(parts[k])),
    ensures
        cava_scan(parts, i, trimmed_pieces(parts).take(i), n) == Some(
            trimmed_pieces(parts).take(if n < parts.len() { n as int } else { parts.len() as int }),
        ),
    decreases parts.len() - i,
{
    let tp = trimmed_pieces(parts);
    if i < parts.len() {
        let t = trim(parts[i]);
        assert(tp[i] == t);
        assert(is_float_text(t));
        if i < n {
            assert(tp.take(i).push(t) =~= tp.take(i + 1));
            lemma_numbers_in_order(parts, i + 1, n);
        }
    } else {
        assert(tp.take(i) =~= tp.take(parts.len() as int));
    }
}

/// A `cava` line of numbers (no blank pieces) gives those numbers, in order, up to the
/// number of bars: the first `n` of them when there are more.
pub proof fn cava_numbers_are_read_in_order(parts: Seq<Seq<char>>, n: nat)
    requires
        forall|k: int| 0 <= k < parts.len() ==> trim(#[trigger] parts[k]).len() > 0 && is_float_text(trim(parts[k])),
    ensures
        cava_scan(parts, 0, Seq::empty(), n) == Some(
            trimmed_pieces(parts).take(if n < parts.len() { n as int } else { parts.len() as int }),
        ),
{
    assert(trimmed_pieces(parts).take(0) =~= Seq::<Seq<char>>::empty());
    lemma_numbers_in_order(parts, 0, n);
}

proof fn lemma_non_number_spoils(parts: Seq<Seq<char>>, i: int, m: int, n: nat)
    requires
        0 <= i <= m < parts.len(),
        m < n,
        trim(parts[m]).len() > 0,
        !is_float_text(trim(parts[m])),
        forall|k: int| 0 <= k < m ==> trim(#[trigger] parts[k]).len() > 0 && is_float_text(trim(parts[k])),
    ensures
        cava_scan(parts, i, trimmed_pieces(parts).take(i), n) is None,
    decreases parts.len() - i,
{
    let tp = trimmed_pieces(parts);
    if i < m {
        let t = trim(parts[i]);
        assert(tp[i] == t);
        assert(is_float_text(t));
        assert(tp.take(i).push(t) =~= tp.take(i + 1));
        lemma_non_number_spoils(parts, i + 1, m, n);
    }
}

/// A piece of a `cava` line that is neither blank nor a number, coming
/// while fewer than `n` numbers were read, spoils the whole line.
pub proof fn a_non_number_spoils_the_cava_line(parts: Seq<Seq<char>>, m: int, n: nat)
    requires
        0 <= m < parts.len(),
        m < n,
        trim(parts[m]).len() > 0,
        !is_float_text(trim(parts[m])),
        forall|k: int| 0 <= k < m ==> trim(#[trigger] parts[k]).len() > 0 && is_float_text(trim(parts[k])),
    ensures
        cava_scan(parts, 0, Seq::empty(), n) is None,
{
    assert(trimmed_pieces(parts).take(0) =~= Seq::<Seq<char>>::empty());
    lemma_non_number_spoils(parts, 0, m, n);
}

proof fn lemma_case_char(c: char)
    ensures
        ascii_lower(ascii_upper(c)) == ascii_lower(c),
        ascii_lower(ascii_lower(c)) == ascii_lower(c),
        is_white(ascii_upper(c)) == is_white(c),
        is_white(ascii_lower(c)) == is_white(c),
{
    if 'a' <= c && c <= 'z' {
        assert((c as u8) as int == c as int);
    }
    if 'A' <= c && c <= 'Z' {
        assert((c as u8) as int == c as int);
    }
}

proof fn lemma_trim_start_upper(s: Seq<char>)
    ensures
        trim_start(upper(s)) == upper(trim_start(s)),
        trim_start(lower(s)) == lower(trim_start(s)),
    decreases s.len(),
{
    if s.len() > 0 {
        lemma_case_char(s[0]);
        assert(upper(s)[0] == ascii_upper(s[0]));
        assert(lower(s)[0] == ascii_lower(s[0]));
        if is_white(s[0]) {
            assert(upper(s).drop_first() =~= upper(s.drop_first()));
            assert(lower(s).drop_first() =~= lower(s.drop_first()));
            lemma_trim_start_upper(s.drop_first());
        }
    } else {
        assert(upper(s) =~= s);
        assert(lower(s) =~= s);
    }
}

proof fn lemma_trim_end_upper(s: Seq<char>)
    ensures
        trim_end(upper(s)) == upper(trim_end(s)),
        trim_end(lower(s)) == lower(trim_end(s)),
    decreases s.len(),
{
    if s.len() > 0 {
        lemma_case_char(s.last());
        assert(upper(s).last() == ascii_upper(s.last()));
        assert(lower(s).last() == ascii_lower(s.last()));
        if is_white(s.last()) {
            assert(upper(s).drop_last() =~= upper(s.drop_last()));
            assert(lower(s).drop_last() =~= lower(s.drop_last()));
            lemma_trim_end_upper(s.drop_last());
        }
    } else {
        assert(upper(s) =~= s);
        assert(lower(s) =~= s);
    }
}

proof fn lemma_trim_start_clean(s: Seq<char>)
    ensures
        trim_start(trim_start(s)) == trim_start(s),
        trim_start(s).len() > 0 ==> !is_white(trim_start(s)[0]),
    decreases s.len(),
{
    if s.len() > 0 && is_white(s[0]) {
        lemma_trim_start_clean(s.drop_first());
    }
}

proof fn lemma_trim_end_prefix(s: Seq<char>)
    ensures
        trim_end(trim_end(s)) == trim_end(s),
        trim_end(s).len() <= s.len(),
        trim_end(s) == s.take(trim_end(s).len() as int),
    decreases s.len(),
{
    if s.len() > 0 && is_white(s.last()) {
        lemma_trim_end_prefix(s.drop_last());
        let r = trim_end(s.drop_last());
        assert(s.drop_last().take(r.len() as int) =~= s.take(r.len() as int));
    } else {
        assert(s.take(s.len() as int) =~= s);
    }
}

/// Names are compared after trimming and ASCII lower-casing: upper-casing,
/// lower-casing or trimming a name does not change the name it is compared
/// as, so `FireFox ` matches an allowed `firefox`.
pub proof fn names_ignore_case_and_spaces(s: Seq<char>)
    ensures
        normalize_name(upper(s)) == normalize_name(s),
        normalize_name(lower(s)) == normalize_name(s),
        normalize_name(trim(s)) == normalize_name(s),
{
    lemma_trim_start_upper(s);
    lemma_trim_end_upper(trim_start(s));
    let t = trim(s);
    assert(lower(upper(t)) =~= lower(t)) by {
        assert forall|i: int| 0 <= i < t.len() implies lower(upper(t))[i] == lower(t)[i] by {
            lemma_case_char(t[i]);
        }
    }
    assert(lower(lower(t)) =~= lower(t)) by {
        assert forall|i: int| 0 <= i < t.len() implies lower(lower(t))[i] == lower(t)[i] by {
            lemma_case_char(t[i]);
        }
    }
    let a = trim_start(s);
    lemma_trim_start_clean(s);
    lemma_trim_end_prefix(a);
    let z = trim_end(a);
    if z.len() > 0 {
        assert(z[0] == a[0]);
    }
    assert(trim_start(z) == z);
}

} // verus!
