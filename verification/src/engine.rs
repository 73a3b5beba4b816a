//! The frame sources' decisions and decoders: which source is tried after
//! which, the configuration handed to `cava`, and the bar values read back
//! from its ASCII lines and raw 16-bit frames.
//!
//! Bar values are turned into floating-point levels by the programs: an
//! ASCII value `v` stands for `v / 1000` and a raw value `r` for
//! `r / 65535`, each clamped to [0, 1].
use vstd::prelude::*;
use crate::config::{NumberText, VisualizerBackend};
use crate::number::{decimal_chars, decimal_text, float_text_ok, is_float_text};
use crate::text::{chars_of, lit, split_char, split_on, string_of, trim, trim_chars, views};
use crate::values::cat;

verus! {

/// The source that feeds frames to the overlay.
#[derive(Clone, Copy, Debug, PartialEq, Eq, Structural)]
pub enum SourceKind {
    Pipewire,
    Cava,
    Dummy,
}

/// The sources to try, in order, for a configured backend; the dummy
/// source always starts, so it comes last.
pub open spec fn source_order_spec(backend: VisualizerBackend) -> Seq<SourceKind> {
    match backend {
        VisualizerBackend::Dummy => seq![SourceKind::Dummy],
        VisualizerBackend::Pipewire => seq![SourceKind::Pipewire, SourceKind::Cava, SourceKind::Dummy],
        VisualizerBackend::Cava => seq![SourceKind::Cava, SourceKind::Pipewire, SourceKind::Dummy],
        VisualizerBackend::Auto => seq![SourceKind::Cava, SourceKind::Pipewire, SourceKind::Dummy],
    }
}

pub fn source_order(backend: VisualizerBackend) -> (v: Vec<SourceKind>)
    ensures
        v@ == source_order_spec(backend),
{
    let mut v: Vec<SourceKind> = Vec::new();
    match backend {
        VisualizerBackend::Dummy => {},
        VisualizerBackend::Pipewire => {
            v.push(SourceKind::Pipewire);
            v.push(SourceKind::Cava);
        },
        VisualizerBackend::Cava | VisualizerBackend::Auto => {
            v.push(SourceKind::Cava);
            v.push(SourceKind::Pipewire);
        },
    }
    v.push(SourceKind::Dummy);
    assert(v@ =~= source_order_spec(backend));
    v
}

/// The number of bars a stream produces: the configured count, at least 1.
pub fn stream_bar_count(bars: usize) -> (n: usize)
    ensures
        n == (if bars >= 1 {
            bars
        } else {
            1
        }),
{
    if bars >= 1 {
        bars
    } else {
        1
    }
}

/// The frame rate a stream runs at: the configured rate, at least 1.
pub fn stream_framerate(framerate: u32) -> (f: u32)
    ensures
        f == (if framerate >= 1 {
            framerate
        } else {
            1
        }),
{
    if framerate >= 1 {
        framerate
    } else {
        1
    }
}

/// The pause between two frames, in milliseconds: a second divided
/// by the frame rate (taken as at least 1), and at least 1 ms.
pub open spec fn frame_delay(framerate: u32) -> int {
    let f: int = if framerate >= 1 {
        framerate as int
    } else {
        1
    };
    if 1000int / f >= 1 {
        1000int / f
    } else {
        1
    }
}

pub fn frame_interval_ms(framerate: u32) -> (ms: u64)
    ensures
        ms == frame_delay(framerate),
        1 <= ms <= 1000,
{
    let f = stream_framerate(framerate) as u64;
    let d = 1000 / f;
    if d >= 1 {
        d
    } else {
        1
    }
}

/// The `cava` configuration for `bars` bars at `framerate` frames per
/// second; `tail` selects the output format.
pub open spec fn cava_config_text(bars: nat, framerate: nat, tail: Seq<char>) -> Seq<char> {
    "[general]\nbars = "@ + decimal_text(bars) + "\nframerate = "@ + decimal_text(framerate)
        + "\n\n[input]\nmethod = pulse\nsource = auto\n\n[output]\nmethod = raw\nraw_target = /dev/stdout\n"@
        + tail
}

/// The output settings for ASCII frames: values 0 to 1000, separated by
/// `;`, one frame per line.
pub open spec fn cava_ascii_tail() -> Seq<char> {
    "data_format = ascii\nascii_max_range = 1000\nbar_delimiter = 59\nframe_delimiter = 10\n"@
}

/// The output settings for raw frames of 16-bit values.
pub open spec fn cava_binary_tail() -> Seq<char> {
    "data_format = binary\nbit_format = 16bit\n"@
}

fn cava_config(bars: usize, framerate: u32, tail: &str) -> (s: String)
    ensures
        s@ == cava_config_text(bars as nat, framerate as nat, tail@),
{
    let a = cat(&lit("[general]\nbars = "), &decimal_chars(bars as u64));
    let b = cat(&a, &lit("\nframerate = "));
    let c = cat(&b, &decimal_chars(framerate as u64));
    let d = cat(
        &c,
        &lit(
            "\n\n[input]\nmethod = pulse\nsource = auto\n\n[output]\nmethod = raw\nraw_target = /dev/stdout\n",
        ),
    );
    string_of(&cat(&d, &lit(tail)))
}

/// The `cava` configuration for ASCII output.
pub fn cava_ascii_config(bars: usize, framerate: u32) -> (s: String)
    ensures
        s@ == cava_config_text(bars as nat, framerate as nat, cava_ascii_tail()),
{
    cava_config(
        bars,
        framerate,
        "data_format = ascii\nascii_max_range = 1000\nbar_delimiter = 59\nframe_delimiter = 10\n",
    )
}

/// The `cava` configuration for raw 16-bit output.
pub fn cava_binary_config(bars: usize, framerate: u32) -> (s: String)
    ensures
        s@ == cava_config_text(bars as nat, framerate as nat, cava_binary_tail()),
{
    cava_config(bars, framerate, "data_format = binary\nbit_format = 16bit\n")
}

/// Reading the `;`-separated pieces of an ASCII line from piece `i` on,
/// with `got` values so far, for `n` bars: empty pieces are skipped, a
/// piece that is no number spoils the line, and once `n` values are read
/// the next number ends the reading.
pub open spec fn cava_scan(parts: Seq<Seq<char>>, i: int, got: Seq<Seq<char>>, n: nat) -> Option<
    Seq<Seq<char>>,
>
    decreases parts.len() - i,
{
    if i < 0 || i >= parts.len() {
        Some(got)
    } else {
        let t = trim(parts[i]);
        if t.len() == 0 {
            cava_scan(parts, i + 1, got, n)
        } else if !is_float_text(t) {
            None
        } else if got.len() < n {
            cava_scan(parts, i + 1, got.push(t), n)
        } else {
            Some(got)
        }
    }
}

/// The bar values of an ASCII line for `n` bars, as the numbers' texts:
/// nothing for no bars, a spoiled line, or a line without values. Bars
/// beyond the values read are 0.
pub open spec fn cava_line_spec(line: Seq<char>, n: nat) -> Option<Seq<Seq<char>>> {
    if n == 0 {
        None
    } else {
        match cava_scan(split_char(trim(line), ';'), 0, Seq::empty(), n) {
            Some(g) => if g.len() > 0 {
                Some(g)
            } else {
                None
            },
            None => None,
        }
    }
}

pub open spec fn number_texts(v: Seq<NumberText>) -> Seq<Seq<char>> {
    v.map_values(|t: NumberText| t.text@)
}

/// The bar values of one line of `cava`'s ASCII output, for `bars` bars.
pub fn cava_line_values(line: &str, bars: usize) -> (r: Option<Vec<NumberText>>)
    ensures
        match r {
            Some(v) => cava_line_spec(line@, bars as nat) == Some(number_texts(v@)),
            None => cava_line_spec(line@, bars as nat) is None,
        },
        r matches Some(v) ==> 1 <= v.len() <= bars,
        r matches Some(v) ==> forall|i: int| 0 <= i < v.len() ==> (#[trigger] v@[i]).wf(),
{
    if bars == 0 {
        return None;
    }
    let parts = split_on(&trim_chars(&chars_of(line)), ';');
    let ghost ps = views(parts@);
    let mut got: Vec<NumberText> = Vec::new();
    let mut i: usize = 0;
    assert(number_texts(got@) =~= Seq::<Seq<char>>::empty());
    while i < parts.len()
        invariant_except_break
            i <= parts.len(),
            ps == views(parts@),
            ps == split_char(trim(line@), ';'),
            got.len() <= bars,
            forall|j: int| 0 <= j < got.len() ==> (#[trigger] got@[j]).wf(),
            cava_scan(ps, 0, Seq::empty(), bars as nat) == cava_scan(ps, i as int, number_texts(got@), bars as nat),
        ensures
            ps == views(parts@),
            ps == split_char(trim(line@), ';'),
            got.len() <= bars,
            forall|j: int| 0 <= j < got.len() ==> (#[trigger] got@[j]).wf(),
            cava_scan(ps, 0, Seq::empty(), bars as nat) == Some(number_texts(got@)),
        decreases parts.len() - i,
    {
        assert(ps[i as int] == parts@[i as int]@);
        let t = trim_chars(&parts[i]);
        if t.len() == 0 {
            i = i + 1;
        } else if !float_text_ok(&t) {
            return None;
        } else if got.len() < bars {
            let ghost before = number_texts(got@);
            got.push(NumberText { text: string_of(&t) });
            assert(number_texts(got@) =~= before.push(t@));
            i = i + 1;
        } else {
            break;
        }
    }
    if got.len() == 0 {
        return None;
    }
    Some(got)
}

/// A raw `cava` frame for `bars` bars: one little-endian 16-bit value per
/// bar; nothing for no bars or a frame too short.
pub open spec fn raw_frame_spec(frame: Seq<u8>, bars: nat) -> Option<Seq<u16>> {
    if bars == 0 || frame.len() < 2 * bars {
        None
    } else {
        Some(Seq::new(bars, |i: int| (frame[2 * i] + 256 * frame[2 * i + 1]) as u16))
    }
}

/// Decodes a raw `cava` frame.
pub fn cava_raw_frame_values(frame: &[u8], bars: usize) -> (r: Option<Vec<u16>>)
    ensures
        match r {
            Some(v) => raw_frame_spec(frame@, bars as nat) == Some(v@),
            None => raw_frame_spec(frame@, bars as nat) is None,
        },
{
    if bars == 0 || frame.len() / 2 < bars {
        return None;
    }
    let mut v: Vec<u16> = Vec::new();
    let mut i: usize = 0;
    while i < bars
        invariant
            i <= bars,
            2 * bars <= frame.len(),
            v.len() == i,
            forall|j: int| 0 <= j < i ==> v@[j] == (frame@[2 * j] + 256 * frame@[2 * j + 1]) as u16,
        decreases bars - i,
    {
        let lo = frame[2 * i] as u16;
        let hi = frame[2 * i + 1] as u16;
        v.push(lo + 256 * hi);
        i = i + 1;
    }
    assert(v@ =~= Seq::new(bars as nat, |j: int| (frame@[2 * j] + 256 * frame@[2 * j + 1]) as u16));
    Some(v)
}

/// The bar a sample frame falls in when `frame_count` frames are spread
/// evenly over `bars` bars.
pub fn frame_bin(frame_idx: usize, frame_count: usize, bars: usize) -> (b: usize)
    requires
        frame_idx < frame_count,
        frame_idx * bars <= usize::MAX,
    ensures
        b == (frame_idx * bars) / (frame_count as int),
        bars > 0 ==> b < bars,
{
    let p = frame_idx * bars;
    proof {
        if bars > 0 {
            assert(frame_idx * bars < frame_count * bars) by (nonlinear_arith)
                requires
                    frame_idx < frame_count,
                    bars > 0,
            ;
            assert((frame_idx * bars) / (frame_count as int) < bars as int) by (nonlinear_arith)
                requires
                    frame_idx * bars < frame_count * bars,
                    frame_count > 0,
            ;
        }
    }
    p / frame_count
}

/// How many bytes of a buffer of `len` bytes make whole records of
/// `stride` bytes; the rest waits for more input.
pub fn whole_records_len(len: usize, stride: usize) -> (n: usize)
    requires
        stride > 0,
    ensures
        n == len - len % stride,
        n <= len,
        n % stride == 0,
        len - n < stride,
{
    let r = len % stride;
    assert(r <= len) by (nonlinear_arith)
        requires
            stride > 0,
            r == len % stride,
    ;
    let n = len - r;
    proof {
        vstd::arithmetic::div_mod::lemma_fundamental_div_mod(len as int, stride as int);
        vstd::arithmetic::div_mod::lemma_mod_multiples_basic((len / stride) as int, stride as int);
        assert(n == stride * (len / stride));
        vstd::arithmetic::mul::lemma_mul_is_commutative(stride as int, (len / stride) as int);
    }
    n
}

/// Milliseconds since the Unix epoch as a `u64`: the clock's reading,
/// saturated, or 0 when the clock is before the epoch.
pub fn millis_u64(since_epoch: Option<u128>) -> (ms: u64)
    ensures
        ms == match since_epoch {
            Some(m) => if m <= u64::MAX {
                m as u64
            } else {
                u64::MAX
            },
            None => 0,
        },
{
    match since_epoch {
        Some(m) => if m <= u64::MAX as u128 {
            m as u64
        } else {
            u64::MAX
        },
        None => 0,
    }
}

/// Milliseconds from the Unix epoch to now, when the clock is after it.
/// Nothing is said of the reading.
#[verifier::external_body]
fn millis_since_epoch() -> Option<u128> {
    match std::time::SystemTime::now().duration_since(std::time::UNIX_EPOCH) {
        Ok(d) => Some(d.as_millis()),
        Err(_) => None,
    }
}

/// The current time in milliseconds since the Unix epoch, 0 when the clock
/// is before it.
pub fn now_millis() -> u64 {
    millis_u64(millis_since_epoch())
}

} // verus!
