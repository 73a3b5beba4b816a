//! The benchmark's inputs: its settings, read from environment values, and
//! the counters it reads from the process tables in `/proc`.
use vstd::prelude::*;
use crate::number::{parse_unsigned, parse_unsigned_chars};
use crate::text::{char_is_white, chars_of, has_prefix, is_white, lines, lines_of, lit, starts_with, sub_chars, trim, trim_chars, views};

verus! {

/// The state of splitting text into words: the words so far and the word
/// being read.
pub struct WordScan {
    pub words: Seq<Seq<char>>,
    pub current: Seq<char>,
}

pub open spec fn word_step(st: WordScan, c: char) -> WordScan {
    if is_white(c) {
        if st.current.len() > 0 {
            WordScan { words: st.words.push(st.current), current: Seq::empty() }
        } else {
            st
        }
    } else {
        WordScan { words: st.words, current: st.current.push(c) }
    }
}

pub open spec fn word_scan(s: Seq<char>) -> WordScan
    decreases s.len(),
{
    if s.len() == 0 {
        WordScan { words: Seq::empty(), current: Seq::empty() }
    } else {
        word_step(word_scan(s.drop_last()), s.last())
    }
}

/// What `str::split_whitespace` yields: the maximal runs of characters
/// that are not white space.
pub open spec fn words(s: Seq<char>) -> Seq<Seq<char>> {
    let st = word_scan(s);
    if st.current.len() > 0 {
        st.words.push(st.current)
    } else {
        st.words
    }
}

/// `str::split_whitespace`.
pub fn words_of(s: &Vec<char>) -> (r: Vec<Vec<char>>)
    ensures
        views(r@) == words(s@),
{
    let mut out: Vec<Vec<char>> = Vec::new();
    let mut cur: Vec<char> = Vec::new();
    let mut i: usize = 0;
    assert(s@.take(0) =~= Seq::<char>::empty());
    assert(views(out@) =~= Seq::<Seq<char>>::empty());
    while i < s.len()
        invariant
            i <= s.len(),
            word_scan(s@.take(i as int)) == (WordScan { words: views(out@), current: cur@ }),
        decreases s.len() - i,
    {
        let c = s[i];
        assert(s@.take(i + 1).drop_last() =~= s@.take(i as int));
        if char_is_white(c) {
            if cur.len() > 0 {
                let ghost before = views(out@);
                let w = cur;
                out.push(w);
                cur = Vec::new();
                assert(views(out@) =~= before.push(w@));
            }
        } else {
            cur.push(c);
        }
        i = i + 1;
    }
    assert(s@.take(s.len() as int) =~= s@);
    if cur.len() > 0 {
        let ghost before = views(out@);
        let w = cur;
        out.push(w);
        assert(views(out@) =~= before.push(w@));
    }
    out
}

/// The first of `ls` from index `i` on that starts with `key`.
pub open spec fn first_starting_with(ls: Seq<Seq<char>>, key: Seq<char>, i: int) -> Option<
    Seq<char>,
>
    decreases ls.len() - i,
{
    if i < 0 || i >= ls.len() {
        None
    } else if starts_with(ls[i], key) {
        Some(ls[i])
    } else {
        first_starting_with(ls, key, i + 1)
    }
}

/// A counter in a `key value unit` table such as `/proc/self/status` or
/// `/proc/self/io`: the first line that starts with `key`, its second
/// word, read as a `u64`.
pub open spec fn table_value(content: Seq<char>, key: Seq<char>) -> Option<u64> {
    match first_starting_with(lines(content), key, 0) {
        Some(line) => {
            let w = words(trim(line));
            if w.len() >= 2 {
                match parse_unsigned(w[1], u64::MAX as nat) {
                    Some(v) => Some(v as u64),
                    None => None,
                }
            } else {
                None
            }
        },
        None => None,
    }
}

fn table_value_chars(content: &Vec<char>, key: &Vec<char>) -> (r: Option<u64>)
    ensures
        r == table_value(content@, key@),
{
    let ls = lines_of(content);
    let ghost l = views(ls@);
    let mut i: usize = 0;
    while i < ls.len()
        invariant
            i <= ls.len(),
            l == views(ls@),
            l == lines(content@),
            first_starting_with(l, key@, 0) == first_starting_with(l, key@, i as int),
        decreases ls.len() - i,
    {
        assert(l[i as int] == ls@[i as int]@);
        if has_prefix(&ls[i], key) {
            let t = trim_chars(&ls[i]);
            let w = words_of(&t);
            if w.len() >= 2 {
                assert(views(w@)[1] == w@[1]@);
                return parse_unsigned_chars(&w[1], u64::MAX);
            }
            return None;
        }
        i = i + 1;
    }
    None
}

/// A counter of `/proc/self/status`, such as `VmRSS:`.
pub fn parse_status_value(content: &str, key: &str) -> (r: Option<u64>)
    ensures
        r == table_value(content@, key@),
{
    table_value_chars(&chars_of(content), &chars_of(key))
}

/// A counter of `/proc/self/io`, such as `read_bytes:`.
pub fn parse_io_value(content: &str, key: &str) -> (r: Option<u64>)
    ensures
        r == table_value(content@, key@),
{
    table_value_chars(&chars_of(content), &chars_of(key))
}

/// The last position of `c` in `s`.
pub open spec fn last_index(s: Seq<char>, c: char) -> Option<int> {
    if exists|k: int| 0 <= k < s.len() && s[k] == c {
        Some(choose|k: int| 0 <= k < s.len() && s[k] == c && forall|j: int| k < j < s.len() ==> s[j] != c)
    } else {
        None
    }
}

fn find_last(s: &Vec<char>, c: char) -> (r: Option<usize>)
    ensures
        match r {
            Some(k) => last_index(s@, c) == Some(k as int),
            None => last_index(s@, c) is None,
        },
        r matches Some(k) ==> k < s.len(),
{
    let mut i: usize = s.len();
    while i > 0
        invariant
            i <= s.len(),
            forall|j: int| i <= j < s.len() ==> s@[j] != c,
        decreases i,
    {
        if s[i - 1] == c {
            let k = i - 1;
            assert(last_index(s@, c) == Some(k as int)) by {
                assert(0 <= k < s@.len() && s@[k as int] == c);
                let m = choose|m: int|
                    0 <= m < s@.len() && s@[m] == c && forall|j: int| m < j < s@.len() ==> s@[j] != c;
                assert(!(m < k));
                assert(!(k < m));
            }
            return Some(k);
        }
        i = i - 1;
    }
    None
}

/// `a + b`, or `u64::MAX` when that does not fit.
pub open spec fn saturating(a: u64, b: u64) -> u64 {
    if a + b <= u64::MAX {
        (a + b) as u64
    } else {
        u64::MAX
    }
}

/// The jiffies this process has spent in user and system mode, from the
/// text of `/proc/self/stat`: the 12th and 13th words after the
/// `)` that ends the command name (and the space after it), added with
/// saturation. Nothing when those words are missing or are not numbers,
/// or when the byte after `)` is missing or is not a whole character.
pub open spec fn proc_jiffies_spec(raw: Seq<char>) -> Option<u64> {
    match last_index(raw, ')') {
        None => None,
        Some(k) => if k + 1 >= raw.len() || (raw[k + 1] as u32) >= 128 {
            None
        } else {
            let f = words(raw.skip(k + 2));
            if f.len() < 13 {
                None
            } else {
                match (parse_unsigned(f[11], u64::MAX as nat), parse_unsigned(f[12], u64::MAX as nat)) {
                    (Some(u), Some(s)) => Some(saturating(u as u64, s as u64)),
                    _ => None,
                }
            }
        },
    }
}

fn add_saturating(a: u64, b: u64) -> (r: u64)
    ensures
        r == saturating(a, b),
{
    if a <= u64::MAX - b {
        a + b
    } else {
        u64::MAX
    }
}

pub fn proc_jiffies_from_stat(raw: &str) -> (r: Option<u64>)
    ensures
        r == proc_jiffies_spec(raw@),
{
    let s = chars_of(raw);
    let k = match find_last(&s, ')') {
        Some(k) => k,
        None => {
            return None;
        },
    };
    if k + 1 >= s.len() || (s[k + 1] as u32) >= 128 {
        return None;
    }
    let rest = sub_chars(&s, k + 2, s.len());
    assert(rest@ =~= s@.skip(k + 2));
    let f = words_of(&rest);
    if f.len() < 13 {
        return None;
    }
    assert(views(f@)[11] == f@[11]@);
    assert(views(f@)[12] == f@[12]@);
    let u = parse_unsigned_chars(&f[11], u64::MAX);
    let st = parse_unsigned_chars(&f[12], u64::MAX);
    match (u, st) {
        (Some(u), Some(st)) => Some(add_saturating(u, st)),
        _ => None,
    }
}

/// Adds up the numbers `ws[i..]` to `acc`, with saturation; nothing when
/// one of them is not a number.
pub open spec fn saturating_sum(ws: Seq<Seq<char>>, i: int, acc: u64) -> Option<u64>
    decreases ws.len() - i,
{
    if i < 0 || i >= ws.len() {
        Some(acc)
    } else {
        match parse_unsigned(ws[i], u64::MAX as nat) {
            None => None,
            Some(v) => saturating_sum(ws, i + 1, saturating(acc, v as u64)),
        }
    }
}

/// The jiffies all processors have spent, from the text of `/proc/stat`:
/// the numbers after `cpu` on its first line, added with saturation.
pub open spec fn total_jiffies_spec(raw: Seq<char>) -> Option<u64> {
    let ls = lines(raw);
    if ls.len() == 0 || !starts_with(ls[0], "cpu "@) {
        None
    } else {
        saturating_sum(words(ls[0]), 1, 0)
    }
}

pub fn total_cpu_jiffies_from_stat(raw: &str) -> (r: Option<u64>)
    ensures
        r == total_jiffies_spec(raw@),
{
    let ls = lines_of(&chars_of(raw));
    if ls.len() == 0 {
        return None;
    }
    assert(views(ls@)[0] == ls@[0]@);
    if !has_prefix(&ls[0], &lit("cpu ")) {
        return None;
    }
    let w = words_of(&ls[0]);
    let ghost wv = views(w@);
    assert(total_jiffies_spec(raw@) == saturating_sum(wv, 1, 0));
    let mut total: u64 = 0;
    let mut i: usize = 1;
    if w.len() == 0 {
        return Some(0);
    }
    while i < w.len()
        invariant
            1 <= i <= w.len(),
            wv == views(w@),
            total_jiffies_spec(raw@) == saturating_sum(wv, 1, 0),
            saturating_sum(wv, 1, 0) == saturating_sum(wv, i as int, total),
        decreases w.len() - i,
    {
        assert(wv[i as int] == w@[i as int]@);
        let v = match parse_unsigned_chars(&w[i], u64::MAX) {
            Some(v) => v,
            None => {
                return None;
            },
        };
        total = add_saturating(total, v);
        i = i + 1;
    }
    Some(total)
}

/// A setting read from the environment: its value as a `u64`, or
/// `default` when it is unset or not a number.
pub open spec fn setting_or(value: Option<Seq<char>>, max: nat, default: nat) -> nat {
    match value {
        Some(v) => match parse_unsigned(v, max) {
            Some(n) => n,
            None => default,
        },
        None => default,
    }
}

pub open spec fn str_view(value: Option<&str>) -> Option<Seq<char>> {
    match value {
        Some(v) => Some(v@),
        None => None,
    }
}

pub fn env_u64_or(value: Option<&str>, default: u64) -> (r: u64)
    ensures
        r == setting_or(str_view(value), u64::MAX as nat, default as nat),
{
    match value {
        Some(v) => match parse_unsigned_chars(&chars_of(v), u64::MAX) {
            Some(n) => n,
            None => default,
        },
        None => default,
    }
}

pub fn env_usize_or(value: Option<&str>, default: usize) -> (r: usize)
    ensures
        r == setting_or(str_view(value), usize::MAX as nat, default as nat),
{
    match value {
        Some(v) => match parse_unsigned_chars(&chars_of(v), usize::MAX as u64) {
            Some(n) => n as usize,
            None => default,
        },
        None => default,
    }
}

pub const DEFAULT_PARSE_ITERATIONS: u64 = 3_000_000;

pub const DEFAULT_DUMMY_ITERATIONS: u64 = 900_000;

pub const DEFAULT_BAR_COUNT: usize = 120;

/// How much work the benchmark does.
#[derive(Clone, Copy, Debug)]
pub struct BenchmarkConfig {
    pub parse_iterations: u64,
    pub dummy_iterations: u64,
    pub bar_count: usize,
}

impl BenchmarkConfig {
    /// The settings from the values of `CAVAII_BENCH_PARSE_ITERS`,
    /// `CAVAII_BENCH_DUMMY_ITERS` and `CAVAII_BENCH_BAR_COUNT`: each falls
    /// back to its default, and the bar count is at least 1.
    pub fn from_values(parse_iters: Option<&str>, dummy_iters: Option<&str>, bar_count: Option<&str>) -> (c: BenchmarkConfig)
        ensures
            c.parse_iterations == setting_or(
                str_view(parse_iters),
                u64::MAX as nat,
                DEFAULT_PARSE_ITERATIONS as nat,
            ),
            c.dummy_iterations == setting_or(
                str_view(dummy_iters),
                u64::MAX as nat,
                DEFAULT_DUMMY_ITERATIONS as nat,
            ),
            c.bar_count == (if setting_or(str_view(bar_count), usize::MAX as nat, DEFAULT_BAR_COUNT as nat) >= 1 {
                setting_or(str_view(bar_count), usize::MAX as nat, DEFAULT_BAR_COUNT as nat)
            } else {
                1
            }),
    {
        let b = env_usize_or(bar_count, DEFAULT_BAR_COUNT);
        BenchmarkConfig {
            parse_iterations: env_u64_or(parse_iters, DEFAULT_PARSE_ITERATIONS),
            dummy_iterations: env_u64_or(dummy_iters, DEFAULT_DUMMY_ITERATIONS),
            bar_count: if b >= 1 {
                b
            } else {
                1
            },
        }
    }
}

} // verus!
