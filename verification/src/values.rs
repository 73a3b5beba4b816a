//! Reading single setting values: the value text after `=` (comments,
//! separators, quotes), array brackets that continue a value on later
//! lines, lists of strings, and the scalar and keyword values.
use vstd::prelude::*;
use crate::config::{ColorOrientation, OverlayLayer, VisualizerBackend, VisualizerType};
use crate::number::{
    decimal_text, float_text_ok, is_float_text, parse_unsigned, parse_unsigned_chars, same_chars,
};
use crate::text::{lit, split_char, split_on, sub_chars, trim, trim_chars, views};

verus! {

/// `a` followed by `b`.
pub fn cat(a: &Vec<char>, b: &Vec<char>) -> (r: Vec<char>)
    ensures
        r@ == a@ + b@,
{
    let mut r = a.clone();
    assert(r@ =~= a@);
    let mut i: usize = 0;
    while i < b.len()
        invariant
            i <= b.len(),
            r@ == a@ + b@.take(i as int),
        decreases b.len() - i,
    {
        r.push(b[i]);
        i = i + 1;
        assert(r@ =~= a@ + b@.take(i as int));
    }
    assert(b@.take(b.len() as int) =~= b@);
    r
}

/// The message `prefix` followed by `x`.
pub fn msg2(prefix: &str, x: &Vec<char>) -> (r: Vec<char>)
    ensures
        r@ == prefix@ + x@,
{
    cat(&lit(prefix), x)
}

/// The message `prefix`, `x`, `middle`, `y`.
pub fn msg4(prefix: &str, x: &Vec<char>, middle: &str, y: &Vec<char>) -> (r: Vec<char>)
    ensures
        r@ == prefix@ + x@ + middle@ + y@,
{
    let a = cat(&lit(prefix), x);
    let b = cat(&a, &lit(middle));
    cat(&b, y)
}

/// The prefix that ties a message to a line of the file.
pub open spec fn line_prefix(line_no: nat) -> Seq<char> {
    "line "@ + decimal_text(line_no) + ": "@
}

pub fn line_prefix_chars(line_no: u64) -> (r: Vec<char>)
    ensures
        r@ == line_prefix(line_no as nat),
{
    let d = crate::number::decimal_chars(line_no);
    let a = msg2("line ", &d);
    cat(&a, &lit(": "))
}

/// `OverlayLayer::parse`.
pub open spec fn overlay_layer_spec(v: Seq<char>) -> Result<OverlayLayer, Seq<char>> {
    if v == "background"@ {
        Ok(OverlayLayer::Background)
    } else if v == "bottom"@ {
        Ok(OverlayLayer::Bottom)
    } else if v == "top"@ {
        Ok(OverlayLayer::Top)
    } else {
        Err("unknown overlay.layer value: "@ + v)
    }
}

/// `VisualizerBackend::parse`.
pub open spec fn backend_spec(v: Seq<char>) -> Result<VisualizerBackend, Seq<char>> {
    if v == "auto"@ {
        Ok(VisualizerBackend::Auto)
    } else if v == "pipewire"@ {
        Ok(VisualizerBackend::Pipewire)
    } else if v == "cava"@ {
        Ok(VisualizerBackend::Cava)
    } else if v == "dummy"@ {
        Ok(VisualizerBackend::Dummy)
    } else {
        Err("unknown visualizer.backend value: "@ + v)
    }
}

/// `VisualizerType::parse`: `bars` (or `bar`) and `wave`.
pub open spec fn visualizer_type_spec(v: Seq<char>) -> Result<VisualizerType, Seq<char>> {
    if v == "bar"@ || v == "bars"@ {
        Ok(VisualizerType::Bar)
    } else if v == "wave"@ {
        Ok(VisualizerType::Wave)
    } else {
        Err("unknown visualizer.type value: "@ + v)
    }
}

/// `ColorOrientation::parse`: `vertical`, `horizontal` or `height`.
pub open spec fn orientation_spec(v: Seq<char>) -> Result<ColorOrientation, Seq<char>> {
    if v == "vertical"@ {
        Ok(ColorOrientation::Vertical)
    } else if v == "horizontal"@ {
        Ok(ColorOrientation::Horizontal)
    } else if v == "height"@ {
        Ok(ColorOrientation::Height)
    } else {
        Err("unknown color.orientation value: "@ + v)
    }
}

impl OverlayLayer {
    pub fn parse(value: &Vec<char>) -> (r: Result<OverlayLayer, Vec<char>>)
        ensures
            match r {
                Ok(l) => overlay_layer_spec(value@) == Ok::<OverlayLayer, Seq<char>>(l),
                Err(m) => overlay_layer_spec(value@) == Err::<OverlayLayer, Seq<char>>(m@),
            },
    {
        if same_chars(value, &lit("background")) {
            Ok(OverlayLayer::Background)
        } else if same_chars(value, &lit("bottom")) {
            Ok(OverlayLayer::Bottom)
        } else if same_chars(value, &lit("top")) {
            Ok(OverlayLayer::Top)
        } else {
            Err(msg2("unknown overlay.layer value: ", value))
        }
    }
}

impl VisualizerBackend {
    pub fn parse(value: &Vec<char>) -> (r: Result<VisualizerBackend, Vec<char>>)
        ensures
            match r {
                Ok(b) => backend_spec(value@) == Ok::<VisualizerBackend, Seq<char>>(b),
                Err(m) => backend_spec(value@) == Err::<VisualizerBackend, Seq<char>>(m@),
            },
    {
        if same_chars(value, &lit("auto")) {
            Ok(VisualizerBackend::Auto)
        } else if same_chars(value, &lit("pipewire")) {
            Ok(VisualizerBackend::Pipewire)
        } else if same_chars(value, &lit("cava")) {
            Ok(VisualizerBackend::Cava)
        } else if same_chars(value, &lit("dummy")) {
            Ok(VisualizerBackend::Dummy)
        } else {
            Err(msg2("unknown visualizer.backend value: ", value))
        }
    }
}

impl VisualizerType {
    pub fn parse(value: &Vec<char>) -> (r: Result<VisualizerType, Vec<char>>)
        ensures
            match r {
                Ok(t) => visualizer_type_spec(value@) == Ok::<VisualizerType, Seq<char>>(t),
                Err(m) => visualizer_type_spec(value@) == Err::<VisualizerType, Seq<char>>(m@),
            },
    {
        if same_chars(value, &lit("bar")) || same_chars(value, &lit("bars")) {
            Ok(VisualizerType::Bar)
        } else if same_chars(value, &lit("wave")) {
            Ok(VisualizerType::Wave)
        } else {
            Err(msg2("unknown visualizer.type value: ", value))
        }
    }
}

impl ColorOrientation {
    pub fn parse(value: &Vec<char>) -> (r: Result<ColorOrientation, Vec<char>>)
        ensures
            match r {
                Ok(o) => orientation_spec(value@) == Ok::<ColorOrientation, Seq<char>>(o),
                Err(m) => orientation_spec(value@) == Err::<ColorOrientation, Seq<char>>(m@),
            },
    {
        if same_chars(value, &lit("vertical")) {
            Ok(ColorOrientation::Vertical)
        } else if same_chars(value, &lit("horizontal")) {
            Ok(ColorOrientation::Horizontal)
        } else if same_chars(value, &lit("height")) {
            Ok(ColorOrientation::Height)
        } else {
            Err(msg2("unknown color.orientation value: ", value))
        }
    }
}

/// An unsigned setting no larger than `max`; `kind` names its type in the
/// error message.
pub open spec fn unsigned_spec(kind: Seq<char>, max: nat, key: Seq<char>, value: Seq<char>) -> Result<
    nat,
    Seq<char>,
> {
    match parse_unsigned(value, max) {
        Some(v) => Ok(v),
        None => Err("invalid "@ + kind + " for "@ + key + ": "@ + value),
    }
}

fn parse_unsigned_setting(kind: &str, max: u64, key: &Vec<char>, value: &Vec<char>) -> (r: Result<
    u64,
    Vec<char>,
>)
    ensures
        match r {
            Ok(v) => unsigned_spec(kind@, max as nat, key@, value@) == Ok::<nat, Seq<char>>(v as nat),
            Err(m) => unsigned_spec(kind@, max as nat, key@, value@) == Err::<nat, Seq<char>>(m@),
        },
{
    match parse_unsigned_chars(value, max) {
        Some(v) => Ok(v),
        None => {
            let a = msg4("invalid ", &lit(kind), " for ", key);
            let b = cat(&a, &lit(": "));
            Err(cat(&b, value))
        },
    }
}

/// A `u32` setting.
pub fn parse_u32(key: &Vec<char>, value: &Vec<char>) -> (r: Result<u32, Vec<char>>)
    ensures
        match r {
            Ok(v) => unsigned_spec("u32"@, u32::MAX as nat, key@, value@) == Ok::<nat, Seq<char>>(
                v as nat,
            ),
            Err(m) => unsigned_spec("u32"@, u32::MAX as nat, key@, value@) == Err::<nat, Seq<char>>(
                m@,
            ),
        },
{
    match parse_unsigned_setting("u32", u32::MAX as u64, key, value) {
        Ok(v) => Ok(v as u32),
        Err(m) => Err(m),
    }
}

/// A `usize` setting.
pub fn parse_usize(key: &Vec<char>, value: &Vec<char>) -> (r: Result<usize, Vec<char>>)
    ensures
        match r {
            Ok(v) => unsigned_spec("usize"@, usize::MAX as nat, key@, value@) == Ok::<
                nat,
                Seq<char>,
            >(v as nat),
            Err(m) => unsigned_spec("usize"@, usize::MAX as nat, key@, value@) == Err::<
                nat,
                Seq<char>,
            >(m@),
        },
{
    match parse_unsigned_setting("usize", usize::MAX as u64, key, value) {
        Ok(v) => Ok(v as usize),
        Err(m) => Err(m),
    }
}

/// A `u64` setting.
pub fn parse_u64(key: &Vec<char>, value: &Vec<char>) -> (r: Result<u64, Vec<char>>)
    ensures
        match r {
            Ok(v) => unsigned_spec("u64"@, u64::MAX as nat, key@, value@) == Ok::<nat, Seq<char>>(
                v as nat,
            ),
            Err(m) => unsigned_spec("u64"@, u64::MAX as nat, key@, value@) == Err::<nat, Seq<char>>(
                m@,
            ),
        },
{
    parse_unsigned_setting("u64", u64::MAX, key, value)
}

/// A number setting that the programs read as a 32-bit float: the value's
/// text when it has that syntax.
pub open spec fn number_spec(key: Seq<char>, value: Seq<char>) -> Result<Seq<char>, Seq<char>> {
    if is_float_text(value) {
        Ok(value)
    } else {
        Err("invalid f32 for "@ + key + ": "@ + value)
    }
}

pub fn parse_f32(key: &Vec<char>, value: &Vec<char>) -> (r: Result<Vec<char>, Vec<char>>)
    ensures
        match r {
            Ok(v) => number_spec(key@, value@) == Ok::<Seq<char>, Seq<char>>(v@),
            Err(m) => number_spec(key@, value@) == Err::<Seq<char>, Seq<char>>(m@),
        },
{
    if float_text_ok(value) {
        Ok(value.clone())
    } else {
        Err(msg4("invalid f32 for ", key, ": ", value))
    }
}

/// A boolean setting: `true`, `1` or `enabled`; `false`, `0` or `disabled`.
pub open spec fn bool_spec(key: Seq<char>, value: Seq<char>) -> Result<bool, Seq<char>> {
    if value == "true"@ || value == "1"@ || value == "enabled"@ {
        Ok(true)
    } else if value == "false"@ || value == "0"@ || value == "disabled"@ {
        Ok(false)
    } else {
        Err("invalid bool for "@ + key + ": "@ + value)
    }
}

pub fn parse_bool(key: &Vec<char>, value: &Vec<char>) -> (r: Result<bool, Vec<char>>)
    ensures
        match r {
            Ok(b) => bool_spec(key@, value@) == Ok::<bool, Seq<char>>(b),
            Err(m) => bool_spec(key@, value@) == Err::<bool, Seq<char>>(m@),
        },
{
    if same_chars(value, &lit("true")) || same_chars(value, &lit("1")) || same_chars(
        value,
        &lit("enabled"),
    ) {
        Ok(true)
    } else if same_chars(value, &lit("false")) || same_chars(value, &lit("0")) || same_chars(
        value,
        &lit("disabled"),
    ) {
        Ok(false)
    } else {
        Err(msg4("invalid bool for ", key, ": ", value))
    }
}

/// A string setting: its trimmed text, or nothing when that is empty.
pub open spec fn optional_string_spec(value: Seq<char>) -> Option<Seq<char>> {
    if trim(value).len() == 0 {
        None
    } else {
        Some(trim(value))
    }
}

pub fn parse_optional_string(value: &Vec<char>) -> (r: Option<Vec<char>>)
    ensures
        match r {
            Some(v) => optional_string_spec(value@) == Some(v@),
            None => optional_string_spec(value@) is None,
        },
{
    let t = trim_chars(value);
    if t.len() == 0 {
        None
    } else {
        Some(t)
    }
}

/// `s` without leading characters `c`.
pub open spec fn strip_lead(s: Seq<char>, c: char) -> Seq<char>
    decreases s.len(),
{
    if s.len() > 0 && s[0] == c {
        strip_lead(s.drop_first(), c)
    } else {
        s
    }
}

/// `s` without trailing characters `c`.
pub open spec fn strip_trail(s: Seq<char>, c: char) -> Seq<char>
    decreases s.len(),
{
    if s.len() > 0 && s.last() == c {
        strip_trail(s.drop_last(), c)
    } else {
        s
    }
}

/// `str::trim_matches` with one character.
pub open spec fn trim_char(s: Seq<char>, c: char) -> Seq<char> {
    strip_trail(strip_lead(s, c), c)
}

/// `str::trim_end_matches([',', ';'])`.
pub open spec fn trim_end_seps(s: Seq<char>) -> Seq<char>
    decreases s.len(),
{
    if s.len() > 0 && (s.last() == ',' || s.last() == ';') {
        trim_end_seps(s.drop_last())
    } else {
        s
    }
}

pub fn trim_char_chars(s: &Vec<char>, c: char) -> (r: Vec<char>)
    ensures
        r@ == trim_char(s@, c),
{
    let n = s.len();
    let mut lo: usize = 0;
    assert(s@.subrange(0, n as int) =~= s@);
    while lo < n && s[lo] == c
        invariant
            lo <= n == s.len(),
            strip_lead(s@, c) == strip_lead(s@.subrange(lo as int, n as int), c),
        decreases n - lo,
    {
        assert(s@.subrange(lo as int, n as int).drop_first() =~= s@.subrange(lo + 1, n as int));
        lo = lo + 1;
    }
    let mut hi: usize = n;
    while hi > lo && s[hi - 1] == c
        invariant
            lo <= hi <= n == s.len(),
            trim_char(s@, c) == strip_trail(s@.subrange(lo as int, hi as int), c),
        decreases hi,
    {
        assert(s@.subrange(lo as int, hi as int).drop_last() =~= s@.subrange(lo as int, hi - 1));
        hi = hi - 1;
    }
    sub_chars(s, lo, hi)
}

pub fn trim_end_seps_chars(s: &Vec<char>) -> (r: Vec<char>)
    ensures
        r@ == trim_end_seps(s@),
{
    let mut hi: usize = s.len();
    assert(s@.subrange(0, hi as int) =~= s@);
    while hi > 0 && (s[hi - 1] == ',' || s[hi - 1] == ';')
        invariant
            hi <= s.len(),
            trim_end_seps(s@) == trim_end_seps(s@.subrange(0, hi as int)),
        decreases hi,
    {
        assert(s@.subrange(0, hi as int).drop_last() =~= s@.subrange(0, hi - 1));
        hi = hi - 1;
    }
    sub_chars(s, 0, hi)
}

/// A value without its enclosing `[` and `]`, when it has both.
pub open spec fn unbracket(t: Seq<char>) -> Seq<char> {
    if t.len() >= 2 && t[0] == '[' && t.last() == ']' {
        t.subrange(1, t.len() - 1)
    } else {
        t
    }
}

pub fn unbracket_chars(t: &Vec<char>) -> (r: Vec<char>)
    ensures
        r@ == unbracket(t@),
{
    if t.len() >= 2 && t[0] == '[' && t[t.len() - 1] == ']' {
        sub_chars(t, 1, t.len() - 1)
    } else {
        t.clone()
    }
}

/// One entry of a string list: trimmed, then without surrounding double
/// and then single quotes, then trimmed again.
pub open spec fn list_item(p: Seq<char>) -> Seq<char> {
    trim(trim_char(trim_char(trim(p), '"'), '\''))
}

/// A list of strings, written `[a, "b", 'c']` or without the brackets;
/// empty entries are dropped.
pub open spec fn string_list_spec(value: Seq<char>) -> Seq<Seq<char>> {
    let t = trim(value);
    if t.len() == 0 {
        Seq::empty()
    } else {
        split_char(unbracket(t), ',').map_values(|p: Seq<char>| list_item(p)).filter(
            |x: Seq<char>| x.len() > 0,
        )
    }
}

pub fn parse_string_list(value: &Vec<char>) -> (r: Vec<Vec<char>>)
    ensures
        views(r@) == string_list_spec(value@),
{
    let t = trim_chars(value);
    if t.len() == 0 {
        let r: Vec<Vec<char>> = Vec::new();
        assert(views(r@) =~= Seq::<Seq<char>>::empty());
        return r;
    }
    let inner = unbracket_chars(&t);
    let parts = split_on(&inner, ',');
    let ghost mapped = views(parts@).map_values(|p: Seq<char>| list_item(p));
    let ghost keep = |x: Seq<char>| x.len() > 0;
    let mut out: Vec<Vec<char>> = Vec::new();
    let mut i: usize = 0;
    assert(mapped.take(0) =~= Seq::<Seq<char>>::empty());
    proof {
        reveal_with_fuel(Seq::filter, 1);
    }
    while i < parts.len()
        invariant
            i <= parts.len(),
            mapped == views(parts@).map_values(|p: Seq<char>| list_item(p)),
            keep == (|x: Seq<char>| x.len() > 0),
            views(out@) == mapped.take(i as int).filter(keep),
        decreases parts.len() - i,
    {
        let a = trim_chars(&parts[i]);
        let b = trim_char_chars(&a, '"');
        let c = trim_char_chars(&b, '\'');
        let item = trim_chars(&c);
        assert(item@ == mapped[i as int]);
        let ghost before = views(out@);
        let ghost pre = mapped.take(i as int);
        assert(mapped.take(i + 1).drop_last() =~= pre);
        proof {
            reveal_with_fuel(Seq::filter, 1);
        }
        if item.len() > 0 {
            out.push(item);
            assert(views(out@) =~= before.push(mapped[i as int]));
        }
        i = i + 1;
    }
    assert(mapped.take(parts.len() as int) =~= mapped);
    out
}

/// The value text with any comment removed: a `#` outside double quotes
/// ends it; a backslash escapes the next double quote.
pub struct CommentScan {
    pub in_quotes: bool,
    pub escaped: bool,
    pub out: Seq<char>,
    pub stopped: bool,
}

pub open spec fn comment_step(st: CommentScan, ch: char) -> CommentScan {
    if st.stopped {
        st
    } else if ch == '"' && !st.escaped {
        CommentScan { in_quotes: !st.in_quotes, out: st.out.push(ch), ..st }
    } else if ch == '#' && !st.in_quotes {
        CommentScan { stopped: true, ..st }
    } else {
        CommentScan { escaped: ch == '\\' && !st.escaped, out: st.out.push(ch), ..st }
    }
}

pub open spec fn comment_scan(s: Seq<char>) -> CommentScan
    decreases s.len(),
{
    if s.len() == 0 {
        CommentScan { in_quotes: false, escaped: false, out: Seq::empty(), stopped: false }
    } else {
        comment_step(comment_scan(s.drop_last()), s.last())
    }
}

/// A setting's value as the parsers read it: without a comment, trimmed,
/// without trailing `,` and `;`, trimmed, without one pair of surrounding
/// double or single quotes, trimmed.
pub open spec fn normalize_spec(raw: Seq<char>) -> Seq<char> {
    let c1 = trim(trim_end_seps(trim(comment_scan(raw).out)));
    let c2 = if c1.len() >= 2 && ((c1[0] == '"' && c1.last() == '"') || (c1[0] == '\''
        && c1.last() == '\'')) {
        c1.subrange(1, c1.len() - 1)
    } else {
        c1
    };
    trim(c2)
}

pub fn normalize_value(raw: &Vec<char>) -> (r: Vec<char>)
    ensures
        r@ == normalize_spec(raw@),
{
    let mut in_quotes = false;
    let mut escaped = false;
    let mut stopped = false;
    let mut out: Vec<char> = Vec::new();
    let mut i: usize = 0;
    assert(raw@.take(0) =~= Seq::<char>::empty());
    while i < raw.len()
        invariant
            i <= raw.len(),
            comment_scan(raw@.take(i as int)) == (CommentScan {
                in_quotes,
                escaped,
                out: out@,
                stopped,
            }),
        decreases raw.len() - i,
    {
        let ch = raw[i];
        assert(raw@.take(i + 1).drop_last() =~= raw@.take(i as int));
        if stopped {
        } else if ch == '"' && !escaped {
            in_quotes = !in_quotes;
            out.push(ch);
        } else if ch == '#' && !in_quotes {
            stopped = true;
        } else {
            escaped = ch == '\\' && !escaped;
            out.push(ch);
        }
        i = i + 1;
    }
    assert(raw@.take(raw.len() as int) =~= raw@);
    let a = trim_chars(&out);
    let b = trim_end_seps_chars(&a);
    let c1 = trim_chars(&b);
    let n = c1.len();
    if n >= 2 && ((c1[0] == '"' && c1[n - 1] == '"') || (c1[0] == '\'' && c1[n - 1] == '\'')) {
        let c2 = sub_chars(&c1, 1, n - 1);
        trim_chars(&c2)
    } else {
        trim_chars(&c1)
    }
}

/// How many more `[` than `]` a value opens, counting only brackets outside
/// quotes; a backslash escapes the next character.
pub struct BracketScan {
    pub in_quotes: bool,
    pub quote: char,
    pub escaped: bool,
    pub depth: int,
}

pub open spec fn bracket_step(st: BracketScan, ch: char) -> BracketScan {
    if st.escaped {
        BracketScan { escaped: false, ..st }
    } else if ch == '\\' {
        BracketScan { escaped: true, ..st }
    } else if ch == '"' || ch == '\'' {
        if st.in_quotes && ch == st.quote {
            BracketScan { in_quotes: false, quote: '\0', ..st }
        } else if !st.in_quotes {
            BracketScan { in_quotes: true, quote: ch, ..st }
        } else {
            st
        }
    } else if !st.in_quotes && ch == '[' {
        BracketScan { depth: st.depth + 1, ..st }
    } else if !st.in_quotes && ch == ']' {
        BracketScan { depth: st.depth - 1, ..st }
    } else {
        st
    }
}

pub open spec fn bracket_scan(s: Seq<char>) -> BracketScan
    decreases s.len(),
{
    if s.len() == 0 {
        BracketScan { in_quotes: false, quote: '\0', escaped: false, depth: 0 }
    } else {
        bracket_step(bracket_scan(s.drop_last()), s.last())
    }
}

pub open spec fn bracket_delta(s: Seq<char>) -> int {
    bracket_scan(s).depth
}

proof fn lemma_bracket_bound(s: Seq<char>)
    ensures
        -s.len() <= bracket_scan(s).depth <= s.len(),
    decreases s.len(),
{
    if s.len() > 0 {
        lemma_bracket_bound(s.drop_last());
    }
}

/// The bracket balance of a value; values are shorter than 2^31 characters.
pub fn array_bracket_delta(value: &Vec<char>) -> (r: i32)
    requires
        value.len() <= i32::MAX,
    ensures
        r == bracket_delta(value@),
        -value.len() <= r <= value.len(),
{
    let mut in_quotes = false;
    let mut quote = '\0';
    let mut escaped = false;
    let mut depth: i32 = 0;
    let mut i: usize = 0;
    assert(value@.take(0) =~= Seq::<char>::empty());
    while i < value.len()
        invariant
            i <= value.len() <= i32::MAX,
            bracket_scan(value@.take(i as int)) == (BracketScan {
                in_quotes,
                quote,
                escaped,
                depth: depth as int,
            }),
        decreases value.len() - i,
    {
        let ch = value[i];
        assert(value@.take(i + 1).drop_last() =~= value@.take(i as int));
        proof {
            lemma_bracket_bound(value@.take(i as int));
        }
        if escaped {
            escaped = false;
        } else if ch == '\\' {
            escaped = true;
        } else if ch == '"' || ch == '\'' {
            if in_quotes && ch == quote {
                in_quotes = false;
                quote = '\0';
            } else if !in_quotes {
                in_quotes = true;
                quote = ch;
            }
        } else if !in_quotes && ch == '[' {
            depth = depth + 1;
        } else if !in_quotes && ch == ']' {
            depth = depth - 1;
        }
        i = i + 1;
    }
    assert(value@.take(value.len() as int) =~= value@);
    proof {
        lemma_bracket_bound(value@);
    }
    depth
}

/// Whether a value opens an array that continues on the next lines.
pub fn value_needs_multiline_array(value: &Vec<char>) -> (b: bool)
    requires
        value.len() <= i32::MAX,
    ensures
        b == (bracket_delta(value@) > 0),
{
    array_bracket_delta(value) > 0
}

} // verus!
