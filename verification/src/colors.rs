//! Reading colors: `#rrggbb[aa]`, `rgb(..)`, `rgba(..)` or bare comma-separated
//! channels; lists of colors; and gradients of one to five colors.
//!
//! A hex color is read two bytes at a time from its UTF-8 text, and a
//! non-ASCII character can put such a slice off a character boundary, where
//! slicing a `str` panics; the outcome of every reader here therefore has a
//! third case, `Panics`, reported as `Fault::Panic` instead of panicking.
use vstd::prelude::*;
use vstd::utf8::{encode_utf8, is_char_boundary};
use vstd::string::StringSliceAdditionalSpecFns;
use crate::config::{ColorSpec, ColorValue, NumberText, colors_view};
use crate::text::{has_prefix, lit, split_char, split_on, starts_with, string_of, sub_chars, trim, trim_chars, views};
use crate::values::{msg2, number_spec, parse_f32, unbracket, unbracket_chars};

verus! {

/// The outcome of reading: a value, an error message, or a panic.
pub enum Outcome<T> {
    Done(T),
    Failed(Seq<char>),
    Panics,
}

/// Why a reader stopped.
pub enum Fault {
    Message(Vec<char>),
    Panic,
}

pub open spec fn fault_outcome<T>(f: Fault) -> Outcome<T> {
    match f {
        Fault::Message(m) => Outcome::Failed(m@),
        Fault::Panic => Outcome::Panics,
    }
}

/// The value of an ASCII hex digit byte.
pub open spec fn hex_digit(b: u8) -> Option<u8> {
    if 48 <= b <= 57 {
        Some((b - 48) as u8)
    } else if 97 <= b <= 102 {
        Some((b - 87) as u8)
    } else if 65 <= b <= 70 {
        Some((b - 55) as u8)
    } else {
        None
    }
}

/// `u8::from_str_radix` on two bytes, base 16: an optional `+` and then
/// hex digits.
pub open spec fn hex_pair(b0: u8, b1: u8) -> Option<u8> {
    if b0 == 43 {
        hex_digit(b1)
    } else {
        match (hex_digit(b0), hex_digit(b1)) {
            (Some(h), Some(l)) => Some((h * 16 + l) as u8),
            _ => None,
        }
    }
}

/// The channel at byte `i` of a hex color: a panic when the two bytes are
/// not a slice on character boundaries, nothing when they are not hex.
pub open spec fn hex_channel(bytes: Seq<u8>, i: int) -> Outcome<u8> {
    if !(is_char_boundary(bytes, i) && is_char_boundary(bytes, i + 2)) {
        Outcome::Panics
    } else {
        match hex_pair(bytes[i], bytes[i + 1]) {
            Some(v) => Outcome::Done(v),
            None => Outcome::Failed(Seq::empty()),
        }
    }
}

/// A hex color (the text after `#`) of six or eight bytes, read channel by
/// channel.
pub open spec fn hex_color_spec(hex: Seq<char>) -> Outcome<ColorSpec> {
    let b = encode_utf8(hex);
    let bad = "invalid hex color: #"@ + hex;
    if b.len() == 6 || b.len() == 8 {
        match hex_channel(b, 0) {
            Outcome::Panics => Outcome::Panics,
            Outcome::Failed(_) => Outcome::Failed(bad),
            Outcome::Done(r) => match hex_channel(b, 2) {
                Outcome::Panics => Outcome::Panics,
                Outcome::Failed(_) => Outcome::Failed(bad),
                Outcome::Done(g) => match hex_channel(b, 4) {
                    Outcome::Panics => Outcome::Panics,
                    Outcome::Failed(_) => Outcome::Failed(bad),
                    Outcome::Done(bl) => if b.len() == 6 {
                        Outcome::Done(ColorSpec::Hex(r, g, bl, None))
                    } else {
                        match hex_channel(b, 6) {
                            Outcome::Panics => Outcome::Panics,
                            Outcome::Failed(_) => Outcome::Failed(bad),
                            Outcome::Done(a) => Outcome::Done(ColorSpec::Hex(r, g, bl, Some(a))),
                        }
                    },
                },
            },
        }
    } else {
        Outcome::Failed("invalid hex color length: #"@ + hex)
    }
}

fn hex_digit_exec(b: u8) -> (r: Option<u8>)
    ensures
        r == hex_digit(b),
{
    if 48 <= b && b <= 57 {
        Some(b - 48)
    } else if 97 <= b && b <= 102 {
        Some(b - 87)
    } else if 65 <= b && b <= 70 {
        Some(b - 55)
    } else {
        None
    }
}

fn hex_channel_exec(text: &str, bytes: &[u8], i: usize) -> (r: Result<u8, bool>)
    requires
        bytes@ == text.spec_bytes(),
        i + 2 <= bytes.len(),
    ensures
        match r {
            Ok(v) => hex_channel(bytes@, i as int) == Outcome::Done(v),
            Err(true) => hex_channel(bytes@, i as int) == Outcome::<u8>::Panics,
            Err(false) => hex_channel(bytes@, i as int) is Failed,
        },
{
    if !(text.is_char_boundary(i) && text.is_char_boundary(i + 2)) {
        return Err(true);
    }
    let b0 = bytes[i];
    let b1 = bytes[i + 1];
    if b0 == 43 {
        match hex_digit_exec(b1) {
            Some(v) => Ok(v),
            None => Err(false),
        }
    } else {
        match (hex_digit_exec(b0), hex_digit_exec(b1)) {
            (Some(h), Some(l)) => Ok(h * 16 + l),
            _ => Err(false),
        }
    }
}

/// Reads a hex color: `hex` is the text after `#`.
pub fn parse_hex_color(hex: &Vec<char>) -> (r: Result<ColorValue, Fault>)
    ensures
        match r {
            Ok(c) => hex_color_spec(hex@) == Outcome::Done(c@),
            Err(f) => hex_color_spec(hex@) == fault_outcome::<ColorSpec>(f),
        },
{
    let s = string_of(hex);
    let text = s.as_str();
    let bytes = text.as_bytes();
    let n = bytes.len();
    if n != 6 && n != 8 {
        return Err(Fault::Message(msg2("invalid hex color length: #", hex)));
    }
    let bad = msg2("invalid hex color: #", hex);
    let r = match hex_channel_exec(text, bytes, 0) {
        Ok(v) => v,
        Err(true) => {
            return Err(Fault::Panic);
        },
        Err(false) => {
            return Err(Fault::Message(bad));
        },
    };
    let g = match hex_channel_exec(text, bytes, 2) {
        Ok(v) => v,
        Err(true) => {
            return Err(Fault::Panic);
        },
        Err(false) => {
            return Err(Fault::Message(bad));
        },
    };
    let b = match hex_channel_exec(text, bytes, 4) {
        Ok(v) => v,
        Err(true) => {
            return Err(Fault::Panic);
        },
        Err(false) => {
            return Err(Fault::Message(bad));
        },
    };
    if n == 6 {
        return Ok(ColorValue::Hex { r, g, b, a: None });
    }
    let a = match hex_channel_exec(text, bytes, 6) {
        Ok(v) => v,
        Err(true) => {
            return Err(Fault::Panic);
        },
        Err(false) => {
            return Err(Fault::Message(bad));
        },
    };
    Ok(ColorValue::Hex { r, g, b, a: Some(a) })
}

/// `str::strip_suffix(')').unwrap_or(..)`.
pub open spec fn strip_close(s: Seq<char>) -> Seq<char> {
    if s.len() > 0 && s.last() == ')' {
        s.drop_last()
    } else {
        s
    }
}

/// The channel texts of a color: the pieces between commas, trimmed.
pub open spec fn channel_parts(s: Seq<char>) -> Seq<Seq<char>> {
    split_char(s, ',').map_values(|p: Seq<char>| trim(p))
}

/// A color: `#` and hex, `rgba(r, g, b, a)`, `rgb(r, g, b)`, or bare
/// channels, three or four (with alpha).
pub open spec fn color_spec(value: Seq<char>) -> Outcome<ColorSpec> {
    let n = trim(value);
    if starts_with(n, "#"@) {
        hex_color_spec(n.skip(1))
    } else {
        let parts = if starts_with(n, "rgba("@) {
            channel_parts(strip_close(n.skip(5)))
        } else if starts_with(n, "rgb("@) {
            channel_parts(strip_close(n.skip(4)))
        } else {
            channel_parts(n)
        };
        let has_alpha = if starts_with(n, "rgba("@) {
            true
        } else if starts_with(n, "rgb("@) {
            false
        } else {
            parts.len() == 4
        };
        if parts.len() != (if has_alpha {
            4nat
        } else {
            3nat
        }) {
            Outcome::Failed("invalid color value: "@ + value)
        } else {
            match (
                number_spec("color.r"@, parts[0]),
                number_spec("color.g"@, parts[1]),
                number_spec("color.b"@, parts[2]),
            ) {
                (Err(m), _, _) => Outcome::Failed(m),
                (Ok(_), Err(m), _) => Outcome::Failed(m),
                (Ok(_), Ok(_), Err(m)) => Outcome::Failed(m),
                (Ok(r), Ok(g), Ok(b)) => if has_alpha {
                    match number_spec("color.a"@, parts[3]) {
                        Err(m) => Outcome::Failed(m),
                        Ok(a) => Outcome::Done(ColorSpec::Channels(r, g, b, Some(a))),
                    }
                } else {
                    Outcome::Done(ColorSpec::Channels(r, g, b, None))
                },
            }
        }
    }
}

fn channel_parts_exec(s: &Vec<char>) -> (r: Vec<Vec<char>>)
    ensures
        views(r@) == channel_parts(s@),
{
    let parts = split_on(s, ',');
    let mut r: Vec<Vec<char>> = Vec::new();
    let mut i: usize = 0;
    while i < parts.len()
        invariant
            i <= parts.len(),
            views(r@) == views(parts@).take(i as int).map_values(|p: Seq<char>| trim(p)),
        decreases parts.len() - i,
    {
        let t = trim_chars(&parts[i]);
        let ghost before = views(r@);
        r.push(t);
        assert(views(r@) =~= before.push(trim(views(parts@)[i as int])));
        i = i + 1;
        assert(views(r@) =~= views(parts@).take(i as int).map_values(|p: Seq<char>| trim(p)));
    }
    assert(views(parts@).take(parts.len() as int) =~= views(parts@));
    r
}

fn strip_close_exec(s: Vec<char>) -> (r: Vec<char>)
    ensures
        r@ == strip_close(s@),
{
    let mut s = s;
    if s.len() > 0 && s[s.len() - 1] == ')' {
        s.pop();
    }
    s
}

fn number_or_fault(key: &str, part: &Vec<char>) -> (r: Result<NumberText, Fault>)
    ensures
        match r {
            Ok(t) => number_spec(key@, part@) == Ok::<Seq<char>, Seq<char>>(t.text@),
            Err(Fault::Message(m)) => number_spec(key@, part@) == Err::<Seq<char>, Seq<char>>(m@),
            Err(Fault::Panic) => false,
        },
{
    match parse_f32(&lit(key), part) {
        Ok(t) => Ok(NumberText { text: string_of(&t) }),
        Err(m) => Err(Fault::Message(m)),
    }
}

/// Reads one color.
pub fn parse_color(value: &Vec<char>) -> (r: Result<ColorValue, Fault>)
    ensures
        match r {
            Ok(c) => color_spec(value@) == Outcome::Done(c@),
            Err(f) => color_spec(value@) == fault_outcome::<ColorSpec>(f),
        },
{
    let n = trim_chars(value);
    if has_prefix(&n, &lit("#")) {
        proof {
            reveal_strlit("#");
        }
        let hex = sub_chars(&n, 1, n.len());
        assert(hex@ =~= n@.skip(1));
        return parse_hex_color(&hex);
    }
    let is_rgba = has_prefix(&n, &lit("rgba("));
    let is_rgb = has_prefix(&n, &lit("rgb("));
    proof {
        reveal_strlit("rgba(");
        reveal_strlit("rgb(");
    }
    let parts = if is_rgba {
        let inner = sub_chars(&n, 5, n.len());
        assert(inner@ =~= n@.skip(5));
        channel_parts_exec(&strip_close_exec(inner))
    } else if is_rgb {
        let inner = sub_chars(&n, 4, n.len());
        assert(inner@ =~= n@.skip(4));
        channel_parts_exec(&strip_close_exec(inner))
    } else {
        channel_parts_exec(&n)
    };
    let has_alpha = if is_rgba {
        true
    } else if is_rgb {
        false
    } else {
        parts.len() == 4
    };
    let expected: usize = if has_alpha {
        4
    } else {
        3
    };
    if parts.len() != expected {
        return Err(Fault::Message(msg2("invalid color value: ", value)));
    }
    assert(views(parts@)[0] == parts@[0]@);
    assert(views(parts@)[1] == parts@[1]@);
    assert(views(parts@)[2] == parts@[2]@);
    let r = number_or_fault("color.r", &parts[0])?;
    let g = number_or_fault("color.g", &parts[1])?;
    let b = number_or_fault("color.b", &parts[2])?;
    if has_alpha {
        assert(views(parts@)[3] == parts@[3]@);
        let a = number_or_fault("color.a", &parts[3])?;
        Ok(ColorValue::Channels { r, g, b, a: Some(a) })
    } else {
        Ok(ColorValue::Channels { r, g, b, a: None })
    }
}

/// The state of splitting a list of colors into items: commas separate
/// items except inside quotes or parentheses; quotes are dropped; a
/// backslash keeps the next character as it is.
pub struct ItemScan {
    pub current: Seq<char>,
    pub items: Seq<Seq<char>>,
    pub in_quotes: bool,
    pub quote: char,
    pub escaped: bool,
    pub parens: u32,
}

pub open spec fn item_step(st: ItemScan, ch: char) -> ItemScan {
    if st.escaped {
        ItemScan { current: st.current.push(ch), escaped: false, ..st }
    } else if ch == '\\' {
        ItemScan { escaped: true, ..st }
    } else if ch == '"' || ch == '\'' {
        if st.in_quotes && ch == st.quote {
            ItemScan { in_quotes: false, quote: '\0', ..st }
        } else if !st.in_quotes {
            ItemScan { in_quotes: true, quote: ch, ..st }
        } else {
            st
        }
    } else {
        let p: u32 = if !st.in_quotes && ch == '(' {
            if st.parens < u32::MAX {
                (st.parens + 1) as u32
            } else {
                st.parens
            }
        } else if !st.in_quotes && ch == ')' {
            if st.parens > 0 {
                (st.parens - 1) as u32
            } else {
                0
            }
        } else {
            st.parens
        };
        if ch == ',' && !st.in_quotes && p == 0 {
            let item = trim(st.current);
            ItemScan {
                current: Seq::empty(),
                items: if item.len() > 0 {
                    st.items.push(item)
                } else {
                    st.items
                },
                parens: p,
                ..st
            }
        } else {
            ItemScan { current: st.current.push(ch), parens: p, ..st }
        }
    }
}

pub open spec fn item_scan(s: Seq<char>) -> ItemScan
    decreases s.len(),
{
    if s.len() == 0 {
        ItemScan {
            current: Seq::empty(),
            items: Seq::empty(),
            in_quotes: false,
            quote: '\0',
            escaped: false,
            parens: 0,
        }
    } else {
        item_step(item_scan(s.drop_last()), s.last())
    }
}

/// The items of a color list (the text inside the brackets).
pub open spec fn color_items(inner: Seq<char>) -> Seq<Seq<char>> {
    let st = item_scan(inner);
    let last = trim(st.current);
    if last.len() > 0 {
        st.items.push(last)
    } else {
        st.items
    }
}

/// The colors of `items`, in order; the first item that fails decides.
pub open spec fn colors_of(items: Seq<Seq<char>>) -> Outcome<Seq<ColorSpec>>
    decreases items.len(),
{
    if items.len() == 0 {
        Outcome::Done(Seq::empty())
    } else {
        match colors_of(items.drop_last()) {
            Outcome::Done(cs) => match color_spec(items.last()) {
                Outcome::Done(c) => Outcome::Done(cs.push(c)),
                Outcome::Failed(m) => Outcome::Failed(m),
                Outcome::Panics => Outcome::Panics,
            },
            other => other,
        }
    }
}

/// A list of colors, written `[c1, c2, ..]` or without the brackets.
pub open spec fn rgba_list_spec(value: Seq<char>) -> Outcome<Seq<ColorSpec>> {
    let t = trim(value);
    if t.len() == 0 {
        Outcome::Done(Seq::empty())
    } else {
        colors_of(color_items(unbracket(t)))
    }
}

fn color_items_exec(inner: &Vec<char>) -> (r: Vec<Vec<char>>)
    ensures
        views(r@) == color_items(inner@),
{
    let mut current: Vec<char> = Vec::new();
    let mut items: Vec<Vec<char>> = Vec::new();
    let mut in_quotes = false;
    let mut quote = '\0';
    let mut escaped = false;
    let mut parens: u32 = 0;
    let mut i: usize = 0;
    assert(inner@.take(0) =~= Seq::<char>::empty());
    assert(views(items@) =~= Seq::<Seq<char>>::empty());
    while i < inner.len()
        invariant
            i <= inner.len(),
            item_scan(inner@.take(i as int)) == (ItemScan {
                current: current@,
                items: views(items@),
                in_quotes,
                quote,
                escaped,
                parens,
            }),
        decreases inner.len() - i,
    {
        let ch = inner[i];
        assert(inner@.take(i + 1).drop_last() =~= inner@.take(i as int));
        if escaped {
            current.push(ch);
            escaped = false;
        } else if ch == '\\' {
            escaped = true;
        } else if ch == '"' || ch == '\'' {
            if in_quotes && ch == quote {
                in_quotes = false;
                quote = '\0';
            } else if !in_quotes {
                in_quotes = true;
                quote = ch;
            }
        } else {
            if !in_quotes {
                if ch == '(' {
                    if parens < u32::MAX {
                        parens = parens + 1;
                    }
                } else if ch == ')' {
                    if parens > 0 {
                        parens = parens - 1;
                    }
                }
            }
            if ch == ',' && !in_quotes && parens == 0 {
                let item = trim_chars(&current);
                if item.len() > 0 {
                    let ghost before = views(items@);
                    items.push(item);
                    assert(views(items@) =~= before.push(item@));
                }
                current = Vec::new();
            } else {
                current.push(ch);
            }
        }
        i = i + 1;
    }
    assert(inner@.take(inner.len() as int) =~= inner@);
    let last = trim_chars(&current);
    if last.len() > 0 {
        let ghost before = views(items@);
        items.push(last);
        assert(views(items@) =~= before.push(last@));
    }
    items
}

/// Reads a list of colors.
pub fn parse_rgba_list(value: &Vec<char>) -> (r: Result<Vec<ColorValue>, Fault>)
    ensures
        match r {
            Ok(cs) => rgba_list_spec(value@) == Outcome::Done(colors_view(cs@)),
            Err(f) => rgba_list_spec(value@) == fault_outcome::<Seq<ColorSpec>>(f),
        },
{
    let t = trim_chars(value);
    if t.len() == 0 {
        let cs: Vec<ColorValue> = Vec::new();
        assert(colors_view(cs@) =~= Seq::<ColorSpec>::empty());
        return Ok(cs);
    }
    let inner = unbracket_chars(&t);
    let items = color_items_exec(&inner);
    let ghost iv = views(items@);
    let mut colors: Vec<ColorValue> = Vec::new();
    let mut i: usize = 0;
    assert(iv.take(0) =~= Seq::<Seq<char>>::empty());
    assert(colors_view(colors@) =~= Seq::<ColorSpec>::empty());
    while i < items.len()
        invariant
            i <= items.len(),
            iv == views(items@),
            iv == color_items(inner@),
            inner@ == unbracket(t@),
            t@ == trim(value@),
            t@.len() > 0,
            colors_of(iv.take(i as int)) == Outcome::Done(colors_view(colors@)),
        decreases items.len() - i,
    {
        assert(iv.take(i + 1).drop_last() =~= iv.take(i as int));
        assert(iv[i as int] == items@[i as int]@);
        let c = match parse_color(&items[i]) {
            Ok(c) => c,
            Err(f) => {
                proof {
                    lemma_colors_of_prefix(iv, i as int + 1);
                    assert(iv.take(items.len() as int) =~= iv);
                }
                return Err(f);
            },
        };
        let ghost before = colors_view(colors@);
        colors.push(c);
        assert(colors_view(colors@) =~= before.push(c@));
        i = i + 1;
    }
    assert(iv.take(items.len() as int) =~= iv);
    Ok(colors)
}

/// Once reading a prefix of the items stops, reading all of them stops the
/// same way.
proof fn lemma_colors_of_prefix(items: Seq<Seq<char>>, k: int)
    requires
        0 <= k <= items.len(),
        !(colors_of(items.take(k)) is Done),
    ensures
        colors_of(items) == colors_of(items.take(k)),
    decreases items.len() - k,
{
    if k < items.len() {
        assert(items.take(k + 1).drop_last() =~= items.take(k));
        lemma_colors_of_prefix(items, k + 1);
    } else {
        assert(items.take(k) =~= items);
    }
}

/// A gradient has one to five colors: an empty one is an error and only the
/// first five colors of a longer one are kept.
pub open spec fn validate_gradient_spec(g: Seq<ColorSpec>) -> Result<Seq<ColorSpec>, Seq<char>> {
    if g.len() == 0 {
        Err("gradient must include at least 1 color"@)
    } else if g.len() > 5 {
        Ok(g.take(5))
    } else {
        Ok(g)
    }
}

pub fn validate_gradient(gradient: Vec<ColorValue>) -> (r: Result<Vec<ColorValue>, Vec<char>>)
    ensures
        match r {
            Ok(g) => validate_gradient_spec(colors_view(gradient@)) == Ok::<
                Seq<ColorSpec>,
                Seq<char>,
            >(colors_view(g@)),
            Err(m) => validate_gradient_spec(colors_view(gradient@)) == Err::<
                Seq<ColorSpec>,
                Seq<char>,
            >(m@),
        },
{
    let mut gradient = gradient;
    if gradient.len() == 0 {
        return Err(lit("gradient must include at least 1 color"));
    }
    if gradient.len() > 5 {
        let ghost full = colors_view(gradient@);
        gradient.truncate(5);
        assert(colors_view(gradient@) =~= full.take(5));
    }
    Ok(gradient)
}

/// A gradient setting: a list of one to five colors.
pub open spec fn gradient_spec(value: Seq<char>) -> Outcome<Seq<ColorSpec>> {
    match rgba_list_spec(value) {
        Outcome::Done(g) => match validate_gradient_spec(g) {
            Ok(v) => Outcome::Done(v),
            Err(m) => Outcome::Failed(m),
        },
        other => other,
    }
}

pub fn parse_gradient(value: &Vec<char>) -> (r: Result<Vec<ColorValue>, Fault>)
    ensures
        match r {
            Ok(g) => gradient_spec(value@) == Outcome::Done(colors_view(g@)),
            Err(f) => gradient_spec(value@) == fault_outcome::<Seq<ColorSpec>>(f),
        },
{
    let g = parse_rgba_list(value)?;
    match validate_gradient(g) {
        Ok(v) => Ok(v),
        Err(m) => Err(Fault::Message(m)),
    }
}

} // verus!
