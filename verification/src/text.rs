//! Character-level text handling shared by the parsers: Unicode whitespace,
//! trimming, splitting, line iteration and prefix/suffix tests, each stated
//! over `Seq<char>` and implemented over `Vec<char>`.
use vstd::prelude::*;

verus! {

/// The Unicode `White_Space` property, which `char::is_whitespace` and
/// `str::trim` use.
pub open spec fn is_white(c: char) -> bool {
    ||| ('\u{9}' <= c && c <= '\u{d}')
    ||| c == ' '
    ||| c == '\u{85}'
    ||| c == '\u{a0}'
    ||| c == '\u{1680}'
    ||| ('\u{2000}' <= c && c <= '\u{200a}')
    ||| c == '\u{2028}'
    ||| c == '\u{2029}'
    ||| c == '\u{202f}'
    ||| c == '\u{205f}'
    ||| c == '\u{3000}'
}

pub fn char_is_white(c: char) -> (b: bool)
    ensures
        b == is_white(c),
{
    ('\u{9}' <= c && c <= '\u{d}') || c == ' ' || c == '\u{85}' || c == '\u{a0}' || c == '\u{1680}'
        || ('\u{2000}' <= c && c <= '\u{200a}') || c == '\u{2028}' || c == '\u{2029}' || c
        == '\u{202f}' || c == '\u{205f}' || c == '\u{3000}'
}

/// `s` without its leading whitespace.
pub open spec fn trim_start(s: Seq<char>) -> Seq<char>
    decreases s.len(),
{
    if s.len() > 0 && is_white(s[0]) {
        trim_start(s.drop_first())
    } else {
        s
    }
}

/// `s` without its trailing whitespace.
pub open spec fn trim_end(s: Seq<char>) -> Seq<char>
    decreases s.len(),
{
    if s.len() > 0 && is_white(s.last()) {
        trim_end(s.drop_last())
    } else {
        s
    }
}

/// What `str::trim` gives back.
pub open spec fn trim(s: Seq<char>) -> Seq<char> {
    trim_end(trim_start(s))
}

/// The characters of `s`, in order.
pub fn chars_of(s: &str) -> (v: Vec<char>)
    ensures
        v@ == s@,
{
    let n = s.unicode_len();
    let mut v: Vec<char> = Vec::new();
    let mut i: usize = 0;
    while i < n
        invariant
            n == s@.len(),
            i <= n,
            v@ == s@.take(i as int),
        decreases n - i,
    {
        let c = s.get_char(i);
        v.push(c);
        i = i + 1;
        assert(v@ =~= s@.take(i as int));
    }
    assert(s@.take(n as int) =~= s@);
    v
}

/// Appends one character to a `String` (`String::push`).
#[verifier::external_body]
fn push_char(s: &mut String, c: char)
    ensures
        final(s)@ == old(s)@.push(c),
{
    s.push(c)
}

/// A `String` holding the characters of `v`.
pub fn string_of(v: &Vec<char>) -> (s: String)
    ensures
        s@ == v@,
{
    let mut s = String::new();
    let mut i: usize = 0;
    while i < v.len()
        invariant
            i <= v.len(),
            s@ == v@.take(i as int),
        decreases v.len() - i,
    {
        push_char(&mut s, v[i]);
        i = i + 1;
        assert(s@ =~= v@.take(i as int));
    }
    assert(v@.take(v.len() as int) =~= v@);
    s
}

/// A copy of `s[lo..hi]`.
pub fn sub_chars(s: &Vec<char>, lo: usize, hi: usize) -> (r: Vec<char>)
    requires
        lo <= hi <= s.len(),
    ensures
        r@ == s@.subrange(lo as int, hi as int),
{
    let mut r: Vec<char> = Vec::new();
    let mut i = lo;
    while i < hi
        invariant
            lo <= i <= hi <= s.len(),
            r@ == s@.subrange(lo as int, i as int),
        decreases hi - i,
    {
        r.push(s[i]);
        i = i + 1;
        assert(r@ =~= s@.subrange(lo as int, i as int));
    }
    r
}

/// `str::trim`.
pub fn trim_chars(s: &Vec<char>) -> (r: Vec<char>)
    ensures
        r@ == trim(s@),
        r@.len() <= s@.len(),
{
    let n = s.len();
    let mut lo: usize = 0;
    assert(s@.subrange(0, n as int) =~= s@);
    while lo < n && char_is_white(s[lo])
        invariant
            lo <= n == s.len(),
            trim_start(s@) == trim_start(s@.subrange(lo as int, n as int)),
        decreases n - lo,
    {
        assert(s@.subrange(lo as int, n as int).drop_first() =~= s@.subrange(lo + 1, n as int));
        lo = lo + 1;
    }
    assert(trim_start(s@) == s@.subrange(lo as int, n as int));
    let mut hi: usize = n;
    while hi > lo && char_is_white(s[hi - 1])
        invariant
            lo <= hi <= n == s.len(),
            trim(s@) == trim_end(s@.subrange(lo as int, hi as int)),
        decreases hi,
    {
        assert(s@.subrange(lo as int, hi as int).drop_last() =~= s@.subrange(lo as int, hi - 1));
        hi = hi - 1;
    }
    sub_chars(s, lo, hi)
}

/// The views of a sequence of character vectors.
pub open spec fn views(v: Seq<Vec<char>>) -> Seq<Seq<char>> {
    v.map_values(|x: Vec<char>| x@)
}

/// What `str::split` with a single-character separator yields, built from
/// the left: splitting never yields fewer than one piece.
pub open spec fn split_char(s: Seq<char>, sep: char) -> Seq<Seq<char>>
    decreases s.len(),
{
    if s.len() == 0 {
        seq![Seq::<char>::empty()]
    } else {
        let init = split_char(s.drop_last(), sep);
        if s.last() == sep {
            init.push(Seq::<char>::empty())
        } else {
            init.update(init.len() - 1, init.last().push(s.last()))
        }
    }
}

pub proof fn lemma_split_char_len(s: Seq<char>, sep: char)
    ensures
        split_char(s, sep).len() >= 1,
    decreases s.len(),
{
    if s.len() > 0 {
        lemma_split_char_len(s.drop_last(), sep);
    }
}

/// `str::split(sep)` for a character separator.
pub fn split_on(s: &Vec<char>, sep: char) -> (parts: Vec<Vec<char>>)
    ensures
        views(parts@) == split_char(s@, sep),
{
    let mut out: Vec<Vec<char>> = Vec::new();
    let mut cur: Vec<char> = Vec::new();
    let mut i: usize = 0;
    assert(s@.take(0) =~= Seq::<char>::empty());
    assert(views(out@).push(cur@) =~= split_char(s@.take(0), sep));
    while i < s.len()
        invariant
            i <= s.len(),
            views(out@).push(cur@) == split_char(s@.take(i as int), sep),
        decreases s.len() - i,
    {
        let c = s[i];
        let ghost prev = s@.take(i as int);
        assert(s@.take(i + 1).drop_last() =~= prev);
        assert(s@.take(i + 1).last() == c);
        proof {
            lemma_split_char_len(prev, sep);
        }
        if c == sep {
            let done = cur;
            out.push(done);
            cur = Vec::new();
            assert(views(out@).push(cur@) =~= split_char(s@.take(i + 1), sep));
        } else {
            cur.push(c);
            assert(views(out@).push(cur@) =~= split_char(s@.take(i + 1), sep));
        }
        i = i + 1;
    }
    assert(s@.take(s.len() as int) =~= s@);
    out.push(cur);
    assert(views(out@) =~= split_char(s@, sep));
    out
}

/// A line without its final carriage return.
pub open spec fn strip_cr(s: Seq<char>) -> Seq<char> {
    if s.len() > 0 && s.last() == '\r' {
        s.drop_last()
    } else {
        s
    }
}

/// What `str::lines` yields: the pieces between line feeds, each that ended
/// in a line feed without a final carriage return, and no last line when the
/// text ends in a line feed (or is empty).
pub open spec fn lines(s: Seq<char>) -> Seq<Seq<char>> {
    let parts = split_char(s, '\n');
    let body = parts.drop_last().map_values(|p: Seq<char>| strip_cr(p));
    if parts.last().len() == 0 {
        body
    } else {
        body.push(parts.last())
    }
}

fn strip_cr_chars(s: Vec<char>) -> (r: Vec<char>)
    ensures
        r@ == strip_cr(s@),
{
    let mut s = s;
    if s.len() > 0 && s[s.len() - 1] == '\r' {
        s.pop();
    }
    s
}

/// `str::lines`.
pub fn lines_of(s: &Vec<char>) -> (ls: Vec<Vec<char>>)
    ensures
        views(ls@) == lines(s@),
{
    let mut parts = split_on(s, '\n');
    proof {
        lemma_split_char_len(s@, '\n');
    }
    let ghost all = views(parts@);
    let last = parts.pop().unwrap();
    assert(views(parts@) =~= all.drop_last());
    let mut out: Vec<Vec<char>> = Vec::new();
    let mut i: usize = 0;
    let n = parts.len();
    while i < n
        invariant
            n == parts.len(),
            i <= n,
            views(parts@) == all.drop_last(),
            views(out@) == all.drop_last().take(i as int).map_values(|p: Seq<char>| strip_cr(p)),
        decreases n - i,
    {
        let piece = parts[i].clone();
        assert(piece@ =~= views(parts@)[i as int]);
        let line = strip_cr_chars(piece);
        let ghost before = views(out@);
        let ghost d = all.drop_last();
        out.push(line);
        assert(views(out@) =~= before.push(strip_cr(d[i as int])));
        assert(d.take(i + 1).map_values(|p: Seq<char>| strip_cr(p)) =~= d.take(i as int).map_values(
            |p: Seq<char>| strip_cr(p),
        ).push(strip_cr(d[i as int])));
        i = i + 1;
        assert(views(out@) =~= all.drop_last().take(i as int).map_values(
            |p: Seq<char>| strip_cr(p),
        ));
    }
    assert(all.drop_last().take(n as int) =~= all.drop_last());
    if last.len() > 0 {
        out.push(last);
        assert(views(out@) =~= lines(s@));
    } else {
        assert(views(out@) =~= lines(s@));
    }
    out
}

/// `p` is a prefix of `s`.
pub open spec fn starts_with(s: Seq<char>, p: Seq<char>) -> bool {
    p.len() <= s.len() && s.take(p.len() as int) == p
}

/// `p` occurs in `s` at position `i`.
pub open spec fn occurs_at(s: Seq<char>, p: Seq<char>, i: int) -> bool {
    0 <= i && i + p.len() <= s.len() && s.subrange(i, i + p.len()) == p
}

/// `str::contains` for a pattern string.
pub open spec fn contains_seq(s: Seq<char>, p: Seq<char>) -> bool {
    exists|i: int| occurs_at(s, p, i)
}

fn matches_at(s: &Vec<char>, p: &Vec<char>, at: usize) -> (b: bool)
    requires
        at + p.len() <= s.len(),
    ensures
        b == occurs_at(s@, p@, at as int),
{
    let mut k: usize = 0;
    while k < p.len()
        invariant
            at + p.len() <= s.len(),
            k <= p.len(),
            forall|j: int| 0 <= j < k ==> s@[at + j] == p@[j],
        decreases p.len() - k,
    {
        if s[at + k] != p[k] {
            assert(s@.subrange(at as int, at + p.len())[k as int] != p@[k as int]);
            return false;
        }
        k = k + 1;
    }
    assert(s@.subrange(at as int, at + p.len()) =~= p@);
    true
}

/// `str::starts_with`.
pub fn has_prefix(s: &Vec<char>, p: &Vec<char>) -> (b: bool)
    ensures
        b == starts_with(s@, p@),
{
    if p.len() > s.len() {
        return false;
    }
    let b = matches_at(s, p, 0);
    assert(s@.subrange(0, p.len() as int) =~= s@.take(p.len() as int));
    b
}

/// `str::contains`.
pub fn has_infix(s: &Vec<char>, p: &Vec<char>) -> (b: bool)
    ensures
        b == contains_seq(s@, p@),
{
    if p.len() > s.len() {
        return false;
    }
    if p.len() == 0 {
        assert(s@.subrange(0, 0) =~= p@);
        assert(occurs_at(s@, p@, 0));
        return true;
    }
    let last = s.len() - p.len();
    let mut i: usize = 0;
    while i < last + 1
        invariant
            last + p.len() == s.len(),
            p.len() > 0,
            i <= last + 1,
            forall|j: int| 0 <= j < i ==> !occurs_at(s@, p@, j),
        decreases last + 1 - i,
    {
        if matches_at(s, p, i) {
            return true;
        }
        i = i + 1;
    }
    assert forall|j: int| !occurs_at(s@, p@, j) by {
        if 0 <= j && j + p.len() <= s.len() {
            assert(j <= last);
        }
    }
    false
}

/// Characters of a string literal, as a vector.
pub fn lit(s: &str) -> (v: Vec<char>)
    ensures
        v@ == s@,
{
    chars_of(s)
}

/// `char::to_ascii_lowercase`.
pub open spec fn ascii_lower(c: char) -> char {
    if 'A' <= c && c <= 'Z' {
        (((c as u8) + 32) as u8) as char
    } else {
        c
    }
}

/// `char::to_ascii_uppercase`.
pub open spec fn ascii_upper(c: char) -> char {
    if 'a' <= c && c <= 'z' {
        (((c as u8) - 32) as u8) as char
    } else {
        c
    }
}

/// `str::to_ascii_lowercase`.
pub open spec fn lower(s: Seq<char>) -> Seq<char> {
    s.map_values(|c: char| ascii_lower(c))
}

/// `str::to_ascii_uppercase`.
pub open spec fn upper(s: Seq<char>) -> Seq<char> {
    s.map_values(|c: char| ascii_upper(c))
}

pub fn lower_chars(s: &Vec<char>) -> (r: Vec<char>)
    ensures
        r@ == lower(s@),
{
    let mut r: Vec<char> = Vec::new();
    let mut i: usize = 0;
    while i < s.len()
        invariant
            i <= s.len(),
            r@ == lower(s@.take(i as int)),
        decreases s.len() - i,
    {
        let c = s[i];
        let d = if 'A' <= c && c <= 'Z' {
            ((c as u8) + 32) as char
        } else {
            c
        };
        r.push(d);
        i = i + 1;
        assert(r@ =~= lower(s@.take(i as int)));
    }
    assert(s@.take(s.len() as int) =~= s@);
    r
}

pub fn upper_chars(s: &Vec<char>) -> (r: Vec<char>)
    ensures
        r@ == upper(s@),
{
    let mut r: Vec<char> = Vec::new();
    let mut i: usize = 0;
    while i < s.len()
        invariant
            i <= s.len(),
            r@ == upper(s@.take(i as int)),
        decreases s.len() - i,
    {
        let c = s[i];
        let d = if 'a' <= c && c <= 'z' {
            ((c as u8) - 32) as char
        } else {
            c
        };
        r.push(d);
        i = i + 1;
        assert(r@ =~= upper(s@.take(i as int)));
    }
    assert(s@.take(s.len() as int) =~= s@);
    r
}

/// Every piece of a split is no longer than the text, and there is at most
/// one more piece than there are characters.
pub proof fn lemma_split_char_bounds(s: Seq<char>, sep: char)
    ensures
        split_char(s, sep).len() <= s.len() + 1,
        forall|i: int|
            0 <= i < split_char(s, sep).len() ==> (#[trigger] split_char(s, sep)[i]).len() <= s.len(),
    decreases s.len(),
{
    if s.len() > 0 {
        lemma_split_char_bounds(s.drop_last(), sep);
        lemma_split_char_len(s.drop_last(), sep);
    }
}

/// Every line is no longer than the text, and there are at most one more
/// lines than characters.
pub proof fn lemma_lines_bounds(s: Seq<char>)
    ensures
        lines(s).len() <= s.len() + 1,
        forall|i: int| 0 <= i < lines(s).len() ==> (#[trigger] lines(s)[i]).len() <= s.len(),
{
    let parts = split_char(s, '\n');
    lemma_split_char_bounds(s, '\n');
    lemma_split_char_len(s, '\n');
    assert forall|i: int| 0 <= i < lines(s).len() implies (#[trigger] lines(s)[i]).len() <= s.len() by {
        if i < parts.len() - 1 {
            assert(lines(s)[i] == strip_cr(parts[i]));
        } else {
            assert(lines(s)[i] == parts[parts.len() - 1]);
        }
    }
}

} // verus!
