//! Reading `pactl list sink-inputs` output: is any sink input playing?
use vstd::prelude::*;
use vstd::utf8::{decode_utf8, valid_utf8};
use crate::text::{
    chars_of, has_prefix, lines, lines_of, lit, lower, lower_chars, starts_with, sub_chars, trim,
    trim_chars, upper, upper_chars, views,
};
use crate::number::same_chars;

verus! {

/// `u8::is_ascii_whitespace`.
pub open spec fn is_ascii_white_byte(b: u8) -> bool {
    b == 9 || b == 10 || b == 12 || b == 13 || b == 32
}

/// `std::str::from_utf8`: the characters of `bytes` when they are valid
/// UTF-8, nothing otherwise.
#[verifier::external_body]
fn decode_utf8_chars(bytes: &[u8]) -> (r: Option<Vec<char>>)
    ensures
        r is Some <==> valid_utf8(bytes@),
        r matches Some(v) ==> v@ == decode_utf8(bytes@),
{
    match std::str::from_utf8(bytes) {
        Ok(s) => Some(s.chars().collect()),
        Err(_) => None,
    }
}

/// Whether the output holds a line with something other than whitespace:
/// judged line by line when it is UTF-8, byte by byte otherwise.
pub open spec fn non_empty_line_spec(bytes: Seq<u8>) -> bool {
    if valid_utf8(bytes) {
        let ls = lines(decode_utf8(bytes));
        exists|i: int| 0 <= i < ls.len() && trim(#[trigger] ls[i]).len() > 0
    } else {
        exists|i: int| 0 <= i < bytes.len() && !is_ascii_white_byte(#[trigger] bytes[i])
    }
}

fn any_non_blank_line(ls: &Vec<Vec<char>>) -> (b: bool)
    ensures
        b == exists|i: int| 0 <= i < ls@.len() && trim(#[trigger] views(ls@)[i]).len() > 0,
{
    let mut i: usize = 0;
    while i < ls.len()
        invariant
            i <= ls.len(),
            forall|j: int| 0 <= j < i ==> trim(#[trigger] views(ls@)[j]).len() == 0,
        decreases ls.len() - i,
    {
        let t = trim_chars(&ls[i]);
        assert(views(ls@)[i as int] == ls@[i as int]@);
        if t.len() > 0 {
            return true;
        }
        i = i + 1;
    }
    false
}

/// Whether `bytes` holds a line that is not blank.
pub fn has_non_empty_line(bytes: &[u8]) -> (b: bool)
    ensures
        b == non_empty_line_spec(bytes@),
{
    match decode_utf8_chars(bytes) {
        Some(text) => {
            let ls = lines_of(&text);
            any_non_blank_line(&ls)
        },
        None => {
            let mut i: usize = 0;
            while i < bytes.len()
                invariant
                    i <= bytes.len(),
                    !valid_utf8(bytes@),
                    forall|j: int| 0 <= j < i ==> is_ascii_white_byte(#[trigger] bytes@[j]),
                decreases bytes.len() - i,
            {
                let b = bytes[i];
                if !(b == 9 || b == 10 || b == 12 || b == 13 || b == 32) {
                    assert(!is_ascii_white_byte(bytes@[i as int]));
                    return true;
                }
                i = i + 1;
            }
            false
        },
    }
}

/// A sink input block is playing when its state is `RUNNING`; it is not
/// when the state is `IDLE` or `SUSPENDED`; otherwise it is playing exactly
/// when it is known not to be corked.
pub open spec fn sink_active(state: Option<Seq<char>>, corked: Option<bool>) -> bool {
    if state == Some("RUNNING"@) {
        true
    } else if state == Some("IDLE"@) || state == Some("SUSPENDED"@) {
        false
    } else {
        corked == Some(false)
    }
}

fn sink_state_active(state: &Option<Vec<char>>, corked: Option<bool>) -> (b: bool)
    ensures
        b == sink_active(
            match state {
                Some(v) => Some(v@),
                None => None,
            },
            corked,
        ),
{
    match state {
        Some(s) => {
            if same_chars(s, &lit("RUNNING")) {
                return true;
            }
            if same_chars(s, &lit("IDLE")) || same_chars(s, &lit("SUSPENDED")) {
                return false;
            }
        },
        None => {},
    }
    match corked {
        Some(c) => !c,
        None => false,
    }
}

/// Whether a sink-input block with this state and corked flag is playing.
pub fn sink_block_is_active(state: Option<&str>, corked: Option<bool>) -> (b: bool)
    ensures
        b == sink_active(
            match state {
                Some(s) => Some(s@),
                None => None,
            },
            corked,
        ),
{
    let st: Option<Vec<char>> = match state {
        Some(s) => Some(chars_of(s)),
        None => None,
    };
    sink_state_active(&st, corked)
}

/// What the scan of the output has seen so far: whether a sink-input block
/// began, whether any `State:` or `Corked:` line came, the current block's
/// state and corked flag, and whether a playing block was already found.
pub struct ScanView {
    pub saw_block: bool,
    pub saw_state_or_cork: bool,
    pub state: Option<Seq<char>>,
    pub corked: Option<bool>,
    pub found: bool,
}

pub open spec fn scan_start() -> ScanView {
    ScanView { saw_block: false, saw_state_or_cork: false, state: None, corked: None, found: false }
}

/// The reading of `Corked:` values.
pub open spec fn corked_value(v: Seq<char>) -> Option<bool> {
    if v == "yes"@ || v == "true"@ {
        Some(true)
    } else if v == "no"@ || v == "false"@ {
        Some(false)
    } else {
        None
    }
}

/// One line of the output.
pub open spec fn scan_step(st: ScanView, line: Seq<char>) -> ScanView {
    let t = trim(line);
    if st.found || t.len() == 0 {
        st
    } else if starts_with(t, "Sink Input #"@) {
        if st.saw_block && sink_active(st.state, st.corked) {
            ScanView { found: true, ..st }
        } else {
            ScanView { saw_block: true, state: None, corked: None, ..st }
        }
    } else if starts_with(t, "State:"@) {
        ScanView {
            saw_state_or_cork: true,
            state: Some(upper(trim(t.skip(6)))),
            ..st
        }
    } else if starts_with(t, "Corked:"@) {
        ScanView {
            saw_state_or_cork: true,
            corked: corked_value(lower(trim(t.skip(7)))),
            ..st
        }
    } else {
        st
    }
}

/// The scan after the lines `ls`, in order.
pub open spec fn scan_lines(ls: Seq<Seq<char>>) -> ScanView
    decreases ls.len(),
{
    if ls.len() == 0 {
        scan_start()
    } else {
        scan_step(scan_lines(ls.drop_last()), ls.last())
    }
}

/// Whether `pactl list sink-inputs` output shows audio playing: some sink
/// input block is playing by its last `State:` and `Corked:` lines; or there
/// are blocks but no such line at all and the output is not blank (an
/// unknown format counts as playing); output that is not UTF-8 counts as
/// playing when it is not blank.
pub open spec fn playback_spec(bytes: Seq<u8>) -> bool {
    if valid_utf8(bytes) {
        let st = scan_lines(lines(decode_utf8(bytes)));
        if st.found {
            true
        } else if st.saw_block && sink_active(st.state, st.corked) {
            true
        } else if st.saw_block && !st.saw_state_or_cork {
            non_empty_line_spec(bytes)
        } else {
            false
        }
    } else {
        non_empty_line_spec(bytes)
    }
}

struct Scan {
    saw_block: bool,
    saw_state_or_cork: bool,
    state: Option<Vec<char>>,
    corked: Option<bool>,
    found: bool,
}

impl Scan {
    closed spec fn view_of(&self) -> ScanView {
        ScanView {
            saw_block: self.saw_block,
            saw_state_or_cork: self.saw_state_or_cork,
            state: match self.state {
                Some(v) => Some(v@),
                None => None,
            },
            corked: self.corked,
            found: self.found,
        }
    }
}

fn corked_of(v: &Vec<char>) -> (r: Option<bool>)
    ensures
        r == corked_value(v@),
{
    if same_chars(v, &lit("yes")) || same_chars(v, &lit("true")) {
        Some(true)
    } else if same_chars(v, &lit("no")) || same_chars(v, &lit("false")) {
        Some(false)
    } else {
        None
    }
}

fn scan_line(st: &mut Scan, line: &Vec<char>)
    ensures
        final(st).view_of() == scan_step(old(st).view_of(), line@),
{
    let t = trim_chars(line);
    if st.found || t.len() == 0 {
        return;
    }
    if has_prefix(&t, &lit("Sink Input #")) {
        if st.saw_block && sink_state_active(&st.state, st.corked) {
            st.found = true;
        } else {
            st.saw_block = true;
            st.state = None;
            st.corked = None;
        }
    } else if has_prefix(&t, &lit("State:")) {
        proof {
            reveal_strlit("State:");
        }
        let rest = sub_chars(&t, 6, t.len());
        assert(rest@ =~= t@.skip(6));
        let v = trim_chars(&rest);
        let u = upper_chars(&v);
        st.saw_state_or_cork = true;
        st.state = Some(u);
    } else if has_prefix(&t, &lit("Corked:")) {
        proof {
            reveal_strlit("Corked:");
        }
        let rest = sub_chars(&t, 7, t.len());
        assert(rest@ =~= t@.skip(7));
        let v = trim_chars(&rest);
        let l = lower_chars(&v);
        st.saw_state_or_cork = true;
        st.corked = corked_of(&l);
    }
}

/// Whether `pactl list sink-inputs` output shows audio playing.
pub fn playback_active_from_pactl_output(bytes: &[u8]) -> (b: bool)
    ensures
        b == playback_spec(bytes@),
{
    let text = match decode_utf8_chars(bytes) {
        Some(t) => t,
        None => {
            return has_non_empty_line(bytes);
        },
    };
    let ls = lines_of(&text);
    let mut st = Scan {
        saw_block: false,
        saw_state_or_cork: false,
        state: None,
        corked: None,
        found: false,
    };
    let mut i: usize = 0;
    assert(views(ls@).take(0) =~= Seq::<Seq<char>>::empty());
    while i < ls.len()
        invariant
            i <= ls.len(),
            st.view_of() == scan_lines(views(ls@).take(i as int)),
        decreases ls.len() - i,
    {
        scan_line(&mut st, &ls[i]);
        assert(views(ls@).take(i + 1).drop_last() =~= views(ls@).take(i as int));
        i = i + 1;
    }
    assert(views(ls@).take(ls.len() as int) =~= views(ls@));
    if st.found {
        return true;
    }
    if st.saw_block && sink_state_active(&st.state, st.corked) {
        return true;
    }
    if st.saw_block && !st.saw_state_or_cork {
        return has_non_empty_line(bytes);
    }
    false
}

/// Whether audio is playing, from a run of `pactl`: when it could not be
/// run or did not succeed, playback is assumed.
pub fn playback_active_from_pactl_run(ran: bool, succeeded: bool, stdout: &[u8]) -> (b: bool)
    ensures
        b == (!ran || !succeeded || playback_spec(stdout@)),
{
    if !ran || !succeeded {
        return true;
    }
    playback_active_from_pactl_output(stdout)
}

} // verus!
