//! Which processes the daemon watches for: normalising the configured
//! process names, recognising a running process from its `comm` and
//! `cmdline`, and filtering the overlay's standard error.
use vstd::prelude::*;
use vstd::utf8::{decode_utf8, valid_utf8};
use crate::text::{
    chars_of, contains_seq, has_infix, lit, lower, lower_chars, split_char, split_on, string_of,
    trim, trim_chars, views,
};
use crate::number::{parse_unsigned, parse_unsigned_chars, same_chars};

verus! {

/// Whether a line of the overlay's standard error is one of GTK's settings
/// warnings that the daemon does not pass on.
pub open spec fn gtk_warning_spec(line: Seq<char>) -> bool {
    contains_seq(line, "Unknown key gtk-menu-images in "@) || contains_seq(
        line,
        "Unknown key gtk-button-images in "@,
    )
}

pub fn should_suppress_gtk_warning(line: &str) -> (b: bool)
    ensures
        b == gtk_warning_spec(line@),
{
    let l = chars_of(line);
    has_infix(&l, &lit("Unknown key gtk-menu-images in ")) || has_infix(
        &l,
        &lit("Unknown key gtk-button-images in "),
    )
}

/// A process name as the daemon compares it: trimmed and ASCII-lower-cased.
pub open spec fn normalize_name(s: Seq<char>) -> Seq<char> {
    lower(trim(s))
}

/// The non-empty normalised names of `allowed`.
pub open spec fn allowed_name_set(allowed: Seq<Seq<char>>) -> Set<Seq<char>> {
    Set::new(
        |x: Seq<char>|
            x.len() > 0 && exists|i: int|
                0 <= i < allowed.len() && normalize_name(#[trigger] allowed[i]) == x,
    )
}

pub open spec fn string_views(v: Seq<String>) -> Seq<Seq<char>> {
    v.map_values(|s: String| s@)
}

fn find_chars(v: &Vec<Vec<char>>, x: &Vec<char>) -> (b: bool)
    ensures
        b == views(v@).contains(x@),
{
    let mut i: usize = 0;
    while i < v.len()
        invariant
            i <= v.len(),
            forall|j: int| 0 <= j < i ==> views(v@)[j] != x@,
        decreases v.len() - i,
    {
        if same_chars(&v[i], x) {
            assert(views(v@)[i as int] == x@);
            return true;
        }
        i = i + 1;
    }
    false
}

/// The names that the allowed-process check looks for, each once; `None`
/// when no non-empty name is configured, in which case every process
/// counts as allowed.
pub fn allowed_process_names(allowed: &[String]) -> (r: Option<Vec<String>>)
    ensures
        match r {
            None => allowed_name_set(string_views(allowed@)).is_empty(),
            Some(v) => !allowed_name_set(string_views(allowed@)).is_empty()
                && string_views(v@).to_set() == allowed_name_set(string_views(allowed@))
                && string_views(v@).no_duplicates(),
        },
{
    let ghost a = string_views(allowed@);
    let mut found: Vec<Vec<char>> = Vec::new();
    let mut i: usize = 0;
    while i < allowed.len()
        invariant
            i <= allowed.len(),
            a == string_views(allowed@),
            views(found@).no_duplicates(),
            forall|x: Seq<char>|
                views(found@).contains(x) <==> (x.len() > 0 && exists|j: int|
                    0 <= j < i && normalize_name(#[trigger] a[j]) == x),
        decreases allowed.len() - i,
    {
        let s = chars_of(allowed[i].as_str());
        assert(s@ == a[i as int]);
        let t = trim_chars(&s);
        let n = lower_chars(&t);
        let ghost before = views(found@);
        let ghost nn = n@;
        assert(nn == normalize_name(a[i as int]));
        if n.len() > 0 && !find_chars(&found, &n) {
            found.push(n);
            assert(views(found@) =~= before.push(nn));
        }
        assert forall|x: Seq<char>| views(found@).contains(x) implies before.contains(x) || (x
            == nn && nn.len() > 0) by {
            let k = choose|k: int| 0 <= k < views(found@).len() && views(found@)[k] == x;
            if k < before.len() {
                assert(before[k] == x);
            }
        }
        assert forall|x: Seq<char>| before.contains(x) implies views(found@).contains(x) by {
            let k = choose|k: int| 0 <= k < before.len() && before[k] == x;
            assert(views(found@)[k] == x);
        }
        i = i + 1;
        assert forall|x: Seq<char>|
            views(found@).contains(x) <==> (x.len() > 0 && exists|j: int|
                0 <= j < i && normalize_name(#[trigger] a[j]) == x) by {
            if x.len() > 0 && x == nn {
                if !before.contains(x) {
                    assert(views(found@)[views(found@).len() - 1] == x);
                }
            }
            if views(found@).contains(x) && !before.contains(x) {
                assert(normalize_name(a[i - 1]) == x);
            }
            if x.len() > 0 && (exists|j: int| 0 <= j < i && normalize_name(#[trigger] a[j]) == x) {
                let j = choose|j: int| 0 <= j < i && normalize_name(#[trigger] a[j]) == x;
                if j < i - 1 {
                    assert(before.contains(x));
                }
            }
        }
    }
    if found.len() == 0 {
        assert forall|x: Seq<char>| !allowed_name_set(a).contains(x) by {
            assert(!views(found@).contains(x));
        }
        assert(allowed_name_set(a) =~= Set::<Seq<char>>::empty());
        return None;
    }
    let mut out: Vec<String> = Vec::new();
    let mut k: usize = 0;
    while k < found.len()
        invariant
            k <= found.len(),
            string_views(out@) == views(found@).take(k as int),
        decreases found.len() - k,
    {
        let s = string_of(&found[k]);
        assert(s@ == views(found@)[k as int]);
        let ghost before = string_views(out@);
        out.push(s);
        assert(string_views(out@) =~= before.push(views(found@)[k as int]));
        k = k + 1;
        assert(string_views(out@) =~= views(found@).take(k as int));
    }
    assert(views(found@).take(found.len() as int) =~= views(found@));
    assert(string_views(out@).to_set() =~= allowed_name_set(a)) by {
        assert forall|x: Seq<char>| #![auto]
            string_views(out@).to_set().contains(x) <==> allowed_name_set(a).contains(x) by {
            assert(string_views(out@).to_set().contains(x) <==> string_views(out@).contains(x));
        }
    }
    assert(views(found@)[0] == views(found@)[0]);
    assert(allowed_name_set(a).contains(views(found@)[0]));
    Some(out)
}

/// The final component of a Unix path, as `Path::file_name` gives it: the
/// last of the components left after dropping empty and `.` ones, unless
/// there is none or it is `..`.
pub open spec fn file_name(p: Seq<char>) -> Option<Seq<char>> {
    let comps = split_char(p, '/').filter(|c: Seq<char>| c.len() > 0 && c != "."@);
    if comps.len() == 0 || comps.last() == ".."@ {
        None
    } else {
        Some(comps.last())
    }
}

fn file_name_chars(p: &Vec<char>) -> (r: Option<Vec<char>>)
    ensures
        match r {
            Some(v) => file_name(p@) == Some(v@),
            None => file_name(p@) is None,
        },
{
    let parts = split_on(p, '/');
    let dot = lit(".");
    let ghost keep = |c: Seq<char>| c.len() > 0 && c != "."@;
    let mut comps: Vec<Vec<char>> = Vec::new();
    let mut i: usize = 0;
    assert(views(parts@).take(0) =~= Seq::<Seq<char>>::empty());
    proof {
        reveal_with_fuel(Seq::filter, 1);
    }
    while i < parts.len()
        invariant
            i <= parts.len(),
            dot@ == "."@,
            keep == (|c: Seq<char>| c.len() > 0 && c != "."@),
            views(comps@) == views(parts@).take(i as int).filter(keep),
        decreases parts.len() - i,
    {
        let ghost before = views(comps@);
        let ghost pre = views(parts@).take(i as int);
        assert(views(parts@).take(i + 1) =~= pre.push(parts@[i as int]@));
        proof {
            assert(pre.push(parts@[i as int]@).drop_last() =~= pre);
            reveal_with_fuel(Seq::filter, 1);
        }
        if parts[i].len() > 0 && !same_chars(&parts[i], &dot) {
            comps.push(parts[i].clone());
            assert(views(comps@) =~= before.push(parts@[i as int]@));
        }
        i = i + 1;
    }
    assert(views(parts@).take(parts.len() as int) =~= views(parts@));
    if comps.len() == 0 {
        return None;
    }
    let last = comps[comps.len() - 1].clone();
    assert(last@ == views(comps@).last());
    if same_chars(&last, &lit("..")) {
        None
    } else {
        Some(last)
    }
}

/// `String::from_utf8_lossy`: the text of `bytes` with each invalid
/// sequence replaced by U+FFFD.
pub uninterp spec fn lossy_utf8(bytes: Seq<u8>) -> Seq<char>;

/// `String::from_utf8_lossy`. What it gives back is named `lossy_utf8`; the
/// contract also says that valid UTF-8 is decoded unchanged, which the
/// function's documentation promises. How invalid sequences are replaced is
/// left unsaid.
#[verifier::external_body]
fn utf8_lossy_chars(bytes: &[u8]) -> (r: Vec<char>)
    ensures
        r@ == lossy_utf8(bytes@),
        valid_utf8(bytes@) ==> r@ == decode_utf8(bytes@),
{
    String::from_utf8_lossy(bytes).chars().collect()
}

/// The name of a process as its command line shows it: the file name of
/// its first NUL-separated argument, trimmed and lower-cased.
pub open spec fn command_name(cmdline: Seq<u8>) -> Seq<char> {
    let first = cmdline.take(first_nul(cmdline));
    match file_name(lossy_utf8(first)) {
        Some(n) => normalize_name(n),
        None => Seq::empty(),
    }
}

/// The index of the first NUL byte, or the length when there is none.
pub open spec fn first_nul(b: Seq<u8>) -> int {
    if exists|i: int| 0 <= i < b.len() && b[i] == 0 {
        choose|i: int| 0 <= i < b.len() && b[i] == 0 && forall|j: int| 0 <= j < i ==> b[j] != 0
    } else {
        b.len() as int
    }
}

/// Whether a process with this `comm` text (when it could be read) and
/// this command line (when it could be read) is one of `names`: its `comm`
/// or the file name of its first argument, trimmed and lower-cased, is one
/// of them as a whole.
pub open spec fn process_matches_spec(
    comm: Option<Seq<char>>,
    cmdline: Option<Seq<u8>>,
    names: Set<Seq<char>>,
) -> bool {
    ||| (comm matches Some(c) && names.contains(normalize_name(c)))
    ||| (cmdline matches Some(b) && {
        let first = b.take(first_nul(b));
        &&& first.len() > 0
        &&& command_name(b).len() > 0
        &&& names.contains(command_name(b))
    })
}

fn contains_string(names: &Vec<String>, x: &Vec<char>) -> (b: bool)
    ensures
        b == string_views(names@).contains(x@),
        b == string_views(names@).to_set().contains(x@),
{
    let mut i: usize = 0;
    while i < names.len()
        invariant
            i <= names.len(),
            forall|j: int| 0 <= j < i ==> string_views(names@)[j] != x@,
        decreases names.len() - i,
    {
        let c = chars_of(names[i].as_str());
        if same_chars(&c, x) {
            assert(string_views(names@)[i as int] == x@);
            return true;
        }
        i = i + 1;
    }
    false
}

/// Whether the process whose `comm` and `cmdline` files held these values
/// (`None` where a file could not be read) is one of `names`.
pub fn process_name_matches(comm: Option<&str>, cmdline: Option<&[u8]>, names: &Vec<String>) -> (b:
    bool)
    ensures
        b == process_matches_spec(
            match comm {
                Some(c) => Some(c@),
                None => None,
            },
            match cmdline {
                Some(c) => Some(c@),
                None => None,
            },
            string_views(names@).to_set(),
        ),
{
    let ghost nv = string_views(names@);
    let comm_hit = match comm {
        Some(c) => {
            let t = trim_chars(&chars_of(c));
            let n = lower_chars(&t);
            contains_string(names, &n)
        },
        None => false,
    };
    if comm_hit {
        return true;
    }
    let bytes = match cmdline {
        Some(b) => b,
        None => {
            return false;
        },
    };
    let mut end: usize = 0;
    while end < bytes.len() && bytes[end] != 0
        invariant
            end <= bytes.len(),
            forall|j: int| 0 <= j < end ==> bytes@[j] != 0,
        decreases bytes.len() - end,
    {
        end = end + 1;
    }
    assert(end == first_nul(bytes@)) by {
        if exists|i: int| 0 <= i < bytes@.len() && bytes@[i] == 0 {
            let k = choose|i: int|
                0 <= i < bytes@.len() && bytes@[i] == 0 && forall|j: int|
                    0 <= j < i ==> bytes@[j] != 0;
            assert(end < bytes.len());
            assert(!(k < end));
            assert(!(end < k));
        }
    }
    if end == 0 {
        return false;
    }
    let mut first: Vec<u8> = Vec::new();
    let mut i: usize = 0;
    while i < end
        invariant
            i <= end <= bytes.len(),
            first@ == bytes@.take(i as int),
        decreases end - i,
    {
        first.push(bytes[i]);
        i = i + 1;
        assert(first@ =~= bytes@.take(i as int));
    }
    let command = utf8_lossy_chars(first.as_slice());
    let name = match file_name_chars(&command) {
        Some(n) => lower_chars(&trim_chars(&n)),
        None => Vec::new(),
    };
    if name.len() == 0 {
        return false;
    }
    contains_string(names, &name)
}

/// The process id a `/proc` entry stands for: its name read as a `u32`;
/// other entries are no processes.
pub fn pid_of(entry_name: &str) -> (r: Option<u32>)
    ensures
        match r {
            Some(p) => parse_unsigned(entry_name@, u32::MAX as nat) == Some(p as nat),
            None => parse_unsigned(entry_name@, u32::MAX as nat) is None,
        },
{
    match parse_unsigned_chars(&chars_of(entry_name), u32::MAX as u64) {
        Some(v) => Some(v as u32),
        None => None,
    }
}

/// What the daemon reads of one process in `/proc`: its `comm` text and
/// its command line, each `None` where it could not be read.
pub struct ProcessInfo {
    pub comm: Option<String>,
    pub cmdline: Option<Vec<u8>>,
}

pub open spec fn comm_view(p: ProcessInfo) -> Option<Seq<char>> {
    match p.comm {
        Some(c) => Some(c@),
        None => None,
    }
}

pub open spec fn cmdline_view(p: ProcessInfo) -> Option<Seq<u8>> {
    match p.cmdline {
        Some(b) => Some(b@),
        None => None,
    }
}

/// Whether an allowed process runs: always when no allowed name is left
/// after trimming and lower-casing, and when the process table could not
/// be read (`None`); otherwise when some process of the table has an
/// allowed name.
pub open spec fn allowed_running_spec(allowed: Seq<Seq<char>>, table: Option<Seq<ProcessInfo>>) -> bool {
    let names = allowed_name_set(allowed);
    ||| names.is_empty()
    ||| table is None
    ||| exists|i: int|
        0 <= i < table->Some_0.len() && process_matches_spec(
            comm_view(#[trigger] table->Some_0[i]),
            cmdline_view(table->Some_0[i]),
            names,
        )
}

/// Whether a process with an allowed name runs, given the processes read
/// from `/proc` (`None` when it could not be read).
pub fn any_allowed_process_running(allowed: &[String], table: Option<&Vec<ProcessInfo>>) -> (b: bool)
    ensures
        b == allowed_running_spec(
            string_views(allowed@),
            match table {
                Some(t) => Some(t@),
                None => None,
            },
        ),
{
    let names = match allowed_process_names(allowed) {
        Some(v) => v,
        None => {
            return true;
        },
    };
    let t = match table {
        Some(t) => t,
        None => {
            return true;
        },
    };
    let ghost set = allowed_name_set(string_views(allowed@));
    assert(string_views(names@).to_set() =~= set);
    let mut i: usize = 0;
    while i < t.len()
        invariant
            i <= t.len(),
            string_views(names@).to_set() == set,
            set == allowed_name_set(string_views(allowed@)),
            !set.is_empty(),
            match table {
                Some(tt) => tt@ == t@,
                None => false,
            },
            forall|j: int|
                0 <= j < i ==> !process_matches_spec(
                    comm_view(#[trigger] t@[j]),
                    cmdline_view(t@[j]),
                    set,
                ),
        decreases t.len() - i,
    {
        let p = &t[i];
        let comm = match &p.comm {
            Some(c) => Some(c.as_str()),
            None => None,
        };
        let cmdline = match &p.cmdline {
            Some(b) => Some(b.as_slice()),
            None => None,
        };
        if process_name_matches(comm, cmdline, &names) {
            assert(process_matches_spec(comm_view(t@[i as int]), cmdline_view(t@[i as int]), set));
            return true;
        }
        i = i + 1;
    }
    false
}

} // verus!
